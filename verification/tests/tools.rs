use obsctl::cli::config_cmd::{ConfigCommand, ConfigInitArgs, ConfigPathArgs, ConfigPlan};
use obsctl::cli::note::{NoteAddArgs, NoteCommand, NoteListArgs, NoteOpenArgs, NotePlan};
use obsctl::cli::search::{SearchArgs, SearchCommand, SearchPlan};
use obsctl::cli::task::{
    TaskAddArgs, TaskCommand, TaskDoneArgs, TaskListArgs, TaskPriority, TaskStatus,
};
use obsctl::cli::version::{VersionCommand, VersionInfo, VersionOutput};
use obsctl::cli::{run, Cli, Commands, Invocation};
use obsctl::config::{
    default_config_path, default_root_dir, default_vault_path, AppConfig, AppContext,
    ConfigError, ConfigManager,
};
use obsctl::search::{
    map_exec_error, report_lines, RgData, RgMatch, RgMessage, RgText, SearchError, SearchService,
};
use obsctl::server::{
    append_daily, call_tool, check_scope, check_update_request, effective_limit, entry_with_id,
    internal_error, normalize_status, query_knowledge, status_of_word, summarize_text,
    summarize_today, update_task_status, ObsctlMcpServer, ToolError, ToolKind,
};
use obsctl::tasks::{TaskError, TaskService};
use obsctl::templates::{
    ensure_file, install_defaults, load_daily_template, load_task_template, load_template,
    DAILY_TEMPLATE, TASK_TEMPLATE,
};
use obsctl::vault::{VaultError, VaultService};

fn words(list: &[&str]) -> Vec<String> {
    list.iter().map(|w| w.to_string()).collect()
}

fn context() -> AppContext {
    AppContext::load(
        "/home/u/.obsctl/config.toml".to_string(),
        AppConfig::new("/home/u/vault", "/home/u/vault/templates/daily.md", "/t/task.md"),
    )
}

fn ledger(text: &str) -> TaskService {
    TaskService::new(Some(text.to_string()), "")
}

#[test]
fn templates_have_their_skeletons() {
    assert_eq!(
        DAILY_TEMPLATE,
        "# Daily {{date}}\n\n## Highlights\n\n- \n\n## Tasks\n\n- [ ] \n\n## Notes\n\n- \n"
    );
    assert_eq!(TASK_TEMPLATE, "# Tasks\n\n- [ ] Example task\n");
}

#[test]
fn template_is_the_stored_text_or_the_skeleton() {
    assert_eq!(load_daily_template(None), DAILY_TEMPLATE);
    assert_eq!(load_daily_template(Some("mine {{date}}".to_string())), "mine {{date}}");
    assert_eq!(load_task_template(None), TASK_TEMPLATE);
    assert_eq!(load_task_template(Some(String::new())), "");
    assert_eq!(load_template(None, "d"), "d");
    assert_eq!(load_template(Some("s".to_string()), "d"), "s");
}

#[test]
fn template_files_are_installed_with_their_skeletons() {
    let files = install_defaults();
    assert_eq!(files.len(), 2);
    assert_eq!(files[0].path, "templates/daily.md");
    assert_eq!(files[0].default, DAILY_TEMPLATE);
    assert_eq!(files[1].path, "templates/task.md");
    assert_eq!(files[1].default, TASK_TEMPLATE);
}

#[test]
fn ensure_file_writes_only_what_is_missing() {
    assert_eq!(ensure_file(true, "x"), None);
    assert_eq!(ensure_file(false, "x"), Some("x".to_string()));
}

#[test]
fn task_template_seeds_a_ledger_without_records() {
    let mut s = TaskService::new(None, &load_task_template(None));
    assert_eq!(s.last_id(), 0);
    let id = s.add_task(obsctl::codec::NewTask {
        title: "First".to_string(),
        due_date: None,
        recurrence: None,
        priority: None,
    });
    assert_eq!(id, 1);
    assert_eq!(s.text(), "# Tasks\n\n- [ ] Example task\n- [ ] (1) First\n");
}

#[test]
fn new_config_has_the_defaults() {
    let c = AppConfig::new("/v", "/v/templates/daily.md", "/v/templates/task.md");
    assert_eq!(c.vault.path, "/v");
    assert_eq!(c.templates.daily, "/v/templates/daily.md");
    assert_eq!(c.templates.task, "/v/templates/task.md");
    assert_eq!(c.search.tool, "ripgrep");
    assert!(c.search.fzf_preview);
}

#[test]
fn context_takes_the_vault_root_from_the_config() {
    let ctx = context();
    assert_eq!(ctx.vault_root(), "/home/u/vault");
    assert_eq!(ctx.config_file(), "/home/u/.obsctl/config.toml");
    assert_eq!(ctx.config().vault.path, "/home/u/vault");
    assert_eq!(ctx.config().search.tool, "ripgrep");
}

#[test]
fn default_root_prefers_home() {
    assert_eq!(default_root_dir(Some("/h".into()), Some("C:\\u".into())), Ok("/h".to_string()));
    assert_eq!(default_root_dir(None, Some("C:\\u".into())), Ok("C:\\u".to_string()));
    assert_eq!(default_root_dir(None, None), Err(ConfigError::NoHomeDirectory));
    assert_eq!(
        ConfigError::NoHomeDirectory.message(),
        "unable to locate home directory for obsctl config"
    );
}

#[test]
fn default_paths_lie_under_the_root_directory() {
    assert_eq!(default_config_path(), vec![".obsctl", "config.toml"]);
    assert_eq!(default_vault_path(), vec![".obsctl", "vault"]);
    assert_eq!(ConfigManager::ensure_directories(), vec!["Journal", "Tasks", "Projects", "templates"]);
}

#[test]
fn set_up_keeps_an_existing_config() {
    let m = ConfigManager::new("/c.toml".to_string());
    assert_eq!(m.path(), "/c.toml");
    let existing = AppConfig::new("/old", "/old/d", "/old/t");
    let r = m.ensure_initialized(Some(existing), None, AppConfig::new("/fresh", "d", "t"));
    assert!(!r.save);
    assert_eq!(r.config.vault.path, "/old");
    assert_eq!(r.config.templates.daily, "/old/d");
}

#[test]
fn set_up_moves_an_existing_config_to_the_given_vault() {
    let m = ConfigManager::new("/c.toml".to_string());
    let existing = AppConfig::new("/old", "/old/d", "/old/t");
    let r = m.ensure_initialized(Some(existing), Some("/new"), AppConfig::new("/new", "d", "t"));
    assert!(r.save);
    assert_eq!(r.config.vault.path, "/new");
    assert_eq!(r.config.templates.daily, "/old/d");
}

#[test]
fn set_up_writes_a_fresh_config() {
    let m = ConfigManager::new("/c.toml".to_string());
    let r = m.ensure_initialized(None, None, AppConfig::new("/fresh", "d", "t"));
    assert!(r.save);
    assert_eq!(r.config.vault.path, "/fresh");
    let g = m.ensure_initialized(None, Some("/given"), AppConfig::new("/given", "d", "t"));
    assert!(g.save);
    assert_eq!(g.config.vault.path, "/given");
    assert_eq!(g.config.templates.task, "t");
}

#[test]
fn update_vault_path_changes_only_the_path() {
    let m = ConfigManager::new("/c.toml".to_string());
    let c = m.update_vault_path(AppConfig::new("/old", "d", "t"), "/moved");
    assert_eq!(c.vault.path, "/moved");
    assert_eq!(c.templates.daily, "d");
    assert_eq!(c.templates.task, "t");
    assert_eq!(c.search.tool, "ripgrep");
}

fn report(kind: &str, data: Option<(&str, &str, usize)>) -> RgMessage {
    RgMessage {
        kind: kind.to_string(),
        data: data.map(|(p, l, n)| RgData {
            path: RgText { text: p.to_string() },
            lines: RgText { text: l.to_string() },
            line_number: n,
        }),
    }
}

#[test]
fn match_data_is_the_data_of_a_match() {
    let m = report("match", Some(("a.md", "hit\n", 3))).match_data().unwrap();
    assert_eq!((m.path.as_str(), m.line.as_str(), m.line_number), ("a.md", "hit\n", 3));
    assert!(report("begin", Some(("a.md", "", 0))).match_data().is_none());
    assert!(report("match", None).match_data().is_none());
    assert!(report("Match", Some(("a.md", "hit", 1))).match_data().is_none());
}

#[test]
fn match_is_shown_without_final_line_feeds() {
    let shown = |line: &str| {
        RgMatch { path: "./Journal/a.md".into(), line: line.into(), line_number: 12 }.format()
    };
    assert_eq!(shown("- hit\n"), "./Journal/a.md:12: - hit");
    assert_eq!(shown("hit\n\n\n"), "./Journal/a.md:12: hit");
    assert_eq!(shown("a\nb"), "./Journal/a.md:12: a\nb");
    assert_eq!(shown("\n"), "./Journal/a.md:12: ");
    assert_eq!(shown("hit \r\n"), "./Journal/a.md:12: hit \r");
}

#[test]
fn grep_matches_are_the_first_matches() {
    let s = SearchService::new(&context());
    assert_eq!(s.root(), "/home/u/vault");
    let reports = vec![
        Some(report("begin", Some(("a.md", "", 0)))),
        Some(report("match", Some(("a.md", "one\n", 1)))),
        None,
        Some(report("match", Some(("a.md", "two\n", 2)))),
        Some(report("end", None)),
        Some(report("match", Some(("b.md", "three\n", 9)))),
    ];
    assert_eq!(s.grep_matches(&reports, 2), vec!["a.md:1: one", "a.md:2: two"]);
    assert_eq!(s.grep_matches(&reports, 5), vec!["a.md:1: one", "a.md:2: two", "b.md:9: three"]);
    assert_eq!(s.grep_matches(&reports, 0), Vec::<String>::new());
    assert_eq!(s.grep_matches(&vec![], 3), Vec::<String>::new());
}

#[test]
fn search_tools_get_their_arguments() {
    let s = SearchService::new(&context());
    assert_eq!(s.grep("to do"), vec!["--hidden", "--glob", "!.git", "to do", "."]);
    assert_eq!(
        s.grep_matches_args("to do"),
        vec!["--hidden", "--glob", "!.git", "--json", "to do", "."]
    );
    assert_eq!(s.fuzzy("note"), vec!["--ansi", "--query", "note"]);
}

#[test]
fn ripgrep_may_end_with_no_match() {
    assert_eq!(SearchService::check_exit(true, Some(0)), Ok(()));
    assert_eq!(SearchService::check_exit(false, Some(1)), Ok(()));
    assert_eq!(
        SearchService::check_exit(false, Some(2)),
        Err(SearchError::Exited { code: Some(2) })
    );
    assert_eq!(SearchService::check_exit(false, None), Err(SearchError::Exited { code: None }));
}

#[test]
fn exit_error_says_the_code() {
    assert_eq!(SearchError::Exited { code: Some(2) }.message(), "ripgrep exited with 2");
    assert_eq!(SearchError::Exited { code: Some(-7) }.message(), "ripgrep exited with -7");
    assert_eq!(
        SearchError::Exited { code: Some(i32::MIN) }.message(),
        format!("ripgrep exited with {}", i32::MIN)
    );
    assert_eq!(SearchError::Exited { code: None }.message(), "ripgrep exited with unknown");
}

#[test]
fn missing_tool_says_how_to_install_it() {
    assert_eq!(
        map_exec_error(true, "rg"),
        "`rg` was not found in PATH. Please install it before using `obsctl search`. For example:\n  \u{2022} macOS (Homebrew): brew install rg\n  \u{2022} Ubuntu/Debian:   sudo apt-get install rg\n  \u{2022} Arch Linux:      sudo pacman -S rg"
    );
    assert_eq!(map_exec_error(false, "fzf"), "failed to execute fzf");
}

#[test]
fn status_words_are_known_in_any_case() {
    for w in ["done", "complete", "completed", "finished", "DONE", "Finished"] {
        assert!(matches!(normalize_status(w), Ok(true)), "{}", w);
    }
    for w in ["open", "todo", "pending", "reopen", "reopened", "ToDo"] {
        assert!(matches!(normalize_status(w), Ok(false)), "{}", w);
    }
    match normalize_status("Maybe") {
        Err(ToolError::UnknownStatus(w)) => assert_eq!(w, "maybe"),
        other => panic!("{:?}", other),
    }
}

#[test]
fn status_of_word_takes_lowercase_words_only() {
    assert!(matches!(status_of_word("done"), Ok(true)));
    assert!(matches!(status_of_word("open"), Ok(false)));
    assert!(matches!(status_of_word("Done"), Err(ToolError::UnknownStatus(_))));
    assert!(matches!(status_of_word(""), Err(ToolError::UnknownStatus(_))));
}

#[test]
fn update_request_needs_a_status_and_a_target() {
    assert!(matches!(check_update_request(Some(1), None, "done"), Ok(true)));
    assert!(matches!(check_update_request(None, Some("A"), "OPEN"), Ok(false)));
    assert!(matches!(check_update_request(None, None, "done"), Err(ToolError::MissingTarget)));
    assert!(matches!(check_update_request(None, None, "x"), Err(ToolError::UnknownStatus(_))));
}

#[test]
fn update_by_identifier_marks_the_task() {
    let mut s = ledger("# Tasks\n- [ ] (1) A\n- [ ] (2) B\n");
    let answer = update_task_status(&mut s, Some(2), None, true).unwrap();
    assert_eq!(answer, "Task #2 marked as done");
    assert_eq!(s.text(), "# Tasks\n- [ ] (1) A\n- [x] (2) B\n");
    let again = update_task_status(&mut s, Some(2), Some("A"), false).unwrap();
    assert_eq!(again, "Task #2 marked as open");
    assert_eq!(s.text(), "# Tasks\n- [ ] (1) A\n- [ ] (2) B\n");
}

#[test]
fn update_by_title_marks_the_task() {
    let mut s = ledger("- [ ] (1) Buy milk\n- [ ] (2) Other\n");
    let answer = update_task_status(&mut s, None, Some("buy MILK"), true).unwrap();
    assert_eq!(answer, "Task #1 marked as done");
    assert_eq!(s.text(), "- [x] (1) Buy milk\n- [ ] (2) Other\n");
}

#[test]
fn update_of_an_unknown_task_changes_nothing() {
    let text = "- [ ] (1) Buy milk";
    let mut s = ledger(text);
    assert!(matches!(update_task_status(&mut s, Some(9), None, true), Err(ToolError::TaskNotFound)));
    assert!(matches!(update_task_status(&mut s, None, Some("x"), true), Err(ToolError::TaskNotFound)));
    assert!(matches!(update_task_status(&mut s, None, None, true), Err(ToolError::TaskNotFound)));
    assert_eq!(s.text(), text);
}

#[test]
fn entry_with_id_is_the_first_with_the_identifier() {
    let s = ledger("- [ ] (1) A\n- [x] (2) B\n- [ ] (2) C\n");
    let e = entry_with_id(s.tasks(), 2).unwrap();
    assert_eq!((e.id, e.title.as_str(), e.done), (2, "B", true));
    assert!(entry_with_id(s.tasks(), 3).is_none());
}

#[test]
fn query_limit_is_five_unless_told_and_at_least_one() {
    assert_eq!(effective_limit(None), 5);
    assert_eq!(effective_limit(Some(0)), 1);
    assert_eq!(effective_limit(Some(1)), 1);
    assert_eq!(effective_limit(Some(50)), 50);
}

#[test]
fn query_answers_its_matches_or_that_there_are_none() {
    assert_eq!(query_knowledge(&vec![], "milk"), "No matches for \"milk\"");
    assert_eq!(query_knowledge(&words(&["a:1: x", "b:2: y"]), "q"), "a:1: x\nb:2: y");
    assert_eq!(query_knowledge(&words(&["a:1: x"]), "q"), "a:1: x");
}

#[test]
fn summary_shows_headings_and_list_items() {
    let note = "# Daily 2024-01-01\n\n## Highlights\n\n- walked\nplain prose\n  * starred\n-no space\n#tag\n";
    assert_eq!(
        summarize_text(note),
        "# Daily 2024-01-01\n## Highlights\n- walked\n* starred\n#tag"
    );
}

#[test]
fn summary_of_a_note_without_entries_says_so() {
    assert_eq!(summarize_text(""), "No notable entries found for today.");
    assert_eq!(summarize_text("prose\n\nmore prose\n"), "No notable entries found for today.");
    assert_eq!(summarize_text("-\n*\n"), "No notable entries found for today.");
}

#[test]
fn summary_stops_after_twelve_entries() {
    let mut note = String::new();
    for i in 1..=20 {
        note.push_str(&format!("- item {}\r\n", i));
    }
    let expected: Vec<String> = (1..=12).map(|i| format!("- item {}", i)).collect();
    assert_eq!(summarize_text(&note), expected.join("\n"));
}

#[test]
fn summary_page_has_path_rule_and_summary() {
    assert_eq!(
        summarize_today("/v/Journal/2024-01-01.md", "# Day\n"),
        format!("/v/Journal/2024-01-01.md\n{}\n# Day", "-".repeat(40))
    );
}

#[test]
fn append_answer_names_the_note() {
    assert_eq!(append_daily("/v/Journal/2024-01-01.md"), "Appended entry to /v/Journal/2024-01-01.md");
}

#[test]
fn tools_are_called_by_name() {
    assert!(matches!(call_tool("append_daily_note"), Ok(ToolKind::AppendDailyNote)));
    assert!(matches!(call_tool("update_task_status"), Ok(ToolKind::UpdateTaskStatus)));
    assert!(matches!(call_tool("query_knowledge"), Ok(ToolKind::QueryKnowledge)));
    assert!(matches!(call_tool("summarize_today"), Ok(ToolKind::SummarizeToday)));
    match call_tool("delete_everything") {
        Err(ToolError::UnknownTool(n)) => assert_eq!(n, "delete_everything"),
        other => panic!("{:?}", other),
    }
    let server = ObsctlMcpServer::new(context());
    assert_eq!(
        server.list_available_tools(),
        vec!["append_daily_note", "update_task_status", "query_knowledge", "summarize_today"]
    );
    assert_eq!(server.context().vault_root(), "/home/u/vault");
}

#[test]
fn summary_scope_must_be_today() {
    assert!(check_scope(None).is_ok());
    assert!(check_scope(Some("today")).is_ok());
    assert!(check_scope(Some("TODAY")).is_ok());
    match check_scope(Some("week")) {
        Err(ToolError::BadScope(s)) => assert_eq!(s, "week"),
        other => panic!("{:?}", other),
    }
}

#[test]
fn tool_errors_say_what_went_wrong() {
    assert_eq!(ToolError::UnknownStatus("x".into()).message(), "unknown status: x");
    assert_eq!(ToolError::MissingTarget.message(), "either `id` or `title` must be provided");
    assert_eq!(ToolError::TaskNotFound.message(), "task not found");
    assert_eq!(ToolError::BadScope("week".into()).message(), "scope must be \"today\"");
    assert_eq!(ToolError::UnknownTool("t".into()).message(), "unknown tool: t");
    let e = internal_error("read tasks", "disk on fire");
    assert_eq!(e.message(), "read tasks failed");
    assert!(!e.is_invalid_params());
    assert!(ToolError::TaskNotFound.is_invalid_params());
}

#[test]
fn task_add_joins_the_words_and_reports_the_identifier() {
    let mut s = ledger("# Tasks\n");
    let cmd = TaskCommand::Add(TaskAddArgs {
        title: words(&["Pay", "the", "rent"]),
        due: Some("2024-02-01".to_string()),
        repeat: None,
        priority: Some(TaskPriority::High),
    });
    assert_eq!(obsctl::cli::task::handle(cmd, &mut s), Ok(vec!["Added task #1".to_string()]));
    assert_eq!(s.text(), "# Tasks\n- [ ] (1) Pay the rent \u{1F4C5} 2024-02-01 \u{1F525}\n");
}

#[test]
fn task_add_maps_every_priority() {
    for (p, glyph) in [
        (TaskPriority::Low, "\u{2B07}\u{FE0F}"),
        (TaskPriority::Medium, "\u{23EB}"),
        (TaskPriority::High, "\u{1F525}"),
    ] {
        let t = TaskAddArgs { title: words(&["A"]), due: None, repeat: None, priority: Some(p) }
            .into_new_task();
        assert_eq!(t.render(1), format!("- [ ] (1) A {}", glyph));
    }
}

#[test]
fn task_done_marks_and_reports() {
    let mut s = ledger("- [ ] (3) A\n");
    let done = obsctl::cli::task::handle(TaskCommand::Done(TaskDoneArgs { id: 3 }), &mut s);
    assert_eq!(done, Ok(vec!["Marked task #3 as done".to_string()]));
    assert_eq!(s.text(), "- [x] (3) A\n");
    let missing = obsctl::cli::task::handle(TaskCommand::Done(TaskDoneArgs { id: 4 }), &mut s);
    assert_eq!(missing, Err(TaskError::NotFound { id: 4 }));
    assert_eq!(s.text(), "- [x] (3) A\n");
}

#[test]
fn task_list_prints_the_filtered_records() {
    let mut s = ledger("- [ ] (1) A\n- [x] (2) B\n");
    let list = |status, s: &mut TaskService| {
        obsctl::cli::task::handle(TaskCommand::List(TaskListArgs { status }), s).unwrap()
    };
    assert_eq!(list(None, &mut s), vec!["- [ ] (1) A", "- [x] (2) B"]);
    assert_eq!(list(Some(TaskStatus::Open), &mut s), vec!["- [ ] (1) A"]);
    assert_eq!(list(Some(TaskStatus::Done), &mut s), vec!["- [x] (2) B"]);
    assert_eq!(s.text(), "- [ ] (1) A\n- [x] (2) B\n");
}

#[test]
fn task_clean_removes_done_tasks_in_silence() {
    let mut s = ledger("- [ ] (1) A\n- [x] (2) B\n");
    assert_eq!(obsctl::cli::task::handle(TaskCommand::Clean, &mut s), Ok(vec![]));
    assert_eq!(s.text(), "- [ ] (1) A\n");
}

#[test]
fn note_add_appends_the_joined_words() {
    let s = VaultService::new();
    let cmd = NoteCommand::Add(NoteAddArgs { entry: words(&["met", "Ada"]) });
    match obsctl::cli::note::handle(cmd, &s) {
        Ok(NotePlan::Append(a)) => {
            assert_eq!(a.line, "met Ada\n");
            assert_eq!(a.path, format!("Journal/{}", VaultService::filename_for(&a.date)));
        }
        _ => panic!("an append was expected"),
    }
    assert_eq!(obsctl::cli::note::appended_line("/v/Journal/x.md"), "Appended to /v/Journal/x.md");
}

#[test]
fn note_open_locates_the_note() {
    let s = VaultService::new();
    let open = |date: Option<&str>| {
        obsctl::cli::note::handle(
            NoteCommand::Open(NoteOpenArgs { date: date.map(|d| d.to_string()) }),
            &s,
        )
    };
    match open(Some("2024-01-01")) {
        Ok(NotePlan::Open(note)) => assert_eq!(note.path, "Journal/2024-01-01.md"),
        _ => panic!("a note was expected"),
    }
    match open(Some("never")) {
        Err(VaultError::InvalidDate(t)) => assert_eq!(t, "never"),
        _ => panic!("a refusal was expected"),
    }
    match open(None) {
        Ok(NotePlan::Open(note)) => {
            assert_eq!(note.path, format!("Journal/{}", VaultService::filename_for(&note.date)))
        }
        _ => panic!("a note was expected"),
    }
}

#[test]
fn note_list_asks_for_the_recent_notes() {
    let s = VaultService::new();
    match obsctl::cli::note::handle(NoteCommand::List(NoteListArgs { limit: 7 }), &s) {
        Ok(NotePlan::List { limit }) => assert_eq!(limit, 7),
        _ => panic!("a listing was expected"),
    }
    assert_eq!(obsctl::cli::note::DEFAULT_LIMIT, 5);
}

#[test]
fn search_commands_pick_their_tool() {
    let s = SearchService::new(&context());
    let grep = SearchCommand::Grep(SearchArgs { query: words(&["to", "do"]) });
    match obsctl::cli::search::handle(grep, &s) {
        SearchPlan::Grep(args) => assert_eq!(args, vec!["--hidden", "--glob", "!.git", "to do", "."]),
        SearchPlan::Fzf(_) => panic!("ripgrep was expected"),
    }
    let fzf = SearchCommand::Fzf(SearchArgs { query: words(&["daily"]) });
    match obsctl::cli::search::handle(fzf, &s) {
        SearchPlan::Fzf(args) => assert_eq!(args, vec!["--ansi", "--query", "daily"]),
        SearchPlan::Grep(_) => panic!("fzf was expected"),
    }
}

#[test]
fn config_commands_say_what_to_do() {
    let ctx = context();
    let init = ConfigCommand::Init(ConfigInitArgs { vault: Some("/v2".to_string()) });
    match obsctl::cli::config_cmd::handle(init, &ctx) {
        ConfigPlan::Initialize { vault } => assert_eq!(vault, Some("/v2".to_string())),
        _ => panic!("a set-up was expected"),
    }
    let set = ConfigCommand::Path(ConfigPathArgs { set: Some("/v3".to_string()) });
    match obsctl::cli::config_cmd::handle(set, &ctx) {
        ConfigPlan::MoveVault { path, line } => {
            assert_eq!(path, "/v3");
            assert_eq!(line, "Updated vault path to /v3");
        }
        _ => panic!("a move was expected"),
    }
    let show = ConfigCommand::Path(ConfigPathArgs { set: None });
    match obsctl::cli::config_cmd::handle(show, &ctx) {
        ConfigPlan::Show { line } => assert_eq!(line, "/home/u/vault"),
        _ => panic!("the path was expected"),
    }
    assert_eq!(obsctl::cli::config_cmd::initialized_line("/v"), "Vault initialized at /v");
}

fn info() -> VersionInfo {
    VersionInfo {
        name: "obsctl".to_string(),
        version: "0.1.0".to_string(),
        description: Some("Local knowledge and task CLI".to_string()),
        git_commit: None,
        build_timestamp: Some("2024-01-01T00:00:00Z".to_string()),
    }
}

#[test]
fn version_prints_name_and_version() {
    let plain = VersionCommand { json: false, verbose: false };
    match obsctl::cli::version::handle(plain, &info()) {
        VersionOutput::Lines(lines) => assert_eq!(lines, vec!["obsctl 0.1.0"]),
        VersionOutput::Json => panic!("lines were expected"),
    }
}

#[test]
fn verbose_version_prints_what_is_known() {
    let verbose = VersionCommand { json: false, verbose: true };
    match obsctl::cli::version::handle(verbose, &info()) {
        VersionOutput::Lines(lines) => assert_eq!(
            lines,
            vec!["obsctl 0.1.0", "Local knowledge and task CLI", "built: 2024-01-01T00:00:00Z"]
        ),
        VersionOutput::Json => panic!("lines were expected"),
    }
    let json = VersionCommand { json: true, verbose: true };
    assert!(matches!(obsctl::cli::version::handle(json, &info()), VersionOutput::Json));
}

#[test]
fn only_the_version_runs_without_the_vault() {
    let version = Cli { command: Commands::Version(VersionCommand { json: true, verbose: false }) };
    match run(version) {
        Invocation::Plain(v) => assert!(v.json && !v.verbose),
        Invocation::OnVault(_) => panic!("the version needs no vault"),
    }
    let clean = Cli { command: Commands::Task(TaskCommand::Clean) };
    assert!(matches!(run(clean), Invocation::OnVault(Commands::Task(TaskCommand::Clean))));
    let list = Cli { command: Commands::Note(NoteCommand::List(NoteListArgs { limit: 1 })) };
    assert!(matches!(run(list), Invocation::OnVault(Commands::Note(_))));
}

#[test]
fn reports_are_the_lines_that_are_not_empty() {
    let cut = |s: &str| -> Vec<String> {
        report_lines(s.as_bytes()).iter().map(|l| String::from_utf8(l.clone()).unwrap()).collect()
    };
    assert_eq!(cut("{\"a\":1}\n{\"b\":2}\n"), vec!["{\"a\":1}", "{\"b\":2}"]);
    assert_eq!(cut("a\n\n\nb"), vec!["a", "b"]);
    assert_eq!(cut("\n\n"), Vec::<String>::new());
    assert_eq!(cut(""), Vec::<String>::new());
    assert_eq!(cut("only"), vec!["only"]);
    for s in ["x\ny\n", "\nx", "x\n\ny\n\n", "", "\n"] {
        let expected: Vec<&[u8]> =
            s.as_bytes().split(|b| *b == b'\n').filter(|l| !l.is_empty()).collect();
        let got = report_lines(s.as_bytes());
        assert_eq!(got.iter().map(|l| l.as_slice()).collect::<Vec<&[u8]>>(), expected);
    }
}
