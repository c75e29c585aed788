use obsctl::codec::{extract_title, NewTask, Priority, TaskRecord};

fn parse(line: &str) -> Option<(usize, bool, String, String)> {
    TaskRecord::parse(line).map(|r| (r.id, r.done, r.title, r.raw_text))
}

fn record(id: usize, done: bool, title: &str, raw: &str) -> Option<(usize, bool, String, String)> {
    Some((id, done, title.to_string(), raw.to_string()))
}

fn task(title: &str) -> NewTask {
    NewTask { title: title.to_string(), due_date: None, recurrence: None, priority: None }
}

#[test]
fn parse_reads_an_open_record() {
    assert_eq!(parse("- [ ] (1) Buy milk"), record(1, false, "Buy milk", "- [ ] (1) Buy milk"));
}

#[test]
fn parse_reads_a_done_record() {
    assert_eq!(parse("- [x] (2) B"), record(2, true, "B", "- [x] (2) B"));
    assert_eq!(parse("- [X] (3) C"), record(3, true, "C", "- [X] (3) C"));
}

#[test]
fn parse_takes_any_other_status_for_open() {
    assert_eq!(parse("- [?] (4) D"), record(4, false, "D", "- [?] (4) D"));
    assert_eq!(parse("- [-] (4) D"), record(4, false, "D", "- [-] (4) D"));
}

#[test]
fn parse_trims_the_line() {
    assert_eq!(parse("   - [ ] (7) A  \t"), record(7, false, "A", "- [ ] (7) A"));
    assert_eq!(parse("- [ ] (7) A\r"), record(7, false, "A", "- [ ] (7) A"));
}

#[test]
fn parse_allows_any_space_before_the_identifier() {
    assert_eq!(parse("- [ ](5) A"), record(5, false, "A", "- [ ](5) A"));
    assert_eq!(parse("- [ ]   (5)A"), record(5, false, "A", "- [ ]   (5)A"));
}

#[test]
fn parse_reads_a_record_without_title() {
    assert_eq!(parse("- [ ] (9)"), record(9, false, "", "- [ ] (9)"));
    assert_eq!(parse("- [ ] (9) "), record(9, false, "", "- [ ] (9)"));
}

#[test]
fn parse_reads_identifiers_as_std_does() {
    assert_eq!(parse("- [ ] (+5) A").map(|r| r.0), Some(5));
    assert_eq!(parse("- [ ] (007) A").map(|r| r.0), Some(7));
    assert_eq!(parse("- [ ] (0) A").map(|r| r.0), Some(0));
    assert_eq!(parse("- [ ] (18446744073709551615) A").map(|r| r.0), Some(usize::MAX));
    assert_eq!(parse("- [ ] (18446744073709551616) A"), None);
    assert_eq!(parse("- [ ] () A"), None);
    assert_eq!(parse("- [ ] (1 ) A"), None);
    assert_eq!(parse("- [ ] (-1) A"), None);
    assert_eq!(parse("- [ ] (a) A"), None);
}

#[test]
fn parse_skips_lines_that_are_no_records() {
    assert_eq!(parse("# Tasks"), None);
    assert_eq!(parse(""), None);
    assert_eq!(parse("   "), None);
    assert_eq!(parse("- [ ] Example task"), None);
    assert_eq!(parse("- [ ]"), None);
    assert_eq!(parse("- [ ] (1"), None);
    assert_eq!(parse("* [ ] (1) A"), None);
    assert_eq!(parse("-[ ] (1) A"), None);
    assert_eq!(parse("some prose (1)"), None);
}

#[test]
fn parse_skips_malformed_status_tokens() {
    assert_eq!(parse("- [] (1) A"), None);
    assert_eq!(parse("- [ab] (1) A"), None);
    assert_eq!(parse("- [link](1) A"), None);
    assert_eq!(parse("- [\u{2713}] (1) A"), None);
    assert_eq!(parse("- [\u{e9}] (1) A"), None);
}

#[test]
fn parse_cuts_the_title_at_the_first_marker() {
    let due = "- [ ] (1) Pay rent \u{1F4C5} 2024-02-01";
    assert_eq!(parse(due), record(1, false, "Pay rent", due));
    let repeat = "- [ ] (1) Water plants \u{1F501} weekly";
    assert_eq!(parse(repeat), record(1, false, "Water plants", repeat));
    let low = "- [ ] (1) Later \u{2B07}\u{FE0F}";
    assert_eq!(parse(low), record(1, false, "Later", low));
    let medium = "- [ ] (1) Soon \u{23EB}";
    assert_eq!(parse(medium), record(1, false, "Soon", medium));
    let high = "- [ ] (1) Now \u{1F525}";
    assert_eq!(parse(high), record(1, false, "Now", high));
}

#[test]
fn parse_does_not_depend_on_marker_order() {
    let line = "- [ ] (1) Mixed \u{1F525} \u{1F501} daily \u{1F4C5} 2024-02-01";
    assert_eq!(parse(line), record(1, false, "Mixed", line));
}

#[test]
fn parse_keeps_an_arrow_without_its_selector_in_the_title() {
    let line = "- [ ] (1) Down \u{2B07} here";
    assert_eq!(parse(line), record(1, false, "Down \u{2B07} here", line));
}

#[test]
fn extract_title_is_the_text_before_the_first_marker() {
    assert_eq!(extract_title("Plain title"), "Plain title");
    assert_eq!(extract_title("A \u{1F4C5} 2024-01-01 \u{1F525}"), "A");
    assert_eq!(extract_title("\u{23EB} only marker"), "");
    assert_eq!(extract_title("  spaced  \u{1F501} x"), "spaced");
    assert_eq!(extract_title(""), "");
}

#[test]
fn render_writes_the_plain_line() {
    assert_eq!(task("Buy milk").render(1), "- [ ] (1) Buy milk");
    assert_eq!(task("").render(12), "- [ ] (12) ");
}

#[test]
fn render_writes_the_metadata_in_fixed_order() {
    let t = NewTask {
        title: "Pay rent".to_string(),
        due_date: Some("2024-02-01".to_string()),
        recurrence: Some("monthly".to_string()),
        priority: Some(Priority::High),
    };
    assert_eq!(
        t.render(3),
        "- [ ] (3) Pay rent \u{1F4C5} 2024-02-01 \u{1F501} monthly \u{1F525}"
    );
}

#[test]
fn render_leaves_out_what_is_not_given() {
    let due = NewTask { due_date: Some("2024-02-01".to_string()), ..task("A") };
    assert_eq!(due.render(1), "- [ ] (1) A \u{1F4C5} 2024-02-01");
    let repeat = NewTask { recurrence: Some("weekly".to_string()), ..task("A") };
    assert_eq!(repeat.render(1), "- [ ] (1) A \u{1F501} weekly");
    let low = NewTask { priority: Some(Priority::Low), ..task("A") };
    assert_eq!(low.render(1), "- [ ] (1) A \u{2B07}\u{FE0F}");
    let medium = NewTask { priority: Some(Priority::Medium), ..task("A") };
    assert_eq!(medium.render(1), "- [ ] (1) A \u{23EB}");
}

#[test]
fn render_chars_are_the_characters_of_render() {
    let t = NewTask { priority: Some(Priority::Low), ..task("caf\u{e9}") };
    let cs: String = t.render_chars(usize::MAX).iter().collect();
    assert_eq!(cs, t.render(usize::MAX));
    assert_eq!(cs, format!("- [ ] ({}) caf\u{e9} \u{2B07}\u{FE0F}", usize::MAX));
}

#[test]
fn priority_markers_are_the_three_glyphs() {
    assert_eq!(Priority::Low.marker(), "\u{2B07}\u{FE0F}");
    assert_eq!(Priority::Medium.marker(), "\u{23EB}");
    assert_eq!(Priority::High.marker(), "\u{1F525}");
}

#[test]
fn rendered_task_reads_back() {
    let t = NewTask {
        title: "Write (the) report".to_string(),
        due_date: Some("2024-03-01".to_string()),
        recurrence: None,
        priority: Some(Priority::Medium),
    };
    let line = t.render(42);
    assert_eq!(parse(&line), record(42, false, "Write (the) report", &line));
}

#[test]
fn rendered_task_without_title_reads_back() {
    let t = NewTask { due_date: Some("2024-03-01".to_string()), ..task("") };
    let line = t.render(5);
    assert_eq!(line, "- [ ] (5)  \u{1F4C5} 2024-03-01");
    assert_eq!(parse(&line), record(5, false, "", &line));
}

fn flip(line: &str, done: bool) -> String {
    TaskRecord::parse(line).unwrap().into_status_line(done)
}

#[test]
fn status_line_switches_the_token() {
    assert_eq!(flip("- [ ] (1) A", true), "- [x] (1) A");
    assert_eq!(flip("- [x] (1) A", false), "- [ ] (1) A");
    assert_eq!(flip("- [X] (1) A", true), "- [x] (1) A");
    assert_eq!(flip("- [X] (1) A", false), "- [ ] (1) A");
}

#[test]
fn status_line_is_idempotent() {
    assert_eq!(flip("- [x] (1) A", true), "- [x] (1) A");
    assert_eq!(flip("- [ ] (1) A", false), "- [ ] (1) A");
    assert_eq!(flip(&flip("- [ ] (1) A", true), true), "- [x] (1) A");
}

#[test]
fn status_line_leaves_the_rest_of_the_line_alone() {
    let odd = "- [ ]    (3)   odd   spacing \u{1F525}  \u{1F4C5} tomorrow";
    assert_eq!(flip(odd, true), "- [x]    (3)   odd   spacing \u{1F525}  \u{1F4C5} tomorrow");
    assert_eq!(flip("- [x] (1) see [ ] and [ ]", true), "- [x] (1) see [ ] and [ ]");
    assert_eq!(flip("- [ ] (1) see [x] there", false), "- [ ] (1) see [x] there");
}

#[test]
fn status_line_leaves_other_tokens_alone() {
    assert_eq!(flip("- [?] (1) A", true), "- [?] (1) A");
    assert_eq!(flip("- [?] (1) A", false), "- [?] (1) A");
}

#[test]
fn status_line_of_any_text() {
    let r = TaskRecord { id: 1, done: false, title: String::new(), raw_text: "nothing".into() };
    assert_eq!(r.into_status_line(true), "nothing");
    let s = TaskRecord { id: 1, done: false, title: String::new(), raw_text: "- [ ]".into() };
    assert_eq!(s.into_status_line(true), "- [x]");
}

#[test]
fn entry_keeps_the_record() {
    let e = TaskRecord::parse("  - [x] (8) Done thing \u{1F525}").unwrap().into_entry();
    assert_eq!(e.id, 8);
    assert!(e.done);
    assert_eq!(e.title, "Done thing");
    assert_eq!(e.raw, "- [x] (8) Done thing \u{1F525}");
}
