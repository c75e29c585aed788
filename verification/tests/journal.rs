use obsctl::vault::{date_text, has_md_extension, less, replace, JournalDate, VaultError, VaultService};

fn day(year: i32, month: u32, day: u32) -> JournalDate {
    JournalDate::new(year, month, day).unwrap()
}

fn chars(s: &str) -> Vec<char> {
    s.chars().collect()
}

#[test]
fn journal_directory_is_named_journal() {
    assert_eq!(VaultService::new().journal_dir(), "Journal");
}

#[test]
fn filename_is_the_iso_date_with_md() {
    assert_eq!(VaultService::filename_for(&day(2024, 1, 1)), "2024-01-01.md");
    assert_eq!(VaultService::filename_for(&day(1999, 12, 31)), "1999-12-31.md");
}

#[test]
fn date_text_pads_with_zeros() {
    assert_eq!(date_text(&day(2024, 2, 29)), "2024-02-29");
    assert_eq!(date_text(&day(987, 6, 5)), "0987-06-05");
    assert_eq!(date_text(&day(0, 1, 1)), "0000-01-01");
}

#[test]
fn date_text_signs_years_outside_four_digits() {
    assert_eq!(date_text(&day(12345, 1, 2)), "+12345-01-02");
    assert_eq!(date_text(&day(-1, 3, 4)), "-0001-03-04");
    assert_eq!(date_text(&day(-262143, 1, 1)), "-262143-01-01");
    assert_eq!(date_text(&day(262142, 12, 31)), "+262142-12-31");
}

#[test]
fn date_text_is_what_chrono_writes() {
    for (y, m, d) in [(2024, 1, 1), (1, 1, 1), (10000, 10, 10), (-44, 3, 15), (9999, 12, 31)] {
        let expected =
            chrono::NaiveDate::from_ymd_opt(y, m, d).unwrap().format("%Y-%m-%d").to_string();
        assert_eq!(date_text(&day(y, m, d)), expected);
    }
}

#[test]
fn path_for_a_date_is_the_same_every_time() {
    let s = VaultService::new();
    let first = s.path_for(Some("2024-01-01")).unwrap();
    let second = s.path_for(Some("2024-01-01")).unwrap();
    assert_eq!(first.path, "Journal/2024-01-01.md");
    assert_eq!(second.path, first.path);
    assert_eq!(first.date, day(2024, 1, 1));
    assert_eq!(second.date, first.date);
}

#[test]
fn path_for_refuses_what_is_no_date() {
    let s = VaultService::new();
    for text in ["", "today", "2024-13-01", "2024-02-30", "01-01-2024", "2024/01/01"] {
        match s.path_for(Some(text)) {
            Err(VaultError::InvalidDate(t)) => assert_eq!(t, text),
            Ok(note) => panic!("{:?} was read as {:?}", text, note.date),
        }
    }
}

#[test]
fn invalid_date_says_which_text() {
    let e = VaultError::InvalidDate("soon".to_string());
    assert_eq!(e.message(), "invalid date format: soon");
}

#[test]
fn path_for_today_is_the_note_of_today() {
    let s = VaultService::new();
    let before = chrono::Local::now().date_naive();
    let note = s.path_for(None).unwrap();
    let after = chrono::Local::now().date_naive();
    let expected = |d: chrono::NaiveDate| format!("Journal/{}.md", d.format("%Y-%m-%d"));
    assert!(note.path == expected(before) || note.path == expected(after));
    assert_eq!(note.path, format!("Journal/{}", VaultService::filename_for(&note.date)));
}

#[test]
fn today_path_is_a_note_of_the_journal() {
    let s = VaultService::new();
    let before = chrono::Local::now().date_naive();
    let path = s.today_path();
    let after = chrono::Local::now().date_naive();
    let expected = |d: chrono::NaiveDate| format!("Journal/{}.md", d.format("%Y-%m-%d"));
    assert!(path == expected(before) || path == expected(after));
}

#[test]
fn note_for_parsed_maps_both_outcomes() {
    let s = VaultService::new();
    let note = s.note_for_parsed(Some(day(2023, 7, 4)), "ignored").unwrap();
    assert_eq!(note.path, "Journal/2023-07-04.md");
    assert_eq!(note.date, day(2023, 7, 4));
    match s.note_for_parsed(None, "nonsense") {
        Err(VaultError::InvalidDate(t)) => assert_eq!(t, "nonsense"),
        Ok(_) => panic!("no date was given"),
    }
}

#[test]
fn existing_note_is_not_seeded_again() {
    assert_eq!(VaultService::ensure_daily_file(true, "# Daily {{date}}\n", &day(2024, 1, 1)), None);
}

#[test]
fn new_note_is_seeded_from_the_template() {
    let seed = VaultService::ensure_daily_file(false, "# Daily {{date}}\n\n- \n", &day(2024, 1, 1));
    assert_eq!(seed, Some("# Daily 2024-01-01\n\n- \n".to_string()));
}

#[test]
fn every_placeholder_is_filled() {
    let seed =
        VaultService::ensure_daily_file(false, "{{date}} and {{date}}{{date}} {date}", &day(2024, 12, 5));
    assert_eq!(seed, Some("2024-12-05 and 2024-12-052024-12-05 {date}".to_string()));
    let plain = VaultService::ensure_daily_file(false, "no placeholder", &day(2024, 12, 5));
    assert_eq!(plain, Some("no placeholder".to_string()));
}

#[test]
fn replace_agrees_with_std_replace() {
    let cases = [
        ("# Daily {{date}}", "{{date}}", "2024-01-01"),
        ("aaaa", "aa", "b"),
        ("aaa", "aa", "b"),
        ("abc", "x", "y"),
        ("", "x", "y"),
        ("xxx", "x", ""),
        ("{{date}", "{{date}}", "d"),
        ("{{{date}}}", "{{date}}", "d"),
    ];
    for (s, p, t) in cases {
        let got: String = replace(&chars(s), &chars(p), &chars(t)).iter().collect();
        assert_eq!(got, s.replace(p, t), "{:?} {:?} {:?}", s, p, t);
    }
}

#[test]
fn append_adds_the_text_and_a_line_feed() {
    let s = VaultService::new();
    let a = s.append_for_date(day(2024, 1, 1), "- [ ] call home");
    assert_eq!(a.path, "Journal/2024-01-01.md");
    assert_eq!(a.date, day(2024, 1, 1));
    assert_eq!(a.line, "- [ ] call home\n");
    assert_eq!(s.append_for_date(day(2024, 1, 1), "").line, "\n");
}

#[test]
fn append_today_goes_to_the_note_of_today() {
    let s = VaultService::new();
    let a = s.append_today("note");
    assert_eq!(a.line, "note\n");
    assert_eq!(a.path, format!("Journal/{}", VaultService::filename_for(&a.date)));
    let today = chrono::Local::now().date_naive();
    let days = (today - chrono::NaiveDate::from_ymd_opt(a.date.year(), a.date.month(), a.date.day()).unwrap())
        .num_days();
    assert!(days == 0 || days == 1);
}

fn names(list: &[&str]) -> Vec<String> {
    list.iter().map(|n| n.to_string()).collect()
}

#[test]
fn recent_notes_come_newest_first() {
    let s = VaultService::new();
    let found = s.list_recent(
        &names(&["2024-01-02.md", "2023-12-31.md", "2024-01-10.md", "2024-01-01.md"]),
        10,
    );
    assert_eq!(
        found,
        vec![
            "Journal/2024-01-10.md",
            "Journal/2024-01-02.md",
            "Journal/2024-01-01.md",
            "Journal/2023-12-31.md"
        ]
    );
}

#[test]
fn recent_notes_stop_at_the_limit() {
    let s = VaultService::new();
    let all = names(&["2024-01-02.md", "2023-12-31.md", "2024-01-10.md"]);
    assert_eq!(s.list_recent(&all, 2), vec!["Journal/2024-01-10.md", "Journal/2024-01-02.md"]);
    assert_eq!(s.list_recent(&all, 0), Vec::<String>::new());
    assert_eq!(s.list_recent(&all, 3).len(), 3);
    assert_eq!(s.list_recent(&vec![], 5), Vec::<String>::new());
}

#[test]
fn recent_notes_are_the_md_files() {
    let s = VaultService::new();
    let found = s.list_recent(
        &names(&["notes.txt", "2024-01-01.md", ".md", "md", "a.md", "b.MD", "c.md.bak", "..md"]),
        10,
    );
    assert_eq!(found, vec!["Journal/a.md", "Journal/2024-01-01.md", "Journal/..md"]);
}

#[test]
fn md_extension_is_what_std_takes_for_it() {
    for name in ["a.md", ".md", "md", "a.b.md", "a.md.txt", "..md", "a.", "x.Md", "\u{e9}.md"] {
        let expected =
            std::path::Path::new(name).extension().map(|e| e == "md").unwrap_or(false);
        assert_eq!(has_md_extension(&chars(name)), expected, "{:?}", name);
    }
}

#[test]
fn less_is_the_order_of_strings() {
    let samples = ["", "a", "ab", "b", "2024-01-01.md", "2024-01-10.md", "\u{e9}", "z", "a\u{1F525}"];
    for a in samples {
        for b in samples {
            assert_eq!(less(&chars(a), &chars(b)), a < b, "{:?} < {:?}", a, b);
        }
    }
}

#[test]
fn dates_are_the_days_of_the_calendar() {
    assert!(JournalDate::new(2024, 2, 29).is_some());
    assert!(JournalDate::new(2023, 2, 29).is_none());
    assert!(JournalDate::new(1900, 2, 29).is_none());
    assert!(JournalDate::new(2000, 2, 29).is_some());
    assert!(JournalDate::new(2024, 4, 31).is_none());
    assert!(JournalDate::new(2024, 0, 1).is_none());
    assert!(JournalDate::new(2024, 13, 1).is_none());
    assert!(JournalDate::new(2024, 1, 0).is_none());
    assert!(JournalDate::new(2024, 1, 32).is_none());
    assert!(JournalDate::new(-4, 2, 29).is_some());
    assert!(JournalDate::new(262142, 12, 31).is_some());
    assert!(JournalDate::new(262143, 1, 1).is_none());
    assert!(JournalDate::new(-262143, 1, 1).is_some());
    assert!(JournalDate::new(-262144, 12, 31).is_none());
    let d = JournalDate::new(2024, 2, 29).unwrap();
    assert_eq!((d.year(), d.month(), d.day()), (2024, 2, 29));
}

#[test]
fn dates_are_the_dates_that_chrono_holds() {
    for year in [-262144, -262143, -401, -400, -100, -4, -1, 0, 1, 4, 100, 1900, 2000, 2023, 2024, 262142, 262143] {
        for month in 0..=13u32 {
            for d in 0..=32u32 {
                assert_eq!(
                    JournalDate::new(year, month, d).is_some(),
                    chrono::NaiveDate::from_ymd_opt(year, month, d).is_some(),
                    "{}-{}-{}",
                    year,
                    month,
                    d
                );
            }
        }
    }
}
