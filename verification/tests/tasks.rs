use seekcli::tasks::{
    broken_listing_line, digest_notice, listing_line, parse_interval, render_plist, task_from, unknown_task_message,
};

#[test]
fn interval_hints_parse_in_the_units_people_write() {
    assert_eq!(parse_interval("90s"), Some(90));
    assert_eq!(parse_interval("15m"), Some(900));
    assert_eq!(parse_interval("2h"), Some(7200));
    assert_eq!(parse_interval("1d"), Some(86_400));
    assert_eq!(parse_interval("600"), Some(600));
    assert_eq!(parse_interval("soon"), None);
}

#[test]
fn a_broken_definition_does_not_hide_the_other_tasks() {
    let defs = [
        ("good", "---\nname: good\ndescription: fine\n---\n\nbody\n"),
        ("bad", "no frontmatter at all\n"),
    ];
    let mut listing = String::new();
    for (name, content) in defs {
        match task_from(name, &format!("/tasks/{name}/TASK.md"), content) {
            Ok(s) => listing.push_str(&s.name),
            Err(_) => listing.push_str(&format!("{}:broken", name)),
        }
    }
    assert!(listing.contains("good"), "got: {}", listing);
    assert!(listing.contains("bad:broken"), "got: {}", listing);
}

#[test]
fn a_task_definition_reads_its_frontmatter_and_body() {
    let t = task_from("x", "/t/x/TASK.md", "---\nname: digest\nskill: writer\ninterval_hint: 1h\n---\nDo it.\n")
        .expect("parses");
    assert_eq!(t.name, "digest");
    assert_eq!(t.description, "");
    assert_eq!(t.skill.as_deref(), Some("writer"));
    assert_eq!(t.interval_hint.as_deref(), Some("1h"));
    assert_eq!(t.prompt, "Do it.\n");
}

#[test]
fn an_empty_body_is_refused() {
    let e = task_from("x", "/t/x/TASK.md", "---\nname: x\n---\n   \n").unwrap_err();
    assert!(e.starts_with("/t/x/TASK.md"), "{e}");
}

#[test]
fn listing_lines_are_aligned() {
    let t = task_from("a", "/p", "---\ndescription: d\ninterval_hint: 2h\n---\nbody\n").expect("ok");
    assert_eq!(listing_line(&t), "a            2h       d\n");
    assert!(broken_listing_line("b", "oops").starts_with("b            -        "));
}

#[test]
fn a_plist_schedules_the_task() {
    let p = render_plist("digest", "/usr/bin/seekcli", Some("1h"));
    assert!(p.contains("<string>com.seekcli.digest</string>"), "{p}");
    assert!(p.contains("<integer>3600</integer>"), "{p}");
    assert!(p.contains("<string>/usr/bin/seekcli</string>"), "{p}");
}

#[test]
fn the_digest_banner_shows_once_a_day() {
    assert!(digest_notice("2026-01-02", true, "2026-01-01", "/d.md").is_some());
    assert!(digest_notice("2026-01-02", true, "2026-01-02\n", "/d.md").is_none());
    assert!(digest_notice("2026-01-02", false, "", "/d.md").is_none());
}

#[test]
fn an_unknown_task_lists_the_known_ones() {
    let m = unknown_task_message("nope", &["a".to_string(), "b".to_string()]);
    assert!(m.contains("nope"), "{m}");
    assert!(m.contains("a"), "{m}");
}
