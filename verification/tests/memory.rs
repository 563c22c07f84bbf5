use seekcli::memory::{count_entries, entry_lines, header, summarize_scopes, MemoryStore, MemoryUpdate, PREFERENCES};

fn store() -> MemoryStore {
    MemoryStore { dir: "/home/u/.seekcli/memory".to_string() }
}

/// Apply an update to a one-file "disk" and return the message.
fn apply(file: &mut Option<String>, u: MemoryUpdate) -> String {
    match u {
        MemoryUpdate::Write { content, message, .. } => {
            *file = Some(content);
            message
        }
        MemoryUpdate::Unchanged { message } => message,
    }
}

fn append(s: &MemoryStore, file: &mut Option<String>, scope: &str, entry: &str, source: &str) -> Result<String, String> {
    let u = s.append(scope, entry, source, file.as_deref())?;
    Ok(apply(file, u))
}

#[test]
fn preferences_cannot_be_written_directly() {
    let s = store();
    let err = match s.append(PREFERENCES, "the user is bad at maths", "agent", None) {
        Err(e) => e,
        Ok(v) => panic!("a direct preference write must be refused, got {v:?}"),
    };
    assert!(err.contains("gated"), "{err}");
    assert!(err.contains("Propose"), "the refusal must name the way through: {err}");
}

#[test]
fn domain_state_is_written_directly() {
    let s = store();
    let mut file = None;
    match append(&s, &mut file, "ielts", "target band 7.0, exam 2026-12", "user") {
        Ok(msg) => assert!(msg.contains("ielts"), "{msg}"),
        Err(e) => panic!("domain write failed: {e}"),
    }
    let body = file.unwrap_or_default();
    assert!(body.contains("target band 7.0"), "{body}");
    // Source and date travel with the entry.
    assert!(body.contains("user \u{b7}"), "{body}");
    // And the file says how to undo it.
    assert!(body.contains("delete its line"), "{body}");
}

#[test]
fn the_write_goes_to_the_scopes_file() {
    let s = store();
    match s.append("ielts", "x", "t", None) {
        Ok(MemoryUpdate::Write { path, .. }) => assert_eq!(path, "/home/u/.seekcli/memory/ielts.md"),
        other => panic!("expected a write, got {other:?}"),
    }
}

#[test]
fn an_unknown_scope_reads_as_empty_rather_than_failing() {
    let out = MemoryStore::missing_scope_text("nothing");
    assert!(out.contains("nothing has been recorded"), "{out}");
}

#[test]
fn a_scope_name_cannot_escape_the_memory_directory() {
    let s = store();
    for hostile in ["../../etc/passwd", "a/b", "..", "with space"] {
        assert!(s.append(hostile, "x", "t", None).is_err(), "`{hostile}` must be refused");
        assert!(s.path_of(hostile).is_err(), "`{hostile}` must be refused");
    }
    assert!(s.path_of("   ").is_err());
}

#[test]
fn an_ambiguous_forget_is_refused_rather_than_guessed() {
    let s = store();
    let mut file = None;
    let _ = append(&s, &mut file, "cqf", "weak on stochastic calculus", "t");
    let _ = append(&s, &mut file, "cqf", "weak on numerical methods", "t");
    let err = match s.forget("cqf", "weak on", file.as_deref()) {
        Err(e) => e,
        Ok(v) => panic!("expected a refusal, got {v:?}"),
    };
    assert!(err.contains("matches 2"), "{err}");
    // Nothing was removed.
    let body = file.unwrap_or_default();
    assert!(body.contains("stochastic"), "{body}");
    assert!(body.contains("numerical"), "{body}");
}

#[test]
fn a_unique_forget_removes_exactly_one_entry() {
    let s = store();
    let mut file = None;
    let _ = append(&s, &mut file, "ielts", "weak on Task 2", "t");
    let _ = append(&s, &mut file, "ielts", "target band 7.0", "t");
    match s.forget("ielts", "Task 2", file.as_deref()) {
        Ok(u) => {
            let msg = apply(&mut file, u);
            assert!(msg.contains("Task 2"), "{msg}");
        }
        Err(e) => panic!("forget failed: {e}"),
    }
    let body = file.unwrap_or_default();
    assert!(!body.contains("Task 2"), "{body}");
    assert!(body.contains("target band 7.0"), "the rest must survive: {body}");
}

#[test]
fn forgetting_from_a_missing_file_or_with_no_text_is_refused() {
    let s = store();
    assert_eq!(
        s.forget("ielts", "x", None).err().as_deref(),
        Some("no memory for scope `ielts` to forget from")
    );
    assert_eq!(s.forget("ielts", "  ", Some("- a\n")).err().as_deref(), Some("give the text to forget"));
    assert_eq!(
        s.forget("ielts", "zzz", Some("- a\n")).err().as_deref(),
        Some("nothing in `ielts` contains `zzz`")
    );
}

#[test]
fn the_index_counts_entries_not_lines() {
    let s = store();
    let mut finance = None;
    let mut ielts = None;
    let _ = append(&s, &mut finance, "finance", "watching NVDA", "user");
    let _ = append(&s, &mut finance, "finance", "watching TSM", "user");
    let _ = append(&s, &mut ielts, "ielts", "target band 7.0", "user");
    let files = vec![
        ("ielts".to_string(), ielts.unwrap_or_default()),
        ("finance".to_string(), finance.unwrap_or_default()),
    ];
    let scopes = summarize_scopes(&files);
    assert_eq!(scopes.len(), 2, "{scopes:?}");
    // Header lines and blank lines must not inflate the count.
    assert_eq!(scopes[0].name, "finance");
    assert_eq!(scopes[0].entries, 2, "{scopes:?}");
    assert_eq!(scopes[1].entries, 1, "{scopes:?}");
}

#[test]
fn recording_the_same_thing_twice_does_not_duplicate_it() {
    let s = store();
    let mut file = None;
    let _ = append(&s, &mut file, "ielts", "target band 7.0", "user");
    let msg = append(&s, &mut file, "ielts", "target band 7.0", "user").unwrap_or_default();
    assert!(msg.contains("already"), "{msg}");
    assert_eq!(count_entries(&file.unwrap_or_default()), 1);
}

#[test]
fn an_accepted_preference_lands_marked_as_the_users_decision() {
    let s = store();
    let mut file = None;
    match s.accept_preference("answer in Chinese unless asked otherwise", None) {
        Ok(u) => {
            let msg = apply(&mut file, u);
            assert!(msg.contains("Chinese"), "{msg}");
        }
        Err(e) => panic!("accept failed: {e}"),
    }
    let body = file.clone().unwrap_or_default();
    assert!(body.contains("accepted by the user"), "{body}");
    assert!(s.preferences(file.as_deref()).contains("answer in Chinese"), "{body}");
}

#[test]
fn a_dated_entry_has_the_documented_shape() {
    let s = store();
    let u = s.append_on("ielts", "  band 7  ", "  ", Some("# ielts\n"), "2026-01-02").ok().expect("written");
    match u {
        MemoryUpdate::Write { content, message, .. } => {
            assert_eq!(content, "# ielts\n- band 7 <!-- agent \u{b7} 2026-01-02 -->\n");
            assert_eq!(message, "recorded in `ielts`: band 7");
        }
        other => panic!("expected a write, got {other:?}"),
    }
    let u = s.accept_preference_on("short answers", Some("x"), "2026-01-02").ok().expect("written");
    match u {
        MemoryUpdate::Write { content, .. } => {
            assert_eq!(content, "x\n- short answers <!-- accepted by the user \u{b7} 2026-01-02 -->\n");
        }
        other => panic!("expected a write, got {other:?}"),
    }
}

#[test]
fn entry_lines_skip_headers_and_blanks() {
    let text = format!("{}- one  \n  - two\nnot an entry\n", header("x"));
    assert_eq!(entry_lines(&text), vec!["- one".to_string(), "  - two".to_string()]);
    assert_eq!(count_entries(&text), 2);
    assert_eq!(store().preferences(None), "");
}
