//! Persistent notes that outlive a conversation.
//!
//! Plain Markdown, one file per scope, each entry a `- ` line carrying its
//! source and date. Two tiers: domain state (`<scope>.md`) the agent writes
//! directly, and personal preferences (`preferences.md`), rules about the
//! user that shape every later conversation, which are only ever written
//! through a reviewed proposal. Direct writes are refused here rather than
//! merely discouraged in a prompt. The files themselves are read and
//! written outside the library; here is what goes into them.

use vstd::prelude::*;

use crate::text::{
    chars_views, contains_spec, decimal, decimal_spec, join, join_spec, lines, lines_spec, lit, occurs_at,
    path_join, path_join_spec, push_char, push_str, str_contains, string_of, strings_view, trim, trim_spec,
    trim_start_spec,
};

verus! {

/// The scope whose entries are rules about the user; gated.
pub const PREFERENCES: &'static str = "preferences";

/// The header of a new scope file: what it is and how to undo an entry.
pub open spec fn header_spec(scope: Seq<char>) -> Seq<char> {
    "# "@ + scope
        + "\n\n<!-- SeekCLI memory. Plain Markdown: edit or delete any line by hand.\n     Each entry carries its source and the date it was written.\n     To forget one: delete its line here, or ask the agent to. -->\n\n"@
}

pub fn header(scope: &str) -> (r: String)
    ensures
        r@ == header_spec(scope@),
{
    let mut r = lit("# ");
    push_str(&mut r, scope);
    push_str(
        &mut r,
        "\n\n<!-- SeekCLI memory. Plain Markdown: edit or delete any line by hand.\n     Each entry carries its source and the date it was written.\n     To forget one: delete its line here, or ask the agent to. -->\n\n",
    );
    r
}

/// Today's local date, `YYYY-MM-DD` (`chrono::Local::now`). Nothing is
/// claimed of the value.
#[verifier::external_body]
fn today() -> String {
    chrono::Local::now().format("%Y-%m-%d").to_string()
}

/// A char allowed in a scope name, which becomes a file name.
pub open spec fn scope_char(c: char) -> bool {
    ('a' <= c && c <= 'z') || ('A' <= c && c <= 'Z') || ('0' <= c && c <= '9') || c == '-' || c == '_'
}

/// The file of `scope` under `dir`, or why the name is refused: it must be
/// non-empty (once trimmed) and only ASCII letters, digits, `-` and `_`, so
/// it cannot escape the directory.
pub open spec fn path_spec(dir: Seq<char>, scope: Seq<char>) -> Result<Seq<char>, Seq<char>> {
    let clean = trim_spec(scope);
    if clean.len() == 0 {
        Err("scope must not be empty"@)
    } else if !(forall|i: int| 0 <= i < clean.len() ==> scope_char(#[trigger] clean[i])) {
        Err("scope `"@ + clean + "` must be ASCII letters, digits, `-` or `_` (it becomes a filename)"@)
    } else {
        Ok(path_join_spec(dir, clean + ".md"@))
    }
}

/// The lines of `text` that are entries (`- ` once indented space is
/// ignored), with trailing white space removed.
pub open spec fn entry_lines_spec(text: Seq<char>) -> Seq<Seq<char>> {
    lines_spec(text).map_values(|l: Seq<char>| crate::text::trim_end_spec(l)).filter(
        |l: Seq<char>| occurs_at(trim_start_spec(l), "- "@, 0),
    )
}

fn is_entry(l: &[char]) -> (b: bool)
    ensures
        b == occurs_at(trim_start_spec(l@), "- "@, 0),
{
    let t = crate::text::trim_start_chars(l);
    let p = crate::text::chars_of("- ");
    crate::text::starts_with(t.as_slice(), p.as_slice())
}

/// The entry lines of a scope file.
pub fn entry_lines(text: &str) -> (r: Vec<String>)
    ensures
        strings_view(r@) == entry_lines_spec(text@),
{
    let cs = crate::text::chars_of(text);
    let ls = lines(cs.as_slice());
    let ghost trimmed = chars_views(ls@).map_values(|l: Seq<char>| crate::text::trim_end_spec(l));
    let ghost pred = |l: Seq<char>| occurs_at(trim_start_spec(l), "- "@, 0);
    let mut out: Vec<String> = Vec::new();
    let mut i: usize = 0;
    assert(trimmed.take(0).filter(pred) =~= Seq::<Seq<char>>::empty());
    while i < ls.len()
        invariant
            i <= ls@.len(),
            chars_views(ls@) == lines_spec(text@),
            trimmed == chars_views(ls@).map_values(|l: Seq<char>| crate::text::trim_end_spec(l)),
            pred == (|l: Seq<char>| occurs_at(trim_start_spec(l), "- "@, 0)),
            strings_view(out@) == trimmed.take(i as int).filter(pred),
        decreases ls.len() - i,
    {
        let t = crate::text::trim_end_chars(ls[i].as_slice());
        assert(t@ == trimmed[i as int]);
        proof {
            trimmed.take(i as int).lemma_filter_push(trimmed[i as int], pred);
            assert(trimmed.take(i as int).push(trimmed[i as int]) =~= trimmed.take(i + 1));
        }
        if is_entry(t.as_slice()) {
            let ghost before = out@;
            out.push(string_of(t.as_slice()));
            assert(strings_view(out@) =~= strings_view(before).push(t@));
        }
        i += 1;
    }
    assert(trimmed.take(ls@.len() as int) =~= trimmed);
    out
}

/// How many entries a scope file holds: entry lines, not lines.
pub fn count_entries(text: &str) -> (n: usize)
    ensures
        n == entry_lines_spec(text@).len(),
{
    entry_lines(text).len()
}

/// One scope and how many entries it holds.
#[derive(Debug, Clone, PartialEq)]
pub struct ScopeSummary {
    pub name: String,
    pub entries: usize,
}

/// What a memory operation asks of the file system.
#[derive(Debug, Clone, PartialEq)]
pub enum MemoryUpdate {
    /// Write `content` to `path`, then report `message`.
    Write { path: String, content: String, message: String },
    /// Nothing to write; report `message`.
    Unchanged { message: String },
}

/// `text` ending in a newline, adding one if needed.
pub open spec fn with_newline(text: Seq<char>) -> Seq<char> {
    if text.len() > 0 && text.last() == '\n' { text } else { text.push('\n') }
}

/// The outcome of appending `entry` (from `source`) to `scope` on `today`,
/// given what the scope file holds (`None` when it cannot be read: a new
/// file starts from the header).
pub open spec fn append_spec(
    dir: Seq<char>,
    scope: Seq<char>,
    entry: Seq<char>,
    source: Seq<char>,
    existing: Option<Seq<char>>,
    today: Seq<char>,
) -> Result<(Option<(Seq<char>, Seq<char>)>, Seq<char>), Seq<char>> {
    let e = trim_spec(entry);
    if trim_spec(scope) == PREFERENCES@ {
        Err("`preferences` is gated: it holds rules about the user that apply to every future conversation. Propose it instead, and the user decides."@)
    } else if e.len() == 0 {
        Err("entry must not be empty"@)
    } else {
        match path_spec(dir, scope) {
            Err(m) => Err(m),
            Ok(path) => {
                let base = match existing {
                    Some(t) => t,
                    None => header_spec(scope),
                };
                if contains_spec(base, e) {
                    Ok((None, "`"@ + scope + "` already records that; nothing appended"@))
                } else {
                    let src = if trim_spec(source).len() == 0 { "agent"@ } else { trim_spec(source) };
                    let line = "- "@ + e + " <!-- "@ + src + " \u{b7} "@ + today + " -->\n"@;
                    Ok((Some((path, with_newline(base) + line)), "recorded in `"@ + scope + "`: "@ + e))
                }
            },
        }
    }
}

/// An entry line that holds `needle`.
pub open spec fn is_hit(needle: Seq<char>, l: Seq<char>) -> bool {
    occurs_at(trim_start_spec(l), "- "@, 0) && contains_spec(l, needle)
}

/// The outcome of forgetting the entry of `scope` that holds `needle`, given
/// the scope file's text (`None` when it cannot be read). Ambiguity is
/// refused: deleting the wrong memory would go unnoticed.
pub open spec fn forget_spec(dir: Seq<char>, scope: Seq<char>, needle: Seq<char>, text: Option<Seq<char>>) -> Result<
    ((Seq<char>, Seq<char>), Seq<char>),
    Seq<char>,
> {
    let n = trim_spec(needle);
    if n.len() == 0 {
        Err("give the text to forget"@)
    } else {
        match path_spec(dir, scope) {
            Err(m) => Err(m),
            Ok(path) => match text {
                None => Err("no memory for scope `"@ + scope + "` to forget from"@),
                Some(t) => {
                    let ls = lines_spec(t);
                    let hits = ls.filter(|l: Seq<char>| is_hit(n, l));
                    if hits.len() == 0 {
                        Err("nothing in `"@ + scope + "` contains `"@ + n + "`"@)
                    } else if hits.len() > 1 {
                        Err("`"@ + n + "` matches "@ + decimal_spec(hits.len()) + " entries in `"@ + scope
                            + "`; be more specific:\n"@ + join_spec(hits, "\n"@))
                    } else {
                        let kept = ls.filter(|l: Seq<char>| !is_hit(n, l));
                        Ok(((path, join_spec(kept, "\n"@).push('\n')), "forgot from `"@ + scope + "`:\n"@ + hits[0]))
                    }
                },
            },
        }
    }
}

pub open spec fn update_spec(u: MemoryUpdate) -> (Option<(Seq<char>, Seq<char>)>, Seq<char>) {
    match u {
        MemoryUpdate::Write { path, content, message } => (Some((path@, content@)), message@),
        MemoryUpdate::Unchanged { message } => (None, message@),
    }
}

pub open spec fn opt_str(o: Option<&str>) -> Option<Seq<char>> {
    match o {
        Some(t) => Some(t@),
        None => None,
    }
}

/// `r` is what [`append_spec`] gives for these inputs.
pub open spec fn appended_as(
    dir: Seq<char>,
    scope: Seq<char>,
    entry: Seq<char>,
    source: Seq<char>,
    existing: Option<Seq<char>>,
    today: Seq<char>,
    r: Result<MemoryUpdate, String>,
) -> bool {
    match r {
        Ok(u) => append_spec(dir, scope, entry, source, existing, today) == Ok::<
            (Option<(Seq<char>, Seq<char>)>, Seq<char>),
            Seq<char>,
        >(update_spec(u)),
        Err(m) => append_spec(dir, scope, entry, source, existing, today) == Err::<
            (Option<(Seq<char>, Seq<char>)>, Seq<char>),
            Seq<char>,
        >(m@),
    }
}

/// Where the memory files live.
pub struct MemoryStore {
    pub dir: String,
}

fn all_scope_chars(s: &[char]) -> (b: bool)
    ensures
        b == (forall|i: int| 0 <= i < s@.len() ==> scope_char(#[trigger] s@[i])),
{
    let mut i: usize = 0;
    while i < s.len()
        invariant
            i <= s@.len(),
            forall|j: int| 0 <= j < i ==> scope_char(#[trigger] s@[j]),
        decreases s.len() - i,
    {
        let c = s[i];
        if !(('a' <= c && c <= 'z') || ('A' <= c && c <= 'Z') || ('0' <= c && c <= '9') || c == '-' || c == '_') {
            assert(!scope_char(s@[i as int]));
            return false;
        }
        i += 1;
    }
    true
}

impl MemoryStore {
    pub fn dir(&self) -> (r: &String)
        ensures
            r@ == self.dir@,
    {
        &self.dir
    }

    /// The file of `scope`, or why the name is refused.
    pub fn path_of(&self, scope: &str) -> (r: Result<String, String>)
        ensures
            match r {
                Ok(p) => path_spec(self.dir@, scope@) == Ok::<Seq<char>, Seq<char>>(p@),
                Err(m) => path_spec(self.dir@, scope@) == Err::<Seq<char>, Seq<char>>(m@),
            },
    {
        let clean = trim(scope);
        let cs = crate::text::chars_of(clean.as_str());
        if cs.len() == 0 {
            return Err(lit("scope must not be empty"));
        }
        if !all_scope_chars(cs.as_slice()) {
            let mut m = lit("scope `");
            push_str(&mut m, clean.as_str());
            push_str(&mut m, "` must be ASCII letters, digits, `-` or `_` (it becomes a filename)");
            return Err(m);
        }
        let mut file = clean;
        push_str(&mut file, ".md");
        Ok(path_join(self.dir.as_str(), file.as_str()))
    }

    /// What reading a scope that has no file yet answers: not an error, as
    /// "nothing remembered yet" is a real answer.
    pub fn missing_scope_text(scope: &str) -> (r: String)
        ensures
            r@ == "(no memory for scope `"@ + scope@ + "` yet \u{2014} nothing has been recorded)"@,
    {
        let mut r = lit("(no memory for scope `");
        push_str(&mut r, scope);
        push_str(&mut r, "` yet \u{2014} nothing has been recorded)");
        r
    }

    /// Append one entry to a domain scope, dated `today`.
    pub fn append_on(&self, scope: &str, entry: &str, source: &str, existing: Option<&str>, today: &str) -> (r: Result<MemoryUpdate, String>)
        ensures
            appended_as(self.dir@, scope@, entry@, source@, opt_str(existing), today@, r),
    {
        let sc = trim(scope);
        if crate::text::str_eq(sc.as_str(), PREFERENCES) {
            return Err(lit("`preferences` is gated: it holds rules about the user that apply to every future conversation. Propose it instead, and the user decides."));
        }
        let e = trim(entry);
        if e.as_str().is_empty() {
            return Err(lit("entry must not be empty"));
        }
        let path = match self.path_of(scope) {
            Ok(p) => p,
            Err(m) => return Err(m),
        };
        let base = match existing {
            Some(t) => lit(t),
            None => header(scope),
        };
        if str_contains(base.as_str(), e.as_str()) {
            let mut m = lit("`");
            push_str(&mut m, scope);
            push_str(&mut m, "` already records that; nothing appended");
            return Ok(MemoryUpdate::Unchanged { message: m });
        }
        let st = trim(source);
        let src = if st.as_str().is_empty() { lit("agent") } else { st };
        let ghost base_v = base@;
        let mut content = base;
        let bc = crate::text::chars_of(content.as_str());
        if !(bc.len() > 0 && bc[bc.len() - 1] == '\n') {
            push_char(&mut content, '\n');
        }
        assert(content@ == with_newline(base_v));
        push_str(&mut content, "- ");
        push_str(&mut content, e.as_str());
        push_str(&mut content, " <!-- ");
        push_str(&mut content, src.as_str());
        push_str(&mut content, " \u{b7} ");
        push_str(&mut content, today);
        push_str(&mut content, " -->\n");
        assert(content@ =~= with_newline(base_v) + ("- "@ + e@ + " <!-- "@ + src@ + " \u{b7} "@ + today@ + " -->\n"@));
        let mut m = lit("recorded in `");
        push_str(&mut m, scope);
        push_str(&mut m, "`: ");
        push_str(&mut m, e.as_str());
        Ok(MemoryUpdate::Write { path, content, message: m })
    }

    /// Append one entry to a domain scope, dated today. `existing` is what
    /// the scope's file holds, `None` when it cannot be read.
    pub fn append(&self, scope: &str, entry: &str, source: &str, existing: Option<&str>) -> (r: Result<MemoryUpdate, String>)
        ensures
            exists|today: Seq<char>| #[trigger] appended_as(self.dir@, scope@, entry@, source@, opt_str(existing), today, r),
    {
        let d = today();
        self.append_on(scope, entry, source, existing, d.as_str())
    }
}

/// The preferences scope can never be written directly, whatever the entry,
/// source, file or date: a rule about the user lands only through the
/// proposal gate.
pub proof fn preferences_are_gated(
    dir: Seq<char>,
    scope: Seq<char>,
    entry: Seq<char>,
    source: Seq<char>,
    existing: Option<Seq<char>>,
    today: Seq<char>,
)
    requires
        trim_spec(scope) == PREFERENCES@,
    ensures
        append_spec(dir, scope, entry, source, existing, today) is Err,
{
}

/// Recording what the file already holds writes nothing.
pub proof fn appending_twice_does_not_duplicate(
    dir: Seq<char>,
    scope: Seq<char>,
    entry: Seq<char>,
    source: Seq<char>,
    existing: Seq<char>,
    today: Seq<char>,
)
    requires
        contains_spec(existing, trim_spec(entry)),
    ensures
        append_spec(dir, scope, entry, source, Some(existing), today) matches Ok((w, _)) ==> w is None,
{
}


/// `r` is what landing the accepted preference `entry` on `today` gives,
/// given what the preferences file holds (`None` when it cannot be read).
pub open spec fn accepted_as(
    dir: Seq<char>,
    entry: Seq<char>,
    existing: Option<Seq<char>>,
    today: Seq<char>,
    r: Result<MemoryUpdate, String>,
) -> bool {
    match r {
        Ok(u) => path_spec(dir, PREFERENCES@) matches Ok(p) && update_spec(u) == (
            Some((
                p,
                with_newline(
                    match existing {
                        Some(t) => t,
                        None => header_spec(PREFERENCES@),
                    },
                ) + "- "@ + trim_spec(entry) + " <!-- accepted by the user \u{b7} "@ + today + " -->\n"@,
            )),
            "preference recorded: "@ + trim_spec(entry),
        ),
        Err(m) => path_spec(dir, PREFERENCES@) == Err::<Seq<char>, Seq<char>>(m@),
    }
}

impl MemoryStore {
    /// Remove the one entry of `scope` that holds `needle`. `text` is what
    /// the scope's file holds, `None` when it cannot be read.
    pub fn forget(&self, scope: &str, needle: &str, text: Option<&str>) -> (r: Result<MemoryUpdate, String>)
        ensures
            match r {
                Ok(u) => u is Write && (forget_spec(self.dir@, scope@, needle@, opt_str(text)) matches Ok((w, m))
                    && update_spec(u) == (Some(w), m)),
                Err(m) => forget_spec(self.dir@, scope@, needle@, opt_str(text)) == Err::<((Seq<char>, Seq<char>), Seq<char>), Seq<char>>(m@),
            },
    {
        let n = trim(needle);
        if n.as_str().is_empty() {
            return Err(lit("give the text to forget"));
        }
        let path = match self.path_of(scope) {
            Ok(p) => p,
            Err(m) => return Err(m),
        };
        let t = match text {
            Some(t) => t,
            None => {
                let mut m = lit("no memory for scope `");
                push_str(&mut m, scope);
                push_str(&mut m, "` to forget from");
                return Err(m);
            },
        };
        let cs = crate::text::chars_of(t);
        let ls = lines(cs.as_slice());
        let ghost lv = chars_views(ls@);
        let ghost hp = |l: Seq<char>| is_hit(n@, l);
        let ghost kp = |l: Seq<char>| !is_hit(n@, l);
        let mut hits: Vec<String> = Vec::new();
        let mut kept: Vec<String> = Vec::new();
        let mut i: usize = 0;
        assert(lv.take(0).filter(hp) =~= Seq::<Seq<char>>::empty());
        assert(lv.take(0).filter(kp) =~= Seq::<Seq<char>>::empty());
        while i < ls.len()
            invariant
                i <= ls@.len(),
                lv == chars_views(ls@),
                lv == lines_spec(t@),
                hp == (|l: Seq<char>| is_hit(n@, l)),
                kp == (|l: Seq<char>| !is_hit(n@, l)),
                strings_view(hits@) == lv.take(i as int).filter(hp),
                strings_view(kept@) == lv.take(i as int).filter(kp),
            decreases ls.len() - i,
        {
            let line = string_of(ls[i].as_slice());
            assert(line@ == lv[i as int]);
            proof {
                lv.take(i as int).lemma_filter_push(lv[i as int], hp);
                lv.take(i as int).lemma_filter_push(lv[i as int], kp);
                assert(lv.take(i as int).push(lv[i as int]) =~= lv.take(i + 1));
            }
            let entry = crate::text::trim_start_chars(ls[i].as_slice());
            let dash = crate::text::chars_of("- ");
            let is_entry = crate::text::starts_with(entry.as_slice(), dash.as_slice());
            if is_entry && str_contains(line.as_str(), n.as_str()) {
                let ghost before = hits@;
                hits.push(line);
                assert(strings_view(hits@) =~= strings_view(before).push(lv[i as int]));
            } else {
                let ghost before = kept@;
                kept.push(line);
                assert(strings_view(kept@) =~= strings_view(before).push(lv[i as int]));
            }
            i += 1;
        }
        assert(lv.take(ls@.len() as int) =~= lv);
        if hits.len() == 0 {
            let mut m = lit("nothing in `");
            push_str(&mut m, scope);
            push_str(&mut m, "` contains `");
            push_str(&mut m, n.as_str());
            push_str(&mut m, "`");
            return Err(m);
        }
        if hits.len() > 1 {
            let mut m = lit("`");
            push_str(&mut m, n.as_str());
            push_str(&mut m, "` matches ");
            push_str(&mut m, decimal(hits.len() as u64).as_str());
            push_str(&mut m, " entries in `");
            push_str(&mut m, scope);
            push_str(&mut m, "`; be more specific:\n");
            push_str(&mut m, join(hits.as_slice(), "\n").as_str());
            return Err(m);
        }
        let mut content = join(kept.as_slice(), "\n");
        push_char(&mut content, '\n');
        let mut m = lit("forgot from `");
        push_str(&mut m, scope);
        push_str(&mut m, "`:\n");
        push_str(&mut m, hits[0].as_str());
        Ok(MemoryUpdate::Write { path, content, message: m })
    }

    /// Land an accepted preference proposal, dated `today`. `existing` is
    /// what the preferences file holds, `None` when it cannot be read.
    pub fn accept_preference_on(&self, entry: &str, existing: Option<&str>, today: &str) -> (r: Result<MemoryUpdate, String>)
        ensures
            accepted_as(self.dir@, entry@, opt_str(existing), today@, r),
    {
        let path = match self.path_of(PREFERENCES) {
            Ok(p) => p,
            Err(m) => return Err(m),
        };
        let base = match existing {
            Some(t) => lit(t),
            None => header(PREFERENCES),
        };
        let e = trim(entry);
        let ghost base_v = base@;
        let mut content = base;
        let bc = crate::text::chars_of(content.as_str());
        if !(bc.len() > 0 && bc[bc.len() - 1] == '\n') {
            push_char(&mut content, '\n');
        }
        assert(content@ == with_newline(base_v));
        push_str(&mut content, "- ");
        push_str(&mut content, e.as_str());
        push_str(&mut content, " <!-- accepted by the user \u{b7} ");
        push_str(&mut content, today);
        push_str(&mut content, " -->\n");
        let mut m = lit("preference recorded: ");
        push_str(&mut m, e.as_str());
        Ok(MemoryUpdate::Write { path, content, message: m })
    }

    /// Land an accepted preference proposal, dated today.
    pub fn accept_preference(&self, entry: &str, existing: Option<&str>) -> (r: Result<MemoryUpdate, String>)
        ensures
            exists|today: Seq<char>| #[trigger] accepted_as(self.dir@, entry@, opt_str(existing), today, r),
    {
        let d = today();
        self.accept_preference_on(entry, existing, d.as_str())
    }

    /// The preferences to inject: their entry lines, one per line; empty
    /// when there are none. `text` is the preferences file, if readable.
    pub fn preferences(&self, text: Option<&str>) -> (r: String)
        ensures
            r@ == match text {
                Some(t) => join_spec(entry_lines_spec(t@), "\n"@),
                None => Seq::empty(),
            },
    {
        match text {
            Some(t) => {
                let ls = entry_lines(t);
                join(ls.as_slice(), "\n")
            },
            None => String::new(),
        }
    }
}

/// Whether `s` is in ascending order of name.
pub open spec fn by_name(s: Seq<ScopeSummary>) -> bool {
    forall|i: int, j: int| 0 <= i < j < s.len() ==> crate::record::lex_le(#[trigger] s[i].name@, #[trigger] s[j].name@)
}

/// `s` is the summary of the file `f`: its stem and its entry count.
pub open spec fn summarizes(s: ScopeSummary, f: (String, String)) -> bool {
    s.name@ == f.0@ && s.entries == entry_lines_spec(f.1@).len()
}

/// A summary as a plain pair: name and entry count.
pub open spec fn summary_pair(s: ScopeSummary) -> (Seq<char>, nat) {
    (s.name@, s.entries as nat)
}

/// The summary of the file `(stem, text)`.
pub open spec fn file_pair(f: (String, String)) -> (Seq<char>, nat) {
    (f.0@, entry_lines_spec(f.1@).len())
}

/// The index of scopes: each file's stem and entry count, ordered by name.
/// `files` are the `(stem, text)` of the memory directory's `.md` files.
pub fn summarize_scopes(files: &[(String, String)]) -> (r: Vec<ScopeSummary>)
    ensures
        by_name(r@),
        r@.map_values(|s: ScopeSummary| summary_pair(s)).to_multiset()
            == files@.map_values(|f: (String, String)| file_pair(f)).to_multiset(),
{
    let mut r: Vec<ScopeSummary> = Vec::new();
    let ghost fv = files@.map_values(|f: (String, String)| file_pair(f));
    let mut i: usize = 0;
    assert(r@.map_values(|s: ScopeSummary| summary_pair(s)) =~= fv.take(0));
    while i < files.len()
        invariant
            i <= files@.len(),
            fv == files@.map_values(|f: (String, String)| file_pair(f)),
            by_name(r@),
            r@.map_values(|s: ScopeSummary| summary_pair(s)).to_multiset() == fv.take(i as int).to_multiset(),
        decreases files.len() - i,
    {
        let x = ScopeSummary { name: files[i].0.clone(), entries: count_entries(files[i].1.as_str()) };
        assert(summary_pair(x) == fv[i as int]);
        let mut p: usize = 0;
        while p < r.len() && crate::record::str_le(r[p].name.as_str(), x.name.as_str())
            invariant
                p <= r@.len(),
                forall|k: int| 0 <= k < p ==> crate::record::lex_le(#[trigger] r@[k].name@, x.name@),
            decreases r.len() - p,
        {
            p += 1;
        }
        let ghost before = r@;
        proof {
            assert forall|k: int| p <= k < before.len() implies crate::record::lex_le(x.name@, #[trigger] before[k].name@) by {
                crate::record::lemma_lex_total(before[p as int].name@, x.name@);
                if k > p {
                    crate::record::lemma_lex_trans(x.name@, before[p as int].name@, before[k].name@);
                }
            }
        }
        r.insert(p, x);
        proof {
            let bv = before.map_values(|s: ScopeSummary| summary_pair(s));
            assert(r@.map_values(|s: ScopeSummary| summary_pair(s)) =~= bv.insert(p as int, summary_pair(x)));
            vstd::seq_lib::to_multiset_insert(bv, p as int, summary_pair(x));
            assert(fv.take(i + 1) =~= fv.take(i as int).push(fv[i as int]));
            vstd::seq_lib::to_multiset_build(fv.take(i as int), fv[i as int]);
            assert forall|a: int, b: int| 0 <= a < b < r@.len() implies crate::record::lex_le(
                #[trigger] r@[a].name@,
                #[trigger] r@[b].name@,
            ) by {
                if b < p {
                } else if b == p {
                } else if a < p {
                    crate::record::lemma_lex_trans(r@[a].name@, r@[p as int].name@, r@[b].name@);
                } else if a == p {
                } else {
                }
            }
        }
        i += 1;
    }
    assert(fv.take(files@.len() as int) =~= fv);
    r
}

} // verus!
