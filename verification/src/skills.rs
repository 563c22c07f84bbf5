//! Skills: named system prompts, stored as `<name>/SKILL.md` documents.
//!
//! A SKILL.md opens with a small YAML frontmatter between `---` lines
//! (`name`, `description`, optionally `allowed_tools` and `version`) and
//! continues with the Markdown body that becomes the skill's prompt. Only a
//! tiny subset of YAML is read: `key: scalar`, `key:` followed by indented
//! `- item` lines, quoted scalars, blank and `#` lines. Unknown keys are
//! ignored so newer files still load.

use vstd::prelude::*;

use crate::text::{
    chars_views, find, find_from, find_spec, is_whitespace, lines, lines_acc, lines_spec, lit, occurs_at, push_char,
    push_str, slice_chars, strip_cr, string_of, strings_view, trim_chars, trim_end_chars, trim_end_spec, trim_spec,
    trim_start_chars, trim_start_spec, path_join, path_join_spec, str_eq,
};

verus! {

// ------------------------------------------------------------ frontmatter

/// What the list lines that follow a `key:` line belong to.
#[derive(Debug, Clone, Copy, PartialEq, Eq)]
pub enum ListContext {
    /// No list is open.
    Plain,
    AllowedTools,
    /// A list under a key this parser does not know.
    OtherIgnored,
}

/// The fields read so far, and the open list.
pub struct FmState {
    pub name: Option<Seq<char>>,
    pub description: Option<Seq<char>>,
    pub allowed_tools: Option<Seq<Seq<char>>>,
    pub version: Option<Seq<char>>,
    pub ctx: ListContext,
}

pub open spec fn fm_initial() -> FmState {
    FmState { name: None, description: None, allowed_tools: None, version: None, ctx: ListContext::Plain }
}

/// `s` without one pair of matching surrounding quotes, double or single.
pub open spec fn strip_quotes_spec(s: Seq<char>) -> Seq<char> {
    if s.len() >= 2 && s[0] == '"' && s.last() == '"' {
        s.subrange(1, s.len() - 1)
    } else if s.len() >= 2 && s[0] == '\'' && s.last() == '\'' {
        s.subrange(1, s.len() - 1)
    } else {
        s
    }
}

/// The item of a list line (already trimmed at the start): what follows
/// `- `, or `-`.
pub open spec fn list_item(t: Seq<char>) -> Option<Seq<char>> {
    if occurs_at(t, "- "@, 0) {
        Some(t.skip(2))
    } else if occurs_at(t, "-"@, 0) {
        Some(t.skip(1))
    } else {
        None
    }
}

/// One frontmatter line read into the state.
///
/// Blank and `#` lines are skipped. An indented `- item` line adds to the
/// open list (kept only under `allowed_tools`). Otherwise the line splits at
/// its first `:`; an empty value opens a list, a scalar value closes any
/// list and sets `name`, `description` or `version` (others are ignored).
/// A line with no `:` is skipped.
pub open spec fn fm_step(st: FmState, raw: Seq<char>) -> FmState {
    let line = trim_end_spec(raw);
    let t = trim_start_spec(line);
    if t.len() == 0 || t[0] == '#' {
        st
    } else if t.len() < line.len() && list_item(t) is Some {
        let value = strip_quotes_spec(trim_spec(list_item(t)->0));
        if st.ctx == ListContext::AllowedTools {
            FmState {
                allowed_tools: Some(
                    match st.allowed_tools {
                        Some(v) => v.push(value),
                        None => seq![value],
                    },
                ),
                ..st
            }
        } else {
            st
        }
    } else {
        match find_spec(line, ":"@) {
            None => st,
            Some(i) => {
                let key = trim_spec(line.take(i as int));
                let value = trim_spec(line.skip(i + 1 as int));
                if value.len() == 0 {
                    FmState {
                        ctx: if key == "allowed_tools"@ {
                            ListContext::AllowedTools
                        } else {
                            ListContext::OtherIgnored
                        },
                        ..st
                    }
                } else {
                    let cleaned = strip_quotes_spec(value);
                    if key == "name"@ {
                        FmState { name: Some(cleaned), ctx: ListContext::Plain, ..st }
                    } else if key == "description"@ {
                        FmState { description: Some(cleaned), ctx: ListContext::Plain, ..st }
                    } else if key == "version"@ {
                        FmState { version: Some(cleaned), ctx: ListContext::Plain, ..st }
                    } else {
                        FmState { ctx: ListContext::Plain, ..st }
                    }
                }
            },
        }
    }
}

/// The state after reading `lines` in order.
pub open spec fn fm_fold(lines: Seq<Seq<char>>, st: FmState) -> FmState
    decreases lines.len(),
{
    if lines.len() == 0 {
        st
    } else {
        fm_step(fm_fold(lines.drop_last(), st), lines.last())
    }
}

/// Why a SKILL.md could not be read.
#[derive(Debug, Clone, Copy, PartialEq, Eq)]
pub enum SkillParseError {
    /// The document does not open with a `---` line.
    MissingDelimiter,
    /// No `---` line closes the frontmatter.
    Unclosed,
    MissingName,
    MissingDescription,
}

impl SkillParseError {
    pub fn message(&self) -> (r: String)
        ensures
            r@ == error_text(*self),
    {
        match self {
            SkillParseError::MissingDelimiter => lit("SKILL.md must start with a '---' frontmatter delimiter"),
            SkillParseError::Unclosed => lit("SKILL.md frontmatter not closed (expected '---' separator)"),
            SkillParseError::MissingName => lit("frontmatter missing required field 'name'"),
            SkillParseError::MissingDescription => lit("frontmatter missing required field 'description'"),
        }
    }
}

pub open spec fn error_text(e: SkillParseError) -> Seq<char> {
    match e {
        SkillParseError::MissingDelimiter => "SKILL.md must start with a '---' frontmatter delimiter"@,
        SkillParseError::Unclosed => "SKILL.md frontmatter not closed (expected '---' separator)"@,
        SkillParseError::MissingName => "frontmatter missing required field 'name'"@,
        SkillParseError::MissingDescription => "frontmatter missing required field 'description'"@,
    }
}

/// The frontmatter of a SKILL.md. Only `name` and `description` are
/// required.
#[derive(Debug, Clone, PartialEq)]
pub struct Frontmatter {
    pub name: String,
    pub description: String,
    pub allowed_tools: Option<Vec<String>>,
    pub version: Option<String>,
}

pub struct FrontmatterView {
    pub name: Seq<char>,
    pub description: Seq<char>,
    pub allowed_tools: Option<Seq<Seq<char>>>,
    pub version: Option<Seq<char>>,
}

impl View for Frontmatter {
    type V = FrontmatterView;

    open spec fn view(&self) -> FrontmatterView {
        FrontmatterView {
            name: self.name@,
            description: self.description@,
            allowed_tools: match self.allowed_tools {
                Some(v) => Some(strings_view(v@)),
                None => None,
            },
            version: match self.version {
                Some(v) => Some(v@),
                None => None,
            },
        }
    }
}

/// The frontmatter `yaml` holds, or which required field it lacks.
pub open spec fn frontmatter_spec(yaml: Seq<char>) -> Result<FrontmatterView, SkillParseError> {
    let st = fm_fold(lines_spec(yaml), fm_initial());
    match st.name {
        None => Err(SkillParseError::MissingName),
        Some(n) => match st.description {
            None => Err(SkillParseError::MissingDescription),
            Some(d) => Ok(
                FrontmatterView { name: n, description: d, allowed_tools: st.allowed_tools, version: st.version },
            ),
        },
    }
}

// --------------------------------------------------------------- document

/// `s` without its leading byte-order marks.
pub open spec fn strip_bom(s: Seq<char>) -> Seq<char>
    decreases s.len(),
{
    if s.len() > 0 && s[0] == '\u{feff}' { strip_bom(s.drop_first()) } else { s }
}

/// What follows the opening `---` line.
pub open spec fn after_opening(s: Seq<char>) -> Option<Seq<char>> {
    if occurs_at(s, "---\n"@, 0) {
        Some(s.skip(4))
    } else if occurs_at(s, "---\r\n"@, 0) {
        Some(s.skip(5))
    } else {
        None
    }
}

/// Where the closing `---` line starts in `rest`, and how many chars it
/// takes: the first `\n---\n`, else the first `\n---\r\n`, else a final
/// `\n---`.
pub open spec fn closing(rest: Seq<char>) -> Option<(nat, nat)> {
    match find_spec(rest, "\n---\n"@) {
        Some(i) => Some((i, 5)),
        None => match find_spec(rest, "\n---\r\n"@) {
            Some(i) => Some((i, 6)),
            None => if rest.len() >= 4 && occurs_at(rest, "\n---"@, rest.len() - 4) {
                Some(((rest.len() - 4) as nat, 4))
            } else {
                None
            },
        },
    }
}

/// A SKILL.md split into its frontmatter text and its body (with leading
/// white space removed).
pub open spec fn split_doc(content: Seq<char>) -> Result<(Seq<char>, Seq<char>), SkillParseError> {
    match after_opening(strip_bom(content)) {
        None => Err(SkillParseError::MissingDelimiter),
        Some(rest) => match closing(rest) {
            None => Err(SkillParseError::Unclosed),
            Some((i, l)) => Ok((rest.take(i as int), trim_start_spec(rest.skip((i + l) as int)))),
        },
    }
}

/// A SKILL.md read into its frontmatter and body.
pub open spec fn parse_spec(content: Seq<char>) -> Result<(FrontmatterView, Seq<char>), SkillParseError> {
    match split_doc(content) {
        Err(e) => Err(e),
        Ok((yaml, body)) => match frontmatter_spec(yaml) {
            Err(e) => Err(e),
            Ok(fm) => Ok((fm, body)),
        },
    }
}


// ------------------------------------------------------------ the parser

fn strip_quotes_chars(s: Vec<char>) -> (r: Vec<char>)
    ensures
        r@ == strip_quotes_spec(s@),
{
    let n = s.len();
    if n >= 2 && ((s[0] == '"' && s[n - 1] == '"') || (s[0] == '\'' && s[n - 1] == '\'')) {
        slice_chars(s.as_slice(), 1, n - 1)
    } else {
        s
    }
}

fn list_item_chars(t: &[char]) -> (r: Option<Vec<char>>)
    ensures
        match r {
            Some(v) => list_item(t@) == Some(v@),
            None => list_item(t@) is None,
        },
{
    proof {
        reveal_strlit("- ");
        reveal_strlit("-");
    }
    let n = t.len();
    if n >= 2 && t[0] == '-' && t[1] == ' ' {
        assert(t@.subrange(0, 2) =~= "- "@);
        Some(slice_chars(t, 2, n))
    } else if n >= 1 && t[0] == '-' {
        assert(t@.subrange(0, 1) =~= "-"@);
        assert(!occurs_at(t@, "- "@, 0)) by {
            if n >= 2 {
                assert(t@.subrange(0, 2)[1] != ' ');
            }
        }
        Some(slice_chars(t, 1, n))
    } else {
        assert(!occurs_at(t@, "- "@, 0)) by {
            if n >= 2 {
                assert(t@.subrange(0, 2)[0] != '-');
            }
        }
        assert(!occurs_at(t@, "-"@, 0)) by {
            if n >= 1 {
                assert(t@.subrange(0, 1)[0] != '-');
            }
        }
        None
    }
}

/// The frontmatter read so far.
struct FmCursor {
    name: Option<String>,
    description: Option<String>,
    allowed_tools: Option<Vec<String>>,
    version: Option<String>,
    ctx: ListContext,
}

pub open spec fn opt_view(o: Option<String>) -> Option<Seq<char>> {
    match o {
        Some(s) => Some(s@),
        None => None,
    }
}

impl View for FmCursor {
    type V = FmState;

    closed spec fn view(&self) -> FmState {
        FmState {
            name: opt_view(self.name),
            description: opt_view(self.description),
            allowed_tools: match self.allowed_tools {
                Some(v) => Some(strings_view(v@)),
                None => None,
            },
            version: opt_view(self.version),
            ctx: self.ctx,
        }
    }
}

fn is_key(key: &[char], word: &str) -> (b: bool)
    ensures
        b == (key@ == word@),
{
    let w = crate::text::chars_of(word);
    crate::text::chars_eq(key, w.as_slice())
}

fn fm_step_exec(st: &mut FmCursor, raw: &[char])
    ensures
        final(st)@ == fm_step(old(st)@, raw@),
{
    let line = trim_end_chars(raw);
    let t = trim_start_chars(line.as_slice());
    if t.len() == 0 || t[0] == '#' {
        return;
    }
    if t.len() < line.len() {
        match list_item_chars(t.as_slice()) {
            Some(item) => {
                let trimmed = trim_chars(item.as_slice());
                let value = string_of(strip_quotes_chars(trimmed).as_slice());
                if let ListContext::AllowedTools = st.ctx {
                    match &mut st.allowed_tools {
                        Some(v) => {
                            let ghost before = v@;
                            v.push(value);
                            assert(strings_view(v@) =~= strings_view(before).push(value@));
                        },
                        None => {
                            let mut v: Vec<String> = Vec::new();
                            v.push(value);
                            assert(strings_view(v@) =~= seq![value@]);
                            st.allowed_tools = Some(v);
                        },
                    }
                }
                return;
            },
            None => {},
        }
    }
    let colon = crate::text::chars_of(":");
    match find(line.as_slice(), colon.as_slice()) {
        None => {},
        Some(i) => {
            proof {
                reveal_strlit(":");
            }
            let key = trim_chars(slice_chars(line.as_slice(), 0, i).as_slice());
            let value = trim_chars(slice_chars(line.as_slice(), i + 1, line.len()).as_slice());
            assert(line@.subrange(0, i as int) =~= line@.take(i as int));
            assert(line@.subrange(i + 1, line@.len() as int) =~= line@.skip(i + 1 as int));
            if value.len() == 0 {
                st.ctx = if is_key(key.as_slice(), "allowed_tools") {
                    ListContext::AllowedTools
                } else {
                    ListContext::OtherIgnored
                };
            } else {
                let cleaned = string_of(strip_quotes_chars(value).as_slice());
                if is_key(key.as_slice(), "name") {
                    st.name = Some(cleaned);
                } else if is_key(key.as_slice(), "description") {
                    st.description = Some(cleaned);
                } else if is_key(key.as_slice(), "version") {
                    st.version = Some(cleaned);
                }
                st.ctx = ListContext::Plain;
            }
        },
    }
}

/// Read the frontmatter text of a SKILL.md.
pub fn parse_frontmatter(yaml: &str) -> (r: Result<Frontmatter, SkillParseError>)
    ensures
        match r {
            Ok(fm) => frontmatter_spec(yaml@) == Ok::<FrontmatterView, SkillParseError>(fm@),
            Err(e) => frontmatter_spec(yaml@) == Err::<FrontmatterView, SkillParseError>(e),
        },
{
    let cs = crate::text::chars_of(yaml);
    let ls = lines(cs.as_slice());
    let mut st = FmCursor { name: None, description: None, allowed_tools: None, version: None, ctx: ListContext::Plain };
    let mut i: usize = 0;
    assert(chars_views(ls@).take(0) =~= Seq::<Seq<char>>::empty());
    while i < ls.len()
        invariant
            i <= ls@.len(),
            chars_views(ls@) == lines_spec(yaml@),
            st@ == fm_fold(chars_views(ls@).take(i as int), fm_initial()),
        decreases ls.len() - i,
    {
        assert(chars_views(ls@).take(i + 1).drop_last() =~= chars_views(ls@).take(i as int));
        assert(chars_views(ls@).take(i + 1).last() == ls@[i as int]@);
        fm_step_exec(&mut st, ls[i].as_slice());
        i += 1;
    }
    assert(chars_views(ls@).take(ls@.len() as int) =~= chars_views(ls@));
    let FmCursor { name, description, allowed_tools, version, .. } = st;
    match name {
        None => Err(SkillParseError::MissingName),
        Some(n) => match description {
            None => Err(SkillParseError::MissingDescription),
            Some(d) => Ok(Frontmatter { name: n, description: d, allowed_tools, version }),
        },
    }
}

fn closing_exec(rest: &[char]) -> (r: Option<(usize, usize)>)
    ensures
        match r {
            Some((i, l)) => closing(rest@) == Some((i as nat, l as nat)) && i + l <= rest@.len(),
            None => closing(rest@) is None,
        },
{
    proof {
        reveal_strlit("\n---\n");
        reveal_strlit("\n---\r\n");
        reveal_strlit("\n---");
    }
    let p1 = crate::text::chars_of("\n---\n");
    match find(rest, p1.as_slice()) {
        Some(i) => {
            return Some((i, p1.len()));
        },
        None => {},
    }
    let p2 = crate::text::chars_of("\n---\r\n");
    match find(rest, p2.as_slice()) {
        Some(i) => {
            return Some((i, p2.len()));
        },
        None => {},
    }
    let p3 = crate::text::chars_of("\n---");
    if rest.len() >= 4 && crate::text::matches_at(rest, p3.as_slice(), rest.len() - 4) {
        Some((rest.len() - 4, 4))
    } else {
        None
    }
}

/// Split a SKILL.md into its frontmatter and its body: the body is what
/// follows the closing `---` line, with leading white space removed.
pub fn parse_skill_md(content: &str) -> (r: Result<(Frontmatter, String), SkillParseError>)
    ensures
        match r {
            Ok((fm, body)) => parse_spec(content@) == Ok::<(FrontmatterView, Seq<char>), SkillParseError>((fm@, body@)),
            Err(e) => parse_spec(content@) == Err::<(FrontmatterView, Seq<char>), SkillParseError>(e),
        },
{
    let cs = crate::text::chars_of(content);
    let n = cs.len();
    let mut a: usize = 0;
    assert(cs@.skip(0) =~= cs@);
    while a < n && cs[a] == '\u{feff}'
        invariant
            n == cs@.len(),
            cs@ == content@,
            a <= n,
            strip_bom(content@) == strip_bom(cs@.skip(a as int)),
        decreases n - a,
    {
        assert(cs@.skip(a as int).drop_first() =~= cs@.skip(a + 1));
        a += 1;
    }
    let body_start: usize;
    proof {
        reveal_strlit("---\n");
        reveal_strlit("---\r\n");
    }
    let ghost s = cs@.skip(a as int);
    if n - a >= 4 && cs[a] == '-' && cs[a + 1] == '-' && cs[a + 2] == '-' && cs[a + 3] == '\n' {
        assert(s.subrange(0, 4) =~= "---\n"@);
        body_start = a + 4;
    } else if n - a >= 5 && cs[a] == '-' && cs[a + 1] == '-' && cs[a + 2] == '-' && cs[a + 3] == '\r' && cs[a + 4] == '\n' {
        assert(s.subrange(0, 5) =~= "---\r\n"@);
        assert(!occurs_at(s, "---\n"@, 0)) by {
            assert(s.subrange(0, 4)[3] != '\n');
        }
        body_start = a + 5;
    } else {
        assert(!occurs_at(s, "---\n"@, 0)) by {
            if s.len() >= 4 {
                let w = s.subrange(0, 4);
                assert(w[0] == s[0] && w[1] == s[1] && w[2] == s[2] && w[3] == s[3]);
            }
        }
        assert(!occurs_at(s, "---\r\n"@, 0)) by {
            if s.len() >= 5 {
                let w = s.subrange(0, 5);
                assert(w[0] == s[0] && w[1] == s[1] && w[2] == s[2] && w[3] == s[3] && w[4] == s[4]);
            }
        }
        return Err(SkillParseError::MissingDelimiter);
    }
    let rest = slice_chars(cs.as_slice(), body_start, n);
    assert(rest@ =~= s.skip((body_start - a) as int));
    match closing_exec(rest.as_slice()) {
        None => Err(SkillParseError::Unclosed),
        Some((i, l)) => {
            let yaml = string_of(slice_chars(rest.as_slice(), 0, i).as_slice());
            let body = string_of(trim_start_chars(slice_chars(rest.as_slice(), i + l, rest.len()).as_slice()).as_slice());
            assert(rest@.subrange(0, i as int) =~= rest@.take(i as int));
            assert(rest@.subrange((i + l) as int, rest@.len() as int) =~= rest@.skip((i + l) as int));
            match parse_frontmatter(yaml.as_str()) {
                Err(e) => Err(e),
                Ok(fm) => Ok((fm, body)),
            }
        },
    }
}


// -------------------------------------------------------------- rendering

/// A stored skill.
#[derive(Debug)]
pub struct Skill {
    pub name: String,
    pub description: String,
    pub system_prompt: String,
    pub tools: Option<Vec<SkillTool>>,
}

/// A tool a legacy skill carried with its full schema.
#[derive(Debug)]
pub struct SkillTool {
    pub name: String,
    pub description: String,
    pub parameters: serde_json::Value,
}

pub open spec fn contains_char(s: Seq<char>, c: char) -> bool {
    exists|i: int| 0 <= i < s.len() && s[i] == c
}

/// A YAML indicator that changes a scalar's meaning at its start.
pub open spec fn is_indicator(c: char) -> bool {
    c == '-' || c == '[' || c == '{' || c == '"' || c == '\'' || c == '&' || c == '*' || c == '!' || c == '|'
        || c == '>' || c == '%' || c == '@'
}

/// Whether `s` is quoted when emitted: it is empty, has white space at an
/// end, holds `:`, `#` or a newline, or starts with an indicator.
pub open spec fn needs_quotes(s: Seq<char>) -> bool {
    ||| s.len() == 0
    ||| s != trim_spec(s)
    ||| contains_char(s, ':')
    ||| contains_char(s, '#')
    ||| contains_char(s, '\n')
    ||| is_indicator(s[0])
}

/// `s` with each backslash doubled and each double quote escaped.
pub open spec fn escape_spec(s: Seq<char>) -> Seq<char>
    decreases s.len(),
{
    if s.len() == 0 {
        seq![]
    } else {
        let c = s.last();
        escape_spec(s.drop_last()) + if c == '\\' {
            seq!['\\', '\\']
        } else if c == '"' {
            seq!['\\', '"']
        } else {
            seq![c]
        }
    }
}

/// `s` as a YAML scalar: double-quoted and escaped when it needs quotes.
pub open spec fn quote_spec(s: Seq<char>) -> Seq<char> {
    if needs_quotes(s) { seq!['"'] + escape_spec(s) + seq!['"'] } else { s }
}

proof fn lemma_trim_start_shrinks(s: Seq<char>)
    ensures
        trim_start_spec(s).len() <= s.len(),
        trim_start_spec(s).len() == s.len() ==> trim_start_spec(s) == s,
    decreases s.len(),
{
    if s.len() > 0 && crate::text::is_ws(s[0]) {
        lemma_trim_start_shrinks(s.drop_first());
    }
}

proof fn lemma_trim_end_shrinks(s: Seq<char>)
    ensures
        trim_end_spec(s).len() <= s.len(),
        trim_end_spec(s).len() == s.len() ==> trim_end_spec(s) == s,
    decreases s.len(),
{
    if s.len() > 0 && crate::text::is_ws(s.last()) {
        lemma_trim_end_shrinks(s.drop_last());
    }
}

proof fn lemma_trim_same_len(s: Seq<char>)
    ensures
        (trim_spec(s) == s) == (trim_spec(s).len() == s.len()),
{
    lemma_trim_start_shrinks(s);
    lemma_trim_end_shrinks(trim_start_spec(s));
}

fn has_char(s: &[char], c: char) -> (b: bool)
    ensures
        b == contains_char(s@, c),
{
    let mut i: usize = 0;
    while i < s.len()
        invariant
            i <= s@.len(),
            forall|j: int| 0 <= j < i ==> s@[j] != c,
        decreases s.len() - i,
    {
        if s[i] == c {
            return true;
        }
        i += 1;
    }
    false
}

/// Quote a scalar for safe YAML emission.
pub fn quote_if_needed(s: &str) -> (r: String)
    ensures
        r@ == quote_spec(s@),
{
    let cs = crate::text::chars_of(s);
    let t = trim_chars(cs.as_slice());
    proof {
        lemma_trim_same_len(s@);
    }
    let first_is_indicator = cs.len() > 0 && {
        let c = cs[0];
        c == '-' || c == '[' || c == '{' || c == '"' || c == '\'' || c == '&' || c == '*' || c == '!' || c == '|'
            || c == '>' || c == '%' || c == '@'
    };
    let needs = cs.len() == 0 || t.len() != cs.len() || has_char(cs.as_slice(), ':') || has_char(cs.as_slice(), '#')
        || has_char(cs.as_slice(), '\n') || first_is_indicator;
    if !needs {
        return lit(s);
    }
    let mut out = String::new();
    push_char(&mut out, '"');
    let mut i: usize = 0;
    while i < cs.len()
        invariant
            i <= cs@.len(),
            cs@ == s@,
            out@ == seq!['"'] + escape_spec(s@.take(i as int)),
        decreases cs.len() - i,
    {
        assert(s@.take(i + 1).drop_last() =~= s@.take(i as int));
        let c = cs[i];
        let ghost before = out@;
        if c == '\\' {
            push_char(&mut out, '\\');
            push_char(&mut out, '\\');
        } else if c == '"' {
            push_char(&mut out, '\\');
            push_char(&mut out, '"');
        } else {
            push_char(&mut out, c);
        }
        assert(out@ =~= seq!['"'] + escape_spec(s@.take(i + 1)));
        i += 1;
    }
    assert(s@.take(s@.len() as int) =~= s@);
    push_char(&mut out, '"');
    out
}

/// The `allowed_tools` lines for `names`.
pub open spec fn tool_lines(names: Seq<Seq<char>>) -> Seq<char>
    decreases names.len(),
{
    if names.len() == 0 {
        seq![]
    } else {
        tool_lines(names.drop_last()) + "  - "@ + quote_spec(names.last()) + "\n"@
    }
}

/// The frontmatter block listing `tools`, when there are any.
pub open spec fn tools_block(tools: Option<Seq<Seq<char>>>) -> Seq<char> {
    match tools {
        Some(t) => if t.len() > 0 { "allowed_tools:\n"@ + tool_lines(t) } else { seq![] },
        None => seq![],
    }
}

/// A SKILL.md for a skill: frontmatter with the quoted name and
/// description (and tool names, when it has tools), then the prompt,
/// ending in a newline.
pub open spec fn render_spec(name: Seq<char>, description: Seq<char>, tools: Option<Seq<Seq<char>>>, prompt: Seq<char>) -> Seq<char> {
    "---\n"@ + "name: "@ + quote_spec(name) + "\n"@ + "description: "@ + quote_spec(description) + "\n"@
        + tools_block(tools) + "---\n\n"@ + prompt
        + (if prompt.len() > 0 && prompt.last() == '\n' { seq![] } else { "\n"@ })
}

pub open spec fn skill_tool_names(tools: Option<Vec<SkillTool>>) -> Option<Seq<Seq<char>>> {
    match tools {
        Some(t) => Some(t@.map_values(|x: SkillTool| x.name@)),
        None => None,
    }
}

/// Render a skill as its SKILL.md text.
pub fn render_skill_md(skill: &Skill) -> (r: String)
    ensures
        r@ == render_spec(skill.name@, skill.description@, skill_tool_names(skill.tools), skill.system_prompt@),
{
    let mut out = lit("---\n");
    push_str(&mut out, "name: ");
    push_str(&mut out, quote_if_needed(skill.name.as_str()).as_str());
    push_str(&mut out, "\n");
    push_str(&mut out, "description: ");
    push_str(&mut out, quote_if_needed(skill.description.as_str()).as_str());
    push_str(&mut out, "\n");
    let ghost head = out@;
    match &skill.tools {
        Some(tools) => {
            if tools.len() > 0 {
                push_str(&mut out, "allowed_tools:\n");
                let ghost names = tools@.map_values(|x: SkillTool| x.name@);
                let mut i: usize = 0;
                assert(names.take(0) =~= Seq::<Seq<char>>::empty());
                while i < tools.len()
                    invariant
                        i <= tools@.len(),
                        names == tools@.map_values(|x: SkillTool| x.name@),
                        out@ == head + "allowed_tools:\n"@ + tool_lines(names.take(i as int)),
                    decreases tools.len() - i,
                {
                    assert(names.take(i + 1).drop_last() =~= names.take(i as int));
                    push_str(&mut out, "  - ");
                    push_str(&mut out, quote_if_needed(tools[i].name.as_str()).as_str());
                    push_str(&mut out, "\n");
                    i += 1;
                }
                assert(names.take(tools@.len() as int) =~= names);
            }
        },
        None => {},
    }
    push_str(&mut out, "---\n\n");
    push_str(&mut out, skill.system_prompt.as_str());
    let p = crate::text::chars_of(skill.system_prompt.as_str());
    if !(p.len() > 0 && p[p.len() - 1] == '\n') {
        push_char(&mut out, '\n');
        proof {
            reveal_strlit("\n");
        }
    } else {
        assert(out@ =~= out@ + Seq::<char>::empty());
    }
    out
}

/// A name made safe to use as a file name: `/` and `\` become `_`.
pub open spec fn sanitize_spec(name: Seq<char>) -> Seq<char> {
    name.map_values(|c: char| if c == '/' || c == '\\' { '_' } else { c })
}

pub fn sanitize_name(name: &str) -> (r: String)
    ensures
        r@ == sanitize_spec(name@),
{
    let cs = crate::text::chars_of(name);
    let mut out: Vec<char> = Vec::new();
    let mut i: usize = 0;
    while i < cs.len()
        invariant
            i <= cs@.len(),
            cs@ == name@,
            out@ == sanitize_spec(name@.take(i as int)),
        decreases cs.len() - i,
    {
        let c = cs[i];
        out.push(if c == '/' || c == '\\' { '_' } else { c });
        i += 1;
        assert(out@ =~= sanitize_spec(name@.take(i as int)));
    }
    assert(name@.take(name@.len() as int) =~= name@);
    string_of(out.as_slice())
}

impl Skill {
    /// The tools a legacy skill carries, as schemas to offer the model.
    pub fn to_api_tools(&self) -> (r: Option<Vec<crate::api::Tool>>)
        ensures
            match r {
                Some(v) => self.tools matches Some(t) && v@.len() == t@.len() && forall|i: int|
                    0 <= i < v@.len() ==> {
                        &&& #[trigger] v@[i].function.name@ == t@[i].name@
                        &&& v@[i].function.description@ == t@[i].description@
                        &&& v@[i].tool_type@ == "function"@
                        &&& v@[i].function.parameters == t@[i].parameters
                    },
                None => self.tools is None,
            },
    {
        match &self.tools {
            None => None,
            Some(tools) => {
                let mut out: Vec<crate::api::Tool> = Vec::new();
                let mut i: usize = 0;
                while i < tools.len()
                    invariant
                        i <= tools@.len(),
                        out@.len() == i,
                        forall|j: int| 0 <= j < i ==> {
                            &&& #[trigger] out@[j].function.name@ == tools@[j].name@
                            &&& out@[j].function.description@ == tools@[j].description@
                            &&& out@[j].tool_type@ == "function"@
                            &&& out@[j].function.parameters == tools@[j].parameters
                        },
                    decreases tools.len() - i,
                {
                    let t = crate::api::Tool {
                        tool_type: lit("function"),
                        function: crate::api::FunctionDefinition {
                            name: tools[i].name.clone(),
                            description: tools[i].description.clone(),
                            parameters: crate::api::clone_json(&tools[i].parameters),
                        },
                    };
                    let ghost before = out@;
                    out.push(t);
                    assert forall|j: int| 0 <= j < i implies #[trigger] out@[j] == before[j] by {}
                    i += 1;
                }
                Some(out)
            },
        }
    }
}


// ------------------------------------------------------- the round trip

/// A value that survives being written as a scalar and read back: no
/// newline, and when it is quoted, nothing the quoting escapes (the reader
/// strips quotes but does not unescape).
pub open spec fn safe_value(s: Seq<char>) -> bool {
    &&& !contains_char(s, '\n')
    &&& needs_quotes(s) ==> !contains_char(s, '\\') && !contains_char(s, '"')
}

/// `ls` joined by newlines, first line first.
pub open spec fn join_lines(ls: Seq<Seq<char>>) -> Seq<char>
    decreases ls.len(),
{
    if ls.len() == 0 {
        seq![]
    } else if ls.len() == 1 {
        ls[0]
    } else {
        ls[0] + "\n"@ + join_lines(ls.drop_first())
    }
}

proof fn lemma_lines_plain(s: Seq<char>, done: Seq<Seq<char>>, cur: Seq<char>)
    requires
        !contains_char(s, '\n'),
    ensures
        lines_acc(s, done, cur) == (if (cur + s).len() > 0 { done.push(cur + s) } else { done }),
    decreases s.len(),
{
    if s.len() > 0 {
        assert(!contains_char(s.drop_first(), '\n')) by {
            if contains_char(s.drop_first(), '\n') {
                let i = choose|i: int| 0 <= i < s.drop_first().len() && s.drop_first()[i] == '\n';
                assert(s[i + 1] == '\n');
            }
        }
        assert(s[0] != '\n');
        lemma_lines_plain(s.drop_first(), done, cur.push(s[0]));
        assert(cur.push(s[0]) + s.drop_first() =~= cur + s);
    } else {
        assert(cur + s =~= cur);
    }
}

proof fn lemma_lines_break(a: Seq<char>, b: Seq<char>, done: Seq<Seq<char>>, cur: Seq<char>)
    requires
        !contains_char(a, '\n'),
    ensures
        lines_acc(a + "\n"@ + b, done, cur) == lines_acc(b, done.push(strip_cr(cur + a)), seq![]),
    decreases a.len(),
{
    reveal_strlit("\n");
    let s = a + "\n"@ + b;
    if a.len() == 0 {
        assert(s[0] == '\n');
        assert(s.drop_first() =~= b);
        assert(cur + a =~= cur);
    } else {
        assert(s[0] == a[0]);
        assert(a[0] != '\n');
        assert(!contains_char(a.drop_first(), '\n')) by {
            if contains_char(a.drop_first(), '\n') {
                let i = choose|i: int| 0 <= i < a.drop_first().len() && a.drop_first()[i] == '\n';
                assert(a[i + 1] == '\n');
            }
        }
        assert(s.drop_first() =~= a.drop_first() + "\n"@ + b);
        lemma_lines_break(a.drop_first(), b, done, cur.push(a[0]));
        assert(cur.push(a[0]) + a.drop_first() =~= cur + a);
    }
}

/// A line the reader keeps as it is: non-empty, no newline, not ending in
/// white space.
pub open spec fn clean_line(l: Seq<char>) -> bool {
    &&& l.len() > 0
    &&& !contains_char(l, '\n')
    &&& !crate::text::is_ws(l.last())
}

proof fn lemma_lines_of_join(ls: Seq<Seq<char>>, done: Seq<Seq<char>>)
    requires
        ls.len() > 0,
        forall|i: int| 0 <= i < ls.len() ==> #[trigger] clean_line(ls[i]),
    ensures
        lines_acc(join_lines(ls), done, seq![]) == done + ls,
    decreases ls.len(),
{
    let l0 = ls[0];
    assert(clean_line(l0));
    assert(seq![] + l0 =~= l0);
    if ls.len() == 1 {
        lemma_lines_plain(l0, done, seq![]);
        assert(done.push(l0) =~= done + ls);
    } else {
        lemma_lines_break(l0, join_lines(ls.drop_first()), done, seq![]);
        assert(strip_cr(l0) == l0);
        assert forall|i: int| 0 <= i < ls.drop_first().len() implies #[trigger] clean_line(ls.drop_first()[i]) by {
            assert(clean_line(ls[i + 1]));
        }
        lemma_lines_of_join(ls.drop_first(), done.push(l0));
        assert(done.push(l0) + ls.drop_first() =~= done + ls);
    }
}


proof fn lemma_find_first(s: Seq<char>, p: Seq<char>, k: nat, j: nat)
    requires
        k <= j,
        occurs_at(s, p, j as int),
        forall|m: int| k <= m < j ==> !occurs_at(s, p, m),
    ensures
        find_from(s, p, k) == Some(j),
    decreases j - k,
{
    if k < j {
        assert(!occurs_at(s, p, k as int));
        lemma_find_first(s, p, k + 1, j);
    }
}

proof fn lemma_escape_plain(v: Seq<char>)
    requires
        !contains_char(v, '\\'),
        !contains_char(v, '"'),
    ensures
        escape_spec(v) == v,
    decreases v.len(),
{
    if v.len() > 0 {
        assert(!contains_char(v.drop_last(), '\\')) by {
            if contains_char(v.drop_last(), '\\') {
                let i = choose|i: int| 0 <= i < v.drop_last().len() && v.drop_last()[i] == '\\';
                assert(v[i] == '\\');
            }
        }
        assert(!contains_char(v.drop_last(), '"')) by {
            if contains_char(v.drop_last(), '"') {
                let i = choose|i: int| 0 <= i < v.drop_last().len() && v.drop_last()[i] == '"';
                assert(v[i] == '"');
            }
        }
        lemma_escape_plain(v.drop_last());
        assert(v.last() != '\\' && v.last() != '"') by {
            assert(v[v.len() - 1] == v.last());
        }
        assert(v.drop_last() + seq![v.last()] =~= v);
    }
}

proof fn lemma_trim_start_keeps_last(s: Seq<char>)
    ensures
        trim_start_spec(s).len() > 0 ==> trim_start_spec(s).last() == s.last(),
    decreases s.len(),
{
    if s.len() > 0 && crate::text::is_ws(s[0]) {
        lemma_trim_start_keeps_last(s.drop_first());
    }
}

/// An unquoted value has no white space at either end.
proof fn lemma_untrimmed_ends(v: Seq<char>)
    requires
        v.len() > 0,
        trim_spec(v) == v,
    ensures
        !crate::text::is_ws(v[0]),
        !crate::text::is_ws(v.last()),
{
    lemma_trim_start_shrinks(v);
    lemma_trim_end_shrinks(trim_start_spec(v));
    if crate::text::is_ws(v[0]) {
        lemma_trim_start_shrinks(v.drop_first());
        assert(trim_start_spec(v).len() < v.len());
    }
    if crate::text::is_ws(v.last()) {
        lemma_trim_start_keeps_last(v);
        let t = trim_start_spec(v);
        if t.len() > 0 {
            lemma_trim_end_shrinks(t.drop_last());
            assert(trim_end_spec(t).len() < t.len());
        }
    }
}

proof fn lemma_no_char_in_sum(a: Seq<char>, b: Seq<char>, c: char)
    requires
        !contains_char(a, c),
        !contains_char(b, c),
    ensures
        !contains_char(a + b, c),
{
    if contains_char(a + b, c) {
        let i = choose|i: int| 0 <= i < (a + b).len() && (a + b)[i] == c;
        if i < a.len() {
            assert(a[i] == c);
        } else {
            assert(b[i - a.len()] == c);
        }
    }
}

/// What the reader needs of a written scalar: it is non-empty, has no
/// newline and no white space at either end, and stripping its quotes gives
/// the value back.
proof fn lemma_quote_facts(v: Seq<char>)
    requires
        safe_value(v),
    ensures
        quote_spec(v).len() > 0,
        !contains_char(quote_spec(v), '\n'),
        !crate::text::is_ws(quote_spec(v)[0]),
        !crate::text::is_ws(quote_spec(v).last()),
        strip_quotes_spec(quote_spec(v)) == v,
{
    let q = quote_spec(v);
    if needs_quotes(v) {
        lemma_escape_plain(v);
        assert(q == seq!['"'] + v + seq!['"']);
        assert(q[0] == '"');
        assert(q.last() == '"');
        assert(q.subrange(1, q.len() - 1) =~= v);
        assert(!contains_char(seq!['"'], '\n'));
        lemma_no_char_in_sum(seq!['"'], v, '\n');
        lemma_no_char_in_sum(seq!['"'] + v, seq!['"'], '\n');
    } else {
        assert(q == v);
        lemma_untrimmed_ends(v);
        assert(!is_indicator(v[0]));
    }
}


/// The reader's view of a `key: value` line written for a safe value.
proof fn lemma_scalar_line(key: Seq<char>, v: Seq<char>)
    requires
        key.len() > 0,
        !contains_char(key, ':'),
        !contains_char(key, '\n'),
        !crate::text::is_ws(key[0]),
        trim_spec(key) == key,
        safe_value(v),
    ensures
        ({
            let l = key + ": "@ + quote_spec(v);
            &&& clean_line(l)
            &&& l[0] == key[0]
            &&& trim_end_spec(l) == l
            &&& trim_start_spec(l) == l
            &&& find_spec(l, ":"@) == Some(key.len())
            &&& l.take(key.len() as int) == key
            &&& trim_spec(l.skip(key.len() + 1int)) == quote_spec(v)
            &&& quote_spec(v).len() > 0
            &&& strip_quotes_spec(quote_spec(v)) == v
        }),
{
    reveal_strlit(": ");
    reveal_strlit(":");
    reveal_strlit(" ");
    lemma_quote_facts(v);
    let q = quote_spec(v);
    let l = key + ": "@ + q;
    assert(l.last() == q.last());
    assert(!contains_char(": "@, '\n')) by {
        if contains_char(": "@, '\n') {
            let i = choose|i: int| 0 <= i < 2 && ": "@[i] == '\n';
        }
    }
    lemma_no_char_in_sum(key, ": "@, '\n');
    lemma_no_char_in_sum(key + ": "@, q, '\n');
    assert(l[0] == key[0]);
    assert forall|m: int| 0 <= m < key.len() implies !occurs_at(l, ":"@, m) by {
        assert(l[m] == key[m]);
        if occurs_at(l, ":"@, m) {
            assert(l.subrange(m, m + 1)[0] == l[m]);
        }
    }
    assert(l.subrange(key.len() as int, key.len() + 1int) =~= ":"@);
    lemma_find_first(l, ":"@, 0, key.len());
    assert(l.take(key.len() as int) =~= key);
    let rest = l.skip(key.len() + 1int);
    assert(rest =~= " "@ + q);
    assert(rest[0] == ' ');
    assert(rest.drop_first() =~= q);
    assert(trim_start_spec(rest) == trim_start_spec(q));
}

/// The reader's view of an `allowed_tools` item line written for a safe
/// value.
proof fn lemma_item_line(v: Seq<char>)
    requires
        safe_value(v),
    ensures
        ({
            let l = "  - "@ + quote_spec(v);
            &&& clean_line(l)
            &&& l[0] == ' '
            &&& trim_end_spec(l) == l
            &&& trim_start_spec(l) == "- "@ + quote_spec(v)
            &&& list_item("- "@ + quote_spec(v)) == Some(quote_spec(v))
            &&& trim_spec(quote_spec(v)) == quote_spec(v)
            &&& strip_quotes_spec(quote_spec(v)) == v
        }),
{
    reveal_strlit("  - ");
    reveal_strlit(" - ");
    reveal_strlit("- ");
    lemma_quote_facts(v);
    let q = quote_spec(v);
    let l = "  - "@ + q;
    assert(l.last() == q.last());
    assert(!contains_char("  - "@, '\n')) by {
        if contains_char("  - "@, '\n') {
            let i = choose|i: int| 0 <= i < 4 && "  - "@[i] == '\n';
        }
    }
    lemma_no_char_in_sum("  - "@, q, '\n');
    assert(l.drop_first() =~= " - "@ + q);
    assert(l.drop_first().drop_first() =~= "- "@ + q);
    let t = "- "@ + q;
    assert(t[0] == '-');
    assert(t.subrange(0, 2) =~= "- "@);
    assert(t.skip(2) =~= q);
    assert(l[0] == ' ');
    assert(l.drop_first()[0] == ' ');
    assert(trim_start_spec(t) == t);
    assert(trim_start_spec(l.drop_first()) == trim_start_spec(t));
    assert(trim_start_spec(l) == trim_start_spec(l.drop_first()));
    assert(trim_start_spec(q) == q);
    assert(trim_end_spec(q) == q);
    assert(trim_end_spec(l) == l);
}


proof fn lemma_join_push(ls: Seq<Seq<char>>, x: Seq<char>)
    requires
        ls.len() > 0,
    ensures
        join_lines(ls.push(x)) == join_lines(ls) + "\n"@ + x,
    decreases ls.len(),
{
    let lx = ls.push(x);
    assert(lx[0] == ls[0]);
    if ls.len() == 1 {
        assert(lx.drop_first() =~= seq![x]);
        assert(join_lines(seq![x]) == x);
        assert(join_lines(lx) == ls[0] + "\n"@ + x);
    } else {
        lemma_join_push(ls.drop_first(), x);
        assert(lx.drop_first() =~= ls.drop_first().push(x));
        assert(join_lines(lx) == ls[0] + "\n"@ + join_lines(ls.drop_first().push(x)));
        assert(join_lines(lx) =~= ls[0] + "\n"@ + join_lines(ls.drop_first()) + "\n"@ + x);
    }
}

proof fn lemma_join_concat(a: Seq<Seq<char>>, b: Seq<Seq<char>>)
    requires
        a.len() > 0,
        b.len() > 0,
    ensures
        join_lines(a + b) == join_lines(a) + "\n"@ + join_lines(b),
    decreases a.len(),
{
    if a.len() == 1 {
        assert((a + b).drop_first() =~= b);
        assert((a + b)[0] == a[0]);
    } else {
        lemma_join_concat(a.drop_first(), b);
        assert((a + b).drop_first() =~= a.drop_first() + b);
        assert((a + b)[0] == a[0]);
    }
}

/// The written `allowed_tools` item lines.
pub open spec fn item_lines(t: Seq<Seq<char>>) -> Seq<Seq<char>> {
    t.map_values(|x: Seq<char>| "  - "@ + quote_spec(x))
}

proof fn lemma_tool_lines(t: Seq<Seq<char>>)
    requires
        t.len() > 0,
    ensures
        tool_lines(t) == join_lines(item_lines(t)) + "\n"@,
    decreases t.len(),
{
    let it = "  - "@ + quote_spec(t.last());
    if t.len() == 1 {
        assert(item_lines(t) =~= seq![it]);
        assert(t.drop_last() =~= Seq::<Seq<char>>::empty());
        assert(tool_lines(t.drop_last()) == Seq::<char>::empty());
        assert(join_lines(seq![it]) == it);
        assert(tool_lines(t) =~= it + "\n"@);
    } else {
        lemma_tool_lines(t.drop_last());
        assert(item_lines(t) =~= item_lines(t.drop_last()).push(it));
        lemma_join_push(item_lines(t.drop_last()), it);
        assert(tool_lines(t) =~= join_lines(item_lines(t.drop_last())) + "\n"@ + it + "\n"@);
    }
}

/// The frontmatter lines written for a skill.
pub open spec fn fm_lines(name: Seq<char>, description: Seq<char>, tools: Option<Seq<Seq<char>>>) -> Seq<Seq<char>> {
    let base = seq!["name: "@ + quote_spec(name), "description: "@ + quote_spec(description)];
    match tools {
        Some(t) => if t.len() > 0 { base + seq!["allowed_tools:"@] + item_lines(t) } else { base },
        None => base,
    }
}

/// The newline a rendering adds after a prompt that lacks one.
pub open spec fn prompt_tail(prompt: Seq<char>) -> Seq<char> {
    if prompt.len() > 0 && prompt.last() == '\n' { seq![] } else { "\n"@ }
}

#[verifier::rlimit(40)]
proof fn lemma_render_shape(name: Seq<char>, description: Seq<char>, tools: Option<Seq<Seq<char>>>, prompt: Seq<char>)
    ensures
        render_spec(name, description, tools, prompt) == "---\n"@ + join_lines(fm_lines(name, description, tools))
            + "\n---\n"@ + ("\n"@ + prompt + prompt_tail(prompt)),
{
    reveal_strlit("\n");
    reveal_strlit("---\n");
    reveal_strlit("\n---\n");
    reveal_strlit("---\n\n");
    reveal_strlit("allowed_tools:\n");
    reveal_strlit("allowed_tools:");
    let l1 = "name: "@ + quote_spec(name);
    let l2 = "description: "@ + quote_spec(description);
    let base = seq![l1, l2];
    assert(base.drop_first() =~= seq![l2]);
    assert(join_lines(seq![l2]) == l2);
    assert(join_lines(base) == l1 + "\n"@ + l2);
    let r = render_spec(name, description, tools, prompt);
    let ok = match tools {
        Some(t) => t.len() > 0,
        None => false,
    };
    if ok {
        let t = tools->0;
        lemma_tool_lines(t);
        let items = item_lines(t);
        lemma_join_concat(base + seq!["allowed_tools:"@], items);
        lemma_join_push(base, "allowed_tools:"@);
        assert(base.push("allowed_tools:"@) =~= base + seq!["allowed_tools:"@]);
        assert(r =~= "---\n"@ + join_lines(fm_lines(name, description, tools)) + "\n---\n"@ + ("\n"@ + prompt
            + prompt_tail(prompt)));
    } else {
        assert(tools_block(tools) =~= Seq::<char>::empty());
        assert(r =~= "---\n"@ + join_lines(fm_lines(name, description, tools)) + "\n---\n"@ + ("\n"@ + prompt
            + prompt_tail(prompt)));
    }
}


/// Every newline of `y` is followed, within `y`, by something other than a
/// dash: no closing `---` line can start inside it.
pub open spec fn newline_then_no_dash(y: Seq<char>) -> bool {
    forall|m: int| 0 <= m < y.len() && #[trigger] y[m] == '\n' ==> m + 1 < y.len() && y[m + 1] != '-'
}

proof fn lemma_join_no_dash(ls: Seq<Seq<char>>)
    requires
        ls.len() > 0,
        forall|i: int| 0 <= i < ls.len() ==> #[trigger] clean_line(ls[i]),
        forall|i: int| 1 <= i < ls.len() ==> #[trigger] ls[i][0] != '-',
    ensures
        newline_then_no_dash(join_lines(ls)),
        join_lines(ls).len() > 0,
        join_lines(ls)[0] == ls[0][0],
    decreases ls.len(),
{
    reveal_strlit("\n");
    let l0 = ls[0];
    assert(clean_line(l0));
    if ls.len() == 1 {
        assert forall|m: int| 0 <= m < l0.len() && #[trigger] l0[m] == '\n' implies m + 1 < l0.len() && l0[m + 1] != '-' by {
            assert(contains_char(l0, '\n'));
        }
    } else {
        let rest = ls.drop_first();
        assert forall|i: int| 0 <= i < rest.len() implies #[trigger] clean_line(rest[i]) by {
            assert(clean_line(ls[i + 1]));
        }
        assert forall|i: int| 1 <= i < rest.len() implies #[trigger] rest[i][0] != '-' by {
            assert(ls[i + 1][0] != '-');
        }
        lemma_join_no_dash(rest);
        let jr = join_lines(rest);
        assert(rest[0] == ls[1]);
        assert(ls[1][0] != '-');
        let y = l0 + "\n"@ + jr;
        assert(join_lines(ls) == y);
        assert forall|m: int| 0 <= m < y.len() && #[trigger] y[m] == '\n' implies m + 1 < y.len() && y[m + 1] != '-' by {
            if m < l0.len() {
                assert(l0[m] == '\n');
                assert(contains_char(l0, '\n'));
            } else if m == l0.len() {
                assert(y[m + 1] == jr[0]);
            } else {
                assert(y[m] == jr[m - l0.len() - 1]);
                assert(y[m + 1] == jr[m - l0.len()]);
            }
        }
    }
}

proof fn lemma_close(y: Seq<char>, z: Seq<char>)
    requires
        newline_then_no_dash(y),
    ensures
        find_spec(y + "\n---\n"@ + z, "\n---\n"@) == Some(y.len()),
{
    reveal_strlit("\n---\n");
    let r = y + "\n---\n"@ + z;
    assert forall|m: int| 0 <= m < y.len() implies !occurs_at(r, "\n---\n"@, m) by {
        if occurs_at(r, "\n---\n"@, m) {
            let w = r.subrange(m, m + 5);
            assert(w[0] == r[m]);
            assert(w[1] == r[m + 1]);
            assert(r[m] == y[m]);
            if m + 1 < y.len() {
                assert(r[m + 1] == y[m + 1]);
            }
        }
    }
    assert(r.subrange(y.len() as int, y.len() + 5int) =~= "\n---\n"@);
    lemma_find_first(r, "\n---\n"@, 0, y.len());
}

/// The tools a rendering lists: those of a skill with at least one.
pub open spec fn kept_tools(tools: Option<Seq<Seq<char>>>) -> Option<Seq<Seq<char>>> {
    match tools {
        Some(t) => if t.len() > 0 { Some(t) } else { None },
        None => None,
    }
}

proof fn lemma_fold_push(ls: Seq<Seq<char>>, x: Seq<char>, st: FmState)
    ensures
        fm_fold(ls.push(x), st) == fm_step(fm_fold(ls, st), x),
{
    assert(ls.push(x).drop_last() =~= ls);
}

proof fn lemma_fold_items(pre: Seq<Seq<char>>, t: Seq<Seq<char>>, j: nat, st0: FmState)
    requires
        j <= t.len(),
        forall|i: int| 0 <= i < t.len() ==> safe_value(#[trigger] t[i]),
        fm_fold(pre, fm_initial()) == st0,
        st0.ctx == ListContext::AllowedTools,
        st0.allowed_tools is None,
    ensures
        fm_fold(pre + item_lines(t.take(j as int)), fm_initial()) == (if j == 0 {
            st0
        } else {
            FmState { allowed_tools: Some(t.take(j as int)), ..st0 }
        }),
    decreases j,
{
    if j == 0 {
        assert(item_lines(t.take(0)) =~= Seq::<Seq<char>>::empty());
        assert(pre + item_lines(t.take(0)) =~= pre);
    } else {
        let k = (j - 1) as nat;
        lemma_fold_items(pre, t, k, st0);
        let x = t[k as int];
        assert(safe_value(x));
        lemma_item_line(x);
        let line = "  - "@ + quote_spec(x);
        assert(pre + item_lines(t.take(j as int)) =~= (pre + item_lines(t.take(k as int))).push(line));
        lemma_fold_push(pre + item_lines(t.take(k as int)), line, fm_initial());
        let prev = fm_fold(pre + item_lines(t.take(k as int)), fm_initial());
        reveal_strlit("  - ");
        reveal_strlit("- ");
        let t2 = "- "@ + quote_spec(x);
        assert(t2[0] == '-');
        assert(trim_start_spec(line).len() < line.len());
        assert(t.take(j as int) =~= t.take(k as int).push(x));
        if k == 0 {
            assert(t.take(j as int) =~= seq![x]);
        }
    }
}


proof fn lemma_fold_base(name: Seq<char>, description: Seq<char>)
    requires
        safe_value(name),
        safe_value(description),
    ensures
        fm_fold(seq!["name: "@ + quote_spec(name), "description: "@ + quote_spec(description)], fm_initial())
            == (FmState {
            name: Some(name),
            description: Some(description),
            allowed_tools: None,
            version: None,
            ctx: ListContext::Plain,
        }),
{
    reveal_strlit("name");
    reveal_strlit("description");
    reveal_strlit("name: ");
    reveal_strlit("description: ");
    reveal_strlit(": ");
    let kn = "name"@;
    let kd = "description"@;
    assert(kn + ": "@ =~= "name: "@);
    assert(kd + ": "@ =~= "description: "@);
    assert(!contains_char(kn, ':') && !contains_char(kn, '\n')) by {
        if contains_char(kn, ':') || contains_char(kn, '\n') {
            let i = choose|i: int| 0 <= i < kn.len() && (kn[i] == ':' || kn[i] == '\n');
        }
    }
    assert(!contains_char(kd, ':') && !contains_char(kd, '\n')) by {
        if contains_char(kd, ':') || contains_char(kd, '\n') {
            let i = choose|i: int| 0 <= i < kd.len() && (kd[i] == ':' || kd[i] == '\n');
        }
    }
    assert(trim_start_spec(kn) == kn);
    assert(trim_end_spec(kn) == kn);
    assert(trim_start_spec(kd) == kd);
    assert(trim_end_spec(kd) == kd);
    lemma_scalar_line(kn, name);
    lemma_scalar_line(kd, description);
    let l1 = "name: "@ + quote_spec(name);
    let l2 = "description: "@ + quote_spec(description);
    let ls = seq![l1, l2];
    assert(kd.len() != kn.len());
    assert(kd != kn);
    assert(kd != "version"@ && kn != "version"@) by {
        reveal_strlit("version");
        assert(kd.len() != "version"@.len());
        assert(kn.len() != "version"@.len());
    }
    assert(ls =~= seq![l1].push(l2));
    assert(seq![l1] =~= Seq::<Seq<char>>::empty().push(l1));
    lemma_fold_push(seq![l1], l2, fm_initial());
    lemma_fold_push(Seq::<Seq<char>>::empty(), l1, fm_initial());
    let s1 = fm_step(fm_initial(), l1);
    assert(s1 == FmState { name: Some(name), ..fm_initial() });
    let s2 = fm_step(s1, l2);
    assert(s2 == FmState { description: Some(description), ..s1 });
}

proof fn lemma_allowed_tools_line(st: FmState)
    ensures
        fm_step(st, "allowed_tools:"@) == (FmState { ctx: ListContext::AllowedTools, ..st }),
{
    reveal_strlit("allowed_tools:");
    reveal_strlit("allowed_tools");
    reveal_strlit(":");
    let l = "allowed_tools:"@;
    assert(trim_end_spec(l) == l);
    assert(trim_start_spec(l) == l);
    assert forall|m: int| 0 <= m < 13 implies !occurs_at(l, ":"@, m) by {
        if occurs_at(l, ":"@, m) {
            assert(l.subrange(m, m + 1)[0] == l[m]);
        }
    }
    assert(l.subrange(13, 14) =~= ":"@);
    lemma_find_first(l, ":"@, 0, 13);
    assert(l.take(13) =~= "allowed_tools"@);
    assert(trim_start_spec("allowed_tools"@) == "allowed_tools"@);
    assert(trim_end_spec("allowed_tools"@) == "allowed_tools"@);
    assert(l.skip(14) =~= Seq::<char>::empty());
}

/// Rendering a skill and reading it back gives its name, description and
/// tool names again, and its prompt as the body (less leading white space,
/// with the final newline the rendering ensures). It holds for every value
/// that has no newline and, when it needs quoting, no backslash or double
/// quote: the reader strips quotes but does not unescape.
pub proof fn render_then_parse_round_trips(
    name: Seq<char>,
    description: Seq<char>,
    tools: Option<Seq<Seq<char>>>,
    prompt: Seq<char>,
)
    requires
        safe_value(name),
        safe_value(description),
        tools matches Some(t) ==> forall|i: int| 0 <= i < t.len() ==> safe_value(#[trigger] t[i]),
    ensures
        parse_spec(render_spec(name, description, tools, prompt)) == Ok::<(FrontmatterView, Seq<char>), SkillParseError>((
            FrontmatterView { name, description, allowed_tools: kept_tools(tools), version: None },
            trim_start_spec(prompt + prompt_tail(prompt)),
        )),
{
    reveal_strlit("\n");
    reveal_strlit("---\n");
    reveal_strlit("\n---\n");
    reveal_strlit("name: ");
    reveal_strlit("description: ");
    reveal_strlit("allowed_tools:");
    reveal_strlit("name");
    reveal_strlit("description");
    reveal_strlit(": ");
    let ls = fm_lines(name, description, tools);
    let y = join_lines(ls);
    let z = "\n"@ + prompt + prompt_tail(prompt);
    lemma_render_shape(name, description, tools, prompt);
    let doc = render_spec(name, description, tools, prompt);
    assert(doc == "---\n"@ + y + "\n---\n"@ + z);

    // Each written line is one the reader keeps whole.
    let kn = "name"@;
    let kd = "description"@;
    assert(kn + ": "@ =~= "name: "@);
    assert(kd + ": "@ =~= "description: "@);
    assert(!contains_char(kn, ':') && !contains_char(kn, '\n')) by {
        if contains_char(kn, ':') || contains_char(kn, '\n') {
            let i = choose|i: int| 0 <= i < kn.len() && (kn[i] == ':' || kn[i] == '\n');
        }
    }
    assert(!contains_char(kd, ':') && !contains_char(kd, '\n')) by {
        if contains_char(kd, ':') || contains_char(kd, '\n') {
            let i = choose|i: int| 0 <= i < kd.len() && (kd[i] == ':' || kd[i] == '\n');
        }
    }
    assert(trim_start_spec(kn) == kn);
    assert(trim_end_spec(kn) == kn);
    assert(trim_start_spec(kd) == kd);
    assert(trim_end_spec(kd) == kd);
    lemma_scalar_line(kn, name);
    lemma_scalar_line(kd, description);
    let at = "allowed_tools:"@;
    assert(clean_line(at)) by {
        if contains_char(at, '\n') {
            let i = choose|i: int| 0 <= i < at.len() && at[i] == '\n';
        }
    }
    let base = seq!["name: "@ + quote_spec(name), "description: "@ + quote_spec(description)];
    let has_tools = kept_tools(tools) is Some;
    assert forall|i: int| 0 <= i < ls.len() implies #[trigger] clean_line(ls[i]) && (i >= 1 ==> ls[i][0] != '-') by {
        if i >= 3 {
            let t = tools->0;
            assert(safe_value(t[i - 3]));
            lemma_item_line(t[i - 3]);
            assert(ls[i] == item_lines(t)[i - 3]);
        }
    }
    assert forall|i: int| 1 <= i < ls.len() implies #[trigger] ls[i][0] != '-' by {
        assert(clean_line(ls[i]) && (i >= 1 ==> ls[i][0] != '-'));
    }
    lemma_join_no_dash(ls);

    // The document splits at the closing line after the frontmatter.
    assert(doc[0] == '-');
    assert(strip_bom(doc) == doc);
    assert(doc.subrange(0, 4) =~= "---\n"@);
    let rest = doc.skip(4);
    assert(rest =~= y + "\n---\n"@ + z);
    lemma_close(y, z);
    assert(rest.take(y.len() as int) =~= y);
    assert(rest.skip(y.len() + 5int) =~= z);
    assert(z[0] == '\n');
    assert(z.drop_first() =~= prompt + prompt_tail(prompt));
    assert(trim_start_spec(z) == trim_start_spec(prompt + prompt_tail(prompt)));
    assert(split_doc(doc) == Ok::<(Seq<char>, Seq<char>), SkillParseError>((y, trim_start_spec(prompt + prompt_tail(prompt)))));

    // The frontmatter reads back line by line.
    lemma_lines_of_join(ls, seq![]);
    assert(Seq::<Seq<char>>::empty() + ls =~= ls);
    lemma_fold_base(name, description);
    let st2 = FmState {
        name: Some(name),
        description: Some(description),
        allowed_tools: None,
        version: None,
        ctx: ListContext::Plain,
    };
    if has_tools {
        let t = tools->0;
        lemma_fold_push(base, at, fm_initial());
        lemma_allowed_tools_line(st2);
        let st3 = FmState { ctx: ListContext::AllowedTools, ..st2 };
        assert(base.push(at) =~= base + seq![at]);
        lemma_fold_items(base + seq![at], t, t.len(), st3);
        assert(t.take(t.len() as int) =~= t);
        assert(ls =~= base + seq![at] + item_lines(t.take(t.len() as int)));
    } else {
        assert(ls == base);
    }
}


// ------------------------------------------------- frontmatter, any document

/// A `YAML frontmatter + Markdown body` document split in two, named
/// `doc` in the errors. Unlike a SKILL.md, the frontmatter may be empty:
/// the closing `---` line may follow the opening one directly.
pub open spec fn split_frontmatter_spec(content: Seq<char>, doc: Seq<char>) -> Result<(Seq<char>, Seq<char>), Seq<char>> {
    match after_opening(strip_bom(content)) {
        None => Err(doc + " must start with a '---' frontmatter delimiter"@),
        Some(rest) => {
            let r = "\n"@ + rest;
            match closing(r) {
                None => Err(doc + " frontmatter not closed (expected '---' separator)"@),
                Some((i, l)) => Ok((
                    if i == 0 { seq![] } else { rest.take(i - 1) },
                    trim_start_spec(r.skip((i + l) as int)),
                )),
            }
        },
    }
}

/// Split a document into its frontmatter text and its body (leading white
/// space removed).
pub fn split_frontmatter(content: &str, doc: &str) -> (r: Result<(String, String), String>)
    ensures
        match r {
            Ok((y, b)) => split_frontmatter_spec(content@, doc@) == Ok::<(Seq<char>, Seq<char>), Seq<char>>((y@, b@)),
            Err(e) => split_frontmatter_spec(content@, doc@) == Err::<(Seq<char>, Seq<char>), Seq<char>>(e@),
        },
{
    let cs = crate::text::chars_of(content);
    let n = cs.len();
    let mut a: usize = 0;
    assert(cs@.skip(0) =~= cs@);
    while a < n && cs[a] == '\u{feff}'
        invariant
            n == cs@.len(),
            cs@ == content@,
            a <= n,
            strip_bom(content@) == strip_bom(cs@.skip(a as int)),
        decreases n - a,
    {
        assert(cs@.skip(a as int).drop_first() =~= cs@.skip(a + 1));
        a += 1;
    }
    proof {
        reveal_strlit("---\n");
        reveal_strlit("---\r\n");
        reveal_strlit("\n");
    }
    let ghost s = cs@.skip(a as int);
    let mut start: usize = a;
    if n - a >= 4 && cs[a] == '-' && cs[a + 1] == '-' && cs[a + 2] == '-' && cs[a + 3] == '\n' {
        assert(s.subrange(0, 4) =~= "---\n"@);
        start = a + 4;
    } else if n - a >= 5 && cs[a] == '-' && cs[a + 1] == '-' && cs[a + 2] == '-' && cs[a + 3] == '\r' && cs[a + 4] == '\n' {
        assert(s.subrange(0, 5) =~= "---\r\n"@);
        assert(!occurs_at(s, "---\n"@, 0)) by {
            assert(s.subrange(0, 4)[3] != '\n');
        }
        start = a + 5;
    } else {
        assert(!occurs_at(s, "---\n"@, 0)) by {
            if s.len() >= 4 {
                let w = s.subrange(0, 4);
                assert(w[0] == s[0] && w[1] == s[1] && w[2] == s[2] && w[3] == s[3]);
            }
        }
        assert(!occurs_at(s, "---\r\n"@, 0)) by {
            if s.len() >= 5 {
                let w = s.subrange(0, 5);
                assert(w[0] == s[0] && w[1] == s[1] && w[2] == s[2] && w[3] == s[3] && w[4] == s[4]);
            }
        }
        let mut e = lit(doc);
        push_str(&mut e, " must start with a '---' frontmatter delimiter");
        return Err(e);
    }
    let mut r: Vec<char> = Vec::new();
    r.push('\n');
    let ghost rest = s.skip((start - a) as int);
    let tail = slice_chars(cs.as_slice(), start, n);
    let mut i: usize = 0;
    while i < tail.len()
        invariant
            i <= tail@.len(),
            r@ == seq!['\n'] + tail@.take(i as int),
        decreases tail.len() - i,
    {
        r.push(tail[i]);
        i += 1;
        assert(r@ =~= seq!['\n'] + tail@.take(i as int));
    }
    assert(tail@.take(tail@.len() as int) =~= tail@);
    assert(cs@.subrange(start as int, n as int) =~= rest);
    assert(r@ =~= "\n"@ + rest);
    match closing_exec(r.as_slice()) {
        None => {
            let mut e = lit(doc);
            push_str(&mut e, " frontmatter not closed (expected '---' separator)");
            Err(e)
        },
        Some((i, l)) => {
            let yaml = if i == 0 {
                String::new()
            } else {
                let y = string_of(&r.as_slice()[1..i]);
                assert(r@.subrange(1, i as int) =~= rest.take(i - 1));
                y
            };
            let body = string_of(trim_start_chars(slice_chars(r.as_slice(), i + l, r.len()).as_slice()).as_slice());
            assert(r@.subrange((i + l) as int, r@.len() as int) =~= r@.skip((i + l) as int));
            Ok((yaml, body))
        },
    }
}

/// The value of the scalar `key` in `lines`, having found `cur` so far: a
/// later line overrides an earlier one; `null`, `~` and a blank value read
/// as absent.
pub open spec fn scalar_in(lines: Seq<Seq<char>>, key: Seq<char>, cur: Option<Seq<char>>) -> Option<Seq<char>>
    decreases lines.len(),
{
    if lines.len() == 0 {
        cur
    } else {
        let line = trim_end_spec(lines[0]);
        let next = match find_spec(line, ":"@) {
            Some(i) => if trim_spec(line.take(i as int)) == key {
                let v = strip_quotes_spec(trim_spec(line.skip(i + 1int)));
                if v.len() == 0 || v == "null"@ || v == "~"@ { None } else { Some(v) }
            } else {
                cur
            },
            None => cur,
        };
        scalar_in(lines.drop_first(), key, next)
    }
}

/// The scalar `key` of a frontmatter text.
pub open spec fn frontmatter_scalar_spec(yaml: Seq<char>, key: Seq<char>) -> Option<Seq<char>> {
    scalar_in(lines_spec(yaml), key, None)
}

/// The value of `key` in a frontmatter text, if it has a real one.
pub fn frontmatter_scalar(yaml: &str, key: &str) -> (r: Option<String>)
    ensures
        match r {
            Some(v) => frontmatter_scalar_spec(yaml@, key@) == Some(v@),
            None => frontmatter_scalar_spec(yaml@, key@) is None,
        },
{
    let cs = crate::text::chars_of(yaml);
    let ls = lines(cs.as_slice());
    let kc = crate::text::chars_of(key);
    let colon = crate::text::chars_of(":");
    proof {
        reveal_strlit(":");
        reveal_strlit("null");
        reveal_strlit("~");
    }
    let ghost lv = chars_views(ls@);
    let mut cur: Option<Vec<char>> = None;
    let mut i: usize = 0;
    assert(lv.skip(0) =~= lv);
    while i < ls.len()
        invariant
            i <= ls@.len(),
            lv == chars_views(ls@),
            lv == lines_spec(yaml@),
            kc@ == key@,
            colon@ == ":"@,
            frontmatter_scalar_spec(yaml@, key@) == scalar_in(lv.skip(i as int), key@, match cur {
                Some(v) => Some(v@),
                None => None,
            }),
        decreases ls.len() - i,
    {
        proof {
            reveal_strlit(":");
            reveal_strlit("null");
            reveal_strlit("~");
        }
        assert(lv.skip(i as int)[0] == ls@[i as int]@);
        assert(lv.skip(i as int).drop_first() =~= lv.skip(i + 1));
        let line = trim_end_chars(ls[i].as_slice());
        match find(line.as_slice(), colon.as_slice()) {
            Some(k) => {
                assert(colon@.len() == 1);
                assert(occurs_at(line@, colon@, k as int));
                assert(k + 1 <= line@.len());
                assert(k < line.len());
                let after: usize = k + 1;
                let key_part = trim_chars(slice_chars(line.as_slice(), 0, k).as_slice());
                assert(line@.subrange(0, k as int) =~= line@.take(k as int));
                if crate::text::chars_eq(key_part.as_slice(), kc.as_slice()) {
                    let v = strip_quotes_chars(trim_chars(slice_chars(line.as_slice(), after, line.len()).as_slice()));
                    assert(line@.subrange(k + 1, line@.len() as int) =~= line@.skip(k + 1int));
                    let is_null = v.len() == 0 || (v.len() == 4 && v[0] == 'n' && v[1] == 'u' && v[2] == 'l' && v[3] == 'l')
                        || (v.len() == 1 && v[0] == '~');
                    assert(is_null == (v@.len() == 0 || v@ == "null"@ || v@ == "~"@)) by {
                        if v@ == "null"@ {
                            assert(v@[0] == 'n' && v@[1] == 'u' && v@[2] == 'l' && v@[3] == 'l');
                        }
                        if v@.len() == 4 && v@[0] == 'n' && v@[1] == 'u' && v@[2] == 'l' && v@[3] == 'l' {
                            assert(v@ =~= "null"@);
                        }
                        if v@.len() == 1 && v@[0] == '~' {
                            assert(v@ =~= "~"@);
                        }
                    }
                    cur = if is_null { None } else { Some(v) };
                }
            },
            None => {},
        }
        i += 1;
    }
    match cur {
        Some(v) => Some(string_of(v.as_slice())),
        None => None,
    }
}

} // verus!

verus! {

// ------------------------------------------------------------ the library

/// Where the active skills and the pending proposals live.
pub struct SkillManager {
    skills_dir: String,
    proposals_dir: String,
}

impl SkillManager {
    /// The directory of active skills.
    pub closed spec fn skills_view(&self) -> Seq<char> {
        self.skills_dir@
    }

    /// The directory of proposals awaiting a decision.
    pub closed spec fn proposals_view(&self) -> Seq<char> {
        self.proposals_dir@
    }

    /// The library under `home`: `~/.seekcli/skills`, with proposals in its
    /// `proposals` subdirectory.
    pub fn at(home: &str) -> (r: SkillManager)
        ensures
            r.skills_view() == path_join_spec(path_join_spec(home@, ".seekcli"@), "skills"@),
            r.proposals_view() == path_join_spec(r.skills_view(), "proposals"@),
    {
        let base = path_join(home, ".seekcli");
        let skills_dir = path_join(base.as_str(), "skills");
        let proposals_dir = path_join(skills_dir.as_str(), "proposals");
        SkillManager { skills_dir, proposals_dir }
    }

    pub fn skills_dir(&self) -> (r: &String)
        ensures
            r@ == self.skills_view(),
    {
        &self.skills_dir
    }

    pub fn proposals_dir(&self) -> (r: &String)
        ensures
            r@ == self.proposals_view(),
    {
        &self.proposals_dir
    }

    /// Where proposal `name` lives in either format, and where it would go on
    /// acceptance: (proposal dir, proposal json, skill dir, skill json). The
    /// name is sanitised first, so it cannot leave either directory.
    pub fn promotion_paths(&self, name: &str) -> (r: (String, String, String, String))
        ensures
            r.0@ == path_join_spec(self.proposals_view(), sanitize_spec(name@)),
            r.1@ == path_join_spec(self.proposals_view(), sanitize_spec(name@) + ".json"@),
            r.2@ == path_join_spec(self.skills_view(), sanitize_spec(name@)),
            r.3@ == path_join_spec(self.skills_view(), sanitize_spec(name@) + ".json"@),
    {
        let safe = sanitize_name(name);
        let mut json = safe.clone();
        push_str(&mut json, ".json");
        (
            path_join(self.proposals_dir.as_str(), safe.as_str()),
            path_join(self.proposals_dir.as_str(), json.as_str()),
            path_join(self.skills_dir.as_str(), safe.as_str()),
            path_join(self.skills_dir.as_str(), json.as_str()),
        )
    }
}

/// The refusal when accepting a proposal would overwrite an active skill.
pub fn skill_exists_message(name: &str) -> (r: String)
    ensures
        r@ == "A skill named '"@ + name@ + "' already exists. Reject the proposal or rename it first."@,
{
    let mut s = lit("A skill named '");
    push_str(&mut s, name);
    push_str(&mut s, "' already exists. Reject the proposal or rename it first.");
    s
}

/// The refusal for a proposal that is in neither format.
pub fn proposal_not_found_message(name: &str) -> (r: String)
    ensures
        r@ == "Proposal '"@ + name@ + "' not found"@,
{
    let mut s = lit("Proposal '");
    push_str(&mut s, name);
    push_str(&mut s, "' not found");
    s
}

/// Whether a directory entry is a legacy `<name>.json` skill to migrate: a
/// file with the `json` extension, other than the proposals directory.
pub fn is_legacy_skill_file(file_name: &str, is_file: bool, extension: Option<&str>) -> (b: bool)
    ensures
        b == (file_name@ != "proposals"@ && is_file && (match extension { Some(e) => e@ == "json"@, None => false })),
{
    if str_eq(file_name, "proposals") || !is_file {
        return false;
    }
    match extension {
        Some(e) => str_eq(e, "json"),
        None => false,
    }
}

/// What a migration of legacy skills did, one line per skill.
pub struct MigrateReport {
    pub migrated: Vec<String>,
    pub skipped: Vec<String>,
    pub errors: Vec<String>,
}

impl Default for MigrateReport {
    fn default() -> (r: MigrateReport)
        ensures
            r.migrated@.len() == 0,
            r.skipped@.len() == 0,
            r.errors@.len() == 0,
    {
        MigrateReport { migrated: Vec::new(), skipped: Vec::new(), errors: Vec::new() }
    }
}

impl MigrateReport {
    /// Skill `name` was converted.
    pub fn record_migrated(&mut self, name: String)
        ensures
            final(self).migrated@ == old(self).migrated@.push(name),
            final(self).skipped@ == old(self).skipped@,
            final(self).errors@ == old(self).errors@,
    {
        self.migrated.push(name);
    }

    /// Skill `name` was left alone because its directory already exists.
    pub fn record_skipped(&mut self, name: &str)
        ensures
            final(self).skipped@.len() == old(self).skipped@.len() + 1,
            final(self).skipped@.last()@ == name@ + ": directory already exists"@,
            final(self).skipped@.drop_last() == old(self).skipped@,
            final(self).migrated@ == old(self).migrated@,
            final(self).errors@ == old(self).errors@,
    {
        let mut s = lit(name);
        push_str(&mut s, ": directory already exists");
        self.skipped.push(s);
        assert(self.skipped@.drop_last() =~= old(self).skipped@);
    }

    /// Skill `name` could not be migrated: `stage` failed with `err`.
    pub fn record_error(&mut self, name: &str, stage: &str, err: &str)
        ensures
            final(self).errors@.len() == old(self).errors@.len() + 1,
            final(self).errors@.last()@ == name@ + ": "@ + stage@ + ": "@ + err@,
            final(self).errors@.drop_last() == old(self).errors@,
            final(self).migrated@ == old(self).migrated@,
            final(self).skipped@ == old(self).skipped@,
    {
        let mut s = lit(name);
        push_str(&mut s, ": ");
        push_str(&mut s, stage);
        push_str(&mut s, ": ");
        push_str(&mut s, err);
        self.errors.push(s);
        assert(self.errors@.drop_last() =~= old(self).errors@);
    }
}

} // verus!
