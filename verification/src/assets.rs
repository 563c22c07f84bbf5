//! A skill's assets: the `scripts/` and `references/` files next to its
//! SKILL.md, listed in its prompt with a one-line description of each, so
//! the model knows they exist without reading them. Listing the directories
//! happens outside; here are what is listed, in what order, with what
//! description, and how the section reads.

use vstd::prelude::*;
use crate::record::{lex_le, str_le};
use crate::text::{
    chars_of, chars_views, lines, lines_spec, lit, occurs_at, push_str, slice_chars, string_of, strings_view,
    trim_chars, trim_end_spec, trim_spec,
};

verus! {

/// How many leading lines are searched for a description.
pub const SCANNED_LINES: usize = 20;
/// The longest description, in chars, before it is cut.
pub const DESCRIPTION_CAP: usize = 120;

/// `s` with every leading repetition of `p` removed.
pub open spec fn strip_all(s: Seq<char>, p: Seq<char>) -> Seq<char>
    decreases s.len(),
{
    if p.len() > 0 && s.len() >= p.len() && s.take(p.len() as int) == p {
        strip_all(s.skip(p.len() as int), p)
    } else {
        s
    }
}

/// A trimmed line with its comment markers (`#`, `//`, `/*`, `*`, `;`, in
/// that order) removed, trimmed again.
pub open spec fn comment_stripped(t: Seq<char>) -> Seq<char> {
    trim_spec(strip_all(strip_all(strip_all(strip_all(strip_all(t, "#"@), "//"@), "/*"@), "*"@), ";"@))
}

/// A description cut to [`DESCRIPTION_CAP`] chars, with an ellipsis when cut.
pub open spec fn capped(s: Seq<char>) -> Seq<char> {
    if s.len() > DESCRIPTION_CAP { s.take(DESCRIPTION_CAP as int) + "\u{2026}"@ } else { s }
}

/// What a line says about its file: nothing for a blank line, a shebang,
/// or a bare comment marker.
pub open spec fn line_description(l: Seq<char>) -> Option<Seq<char>> {
    let t = trim_spec(l);
    if t.len() == 0 || occurs_at(t, "#!"@, 0) {
        None
    } else if comment_stripped(t).len() == 0 {
        None
    } else {
        Some(capped(comment_stripped(t)))
    }
}

/// The first line of `ls` that says something.
pub open spec fn first_description(ls: Seq<Seq<char>>) -> Option<Seq<char>>
    decreases ls.len(),
{
    if ls.len() == 0 {
        None
    } else {
        match line_description(ls[0]) {
            Some(d) => Some(d),
            None => first_description(ls.drop_first()),
        }
    }
}

/// The description of a file with text `content`: the first meaningful of
/// its first [`SCANNED_LINES`] lines, or nothing.
pub open spec fn description_spec(content: Seq<char>) -> Seq<char> {
    let ls = lines_spec(content);
    let head = if ls.len() > SCANNED_LINES { ls.take(SCANNED_LINES as int) } else { ls };
    match first_description(head) {
        Some(d) => d,
        None => Seq::empty(),
    }
}

fn strip_all_chars(s: Vec<char>, p: &str) -> (r: Vec<char>)
    ensures
        r@ == strip_all(s@, p@),
{
    let pc = chars_of(p);
    if pc.len() == 0 {
        return s;
    }
    let mut cur = s;
    while cur.len() >= pc.len() && crate::text::starts_with(cur.as_slice(), pc.as_slice())
        invariant
            pc@ == p@,
            pc@.len() > 0,
            strip_all(cur@, p@) == strip_all(s@, p@),
        decreases cur@.len(),
    {
        assert(cur@.subrange(0, pc@.len() as int) =~= cur@.take(pc@.len() as int));
        let next = slice_chars(cur.as_slice(), pc.len(), cur.len());
        assert(next@ =~= cur@.skip(pc@.len() as int));
        cur = next;
    }
    proof {
        if cur@.len() >= pc@.len() && cur@.take(pc@.len() as int) == p@ {
            assert(cur@.subrange(0, pc@.len() as int) =~= cur@.take(pc@.len() as int));
        }
    }
    cur
}

fn describe_line(l: &[char]) -> (r: Option<String>)
    ensures
        crate::config::opt_seq(r) == line_description(l@),
{
    let t = trim_chars(l);
    let shebang = chars_of("#!");
    proof {
        reveal_strlit("#!");
    }
    if t.len() == 0 || crate::text::starts_with(t.as_slice(), shebang.as_slice()) {
        return None;
    }
    let a = strip_all_chars(t, "#");
    let b = strip_all_chars(a, "//");
    let c = strip_all_chars(b, "/*");
    let d = strip_all_chars(c, "*");
    let e = strip_all_chars(d, ";");
    let st = trim_chars(e.as_slice());
    if st.len() == 0 {
        return None;
    }
    if st.len() > DESCRIPTION_CAP {
        let mut out = string_of(&st.as_slice()[0..DESCRIPTION_CAP]);
        assert(st@.subrange(0, DESCRIPTION_CAP as int) =~= st@.take(DESCRIPTION_CAP as int));
        push_str(&mut out, "\u{2026}");
        Some(out)
    } else {
        Some(string_of(st.as_slice()))
    }
}

/// The one-line description of an asset file with text `content`.
pub fn asset_description(content: &str) -> (r: String)
    ensures
        r@ == description_spec(content@),
{
    let cs = chars_of(content);
    let ls = lines(cs.as_slice());
    let ghost lv = chars_views(ls@);
    let ghost head = if lv.len() > SCANNED_LINES { lv.take(SCANNED_LINES as int) } else { lv };
    let limit = if ls.len() > SCANNED_LINES { SCANNED_LINES } else { ls.len() };
    assert(head.len() == limit);
    let mut i: usize = 0;
    assert(head.skip(0) =~= head);
    while i < limit
        invariant
            i <= limit,
            limit == head.len(),
            limit <= ls@.len(),
            lv == chars_views(ls@),
            lv == lines_spec(content@),
            head == (if lv.len() > SCANNED_LINES { lv.take(SCANNED_LINES as int) } else { lv }),
            first_description(head) == first_description(head.skip(i as int)),
        decreases limit - i,
    {
        assert(head.skip(i as int)[0] == ls@[i as int]@);
        assert(head.skip(i as int).drop_first() =~= head.skip(i + 1));
        match describe_line(ls[i].as_slice()) {
            Some(d) => {
                return d;
            },
            None => {},
        }
        i += 1;
    }
    String::new()
}


/// The two kinds of asset a skill can carry.
#[derive(Debug, Clone, Copy, PartialEq, Eq)]
pub enum AssetKind {
    /// `scripts/`: run with `run_shell`.
    Scripts,
    /// `references/`: read with `read_file`.
    References,
}

impl AssetKind {
    /// The file extensions listed for this kind.
    pub open spec fn extensions_spec(self) -> Seq<Seq<char>> {
        match self {
            AssetKind::Scripts => seq!["sh"@, "py"@, "js"@, "ts"@, "rb"@],
            AssetKind::References => seq!["md"@, "txt"@, "json"@, "yaml"@, "yml"@],
        }
    }

    /// The subdirectory this kind lives in.
    pub fn dir_name(self) -> (r: &'static str)
        ensures
            r@ == (match self {
                AssetKind::Scripts => "scripts"@,
                AssetKind::References => "references"@,
            }),
    {
        match self {
            AssetKind::Scripts => "scripts",
            AssetKind::References => "references",
        }
    }

    /// Whether a (lowercased) extension is listed for this kind.
    pub fn allows(self, ext: &str) -> (b: bool)
        ensures
            b == self.extensions_spec().contains(ext@),
    {
        let names: [&str; 5] = match self {
            AssetKind::Scripts => ["sh", "py", "js", "ts", "rb"],
            AssetKind::References => ["md", "txt", "json", "yaml", "yml"],
        };
        let ghost ev = self.extensions_spec();
        proof {
            assert(names@.map_values(|n: &str| n@) =~= ev);
        }
        let mut i: usize = 0;
        while i < 5
            invariant
                i <= 5,
                names@.len() == 5,
                names@.map_values(|n: &str| n@) == ev,
                ev == self.extensions_spec(),
                forall|j: int| 0 <= j < i ==> ev[j] != ext@,
            decreases 5 - i,
        {
            if crate::text::str_eq(names[i], ext) {
                assert(ev[i as int] == names@[i as int]@);
                assert(ev.contains(ext@));
                return true;
            }
            assert(ev[i as int] == names@[i as int]@);
            i += 1;
        }
        false
    }
}

/// A file in an asset directory: its name, its extension as the path gives
/// it, and its text when it could be read.
pub struct AssetFile {
    pub name: String,
    pub extension: Option<String>,
    pub content: Option<String>,
}

/// Whether `f` is listed for `kind`: its extension, lowercased, is one of
/// the kind's.
pub open spec fn listed(kind: AssetKind, f: AssetFile) -> bool {
    match f.extension {
        Some(e) => kind.extensions_spec().contains(crate::text::lowercase(e@)),
        None => false,
    }
}

/// The entry `f` becomes: its name and its description (none when it could
/// not be read).
pub open spec fn entry_of(f: AssetFile) -> (Seq<char>, Seq<char>) {
    (f.name@, match f.content {
        Some(c) => description_spec(c@),
        None => Seq::empty(),
    })
}

pub open spec fn pair_view(p: (String, String)) -> (Seq<char>, Seq<char>) {
    (p.0@, p.1@)
}

/// Whether entries are in ascending order of name.
pub open spec fn by_name(s: Seq<(String, String)>) -> bool {
    forall|i: int, j: int| 0 <= i < j < s.len() ==> lex_le(#[trigger] s[i].0@, #[trigger] s[j].0@)
}

/// The entries listed for `kind` among `files`: each listed file with its
/// description, ordered by name.
pub fn asset_entries(kind: AssetKind, files: &Vec<AssetFile>) -> (r: Vec<(String, String)>)
    ensures
        by_name(r@),
        r@.map_values(|p: (String, String)| pair_view(p)).to_multiset() == files@.filter(
            |f: AssetFile| listed(kind, f),
        ).map_values(|f: AssetFile| entry_of(f)).to_multiset(),
{
    let ghost keep = |f: AssetFile| listed(kind, f);
    let ghost fv = files@.filter(keep).map_values(|f: AssetFile| entry_of(f));
    let mut r: Vec<(String, String)> = Vec::new();
    let mut i: usize = 0;
    assert(files@.take(0).filter(keep) =~= Seq::<AssetFile>::empty());
    assert(r@.map_values(|p: (String, String)| pair_view(p)) =~= files@.take(0).filter(keep).map_values(
        |f: AssetFile| entry_of(f),
    ));
    while i < files.len()
        invariant
            i <= files@.len(),
            keep == (|f: AssetFile| listed(kind, f)),
            by_name(r@),
            r@.map_values(|p: (String, String)| pair_view(p)).to_multiset() == files@.take(i as int).filter(keep).map_values(
                |f: AssetFile| entry_of(f),
            ).to_multiset(),
        decreases files.len() - i,
    {
        let f = &files[i];
        proof {
            files@.take(i as int).lemma_filter_push(files@[i as int], keep);
            assert(files@.take(i as int).push(files@[i as int]) =~= files@.take(i + 1));
        }
        let take = match &f.extension {
            Some(e) => {
                let low = crate::text::to_lowercase(e.as_str());
                kind.allows(low.as_str())
            },
            None => false,
        };
        if take {
            let desc = match &f.content {
                Some(c) => asset_description(c.as_str()),
                None => String::new(),
            };
            let x = (f.name.clone(), desc);
            assert(pair_view(x) == entry_of(files@[i as int]));
            let mut p: usize = 0;
            while p < r.len() && str_le(r[p].0.as_str(), x.0.as_str())
                invariant
                    p <= r@.len(),
                    forall|k: int| 0 <= k < p ==> lex_le(#[trigger] r@[k].0@, x.0@),
                decreases r.len() - p,
            {
                p += 1;
            }
            let ghost before = r@;
            proof {
                assert forall|k: int| p <= k < before.len() implies lex_le(x.0@, #[trigger] before[k].0@) by {
                    crate::record::lemma_lex_total(before[p as int].0@, x.0@);
                    if k > p {
                        crate::record::lemma_lex_trans(x.0@, before[p as int].0@, before[k].0@);
                    }
                }
            }
            r.insert(p, x);
            proof {
                let bv = before.map_values(|q: (String, String)| pair_view(q));
                assert(r@.map_values(|q: (String, String)| pair_view(q)) =~= bv.insert(p as int, pair_view(x)));
                vstd::seq_lib::to_multiset_insert(bv, p as int, pair_view(x));
                let prev = files@.take(i as int).filter(keep);
                assert(prev.push(files@[i as int]).map_values(|f: AssetFile| entry_of(f)) =~= prev.map_values(
                    |f: AssetFile| entry_of(f),
                ).push(entry_of(files@[i as int])));
                vstd::seq_lib::to_multiset_build(prev.map_values(|f: AssetFile| entry_of(f)), entry_of(files@[i as int]));
                assert forall|a: int, b: int| 0 <= a < b < r@.len() implies lex_le(#[trigger] r@[a].0@, #[trigger] r@[b].0@) by {
                    if b < p {
                    } else if b == p {
                    } else if a < p {
                        crate::record::lemma_lex_trans(r@[a].0@, r@[p as int].0@, r@[b].0@);
                    } else if a == p {
                    } else {
                    }
                }
            }
        }
        i += 1;
    }
    assert(files@.take(files@.len() as int) =~= files@);
    r
}

/// One listed asset: its name in backticks, and its description after a
/// dash when it has one.
pub open spec fn item_spec(p: (Seq<char>, Seq<char>)) -> Seq<char> {
    if p.1.len() == 0 {
        "- `"@ + p.0 + "`\n"@
    } else {
        "- `"@ + p.0 + "` \u{2014} "@ + p.1 + "\n"@
    }
}

pub open spec fn items_spec(ps: Seq<(Seq<char>, Seq<char>)>) -> Seq<char>
    decreases ps.len(),
{
    if ps.len() == 0 {
        Seq::empty()
    } else {
        items_spec(ps.drop_last()) + item_spec(ps.last())
    }
}

/// The prompt section for `kind`'s entries in directory `dir`; nothing when
/// there are none.
pub open spec fn section_spec(kind: AssetKind, dir: Seq<char>, ps: Seq<(Seq<char>, Seq<char>)>) -> Seq<char> {
    if ps.len() == 0 {
        Seq::empty()
    } else {
        match kind {
            AssetKind::Scripts => "## Skill Scripts\nLocated in `"@ + dir
                + "`. Invoke via `run_shell` with the absolute path.\n\n"@ + items_spec(ps) + "\n"@,
            AssetKind::References => "## Skill References\nLocated in `"@ + dir
                + "`. Read with `read_file` when relevant.\n\n"@ + items_spec(ps),
        }
    }
}

/// The prompt section that lists `entries` of `kind`, found in `dir`.
pub fn asset_section(kind: AssetKind, dir: &str, entries: &Vec<(String, String)>) -> (r: String)
    ensures
        r@ == section_spec(kind, dir@, entries@.map_values(|p: (String, String)| pair_view(p))),
{
    let ghost ev = entries@.map_values(|p: (String, String)| pair_view(p));
    if entries.len() == 0 {
        return String::new();
    }
    let mut out = match kind {
        AssetKind::Scripts => lit("## Skill Scripts\nLocated in `"),
        AssetKind::References => lit("## Skill References\nLocated in `"),
    };
    push_str(&mut out, dir);
    match kind {
        AssetKind::Scripts => push_str(&mut out, "`. Invoke via `run_shell` with the absolute path.\n\n"),
        AssetKind::References => push_str(&mut out, "`. Read with `read_file` when relevant.\n\n"),
    }
    let ghost head = out@;
    let mut i: usize = 0;
    while i < entries.len()
        invariant
            i <= entries@.len(),
            ev == entries@.map_values(|p: (String, String)| pair_view(p)),
            out@ == head + items_spec(ev.take(i as int)),
        decreases entries.len() - i,
    {
        assert(ev.take(i + 1).drop_last() =~= ev.take(i as int));
        assert(ev.take(i + 1).last() == pair_view(entries@[i as int]));
        push_str(&mut out, "- `");
        push_str(&mut out, entries[i].0.as_str());
        if entries[i].1.as_str().is_empty() {
            push_str(&mut out, "`\n");
        } else {
            push_str(&mut out, "` \u{2014} ");
            push_str(&mut out, entries[i].1.as_str());
            push_str(&mut out, "\n");
        }
        i += 1;
    }
    assert(ev.take(i as int) =~= ev);
    if let AssetKind::Scripts = kind {
        push_str(&mut out, "\n");
    }
    out
}

/// A skill's prompt: its body, followed by the assets section when there
/// is one (the body's trailing white space dropped, a blank line between).
pub open spec fn prompt_with_assets(body: Seq<char>, assets: Seq<char>) -> Seq<char> {
    if assets.len() == 0 { body } else { trim_end_spec(body) + "\n\n"@ + assets }
}

/// A skill read from its SKILL.md text and the assets section of its
/// directory. A SKILL.md skill carries no tool schemas.
pub fn skill_from_md(content: &str, assets: &str) -> (r: Result<crate::skills::Skill, crate::skills::SkillParseError>)
    ensures
        match r {
            Ok(s) => crate::skills::parse_spec(content@) matches Ok((fm, body)) && s.name@ == fm.name
                && s.description@ == fm.description && s.system_prompt@ == prompt_with_assets(body, assets@)
                && s.tools is None,
            Err(e) => crate::skills::parse_spec(content@) == Err::<(crate::skills::FrontmatterView, Seq<char>), crate::skills::SkillParseError>(e),
        },
{
    match crate::skills::parse_skill_md(content) {
        Err(e) => Err(e),
        Ok((fm, body)) => {
            let system_prompt = if assets.is_empty() {
                body
            } else {
                let bc = chars_of(body.as_str());
                let t = crate::text::trim_end_chars(bc.as_slice());
                let mut p = string_of(t.as_slice());
                push_str(&mut p, "\n\n");
                push_str(&mut p, assets);
                p
            };
            Ok(crate::skills::Skill { name: fm.name, description: fm.description, system_prompt, tools: None })
        },
    }
}

} // verus!
