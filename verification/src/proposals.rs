//! The human gate every self-authored change passes through.
//!
//! The model can draft a change; only the user can land it. Proposals of
//! three kinds wait in `<home>/proposals/<kind>/`: skills (drafted by
//! `create_skill`), MCP servers and scheduled tasks. Accepting a bad
//! proposal costs far more than rejecting a good one, so each is checked
//! before it lands. The moves, reads and writes happen outside the library;
//! here are the layout, the decisions and what is written.

use vstd::prelude::*;

use crate::skills::{sanitize_name, sanitize_spec};
use crate::text::{
    contains_spec, join, join_spec, lit, path_join, path_join_spec, push_char, push_str, str_contains, str_eq,
    strings_view, trim_end_spec,
};

verus! {

/// What a proposal would become once accepted.
#[derive(Debug, Clone, Copy, PartialEq, Eq)]
pub enum Kind {
    Skill,
    Mcp,
    Task,
}

impl Kind {
    pub open spec fn name_spec(self) -> Seq<char> {
        match self {
            Kind::Skill => "skill"@,
            Kind::Mcp => "mcp"@,
            Kind::Task => "task"@,
        }
    }

    pub fn as_str(self) -> (r: &'static str)
        ensures
            r@ == self.name_spec(),
    {
        match self {
            Kind::Skill => "skill",
            Kind::Mcp => "mcp",
            Kind::Task => "task",
        }
    }

    /// The kind named `s`.
    pub fn parse(s: &str) -> (r: Option<Kind>)
        ensures
            match r {
                Some(k) => k.name_spec() == s@,
                None => forall|k: Kind| #[trigger] k.name_spec() != s@,
            },
    {
        if str_eq(s, "skill") {
            Some(Kind::Skill)
        } else if str_eq(s, "mcp") {
            Some(Kind::Mcp)
        } else if str_eq(s, "task") {
            Some(Kind::Task)
        } else {
            assert forall|k: Kind| #[trigger] k.name_spec() != s@ by {
                match k {
                    Kind::Skill => {},
                    Kind::Mcp => {},
                    Kind::Task => {},
                }
            }
            None
        }
    }

    /// Whether `propose` drafts this kind: a skill's structured fields are
    /// drafted by `create_skill` instead.
    pub open spec fn draftable(self) -> bool {
        self != Kind::Skill
    }
}

/// Every kind, in order.
pub open spec fn all_kinds() -> Seq<Kind> {
    seq![Kind::Skill, Kind::Mcp, Kind::Task]
}

/// The kinds `propose` drafts.
pub open spec fn draftable_kinds() -> Seq<Kind> {
    seq![Kind::Mcp, Kind::Task]
}

pub open spec fn kind_names_of(kinds: Seq<Kind>) -> Seq<char> {
    join_spec(kinds.map_values(|k: Kind| k.name_spec()), ", "@)
}

fn names(kinds: &[Kind]) -> (r: String)
    ensures
        r@ == kind_names_of(kinds@),
{
    let mut v: Vec<String> = Vec::new();
    let mut i: usize = 0;
    while i < kinds.len()
        invariant
            i <= kinds@.len(),
            strings_view(v@) == kinds@.take(i as int).map_values(|k: Kind| k.name_spec()),
        decreases kinds.len() - i,
    {
        let ghost before = v@;
        let item = lit(kinds[i].as_str());
        v.push(item);
        assert(kinds@.take(i + 1) =~= kinds@.take(i as int).push(kinds@[i as int]));
        assert(strings_view(v@) =~= strings_view(before).push(item@));
        assert(kinds@.take(i + 1).map_values(|k: Kind| k.name_spec()) =~= kinds@.take(i as int).map_values(
            |k: Kind| k.name_spec(),
        ).push(kinds@[i as int].name_spec()));
        i += 1;
    }
    assert(kinds@.take(kinds@.len() as int) =~= kinds@);
    join(v.as_slice(), ", ")
}

/// The kinds, by name, for error messages that list the choices.
pub fn kind_names() -> (r: String)
    ensures
        r@ == kind_names_of(all_kinds()),
{
    let v = vec![Kind::Skill, Kind::Mcp, Kind::Task];
    assert(v@ =~= all_kinds());
    names(v.as_slice())
}

/// `value` as a TOML basic string: quoted, backslashes and quotes escaped.
pub open spec fn toml_string_spec(value: Seq<char>) -> Seq<char> {
    seq!['"'] + crate::skills::escape_spec(value) + seq!['"']
}

pub fn toml_string(value: &str) -> (r: String)
    ensures
        r@ == toml_string_spec(value@),
{
    let cs = crate::text::chars_of(value);
    let mut out = String::new();
    push_char(&mut out, '"');
    let mut i: usize = 0;
    while i < cs.len()
        invariant
            i <= cs@.len(),
            cs@ == value@,
            out@ == seq!['"'] + crate::skills::escape_spec(value@.take(i as int)),
        decreases cs.len() - i,
    {
        assert(value@.take(i + 1).drop_last() =~= value@.take(i as int));
        let c = cs[i];
        if c == '\\' {
            push_char(&mut out, '\\');
            push_char(&mut out, '\\');
        } else if c == '"' {
            push_char(&mut out, '\\');
            push_char(&mut out, '"');
        } else {
            push_char(&mut out, c);
        }
        assert(out@ =~= seq!['"'] + crate::skills::escape_spec(value@.take(i + 1)));
        i += 1;
    }
    assert(value@.take(value@.len() as int) =~= value@);
    push_char(&mut out, '"');
    out
}

/// A proposal awaiting the user's decision.
#[derive(Debug, Clone, PartialEq)]
pub struct Pending {
    pub kind: Kind,
    pub name: String,
    pub path: String,
}

/// Where proposals wait, under the configuration home.
pub struct ProposalStore {
    pub root: String,
    pub home: String,
}

/// The file (or, for a skill, directory) of a proposal named `safe`.
pub open spec fn path_for_spec(root: Seq<char>, kind: Kind, safe: Seq<char>) -> Seq<char> {
    let dir = path_join_spec(root, kind.name_spec());
    match kind {
        Kind::Skill => path_join_spec(dir, safe),
        Kind::Mcp => path_join_spec(dir, safe + ".toml"@),
        Kind::Task => path_join_spec(dir, safe + ".md"@),
    }
}

pub const NOT_DRAFTED_TAIL: &'static str = ". Use `create_skill` for a skill.";

impl ProposalStore {
    /// The store under the configuration home `home`.
    pub fn at(home: &str) -> (r: Self)
        ensures
            r.root@ == path_join_spec(home@, "proposals"@),
            r.home@ == home@,
    {
        ProposalStore { root: path_join(home, "proposals"), home: lit(home) }
    }

    /// The directory of `kind`'s proposals.
    pub fn dir(&self, kind: Kind) -> (r: String)
        ensures
            r@ == path_join_spec(self.root@, kind.name_spec()),
    {
        path_join(self.root.as_str(), kind.as_str())
    }

    pub fn path_for(&self, kind: Kind, safe: &str) -> (r: String)
        ensures
            r@ == path_for_spec(self.root@, kind, safe@),
    {
        let d = self.dir(kind);
        match kind {
            Kind::Skill => path_join(d.as_str(), safe),
            Kind::Mcp => {
                let mut f = lit(safe);
                push_str(&mut f, ".toml");
                path_join(d.as_str(), f.as_str())
            },
            Kind::Task => {
                let mut f = lit(safe);
                push_str(&mut f, ".md");
                path_join(d.as_str(), f.as_str())
            },
        }
    }

    /// Where a draft of `kind` named `name` goes, or why it is refused: a
    /// skill is drafted by `create_skill`, and the name must survive
    /// sanitising. Returns the sanitised name and the path.
    pub fn draft_target(&self, kind: Kind, name: &str) -> (r: Result<(String, String), String>)
        ensures
            match r {
                Ok((safe, path)) => kind.draftable() && safe@ == sanitize_spec(name@) && safe@.len() > 0
                    && path@ == path_for_spec(self.root@, kind, safe@),
                Err(m) => (!kind.draftable() && m@ == "`propose` does not draft "@ + kind.name_spec()
                    + " proposals. Drafting kinds: "@ + kind_names_of(draftable_kinds()) + NOT_DRAFTED_TAIL@)
                    || (kind.draftable() && sanitize_spec(name@).len() == 0 && m@ == "`"@ + name@
                    + "` leaves no usable name after sanitising"@),
            },
    {
        if let Kind::Skill = kind {
            let mut m = lit("`propose` does not draft ");
            push_str(&mut m, kind.as_str());
            push_str(&mut m, " proposals. Drafting kinds: ");
            let d = vec![Kind::Mcp, Kind::Task];
            assert(d@ =~= draftable_kinds());
            push_str(&mut m, names(d.as_slice()).as_str());
            push_str(&mut m, NOT_DRAFTED_TAIL);
            return Err(m);
        }
        let safe = sanitize_name(name);
        if safe.as_str().is_empty() {
            let mut m = lit("`");
            push_str(&mut m, name);
            push_str(&mut m, "` leaves no usable name after sanitising");
            return Err(m);
        }
        let path = self.path_for(kind, safe.as_str());
        Ok((safe, path))
    }

    /// Where the skill of an accepted proposal goes.
    pub fn skill_target(&self, name: &str) -> (r: String)
        ensures
            r@ == path_join_spec(path_join_spec(self.home@, "skills"@), name@),
    {
        let d = path_join(self.home.as_str(), "skills");
        path_join(d.as_str(), name)
    }

    /// The directory of the task an accepted proposal defines.
    pub fn task_dir(&self, name: &str) -> (r: String)
        ensures
            r@ == path_join_spec(path_join_spec(self.home@, "tasks"@), name@),
    {
        let d = path_join(self.home.as_str(), "tasks");
        path_join(d.as_str(), name)
    }

    /// The user configuration file an MCP proposal is appended to.
    pub fn config_path(&self) -> (r: String)
        ensures
            r@ == path_join_spec(self.home@, "config.toml"@),
    {
        path_join(self.home.as_str(), "config.toml")
    }
}

/// What is said when no proposal of `kind` is named `name`: what is
/// pending instead (`listing` holds `<kind> <name>` for each).
pub open spec fn not_found_spec(kind: Kind, name: Seq<char>, listing: Seq<Seq<char>>) -> Seq<char> {
    "no "@ + kind.name_spec() + " proposal named `"@ + name + "`. Pending: "@ + if listing.len() == 0 {
        "none"@
    } else {
        join_spec(listing, "; "@)
    }
}

pub fn not_found_message(kind: Kind, name: &str, pending: &[Pending]) -> (r: String)
    ensures
        r@ == not_found_spec(kind, name@, pending@.map_values(|p: Pending| p.kind.name_spec() + " "@ + p.name@)),
{
    let mut listing: Vec<String> = Vec::new();
    let mut i: usize = 0;
    while i < pending.len()
        invariant
            i <= pending@.len(),
            strings_view(listing@) == pending@.take(i as int).map_values(|p: Pending| p.kind.name_spec() + " "@ + p.name@),
        decreases pending.len() - i,
    {
        let mut l = lit(pending[i].kind.as_str());
        push_str(&mut l, " ");
        push_str(&mut l, pending[i].name.as_str());
        let ghost before = listing@;
        let ghost lv = l@;
        listing.push(l);
        assert(pending@.take(i + 1) =~= pending@.take(i as int).push(pending@[i as int]));
        assert(strings_view(listing@) =~= strings_view(before).push(lv));
        assert(pending@.take(i + 1).map_values(|p: Pending| p.kind.name_spec() + " "@ + p.name@) =~= pending@.take(
            i as int,
        ).map_values(|p: Pending| p.kind.name_spec() + " "@ + p.name@).push(
            pending@[i as int].kind.name_spec() + " "@ + pending@[i as int].name@,
        ));
        i += 1;
    }
    assert(pending@.take(pending@.len() as int) =~= pending@);
    let mut m = lit("no ");
    push_str(&mut m, kind.as_str());
    push_str(&mut m, " proposal named `");
    push_str(&mut m, name);
    push_str(&mut m, "`. Pending: ");
    if listing.len() == 0 {
        push_str(&mut m, "none");
    } else {
        push_str(&mut m, join(listing.as_slice(), "; ").as_str());
    }
    m
}

/// The configuration with an accepted MCP proposal appended, or why not: a
/// server of that name is already mentioned. Appending, not rewriting,
/// keeps every comment of the user's file.
pub open spec fn land_mcp_spec(existing: Seq<char>, name: Seq<char>, body: Seq<char>) -> Result<Seq<char>, ()> {
    if contains_spec(existing, "name = "@ + toml_string_spec(name)) {
        Err(())
    } else {
        let base = if existing.len() > 0 && existing.last() != '\n' { existing.push('\n') } else { existing };
        Ok(base + "\n# accepted from a proposal\n[[mcp]]\nname = "@ + toml_string_spec(name) + "\n"@
            + trim_end_spec(body) + "\n"@)
    }
}

/// Append an accepted MCP proposal with body `body` to the configuration
/// text `existing`. The error names the configuration file `config`.
pub fn land_mcp(existing: &str, name: &str, body: &str, config: &str) -> (r: Result<(String, String), String>)
    ensures
        match r {
            Ok((text, note)) => land_mcp_spec(existing@, name@, body@) == Ok::<Seq<char>, ()>(text@)
                && note@ == "mcp server `"@ + name@ + "` appended to "@ + config@ + " \u{2014} restart to connect it"@,
            Err(m) => land_mcp_spec(existing@, name@, body@) is Err && m@ == config@ + " already mentions a server named `"@
                + name@ + "`"@,
        },
{
    let quoted = toml_string(name);
    let mut needle = lit("name = ");
    push_str(&mut needle, quoted.as_str());
    if str_contains(existing, needle.as_str()) {
        let mut m = lit(config);
        push_str(&mut m, " already mentions a server named `");
        push_str(&mut m, name);
        push_str(&mut m, "`");
        return Err(m);
    }
    let mut out = lit(existing);
    let ec = crate::text::chars_of(existing);
    if ec.len() > 0 && ec[ec.len() - 1] != '\n' {
        push_char(&mut out, '\n');
    }
    push_str(&mut out, "\n# accepted from a proposal\n[[mcp]]\nname = ");
    push_str(&mut out, quoted.as_str());
    push_str(&mut out, "\n");
    let bc = crate::text::chars_of(body);
    let trimmed = crate::text::trim_end_chars(bc.as_slice());
    push_str(&mut out, crate::text::string_of(trimmed.as_slice()).as_str());
    push_str(&mut out, "\n");
    let mut note = lit("mcp server `");
    push_str(&mut note, name);
    push_str(&mut note, "` appended to ");
    push_str(&mut note, config);
    push_str(&mut note, " \u{2014} restart to connect it");
    Ok((out, note))
}

/// Landing never rewrites what the configuration held: the old text is
/// kept whole at the start.
pub proof fn landing_keeps_the_existing_config(existing: Seq<char>, name: Seq<char>, body: Seq<char>)
    ensures
        land_mcp_spec(existing, name, body) matches Ok(text) ==> text.take(existing.len() as int) == existing,
{
    if let Ok(text) = land_mcp_spec(existing, name, body) {
        let base = if existing.len() > 0 && existing.last() != '\n' { existing.push('\n') } else { existing };
        assert(base.take(existing.len() as int) =~= existing);
        assert(text.take(existing.len() as int) =~= base.take(existing.len() as int));
    }
}

/// Whether a task proposal can land: its frontmatter splits and its body,
/// the prompt, is not blank.
pub fn check_task(text: &str) -> (r: Result<(), String>)
    ensures
        match r {
            Ok(_) => crate::skills::split_frontmatter_spec(text@, "TASK.md"@) matches Ok((_, body))
                && crate::text::trim_spec(body).len() > 0,
            Err(m) => (crate::skills::split_frontmatter_spec(text@, "TASK.md"@) == Err::<(Seq<char>, Seq<char>), Seq<char>>(m@))
                || (crate::skills::split_frontmatter_spec(text@, "TASK.md"@) matches Ok((_, body))
                && crate::text::trim_spec(body).len() == 0 && m@ == "the body is empty, and the body is the prompt"@),
        },
{
    match crate::skills::split_frontmatter(text, "TASK.md") {
        Err(e) => Err(e),
        Ok((_, body)) => {
            let t = crate::text::trim(body.as_str());
            if t.as_str().is_empty() {
                Err(lit("the body is empty, and the body is the prompt"))
            } else {
                Ok(())
            }
        },
    }
}

/// Whether a skill proposal can land: its frontmatter splits.
pub fn check_skill(text: &str) -> (r: Result<(), String>)
    ensures
        match r {
            Ok(_) => crate::skills::split_frontmatter_spec(text@, "SKILL.md"@) is Ok,
            Err(m) => crate::skills::split_frontmatter_spec(text@, "SKILL.md"@) == Err::<(Seq<char>, Seq<char>), Seq<char>>(m@),
        },
{
    match crate::skills::split_frontmatter(text, "SKILL.md") {
        Err(e) => Err(e),
        Ok(_) => Ok(()),
    }
}


/// Where a kind's proposals come in a listing: by the kind's name, so
/// `mcp`, then `skill`, then `task`.
pub open spec fn kind_rank(k: Kind) -> int {
    match k {
        Kind::Mcp => 0,
        Kind::Skill => 1,
        Kind::Task => 2,
    }
}

fn rank_of(k: Kind) -> (r: u8)
    ensures
        r as int == kind_rank(k),
{
    match k {
        Kind::Mcp => 0,
        Kind::Skill => 1,
        Kind::Task => 2,
    }
}

/// Whether `a` comes no later than `b` in a listing: by kind, then name.
pub open spec fn pending_le(a: Pending, b: Pending) -> bool {
    kind_rank(a.kind) < kind_rank(b.kind) || (kind_rank(a.kind) == kind_rank(b.kind) && crate::record::lex_le(a.name@, b.name@))
}

pub open spec fn listing_order(s: Seq<Pending>) -> bool {
    forall|i: int, j: int| 0 <= i < j < s.len() ==> pending_le(#[trigger] s[i], #[trigger] s[j])
}

proof fn lemma_pending_total(a: Pending, b: Pending)
    ensures
        pending_le(a, b) || pending_le(b, a),
{
    crate::record::lemma_lex_total(a.name@, b.name@);
}

proof fn lemma_pending_trans(a: Pending, b: Pending, c: Pending)
    requires
        pending_le(a, b),
        pending_le(b, c),
    ensures
        pending_le(a, c),
{
    if kind_rank(a.kind) == kind_rank(b.kind) && kind_rank(b.kind) == kind_rank(c.kind) {
        crate::record::lemma_lex_trans(a.name@, b.name@, c.name@);
    }
}

fn pending_le_exec(a: &Pending, b: &Pending) -> (r: bool)
    ensures
        r == pending_le(*a, *b),
{
    let ra = rank_of(a.kind);
    let rb = rank_of(b.kind);
    ra < rb || (ra == rb && crate::record::str_le(a.name.as_str(), b.name.as_str()))
}

/// Everything awaiting a decision, in listing order: by kind, then name.
pub fn sort_pending(items: Vec<Pending>) -> (r: Vec<Pending>)
    ensures
        listing_order(r@),
        r@.to_multiset() == items@.to_multiset(),
{
    let mut rest = items;
    let ghost orig = rest@;
    let mut r: Vec<Pending> = Vec::new();
    proof {
        broadcast use vstd::multiset::group_multiset_axioms;
        vstd::seq_lib::to_multiset_len(r@);
        vstd::multiset::lemma_multiset_empty_len(r@.to_multiset());
        assert(r@.to_multiset().add(rest@.to_multiset()) =~= orig.to_multiset());
    }
    while rest.len() > 0
        invariant
            listing_order(r@),
            r@.to_multiset().add(rest@.to_multiset()) == orig.to_multiset(),
        decreases rest.len(),
    {
        let ghost before_rest = rest@;
        let x = rest.remove(0);
        proof {
            vstd::seq_lib::to_multiset_remove(before_rest, 0);
        }
        let mut p: usize = 0;
        while p < r.len() && pending_le_exec(&r[p], &x)
            invariant
                p <= r@.len(),
                forall|k: int| 0 <= k < p ==> pending_le(#[trigger] r@[k], x),
            decreases r.len() - p,
        {
            p += 1;
        }
        let ghost before = r@;
        proof {
            assert forall|k: int| p <= k < before.len() implies pending_le(x, #[trigger] before[k]) by {
                lemma_pending_total(before[p as int], x);
                if k > p {
                    lemma_pending_trans(x, before[p as int], before[k]);
                }
            }
        }
        r.insert(p, x);
        proof {
            vstd::seq_lib::to_multiset_insert(before, p as int, x);
            assert(before_rest.to_multiset() == rest@.to_multiset().insert(x)) by {
                broadcast use vstd::multiset::group_multiset_axioms;
                assert(before_rest[0] == x);
                vstd::seq_lib::to_multiset_contains(before_rest, x);
                assert(before_rest.to_multiset().remove(x).insert(x) =~= before_rest.to_multiset());
            }
            assert(r@.to_multiset().add(rest@.to_multiset()) =~= before.to_multiset().add(before_rest.to_multiset())) by {
                broadcast use vstd::multiset::group_multiset_axioms;
            }
            assert forall|a: int, b: int| 0 <= a < b < r@.len() implies pending_le(#[trigger] r@[a], #[trigger] r@[b]) by {
                if b < p {
                } else if b == p {
                } else if a < p {
                    lemma_pending_trans(r@[a], r@[p as int], r@[b]);
                } else if a == p {
                } else {
                }
            }
        }
    }
    proof {
        broadcast use vstd::multiset::group_multiset_axioms;
        assert(rest@.to_multiset() =~= vstd::multiset::Multiset::empty()) by {
            vstd::seq_lib::to_multiset_len(rest@);
            vstd::multiset::lemma_multiset_empty_len(rest@.to_multiset());
        }
        assert(r@.to_multiset().add(rest@.to_multiset()) =~= r@.to_multiset());
    }
    r
}

/// What is said when a skill proposal lands.
pub fn skill_landed(name: &str) -> (r: String)
    ensures
        r@ == "skill `"@ + name@ + "` is now active"@,
{
    let mut r = lit("skill `");
    push_str(&mut r, name);
    push_str(&mut r, "` is now active");
    r
}

/// The refusal when an installed skill already has the proposal's name.
pub fn skill_taken(name: &str) -> (r: String)
    ensures
        r@ == "a skill named `"@ + name@ + "` already exists; reject this proposal or rename it"@,
{
    let mut r = lit("a skill named `");
    push_str(&mut r, name);
    push_str(&mut r, "` already exists; reject this proposal or rename it");
    r
}

/// What is said when a task proposal lands at `path`.
pub fn task_landed(name: &str, path: &str) -> (r: String)
    ensures
        r@ == "task `"@ + name@ + "` defined at "@ + path@,
{
    let mut r = lit("task `");
    push_str(&mut r, name);
    push_str(&mut r, "` defined at ");
    push_str(&mut r, path);
    r
}

/// The refusal when a task of the proposal's name already exists.
pub fn task_taken(name: &str) -> (r: String)
    ensures
        r@ == "a task named `"@ + name@ + "` already exists"@,
{
    let mut r = lit("a task named `");
    push_str(&mut r, name);
    push_str(&mut r, "` already exists");
    r
}

/// Why a saved draft failed its check: the file is kept, so the model can
/// correct it rather than start over.
pub fn draft_kept(path: &str, why: &str) -> (r: String)
    ensures
        r@ == "the draft was saved to "@ + path@ + " but will not be accepted as is: "@ + why@,
{
    let mut r = lit("the draft was saved to ");
    push_str(&mut r, path);
    push_str(&mut r, " but will not be accepted as is: ");
    push_str(&mut r, why);
    r
}

/// Why a proposal failed its check on the way in.
pub fn not_acceptable(name: &str, why: &str) -> (r: String)
    ensures
        r@ == "`"@ + name@ + "` cannot be accepted as is: "@ + why@,
{
    let mut r = lit("`");
    push_str(&mut r, name);
    push_str(&mut r, "` cannot be accepted as is: ");
    push_str(&mut r, why);
    r
}

/// The notice after older skill proposals were moved into the shared home;
/// none when nothing moved.
pub fn adopted_notice(moved: usize, dir: &str) -> (r: Option<String>)
    ensures
        moved == 0 ==> r is None,
        moved > 0 ==> (r matches Some(t) && t@ == "[Proposals] moved "@ + crate::text::decimal_spec(moved as nat)
            + " pending skill proposal(s) to "@ + dir@),
{
    if moved == 0 {
        return None;
    }
    let mut r = lit("[Proposals] moved ");
    push_str(&mut r, crate::text::decimal(moved as u64).as_str());
    push_str(&mut r, " pending skill proposal(s) to ");
    push_str(&mut r, dir);
    Some(r)
}

} // verus!
