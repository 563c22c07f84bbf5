//! Tab completion for REPL slash commands: what the text before the cursor
//! asks to be completed, and the candidates that fit it. The skill library
//! and the proposals are listed from disk at each Tab press, outside.

use vstd::prelude::*;
use crate::record::{sort_strings, sorted_strs};
use crate::text::{
    char_len_utf8, char_width, chars_of, lit, slice_chars, str_eq, string_of, strings_view, utf8_len,
};

verus! {

/// Top-level slash commands eligible for completion.
pub open spec fn slash_commands_spec() -> Seq<Seq<char>> {
    seq![
        "/help"@, "/quit"@, "/exit"@, "/clear"@, "/history"@, "/copy"@, "/model"@, "/thinking"@, "/plan"@,
        "/skill"@, "/propose"@, "/paste"@, "/load"@,
    ]
}

/// `/skill` subcommands that are not skill names.
pub open spec fn skill_subcommands_spec() -> Seq<Seq<char>> {
    seq!["list"@, "proposals"@, "migrate"@, "accept"@, "reject"@]
}

pub open spec fn propose_subcommands_spec() -> Seq<Seq<char>> {
    seq!["list"@, "accept"@, "reject"@]
}

pub open spec fn proposal_kinds_spec() -> Seq<Seq<char>> {
    seq!["skill"@, "mcp"@, "task"@]
}

pub open spec fn model_variants_spec() -> Seq<Seq<char>> {
    seq!["flash"@, "pro"@]
}

pub open spec fn thinking_modes_spec() -> Seq<Seq<char>> {
    seq!["n"@, "h"@, "m"@]
}

fn owned(v: Vec<&'static str>) -> (r: Vec<String>)
    ensures
        strings_view(r@) == v@.map_values(|s: &'static str| s@),
{
    let mut r: Vec<String> = Vec::new();
    let mut i: usize = 0;
    while i < v.len()
        invariant
            i <= v@.len(),
            r@.len() == i,
            strings_view(r@) == v@.map_values(|s: &'static str| s@).take(i as int),
        decreases v.len() - i,
    {
        r.push(lit(v[i]));
        assert(strings_view(r@) =~= v@.map_values(|s: &'static str| s@).take(i + 1));
        i += 1;
    }
    assert(v@.map_values(|s: &'static str| s@).take(i as int) =~= v@.map_values(|s: &'static str| s@));
    r
}

pub fn slash_commands() -> (r: Vec<String>)
    ensures
        strings_view(r@) == slash_commands_spec(),
{
    let v = vec![
        "/help", "/quit", "/exit", "/clear", "/history", "/copy", "/model", "/thinking", "/plan", "/skill",
        "/propose", "/paste", "/load",
    ];
    let r = owned(v);
    assert(strings_view(r@) =~= slash_commands_spec());
    r
}

pub fn skill_subcommands() -> (r: Vec<String>)
    ensures
        strings_view(r@) == skill_subcommands_spec(),
{
    let r = owned(vec!["list", "proposals", "migrate", "accept", "reject"]);
    assert(strings_view(r@) =~= skill_subcommands_spec());
    r
}

fn propose_subcommands() -> (r: Vec<String>)
    ensures
        strings_view(r@) == propose_subcommands_spec(),
{
    let r = owned(vec!["list", "accept", "reject"]);
    assert(strings_view(r@) =~= propose_subcommands_spec());
    r
}

fn proposal_kinds() -> (r: Vec<String>)
    ensures
        strings_view(r@) == proposal_kinds_spec(),
{
    let r = owned(vec!["skill", "mcp", "task"]);
    assert(strings_view(r@) =~= proposal_kinds_spec());
    r
}

fn model_variants() -> (r: Vec<String>)
    ensures
        strings_view(r@) == model_variants_spec(),
{
    let r = owned(vec!["flash", "pro"]);
    assert(strings_view(r@) =~= model_variants_spec());
    r
}

fn thinking_modes() -> (r: Vec<String>)
    ensures
        strings_view(r@) == thinking_modes_spec(),
{
    let r = owned(vec!["n", "h", "m"]);
    assert(strings_view(r@) =~= thinking_modes_spec());
    r
}

/// `s` with the prefix `p` removed, if it starts with it.
pub open spec fn strip(s: Seq<char>, p: Seq<char>) -> Option<Seq<char>> {
    if s.len() >= p.len() && s.take(p.len() as int) == p {
        Some(s.skip(p.len() as int))
    } else {
        None
    }
}

pub open spec fn begins(s: Seq<char>, p: Seq<char>) -> bool {
    s.len() >= p.len() && s.take(p.len() as int) == p
}

/// The items that begin with `p`, in order.
pub open spec fn starting(items: Seq<Seq<char>>, p: Seq<char>) -> Seq<Seq<char>>
    decreases items.len(),
{
    if items.len() == 0 {
        items
    } else {
        starting(items.drop_last(), p) + if begins(items.last(), p) {
            seq![items.last()]
        } else {
            Seq::<Seq<char>>::empty()
        }
    }
}

/// The first space of `s`, if any.
pub open spec fn first_space(s: Seq<char>) -> Option<nat>
    decreases s.len(),
{
    if s.len() == 0 {
        None
    } else {
        match first_space(s.drop_last()) {
            Some(i) => Some(i),
            None => if s.last() == ' ' { Some((s.len() - 1) as nat) } else { None },
        }
    }
}

/// What to complete, and from where in the line (a byte offset).
pub enum Completion {
    /// Replace from `start` with one of `items`.
    Ready { start: usize, items: Vec<String> },
    /// The pending proposals of `kind` whose names begin with `prefix`.
    Pending { start: usize, kind: String, prefix: String },
    /// The skill proposals whose names begin with `prefix`.
    Proposals { start: usize, prefix: String },
    /// The `/skill` subcommands and installed skill names that begin with
    /// `prefix`.
    SkillTokens { start: usize, prefix: String },
}

pub enum CompletionView {
    Ready { start: nat, items: Seq<Seq<char>> },
    Pending { start: nat, kind: Seq<char>, prefix: Seq<char> },
    Proposals { start: nat, prefix: Seq<char> },
    SkillTokens { start: nat, prefix: Seq<char> },
}

impl View for Completion {
    type V = CompletionView;

    open spec fn view(&self) -> CompletionView {
        match self {
            Completion::Ready { start, items } => CompletionView::Ready { start: *start as nat, items: strings_view(items@) },
            Completion::Pending { start, kind, prefix } => CompletionView::Pending {
                start: *start as nat,
                kind: kind@,
                prefix: prefix@,
            },
            Completion::Proposals { start, prefix } => CompletionView::Proposals { start: *start as nat, prefix: prefix@ },
            Completion::SkillTokens { start, prefix } => CompletionView::SkillTokens { start: *start as nat, prefix: prefix@ },
        }
    }
}

/// What the text before the cursor asks to complete; `pos` is the cursor's
/// byte offset.
pub open spec fn completion_spec(prefix: Seq<char>, pos: nat) -> CompletionView {
    if let Some(rest) = strip(prefix, "/propose "@) {
        let after = (pos - utf8_len(rest)) as nat;
        let verb_tail = if strip(rest, "accept "@) is Some { strip(rest, "accept "@) } else { strip(rest, "reject "@) };
        match verb_tail {
            Some(tail) => {
                let start = after + 7;
                match first_space(tail) {
                    None => CompletionView::Ready { start, items: starting(proposal_kinds_spec(), tail) },
                    Some(i) => CompletionView::Pending {
                        start: start + utf8_len(tail.take(i as int)) + 1,
                        kind: tail.take(i as int),
                        prefix: tail.skip(i as int + 1),
                    },
                }
            },
            None => CompletionView::Ready { start: after, items: starting(propose_subcommands_spec(), rest) },
        }
    } else if let Some(rest) = strip(prefix, "/skill "@) {
        let after = (pos - utf8_len(rest)) as nat;
        if let Some(name) = strip(rest, "accept "@) {
            CompletionView::Proposals { start: after + 7, prefix: name }
        } else if let Some(name) = strip(rest, "reject "@) {
            CompletionView::Proposals { start: after + 7, prefix: name }
        } else {
            CompletionView::SkillTokens { start: after, prefix: rest }
        }
    } else if let Some(rest) = strip(prefix, "/model "@) {
        CompletionView::Ready { start: (pos - utf8_len(rest)) as nat, items: starting(model_variants_spec(), rest) }
    } else if let Some(rest) = strip(prefix, "/thinking "@) {
        CompletionView::Ready { start: (pos - utf8_len(rest)) as nat, items: starting(thinking_modes_spec(), rest) }
    } else if prefix.len() > 0 && prefix[0] == '/' && !prefix.contains(' ') {
        CompletionView::Ready { start: 0, items: starting(slash_commands_spec(), prefix) }
    } else {
        CompletionView::Ready { start: pos, items: Seq::empty() }
    }
}

proof fn lemma_utf8_concat(a: Seq<char>, b: Seq<char>)
    ensures
        utf8_len(a + b) == utf8_len(a) + utf8_len(b),
    decreases b.len(),
{
    if b.len() > 0 {
        lemma_utf8_concat(a, b.drop_last());
        assert((a + b).drop_last() =~= a + b.drop_last());
    } else {
        assert(a + b =~= a);
    }
}

proof fn lemma_utf8_split(s: Seq<char>, k: int)
    requires
        0 <= k <= s.len(),
    ensures
        utf8_len(s) == utf8_len(s.take(k)) + utf8_len(s.skip(k)),
{
    lemma_utf8_concat(s.take(k), s.skip(k));
    assert(s.take(k) + s.skip(k) =~= s);
}

/// The UTF-8 byte length of `s`.
pub fn byte_len(s: &[char]) -> (n: usize)
    requires
        utf8_len(s@) <= usize::MAX,
    ensures
        n == utf8_len(s@),
{
    let mut n: usize = 0;
    let mut i: usize = 0;
    while i < s.len()
        invariant
            i <= s@.len(),
            n == utf8_len(s@.take(i as int)),
            utf8_len(s@) <= usize::MAX,
        decreases s.len() - i,
    {
        proof {
            assert(s@.take(i + 1).drop_last() =~= s@.take(i as int));
            lemma_utf8_split(s@, i + 1);
        }
        n = n + char_len_utf8(s[i]);
        i += 1;
    }
    assert(s@.take(i as int) =~= s@);
    n
}

fn strip_exec(s: &Vec<char>, p: &str) -> (r: Option<Vec<char>>)
    ensures
        match r {
            Some(t) => strip(s@, p@) == Some(t@),
            None => strip(s@, p@) is None,
        },
{
    let pc = chars_of(p);
    if crate::text::starts_with(s.as_slice(), pc.as_slice()) {
        assert(s@.take(p@.len() as int) =~= p@);
        Some(slice_chars(s.as_slice(), pc.len(), s.len()))
    } else {
        proof {
            if s@.len() >= p@.len() && s@.take(p@.len() as int) == p@ {
                assert(s@.subrange(0, p@.len() as int) =~= pc@);
            }
        }
        None
    }
}

/// The items that begin with `p`, in order.
pub fn filter_starting(items: &Vec<String>, p: &str) -> (r: Vec<String>)
    ensures
        strings_view(r@) == starting(strings_view(items@), p@),
{
    let pc = chars_of(p);
    let mut r: Vec<String> = Vec::new();
    let mut i: usize = 0;
    while i < items.len()
        invariant
            i <= items@.len(),
            pc@ == p@,
            strings_view(r@) == starting(strings_view(items@).take(i as int), p@),
        decreases items.len() - i,
    {
        let ghost t = strings_view(items@).take(i + 1);
        assert(t.drop_last() =~= strings_view(items@).take(i as int));
        let cs = chars_of(items[i].as_str());
        let ok = crate::text::starts_with(cs.as_slice(), pc.as_slice());
        proof {
            if begins(cs@, p@) {
                assert(cs@.subrange(0, p@.len() as int) =~= pc@);
            }
            if ok {
                assert(cs@.take(p@.len() as int) =~= p@);
            }
        }
        if ok {
            r.push(items[i].clone());
        }
        assert(strings_view(r@) =~= starting(t, p@));
        i += 1;
    }
    assert(strings_view(items@).take(i as int) =~= strings_view(items@));
    r
}

fn first_space_exec(s: &Vec<char>) -> (r: Option<usize>)
    ensures
        match r {
            Some(i) => first_space(s@) == Some(i as nat) && i < s@.len() && s@[i as int] == ' ',
            None => first_space(s@) is None,
        },
{
    let mut i: usize = 0;
    while i < s.len()
        invariant
            i <= s@.len(),
            first_space(s@.take(i as int)) is None,
        decreases s.len() - i,
    {
        assert(s@.take(i + 1).drop_last() =~= s@.take(i as int));
        if s[i] == ' ' {
            proof {
                lemma_first_space_prefix(s@, i + 1);
            }
            return Some(i);
        }
        i += 1;
    }
    assert(s@.take(i as int) =~= s@);
    None
}

proof fn lemma_first_space_prefix(s: Seq<char>, k: int)
    requires
        0 < k <= s.len(),
        first_space(s.take(k)) is Some,
    ensures
        first_space(s) == first_space(s.take(k)),
    decreases s.len() - k,
{
    if k < s.len() {
        assert(s.drop_last().take(k) =~= s.take(k));
        lemma_first_space_prefix(s.drop_last(), k);
    } else {
        assert(s.take(k) =~= s);
    }
}

proof fn lemma_strip_len(s: Seq<char>, p: Seq<char>)
    requires
        strip(s, p) is Some,
    ensures
        utf8_len(strip(s, p)->0) <= utf8_len(s),
        utf8_len(s) == utf8_len(p) + utf8_len(strip(s, p)->0),
{
    lemma_utf8_split(s, p.len() as int);
}

proof fn lemma_verb_tail(verb: Seq<char>, n: Seq<char>)
    requires
        verb.len() == 7,
        forall|i: int| 0 <= i < 7 ==> char_width(#[trigger] verb[i]) == 1,
    ensures
        strip(verb + n, verb) == Some(n),
        utf8_len(verb + n) == 7 + utf8_len(n),
{
    assert((verb + n).take(7) =~= verb);
    assert((verb + n).skip(7) =~= n);
    lemma_utf8_concat(verb, n);
    assert(utf8_len(verb) == 7) by {
        reveal_with_fuel(utf8_len, 8);
        assert(verb.take(0) =~= Seq::<char>::empty());
        assert(verb.drop_last().drop_last().drop_last().drop_last().drop_last().drop_last().drop_last()
            =~= Seq::<char>::empty());
    }
}

proof fn lemma_skill_verb(verb: Seq<char>, n: Seq<char>, pos: nat)
    requires
        verb == "reject "@ || verb == "accept "@,
        utf8_len("/skill "@ + verb + n) <= pos,
    ensures
        completion_spec("/skill "@ + verb + n, pos) == (CompletionView::Proposals {
            start: (pos - utf8_len(n)) as nat,
            prefix: n,
        }),
{
    reveal_strlit("/skill ");
    reveal_strlit("/propose ");
    reveal_strlit("reject ");
    reveal_strlit("accept ");
    let rest = verb + n;
    let line = "/skill "@ + verb + n;
    lemma_verb_tail(verb, n);
    assert(line =~= "/skill "@ + rest);
    assert(line.take(7) =~= "/skill "@);
    assert(line.skip(7) =~= rest);
    assert(strip(line, "/skill "@) == Some(rest));
    assert(strip(line, "/propose "@) is None) by {
        if line.len() >= 9 {
            assert(line.take(9)[1] != "/propose "@[1]);
        }
    }
    lemma_utf8_concat("/skill "@, rest);
    assert(utf8_len(rest) <= pos);
    assert(strip(rest, verb) == Some(n));
    if verb == "reject "@ {
        assert(strip(rest, "accept "@) is None) by {
            assert(rest.take(7)[0] != "accept "@[0]);
        }
    }
    let after = (pos - utf8_len(rest)) as nat;
    assert(after + 7 == pos - utf8_len(n));
}

/// After `/skill accept ` and `/skill reject ` alike, what follows the verb
/// is completed against the pending skill proposals: the candidates replace
/// exactly the typed name `n`, whatever it is.
pub proof fn accept_and_reject_complete_proposal_names(n: Seq<char>, pos: nat)
    requires
        utf8_len("/skill reject "@ + n) <= pos,
    ensures
        completion_spec("/skill reject "@ + n, pos) == (CompletionView::Proposals {
            start: (pos - utf8_len(n)) as nat,
            prefix: n,
        }),
        completion_spec("/skill accept "@ + n, pos) == (CompletionView::Proposals {
            start: (pos - utf8_len(n)) as nat,
            prefix: n,
        }),
{
    reveal_strlit("/skill reject ");
    reveal_strlit("/skill accept ");
    reveal_strlit("/skill ");
    reveal_strlit("reject ");
    reveal_strlit("accept ");
    assert("/skill reject "@ + n =~= "/skill "@ + "reject "@ + n);
    assert("/skill accept "@ + n =~= "/skill "@ + "accept "@ + n);
    assert(utf8_len("/skill accept "@ + n) == utf8_len("/skill reject "@ + n)) by {
        lemma_utf8_concat("/skill "@, "reject "@ + n);
        lemma_utf8_concat("/skill "@, "accept "@ + n);
        lemma_verb_tail("reject "@, n);
        lemma_verb_tail("accept "@, n);
        assert("/skill "@ + "reject "@ + n =~= "/skill "@ + ("reject "@ + n));
        assert("/skill "@ + "accept "@ + n =~= "/skill "@ + ("accept "@ + n));
    }
    lemma_skill_verb("reject "@, n, pos);
    lemma_skill_verb("accept "@, n, pos);
}

/// Decide what to complete. `prefix` is the line up to the cursor, whose
/// byte offset is `pos`.
#[verifier::rlimit(40)]
pub fn plan_completion(prefix: &str, pos: usize) -> (c: Completion)
    requires
        utf8_len(prefix@) <= pos,
    ensures
        c@ == completion_spec(prefix@, pos as nat),
{
    let cs = chars_of(prefix);
    proof {
        reveal_strlit("/propose ");
        reveal_strlit("accept ");
        reveal_strlit("reject ");
        reveal_strlit("/skill ");
    }
    if let Some(rest) = strip_exec(&cs, "/propose ") {
        proof {
            lemma_strip_len(prefix@, "/propose "@);
        }
        let after = pos - byte_len(rest.as_slice());
        let tail = match strip_exec(&rest, "accept ") {
            Some(t) => Some(t),
            None => strip_exec(&rest, "reject "),
        };
        match tail {
            Some(tail) => {
                proof {
                    if strip(rest@, "accept "@) is Some {
                        lemma_strip_len(rest@, "accept "@);
                    } else {
                        lemma_strip_len(rest@, "reject "@);
                    }
                    assert(utf8_len("accept "@) == 7) by {
                        reveal_with_fuel(utf8_len, 8);
                    }
                    assert(utf8_len("reject "@) == 7) by {
                        reveal_with_fuel(utf8_len, 8);
                    }
                }
                let start = after + 7;
                match first_space_exec(&tail) {
                    None => {
                        let t = string_of(tail.as_slice());
                        Completion::Ready { start, items: filter_starting(&proposal_kinds(), t.as_str()) }
                    },
                    Some(i) => {
                        let kind = slice_chars(tail.as_slice(), 0, i);
                        let name = slice_chars(tail.as_slice(), i + 1, tail.len());
                        proof {
                            lemma_utf8_split(tail@, i as int);
                            assert(kind@ =~= tail@.take(i as int));
                            assert(name@ =~= tail@.skip(i + 1));
                            lemma_utf8_split(tail@.skip(i as int), 1);
                            assert(tail@.skip(i as int).take(1) =~= seq![' ']);
                            assert(utf8_len(seq![' ']) == 1) by {
                                reveal_with_fuel(utf8_len, 2);
                                assert(seq![' '].drop_last() =~= Seq::<char>::empty());
                            }
                        }
                        let kb = byte_len(kind.as_slice());
                        Completion::Pending {
                            start: start + kb + 1,
                            kind: string_of(kind.as_slice()),
                            prefix: string_of(name.as_slice()),
                        }
                    },
                }
            },
            None => {
                let r = string_of(rest.as_slice());
                Completion::Ready { start: after, items: filter_starting(&propose_subcommands(), r.as_str()) }
            },
        }
    } else if let Some(rest) = strip_exec(&cs, "/skill ") {
        proof {
            lemma_strip_len(prefix@, "/skill "@);
            assert(utf8_len("accept "@) == 7) by {
                reveal_with_fuel(utf8_len, 8);
            }
            assert(utf8_len("reject "@) == 7) by {
                reveal_with_fuel(utf8_len, 8);
            }
        }
        let after = pos - byte_len(rest.as_slice());
        if let Some(name) = strip_exec(&rest, "accept ") {
            proof {
                lemma_strip_len(rest@, "accept "@);
            }
            Completion::Proposals { start: after + 7, prefix: string_of(name.as_slice()) }
        } else if let Some(name) = strip_exec(&rest, "reject ") {
            proof {
                lemma_strip_len(rest@, "reject "@);
            }
            Completion::Proposals { start: after + 7, prefix: string_of(name.as_slice()) }
        } else {
            Completion::SkillTokens { start: after, prefix: string_of(rest.as_slice()) }
        }
    } else if let Some(rest) = strip_exec(&cs, "/model ") {
        proof {
            lemma_strip_len(prefix@, "/model "@);
        }
        let start = pos - byte_len(rest.as_slice());
        let r = string_of(rest.as_slice());
        Completion::Ready { start, items: filter_starting(&model_variants(), r.as_str()) }
    } else if let Some(rest) = strip_exec(&cs, "/thinking ") {
        proof {
            lemma_strip_len(prefix@, "/thinking "@);
        }
        let start = pos - byte_len(rest.as_slice());
        let r = string_of(rest.as_slice());
        Completion::Ready { start, items: filter_starting(&thinking_modes(), r.as_str()) }
    } else if cs.len() > 0 && cs[0] == '/' && !has_space(&cs) {
        Completion::Ready { start: 0, items: filter_starting(&slash_commands(), prefix) }
    } else {
        let items: Vec<String> = Vec::new();
        assert(strings_view(items@) =~= Seq::<Seq<char>>::empty());
        Completion::Ready { start: pos, items }
    }
}

fn has_space(s: &Vec<char>) -> (b: bool)
    ensures
        b == s@.contains(' '),
{
    let mut i: usize = 0;
    while i < s.len()
        invariant
            i <= s@.len(),
            forall|j: int| 0 <= j < i ==> s@[j] != ' ',
        decreases s.len() - i,
    {
        if s[i] == ' ' {
            assert(s@[i as int] == ' ');
            return true;
        }
        i += 1;
    }
    false
}

/// `s` with each run of equal adjacent items reduced to one, as
/// `Vec::dedup` does.
pub open spec fn dedup_spec(s: Seq<Seq<char>>) -> Seq<Seq<char>>
    decreases s.len(),
{
    if s.len() <= 1 {
        s
    } else if s.last() == s[s.len() - 2] {
        dedup_spec(s.drop_last())
    } else {
        dedup_spec(s.drop_last()).push(s.last())
    }
}

pub fn dedup_strings(v: &Vec<String>) -> (r: Vec<String>)
    ensures
        strings_view(r@) == dedup_spec(strings_view(v@)),
{
    let mut r: Vec<String> = Vec::new();
    let mut i: usize = 0;
    while i < v.len()
        invariant
            i <= v@.len(),
            strings_view(r@) == dedup_spec(strings_view(v@).take(i as int)),
        decreases v.len() - i,
    {
        let ghost t = strings_view(v@).take(i + 1);
        assert(t.drop_last() =~= strings_view(v@).take(i as int));
        if i == 0 || !str_eq(v[i].as_str(), v[i - 1].as_str()) {
            r.push(v[i].clone());
        }
        assert(strings_view(r@) =~= dedup_spec(t));
        i += 1;
    }
    assert(strings_view(v@).take(i as int) =~= strings_view(v@));
    r
}

/// A sorted list without repeats: the names a directory listing offers.
pub fn sorted_unique(v: Vec<String>) -> (r: Vec<String>)
    ensures
        exists|s: Seq<Seq<char>>| sorted_strs(s) && s.to_multiset() == strings_view(v@).to_multiset()
            && strings_view(r@) == dedup_spec(s),
{
    let sorted = sort_strings(v);
    let r = dedup_strings(&sorted);
    assert(sorted_strs(strings_view(sorted@)));
    r
}

/// The `/skill` tokens to offer: the subcommands and the installed skill
/// names, sorted, without repeats, those that begin with `prefix`.
pub fn skill_tokens(installed: Vec<String>, prefix: &str) -> (r: Vec<String>)
    ensures
        exists|s: Seq<Seq<char>>| sorted_strs(s) && s.to_multiset() == (skill_subcommands_spec()
            + strings_view(installed@)).to_multiset() && strings_view(r@) == starting(dedup_spec(s), prefix@),
{
    let mut all = skill_subcommands();
    let ghost subs = strings_view(all@);
    let mut i: usize = 0;
    while i < installed.len()
        invariant
            i <= installed@.len(),
            all@.len() == subs.len() + i,
            strings_view(all@) == subs + strings_view(installed@).take(i as int),
        decreases installed.len() - i,
    {
        let ghost before = all@;
        let name = installed[i].clone();
        all.push(name);
        assert(all@ == before.push(name));
        assert(strings_view(all@) =~= strings_view(before).push(installed@[i as int]@));
        assert(strings_view(installed@).take(i + 1) =~= strings_view(installed@).take(i as int).push(installed@[i as int]@));
        assert(strings_view(all@) =~= subs + strings_view(installed@).take(i + 1));
        i += 1;
    }
    assert(strings_view(installed@).take(i as int) =~= strings_view(installed@));
    let unique = sorted_unique(all);
    filter_starting(&unique, prefix)
}

} // verus!
