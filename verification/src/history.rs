//! Session storage: one directory per session.
//!
//! `<base>/<id>/meta.json` holds the listing data, `events.jsonl` the
//! append-only log, `blobs/` offloaded output. Splitting meta from the log
//! keeps listing cheap. The file traffic lives outside the library; here are
//! the layout, the choice of session for an id prefix, search matching and
//! excerpts, listing order, and the conversion of a legacy snapshot.

use vstd::prelude::*;

use crate::api::{Message, messages_view};
use crate::cost::CostTracker;
use crate::session::{
    EventPayload, PayloadView, PromptKind, Session, SessionMeta, UNTITLED, event_for, event_for_spec,
};
use crate::text::{
    contains_spec, decimal, decimal_spec, join, join_spec, lines, lines_spec, lit, lowercase, occurs_at,
    path_join, path_join_spec, push_str, split_whitespace, str_contains, str_starts_with, string_of,
    strings_view, to_lowercase, words_spec,
};

verus! {

/// A new random id: `uuid::Uuid::new_v4` in its hyphenated form, which
/// `Display` writes as 36 chars (32 hex digits in five groups). Nothing is
/// claimed of the digits themselves.
#[verifier::external_body]
pub(crate) fn fresh_uuid() -> (r: String)
    ensures
        r@.len() == 36,
{
    uuid::Uuid::new_v4().to_string()
}

/// Where sessions are stored.
pub struct HistoryManager {
    pub base_dir: String,
}

impl HistoryManager {
    /// The directory of session `id`.
    pub fn session_dir(&self, id: &str) -> (r: String)
        ensures
            r@ == path_join_spec(self.base_dir@, id@),
    {
        path_join(self.base_dir.as_str(), id)
    }

    /// The offloaded-output directory of session `id`.
    pub fn blobs_dir(&self, id: &str) -> (r: String)
        ensures
            r@ == path_join_spec(path_join_spec(self.base_dir@, id@), "blobs"@),
    {
        let d = self.session_dir(id);
        path_join(d.as_str(), "blobs")
    }

    /// A fresh session under a new random id.
    pub fn create_session(&self, model: String) -> (r: Session)
        ensures
            r.meta.model@ == model@,
            r.meta.title@ == UNTITLED@,
            r.events@.len() == 0,
            r.meta.event_count == 0,
            r.meta.cost == CostTracker::empty_spec(),
            r.meta.forked_from is None,
    {
        Session::new(fresh_uuid(), model)
    }

    /// The directory to load for `id`: the session of that exact id when it
    /// exists, else the one stored session whose name starts with `id`.
    /// `names` are the stored sessions' directory names.
    pub fn resolve_id(&self, id: &str, exact_exists: bool, names: &[String]) -> (r: Result<String, String>)
        ensures
            match r {
                Ok(dir) => dir@ == path_join_spec(self.base_dir@, resolve_spec(id@, exact_exists, strings_view(names@))->Ok_0),
                Err(m) => resolve_spec(id@, exact_exists, strings_view(names@)) == Err::<Seq<char>, Seq<char>>(m@),
            },
    {
        match pick_session(id, exact_exists, names) {
            Ok(name) => Ok(self.session_dir(name.as_str())),
            Err(m) => Err(m),
        }
    }
}

/// The names in `names` that start with `id`, in order.
pub open spec fn prefixed(names: Seq<Seq<char>>, id: Seq<char>) -> Seq<Seq<char>> {
    names.filter(|n: Seq<char>| occurs_at(n, id, 0))
}

/// Which session `id` names: itself when it exists exactly, else the one
/// stored name it prefixes. None or several is refused: silently picking
/// one would load a conversation nobody asked for.
pub open spec fn resolve_spec(id: Seq<char>, exact_exists: bool, names: Seq<Seq<char>>) -> Result<Seq<char>, Seq<char>> {
    if exact_exists {
        Ok(id)
    } else {
        let hits = prefixed(names, id);
        if hits.len() == 1 {
            Ok(hits[0])
        } else if hits.len() == 0 {
            Err("no session matches `"@ + id + "`"@)
        } else {
            Err("`"@ + id + "` matches "@ + decimal_spec(hits.len()) + " sessions; use a longer prefix"@)
        }
    }
}

/// The session `id` names, or why none can be chosen.
pub fn pick_session(id: &str, exact_exists: bool, names: &[String]) -> (r: Result<String, String>)
    ensures
        match r {
            Ok(n) => resolve_spec(id@, exact_exists, strings_view(names@)) == Ok::<Seq<char>, Seq<char>>(n@),
            Err(m) => resolve_spec(id@, exact_exists, strings_view(names@)) == Err::<Seq<char>, Seq<char>>(m@),
        },
{
    if exact_exists {
        return Ok(lit(id));
    }
    let ghost sv = strings_view(names@);
    let mut hits: Vec<String> = Vec::new();
    let mut i: usize = 0;
    assert(sv.take(0).filter(|n: Seq<char>| occurs_at(n, id@, 0)) =~= Seq::<Seq<char>>::empty());
    while i < names.len()
        invariant
            i <= names@.len(),
            sv == strings_view(names@),
            strings_view(hits@) == prefixed(sv.take(i as int), id@),
            hits@.len() <= i,
        decreases names.len() - i,
    {
        assert(sv.take(i + 1).drop_last() =~= sv.take(i as int));
        proof {
            sv.take(i as int).lemma_filter_push(sv[i as int], |n: Seq<char>| occurs_at(n, id@, 0));
        }
        assert(sv.take(i as int).push(sv[i as int]) =~= sv.take(i + 1));
        if str_starts_with(names[i].as_str(), id) {
            let ghost before = hits@;
            hits.push(names[i].clone());
            assert(strings_view(hits@) =~= strings_view(before).push(names@[i as int]@));
        }
        i += 1;
    }
    assert(sv.take(names@.len() as int) =~= sv);
    if hits.len() == 1 {
        Ok(hits[0].clone())
    } else if hits.len() == 0 {
        let mut m = lit("no session matches `");
        push_str(&mut m, id);
        push_str(&mut m, "`");
        Err(m)
    } else {
        let mut m = lit("`");
        push_str(&mut m, id);
        push_str(&mut m, "` matches ");
        push_str(&mut m, decimal(hits.len() as u64).as_str());
        push_str(&mut m, " sessions; use a longer prefix");
        Err(m)
    }
}

/// How one char of a name is written inside double quotes: a quote, a
/// backslash, a tab, a newline, a return and a nul take a backslash escape,
/// as `{:?}` writes them; every other char stands as it is.
pub open spec fn escaped_char(c: char) -> Seq<char> {
    if c == '"' {
        seq!['\\', '"']
    } else if c == '\\' {
        seq!['\\', '\\']
    } else if c == '\t' {
        seq!['\\', 't']
    } else if c == '\n' {
        seq!['\\', 'n']
    } else if c == '\r' {
        seq!['\\', 'r']
    } else if c == '\0' {
        seq!['\\', '0']
    } else {
        seq![c]
    }
}

/// `s` with each char written as [`escaped_char`] gives it.
pub open spec fn escaped(s: Seq<char>) -> Seq<char>
    decreases s.len(),
{
    if s.len() == 0 {
        Seq::empty()
    } else {
        escaped(s.drop_last()) + escaped_char(s.last())
    }
}

/// `s` in double quotes, escaped.
pub open spec fn quoted(s: Seq<char>) -> Seq<char> {
    seq!['"'] + escaped(s) + seq!['"']
}

/// The text a bookkeeping event shows in a search hit, in the form `{:?}`
/// gives it: `SkillActivated { name: "x" }`, `Usage(UsageInfo {
/// prompt_tokens: 1, .. })` with all four counts, `Interrupted`. Message
/// events show their own text and have none here.
pub open spec fn bookkeeping_text(p: PayloadView) -> Seq<char> {
    match p {
        PayloadView::SkillActivated { name } => "SkillActivated { name: "@ + quoted(name) + " }"@,
        PayloadView::Usage(u) => "Usage(UsageInfo { prompt_tokens: "@ + decimal_spec(u.prompt_tokens as nat)
            + ", completion_tokens: "@ + decimal_spec(u.completion_tokens as nat)
            + ", prompt_cache_hit_tokens: "@ + decimal_spec(u.prompt_cache_hit_tokens as nat)
            + ", prompt_cache_miss_tokens: "@ + decimal_spec(u.prompt_cache_miss_tokens as nat) + " })"@,
        PayloadView::Interrupted => "Interrupted"@,
        _ => Seq::empty(),
    }
}

fn push_escaped(out: &mut String, c: char)
    ensures
        final(out)@ == old(out)@ + escaped_char(c),
{
    if c == '"' {
        crate::text::push_char(out, '\\');
        crate::text::push_char(out, '"');
    } else if c == '\\' {
        crate::text::push_char(out, '\\');
        crate::text::push_char(out, '\\');
    } else if c == '\t' {
        crate::text::push_char(out, '\\');
        crate::text::push_char(out, 't');
    } else if c == '\n' {
        crate::text::push_char(out, '\\');
        crate::text::push_char(out, 'n');
    } else if c == '\r' {
        crate::text::push_char(out, '\\');
        crate::text::push_char(out, 'r');
    } else if c == '\0' {
        crate::text::push_char(out, '\\');
        crate::text::push_char(out, '0');
    } else {
        crate::text::push_char(out, c);
    }
    assert(final(out)@ =~= old(out)@ + escaped_char(c));
}

/// `s` in double quotes, escaped as [`quoted`] says.
pub fn quote(s: &str) -> (r: String)
    ensures
        r@ == quoted(s@),
{
    let cs = crate::text::chars_of(s);
    let mut out = String::new();
    crate::text::push_char(&mut out, '"');
    assert(s@.take(0) =~= Seq::<char>::empty());
    assert(out@ =~= seq!['"'] + escaped(s@.take(0)));
    let mut i: usize = 0;
    while i < cs.len()
        invariant
            i <= cs@.len(),
            cs@ == s@,
            out@ == seq!['"'] + escaped(s@.take(i as int)),
        decreases cs.len() - i,
    {
        assert(s@.take(i + 1).drop_last() =~= s@.take(i as int));
        push_escaped(&mut out, cs[i]);
        i += 1;
        assert(out@ =~= seq!['"'] + escaped(s@.take(i as int)));
    }
    assert(s@.take(i as int) =~= s@);
    crate::text::push_char(&mut out, '"');
    out
}

/// The text a bookkeeping event shows; see [`bookkeeping_text`].
pub fn bookkeeping_text_of(p: &EventPayload) -> (r: String)
    ensures
        r@ == bookkeeping_text(p@),
{
    match p {
        EventPayload::SkillActivated { name } => {
            let mut r = lit("SkillActivated { name: ");
            push_str(&mut r, quote(name.as_str()).as_str());
            push_str(&mut r, " }");
            r
        },
        EventPayload::Usage(u) => {
            let mut r = lit("Usage(UsageInfo { prompt_tokens: ");
            push_str(&mut r, decimal(u.prompt_tokens).as_str());
            push_str(&mut r, ", completion_tokens: ");
            push_str(&mut r, decimal(u.completion_tokens).as_str());
            push_str(&mut r, ", prompt_cache_hit_tokens: ");
            push_str(&mut r, decimal(u.prompt_cache_hit_tokens).as_str());
            push_str(&mut r, ", prompt_cache_miss_tokens: ");
            push_str(&mut r, decimal(u.prompt_cache_miss_tokens).as_str());
            push_str(&mut r, " })");
            r
        },
        EventPayload::Interrupted => lit("Interrupted"),
        _ => String::new(),
    }
}

/// The text a search hit shows: the message of the event when the line is
/// one (its content, a compaction's summary, or [`bookkeeping_text`] of any
/// other event), the raw line when it is not.
pub open spec fn hit_text(event: Option<PayloadView>, line: Seq<char>) -> Seq<char> {
    match event {
        Some(PayloadView::UserMessage { content, .. }) => content,
        Some(PayloadView::AssistantMessage { content, .. }) => content,
        Some(PayloadView::ToolResult { content, .. }) => content,
        Some(PayloadView::SystemPrompt { content, .. }) => content,
        Some(PayloadView::Compaction { summary, .. }) => summary,
        Some(other) => bookkeeping_text(other),
        None => line,
    }
}

/// `text` on one line: newlines and returns become spaces, runs of white
/// space collapse to one space, ends trimmed, at most 100 chars.
pub open spec fn excerpt_spec(text: Seq<char>) -> Seq<char> {
    let flat = text.map_values(|c: char| if c == '\n' || c == '\r' { ' ' } else { c });
    let j = join_spec(words_spec(flat), " "@);
    if j.len() <= 100 { j } else { j.take(100) }
}

/// A one-line excerpt of a matched log line. `event` is the line read as
/// an event, `None` when it is not one.
pub fn excerpt_of(event: Option<&EventPayload>, line: &str) -> (r: String)
    ensures
        r@ == excerpt_spec(hit_text(
            match event {
                Some(e) => Some(e@),
                None => None,
            },
            line@,
        )),
{
    let text: String = match event {
        Some(EventPayload::UserMessage { content, .. }) => content.clone(),
        Some(EventPayload::AssistantMessage { content, .. }) => content.clone(),
        Some(EventPayload::ToolResult { content, .. }) => content.clone(),
        Some(EventPayload::SystemPrompt { content, .. }) => content.clone(),
        Some(EventPayload::Compaction { summary, .. }) => summary.clone(),
        Some(other) => bookkeeping_text_of(other),
        None => lit(line),
    };
    let cs = crate::text::chars_of(text.as_str());
    let mut flat: Vec<char> = Vec::new();
    let mut i: usize = 0;
    while i < cs.len()
        invariant
            i <= cs@.len(),
            cs@ == text@,
            flat@ == text@.take(i as int).map_values(|c: char| if c == '\n' || c == '\r' { ' ' } else { c }),
        decreases cs.len() - i,
    {
        let c = cs[i];
        flat.push(if c == '\n' || c == '\r' { ' ' } else { c });
        i += 1;
        assert(flat@ =~= text@.take(i as int).map_values(|c: char| if c == '\n' || c == '\r' { ' ' } else { c }));
    }
    assert(text@.take(cs@.len() as int) =~= text@);
    let flat_s = string_of(flat.as_slice());
    let words = split_whitespace(flat_s.as_str());
    let joined = join(words.as_slice(), " ");
    let jc = crate::text::chars_of(joined.as_str());
    if jc.len() <= 100 {
        joined
    } else {
        let r = string_of(&jc.as_slice()[0..100]);
        assert(jc@.subrange(0, 100) =~= jc@.take(100));
        r
    }
}

/// The first line of `text` that holds `needle`, ignoring case.
pub open spec fn first_hit(ls: Seq<Seq<char>>, needle: Seq<char>) -> Option<Seq<char>>
    decreases ls.len(),
{
    if ls.len() == 0 {
        None
    } else if contains_spec(lowercase(ls[0]), lowercase(needle)) {
        Some(ls[0])
    } else {
        first_hit(ls.drop_first(), needle)
    }
}

/// Whether `line` holds `needle` when both are lowercased.
pub open spec fn holds_ignoring_case(line: Seq<char>, needle: Seq<char>) -> bool {
    contains_spec(lowercase(line), lowercase(needle))
}

/// Search ignores case on both sides: it finds a line exactly when some
/// line holds the needle once both are lowercased, and then it is the first
/// such line. A line whose matching word is capitalised is found as surely
/// as one written in lowercase.
pub proof fn search_finds_the_first_line_in_any_case(ls: Seq<Seq<char>>, needle: Seq<char>)
    ensures
        first_hit(ls, needle) is Some <==> exists|i: int| 0 <= i < ls.len() && holds_ignoring_case(#[trigger] ls[i], needle),
        forall|i: int|
            0 <= i < ls.len() && holds_ignoring_case(#[trigger] ls[i], needle) && (forall|j: int|
                0 <= j < i ==> !holds_ignoring_case(#[trigger] ls[j], needle)) ==> first_hit(ls, needle) == Some(ls[i]),
    decreases ls.len(),
{
    if ls.len() > 0 {
        let t = ls.drop_first();
        search_finds_the_first_line_in_any_case(t, needle);
        assert forall|i: int| 1 <= i < ls.len() implies #[trigger] ls[i] == t[i - 1] by {}
        if !holds_ignoring_case(ls[0], needle) {
            if exists|i: int| 0 <= i < ls.len() && holds_ignoring_case(#[trigger] ls[i], needle) {
                let i = choose|i: int| 0 <= i < ls.len() && holds_ignoring_case(#[trigger] ls[i], needle);
                assert(holds_ignoring_case(t[i - 1], needle));
            }
            if exists|i: int| 0 <= i < t.len() && holds_ignoring_case(#[trigger] t[i], needle) {
                let i = choose|i: int| 0 <= i < t.len() && holds_ignoring_case(#[trigger] t[i], needle);
                assert(holds_ignoring_case(ls[i + 1], needle));
            }
            assert forall|i: int|
                0 <= i < ls.len() && holds_ignoring_case(#[trigger] ls[i], needle) && (forall|j: int|
                    0 <= j < i ==> !holds_ignoring_case(#[trigger] ls[j], needle)) implies first_hit(ls, needle) == Some(ls[i]) by {
                assert(i >= 1);
                assert(holds_ignoring_case(t[i - 1], needle));
                assert forall|j: int| 0 <= j < i - 1 implies !holds_ignoring_case(#[trigger] t[j], needle) by {
                    assert(t[j] == ls[j + 1]);
                }
            }
        } else {
            assert(holds_ignoring_case(ls[0], needle));
        }
    }
}

/// The first line of a log that holds `needle`, compared in lowercase.
pub fn first_matching_line(text: &str, needle: &str) -> (r: Option<String>)
    ensures
        match r {
            Some(l) => first_hit(lines_spec(text@), needle@) == Some(l@),
            None => first_hit(lines_spec(text@), needle@) is None,
        },
{
    let needle_lower = to_lowercase(needle);
    let cs = crate::text::chars_of(text);
    let ls = lines(cs.as_slice());
    let ghost lv = crate::text::chars_views(ls@);
    let mut i: usize = 0;
    assert(lv.skip(0) =~= lv);
    while i < ls.len()
        invariant
            i <= ls@.len(),
            lv == crate::text::chars_views(ls@),
            lv == lines_spec(text@),
            needle_lower@ == lowercase(needle@),
            first_hit(lv, needle@) == first_hit(lv.skip(i as int), needle@),
        decreases ls.len() - i,
    {
        assert(lv.skip(i as int)[0] == ls@[i as int]@);
        assert(lv.skip(i as int).drop_first() =~= lv.skip(i + 1));
        let line = string_of(ls[i].as_slice());
        let lower = to_lowercase(line.as_str());
        if str_contains(lower.as_str(), needle_lower.as_str()) {
            return Some(line);
        }
        i += 1;
    }
    None
}

/// Whether `s` lists sessions newest first.
pub open spec fn newest_first(s: Seq<SessionMeta>) -> bool {
    forall|i: int, j: int| 0 <= i < j < s.len() ==> #[trigger] s[i].updated_micros >= #[trigger] s[j].updated_micros
}

/// Sessions, newest first.
pub fn sort_newest_first(metas: Vec<SessionMeta>) -> (r: Vec<SessionMeta>)
    ensures
        newest_first(r@),
        r@.to_multiset() == metas@.to_multiset(),
{
    let mut metas = metas;
    let mut r: Vec<SessionMeta> = Vec::new();
    let ghost orig = metas@;
    proof {
        broadcast use vstd::multiset::group_multiset_axioms;
        vstd::seq_lib::to_multiset_len(r@);
        vstd::multiset::lemma_multiset_empty_len(r@.to_multiset());
        assert(r@.to_multiset().add(metas@.to_multiset()) =~= orig.to_multiset());
    }
    while metas.len() > 0
        invariant
            newest_first(r@),
            r@.to_multiset().add(metas@.to_multiset()) == orig.to_multiset(),
        decreases metas.len(),
    {
        let ghost before_m = metas@;
        let x = metas.remove(0);
        proof {
            vstd::seq_lib::to_multiset_remove(before_m, 0);
            vstd::multiset::lemma_multiset_empty_len(metas@.to_multiset());
        }
        let mut p: usize = 0;
        while p < r.len() && r[p].updated_micros >= x.updated_micros
            invariant
                p <= r@.len(),
                forall|k: int| 0 <= k < p ==> #[trigger] r@[k].updated_micros >= x.updated_micros,
            decreases r.len() - p,
        {
            p += 1;
        }
        let ghost before = r@;
        r.insert(p, x);
        proof {
            vstd::seq_lib::to_multiset_insert(before, p as int, x);
            assert(before_m.to_multiset() == metas@.to_multiset().insert(x)) by {
                broadcast use vstd::multiset::group_multiset_axioms;
                assert(before_m[0] == x);
                vstd::seq_lib::to_multiset_contains(before_m, x);
                assert(before_m.to_multiset().remove(x).insert(x) =~= before_m.to_multiset());
            }
            assert(r@.to_multiset().add(metas@.to_multiset()) =~= before.to_multiset().add(before_m.to_multiset())) by {
                broadcast use vstd::multiset::group_multiset_axioms;
            }
            assert forall|a: int, b: int| 0 <= a < b < r@.len() implies #[trigger] r@[a].updated_micros
                >= #[trigger] r@[b].updated_micros by {
                if a < p && b == p {
                } else if a < p && b > p {
                    assert(r@[b] == before[b - 1]);
                    if p < before.len() {
                        assert(before[p as int].updated_micros < x.updated_micros || p == before.len());
                    }
                } else if a == p {
                    assert(r@[b] == before[b - 1]);
                } else if b < p {
                } else {
                    assert(r@[a] == before[a - 1]);
                    assert(r@[b] == before[b - 1]);
                }
            }
        }
    }
    proof {
        assert(metas@ =~= Seq::<SessionMeta>::empty());
        broadcast use vstd::multiset::group_multiset_axioms;
        assert(metas@.to_multiset() =~= vstd::multiset::Multiset::empty()) by {
            vstd::seq_lib::to_multiset_len(metas@);
            vstd::multiset::lemma_multiset_empty_len(metas@.to_multiset());
        }
        assert(r@.to_multiset().add(metas@.to_multiset()) =~= r@.to_multiset());
    }
    r
}


/// The payloads a legacy snapshot's messages become, in order: each
/// message's event, where it has one.
pub open spec fn legacy_payloads(ms: Seq<crate::api::MessageView>) -> Seq<PayloadView>
    decreases ms.len(),
{
    if ms.len() == 0 {
        seq![]
    } else {
        let p = legacy_payloads(ms.drop_last());
        match event_for_spec(ms.last()) {
            Some(e) => p.push(e),
            None => p,
        }
    }
}

pub open spec fn event_payloads(ev: Seq<crate::session::SessionEvent>) -> Seq<PayloadView> {
    ev.map_values(|e: crate::session::SessionEvent| e.payload@)
}

/// A legacy snapshot as a session: its messages replayed as events, its
/// title (or the default for an untitled one), its timestamps and its cost.
pub fn migrated_session(
    id: String,
    title: String,
    model: String,
    messages: &[Message],
    timestamp_micros: i64,
    cost: CostTracker,
) -> (r: Session)
    ensures
        r.meta.id@ == id@,
        r.meta.model@ == model@,
        r.meta.title@ == (if title@.len() == 0 { UNTITLED@ } else { title@ }),
        r.meta.created_micros == timestamp_micros,
        r.meta.updated_micros == timestamp_micros,
        r.meta.cost == cost,
        r.meta.forked_from is None,
        r.meta.event_count == r.events@.len(),
        event_payloads(r.events@) == legacy_payloads(messages_view(messages@)),
        forall|i: int| 0 <= i < r.events@.len() ==> #[trigger] r.events@[i].seq == i,
        r.persisted == 0,
{
    let mut session = Session::new(id, model);
    let mut i: usize = 0;
    assert(event_payloads(session.events@) =~= legacy_payloads(messages_view(messages@.take(0))));
    while i < messages.len()
        invariant
            i <= messages@.len(),
            event_payloads(session.events@) == legacy_payloads(messages_view(messages@.take(i as int))),
            forall|k: int| 0 <= k < session.events@.len() ==> #[trigger] session.events@[k].seq == k,
            session.meta.event_count == session.events@.len(),
            session.meta.id@ == id@,
            session.meta.model@ == model@,
            session.meta.forked_from is None,
            session.persisted == 0,
        decreases messages.len() - i,
    {
        assert(messages_view(messages@.take(i + 1)).drop_last() =~= messages_view(messages@.take(i as int)));
        assert(messages_view(messages@.take(i + 1)).last() == messages@[i as int]@);
        let ghost before = session.events@;
        match event_for(&messages[i]) {
            Some(p) => {
                session.record(p);
                assert(event_payloads(session.events@) =~= event_payloads(before).push(session.events@.last().payload@));
                assert forall|k: int| 0 <= k < session.events@.len() implies #[trigger] session.events@[k].seq == k by {
                    if k < before.len() {
                        assert(session.events@[k] == session.events@.drop_last()[k]);
                    }
                }
            },
            None => {},
        }
        i += 1;
    }
    assert(messages@.take(messages@.len() as int) =~= messages@);
    session.meta.title = if title.as_str().is_empty() { lit(UNTITLED) } else { title };
    session.meta.created_micros = timestamp_micros;
    session.meta.updated_micros = timestamp_micros;
    session.meta.cost = cost;
    session
}

} // verus!
