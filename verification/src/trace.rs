//! Decision-path tracing: a run is a tree of spans (the run, its turns, and
//! the generate / execute / planning / compaction steps inside them), each
//! with its start and duration. A disabled recorder records nothing. The
//! clock is read outside and handed in as milliseconds since the recorder's
//! origin; writing the tree out happens outside too.

use vstd::prelude::*;
use crate::text::{decimal, decimal_spec, join, join_spec, lit, pad_left, pad_left_str, pad_right, pad_right_str, push_str, strings_view};

verus! {

/// One node of the trace tree.
pub struct Span {
    /// Its position in the recorder, which is also its id.
    pub id: usize,
    pub parent: Option<usize>,
    pub kind: String,
    pub name: String,
    pub start_ms: u128,
    pub dur_ms: u128,
    /// Structured notes (tool names, token counts), carried through.
    pub meta: serde_json::Value,
}

pub struct SpanView {
    pub id: usize,
    pub parent: Option<usize>,
    pub kind: Seq<char>,
    pub name: Seq<char>,
    pub start_ms: u128,
    pub dur_ms: u128,
}

impl View for Span {
    type V = SpanView;

    open spec fn view(&self) -> SpanView {
        SpanView {
            id: self.id,
            parent: self.parent,
            kind: self.kind@,
            name: self.name@,
            start_ms: self.start_ms,
            dur_ms: self.dur_ms,
        }
    }
}

pub open spec fn spans_view(v: Seq<Span>) -> Seq<SpanView> {
    v.map_values(|s: Span| s@)
}

/// Ids are dense: span `i` has id `i`.
pub open spec fn dense(v: Seq<SpanView>) -> bool {
    forall|i: int| 0 <= i < v.len() ==> (#[trigger] v[i]).id == i
}

/// A child recorder's span, grafted in at `base` under `graft`: ids shift
/// by `base`, and the child's roots hang off `graft`.
pub open spec fn grafted(s: SpanView, base: usize, graft: Option<usize>) -> SpanView {
    SpanView {
        id: (base + s.id) as usize,
        parent: match s.parent {
            Some(p) => Some((base + p) as usize),
            None => graft,
        },
        ..s
    }
}

/// A JSON `null`: what a span's notes are until it is annotated.
#[verifier::external_body]
fn json_null() -> serde_json::Value {
    serde_json::Value::Null
}

/// A span recorder for one run.
pub struct Trace {
    pub enabled: bool,
    pub run_id: String,
    /// Added to every timestamp: non-zero only for a detached child, so its
    /// spans land in place on the parent's timeline.
    pub offset_ms: u128,
    pub spans: Vec<Span>,
}

impl Trace {
    pub fn new(enabled: bool) -> (t: Trace)
        ensures
            t.enabled == enabled,
            t.offset_ms == 0,
            t.spans@.len() == 0,
    {
        Trace { enabled, run_id: String::new(), offset_ms: 0, spans: Vec::new() }
    }

    /// A detached recorder for a sub-agent, on this recorder's timeline:
    /// `clock_ms` is this recorder's clock now.
    pub fn child(&self, clock_ms: u128) -> (t: Trace)
        requires
            self.offset_ms + clock_ms <= u128::MAX,
        ensures
            t.enabled == self.enabled,
            t.offset_ms == self.offset_ms + clock_ms,
            t.spans@.len() == 0,
    {
        Trace { enabled: self.enabled, run_id: String::new(), offset_ms: self.offset_ms + clock_ms, spans: Vec::new() }
    }

    /// Open a span of `kind` / `name` under `parent`. Its id is returned, or
    /// `None` when tracing is off.
    pub fn begin(&mut self, kind: &str, name: &str, parent: Option<usize>, clock_ms: u128) -> (id: Option<usize>)
        requires
            old(self).offset_ms + clock_ms <= u128::MAX,
            dense(spans_view(old(self).spans@)),
        ensures
            dense(spans_view(final(self).spans@)),
            final(self).enabled == old(self).enabled,
            final(self).offset_ms == old(self).offset_ms,
            !old(self).enabled ==> id is None && final(self).spans@ == old(self).spans@,
            old(self).enabled ==> id == Some(old(self).spans@.len() as usize) && spans_view(final(self).spans@)
                == spans_view(old(self).spans@).push(
                SpanView {
                    id: old(self).spans@.len() as usize,
                    parent,
                    kind: kind@,
                    name: name@,
                    start_ms: (old(self).offset_ms + clock_ms) as u128,
                    dur_ms: 0,
                },
            ),
    {
        if !self.enabled {
            return None;
        }
        let id = self.spans.len();
        let ghost before = spans_view(self.spans@);
        self.spans.push(Span {
            id,
            parent,
            kind: lit(kind),
            name: lit(name),
            start_ms: self.offset_ms + clock_ms,
            dur_ms: 0,
            meta: json_null(),
        });
        assert(spans_view(self.spans@) =~= before.push(spans_view(self.spans@).last()));
        Some(id)
    }

    /// Close a span: its duration is the time since it began.
    pub fn end(&mut self, span: Option<usize>, clock_ms: u128)
        requires
            old(self).offset_ms + clock_ms <= u128::MAX,
        ensures
            final(self).enabled == old(self).enabled,
            final(self).offset_ms == old(self).offset_ms,
            final(self).spans@.len() == old(self).spans@.len(),
            match span {
                Some(i) => if i < old(self).spans@.len() {
                    let s = spans_view(old(self).spans@)[i as int];
                    let now = old(self).offset_ms + clock_ms;
                    spans_view(final(self).spans@) == spans_view(old(self).spans@).update(
                        i as int,
                        SpanView { dur_ms: (if now >= s.start_ms { now - s.start_ms } else { 0 }) as u128, ..s },
                    )
                } else {
                    final(self).spans@ == old(self).spans@
                },
                None => final(self).spans@ == old(self).spans@,
            },
    {
        match span {
            Some(i) => {
                if i < self.spans.len() {
                    let now = self.offset_ms + clock_ms;
                    let ghost before = spans_view(self.spans@);
                    let mut s = self.spans.remove(i);
                    s.dur_ms = now.saturating_sub(s.start_ms);
                    self.spans.insert(i, s);
                    assert(spans_view(self.spans@) =~= before.update(
                        i as int,
                        SpanView { dur_ms: (if now >= before[i as int].start_ms { now - before[i as int].start_ms } else { 0 }) as u128, ..before[i as int] },
                    ));
                }
            },
            None => {},
        }
    }

    /// Attach notes to a span; they replace any it had.
    pub fn annotate(&mut self, span: Option<usize>, meta: serde_json::Value)
        ensures
            final(self).enabled == old(self).enabled,
            final(self).offset_ms == old(self).offset_ms,
            final(self).run_id == old(self).run_id,
            spans_view(final(self).spans@) == spans_view(old(self).spans@),
            final(self).spans@.len() == old(self).spans@.len(),
            match span {
                Some(i) => if i < old(self).spans@.len() {
                    final(self).spans@ == old(self).spans@.update(
                        i as int,
                        Span { meta: meta, ..old(self).spans@[i as int] },
                    )
                } else {
                    final(self).spans@ == old(self).spans@
                },
                None => final(self).spans@ == old(self).spans@,
            },
    {
        match span {
            Some(i) => {
                if i < self.spans.len() {
                    let ghost before = spans_view(self.spans@);
                    let ghost raw = self.spans@;
                    let mut s = self.spans.remove(i);
                    s.meta = meta;
                    self.spans.insert(i, s);
                    assert(self.spans@ =~= raw.update(i as int, Span { meta: meta, ..raw[i as int] }));
                    assert(spans_view(self.spans@) =~= before);
                }
            },
            None => {},
        }
    }

    /// Begin a new run: a fresh id, no spans, and the root `run` span, whose
    /// id is returned (`None` when tracing is off). The clock restarts.
    pub fn start_run(&mut self) -> (root: Option<usize>)
        requires
            old(self).offset_ms <= u128::MAX,
        ensures
            final(self).enabled == old(self).enabled,
            final(self).offset_ms == old(self).offset_ms,
            !old(self).enabled ==> root is None && final(self).spans@ == old(self).spans@,
            old(self).enabled ==> root == Some(0usize) && spans_view(final(self).spans@) == seq![
                SpanView { id: 0, parent: None, kind: "run"@, name: "chat"@, start_ms: old(self).offset_ms, dur_ms: 0 },
            ],
    {
        if !self.enabled {
            return None;
        }
        self.run_id = crate::history::fresh_uuid();
        self.spans = Vec::new();
        let r = self.begin("run", "chat", None, 0);
        assert(spans_view(self.spans@) =~= seq![
            SpanView { id: 0, parent: None, kind: "run"@, name: "chat"@, start_ms: self.offset_ms, dur_ms: 0 },
        ]);
        r
    }

    /// Graft a detached recorder's spans in under `graft`. Ids stay dense:
    /// the child's ids shift past this recorder's, and its roots re-parent
    /// to `graft`. A disabled recorder takes nothing in.
    pub fn absorb(&mut self, child: Trace, graft: Option<usize>)
        requires
            dense(spans_view(old(self).spans@)),
            dense(spans_view(child.spans@)),
            old(self).spans@.len() + child.spans@.len() <= usize::MAX,
            forall|i: int| 0 <= i < child.spans@.len() ==> match (#[trigger] child.spans@[i]).parent {
                Some(p) => old(self).spans@.len() + p <= usize::MAX,
                None => true,
            },
        ensures
            final(self).enabled == old(self).enabled,
            final(self).offset_ms == old(self).offset_ms,
            dense(spans_view(final(self).spans@)),
            !old(self).enabled ==> final(self).spans@ == old(self).spans@,
            old(self).enabled ==> spans_view(final(self).spans@) == spans_view(old(self).spans@) + spans_view(
                child.spans@,
            ).map_values(|s: SpanView| grafted(s, old(self).spans@.len() as usize, graft)),
    {
        if !self.enabled {
            return;
        }
        let base = self.spans.len();
        let ghost mine = spans_view(self.spans@);
        let ghost theirs = spans_view(child.spans@);
        assert forall|i: int| 0 <= i < theirs.len() implies match (#[trigger] theirs[i]).parent {
            Some(p) => base + p <= usize::MAX,
            None => true,
        } by {
            assert(theirs[i] == child.spans@[i]@);
        }
        let mut rest = child.spans;
        let mut k: usize = 0;
        assert(theirs.skip(0) =~= theirs);
        assert(mine + theirs.take(0).map_values(|s: SpanView| grafted(s, base, graft)) =~= mine);
        while rest.len() > 0
            invariant
                k + rest@.len() == theirs.len(),
                base == mine.len(),
                base + theirs.len() <= usize::MAX,
                dense(theirs),
                forall|i: int| 0 <= i < theirs.len() ==> match (#[trigger] theirs[i]).parent {
                    Some(p) => base + p <= usize::MAX,
                    None => true,
                },
                spans_view(rest@) == theirs.skip(k as int),
                spans_view(self.spans@) == mine + theirs.take(k as int).map_values(|s: SpanView| grafted(s, base, graft)),
                self.enabled == old(self).enabled,
                self.offset_ms == old(self).offset_ms,
            decreases rest@.len(),
        {
            let ghost before = spans_view(self.spans@);
            let ghost old_rest = rest@;
            assert(spans_view(old_rest)[0] == theirs.skip(k as int)[0]);
            let mut s = rest.remove(0);
            assert(s == old_rest[0]);
            assert(s@ == theirs[k as int]);
            assert(spans_view(rest@) =~= spans_view(old_rest).skip(1));
            assert(s.id == k);
            s.id = base + s.id;
            s.parent = match s.parent {
                Some(p) => Some(base + p),
                None => graft,
            };
            assert(s@ == grafted(theirs[k as int], base, graft));
            let ghost sv = s@;
            self.spans.push(s);
            assert(spans_view(self.spans@) =~= before.push(sv));
            assert(spans_view(rest@) =~= theirs.skip(k + 1));
            assert(theirs.take(k + 1).map_values(|s: SpanView| grafted(s, base, graft)) =~= theirs.take(
                k as int,
            ).map_values(|s: SpanView| grafted(s, base, graft)).push(grafted(theirs[k as int], base, graft)));
            k += 1;
        }
        assert(theirs.take(k as int) =~= theirs);
    }

    /// The spans whose parent is `parent`, in order: one level of the tree.
    pub fn children_of(&self, parent: Option<usize>) -> (r: Vec<usize>)
        ensures
            r@ == Seq::new(self.spans@.len(), |i: int| i as usize).filter(
                |i: usize| self.spans@[i as int].parent == parent,
            ),
    {
        let mut r: Vec<usize> = Vec::new();
        let mut i: usize = 0;
        let ghost all = Seq::new(self.spans@.len(), |i: int| i as usize);
        let ghost pred = |i: usize| self.spans@[i as int].parent == parent;
        while i < self.spans.len()
            invariant
                i <= self.spans@.len(),
                all == Seq::new(self.spans@.len(), |i: int| i as usize),
                pred == (|i: usize| self.spans@[i as int].parent == parent),
                r@ == all.take(i as int).filter(pred),
            decreases self.spans.len() - i,
        {
            assert(all.take(i + 1) =~= all.take(i as int).push(i));
            proof {
                all.take(i as int).lemma_filter_push(i, pred);
            }
            if self.spans[i].parent == parent {
                r.push(i);
            }
            i += 1;
        }
        assert(all.take(i as int) =~= all);
        r
    }

    /// The run's total time: the duration of its first span.
    pub fn total_ms(&self) -> (t: u128)
        ensures
            t == (if self.spans@.len() > 0 { self.spans@[0].dur_ms } else { 0 }),
    {
        if self.spans.len() > 0 {
            self.spans[0].dur_ms
        } else {
            0
        }
    }
}


/// What a span's notes say, as far as the rendered tree shows them.
pub enum SpanNote {
    /// The tools an `execute` span ran.
    Tools(Vec<String>),
    /// How a sub-agent ended, and after how many iterations.
    Outcome { status: String, iterations: u64 },
    /// How many tool calls a turn made.
    Calls(u64),
    /// Nothing worth a column.
    Plain,
}

/// One line of a rendered trace: a span at its depth in the tree.
pub struct TraceRow {
    pub depth: usize,
    pub kind: String,
    pub name: String,
    pub start_ms: u64,
    pub dur_ms: u64,
    pub note: SpanNote,
}

/// The note column: the tool list, the outcome, or the call count.
pub open spec fn note_spec(n: SpanNote) -> Seq<char> {
    match n {
        SpanNote::Tools(ts) => "["@ + join_spec(strings_view(ts@), ", "@) + "]"@,
        SpanNote::Outcome { status, iterations } => status@ + " after "@ + decimal_spec(iterations as nat) + " iteration(s)"@,
        SpanNote::Calls(c) => decimal_spec(c as nat) + " call(s)"@,
        SpanNote::Plain => Seq::empty(),
    }
}

/// A line: two spaces per level, the kind and name in columns, the start
/// and duration, then the note.
pub open spec fn row_spec(r: TraceRow) -> Seq<char> {
    Seq::new((2 * r.depth) as nat, |i: int| ' ') + pad_right(r.kind@, 9) + " "@ + pad_right(r.name@, 26) + " "@
        + pad_left(decimal_spec(r.start_ms as nat), 6) + "+"@ + pad_right(decimal_spec(r.dur_ms as nat), 6) + " "@
        + note_spec(r.note) + "\n"@
}

pub open spec fn rows_spec(rows: Seq<TraceRow>) -> Seq<char>
    decreases rows.len(),
{
    if rows.len() == 0 {
        Seq::empty()
    } else {
        rows_spec(rows.drop_last()) + row_spec(rows.last())
    }
}

/// A written trace as text: a header with the run id, the total time and
/// the workspace, then one line per span, in tree order.
pub open spec fn render_spec(run_id: Seq<char>, total_ms: u64, workspace: Seq<char>, rows: Seq<TraceRow>) -> Seq<char> {
    "run "@ + run_id + "  "@ + decimal_spec(total_ms as nat) + "ms  "@ + workspace + "\n"@ + rows_spec(rows)
}

fn note_text(n: &SpanNote) -> (r: String)
    ensures
        r@ == note_spec(*n),
{
    match n {
        SpanNote::Tools(ts) => {
            let mut r = lit("[");
            push_str(&mut r, join(ts.as_slice(), ", ").as_str());
            push_str(&mut r, "]");
            r
        },
        SpanNote::Outcome { status, iterations } => {
            let mut r = lit(status.as_str());
            push_str(&mut r, " after ");
            push_str(&mut r, decimal(*iterations).as_str());
            push_str(&mut r, " iteration(s)");
            r
        },
        SpanNote::Calls(c) => {
            let mut r = decimal(*c);
            push_str(&mut r, " call(s)");
            r
        },
        SpanNote::Plain => String::new(),
    }
}

fn row_text(row: &TraceRow) -> (r: String)
    ensures
        r@ == row_spec(*row),
{
    let mut r = String::new();
    let mut k: usize = 0;
    while k < row.depth
        invariant
            k <= row.depth,
            r@ == Seq::new((2 * k) as nat, |i: int| ' '),
        decreases row.depth - k,
    {
        push_str(&mut r, "  ");
        proof {
            reveal_strlit("  ");
        }
        assert(r@ =~= Seq::new((2 * (k + 1)) as nat, |i: int| ' '));
        k += 1;
    }
    push_str(&mut r, pad_right_str(row.kind.as_str(), 9).as_str());
    push_str(&mut r, " ");
    push_str(&mut r, pad_right_str(row.name.as_str(), 26).as_str());
    push_str(&mut r, " ");
    push_str(&mut r, pad_left_str(decimal(row.start_ms).as_str(), 6).as_str());
    push_str(&mut r, "+");
    push_str(&mut r, pad_right_str(decimal(row.dur_ms).as_str(), 6).as_str());
    push_str(&mut r, " ");
    push_str(&mut r, note_text(&row.note).as_str());
    push_str(&mut r, "\n");
    r
}

/// Render a written trace: the header, then each row.
pub fn render_trace(run_id: &str, total_ms: u64, workspace: &str, rows: &Vec<TraceRow>) -> (r: String)
    ensures
        r@ == render_spec(run_id@, total_ms, workspace@, rows@),
{
    let mut r = lit("run ");
    push_str(&mut r, run_id);
    push_str(&mut r, "  ");
    push_str(&mut r, decimal(total_ms).as_str());
    push_str(&mut r, "ms  ");
    push_str(&mut r, workspace);
    push_str(&mut r, "\n");
    let ghost head = r@;
    let mut i: usize = 0;
    while i < rows.len()
        invariant
            i <= rows@.len(),
            r@ == head + rows_spec(rows@.take(i as int)),
        decreases rows.len() - i,
    {
        assert(rows@.take(i + 1).drop_last() =~= rows@.take(i as int));
        push_str(&mut r, row_text(&rows[i]).as_str());
        i += 1;
    }
    assert(rows@.take(i as int) =~= rows@);
    r
}

/// Why no trace could be shown: none matches the prefix, or there are none
/// at all, in which case the way to get one is named.
pub fn missing_trace_message(prefix: Option<&str>, dir: &str) -> (r: String)
    ensures
        r@ == match prefix {
            Some(p) => "no trace whose run id starts with `"@ + p@ + "` in "@ + dir@,
            None => "no traces in "@ + dir@
                + ". Tracing is opt-in and cannot be turned on after the fact \u{2014} re-run with `SEEKCLI_TRACE=1`."@,
        },
{
    match prefix {
        Some(p) => {
            let mut r = lit("no trace whose run id starts with `");
            push_str(&mut r, p);
            push_str(&mut r, "` in ");
            push_str(&mut r, dir);
            r
        },
        None => {
            let mut r = lit("no traces in ");
            push_str(&mut r, dir);
            push_str(&mut r, ". Tracing is opt-in and cannot be turned on after the fact \u{2014} re-run with `SEEKCLI_TRACE=1`.");
            r
        },
    }
}

} // verus!
