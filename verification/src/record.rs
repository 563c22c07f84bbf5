//! Record and replay model traffic, so the agent loop itself is testable.
//!
//! A recording keeps, per request, the response stream and the request's
//! shape. A replay serves the streams back with no network, and first
//! verifies the request shape (message count, last role, tool set): a
//! recording replayed against a request it was not made for would drift out
//! of alignment and prove nothing, so a mismatch is a hard failure. The
//! digest of the serialized messages is kept for diagnosis only.

use vstd::prelude::*;

use crate::api::{Message, MessageView, messages_view, role_of_view};
use crate::text::{decimal, decimal_spec, lit, path_join, path_join_spec, push_char, push_str, strings_view};

verus! {

pub const RECORD_ENV: &'static str = "SEEKCLI_RECORD";
pub const REPLAY_ENV: &'static str = "SEEKCLI_REPLAY";

/// The parts of a request a replay must agree on, and a digest for people.
#[derive(Debug, Clone, PartialEq)]
pub struct RequestShape {
    pub model: String,
    pub message_count: usize,
    pub last_role: String,
    pub thinking_mode: String,
    pub tool_names: Vec<String>,
    pub digest: String,
}

// ------------------------------------------------------------------ order

/// `a <= b` in the order `String`'s `Ord` uses: lexicographic by code point
/// (the same as by UTF-8 bytes).
pub open spec fn lex_le(a: Seq<char>, b: Seq<char>) -> bool
    decreases a.len(),
{
    if a.len() == 0 {
        true
    } else if b.len() == 0 {
        false
    } else if (a[0] as u32) != (b[0] as u32) {
        (a[0] as u32) < (b[0] as u32)
    } else {
        lex_le(a.drop_first(), b.drop_first())
    }
}

pub proof fn lemma_lex_total(a: Seq<char>, b: Seq<char>)
    ensures
        lex_le(a, b) || lex_le(b, a),
    decreases a.len(),
{
    if a.len() > 0 && b.len() > 0 && (a[0] as u32) == (b[0] as u32) {
        lemma_lex_total(a.drop_first(), b.drop_first());
    }
}

pub proof fn lemma_lex_trans(a: Seq<char>, b: Seq<char>, c: Seq<char>)
    requires
        lex_le(a, b),
        lex_le(b, c),
    ensures
        lex_le(a, c),
    decreases a.len(),
{
    if a.len() > 0 && b.len() > 0 && c.len() > 0 && (a[0] as u32) == (b[0] as u32) && (b[0] as u32) == (c[0] as u32) {
        lemma_lex_trans(a.drop_first(), b.drop_first(), c.drop_first());
    }
}

fn chars_le(a: &[char], b: &[char]) -> (r: bool)
    ensures
        r == lex_le(a@, b@),
{
    let mut i: usize = 0;
    assert(a@.skip(0) =~= a@);
    assert(b@.skip(0) =~= b@);
    while i < a.len() && i < b.len()
        invariant
            i <= a@.len(),
            i <= b@.len(),
            lex_le(a@, b@) == lex_le(a@.skip(i as int), b@.skip(i as int)),
        decreases a.len() - i,
    {
        assert(a@.skip(i as int)[0] == a@[i as int]);
        assert(b@.skip(i as int)[0] == b@[i as int]);
        if (a[i] as u32) != (b[i] as u32) {
            return (a[i] as u32) < (b[i] as u32);
        }
        assert(a@.skip(i as int).drop_first() =~= a@.skip(i + 1));
        assert(b@.skip(i as int).drop_first() =~= b@.skip(i + 1));
        i += 1;
    }
    i == a.len()
}

pub fn str_le(a: &str, b: &str) -> (r: bool)
    ensures
        r == lex_le(a@, b@),
{
    let x = crate::text::chars_of(a);
    let y = crate::text::chars_of(b);
    chars_le(x.as_slice(), y.as_slice())
}

/// `s` is in ascending order.
pub open spec fn sorted_strs(s: Seq<Seq<char>>) -> bool {
    forall|i: int, j: int| 0 <= i < j < s.len() ==> lex_le(#[trigger] s[i], #[trigger] s[j])
}

/// `v` in ascending order: a sorted permutation of it.
pub fn sort_strings(v: Vec<String>) -> (r: Vec<String>)
    ensures
        sorted_strs(strings_view(r@)),
        strings_view(r@).to_multiset() == strings_view(v@).to_multiset(),
{
    let mut r: Vec<String> = Vec::new();
    let n = v.len();
    let mut i: usize = 0;
    assert(strings_view(r@) =~= strings_view(v@.take(0)));
    while i < n
        invariant
            n == v@.len(),
            i <= n,
            sorted_strs(strings_view(r@)),
            strings_view(r@).to_multiset() == strings_view(v@.take(i as int)).to_multiset(),
        decreases n - i,
    {
        let x = v[i].clone();
        let xv = v[i].as_str();
        let mut p: usize = 0;
        while p < r.len() && str_le(r[p].as_str(), xv)
            invariant
                i < v@.len(),
                xv@ == v@[i as int]@,
                p <= r@.len(),
                forall|k: int| 0 <= k < p ==> lex_le(#[trigger] strings_view(r@)[k], v@[i as int]@),
            decreases r.len() - p,
        {
            p += 1;
        }
        let ghost before = strings_view(r@);
        proof {
            assert forall|k: int| p <= k < before.len() implies lex_le(v@[i as int]@, #[trigger] before[k]) by {
                lemma_lex_total(before[p as int], v@[i as int]@);
                if k > p {
                    lemma_lex_trans(v@[i as int]@, before[p as int], before[k]);
                }
            }
        }
        r.insert(p, x);
        proof {
            assert(strings_view(r@) =~= before.insert(p as int, v@[i as int]@));
            vstd::seq_lib::to_multiset_insert(before, p as int, v@[i as int]@);
            assert(strings_view(v@.take(i + 1)) =~= strings_view(v@.take(i as int)).push(v@[i as int]@));
            vstd::seq_lib::to_multiset_build(strings_view(v@.take(i as int)), v@[i as int]@);
            assert forall|a: int, b: int| 0 <= a < b < strings_view(r@).len() implies lex_le(
                #[trigger] strings_view(r@)[a],
                #[trigger] strings_view(r@)[b],
            ) by {
                let s = strings_view(r@);
                if b < p {
                } else if b == p {
                } else if a < p {
                    lemma_lex_trans(s[a], s[p as int], s[b]);
                } else if a == p {
                } else {
                }
            }
        }
        i += 1;
    }
    assert(v@.take(n as int) =~= v@);
    r
}


// ----------------------------------------------------------------- digest

pub const FNV_OFFSET: u64 = 0xcbf2_9ce4_8422_2325;
pub const FNV_PRIME: u64 = 0x0000_0100_0000_01b3;

/// One FNV-1a step: xor in the byte, then multiply, wrapping at 64 bits.
pub open spec fn fnv_step(h: u64, b: u8) -> u64 {
    (((h ^ (b as u64)) as nat * FNV_PRIME as nat) % 0x1_0000_0000_0000_0000) as u64
}

/// FNV-1a of `bytes`, starting from `h`.
pub open spec fn fnv_fold(h: u64, bytes: Seq<u8>) -> u64
    decreases bytes.len(),
{
    if bytes.len() == 0 {
        h
    } else {
        fnv_step(fnv_fold(h, bytes.drop_last()), bytes.last())
    }
}

/// A lowercase hex digit.
pub open spec fn hex_digit(d: nat) -> char {
    if d < 10 {
        ((48 + d) as u32) as char
    } else {
        ((87 + d) as u32) as char
    }
}

/// The last `k` hex digits of `x`, zero-padded.
pub open spec fn hex_fixed(x: nat, k: nat) -> Seq<char>
    decreases k,
{
    if k == 0 {
        seq![]
    } else {
        hex_fixed(x / 16, (k - 1) as nat).push(hex_digit(x % 16))
    }
}

/// `{:016x}` of the FNV-1a hash of the UTF-8 bytes of `text`.
pub open spec fn digest_spec(text: Seq<char>) -> Seq<char> {
    hex_fixed(fnv_fold(FNV_OFFSET, vstd::utf8::encode_utf8(text)) as nat, 16)
}

fn hex_char(d: u64) -> (c: char)
    requires
        d < 16,
    ensures
        c == hex_digit(d as nat),
{
    if d < 10 {
        ((48 + d) as u8) as char
    } else {
        ((87 + d) as u8) as char
    }
}

fn hex_digits(x: u64, k: usize) -> (s: String)
    ensures
        s@ == hex_fixed(x as nat, k as nat),
    decreases k,
{
    if k == 0 {
        String::new()
    } else {
        let mut s = hex_digits(x / 16, k - 1);
        push_char(&mut s, hex_char(x % 16));
        s
    }
}

/// FNV-1a of `text`'s bytes, as 16 lowercase hex digits.
pub fn fnv1a(text: &str) -> (r: String)
    ensures
        r@ == digest_spec(text@),
{
    let bytes = text.as_bytes();
    let mut hash: u64 = FNV_OFFSET;
    let mut i: usize = 0;
    while i < bytes.len()
        invariant
            i <= bytes@.len(),
            bytes@ == vstd::utf8::encode_utf8(text@),
            hash == fnv_fold(FNV_OFFSET, bytes@.take(i as int)),
        decreases bytes.len() - i,
    {
        assert(bytes@.take(i + 1).drop_last() =~= bytes@.take(i as int));
        hash = (hash ^ (bytes[i] as u64)).wrapping_mul(FNV_PRIME);
        i += 1;
    }
    assert(bytes@.take(bytes@.len() as int) =~= bytes@);
    hex_digits(hash, 16)
}

// ------------------------------------------------------------------ shape

/// The role of the last message, or `"none"` for an empty request.
pub open spec fn last_role_spec(ms: Seq<MessageView>) -> Seq<char> {
    if ms.len() == 0 { "none"@ } else { role_of_view(ms.last()) }
}

impl RequestShape {
    /// The shape of a request. `serialized` is the JSON of `messages`, which
    /// only the digest reads; `tool_names` are the names of the offered
    /// tools, `None` when none are offered.
    pub fn capture(
        model: &str,
        messages: &[Message],
        thinking_mode: &str,
        tool_names: Option<Vec<String>>,
        serialized: &str,
    ) -> (r: Self)
        ensures
            r.model@ == model@,
            r.message_count == messages@.len(),
            r.last_role@ == last_role_spec(messages_view(messages@)),
            r.thinking_mode@ == thinking_mode@,
            sorted_strs(strings_view(r.tool_names@)),
            strings_view(r.tool_names@).to_multiset() == match tool_names {
                Some(t) => strings_view(t@).to_multiset(),
                None => vstd::multiset::Multiset::empty(),
            },
            r.digest@ == digest_spec(serialized@),
    {
        let last_role = if messages.len() == 0 {
            lit("none")
        } else {
            messages[messages.len() - 1].role().clone()
        };
        let names = match tool_names {
            Some(t) => t,
            None => Vec::new(),
        };
        proof {
            if tool_names is None {
                assert(strings_view(names@) =~= Seq::<Seq<char>>::empty());
                vstd::seq_lib::to_multiset_len(strings_view(names@));
                vstd::multiset::lemma_multiset_empty_len(strings_view(names@).to_multiset());
            }
        }
        RequestShape {
            model: lit(model),
            message_count: messages.len(),
            last_role,
            thinking_mode: lit(thinking_mode),
            tool_names: sort_strings(names),
            digest: fnv1a(serialized),
        }
    }

    /// The first structural difference of `other` (the request made) from
    /// `self` (the recording), named; `None` when they agree. The digest
    /// and the model are not compared: rewording a prompt must not break a
    /// fixture.
    pub fn mismatch(&self, other: &Self) -> (r: Option<String>)
        ensures
            match r {
                Some(m) => mismatch_spec(*self, *other) == Some(m@),
                None => mismatch_spec(*self, *other) is None,
            },
    {
        if self.message_count != other.message_count {
            let mut m = lit("message count ");
            push_str(&mut m, decimal(other.message_count as u64).as_str());
            push_str(&mut m, " != recorded ");
            push_str(&mut m, decimal(self.message_count as u64).as_str());
            return Some(m);
        }
        if !crate::text::str_eq(self.last_role.as_str(), other.last_role.as_str()) {
            let mut m = lit("last message role `");
            push_str(&mut m, other.last_role.as_str());
            push_str(&mut m, "` != recorded `");
            push_str(&mut m, self.last_role.as_str());
            push_str(&mut m, "`");
            return Some(m);
        }
        if !same_strings(&self.tool_names, &other.tool_names) {
            let mut m = lit("tool set ");
            push_str(&mut m, debug_list(&other.tool_names).as_str());
            push_str(&mut m, " != recorded ");
            push_str(&mut m, debug_list(&self.tool_names).as_str());
            return Some(m);
        }
        None
    }
}

/// `{:?}` of a list of strings: `["a", "b"]`, each string escaped as
/// `str`'s `Debug` escapes it.
pub uninterp spec fn debug_strings(v: Seq<Seq<char>>) -> Seq<char>;

/// `format!("{:?}", v)`. Claimed: the text is [`debug_strings`] of the
/// strings, a function of them alone; the escaping rules are not stated.
#[verifier::external_body]
pub(crate) fn debug_list(v: &Vec<String>) -> (r: String)
    ensures
        r@ == debug_strings(strings_view(v@)),
{
    format!("{:?}", v)
}

fn same_strings(a: &Vec<String>, b: &Vec<String>) -> (r: bool)
    ensures
        r == (strings_view(a@) == strings_view(b@)),
{
    if a.len() != b.len() {
        assert(strings_view(a@).len() != strings_view(b@).len());
        return false;
    }
    let mut i: usize = 0;
    while i < a.len()
        invariant
            a@.len() == b@.len(),
            i <= a@.len(),
            forall|j: int| 0 <= j < i ==> #[trigger] strings_view(a@)[j] == strings_view(b@)[j],
        decreases a.len() - i,
    {
        if !crate::text::str_eq(a[i].as_str(), b[i].as_str()) {
            assert(strings_view(a@)[i as int] != strings_view(b@)[i as int]);
            return false;
        }
        i += 1;
    }
    assert(strings_view(a@) =~= strings_view(b@));
    true
}

/// The first structural difference of the request `act` from the recording
/// `rec`: message count, then last role, then tool set.
pub open spec fn mismatch_spec(rec: RequestShape, act: RequestShape) -> Option<Seq<char>> {
    if act.message_count != rec.message_count {
        Some("message count "@ + decimal_spec(act.message_count as nat) + " != recorded "@
            + decimal_spec(rec.message_count as nat))
    } else if act.last_role@ != rec.last_role@ {
        Some("last message role `"@ + act.last_role@ + "` != recorded `"@ + rec.last_role@ + "`"@)
    } else if strings_view(act.tool_names@) != strings_view(rec.tool_names@) {
        Some("tool set "@ + debug_strings(strings_view(act.tool_names@)) + " != recorded "@
            + debug_strings(strings_view(rec.tool_names@)))
    } else {
        None
    }
}

/// A shape always matches itself, and a change of wording (the digest) or
/// of model never breaks a recording.
pub proof fn only_structure_is_compared(rec: RequestShape, act: RequestShape)
    requires
        act.message_count == rec.message_count,
        act.last_role@ == rec.last_role@,
        strings_view(act.tool_names@) == strings_view(rec.tool_names@),
    ensures
        mismatch_spec(rec, act) is None,
{
}

/// Any structural difference is reported, and by name.
pub proof fn structural_differences_are_named(rec: RequestShape, act: RequestShape)
    ensures
        (act.message_count != rec.message_count || act.last_role@ != rec.last_role@
            || strings_view(act.tool_names@) != strings_view(rec.tool_names@)) ==> mismatch_spec(rec, act) is Some,
{
}

// ------------------------------------------------------------------ files

/// `n` in decimal, zero-padded to at least three digits.
pub open spec fn pad3(n: nat) -> Seq<char> {
    let d = decimal_spec(n);
    if d.len() >= 3 { d } else if d.len() == 2 { "0"@ + d } else { "00"@ + d }
}

fn padded(seq: usize) -> (r: String)
    ensures
        r@ == pad3(seq as nat),
{
    let d = decimal(seq as u64);
    let n = crate::text::chars_of(d.as_str()).len();
    if n >= 3 {
        d
    } else if n == 2 {
        let mut r = lit("0");
        push_str(&mut r, d.as_str());
        r
    } else {
        let mut r = lit("00");
        push_str(&mut r, d.as_str());
        r
    }
}

/// The file holding the response stream of request `seq`.
pub fn stream_file_name(seq: usize) -> (r: String)
    ensures
        r@ == pad3(seq as nat) + ".jsonl"@,
{
    let mut r = padded(seq);
    push_str(&mut r, ".jsonl");
    r
}

/// The file holding the shape of request `seq`.
pub fn request_file_name(seq: usize) -> (r: String)
    ensures
        r@ == pad3(seq as nat) + ".request.json"@,
{
    let mut r = padded(seq);
    push_str(&mut r, ".request.json");
    r
}

/// The failure when the loop asks for request `seq` and only `seq` were
/// recorded.
pub open spec fn exhausted_spec(seq: nat, dir: Seq<char>) -> Seq<char> {
    "replay exhausted: the loop made request #"@ + decimal_spec(seq + 1) + " but "@ + dir
        + " has only "@ + decimal_spec(seq)
        + " recorded. The trajectory diverged from the fixture \u{2014} re-record it, or fix what made the loop take an extra step."@
}

/// The failure when the loop asks for more requests than were recorded.
pub fn exhausted_message(seq: usize, dir: &str) -> (r: String)
    requires
        seq < usize::MAX,
    ensures
        r@ == exhausted_spec(seq as nat, dir@),
{
    let mut r = lit("replay exhausted: the loop made request #");
    push_str(&mut r, decimal((seq + 1) as u64).as_str());
    push_str(&mut r, " but ");
    push_str(&mut r, dir);
    push_str(&mut r, " has only ");
    push_str(&mut r, decimal(seq as u64).as_str());
    push_str(
        &mut r,
        " recorded. The trajectory diverged from the fixture \u{2014} re-record it, or fix what made the loop take an extra step.",
    );
    r
}

/// The failure text when request `seq` does not match its recording, or
/// `None` when it does.
pub open spec fn mismatch_text(seq: nat, recorded: RequestShape, actual: RequestShape) -> Option<Seq<char>> {
    match mismatch_spec(recorded, actual) {
        Some(d) => Some("replay request #"@ + decimal_spec(seq) + " does not match the recording: "@ + d
            + "\n(recorded digest "@ + recorded.digest@ + ", actual "@ + actual.digest@
            + "). A silently misaligned replay would produce a green test that proves nothing, so this is a hard failure."@),
        None => None,
    }
}

/// The failure when request `seq` does not match its recording, or `None`
/// when it does.
pub fn replay_mismatch(seq: usize, recorded: &RequestShape, actual: &RequestShape) -> (r: Option<String>)
    ensures
        match r {
            Some(m) => mismatch_text(seq as nat, *recorded, *actual) == Some(m@),
            None => mismatch_text(seq as nat, *recorded, *actual) is None,
        },
{
    match recorded.mismatch(actual) {
        None => None,
        Some(diff) => {
            let mut r = lit("replay request #");
            push_str(&mut r, decimal(seq as u64).as_str());
            push_str(&mut r, " does not match the recording: ");
            push_str(&mut r, diff.as_str());
            push_str(&mut r, "\n(recorded digest ");
            push_str(&mut r, recorded.digest.as_str());
            push_str(&mut r, ", actual ");
            push_str(&mut r, actual.digest.as_str());
            push_str(
                &mut r,
                "). A silently misaligned replay would produce a green test that proves nothing, so this is a hard failure.",
            );
            Some(r)
        },
    }
}


/// What a replay answers request `seq`: exhausted when its stream file is
/// absent, a failure when its recorded shape could not be read or does not
/// match the request, else served.
pub open spec fn serve_spec(seq: nat, dir: Seq<char>, stream_present: bool, recorded: Option<RequestShape>, actual: RequestShape) -> Result<(), Seq<char>> {
    if !stream_present {
        Err(exhausted_spec(seq, dir))
    } else {
        match recorded {
            None => Err("cannot read the recorded shape of replay request #"@ + decimal_spec(seq)),
            Some(r) => match mismatch_text(seq, r, actual) {
                Some(m) => Err(m),
                None => Ok(()),
            },
        }
    }
}

/// The number after `s`, wrapping as an atomic counter does.
pub open spec fn next_seq(s: usize) -> usize {
    if s == usize::MAX { 0 } else { (s + 1) as usize }
}

/// The number a replay gives its next request after `k` requests, from a
/// fresh start.
pub open spec fn seq_after(k: nat) -> usize
    decreases k,
{
    if k == 0 { 0 } else { next_seq(seq_after((k - 1) as nat)) }
}

/// Requests are numbered in the order they come, whatever became of the
/// earlier ones: request `k` (from zero) is served from the files numbered
/// `k`, and the next from `k + 1`.
pub proof fn replay_serves_requests_in_order(k: nat)
    requires
        k < usize::MAX,
    ensures
        seq_after(k) == k,
        seq_after(k + 1) == k + 1,
    decreases k,
{
    if k > 0 {
        replay_serves_requests_in_order((k - 1) as nat);
    }
    assert(seq_after(k + 1) == next_seq(seq_after(k)));
}

} // verus!

verus! {

/// A provider that answers from a recorded fixture directory: the loop's
/// `n`-th request is answered by recording `n`, in order.
pub struct Replaying {
    pub dir: String,
    /// The number the next request will get.
    pub seq: usize,
}

impl Replaying {
    pub fn new(dir: String) -> (r: Replaying)
        ensures
            r.dir == dir,
            r.seq == 0,
    {
        Replaying { dir, seq: 0 }
    }

    /// Claim the next request number; the counter wraps as an atomic
    /// counter does.
    pub fn next_request(&mut self) -> (n: usize)
        ensures
            n == old(self).seq,
            final(self).seq == next_seq(old(self).seq),
            final(self).dir == old(self).dir,
    {
        let n = self.seq;
        self.seq = if n == usize::MAX { 0 } else { n + 1 };
        n
    }

    /// Answer the next request: its number is claimed whatever comes of it,
    /// so the request after it is served from the next recording; the
    /// result is that number, or the failure [`serve_spec`] gives.
    /// `stream_present` and `recorded` are what the files for the number
    /// being claimed hold.
    pub fn serve(&mut self, stream_present: bool, recorded: Option<&RequestShape>, actual: &RequestShape) -> (r: Result<usize, String>)
        requires
            old(self).seq < usize::MAX,
        ensures
            final(self).seq == next_seq(old(self).seq),
            final(self).dir == old(self).dir,
            match r {
                Ok(n) => n == old(self).seq && serve_spec(
                    n as nat,
                    old(self).dir@,
                    stream_present,
                    match recorded { Some(x) => Some(*x), None => None },
                    *actual,
                ) is Ok,
                Err(m) => serve_spec(
                    old(self).seq as nat,
                    old(self).dir@,
                    stream_present,
                    match recorded { Some(x) => Some(*x), None => None },
                    *actual,
                ) == Err::<(), Seq<char>>(m@),
            },
    {
        let n = self.next_request();
        if !stream_present {
            return Err(exhausted_message(n, self.dir.as_str()));
        }
        match recorded {
            None => {
                let mut m = lit("cannot read the recorded shape of replay request #");
                push_str(&mut m, decimal(n as u64).as_str());
                Err(m)
            },
            Some(rec) => match replay_mismatch(n, rec, actual) {
                Some(m) => Err(m),
                None => Ok(n),
            },
        }
    }

    /// Where the shape of request `n` was recorded.
    pub fn request_path(&self, n: usize) -> (r: String)
        ensures
            r@ == path_join_spec(self.dir@, pad3(n as nat) + ".request.json"@),
    {
        path_join(self.dir.as_str(), request_file_name(n).as_str())
    }

    /// Where the response stream of request `n` was recorded.
    pub fn stream_path(&self, n: usize) -> (r: String)
        ensures
            r@ == path_join_spec(self.dir@, pad3(n as nat) + ".jsonl"@),
    {
        path_join(self.dir.as_str(), stream_file_name(n).as_str())
    }
}
} // verus!
