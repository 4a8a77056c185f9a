//! Server-sent-event frame parser: splits an arbitrary stream of byte
//! chunks into complete event payloads.
//!
//! A payload is the concatenation of the `data:` values of one event,
//! terminated by a blank line; leading whitespace after `data:` is
//! stripped, lines that are not `data:` lines (comments, `event:`, `id:`,
//! `retry:`) are ignored, and an event without any `data:` line yields
//! nothing.  The parser consumes input one byte at a time, so payload
//! extraction is independent of how the stream is cut into chunks.

use vstd::prelude::*;

verus! {

/// Line feed.
pub const NL: u8 = 10;

/// Carriage return.
pub const CR: u8 = 13;

/// The abstract state of the frame parser: the payload collected for the
/// current event, whether the current event has seen a `data:` line, and
/// the bytes of the current (unterminated) line.
pub struct SseState {
    pub pay: Seq<u8>,
    pub has_data: bool,
    pub line: Seq<u8>,
}

/// The state of a parser that has seen nothing yet.
pub open spec fn sse_init() -> SseState {
    SseState { pay: Seq::empty(), has_data: false, line: Seq::empty() }
}

/// A completed line with a trailing carriage return removed.
pub open spec fn strip_cr(line: Seq<u8>) -> Seq<u8> {
    if line.len() > 0 && line[line.len() - 1] == CR {
        line.drop_last()
    } else {
        line
    }
}

/// The `data:` marker, as bytes.
pub open spec fn data_marker() -> Seq<u8> {
    seq![100u8, 97u8, 116u8, 97u8, 58u8]
}

/// True when `line` is a `data:` line.
pub open spec fn is_data_line(line: Seq<u8>) -> bool {
    line.len() >= 5 && line.subrange(0, 5) =~= data_marker()
}

/// Drop leading spaces and tabs.
pub open spec fn skip_ws(s: Seq<u8>) -> Seq<u8>
    decreases s.len(),
{
    if s.len() > 0 && (s[0] == 32 || s[0] == 9) {
        skip_ws(s.drop_first())
    } else {
        s
    }
}

/// The value a `data:` line contributes to the payload.
pub open spec fn data_value(line: Seq<u8>) -> Seq<u8> {
    skip_ws(line.subrange(5, line.len() as int))
}

/// Feed one byte: the successor state and the payload completed by this
/// byte, if the byte terminated an event.
pub open spec fn sse_step(st: SseState, b: u8) -> (SseState, Option<Seq<u8>>) {
    if b == NL {
        let line = strip_cr(st.line);
        if line.len() == 0 {
            let out = if st.has_data {
                Some(st.pay)
            } else {
                None
            };
            (sse_init(), out)
        } else if is_data_line(line) {
            (SseState { pay: st.pay + data_value(line), has_data: true, line: Seq::empty() }, None)
        } else {
            (SseState { pay: st.pay, has_data: st.has_data, line: Seq::empty() }, None)
        }
    } else {
        (SseState { pay: st.pay, has_data: st.has_data, line: st.line.push(b) }, None)
    }
}

/// Feed a whole byte sequence: the final state and every payload
/// completed along the way, in order.
pub open spec fn sse_run(st: SseState, bytes: Seq<u8>) -> (SseState, Seq<Seq<u8>>)
    decreases bytes.len(),
{
    if bytes.len() == 0 {
        (st, Seq::empty())
    } else {
        let (st1, out) = sse_step(st, bytes[0]);
        let (st2, outs) = sse_run(st1, bytes.drop_first());
        match out {
            Some(p) => (st2, seq![p] + outs),
            None => (st2, outs),
        }
    }
}

/// Chunking invariance: feeding `a` and then `b` ends in the same state
/// and yields the same payload sequence as feeding `a + b` at once.  In
/// particular, feeding a stream one byte at a time yields exactly the
/// payloads of feeding it as one chunk.
pub proof fn lemma_sse_run_append(st: SseState, a: Seq<u8>, b: Seq<u8>)
    ensures
        sse_run(st, a + b).0 == sse_run(sse_run(st, a).0, b).0,
        sse_run(st, a + b).1 =~= sse_run(st, a).1 + sse_run(sse_run(st, a).0, b).1,
    decreases a.len(),
{
    if a.len() == 0 {
        assert(a + b =~= b);
        assert(sse_run(st, a).0 == st);
        assert(sse_run(st, a).1 =~= Seq::<Seq<u8>>::empty());
    } else {
        let (st1, out) = sse_step(st, a[0]);
        lemma_sse_run_append(st1, a.drop_first(), b);
        assert((a + b).drop_first() =~= a.drop_first() + b);
        assert((a + b)[0] == a[0]);
        match out {
            Some(p) => {
                assert(sse_run(st, a + b).1 =~= seq![p] + sse_run(st1, a.drop_first() + b).1);
            },
            None => {},
        }
    }
}

/// The incremental frame parser; it holds the bytes of the event still in
/// progress and hands back each payload as soon as its blank line arrives.
pub struct SseEventParser {
    payload: Vec<u8>,
    has_data: bool,
    line: Vec<u8>,
}

impl SseEventParser {
    /// The abstract state of the parser.
    pub closed spec fn view(&self) -> SseState {
        SseState { pay: self.payload@, has_data: self.has_data, line: self.line@ }
    }

    /// A parser that has seen nothing yet.
    pub fn new() -> (r: Self)
        ensures
            r@ == sse_init(),
    {
        SseEventParser { payload: Vec::new(), has_data: false, line: Vec::new() }
    }

    fn take_line(&mut self) -> (r: Vec<u8>)
        ensures
            r@ =~= strip_cr(old(self).line@),
            final(self).line@ =~= Seq::<u8>::empty(),
            final(self).payload == old(self).payload,
            final(self).has_data == old(self).has_data,
    {
        if self.line.len() > 0 && self.line[self.line.len() - 1] == CR {
            self.line.pop();
        }
        let mut out: Vec<u8> = Vec::new();
        core::mem::swap(&mut out, &mut self.line);
        out
    }

    fn feed_byte(&mut self, b: u8) -> (r: Option<Vec<u8>>)
        ensures
            final(self)@ == sse_step(old(self)@, b).0,
            match r {
                Some(p) => sse_step(old(self)@, b).1 == Some(p@),
                None => sse_step(old(self)@, b).1 is None,
            },
    {
        if b == NL {
            let line = self.take_line();
            if line.len() == 0 {
                let had = self.has_data;
                self.has_data = false;
                let mut out: Vec<u8> = Vec::new();
                core::mem::swap(&mut out, &mut self.payload);
                if had {
                    Some(out)
                } else {
                    None
                }
            } else {
                let is_data = line.len() >= 5 && line[0] == 100 && line[1] == 97 && line[2] == 116
                    && line[3] == 97 && line[4] == 58;
                proof {
                    if line@.len() >= 5 {
                        assert(line@.subrange(0, 5) =~= data_marker() <==> (line@[0] == 100 && line@[1] == 97
                            && line@[2] == 116 && line@[3] == 97 && line@[4] == 58)) by {
                            if line@[0] == 100 && line@[1] == 97 && line@[2] == 116 && line@[3] == 97
                                && line@[4] == 58 {
                                assert(line@.subrange(0, 5) =~= data_marker());
                            } else {
                                assert(line@.subrange(0, 5)[0] == line@[0]);
                                assert(line@.subrange(0, 5)[1] == line@[1]);
                                assert(line@.subrange(0, 5)[2] == line@[2]);
                                assert(line@.subrange(0, 5)[3] == line@[3]);
                                assert(line@.subrange(0, 5)[4] == line@[4]);
                            }
                        }
                    }
                }
                if is_data {
                    let mut i: usize = 5;
                    while i < line.len() && (line[i] == 32 || line[i] == 9)
                        invariant
                            5 <= i <= line.len(),
                            skip_ws(line@.subrange(5, line@.len() as int)) =~= skip_ws(line@.subrange(
                                i as int,
                                line@.len() as int,
                            )),
                        decreases line.len() - i,
                    {
                        assert(line@.subrange(i as int, line@.len() as int).drop_first() =~= line@.subrange(
                            i + 1 as int,
                            line@.len() as int,
                        ));
                        i = i + 1;
                    }
                    let value = crate::text::vec_sub(&line, i, line.len());
                    proof {
                        assert(skip_ws(line@.subrange(i as int, line@.len() as int)) =~= line@.subrange(
                            i as int,
                            line@.len() as int,
                        ));
                    }
                    crate::text::push_all(&mut self.payload, &value);
                    self.has_data = true;
                }
                None
            }
        } else {
            self.line.push(b);
            None
        }
    }

    /// Feed one chunk of bytes and collect every payload it completes.
    pub fn push_and_drain_events(&mut self, chunk: &[u8]) -> (r: Vec<Vec<u8>>)
        ensures
            final(self)@ == sse_run(old(self)@, chunk@).0,
            r.deep_view() =~= sse_run(old(self)@, chunk@).1,
    {
        let ghost full = chunk@;
        let mut outs: Vec<Vec<u8>> = Vec::new();
        let mut i: usize = 0;
        proof {
            assert(full.skip(0) =~= full);
            assert(outs.deep_view() =~= Seq::<Seq<u8>>::empty());
            assert(sse_run(old(self)@, full).1 =~= outs.deep_view() + sse_run(self@, full.skip(0)).1);
        }
        while i < chunk.len()
            invariant
                i <= chunk.len(),
                full == chunk@,
                sse_run(old(self)@, full).0 == sse_run(self@, full.skip(i as int)).0,
                sse_run(old(self)@, full).1 =~= outs.deep_view() + sse_run(self@, full.skip(i as int)).1,
            decreases chunk.len() - i,
        {
            let ghost pre = self@;
            let ghost rest = full.skip(i as int);
            let b = chunk[i];
            let out = self.feed_byte(b);
            proof {
                assert(rest[0] == b);
                assert(rest.drop_first() =~= full.skip(i + 1 as int));
            }
            let ghost pre_outs = outs.deep_view();
            match out {
                Some(p) => {
                    outs.push(p);
                    proof {
                        let dv = outs.deep_view();
                        assert(dv.len() == pre_outs.len() + 1);
                        assert forall|j: int| 0 <= j < dv.len() implies dv[j] == pre_outs.push(p@)[j] by {
                            if j < pre_outs.len() {
                                assert(dv[j] == outs@[j].deep_view());
                                assert(pre_outs[j] == outs@[j].deep_view());
                            } else {
                                assert(dv[j] == p.deep_view());
                                assert(p.deep_view() =~= p@);
                            }
                        }
                        assert(outs.deep_view() =~= pre_outs.push(p@));
                        assert(pre_outs + (seq![p@] + sse_run(self@, full.skip(i + 1)).1) =~= pre_outs.push(
                            p@,
                        ) + sse_run(self@, full.skip(i + 1)).1);
                    }
                },
                None => {},
            }
            i = i + 1;
        }
        proof {
            assert(full.skip(chunk@.len() as int) =~= Seq::<u8>::empty());
        }
        outs
    }
}

/// ASCII whitespace, as payload trimming removes it.
pub open spec fn is_ws_byte(b: u8) -> bool {
    b == 32 || b == 9 || b == 10 || b == 13
}

/// A byte payload with leading whitespace removed.
pub open spec fn trim_bytes_front(s: Seq<u8>) -> Seq<u8>
    decreases s.len(),
{
    if s.len() > 0 && is_ws_byte(s[0]) {
        trim_bytes_front(s.drop_first())
    } else {
        s
    }
}

/// A byte payload with trailing whitespace removed.
pub open spec fn trim_bytes_back(s: Seq<u8>) -> Seq<u8>
    decreases s.len(),
{
    if s.len() > 0 && is_ws_byte(s[s.len() - 1]) {
        trim_bytes_back(s.drop_last())
    } else {
        s
    }
}

/// A byte payload with whitespace removed from both ends.
pub open spec fn trim_bytes(s: Seq<u8>) -> Seq<u8> {
    trim_bytes_back(trim_bytes_front(s))
}

/// The `[DONE]` end-of-stream sentinel, as bytes.
pub open spec fn done_marker() -> Seq<u8> {
    seq![91u8, 68u8, 79u8, 78u8, 69u8, 93u8]
}

fn trim_bounds(payload: &Vec<u8>) -> (r: (usize, usize))
    ensures
        r.0 <= r.1 <= payload@.len(),
        payload@.subrange(r.0 as int, r.1 as int) =~= trim_bytes(payload@),
{
    let mut a: usize = 0;
    while a < payload.len() && (payload[a] == 32 || payload[a] == 9 || payload[a] == 10
        || payload[a] == 13)
        invariant
            a <= payload@.len(),
            forall|j: int| 0 <= j < a ==> is_ws_byte(payload@[j]),
        decreases payload.len() - a,
    {
        a = a + 1;
    }
    let mut b: usize = payload.len();
    while b > a && (payload[b - 1] == 32 || payload[b - 1] == 9 || payload[b - 1] == 10
        || payload[b - 1] == 13)
        invariant
            a <= b <= payload@.len(),
            forall|j: int| b <= j < payload@.len() ==> is_ws_byte(payload@[j]),
        decreases b,
    {
        b = b - 1;
    }
    proof {
        let s = payload@;
        let tail = s.subrange(a as int, s.len() as int);
        lemma_trim_bytes_front_skip(s, a as int);
        assert(a == s.len() || !is_ws_byte(tail[0]));
        assert(trim_bytes_front(s) =~= tail);
        assert forall|j: int| b as int - a as int <= j < tail.len() implies is_ws_byte(tail[j]) by {
            assert(tail[j] == s[a + j]);
        }
        lemma_trim_bytes_back_skip(tail, b as int - a as int);
        let kept = tail.subrange(0, b as int - a as int);
        assert(b == a || !is_ws_byte(kept[kept.len() - 1]));
        assert(trim_bytes_back(kept) =~= kept);
        assert(kept =~= s.subrange(a as int, b as int));
    }
    (a, b)
}

proof fn lemma_trim_bytes_front_skip(s: Seq<u8>, i: int)
    requires
        0 <= i <= s.len(),
        forall|j: int| 0 <= j < i ==> is_ws_byte(s[j]),
    ensures
        trim_bytes_front(s) =~= trim_bytes_front(s.subrange(i, s.len() as int)),
    decreases i,
{
    if i > 0 {
        assert(trim_bytes_front(s) =~= trim_bytes_front(s.drop_first()));
        lemma_trim_bytes_front_skip(s.drop_first(), i - 1);
        assert(s.drop_first().subrange(i - 1, s.drop_first().len() as int) =~= s.subrange(
            i,
            s.len() as int,
        ));
    } else {
        assert(s.subrange(0, s.len() as int) =~= s);
    }
}

proof fn lemma_trim_bytes_back_skip(s: Seq<u8>, i: int)
    requires
        0 <= i <= s.len(),
        forall|j: int| i <= j < s.len() ==> is_ws_byte(s[j]),
    ensures
        trim_bytes_back(s) =~= trim_bytes_back(s.subrange(0, i)),
    decreases s.len() - i,
{
    if i < s.len() {
        assert(trim_bytes_back(s) =~= trim_bytes_back(s.drop_last()));
        lemma_trim_bytes_back_skip(s.drop_last(), i);
        assert(s.drop_last().subrange(0, i) =~= s.subrange(0, i));
    } else {
        assert(s.subrange(0, s.len() as int) =~= s);
    }
}

/// Whether a payload, once trimmed, is the `[DONE]` end-of-stream
/// sentinel.
pub fn is_done_marker(payload: &Vec<u8>) -> (r: bool)
    ensures
        r == (trim_bytes(payload@) =~= done_marker()),
{
    let (a, b) = trim_bounds(payload);
    if b - a != 6 {
        proof {
            assert(trim_bytes(payload@).len() != 6);
        }
        return false;
    }
    let ok = payload[a] == 91 && payload[a + 1] == 68 && payload[a + 2] == 79 && payload[a + 3]
        == 78 && payload[a + 4] == 69 && payload[a + 5] == 93;
    proof {
        let t = trim_bytes(payload@);
        assert(t.len() == 6);
        assert forall|j: int| 0 <= j < 6 implies t[j] == payload@[a + j] by {
            assert(payload@.subrange(a as int, b as int)[j] == payload@[a + j]);
        }
        if ok {
            assert(t =~= done_marker());
        } else {
            if t =~= done_marker() {
                assert(t[0] == 91 && t[1] == 68 && t[2] == 79 && t[3] == 78 && t[4] == 69 && t[5]
                    == 93);
            }
        }
    }
    ok
}

/// Whether a payload, once trimmed, is empty and should be skipped.
pub fn is_blank_payload(payload: &Vec<u8>) -> (r: bool)
    ensures
        r == (trim_bytes(payload@).len() == 0),
{
    let (a, b) = trim_bounds(payload);
    b == a
}

} // verus!
