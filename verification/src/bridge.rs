//! Line-oriented IPC bridge with the worker: inbound bytes are accumulated and
//! split on newline boundaries only, each complete line is classified as a
//! JSON message or plain log text, and outbound messages are framed as single
//! newline-terminated JSON lines.

use vstd::prelude::*;
use crate::logstore::{LogLevel, LogRecord, LogSource, LogStore};
use crate::state::SupervisorState;

verus! {

/// The newline byte that delimits messages on both directions of the bridge.
pub open spec fn newline() -> u8 {
    10
}

/// The sequence contains no newline byte.
pub open spec fn line_free(s: Seq<u8>) -> bool {
    forall|i: int| 0 <= i < s.len() ==> s[i] != newline()
}

/// The byte stream formed by the given lines, each terminated by a newline.
pub open spec fn joined_lines(lines: Seq<Seq<u8>>) -> Seq<u8>
    decreases lines.len(),
{
    if lines.len() == 0 {
        Seq::empty()
    } else {
        lines.first() + seq![newline()] + joined_lines(lines.drop_first())
    }
}

/// Appending one more line extends the joined stream by that line and its
/// terminator.
pub proof fn lemma_joined_lines_push(lines: Seq<Seq<u8>>, l: Seq<u8>)
    ensures
        joined_lines(lines.push(l)) =~= joined_lines(lines) + l + seq![newline()],
    decreases lines.len(),
{
    if lines.len() == 0 {
        assert(lines.push(l).drop_first() =~= Seq::<Seq<u8>>::empty());
        assert(lines.push(l).first() == l);
        assert(joined_lines(lines.push(l)) == l + seq![newline()] + joined_lines(
            Seq::<Seq<u8>>::empty(),
        ));
        assert(joined_lines(lines) == Seq::<u8>::empty());
    } else {
        assert(lines.push(l).drop_first() =~= lines.drop_first().push(l));
        assert(lines.push(l).first() == lines.first());
        lemma_joined_lines_push(lines.drop_first(), l);
        assert(joined_lines(lines.push(l)) == lines.first() + seq![newline()] + (joined_lines(
            lines.drop_first(),
        ) + l + seq![newline()]));
    }
}

/// Accumulator for the inbound byte stream: everything received since the last
/// newline. Partial lines are retained across reads and never emitted.
pub struct LineBuffer {
    /// Bytes of the current, still incomplete line.
    pub buf: Vec<u8>,
}

impl LineBuffer {
    /// The retained partial line never contains a newline.
    pub open spec fn wf(self) -> bool {
        line_free(self.buf@)
    }

    /// Empty buffer: nothing retained.
    pub fn new() -> (b: LineBuffer)
        ensures
            b.wf(),
            b.buf@ == Seq::<u8>::empty(),
    {
        LineBuffer { buf: Vec::new() }
    }

    /// Feed one chunk of raw bytes. Returns every line completed by this
    /// chunk, in arrival order; the trailing partial line stays in the buffer.
    /// The retained bytes plus the chunk are exactly the returned lines, each
    /// with its newline terminator, followed by the new retained partial line.
    pub fn push_chunk(&mut self, chunk: &Vec<u8>) -> (lines: Vec<Vec<u8>>)
        requires
            old(self).wf(),
        ensures
            final(self).wf(),
            forall|i: int| 0 <= i < lines@.len() ==> line_free(#[trigger] lines@[i]@),
            old(self).buf@ + chunk@ == joined_lines(lines.deep_view()) + final(self).buf@,
    {
        let ghost total: Seq<u8> = self.buf@ + chunk@;
        let mut k: usize = 0;
        while k < chunk.len()
            invariant
                0 <= k <= chunk@.len(),
                self.buf@ == old(self).buf@ + chunk@.take(k as int),
            decreases chunk@.len() - k,
        {
            let b = chunk[k];
            self.buf.push(b);
            proof {
                assert(old(self).buf@ + chunk@.take(k + 1) =~= (old(self).buf@
                    + chunk@.take(k as int)).push(chunk@[k as int]));
            }
            k += 1;
        }
        proof {
            assert(chunk@.take(chunk@.len() as int) =~= chunk@);
            assert(self.buf@ == total);
        }
        let mut lines: Vec<Vec<u8>> = Vec::new();
        let mut cur: Vec<u8> = Vec::new();
        let n = self.buf.len();
        let mut i: usize = 0;
        while i < n
            invariant
                0 <= i <= n,
                n == self.buf@.len(),
                self.buf@ == total,
                line_free(cur@),
                forall|j: int| 0 <= j < lines@.len() ==> line_free(#[trigger] lines@[j]@),
                joined_lines(lines.deep_view()) + cur@ =~= total.take(i as int),
            decreases n - i,
        {
            let b = self.buf[i];
            proof {
                assert(total.take(i + 1) =~= total.take(i as int).push(total[i as int]));
            }
            if b == 10 {
                proof {
                    lemma_joined_lines_push(lines.deep_view(), cur@);
                    assert(lines@.push(cur).len() == lines@.len() + 1);
                }
                let ghost old_lines = lines.deep_view();
                let ghost old_cur = cur@;
                lines.push(cur);
                cur = Vec::new();
                proof {
                    assert(lines.deep_view() =~~= old_lines.push(old_cur));
                }
            } else {
                cur.push(b);
            }
            i += 1;
        }
        proof {
            assert(total.take(n as int) =~= total);
        }
        self.buf = cur;
        lines
    }
}

/// Declares serde_json::Value so that message values can be carried through
/// the bridge; the value itself is opaque here.
#[verifier::external_type_specification]
#[verifier::external_body]
pub struct ExValue(serde_json::Value);

/// Whether serde_json's parser accepts the bytes as one JSON document. The
/// result depends on the bytes alone.
pub uninterp spec fn json_accepts(s: Seq<u8>) -> bool;

/// The value serde_json's parser reads from accepted bytes. The result
/// depends on the bytes alone.
pub uninterp spec fn json_value_of(s: Seq<u8>) -> serde_json::Value;

/// The bytes serde_json's serializer emits for a value. The result depends on
/// the value alone.
pub uninterp spec fn serial_of(v: serde_json::Value) -> Seq<u8>;

/// Relies on serde_json::from_slice::<Value>: whether it returns a value, and
/// which, is a function of the input bytes alone, named `json_accepts` and
/// `json_value_of`.
#[verifier::external_body]
fn parse_json_bytes(line: &Vec<u8>) -> (r: Option<serde_json::Value>)
    ensures
        r is Some <==> json_accepts(line@),
        r is Some ==> r->0 == json_value_of(line@),
{
    serde_json::from_slice::<serde_json::Value>(line.as_slice()).ok()
}

/// Relies on serde_json::to_vec on a Value: its output is a function of the
/// value alone, named `serial_of`, and contains no raw newline byte — the
/// compact form emits no whitespace and escapes all control characters
/// inside strings. The error arm is unreachable for a Value: its map keys
/// are strings and its numbers are finite, so serialization cannot fail.
#[verifier::external_body]
fn json_to_bytes(v: &serde_json::Value) -> (r: Vec<u8>)
    ensures
        r@ == serial_of(*v),
        line_free(r@),
{
    match serde_json::to_vec(v) {
        Ok(bytes) => bytes,
        Err(_) => Vec::new(),
    }
}

/// The bytes are only whitespace: space, tab, or carriage return.
pub open spec fn is_blank(s: Seq<u8>) -> bool {
    forall|i: int| 0 <= i < s.len() ==> (s[i] == 32 || s[i] == 9 || s[i] == 13)
}

/// One classified inbound line. Every variant keeps the raw line, so a
/// stream of events still determines the exact bytes that were consumed.
pub enum InboundEvent {
    /// A structured message: the line parsed as JSON.
    Message { line: Vec<u8>, value: serde_json::Value },
    /// Human-readable log output: a non-blank line that is not JSON.
    Log { line: Vec<u8> },
    /// A whitespace-only line, carrying no message.
    Blank { line: Vec<u8> },
}

impl InboundEvent {
    /// The raw bytes of the line this event was classified from.
    pub open spec fn spec_line(self) -> Seq<u8> {
        match self {
            InboundEvent::Message { line, .. } => line@,
            InboundEvent::Log { line } => line@,
            InboundEvent::Blank { line } => line@,
        }
    }

    /// The classification the event must carry for its line: blank lines are
    /// blank events, JSON lines are messages carrying exactly the value the
    /// parser reads from the line, everything else is log text.
    pub open spec fn well_classified(self) -> bool {
        match self {
            InboundEvent::Message { line, value } => !is_blank(line@) && json_accepts(line@)
                && value == json_value_of(line@),
            InboundEvent::Log { line } => !is_blank(line@) && !json_accepts(line@),
            InboundEvent::Blank { line } => is_blank(line@),
        }
    }
}

/// The raw lines behind a sequence of events, in order.
pub open spec fn event_lines(events: Seq<InboundEvent>) -> Seq<Seq<u8>> {
    Seq::new(events.len(), |i: int| events[i].spec_line())
}

/// Whether the line is only whitespace.
fn line_is_blank(line: &Vec<u8>) -> (r: bool)
    ensures
        r == is_blank(line@),
{
    let mut i: usize = 0;
    while i < line.len()
        invariant
            0 <= i <= line@.len(),
            forall|j: int| 0 <= j < i ==> (line@[j] == 32 || line@[j] == 9 || line@[j] == 13),
        decreases line@.len() - i,
    {
        let b = line[i];
        if !(b == 32 || b == 9 || b == 13) {
            return false;
        }
        i += 1;
    }
    true
}

/// Classify one complete inbound line: blank lines carry nothing, JSON lines
/// become structured messages, anything else is plain log text.
pub fn classify_line(line: Vec<u8>) -> (e: InboundEvent)
    ensures
        e.spec_line() == line@,
        e.well_classified(),
{
    if line_is_blank(&line) {
        return InboundEvent::Blank { line };
    }
    match parse_json_bytes(&line) {
        Some(value) => InboundEvent::Message { line, value },
        None => InboundEvent::Log { line },
    }
}

/// Inbound half of the IPC bridge: a line accumulator whose complete lines
/// are classified into discrete events.
pub struct InboundBridge {
    /// Accumulator over the child's output stream.
    pub buffer: LineBuffer,
}

impl InboundBridge {
    /// The retained partial line never contains a newline.
    pub open spec fn wf(self) -> bool {
        self.buffer.wf()
    }

    /// A bridge that has consumed nothing yet.
    pub fn new() -> (b: InboundBridge)
        ensures
            b.wf(),
            b.buffer.buf@ == Seq::<u8>::empty(),
    {
        InboundBridge { buffer: LineBuffer::new() }
    }

    /// Consume one chunk of the child's output. Returns one event per line
    /// completed by this chunk, in arrival order, each correctly classified;
    /// the retained bytes plus the chunk are exactly the events' lines, each
    /// newline-terminated, followed by the new retained partial line. No
    /// event is ever produced for a partial line.
    pub fn process_chunk(&mut self, chunk: &Vec<u8>) -> (events: Vec<InboundEvent>)
        requires
            old(self).wf(),
        ensures
            final(self).wf(),
            forall|i: int| 0 <= i < events@.len() ==> (#[trigger] events@[i]).well_classified(),
            forall|i: int| 0 <= i < events@.len() ==> line_free((#[trigger] events@[i]).spec_line()),
            old(self).buffer.buf@ + chunk@ == joined_lines(event_lines(events@))
                + final(self).buffer.buf@,
    {
        let mut lines = self.buffer.push_chunk(chunk);
        let ghost all_lines = lines.deep_view();
        let mut events: Vec<InboundEvent> = Vec::new();
        while lines.len() > 0
            invariant
                events@.len() + lines@.len() == all_lines.len(),
                forall|j: int|
                    0 <= j < lines@.len() ==> (#[trigger] lines@[j])@ == all_lines[events@.len()
                        + j],
                forall|j: int| 0 <= j < lines@.len() ==> line_free((#[trigger] lines@[j])@),
                forall|i: int| 0 <= i < events@.len() ==> (#[trigger] events@[i]).well_classified(),
                forall|i: int|
                    0 <= i < events@.len() ==> (#[trigger] events@[i]).spec_line()
                        == all_lines[i],
            decreases lines@.len(),
        {
            let line = lines.remove(0);
            let e = classify_line(line);
            events.push(e);
        }
        proof {
            assert(event_lines(events@) =~~= all_lines);
        }
        events
    }
}

/// Frame an outbound message: exactly the message's serialization, as one
/// newline-terminated line with no newline anywhere before the terminator.
pub fn frame_message(v: &serde_json::Value) -> (f: Vec<u8>)
    ensures
        f@.len() > 0,
        f@.last() == newline(),
        line_free(f@.drop_last()),
        f@.drop_last() == serial_of(*v),
{
    let mut f = json_to_bytes(v);
    let ghost body = f@;
    f.push(10);
    proof {
        assert(f@.drop_last() =~= body);
    }
    f
}

/// The warning logged when a message is sent while no child is running.
pub open spec fn spec_no_child_warning() -> Seq<u8> {
    seq![
        115u8, 105, 100, 101, 99, 97, 114, 32, 110, 111, 116, 32, 114, 117, 110, 110, 105, 110,
        103,
    ]
}

/// Outbound send: while a child process is recorded as running, the frame is
/// exactly the message's serialization on one newline-terminated line. A
/// message for a stopped or never-started child is dropped, never queued:
/// the send fails silently with one logged warning.
pub fn prepare_send(state: &SupervisorState, store: &mut LogStore, v: &serde_json::Value) -> (r:
    Option<Vec<u8>>)
    ensures
        r is Some <==> state.child_id is Some,
        match r {
            Some(f) => {
                &&& f@.len() > 0
                &&& f@.last() == newline()
                &&& line_free(f@.drop_last())
                &&& f@.drop_last() == serial_of(*v)
                &&& final(store).records@ == old(store).records@
            },
            None => {
                &&& final(store).records@.len() == old(store).records@.len() + 1
                &&& final(store).records@.take(old(store).records@.len() as int) == old(
                    store,
                ).records@
                &&& final(store).records@.last().source == LogSource::Internal
                &&& final(store).records@.last().level == LogLevel::Warn
                &&& final(store).records@.last().message@ == spec_no_child_warning()
            },
        },
{
    if state.child_id.is_some() {
        Some(frame_message(v))
    } else {
        let warning: Vec<u8> = vec![
            115, 105, 100, 101, 99, 97, 114, 32, 110, 111, 116, 32, 114, 117, 110, 110, 105, 110,
            103,
        ];
        proof {
            assert(warning@ =~= spec_no_child_warning());
        }
        store.append(
            LogRecord { source: LogSource::Internal, level: LogLevel::Warn, message: warning },
        );
        proof {
            assert(store.records@.take(old(store).records@.len() as int) =~= old(store).records@);
        }
        None
    }
}

/// A framed outbound message read back from the stream is exactly one
/// complete line — its body — with nothing left over.
pub proof fn lemma_framed_message_single_line(f: Seq<u8>)
    requires
        f.len() > 0,
        f.last() == newline(),
    ensures
        joined_lines(seq![f.drop_last()]) == f,
{
    assert(seq![f.drop_last()].drop_first() =~= Seq::<Seq<u8>>::empty());
    assert(seq![f.drop_last()].first() == f.drop_last());
    assert(joined_lines(Seq::<Seq<u8>>::empty()) == Seq::<u8>::empty());
    assert(joined_lines(seq![f.drop_last()]) == f.drop_last() + seq![newline()]
        + Seq::<u8>::empty());
    assert(joined_lines(seq![f.drop_last()]) =~= f);
}

/// Joining concatenated line lists is concatenating their joins.
pub proof fn lemma_joined_lines_concat(l1: Seq<Seq<u8>>, l2: Seq<Seq<u8>>)
    ensures
        joined_lines(l1 + l2) =~= joined_lines(l1) + joined_lines(l2),
    decreases l1.len(),
{
    if l1.len() == 0 {
        assert(l1 + l2 =~= l2);
        assert(joined_lines(l1) == Seq::<u8>::empty());
    } else {
        assert((l1 + l2).len() > 0);
        assert((l1 + l2).first() == l1.first());
        assert((l1 + l2).drop_first() =~= l1.drop_first() + l2);
        lemma_joined_lines_concat(l1.drop_first(), l2);
        assert(joined_lines(l1 + l2) == l1.first() + seq![newline()] + (joined_lines(
            l1.drop_first(),
        ) + joined_lines(l2)));
    }
}

/// Chunk boundaries are immaterial: however the same bytes are cut into two
/// chunks, the lines read from the two deliveries, one after the other, are
/// exactly the lines read from the single delivery, with the same retained
/// remainder. The lists and remainders here are the decompositions that
/// `push_chunk`'s contract establishes for each delivery.
pub proof fn lemma_chunking_immaterial(
    base: Seq<u8>,
    c1: Seq<u8>,
    c2: Seq<u8>,
    ls1: Seq<Seq<u8>>,
    r1: Seq<u8>,
    ls2: Seq<Seq<u8>>,
    r2: Seq<u8>,
    ls: Seq<Seq<u8>>,
    r: Seq<u8>,
)
    requires
        base + c1 == joined_lines(ls1) + r1,
        r1 + c2 == joined_lines(ls2) + r2,
        base + (c1 + c2) == joined_lines(ls) + r,
        forall|i: int| 0 <= i < ls1.len() ==> line_free(#[trigger] ls1[i]),
        forall|i: int| 0 <= i < ls2.len() ==> line_free(#[trigger] ls2[i]),
        forall|i: int| 0 <= i < ls.len() ==> line_free(#[trigger] ls[i]),
        line_free(r1),
        line_free(r2),
        line_free(r),
    ensures
        ls =~= ls1 + ls2,
        r == r2,
{
    lemma_joined_lines_concat(ls1, ls2);
    assert(joined_lines(ls) + r =~= joined_lines(ls1 + ls2) + r2) by {
        assert(base + (c1 + c2) =~= (base + c1) + c2);
        assert((joined_lines(ls1) + r1) + c2 =~= joined_lines(ls1) + (r1 + c2));
        assert(joined_lines(ls1) + (joined_lines(ls2) + r2) =~= (joined_lines(ls1)
            + joined_lines(ls2)) + r2);
    }
    assert forall|i: int| 0 <= i < (ls1 + ls2).len() implies line_free(
        #[trigger] (ls1 + ls2)[i],
    ) by {
        if i < ls1.len() {
            assert((ls1 + ls2)[i] == ls1[i]);
        } else {
            assert((ls1 + ls2)[i] == ls2[i - ls1.len()]);
        }
    }
    lemma_split_unique(ls, r, ls1 + ls2, r2);
}

/// The decomposition of a byte stream into newline-terminated lines and a
/// newline-free remainder is unique: two such decompositions of the same
/// stream have the same lines and the same remainder. In particular no
/// partial line can ever be read as a complete one.
pub proof fn lemma_split_unique(ls1: Seq<Seq<u8>>, r1: Seq<u8>, ls2: Seq<Seq<u8>>, r2: Seq<u8>)
    requires
        joined_lines(ls1) + r1 == joined_lines(ls2) + r2,
        forall|i: int| 0 <= i < ls1.len() ==> line_free(#[trigger] ls1[i]),
        forall|i: int| 0 <= i < ls2.len() ==> line_free(#[trigger] ls2[i]),
        line_free(r1),
        line_free(r2),
    ensures
        ls1 =~= ls2,
        r1 == r2,
    decreases ls1.len() + ls2.len(),
{
    let t1 = joined_lines(ls1) + r1;
    let t2 = joined_lines(ls2) + r2;
    if ls1.len() == 0 && ls2.len() == 0 {
        assert(r1 =~= r2);
    } else if ls1.len() == 0 {
        let b = ls2.first();
        assert(t2[b.len() as int] == newline());
        assert(joined_lines(ls1) =~= Seq::<u8>::empty());
        assert(t1 =~= r1);
        assert(r1[b.len() as int] == newline());
        assert(false);
    } else if ls2.len() == 0 {
        let a = ls1.first();
        assert(t1[a.len() as int] == newline());
        assert(t2 =~= r2);
        assert(r2[a.len() as int] == newline());
        assert(false);
    } else {
        let a = ls1.first();
        let b = ls2.first();
        assert(line_free(a));
        assert(line_free(b));
        assert(forall|i: int| 0 <= i < a.len() ==> t1[i] == a[i]);
        assert(t1[a.len() as int] == newline());
        assert(forall|i: int| 0 <= i < b.len() ==> t2[i] == b[i]);
        assert(t2[b.len() as int] == newline());
        if a.len() < b.len() {
            assert(t2[a.len() as int] == b[a.len() as int]);
            assert(false);
        }
        if b.len() < a.len() {
            assert(t1[b.len() as int] == a[b.len() as int]);
            assert(false);
        }
        assert(a =~= b);
        let tail1 = joined_lines(ls1.drop_first()) + r1;
        let tail2 = joined_lines(ls2.drop_first()) + r2;
        assert(t1 =~= a + seq![newline()] + tail1);
        assert(t2 =~= b + seq![newline()] + tail2);
        assert(tail1 =~= tail2) by {
            assert(forall|i: int| 0 <= i < tail1.len() ==> tail1[i] == t1[a.len() + 1 + i]);
            assert(forall|i: int| 0 <= i < tail2.len() ==> tail2[i] == t2[b.len() + 1 + i]);
        }
        lemma_split_unique(ls1.drop_first(), r1, ls2.drop_first(), r2);
        assert(ls1 =~= ls2) by {
            assert(forall|i: int|
                1 <= i < ls1.len() ==> #[trigger] ls1[i] == ls1.drop_first()[i - 1]);
            assert(forall|i: int|
                1 <= i < ls2.len() ==> #[trigger] ls2[i] == ls2.drop_first()[i - 1]);
        }
    }
}

} // verus!
