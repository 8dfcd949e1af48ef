//! The streaming worker: cuts the registry's byte stream into records, skipping heartbeats,
//! turns records into streaming-update jobs, and says where to resume the stream.
use vstd::prelude::*;

use crate::bus::{enqueued_job, Enqueued, Producer};
use crate::company_house::company_house_streaming_types::{
    CompanyStreamingResponse, OfficerStreamingResponse, ShareholderStreamingResponse,
};
use crate::jobs::streaming_update_jobs::{StreamingUpdateJob, UpdateKind};
use crate::jobs::JobKind;
use crate::models::Updatekind;
use crate::store::{last_timepoint, Store};

verus! {

pub const COMPANY_STREAMING_TOPIC: &'static str = "non-persistent://public/default/company-streaming";
pub const OFFICER_STREAMING_TOPIC: &'static str = "non-persistent://public/default/officer-streaming";
pub const SHAREHOLDER_STREAMING_TOPIC: &'static str = "non-persistent://public/default/shareholder-streaming";

pub const COMPANY_STREAMING_URL: &'static str = "https://stream.companieshouse.gov.uk/companies";
pub const OFFICER_STREAMING_URL: &'static str = "https://stream.companieshouse.gov.uk/officers";
pub const SHAREHOLDER_STREAMING_URL: &'static str = "https://stream.companieshouse.gov.uk/persons-with-significant-control";

/// The newline byte that ends records and makes up heartbeats.
pub const NEWLINE: u8 = 10;

/// Which registry stream a worker follows.
#[derive(Debug, Clone, Copy, PartialEq, Eq, Structural)]
pub enum StreamingKind {
    Company,
    Officer,
    Shareholder,
}

/// Where to open a stream: its address, and the timepoint to resume from, if any.
#[derive(Debug, Clone, Copy, PartialEq, Eq)]
pub struct StreamRequest {
    pub url: &'static str,
    pub timepoint: Option<i32>,
}

/// The kind under which updates of a stream are recorded.
pub open spec fn spec_stream_update_kind(kind: StreamingKind) -> Updatekind {
    match kind {
        StreamingKind::Company => Updatekind::Company,
        StreamingKind::Officer => Updatekind::Officer,
        StreamingKind::Shareholder => Updatekind::Shareholder,
    }
}

/// The address of a stream.
pub open spec fn spec_stream_url(kind: StreamingKind) -> Seq<char> {
    match kind {
        StreamingKind::Company => COMPANY_STREAMING_URL@,
        StreamingKind::Officer => OFFICER_STREAMING_URL@,
        StreamingKind::Shareholder => SHAREHOLDER_STREAMING_URL@,
    }
}

impl StreamingKind {
    /// The kind under which updates of this stream are recorded.
    pub fn update_kind(&self) -> (r: Updatekind)
        ensures
            r == spec_stream_update_kind(*self),
    {
        match self {
            StreamingKind::Company => Updatekind::Company,
            StreamingKind::Officer => Updatekind::Officer,
            StreamingKind::Shareholder => Updatekind::Shareholder,
        }
    }

    /// The bus topic that carries this stream's updates.
    pub fn topic(&self) -> (r: &'static str)
        ensures
            r@ == match *self {
                StreamingKind::Company => COMPANY_STREAMING_TOPIC@,
                StreamingKind::Officer => OFFICER_STREAMING_TOPIC@,
                StreamingKind::Shareholder => SHAREHOLDER_STREAMING_TOPIC@,
            },
    {
        match self {
            StreamingKind::Company => COMPANY_STREAMING_TOPIC,
            StreamingKind::Officer => OFFICER_STREAMING_TOPIC,
            StreamingKind::Shareholder => SHAREHOLDER_STREAMING_TOPIC,
        }
    }

    /// The address of this stream.
    pub fn url(&self) -> (r: &'static str)
        ensures
            r@ == spec_stream_url(*self),
    {
        match self {
            StreamingKind::Company => COMPANY_STREAMING_URL,
            StreamingKind::Officer => OFFICER_STREAMING_URL,
            StreamingKind::Shareholder => SHAREHOLDER_STREAMING_URL,
        }
    }

    /// Where to (re)open this stream: from the latest timepoint processed for it, if any.
    pub fn stream_request(&self, store: &Store) -> (r: StreamRequest)
        ensures
            r.url@ == spec_stream_url(*self),
            r.timepoint == last_timepoint(store.processed_updates@, spec_stream_update_kind(*self)),
    {
        StreamRequest { url: self.url(), timepoint: store.get_last_processed_timepoint(self.update_kind()) }
    }
}

/// The framing state: the bytes of the record read so far (`buffer`), and of the piece since
/// the last newline of the batch at hand (`chunk`); and the records completed, in order.
pub struct FrameState {
    pub buffer: Seq<u8>,
    pub chunk: Seq<u8>,
    pub records: Seq<Seq<u8>>,
}

/// One byte of a batch. A newline that ends an empty piece is a heartbeat and is skipped;
/// any other newline completes the record; other bytes extend the piece.
pub open spec fn frame_step(st: FrameState, b: u8) -> FrameState {
    if b == NEWLINE {
        if st.chunk.len() == 0 {
            st
        } else {
            FrameState {
                buffer: Seq::empty(),
                chunk: Seq::empty(),
                records: st.records.push(st.buffer + st.chunk.push(b)),
            }
        }
    } else {
        FrameState { chunk: st.chunk.push(b), ..st }
    }
}

/// The framing state after the bytes `input`, from `st`.
pub open spec fn frame_bytes(st: FrameState, input: Seq<u8>) -> FrameState
    decreases input.len(),
{
    if input.len() == 0 {
        st
    } else {
        frame_step(frame_bytes(st, input.drop_last()), input.last())
    }
}

/// What a batch of bytes yields from a pending `buffer`: the records it completes, and the
/// bytes left pending after it.
pub open spec fn frame_batch(buffer: Seq<u8>, input: Seq<u8>) -> (Seq<Seq<u8>>, Seq<u8>) {
    let st = frame_bytes(FrameState { buffer, chunk: Seq::empty(), records: Seq::empty() }, input);
    (st.records, st.buffer + st.chunk)
}

/// Cuts the byte stream into records. Holds the bytes of a record not yet complete.
#[derive(Debug)]
pub struct StreamFramer {
    pub buffer: Vec<u8>,
}

impl StreamFramer {
    pub fn new() -> (r: StreamFramer)
        ensures
            r.buffer@.len() == 0,
    {
        StreamFramer { buffer: Vec::new() }
    }

    /// Takes one batch of stream bytes; returns the records it completes, each with its
    /// closing newline, in order. A piece of the batch that is a lone newline is a heartbeat.
    pub fn process_bytes(&mut self, bytes: &[u8]) -> (r: Vec<Vec<u8>>)
        ensures
            r@.len() == frame_batch(old(self).buffer@, bytes@).0.len(),
            forall|k: int| 0 <= k < r@.len() ==> (#[trigger] r@[k])@ == frame_batch(old(self).buffer@, bytes@).0[k],
            final(self).buffer@ == frame_batch(old(self).buffer@, bytes@).1,
    {
        let ghost start = FrameState { buffer: self.buffer@, chunk: Seq::empty(), records: Seq::empty() };
        let mut out: Vec<Vec<u8>> = Vec::new();
        let mut chunk: Vec<u8> = Vec::new();
        let mut i: usize = 0;
        while i < bytes.len()
            invariant
                i <= bytes@.len(),
                ({
                    let st = frame_bytes(start, bytes@.subrange(0, i as int));
                    &&& st.buffer == self.buffer@
                    &&& st.chunk == chunk@
                    &&& st.records.len() == out@.len()
                    &&& forall|k: int| 0 <= k < out@.len() ==> (#[trigger] out@[k])@ == st.records[k]
                }),
            decreases bytes@.len() - i,
        {
            assert(bytes@.subrange(0, i + 1).drop_last() =~= bytes@.subrange(0, i as int));
            let b = bytes[i];
            if b == NEWLINE {
                if chunk.len() > 0 {
                    let mut record = self.buffer.split_off(0);
                    let mut rest = chunk.split_off(0);
                    record.append(&mut rest);
                    record.push(b);
                    out.push(record);
                }
            } else {
                chunk.push(b);
            }
            i = i + 1;
        }
        assert(bytes@.subrange(0, i as int) =~= bytes@);
        self.buffer.append(&mut chunk);
        out
    }
}

/// Whether `piece` is one real record: at least one byte, then its closing newline, and no
/// other newline.
pub open spec fn is_record(piece: Seq<u8>) -> bool {
    &&& piece.len() >= 2
    &&& piece.last() == NEWLINE
    &&& forall|k: int| 0 <= k < piece.len() - 1 ==> piece[k] != NEWLINE
}

/// Whether `piece` is a heartbeat: a lone newline.
pub open spec fn is_heartbeat(piece: Seq<u8>) -> bool {
    piece == seq![NEWLINE]
}

/// The bytes of `pieces`, one after another.
pub open spec fn concat_pieces(pieces: Seq<Seq<u8>>) -> Seq<u8>
    decreases pieces.len(),
{
    if pieces.len() == 0 {
        Seq::empty()
    } else {
        concat_pieces(pieces.drop_last()) + pieces.last()
    }
}

/// The pieces that are records, in order.
pub open spec fn records_of(pieces: Seq<Seq<u8>>) -> Seq<Seq<u8>>
    decreases pieces.len(),
{
    if pieces.len() == 0 {
        Seq::empty()
    } else if is_record(pieces.last()) {
        records_of(pieces.drop_last()).push(pieces.last())
    } else {
        records_of(pieces.drop_last())
    }
}

/// Framing two batches' bytes one after the other is framing their concatenation.
proof fn lemma_frame_bytes_append(st: FrameState, a: Seq<u8>, b: Seq<u8>)
    ensures
        frame_bytes(st, a + b) == frame_bytes(frame_bytes(st, a), b),
    decreases b.len(),
{
    if b.len() == 0 {
        assert(a + b =~= a);
    } else {
        assert((a + b).drop_last() =~= a + b.drop_last());
        lemma_frame_bytes_append(st, a, b.drop_last());
    }
}

/// Bytes without a newline only extend the current piece.
proof fn lemma_frame_plain_bytes(st: FrameState, s: Seq<u8>)
    requires
        forall|k: int| 0 <= k < s.len() ==> s[k] != NEWLINE,
    ensures
        frame_bytes(st, s) == (FrameState { chunk: st.chunk + s, ..st }),
    decreases s.len(),
{
    if s.len() == 0 {
        assert(st.chunk + s =~= st.chunk);
    } else {
        lemma_frame_plain_bytes(st, s.drop_last());
        assert(st.chunk + s =~= (st.chunk + s.drop_last()).push(s.last()));
    }
}

/// Heartbeats are transparent: a batch made of real records and lone newlines, in any order,
/// framed from an empty buffer, yields exactly its records, in order, and leaves nothing
/// pending.
pub proof fn lemma_heartbeats_transparent(pieces: Seq<Seq<u8>>)
    requires
        forall|k: int| 0 <= k < pieces.len() ==> is_record(#[trigger] pieces[k]) || is_heartbeat(pieces[k]),
    ensures
        frame_batch(Seq::empty(), concat_pieces(pieces)).0 == records_of(pieces),
        frame_batch(Seq::empty(), concat_pieces(pieces)).1.len() == 0,
    decreases pieces.len(),
{
    let start = FrameState { buffer: Seq::empty(), chunk: Seq::empty(), records: Seq::empty() };
    lemma_pieces_state(pieces);
    let st = frame_bytes(start, concat_pieces(pieces));
    assert(st.buffer + st.chunk =~= Seq::<u8>::empty());
}

/// After whole records and heartbeats nothing is pending, and exactly the records came out.
proof fn lemma_pieces_state(pieces: Seq<Seq<u8>>)
    requires
        forall|k: int| 0 <= k < pieces.len() ==> is_record(#[trigger] pieces[k]) || is_heartbeat(pieces[k]),
    ensures
        ({
            let st = frame_bytes(
                FrameState { buffer: Seq::empty(), chunk: Seq::empty(), records: Seq::empty() },
                concat_pieces(pieces),
            );
            &&& st.buffer.len() == 0
            &&& st.chunk.len() == 0
            &&& st.records == records_of(pieces)
        }),
    decreases pieces.len(),
{
    let start = FrameState { buffer: Seq::empty(), chunk: Seq::empty(), records: Seq::empty() };
    if pieces.len() > 0 {
        let prefix = pieces.drop_last();
        assert forall|k: int| 0 <= k < prefix.len() implies is_record(#[trigger] prefix[k]) || is_heartbeat(prefix[k]) by {
            assert(prefix[k] == pieces[k]);
        }
        lemma_pieces_state(prefix);
        let p = pieces.last();
        assert(is_record(pieces[pieces.len() - 1]) || is_heartbeat(pieces[pieces.len() - 1]));
        let mid = frame_bytes(start, concat_pieces(prefix));
        lemma_frame_bytes_append(start, concat_pieces(prefix), p);
        if is_heartbeat(p) {
            assert(p.drop_last() =~= Seq::<u8>::empty());
            assert(frame_bytes(mid, p.drop_last()) == mid);
        } else {
            let body = p.drop_last();
            lemma_frame_plain_bytes(mid, body);
            assert(mid.chunk + body =~= body);
            assert(mid.buffer + body.push(NEWLINE) =~= p);
        }
    }
}

/// The framing state at the start of a batch, with `buffer` pending.
pub open spec fn batch_start(buffer: Seq<u8>) -> FrameState {
    FrameState { buffer, chunk: Seq::empty(), records: Seq::empty() }
}

/// Several batches fed one after another from a pending `buffer`: the records each
/// completes, in order, and the bytes left pending after the last.
pub open spec fn frame_batches(buffer: Seq<u8>, batches: Seq<Seq<u8>>) -> (Seq<Seq<u8>>, Seq<u8>)
    decreases batches.len(),
{
    if batches.len() == 0 {
        (Seq::empty(), buffer)
    } else {
        let before = frame_batches(buffer, batches.drop_last());
        let last = frame_batch(before.1, batches.last());
        (before.0 + last.0, last.1)
    }
}

/// Whether batch `b`, after the bytes `before` fed from `buffer`, does not begin with the
/// newline that ends a record begun before it.
pub open spec fn batch_ok(buffer: Seq<u8>, before: Seq<u8>, b: Seq<u8>) -> bool {
    b.len() == 0 || b[0] != NEWLINE || frame_bytes(batch_start(buffer), before).chunk.len() == 0
}

/// Cutting the bytes between batches changes nothing, unless the next batch begins with the
/// newline of a record already under way.
proof fn lemma_split_equiv(st: FrameState, b: Seq<u8>)
    requires
        st.chunk.len() == 0 || (b.len() > 0 && b[0] != NEWLINE),
    ensures
        ({
            let x = frame_bytes(st, b);
            let y = frame_bytes(batch_start(st.buffer + st.chunk), b);
            &&& x.buffer + x.chunk == y.buffer + y.chunk
            &&& (x.chunk.len() == 0) == (y.chunk.len() == 0)
            &&& x.records == st.records + y.records
        }),
    decreases b.len(),
{
    let t = batch_start(st.buffer + st.chunk);
    if b.len() == 0 {
        assert(st.buffer + st.chunk =~= t.buffer + t.chunk);
        assert(st.records =~= st.records + t.records);
    } else if b.len() == 1 && st.chunk.len() > 0 {
        assert(b.drop_last() =~= Seq::<u8>::empty());
        assert(b.last() == b[0]);
        assert(frame_bytes(st, b.drop_last()) == st);
        assert(frame_bytes(t, b.drop_last()) == t);
        let x = frame_bytes(st, b);
        let y = frame_bytes(t, b);
        assert(x == frame_step(st, b[0]));
        assert(y == frame_step(t, b[0]));
        assert(x.chunk == st.chunk.push(b[0]));
        assert(y.chunk == Seq::<u8>::empty().push(b[0]));
        assert(x.buffer + x.chunk =~= y.buffer + y.chunk);
        assert(x.records =~= st.records + y.records);
    } else {
        let b0 = b.drop_last();
        if st.chunk.len() > 0 {
            assert(b0[0] == b[0]);
        }
        lemma_split_equiv(st, b0);
        let x0 = frame_bytes(st, b0);
        let y0 = frame_bytes(t, b0);
        let c = b.last();
        let x = frame_bytes(st, b);
        let y = frame_bytes(t, b);
        assert(x == frame_step(x0, c));
        assert(y == frame_step(y0, c));
        if c == NEWLINE {
            if x0.chunk.len() > 0 {
                assert(x0.buffer + x0.chunk.push(c) =~= (x0.buffer + x0.chunk).push(c));
                assert(y0.buffer + y0.chunk.push(c) =~= (y0.buffer + y0.chunk).push(c));
                assert(x.records =~= st.records + y.records);
                assert(x.buffer + x.chunk =~= y.buffer + y.chunk);
            }
        } else {
            assert(x.buffer + x.chunk =~= (x0.buffer + x0.chunk).push(c));
            assert(y.buffer + y.chunk =~= (y0.buffer + y0.chunk).push(c));
        }
    }
}

/// Framing `a` then, as a new batch, `b` is framing `a + b`, when `b` may follow `a`.
proof fn lemma_batch_compose(buffer: Seq<u8>, a: Seq<u8>, b: Seq<u8>)
    requires
        batch_ok(buffer, a, b),
    ensures
        frame_batch(buffer, a + b) == ({
            let first = frame_batch(buffer, a);
            let second = frame_batch(first.1, b);
            (first.0 + second.0, second.1)
        }),
{
    let s = batch_start(buffer);
    let st = frame_bytes(s, a);
    lemma_frame_bytes_append(s, a, b);
    if b.len() == 0 {
        assert(a + b =~= a);
        let second = frame_batch(st.buffer + st.chunk, b);
        assert(second.1 =~= st.buffer + st.chunk);
        assert(st.records + second.0 =~= st.records);
    } else {
        lemma_split_equiv(st, b);
        assert(st.buffer + st.chunk + Seq::<u8>::empty() =~= st.buffer + st.chunk);
    }
}

/// Feeding batches one by one frames exactly as feeding their concatenation, when no batch
/// begins with the newline that ends a record begun before it.
pub proof fn lemma_batches_frame_as_one(buffer: Seq<u8>, batches: Seq<Seq<u8>>)
    requires
        forall|k: int|
            0 <= k < batches.len() ==> batch_ok(buffer, concat_pieces(batches.take(k)), #[trigger] batches[k]),
    ensures
        frame_batches(buffer, batches) == frame_batch(buffer, concat_pieces(batches)),
    decreases batches.len(),
{
    if batches.len() == 0 {
        assert(buffer + Seq::<u8>::empty() =~= buffer);
    } else {
        let prefix = batches.drop_last();
        assert forall|k: int| 0 <= k < prefix.len() implies batch_ok(buffer, concat_pieces(prefix.take(k)), #[trigger] prefix[k]) by {
            assert(prefix.take(k) =~= batches.take(k));
            assert(prefix[k] == batches[k]);
        }
        lemma_batches_frame_as_one(buffer, prefix);
        let n = batches.len() - 1;
        assert(batches.take(n) =~= prefix);
        assert(batch_ok(buffer, concat_pieces(batches.take(n)), batches[n]));
        lemma_batch_compose(buffer, concat_pieces(prefix), batches.last());
    }
}

/// Heartbeats are transparent across batches: real records and lone newlines, cut into
/// batches of which none begins with a record's closing newline, framed one batch after
/// another from an empty buffer, yield exactly the records, in order, with nothing pending.
pub proof fn lemma_heartbeats_transparent_in_batches(pieces: Seq<Seq<u8>>, batches: Seq<Seq<u8>>)
    requires
        forall|k: int| 0 <= k < pieces.len() ==> is_record(#[trigger] pieces[k]) || is_heartbeat(pieces[k]),
        concat_pieces(batches) == concat_pieces(pieces),
        forall|k: int|
            0 <= k < batches.len() ==> batch_ok(Seq::empty(), concat_pieces(batches.take(k)), #[trigger] batches[k]),
    ensures
        frame_batches(Seq::empty(), batches).0 == records_of(pieces),
        frame_batches(Seq::empty(), batches).1.len() == 0,
{
    lemma_batches_frame_as_one(Seq::empty(), batches);
    lemma_heartbeats_transparent(pieces);
}

/// The update job a company-stream record asks for: one when it carries both its data and
/// its event.
pub fn company_update(response: CompanyStreamingResponse) -> (r: Option<StreamingUpdateJob>)
    ensures
        r is Some <==> (response.data is Some && response.event is Some),
        r matches Some(j) ==> j.event == response.event->0 && j.kind == UpdateKind::Company(response.data->0),
{
    match (response.data, response.event) {
        (Some(data), Some(event)) => Some(StreamingUpdateJob { event, kind: UpdateKind::Company(data) }),
        _ => None,
    }
}

/// The update job an officer-stream record asks for: one when it carries both its data and
/// its event.
pub fn officer_update(response: OfficerStreamingResponse) -> (r: Option<StreamingUpdateJob>)
    ensures
        r is Some <==> (response.data is Some && response.event is Some),
        r matches Some(j) ==> j.event == response.event->0 && j.kind == UpdateKind::Officer(response.data->0),
{
    match (response.data, response.event) {
        (Some(data), Some(event)) => Some(StreamingUpdateJob { event, kind: UpdateKind::Officer(data) }),
        _ => None,
    }
}

/// The update job a shareholder-stream record asks for: one when it carries both its data
/// and its event.
pub fn shareholder_update(response: ShareholderStreamingResponse) -> (r: Option<StreamingUpdateJob>)
    ensures
        r is Some <==> (response.data is Some && response.event is Some),
        r matches Some(j) ==> j.event == response.event->0 && j.kind == UpdateKind::Shareholder,
{
    match (response.data, response.event) {
        (Some(_), Some(event)) => Some(StreamingUpdateJob { event, kind: UpdateKind::Shareholder }),
        _ => None,
    }
}

/// Enqueues an update job on the stream's producer; update jobs belong to no check.
pub fn enqueue_update(producer: &mut Producer, store: &mut Store, update: StreamingUpdateJob, now: i64) -> (r: Enqueued)
    requires
        old(store).wf(),
    ensures
        final(store).wf(),
        r matches Enqueued::Produced(id) && enqueued_job(
            *old(store),
            *final(store),
            old(producer).outbox@,
            final(producer).outbox@,
            None,
            JobKind::StreamingUpdateJob(update),
            now,
            id,
        ),
{
    producer.enqueue_job(store, None, JobKind::StreamingUpdateJob(update), now)
}

} // verus!
