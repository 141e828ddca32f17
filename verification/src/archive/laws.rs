//! What holds of writer and reader together.

use crate::archive::error::ArchiveError;
use crate::archive::frame::{
    frame_at,
    lemma_info_round_trip,
    sealed_len,
    ChunkType,
    INFO_FRAME_BYTES,
};
use crate::archive::object::InfoView;
use crate::archive::reader::{
    after_step,
    request_of,
    step_of,
    ObjectReader,
    ObjectState,
    ReaderState,
    RequestView,
    StepView,
};
use crate::archive::volume::{byte_count_after, closed_volumes, must_rotate, VOLUME_END_BYTES};
use crate::archive::writer::{
    after_chunk,
    apply,
    bare,
    chunk_failure,
    chunk_plan,
    succeeds,
    ArchiveWriter,
    WriterOp,
    WriterState,
};
use crate::sodium::secretstream::{SecretStream, StreamState, HEADER_BYTES};
use vstd::prelude::*;

verus! {

/// What a reader in the state `r` makes of the two records of one chunk, and
/// the state in which they leave it.
pub open spec fn read_frame(r: ReaderState, info: Seq<u8>, payload: Seq<u8>) -> (
    ReaderState,
    Result<StepView, ArchiveError>,
) {
    let mid = after_step(r, Some(info));
    match step_of(r, Some(info)) {
        Err(e) => (mid, Err(e)),
        Ok(_) => (after_step(mid, Some(payload)), step_of(mid, Some(payload))),
    }
}

/// What the chunk of kind `kind` with the payload `payload` means to a
/// reader.
pub open spec fn meaning(kind: ChunkType, payload: Seq<u8>) -> StepView {
    if kind == ChunkType::VolumeEnd {
        StepView::VolumeEnd
    } else {
        StepView::Chunk(kind, payload)
    }
}

/// The state `r` of a reader, `messages` positions further in its stream.
pub open spec fn advanced(r: ReaderState, messages: nat) -> ReaderState {
    ReaderState { stream: StreamState { counter: r.stream.counter + messages, ..r.stream }, ..r }
}

/// Whether the reader in the state `r` is ready for the chunk that a writer
/// plans at the position `position` of the stream with the public header
/// `header`.
pub open spec fn in_step(r: ReaderState, header: Seq<u8>, position: nat) -> bool {
    &&& r.failure is None
    &&& r.pending is None
    &&& r.stream.header == header
    &&& r.stream.counter == position
}

/// A reader asks for the records of a planned chunk under the nonces under
/// which the plan has them sealed, with the lengths that sealing gives them,
/// and it finds in them the kind and the payload of the chunk. Afterwards it
/// is ready for the chunk that the writer plans next.
pub proof fn lemma_reader_accepts_frame(r: ReaderState, kind: ChunkType, payload: Seq<u8>)
    requires
        r.failure is None,
        r.pending is None,
        r.stream.counter + 2 <= u64::MAX,
        sealed_len(payload.len() as int) <= u32::MAX,
        kind == ChunkType::VolumeEnd ==> payload.len() == 0,
    ensures
        ({
            let frame = frame_at(r.stream.header, r.stream.counter, kind, payload.len() as int);
            &&& request_of(r) == Ok::<RequestView, ArchiveError>(
                RequestView { len: INFO_FRAME_BYTES as nat, nonce: frame.info_nonce },
            )
            &&& request_of(after_step(r, Some(frame.info))) == Ok::<RequestView, ArchiveError>(
                RequestView {
                    len: sealed_len(payload.len() as int) as nat,
                    nonce: frame.payload_nonce,
                },
            )
            &&& read_frame(r, frame.info, payload) == (
                advanced(r, 2),
                Ok::<StepView, ArchiveError>(meaning(kind, payload)),
            )
        }),
{
    lemma_info_round_trip(kind, payload.len());
}

/// What a reader makes of everything that a plan has written: the end of the
/// volume, where the plan has one, and then the chunk itself.
pub open spec fn read_plan(
    r: ReaderState,
    w: WriterState,
    kind: ChunkType,
    payload: Seq<u8>,
) -> (ReaderState, Result<StepView, ArchiveError>) {
    let plan = chunk_plan(w, kind, payload.len() as int);
    match plan.volume_end {
        None => read_frame(r, plan.frame.info, payload),
        Some(end) => {
            let (mid, first) = read_frame(r, end.frame.info, Seq::empty());
            if first == Ok::<StepView, ArchiveError>(StepView::VolumeEnd) {
                read_frame(mid, plan.frame.info, payload)
            } else {
                (mid, first)
            }
        },
    }
}

/// A reader that is in step with a writer finds in what the writer plans for
/// a chunk the kind and the payload of that chunk, after the end of the volume
/// where the plan has one, and is in step with the writer again afterwards.
pub proof fn lemma_reader_follows_writer(
    r: ReaderState,
    w: WriterState,
    kind: ChunkType,
    payload: Seq<u8>,
)
    requires
        in_step(r, w.stream.header, w.stream.counter),
        chunk_failure(w, payload.len() as int) is None,
        kind != ChunkType::VolumeEnd,
    ensures
        read_plan(r, w, kind, payload).1 == Ok::<StepView, ArchiveError>(
            StepView::Chunk(kind, payload),
        ),
        in_step(
            read_plan(r, w, kind, payload).0,
            w.stream.header,
            after_chunk(w, payload.len() as int).stream.counter,
        ),
{
    let plan = chunk_plan(w, kind, payload.len() as int);
    match plan.volume_end {
        None => {
            lemma_reader_accepts_frame(r, kind, payload);
        },
        Some(end) => {
            lemma_reader_accepts_frame(r, ChunkType::VolumeEnd, Seq::empty());
            let mid = advanced(r, 2);
            lemma_reader_accepts_frame(mid, kind, payload);
            assert(advanced(mid, 2) == advanced(r, 4));
        },
    }
}

/// Once a record has failed to authenticate, the reader reports the failure
/// for whatever it is handed, asks for nothing, and stays as it is.
pub proof fn lemma_failure_is_final(r: ReaderState, later: Option<Seq<u8>>)
    requires
        r.failure is None,
        r.stream.counter < u64::MAX,
    ensures
        step_of(r, None) == Err::<StepView, ArchiveError>(ArchiveError::Auth),
        step_of(after_step(r, None), later) == Err::<StepView, ArchiveError>(ArchiveError::Auth),
        request_of(after_step(r, None)) == Err::<RequestView, ArchiveError>(ArchiveError::Auth),
        after_step(after_step(r, None), later) == after_step(r, None),
{
}

/// A record that is opened at another position of the stream than the one it
/// was sealed at is opened under another nonce than it was sealed under: the
/// reader asks for the nonce of its own position.
pub proof fn lemma_order_is_bound(r: ReaderState, sealed_at: nat)
    requires
        r.failure is None,
        r.stream.header.len() == HEADER_BYTES,
        r.stream.counter < u64::MAX,
        sealed_at <= u64::MAX,
        sealed_at != r.stream.counter,
    ensures
        request_of(r) is Ok,
        request_of(r)->Ok_0.nonce != crate::sodium::secretstream::nonce_at(
            r.stream.header,
            sealed_at,
        ),
{
    if sealed_at < r.stream.counter {
        SecretStream::lemma_nonces_differ(r.stream.header, sealed_at, r.stream.counter);
    } else {
        SecretStream::lemma_nonces_differ(r.stream.header, r.stream.counter, sealed_at);
    }
}

/// Ending an archive a second time plans nothing and changes nothing.
pub proof fn lemma_end_is_idempotent(w: WriterState, first_len: int, second_len: int)
    requires
        ArchiveWriter::end_result(w, first_len) is Ok,
    ensures
        ArchiveWriter::after_end(w, first_len).ended,
        ArchiveWriter::end_result(ArchiveWriter::after_end(w, first_len), second_len) == Ok::<
            Option<crate::archive::writer::PlanView>,
            ArchiveError,
        >(None),
        ArchiveWriter::after_end(ArchiveWriter::after_end(w, first_len), second_len)
            == ArchiveWriter::after_end(w, first_len),
{
}

/// The kinds of the chunks that the step `op` writes in the state `w`, the
/// chunks that end volumes left out.
pub open spec fn chunks_of(w: WriterState, op: WriterOp) -> Seq<ChunkType> {
    if !succeeds(w, op) {
        Seq::empty()
    } else {
        match op {
            WriterOp::Object(info, len) => seq![ChunkType::Header],
            WriterOp::Data(plain, packed) => if packed == 0 {
                Seq::empty()
            } else {
                seq![ChunkType::Data]
            },
            WriterOp::Tail(len) => seq![ChunkType::Data],
            WriterOp::Close(digest, len) => seq![ChunkType::Epilogue],
            WriterOp::End(len) => if w.ended {
                Seq::empty()
            } else {
                seq![ChunkType::End]
            },
        }
    }
}

/// The descriptor that the step `op` completes in the state `w`, if it
/// completes one: a directory with its header, a file with its epilogue.
pub open spec fn completes(w: WriterState, op: WriterOp) -> Seq<InfoView> {
    if !succeeds(w, op) {
        Seq::empty()
    } else {
        match op {
            WriterOp::Object(info, len) => if info.object_type
                == crate::archive::object::ObjectType::Directory {
                seq![bare(info)]
            } else {
                Seq::empty()
            },
            WriterOp::Close(digest, len) => seq![
                InfoView {
                    epilogue: Some(
                        crate::archive::object::EpilogueView {
                            size: w.size as u64,
                            hash: crate::sodium::hex(digest),
                        },
                    ),
                    ..w.current->Some_0
                },
            ],
            _ => Seq::empty(),
        }
    }
}

/// The state of a writer after the steps `ops`, taken in order from the state
/// `w`.
pub open spec fn run(w: WriterState, ops: Seq<WriterOp>) -> WriterState
    decreases ops.len(),
{
    if ops.len() == 0 {
        w
    } else {
        apply(run(w, ops.drop_last()), ops.last())
    }
}

/// The kinds of the chunks that the steps `ops` write, in order.
pub open spec fn chunks(w: WriterState, ops: Seq<WriterOp>) -> Seq<ChunkType>
    decreases ops.len(),
{
    if ops.len() == 0 {
        Seq::empty()
    } else {
        chunks(w, ops.drop_last()) + chunks_of(run(w, ops.drop_last()), ops.last())
    }
}

/// The descriptors that the steps `ops` complete, in order.
pub open spec fn completed(w: WriterState, ops: Seq<WriterOp>) -> Seq<InfoView>
    decreases ops.len(),
{
    if ops.len() == 0 {
        Seq::empty()
    } else {
        completed(w, ops.drop_last()) + completes(run(w, ops.drop_last()), ops.last())
    }
}

/// The number of chunks of the kind `kind` among `kinds`.
pub open spec fn count(kinds: Seq<ChunkType>, kind: ChunkType) -> nat
    decreases kinds.len(),
{
    if kinds.len() == 0 {
        0
    } else {
        count(kinds.drop_last(), kind) + if kinds.last() == kind {
            1nat
        } else {
            0nat
        }
    }
}

/// The objects of a writer are, in order, those that it had at the start and
/// those that its steps have completed since: what the manifest lists is what
/// was written.
pub proof fn lemma_manifest_is_complete(w: WriterState, ops: Seq<WriterOp>)
    ensures
        run(w, ops).objects == w.objects + completed(w, ops),
    decreases ops.len(),
{
    if ops.len() == 0 {
        assert(w.objects + Seq::<InfoView>::empty() =~= w.objects);
    } else {
        let before = run(w, ops.drop_last());
        lemma_manifest_is_complete(w, ops.drop_last());
        let op = ops.last();
        assert(apply(before, op).objects =~= before.objects + completes(before, op));
        assert(run(w, ops).objects =~= w.objects + completed(w, ops));
    }
}

/// Whatever steps a writer takes from its start, it writes the manifest at
/// most once, nothing after it, and exactly once where it has ended.
pub proof fn lemma_manifest_is_last(w: WriterState, ops: Seq<WriterOp>)
    requires
        !w.ended,
        w.current is None,
    ensures
        count(chunks(w, ops), ChunkType::End) == if run(w, ops).ended {
            1nat
        } else {
            0nat
        },
        run(w, ops).ended ==> chunks(w, ops).last() == ChunkType::End && run(w, ops).current
            is None,
    decreases ops.len(),
{
    if ops.len() == 0 {
    } else {
        let before = run(w, ops.drop_last());
        lemma_manifest_is_last(w, ops.drop_last());
        let op = ops.last();
        let earlier = chunks(w, ops.drop_last());
        let now = chunks_of(before, op);
        lemma_count_sum(earlier, now, ChunkType::End);
        if now.len() == 0 {
            assert(earlier + now =~= earlier);
        } else {
            assert(now.len() == 1);
            assert((earlier + now).last() == now[0]);
            assert(now.drop_last() =~= Seq::<ChunkType>::empty());
            assert(count(now.drop_last(), ChunkType::End) == 0);
        }
    }
}

/// Where a stream of chunks stands between its objects.
pub enum Place {
    /// Before the first object or behind the epilogue of a file.
    Between,
    /// Behind the header of an object.
    Opened,
    /// Behind content of a file.
    Inside,
    /// Behind the manifest.
    Closed,
}

/// Where a stream of chunks stands behind a chunk of the kind `kind` that
/// comes at the place `place`, if such a chunk may come there: a header may
/// follow an epilogue or another header, content a header or other content,
/// an epilogue a header or content, the manifest an epilogue or a header, and
/// nothing the manifest.
pub open spec fn place_after(place: Place, kind: ChunkType) -> Option<Place> {
    match (place, kind) {
        (Place::Between, ChunkType::Header) => Some(Place::Opened),
        (Place::Between, ChunkType::End) => Some(Place::Closed),
        (Place::Opened, ChunkType::Header) => Some(Place::Opened),
        (Place::Opened, ChunkType::Data) => Some(Place::Inside),
        (Place::Opened, ChunkType::Epilogue) => Some(Place::Between),
        (Place::Opened, ChunkType::End) => Some(Place::Closed),
        (Place::Inside, ChunkType::Data) => Some(Place::Inside),
        (Place::Inside, ChunkType::Epilogue) => Some(Place::Between),
        _ => None,
    }
}

/// Where a stream that holds the chunks of the kinds `kinds` stands, if every
/// one of them comes where it may come.
pub open spec fn place_of(kinds: Seq<ChunkType>) -> Option<Place>
    decreases kinds.len(),
{
    if kinds.len() == 0 {
        Some(Place::Between)
    } else {
        match place_of(kinds.drop_last()) {
            Some(place) => place_after(place, kinds.last()),
            None => None,
        }
    }
}

/// Whatever steps a writer takes from its start, every chunk that it writes
/// comes where it may come: the header of a file is followed by its content,
/// if it has any, and by exactly one epilogue; the header of a directory by
/// the next header or by the manifest; and the manifest by nothing.
pub proof fn lemma_chunks_are_in_order(w: WriterState, ops: Seq<WriterOp>)
    requires
        !w.ended,
        w.current is None,
    ensures
        place_of(chunks(w, ops)) is Some,
        run(w, ops).ended <==> place_of(chunks(w, ops)) == Some(Place::Closed),
        run(w, ops).current is Some ==> place_of(chunks(w, ops)) == Some(Place::Opened)
            || place_of(chunks(w, ops)) == Some(Place::Inside),
        run(w, ops).current is None && !run(w, ops).ended ==> place_of(chunks(w, ops)) == Some(
            Place::Between,
        ) || place_of(chunks(w, ops)) == Some(Place::Opened),
        run(w, ops).ended ==> run(w, ops).current is None,
    decreases ops.len(),
{
    if ops.len() > 0 {
        let before = run(w, ops.drop_last());
        lemma_chunks_are_in_order(w, ops.drop_last());
        let op = ops.last();
        let earlier = chunks(w, ops.drop_last());
        let now = chunks_of(before, op);
        if now.len() == 0 {
            assert(earlier + now =~= earlier);
        } else {
            assert(now.len() == 1);
            assert((earlier + now).drop_last() =~= earlier);
            assert((earlier + now).last() == now[0]);
        }
    }
}

/// The chunks of a kind in two runs of chunks add up.
proof fn lemma_count_sum(a: Seq<ChunkType>, b: Seq<ChunkType>, kind: ChunkType)
    ensures
        count(a + b, kind) == count(a, kind) + count(b, kind),
    decreases b.len(),
{
    if b.len() == 0 {
        assert(a + b =~= a);
    } else {
        lemma_count_sum(a, b.drop_last(), kind);
        assert((a + b).drop_last() =~= a + b.drop_last());
        assert((a + b).last() == b.last());
    }
}

/// The lengths of the payloads of the chunks that the step `op` writes in
/// the state `w`.
pub open spec fn payloads_of(w: WriterState, op: WriterOp) -> Seq<nat> {
    if !succeeds(w, op) {
        Seq::empty()
    } else {
        match op {
            WriterOp::Object(info, len) => seq![len],
            WriterOp::Data(plain, packed) => if packed == 0 {
                Seq::empty()
            } else {
                seq![packed]
            },
            WriterOp::Tail(len) => seq![len],
            WriterOp::Close(digest, len) => seq![len],
            WriterOp::End(len) => if w.ended {
                Seq::empty()
            } else {
                seq![len]
            },
        }
    }
}

/// The lengths of the payloads of the chunks that the steps `ops` write, in
/// order.
pub open spec fn payloads(w: WriterState, ops: Seq<WriterOp>) -> Seq<nat>
    decreases ops.len(),
{
    if ops.len() == 0 {
        Seq::empty()
    } else {
        payloads(w, ops.drop_last()) + payloads_of(run(w, ops.drop_last()), ops.last())
    }
}

/// The size on disk of the volume that the step `op` closes in the state `w`,
/// if it closes one: the bytes that are in the volume, and the chunk that
/// ends it.
pub open spec fn closes(w: WriterState, op: WriterOp) -> Seq<int> {
    if payloads_of(w, op).len() > 0 && must_rotate(
        w.volume_size,
        w.byte_count as int,
        payloads_of(w, op)[0] as int,
    ) {
        seq![w.byte_count + VOLUME_END_BYTES]
    } else {
        Seq::empty()
    }
}

/// The sizes on disk of the volumes that the steps `ops` close, in order.
pub open spec fn closed(w: WriterState, ops: Seq<WriterOp>) -> Seq<int>
    decreases ops.len(),
{
    if ops.len() == 0 {
        Seq::empty()
    } else {
        closed(w, ops.drop_last()) + closes(run(w, ops.drop_last()), ops.last())
    }
}

/// The number of bytes in the current volume after chunks whose payloads have
/// the lengths `lens` have been written, starting with `byte_count` bytes.
pub open spec fn last_volume(volume_size: Option<u64>, byte_count: int, lens: Seq<nat>) -> int
    decreases lens.len(),
{
    if lens.len() == 0 {
        byte_count
    } else {
        byte_count_after(
            volume_size,
            last_volume(volume_size, byte_count, lens.drop_last()),
            lens.last() as int,
        )
    }
}

/// The volumes that are closed while some chunks and then some more are
/// written are those that the first close, and then those that the others
/// close from where the first have left the current volume.
proof fn lemma_closed_volumes_append(limit: u64, byte_count: int, a: Seq<nat>, b: Seq<nat>)
    ensures
        closed_volumes(limit, byte_count, a + b) == closed_volumes(limit, byte_count, a)
            + closed_volumes(limit, last_volume(Some(limit), byte_count, a), b),
    decreases a.len(),
{
    if a.len() == 0 {
        assert(a + b =~= b);
        assert(closed_volumes(limit, byte_count, a) =~= Seq::<int>::empty());
        assert(Seq::<int>::empty() + closed_volumes(limit, byte_count, b) =~= closed_volumes(
            limit,
            byte_count,
            b,
        ));
    } else {
        let next = byte_count_after(Some(limit), byte_count, a[0] as int);
        lemma_closed_volumes_append(limit, next, a.drop_first(), b);
        lemma_last_volume_front(Some(limit), byte_count, a);
        assert((a + b).drop_first() =~= a.drop_first() + b);
        assert((a + b)[0] == a[0]);
        let tail = closed_volumes(limit, last_volume(Some(limit), byte_count, a), b);
        if must_rotate(Some(limit), byte_count, a[0] as int) {
            let head = seq![byte_count + VOLUME_END_BYTES];
            let mid = closed_volumes(limit, next, a.drop_first());
            assert(head + (mid + tail) =~= (head + mid) + tail);
        }
    }
}

/// The bytes in the current volume can be counted from the first chunk on as
/// well as from the last.
proof fn lemma_last_volume_front(volume_size: Option<u64>, byte_count: int, lens: Seq<nat>)
    requires
        lens.len() > 0,
    ensures
        last_volume(volume_size, byte_count, lens) == last_volume(
            volume_size,
            byte_count_after(volume_size, byte_count, lens[0] as int),
            lens.drop_first(),
        ),
    decreases lens.len(),
{
    if lens.len() == 1 {
        assert(lens.drop_last() =~= Seq::<nat>::empty());
        assert(lens.drop_first() =~= Seq::<nat>::empty());
        assert(last_volume(volume_size, byte_count, lens.drop_last()) == byte_count);
        assert(lens.last() == lens[0]);
    } else {
        lemma_last_volume_front(volume_size, byte_count, lens.drop_last());
        assert(lens.drop_last().drop_first() =~= lens.drop_first().drop_last());
        assert(lens.drop_last()[0] == lens[0]);
        assert(lens.drop_first().last() == lens.last());
    }
}

/// What one step of a writer that splits its archive does to the volumes is
/// what the rule of rotation says for the chunk of that step.
proof fn lemma_step_volumes(w: WriterState, op: WriterOp, limit: u64)
    requires
        w.volume_size == Some(limit),
    ensures
        apply(w, op).volume_size == Some(limit),
        payloads_of(w, op).len() <= 1,
        apply(w, op).byte_count == last_volume(
            Some(limit),
            w.byte_count as int,
            payloads_of(w, op),
        ),
        closes(w, op) == closed_volumes(limit, w.byte_count as int, payloads_of(w, op)),
{
    let now = payloads_of(w, op);
    if now.len() == 0 {
        assert(closed_volumes(limit, w.byte_count as int, now) =~= Seq::<int>::empty());
    } else {
        assert(now.drop_last() =~= Seq::<nat>::empty());
        assert(now.drop_first() =~= Seq::<nat>::empty());
        assert(last_volume(Some(limit), w.byte_count as int, now.drop_last()) == w.byte_count);
        let next = byte_count_after(Some(limit), w.byte_count as int, now[0] as int);
        assert(closed_volumes(limit, next, now.drop_first()) =~= Seq::<int>::empty());
        assert(closed_volumes(limit, w.byte_count as int, now) =~= closes(w, op));
    }
}

/// A writer that splits its archive closes, over any steps, exactly the
/// volumes that the chunks of those steps fill by the rule of rotation, and
/// it counts the bytes in its current volume by that rule.
pub proof fn lemma_writer_volumes(w: WriterState, ops: Seq<WriterOp>, limit: u64)
    requires
        w.volume_size == Some(limit),
    ensures
        run(w, ops).volume_size == Some(limit),
        run(w, ops).byte_count == last_volume(Some(limit), w.byte_count as int, payloads(w, ops)),
        closed(w, ops) == closed_volumes(limit, w.byte_count as int, payloads(w, ops)),
    decreases ops.len(),
{
    if ops.len() == 0 {
        assert(closed_volumes(limit, w.byte_count as int, payloads(w, ops)) =~= Seq::<
            int,
        >::empty());
    } else {
        let before = run(w, ops.drop_last());
        let op = ops.last();
        lemma_writer_volumes(w, ops.drop_last(), limit);
        lemma_step_volumes(before, op, limit);
        let earlier = payloads(w, ops.drop_last());
        let now = payloads_of(before, op);
        lemma_closed_volumes_append(limit, w.byte_count as int, earlier, now);
        if now.len() == 0 {
            assert(earlier + now =~= earlier);
        } else {
            assert((earlier + now).drop_last() =~= earlier);
            assert((earlier + now).last() == now[0]);
            assert(now.drop_last() =~= Seq::<nat>::empty());
            assert(last_volume(Some(limit), before.byte_count as int, now.drop_last())
                == before.byte_count);
        }
    }
}

/// No volume that a writer closes is larger than the configured size,
/// provided that the prefix of the first volume leaves room for the chunk that
/// ends the volume, and that every chunk but the last fits into a volume
/// together with the chunk that ends the volume.
pub proof fn lemma_writer_keeps_budget(w: WriterState, ops: Seq<WriterOp>, limit: u64)
    requires
        w.volume_size == Some(limit),
        payloads(w, ops).len() > 0 ==> w.byte_count + VOLUME_END_BYTES <= limit,
        forall|i: int|
            0 <= i < payloads(w, ops).len() - 1 ==> crate::archive::frame::chunk_bytes(
                #[trigger] payloads(w, ops)[i] as int,
            ) + VOLUME_END_BYTES <= limit,
    ensures
        forall|k: int| 0 <= k < closed(w, ops).len() ==> #[trigger] closed(w, ops)[k] <= limit,
{
    lemma_writer_volumes(w, ops, limit);
    crate::archive::volume::lemma_volume_budget(limit, w.byte_count as int, payloads(w, ops));
}

/// Two streams whose public headers differ in their first sixteen bytes share
/// no nonce: what one has sealed, the other opens under another nonce at
/// every position.
pub proof fn lemma_streams_share_no_nonce(a: Seq<u8>, b: Seq<u8>, i: nat, j: nat)
    requires
        a.len() == HEADER_BYTES,
        b.len() == HEADER_BYTES,
        a.take(16) != b.take(16),
    ensures
        crate::sodium::secretstream::nonce_at(a, i) != crate::sodium::secretstream::nonce_at(b, j),
{
    let x = crate::sodium::secretstream::nonce_at(a, i);
    let y = crate::sodium::secretstream::nonce_at(b, j);
    if x == y {
        assert(x.take(16) =~= a.take(16));
        assert(y.take(16) =~= b.take(16));
    }
}

/// One call of a consumer of the content of an object.
pub enum ContentOp {
    /// `read` into room for so many bytes.
    Read(nat),
    /// `supply` into room for so many bytes with this content, or with
    /// nothing at the epilogue.
    Supply(nat, Option<Seq<u8>>),
}

/// The bytes that the call `op` hands out from the state `o`.
pub open spec fn hands_out(o: ObjectState, op: ContentOp) -> Seq<u8> {
    match op {
        ContentOp::Read(room) => o.carry.take(
            ObjectReader::handed_out(ObjectReader::read_step(o, room as int)),
        ),
        ContentOp::Supply(room, data) => ObjectReader::at_hand(o, data).take(
            ObjectReader::handed_out(ObjectReader::supply_step(o, room as int, data)),
        ),
    }
}

/// The state of the reader of an object after the call `op` in the state `o`.
pub open spec fn after_content(o: ObjectState, op: ContentOp) -> ObjectState {
    match op {
        ContentOp::Read(room) => ObjectState {
            carry: o.carry.skip(ObjectReader::handed_out(ObjectReader::read_step(o, room as int))),
            ..o
        },
        ContentOp::Supply(room, data) => ObjectState {
            carry: ObjectReader::at_hand(o, data).skip(
                ObjectReader::handed_out(ObjectReader::supply_step(o, room as int, data)),
            ),
            ..o
        },
    }
}

/// The content that the call `op` takes in.
pub open spec fn takes_in(op: ContentOp) -> Seq<u8> {
    match op {
        ContentOp::Supply(room, Some(data)) => data,
        _ => Seq::empty(),
    }
}

/// The state of the reader of an object after the calls `ops`, in order.
pub open spec fn content_state(o: ObjectState, ops: Seq<ContentOp>) -> ObjectState
    decreases ops.len(),
{
    if ops.len() == 0 {
        o
    } else {
        after_content(content_state(o, ops.drop_last()), ops.last())
    }
}

/// All bytes that the calls `ops` hand out, in order.
pub open spec fn handed_out(o: ObjectState, ops: Seq<ContentOp>) -> Seq<u8>
    decreases ops.len(),
{
    if ops.len() == 0 {
        Seq::empty()
    } else {
        handed_out(o, ops.drop_last()) + hands_out(content_state(o, ops.drop_last()), ops.last())
    }
}

/// All content that the calls `ops` take in, in order.
pub open spec fn taken_in(ops: Seq<ContentOp>) -> Seq<u8>
    decreases ops.len(),
{
    if ops.len() == 0 {
        Seq::empty()
    } else {
        taken_in(ops.drop_last()) + takes_in(ops.last())
    }
}

/// One call hands out and carries over, together, what was carried over
/// before followed by what the call takes in.
proof fn lemma_content_step(o: ObjectState, op: ContentOp)
    ensures
        hands_out(o, op) + after_content(o, op).carry == o.carry + takes_in(op),
{
    match op {
        ContentOp::Read(room) => {
            let n = ObjectReader::handed_out(ObjectReader::read_step(o, room as int));
            assert(o.carry.take(n) + o.carry.skip(n) =~= o.carry);
            assert(o.carry + Seq::<u8>::empty() =~= o.carry);
        },
        ContentOp::Supply(room, data) => {
            let here = ObjectReader::at_hand(o, data);
            let n = ObjectReader::handed_out(ObjectReader::supply_step(o, room as int, data));
            assert(here.take(n) + here.skip(n) =~= here);
            assert(here =~= o.carry + takes_in(op));
        },
    }
}

/// Whatever a consumer calls and with whatever room: the bytes that it has
/// been handed, followed by those that are carried over, are the bytes that
/// were carried over at the start followed by the content that was taken in.
/// No byte is lost, repeated, or moved.
pub proof fn lemma_content_is_kept(o: ObjectState, ops: Seq<ContentOp>)
    ensures
        handed_out(o, ops) + content_state(o, ops).carry == o.carry + taken_in(ops),
    decreases ops.len(),
{
    if ops.len() == 0 {
        assert(Seq::<u8>::empty() + o.carry =~= o.carry + Seq::<u8>::empty());
    } else {
        lemma_content_is_kept(o, ops.drop_last());
        let before = content_state(o, ops.drop_last());
        let op = ops.last();
        lemma_content_step(before, op);
        let out = handed_out(o, ops.drop_last());
        let a = hands_out(before, op);
        let b = after_content(before, op).carry;
        let c = takes_in(op);
        assert((out + a) + b =~= out + (a + b));
        assert(out + (before.carry + c) =~= (out + before.carry) + c);
        assert((o.carry + taken_in(ops.drop_last())) + c =~= o.carry + (taken_in(
            ops.drop_last(),
        ) + c));
    }
}

} // verus!
