//! The archive on disk: the bytes that the plans of a writer come to once
//! they are sealed, and what a reader makes of those bytes.
//!
//! Sealing and opening are not done here. What is shown holds for every pair
//! of functions that seals and opens as the format asks of them.

use crate::archive::error::ArchiveError;
use crate::archive::frame::{chunk_bytes, frame_at, sealed_len, ChunkType, FrameView, INFO_FRAME_BYTES};
use crate::archive::laws::{
    advanced,
    in_step,
    lemma_reader_accepts_frame,
    lemma_streams_share_no_nonce,
    meaning,
};
use crate::archive::reader::{after_step, failed, request_of, step_of, ReaderState, StepView};
use crate::archive::volume::{
    byte_count_after,
    closed_volumes,
    lemma_volume_budget,
    VOLUME_END_BYTES,
};
use crate::archive::writer::{after_chunk, chunk_failure, chunk_plan, WriterState};
use crate::endian::lemma_be32_round_trip;
use crate::sodium::secretstream::{nonce_at, SecretStream, StreamState, ADDITIONAL_BYTES, HEADER_BYTES};
use vstd::prelude::*;

verus! {

/// What a pair of functions must do to stand for sealing and opening: a
/// sealed message is longer than the message by what sealing adds, and it
/// opens to the message under the key and the nonce that it was sealed under.
/// The two functions take the key, the nonce, and the message.
pub open spec fn seals(
    seal: spec_fn(Seq<u8>, Seq<u8>, Seq<u8>) -> Seq<u8>,
    open: spec_fn(Seq<u8>, Seq<u8>, Seq<u8>) -> Option<Seq<u8>>,
) -> bool {
    forall|key: Seq<u8>, nonce: Seq<u8>, message: Seq<u8>|
        (#[trigger] seal(key, nonce, message)).len() == message.len()
            + ADDITIONAL_BYTES && open(
            key,
            nonce,
            seal(key, nonce, message),
        ) == Some(message)
}

/// The bytes of a planned chunk on disk: the sealed info record and the
/// sealed payload record.
pub open spec fn on_disk(
    seal: spec_fn(Seq<u8>, Seq<u8>, Seq<u8>) -> Seq<u8>,
    key: Seq<u8>,
    frame: FrameView,
    payload: Seq<u8>,
) -> Seq<u8> {
    seal(key, frame.info_nonce, frame.info) + seal(key, frame.payload_nonce, payload)
}

/// What a reader in the state `r` makes of the record at the start of
/// `bytes`: the state in which it is left, what the record meant, and the
/// bytes behind the record. Bytes that end before the record does are a
/// truncation error, which stays with the reader.
pub open spec fn read_record(
    open: spec_fn(Seq<u8>, Seq<u8>, Seq<u8>) -> Option<Seq<u8>>,
    r: ReaderState,
    bytes: Seq<u8>,
) -> (ReaderState, Result<StepView, ArchiveError>, Seq<u8>) {
    match request_of(r) {
        Err(e) => (r, Err(e), bytes),
        Ok(request) => if bytes.len() < request.len {
            (
                failed(r, ArchiveError::Truncation),
                Err(ArchiveError::Truncation),
                bytes,
            )
        } else {
            let opened = open(r.stream.key, request.nonce, bytes.take(request.len as int));
            (after_step(r, opened), step_of(r, opened), bytes.skip(request.len as int))
        },
    }
}

/// What a reader in the state `r` makes of the chunk at the start of `bytes`:
/// of its info record and, where that is accepted, of its payload record.
pub open spec fn read_disk(
    open: spec_fn(Seq<u8>, Seq<u8>, Seq<u8>) -> Option<Seq<u8>>,
    r: ReaderState,
    bytes: Seq<u8>,
) -> (ReaderState, Result<StepView, ArchiveError>, Seq<u8>) {
    let first = read_record(open, r, bytes);
    if first.1 == Ok::<StepView, ArchiveError>(StepView::Payload) {
        read_record(open, first.0, first.2)
    } else {
        first
    }
}

/// Whatever seals and opens soundly: a reader finds in the bytes that a
/// planned chunk takes on disk the kind and the payload of the chunk, leaves
/// the bytes behind the chunk untouched, and is ready for the chunk that the
/// writer plans next.
pub proof fn lemma_disk_round_trip(
    seal: spec_fn(Seq<u8>, Seq<u8>, Seq<u8>) -> Seq<u8>,
    open: spec_fn(Seq<u8>, Seq<u8>, Seq<u8>) -> Option<Seq<u8>>,
    r: ReaderState,
    kind: ChunkType,
    payload: Seq<u8>,
    rest: Seq<u8>,
)
    requires
        seals(seal, open),
        r.failure is None,
        r.pending is None,
        r.stream.counter + 2 <= u64::MAX,
        sealed_len(payload.len() as int) <= u32::MAX,
        kind == ChunkType::VolumeEnd ==> payload.len() == 0,
    ensures
        read_disk(
            open,
            r,
            on_disk(
                seal,
                r.stream.key,
                frame_at(r.stream.header, r.stream.counter, kind, payload.len() as int),
                payload,
            ) + rest,
        ) == (advanced(r, 2), Ok::<StepView, ArchiveError>(meaning(kind, payload)), rest),
        on_disk(
            seal,
            r.stream.key,
            frame_at(r.stream.header, r.stream.counter, kind, payload.len() as int),
            payload,
        ).len() == chunk_bytes(payload.len() as int),
{
    let frame = frame_at(r.stream.header, r.stream.counter, kind, payload.len() as int);
    let key = r.stream.key;
    let a = seal(key, frame.info_nonce, frame.info);
    let b = seal(key, frame.payload_nonce, payload);
    let bytes = (a + b) + rest;
    lemma_reader_accepts_frame(r, kind, payload);
    lemma_be32_round_trip(sealed_len(payload.len() as int) as u32);
    assert(frame.info.len() == 5);
    assert(a.len() == INFO_FRAME_BYTES);
    assert(bytes.take(INFO_FRAME_BYTES as int) =~= a);
    assert(open(key, frame.info_nonce, a) == Some(frame.info));
    let mid = after_step(r, Some(frame.info));
    let behind = bytes.skip(INFO_FRAME_BYTES as int);
    assert(behind =~= b + rest);
    assert(read_record(open, r, bytes) == (
        mid,
        Ok::<StepView, ArchiveError>(StepView::Payload),
        behind,
    ));
    assert(b.len() == sealed_len(payload.len() as int));
    assert(behind.take(b.len() as int) =~= b);
    assert(behind.skip(b.len() as int) =~= rest);
    assert(open(key, frame.payload_nonce, b) == Some(payload));
}

/// Whatever opens: where the bytes of a record do not open, the reader
/// reports an authentication error, and it reports that error again for
/// whatever bytes follow.
pub proof fn lemma_disk_failure_is_final(
    open: spec_fn(Seq<u8>, Seq<u8>, Seq<u8>) -> Option<Seq<u8>>,
    r: ReaderState,
    bytes: Seq<u8>,
    later: Seq<u8>,
)
    requires
        r.failure is None,
        request_of(r) is Ok,
        bytes.len() >= request_of(r)->Ok_0.len,
        open(
            r.stream.key,
            request_of(r)->Ok_0.nonce,
            bytes.take(request_of(r)->Ok_0.len as int),
        ) is None,
    ensures
        read_disk(open, r, bytes).1 == Err::<StepView, ArchiveError>(ArchiveError::Auth),
        read_disk(open, read_disk(open, r, bytes).0, later).1 == Err::<StepView, ArchiveError>(
            ArchiveError::Auth,
        ),
{
}

/// Whether the sealed record `sealed` is bound to the key and the nonce that
/// it was sealed under: it opens under no other key and under no other nonce.
pub open spec fn bound(
    open: spec_fn(Seq<u8>, Seq<u8>, Seq<u8>) -> Option<Seq<u8>>,
    sealed: Seq<u8>,
    key: Seq<u8>,
    nonce: Seq<u8>,
) -> bool {
    forall|other_key: Seq<u8>, other_nonce: Seq<u8>|
        key != other_key || nonce != other_nonce ==> (#[trigger] open(
            other_key,
            other_nonce,
            sealed,
        )) is None
}

/// The sealed info record of the chunk that is planned as `frame`.
pub open spec fn sealed_info(
    seal: spec_fn(Seq<u8>, Seq<u8>, Seq<u8>) -> Seq<u8>,
    key: Seq<u8>,
    frame: FrameView,
) -> Seq<u8> {
    seal(key, frame.info_nonce, frame.info)
}

/// Whatever seals and opens soundly: where two chunks that follow one another
/// have changed places on disk, and the info record that now comes first is
/// bound to the nonce that it was sealed under, the reader reports an
/// authentication error for the first record that it reads there.
pub proof fn lemma_swapped_chunks_fail(
    seal: spec_fn(Seq<u8>, Seq<u8>, Seq<u8>) -> Seq<u8>,
    open: spec_fn(Seq<u8>, Seq<u8>, Seq<u8>) -> Option<Seq<u8>>,
    r: ReaderState,
    first: (ChunkType, Seq<u8>),
    second: (ChunkType, Seq<u8>),
    rest: Seq<u8>,
)
    requires
        seals(seal, open),
        bound(
            open,
            sealed_info(
                seal,
                r.stream.key,
                frame_at(
                    r.stream.header,
                    r.stream.counter + 2,
                    second.0,
                    second.1.len() as int,
                ),
            ),
            r.stream.key,
            nonce_at(r.stream.header, r.stream.counter + 2),
        ),
        r.failure is None,
        r.pending is None,
        r.stream.header.len() == HEADER_BYTES,
        r.stream.counter + 4 <= u64::MAX,
        sealed_len(first.1.len() as int) <= u32::MAX,
        sealed_len(second.1.len() as int) <= u32::MAX,
    ensures
        read_disk(
            open,
            r,
            on_disk(
                seal,
                r.stream.key,
                frame_at(
                    r.stream.header,
                    r.stream.counter + 2,
                    second.0,
                    second.1.len() as int,
                ),
                second.1,
            ) + on_disk(
                seal,
                r.stream.key,
                frame_at(r.stream.header, r.stream.counter, first.0, first.1.len() as int),
                first.1,
            ) + rest,
        ).1 == Err::<StepView, ArchiveError>(ArchiveError::Auth),
{
    let key = r.stream.key;
    let moved = frame_at(r.stream.header, r.stream.counter + 2, second.0, second.1.len() as int);
    let other = frame_at(r.stream.header, r.stream.counter, first.0, first.1.len() as int);
    let a = seal(key, moved.info_nonce, moved.info);
    let bytes = on_disk(seal, key, moved, second.1) + on_disk(seal, key, other, first.1) + rest;
    lemma_be32_round_trip(sealed_len(second.1.len() as int) as u32);
    assert(moved.info.len() == 5);
    assert(a.len() == INFO_FRAME_BYTES);
    assert(bytes.take(INFO_FRAME_BYTES as int) =~= a);
    SecretStream::lemma_nonces_differ(
        r.stream.header,
        r.stream.counter,
        r.stream.counter + 2,
    );
    let wanted = nonce_at(r.stream.header, r.stream.counter);
    assert(wanted != moved.info_nonce);
    assert(open(key, wanted, a) is None);
}

/// Whatever seals and opens soundly: where the bytes of another stream, one
/// with another key or with a public header that differs in its first sixteen
/// bytes, stand in the place of the next chunk, and the info record that
/// comes first there is bound to the key and the nonce that it was sealed
/// under, the reader reports an authentication error for the first record
/// that it reads there.
pub proof fn lemma_spliced_chunk_fails(
    seal: spec_fn(Seq<u8>, Seq<u8>, Seq<u8>) -> Seq<u8>,
    open: spec_fn(Seq<u8>, Seq<u8>, Seq<u8>) -> Option<Seq<u8>>,
    r: ReaderState,
    other: StreamState,
    chunk: (ChunkType, Seq<u8>),
    rest: Seq<u8>,
)
    requires
        seals(seal, open),
        bound(
            open,
            sealed_info(
                seal,
                other.key,
                frame_at(other.header, other.counter, chunk.0, chunk.1.len() as int),
            ),
            other.key,
            nonce_at(other.header, other.counter),
        ),
        r.failure is None,
        r.pending is None,
        r.stream.header.len() == HEADER_BYTES,
        other.header.len() == HEADER_BYTES,
        r.stream.counter < u64::MAX,
        sealed_len(chunk.1.len() as int) <= u32::MAX,
        other.key != r.stream.key || other.header.take(16) != r.stream.header.take(16),
    ensures
        read_disk(
            open,
            r,
            on_disk(
                seal,
                other.key,
                frame_at(other.header, other.counter, chunk.0, chunk.1.len() as int),
                chunk.1,
            ) + rest,
        ).1 == Err::<StepView, ArchiveError>(ArchiveError::Auth),
{
    let foreign = frame_at(other.header, other.counter, chunk.0, chunk.1.len() as int);
    let a = seal(other.key, foreign.info_nonce, foreign.info);
    let bytes = on_disk(seal, other.key, foreign, chunk.1) + rest;
    lemma_be32_round_trip(sealed_len(chunk.1.len() as int) as u32);
    assert(foreign.info.len() == 5);
    assert(a.len() == INFO_FRAME_BYTES);
    assert(bytes.take(INFO_FRAME_BYTES as int) =~= a);
    let wanted = nonce_at(r.stream.header, r.stream.counter);
    if other.key == r.stream.key {
        lemma_streams_share_no_nonce(
            r.stream.header,
            other.header,
            r.stream.counter,
            other.counter,
        );
    }
    assert(open(r.stream.key, wanted, a) is None);
}

/// A chunk: its kind and its payload.
pub type Chunk = (ChunkType, Seq<u8>);

/// The bytes `bytes` in front of the first of the volumes `volumes`.
pub open spec fn prepend(bytes: Seq<u8>, volumes: Seq<Seq<u8>>) -> Seq<Seq<u8>>
    recommends
        volumes.len() > 0,
{
    seq![bytes + volumes[0]] + volumes.drop_first()
}

/// What a writer in the state `w` puts on disk for the chunks `chunks`: first
/// the bytes that it adds to its current volume, then the volumes that it
/// opens, in order. A chunk that does not fit into the current volume ends
/// that volume with the chunk for the end of a volume and opens the next.
pub open spec fn layout(
    seal: spec_fn(Seq<u8>, Seq<u8>, Seq<u8>) -> Seq<u8>,
    w: WriterState,
    chunks: Seq<Chunk>,
) -> Seq<Seq<u8>>
    decreases chunks.len(),
{
    if chunks.len() == 0 {
        seq![Seq::empty()]
    } else {
        let kind = chunks[0].0;
        let payload = chunks[0].1;
        let plan = chunk_plan(w, kind, payload.len() as int);
        let rest = layout(seal, after_chunk(w, payload.len() as int), chunks.drop_first());
        let here = prepend(on_disk(seal, w.stream.key, plan.frame, payload), rest);
        match plan.volume_end {
            None => here,
            Some(end) => seq![on_disk(seal, w.stream.key, end.frame, Seq::empty())] + here,
        }
    }
}

/// Whether a writer in the state `w` can write the chunks `chunks` one after
/// the other: none of them ends a volume, and none fails.
pub open spec fn writable(w: WriterState, chunks: Seq<Chunk>) -> bool
    decreases chunks.len(),
{
    chunks.len() == 0 || (chunks[0].0 != ChunkType::VolumeEnd && chunk_failure(
        w,
        chunks[0].1.len() as int,
    ) is None && writable(after_chunk(w, chunks[0].1.len() as int), chunks.drop_first()))
}

/// The next chunk that a reader in the state `r` finds in the volumes
/// `volumes`, of which the first is the rest of its current volume: the state
/// in which the reader is left, the chunk or the failure, and the volumes that
/// are left. Behind the chunk that ends a volume the reader goes on in the
/// next volume; where there is none, that is a volume error.
pub open spec fn read_next(
    open: spec_fn(Seq<u8>, Seq<u8>, Seq<u8>) -> Option<Seq<u8>>,
    r: ReaderState,
    volumes: Seq<Seq<u8>>,
) -> (ReaderState, Result<Chunk, ArchiveError>, Seq<Seq<u8>>)
    decreases volumes.len(),
{
    if volumes.len() == 0 {
        (failed(r, ArchiveError::Volume), Err(ArchiveError::Volume), volumes)
    } else {
        let found = read_disk(open, r, volumes[0]);
        match found.1 {
            Err(e) => (found.0, Err(e), volumes),
            Ok(StepView::Chunk(kind, payload)) => (
                found.0,
                Ok((kind, payload)),
                seq![found.2] + volumes.drop_first(),
            ),
            Ok(StepView::VolumeEnd) => read_next(open, found.0, volumes.drop_first()),
            Ok(StepView::Payload) => (
                failed(found.0, ArchiveError::Truncation),
                Err(ArchiveError::Truncation),
                volumes,
            ),
        }
    }
}

/// The next `count` chunks that a reader in the state `r` finds in the
/// volumes `volumes`, or the first failure.
pub open spec fn read_chunks(
    open: spec_fn(Seq<u8>, Seq<u8>, Seq<u8>) -> Option<Seq<u8>>,
    r: ReaderState,
    volumes: Seq<Seq<u8>>,
    count: nat,
) -> Result<Seq<Chunk>, ArchiveError>
    decreases count,
{
    if count == 0 {
        Ok(Seq::empty())
    } else {
        let next = read_next(open, r, volumes);
        match next.1 {
            Err(e) => Err(e),
            Ok(chunk) => match read_chunks(open, next.0, next.2, (count - 1) as nat) {
                Err(e) => Err(e),
                Ok(chunks) => Ok(seq![chunk] + chunks),
            },
        }
    }
}

/// The layout of some chunks always has a first volume.
proof fn lemma_layout_has_a_volume(
    seal: spec_fn(Seq<u8>, Seq<u8>, Seq<u8>) -> Seq<u8>,
    w: WriterState,
    chunks: Seq<Chunk>,
)
    ensures
        layout(seal, w, chunks).len() > 0,
    decreases chunks.len(),
{
    if chunks.len() > 0 {
        lemma_layout_has_a_volume(
            seal,
            after_chunk(w, chunks[0].1.len() as int),
            chunks.drop_first(),
        );
    }
}

/// Whatever seals and opens soundly, and whatever chunks a writer writes, in
/// one volume or in many: a reader that starts in step with the writer and
/// with the same key reads from what the writer has put on disk the same
/// chunks, in the same order, with the same payloads.
pub proof fn lemma_archive_round_trip(
    seal: spec_fn(Seq<u8>, Seq<u8>, Seq<u8>) -> Seq<u8>,
    open: spec_fn(Seq<u8>, Seq<u8>, Seq<u8>) -> Option<Seq<u8>>,
    w: WriterState,
    r: ReaderState,
    chunks: Seq<Chunk>,
)
    requires
        seals(seal, open),
        in_step(r, w.stream.header, w.stream.counter),
        r.stream.key == w.stream.key,
        writable(w, chunks),
    ensures
        read_chunks(open, r, layout(seal, w, chunks), chunks.len()) == Ok::<
            Seq<Chunk>,
            ArchiveError,
        >(chunks),
    decreases chunks.len(),
{
    if chunks.len() == 0 {
        assert(chunks =~= Seq::<Chunk>::empty());
    } else {
        let kind = chunks[0].0;
        let payload = chunks[0].1;
        let len = payload.len() as int;
        let plan = chunk_plan(w, kind, len);
        let after = after_chunk(w, len);
        let rest = layout(seal, after, chunks.drop_first());
        lemma_layout_has_a_volume(seal, after, chunks.drop_first());
        let bytes = on_disk(seal, w.stream.key, plan.frame, payload);
        let here = prepend(bytes, rest);
        assert(here[0] == bytes + rest[0]);
        assert(here.drop_first() =~= rest.drop_first());
        let all = layout(seal, w, chunks);
        match plan.volume_end {
            None => {
                assert(all == here);
                lemma_disk_round_trip(seal, open, r, kind, payload, rest[0]);
                let next = read_next(open, r, all);
                assert(next.0 == advanced(r, 2));
                assert(next.1 == Ok::<Chunk, ArchiveError>((kind, payload)));
                assert(next.2 =~= rest);
                lemma_archive_round_trip(seal, open, after, next.0, chunks.drop_first());
            },
            Some(end) => {
                let closing = on_disk(seal, w.stream.key, end.frame, Seq::empty());
                assert(all == seq![closing] + here);
                assert(all[0] == closing);
                assert(all.drop_first() =~= here);
                lemma_disk_round_trip(
                    seal,
                    open,
                    r,
                    ChunkType::VolumeEnd,
                    Seq::empty(),
                    Seq::empty(),
                );
                assert(closing + Seq::<u8>::empty() =~= closing);
                let mid = advanced(r, 2);
                assert(read_disk(open, r, all[0]) == (
                    mid,
                    Ok::<StepView, ArchiveError>(StepView::VolumeEnd),
                    Seq::<u8>::empty(),
                ));
                lemma_disk_round_trip(seal, open, mid, kind, payload, rest[0]);
                let next = read_next(open, r, all);
                assert(next == read_next(open, mid, here));
                assert(next.0 == advanced(mid, 2));
                assert(advanced(mid, 2) == advanced(r, 4));
                assert(next.1 == Ok::<Chunk, ArchiveError>((kind, payload)));
                assert(next.2 =~= rest);
                lemma_archive_round_trip(seal, open, after, next.0, chunks.drop_first());
            },
        }
        let next = read_next(open, r, all);
        assert(seq![(kind, payload)] + chunks.drop_first() =~= chunks);
    }
}

/// The bytes on disk of the chunk that ends a volume, where its records are
/// the messages `position` and `position + 1` of the stream with the key
/// `key` and the public header `header`.
pub open spec fn volume_end_on_disk(
    seal: spec_fn(Seq<u8>, Seq<u8>, Seq<u8>) -> Seq<u8>,
    key: Seq<u8>,
    header: Seq<u8>,
    position: nat,
) -> Seq<u8> {
    on_disk(seal, key, frame_at(header, position, ChunkType::VolumeEnd, 0), Seq::empty())
}

/// Whether `bytes` ends with `end`.
pub open spec fn ends_with(bytes: Seq<u8>, end: Seq<u8>) -> bool {
    bytes.len() >= end.len() && bytes.skip(bytes.len() - end.len()) == end
}

/// Whether the volume `volume` of the stream with the key `key` and the
/// public header `header` ends with the chunk that ends a volume.
pub open spec fn ends_with_volume_end(
    seal: spec_fn(Seq<u8>, Seq<u8>, Seq<u8>) -> Seq<u8>,
    key: Seq<u8>,
    header: Seq<u8>,
    volume: Seq<u8>,
) -> bool {
    exists|position: nat|
        ends_with(volume, #[trigger] volume_end_on_disk(seal, key, header, position))
}

/// Whatever chunks a writer writes: every volume that it puts on disk, but
/// for the last, ends with the chunk that ends a volume.
pub proof fn lemma_volumes_are_ended(
    seal: spec_fn(Seq<u8>, Seq<u8>, Seq<u8>) -> Seq<u8>,
    w: WriterState,
    chunks: Seq<Chunk>,
)
    ensures
        forall|k: int|
            0 <= k < layout(seal, w, chunks).len() - 1 ==> ends_with_volume_end(
                seal,
                w.stream.key,
                w.stream.header,
                #[trigger] layout(seal, w, chunks)[k],
            ),
    decreases chunks.len(),
{
    if chunks.len() > 0 {
        let kind = chunks[0].0;
        let payload = chunks[0].1;
        let len = payload.len() as int;
        let plan = chunk_plan(w, kind, len);
        let after = after_chunk(w, len);
        let rest = layout(seal, after, chunks.drop_first());
        lemma_layout_has_a_volume(seal, after, chunks.drop_first());
        lemma_volumes_are_ended(seal, after, chunks.drop_first());
        let key = w.stream.key;
        let header = w.stream.header;
        assert(after.stream.key == key && after.stream.header == header);
        let bytes = on_disk(seal, key, plan.frame, payload);
        let here = prepend(bytes, rest);
        assert(here.len() == rest.len());
        assert forall|k: int| 0 <= k < here.len() - 1 implies ends_with_volume_end(
            seal,
            key,
            header,
            #[trigger] here[k],
        ) by {
            assert(ends_with_volume_end(seal, key, header, rest[k]));
            if k == 0 {
                let position = choose|position: nat|
                    ends_with(rest[0], #[trigger] volume_end_on_disk(seal, key, header, position));
                let closing = volume_end_on_disk(seal, key, header, position);
                assert(here[0] == bytes + rest[0]);
                assert((bytes + rest[0]).skip((bytes + rest[0]).len() - closing.len()) =~= rest[0].skip(
                    rest[0].len() - closing.len(),
                ));
                assert(ends_with(here[0], closing));
            } else {
                assert(here[k] == rest[k]);
            }
        }
        let all = layout(seal, w, chunks);
        match plan.volume_end {
            None => {
                assert(all == here);
            },
            Some(end) => {
                let closing = volume_end_on_disk(seal, key, header, w.stream.counter);
                assert(all == seq![closing] + here);
                assert forall|k: int| 0 <= k < all.len() - 1 implies ends_with_volume_end(
                    seal,
                    key,
                    header,
                    #[trigger] all[k],
                ) by {
                    if k == 0 {
                        assert(all[0] == closing);
                        assert(closing.skip(0) =~= closing);
                        assert(ends_with(all[0], closing));
                    } else {
                        assert(all[k] == here[k - 1]);
                    }
                }
            },
        }
    }
}

/// The lengths of the payloads of the chunks `chunks`.
pub open spec fn payload_lens(chunks: Seq<Chunk>) -> Seq<nat> {
    chunks.map_values(|chunk: Chunk| chunk.1.len())
}

/// The size on disk of the volume `k` among the volumes `volumes` that a
/// writer in the state `w` has put on disk: the first of them is the current
/// volume of the writer, which holds the bytes that were in it before.
pub open spec fn volume_bytes(w: WriterState, volumes: Seq<Seq<u8>>, k: int) -> int {
    if k == 0 {
        (w.byte_count + volumes[0].len()) as int
    } else {
        volumes[k].len() as int
    }
}

/// Whatever seals soundly: the volumes that a writer that splits its archive
/// puts on disk, but for the last, have the sizes that the rule of rotation
/// gives for the chunks.
pub proof fn lemma_layout_sizes(
    seal: spec_fn(Seq<u8>, Seq<u8>, Seq<u8>) -> Seq<u8>,
    open: spec_fn(Seq<u8>, Seq<u8>, Seq<u8>) -> Option<Seq<u8>>,
    w: WriterState,
    chunks: Seq<Chunk>,
    limit: u64,
)
    requires
        seals(seal, open),
        w.volume_size == Some(limit),
        forall|i: int| 0 <= i < chunks.len() ==> sealed_len((#[trigger] chunks[i]).1.len() as int)
            <= u32::MAX,
    ensures
        layout(seal, w, chunks).len() == closed_volumes(
            limit,
            w.byte_count as int,
            payload_lens(chunks),
        ).len() + 1,
        forall|k: int|
            0 <= k < layout(seal, w, chunks).len() - 1 ==> volume_bytes(
                w,
                layout(seal, w, chunks),
                k,
            ) == #[trigger] closed_volumes(limit, w.byte_count as int, payload_lens(chunks))[k],
    decreases chunks.len(),
{
    let lens = payload_lens(chunks);
    if chunks.len() == 0 {
    } else {
        let kind = chunks[0].0;
        let payload = chunks[0].1;
        let len = payload.len() as int;
        let plan = chunk_plan(w, kind, len);
        let after = after_chunk(w, len);
        let rest = layout(seal, after, chunks.drop_first());
        assert forall|i: int| 0 <= i < chunks.drop_first().len() implies sealed_len(
            (#[trigger] chunks.drop_first()[i]).1.len() as int,
        ) <= u32::MAX by {
            assert(chunks.drop_first()[i] == chunks[i + 1]);
        }
        lemma_layout_sizes(seal, open, after, chunks.drop_first(), limit);
        lemma_layout_has_a_volume(seal, after, chunks.drop_first());
        assert(lens.drop_first() =~= payload_lens(chunks.drop_first()));
        assert(lens[0] == payload.len());
        let bytes = on_disk(seal, w.stream.key, plan.frame, payload);
        crate::endian::lemma_be32_round_trip(sealed_len(len) as u32);
        assert(plan.frame.info.len() == 5);
        assert(bytes.len() == chunk_bytes(len));
        let here = prepend(bytes, rest);
        assert(here.len() == rest.len());
        assert(here[0].len() == bytes.len() + rest[0].len());
        let all = layout(seal, w, chunks);
        let sizes = closed_volumes(limit, w.byte_count as int, lens);
        let later = closed_volumes(limit, after.byte_count as int, lens.drop_first());
        assert(after.byte_count == byte_count_after(Some(limit), w.byte_count as int, len));
        match plan.volume_end {
            None => {
                assert(all == here);
                assert(sizes == later);
                assert forall|k: int| 0 <= k < all.len() - 1 implies volume_bytes(w, all, k)
                    == #[trigger] sizes[k] by {
                    assert(volume_bytes(after, rest, k) == later[k]);
                    if k > 0 {
                        assert(here[k] == rest[k]);
                    }
                }
            },
            Some(end) => {
                let closing = on_disk(seal, w.stream.key, end.frame, Seq::empty());
                crate::endian::lemma_be32_round_trip(sealed_len(0) as u32);
                assert(end.frame.info.len() == 5);
                assert(closing.len() == VOLUME_END_BYTES);
                assert(all == seq![closing] + here);
                assert(sizes =~= seq![w.byte_count + VOLUME_END_BYTES] + later);
                assert forall|k: int| 0 <= k < all.len() - 1 implies volume_bytes(w, all, k)
                    == #[trigger] sizes[k] by {
                    if k == 0 {
                        assert(all[0] == closing);
                    } else {
                        assert(all[k] == here[k - 1]);
                        assert(sizes[k] == later[k - 1]);
                        assert(volume_bytes(after, rest, k - 1) == later[k - 1]);
                        if k - 1 > 0 {
                            assert(here[k - 1] == rest[k - 1]);
                        }
                    }
                }
            },
        }
    }
}

/// Whatever seals soundly: no volume that a writer puts on disk, but
/// possibly the last, is larger than the configured size, provided that the
/// bytes that are in the first volume at the start leave room for the chunk
/// that ends the volume, and that every chunk but the last fits into a volume
/// together with the chunk that ends the volume.
pub proof fn lemma_volumes_keep_budget(
    seal: spec_fn(Seq<u8>, Seq<u8>, Seq<u8>) -> Seq<u8>,
    open: spec_fn(Seq<u8>, Seq<u8>, Seq<u8>) -> Option<Seq<u8>>,
    w: WriterState,
    chunks: Seq<Chunk>,
    limit: u64,
)
    requires
        seals(seal, open),
        w.volume_size == Some(limit),
        forall|i: int| 0 <= i < chunks.len() ==> sealed_len((#[trigger] chunks[i]).1.len() as int)
            <= u32::MAX,
        chunks.len() > 0 ==> w.byte_count + VOLUME_END_BYTES <= limit,
        forall|i: int|
            0 <= i < chunks.len() - 1 ==> chunk_bytes((#[trigger] chunks[i]).1.len() as int)
                + VOLUME_END_BYTES <= limit,
    ensures
        forall|k: int|
            0 <= k < layout(seal, w, chunks).len() - 1 ==> #[trigger] volume_bytes(
                w,
                layout(seal, w, chunks),
                k,
            ) <= limit,
{
    let lens = payload_lens(chunks);
    lemma_layout_sizes(seal, open, w, chunks, limit);
    assert forall|i: int| 0 <= i < lens.len() - 1 implies chunk_bytes(#[trigger] lens[i] as int)
        + VOLUME_END_BYTES <= limit by {
        assert(lens[i] == chunks[i].1.len());
    }
    lemma_volume_budget(limit, w.byte_count as int, lens);
    let sizes = closed_volumes(limit, w.byte_count as int, lens);
    assert forall|k: int| 0 <= k < layout(seal, w, chunks).len() - 1 implies #[trigger] volume_bytes(
        w,
        layout(seal, w, chunks),
        k,
    ) <= limit by {
        assert(volume_bytes(w, layout(seal, w, chunks), k) == sizes[k]);
    }
}

} // verus!
