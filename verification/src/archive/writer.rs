//! The writing side of an archive.
//!
//! The writer decides what goes into the frame stream and where a volume
//! ends. It seals and writes nothing itself: every step hands back a plan that
//! says which records the caller has to seal, under which nonces, and whether
//! a new volume has to be opened before.

use crate::archive::error::ArchiveError;
use crate::archive::frame::{
    chunk_bytes,
    frame_at,
    sealed_len,
    write_frame,
    ChunkType,
    FramePlan,
    FrameView,
};
use crate::archive::header::{
    format_bytes,
    FormatHeader,
    FormatView,
    FORMAT_HEADER_BYTES,
    MEMLIMIT,
    OPSLIMIT,
    SALT_BYTES,
};
use crate::archive::object::{
    clone_infos,
    infos_view,
    EpilogueView,
    InfoView,
    Manifest,
    ObjectEpilogue,
    ObjectInfo,
    ObjectType,
};
use crate::archive::volume::{byte_count_after, must_rotate, SAFETY_MARGIN};
use crate::sodium::hex;
use crate::sodium::secretstream::{
    Direction,
    SecretStream,
    StreamState,
    ADDITIONAL_BYTES,
    HEADER_BYTES,
    KEY_BYTES,
};
use vstd::prelude::*;
use vstd::slice::slice_to_vec;

verus! {

/// The end of a volume, as plain values.
pub struct VolumeEndView {
    /// The chunk that ends the volume; its payload is empty.
    pub frame: FrameView,
    /// The number of the volume that follows.
    pub next_volume: nat,
}

/// The end of a volume: the caller writes `frame` with an empty payload into
/// the current volume, closes it, and opens the volume `next_volume`.
#[derive(Debug)]
pub struct VolumeEnd {
    /// The chunk that ends the volume; its payload is empty.
    pub frame: FramePlan,
    /// The number of the volume that follows.
    pub next_volume: u64,
}

impl View for VolumeEnd {
    type V = VolumeEndView;

    open spec fn view(&self) -> VolumeEndView {
        VolumeEndView { frame: self.frame@, next_volume: self.next_volume as nat }
    }
}

/// What writing one chunk takes, as plain values.
pub struct PlanView {
    /// The end of the current volume, where the chunk opens a new one.
    pub volume_end: Option<VolumeEndView>,
    /// The chunk itself.
    pub frame: FrameView,
}

/// What writing one chunk takes: first the end of the current volume, where
/// there is one, then the chunk itself.
#[derive(Debug)]
pub struct ChunkPlan {
    /// The end of the current volume, where the chunk opens a new one.
    pub volume_end: Option<VolumeEnd>,
    /// The chunk itself.
    pub frame: FramePlan,
}

impl View for ChunkPlan {
    type V = PlanView;

    open spec fn view(&self) -> PlanView {
        PlanView {
            volume_end: match self.volume_end {
                Some(end) => Some(end@),
                None => None,
            },
            frame: self.frame@,
        }
    }
}

/// A writer, as plain values.
pub struct WriterState {
    /// The sealing side of the secret stream.
    pub stream: StreamState,
    /// The descriptors of the objects that are complete, in the order in which
    /// they were written.
    pub objects: Seq<InfoView>,
    /// The level at which the caller compresses.
    pub compression_level: i32,
    /// The number of the current volume.
    pub volume_counter: nat,
    /// The size that no volume but the last may exceed, for a split archive.
    pub volume_size: Option<u64>,
    /// The number of bytes in the current volume.
    pub byte_count: nat,
    /// Whether the manifest has been written.
    pub ended: bool,
    /// The descriptor of the file whose content is being written.
    pub current: Option<InfoView>,
    /// The number of bytes of content of that file so far.
    pub size: nat,
    /// The failure that has ended the use of the writer.
    pub failure: Option<ArchiveError>,
}

/// The writing side of an archive.
pub struct ArchiveWriter {
    pusher: SecretStream,
    objects: Vec<ObjectInfo>,
    compression_level: i32,
    volume_counter: u64,
    volume_size: Option<u64>,
    byte_count: u64,
    ended: bool,
    current: Option<ObjectInfo>,
    size: u64,
    failure: Option<ArchiveError>,
}

/// The state of a writer after the failure `e` in the state `w`: a failure
/// after which a stream may never be used again stays with the writer, any
/// other leaves the writer as it was.
pub open spec fn failed(w: WriterState, e: ArchiveError) -> WriterState {
    if e.spec_is_fatal() {
        WriterState { failure: Some(e), ..w }
    } else {
        w
    }
}

/// Why a writer in the state `w` cannot write a chunk with a payload of
/// `payload_len` bytes, if it cannot: the sealed payload is too long for its
/// length to fit in 32 bits, or one of the writer's counts would run over.
pub open spec fn chunk_failure(w: WriterState, payload_len: int) -> Option<ArchiveError> {
    if sealed_len(payload_len) > u32::MAX {
        Some(ArchiveError::Format)
    } else if w.stream.counter + 4 > u64::MAX || byte_count_after(
        w.volume_size,
        w.byte_count as int,
        payload_len,
    ) > u64::MAX || (must_rotate(w.volume_size, w.byte_count as int, payload_len)
        && w.volume_counter >= u64::MAX) {
        Some(ArchiveError::Exhausted)
    } else {
        None
    }
}

/// The plan by which a writer in the state `w` writes a chunk of kind `kind`
/// with a payload of `payload_len` bytes.
pub open spec fn chunk_plan(w: WriterState, kind: ChunkType, payload_len: int) -> PlanView {
    if must_rotate(w.volume_size, w.byte_count as int, payload_len) {
        PlanView {
            volume_end: Some(
                VolumeEndView {
                    frame: frame_at(w.stream.header, w.stream.counter, ChunkType::VolumeEnd, 0),
                    next_volume: w.volume_counter + 1,
                },
            ),
            frame: frame_at(w.stream.header, w.stream.counter + 2, kind, payload_len),
        }
    } else {
        PlanView {
            volume_end: None,
            frame: frame_at(w.stream.header, w.stream.counter, kind, payload_len),
        }
    }
}

/// The state of a writer after it has written a chunk with a payload of
/// `payload_len` bytes from the state `w`.
pub open spec fn after_chunk(w: WriterState, payload_len: int) -> WriterState {
    if must_rotate(w.volume_size, w.byte_count as int, payload_len) {
        WriterState {
            stream: StreamState { counter: w.stream.counter + 4, ..w.stream },
            volume_counter: w.volume_counter + 1,
            byte_count: chunk_bytes(payload_len) as nat,
            ..w
        }
    } else {
        WriterState {
            stream: StreamState { counter: w.stream.counter + 2, ..w.stream },
            byte_count: (w.byte_count + chunk_bytes(payload_len)) as nat,
            ..w
        }
    }
}

/// The state of a writer that has just been made.
pub open spec fn initial_state(
    key: Seq<u8>,
    stream_header: Seq<u8>,
    compression_level: i32,
    volume_size: Option<u64>,
) -> WriterState {
    WriterState {
        stream: StreamState { header: stream_header, key, counter: 0, dir: Direction::Push },
        objects: Seq::empty(),
        compression_level,
        volume_counter: 1,
        volume_size,
        byte_count: FORMAT_HEADER_BYTES as nat,
        ended: false,
        current: None,
        size: 0,
        failure: None,
    }
}

/// The descriptor `info` without an epilogue.
pub open spec fn bare(info: InfoView) -> InfoView {
    InfoView { epilogue: None, ..info }
}

/// The state of a writer after the descriptor `info` has opened an object: a
/// directory is complete at once, a file awaits its content.
pub open spec fn after_header(w: WriterState, info: InfoView) -> WriterState {
    if info.object_type == ObjectType::Directory {
        WriterState { objects: w.objects.push(bare(info)), ..w }
    } else {
        WriterState { current: Some(bare(info)), size: 0, ..w }
    }
}

/// The state of a writer after the epilogue has closed the current file,
/// whose content has the hash `digest`.
pub open spec fn after_epilogue(w: WriterState, digest: Seq<u8>) -> WriterState
    recommends
        w.current is Some,
{
    WriterState {
        objects: w.objects.push(
            InfoView {
                epilogue: Some(EpilogueView { size: w.size as u64, hash: hex(digest) }),
                ..w.current->Some_0
            },
        ),
        current: None,
        size: 0,
        ..w
    }
}

/// The descriptor that may be there, as plain values.
pub open spec fn info_view(info: Option<ObjectInfo>) -> Option<InfoView> {
    match info {
        Some(info) => Some(info@),
        None => None,
    }
}

/// The result of a step that may plan a chunk, as plain values.
pub open spec fn plan_result(res: Result<Option<ChunkPlan>, ArchiveError>) -> Result<
    Option<PlanView>,
    ArchiveError,
> {
    match res {
        Ok(plan) => Ok(plan_view(plan)),
        Err(e) => Err(e),
    }
}

/// The plan that may be there, as plain values.
pub open spec fn plan_view(plan: Option<ChunkPlan>) -> Option<PlanView> {
    match plan {
        Some(plan) => Some(plan@),
        None => None,
    }
}

/// One step of a writer.
pub enum WriterOp {
    /// `write_object` with this descriptor, encoded to so many bytes.
    Object(InfoView, nat),
    /// `write_data` with so many bytes of content, packed to so many.
    Data(nat, nat),
    /// `finish_data` with so many bytes.
    Tail(nat),
    /// `finish_object` with this hash and an epilogue of so many bytes.
    Close(Seq<u8>, nat),
    /// `end` with a manifest of so many bytes.
    End(nat),
}

/// Why the step `op` fails in the state `w`, if it fails.
pub open spec fn failure_of(w: WriterState, op: WriterOp) -> Option<ArchiveError> {
    match op {
        WriterOp::Object(info, len) => ArchiveWriter::write_object_failure(w, len as int),
        WriterOp::Data(plain, packed) => ArchiveWriter::write_data_failure(
            w,
            plain as int,
            packed as int,
        ),
        WriterOp::Tail(len) => ArchiveWriter::data_failure(w, len as int),
        WriterOp::Close(digest, len) => ArchiveWriter::data_failure(w, len as int),
        WriterOp::End(len) => if w.ended {
            None
        } else {
            ArchiveWriter::end_failure(w, len as int)
        },
    }
}

/// Whether the step `op` succeeds in the state `w`.
pub open spec fn succeeds(w: WriterState, op: WriterOp) -> bool {
    failure_of(w, op) is None
}

/// The state in which the step `op` leaves a writer that was in the state
/// `w`: as the function of the step says where it succeeds, and as `failed`
/// says where it fails.
pub open spec fn apply(w: WriterState, op: WriterOp) -> WriterState {
    match failure_of(w, op) {
        Some(e) => failed(w, e),
        None => match op {
            WriterOp::Object(info, len) => after_header(after_chunk(w, len as int), info),
            WriterOp::Data(plain, packed) => WriterState {
                size: (w.size + plain) as nat,
                ..if packed == 0 {
                    w
                } else {
                    after_chunk(w, packed as int)
                }
            },
            WriterOp::Tail(len) => after_chunk(w, len as int),
            WriterOp::Close(digest, len) => after_epilogue(after_chunk(w, len as int), digest),
            WriterOp::End(len) => ArchiveWriter::after_end(w, len as int),
        },
    }
}

impl View for ArchiveWriter {
    type V = WriterState;

    closed spec fn view(&self) -> WriterState {
        WriterState {
            stream: self.pusher@,
            objects: infos_view(self.objects@),
            compression_level: self.compression_level,
            volume_counter: self.volume_counter as nat,
            volume_size: self.volume_size,
            byte_count: self.byte_count as nat,
            ended: self.ended,
            current: info_view(self.current),
            size: self.size as nat,
            failure: self.failure,
        }
    }
}

impl ArchiveWriter {
    /// What holds of every writer: its stream seals, its counts fit in 64
    /// bits, and once the manifest is written no file is open.
    pub open spec fn wf(&self) -> bool {
        &&& self@.stream.dir == Direction::Push
        &&& self@.stream.header.len() == HEADER_BYTES
        &&& self@.stream.counter <= u64::MAX
        &&& self@.volume_counter <= u64::MAX
        &&& self@.byte_count <= u64::MAX
        &&& self@.size <= u64::MAX
        &&& (self@.ended ==> self@.current is None)
    }

    /// A writer for a new archive, and the prefix that the caller writes at
    /// the start of the first volume. `key` is the key that the caller has
    /// derived from the password with the salt `salt` at the costs `OPSLIMIT`
    /// and `MEMLIMIT`; `stream_header` is the public header of the secret
    /// stream, which the caller draws at random.
    ///
    /// A key of another length than `KEY_BYTES` is a key derivation error; a
    /// stream header or a salt of another length than `HEADER_BYTES` and
    /// `SALT_BYTES` is a format error.
    pub fn new(
        key: &[u8],
        salt: &[u8],
        stream_header: &[u8],
        compression_level: i32,
        volume_size: Option<u64>,
    ) -> (res: Result<(ArchiveWriter, Vec<u8>), ArchiveError>)
        ensures
            res is Ok <==> key@.len() == KEY_BYTES && salt@.len() == SALT_BYTES
                && stream_header@.len() == HEADER_BYTES,
            res matches Ok((writer, prefix)) ==> {
                &&& writer.wf()
                &&& writer@ == initial_state(key@, stream_header@, compression_level, volume_size)
                &&& prefix@ == format_bytes(
                    FormatView {
                        salt: salt@,
                        opslimit: OPSLIMIT,
                        memlimit: MEMLIMIT as u64,
                        stream_header: stream_header@,
                    },
                )
                &&& prefix@.len() == FORMAT_HEADER_BYTES
            },
            res matches Err(e) ==> e == if key@.len() != KEY_BYTES {
                ArchiveError::Kdf
            } else {
                ArchiveError::Format
            },
    {
        if key.len() != KEY_BYTES {
            return Err(ArchiveError::Kdf);
        }
        let format = FormatHeader {
            salt: slice_to_vec(salt),
            opslimit: OPSLIMIT,
            memlimit: MEMLIMIT as u64,
            stream_header: slice_to_vec(stream_header),
        };
        let prefix = match format.encode() {
            Ok(prefix) => prefix,
            Err(e) => {
                return Err(e);
            },
        };
        let pusher = match SecretStream::new_push(key, stream_header) {
            Ok(pusher) => pusher,
            Err(_) => {
                return Err(ArchiveError::Format);
            },
        };
        let writer = ArchiveWriter {
            pusher,
            objects: Vec::new(),
            compression_level,
            volume_counter: 1,
            volume_size,
            byte_count: FORMAT_HEADER_BYTES as u64,
            ended: false,
            current: None,
            size: 0,
            failure: None,
        };
        assert(infos_view(writer.objects@) =~= Seq::<InfoView>::empty());
        Ok((writer, prefix))
    }

    /// Takes note of the failure `e`, which stays with the writer where a
    /// stream may never be used again after it.
    fn refuse(&mut self, e: ArchiveError) -> (res: ArchiveError)
        requires
            old(self).wf(),
        ensures
            final(self).wf(),
            res == e,
            final(self)@ == failed(old(self)@, e),
    {
        if e.is_fatal() {
            self.failure = Some(e);
        }
        e
    }

    /// The plan for one chunk whose records are the next two messages of the
    /// stream.
    fn plan_frame(&mut self, kind: ChunkType, payload_len: usize) -> (res: FramePlan)
        requires
            old(self).wf(),
            sealed_len(payload_len as int) <= u32::MAX,
            old(self)@.stream.counter + 2 <= u64::MAX,
        ensures
            res@ == frame_at(
                old(self)@.stream.header,
                old(self)@.stream.counter,
                kind,
                payload_len as int,
            ),
            final(self)@ == (WriterState {
                stream: StreamState {
                    counter: old(self)@.stream.counter + 2,
                    ..old(self)@.stream
                },
                ..old(self)@
            }),
    {
        write_frame(&mut self.pusher, kind, payload_len).unwrap()
    }

    /// Plans a chunk of kind `kind` with a payload of `payload_len` bytes, and
    /// before it the end of the current volume where the chunk does not fit
    /// into it any more.
    fn write_chunk(&mut self, payload_len: usize, kind: ChunkType) -> (res: Result<
        ChunkPlan,
        ArchiveError,
    >)
        requires
            old(self).wf(),
        ensures
            final(self).wf(),
            match chunk_failure(old(self)@, payload_len as int) {
                Some(e) => res == Err::<ChunkPlan, ArchiveError>(e) && final(self)@ == old(self)@,
                None => res is Ok && res->Ok_0@ == chunk_plan(old(self)@, kind, payload_len as int)
                    && final(self)@ == after_chunk(old(self)@, payload_len as int),
            },
    {
        if payload_len > 0xffff_ffff - ADDITIONAL_BYTES {
            return Err(ArchiveError::Format);
        }
        let size: u64 = payload_len as u64 + 37;
        let rotate: bool = match self.volume_size {
            None => false,
            Some(limit) => self.byte_count as u128 + size as u128 + 1061 + SAFETY_MARGIN as u128
                > limit as u128,
        };
        assert(rotate == must_rotate(old(self)@.volume_size, old(self)@.byte_count as int, payload_len as int));
        if self.pusher.counter() > u64::MAX - 4 {
            return Err(ArchiveError::Exhausted);
        }
        if rotate {
            if self.volume_counter == u64::MAX {
                return Err(ArchiveError::Exhausted);
            }
            let frame = self.plan_frame(ChunkType::VolumeEnd, 0);
            self.volume_counter = self.volume_counter + 1;
            self.byte_count = 0;
            let end = VolumeEnd { frame, next_volume: self.volume_counter };
            let frame = self.plan_frame(kind, payload_len);
            self.byte_count = size;
            Ok(ChunkPlan { volume_end: Some(end), frame })
        } else {
            if size > u64::MAX - self.byte_count {
                return Err(ArchiveError::Exhausted);
            }
            let frame = self.plan_frame(kind, payload_len);
            self.byte_count = self.byte_count + size;
            Ok(ChunkPlan { volume_end: None, frame })
        }
    }

    /// Opens the object that `info` describes. `header_len` is the length of
    /// the encoded descriptor, which is the payload of the chunk that the plan
    /// is for. A directory is complete with this step; a file is open until
    /// `finish_object` closes it. The descriptor is kept without an epilogue.
    ///
    /// While a file is open, or after the manifest has been written, this is
    /// a framing error.
    pub fn write_object(&mut self, info: ObjectInfo, header_len: usize) -> (res: Result<
        ChunkPlan,
        ArchiveError,
    >)
        requires
            old(self).wf(),
        ensures
            final(self).wf(),
            match Self::write_object_failure(old(self)@, header_len as int) {
                Some(e) => res == Err::<ChunkPlan, ArchiveError>(e) && final(self)@ == failed(
                    old(self)@,
                    e,
                ),
                None => res is Ok && res->Ok_0@ == chunk_plan(
                    old(self)@,
                    ChunkType::Header,
                    header_len as int,
                ) && final(self)@ == after_header(
                    after_chunk(old(self)@, header_len as int),
                    info@,
                ),
            },
            final(self)@ == apply(old(self)@, WriterOp::Object(info@, header_len as nat)),
    {
        match self.failure {
            Some(e) => {
                return Err(e);
            },
            None => {},
        }
        if self.ended || self.current.is_some() {
            return Err(self.refuse(ArchiveError::Framing));
        }
        let plan = match self.write_chunk(header_len, ChunkType::Header) {
            Ok(plan) => plan,
            Err(e) => {
                return Err(e);
            },
        };
        let mut info = info;
        info.epilogue = None;
        match info.object_type {
            ObjectType::Directory => {
                let ghost before = self.objects@;
                self.objects.push(info);
                assert(infos_view(self.objects@) =~= infos_view(before).push(info@));
            },
            ObjectType::File => {
                self.current = Some(info);
                self.size = 0;
            },
        }
        Ok(plan)
    }

    /// Why `write_object` fails, if it does.
    pub open spec fn write_object_failure(w: WriterState, header_len: int) -> Option<ArchiveError> {
        if w.failure is Some {
            w.failure
        } else if w.ended || w.current is Some {
            Some(ArchiveError::Framing)
        } else {
            chunk_failure(w, header_len)
        }
    }

    /// Takes note of `plain_len` bytes of content of the open file, which the
    /// caller has hashed and compressed to `packed_len` bytes. Where the codec
    /// gave no output, no chunk is written and there is no plan.
    ///
    /// Without an open file this is a framing error; content that makes the
    /// size of the file run over 64 bits exhausts the writer.
    pub fn write_data(&mut self, plain_len: usize, packed_len: usize) -> (res: Result<
        Option<ChunkPlan>,
        ArchiveError,
    >)
        requires
            old(self).wf(),
        ensures
            final(self).wf(),
            match Self::write_data_failure(old(self)@, plain_len as int, packed_len as int) {
                Some(e) => res == Err::<Option<ChunkPlan>, ArchiveError>(e) && final(self)@
                    == failed(old(self)@, e),
                None => res is Ok && plan_view(res->Ok_0) == (if packed_len == 0 {
                    None
                } else {
                    Some(chunk_plan(old(self)@, ChunkType::Data, packed_len as int))
                }) && final(self)@ == (WriterState {
                    size: (old(self)@.size + plain_len) as nat,
                    ..if packed_len == 0 {
                        old(self)@
                    } else {
                        after_chunk(old(self)@, packed_len as int)
                    }
                }),
            },
            final(self)@ == apply(old(self)@, WriterOp::Data(plain_len as nat, packed_len as nat)),
    {
        match self.failure {
            Some(e) => {
                return Err(e);
            },
            None => {},
        }
        if self.current.is_none() {
            return Err(self.refuse(ArchiveError::Framing));
        }
        if plain_len as u64 > u64::MAX - self.size {
            return Err(ArchiveError::Exhausted);
        }
        if packed_len == 0 {
            self.size = self.size + plain_len as u64;
            return Ok(None);
        }
        let plan = match self.write_chunk(packed_len, ChunkType::Data) {
            Ok(plan) => plan,
            Err(e) => {
                return Err(e);
            },
        };
        self.size = self.size + plain_len as u64;
        Ok(Some(plan))
    }

    /// Why `write_data` fails, if it does.
    pub open spec fn write_data_failure(w: WriterState, plain_len: int, packed_len: int) -> Option<
        ArchiveError,
    > {
        if w.failure is Some {
            w.failure
        } else if w.current is None {
            Some(ArchiveError::Framing)
        } else if w.size + plain_len > u64::MAX {
            Some(ArchiveError::Exhausted)
        } else if packed_len == 0 {
            None
        } else {
            chunk_failure(w, packed_len)
        }
    }

    /// Plans the chunk for the `tail_len` bytes that the codec gave when it
    /// was finished after the last content of the open file. The chunk is
    /// written even where the codec gave nothing.
    ///
    /// Without an open file this is a framing error.
    pub fn finish_data(&mut self, tail_len: usize) -> (res: Result<ChunkPlan, ArchiveError>)
        requires
            old(self).wf(),
        ensures
            final(self).wf(),
            match Self::data_failure(old(self)@, tail_len as int) {
                Some(e) => res == Err::<ChunkPlan, ArchiveError>(e) && final(self)@ == failed(
                    old(self)@,
                    e,
                ),
                None => res is Ok && res->Ok_0@ == chunk_plan(
                    old(self)@,
                    ChunkType::Data,
                    tail_len as int,
                ) && final(self)@ == after_chunk(old(self)@, tail_len as int),
            },
            final(self)@ == apply(old(self)@, WriterOp::Tail(tail_len as nat)),
    {
        match self.failure {
            Some(e) => {
                return Err(e);
            },
            None => {},
        }
        if self.current.is_none() {
            return Err(self.refuse(ArchiveError::Framing));
        }
        self.write_chunk(tail_len, ChunkType::Data)
    }

    /// Why a chunk for the open file cannot be written, if it cannot.
    pub open spec fn data_failure(w: WriterState, payload_len: int) -> Option<ArchiveError> {
        if w.failure is Some {
            w.failure
        } else if w.current is None {
            Some(ArchiveError::Framing)
        } else {
            chunk_failure(w, payload_len)
        }
    }

    /// The epilogue of the open file, if its content has the hash `digest`:
    /// the number of bytes of content so far and the hex text of the hash.
    /// There is none without an open file.
    pub fn epilogue(&self, digest: &[u8]) -> (res: Option<ObjectEpilogue>)
        requires
            self.wf(),
        ensures
            res is Some <==> self@.current is Some,
            res matches Some(e) ==> e@ == (EpilogueView {
                size: self@.size as u64,
                hash: hex(digest@),
            }),
    {
        if self.current.is_none() {
            None
        } else {
            Some(ObjectEpilogue::new(self.size, digest))
        }
    }

    /// Closes the open file, whose content has the hash `digest`.
    /// `epilogue_len` is the length of the encoded epilogue, which is the
    /// payload of the chunk that the plan is for. The descriptor of the file,
    /// with its epilogue, joins the objects of the manifest.
    ///
    /// Without an open file this is a framing error.
    pub fn finish_object(&mut self, digest: &[u8], epilogue_len: usize) -> (res: Result<
        ChunkPlan,
        ArchiveError,
    >)
        requires
            old(self).wf(),
        ensures
            final(self).wf(),
            match Self::data_failure(old(self)@, epilogue_len as int) {
                Some(e) => res == Err::<ChunkPlan, ArchiveError>(e) && final(self)@ == failed(
                    old(self)@,
                    e,
                ),
                None => res is Ok && res->Ok_0@ == chunk_plan(
                    old(self)@,
                    ChunkType::Epilogue,
                    epilogue_len as int,
                ) && final(self)@ == after_epilogue(
                    after_chunk(old(self)@, epilogue_len as int),
                    digest@,
                ),
            },
            final(self)@ == apply(old(self)@, WriterOp::Close(digest@, epilogue_len as nat)),
    {
        match self.failure {
            Some(e) => {
                return Err(e);
            },
            None => {},
        }
        if self.current.is_none() {
            return Err(self.refuse(ArchiveError::Framing));
        }
        let plan = match self.write_chunk(epilogue_len, ChunkType::Epilogue) {
            Ok(plan) => plan,
            Err(e) => {
                return Err(e);
            },
        };
        let mut open: Option<ObjectInfo> = None;
        core::mem::swap(&mut self.current, &mut open);
        let mut info = open.unwrap();
        info.epilogue = Some(ObjectEpilogue::new(self.size, digest));
        let ghost before = self.objects@;
        self.objects.push(info);
        assert(infos_view(self.objects@) =~= infos_view(before).push(info@));
        self.size = 0;
        Ok(plan)
    }

    /// The manifest as it stands: the objects that are complete.
    pub fn manifest(&self) -> (res: Manifest)
        ensures
            res@ == self@.objects,
    {
        Manifest { objects: clone_infos(self.objects.as_slice()) }
    }

    /// Ends the archive. `manifest_len` is the length of the encoded manifest,
    /// which is the payload of the chunk that the plan is for. Once the
    /// archive has ended, ending it again does nothing and plans nothing.
    ///
    /// While a file is open this is a framing error.
    pub fn end(&mut self, manifest_len: usize) -> (res: Result<Option<ChunkPlan>, ArchiveError>)
        requires
            old(self).wf(),
        ensures
            final(self).wf(),
            plan_result(res) == Self::end_result(old(self)@, manifest_len as int),
            final(self)@ == Self::after_end(old(self)@, manifest_len as int),
            final(self)@ == apply(old(self)@, WriterOp::End(manifest_len as nat)),
    {
        if self.ended {
            return Ok(None);
        }
        match self.failure {
            Some(e) => {
                return Err(e);
            },
            None => {},
        }
        if self.current.is_some() {
            return Err(self.refuse(ArchiveError::Framing));
        }
        let plan = match self.write_chunk(manifest_len, ChunkType::End) {
            Ok(plan) => plan,
            Err(e) => {
                return Err(e);
            },
        };
        self.ended = true;
        Ok(Some(plan))
    }

    /// Why `end` fails on an archive that has not ended, if it does.
    pub open spec fn end_failure(w: WriterState, manifest_len: int) -> Option<ArchiveError> {
        if w.failure is Some {
            w.failure
        } else if w.current is Some {
            Some(ArchiveError::Framing)
        } else {
            chunk_failure(w, manifest_len)
        }
    }

    /// What `end` returns: nothing on an archive that has ended, else the plan
    /// for the last chunk or the reason why it cannot be written.
    pub open spec fn end_result(w: WriterState, manifest_len: int) -> Result<
        Option<PlanView>,
        ArchiveError,
    > {
        if w.ended {
            Ok(None)
        } else {
            match Self::end_failure(w, manifest_len) {
                Some(e) => Err(e),
                None => Ok(Some(chunk_plan(w, ChunkType::End, manifest_len))),
            }
        }
    }

    /// The state in which `end` leaves a writer: ended where the last chunk
    /// could be planned, else unchanged.
    pub open spec fn after_end(w: WriterState, manifest_len: int) -> WriterState {
        if w.ended {
            w
        } else {
            match Self::end_failure(w, manifest_len) {
                Some(e) => failed(w, e),
                None => WriterState { ended: true, ..after_chunk(w, manifest_len) },
            }
        }
    }

    /// The key of the stream, for the caller that seals.
    pub fn key(&self) -> (res: &[u8])
        ensures
            res@ == self@.stream.key,
    {
        self.pusher.key()
    }

    /// The level at which the caller compresses.
    pub fn compression_level(&self) -> (res: i32)
        ensures
            res == self@.compression_level,
    {
        self.compression_level
    }

    /// The number of the current volume.
    pub fn volume_counter(&self) -> (res: u64)
        ensures
            res == self@.volume_counter,
    {
        self.volume_counter
    }

    /// The size that no volume but the last may exceed, for a split archive.
    pub fn volume_size(&self) -> (res: Option<u64>)
        ensures
            res == self@.volume_size,
    {
        self.volume_size
    }

    /// The number of bytes in the current volume.
    pub fn byte_count(&self) -> (res: u64)
        ensures
            res == self@.byte_count,
    {
        self.byte_count
    }

    /// Whether the manifest has been written.
    pub fn ended(&self) -> (res: bool)
        ensures
            res == self@.ended,
    {
        self.ended
    }

    /// The failure that has ended the use of the writer, if there is one.
    pub fn failure(&self) -> (res: Option<ArchiveError>)
        ensures
            res == self@.failure,
    {
        self.failure
    }
}

} // verus!
