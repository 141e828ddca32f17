//! The reading side of an archive.
//!
//! The reader says which bytes it needs next and under which nonce they have
//! to be opened, and it decides what the opened bytes mean. It reads and
//! opens nothing itself: the caller reads the bytes from the current volume,
//! opens them, and hands back what came out.

use crate::archive::error::ArchiveError;
use crate::archive::frame::{decode_info, parse_info, ChunkType, INFO_FRAME_BYTES};
use crate::archive::header::FormatHeader;
use crate::archive::volume::{is_first_volume_name, next_volume_file_name, sibling_name};
use crate::buffer::Buffer;
use crate::sodium::secretstream::{
    nonce_at,
    seen_option,
    Direction,
    SecretStream,
    StreamState,
    ADDITIONAL_BYTES,
    HEADER_BYTES,
    KEY_BYTES,
};
use vstd::prelude::*;

verus! {

/// What a reader needs next, as plain values.
pub struct RequestView {
    /// The number of bytes to read from the current volume.
    pub len: nat,
    /// The nonce under which those bytes have to be opened.
    pub nonce: Seq<u8>,
}

/// What a reader needs next: the caller reads exactly `len` bytes from the
/// current volume and opens them under `nonce`.
#[derive(Debug)]
pub struct ReadRequest {
    /// The number of bytes to read from the current volume.
    pub len: usize,
    /// The nonce under which those bytes have to be opened.
    pub nonce: Vec<u8>,
}

impl View for ReadRequest {
    type V = RequestView;

    open spec fn view(&self) -> RequestView {
        RequestView { len: self.len as nat, nonce: self.nonce@ }
    }
}

/// What an opened record meant, as plain values.
pub enum StepView {
    /// It was an info record; the payload record of the chunk follows.
    Payload,
    /// It completed the chunk that ends a volume.
    VolumeEnd,
    /// It completed a chunk of this kind with this payload.
    Chunk(ChunkType, Seq<u8>),
}

/// What an opened record meant.
#[derive(Debug)]
pub enum ChunkStep {
    /// It was an info record; the payload record of the chunk follows.
    Payload,
    /// It completed the chunk that ends a volume: the stream goes on in the
    /// next volume, which the caller has to open.
    VolumeEnd,
    /// It completed a chunk of this kind with this payload.
    Chunk(ChunkType, Vec<u8>),
}

impl View for ChunkStep {
    type V = StepView;

    open spec fn view(&self) -> StepView {
        match self {
            ChunkStep::Payload => StepView::Payload,
            ChunkStep::VolumeEnd => StepView::VolumeEnd,
            ChunkStep::Chunk(kind, payload) => StepView::Chunk(*kind, payload@),
        }
    }
}

/// A reader, as plain values.
pub struct ReaderState {
    /// The opening side of the secret stream.
    pub stream: StreamState,
    /// The kind and the sealed length of the chunk whose info record has been
    /// read and whose payload record is due.
    pub pending: Option<(ChunkType, u32)>,
    /// The number of the current volume, once the first has been left.
    pub volume_counter: Option<u64>,
    /// The failure that has ended the use of the reader.
    pub failure: Option<ArchiveError>,
    /// The encoded manifest, once the last chunk has been read.
    pub manifest: Option<Seq<u8>>,
}

/// The reading side of an archive.
pub struct ArchiveReader {
    puller: SecretStream,
    pending: Option<(ChunkType, u32)>,
    volume_counter: Option<u64>,
    failure: Option<ArchiveError>,
    manifest: Option<Vec<u8>>,
}

impl View for ArchiveReader {
    type V = ReaderState;

    closed spec fn view(&self) -> ReaderState {
        ReaderState {
            stream: self.puller@,
            pending: self.pending,
            volume_counter: self.volume_counter,
            failure: self.failure,
            manifest: seen_option(self.manifest),
        }
    }
}

/// What the reader in the state `r` needs next, or why it needs nothing any
/// more.
pub open spec fn request_of(r: ReaderState) -> Result<RequestView, ArchiveError> {
    if r.failure is Some {
        Err(r.failure->Some_0)
    } else if r.stream.counter >= u64::MAX {
        Err(ArchiveError::Exhausted)
    } else {
        Ok(
            RequestView {
                len: match r.pending {
                    None => INFO_FRAME_BYTES as nat,
                    Some(due) => due.1 as nat,
                },
                nonce: nonce_at(r.stream.header, r.stream.counter),
            },
        )
    }
}

/// What the record `opened` means to the reader in the state `r`; `opened` is
/// nothing where the record did not authenticate.
pub open spec fn step_of(r: ReaderState, opened: Option<Seq<u8>>) -> Result<StepView, ArchiveError> {
    if r.failure is Some {
        Err(r.failure->Some_0)
    } else if r.stream.counter >= u64::MAX {
        Err(ArchiveError::Exhausted)
    } else if opened is None {
        Err(ArchiveError::Auth)
    } else {
        let record = opened->Some_0;
        match r.pending {
            None => if parse_info(record) is Some {
                Ok(StepView::Payload)
            } else {
                Err(ArchiveError::Framing)
            },
            Some(due) => if record.len() + ADDITIONAL_BYTES != due.1 {
                Err(ArchiveError::Framing)
            } else if due.0 == ChunkType::VolumeEnd {
                if record.len() == 0 {
                    Ok(StepView::VolumeEnd)
                } else {
                    Err(ArchiveError::Framing)
                }
            } else {
                Ok(StepView::Chunk(due.0, record))
            },
        }
    }
}

/// The state of a reader after the failure `e` in the state `r`: a failure
/// after which a stream may never be used again stays with the reader, any
/// other leaves the reader as it was.
pub open spec fn failed(r: ReaderState, e: ArchiveError) -> ReaderState {
    if e.spec_is_fatal() {
        ReaderState { failure: Some(e), ..r }
    } else {
        r
    }
}

/// The state of the reader after the record `opened` has been handed to it
/// in the state `r`.
pub open spec fn after_step(r: ReaderState, opened: Option<Seq<u8>>) -> ReaderState {
    match step_of(r, opened) {
        Err(e) => failed(r, e),
        Ok(step) => ReaderState {
            stream: StreamState { counter: r.stream.counter + 1, ..r.stream },
            pending: match r.pending {
                None => parse_info(opened->Some_0),
                Some(_) => None,
            },
            ..r
        },
    }
}

/// A step that carries bytes, with the bytes as a sequence.
pub open spec fn step_view(res: Result<ChunkStep, ArchiveError>) -> Result<StepView, ArchiveError> {
    match res {
        Ok(step) => Ok(step@),
        Err(e) => Err(e),
    }
}

/// A request, as plain values.
pub open spec fn request_view(res: Result<ReadRequest, ArchiveError>) -> Result<
    RequestView,
    ArchiveError,
> {
    match res {
        Ok(request) => Ok(request@),
        Err(e) => Err(e),
    }
}

impl ArchiveReader {
    /// What holds of every reader: its stream opens, and its header has its
    /// length.
    pub open spec fn wf(&self) -> bool {
        &&& self@.stream.dir == Direction::Pull
        &&& self@.stream.header.len() == HEADER_BYTES
        &&& self@.stream.counter <= u64::MAX
    }

    /// A reader for the archive with the prefix `format`. `key` is the key
    /// that the caller has derived from the password with the salt and the
    /// costs that the prefix gives.
    ///
    /// A key of another length than `KEY_BYTES` is a key derivation error; a
    /// stream header of another length than `HEADER_BYTES` is a format error.
    pub fn new(format: &FormatHeader, key: &[u8]) -> (res: Result<ArchiveReader, ArchiveError>)
        ensures
            res is Ok <==> key@.len() == KEY_BYTES && format@.stream_header.len() == HEADER_BYTES,
            res matches Ok(reader) ==> reader.wf() && reader@ == (ReaderState {
                stream: StreamState {
                    header: format@.stream_header,
                    key: key@,
                    counter: 0,
                    dir: Direction::Pull,
                },
                pending: None,
                volume_counter: None,
                failure: None,
                manifest: None,
            }),
            res matches Err(e) ==> e == if key@.len() != KEY_BYTES {
                ArchiveError::Kdf
            } else {
                ArchiveError::Format
            },
    {
        if key.len() != KEY_BYTES {
            return Err(ArchiveError::Kdf);
        }
        match SecretStream::new_pull(format.stream_header.as_slice(), key) {
            Ok(puller) => Ok(
                ArchiveReader {
                    puller,
                    pending: None,
                    volume_counter: None,
                    failure: None,
                    manifest: None,
                },
            ),
            Err(_) => Err(ArchiveError::Format),
        }
    }

    /// What the reader needs next: the sealed info record of the next chunk,
    /// or the sealed payload record that the last info record announced.
    /// After a failure the reader needs nothing but reports the failure again.
    pub fn request(&self) -> (res: Result<ReadRequest, ArchiveError>)
        requires
            self.wf(),
        ensures
            request_view(res) == request_of(self@),
    {
        match self.failure {
            Some(e) => {
                return Err(e);
            },
            None => {},
        }
        if self.puller.counter() == u64::MAX {
            return Err(ArchiveError::Exhausted);
        }
        let len: usize = match self.pending {
            None => INFO_FRAME_BYTES,
            Some(due) => due.1 as usize,
        };
        Ok(ReadRequest { len, nonce: self.puller.nonce() })
    }

    /// Takes note of what opening the requested bytes gave: the record, or
    /// nothing where they did not authenticate.
    ///
    /// A record that did not authenticate is an authentication error. An
    /// info record that is not well formed, a payload record of another
    /// length than its info record announced, and a payload in the chunk that
    /// ends a volume are framing errors. These failures stay with the reader:
    /// all later steps report them again.
    pub fn read_chunk(&mut self, opened: Option<Vec<u8>>) -> (res: Result<ChunkStep, ArchiveError>)
        requires
            old(self).wf(),
        ensures
            final(self).wf(),
            step_view(res) == step_of(old(self)@, seen_option(opened)),
            final(self)@ == after_step(old(self)@, seen_option(opened)),
    {
        match self.failure {
            Some(e) => {
                return Err(e);
            },
            None => {},
        }
        if self.puller.counter() == u64::MAX {
            return Err(ArchiveError::Exhausted);
        }
        let record = match opened {
            Some(record) => record,
            None => {
                self.failure = Some(ArchiveError::Auth);
                return Err(ArchiveError::Auth);
            },
        };
        match self.pending {
            None => {
                match decode_info(record.as_slice()) {
                    Ok(due) => {
                        let _ = self.puller.pull(Some(record));
                        self.pending = Some(due);
                        Ok(ChunkStep::Payload)
                    },
                    Err(_) => {
                        self.failure = Some(ArchiveError::Framing);
                        Err(ArchiveError::Framing)
                    },
                }
            },
            Some(due) => {
                if record.len() > 0xffff_ffff || record.len() as u64 + ADDITIONAL_BYTES as u64
                    != due.1 as u64 {
                    self.failure = Some(ArchiveError::Framing);
                    return Err(ArchiveError::Framing);
                }
                let end = match due.0 {
                    ChunkType::VolumeEnd => true,
                    _ => false,
                };
                if end && record.len() != 0 {
                    self.failure = Some(ArchiveError::Framing);
                    return Err(ArchiveError::Framing);
                }
                let payload = self.puller.pull(Some(record)).unwrap();
                self.pending = None;
                if end {
                    Ok(ChunkStep::VolumeEnd)
                } else {
                    Ok(ChunkStep::Chunk(due.0, payload))
                }
            },
        }
    }

    /// Takes note of a failure that the caller has met: the source ended
    /// early, the next volume is missing, or reading failed. A failure that
    /// is with the reader already is returned in its place; else `error` is
    /// returned, and it stays with the reader where a stream may never be
    /// used again after it.
    pub fn fail(&mut self, error: ArchiveError) -> (res: ArchiveError)
        requires
            old(self).wf(),
        ensures
            final(self).wf(),
            res == match old(self)@.failure {
                Some(first) => first,
                None => error,
            },
            final(self)@ == failed(old(self)@, res),
    {
        match self.failure {
            Some(first) => first,
            None => {
                if error.is_fatal() {
                    self.failure = Some(error);
                }
                error
            },
        }
    }

    /// The name of the file of the volume that follows the current one, and
    /// the move of the reader to that volume. `first` is the name of the file
    /// of the first volume, which has to end in `.001`; the volume after the
    /// first is the second.
    ///
    /// A name that is not that of a first volume is a volume error, which
    /// stays with the reader.
    pub fn open_next_volume(&mut self, first: &str) -> (res: Result<String, ArchiveError>)
        requires
            old(self).wf(),
        ensures
            final(self).wf(),
            match Self::next_volume_failure(old(self)@, first@) {
                Some(e) => res == Err::<String, ArchiveError>(e) && final(self)@ == failed(
                    old(self)@,
                    e,
                ),
                None => res is Ok && res->Ok_0@ == sibling_name(
                    first@,
                    Self::next_volume(old(self)@) as nat,
                ) && final(self)@ == (ReaderState {
                    volume_counter: Some(Self::next_volume(old(self)@) as u64),
                    ..old(self)@
                }),
            },
    {
        match self.failure {
            Some(e) => {
                return Err(e);
            },
            None => {},
        }
        let current: u64 = match self.volume_counter {
            Some(n) => n,
            None => 1,
        };
        if !self.is_first(first) {
            self.failure = Some(ArchiveError::Volume);
            return Err(ArchiveError::Volume);
        }
        if current == u64::MAX {
            return Err(ArchiveError::Exhausted);
        }
        let name = next_volume_file_name(first, current + 1).unwrap();
        self.volume_counter = Some(current + 1);
        Ok(name)
    }

    /// Whether `name` is the name of the file of a first volume.
    fn is_first(&self, name: &str) -> (res: bool)
        ensures
            res == is_first_volume_name(name@),
    {
        next_volume_file_name(name, 1).is_ok()
    }

    /// The number of the volume that follows the current one.
    pub open spec fn next_volume(r: ReaderState) -> int {
        match r.volume_counter {
            Some(n) => n + 1,
            None => 2,
        }
    }

    /// Why `open_next_volume` fails, if it does.
    pub open spec fn next_volume_failure(r: ReaderState, first: Seq<char>) -> Option<ArchiveError> {
        if r.failure is Some {
            r.failure
        } else if !is_first_volume_name(first) {
            Some(ArchiveError::Volume)
        } else if Self::next_volume(r) > u64::MAX {
            Some(ArchiveError::Exhausted)
        } else {
            None
        }
    }

    /// The key of the stream, for the caller that opens.
    pub fn key(&self) -> (res: &[u8])
        ensures
            res@ == self@.stream.key,
    {
        self.puller.key()
    }

    /// The encoded manifest, once the last chunk has been read.
    pub fn manifest(&self) -> (res: Option<&Vec<u8>>)
        ensures
            res is Some <==> self@.manifest is Some,
            res matches Some(bytes) ==> bytes@ == self@.manifest->Some_0,
    {
        self.manifest.as_ref()
    }

    /// The failure that has ended the use of the reader, if there is one.
    pub fn failure(&self) -> (res: Option<ArchiveError>)
        ensures
            res == self@.failure,
    {
        self.failure
    }

    /// Decides what the chunk between two objects means. A header opens an
    /// object, and the reader for it is returned; the manifest ends the
    /// archive, is kept, and nothing is returned.
    ///
    /// Any other chunk at this position, and any chunk after the manifest, is
    /// a framing error, which stays with the reader.
    pub fn read_object(&mut self, kind: ChunkType, payload: Vec<u8>) -> (res: Result<
        Option<ObjectReader>,
        ArchiveError,
    >)
        requires
            old(self).wf(),
        ensures
            final(self).wf(),
            match Self::object_failure(old(self)@, kind) {
                Some(e) => res == Err::<Option<ObjectReader>, ArchiveError>(e) && final(self)@
                    == failed(old(self)@, e),
                None => if kind == ChunkType::End {
                    res is Ok && res->Ok_0 is None && final(self)@ == (ReaderState {
                        manifest: Some(payload@),
                        ..old(self)@
                    })
                } else {
                    res is Ok && res->Ok_0 is Some && res->Ok_0->Some_0@ == (ObjectState {
                        object_info: payload@,
                        carry: Seq::empty(),
                        object_epilogue: None,
                    }) && final(self)@ == old(self)@
                },
            },
    {
        match self.failure {
            Some(e) => {
                return Err(e);
            },
            None => {},
        }
        if self.manifest.is_some() {
            self.failure = Some(ArchiveError::Framing);
            return Err(ArchiveError::Framing);
        }
        match kind {
            ChunkType::End => {
                self.manifest = Some(payload);
                Ok(None)
            },
            ChunkType::Header => Ok(
                Some(
                    ObjectReader {
                        object_info: payload,
                        buf: Buffer::with_capacity(1024 * 1024),
                        object_epilogue: None,
                    },
                ),
            ),
            _ => {
                self.failure = Some(ArchiveError::Framing);
                Err(ArchiveError::Framing)
            },
        }
    }

    /// Why a chunk of kind `kind` between two objects is refused, if it is.
    pub open spec fn object_failure(r: ReaderState, kind: ChunkType) -> Option<ArchiveError> {
        if r.failure is Some {
            r.failure
        } else if r.manifest is Some {
            Some(ArchiveError::Framing)
        } else if kind == ChunkType::End || kind == ChunkType::Header {
            None
        } else {
            Some(ArchiveError::Framing)
        }
    }
}

/// The reader of one object, as plain values.
pub struct ObjectState {
    /// The encoded descriptor of the object.
    pub object_info: Seq<u8>,
    /// The content that has been unpacked and not been handed out yet.
    pub carry: Seq<u8>,
    /// The encoded epilogue, once it has been read.
    pub object_epilogue: Option<Seq<u8>>,
}

/// The reader of one object of an archive.
pub struct ObjectReader {
    /// The encoded descriptor of the object.
    pub object_info: Vec<u8>,
    buf: Buffer,
    /// The encoded epilogue, once it has been read.
    pub object_epilogue: Option<Vec<u8>>,
}

impl View for ObjectReader {
    type V = ObjectState;

    closed spec fn view(&self) -> ObjectState {
        ObjectState {
            object_info: self.object_info@,
            carry: self.buf@,
            object_epilogue: seen_option(self.object_epilogue),
        }
    }
}

/// What a caller that asks for content gets.
#[derive(Clone, Copy, Debug, PartialEq, Eq, Structural)]
pub enum ReadStep {
    /// So many bytes were handed out; none means that the object has ended or
    /// that no room was offered.
    Done(usize),
    /// Nothing is at hand: the caller has to read the next chunk and hand its
    /// unpacked content in.
    NeedChunk,
    /// The chunk that was handed in unpacked to nothing: the caller should
    /// ask again.
    Again,
}

/// Bytes that may be there, as a sequence.
pub open spec fn bytes_view(data: Option<&[u8]>) -> Option<Seq<u8>> {
    match data {
        Some(bytes) => Some(bytes@),
        None => None,
    }
}

/// The smaller of two lengths.
pub open spec fn shorter(a: int, b: int) -> int {
    if a <= b {
        a
    } else {
        b
    }
}

impl ObjectReader {
    /// Decides what the chunk inside an object means. The payload of a data
    /// chunk is handed back for unpacking; the epilogue is kept and nothing is
    /// handed back.
    ///
    /// Any other chunk at this position, and any chunk after the epilogue, is
    /// a framing error, which stays with the reader of the archive; a failure
    /// that is with that reader already is reported again.
    pub fn read_data(
        &mut self,
        archive: &mut ArchiveReader,
        kind: ChunkType,
        payload: Vec<u8>,
    ) -> (res: Result<Option<Vec<u8>>, ArchiveError>)
        requires
            old(archive).wf(),
        ensures
            final(archive).wf(),
            match Self::data_failure(old(self)@, old(archive)@, kind) {
                Some(e) => res == Err::<Option<Vec<u8>>, ArchiveError>(e) && final(archive)@
                    == failed(old(archive)@, e) && final(self)@ == old(self)@,
                None => final(archive)@ == old(archive)@ && if kind == ChunkType::Data {
                    res is Ok && seen_option(res->Ok_0) == Some(payload@) && final(self)@ == old(
                        self,
                    )@
                } else {
                    res is Ok && res->Ok_0 is None && final(self)@ == (ObjectState {
                        object_epilogue: Some(payload@),
                        ..old(self)@
                    })
                },
            },
    {
        match archive.failure() {
            Some(e) => {
                return Err(e);
            },
            None => {},
        }
        if self.object_epilogue.is_some() {
            return Err(archive.fail(ArchiveError::Framing));
        }
        match kind {
            ChunkType::Data => Ok(Some(payload)),
            ChunkType::Epilogue => {
                self.object_epilogue = Some(payload);
                Ok(None)
            },
            _ => Err(archive.fail(ArchiveError::Framing)),
        }
    }

    /// Why a chunk of kind `kind` inside an object is refused, if it is.
    pub open spec fn data_failure(o: ObjectState, r: ReaderState, kind: ChunkType) -> Option<
        ArchiveError,
    > {
        if r.failure is Some {
            r.failure
        } else if o.object_epilogue is Some {
            Some(ArchiveError::Framing)
        } else if kind == ChunkType::Data || kind == ChunkType::Epilogue {
            None
        } else {
            Some(ArchiveError::Framing)
        }
    }

    /// Hands out content that is at hand. Where `dst` has no room or the
    /// epilogue has been read, nothing is handed out. Where content has been
    /// carried over, as much of it as fits moves to the front of `dst`.
    /// Otherwise the next chunk is needed.
    pub fn read(&mut self, dst: &mut [u8]) -> (res: ReadStep)
        ensures
            res == Self::read_step(old(self)@, old(dst)@.len() as int),
            final(self)@ == (ObjectState {
                carry: old(self)@.carry.skip(Self::handed_out(res)),
                ..old(self)@
            }),
            final(dst)@ == old(self)@.carry.take(Self::handed_out(res)) + old(dst)@.skip(
                Self::handed_out(res),
            ),
    {
        if dst.len() == 0 || self.object_epilogue.is_some() {
            assert(self.buf@.skip(0) =~= self.buf@);
            assert(self.buf@.take(0) + dst@.skip(0) =~= dst@);
            return ReadStep::Done(0);
        }
        if !self.buf.is_empty() {
            let size = self.buf.drain_into(dst);
            return ReadStep::Done(size);
        }
        assert(self.buf@.skip(0) =~= self.buf@);
        assert(self.buf@.take(0) + dst@.skip(0) =~= dst@);
        ReadStep::NeedChunk
    }

    /// What `read` answers to a caller that offers room for `room` bytes.
    pub open spec fn read_step(o: ObjectState, room: int) -> ReadStep {
        if room == 0 || o.object_epilogue is Some {
            ReadStep::Done(0)
        } else if o.carry.len() > 0 {
            ReadStep::Done(shorter(room, o.carry.len() as int) as usize)
        } else {
            ReadStep::NeedChunk
        }
    }

    /// The number of bytes that an answer hands out.
    pub open spec fn handed_out(step: ReadStep) -> int {
        match step {
            ReadStep::Done(size) => size as int,
            _ => 0,
        }
    }

    /// Takes in what the chunk that `read` asked for unpacked to, and hands
    /// out as much content as fits into `dst`; the rest is carried over to the
    /// next call of `read`. `data` is nothing where the chunk was the
    /// epilogue: then the object has ended and nothing is handed out. Where
    /// the chunk unpacked to no bytes and none are carried over, the caller
    /// should ask again.
    pub fn supply(&mut self, dst: &mut [u8], data: Option<&[u8]>) -> (res: ReadStep)
        requires
            data matches Some(bytes) ==> old(self)@.carry.len() + bytes@.len() <= usize::MAX,
        ensures
            res == Self::supply_step(old(self)@, old(dst)@.len() as int, bytes_view(data)),
            final(self)@ == (ObjectState {
                carry: Self::at_hand(old(self)@, bytes_view(data)).skip(Self::handed_out(res)),
                ..old(self)@
            }),
            final(dst)@ == Self::at_hand(old(self)@, bytes_view(data)).take(
                Self::handed_out(res),
            ) + old(dst)@.skip(Self::handed_out(res)),
    {
        match data {
            None => {
                assert(self.buf@.skip(0) =~= self.buf@);
                assert(self.buf@.take(0) + dst@.skip(0) =~= dst@);
                ReadStep::Done(0)
            },
            Some(bytes) => {
                if bytes.len() == 0 && self.buf.is_empty() {
                    assert(self.buf@ + bytes@ =~= self.buf@);
                    assert(self.buf@.skip(0) =~= self.buf@);
                    assert(self.buf@.take(0) + dst@.skip(0) =~= dst@);
                    return ReadStep::Again;
                }
                self.buf.put(bytes);
                let size = self.buf.drain_into(dst);
                ReadStep::Done(size)
            },
        }
    }

    /// The content that is at hand once `data` has been taken in.
    pub open spec fn at_hand(o: ObjectState, data: Option<Seq<u8>>) -> Seq<u8> {
        match data {
            Some(bytes) => o.carry + bytes,
            None => o.carry,
        }
    }

    /// What `supply` answers to a caller that offers room for `room` bytes.
    pub open spec fn supply_step(o: ObjectState, room: int, data: Option<Seq<u8>>) -> ReadStep {
        match data {
            None => ReadStep::Done(0),
            Some(bytes) => if Self::at_hand(o, data).len() == 0 {
                ReadStep::Again
            } else {
                ReadStep::Done(shorter(room, Self::at_hand(o, data).len() as int) as usize)
            },
        }
    }
}

} // verus!
