use secrets::archive::frame::ChunkType;
use secrets::archive::header::{FormatHeader, FORMAT_HEADER_BYTES};
use secrets::archive::object::{ObjectEpilogue, ObjectInfo, ObjectType};
use secrets::archive::reader::{ChunkStep, ObjectReader, ReadStep};
use secrets::archive::volume::volume_file_name;
use secrets::archive::frame::FramePlan;
use secrets::archive::writer::ChunkPlan;
use secrets::archive::{ArchiveError, ArchiveReader, ArchiveWriter};
use secrets::sodium::to_hex;

// A stand-in for the sealing primitive: the plain text followed by sixteen
// bytes that depend on the key, the nonce and the plain text.
fn tag(key: &[u8], nonce: &[u8], plain: &[u8]) -> [u8; 16] {
    let mut state: u64 = 0xcbf2_9ce4_8422_2325;
    let mut out = [0u8; 16];
    for round in 0..2u8 {
        state ^= u64::from(round);
        for byte in key.iter().chain(nonce.iter()).chain(plain.iter()) {
            state ^= u64::from(*byte);
            state = state.wrapping_mul(0x0000_0100_0000_01b3);
        }
        state ^= plain.len() as u64;
        state = state.wrapping_mul(0x0000_0100_0000_01b3);
        out[8 * round as usize..8 * round as usize + 8].copy_from_slice(&state.to_be_bytes());
    }
    out
}

fn seal(key: &[u8], nonce: &[u8], plain: &[u8]) -> Vec<u8> {
    let mut sealed = plain.to_vec();
    sealed.extend_from_slice(&tag(key, nonce, plain));
    sealed
}

fn open(key: &[u8], nonce: &[u8], sealed: &[u8]) -> Option<Vec<u8>> {
    if sealed.len() < 16 {
        return None;
    }
    let (plain, found) = sealed.split_at(sealed.len() - 16);
    if tag(key, nonce, plain) == found {
        Some(plain.to_vec())
    } else {
        None
    }
}

// A stand-in for the content hash.
fn digest(content: &[u8]) -> Vec<u8> {
    let mut out = vec![0u8; 32];
    for (i, byte) in content.iter().enumerate() {
        out[i % 32] = out[i % 32].wrapping_mul(31).wrapping_add(*byte);
    }
    out[31] ^= content.len() as u8;
    out
}

fn key() -> Vec<u8> {
    vec![0x42; 32]
}

fn info(kind: ObjectType, path: &[&str]) -> ObjectInfo {
    let parts: Vec<String> = path.iter().map(|s| s.to_string()).collect();
    ObjectInfo::from_path(
        path.last().unwrap().to_string(),
        format!("/src/{}", path.join("/")),
        &parts,
        kind == ObjectType::Directory,
        kind == ObjectType::File,
    )
    .unwrap()
}

fn encode_info_payload(info: &ObjectInfo) -> Vec<u8> {
    format!("{}:{}", info.object_type.name(), info.path.join("/")).into_bytes()
}

fn encode_epilogue(epilogue: &ObjectEpilogue) -> Vec<u8> {
    format!("{}:{}", epilogue.size, epilogue.hash).into_bytes()
}

struct Sink {
    key: Vec<u8>,
    volumes: Vec<Vec<u8>>,
    kinds: Vec<u8>,
}

impl Sink {
    fn frame(&mut self, frame: &FramePlan, payload: &[u8]) {
        let current = self.volumes.last_mut().unwrap();
        current.extend_from_slice(&seal(&self.key, &frame.info_nonce, &frame.info));
        current.extend_from_slice(&seal(&self.key, &frame.payload_nonce, payload));
        self.kinds.push(frame.info[0]);
    }

    fn chunk(&mut self, plan: &ChunkPlan, payload: &[u8]) {
        if let Some(end) = &plan.volume_end {
            self.frame(&end.frame, b"");
            assert_eq!(end.next_volume as usize, self.volumes.len() + 1);
            self.volumes.push(Vec::new());
        }
        self.frame(&plan.frame, payload);
    }
}

fn start(volume_size: Option<u64>, stream_header: &[u8]) -> (ArchiveWriter, Sink) {
    let (writer, prefix) =
        ArchiveWriter::new(&key(), &[7u8; 16], stream_header, 3, volume_size).unwrap();
    (writer, Sink { key: key(), volumes: vec![prefix], kinds: Vec::new() })
}

fn put_file(writer: &mut ArchiveWriter, sink: &mut Sink, path: &[&str], content: &[u8], piece: usize) {
    let descriptor = info(ObjectType::File, path);
    let payload = encode_info_payload(&descriptor);
    let plan = writer.write_object(descriptor, payload.len()).unwrap();
    sink.chunk(&plan, &payload);
    for part in content.chunks(piece) {
        if let Some(plan) = writer.write_data(part.len(), part.len()).unwrap() {
            sink.chunk(&plan, part);
        }
    }
    let plan = writer.finish_data(0).unwrap();
    sink.chunk(&plan, b"");
    let hash = digest(content);
    let epilogue = encode_epilogue(&writer.epilogue(&hash).unwrap());
    let plan = writer.finish_object(&hash, epilogue.len()).unwrap();
    sink.chunk(&plan, &epilogue);
}

fn put_dir(writer: &mut ArchiveWriter, sink: &mut Sink, path: &[&str]) {
    let descriptor = info(ObjectType::Directory, path);
    let payload = encode_info_payload(&descriptor);
    let plan = writer.write_object(descriptor, payload.len()).unwrap();
    sink.chunk(&plan, &payload);
}

fn finish(writer: &mut ArchiveWriter, sink: &mut Sink) {
    let manifest: Vec<u8> = writer
        .manifest()
        .objects
        .iter()
        .map(|o| String::from_utf8(encode_info_payload(o)).unwrap())
        .collect::<Vec<String>>()
        .join("\n")
        .into_bytes();
    if let Some(plan) = writer.end(manifest.len()).unwrap() {
        sink.chunk(&plan, &manifest);
    }
}

struct Source {
    key: Vec<u8>,
    volumes: Vec<Option<Vec<u8>>>,
    volume: usize,
    at: usize,
}

impl Source {
    fn new(volumes: &[Vec<u8>]) -> (Source, ArchiveReader) {
        let format = FormatHeader::parse(&volumes[0]).unwrap();
        let reader = ArchiveReader::new(&format, &key()).unwrap();
        let source = Source {
            key: key(),
            volumes: volumes.iter().map(|v| Some(v.clone())).collect(),
            volume: 0,
            at: FORMAT_HEADER_BYTES,
        };
        (source, reader)
    }

    fn chunk(&mut self, reader: &mut ArchiveReader) -> Result<(ChunkType, Vec<u8>), ArchiveError> {
        loop {
            let request = reader.request()?;
            let current = self.volumes[self.volume].as_ref().unwrap();
            if self.at + request.len > current.len() {
                return Err(reader.fail(ArchiveError::Truncation));
            }
            let sealed = &current[self.at..self.at + request.len];
            self.at += request.len;
            match reader.read_chunk(open(&self.key, &request.nonce, sealed))? {
                ChunkStep::Payload => {}
                ChunkStep::VolumeEnd => {
                    let name = reader.open_next_volume("archive.001")?;
                    assert_eq!(name, volume_file_name("archive", self.volume as u64 + 2));
                    self.volume += 1;
                    self.at = 0;
                    if self.volume >= self.volumes.len() || self.volumes[self.volume].is_none() {
                        return Err(reader.fail(ArchiveError::Volume));
                    }
                }
                ChunkStep::Chunk(kind, payload) => return Ok((kind, payload)),
            }
        }
    }

    fn content(
        &mut self,
        reader: &mut ArchiveReader,
        object: &mut ObjectReader,
        room: usize,
    ) -> Result<Vec<u8>, ArchiveError> {
        let mut content = Vec::new();
        let mut dst = vec![0u8; room];
        loop {
            match object.read(&mut dst) {
                ReadStep::Done(0) => return Ok(content),
                ReadStep::Done(n) => content.extend_from_slice(&dst[..n]),
                ReadStep::Again => {}
                ReadStep::NeedChunk => {
                    let (kind, payload) = self.chunk(reader)?;
                    let data = object.read_data(reader, kind, payload)?;
                    match object.supply(&mut dst, data.as_deref()) {
                        ReadStep::Done(n) => content.extend_from_slice(&dst[..n]),
                        ReadStep::Again => {}
                        ReadStep::NeedChunk => unreachable!(),
                    }
                }
            }
        }
    }

    fn all(&mut self, reader: &mut ArchiveReader) -> Result<Vec<(String, Vec<u8>, Option<String>)>, ArchiveError> {
        let mut objects = Vec::new();
        loop {
            let (kind, payload) = self.chunk(reader)?;
            let mut object = match reader.read_object(kind, payload)? {
                Some(object) => object,
                None => return Ok(objects),
            };
            let descriptor = String::from_utf8(object.object_info.clone()).unwrap();
            if descriptor.starts_with("directory:") {
                objects.push((descriptor, Vec::new(), None));
                continue;
            }
            let content = self.content(reader, &mut object, 7)?;
            let epilogue = String::from_utf8(object.object_epilogue.clone().unwrap()).unwrap();
            objects.push((descriptor, content, Some(epilogue)));
        }
    }
}

fn header() -> Vec<u8> {
    (50..74u8).collect()
}

#[test]
fn single_file_round_trip() {
    let (mut writer, mut sink) = start(None, &header());
    put_file(&mut writer, &mut sink, &["hello.txt"], b"hello", 2 * 1024 * 1024);
    finish(&mut writer, &mut sink);
    assert_eq!(sink.kinds, vec![1, 0, 0, 2, 4]);
    assert_eq!(sink.volumes.len(), 1);

    let manifest = writer.manifest();
    assert_eq!(manifest.objects.len(), 1);
    let epilogue = manifest.objects[0].epilogue.as_ref().unwrap();
    assert_eq!(epilogue.size, 5);
    assert_eq!(epilogue.hash, to_hex(&digest(b"hello")));
    assert_eq!(epilogue.hash.len(), 64);
    assert_eq!(epilogue.verify(&digest(b"hello")), Ok(()));
    assert_eq!(epilogue.verify(&digest(b"hellp")), Err(ArchiveError::Integrity));

    let (mut source, mut reader) = Source::new(&sink.volumes);
    let objects = source.all(&mut reader).unwrap();
    assert_eq!(objects.len(), 1);
    assert_eq!(objects[0].0, "file:hello.txt");
    assert_eq!(objects[0].1, b"hello".to_vec());
    assert_eq!(
        objects[0].2,
        Some(format!("5:{}", to_hex(&digest(b"hello"))))
    );
    assert_eq!(reader.manifest(), Some(&b"file:hello.txt".to_vec()));
}

#[test]
fn empty_file_round_trip() {
    let (mut writer, mut sink) = start(None, &header());
    put_file(&mut writer, &mut sink, &["empty"], b"", 1024);
    finish(&mut writer, &mut sink);
    assert_eq!(sink.kinds, vec![1, 0, 2, 4]);
    assert_eq!(writer.manifest().objects[0].epilogue.as_ref().unwrap().size, 0);
    let (mut source, mut reader) = Source::new(&sink.volumes);
    let objects = source.all(&mut reader).unwrap();
    assert_eq!(objects.len(), 1);
    assert!(objects[0].1.is_empty());
}

#[test]
fn directory_tree_is_listed_in_order() {
    let (mut writer, mut sink) = start(None, &header());
    put_dir(&mut writer, &mut sink, &["a"]);
    put_file(&mut writer, &mut sink, &["a", "b"], b"content of b", 5);
    put_dir(&mut writer, &mut sink, &["a", "c"]);
    put_file(&mut writer, &mut sink, &["a", "c", "d"], b"d", 5);
    finish(&mut writer, &mut sink);
    let manifest = writer.manifest();
    let paths: Vec<String> = manifest.objects.iter().map(|o| o.path.join("/")).collect();
    assert_eq!(paths, vec!["a", "a/b", "a/c", "a/c/d"]);
    assert!(manifest.objects[0].epilogue.is_none());
    assert!(manifest.objects[1].epilogue.is_some());
    assert!(manifest.objects[2].epilogue.is_none());
    assert!(manifest.objects[3].epilogue.is_some());
    assert_eq!(manifest.objects[0].object_type, ObjectType::Directory);
    assert_eq!(manifest.objects[1].name, "b");
    assert_eq!(manifest.objects[1].original_path, "/src/a/b");

    let (mut source, mut reader) = Source::new(&sink.volumes);
    let objects = source.all(&mut reader).unwrap();
    let found: Vec<&str> = objects.iter().map(|o| o.0.as_str()).collect();
    assert_eq!(found, vec!["directory:a", "file:a/b", "directory:a/c", "file:a/c/d"]);
    assert_eq!(objects[1].1, b"content of b".to_vec());
    assert_eq!(
        reader.manifest().unwrap(),
        &b"directory:a\nfile:a/b\ndirectory:a/c\nfile:a/c/d".to_vec()
    );
}

fn big() -> Vec<u8> {
    let mut state: u32 = 12345;
    (0..10 * 1024 * 1024)
        .map(|_| {
            state = state.wrapping_mul(1_103_515_245).wrapping_add(12345);
            (state >> 16) as u8
        })
        .collect()
}

#[test]
fn volumes_stay_within_their_size() {
    let limit: u64 = 2 * 1024 * 1024;
    let content = big();
    let (mut writer, mut sink) = start(Some(limit), &header());
    put_file(&mut writer, &mut sink, &["big.bin"], &content, 256 * 1024);
    finish(&mut writer, &mut sink);
    assert!(sink.volumes.len() >= 5);
    assert_eq!(writer.volume_counter() as usize, sink.volumes.len());
    assert_eq!(writer.byte_count() as usize, sink.volumes.last().unwrap().len());
    for volume in &sink.volumes {
        assert!(volume.len() as u64 <= limit);
    }

    let (mut source, mut reader) = Source::new(&sink.volumes);
    let objects = source.all(&mut reader).unwrap();
    assert_eq!(objects.len(), 1);
    assert!(objects[0].1 == content);
}

#[test]
fn missing_volume_is_a_volume_error() {
    let content = big();
    let (mut writer, mut sink) = start(Some(2 * 1024 * 1024), &header());
    put_file(&mut writer, &mut sink, &["big.bin"], &content, 256 * 1024);
    finish(&mut writer, &mut sink);
    let (mut source, mut reader) = Source::new(&sink.volumes);
    source.volumes[2] = None;
    assert_eq!(source.all(&mut reader).err(), Some(ArchiveError::Volume));
    assert_eq!(reader.failure(), Some(ArchiveError::Volume));
    assert_eq!(reader.request().err(), Some(ArchiveError::Volume));
}

#[test]
fn truncated_volume_is_a_truncation_error() {
    let (mut writer, mut sink) = start(None, &header());
    put_file(&mut writer, &mut sink, &["f"], b"some content", 4);
    finish(&mut writer, &mut sink);
    let mut volumes = sink.volumes.clone();
    let cut = volumes[0].len() - 10;
    volumes[0].truncate(cut);
    let (mut source, mut reader) = Source::new(&volumes);
    assert_eq!(source.all(&mut reader).err(), Some(ArchiveError::Truncation));
    assert_eq!(reader.read_chunk(Some(vec![1, 0, 0, 0, 16])).err(), Some(ArchiveError::Truncation));
}

#[test]
fn reader_goes_on_after_a_failure_of_the_source() {
    let mut reader = fresh_reader();
    assert_eq!(reader.fail(ArchiveError::Io), ArchiveError::Io);
    assert!(reader.failure().is_none());
    assert!(reader.request().is_ok());
    assert_eq!(reader.fail(ArchiveError::Truncation), ArchiveError::Truncation);
    assert_eq!(reader.fail(ArchiveError::Io), ArchiveError::Truncation);
    assert_eq!(reader.failure(), Some(ArchiveError::Truncation));
    assert_eq!(reader.request().err(), Some(ArchiveError::Truncation));
    assert_eq!(reader.open_next_volume("a.001").err(), Some(ArchiveError::Truncation));
}

#[test]
fn any_flipped_bit_fails_authentication() {
    let (mut writer, mut sink) = start(None, &header());
    put_file(&mut writer, &mut sink, &["f"], b"0123456789", 4);
    finish(&mut writer, &mut sink);
    let length = sink.volumes[0].len();
    for position in (FORMAT_HEADER_BYTES..length).step_by(3) {
        let mut volumes = sink.volumes.clone();
        volumes[0][position] ^= 0x10;
        let (mut source, mut reader) = Source::new(&volumes);
        assert_eq!(source.all(&mut reader).err(), Some(ArchiveError::Auth));
        assert_eq!(reader.failure(), Some(ArchiveError::Auth));
    }
}

#[test]
fn flipped_length_fails_on_the_info_record() {
    let (mut writer, mut sink) = start(None, &header());
    put_file(&mut writer, &mut sink, &["f"], b"0123456789", 4);
    finish(&mut writer, &mut sink);
    let mut volumes = sink.volumes.clone();
    volumes[0][FORMAT_HEADER_BYTES + 4] ^= 0x01;
    let (mut source, mut reader) = Source::new(&volumes);
    assert_eq!(source.chunk(&mut reader).err(), Some(ArchiveError::Auth));
    assert_eq!(source.at, FORMAT_HEADER_BYTES + 21);
}

#[test]
fn wrong_key_fails_on_the_first_record() {
    let (mut writer, mut sink) = start(None, &header());
    put_file(&mut writer, &mut sink, &["f"], b"0123456789", 4);
    finish(&mut writer, &mut sink);
    let (mut source, mut reader) = Source::new(&sink.volumes);
    source.key = vec![0x43; 32];
    assert_eq!(source.chunk(&mut reader).err(), Some(ArchiveError::Auth));
    assert_eq!(source.at, FORMAT_HEADER_BYTES + 21);
}

#[test]
fn swapped_chunks_fail_authentication() {
    let (mut writer, mut sink) = start(None, &header());
    put_file(&mut writer, &mut sink, &["f"], b"01234567", 4);
    finish(&mut writer, &mut sink);
    // The chunks are: header, data "0123", data "4567", data "", epilogue, end.
    let first = FORMAT_HEADER_BYTES + 21 + "file:f".len() + 16;
    let size = 21 + 4 + 16;
    let mut volumes = sink.volumes.clone();
    let a: Vec<u8> = volumes[0][first..first + size].to_vec();
    let b: Vec<u8> = volumes[0][first + size..first + 2 * size].to_vec();
    volumes[0][first..first + size].copy_from_slice(&b);
    volumes[0][first + size..first + 2 * size].copy_from_slice(&a);
    let (mut source, mut reader) = Source::new(&volumes);
    assert_eq!(source.chunk(&mut reader).unwrap().0, ChunkType::Header);
    assert_eq!(source.chunk(&mut reader).err(), Some(ArchiveError::Auth));
    assert_eq!(source.at, first + 21);
}

#[test]
fn spliced_volume_fails_authentication() {
    let content = vec![5u8; 12_000];
    let (mut writer, mut sink) = start(Some(10_000), &header());
    put_file(&mut writer, &mut sink, &["f"], &content, 3000);
    finish(&mut writer, &mut sink);
    let other_header: Vec<u8> = (150..174u8).collect();
    let (mut other_writer, mut other_sink) = start(Some(10_000), &other_header);
    put_file(&mut other_writer, &mut other_sink, &["f"], &content, 3000);
    finish(&mut other_writer, &mut other_sink);
    assert!(sink.volumes.len() >= 2);
    assert_eq!(sink.volumes.len(), other_sink.volumes.len());

    let mut volumes = sink.volumes.clone();
    volumes[1] = other_sink.volumes[1].clone();
    let (mut source, mut reader) = Source::new(&volumes);
    assert_eq!(source.all(&mut reader).err(), Some(ArchiveError::Auth));
    assert_eq!(source.volume, 1);
    assert_eq!(source.at, 21);
}

#[test]
fn end_is_written_once() {
    let (mut writer, mut sink) = start(None, &header());
    put_dir(&mut writer, &mut sink, &["d"]);
    assert!(!writer.ended());
    let plan = writer.end(10).unwrap();
    assert!(plan.is_some());
    assert_eq!(plan.unwrap().frame.info[0], 4);
    assert!(writer.ended());
    let count = writer.byte_count();
    assert!(writer.end(10).unwrap().is_none());
    assert!(writer.end(999).unwrap().is_none());
    assert_eq!(writer.byte_count(), count);
    assert_eq!(
        writer.write_object(info(ObjectType::Directory, &["e"]), 3).err(),
        Some(ArchiveError::Framing)
    );
    assert_eq!(writer.manifest().objects.len(), 1);
}

#[test]
fn writer_refuses_steps_out_of_order() {
    let (mut writer, _sink) = start(None, &header());
    assert_eq!(writer.write_data(1, 1).err(), Some(ArchiveError::Framing));
    let (mut writer, _sink) = start(None, &header());
    assert_eq!(writer.finish_data(0).err(), Some(ArchiveError::Framing));
    let (mut writer, _sink) = start(None, &header());
    assert_eq!(writer.finish_object(&[0; 32], 5).err(), Some(ArchiveError::Framing));
    let (mut writer, _sink) = start(None, &header());
    assert!(writer.epilogue(&[0; 32]).is_none());
    writer.write_object(info(ObjectType::File, &["f"]), 6).unwrap();
    assert_eq!(
        writer.write_object(info(ObjectType::File, &["g"]), 6).err(),
        Some(ArchiveError::Framing)
    );
    let (mut writer, _sink) = start(None, &header());
    writer.write_object(info(ObjectType::File, &["f"]), 6).unwrap();
    assert_eq!(writer.end(4).err(), Some(ArchiveError::Framing));
}

#[test]
fn writer_stays_failed_after_a_step_out_of_order() {
    let (mut writer, _sink) = start(None, &header());
    assert!(writer.failure().is_none());
    assert_eq!(writer.finish_data(0).err(), Some(ArchiveError::Framing));
    assert_eq!(writer.failure(), Some(ArchiveError::Framing));
    let count = writer.byte_count();
    assert_eq!(
        writer.write_object(info(ObjectType::Directory, &["d"]), 3).err(),
        Some(ArchiveError::Framing)
    );
    assert_eq!(writer.write_data(1, 1).err(), Some(ArchiveError::Framing));
    assert_eq!(writer.end(3).err(), Some(ArchiveError::Framing));
    assert_eq!(writer.byte_count(), count);
    assert!(!writer.ended());
    assert!(writer.manifest().objects.is_empty());
}

#[test]
fn writer_goes_on_after_a_chunk_that_is_too_large() {
    let (mut writer, _sink) = start(None, &header());
    writer.write_object(info(ObjectType::File, &["f"]), 6).unwrap();
    assert!(writer.write_data(10, 0).unwrap().is_none());
    assert!(writer.write_data(10, 3).unwrap().is_some());
    assert_eq!(writer.epilogue(&[1; 32]).unwrap().size, 20);
    assert_eq!(writer.finish_data(0xffff_fff0).err(), Some(ArchiveError::Format));
    assert_eq!(writer.write_data(5, 0xffff_fff0).err(), Some(ArchiveError::Format));
    assert_eq!(writer.epilogue(&[1; 32]).unwrap().size, 20);
    assert!(writer.failure().is_none());
    writer.finish_data(0).unwrap();
    writer.finish_object(&[1; 32], 70).unwrap();
    assert_eq!(writer.manifest().objects.len(), 1);
    assert_eq!(writer.compression_level(), 3);
    assert_eq!(writer.volume_size(), None);
    assert_eq!(writer.key(), key().as_slice());
}

#[test]
fn writer_counts_content_within_64_bits() {
    let (mut writer, _sink) = start(None, &header());
    writer.write_object(info(ObjectType::File, &["f"]), 6).unwrap();
    assert!(writer.write_data(usize::MAX, 0).unwrap().is_none());
    assert_eq!(writer.write_data(usize::MAX, 0).err(), Some(ArchiveError::Exhausted));
    assert_eq!(writer.epilogue(&[0; 32]).unwrap().size, usize::MAX as u64);
    assert!(writer.failure().is_none());
    assert!(writer.write_data(0, 0).unwrap().is_none());
}

#[test]
fn writer_checks_its_inputs() {
    assert_eq!(
        ArchiveWriter::new(&[0; 31], &[0; 16], &header(), 3, None).err(),
        Some(ArchiveError::Kdf)
    );
    assert_eq!(
        ArchiveWriter::new(&key(), &[0; 15], &header(), 3, None).err(),
        Some(ArchiveError::Format)
    );
    assert_eq!(
        ArchiveWriter::new(&key(), &[0; 16], &[0; 23], 3, None).err(),
        Some(ArchiveError::Format)
    );
    let (writer, prefix) = ArchiveWriter::new(&key(), &[9; 16], &header(), -5, Some(1)).unwrap();
    assert_eq!(prefix.len(), 56);
    assert_eq!(&prefix[0..16], &[9u8; 16]);
    assert_eq!(&prefix[16..24], &[0, 0, 0, 0, 0, 0, 0, 3]);
    assert_eq!(&prefix[24..32], &[0, 0, 0, 0, 0x40, 0, 0, 0]);
    assert_eq!(&prefix[32..], header().as_slice());
    assert_eq!(writer.byte_count(), 56);
    assert_eq!(writer.volume_counter(), 1);
    assert_eq!(writer.compression_level(), -5);
}

#[test]
fn rotation_follows_the_budget() {
    // A chunk goes into the current volume while the bytes there, the chunk,
    // the allowance of 1061 bytes and the margin of 4096 bytes stay within the
    // size of the volume.
    let (mut writer, _sink) = start(Some(10_000), &header());
    let plan = writer.write_object(info(ObjectType::File, &["f"]), 4750).unwrap();
    assert!(plan.volume_end.is_none());
    assert_eq!(writer.byte_count(), 56 + 37 + 4750);
    let (mut writer, _sink) = start(Some(10_000), &header());
    let plan = writer.write_object(info(ObjectType::File, &["f"]), 4751).unwrap();
    let end = plan.volume_end.unwrap();
    assert_eq!(end.next_volume, 2);
    assert_eq!(end.frame.info, vec![3, 0, 0, 0, 16]);
    assert_eq!(end.frame.info_nonce, header());
    assert_eq!(plan.frame.info, vec![1, 0, 0, 0x12, 0x9f]);
    assert_eq!(writer.byte_count(), 37 + 4751);
    assert_eq!(writer.volume_counter(), 2);
}

#[test]
fn reader_checks_its_inputs() {
    let format = FormatHeader {
        salt: vec![0; 16],
        opslimit: 3,
        memlimit: 8192,
        stream_header: header(),
    };
    assert_eq!(ArchiveReader::new(&format, &[0; 31]).err(), Some(ArchiveError::Kdf));
    let bad = FormatHeader { salt: vec![0; 16], opslimit: 3, memlimit: 8192, stream_header: vec![0; 3] };
    assert_eq!(ArchiveReader::new(&bad, &key()).err(), Some(ArchiveError::Format));
    let reader = ArchiveReader::new(&format, &key()).unwrap();
    let request = reader.request().unwrap();
    assert_eq!(request.len, 21);
    assert_eq!(request.nonce, header());
    assert_eq!(reader.key(), key().as_slice());
    assert!(reader.manifest().is_none());
    assert!(reader.failure().is_none());
}

fn fresh_reader() -> ArchiveReader {
    let format = FormatHeader {
        salt: vec![0; 16],
        opslimit: 3,
        memlimit: 8192,
        stream_header: header(),
    };
    ArchiveReader::new(&format, &key()).unwrap()
}

#[test]
fn reader_refuses_malformed_records() {
    let mut reader = fresh_reader();
    assert_eq!(reader.read_chunk(Some(vec![9, 0, 0, 0, 16])).err(), Some(ArchiveError::Framing));
    assert_eq!(reader.read_chunk(Some(vec![1, 0, 0, 0, 16])).err(), Some(ArchiveError::Framing));

    let mut reader = fresh_reader();
    assert!(matches!(reader.read_chunk(Some(vec![0, 0, 0, 0, 20])), Ok(ChunkStep::Payload)));
    assert_eq!(reader.request().unwrap().len, 20);
    assert_eq!(reader.read_chunk(Some(vec![1, 2, 3])).err(), Some(ArchiveError::Framing));

    let mut reader = fresh_reader();
    assert!(matches!(reader.read_chunk(Some(vec![3, 0, 0, 0, 17])), Ok(ChunkStep::Payload)));
    assert_eq!(reader.read_chunk(Some(vec![1])).err(), Some(ArchiveError::Framing));
}

#[test]
fn reader_refuses_chunks_out_of_place() {
    let mut reader = fresh_reader();
    assert_eq!(
        reader.read_object(ChunkType::Data, vec![1]).err(),
        Some(ArchiveError::Framing)
    );
    assert_eq!(
        reader.read_object(ChunkType::Header, vec![1]).err(),
        Some(ArchiveError::Framing)
    );

    let mut reader = fresh_reader();
    assert_eq!(
        reader.read_object(ChunkType::Epilogue, vec![1]).err(),
        Some(ArchiveError::Framing)
    );

    let mut reader = fresh_reader();
    let mut object = reader.read_object(ChunkType::Header, b"x".to_vec()).unwrap().unwrap();
    assert_eq!(object.object_info, b"x".to_vec());
    assert_eq!(
        object.read_data(&mut reader, ChunkType::Data, vec![4, 5]).unwrap(),
        Some(vec![4, 5])
    );
    assert_eq!(object.read_data(&mut reader, ChunkType::Epilogue, vec![6]).unwrap(), None);
    assert_eq!(object.object_epilogue, Some(vec![6]));
    assert_eq!(
        object.read_data(&mut reader, ChunkType::Data, vec![7]).err(),
        Some(ArchiveError::Framing)
    );
    assert_eq!(reader.failure(), Some(ArchiveError::Framing));

    let mut reader = fresh_reader();
    let mut object = reader.read_object(ChunkType::Header, b"x".to_vec()).unwrap().unwrap();
    assert_eq!(
        object.read_data(&mut reader, ChunkType::End, vec![7]).err(),
        Some(ArchiveError::Framing)
    );

    let mut reader = fresh_reader();
    assert!(reader.read_object(ChunkType::End, b"m".to_vec()).unwrap().is_none());
    assert_eq!(reader.manifest(), Some(&b"m".to_vec()));
    assert_eq!(
        reader.read_object(ChunkType::Header, vec![1]).err(),
        Some(ArchiveError::Framing)
    );
}

#[test]
fn object_reader_carries_content_over() {
    let mut reader = fresh_reader();
    let mut object = reader.read_object(ChunkType::Header, b"x".to_vec()).unwrap().unwrap();
    let mut dst = [0u8; 4];
    let mut none: [u8; 0] = [];
    assert_eq!(object.read(&mut none), ReadStep::Done(0));
    assert_eq!(object.read(&mut dst), ReadStep::NeedChunk);
    assert_eq!(object.supply(&mut dst, Some(b"")), ReadStep::Again);
    assert_eq!(object.supply(&mut dst, Some(b"abcdefghij")), ReadStep::Done(4));
    assert_eq!(&dst, b"abcd");
    assert_eq!(object.read(&mut dst), ReadStep::Done(4));
    assert_eq!(&dst, b"efgh");
    assert_eq!(object.read(&mut dst), ReadStep::Done(2));
    assert_eq!(&dst, b"ijgh");
    assert_eq!(object.read(&mut dst), ReadStep::NeedChunk);
    assert_eq!(object.supply(&mut dst, Some(b"k")), ReadStep::Done(1));
    assert_eq!(object.supply(&mut dst, None), ReadStep::Done(0));
    object.read_data(&mut reader, ChunkType::Epilogue, vec![1]).unwrap();
    assert_eq!(object.read(&mut dst), ReadStep::Done(0));
}

#[test]
fn unsupported_objects_are_refused() {
    let parts = vec!["x".to_string()];
    assert_eq!(
        ObjectInfo::from_path("x".into(), "/x".into(), &parts, false, false).err(),
        Some(ArchiveError::UnsupportedObject)
    );
    let dir = ObjectInfo::from_path("x".into(), "/x".into(), &parts, true, true).unwrap();
    assert_eq!(dir.object_type, ObjectType::Directory);
    let file = ObjectInfo::from_path("x".into(), "/x".into(), &parts, false, true).unwrap();
    assert_eq!(file.object_type, ObjectType::File);
    assert!(file.epilogue.is_none());
    assert_eq!(file.clone().path, parts);
    assert_eq!(ObjectType::parse("file"), Some(ObjectType::File));
    assert_eq!(ObjectType::parse("directory"), Some(ObjectType::Directory));
    assert_eq!(ObjectType::parse("symlink"), None);
    assert_eq!(ObjectType::File.name(), "file");
    assert_eq!(ObjectType::Directory.name(), "directory");
}
