use secrets::archive::frame::{
    decode_info, encode_info, write_frame, ChunkType, INFO_BYTES, INFO_FRAME_BYTES,
};
use secrets::sodium::secretstream::SecretStream;
use secrets::archive::header::{FormatHeader, FORMAT_HEADER_BYTES, MEMLIMIT, OPSLIMIT, SALT_BYTES};
use secrets::archive::ArchiveError;

#[test]
fn chunk_kinds_have_stable_codes() {
    assert_eq!(ChunkType::Data.code(), 0);
    assert_eq!(ChunkType::Header.code(), 1);
    assert_eq!(ChunkType::Epilogue.code(), 2);
    assert_eq!(ChunkType::VolumeEnd.code(), 3);
    assert_eq!(ChunkType::End.code(), 4);
    for code in 0..=4u8 {
        assert_eq!(ChunkType::try_from(code).unwrap().code(), code);
    }
    assert_eq!(ChunkType::try_from(5), Err(ArchiveError::Format));
    assert_eq!(ChunkType::try_from(255), Err(ArchiveError::Format));
}

#[test]
fn info_record_carries_kind_and_sealed_length() {
    assert_eq!(INFO_BYTES, 5);
    assert_eq!(INFO_FRAME_BYTES, 21);
    assert_eq!(encode_info(ChunkType::Header, 5).unwrap(), vec![1, 0, 0, 0, 21]);
    assert_eq!(encode_info(ChunkType::VolumeEnd, 0).unwrap(), vec![3, 0, 0, 0, 16]);
    assert_eq!(
        encode_info(ChunkType::Data, 0x0102_0304 - 16).unwrap(),
        vec![0, 1, 2, 3, 4]
    );
}

#[test]
fn info_record_round_trip() {
    for kind in [
        ChunkType::Data,
        ChunkType::Header,
        ChunkType::Epilogue,
        ChunkType::VolumeEnd,
        ChunkType::End,
    ] {
        for len in [0usize, 1, 255, 256, 65_536, 2 * 1024 * 1024, 0xffff_ffef] {
            let info = encode_info(kind, len).unwrap();
            assert_eq!(decode_info(&info), Ok((kind, (len + 16) as u32)));
        }
    }
}

#[test]
fn payload_must_fit_in_32_bits() {
    assert!(encode_info(ChunkType::Data, 0xffff_ffef).is_ok());
    assert_eq!(encode_info(ChunkType::Data, 0xffff_fff0), Err(ArchiveError::Format));
    assert_eq!(encode_info(ChunkType::Data, usize::MAX), Err(ArchiveError::Format));
}

#[test]
fn malformed_info_is_refused() {
    assert_eq!(decode_info(&[1, 0, 0, 0]), Err(ArchiveError::Format));
    assert_eq!(decode_info(&[1, 0, 0, 0, 16, 0]), Err(ArchiveError::Format));
    assert_eq!(decode_info(&[5, 0, 0, 0, 16]), Err(ArchiveError::Format));
    assert_eq!(decode_info(&[1, 0, 0, 0, 15]), Err(ArchiveError::Format));
    assert_eq!(decode_info(&[1, 0, 0, 0, 16]), Ok((ChunkType::Header, 16)));
    assert_eq!(decode_info(&[4, 0xff, 0xff, 0xff, 0xff]), Ok((ChunkType::End, u32::MAX)));
}

#[test]
fn format_header_layout() {
    let format = FormatHeader {
        salt: (0..16u8).collect(),
        opslimit: OPSLIMIT,
        memlimit: MEMLIMIT as u64,
        stream_header: (100..124u8).collect(),
    };
    let bytes = format.encode().unwrap();
    assert_eq!(bytes.len(), FORMAT_HEADER_BYTES);
    assert_eq!(FORMAT_HEADER_BYTES, 56);
    assert_eq!(SALT_BYTES, 16);
    assert_eq!(&bytes[0..16], (0..16u8).collect::<Vec<u8>>().as_slice());
    assert_eq!(&bytes[16..24], &[0, 0, 0, 0, 0, 0, 0, 3]);
    assert_eq!(&bytes[24..32], &[0, 0, 0, 0, 0x40, 0, 0, 0]);
    assert_eq!(&bytes[32..56], (100..124u8).collect::<Vec<u8>>().as_slice());
}

#[test]
fn format_header_round_trip() {
    let format = FormatHeader {
        salt: vec![0xab; 16],
        opslimit: 0x0102_0304_0506_0708,
        memlimit: u64::MAX,
        stream_header: vec![0xcd; 24],
    };
    let mut bytes = format.encode().unwrap();
    bytes.extend_from_slice(b"frames follow");
    let back = FormatHeader::parse(&bytes).unwrap();
    assert_eq!(back.salt, format.salt);
    assert_eq!(back.opslimit, format.opslimit);
    assert_eq!(back.memlimit, format.memlimit);
    assert_eq!(back.stream_header, format.stream_header);
}

#[test]
fn format_header_errors() {
    assert_eq!(FormatHeader::parse(&[0u8; 55]).err(), Some(ArchiveError::Truncation));
    assert_eq!(FormatHeader::parse(&[]).err(), Some(ArchiveError::Truncation));
    let short_salt = FormatHeader {
        salt: vec![0; 15],
        opslimit: 3,
        memlimit: 8192,
        stream_header: vec![0; 24],
    };
    assert_eq!(short_salt.encode(), Err(ArchiveError::Format));
    let long_header = FormatHeader {
        salt: vec![0; 16],
        opslimit: 3,
        memlimit: 8192,
        stream_header: vec![0; 25],
    };
    assert_eq!(long_header.encode(), Err(ArchiveError::Format));
}

#[test]
fn errors_say_what_they_are() {
    assert!(ArchiveError::Auth.is_fatal());
    assert!(ArchiveError::Framing.is_fatal());
    assert!(ArchiveError::Truncation.is_fatal());
    assert!(ArchiveError::Volume.is_fatal());
    assert!(!ArchiveError::Io.is_fatal());
    assert!(!ArchiveError::Format.is_fatal());
    assert!(!ArchiveError::Kdf.is_fatal());
    assert!(!ArchiveError::Compression.is_fatal());
    assert!(!ArchiveError::Exhausted.is_fatal());
    assert!(!ArchiveError::Integrity.is_fatal());
    assert_eq!(ArchiveError::Auth.message(), "a frame failed authentication");
    assert_eq!(ArchiveError::UnsupportedObject.message(), "unexpected object type");
}

#[test]
fn frame_takes_two_messages_of_the_stream() {
    let header: Vec<u8> = (1..=24u8).collect();
    let mut stream = SecretStream::new_push(&[0u8; 32], &header).unwrap();
    let plan = write_frame(&mut stream, ChunkType::Epilogue, 100).unwrap();
    assert_eq!(plan.info, vec![2, 0, 0, 0, 116]);
    assert_eq!(plan.info_nonce, header);
    let mut second = header.clone();
    second[23] += 1;
    assert_eq!(plan.payload_nonce, second);
    assert_eq!(stream.counter(), 2);
    assert_eq!(
        write_frame(&mut stream, ChunkType::Data, 0xffff_fff0).err(),
        Some(ArchiveError::Format)
    );
    assert_eq!(stream.counter(), 2);
    let mut puller = SecretStream::new_pull(&header, &[0u8; 32]).unwrap();
    assert_eq!(
        write_frame(&mut puller, ChunkType::Data, 1).err(),
        Some(ArchiveError::Framing)
    );
    assert_eq!(puller.counter(), 0);
}
