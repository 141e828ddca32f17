use secrets::archive::stream::{Chunk, Error as StreamError, StreamReader, StreamWriter};
use secrets::encoding::Base64Data;
use secrets::errors::Error;
use secrets::key;
use secrets::keys;
use secrets::keys::{fallback, key_file_name, KeyType};
use secrets::kyber;
use secrets::sodium::crypto_box;
use secrets::sodium::signing;
use secrets::sodium::signing::SignError;
use secrets::streams::{ChunkType, Stream, StreamMode};

#[test]
fn error_text_names_the_cause() {
    let plain = Error::new("Invalid chunk type");
    assert_eq!(plain.to_string(), "Invalid chunk type");
    assert_eq!(plain.message(), "Invalid chunk type");
    assert!(plain.source().is_none());
    let wrapped = Error::wrap("IO error", "file not found");
    assert_eq!(wrapped.to_string(), "IO error: file not found");
    assert_eq!(wrapped.source(), Some(&"file not found".to_string()));
}

#[test]
fn key_types_have_words() {
    assert_eq!(KeyType::FullKey.name(), "full");
    assert_eq!(KeyType::PublicKey.name(), "public");
    assert_eq!(KeyType::parse("full"), Some(KeyType::FullKey));
    assert_eq!(KeyType::parse("public"), Some(KeyType::PublicKey));
    assert_eq!(KeyType::parse("Full"), None);
    assert_eq!(key_file_name(None, KeyType::FullKey), "key.key");
    assert_eq!(key_file_name(None, KeyType::PublicKey), "key.pub");
    assert_eq!(key_file_name(Some("work"), KeyType::FullKey), "work.key");
    assert_eq!(key_file_name(Some("work"), KeyType::PublicKey), "work.pub");
    assert_eq!(fallback(KeyType::PublicKey), Some(KeyType::FullKey));
    assert_eq!(fallback(KeyType::FullKey), None);
}

#[test]
fn public_export_drops_the_secret_halves() {
    let full = keys::Key::full(
        crypto_box::Keypair { pk: vec![1; 32], sk: vec![2; 32] },
        signing::Keypair { public_key: vec![3; 32], private_key: vec![4; 64] },
    );
    assert_eq!(full.key_type, KeyType::FullKey);
    assert_eq!(full.enc_sk.as_ref().unwrap().0, vec![2; 32]);
    assert_eq!(full.sig_sk.as_ref().unwrap().0, vec![4; 64]);
    let public = full.export_public();
    assert_eq!(public.key_type, KeyType::PublicKey);
    assert_eq!(public.enc_pk.0, vec![1; 32]);
    assert_eq!(public.sig_pk.0, vec![3; 32]);
    assert!(public.enc_sk.is_none());
    assert!(public.sig_sk.is_none());
    assert_eq!(Base64Data(vec![1, 2, 3]).encode(), "AQID");
}

#[test]
fn public_keys_of_a_key() {
    let key = key::Key::generate(
        crypto_box::Keypair { pk: vec![1; 32], sk: vec![2; 32] },
        kyber::Keypair { pk: vec![5; 100], sk: vec![6; 200] },
    );
    let public = key.export_public_keys();
    assert_eq!(public.box_pk, vec![1; 32]);
    assert_eq!(public.kyber_pk, vec![5; 100]);
    assert_eq!(key.box_keypair().sk, vec![2; 32]);
    assert_eq!(key.kyber_keypair().sk, vec![6; 200]);
}

#[test]
fn box_sizes() {
    assert_eq!(crypto_box::nonce_bytes(), 24);
    assert_eq!(crypto_box::public_key_bytes(), 32);
    assert_eq!(crypto_box::private_key_bytes(), 32);
    assert_eq!(crypto_box::mac_bytes(), 16);
    assert_eq!(crypto_box::MAC_BYTES, 16);
    assert_eq!(crypto_box::opened_len(15), None);
    assert_eq!(crypto_box::opened_len(16), Some(0));
    assert_eq!(crypto_box::opened_len(48), Some(32));
}

#[test]
fn signature_sizes() {
    assert_eq!(signing::signed_len(10, 64), Ok(74));
    assert_eq!(signing::signed_len(10, 32), Err(SignError::SecretKeyLength));
    assert_eq!(signing::opened_len(74, 32), Ok(10));
    assert_eq!(signing::opened_len(63, 31), Err(SignError::TooShort));
    assert_eq!(signing::opened_len(64, 31), Err(SignError::PublicKeyLength));
    assert_eq!(signing::check_detached(64, 32), Ok(()));
    assert_eq!(signing::check_detached(63, 32), Err(SignError::SignatureLength));
    assert_eq!(signing::check_detached(63, 33), Err(SignError::PublicKeyLength));
}

fn header() -> Vec<u8> {
    (1..=24u8).collect()
}

#[test]
fn plain_stream_round_trip() {
    let key = vec![8u8; 32];
    let (mut writer, prefix) = StreamWriter::new(&key, &header()).unwrap();
    assert_eq!(prefix, header());
    let mut reader = StreamReader::new(&prefix, &key).unwrap();
    assert_eq!(writer.key(), reader.key());
    for (kind, data) in [(0u8, b"first".to_vec()), (7, Vec::new()), (255, vec![1; 300])] {
        let plan = writer.write_chunk(data.len(), kind).unwrap();
        assert_eq!(plan.info.len(), 9);
        assert_eq!(plan.info[0], kind);
        assert_eq!(&plan.info[1..], &((data.len() + 16) as u64).to_be_bytes());
        assert_eq!(reader.wanted(), 25);
        assert_eq!(reader.nonce(), plan.info_nonce);
        match reader.read_chunk(Some(plan.info.clone())).unwrap() {
            Chunk::Payload(len) => assert_eq!(len, data.len() as u64 + 16),
            Chunk::Chunk(_, _) => panic!("payload expected"),
        }
        assert_eq!(reader.wanted(), data.len() as u64 + 16);
        assert_eq!(reader.nonce(), plan.payload_nonce);
        match reader.read_chunk(Some(data.clone())).unwrap() {
            Chunk::Chunk(found, found_kind) => {
                assert_eq!(found, data);
                assert_eq!(found_kind, kind);
            }
            Chunk::Payload(_) => panic!("chunk expected"),
        }
    }
}

#[test]
fn plain_stream_errors() {
    let key = vec![8u8; 32];
    match StreamWriter::new(&key[1..], &header()).err().unwrap() {
        StreamError::CryptoError(text) => assert_eq!(text, "Key length invalid"),
        StreamError::IOError(_) => panic!("no input or output here"),
    }
    match StreamReader::new(&header()[1..], &key).err().unwrap() {
        StreamError::CryptoError(text) => assert_eq!(text, "Header too short"),
        StreamError::IOError(_) => panic!("no input or output here"),
    }
    let mut reader = StreamReader::new(&header(), &key).unwrap();
    let refused = reader.read_chunk(None).err().unwrap();
    assert_eq!(refused.to_string(), "CryptoError");
    match refused {
        StreamError::CryptoError(text) => assert_eq!(text, "Invalid ciphertext"),
        StreamError::IOError(_) => panic!("no input or output here"),
    }
    assert!(reader.read_chunk(Some(vec![1, 2, 3])).is_err());
    assert_eq!(reader.wanted(), 25);
    assert_eq!(reader.nonce(), header());
    assert_eq!(StreamError::IOError("gone".to_string()).to_string(), "IOError");
}

#[test]
fn file_stream_checks_its_mode() {
    let key = vec![8u8; 32];
    let (mut writing, prefix) = Stream::create(&key, &header()).unwrap();
    assert_eq!(writing.mode(), StreamMode::Write);
    let mut reading = Stream::open(&prefix, &key).unwrap();
    assert_eq!(reading.mode(), StreamMode::Read);
    assert_eq!(
        reading.write_chunk(3, ChunkType::FileData).err().unwrap().to_string(),
        "Wrong file mode"
    );
    assert_eq!(
        writing.read_chunk(Some(vec![1])).err().unwrap().to_string(),
        "Wrong file mode"
    );
    let plan = writing.write_chunk(3, ChunkType::FileSentinel).unwrap();
    assert_eq!(plan.info, vec![2, 0, 0, 0, 0, 0, 0, 0, 19]);
    let (step, kind) = reading.read_chunk(Some(plan.info)).unwrap();
    assert!(matches!(step, Chunk::Payload(19)));
    assert_eq!(kind, None);
    let (step, kind) = reading.read_chunk(Some(vec![1, 2, 3])).unwrap();
    assert!(matches!(step, Chunk::Chunk(_, 2)));
    assert_eq!(kind, Some(ChunkType::FileSentinel));
    assert_eq!(reading.read_chunk(None).err().unwrap().to_string(), "Invalid ciphertext");
    assert_eq!(Stream::open(&prefix[1..], &key).err().unwrap().to_string(), "Header too short");
    assert_eq!(Stream::create(&key[1..], &prefix).err().unwrap().to_string(), "Key length invalid");
}

#[test]
fn file_chunk_kinds() {
    assert_eq!(ChunkType::FileData.code(), 0);
    assert_eq!(ChunkType::FileHeader.code(), 1);
    assert_eq!(ChunkType::FileSentinel.code(), 2);
    assert_eq!(ChunkType::try_from(1).unwrap(), ChunkType::FileHeader);
    assert_eq!(ChunkType::try_from(3).err().unwrap().to_string(), "Invalid chunk type");
}
