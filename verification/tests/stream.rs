use secrets::sodium::secretstream::{
    Direction, Error, SecretStream, ADDITIONAL_BYTES, HEADER_BYTES, KEY_BYTES, MESSAGE_BYTES_MAX,
};

fn header() -> Vec<u8> {
    (1..=24u8).collect()
}

#[test]
#[should_panic]
fn test_key_size() {
    let key = vec![7u8; 69];
    SecretStream::new_push(&key, &header()).unwrap();
}

#[test]
fn stream_test() {
    let key = vec![3u8; KEY_BYTES];
    let mut pusher = SecretStream::new_push(&key, &header()).unwrap();
    let mut puller = SecretStream::new_pull(&pusher.get_header(), &key).unwrap();
    let input = vec![9u8; 1024];
    for _ in 1..100 {
        let sealed_under = pusher.push(input.len()).unwrap();
        let opened_under = puller.begin_pull(input.len() + ADDITIONAL_BYTES).unwrap();
        assert_eq!(sealed_under, opened_under);
        let p = puller.pull(Some(input.clone())).unwrap();
        assert_eq!(p, input);
    }
    assert_eq!(pusher.counter(), 99);
    assert_eq!(puller.counter(), 99);
}

#[test]
fn stream_lengths_are_checked() {
    let key = vec![3u8; KEY_BYTES];
    assert_eq!(SecretStream::new_push(&key[1..], &header()).err(), Some(Error::KeyLength));
    assert_eq!(SecretStream::new_push(&key, &header()[1..]).err(), Some(Error::HeaderLength));
    assert_eq!(SecretStream::new_pull(&header()[1..], &key[1..]).err(), Some(Error::HeaderLength));
    assert_eq!(SecretStream::new_pull(&header(), &key[1..]).err(), Some(Error::KeyLength));
    assert_eq!(HEADER_BYTES, 24);
    assert_eq!(KEY_BYTES, 32);
    assert_eq!(ADDITIONAL_BYTES, 16);
}

#[test]
fn first_nonce_is_the_header() {
    let key = vec![0u8; KEY_BYTES];
    let mut pusher = SecretStream::new_push(&key, &header()).unwrap();
    assert_eq!(pusher.direction(), Direction::Push);
    assert_eq!(pusher.key(), key.as_slice());
    assert_eq!(pusher.nonce(), header());
    assert_eq!(pusher.push(0).unwrap(), header());
    let mut second = header();
    second[23] = 25;
    assert_eq!(pusher.nonce(), second);
    assert_eq!(pusher.push(10).unwrap(), second);
    assert_eq!(pusher.counter(), 2);
}

#[test]
fn nonce_counts_in_the_last_eight_bytes() {
    let key = vec![0u8; KEY_BYTES];
    let mut head = vec![0xaau8; 16];
    head.extend_from_slice(&[0xff; 8]);
    let mut pusher = SecretStream::new_push(&key, &head).unwrap();
    assert_eq!(pusher.push(1).unwrap(), head);
    let mut wrapped = vec![0xaau8; 16];
    wrapped.extend_from_slice(&[0u8; 8]);
    assert_eq!(pusher.push(1).unwrap(), wrapped);
    let mut next = vec![0xaau8; 16];
    next.extend_from_slice(&[0, 0, 0, 0, 0, 0, 0, 1]);
    assert_eq!(pusher.push(1).unwrap(), next);
}

#[test]
fn nonces_of_one_stream_differ() {
    let key = vec![0u8; KEY_BYTES];
    let mut pusher = SecretStream::new_push(&key, &header()).unwrap();
    let mut seen: Vec<Vec<u8>> = Vec::new();
    for _ in 0..300 {
        let nonce = pusher.push(5).unwrap();
        assert!(!seen.contains(&nonce));
        seen.push(nonce);
    }
}

#[test]
fn stream_refuses_the_other_direction() {
    let key = vec![0u8; KEY_BYTES];
    let mut pusher = SecretStream::new_push(&key, &header()).unwrap();
    let mut puller = SecretStream::new_pull(&header(), &key).unwrap();
    assert_eq!(puller.push(1), Err(Error::WrongDirection));
    assert_eq!(pusher.begin_pull(20), Err(Error::WrongDirection));
    assert_eq!(pusher.pull(Some(vec![1])), Err(Error::WrongDirection));
    assert_eq!(pusher.counter(), 0);
    assert_eq!(puller.counter(), 0);
}

#[test]
fn stream_checks_message_lengths() {
    let key = vec![0u8; KEY_BYTES];
    let mut pusher = SecretStream::new_push(&key, &header()).unwrap();
    let puller = SecretStream::new_pull(&header(), &key).unwrap();
    assert_eq!(pusher.push(MESSAGE_BYTES_MAX + 1), Err(Error::MessageTooLong));
    assert!(pusher.push(MESSAGE_BYTES_MAX).is_ok());
    assert_eq!(puller.begin_pull(ADDITIONAL_BYTES - 1), Err(Error::CiphertextTooShort));
    assert_eq!(puller.begin_pull(ADDITIONAL_BYTES), Ok(header()));
}

#[test]
fn failed_pull_keeps_the_position() {
    let key = vec![0u8; KEY_BYTES];
    let mut puller = SecretStream::new_pull(&header(), &key).unwrap();
    assert_eq!(puller.pull(None), Err(Error::InvalidCiphertext));
    assert_eq!(puller.counter(), 0);
    assert_eq!(puller.nonce(), header());
    assert_eq!(puller.pull(Some(vec![1, 2])), Ok(vec![1, 2]));
    assert_eq!(puller.counter(), 1);
    assert_eq!(Error::InvalidCiphertext.message(), "Invalid ciphertext");
    assert_eq!(Error::Exhausted.message(), "Stream exhausted");
}

fn stream_perf_test_size(size: usize) {
    let key = vec![1u8; KEY_BYTES];
    let mut pusher = SecretStream::new_push(&key, &header()).unwrap();
    let iterations = 40000;
    let start = std::time::Instant::now();
    for _ in 1..=iterations {
        let _ = pusher.push(size);
    }
    let time = std::time::Instant::now().duration_since(start).as_secs_f64();
    println!("size={}, speed={}", size, (size * iterations) as f64 / time / 1024.0 / 1024.0);
    assert_eq!(pusher.counter(), iterations as u64);
}

#[test]
fn perf_test() {
    for size in &[1024, 4096, 8192, 16384, 65536] {
        stream_perf_test_size(*size);
    }
}
