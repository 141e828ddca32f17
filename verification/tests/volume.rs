use secrets::archive::volume::{
    next_volume_file_name, volume_file_name, SAFETY_MARGIN, VOLUME_END_ALLOWANCE, VOLUME_END_BYTES,
};
use secrets::archive::header::FormatHeader;
use secrets::archive::{ArchiveError, ArchiveReader};

#[test]
fn volume_names_have_three_digits() {
    assert_eq!(volume_file_name("backup.sec", 1), "backup.sec.001");
    assert_eq!(volume_file_name("backup.sec", 12), "backup.sec.012");
    assert_eq!(volume_file_name("backup.sec", 345), "backup.sec.345");
    assert_eq!(volume_file_name("backup.sec", 1000), "backup.sec.1000");
    assert_eq!(volume_file_name("", 0), ".000");
    assert_eq!(volume_file_name("x", u64::MAX), "x.18446744073709551615");
}

#[test]
fn next_volume_names_are_derived_from_the_first() {
    assert_eq!(next_volume_file_name("backup.sec.001", 2).unwrap(), "backup.sec.002");
    assert_eq!(next_volume_file_name("backup.sec.001", 999).unwrap(), "backup.sec.999");
    assert_eq!(next_volume_file_name("backup.sec.001", 1000).unwrap(), "backup.sec.1000");
    assert_eq!(next_volume_file_name(".001", 3).unwrap(), ".003");
    for k in [1u64, 2, 9, 10, 99, 100, 12_345] {
        assert_eq!(
            next_volume_file_name(&volume_file_name("b\u{e4}ckup", 1), k).unwrap(),
            volume_file_name("b\u{e4}ckup", k)
        );
    }
}

#[test]
fn first_volume_must_end_in_001() {
    assert_eq!(next_volume_file_name("backup.sec", 2), Err(ArchiveError::Volume));
    assert_eq!(next_volume_file_name("backup.002", 2), Err(ArchiveError::Volume));
    assert_eq!(next_volume_file_name("001", 2), Err(ArchiveError::Volume));
    assert_eq!(next_volume_file_name("", 2), Err(ArchiveError::Volume));
    assert_eq!(next_volume_file_name("a.0011", 2), Err(ArchiveError::Volume));
}

#[test]
fn reader_counts_volumes_from_two() {
    let format = FormatHeader {
        salt: vec![0; 16],
        opslimit: 3,
        memlimit: 8192,
        stream_header: vec![1; 24],
    };
    let mut reader = ArchiveReader::new(&format, &[0; 32]).unwrap();
    assert_eq!(reader.open_next_volume("a.001").unwrap(), "a.002");
    assert_eq!(reader.open_next_volume("a.001").unwrap(), "a.003");
    assert_eq!(reader.open_next_volume("a.bin").err(), Some(ArchiveError::Volume));
    assert_eq!(reader.failure(), Some(ArchiveError::Volume));
    assert_eq!(reader.open_next_volume("a.001").err(), Some(ArchiveError::Volume));
}

#[test]
fn volume_constants() {
    assert_eq!(VOLUME_END_ALLOWANCE, 1024);
    assert_eq!(SAFETY_MARGIN, 4096);
    assert_eq!(VOLUME_END_BYTES, 37);
}
