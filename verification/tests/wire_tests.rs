use ingest::wire;

#[test]
fn be32_reads_big_endian() {
    assert_eq!(wire::be32_at(&[0x12, 0x34, 0x56, 0x78], 0), 0x12345678);
    assert_eq!(wire::be32_at(&[0, 0x12, 0x34, 0x56, 0x78], 1), 0x12345678);
    assert_eq!(wire::be32_at(&[0, 0, 0, 1], 0), 1);
    assert_eq!(wire::be32_at(&[0xFF, 0xFF, 0xFF, 0xFF], 0), u32::MAX);
}

#[test]
fn be64_reads_big_endian() {
    assert_eq!(
        wire::be64_at(&[0x01, 0x23, 0x45, 0x67, 0x89, 0xAB, 0xCD, 0xEF], 0),
        0x0123456789ABCDEF
    );
    assert_eq!(wire::be64_at(&[0, 0, 0, 0, 0, 0, 0, 9], 0), 9);
}

#[test]
fn be32_write_round_trip() {
    let mut out = Vec::new();
    wire::be32_write(&mut out, 0xDEADBEEF);
    assert_eq!(out, vec![0xDE, 0xAD, 0xBE, 0xEF]);
    assert_eq!(wire::be32_at(&out, 0), 0xDEADBEEF);
}

#[test]
fn be64_write_round_trip() {
    let mut out = Vec::new();
    wire::be64_write(&mut out, 1000);
    assert_eq!(out, 1000u64.to_be_bytes().to_vec());
    assert_eq!(wire::be64_at(&out, 0), 1000);
}

#[test]
fn bytes_eq_compares_contents() {
    assert!(wire::bytes_eq(&[], &[]));
    assert!(wire::bytes_eq(&[1, 2, 3], &[1, 2, 3]));
    assert!(!wire::bytes_eq(&[1, 2, 3], &[1, 2]));
    assert!(!wire::bytes_eq(&[1, 2, 3], &[1, 2, 4]));
}
