use drive_download::digest::Md5Sum;

#[test]
fn known_checksums() {
    assert_eq!(Md5Sum::new().finish(), "d41d8cd98f00b204e9800998ecf8427e");
    let mut sum = Md5Sum::new();
    sum.update(b"abc");
    assert_eq!(sum.finish(), "900150983cd24fb0d6963f7d28e17f72");
    let mut sum = Md5Sum::new();
    sum.update(b"message digest");
    assert_eq!(sum.finish(), "f96b697d7cb7938d525a2f31aaf161d0");
}

#[test]
fn the_cut_does_not_matter() {
    let data: Vec<u8> = (0..10_000u32).map(|i| (i % 251) as u8).collect();
    let mut whole = Md5Sum::new();
    whole.update(&data);
    let expected = whole.finish();
    for size in [1usize, 63, 64, 65, 4096] {
        let mut sum = Md5Sum::new();
        for piece in data.chunks(size) {
            sum.update(piece);
        }
        assert_eq!(sum.finish(), expected);
    }
    assert_eq!(format!("{:x}", md5::compute(&data)), expected);
}

#[test]
fn reads_end_with_an_empty_one() {
    let mut sum = Md5Sum::new();
    let mut buffer = [0u8; 8];
    buffer[..3].copy_from_slice(b"abc");
    assert!(sum.update_from_read(&buffer, 2));
    buffer[0] = b'c';
    assert!(sum.update_from_read(&buffer, 1));
    assert!(!sum.update_from_read(&buffer, 0));
    assert_eq!(sum.finish(), "900150983cd24fb0d6963f7d28e17f72");
}

#[test]
fn checksums_have_thirty_two_digits() {
    for size in [0usize, 1, 55, 56, 64, 1000] {
        let mut sum = Md5Sum::new();
        sum.update(&vec![7u8; size]);
        let text = sum.finish();
        assert_eq!(text.len(), 32);
        assert!(text.chars().all(|ch| ch.is_ascii_digit() || ('a'..='f').contains(&ch)));
    }
}

#[test]
fn the_reads_do_not_matter() {
    let data: Vec<u8> = (0..1000u32).map(|i| (i % 7) as u8).collect();
    let mut sums = Vec::new();
    for size in [1usize, 10, 999, 1000] {
        let mut sum = Md5Sum::new();
        for piece in data.chunks(size) {
            assert!(sum.update_from_read(piece, piece.len()));
        }
        assert!(!sum.update_from_read(&data, 0));
        sums.push(sum.finish());
    }
    assert!(sums.iter().all(|sum| *sum == sums[0]));
}
