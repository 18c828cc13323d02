use audiocast::ogg::parse_page;

/// Builds one page with the given granule position and segment table.
fn page(granule: u64, lacing: &[u8]) -> Vec<u8> {
    let mut d = Vec::new();
    d.extend_from_slice(b"OggS");
    d.push(0); // stream structure version
    d.push(0); // header type
    d.extend_from_slice(&granule.to_le_bytes());
    d.extend_from_slice(&[7, 7, 7, 7]); // serial
    d.extend_from_slice(&[0, 0, 0, 0]); // sequence
    d.extend_from_slice(&[0, 0, 0, 0]); // checksum
    d.push(lacing.len() as u8);
    d.extend_from_slice(lacing);
    let body: usize = lacing.iter().map(|b| *b as usize).sum();
    d.extend(std::iter::repeat(0xAB).take(body));
    d
}

#[test]
fn reads_granule_and_page_bounds() {
    let d = page(960, &[100, 50]);
    let p = parse_page(&d, 0).unwrap();
    assert_eq!(p.granule, 960);
    assert_eq!(p.body_start, 27 + 2);
    assert_eq!(p.end, 27 + 2 + 150);
    assert_eq!(p.end, d.len());
}

#[test]
fn reads_large_little_endian_granules() {
    let d = page(0x0102_0304_0506_0708, &[1]);
    let p = parse_page(&d, 0).unwrap();
    assert_eq!(p.granule, 0x0102_0304_0506_0708);
}

#[test]
fn walks_consecutive_pages() {
    let mut d = page(960, &[10]);
    d.extend(page(1920, &[20, 30]));
    let first = parse_page(&d, 0).unwrap();
    assert_eq!(first.granule, 960);
    let second = parse_page(&d, first.end).unwrap();
    assert_eq!(second.granule, 1920);
    assert_eq!(second.end, d.len());
    assert!(parse_page(&d, second.end).is_none());
}

#[test]
fn rejects_what_is_not_a_whole_page() {
    // no capture pattern
    let mut bad = page(0, &[1]);
    bad[0] = b'X';
    assert!(parse_page(&bad, 0).is_none());
    // too short for a header
    assert!(parse_page(&vec![0x4F; 20], 0).is_none());
    // segment table truncated
    let mut cut = page(0, &[5, 5]);
    cut.truncate(28);
    assert!(parse_page(&cut, 0).is_none());
    // body truncated
    let mut cut = page(0, &[200]);
    cut.truncate(cut.len() - 1);
    assert!(parse_page(&cut, 0).is_none());
    // offset out of range
    let d = page(0, &[1]);
    assert!(parse_page(&d, d.len()).is_none());
}
