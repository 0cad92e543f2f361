use qga_swarm::qgae::{parse_qgae, ConvertError, WireParcel, MAGIC, VERSION};

fn pack(edges: &[[[f32; 3]; 2]]) -> Vec<u8> {
    let mut b = Vec::from(MAGIC);
    b.extend_from_slice(&VERSION.to_le_bytes());
    b.extend_from_slice(&(edges.len() as u32).to_le_bytes());
    for e in edges {
        for p in e {
            for c in p {
                b.extend_from_slice(&c.to_le_bytes());
            }
        }
    }
    b
}

fn floats(p: &WireParcel) -> Vec<[[f32; 3]; 2]> {
    p.edges
        .iter()
        .map(|e| {
            [
                [f32::from_bits(e[0][0]), f32::from_bits(e[0][1]), f32::from_bits(e[0][2])],
                [f32::from_bits(e[1][0]), f32::from_bits(e[1][1]), f32::from_bits(e[1][2])],
            ]
        })
        .collect()
}

#[test]
fn roundtrip_one_edge() {
    let src = [[[0.0, 0.0, 0.0], [1.0, 0.0, 0.0]]];
    let p = parse_qgae(&pack(&src)).unwrap();
    assert_eq!(floats(&p), src);
    assert!(p.hubs.is_empty());
}

#[test]
fn reject_32_byte_non_magic() {
    let err = parse_qgae(&[0u8; 32]).unwrap_err();
    assert!(matches!(err, ConvertError::PixelAlias));
}

#[test]
fn reject_wrong_magic() {
    let err = parse_qgae(b"NOPE\x01\x00\x00\x00\x00\x00\x00\x00").unwrap_err();
    assert!(matches!(err, ConvertError::NotQgae { .. }));
}

#[test]
fn roundtrip_several_edges_keeps_order_and_bits() {
    let src = [
        [[-1.5, 2.25, 3.0], [4.0, -0.0, 1e-30]],
        [[f32::MAX, f32::MIN_POSITIVE, -7.75], [0.5, 0.25, 0.125]],
        [[10.0, 20.0, 30.0], [-10.0, -20.0, -30.0]],
    ];
    let p = parse_qgae(&pack(&src)).unwrap();
    assert_eq!(p.edges.len(), 3);
    assert_eq!(floats(&p), src);
    assert_eq!(p.edges[0][1][1], (-0.0f32).to_bits());
    assert!(p.hubs.is_empty());
}

#[test]
fn empty_parcel_reads_as_no_edges() {
    let p = parse_qgae(&pack(&[])).unwrap();
    assert!(p.edges.is_empty());
    assert!(p.hubs.is_empty());
}

#[test]
fn coordinates_are_little_endian_bit_patterns() {
    let mut b = pack(&[]);
    b[8] = 1;
    b.extend_from_slice(&[1, 0, 0, 0, 0, 1, 0, 0, 0, 0, 1, 0, 0, 0, 0, 1, 0x78, 0x56, 0x34, 0x12, 0xff, 0xff, 0xff, 0xff]);
    let p = parse_qgae(&b).unwrap();
    assert_eq!(p.edges, vec![[[1, 0x100, 0x1_0000], [0x100_0000, 0x1234_5678, 0xffff_ffff]]]);
}

#[test]
fn trailing_bytes_are_ignored() {
    let src = [[[1.0, 2.0, 3.0], [4.0, 5.0, 6.0]]];
    let mut b = pack(&src);
    let plain = parse_qgae(&b).unwrap();
    b.extend_from_slice(&[9, 9, 9, 9, 9]);
    let padded = parse_qgae(&b).unwrap();
    assert_eq!(plain, padded);
}

#[test]
fn thirty_two_bytes_with_magic_are_not_a_pixel_alias() {
    // header, one edge declared, 20 of its 24 bytes present: 32 bytes in all
    let mut b = pack(&[]);
    b[8] = 1;
    b.extend_from_slice(&[0u8; 20]);
    assert_eq!(b.len(), 32);
    assert!(matches!(parse_qgae(&b).unwrap_err(), ConvertError::Truncated));
}

#[test]
fn short_header_is_truncated() {
    assert!(matches!(parse_qgae(b"QGAE\x01\x00").unwrap_err(), ConvertError::Truncated));
    assert!(matches!(parse_qgae(&[]).unwrap_err(), ConvertError::Truncated));
}

#[test]
fn wrong_magic_reports_the_first_four_bytes() {
    match parse_qgae(b"NOPE\x01\x00\x00\x00\x00\x00\x00\x00").unwrap_err() {
        ConvertError::NotQgae { got } => assert_eq!(&got, b"NOPE"),
        other => panic!("unexpected {other:?}"),
    }
}

#[test]
fn other_versions_are_refused() {
    let mut b = pack(&[]);
    b[4] = 2;
    b[7] = 1;
    match parse_qgae(&b).unwrap_err() {
        ConvertError::BadVersion(v) => assert_eq!(v, 0x0100_0002),
        other => panic!("unexpected {other:?}"),
    }
}

#[test]
fn missing_edge_bytes_are_truncated() {
    let src = [[[1.0, 2.0, 3.0], [4.0, 5.0, 6.0]], [[7.0, 8.0, 9.0], [1.0, 1.0, 1.0]]];
    let mut b = pack(&src);
    b.pop();
    assert!(matches!(parse_qgae(&b).unwrap_err(), ConvertError::Truncated));
    let mut huge = pack(&[]);
    huge[8..12].copy_from_slice(&u32::MAX.to_le_bytes());
    assert!(matches!(parse_qgae(&huge).unwrap_err(), ConvertError::Truncated));
}

#[test]
fn messages_match_the_display_of_each_error() {
    assert_eq!(
        ConvertError::NotQgae { got: *b"NOPE" }.message(),
        "not QGAE magic: [78, 79, 80, 69]"
    );
    assert_eq!(
        ConvertError::PixelAlias.message(),
        "32-byte file without QGAE; will not alias qga_pixel onto GpuParticle"
    );
    assert_eq!(ConvertError::BadVersion(7).message(), "unsupported QGAE version 7");
    assert_eq!(ConvertError::BadVersion(4294967295).message(), "unsupported QGAE version 4294967295");
    assert_eq!(ConvertError::BadVersion(0).message(), "unsupported QGAE version 0");
    assert_eq!(ConvertError::Truncated.message(), "truncated QGAE file");
    let io = std::io::Error::new(std::io::ErrorKind::NotFound, "no such parcel");
    assert_eq!(ConvertError::from(io).message(), "no such parcel");
}

fn repack(p: &WireParcel) -> Vec<u8> {
    let mut b = Vec::from(MAGIC);
    b.extend_from_slice(&VERSION.to_le_bytes());
    b.extend_from_slice(&(p.edges.len() as u32).to_le_bytes());
    for e in &p.edges {
        for end in e {
            for c in end {
                b.extend_from_slice(&c.to_le_bytes());
            }
        }
    }
    b
}

#[test]
fn writing_back_what_was_read_gives_the_file_up_to_its_last_edge() {
    let mut b = pack(&[[[f32::NAN, -3.5, 8.0], [0.1, 0.2, 0.3]], [[1.0, 1.0, 1.0], [2.0, 2.0, 2.0]]]);
    let used = b.len();
    b.extend_from_slice(b"tail");
    let p = parse_qgae(&b).unwrap();
    assert_eq!(repack(&p), b[..used].to_vec());
}
