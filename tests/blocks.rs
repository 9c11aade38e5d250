use osaka_sim_re::hg::{
    affine_from, padded_name_len, read_blocks, read_str, Block, DecodeError, DecodeErrorKind,
    GeometryBlockInner, PTEnum,
};

fn le(v: u32) -> [u8; 4] {
    v.to_le_bytes()
}

fn f(v: f32) -> [u8; 4] {
    v.to_bits().to_le_bytes()
}

fn name(s: &str) -> Vec<u8> {
    let mut out = s.as_bytes().to_vec();
    out.push(0);
    while out.len() % 4 != 0 {
        out.push(0);
    }
    out
}

fn frame(typ: u32, payload: &[u8]) -> Vec<u8> {
    let mut out = Vec::new();
    out.extend_from_slice(&le(typ));
    out.extend_from_slice(&le(payload.len() as u32 + 8));
    out.extend_from_slice(payload);
    out
}

fn transform_payload() -> Vec<u8> {
    let mut p = name("root");
    p.extend_from_slice(&le(7));
    for v in [1.0f32, 2.0, 3.0, 0.0, 0.0, 0.0, 1.0, 1.0, 1.0] {
        p.extend_from_slice(&f(v));
    }
    p
}

fn bits3(a: f32, b: f32, c: f32) -> [u32; 3] {
    [a.to_bits(), b.to_bits(), c.to_bits()]
}

#[test]
fn name_padding_rounds_up_to_four() {
    for len in 0..20usize {
        let skip = padded_name_len(len);
        assert_eq!(skip, 4 * ((len + 1 + 3) / 4));
        assert_eq!(skip, 4 * (len / 4) + 4);
    }
}

#[test]
fn read_str_returns_name_and_skip() {
    let data = b"root\0\0\0\0rest";
    assert_eq!(read_str(data), Ok(("root", 8)));
    assert_eq!(read_str(b"abc\0xyz"), Ok(("abc", 4)));
    assert_eq!(read_str(b"\0abc"), Ok(("", 4)));
}

#[test]
fn read_str_errors() {
    assert_eq!(read_str(b"abc"), Err(DecodeErrorKind::UnterminatedName));
    assert_eq!(read_str(b""), Err(DecodeErrorKind::UnterminatedName));
    assert_eq!(read_str(&[0xff, 0xfe, 0]), Err(DecodeErrorKind::InvalidEncoding));
}

#[test]
fn topology_tags() {
    assert_eq!(PTEnum::from(0), PTEnum::TriangleList);
    assert_eq!(PTEnum::from(1), PTEnum::TriangleStrip);
    assert_eq!(PTEnum::from(2), PTEnum::TriangleFan);
    assert_eq!(PTEnum::from(3), PTEnum::Unknown);
    assert_eq!(PTEnum::from(99), PTEnum::Unknown);
}

#[test]
fn bone_matrix_from_one_to_nine() {
    let c = [bits3(1.0, 2.0, 3.0), bits3(4.0, 5.0, 6.0), bits3(7.0, 8.0, 9.0)];
    let m = affine_from(c);
    let col = |j: usize| [m[0][j], m[1][j], m[2][j], m[3][j]].map(f32::from_bits);
    assert_eq!(col(0), [1.0, 2.0, 3.0, 0.0]);
    assert_eq!(col(1), [4.0, 5.0, 6.0, 0.0]);
    assert_eq!(col(2), [7.0, 8.0, 9.0, 0.0]);
    assert_eq!(col(3), [0.0, 0.0, 0.0, 1.0]);
}

#[test]
fn transform_root_then_terminator() {
    let mut buf = frame(4, &transform_payload());
    buf.extend_from_slice(&le(255));
    buf.extend_from_slice(&le(8));
    let blocks = read_blocks(&buf).unwrap();
    assert_eq!(blocks.len(), 1);
    match &blocks[0] {
        Block::Transform(t) => {
            assert_eq!(t.name, "root");
            assert_eq!(t.idk, 7);
            assert_eq!(t.coords.pos, bits3(1.0, 2.0, 3.0));
            assert_eq!(t.coords.rot, bits3(0.0, 0.0, 0.0));
            assert_eq!(t.coords.scale, bits3(1.0, 1.0, 1.0));
        }
        other => panic!("unexpected block {:?}", other),
    }
}

#[test]
fn geometry_proxy_has_no_optional_fields() {
    let mut p = name("proxy");
    for v in [1.0f32, 2.0, 3.0, 4.0] {
        p.extend_from_slice(&f(v));
    }
    p.extend_from_slice(&le(1));
    p.extend_from_slice(&le(0b11));
    p.extend_from_slice(&le(1));
    let buf = frame(0, &p);
    let blocks = read_blocks(&buf).unwrap();
    assert_eq!(blocks.len(), 1);
    match &blocks[0] {
        Block::Geometry(g) => {
            assert_eq!(g.name, "proxy");
            assert_eq!(g.coords, [1.0f32, 2.0, 3.0, 4.0].map(f32::to_bits));
            assert!(g.bool4);
            assert_eq!(g.vertex_bitmask.mask, 0b11);
            assert!(g.bool6);
            assert!(g.idk.is_empty());
            assert_eq!(g.vertex_num, None);
            assert_eq!(g.vertex_size, None);
            assert_eq!(g.vertex_data, None);
        }
        other => panic!("unexpected block {:?}", other),
    }
}

#[test]
fn geometry_with_vertices_and_groups_in_order() {
    let mut p = name("mesh");
    for _ in 0..4 {
        p.extend_from_slice(&f(0.5));
    }
    p.extend_from_slice(&le(0));
    p.extend_from_slice(&le(1));
    p.extend_from_slice(&le(0));
    p.extend_from_slice(&le(2));
    let vertices: Vec<u8> = (0..24u8).collect();
    p.extend_from_slice(&vertices);
    p.extend_from_slice(&le(2));
    p.extend_from_slice(&le(1));
    p.extend_from_slice(&le(3));
    for w in [5u16, 6, 0x0102] {
        p.extend_from_slice(&w.to_le_bytes());
    }
    p.extend_from_slice(&le(7));
    p.extend_from_slice(&le(1));
    p.extend_from_slice(&9u16.to_le_bytes());
    let buf = frame(0, &p);
    let blocks = read_blocks(&buf).unwrap();
    assert_eq!(blocks.len(), 1);
    match &blocks[0] {
        Block::Geometry(g) => {
            assert!(!g.bool4);
            assert!(!g.bool6);
            assert_eq!(g.vertex_num, Some(2));
            assert_eq!(g.vertex_size, Some(12));
            assert_eq!(g.vertex_data, Some(&vertices[..]));
            assert_eq!(
                g.idk,
                vec![
                    GeometryBlockInner { typ: PTEnum::TriangleStrip, words: vec![5, 6, 0x0102] },
                    GeometryBlockInner { typ: PTEnum::Unknown, words: vec![9] },
                ]
            );
        }
        other => panic!("unexpected block {:?}", other),
    }
}

#[test]
fn geometry_vertex_buffer_past_payload_is_truncated() {
    let mut p = name("mesh");
    for _ in 0..4 {
        p.extend_from_slice(&f(0.5));
    }
    p.extend_from_slice(&le(0));
    p.extend_from_slice(&le(1));
    p.extend_from_slice(&le(0));
    p.extend_from_slice(&le(1000));
    p.extend_from_slice(&[0u8; 16]);
    let mut buf = frame(4, &transform_payload());
    buf.extend_from_slice(&frame(0, &p));
    let err = read_blocks(&buf).unwrap_err();
    assert_eq!(err, DecodeError { offset: 56, kind: DecodeErrorKind::TruncatedBlock });
}

#[test]
fn geometry_group_past_payload_is_truncated() {
    let mut p = name("g");
    p.extend_from_slice(&[0u8; 16]);
    p.extend_from_slice(&le(0));
    p.extend_from_slice(&le(0));
    p.extend_from_slice(&le(0));
    p.extend_from_slice(&le(0));
    p.extend_from_slice(&le(1));
    p.extend_from_slice(&le(0));
    p.extend_from_slice(&le(3));
    p.extend_from_slice(&[1, 0, 2, 0]);
    let buf = frame(0, &p);
    assert_eq!(
        read_blocks(&buf),
        Err(DecodeError { offset: 0, kind: DecodeErrorKind::TruncatedBlock })
    );
}

#[test]
fn bone_block_in_stream() {
    let mut p = name("bone");
    p.extend_from_slice(&le(3));
    for v in 1..=9 {
        p.extend_from_slice(&f(v as f32));
    }
    let buf = frame(11, &p);
    let blocks = read_blocks(&buf).unwrap();
    match &blocks[..] {
        [Block::Bone(b)] => {
            assert_eq!(b.name, "bone");
            assert_eq!(b.idk, 3);
            assert_eq!(b.coords[1], bits3(4.0, 5.0, 6.0));
            assert_eq!(b.matrix[0][1], 4.0f32.to_bits());
            assert_eq!(b.matrix[3][3], 1.0f32.to_bits());
            assert_eq!(b.matrix[3][0], 0);
        }
        other => panic!("unexpected blocks {:?}", other),
    }
}

#[test]
fn seven_trailing_bytes_end_the_stream() {
    let mut buf = frame(4, &transform_payload());
    buf.extend_from_slice(&[0xff; 7]);
    let blocks = read_blocks(&buf).unwrap();
    assert_eq!(blocks.len(), 1);
}

#[test]
fn tag_twelve_ends_the_stream() {
    let mut buf = frame(12, &transform_payload());
    buf.extend_from_slice(&frame(4, &transform_payload()));
    assert_eq!(read_blocks(&buf).unwrap().len(), 0);
    let mut buf = frame(4, &transform_payload());
    buf.extend_from_slice(&le(12));
    buf.extend_from_slice(&le(0));
    assert_eq!(read_blocks(&buf).unwrap().len(), 1);
}

#[test]
fn empty_and_short_buffers_give_no_blocks() {
    assert_eq!(read_blocks(&[]).unwrap().len(), 0);
    assert_eq!(read_blocks(&[0u8; 7]).unwrap().len(), 0);
}

#[test]
fn reserved_tags_are_skipped() {
    let mut buf = frame(5, &[1, 2, 3, 4, 5]);
    buf.extend_from_slice(&frame(4, &transform_payload()));
    buf.extend_from_slice(&frame(10, &[]));
    let blocks = read_blocks(&buf).unwrap();
    assert_eq!(blocks.len(), 1);
    assert!(matches!(blocks[0], Block::Transform(_)));
}

#[test]
fn size_below_header_is_invalid() {
    let mut buf = frame(4, &transform_payload());
    buf.extend_from_slice(&le(2));
    buf.extend_from_slice(&le(7));
    assert_eq!(
        read_blocks(&buf),
        Err(DecodeError { offset: 56, kind: DecodeErrorKind::InvalidBlockSize })
    );
}

#[test]
fn size_past_buffer_is_truncated() {
    let mut buf = le(4).to_vec();
    buf.extend_from_slice(&le(100));
    buf.extend_from_slice(&[0u8; 20]);
    assert_eq!(
        read_blocks(&buf),
        Err(DecodeError { offset: 0, kind: DecodeErrorKind::TruncatedBlock })
    );
}

#[test]
fn short_transform_payload_is_truncated() {
    let p = transform_payload();
    let buf = frame(4, &p[..p.len() - 1]);
    assert_eq!(
        read_blocks(&buf),
        Err(DecodeError { offset: 0, kind: DecodeErrorKind::TruncatedBlock })
    );
}

#[test]
fn name_errors_in_blocks() {
    let buf = frame(11, b"abcd");
    assert_eq!(
        read_blocks(&buf),
        Err(DecodeError { offset: 0, kind: DecodeErrorKind::UnterminatedName })
    );
    let buf = frame(4, &[0xc3, 0x28, 0, 0]);
    assert_eq!(
        read_blocks(&buf),
        Err(DecodeError { offset: 0, kind: DecodeErrorKind::InvalidEncoding })
    );
}
