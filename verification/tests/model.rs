use bkasset::bkmodel::BKModel;
use bkasset::bkmodel::BKModelHeader;
use bkasset::bkmodel::BKModelUnk20List;
use bkasset::bkmodel::BKVertexList;
use bkasset::bktexture::BKTextureFormat;
use bkasset::bktexture::BKTextureHeader;
use bkasset::error::TryFromBEBytesError;

fn empty_header() -> BKModelHeader {
    BKModelHeader {
        geo_list_offset: 0,
        texture_list_offset: 0,
        unk_a: 0x1234,
        gfx_list_offset: 0,
        vtx_list_offset: 0,
        unk_14_offset: 0,
        unk_18_offset: 0,
        collision_list_offset: 0,
        unk_20_offset: 0,
        unk_24_offset: 0,
        unk_28_offset: 0,
        unk_2c_offset: 0,
        unk_30: 5,
        unk_32: 6,
        unk_34: 0x3F800000,
    }
}

/// A model with every section absent encodes to exactly the header
/// bytes followed by the empty trailing buffer.
#[test]
fn empty_model_encodes_to_header_only() {
    let model = BKModel {
        header: empty_header(),
        texture_list: None,
        display_list: None,
        vertices: None,
        unk_14_list: None,
        animation_list: None,
        collision_list: None,
        unk_20_list: None,
        mesh_list: None,
        unk_28_list: None,
        animated_texture_list: None,
        data: Vec::new(),
    };
    let out = model.to_be_bytes();
    let mut expected: Vec<u8> = vec![0, 0, 0, 0x0B];
    expected.extend_from_slice(&0x38u32.to_be_bytes()); // legacy geometry pointer: end of sections
    expected.extend_from_slice(&[0, 0]); // texture offset
    expected.extend_from_slice(&[0x12, 0x34]); // preserved opaque field
    for _ in 0..9 {
        expected.extend_from_slice(&[0, 0, 0, 0]);
    }
    expected.extend_from_slice(&[0, 5, 0, 6]);
    expected.extend_from_slice(&0x3F800000u32.to_be_bytes());
    assert_eq!(out.len(), 0x38);
    assert_eq!(out, expected);
}

/// Decoding a header whose eleven offsets are all zero yields `None`
/// for every section and an empty trailing buffer.
#[test]
fn zero_offsets_decode_to_absent_sections() {
    let mut input: Vec<u8> = vec![0, 0, 0, 0x0B];
    input.resize(0x38, 0);
    let m = BKModel::try_from_be_bytes(&input).unwrap();
    assert!(m.texture_list.is_none());
    assert!(m.display_list.is_none());
    assert!(m.vertices.is_none());
    assert!(m.unk_14_list.is_none());
    assert!(m.animation_list.is_none());
    assert!(m.collision_list.is_none());
    assert!(m.unk_20_list.is_none());
    assert!(m.mesh_list.is_none());
    assert!(m.unk_28_list.is_none());
    assert!(m.animated_texture_list.is_none());
    assert!(m.data.is_empty());
}

/// A canonical file with one auxiliary record table round-trips
/// byte for byte.
#[test]
fn one_section_file_round_trips() {
    let mut input: Vec<u8> = vec![0u8; 0x38];
    input[3] = 0x0B;
    input[4..8].copy_from_slice(&0x48u32.to_be_bytes()); // legacy pointer: end of sections
    input[0x20..0x24].copy_from_slice(&0x38u32.to_be_bytes()); // the table sits after the header
    // section: one 14-byte record, zero-padded to 16 bytes
    let section: Vec<u8> = vec![
        1, 0, // count, reserved
        0, 1, 0, 2, 0, 3, // first triple
        0xFF, 0xFE, 0, 5, 0, 6, // second triple
        9, 0, // trailing byte, reserved
    ];
    input.extend_from_slice(&section);
    assert_eq!(input.len(), 0x48);

    let m = BKModel::try_from_be_bytes(&input).unwrap();
    let out = m.to_be_bytes();
    assert_eq!(out, input);
}

/// A record table whose count overruns the buffer is rejected, never
/// silently truncated.
#[test]
fn inflated_count_is_rejected() {
    let section: Vec<u8> = vec![9, 0, 0, 0, 0, 0, 0, 0]; // claims 9 records, has none
    match BKModelUnk20List::try_from_be_bytes(&section) {
        Err(TryFromBEBytesError::Truncated) => (),
        _ => panic!("an overrunning count must be rejected"),
    }
}

#[test]
fn wrong_magic_is_rejected() {
    let mut input: Vec<u8> = vec![0, 0, 0, 0x0C];
    input.resize(0x38, 0);
    match BKModel::try_from_be_bytes(&input) {
        Err(TryFromBEBytesError::BadMagic) => (),
        _ => panic!("a wrong tag must be rejected"),
    }
}

#[test]
fn short_buffer_is_rejected() {
    let input: Vec<u8> = vec![0, 0, 0, 0x0B, 1, 2];
    match BKModel::try_from_be_bytes(&input) {
        Err(TryFromBEBytesError::Truncated) => (),
        _ => panic!("a short buffer must be rejected"),
    }
}

fn vertex_section(stored_global: u8) -> Vec<u8> {
    let mut b: Vec<u8> = Vec::new();
    // min, max, center all (3, 4, 0) for the single vertex
    for _ in 0..3 {
        b.extend_from_slice(&[0, 3, 0, 4, 0, 0]);
    }
    b.extend_from_slice(&[0, 0]); // local norm: distance to centre is 0
    b.extend_from_slice(&[0, 1]); // one vertex
    b.extend_from_slice(&[0, stored_global]);
    // the vertex record: position (3, 4, 0), rest zero
    b.extend_from_slice(&[0, 3, 0, 4, 0, 0, 0, 0, 0, 0, 0, 0, 0, 0, 0, 0]);
    b
}

/// A stored global norm that disagrees with the recomputed one (5,
/// from the 3-4-5 triangle) is preserved and re-emitted verbatim.
#[test]
fn stale_global_norm_is_preserved() {
    let input = vertex_section(7);
    let v = BKVertexList::try_from_be_bytes(&input).unwrap();
    assert_eq!(v.global_norm(), 5);
    assert_eq!(v.preserved_global_norm, Some(7));
    let out = v.to_be_bytes();
    assert_eq!(out, input);
}

/// A stored global norm that agrees is recomputed fresh, even after
/// the vertices change.
#[test]
fn agreeing_global_norm_is_recomputed() {
    let input = vertex_section(5);
    let mut v = BKVertexList::try_from_be_bytes(&input).unwrap();
    assert_eq!(v.preserved_global_norm, None);
    assert_eq!(v.to_be_bytes(), input);

    // doubling the position doubles the recomputed norm
    let w = bkasset::bkmodel::Vtx::from_be_bytes(&[
        0, 6, 0, 8, 0, 0, 0, 0, 0, 0, 0, 0, 0, 0, 0, 0,
    ]);
    v.vertex.push(w);
    let out = v.to_be_bytes();
    assert_eq!(out[0x16], 0);
    assert_eq!(out[0x17], 10);
}

/// Section sizes are padded to multiples of 8.
#[test]
fn section_sizes_are_aligned() {
    let section: Vec<u8> = vec![
        1, 0, 0, 1, 0, 2, 0, 3, 0xFF, 0xFE, 0, 5, 0, 6, 9, 0, 0, 0,
    ];
    let list = BKModelUnk20List::try_from_be_bytes(&section).unwrap();
    assert_eq!(list.size(), 16);
    assert_eq!(list.size() % 8, 0);
}

/// An unknown texture format tag is carried through unchanged.
#[test]
fn unknown_texture_tag_round_trips() {
    let record: Vec<u8> = vec![
        0, 0, 0, 0x20, // data offset
        0x02, 0x00, // a tag outside the known set
        7, 8, // reserved, preserved
        16, 16, // width, height
        1, 2, 3, 4, 5, 6, // reserved, preserved
    ];
    let h = BKTextureHeader::from_be_bytes(&record);
    assert_eq!(h.format, BKTextureFormat::Unknown(0x200));
    assert_eq!(h.to_be_bytes(), record);
}
