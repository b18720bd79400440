use bkasset::pixels::ci4::CI4;
use bkasset::pixels::ci4::CI4Adaptor;
use bkasset::pixels::ci8::CI8;
use bkasset::pixels::ci8::CI8Adaptor;
use bkasset::pixels::color_i8::I8;
use bkasset::pixels::color_i8::I8Adaptor;
use bkasset::pixels::i4::I4;
use bkasset::pixels::i4::I4Adaptor;
use bkasset::pixels::ia16::IA16;
use bkasset::pixels::ia16::IA16Adaptor;
use bkasset::pixels::ia4::IA4;
use bkasset::pixels::ia4::IA4Adaptor;
use bkasset::pixels::ia8::IA8;
use bkasset::pixels::ia8::IA8Adaptor;
use bkasset::pixels::rgba16::RGBA16;
use bkasset::pixels::rgba16::RGBA16Adaptor;
use bkasset::pixels::rgba32::RGBA32;
use bkasset::pixels::rgba32::RGBA32Adaptor;
use bkasset::bktexture::BKTexture;

#[test]
fn it_works() {
    let result = 2 + 2;
    assert_eq!(result, 4);
}

#[test]
fn ci4_from_bytes() {
    let input: Vec<u8> = vec![0x01, 0x23];
    let mut ci4_iter = CI4Adaptor::new(input);

    assert_eq!(Some(CI4(0)), ci4_iter.next());
    assert_eq!(Some(CI4(1)), ci4_iter.next());
    assert_eq!(Some(CI4(2)), ci4_iter.next());
    assert_eq!(Some(CI4(3)), ci4_iter.next());
    assert_eq!(None, ci4_iter.next());
}

#[test]
fn ci8_from_bytes() {
    let input: Vec<u8> = vec![0, 1, 2, 3];
    let mut ci8_iter = CI8Adaptor::new(input);

    assert_eq!(Some(CI8(0)), ci8_iter.next());
    assert_eq!(Some(CI8(1)), ci8_iter.next());
    assert_eq!(Some(CI8(2)), ci8_iter.next());
    assert_eq!(Some(CI8(3)), ci8_iter.next());
    assert_eq!(None, ci8_iter.next());
}

#[test]
fn i8_from_bytes() {
    let input: Vec<u8> = vec![0, 1, 2];
    let mut i8_iter = I8Adaptor::new(input);

    assert_eq!(Some(I8 { i: 0 }), i8_iter.next());
    assert_eq!(Some(I8 { i: 1 }), i8_iter.next());
    assert_eq!(Some(I8 { i: 2 }), i8_iter.next());
    assert_eq!(None, i8_iter.next());
}

#[test]
fn i4_from_bytes() {
    let input: Vec<u8> = vec![0x01, 0x23];
    let mut i4_iter = I4Adaptor::new(input);

    assert_eq!(Some(I4 { i: 0 }), i4_iter.next());
    assert_eq!(Some(I4 { i: 1 }), i4_iter.next());
    assert_eq!(Some(I4 { i: 2 }), i4_iter.next());
    assert_eq!(Some(I4 { i: 3 }), i4_iter.next());
    assert_eq!(None, i4_iter.next());
}

#[test]
fn ia16_from_bytes() {
    let input: Vec<u8> = vec![0, 1, 2, 3, 4, 5];
    let mut ia16_iter = IA16Adaptor::new(input);

    assert_eq!(Some(IA16 { i: 0, a: 1 }), ia16_iter.next());
    assert_eq!(Some(IA16 { i: 2, a: 3 }), ia16_iter.next());
    assert_eq!(Some(IA16 { i: 4, a: 5 }), ia16_iter.next());
    assert_eq!(None, ia16_iter.next());
}

#[test]
fn ia4_from_bytes() {
    let input: Vec<u8> = vec![0x14, 0x78];
    let mut ia4_iter = IA4Adaptor::new(input);

    assert_eq!(Some(IA4 { i: 0, a: 1 }), ia4_iter.next());
    assert_eq!(Some(IA4 { i: 2, a: 0 }), ia4_iter.next());
    assert_eq!(Some(IA4 { i: 3, a: 1 }), ia4_iter.next());
    assert_eq!(Some(IA4 { i: 4, a: 0 }), ia4_iter.next());
    assert_eq!(None, ia4_iter.next());
}

#[test]
fn ia8_from_bytes() {
    let input: Vec<u8> = vec![0x01, 0x23, 0x45];
    let mut ia8_iter = IA8Adaptor::new(input);

    assert_eq!(Some(IA8 { i: 0, a: 1 }), ia8_iter.next());
    assert_eq!(Some(IA8 { i: 2, a: 3 }), ia8_iter.next());
    assert_eq!(Some(IA8 { i: 4, a: 5 }), ia8_iter.next());
    assert_eq!(None, ia8_iter.next());
}

#[test]
fn rgba16_from_bytes() {
    let input: Vec<u8> = vec![0, 1, 2, 3, 4, 5];
    let mut rgba16_iter = RGBA16Adaptor::new(input);

    assert_eq!(
        Some(RGBA16 { r: 0, g: 0, b: 0, a: 1 }),
        rgba16_iter.next()
    );
    assert_eq!(
        Some(RGBA16 { r: 0, g: 8, b: 1, a: 1 }),
        rgba16_iter.next()
    );
    assert_eq!(
        Some(RGBA16 { r: 0, g: 16, b: 2, a: 1 }),
        rgba16_iter.next()
    );
    assert_eq!(None, rgba16_iter.next());
}

#[test]
fn rgba32_from_bytes() {
    let input: Vec<u8> = vec![0, 1, 2, 3, 4, 5, 6, 7, 8, 9, 0xa, 0xb];
    let mut rgba32_iter = RGBA32Adaptor::new(input);

    assert_eq!(Some(RGBA32 { r: 0, g: 1, b: 2, a: 3 }), rgba32_iter.next());
    assert_eq!(Some(RGBA32 { r: 4, g: 5, b: 6, a: 7 }), rgba32_iter.next());
    assert_eq!(
        Some(RGBA32 { r: 8, g: 9, b: 10, a: 11 }),
        rgba32_iter.next()
    );
    assert_eq!(None, rgba32_iter.next());
}

#[test]
fn four_bit_intensity_expands_by_nibble_doubling() {
    for v in 0u8..16 {
        let p = IA16::from_i4(I4 { i: v });
        assert_eq!(p.i, (v << 4) | v);
        assert_eq!(p.a, 0xFF);
    }
}

#[test]
fn five_bit_channel_expands_by_shift_and_fill() {
    for v in 0u8..32 {
        let p = RGBA32::from_rgba16(RGBA16 { r: v, g: v, b: v, a: 1 });
        assert_eq!(p.r, (v << 3) | (v >> 2));
        assert_eq!(p.g, p.r);
        assert_eq!(p.b, p.r);
    }
}

#[test]
fn one_bit_alpha_expands_to_zero_or_ff() {
    assert_eq!(RGBA32::from_rgba16(RGBA16 { r: 0, g: 0, b: 0, a: 0 }).a, 0);
    assert_eq!(RGBA32::from_rgba16(RGBA16 { r: 0, g: 0, b: 0, a: 1 }).a, 0xFF);
    assert_eq!(IA16::from_ia4(IA4 { i: 0, a: 0 }).a, 0);
    assert_eq!(IA16::from_ia4(IA4 { i: 0, a: 1 }).a, 0xFF);
}

#[test]
fn rgba32_average_feeds_intensity() {
    let p = IA16::from_rgba32(RGBA32 { r: 10, g: 20, b: 30, a: 9 });
    assert_eq!(p.i, 20);
    assert_eq!(p.a, 9);
}

/// The unit encoder is the exact inverse of the unit decoder: the
/// channels sit at bits 11, 6, 1 and 0.
#[test]
fn rgba16_encoder_inverts_decoder() {
    let one_green = RGBA16 { r: 0, g: 1, b: 0, a: 0 };
    assert_eq!(one_green.to_be_bytes(), [0x00, 0x40]);
    for bytes in [[0x00u8, 0x40], [0x12, 0x34], [0xFF, 0xFF], [0x00, 0x01]] {
        let p = RGBA16::from_be_bytes(bytes);
        assert_eq!(p.to_be_bytes(), bytes);
    }
}

#[test]
fn ia16_grid_round_trips() {
    let blob: Vec<u8> = vec![1, 2, 3, 4, 5, 6, 7, 8];
    let t = BKTexture::<IA16>::from_be_bytes(2, 2, &blob);
    assert_eq!(t.to_be_bytes(), blob);
}

#[test]
fn rgba16_grid_round_trips() {
    let blob: Vec<u8> = vec![0x00, 0x40, 0x12, 0x34, 0xAB, 0xCD, 0xFF, 0xFF];
    let t = BKTexture::<RGBA16>::from_be_bytes(2, 2, &blob);
    assert_eq!(t.to_be_bytes(), blob);
}

#[test]
fn rgba32_grid_round_trips() {
    let blob: Vec<u8> = vec![1, 2, 3, 4, 5, 6, 7, 8];
    let t = BKTexture::<RGBA32>::from_be_bytes(2, 1, &blob);
    assert_eq!(t.to_be_bytes(), blob);
}
