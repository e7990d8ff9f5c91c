use raycaster::fixed::{cell_index, div_trunc, isqrt, FP};
use raycaster::framebuffer::Framebuffer;
use raycaster::texture::{pack_rgb, Texture};

#[test]
fn cell_index_floors_and_saturates() {
    assert_eq!(cell_index(0), 0);
    assert_eq!(cell_index(999_999), 0);
    assert_eq!(cell_index(FP), 1);
    assert_eq!(cell_index(8 * FP + 123), 8);
    assert_eq!(cell_index(-1), 0);
    assert_eq!(cell_index(-5 * FP), 0);
}

#[test]
fn div_trunc_rounds_toward_zero() {
    assert_eq!(div_trunc(7, 2), 3);
    assert_eq!(div_trunc(-7, 2), -3);
    assert_eq!(div_trunc(6, 2), 3);
    assert_eq!(div_trunc(-6, 2), -3);
    assert_eq!(div_trunc(0, 5), 0);
}

#[test]
fn isqrt_values() {
    assert_eq!(isqrt(0), 0);
    assert_eq!(isqrt(1), 1);
    assert_eq!(isqrt(3), 1);
    assert_eq!(isqrt(4), 2);
    assert_eq!(isqrt(999_999), 999);
    assert_eq!(isqrt(1_000_000), 1000);
    assert_eq!(isqrt(2_000_000_000_000), 1_414_213);
    assert_eq!(isqrt(i64::MAX), 3_037_000_499);
}

#[test]
fn framebuffer_point_and_clear() {
    let mut fb = Framebuffer::new(4, 3);
    assert_eq!(fb.buffer.len(), 12);
    assert!(fb.buffer.iter().all(|&c| c == 0));
    fb.point(2, 1, 0xABCDEF);
    assert_eq!(fb.buffer[1 * 4 + 2], 0xABCDEF);
    // Out-of-range writes are dropped without any other effect.
    fb.point(4, 0, 0x111111);
    fb.point(0, 3, 0x222222);
    assert_eq!(fb.buffer.iter().filter(|&&c| c != 0).count(), 1);
    fb.clear(0x87CEEB);
    assert!(fb.buffer.iter().all(|&c| c == 0x87CEEB));
}

#[test]
fn pack_rgb_shifts_channels() {
    assert_eq!(pack_rgb(0, 0, 0), 0);
    assert_eq!(pack_rgb(0xAB, 0xCD, 0xEF), 0x00ABCDEF);
    assert_eq!(pack_rgb(1, 2, 3), 0x00010203);
}

#[test]
fn texture_from_rgba_packs_pixels() {
    let bytes: Vec<u8> = vec![
        10, 20, 30, 255, 40, 50, 60, 255,
        70, 80, 90, 255, 100, 110, 120, 255,
    ];
    let t = Texture::from_rgba(2, 2, &bytes).unwrap();
    assert_eq!(t.width, 2);
    assert_eq!(t.height, 2);
    assert_eq!(t.texel(0, 0), (10 << 16) | (20 << 8) | 30);
    assert_eq!(t.texel(1, 0), (40 << 16) | (50 << 8) | 60);
    assert_eq!(t.texel(0, 1), (70 << 16) | (80 << 8) | 90);
    assert_eq!(t.texel(1, 1), (100 << 16) | (110 << 8) | 120);
}

#[test]
fn texture_from_rgba_rejects_bad_input() {
    let bytes: Vec<u8> = vec![0; 15];
    assert!(Texture::from_rgba(2, 2, &bytes).is_none());
    let bytes: Vec<u8> = vec![0; 16];
    assert!(Texture::from_rgba(0, 4, &bytes).is_none());
    assert!(Texture::from_rgba(2, 2, &bytes).is_some());
}

#[test]
fn texture_sampling_tiles_one_unit_apart() {
    // A 4 x 4 texture with all-distinct texels.
    let mut bytes: Vec<u8> = Vec::new();
    for i in 0..16u8 {
        bytes.extend_from_slice(&[i, 2 * i, 3 * i, 255]);
    }
    let t = Texture::from_rgba(4, 4, &bytes).unwrap();
    for k in 0..10 {
        let c = k * (FP / 7) + 13;
        assert_eq!(Texture::world_to_texel(c, 4), Texture::world_to_texel(c + FP, 4));
        assert_eq!(t.sample_world(c, 3 * FP / 7), t.sample_world(c + FP, 3 * FP / 7));
        assert_eq!(t.sample_world(3 * FP / 7, c), t.sample_world(3 * FP / 7, c + FP));
    }
    // The fractional part picks the texel column.
    assert_eq!(Texture::world_to_texel(FP / 2, 4), 2);
    assert_eq!(Texture::world_to_texel(5 * FP + FP / 2, 4), 2);
    assert_eq!(Texture::world_to_texel(FP - 1, 4), 3);
    // A negative fractional part saturates to texel zero.
    assert_eq!(Texture::world_to_texel(-FP / 2, 4), 0);
}
