use folio_metadata::phash::{ahash, ahash_bits, dhash, dhash_bits, hamming_distance};
use image::{DynamicImage, ImageBuffer, ImageFormat, Rgb};
use std::io::Cursor;

fn png_bytes(img: DynamicImage) -> Vec<u8> {
    let mut buf = Cursor::new(Vec::new());
    img.write_to(&mut buf, ImageFormat::Png).unwrap();
    buf.into_inner()
}

fn gradient_horizontal() -> Vec<u8> {
    let buf = ImageBuffer::from_fn(64, 64, |x, _| Rgb([x as u8 * 4, x as u8 * 4, x as u8 * 4]));
    png_bytes(DynamicImage::ImageRgb8(buf))
}

fn gradient_vertical() -> Vec<u8> {
    let buf = ImageBuffer::from_fn(64, 64, |_, y| Rgb([y as u8 * 4, y as u8 * 4, y as u8 * 4]));
    png_bytes(DynamicImage::ImageRgb8(buf))
}

fn solid(color: [u8; 3]) -> Vec<u8> {
    let buf = ImageBuffer::from_fn(64, 64, |_, _| Rgb(color));
    png_bytes(DynamicImage::ImageRgb8(buf))
}

#[test]
fn ahash_sets_bits_brighter_than_mean() {
    // Top four rows dark, bottom four bright: mean 100, bits 32..63 set.
    let mut px = vec![0u8; 32];
    px.extend(vec![200u8; 32]);
    assert_eq!(ahash_bits(&px) as u64, 0xFFFF_FFFF_0000_0000);
}

#[test]
fn ahash_of_constant_grid_is_zero() {
    assert_eq!(ahash_bits(&vec![77u8; 64]), 0);
}

#[test]
fn dhash_sets_bit_when_right_neighbour_is_brighter() {
    // Every row strictly increasing: all 64 bits set.
    let mut px = Vec::new();
    for _ in 0..8 {
        for x in 0..9u8 {
            px.push(x * 10);
        }
    }
    assert_eq!(dhash_bits(&px), -1);
    // Every row strictly decreasing: no bit set.
    let mut down = Vec::new();
    for _ in 0..8 {
        for x in 0..9u8 {
            down.push(200 - x * 10);
        }
    }
    assert_eq!(dhash_bits(&down), 0);
}

#[test]
fn dhash_bit_layout_is_row_major() {
    // Only row 2 (samples 18..27) rises, and only between columns 3 and 4.
    let mut px = vec![50u8; 72];
    px[2 * 9 + 4] = 60;
    assert_eq!(dhash_bits(&px) as u64, 1u64 << (2 * 8 + 3));
}

#[test]
fn identical_covers_hash_alike() {
    let a = gradient_horizontal();
    let b = gradient_horizontal();
    assert_eq!(hamming_distance(ahash(&a).unwrap(), ahash(&b).unwrap()), 0);
    assert_eq!(hamming_distance(dhash(&a).unwrap(), dhash(&b).unwrap()), 0);
}

#[test]
fn difference_hash_tells_gradients_apart() {
    let a = dhash(&gradient_horizontal()).unwrap();
    let b = dhash(&gradient_vertical()).unwrap();
    assert!(hamming_distance(a, b) > 8);
    // A left-to-right brightening gradient sets every difference bit.
    assert_eq!(a, -1);
}

#[test]
fn solid_cover_hashes_to_zero() {
    let s = solid([120, 120, 120]);
    assert_eq!(ahash(&s), Some(0));
    assert_eq!(dhash(&s), Some(0));
}

#[test]
fn undecodable_bytes_have_no_hash() {
    assert_eq!(ahash(b"not an image"), None);
    assert_eq!(dhash(&[]), None);
}

#[test]
fn hamming_distance_is_a_metric_on_examples() {
    assert_eq!(hamming_distance(0x5a5a, 0x5a5a), 0);
    assert_eq!(hamming_distance(0, -1), 64);
    assert_eq!(hamming_distance(0b1010, 0b0110), 2);
    assert_eq!(hamming_distance(0b0110, 0b1010), 2);
    let (a, b, c) = (0b1111i64, 0b0011i64, 0b0101i64);
    assert!(hamming_distance(a, c) <= hamming_distance(a, b) + hamming_distance(b, c));
    assert_ne!(hamming_distance(1, 2), 0);
}
