use spectral_composite::colorize::{apply_clut, clut_index};
use spectral_composite::raster::GrayRaster;

fn identity_table() -> Vec<[u8; 4]> {
    (0..256).map(|k| [k as u8, k as u8, k as u8, 255]).collect()
}

#[test]
fn index_rounds_half_up() {
    assert_eq!(clut_index(64, 2), 1);
    assert_eq!(clut_index(63, 2), 0);
    assert_eq!(clut_index(1, 2), 0);
    assert_eq!(clut_index(128, 256), 128);
    assert_eq!(clut_index(100, 10), 4);
}

#[test]
fn full_intensity_stays_inside_the_table() {
    for w in 1..600usize {
        assert_eq!(clut_index(255, w), if w == 1 { 0 } else { std::cmp::min(w - 1, (510 * w + 256) / 512) });
        assert!(clut_index(255, w) < w);
    }
    assert_eq!(clut_index(255, 256), 255);
    assert_eq!(clut_index(255, 100), 99);
}

#[test]
fn index_is_monotonic_for_every_width() {
    for w in [1usize, 2, 3, 7, 100, 255, 256, 257, 1000] {
        let mut last = 0;
        for i in 0..=255u8 {
            let t = clut_index(i, w);
            assert!(t >= last);
            assert!(t < w);
            last = t;
        }
    }
}

#[test]
fn colors_each_pixel_from_the_table() {
    let gray = GrayRaster::new(2, 2, vec![0, 100, 200, 255]).unwrap();
    let table = vec![[1, 2, 3, 4], [5, 6, 7, 8], [9, 10, 11, 12]];
    let out = apply_clut(&gray, &table);
    assert_eq!(out.width, 2);
    assert_eq!(out.height, 2);
    // 0 -> 0; 100*3/256 = 1.17 -> 1; 200*3/256 = 2.34 -> 2; 255 -> clamped 2
    assert_eq!(out.pixels, vec![1, 2, 3, 4, 5, 6, 7, 8, 9, 10, 11, 12, 9, 10, 11, 12]);
}

#[test]
fn identity_table_is_idempotent() {
    let gray = GrayRaster::new(3, 1, vec![0, 77, 255]).unwrap();
    let once = apply_clut(&gray, &identity_table());
    assert_eq!(once.pixels, vec![0, 0, 0, 255, 77, 77, 77, 255, 255, 255, 255, 255]);
    let first: Vec<u8> = once.pixels.chunks(4).map(|p| p[0]).collect();
    let again = apply_clut(&GrayRaster::new(3, 1, first).unwrap(), &identity_table());
    assert_eq!(again.pixels, once.pixels);
}

#[test]
fn gray_raster_rejects_wrong_size() {
    assert!(GrayRaster::new(2, 2, vec![0; 3]).is_none());
    assert!(GrayRaster::new(0, 5, vec![]).is_some());
}

#[test]
fn first_channel_is_taken_as_intensity() {
    let rgba = spectral_composite::raster::RgbaRaster::new(2, 1, vec![10, 200, 30, 255, 90, 0, 0, 0]).unwrap();
    let gray = spectral_composite::colorize::first_channel_raster(&rgba);
    assert_eq!((gray.width, gray.height), (2, 1));
    assert_eq!(gray.pixels, vec![10, 90]);
}
