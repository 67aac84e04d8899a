use spectral_composite::error::FrameErrorKind;
use spectral_composite::loader::{dec_list, load_frame};
use spectral_composite::raster::GrayRaster;

fn files(n: usize) -> Vec<String> {
    (0..n).map(|i| format!("f{}", i)).collect()
}

#[test]
fn stride_three_over_ten_keeps_four() {
    let kept = dec_list(&files(10), 3);
    assert_eq!(kept, vec!["f0", "f3", "f6", "f9"]);
}

#[test]
fn stride_one_keeps_all() {
    assert_eq!(dec_list(&files(5), 1), files(5));
}

#[test]
fn stride_longer_than_list_keeps_first() {
    assert_eq!(dec_list(&files(3), 7), vec!["f0"]);
    assert_eq!(dec_list(&files(0), 2), Vec::<String>::new());
    assert_eq!(dec_list(&files(300), 256), vec!["f0", "f256"]);
}

#[test]
fn loads_a_frame() {
    let gray = GrayRaster::new(1, 1, vec![255]).unwrap();
    let table = vec![[1, 1, 1, 1], [2, 2, 2, 2]];
    let f = load_frame("171", "in/171/2019_03_01__13_05__SDO_AIA_AIA_171.jp2", 7, &gray, &table).unwrap();
    assert_eq!(f.index, 7);
    assert_eq!(f.meta.hour, "13");
    assert_eq!(f.image.pixels, vec![2, 2, 2, 2]);
}

#[test]
fn frame_errors_carry_their_context() {
    let gray = GrayRaster::new(1, 1, vec![0]).unwrap();
    let table = vec![[0, 0, 0, 0]];
    let path = "in/171/bad_name.jp2";
    let e = load_frame("171", path, 3, &gray, &table).unwrap_err();
    assert_eq!(e.kind, FrameErrorKind::MalformedMetadata);
    assert_eq!(e.channel, "171");
    assert_eq!(e.index, 3);
    assert_eq!(e.path, path);
    let other = "in/171/2019_03_01__13__a_b_c_94.jp2";
    assert_eq!(load_frame("171", other, 0, &gray, &table).unwrap_err().kind, FrameErrorKind::MalformedMetadata);
    let good = "in/171/2019_03_01__13__a_b_c_171.jp2";
    assert_eq!(load_frame("171", good, 0, &gray, &vec![]).unwrap_err().kind, FrameErrorKind::MissingResource);
    let broken = GrayRaster { width: 2, height: 2, pixels: vec![0] };
    assert_eq!(load_frame("171", good, 0, &broken, &table).unwrap_err().kind, FrameErrorKind::DecodeFailure);
}
