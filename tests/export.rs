use spectral_composite::export::{decimal_chars, export_plan, frame_file_name, CompositeFrame};
use spectral_composite::raster::RgbaRaster;

fn composite(index: usize) -> CompositeFrame {
    CompositeFrame { image: RgbaRaster::new(1, 1, vec![index as u8, 0, 0, 255]).unwrap(), index }
}

#[test]
fn out_of_order_composites_are_written_in_slot_order() {
    let plan = export_plan(vec![composite(2), composite(0), composite(1)], 0);
    let names: Vec<&str> = plan.iter().map(|e| e.file_name.as_str()).collect();
    assert_eq!(names, vec!["0000.png", "0001.png", "0002.png"]);
    for (i, e) in plan.iter().enumerate() {
        assert_eq!(e.frame.index, i);
        assert_eq!(e.frame.image.pixels[0], i as u8);
    }
}

#[test]
fn numbering_continues_from_first() {
    let plan = export_plan(vec![composite(5), composite(3)], 12);
    let names: Vec<&str> = plan.iter().map(|e| e.file_name.as_str()).collect();
    assert_eq!(names, vec!["0012.png", "0013.png"]);
    assert_eq!(plan[0].frame.index, 3);
}

#[test]
fn file_names_are_zero_padded() {
    assert_eq!(frame_file_name(0), "0000.png");
    assert_eq!(frame_file_name(7), "0007.png");
    assert_eq!(frame_file_name(9999), "9999.png");
    assert_eq!(frame_file_name(12345), "12345.png");
}

#[test]
fn decimal_digits() {
    assert_eq!(decimal_chars(0), vec!['0']);
    assert_eq!(decimal_chars(1090), vec!['1', '0', '9', '0']);
}

#[test]
fn passes_take_the_last_channel_first() {
    assert_eq!(spectral_composite::export::pass_schedule(6), vec![5, 4, 3, 2, 1, 0]);
    assert_eq!(spectral_composite::export::pass_schedule(0), Vec::<usize>::new());
}

#[test]
fn video_is_named_by_date() {
    assert_eq!(spectral_composite::export::video_file_name("2019/03/01"), "2019_03_01_video.mp4");
}
