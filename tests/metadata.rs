use spectral_composite::error::FrameErrorKind;
use spectral_composite::loader::file_name;
use spectral_composite::metadata::parse_meta;

#[test]
fn parses_a_well_formed_name() {
    let m = parse_meta("2019_03_01__13_05_22_12__SDO_AIA_AIA_171.jp2").unwrap();
    assert_eq!(m.date, "2019/03/01");
    assert_eq!(m.time, "13:05:22:12");
    assert_eq!(m.hour, "13");
    assert_eq!(m.channel, "171");
}

#[test]
fn round_trip_of_composed_fields() {
    let cases = [
        ("2020_12_31", "23", "_59_59", "SDO", "AIA", "AIA", "304", "jp2"),
        ("2017_01_02", "0", "", "a", "b", "c", "94", "png"),
        ("1999", "07", "_30", "x", "y", "z", "335", "tar.gz"),
    ];
    for (date, hour, rest, a, b, c, channel, ext) in cases {
        let name = format!("{}__{}{}__{}_{}_{}_{}.{}", date, hour, rest, a, b, c, channel, ext);
        let m = parse_meta(&name).unwrap();
        assert_eq!(m.date, date.replace('_', "/"));
        assert_eq!(m.time, format!("{}{}", hour, rest).replace('_', ":"));
        assert_eq!(m.hour, hour);
        assert_eq!(m.channel, channel);
    }
}

#[test]
fn too_few_fields_is_malformed() {
    assert_eq!(parse_meta("2019_03_01__13_05_22").unwrap_err(), FrameErrorKind::MalformedMetadata);
    assert_eq!(parse_meta("").unwrap_err(), FrameErrorKind::MalformedMetadata);
}

#[test]
fn short_descriptor_is_malformed() {
    assert_eq!(
        parse_meta("2019_03_01__13_05_22__AIA_171.jp2").unwrap_err(),
        FrameErrorKind::MalformedMetadata
    );
}

#[test]
fn unknown_channel_is_malformed() {
    assert_eq!(
        parse_meta("2019_03_01__13_05_22__SDO_AIA_AIA_1600.jp2").unwrap_err(),
        FrameErrorKind::MalformedMetadata
    );
}

#[test]
fn triple_underscore_splits_left_to_right() {
    // "01___13" cuts after "01", leaving "_13..." as the time
    let m = parse_meta("2019_03_01___13_05__SDO_AIA_AIA_94.jp2").unwrap();
    assert_eq!(m.date, "2019/03/01");
    assert_eq!(m.time, ":13:05");
    assert_eq!(m.hour, "");
}

#[test]
fn extra_fields_are_ignored() {
    let m = parse_meta("2019_03_01__13_05__SDO_AIA_AIA_211.jp2__copy").unwrap();
    assert_eq!(m.channel, "211");
}

#[test]
fn file_name_is_last_path_component() {
    assert_eq!(file_name("data/171/2019_03_01__13__a_b_c_171.jp2"), "2019_03_01__13__a_b_c_171.jp2");
    assert_eq!(file_name("plain"), "plain");
    assert_eq!(file_name("dir/"), "");
}
