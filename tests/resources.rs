use spectral_composite::resources::{channel_ids, channel_pattern, color_table_name, hour_graphic_name, overlay_name};

#[test]
fn resource_names() {
    assert_eq!(channel_ids(), vec!["94", "335", "211", "193", "171", "304"]);
    assert_eq!(color_table_name("171"), "171_color_table.png");
    assert_eq!(hour_graphic_name("13"), "earth_13.png");
    assert_eq!(overlay_name("fire", 2), "OVERLAY_fire_2.png");
    assert_eq!(channel_pattern("in", "94"), "in/94/*.jp2");
}
