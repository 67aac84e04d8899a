use vstd::prelude::*;
use crate::export::{decimal, decimal_chars};
use crate::metadata::known_channel;
use crate::text::string_from_chars;

verus! {

/// The channel ids in the order the run takes them: 94, 335, 211, 193, 171, 304.
pub open spec fn channel_order() -> Seq<Seq<char>> {
    seq![
        seq!['9', '4'],
        seq!['3', '3', '5'],
        seq!['2', '1', '1'],
        seq!['1', '9', '3'],
        seq!['1', '7', '1'],
        seq!['3', '0', '4'],
    ]
}

/// The channel ids in the order the run takes them.
pub fn channel_ids() -> (r: Vec<String>)
    ensures
        r@.len() == 6,
        forall|c: int| 0 <= c < 6 ==> (#[trigger] r@[c])@ == channel_order()[c] && known_channel(
            r@[c]@,
        ),
{
    let mut r: Vec<String> = Vec::new();
    r.push(string_from_chars(vec!['9', '4']));
    r.push(string_from_chars(vec!['3', '3', '5']));
    r.push(string_from_chars(vec!['2', '1', '1']));
    r.push(string_from_chars(vec!['1', '9', '3']));
    r.push(string_from_chars(vec!['1', '7', '1']));
    r.push(string_from_chars(vec!['3', '0', '4']));
    r
}

/// The calibration table of a channel: `<channel>_color_table.png`.
pub fn color_table_name(channel: &str) -> (r: String)
    ensures
        r@ == channel@ + "_color_table.png"@,
{
    String::from_str(channel).concat("_color_table.png")
}

/// The scale graphic for a capture hour: `earth_<hour>.png`.
pub fn hour_graphic_name(hour: &str) -> (r: String)
    ensures
        r@ == "earth_"@ + hour@ + ".png"@,
{
    String::from_str("earth_").concat(hour).concat(".png")
}

/// The overlay graphic of a pass: `OVERLAY_<template>_<pass>.png`.
pub fn overlay_name(template_id: &str, pass: usize) -> (r: String)
    ensures
        r@ == "OVERLAY_"@ + template_id@ + "_"@ + decimal(pass as nat) + ".png"@,
{
    let number = string_from_chars(decimal_chars(pass));
    String::from_str("OVERLAY_").concat(template_id).concat("_").concat(number.as_str()).concat(
        ".png",
    )
}

/// The pattern that finds a channel's source files: `<input_dir>/<channel>/*.jp2`.
pub fn channel_pattern(input_dir: &str, channel: &str) -> (r: String)
    ensures
        r@ == input_dir@ + "/"@ + channel@ + "/*.jp2"@,
{
    String::from_str(input_dir).concat("/").concat(channel).concat("/*.jp2")
}

} // verus!
