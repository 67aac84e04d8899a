use spectral_composite::compose::Point;
use spectral_composite::template::{parse_number, parse_template, tuple_from_string, TemplateError};

fn chars(s: &str) -> Vec<char> {
    s.chars().collect()
}

fn sample() -> Vec<String> {
    let text = "# template\nfire\nmedia/fonts/font.ttf\ninput\noutput\n\n(1920, 1080)\n(1100,40)\n(0, 0)\n(1500, 300)\n# thumbnails\n(1100,700)\n(1250,700)\n(1400,700)\n(1550,700)\n(1700,700)\n(1850,700)\n( 10 , 20 )\n140\n2\n";
    text.lines().map(|l| l.to_string()).collect()
}

#[test]
fn reads_pairs_and_numbers() {
    assert_eq!(tuple_from_string(&chars("(10, 20)")), Some(Point { x: 10, y: 20 }));
    assert_eq!(tuple_from_string(&chars(" ( 3,4 ) ")), Some(Point { x: 3, y: 4 }));
    assert_eq!(tuple_from_string(&chars("(10 20)")), None);
    assert_eq!(tuple_from_string(&chars("(a, 2)")), None);
    assert_eq!(parse_number(&chars("4294967295")), Some(u32::MAX));
    assert_eq!(parse_number(&chars("4294967296")), None);
    assert_eq!(parse_number(&chars("+12")), Some(12));
    assert_eq!(parse_number(&chars("")), None);
    assert_eq!(parse_number(&chars("1-2")), None);
}

#[test]
fn reads_a_template() {
    let t = parse_template(&sample()).unwrap();
    assert_eq!(t.template_id, "fire");
    assert_eq!(t.font, "media/fonts/font.ttf");
    assert_eq!(t.input_dir, "input");
    assert_eq!(t.output_dir, "output");
    assert_eq!((t.resolution.width, t.resolution.height), (1920, 1080));
    assert_eq!(t.text, Point { x: 1100, y: 40 });
    assert_eq!(t.hour_graphic, Point { x: 1500, y: 300 });
    assert_eq!(t.thumbnails.len(), 6);
    assert_eq!(t.thumbnails[5], Point { x: 1850, y: 700 });
    assert_eq!(t.overlay, Point { x: 10, y: 20 });
    assert_eq!(t.thumb_size, 140);
    assert_eq!(t.stride, 2);
    let layout = t.layout();
    assert_eq!(layout.text_size, 35);
    let caption = layout.caption.unwrap();
    assert_eq!(caption.text, "Earth for scale");
    assert_eq!((caption.x, caption.y), (1498, 365));
}

#[test]
fn missing_lines_are_refused() {
    let mut lines = sample();
    lines.truncate(10);
    assert_eq!(parse_template(&lines).unwrap_err(), TemplateError::MissingLines { found: 8 });
}

#[test]
fn bad_values_are_refused() {
    let mut lines = sample();
    lines[9] = "(1500 300)".to_string();
    assert_eq!(parse_template(&lines).unwrap_err(), TemplateError::BadValue { line: 7 });
    let mut lines = sample();
    let last = lines.len() - 1;
    lines[last] = "0".to_string();
    assert_eq!(parse_template(&lines).unwrap_err(), TemplateError::BadValue { line: 16 });
}
