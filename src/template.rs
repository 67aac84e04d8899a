use vstd::prelude::*;
use crate::compose::{Caption, Layout, Point, Size};
use crate::text::{chars_of, split, split_chars, string_from_chars, views};

verus! {

/// The run's settings, one value per line, in this order: template id, font path, input
/// directory, output directory, resolution, text position, primary panel, hour graphic, the six
/// channel thumbnails, overlay, thumbnail size, stride. Lines holding `#` and empty lines are
/// skipped.
#[derive(Clone, Debug)]
pub struct Template {
    pub template_id: String,
    pub font: String,
    pub input_dir: String,
    pub output_dir: String,
    pub resolution: Size,
    pub text: Point,
    pub primary: Point,
    pub hour_graphic: Point,
    pub thumbnails: Vec<Point>,
    pub overlay: Point,
    pub thumb_size: u32,
    pub stride: u32,
}

/// Why a template is refused.
#[derive(Clone, Copy, Debug, PartialEq, Eq, Structural)]
pub enum TemplateError {
    /// Only `found` value lines, fewer than the settings need.
    MissingLines { found: usize },
    /// The value line at this position (counting value lines from 0) does not read as its setting.
    BadValue { line: usize },
}

/// The number of value lines a template needs.
pub const TEMPLATE_LINES: usize = 17;

pub open spec fn has_char(s: Seq<char>, c: char) -> bool {
    exists|k: int| 0 <= k < s.len() && s[k] == c
}

/// The lines that carry values: not empty and without `#`.
pub open spec fn value_lines(lines: Seq<Seq<char>>) -> Seq<Seq<char>>
    decreases lines.len(),
{
    if lines.len() == 0 {
        Seq::empty()
    } else {
        let l = lines.last();
        let before = value_lines(lines.drop_last());
        if l.len() == 0 || has_char(l, '#') {
            before
        } else {
            before.push(l)
        }
    }
}

/// `s` without any `c`.
pub open spec fn without(s: Seq<char>, c: char) -> Seq<char>
    decreases s.len(),
{
    if s.len() == 0 {
        Seq::empty()
    } else if s.last() == c {
        without(s.drop_last(), c)
    } else {
        without(s.drop_last(), c).push(s.last())
    }
}

pub open spec fn is_digit(c: char) -> bool {
    '0' <= c <= '9'
}

/// The value of a string of decimal digits.
pub open spec fn digits_value(s: Seq<char>) -> nat
    decreases s.len(),
{
    if s.len() == 0 {
        0
    } else {
        digits_value(s.drop_last()) * 10 + (s.last() as nat - '0' as nat) as nat
    }
}

pub open spec fn all_digits(d: Seq<char>) -> bool {
    forall|k: int| 0 <= k < d.len() ==> is_digit(#[trigger] d[k])
}

/// `s` without its leading `+`, if it has one.
pub open spec fn unsigned_part(s: Seq<char>) -> Seq<char> {
    if s.len() > 0 && s[0] == '+' {
        s.drop_first()
    } else {
        s
    }
}

/// An unsigned 32-bit number in decimal, with an optional leading `+`.
pub open spec fn number_spec(s: Seq<char>) -> Option<u32> {
    let d = unsigned_part(s);
    if d.len() > 0 && all_digits(d) && digits_value(d) <= u32::MAX {
        Some(digits_value(d) as u32)
    } else {
        None
    }
}

/// A pair `(x, y)`: spaces are ignored, `(` is dropped before the first comma, `)` after it.
pub open spec fn pair_spec(s: Seq<char>) -> Option<Point> {
    let parts = split(without(s, ' '), seq![',']);
    if parts.len() < 2 {
        None
    } else {
        match (number_spec(without(parts[0], '(')), number_spec(without(parts[1], ')'))) {
            (Some(x), Some(y)) => Some(Point { x, y }),
            _ => None,
        }
    }
}

/// Whether value line `i` of `v` reads as its setting.
pub open spec fn line_ok(v: Seq<Seq<char>>, i: int) -> bool {
    if 4 <= i <= 14 {
        pair_spec(v[i]) is Some
    } else if i == 15 {
        number_spec(v[i]) is Some
    } else if i == 16 {
        number_spec(v[i]) is Some && number_spec(v[i])->Some_0 >= 1
    } else {
        true
    }
}

/// The first value line from `i` on that does not read as its setting.
pub open spec fn first_bad_from(v: Seq<Seq<char>>, i: int) -> Option<int>
    decreases 17 - i,
{
    if i >= 17 {
        None
    } else if !line_ok(v, i) {
        Some(i)
    } else {
        first_bad_from(v, i + 1)
    }
}

fn has_char_exec(s: &Vec<char>, c: char) -> (r: bool)
    ensures
        r == has_char(s@, c),
{
    for i in 0..s.len()
        invariant
            forall|k: int| 0 <= k < i ==> s@[k] != c,
    {
        if s[i] == c {
            return true;
        }
    }
    false
}

fn without_exec(s: &Vec<char>, c: char) -> (r: Vec<char>)
    ensures
        r@ == without(s@, c),
{
    let mut r: Vec<char> = Vec::new();
    for i in 0..s.len()
        invariant
            r@ == without(s@.subrange(0, i as int), c),
    {
        assert(s@.subrange(0, i + 1).drop_last() =~= s@.subrange(0, i as int));
        if s[i] != c {
            r.push(s[i]);
        }
    }
    assert(s@.subrange(0, s@.len() as int) =~= s@);
    r
}

/// Reads an unsigned 32-bit decimal number, with an optional leading `+`.
pub fn parse_number(s: &Vec<char>) -> (r: Option<u32>)
    ensures
        r == number_spec(s@),
{
    let start: usize = if s.len() > 0 && s[0] == '+' {
        1
    } else {
        0
    };
    let ghost d = unsigned_part(s@);
    assert(d =~= s@.subrange(start as int, s@.len() as int));
    if start == s.len() {
        return None;
    }
    let mut value: u64 = 0;
    let mut i: usize = start;
    while i < s.len()
        invariant
            start <= i <= s@.len(),
            d == s@.subrange(start as int, s@.len() as int),
            d == unsigned_part(s@),
            forall|k: int| start <= k < i ==> is_digit(#[trigger] s@[k]),
            value == digits_value(s@.subrange(start as int, i as int)),
            value <= u32::MAX,
        decreases s@.len() - i,
    {
        let c = s[i];
        if c < '0' || c > '9' {
            assert(d[i - start] == s@[i as int]);
            assert(!is_digit(d[i - start]));
            assert(!all_digits(d));
            return None;
        }
        let ghost head = s@.subrange(start as int, i + 1);
        assert(head.drop_last() =~= s@.subrange(start as int, i as int));
        assert(head.last() == c);
        let next = value * 10 + (c as u64 - '0' as u64);
        assert(next == digits_value(head));
        if next > u32::MAX as u64 {
            assert(d.subrange(0, i - start + 1) =~= head);
            proof {
                lemma_prefix_too_big(d, (i - start + 1) as int);
            }
            return None;
        }
        value = next;
        i = i + 1;
    }
    assert(s@.subrange(start as int, i as int) =~= d);
    Some(value as u32)
}

proof fn lemma_digits_value_grows(s: Seq<char>, n: int)
    requires
        0 <= n <= s.len(),
        forall|k: int| 0 <= k < s.len() ==> is_digit(#[trigger] s[k]),
    ensures
        digits_value(s) >= digits_value(s.subrange(0, n)),
    decreases s.len() - n,
{
    if n < s.len() {
        lemma_digits_value_grows(s, n + 1);
        assert(s.subrange(0, n + 1).drop_last() =~= s.subrange(0, n));
    } else {
        assert(s.subrange(0, n) =~= s);
    }
}

proof fn lemma_prefix_too_big(d: Seq<char>, n: int)
    requires
        0 < n <= d.len(),
        digits_value(d.subrange(0, n)) > u32::MAX,
    ensures
        number_spec_digits_fail(d),
{
    if all_digits(d) {
        lemma_digits_value_grows(d, n);
    }
}

spec fn number_spec_digits_fail(d: Seq<char>) -> bool {
    !(d.len() > 0 && all_digits(d) && digits_value(d) <= u32::MAX)
}

/// Reads a pair `(x, y)`.
pub fn tuple_from_string(s: &Vec<char>) -> (r: Option<Point>)
    ensures
        r == pair_spec(s@),
{
    let comma = vec![','];
    assert(comma@ =~= seq![',']);
    let parts = split_chars(&without_exec(s, ' '), &comma);
    if parts.len() < 2 {
        return None;
    }
    assert(views(parts@)[0] == parts@[0]@);
    assert(views(parts@)[1] == parts@[1]@);
    let x = parse_number(&without_exec(&parts[0], '('));
    let y = parse_number(&without_exec(&parts[1], ')'));
    match (x, y) {
        (Some(x), Some(y)) => Some(Point { x, y }),
        _ => None,
    }
}

/// Height in pixels of the text lines.
pub const TEXT_SIZE: u32 = 35;

/// Gray level and alpha of the text.
pub const TEXT_GRAY: u8 = 185;

pub const TEXT_ALPHA: u8 = 0;

/// How far left of the hour graphic, and how far below its top, the caption starts.
pub const CAPTION_LEFT: u32 = 2;

pub const CAPTION_DOWN: u32 = 65;

impl Template {
    /// The layout the template describes, with light gray text lines and the caption
    /// "Earth for scale" under the hour graphic (its position kept on the coordinate range).
    pub fn layout(&self) -> (r: Layout)
        ensures
            r.width == self.resolution.width,
            r.height == self.resolution.height,
            r.primary == self.primary,
            r.hour_graphic == self.hour_graphic,
            r.thumbnails@ == self.thumbnails@,
            r.thumb_size == self.thumb_size,
            r.overlay == self.overlay,
            r.text == self.text,
            r.text_size == TEXT_SIZE,
            r.text_color == [TEXT_GRAY, TEXT_GRAY, TEXT_GRAY, TEXT_ALPHA],
            r.caption is Some,
            r.caption->Some_0.text@ == "Earth for scale"@,
            r.caption->Some_0.x == (if self.hour_graphic.x >= CAPTION_LEFT {
                self.hour_graphic.x - CAPTION_LEFT
            } else {
                0int
            }),
            r.caption->Some_0.y == (if self.hour_graphic.y <= u32::MAX - CAPTION_DOWN {
                self.hour_graphic.y + CAPTION_DOWN
            } else {
                u32::MAX as int
            }),
    {
        let x = if self.hour_graphic.x >= CAPTION_LEFT {
            self.hour_graphic.x - CAPTION_LEFT
        } else {
            0
        };
        let y = if self.hour_graphic.y <= u32::MAX - CAPTION_DOWN {
            self.hour_graphic.y + CAPTION_DOWN
        } else {
            u32::MAX
        };
        Layout {
            width: self.resolution.width,
            height: self.resolution.height,
            primary: self.primary,
            hour_graphic: self.hour_graphic,
            thumbnails: self.thumbnails.clone(),
            thumb_size: self.thumb_size,
            overlay: self.overlay,
            text: self.text,
            text_size: TEXT_SIZE,
            text_color: [TEXT_GRAY, TEXT_GRAY, TEXT_GRAY, TEXT_ALPHA],
            caption: Some(Caption { text: String::from_str("Earth for scale"), x, y }),
        }
    }
}

pub open spec fn line_views(lines: Seq<String>) -> Seq<Seq<char>> {
    lines.map_values(|l: String| l@)
}

/// Reads a template from its lines.
pub fn parse_template(lines: &Vec<String>) -> (r: Result<Template, TemplateError>)
    ensures
        ({
            let v = value_lines(line_views(lines@));
            &&& v.len() < 17 ==> r == Err::<Template, TemplateError>(
                TemplateError::MissingLines { found: v.len() as usize },
            )
            &&& v.len() >= 17 && first_bad_from(v, 4) is Some ==> r == Err::<
                Template,
                TemplateError,
            >(TemplateError::BadValue { line: first_bad_from(v, 4)->Some_0 as usize })
            &&& r is Ok <==> v.len() >= 17 && first_bad_from(v, 4) is None
            &&& r is Ok ==> {
                let t = r->Ok_0;
                &&& t.template_id@ == v[0]
                &&& t.font@ == v[1]
                &&& t.input_dir@ == v[2]
                &&& t.output_dir@ == v[3]
                &&& Some(Point { x: t.resolution.width, y: t.resolution.height }) == pair_spec(v[4])
                &&& Some(t.text) == pair_spec(v[5])
                &&& Some(t.primary) == pair_spec(v[6])
                &&& Some(t.hour_graphic) == pair_spec(v[7])
                &&& t.thumbnails@.len() == 6
                &&& forall|c: int| 0 <= c < 6 ==> Some(#[trigger] t.thumbnails@[c]) == pair_spec(v[8 + c])
                &&& Some(t.overlay) == pair_spec(v[14])
                &&& Some(t.thumb_size) == number_spec(v[15])
                &&& Some(t.stride) == number_spec(v[16])
            }
        }),
{
    let ghost all = line_views(lines@);
    let mut vals: Vec<Vec<char>> = Vec::new();
    for i in 0..lines.len()
        invariant
            all == line_views(lines@),
            views(vals@) == value_lines(all.subrange(0, i as int)),
    {
        assert(all.subrange(0, i + 1).drop_last() =~= all.subrange(0, i as int));
        let line = chars_of(lines[i].as_str());
        if line.len() > 0 && !has_char_exec(&line, '#') {
            let ghost before = vals@;
            vals.push(line);
            assert(views(vals@) =~= views(before).push(line@));
        }
    }
    assert(all.subrange(0, lines@.len() as int) =~= all);
    let ghost v = value_lines(all);
    assert(views(vals@).len() == vals@.len());
    if vals.len() < TEMPLATE_LINES {
        return Err(TemplateError::MissingLines { found: vals.len() });
    }
    assert forall|j: int| 0 <= j < vals@.len() implies #[trigger] vals@[j]@ == v[j] by {
        assert(views(vals@)[j] == vals@[j]@);
    }
    let mut points: Vec<Point> = Vec::new();
    for i in 4..15
        invariant
            v == value_lines(line_views(lines@)),
            v.len() == vals@.len(),
            vals@.len() >= 17,
            forall|j: int| 0 <= j < vals@.len() ==> #[trigger] vals@[j]@ == v[j],
            points@.len() == i - 4,
            forall|j: int| 4 <= j < i ==> line_ok(v, j),
            forall|j: int| 4 <= j < i ==> Some(#[trigger] points@[j - 4]) == pair_spec(v[j]),
            first_bad_from(v, 4) == first_bad_from(v, i as int),
    {
        assert(vals@[i as int]@ == v[i as int]);
        match tuple_from_string(&vals[i]) {
            Some(p) => {
                points.push(p);
                assert(first_bad_from(v, i as int) == first_bad_from(v, i + 1));
            },
            None => {
                assert(vals@[i as int]@ == v[i as int]);
                assert(!line_ok(v, i as int));
                return Err(TemplateError::BadValue { line: i });
            },
        }
    }
    let thumb_size = match parse_number(&vals[15]) {
        Some(n) => n,
        None => {
            return Err(TemplateError::BadValue { line: 15 });
        },
    };
    assert(first_bad_from(v, 15) == first_bad_from(v, 16));
    let stride = match parse_number(&vals[16]) {
        Some(n) => n,
        None => {
            return Err(TemplateError::BadValue { line: 16 });
        },
    };
    if stride == 0 {
        return Err(TemplateError::BadValue { line: 16 });
    }
    assert(first_bad_from(v, 16) == first_bad_from(v, 17));
    let mut thumbnails: Vec<Point> = Vec::new();
    for c in 4..10
        invariant
            points@.len() == 11,
            thumbnails@ == points@.subrange(4, c as int),
    {
        thumbnails.push(points[c]);
        assert(thumbnails@ =~= points@.subrange(4, c + 1));
    }
    assert forall|c: int| 0 <= c < 6 implies Some(#[trigger] thumbnails@[c]) == pair_spec(v[8 + c]) by {
        assert(thumbnails@[c] == points@[c + 4]);
        assert(Some(points@[(8 + c) - 4]) == pair_spec(v[8 + c]));
    }
    assert(Some(points@[4 - 4]) == pair_spec(v[4]));
    assert(Some(points@[5 - 4]) == pair_spec(v[5]));
    assert(Some(points@[6 - 4]) == pair_spec(v[6]));
    assert(Some(points@[7 - 4]) == pair_spec(v[7]));
    assert(Some(points@[14 - 4]) == pair_spec(v[14]));
    Ok(
        Template {
            template_id: string_from_chars(vals[0].clone()),
            font: string_from_chars(vals[1].clone()),
            input_dir: string_from_chars(vals[2].clone()),
            output_dir: string_from_chars(vals[3].clone()),
            resolution: Size { width: points[0].x, height: points[0].y },
            text: points[1],
            primary: points[2],
            hour_graphic: points[3],
            thumbnails,
            overlay: points[10],
            thumb_size,
            stride,
        },
    )
}

} // verus!
