use vstd::prelude::*;
use crate::raster::RgbaRaster;
use crate::sync::{ascending, lemma_sorted_by_index, sort_by_index, sorted_by_index, SequenceIndexed};
use crate::text::{chars_of, replace_char, replace_chars, string_from_chars};

verus! {

/// A finished output frame and the timeline slot it shows.
#[derive(Clone, Debug)]
pub struct CompositeFrame {
    pub image: RgbaRaster,
    pub index: usize,
}

impl SequenceIndexed for CompositeFrame {
    open spec fn seq_index(&self) -> int {
        self.index as int
    }

    fn sequence_index(&self) -> (r: usize) {
        self.index
    }
}

/// A composite and the name of the file it is written to.
#[derive(Clone, Debug)]
pub struct ExportItem {
    pub file_name: String,
    pub frame: CompositeFrame,
}

/// The width, in digits, of an exported file number.
pub const NAME_DIGITS: usize = 4;

pub open spec fn digit_char(d: int) -> char {
    seq!['0', '1', '2', '3', '4', '5', '6', '7', '8', '9'][d]
}

/// `n` in decimal, without leading zeros.
pub open spec fn decimal(n: nat) -> Seq<char>
    decreases n,
{
    if n < 10 {
        seq![digit_char(n as int)]
    } else {
        decimal(n / 10).push(digit_char((n % 10) as int))
    }
}

/// `s` with zeros in front up to `width` characters; an empty `s` stays empty.
pub open spec fn zero_padded(s: Seq<char>, width: nat) -> Seq<char> {
    if s.len() == 0 || s.len() >= width {
        s
    } else {
        Seq::new((width - s.len()) as nat, |i: int| '0') + s
    }
}

/// The name of the file at position `n` of the export.
pub open spec fn frame_name(n: nat) -> Seq<char> {
    zero_padded(decimal(n), NAME_DIGITS as nat) + seq!['.', 'p', 'n', 'g']
}

proof fn lemma_decimal_digits(n: nat)
    ensures
        decimal(n).len() >= 1,
        forall|k: int| 0 <= k < decimal(n).len() ==> '0' <= #[trigger] decimal(n)[k] <= '9',
    decreases n,
{
    if n >= 10 {
        lemma_decimal_digits(n / 10);
    }
}

/// Relies on voca_rs::manipulate::zfill: zeros in front of `s` up to `width` graphemes, `s`
/// itself when it is that long already, and an empty string for an empty `s`. Decimal digits
/// are one grapheme each.
#[verifier::external_body]
fn zfill(s: &str, width: usize) -> (r: String)
    requires
        forall|k: int| 0 <= k < s@.len() ==> '0' <= #[trigger] s@[k] <= '9',
    ensures
        r@ == zero_padded(s@, width as nat),
{
    voca_rs::manipulate::zfill(s, width)
}

fn digit(d: usize) -> (c: char)
    requires
        d < 10,
    ensures
        c == digit_char(d as int),
{
    let digits = vec!['0', '1', '2', '3', '4', '5', '6', '7', '8', '9'];
    assert(digits@ =~= seq!['0', '1', '2', '3', '4', '5', '6', '7', '8', '9']);
    digits[d]
}

/// The decimal digits of `n`.
pub fn decimal_chars(n: usize) -> (r: Vec<char>)
    ensures
        r@ == decimal(n as nat),
    decreases n,
{
    if n < 10 {
        vec![digit(n)]
    } else {
        let mut r = decimal_chars(n / 10);
        r.push(digit(n % 10));
        r
    }
}

/// The file name for position `n` of the export: `n` zero-padded to four digits, then `.png`.
pub fn frame_file_name(n: usize) -> (r: String)
    ensures
        r@ == frame_name(n as nat),
{
    proof {
        lemma_decimal_digits(n as nat);
    }
    let digits = string_from_chars(decimal_chars(n));
    let padded = zfill(digits.as_str(), NAME_DIGITS);
    let suffix = string_from_chars(vec!['.', 'p', 'n', 'g']);
    let r = padded.concat(suffix.as_str());
    r
}

/// Which channel is the primary one in each pass over `channels` channels: the last channel
/// first, then backwards to the first. The pass number also picks the overlay graphic.
pub fn pass_schedule(channels: usize) -> (r: Vec<usize>)
    ensures
        r@.len() == channels,
        forall|p: int| 0 <= p < channels ==> #[trigger] r@[p] == channels - 1 - p,
{
    let mut r: Vec<usize> = Vec::new();
    for p in 0..channels
        invariant
            r@.len() == p,
            forall|q: int| 0 <= q < p ==> #[trigger] r@[q] == channels - 1 - q,
    {
        r.push(channels - 1 - p);
    }
    r
}

/// The video's file name: the capture date with `_` for `/`, then `_video.mp4`.
pub fn video_file_name(date: &str) -> (r: String)
    ensures
        r@ == replace_char(date@, '/', '_') + "_video.mp4"@,
{
    let day = string_from_chars(replace_chars(&chars_of(date), '/', '_'));
    day.concat("_video.mp4")
}

/// Orders composites by their slot and names them `first`, `first + 1`, ... in that order,
/// whatever order they were produced in.
pub fn export_plan(frames: Vec<CompositeFrame>, first: usize) -> (r: Vec<ExportItem>)
    requires
        first + frames@.len() <= usize::MAX,
    ensures
        r@.len() == frames@.len(),
        forall|i: int|
            0 <= i < r@.len() ==> {
                &&& (#[trigger] r@[i]).frame == sorted_by_index(frames@)[i]
                &&& r@[i].file_name@ == frame_name((first + i) as nat)
            },
        forall|i: int, j: int| 0 <= i < j < r@.len() ==> r@[i].frame.index <= r@[j].frame.index,
{
    proof {
        lemma_sorted_by_index(frames@);
    }
    let ghost sorted = sorted_by_index(frames@);
    let mut rest = sort_by_index(frames);
    let n = rest.len();
    let mut r: Vec<ExportItem> = Vec::new();
    let mut k: usize = 0;
    while k < n
        invariant
            n == sorted.len(),
            first + n <= usize::MAX,
            ascending(sorted),
            k <= n,
            rest@ == sorted.subrange(k as int, n as int),
            r@.len() == k,
            forall|i: int|
                0 <= i < k ==> {
                    &&& (#[trigger] r@[i]).frame == sorted[i]
                    &&& r@[i].file_name@ == frame_name((first + i) as nat)
                },
        decreases n - k,
    {
        let frame = rest.remove(0);
        let file_name = frame_file_name(first + k);
        r.push(ExportItem { file_name, frame });
        k = k + 1;
    }
    r
}

} // verus!
