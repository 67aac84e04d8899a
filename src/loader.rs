use vstd::prelude::*;
use crate::colorize::{apply_clut, colorized};
use crate::error::{FrameError, FrameErrorKind};
use crate::metadata::{meta_spec, parse_meta, same_chars, FrameMetadata};
use crate::raster::{GrayRaster, RgbaRaster};
use crate::text::{chars_of, split, split_chars, string_from_chars, views};
use crate::sync::SequenceIndexed;

verus! {

/// One colorized frame of a channel, tagged with its position in the channel's timeline.
#[derive(Clone, Debug)]
pub struct Frame {
    pub image: RgbaRaster,
    pub index: usize,
    pub meta: FrameMetadata,
}

impl SequenceIndexed for Frame {
    open spec fn seq_index(&self) -> int {
        self.index as int
    }

    fn sequence_index(&self) -> (r: usize) {
        self.index
    }
}

/// The frames of one channel.
#[derive(Clone, Debug)]
pub struct ChannelTimeline {
    pub channel: String,
    pub frames: Vec<Frame>,
}

/// The last component of a `/`-separated path.
pub open spec fn file_name_of(path: Seq<char>) -> Seq<char> {
    split(path, seq!['/']).last()
}

/// The last component of a `/`-separated path.
pub fn file_name(path: &str) -> (r: String)
    ensures
        r@ == file_name_of(path@),
{
    let slash = vec!['/'];
    assert(slash@ =~= seq!['/']);
    let parts = split_chars(&chars_of(path), &slash);
    let last = parts.len() - 1;
    assert(views(parts@)[last as int] == parts@[last as int]@);
    string_from_chars(parts[last].clone())
}

/// What goes wrong first, if anything, when loading a frame of `channel` from `path`.
pub open spec fn load_failure(
    channel: Seq<char>,
    path: Seq<char>,
    gray: GrayRaster,
    table: Seq<[u8; 4]>,
) -> Option<FrameErrorKind> {
    let meta = meta_spec(file_name_of(path));
    if meta is None || meta->Some_0.channel != channel {
        Some(FrameErrorKind::MalformedMetadata)
    } else if !gray.wf() {
        Some(FrameErrorKind::DecodeFailure)
    } else if table.len() == 0 {
        Some(FrameErrorKind::MissingResource)
    } else {
        None
    }
}

/// Turns the decoded intensities of the file at `path`, position `position` of `channel`'s
/// decimated list, into a frame: its metadata read from the file name, its colors from the
/// channel's table. A file name that does not name `channel`, a raster whose bytes do not fit
/// its size, or an empty table fails the frame.
pub fn load_frame(
    channel: &str,
    path: &str,
    position: usize,
    gray: &GrayRaster,
    table: &Vec<[u8; 4]>,
) -> (r: Result<Frame, FrameError>)
    ensures
        r is Err <==> load_failure(channel@, path@, *gray, table@) is Some,
        r is Err ==> {
            let e = r->Err_0;
            &&& Some(e.kind) == load_failure(channel@, path@, *gray, table@)
            &&& e.channel@ == channel@
            &&& e.index == position
            &&& e.path@ == path@
        },
        r is Ok ==> {
            let f = r->Ok_0;
            &&& f.index == position
            &&& f.meta@ == meta_spec(file_name_of(path@))->Some_0
            &&& f.image.width == gray.width
            &&& f.image.height == gray.height
            &&& f.image.wf()
            &&& f.image.pixels@ == colorized(gray.pixels@, table@)
        },
{
    let fail = |kind: FrameErrorKind| -> (e: FrameError)
        ensures
            e.kind == kind && e.channel@ == channel@ && e.index == position && e.path@ == path@,
        {
            FrameError {
                kind,
                channel: String::from_str(channel),
                index: position,
                path: String::from_str(path),
            }
        };
    let name = file_name(path);
    let meta = match parse_meta(name.as_str()) {
        Ok(m) => m,
        Err(_) => {
            return Err(fail(FrameErrorKind::MalformedMetadata));
        },
    };
    let wanted = chars_of(channel);
    let got = chars_of(meta.channel.as_str());
    if !same_chars(&wanted, &got) {
        return Err(fail(FrameErrorKind::MalformedMetadata));
    }
    let check = GrayRaster::new(gray.width, gray.height, gray.pixels.clone());
    if check.is_none() {
        return Err(fail(FrameErrorKind::DecodeFailure));
    }
    if table.len() == 0 {
        return Err(fail(FrameErrorKind::MissingResource));
    }
    let image = apply_clut(gray, table);
    Ok(Frame { image, index: position, meta })
}

/// The items of `s` at positions `0, stride, 2 * stride, ...`.
pub open spec fn decimated<T>(s: Seq<T>, stride: nat) -> Seq<T>
    recommends
        stride > 0,
{
    Seq::new(((s.len() + stride - 1) / stride as int) as nat, |j: int| s[j * stride])
}

proof fn lemma_decimated_len(n: int, stride: int, count: int)
    requires
        stride > 0,
        n >= 0,
        count >= 0,
        count * stride >= n,
        count == 0 || (count - 1) * stride < n,
    ensures
        (n + stride - 1) / stride == count,
{
    if count == 0 {
        assert(n == 0) by (nonlinear_arith)
            requires count * stride >= n, count == 0, n >= 0;
        assert((stride - 1) / stride == 0) by (nonlinear_arith)
            requires stride > 0;
    } else {
        assert((n + stride - 1) / stride == count) by (nonlinear_arith)
            requires
                stride > 0,
                count * stride >= n,
                (count - 1) * stride < n,
                count > 0,
        ;
    }
}

/// Keeps the files at positions `0, stride, 2 * stride, ...` of the discovery order.
pub fn dec_list(files: &Vec<String>, stride: usize) -> (kept: Vec<String>)
    requires
        stride >= 1,
    ensures
        kept@ == decimated(files@, stride as nat),
{
    let n = files.len();
    let mut kept: Vec<String> = Vec::new();
    let mut i: usize = 0;
    assert(0 == kept@.len() * stride);
    while i < n
        invariant
            stride >= 1,
            n == files@.len(),
            i <= n,
            i == kept@.len() * stride,
            kept@.len() == 0 || (kept@.len() - 1) * stride < n,
            forall|j: int| 0 <= j < kept@.len() ==> kept@[j] == files@[j * stride],
        decreases n - i,
    {
        kept.push(files[i].clone());
        assert((kept@.len() - 1) * stride == i);
        if n - i <= stride {
            assert(kept@.len() * stride >= n) by (nonlinear_arith)
                requires
                    (kept@.len() - 1) * stride == i,
                    n - i <= stride,
            ;
            proof {
                lemma_decimated_len(n as int, stride as int, kept@.len() as int);
            }
            assert(kept@ =~= decimated(files@, stride as nat));
            return kept;
        }
        i = i + stride;
        assert(i == kept@.len() * stride) by (nonlinear_arith)
            requires i == (kept@.len() - 1) * stride + stride;
    }
    proof {
        lemma_decimated_len(n as int, stride as int, kept@.len() as int);
    }
    assert(kept@ =~= decimated(files@, stride as nat));
    kept
}

} // verus!
