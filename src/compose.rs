use vstd::prelude::*;
use crate::error::RunError;
use crate::export::CompositeFrame;
use crate::loader::ChannelTimeline;
use crate::metadata::FrameMetadata;
use crate::raster::{overlay_at, overlay_view, resize_nearest, resize_view, Picture, RgbaRaster};

verus! {

/// A position on the canvas: column, row of the top-left corner.
#[derive(Clone, Copy, Debug, PartialEq, Eq, Structural)]
pub struct Point {
    pub x: u32,
    pub y: u32,
}

/// A size in pixels.
#[derive(Clone, Copy, Debug, PartialEq, Eq, Structural)]
pub struct Size {
    pub width: u32,
    pub height: u32,
}

/// Where a layer's picture comes from.
#[derive(Clone, Copy, Debug, PartialEq, Eq, Structural)]
pub enum LayerSource {
    /// Slot `k` of the primary channel.
    Primary,
    /// The scale graphic chosen by the capture hour.
    HourGraphic,
    /// Slot `k` of the channel at this position.
    Thumbnail(usize),
    /// The graphic chosen by the pass.
    Overlay,
}

/// One picture laid onto the canvas, resized first when `resize_to` is given.
#[derive(Clone, Copy, Debug, PartialEq, Eq, Structural)]
pub struct Layer {
    pub source: LayerSource,
    pub x: u32,
    pub y: u32,
    pub resize_to: Option<Size>,
}

/// A fixed line of text and where it goes.
#[derive(Clone, Debug)]
pub struct Caption {
    pub text: String,
    pub x: u32,
    pub y: u32,
}

/// A line of text to draw: top-left corner, height in pixels, RGBA color.
#[derive(Clone, Debug)]
pub struct TextAnnotation {
    pub text: String,
    pub x: u32,
    pub y: u32,
    pub size: u32,
    pub color: [u8; 4],
}

/// Placement of every element of an output frame.
#[derive(Clone, Debug)]
pub struct Layout {
    /// Canvas size.
    pub width: u32,
    pub height: u32,
    /// The primary panel, a square as tall as the canvas.
    pub primary: Point,
    pub hour_graphic: Point,
    /// One thumbnail position per channel, in timeline order.
    pub thumbnails: Vec<Point>,
    pub thumb_size: u32,
    pub overlay: Point,
    /// The date line; the time line follows one text height below.
    pub text: Point,
    pub text_size: u32,
    pub text_color: [u8; 4],
    pub caption: Option<Caption>,
}

impl Layout {
    /// Sizes that can be allocated and lines that stay on the coordinate range.
    pub open spec fn wf(&self) -> bool {
        &&& self.width > 0
        &&& self.height > 0
        &&& self.thumb_size > 0
        &&& 4 * (self.width as int * self.height as int) <= usize::MAX
        &&& 4 * (self.height as int * self.height as int) <= usize::MAX
        &&& 4 * (self.thumb_size as int * self.thumb_size as int) <= usize::MAX
        &&& self.text.y + self.text_size <= u32::MAX
    }

    pub fn check(&self) -> (r: bool)
        ensures
            r == self.wf(),
    {
        if self.width == 0 || self.height == 0 || self.thumb_size == 0 {
            return false;
        }
        let w = self.width as u128;
        let h = self.height as u128;
        let t = self.thumb_size as u128;
        assert(w * h <= 0xFFFF_FFFE_0000_0001 && h * h <= 0xFFFF_FFFE_0000_0001 && t * t
            <= 0xFFFF_FFFE_0000_0001) by (nonlinear_arith)
            requires
                w <= 0xFFFF_FFFF,
                h <= 0xFFFF_FFFF,
                t <= 0xFFFF_FFFF,
        ;
        let max = usize::MAX as u128;
        4 * (w * h) <= max && 4 * (h * h) <= max && 4 * (t * t) <= max && self.text.y as u64
            + self.text_size as u64 <= u32::MAX as u64
    }
}

/// The layers of an output frame, bottom first: the primary panel, the hour graphic, one
/// thumbnail per channel, the pass overlay.
pub open spec fn layers_spec(layout: Layout) -> Seq<Layer> {
    seq![
        Layer {
            source: LayerSource::Primary,
            x: layout.primary.x,
            y: layout.primary.y,
            resize_to: Some(Size { width: layout.height, height: layout.height }),
        },
        Layer {
            source: LayerSource::HourGraphic,
            x: layout.hour_graphic.x,
            y: layout.hour_graphic.y,
            resize_to: None,
        },
    ] + Seq::new(
        layout.thumbnails@.len(),
        |c: int|
            Layer {
                source: LayerSource::Thumbnail(c as usize),
                x: layout.thumbnails@[c].x,
                y: layout.thumbnails@[c].y,
                resize_to: Some(Size { width: layout.thumb_size, height: layout.thumb_size }),
            },
    ) + seq![
        Layer {
            source: LayerSource::Overlay,
            x: layout.overlay.x,
            y: layout.overlay.y,
            resize_to: None,
        },
    ]
}

/// The layers of an output frame, bottom first.
pub fn composite_layers(layout: &Layout) -> (r: Vec<Layer>)
    ensures
        r@ == layers_spec(*layout),
{
    let mut r: Vec<Layer> = Vec::new();
    r.push(
        Layer {
            source: LayerSource::Primary,
            x: layout.primary.x,
            y: layout.primary.y,
            resize_to: Some(Size { width: layout.height, height: layout.height }),
        },
    );
    r.push(
        Layer {
            source: LayerSource::HourGraphic,
            x: layout.hour_graphic.x,
            y: layout.hour_graphic.y,
            resize_to: None,
        },
    );
    let n = layout.thumbnails.len();
    for c in 0..n
        invariant
            n == layout.thumbnails@.len(),
            r@ == layers_spec(*layout).subrange(0, c + 2),
    {
        let p = layout.thumbnails[c];
        r.push(
            Layer {
                source: LayerSource::Thumbnail(c),
                x: p.x,
                y: p.y,
                resize_to: Some(Size { width: layout.thumb_size, height: layout.thumb_size }),
            },
        );
        assert(r@ =~= layers_spec(*layout).subrange(0, c + 3));
    }
    r.push(
        Layer {
            source: LayerSource::Overlay,
            x: layout.overlay.x,
            y: layout.overlay.y,
            resize_to: None,
        },
    );
    assert(r@ =~= layers_spec(*layout));
    r
}

/// The lines of text of an output frame: date, time one line below, then the caption if any.
pub open spec fn annotations_spec(layout: Layout, meta: FrameMetadata) -> Seq<TextAnnotation> {
    let x = layout.text.x;
    let y = layout.text.y;
    let lines = seq![
        TextAnnotation {
            text: meta.date,
            x,
            y,
            size: layout.text_size,
            color: layout.text_color,
        },
        TextAnnotation {
            text: meta.time,
            x,
            y: (y + layout.text_size) as u32,
            size: layout.text_size,
            color: layout.text_color,
        },
    ];
    match layout.caption {
        Some(c) => lines.push(
            TextAnnotation {
                text: c.text,
                x: c.x,
                y: c.y,
                size: layout.text_size,
                color: layout.text_color,
            },
        ),
        None => lines,
    }
}

/// The text to draw on the frame that `meta` describes.
pub fn annotate(layout: &Layout, meta: &FrameMetadata) -> (r: Vec<TextAnnotation>)
    requires
        layout.text.y + layout.text_size <= u32::MAX,
    ensures
        r@ == annotations_spec(*layout, *meta),
        r@[0].y + r@[0].size <= r@[1].y,
{
    let x = layout.text.x;
    let y = layout.text.y;
    let mut r: Vec<TextAnnotation> = Vec::new();
    r.push(
        TextAnnotation {
            text: meta.date.clone(),
            x,
            y,
            size: layout.text_size,
            color: layout.text_color,
        },
    );
    r.push(
        TextAnnotation {
            text: meta.time.clone(),
            x,
            y: y + layout.text_size,
            size: layout.text_size,
            color: layout.text_color,
        },
    );
    match &layout.caption {
        Some(c) => {
            r.push(
                TextAnnotation {
                    text: c.text.clone(),
                    x: c.x,
                    y: c.y,
                    size: layout.text_size,
                    color: layout.text_color,
                },
            );
        },
        None => {},
    }
    assert(r@ =~= annotations_spec(*layout, *meta));
    r
}

/// Whether the layout has one thumbnail per channel and every channel reaches slot `k`.
pub open spec fn layout_fits(
    k: int,
    primary: int,
    timelines: Seq<ChannelTimeline>,
    layout: Layout,
) -> bool {
    &&& layout.wf()
    &&& layout.thumbnails@.len() == timelines.len()
    &&& 0 <= primary < timelines.len()
    &&& forall|c: int| 0 <= c < timelines.len() ==> k < #[trigger] timelines[c].frames@.len()
}

/// Whether every picture to be composed has a size that can be resized and laid down.
pub open spec fn pictures_fit(
    k: int,
    timelines: Seq<ChannelTimeline>,
    hour: RgbaRaster,
    overlay: RgbaRaster,
) -> bool {
    &&& hour.wf()
    &&& overlay.wf()
    &&& forall|c: int|
        0 <= c < timelines.len() ==> {
            let im = (#[trigger] timelines[c].frames@[k]).image;
            im.wf() && im.width > 0 && im.height > 0
        }
}

pub open spec fn source_picture(
    s: LayerSource,
    k: int,
    primary: int,
    timelines: Seq<ChannelTimeline>,
    hour: Picture,
    overlay: Picture,
) -> Picture {
    match s {
        LayerSource::Primary => timelines[primary].frames@[k].image@,
        LayerSource::HourGraphic => hour,
        LayerSource::Thumbnail(c) => timelines[c as int].frames@[k].image@,
        LayerSource::Overlay => overlay,
    }
}

pub open spec fn layer_picture(
    l: Layer,
    k: int,
    primary: int,
    timelines: Seq<ChannelTimeline>,
    hour: Picture,
    overlay: Picture,
) -> Picture {
    let src = source_picture(l.source, k, primary, timelines, hour, overlay);
    match l.resize_to {
        Some(size) => resize_view(src, size.width as nat, size.height as nat),
        None => src,
    }
}

/// `canvas` with the layers laid onto it, bottom first.
pub open spec fn paint(
    canvas: Picture,
    layers: Seq<Layer>,
    k: int,
    primary: int,
    timelines: Seq<ChannelTimeline>,
    hour: Picture,
    overlay: Picture,
) -> Picture
    decreases layers.len(),
{
    if layers.len() == 0 {
        canvas
    } else {
        let l = layers.last();
        overlay_view(
            paint(canvas, layers.drop_last(), k, primary, timelines, hour, overlay),
            layer_picture(l, k, primary, timelines, hour, overlay),
            l.x as nat,
            l.y as nat,
        )
    }
}

/// An opaque black canvas.
pub open spec fn blank(width: nat, height: nat) -> Picture {
    Picture {
        pixels: Seq::new(4 * (width * height), |j: int| if j % 4 == 3 { 255u8 } else { 0u8 }),
        width,
        height,
    }
}

fn blank_canvas(width: u32, height: u32) -> (r: RgbaRaster)
    requires
        4 * (width as int * height as int) <= usize::MAX,
    ensures
        r.wf(),
        r@ == blank(width as nat, height as nat),
{
    let n = width as usize * height as usize;
    let mut pixels: Vec<u8> = Vec::new();
    for i in 0..n
        invariant
            n == width as int * height as int,
            4 * n <= usize::MAX,
            pixels@ == blank(width as nat, height as nat).pixels.subrange(0, 4 * i),
    {
        pixels.push(0);
        pixels.push(0);
        pixels.push(0);
        pixels.push(255);
        let ghost want = blank(width as nat, height as nat).pixels;
        assert forall|j: int| 4 * i <= j < 4 * i + 4 implies #[trigger] want[j] == (if j - 4 * i
            == 3 {
            255u8
        } else {
            0u8
        }) by {
            assert(j % 4 == j - 4 * i);
        }
        assert(pixels@ =~= want.subrange(0, 4 * (i + 1)));
    }
    assert(pixels@ =~= blank(width as nat, height as nat).pixels);
    RgbaRaster { width, height, pixels }
}

/// Builds output frame `k`: the primary channel's slot `k` as the main panel, the hour
/// graphic, every channel's slot `k` as a thumbnail, and the pass overlay, in that order on an
/// opaque black canvas. The text is left to the caller (see `annotate`).
pub fn composite_frame(
    k: usize,
    primary: usize,
    timelines: &Vec<ChannelTimeline>,
    layout: &Layout,
    hour: &RgbaRaster,
    overlay: &RgbaRaster,
) -> (r: Result<CompositeFrame, RunError>)
    ensures
        !layout_fits(k as int, primary as int, timelines@, *layout) ==> r == Err::<
            CompositeFrame,
            RunError,
        >(RunError::LayoutMismatch),
        layout_fits(k as int, primary as int, timelines@, *layout) && !pictures_fit(
            k as int,
            timelines@,
            *hour,
            *overlay,
        ) ==> r == Err::<CompositeFrame, RunError>(
            RunError::ResizeOrCompositeFailure { channel: timelines@[primary as int].channel, index: k },
        ),
        r is Ok <==> layout_fits(k as int, primary as int, timelines@, *layout) && pictures_fit(
            k as int,
            timelines@,
            *hour,
            *overlay,
        ),
        r is Ok ==> r->Ok_0.index == k && r->Ok_0.image.wf() && r->Ok_0.image@ == paint(
            blank(layout.width as nat, layout.height as nat),
            layers_spec(*layout),
            k as int,
            primary as int,
            timelines@,
            hour@,
            overlay@,
        ),
{
    let n = timelines.len();
    if !layout.check() || layout.thumbnails.len() != n || primary >= n {
        return Err(RunError::LayoutMismatch);
    }
    let mut c: usize = 0;
    while c < n
        invariant
            n == timelines@.len(),
            c <= n,
            forall|d: int| 0 <= d < c ==> k < #[trigger] timelines@[d].frames@.len(),
        decreases n - c,
    {
        if k >= timelines[c].frames.len() {
            return Err(RunError::LayoutMismatch);
        }
        c = c + 1;
    }
    let fail = RunError::ResizeOrCompositeFailure {
        channel: timelines[primary].channel.clone(),
        index: k,
    };
    if !hour.is_wf() || !overlay.is_wf() {
        return Err(fail);
    }
    let mut c: usize = 0;
    while c < n
        invariant
            n == timelines@.len(),
            c <= n,
            forall|d: int| 0 <= d < n ==> k < #[trigger] timelines@[d].frames@.len(),
            layout_fits(k as int, primary as int, timelines@, *layout),
            fail == (RunError::ResizeOrCompositeFailure {
                channel: timelines@[primary as int].channel,
                index: k,
            }),
            forall|d: int|
                0 <= d < c ==> {
                    let im = (#[trigger] timelines@[d].frames@[k as int]).image;
                    im.wf() && im.width > 0 && im.height > 0
                },
        decreases n - c,
    {
        let im = &timelines[c].frames[k].image;
        if !im.is_wf() || im.width == 0 || im.height == 0 {
            return Err(fail);
        }
        c = c + 1;
    }
    let layers = composite_layers(layout);
    let mut canvas = blank_canvas(layout.width, layout.height);
    let ghost base = canvas@;
    let ghost hp = hour@;
    let ghost op = overlay@;
    for i in 0..layers.len()
        invariant
            layers@ == layers_spec(*layout),
            layout_fits(k as int, primary as int, timelines@, *layout),
            pictures_fit(k as int, timelines@, *hour, *overlay),
            hp == hour@,
            op == overlay@,
            canvas.wf(),
            canvas@ == paint(base, layers@.subrange(0, i as int), k as int, primary as int, timelines@, hp, op),
    {
        let l = layers[i];
        let src: &RgbaRaster = match l.source {
            LayerSource::Primary => &timelines[primary].frames[k].image,
            LayerSource::HourGraphic => hour,
            LayerSource::Thumbnail(c) => &timelines[c].frames[k].image,
            LayerSource::Overlay => overlay,
        };
        match l.resize_to {
            Some(size) => {
                let resized = resize_nearest(src, size.width, size.height);
                overlay_at(&mut canvas, &resized, l.x, l.y);
            },
            None => {
                overlay_at(&mut canvas, src, l.x, l.y);
            },
        }
        assert(layers@.subrange(0, i + 1).drop_last() =~= layers@.subrange(0, i as int));
    }
    assert(layers@.subrange(0, layers@.len() as int) =~= layers@);
    Ok(CompositeFrame { image: canvas, index: k })
}

} // verus!
