use spectral_composite::compose::{
    annotate, composite_frame, composite_layers, Caption, LayerSource, Layout, Point,
};
use spectral_composite::error::RunError;
use spectral_composite::export::export_plan;
use spectral_composite::loader::{dec_list, load_frame, ChannelTimeline};
use spectral_composite::raster::{GrayRaster, RgbaRaster};
use spectral_composite::sync::synchronize;

fn layout(channels: usize) -> Layout {
    Layout {
        width: 64,
        height: 32,
        primary: Point { x: 0, y: 0 },
        hour_graphic: Point { x: 40, y: 0 },
        thumbnails: (0..channels).map(|c| Point { x: 32 + 8 * c as u32, y: 24 }).collect(),
        thumb_size: 8,
        overlay: Point { x: 60, y: 30 },
        text: Point { x: 34, y: 2 },
        text_size: 10,
        text_color: [185, 185, 185, 0],
        caption: None,
    }
}

fn channel(id: &str, files: usize, color: [u8; 4]) -> ChannelTimeline {
    let names: Vec<String> =
        (0..files).map(|i| format!("in/{}/2019_03_01__{:02}_00__SDO_AIA_AIA_{}.jp2", id, 10 + i, id)).collect();
    let kept = dec_list(&names, 1);
    let gray = GrayRaster::new(4, 4, vec![90; 16]).unwrap();
    let frames = kept
        .iter()
        .enumerate()
        .rev()
        .map(|(i, path)| load_frame(id, path, i, &gray, &vec![color]).unwrap())
        .collect();
    ChannelTimeline { channel: id.to_string(), frames }
}

fn graphic(w: u32, h: u32) -> RgbaRaster {
    RgbaRaster::new(w, h, vec![0, 255, 0, 255].repeat((w * h) as usize)).unwrap()
}

fn pixel(r: &RgbaRaster, x: u32, y: u32) -> Vec<u8> {
    let i = 4 * (y * r.width + x) as usize;
    r.pixels[i..i + 4].to_vec()
}

#[test]
fn three_channels_of_four_frames_give_four_composites() {
    let ts = vec![
        channel("94", 4, [255, 0, 255, 255]),
        channel("335", 4, [0, 0, 255, 255]),
        channel("211", 4, [255, 255, 255, 255]),
    ];
    let ts = synchronize(ts).unwrap();
    assert!(ts.iter().all(|t| t.frames.len() == 4));
    let layout = layout(3);

    let layers = composite_layers(&layout);
    let count = |f: &dyn Fn(LayerSource) -> bool| layers.iter().filter(|l| f(l.source)).count();
    assert_eq!(count(&|s| s == LayerSource::Primary), 1);
    assert_eq!(count(&|s| matches!(s, LayerSource::Thumbnail(_))), 3);
    assert_eq!(count(&|s| s == LayerSource::HourGraphic), 1);
    assert_eq!(count(&|s| s == LayerSource::Overlay), 1);
    assert_eq!(layers.len(), 6);

    let mut out = Vec::new();
    for k in (0..4).rev() {
        let meta = &ts[0].frames[k].meta;
        let text = annotate(&layout, meta);
        assert_eq!(text.len(), 2);
        assert_eq!(text[0].text, "2019/03/01");
        assert_eq!(text[1].text, format!("{}:00", 10 + k));
        assert_eq!((text[0].x, text[0].y), (34, 2));
        assert_eq!((text[1].x, text[1].y), (34, 12));
        assert!(text[0].y + text[0].size <= text[1].y);
        let c = composite_frame(k, 0, &ts, &layout, &graphic(2, 2), &graphic(1, 1)).unwrap();
        assert_eq!(c.index, k);
        assert_eq!((c.image.width, c.image.height), (64, 32));
        out.push(c);
    }
    let plan = export_plan(out, 0);
    assert_eq!(plan.len(), 4);
    for (i, e) in plan.iter().enumerate() {
        assert_eq!(e.frame.index, i);
        assert_eq!(e.file_name, format!("000{}.png", i));
        let img = &e.frame.image;
        // primary panel, 32 x 32 at the origin
        assert_eq!(pixel(img, 5, 5), vec![255, 0, 255, 255]);
        // hour graphic, unresized, 2 x 2 at (40, 0)
        assert_eq!(pixel(img, 41, 1), vec![0, 255, 0, 255]);
        // thumbnails of the second and third channel
        assert_eq!(pixel(img, 42, 26), vec![0, 0, 255, 255]);
        assert_eq!(pixel(img, 50, 26), vec![255, 255, 255, 255]);
        // untouched canvas stays opaque black
        assert_eq!(pixel(img, 35, 10), vec![0, 0, 0, 255]);
    }
}

#[test]
fn caption_adds_a_third_line() {
    let mut layout = layout(1);
    layout.caption = Some(Caption { text: "Earth for scale".to_string(), x: 38, y: 20 });
    let meta = &channel("94", 1, [0, 0, 0, 255]).frames[0].meta;
    let text = annotate(&layout, meta);
    assert_eq!(text.len(), 3);
    assert_eq!(text[2].text, "Earth for scale");
}

#[test]
fn layout_must_fit_the_channels() {
    let ts = synchronize(vec![channel("94", 2, [0, 0, 0, 255]), channel("335", 2, [0, 0, 0, 255])]).unwrap();
    let g = graphic(1, 1);
    assert!(matches!(composite_frame(0, 0, &ts, &layout(3), &g, &g), Err(RunError::LayoutMismatch)));
    assert!(matches!(composite_frame(2, 0, &ts, &layout(2), &g, &g), Err(RunError::LayoutMismatch)));
    assert!(matches!(composite_frame(0, 2, &ts, &layout(2), &g, &g), Err(RunError::LayoutMismatch)));
    let mut bad = layout(2);
    bad.width = 0;
    assert!(matches!(composite_frame(0, 0, &ts, &bad, &g, &g), Err(RunError::LayoutMismatch)));
}

#[test]
fn empty_frame_cannot_be_resized() {
    let mut ts = synchronize(vec![channel("94", 1, [0, 0, 0, 255]), channel("335", 1, [0, 0, 0, 255])]).unwrap();
    ts[1].frames[0].image = RgbaRaster::new(0, 0, vec![]).unwrap();
    let g = graphic(1, 1);
    match composite_frame(0, 0, &ts, &layout(2), &g, &g) {
        Err(RunError::ResizeOrCompositeFailure { channel, index }) => {
            assert_eq!(channel, "94");
            assert_eq!(index, 0);
        }
        _ => panic!("expected a resize failure"),
    }
}

#[test]
fn empty_channel_directory_stops_before_composition() {
    let ts = vec![channel("94", 3, [0, 0, 0, 255]), channel("335", 0, [0, 0, 0, 255])];
    match synchronize(ts) {
        Err(RunError::EmptyChannelTimeline { channel }) => assert_eq!(channel, "335"),
        _ => panic!("expected an empty channel"),
    }
}
