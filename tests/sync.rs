use spectral_composite::error::RunError;
use spectral_composite::loader::{ChannelTimeline, Frame};
use spectral_composite::metadata::FrameMetadata;
use spectral_composite::raster::RgbaRaster;
use spectral_composite::sync::{sort_by_index, synchronize};

fn frame(index: usize, tag: u8) -> Frame {
    Frame {
        image: RgbaRaster::new(1, 1, vec![tag, 0, 0, 255]).unwrap(),
        index,
        meta: FrameMetadata {
            date: "2019/01/01".to_string(),
            time: "00:00".to_string(),
            hour: "00".to_string(),
            channel: "94".to_string(),
        },
    }
}

fn timeline(channel: &str, n: usize) -> ChannelTimeline {
    // produced in reverse, as parallel loading may hand them back
    ChannelTimeline { channel: channel.to_string(), frames: (0..n).rev().map(|i| frame(i, i as u8)).collect() }
}

#[test]
fn common_length_is_the_shortest() {
    let ts = vec![timeline("94", 5), timeline("335", 7), timeline("211", 3), timeline("193", 9)];
    let out = synchronize(ts).unwrap();
    assert_eq!(out.len(), 4);
    let names: Vec<&str> = out.iter().map(|t| t.channel.as_str()).collect();
    assert_eq!(names, vec!["94", "335", "211", "193"]);
    for t in &out {
        assert_eq!(t.frames.len(), 3);
        let idx: Vec<usize> = t.frames.iter().map(|f| f.index).collect();
        assert_eq!(idx, vec![0, 1, 2]);
    }
}

#[test]
fn empty_channel_fails_naming_it() {
    let ts = vec![timeline("94", 4), timeline("335", 0), timeline("211", 0)];
    match synchronize(ts) {
        Err(RunError::EmptyChannelTimeline { channel }) => assert_eq!(channel, "335"),
        other => panic!("unexpected: {:?}", other.map(|v| v.len())),
    }
}

#[test]
fn no_timelines_gives_none() {
    assert_eq!(synchronize(vec![]).unwrap().len(), 0);
}

#[test]
fn sort_is_stable() {
    let items = vec![frame(2, 10), frame(1, 20), frame(2, 30), frame(0, 40), frame(1, 50)];
    let sorted = sort_by_index(items);
    let tags: Vec<(usize, u8)> = sorted.iter().map(|f| (f.index, f.image.pixels[0])).collect();
    assert_eq!(tags, vec![(0, 40), (1, 20), (1, 50), (2, 10), (2, 30)]);
}

#[test]
fn first_of_several_empty_channels_is_named() {
    let ts = vec![timeline("94", 0), timeline("335", 2), timeline("211", 0)];
    match synchronize(ts) {
        Err(RunError::EmptyChannelTimeline { channel }) => assert_eq!(channel, "94"),
        other => panic!("unexpected: {:?}", other.map(|v| v.len())),
    }
}
