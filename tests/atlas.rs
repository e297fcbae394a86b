use shrimp::atlas::{Atlas, LoadError};
use shrimp::geometry::{FrameRegion, Rect};

fn frame(name: &str, x: i32) -> FrameRegion {
    FrameRegion {
        filename: name.to_string(),
        region: Rect::new(x, 0, 286, 602),
        margin: Rect::new(1, 2, 3, 4),
    }
}

#[test]
fn atlas_keeps_frames_in_order() {
    let names = ["a.png", "b.png", "c.png", "d.png"];
    let frames: Vec<FrameRegion> =
        names.iter().enumerate().map(|(i, n)| frame(n, i as i32 * 286)).collect();
    let atlas = Atlas::from_frames(frames).unwrap();
    assert_eq!(atlas.len(), 4);
    for (i, n) in names.iter().enumerate() {
        assert_eq!(atlas.frame(i).filename, *n);
        assert_eq!(atlas.region(i), Rect::new(i as i32 * 286, 0, 286, 602));
        assert_eq!(atlas.frame(i).margin, Rect::new(1, 2, 3, 4));
    }
}

#[test]
fn atlas_without_frames_is_refused() {
    let r = Atlas::from_frames(Vec::new());
    assert!(matches!(r, Err(LoadError::NoFrames)));
}
