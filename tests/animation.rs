use shrimp::animation::{Animation, Mode};
use shrimp::atlas::Atlas;
use shrimp::geometry::{FrameRegion, Rect};

fn atlas_of(n: i32) -> Atlas {
    let frames: Vec<FrameRegion> = (0..n)
        .map(|i| FrameRegion {
            filename: format!("frame-{}.png", i),
            region: Rect::new(i * 10, i * 20, 286, 602),
            margin: Rect::new(0, 0, 0, 0),
        })
        .collect();
    Atlas::from_frames(frames).unwrap()
}

#[test]
fn wrap_index_is_ticks_mod_len() {
    for n in 1..6 {
        let atlas = atlas_of(n);
        let mut anim = Animation::new(Mode::Wrap, &atlas);
        for t in 1..40usize {
            anim.advance(&atlas);
            assert_eq!(anim.index, t % n as usize);
            assert!(anim.forward);
            assert_eq!(anim.sprite, atlas.region(anim.index));
        }
    }
}

#[test]
fn ping_pong_round_trip() {
    for n in 2..8 {
        let atlas = atlas_of(n);
        let mut anim = Animation::new(Mode::PingPong, &atlas);
        let period = 2 * (n as usize - 1);
        for t in 1..=3 * period {
            anim.advance(&atlas);
            assert!(anim.index < n as usize);
            let back = anim.index == 0 && anim.forward;
            assert_eq!(back, t % period == 0);
        }
    }
}

#[test]
fn ping_pong_eighteen_frames_returns_once_in_34_ticks() {
    let atlas = atlas_of(18);
    let mut anim = Animation::new(Mode::PingPong, &atlas);
    let mut returns = 0;
    let mut seen = Vec::new();
    for _ in 0..34 {
        anim.advance(&atlas);
        seen.push(anim.index);
        if anim.index == 0 && anim.forward {
            returns += 1;
        }
    }
    assert_eq!(returns, 1);
    assert_eq!(anim.index, 0);
    assert!(anim.forward);
    assert_eq!(seen[16], 17);
    assert_eq!(seen[17], 16);
    assert_eq!(anim.sprite, Rect::new(0, 0, 286, 602));
}

#[test]
fn ping_pong_single_frame_stays() {
    let atlas = atlas_of(1);
    let mut anim = Animation::new(Mode::PingPong, &atlas);
    for _ in 0..5 {
        anim.advance(&atlas);
        assert_eq!(anim.index, 0);
    }
}

#[test]
fn ping_pong_sprite_follows_index() {
    let atlas = atlas_of(3);
    let mut anim = Animation::new(Mode::PingPong, &atlas);
    assert_eq!(anim.sprite, Rect::new(0, 0, 286, 602));
    anim.advance(&atlas);
    assert_eq!(anim.sprite, Rect::new(10, 20, 286, 602));
    anim.advance(&atlas);
    assert_eq!((anim.index, anim.forward), (2, false));
    assert_eq!(anim.sprite, Rect::new(20, 40, 286, 602));
    anim.advance(&atlas);
    assert_eq!((anim.index, anim.forward), (1, false));
}
