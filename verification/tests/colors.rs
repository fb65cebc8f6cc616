use shapalizer::color::{clamp_channel, edge_color, Color};

#[test]
fn mean_below_midpoint_gives_white() {
    let c = Color { r: 127, g: 127, b: 127, a: 9 };
    let e = edge_color(c, 10 * 65536);
    assert_eq!((e.r, e.g, e.b), (255, 255, 255));
}

#[test]
fn mean_at_midpoint_gives_black() {
    let c = Color { r: 128, g: 128, b: 128, a: 9 };
    let e = edge_color(c, 10 * 65536);
    assert_eq!((e.r, e.g, e.b), (0, 0, 0));
}

#[test]
fn mean_above_midpoint_gives_black() {
    let c = Color { r: 129, g: 129, b: 129, a: 9 };
    let e = edge_color(c, 10 * 65536);
    assert_eq!((e.r, e.g, e.b), (0, 0, 0));
}

#[test]
fn truncated_mean_just_below_midpoint_gives_white() {
    // Channel sum 383 gives a truncated mean of 127.
    let c = Color { r: 255, g: 0, b: 128, a: 0 };
    let e = edge_color(c, 0);
    assert_eq!((e.r, e.g, e.b), (255, 255, 255));
}

#[test]
fn edge_alpha_doubles_and_saturates() {
    let c = Color { r: 0, g: 0, b: 0, a: 0 };
    assert_eq!(edge_color(c, 10 * 65536).a, 20);
    assert_eq!(edge_color(c, 200 * 65536).a, 255);
    assert_eq!(edge_color(c, u64::MAX).a, 255);
}

#[test]
fn clamp_channel_truncates_and_saturates() {
    assert_eq!(clamp_channel(0), 0);
    assert_eq!(clamp_channel(65535), 0);
    assert_eq!(clamp_channel(10 * 65536 + 12345), 10);
    assert_eq!(clamp_channel(255 * 65536), 255);
    assert_eq!(clamp_channel(256 * 65536), 255);
    assert_eq!(clamp_channel(u64::MAX), 255);
}
