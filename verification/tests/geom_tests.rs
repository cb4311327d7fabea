use frame_stream::geom::{Rect, ScissorRect, ScreenDescriptor, to_scissor_rect};

fn points(p: i32) -> i32 {
    p * 256
}

fn screen_2x_800_600() -> ScreenDescriptor {
    ScreenDescriptor { pixel_per_point: 512, screen_width: 800, screen_height: 600 }
}

#[test]
fn scissor_scales_by_pixels_per_point() {
    let clip = Rect {
        left: points(10),
        top: points(10),
        right: points(50),
        bottom: points(50),
    };
    let r = to_scissor_rect(&clip, &screen_2x_800_600());
    assert_eq!(r, Some(ScissorRect { x: 20, y: 20, width: 80, height: 80 }));
}

#[test]
fn scissor_fully_outside_screen_is_skipped() {
    let clip = Rect {
        left: points(900),
        top: points(700),
        right: points(1000),
        bottom: points(800),
    };
    assert_eq!(to_scissor_rect(&clip, &screen_2x_800_600()), None);
}

#[test]
fn scissor_clamps_to_screen_bounds() {
    let clip = Rect {
        left: points(-10),
        top: points(-10),
        right: points(500),
        bottom: points(400),
    };
    let r = to_scissor_rect(&clip, &screen_2x_800_600());
    assert_eq!(r, Some(ScissorRect { x: 0, y: 0, width: 800, height: 600 }));
}

#[test]
fn scissor_zero_width_is_skipped() {
    let clip = Rect {
        left: points(10),
        top: points(10),
        right: points(10),
        bottom: points(50),
    };
    assert_eq!(to_scissor_rect(&clip, &screen_2x_800_600()), None);
}

#[test]
fn scissor_rounds_half_away_from_zero() {
    // 10.25 points at scale 2.0 is 20.5 pixels, which rounds to 21.
    let clip = Rect {
        left: 10 * 256 + 64,
        top: points(0),
        right: points(50),
        bottom: points(50),
    };
    let r = to_scissor_rect(&clip, &screen_2x_800_600()).unwrap();
    assert_eq!(r.x, 21);
    assert_eq!(r.width, 100 - 21);
}

#[test]
fn scissor_fractional_scale_factor() {
    // 1.5 pixels per point: 10 points map to pixel 15.
    let screen = ScreenDescriptor { pixel_per_point: 384, screen_width: 800, screen_height: 600 };
    let clip = Rect {
        left: points(10),
        top: points(20),
        right: points(100),
        bottom: points(100),
    };
    let r = to_scissor_rect(&clip, &screen).unwrap();
    assert_eq!((r.x, r.y, r.width, r.height), (15, 30, 135, 120));
}
