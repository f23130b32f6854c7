use qdcrop::corners::{CornerPoint, Corners};
use qdcrop::policy::{content_spans, size_policy, Dims};
use qdcrop::CoreError;

#[test]
fn policy_keeps_exact_sixteen_nine() {
    assert_eq!(
        size_policy(1600, 900),
        Ok(Dims {
            width: 1600,
            height: 900
        })
    );
    assert_eq!(size_policy(16, 9), Ok(Dims { width: 16, height: 9 }));
}

#[test]
fn policy_shrinks_height_toward_aspect() {
    // 9·160 < 16·100: the raw width is kept and the height shrinks onto the
    // aspect, 9·160/16 = 90; the content bounds are never exceeded.
    assert_eq!(
        size_policy(160, 100),
        Ok(Dims {
            width: 160,
            height: 90
        })
    );
}

#[test]
fn policy_shrinks_width_toward_aspect() {
    // 9·1600 ≥ 16·100: the raw height is kept and the width shrinks to
    // 16·100/9 ≈ 177.8.
    assert_eq!(
        size_policy(1600, 100),
        Ok(Dims {
            width: 178,
            height: 100
        })
    );
}

#[test]
fn policy_caps_at_maximum_size() {
    // wide: 9·2000 < 16·5000 keeps the width, which exceeds the cap
    assert_eq!(
        size_policy(2000, 5000),
        Ok(Dims {
            width: 1820,
            height: 1024
        })
    );
    // tall: 9·10000 ≥ 16·2000 keeps the height, which exceeds the cap
    assert_eq!(
        size_policy(10000, 2000),
        Ok(Dims {
            width: 1820,
            height: 1024
        })
    );
    // Just inside the caps nothing is scaled.
    assert_eq!(
        size_policy(1820, 1024),
        Ok(Dims {
            width: 1820,
            height: 1024
        })
    );
}

#[test]
fn policy_rejects_zero_extents() {
    assert_eq!(size_policy(0, 0), Err(CoreError::InvalidGeometry));
    assert_eq!(size_policy(1, 0), Err(CoreError::InvalidGeometry));
    assert_eq!(size_policy(0, 1), Err(CoreError::InvalidGeometry));
}

#[test]
fn policy_minimal_positive_extents() {
    assert_eq!(size_policy(1, 1), Ok(Dims { width: 1, height: 1 }));
    assert_eq!(size_policy(2, 1), Ok(Dims { width: 2, height: 1 }));
}

#[test]
fn spans_take_the_wider_side_and_ignore_reversed_pairs() {
    let c = Corners {
        top_left: CornerPoint { x: 10, y: 20 },
        top_right: CornerPoint { x: 200, y: 15 },
        bottom_right: CornerPoint { x: 210, y: 180 },
        bottom_left: CornerPoint { x: 5, y: 190 },
    };
    // top span 190, bottom span 205; left span 170, right span 165
    assert_eq!(content_spans(&c), (205, 170));

    let reversed = Corners {
        top_left: CornerPoint { x: 50, y: 50 },
        top_right: CornerPoint { x: 10, y: 50 },
        bottom_right: CornerPoint { x: 10, y: 10 },
        bottom_left: CornerPoint { x: 50, y: 10 },
    };
    // every pair runs against its direction, so every span is zero
    assert_eq!(content_spans(&reversed), (0, 0));
}
