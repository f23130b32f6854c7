use imageproc::geometric_transformations::Projection;
use qdcrop::corners::{CornerPoint, Corners};
use qdcrop::dlt::{dlt_system, DltSystem};
use qdcrop::mask::GrayGrid;
use qdcrop::pipeline::{analyze, Plan};
use qdcrop::policy::{content_spans, size_policy, Dims};
use qdcrop::render::{warp, RgbGrid};
use qdcrop::CoreError;

/// Least-squares solve of the direct-linear-transform system, as the batch
/// driver performs it.
fn solve(sys: &DltSystem) -> Option<[f64; 9]> {
    let a = nalgebra::OMatrix::<f64, nalgebra::U8, nalgebra::U8>::from_row_iterator(
        sys.coeffs.iter().map(|v| *v as f64),
    );
    let b =
        nalgebra::OVector::<f64, nalgebra::U8>::from_iterator(sys.rhs.iter().map(|v| *v as f64));
    let svd = a.try_svd(true, true, f64::EPSILON, 1 << 20)?;
    let x = svd.solve(&b, 0.125).ok()?;
    Some([x[0], x[1], x[2], x[3], x[4], x[5], x[6], x[7], 1.0])
}

fn apply(m: &[f64; 9], x: f64, y: f64) -> (f64, f64) {
    let d = m[6] * x + m[7] * y + m[8];
    (
        (m[0] * x + m[1] * y + m[2]) / d,
        (m[3] * x + m[4] * y + m[5]) / d,
    )
}

fn projection_of(m: &[f64; 9]) -> Option<Projection> {
    Projection::from_matrix([
        m[0] as f32,
        m[1] as f32,
        m[2] as f32,
        m[3] as f32,
        m[4] as f32,
        m[5] as f32,
        m[6] as f32,
        m[7] as f32,
        m[8] as f32,
    ])
}

fn corners(points: [(u32, u32); 4]) -> Corners {
    Corners {
        top_left: CornerPoint {
            x: points[0].0,
            y: points[0].1,
        },
        top_right: CornerPoint {
            x: points[1].0,
            y: points[1].1,
        },
        bottom_right: CornerPoint {
            x: points[2].0,
            y: points[2].1,
        },
        bottom_left: CornerPoint {
            x: points[3].0,
            y: points[3].1,
        },
    }
}

#[test]
fn round_trip_reproduces_control_points() {
    let pts = [(10u32, 20u32), (200, 15), (210, 180), (5, 190)];
    let c = corners(pts);
    let d = Dims {
        width: 160,
        height: 90,
    };
    let sys = dlt_system(&c, &d);
    let m = solve(&sys).expect("solve should succeed on spread points");
    let targets = [(0.0, 0.0), (160.0, 0.0), (160.0, 90.0), (0.0, 90.0)];
    for (k, &(px, py)) in pts.iter().enumerate() {
        let (u, v) = apply(&m, px as f64, py as f64);
        assert!((u - targets[k].0).abs() < 1e-6, "u residual too large: {u}");
        assert!((v - targets[k].1).abs() < 1e-6, "v residual too large: {v}");
    }
}

#[test]
fn collinear_points_admit_no_exact_solve() {
    // a line cannot be carried onto a rectangle, so either the solve or the
    // round-trip check must fail
    let pts = [(0u32, 0u32), (5, 5), (10, 10), (15, 15)];
    let c = corners(pts);
    let d = Dims {
        width: 16,
        height: 9,
    };
    let sys = dlt_system(&c, &d);
    let exact = match solve(&sys) {
        None => false,
        Some(m) => {
            let targets = [(0.0, 0.0), (16.0, 0.0), (16.0, 9.0), (0.0, 9.0)];
            pts.iter().enumerate().all(|(k, &(px, py))| {
                let (u, v) = apply(&m, px as f64, py as f64);
                (u - targets[k].0).abs() < 1e-3 && (v - targets[k].1).abs() < 1e-3
            })
        }
    };
    assert!(!exact);
}

/// A light background with a darker rectangle rotated about ten degrees.
fn synthetic_gray(width: u32, height: u32) -> GrayGrid {
    let (cx, cy) = (100.0f64, 60.0f64);
    let (hx, hy) = (60.0f64, 35.0f64);
    let ang = 10.0f64.to_radians();
    let (sin, cos) = (ang.sin(), ang.cos());
    let mut data = vec![230u8; (width * height) as usize];
    for y in 0..height {
        for x in 0..width {
            let dx = x as f64 - cx;
            let dy = y as f64 - cy;
            let u = cos * dx + sin * dy;
            let v = -sin * dx + cos * dy;
            if u.abs() <= hx && v.abs() <= hy {
                data[(y * width + x) as usize] = 10;
            }
        }
    }
    GrayGrid {
        width,
        height,
        data,
    }
}

fn rgb_of(gray: &GrayGrid) -> RgbGrid {
    let mut data = Vec::with_capacity(gray.data.len() * 3);
    for &g in &gray.data {
        data.push(g);
        data.push(g);
        data.push(g);
    }
    RgbGrid {
        width: gray.width,
        height: gray.height,
        data,
    }
}

fn run_job(gray: &GrayGrid, rgb: &RgbGrid) -> Result<(Plan, RgbGrid), CoreError> {
    let plan = analyze(gray)?;
    let m = solve(&plan.system).ok_or(CoreError::DegenerateGeometry)?;
    let proj = projection_of(&m).ok_or(CoreError::DegenerateGeometry)?;
    let out = warp(rgb, &proj, plan.dims);
    Ok((plan, out))
}

#[test]
fn rectified_rectangle_differs_from_straight_crop() {
    let gray = synthetic_gray(200, 120);
    let rgb = rgb_of(&gray);
    let (plan, out) = run_job(&gray, &rgb).expect("the synthetic rectangle should be processed");

    // the dimensions follow the 16:9-clamped policy for the located points
    let (rw, rh) = content_spans(&plan.corners);
    assert!(rw > 0 && rh > 0);
    assert_eq!(size_policy(rw, rh), Ok(plan.dims));
    assert!(plan.dims.width >= 1 && plan.dims.width <= 1820);
    assert!(plan.dims.height >= 1 && plan.dims.height <= 1024);
    assert_eq!(
        out.data.len(),
        3 * plan.dims.width as usize * plan.dims.height as usize
    );

    // a straight crop of the same region, black outside the source
    let tl = plan.corners.top_left;
    let mut crop = Vec::with_capacity(out.data.len());
    for y in 0..plan.dims.height {
        for x in 0..plan.dims.width {
            let (sx, sy) = (tl.x as u64 + x as u64, tl.y as u64 + y as u64);
            for ch in 0..3usize {
                if sx < rgb.width as u64 && sy < rgb.height as u64 {
                    crop.push(rgb.data[(sy as usize * rgb.width as usize + sx as usize) * 3 + ch]);
                } else {
                    crop.push(0);
                }
            }
        }
    }
    assert_ne!(out.data, crop, "rectification must differ from a straight crop");
}

#[test]
fn identical_inputs_give_byte_identical_outputs() {
    let gray1 = synthetic_gray(200, 120);
    let rgb1 = rgb_of(&gray1);
    let (plan1, out1) = run_job(&gray1, &rgb1).unwrap();
    let gray2 = synthetic_gray(200, 120);
    let rgb2 = rgb_of(&gray2);
    let (plan2, out2) = run_job(&gray2, &rgb2).unwrap();
    assert_eq!(plan1.corners, plan2.corners);
    assert_eq!(plan1.dims, plan2.dims);
    assert_eq!(plan1.system.coeffs, plan2.system.coeffs);
    assert_eq!(plan1.system.rhs, plan2.system.rhs);
    assert_eq!(out1.data, out2.data);
}

#[test]
fn uniform_images_are_unusable() {
    // a flat image thresholds to an all-light mask: nothing is darker than
    // its neighborhood mean
    let gray = GrayGrid {
        width: 40,
        height: 30,
        data: vec![200u8; 1200],
    };
    assert_eq!(analyze(&gray).err(), Some(CoreError::UnusableImage));
    // even an all-black image: every pixel equals its neighborhood mean
    let black = GrayGrid {
        width: 40,
        height: 30,
        data: vec![0u8; 1200],
    };
    assert_eq!(analyze(&black).err(), Some(CoreError::UnusableImage));
}

#[test]
fn batch_reports_exactly_the_failed_jobs() {
    let good1 = synthetic_gray(200, 120);
    let blank = GrayGrid {
        width: 60,
        height: 40,
        data: vec![180u8; 2400],
    };
    let good2 = synthetic_gray(180, 110);
    let jobs = [&good1, &blank, &good2];
    let outcomes: Vec<bool> = jobs
        .iter()
        .map(|g| run_job(g, &rgb_of(g)).is_ok())
        .collect();
    let failed = qdcrop::batch::count_failures(&outcomes);
    assert_eq!(failed, 1);
    assert_eq!(outcomes.iter().filter(|&&b| b).count(), 2);
    // the process exits non-zero exactly when some job failed
    assert!(failed > 0);
}

#[test]
fn warp_resamples_through_the_projection() {
    // an identity projection over a constant image: every interior output
    // pixel is the constant, and the output takes the requested dimensions
    let mut data = Vec::new();
    for _ in 0..(50 * 40) {
        data.extend_from_slice(&[200u8, 40u8, 40u8]);
    }
    let src = RgbGrid {
        width: 50,
        height: 40,
        data,
    };
    let proj =
        Projection::from_matrix([1.0, 0.0, 0.0, 0.0, 1.0, 0.0, 0.0, 0.0, 1.0]).unwrap();
    let out = warp(
        &src,
        &proj,
        Dims {
            width: 20,
            height: 10,
        },
    );
    assert_eq!(out.width, 20);
    assert_eq!(out.height, 10);
    assert_eq!(out.data.len(), 3 * 20 * 10);
    for y in 2..8usize {
        for x in 2..18usize {
            let k = (y * 20 + x) * 3;
            assert_eq!(&out.data[k..k + 3], &[200, 40, 40]);
        }
    }
}
