use nalgebra::Matrix4;
use ptz_overlay::freed::FreeD;
use ptz_overlay::ptz::Ptz;
use ptz_overlay::renderer::camera::{Camera, CameraError, Distortion, Intrinsics, Rotation};
use ptz_overlay::renderer::fixed::{Point2, Vector3};

/// A scene point at the given coordinates.
fn vector(x: f64, y: f64, z: f64) -> Vector3 {
    Vector3::new(
        (x * 65536.0).round() as i32,
        (y * 65536.0).round() as i32,
        (z * 65536.0).round() as i32,
    )
}

/// The rotation for angles in units of 1/32768 degree, as the rotation
/// builder gives it.
fn rotation(first: i32, second: i32, third: i32) -> Rotation {
    let radians = |raw: i32| (raw as f32 / 32768.0) * std::f32::consts::PI / 180.0;
    let m = Matrix4::<f32>::from_euler_angles(radians(first), radians(second), radians(third));
    let fixed = |v: f32| (v * 65536.0).round() as i32;
    Rotation {
        x: Vector3::new(fixed(m[(0, 0)]), fixed(m[(0, 1)]), fixed(m[(0, 2)])),
        y: Vector3::new(fixed(m[(1, 0)]), fixed(m[(1, 1)]), fixed(m[(1, 2)])),
        z: Vector3::new(fixed(m[(2, 0)]), fixed(m[(2, 1)]), fixed(m[(2, 2)])),
    }
}

fn plain_camera() -> Camera {
    Camera::new(Intrinsics::calibrated(), None)
}

#[test]
fn test_test() {
    let mut cam = Camera::default();
    cam.set_rotation(rotation(0, 0, 0));
    println!("{:?}", cam.project(vector(1.5, 0.1, -2.0)));
    println!("{:?}", cam.project(vector(1.5, 1.0, -2.0)));
    assert_eq!(cam.project(vector(1.5, 0.1, -2.0)), Some(Point2::new(142210870, 41471266)));
    assert_eq!(cam.project(vector(1.5, 1.0, -2.0)), Some(Point2::new(141483729, 88831692)));
}

#[test]
fn focal_scale_is_piecewise_linear() {
    let mut cam = plain_camera();
    assert_eq!(cam.focal_length(), 163840);
    for (zoom, numerator) in
        [(0, 163840), (1, 163864), (2048, 212992), (4095, 262120), (4096, 262144), (4097, 262194),
            (10438, 579244), (16383, 876494)]
    {
        assert_eq!(cam.set_zoom(zoom), Ok(()));
        assert_eq!(cam.focal_length(), numerator);
    }
    cam.set_zoom(2048).unwrap();
    assert_eq!(cam.focal_length() as f64 / 163840.0, 1.3);
    cam.set_zoom(4096).unwrap();
    assert_eq!(cam.focal_length() as f64 / 163840.0, 1.6);
    cam.set_zoom(4096 + 8192).unwrap();
    assert_eq!(cam.focal_length() as f64 / 163840.0, 4.1);
}

#[test]
fn zoom_out_of_range_is_refused() {
    let mut cam = plain_camera();
    cam.set_zoom(1000).unwrap();
    let before = cam.focal_length();
    assert_eq!(cam.set_zoom(16384), Err(CameraError::ZoomOutOfRange));
    assert_eq!(cam.focal_length(), before);
    assert_eq!(cam.set_zoom(u32::MAX), Err(CameraError::ZoomOutOfRange));
    assert_eq!(cam.focal_length(), before);
    assert_eq!(cam.set_zoom(16383), Ok(()));
}

#[test]
fn projects_through_the_intrinsics() {
    let cam = plain_camera();
    assert_eq!(cam.project(Vector3::new(32768, 16384, -65536)), Some(Point2::new(117189556, 63496612)));
    assert_eq!(cam.project(vector(0.05, -0.36, -1.8)), Some(Point2::new(65577570, 14224861)));
}

#[test]
fn zoom_magnifies_about_the_principal_point() {
    let mut cam = plain_camera();
    cam.set_zoom(4096).unwrap();
    assert_eq!(cam.project(Vector3::new(32768, 16384, -65536)), Some(Point2::new(149979269, 79921643)));
}

#[test]
fn rotation_is_applied_to_the_magnified_point() {
    let mut cam = plain_camera();
    cam.set_rotation(Rotation {
        x: Vector3::new(0, 0, 65536),
        y: Vector3::new(0, 65536, 0),
        z: Vector3::new(-65536, 0, 0),
    });
    assert_eq!(cam.project(vector(1.0, 0.25, 0.5)), Some(Point2::new(117189556, 63496612)));
}

#[test]
fn lens_distortion_moves_the_image() {
    let cam = Camera::new(Intrinsics::calibrated(), Some(Distortion::calibrated()));
    assert_eq!(cam.project(Vector3::new(32768, 16384, -65536)), Some(Point2::new(116163887, 62983696)));
    let none = Camera::new(
        Intrinsics::calibrated(),
        Some(Distortion { k1: 0, k2: 0, p1: 0, p2: 0, k3: 0 }),
    );
    assert_eq!(none.project(Vector3::new(32768, 16384, -65536)), Some(Point2::new(117189556, 63496612)));
}

#[test]
fn no_image_in_the_plane_of_the_camera_or_at_a_flat_angle() {
    let cam = plain_camera();
    assert_eq!(cam.project(vector(1.0, 1.0, 0.0)), None);
    assert_eq!(cam.project(vector(0.0, 0.0, 0.0)), None);
    assert_eq!(cam.project(vector(17.0, 0.0, -1.0)), None);
    assert!(cam.project(vector(16.0, 0.0, -1.0)).is_some());
    assert_eq!(cam.project(vector(0.0, 16.5, 1.0)), None);
}

#[test]
fn no_image_where_the_pixel_is_out_of_range() {
    let cam = Camera::new(Intrinsics { fx: i32::MAX, fy: 65536, cx: 0, cy: 0 }, None);
    assert_eq!(cam.project(vector(8.0, 0.0, 1.0)), None);
    assert_eq!(cam.project(vector(0.5, 0.0, 1.0)), Some(Point2::new(1073741823, 0)));
}

#[test]
fn optical_axis_projects_to_the_principal_point() {
    let mut cam = plain_camera();
    let center = Some(Point2::new(62540590, 36123232));
    for zoom in [0, 100, 4095, 4096, 16383] {
        cam.set_zoom(zoom).unwrap();
        assert_eq!(cam.project(vector(0.0, 0.0, -1.8)), center);
        assert_eq!(cam.project(vector(0.0, 0.0, -0.001)), center);
        assert_eq!(cam.project(Vector3::new(0, 0, i32::MIN)), center);
        assert_eq!(cam.project(Vector3::new(0, 0, 1)), center);
    }
    let other = Camera::new(Intrinsics { fx: 1000, fy: -1000, cx: -5, cy: 77 }, None);
    assert_eq!(other.project(vector(0.0, 0.0, -3.0)), Some(Point2::new(-5, 77)));
}

#[test]
fn zero_sample_looks_at_the_principal_point() {
    let mut ptz = Ptz::new(1);
    ptz.set_freed_data(FreeD::zero());
    let (yaw, pitch, zoom) = ptz.yaw_pitch_zoom();
    let mut cam = plain_camera();
    cam.set_rotation(rotation(yaw, pitch, 0));
    cam.set_zoom(zoom).unwrap();
    let p = cam.project(vector(0.0, 0.0, -1.8)).unwrap();
    assert_eq!(p, Point2::new(62540590, 36123232));
    assert!((p.x as f64 / 65536.0 - 954.293667).abs() < 1e-4);
    assert!((p.y as f64 / 65536.0 - 551.196783).abs() < 1e-4);
}

#[test]
fn projection_is_deterministic() {
    let mut cam = Camera::default();
    cam.set_rotation(rotation(5 * 32768, -12 * 32768, 0));
    cam.set_zoom(5000).unwrap();
    let copy = cam;
    for p in [vector(0.05, -0.36, -1.8), vector(-0.6, 0.11, -1.8), vector(3.0, 2.0, 0.5)] {
        let first = cam.project(p);
        assert_eq!(cam.project(p), first);
        assert_eq!(copy.project(p), first);
    }
}

#[test]
fn calibration_constants() {
    let i = Intrinsics::calibrated();
    assert_eq!((i.fx, i.fy, i.cx, i.cy), (-109297932, -109493523, 62540590, 36123232));
    assert!((i.fx as f64 / 65536.0 + 1667.75409).abs() < 1e-4);
    assert!((i.fy as f64 / 65536.0 + 1670.73857).abs() < 1e-4);
    let d = Distortion::calibrated();
    assert_eq!((d.k1, d.k2, d.p1, d.p2, d.k3), (-1530121, 1682612, -7817, -15828, -1000303));
    assert!((d.k1 as f64 / 16777216.0 + 0.09120233).abs() < 1e-7);
    assert_eq!(Rotation::identity(), rotation(0, 0, 0));
}
