//! Pinhole camera with zoom and optional lens distortion, in fixed point.
//!
//! A scene point is first magnified on `x` and `y` by the focal scale, then
//! rotated, then mapped through the intrinsic parameters. The camera stands
//! at the origin of the scene; translations are not modelled. The `z` axis
//! looks into the camera, so what the camera sees has negative `z`.

use vstd::prelude::*;
use crate::renderer::fixed::{floor_div, Point2, Vector3};

verus! {

/// Highest zoom ring reading that the camera model accepts.
pub const ZOOM_MAX: u32 = 16383;

/// Zoom ring reading at which the focal scale changes its slope.
pub const ZOOM_KNEE: u32 = 4096;

/// Denominator of the focal scale.
pub const FOCAL_UNIT: u32 = 163840;

/// Largest magnitude, in fixed point, of a normalized image coordinate that
/// the camera maps to a pixel.
pub const NORMALIZED_MAX: i64 = 0x10_0000;

/// Why the camera refused a setting.
#[derive(Debug, Clone, Copy, PartialEq, Eq, Structural)]
pub enum CameraError {
    /// The zoom ring reading is above `ZOOM_MAX`.
    ZoomOutOfRange,
}

/// Focal lengths and principal point in pixels, as fixed-point numbers with
/// 16 fractional bits.
#[derive(Debug, Clone, Copy, PartialEq, Eq, Structural)]
pub struct Intrinsics {
    pub fx: i32,
    pub fy: i32,
    pub cx: i32,
    pub cy: i32,
}

/// Coefficients of the Brown-Conrady lens model, as fixed-point numbers with
/// 24 fractional bits.
#[derive(Debug, Clone, Copy, PartialEq, Eq, Structural)]
pub struct Distortion {
    pub k1: i32,
    pub k2: i32,
    pub p1: i32,
    pub p2: i32,
    pub k3: i32,
}

/// The three rows of a rotation matrix, as fixed-point numbers with 16
/// fractional bits.
#[derive(Debug, Clone, Copy, PartialEq, Eq, Structural)]
pub struct Rotation {
    pub x: Vector3,
    pub y: Vector3,
    pub z: Vector3,
}

/// The rotation that turns nothing.
pub open spec fn spec_identity() -> Rotation {
    Rotation {
        x: Vector3 { x: 65536, y: 0, z: 0 },
        y: Vector3 { x: 0, y: 65536, z: 0 },
        z: Vector3 { x: 0, y: 0, z: 65536 },
    }
}

/// Numerator of the focal scale at a zoom ring reading, over `FOCAL_UNIT`:
/// the scale rises from 1.0 to 1.6 over the first 4096 readings and by 5.0
/// over every further 16384.
pub open spec fn spec_focal(zoom: int) -> int {
    if zoom < 4096 {
        163840 + 24 * zoom
    } else {
        262144 + 50 * (zoom - 4096)
    }
}

/// Quotient of `a` by `b`, rounded down.
pub open spec fn ratio(a: int, b: int) -> int
    recommends
        b != 0,
{
    if b > 0 {
        a / b
    } else {
        (-a) / (-b)
    }
}

/// A scene point with `x` and `y` magnified by the focal scale. The three
/// numbers have the common denominator `65536 * FOCAL_UNIT`.
pub open spec fn zoomed(focal: int, p: Vector3) -> (int, int, int) {
    (p.x as int * focal, p.y as int * focal, p.z as int * 163840)
}

/// Product of one row of the rotation with a vector.
pub open spec fn dot(row: Vector3, v: (int, int, int)) -> int {
    row.x as int * v.0 + row.y as int * v.1 + row.z as int * v.2
}

/// Normalized image coordinates of a scene point, in fixed point: the
/// magnified and rotated point, divided by its `z`. There are none where that
/// `z` is zero or a coordinate exceeds `NORMALIZED_MAX`.
pub open spec fn normalized(rotation: Rotation, focal: int, p: Vector3) -> Option<(int, int)> {
    let v = zoomed(focal, p);
    let rx = dot(rotation.x, v);
    let ry = dot(rotation.y, v);
    let rz = dot(rotation.z, v);
    if rz == 0 {
        None
    } else {
        let nx = ratio(rx * 65536, rz);
        let ny = ratio(ry * 65536, rz);
        if -0x10_0000 <= nx <= 0x10_0000 && -0x10_0000 <= ny <= 0x10_0000 {
            Some((nx, ny))
        } else {
            None
        }
    }
}

/// Radial factor of the lens model at squared radius `r2`, in fixed point:
/// `1 + k1 r^2 + k2 r^4 + k3 r^6`.
pub open spec fn radial(d: Distortion, r2: int) -> int {
    let r4 = r2 * r2 / 65536;
    let r6 = r4 * r2 / 65536;
    65536 + (d.k1 as int * r2 + d.k2 as int * r4 + d.k3 as int * r6) / 0x100_0000
}

/// Normalized coordinates after lens distortion:
/// `x' = x radial + 2 p1 x y + p2 (r^2 + 2 x^2)` and
/// `y' = y radial + p1 (r^2 + 2 y^2) + 2 p2 x y`.
pub open spec fn distorted(d: Distortion, n: (int, int)) -> (int, int) {
    let xx = n.0 * n.0 / 65536;
    let yy = n.1 * n.1 / 65536;
    let xy = n.0 * n.1 / 65536;
    let r2 = xx + yy;
    let k = radial(d, r2);
    (
        n.0 * k / 65536 + (2 * d.p1 as int * xy + d.p2 as int * (r2 + 2 * xx)) / 0x100_0000,
        n.1 * k / 65536 + (d.p1 as int * (r2 + 2 * yy) + 2 * d.p2 as int * xy) / 0x100_0000,
    )
}

/// Pixel coordinate of a normalized coordinate `n`, for focal length `f` and
/// principal point `c`.
pub open spec fn to_pixel(f: i32, c: i32, n: int) -> int {
    f as int * n / 65536 + c as int
}

/// Camera model.
#[derive(Debug, Clone, Copy)]
pub struct Camera {
    rotation_matrix: Rotation,
    focal_length: u32,
    intrinsics: Intrinsics,
    distortion: Option<Distortion>,
}

/// The intrinsic parameters of the calibrated camera.
pub open spec fn spec_calibrated_intrinsics() -> Intrinsics {
    Intrinsics { fx: -109297932i32, fy: -109493523i32, cx: 62540590, cy: 36123232 }
}

/// The distortion coefficients of the calibrated lens.
pub open spec fn spec_calibrated_distortion() -> Distortion {
    Distortion { k1: -1530121i32, k2: 1682612, p1: -7817i32, p2: -15828i32, k3: -1000303i32 }
}

impl Intrinsics {
    /// The intrinsic parameters of the calibrated camera: focal lengths of
    /// about -1667.754 and -1670.739 pixels, principal point at about
    /// (954.294, 551.197).
    pub fn calibrated() -> (r: Intrinsics)
        ensures
            r == spec_calibrated_intrinsics(),
    {
        Intrinsics { fx: -109297932, fy: -109493523, cx: 62540590, cy: 36123232 }
    }
}

impl Distortion {
    /// The distortion coefficients of the calibrated lens.
    pub fn calibrated() -> (r: Distortion)
        ensures
            r == spec_calibrated_distortion(),
    {
        Distortion { k1: -1530121, k2: 1682612, p1: -7817, p2: -15828, k3: -1000303 }
    }
}

impl Default for Camera {
    /// The calibrated camera with its lens distortion, looking straight
    /// ahead with focal scale one.
    fn default() -> (r: Camera)
        ensures
            r.spec_rotation() == spec_identity(),
            r.spec_focal_length() == 163840,
            r.spec_intrinsics() == spec_calibrated_intrinsics(),
            r.spec_distortion() == Some(spec_calibrated_distortion()),
    {
        Camera::new(Intrinsics::calibrated(), Some(Distortion::calibrated()))
    }
}

impl Rotation {
    /// The rotation that turns nothing.
    pub fn identity() -> (r: Rotation)
        ensures
            r == spec_identity(),
    {
        Rotation {
            x: Vector3 { x: 65536, y: 0, z: 0 },
            y: Vector3 { x: 0, y: 65536, z: 0 },
            z: Vector3 { x: 0, y: 0, z: 65536 },
        }
    }
}

impl Camera {
    /// The rotation of the camera.
    pub closed spec fn spec_rotation(self) -> Rotation {
        self.rotation_matrix
    }

    /// Numerator of the focal scale, over `FOCAL_UNIT`.
    pub closed spec fn spec_focal_length(self) -> int {
        self.focal_length as int
    }

    /// The intrinsic parameters.
    pub closed spec fn spec_intrinsics(self) -> Intrinsics {
        self.intrinsics
    }

    /// The distortion coefficients, where the lens is calibrated.
    pub closed spec fn spec_distortion(self) -> Option<Distortion> {
        self.distortion
    }

    /// Where the camera images the scene point `p`, if anywhere.
    pub open spec fn spec_project(self, p: Vector3) -> Option<Point2> {
        match normalized(self.spec_rotation(), self.spec_focal_length(), p) {
            None => None,
            Some(n) => {
                let m = match self.spec_distortion() {
                    Some(d) => distorted(d, n),
                    None => n,
                };
                let px = to_pixel(self.spec_intrinsics().fx, self.spec_intrinsics().cx, m.0);
                let py = to_pixel(self.spec_intrinsics().fy, self.spec_intrinsics().cy, m.1);
                if i32::MIN <= px <= i32::MAX && i32::MIN <= py <= i32::MAX {
                    Some(Point2 { x: px as i32, y: py as i32 })
                } else {
                    None
                }
            },
        }
    }

    /// A camera that looks straight ahead with focal scale one.
    pub fn new(intrinsics: Intrinsics, distortion: Option<Distortion>) -> (r: Camera)
        ensures
            r.spec_rotation() == spec_identity(),
            r.spec_focal_length() == 163840,
            r.spec_intrinsics() == intrinsics,
            r.spec_distortion() == distortion,
    {
        Camera {
            rotation_matrix: Rotation::identity(),
            focal_length: FOCAL_UNIT,
            intrinsics,
            distortion,
        }
    }

    /// Turns the camera.
    pub fn set_rotation(&mut self, rotation: Rotation)
        ensures
            final(self).spec_rotation() == rotation,
            final(self).spec_focal_length() == old(self).spec_focal_length(),
            final(self).spec_intrinsics() == old(self).spec_intrinsics(),
            final(self).spec_distortion() == old(self).spec_distortion(),
    {
        self.rotation_matrix = rotation;
    }

    /// Sets the focal scale from a zoom ring reading. A reading above
    /// `ZOOM_MAX` is refused and leaves the camera as it was.
    pub fn set_zoom(&mut self, zoom: u32) -> (r: Result<(), CameraError>)
        ensures
            zoom <= 16383 ==> r == Ok::<(), CameraError>(()) && final(self).spec_focal_length()
                == spec_focal(zoom as int),
            zoom > 16383 ==> r == Err::<(), CameraError>(CameraError::ZoomOutOfRange)
                && final(self).spec_focal_length() == old(self).spec_focal_length(),
            final(self).spec_rotation() == old(self).spec_rotation(),
            final(self).spec_intrinsics() == old(self).spec_intrinsics(),
            final(self).spec_distortion() == old(self).spec_distortion(),
    {
        if zoom > ZOOM_MAX {
            return Err(CameraError::ZoomOutOfRange);
        }
        if zoom < ZOOM_KNEE {
            self.focal_length = FOCAL_UNIT + 24 * zoom;
        } else {
            self.focal_length = 262144 + 50 * (zoom - ZOOM_KNEE);
        }
        Ok(())
    }

    /// Numerator of the focal scale, over `FOCAL_UNIT`.
    pub fn focal_length(&self) -> (r: u32)
        ensures
            r == self.spec_focal_length(),
    {
        self.focal_length
    }

    /// Projects the scene point `point` to pixel coordinates.
    ///
    /// There is no image where the point lies in the plane of the camera,
    /// where it is seen at too flat an angle for its normalized coordinates
    /// to stay within `NORMALIZED_MAX`, or where its pixel coordinates are not
    /// numbers of a `Point2`.
    pub fn project(&self, point: Vector3) -> (r: Option<Point2>)
        ensures
            r == self.spec_project(point),
    {
        let n = match normalize(&self.rotation_matrix, self.focal_length, point) {
            Some(n) => n,
            None => {
                return None;
            },
        };
        let m = match self.distortion {
            Some(d) => distort(&d, n),
            None => n,
        };
        proof {
            lemma_product_bound(
                self.intrinsics.fx as int,
                m.0 as int,
                0x8000_0000,
                0x400_0000_0000_0000,
            );
            lemma_product_bound(
                self.intrinsics.fy as int,
                m.1 as int,
                0x8000_0000,
                0x400_0000_0000_0000,
            );
        }
        let px: i128 = floor_div(self.intrinsics.fx as i128 * m.0 as i128, 65536)
            + self.intrinsics.cx as i128;
        let py: i128 = floor_div(self.intrinsics.fy as i128 * m.1 as i128, 65536)
            + self.intrinsics.cy as i128;
        if px < -0x8000_0000 || px > 0x7FFF_FFFF || py < -0x8000_0000 || py > 0x7FFF_FFFF {
            return None;
        }
        Some(Point2 { x: px as i32, y: py as i32 })
    }
}

/// Quotient of `a` by a divisor that is not zero, rounded down.
fn divide(a: i128, b: i128) -> (r: i128)
    requires
        b != 0,
        -0x2000_0000_0000_0000_0000_0000_0000_0000 <= a <= 0x2000_0000_0000_0000_0000_0000_0000_0000,
        -0x2000_0000_0000_0000_0000_0000_0000_0000 <= b <= 0x2000_0000_0000_0000_0000_0000_0000_0000,
    ensures
        r == ratio(a as int, b as int),
{
    if b > 0 {
        floor_div(a, b)
    } else {
        floor_div(-a, -b)
    }
}

/// Product of one row of a rotation with a magnified point.
fn row_product(row: &Vector3, x: i128, y: i128, z: i128) -> (r: i128)
    requires
        -0x8000_0000_0000_0000 <= x <= 0x8000_0000_0000_0000,
        -0x8000_0000_0000_0000 <= y <= 0x8000_0000_0000_0000,
        -0x8000_0000_0000_0000 <= z <= 0x8000_0000_0000_0000,
    ensures
        r == dot(*row, (x as int, y as int, z as int)),
        -0xC000_0000_0000_0000_0000_0000 <= r <= 0xC000_0000_0000_0000_0000_0000,
{
    proof {
        lemma_product_bound(row.x as int, x as int, 0x8000_0000, 0x8000_0000_0000_0000);
        lemma_product_bound(row.y as int, y as int, 0x8000_0000, 0x8000_0000_0000_0000);
        lemma_product_bound(row.z as int, z as int, 0x8000_0000, 0x8000_0000_0000_0000);
    }
    row.x as i128 * x + row.y as i128 * y + row.z as i128 * z
}

/// Computes the normalized image coordinates of a scene point.
fn normalize(rotation: &Rotation, focal: u32, p: Vector3) -> (r: Option<(i64, i64)>)
    ensures
        match r {
            Some(n) => normalized(*rotation, focal as int, p) == Some((n.0 as int, n.1 as int))
                && -0x10_0000 <= n.0 <= 0x10_0000 && -0x10_0000 <= n.1 <= 0x10_0000,
            None => normalized(*rotation, focal as int, p) is None,
        },
{
    proof {
        lemma_product_bound(p.x as int, focal as int, 0x8000_0000, 0x1_0000_0000);
        lemma_product_bound(p.y as int, focal as int, 0x8000_0000, 0x1_0000_0000);
    }
    let x: i128 = p.x as i128 * focal as i128;
    let y: i128 = p.y as i128 * focal as i128;
    let z: i128 = p.z as i128 * 163840;
    let rx: i128 = row_product(&rotation.x, x, y, z);
    let ry: i128 = row_product(&rotation.y, x, y, z);
    let rz: i128 = row_product(&rotation.z, x, y, z);
    if rz == 0 {
        return None;
    }
    let nx: i128 = divide(rx * 65536, rz);
    let ny: i128 = divide(ry * 65536, rz);
    if nx < -NORMALIZED_MAX as i128 || nx > NORMALIZED_MAX as i128 || ny < -NORMALIZED_MAX as i128
        || ny > NORMALIZED_MAX as i128 {
        return None;
    }
    Some((nx as i64, ny as i64))
}

/// Applies the lens model to normalized coordinates.
fn distort(d: &Distortion, n: (i64, i64)) -> (r: (i64, i64))
    requires
        -0x10_0000 <= n.0 <= 0x10_0000,
        -0x10_0000 <= n.1 <= 0x10_0000,
    ensures
        (r.0 as int, r.1 as int) == distorted(*d, (n.0 as int, n.1 as int)),
        -0x400_0000_0000_0000 <= r.0 <= 0x400_0000_0000_0000,
        -0x400_0000_0000_0000 <= r.1 <= 0x400_0000_0000_0000,
{
    let x: i128 = n.0 as i128;
    let y: i128 = n.1 as i128;
    proof {
        lemma_product_bound(x as int, x as int, 0x10_0000, 0x10_0000);
        lemma_product_bound(y as int, y as int, 0x10_0000, 0x10_0000);
        lemma_product_bound(x as int, y as int, 0x10_0000, 0x10_0000);
        assert(x * x >= 0) by (nonlinear_arith);
        assert(y * y >= 0) by (nonlinear_arith);
    }
    let xx: i128 = floor_div(x * x, 65536);
    let yy: i128 = floor_div(y * y, 65536);
    let xy: i128 = floor_div(x * y, 65536);
    let r2: i128 = xx + yy;
    proof {
        lemma_product_bound(r2 as int, r2 as int, 0x200_0000, 0x200_0000);
        assert(r2 * r2 >= 0) by (nonlinear_arith);
    }
    let r4: i128 = floor_div(r2 * r2, 65536);
    proof {
        lemma_product_bound(r4 as int, r2 as int, 0x4_0000_0000, 0x200_0000);
        assert(r4 * r2 >= 0) by (nonlinear_arith)
            requires
                r4 >= 0,
                r2 >= 0,
        ;
    }
    let r6: i128 = floor_div(r4 * r2, 65536);
    proof {
        lemma_product_bound(d.k1 as int, r2 as int, 0x8000_0000, 0x200_0000);
        lemma_product_bound(d.k2 as int, r4 as int, 0x8000_0000, 0x4_0000_0000);
        lemma_product_bound(d.k3 as int, r6 as int, 0x8000_0000, 0x800_0000_0000);
    }
    let k: i128 = 65536 + floor_div(
        d.k1 as i128 * r2 + d.k2 as i128 * r4 + d.k3 as i128 * r6,
        0x100_0000,
    );
    proof {
        lemma_product_bound(x as int, k as int, 0x10_0000, 0x10_0000_0000_0000);
        lemma_product_bound(y as int, k as int, 0x10_0000, 0x10_0000_0000_0000);
        lemma_product_bound(2 * d.p1 as int, xy as int, 0x1_0000_0000, 0x100_0000);
        lemma_product_bound(2 * d.p2 as int, xy as int, 0x1_0000_0000, 0x100_0000);
        lemma_product_bound(d.p2 as int, (r2 + 2 * xx) as int, 0x8000_0000, 0x400_0000);
        lemma_product_bound(d.p1 as int, (r2 + 2 * yy) as int, 0x8000_0000, 0x400_0000);
    }
    let dx: i128 = floor_div(x * k, 65536) + floor_div(
        2 * d.p1 as i128 * xy + d.p2 as i128 * (r2 + 2 * xx),
        0x100_0000,
    );
    let dy: i128 = floor_div(y * k, 65536) + floor_div(
        d.p1 as i128 * (r2 + 2 * yy) + 2 * d.p2 as i128 * xy,
        0x100_0000,
    );
    (dx as i64, dy as i64)
}

/// The product of two bounded numbers is bounded by the product of the
/// bounds.
proof fn lemma_product_bound(a: int, b: int, bound_a: int, bound_b: int)
    requires
        -bound_a <= a <= bound_a,
        -bound_b <= b <= bound_b,
    ensures
        -(bound_a * bound_b) <= a * b <= bound_a * bound_b,
{
    assert(-(bound_a * bound_b) <= a * b <= bound_a * bound_b) by (nonlinear_arith)
        requires
            -bound_a <= a <= bound_a,
            -bound_b <= b <= bound_b,
    ;
}

/// Projection is a function of the camera and the point: equal cameras image
/// equal points at the same place.
pub proof fn lemma_project_deterministic(first: Camera, second: Camera, p: Vector3, q: Vector3)
    requires
        first == second,
        p == q,
    ensures
        first.spec_project(p) == second.spec_project(q),
{
}

/// A camera that looks straight ahead and has no lens distortion images
/// every point of its optical axis at the principal point, whatever the
/// focal scale.
pub proof fn lemma_axis_projects_to_principal_point(camera: Camera, p: Vector3)
    requires
        camera.spec_rotation() == spec_identity(),
        camera.spec_distortion() is None,
        p.x == 0,
        p.y == 0,
        p.z != 0,
    ensures
        camera.spec_project(p) == Some(
            Point2 { x: camera.spec_intrinsics().cx, y: camera.spec_intrinsics().cy },
        ),
{
    let focal = camera.spec_focal_length();
    let v = zoomed(focal, p);
    assert(v.0 == 0 && v.1 == 0) by (nonlinear_arith)
        requires
            v.0 == p.x as int * focal,
            v.1 == p.y as int * focal,
            p.x == 0,
            p.y == 0,
    ;
    let rz = dot(spec_identity().z, v);
    assert(rz == 65536 * (p.z as int * 163840));
    assert(rz != 0);
    assert(dot(spec_identity().x, v) == 0);
    assert(dot(spec_identity().y, v) == 0);
    assert(ratio(0, rz) == 0);
    assert(normalized(spec_identity(), focal, p) == Some((0int, 0int)));
    assert(to_pixel(camera.spec_intrinsics().fx, camera.spec_intrinsics().cx, 0)
        == camera.spec_intrinsics().cx) by (nonlinear_arith);
    assert(to_pixel(camera.spec_intrinsics().fy, camera.spec_intrinsics().cy, 0)
        == camera.spec_intrinsics().cy) by (nonlinear_arith);
}

/// The focal scale grows with the zoom ring reading, from 1.0 at reading 0
/// over 1.6 at reading 4096, without a jump there.
pub proof fn lemma_focal_scale_grows(low: int, high: int)
    requires
        0 <= low <= high <= 16383,
    ensures
        163840 <= spec_focal(low) <= spec_focal(high) <= 876494,
        spec_focal(0) == 163840,
        spec_focal(4095) + 24 == spec_focal(4096),
        spec_focal(4096) * 10 == 163840 * 16,
{
}

} // verus!
