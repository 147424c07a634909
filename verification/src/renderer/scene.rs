//! One frame of the overlay: the scene as the camera sees it.

use vstd::prelude::*;
use crate::renderer::camera::Camera;
use crate::renderer::fixed::Vector3;
use crate::renderer::frame::{lemma_plot_all_concat, marker_samples, plot_all, Frame, Sample};
use crate::renderer::thick_line::thick_line_samples;

verus! {

/// A straight line in the scene, drawn as a thick line.
#[derive(Debug, Clone, Copy)]
pub struct Segment {
    pub from: Vector3,
    pub to: Vector3,
    /// Width in pixels, as a fixed-point number.
    pub width: u32,
    /// Luma, then the two chroma values.
    pub color: (u8, u8, u8),
}

/// A point in the scene, drawn as a filled square.
#[derive(Debug, Clone, Copy)]
pub struct Marker {
    pub at: Vector3,
    pub u: u8,
    pub v: u8,
    pub luma: u8,
    pub alpha: u8,
}

/// A pixel coordinate as a marker takes it: what is negative counts as zero.
pub open spec fn marker_coordinate(c: int) -> int {
    if c < 0 {
        0
    } else {
        c
    }
}

/// The writes of one segment. A segment of which the camera does not image
/// both ends is not drawn.
pub open spec fn segment_samples(camera: Camera, s: Segment) -> Seq<Sample> {
    match (camera.spec_project(s.from), camera.spec_project(s.to)) {
        (Some(a), Some(b)) => thick_line_samples(
            a,
            b,
            s.width as int,
            s.color.0,
            s.color.1,
            s.color.2,
        ),
        _ => Seq::empty(),
    }
}

/// The writes of one marker. A marker that the camera does not image is not
/// drawn.
pub open spec fn marker_writes(camera: Camera, m: Marker) -> Seq<Sample> {
    match camera.spec_project(m.at) {
        Some(p) => marker_samples(
            marker_coordinate(p.spec_pixel_x()),
            marker_coordinate(p.spec_pixel_y()),
            m.u,
            m.v,
            m.luma,
            m.alpha,
        ),
        None => Seq::empty(),
    }
}

/// The writes of the segments, first to last.
pub open spec fn segments_samples(camera: Camera, segments: Seq<Segment>) -> Seq<Sample>
    decreases segments.len(),
{
    if segments.len() == 0 {
        Seq::empty()
    } else {
        segments_samples(camera, segments.drop_last()) + segment_samples(camera, segments.last())
    }
}

/// The writes of the markers, first to last.
pub open spec fn markers_samples(camera: Camera, markers: Seq<Marker>) -> Seq<Sample>
    decreases markers.len(),
{
    if markers.len() == 0 {
        Seq::empty()
    } else {
        markers_samples(camera, markers.drop_last()) + marker_writes(camera, markers.last())
    }
}

/// The writes of a scene: the segments, then the markers.
pub open spec fn scene_samples(camera: Camera, segments: Seq<Segment>, markers: Seq<Marker>) -> Seq<
    Sample,
> {
    segments_samples(camera, segments) + markers_samples(camera, markers)
}

/// Clears the frame and draws the scene into it as `camera` sees it.
pub fn draw_scene(frame: &mut Frame, camera: &Camera, segments: &[Segment], markers: &[Marker])
    ensures
        final(frame).spec_width() == old(frame).spec_width(),
        final(frame).spec_height() == old(frame).spec_height(),
        final(frame)@ == plot_all(
            Seq::new(old(frame)@.len(), |i: int| 0u8),
            old(frame).spec_width(),
            old(frame).spec_height(),
            scene_samples(*camera, segments@, markers@),
        ),
{
    let ghost w = frame.spec_width();
    let ghost h = frame.spec_height();
    frame.clear();
    let ghost blank = frame@;
    let mut i: usize = 0;
    proof {
        assert(segments@.take(0) =~= Seq::<Segment>::empty());
    }
    while i < segments.len()
        invariant
            i <= segments.len(),
            frame.spec_width() == w,
            frame.spec_height() == h,
            frame@ == plot_all(blank, w, h, segments_samples(*camera, segments@.take(i as int))),
        decreases segments.len() - i,
    {
        let s: Segment = segments[i];
        proof {
            let done = segments@.take(i as int);
            let next = segments@.take(i as int + 1);
            assert(next.drop_last() =~= done);
            assert(next.last() == s);
            lemma_plot_all_concat(
                blank,
                w,
                h,
                segments_samples(*camera, done),
                segment_samples(*camera, s),
            );
        }
        match (camera.project(s.from), camera.project(s.to)) {
            (Some(a), Some(b)) => {
                frame.draw_thick_line(a, b, s.width, s.color);
            },
            _ => {},
        }
        i += 1;
    }
    proof {
        assert(segments@.take(i as int) =~= segments@);
        assert(markers@.take(0) =~= Seq::<Marker>::empty());
        assert(segments_samples(*camera, segments@) + Seq::<Sample>::empty()
            =~= segments_samples(*camera, segments@));
    }
    let mut j: usize = 0;
    while j < markers.len()
        invariant
            j <= markers.len(),
            frame.spec_width() == w,
            frame.spec_height() == h,
            frame@ == plot_all(
                blank,
                w,
                h,
                segments_samples(*camera, segments@) + markers_samples(
                    *camera,
                    markers@.take(j as int),
                ),
            ),
        decreases markers.len() - j,
    {
        let m: Marker = markers[j];
        proof {
            let done = markers@.take(j as int);
            let next = markers@.take(j as int + 1);
            assert(next.drop_last() =~= done);
            assert(next.last() == m);
            let lines = segments_samples(*camera, segments@);
            assert(lines + (markers_samples(*camera, done) + marker_writes(*camera, m)) =~= (lines
                + markers_samples(*camera, done)) + marker_writes(*camera, m));
            lemma_plot_all_concat(
                blank,
                w,
                h,
                lines + markers_samples(*camera, done),
                marker_writes(*camera, m),
            );
        }
        match camera.project(m.at) {
            Some(p) => {
                let px: i32 = p.pixel_x();
                let py: i32 = p.pixel_y();
                let x: u32 = if px < 0 { 0 } else { px as u32 };
                let y: u32 = if py < 0 { 0 } else { py as u32 };
                frame.fill_circle(x, y, m.u, m.v, m.luma, m.alpha);
            },
            None => {},
        }
        j += 1;
    }
    proof {
        assert(markers@.take(j as int) =~= markers@);
    }
}

} // verus!
