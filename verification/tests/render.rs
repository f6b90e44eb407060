//! Tests for the camera, the depth-buffered render pass, and the color
//! helpers.

use asciigraphix::color::{ColorWrapper, RGB};
use asciigraphix::display::{Display, RENDER_BG, RENDER_FG};
use asciigraphix::fixed::UNIT;
use asciigraphix::point::Point;
use asciigraphix::shape::Shape;

const U: i64 = UNIT;

fn point_cloud(points: Vec<Point>) -> Shape {
    Shape { vertices: points, edges: Vec::new(), faces: Vec::new(), center: None }
}

#[test]
fn rgb() {
    let color = RGB(255, 5, 15);
    assert_eq!(color.to_u32(), 0x00FF050F);
}

#[test]
fn color_wrapper_channels() {
    let c = ColorWrapper::rgb(12, 34, 56);
    assert_eq!((c.r, c.g, c.b), (12, 34, 56));
}

#[test]
fn lighten_scales_and_caps() {
    let c = ColorWrapper::rgb(100, 200, 10);
    let brighter = c.lighten(1_500_000);
    assert_eq!((brighter.r, brighter.g, brighter.b), (150, 254, 15));
    let same = c.lighten(U);
    assert_eq!((same.r, same.g, same.b), (100, 200, 10));
    let darker = c.lighten(500_000);
    assert_eq!((darker.r, darker.g, darker.b), (50, 100, 5));
}

#[test]
fn display_new_rejects_zero_direction() {
    assert!(Display::new(10, 10, Point(0, 0, 0), Point(0, 0, 0), U).is_none());
    assert!(Display::new(10, 10, Point(0, 0, 0), Point(0, 0, U), U).is_some());
}

#[test]
fn farther_sample_wins_depth_conflict() {
    // Two vertices project to the same pixel with depths 5.0 and 12.0:
    // whichever order they are written in, the stored depth is 12.0.
    let near = Point(0, 0, 5 * U);
    let far = Point(0, 0, 12 * U);
    for shape in [
        point_cloud(vec![near, far]),
        point_cloud(vec![far, near]),
    ] {
        let mut display =
            Display::new(3, 3, Point(0, 0, 0), Point(0, 0, U), 2 * U).unwrap();
        let cells = display.render(&shape);
        assert_eq!(cells.len(), 9);
        assert_eq!(cells[1 * 3 + 1], (12 * U, RENDER_FG));
        for (i, cell) in cells.iter().enumerate() {
            if i != 4 {
                assert_eq!(*cell, (0, RENDER_BG));
            }
        }
    }
}

#[test]
fn behind_camera_culled() {
    // A point exactly at the camera and one directly behind it along
    // the forward axis never appear in the output.
    let shape = point_cloud(vec![Point(0, 0, 0), Point(0, 0, -5 * U)]);
    let mut display = Display::new(5, 5, Point(0, 0, 0), Point(0, 0, U), 2 * U).unwrap();
    let cells = display.render(&shape);
    assert_eq!(cells.len(), 25);
    for cell in &cells {
        assert_eq!(*cell, (0, RENDER_BG));
    }
}

#[test]
fn glyph_buckets_by_depth() {
    // Looking along +z the derived frame has right = -x, so points
    // with negative x land right of the screen center. Four points at
    // depths 5, 20, 40 and 60 world units, spread over four columns,
    // print as the four depth glyphs.
    let shape = point_cloud(vec![
        Point(-5 * U, 0, 5 * U),
        Point(-40 * U, 0, 20 * U),
        Point(-120 * U, 0, 40 * U),
        Point(-240 * U, 0, 60 * U),
    ]);
    let mut display = Display::new(10, 3, Point(0, 0, 0), Point(0, 0, U), U).unwrap();
    let rows = display.render_rows(&shape);
    assert_eq!(rows.len(), 3);
    assert_eq!(rows[1].len(), 10);
    assert_eq!(rows[1][6], '#');
    assert_eq!(rows[1][7], '*');
    assert_eq!(rows[1][8], '-');
    assert_eq!(rows[1][9], '.');
    assert_eq!(rows[1][0], ' ');
    assert_eq!(rows[0], vec![' '; 10]);
}

#[test]
fn edges_rasterize_as_point_samples() {
    // A horizontal line at depth 5 paints a run of cells in its row.
    let line = Shape::generate_line(Point(-5 * U, 0, 5 * U), Point(5 * U, 0, 5 * U));
    let mut display = Display::new(11, 3, Point(0, 0, 0), Point(0, 0, U), U).unwrap();
    let cells = display.render(&line);
    assert_eq!(cells.len(), 33);
    // The t = 0 endpoint sits one column right of center; samples run
    // leftward toward (but never reaching) the other endpoint.
    assert_eq!(cells[1 * 11 + 6], (5 * U, RENDER_FG));
    assert_eq!(cells[1 * 11 + 5], (5 * U, RENDER_FG));
    assert_eq!(cells[1 * 11 + 4], (5 * U, RENDER_FG));
    // Cells above and below the line's row stay empty.
    assert_eq!(cells[0 * 11 + 5], (0, RENDER_BG));
    assert_eq!(cells[2 * 11 + 5], (0, RENDER_BG));
}

#[test]
fn render_resets_buffer_between_passes() {
    let near = point_cloud(vec![Point(0, 0, 5 * U)]);
    let far = point_cloud(vec![Point(0, 0, 12 * U)]);
    let mut display = Display::new(3, 3, Point(0, 0, 0), Point(0, 0, U), 2 * U).unwrap();
    let first = display.render(&far);
    assert_eq!(first[4], (12 * U, RENDER_FG));
    // The buffer is rebuilt from scratch: the nearer point replaces the
    // farther one instead of losing the depth contest.
    let second = display.render(&near);
    assert_eq!(second[4], (5 * U, RENDER_FG));
}

#[test]
fn camera_position_offsets_projection() {
    // Moving the camera back along -z increases every stored depth.
    let shape = point_cloud(vec![Point(0, 0, 5 * U)]);
    let mut display =
        Display::new(3, 3, Point(0, 0, -15 * U), Point(0, 0, U), 2 * U).unwrap();
    let cells = display.render(&shape);
    assert_eq!(cells[4], (20 * U, RENDER_FG));
}
