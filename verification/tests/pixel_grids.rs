use convert_tools::pixels::{PixelGrid, Rgba};
use convert_tools::svg::render_svg_text;

#[test]
fn grid_needs_four_samples_per_pixel() {
    assert!(PixelGrid::new(2, 2, vec![0; 16]).is_some());
    assert!(PixelGrid::new(2, 2, vec![0; 15]).is_none());
    assert!(PixelGrid::new(2, 2, vec![0; 17]).is_none());
    assert!(PixelGrid::new(0, 5, vec![]).is_some());
    assert!(PixelGrid::new(0, 5, vec![0; 4]).is_none());
    assert!(PixelGrid::new(u32::MAX, u32::MAX, vec![0; 4]).is_none());
}

#[test]
fn grid_hands_out_its_pixels() {
    let samples: Vec<u8> = (0..24).collect();
    let grid = PixelGrid::new(3, 2, samples).unwrap();
    assert_eq!(grid.width(), 3);
    assert_eq!(grid.height(), 2);
    assert_eq!(grid.pixel(0, 0), Rgba { red: 0, green: 1, blue: 2, alpha: 3 });
    assert_eq!(grid.pixel(2, 0), Rgba { red: 8, green: 9, blue: 10, alpha: 11 });
    assert_eq!(grid.pixel(0, 1), Rgba { red: 12, green: 13, blue: 14, alpha: 15 });
    assert_eq!(grid.pixel(2, 1), Rgba { red: 20, green: 21, blue: 22, alpha: 23 });
}

#[test]
fn empty_grid_is_an_empty_canvas() {
    let grid = PixelGrid::new(0, 0, vec![]).unwrap();
    assert_eq!(
        render_svg_text(&grid),
        "<svg width=\"0\" height=\"0\" viewBox=\"0 0 0 0\" xmlns=\"http://www.w3.org/2000/svg\"></svg>"
    );
}

#[test]
fn rects_come_row_by_row_and_skip_transparent_pixels() {
    let samples = vec![
        1, 1, 1, 255, 2, 2, 2, 0, 3, 3, 3, 255, //
        4, 4, 4, 0, 5, 5, 5, 255, 6, 6, 6, 0,
    ];
    let grid = PixelGrid::new(3, 2, samples).unwrap();
    assert_eq!(
        render_svg_text(&grid),
        "<svg width=\"3\" height=\"2\" viewBox=\"0 0 3 2\" xmlns=\"http://www.w3.org/2000/svg\">\
<rect x=\"0\" y=\"0\" width=\"1\" height=\"1\" fill=\"rgba(1,1,1,1)\" />\
<rect x=\"2\" y=\"0\" width=\"1\" height=\"1\" fill=\"rgba(3,3,3,1)\" />\
<rect x=\"1\" y=\"1\" width=\"1\" height=\"1\" fill=\"rgba(5,5,5,1)\" />\
</svg>"
    );
}

#[test]
fn neighbours_of_one_colour_are_not_merged() {
    let grid = PixelGrid::new(3, 1, vec![9, 9, 9, 255, 9, 9, 9, 255, 9, 9, 9, 255]).unwrap();
    assert_eq!(render_svg_text(&grid).matches("<rect ").count(), 3);
}
