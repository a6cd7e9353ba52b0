use convert_tools::pixels::PixelGrid;
use convert_tools::svg::{render_svg, render_svg_text};

#[test]
fn transparent_grid_has_header_and_no_rect() {
    let grid = PixelGrid::new(2, 2, vec![0u8; 16]).unwrap();
    let text = render_svg_text(&grid);
    assert_eq!(
        text,
        "<svg width=\"2\" height=\"2\" viewBox=\"0 0 2 2\" xmlns=\"http://www.w3.org/2000/svg\"></svg>"
    );
    assert!(!text.contains("rect"));
}

#[test]
fn opaque_red_pixel_is_one_rect() {
    let grid = PixelGrid::new(1, 1, vec![255, 0, 0, 255]).unwrap();
    let text = String::from_utf8(render_svg(&grid)).unwrap();
    assert_eq!(
        text,
        "<svg width=\"1\" height=\"1\" viewBox=\"0 0 1 1\" xmlns=\"http://www.w3.org/2000/svg\"><rect x=\"0\" y=\"0\" width=\"1\" height=\"1\" fill=\"rgba(255,0,0,1)\" /></svg>"
    );
    assert_eq!(text.matches("<rect").count(), 1);
}
