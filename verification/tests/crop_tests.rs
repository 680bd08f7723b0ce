use yosegaki::crop::{written_bounds, Bounds};

fn white(width: u32, height: u32) -> Vec<u8> {
    vec![255u8; (width * height * 4) as usize]
}

fn ink(pixels: &mut [u8], width: u32, x: u32, y: u32) {
    let o = ((y * width + x) * 4) as usize;
    pixels[o] = 0;
    pixels[o + 1] = 0;
    pixels[o + 2] = 0;
    pixels[o + 3] = 255;
}

#[test]
fn blank_canvas_has_no_bounds() {
    assert_eq!(written_bounds(&white(4, 3), 4, 3), None);
    assert_eq!(written_bounds(&vec![], 0, 0), None);
    // Fully transparent pixels count as blank too.
    assert_eq!(written_bounds(&vec![0u8; 16], 2, 2), None);
}

#[test]
fn bounds_hug_the_writing() {
    let mut p = white(6, 5);
    ink(&mut p, 6, 2, 1);
    ink(&mut p, 6, 4, 3);
    ink(&mut p, 6, 1, 3);
    assert_eq!(written_bounds(&p, 6, 5), Some(Bounds { left: 1, top: 1, right: 5, bottom: 4 }));
}

#[test]
fn single_pixel_bounds() {
    let mut p = white(3, 3);
    ink(&mut p, 3, 2, 2);
    assert_eq!(written_bounds(&p, 3, 3), Some(Bounds { left: 2, top: 2, right: 3, bottom: 3 }));
}
