use world_grid::PixelCrossFadeBuffer;
use world_grid::is_dark;

#[test]
fn new_buffer_holds_one_pixel_per_cell() {
    let buffer = PixelCrossFadeBuffer::new(4, 3);
    assert_eq!(buffer.input_pixels.len(), 12);
    assert_eq!(buffer.background_pixels.len(), 12);
    assert_eq!(buffer.output_pixels.len(), 12);
    assert!(buffer.input_pixels.iter().all(|p| *p == [0, 0, 0, 0]));
}

#[test]
fn load_moves_input_to_opaque_background() {
    let mut buffer = PixelCrossFadeBuffer::new(2, 1);
    let first = vec![[10, 20, 30, 200], [40, 50, 60, 200]];
    buffer.load(&first);
    assert_eq!(buffer.input_pixels[0], [10, 20, 30, 0]);
    assert_eq!(buffer.input_pixels[1], [40, 50, 60, 0]);
    assert_eq!(buffer.background_pixels[0], [0, 0, 0, 0xff]);

    let second = vec![[1, 2, 3, 4], [5, 6, 7, 8]];
    buffer.load(&second);
    assert_eq!(buffer.input_pixels[0], [1, 2, 3, 0]);
    assert_eq!(buffer.input_pixels[1], [5, 6, 7, 0]);
    assert_eq!(buffer.background_pixels[0], [10, 20, 30, 0xff]);
    assert_eq!(buffer.background_pixels[1], [40, 50, 60, 0xff]);
}

#[test]
fn is_dark_checks_the_color_channels() {
    assert!(is_dark([0, 0, 0, 0xff]));
    assert!(is_dark([0x10, 0x10, 0x10, 0x00]));
    assert!(!is_dark([0x11, 0x00, 0x00, 0xff]));
    assert!(!is_dark([0x00, 0x11, 0x00, 0xff]));
    assert!(!is_dark([0x00, 0x00, 0x11, 0xff]));
}
