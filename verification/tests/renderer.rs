use chip8::display::Display;
use chip8::renderer::{DisplayRenderer, PIXELS};

#[test]
fn a_blank_display_paints_every_pixel_black() {
    let display = Display::new();
    let mut frame: Vec<u8> = vec![0x55; PIXELS * 4];
    DisplayRenderer.draw(&display, &mut frame);
    assert_eq!(frame.len(), 64 * 32 * 4);
    assert!(frame.iter().all(|b| *b == 0x00));
}

#[test]
fn lit_pixels_paint_four_bytes_of_ff_in_row_major_order() {
    let mut display = Display::new();
    display.toggle(0, 0, true);
    display.toggle(63, 0, true);
    display.toggle(2, 1, true);
    display.toggle(63, 31, true);
    let mut frame: Vec<u8> = vec![0x55; 64 * 32 * 4];
    DisplayRenderer.draw(&display, &mut frame);
    for i in 0..(64 * 32usize) {
        let on = i == 0 || i == 63 || i == 64 + 2 || i == 31 * 64 + 63;
        let want: u8 = if on { 0xFF } else { 0x00 };
        assert_eq!(&frame[4 * i..4 * i + 4], &[want, want, want, want], "pixel {}", i);
    }
}

#[test]
fn bytes_after_the_last_whole_pixel_are_left_alone() {
    let mut display = Display::new();
    display.toggle(1, 0, true);
    let mut frame: Vec<u8> = vec![0x55; 11];
    DisplayRenderer.draw(&display, &mut frame);
    assert_eq!(frame, vec![0, 0, 0, 0, 0xFF, 0xFF, 0xFF, 0xFF, 0x55, 0x55, 0x55]);
}

#[test]
fn a_frame_shorter_than_one_pixel_is_untouched() {
    let display = Display::new();
    let mut frame: Vec<u8> = vec![1, 2, 3];
    DisplayRenderer.draw(&display, &mut frame);
    assert_eq!(frame, vec![1, 2, 3]);
    let mut empty: Vec<u8> = Vec::new();
    DisplayRenderer.draw(&display, &mut empty);
    assert!(empty.is_empty());
}

#[test]
fn a_second_row_starts_at_pixel_64() {
    let mut display = Display::new();
    display.toggle(0, 1, true);
    let mut frame: Vec<u8> = vec![0; 65 * 4];
    DisplayRenderer.draw(&display, &mut frame);
    assert!(frame[..64 * 4].iter().all(|b| *b == 0));
    assert_eq!(&frame[64 * 4..], &[0xFF, 0xFF, 0xFF, 0xFF]);
}
