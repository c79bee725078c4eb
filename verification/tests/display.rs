use chip8::display::Display;

fn lit(display: &Display) -> Vec<(usize, usize)> {
    let mut found: Vec<(usize, usize)> = Vec::new();
    for y in 0..32usize {
        for x in 0..64usize {
            if display.pixel(x, y) {
                found.push((x, y));
            }
        }
    }
    found
}

#[test]
fn dimensions_are_64_by_32() {
    assert_eq!(Display::WIDTH, 64);
    assert_eq!(Display::HEIGHT, 32);
}

#[test]
fn new_display_is_blank() {
    let display = Display::new();
    assert_eq!(display.pixels.len(), 32);
    for row in display.pixels.iter() {
        assert_eq!(row.len(), 64);
        assert!(row.iter().all(|p| !*p));
    }
}

#[test]
fn toggle_lights_one_pixel_and_reports_it_was_off() {
    let mut display = Display::new();
    let was_on = display.toggle(3, 5, true);
    assert!(!was_on);
    assert_eq!(lit(&display), vec![(3, 5)]);
    assert!(display.pixels[5][3]);
}

#[test]
fn toggle_again_turns_the_pixel_off_and_reports_it_was_on() {
    let mut display = Display::new();
    display.toggle(10, 20, true);
    let was_on = display.toggle(10, 20, true);
    assert!(was_on);
    assert_eq!(lit(&display), vec![]);
}

#[test]
fn toggle_with_a_clear_bit_changes_nothing() {
    let mut display = Display::new();
    display.toggle(1, 1, true);
    assert!(display.toggle(1, 1, false));
    assert!(!display.toggle(2, 2, false));
    assert_eq!(lit(&display), vec![(1, 1)]);
}

#[test]
fn toggle_wraps_both_coordinates() {
    let mut display = Display::new();
    display.toggle(64, 32, true);
    display.toggle(65 + 64, 33 + 64, true);
    display.toggle(63 + 128, 31 + 32, true);
    assert_eq!(lit(&display), vec![(0, 0), (1, 1), (63, 31)]);
}

#[test]
fn pixel_reads_with_wraparound() {
    let mut display = Display::new();
    display.toggle(7, 9, true);
    assert!(display.pixel(7, 9));
    assert!(display.pixel(7 + 64, 9 + 32));
    assert!(!display.pixel(8, 9));
    assert!(!display.pixel(7, 10));
}

#[test]
fn clear_turns_every_pixel_off() {
    let mut display = Display::new();
    for y in 0..32usize {
        for x in 0..64usize {
            display.toggle(x, y, (x + y) % 3 == 0);
        }
    }
    assert!(!lit(&display).is_empty());
    display.clear();
    assert_eq!(lit(&display), vec![]);
}

#[test]
fn snapshot_shows_the_latest_state() {
    let mut display = Display::new();
    display.toggle(63, 0, true);
    display.toggle(0, 31, true);
    let rows = display.snapshot();
    assert_eq!(rows.len(), 32);
    assert_eq!(rows[0].len(), 64);
    for y in 0..32usize {
        for x in 0..64usize {
            assert_eq!(rows[y][x], (x, y) == (63, 0) || (x, y) == (0, 31));
        }
    }
}
