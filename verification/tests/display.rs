use chip8::display::Screen;

#[test]
fn toggle_flips_exactly_wrapped_bit() {
    let mut screen = Screen::new();
    // Coordinates wrap: (200, 100) addresses column 200 % 64 = 8, row
    // 100 % 32 = 4.
    screen.toggle_pixel(200, 100);
    assert!(screen.get_pixel(8, 4));
    assert!(screen.get_pixel(200, 100));
    // Neighbouring pixels keep their state.
    assert!(!screen.get_pixel(7, 4));
    assert!(!screen.get_pixel(9, 4));
    assert!(!screen.get_pixel(8, 3));
    assert!(!screen.get_pixel(8, 5));
}

#[test]
fn toggle_twice_restores_prior_state() {
    let mut screen = Screen::new();
    screen.toggle_pixel(3, 7);
    screen.toggle_pixel(63, 31);
    assert!(screen.get_pixel(3, 7));
    // A second toggle at the same coordinates is an involution.
    screen.toggle_pixel(3, 7);
    assert!(!screen.get_pixel(3, 7));
    assert!(screen.get_pixel(63, 31));
    screen.toggle_pixel(63 + 64, 31 + 32);
    assert!(!screen.get_pixel(63, 31));
}

#[test]
fn clear_screen_turns_every_pixel_off() {
    let mut screen = Screen::new();
    screen.toggle_pixel(0, 0);
    screen.toggle_pixel(12, 30);
    screen.toggle_pixel(63, 31);
    screen.clear_screen();
    for y in 0..32u8 {
        for x in 0..64u8 {
            assert!(!screen.get_pixel(x, y));
        }
    }
}

#[test]
fn new_screen_is_dark() {
    let screen = Screen::new();
    for y in 0..32u8 {
        for x in 0..64u8 {
            assert!(!screen.get_pixel(x, y));
        }
    }
}

#[test]
fn build_places_row_words_directly() {
    let mut data = [0u64; 32];
    // Column 0 is the most significant bit of its row word.
    data[3] = 1u64 << 63;
    data[5] = 1u64;
    let screen = Screen::build(data);
    assert!(screen.get_pixel(0, 3));
    assert!(!screen.get_pixel(1, 3));
    assert!(screen.get_pixel(63, 5));
    assert!(!screen.get_pixel(62, 5));
}

#[test]
fn render_projects_the_bitmap() {
    let mut screen = Screen::new();
    screen.toggle_pixel(2, 1);
    screen.toggle_pixel(63, 31);
    let rows = screen.render();
    assert_eq!(rows.len(), 32);
    for (y, row) in rows.iter().enumerate() {
        assert_eq!(row.len(), 64);
        for (x, &on) in row.iter().enumerate() {
            let expected = (x == 2 && y == 1) || (x == 63 && y == 31);
            assert_eq!(on, expected);
        }
    }
}
