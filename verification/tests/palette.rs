use terbulator::renderer::backend::Color;

#[test]
fn first_sixteen_colours_are_the_standard_palette() {
    let table: [(u8, u8, u8); 16] = [
        (0, 0, 0),
        (205, 0, 0),
        (0, 205, 0),
        (205, 205, 0),
        (0, 0, 238),
        (205, 0, 205),
        (0, 205, 205),
        (229, 229, 229),
        (127, 127, 127),
        (255, 0, 0),
        (0, 255, 0),
        (255, 255, 0),
        (92, 92, 255),
        (255, 0, 255),
        (0, 255, 255),
        (255, 255, 255),
    ];
    for (i, (r, g, b)) in table.iter().enumerate() {
        assert_eq!(Color::from_ansi_256(i as u8), Color::rgb(*r, *g, *b));
    }
}

#[test]
fn cube_components_are_multiples_of_51() {
    for i in 16..=231u8 {
        let c = Color::from_ansi_256(i);
        assert_eq!(c.r % 51, 0);
        assert_eq!(c.g % 51, 0);
        assert_eq!(c.b % 51, 0);
        assert_eq!(c.a, 255);
    }
    assert_eq!(Color::from_ansi_256(16), Color::rgb(0, 0, 0));
    assert_eq!(Color::from_ansi_256(21), Color::rgb(0, 0, 255));
    assert_eq!(Color::from_ansi_256(196), Color::rgb(255, 0, 0));
    assert_eq!(Color::from_ansi_256(110), Color::rgb(102, 153, 204));
    assert_eq!(Color::from_ansi_256(231), Color::rgb(255, 255, 255));
}

#[test]
fn greys_have_equal_components_from_8_in_steps_of_10() {
    for i in 232..=255u8 {
        let c = Color::from_ansi_256(i);
        assert_eq!(c.r, c.g);
        assert_eq!(c.g, c.b);
        assert_eq!(c.r, 8 + (i - 232) * 10);
    }
    assert_eq!(Color::from_ansi_256(232), Color::rgb(8, 8, 8));
    assert_eq!(Color::from_ansi_256(255), Color::rgb(238, 238, 238));
}

#[test]
fn colour_constructors() {
    assert_eq!(Color::new(1, 2, 3, 4), Color { r: 1, g: 2, b: 3, a: 4 });
    assert_eq!(Color::rgb(1, 2, 3), Color { r: 1, g: 2, b: 3, a: 255 });
    assert_eq!(Color::rgba(1, 2, 3, 4), Color { r: 1, g: 2, b: 3, a: 4 });
    assert_eq!(Color::black(), Color::rgb(0, 0, 0));
    assert_eq!(Color::white(), Color::rgb(255, 255, 255));
}
