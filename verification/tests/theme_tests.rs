use vhs_86::theme::{color_from_hex, color_to_hex, Color, Theme};

#[test]
fn synthwave_is_the_default_and_every_name_loads_it() {
    let t = Theme::default();
    assert_eq!(t.name, "synthwave");
    assert_eq!(t.bg, Color::Rgb(10, 2, 26));
    assert_eq!(t.git_untracked, Color::Rgb(255, 50, 80));
    assert_eq!(Theme::load("anything").name, "synthwave");
}

#[test]
fn colours_are_written_as_hex() {
    assert_eq!(color_to_hex(Color::Rgb(255, 0, 171)), "#ff00ab");
    assert_eq!(color_to_hex(Color::Rgb(1, 2, 3)), "#010203");
    assert_eq!(color_to_hex(Color::Cyan), "#000000");
}

#[test]
fn hex_colours_are_read_back() {
    assert_eq!(color_from_hex("#ff00ab"), Color::Rgb(255, 0, 171));
    assert_eq!(color_from_hex("#FF00AB"), Color::Rgb(255, 0, 171));
    assert_eq!(color_from_hex("#010203"), Color::Rgb(1, 2, 3));
}

#[test]
fn malformed_hex_components_read_as_zero() {
    assert_eq!(color_from_hex("#zz0010"), Color::Rgb(0, 0, 16));
    assert_eq!(color_from_hex("#+f+f+f"), Color::Rgb(15, 15, 15));
}

#[test]
fn text_that_is_not_seven_bytes_with_a_hash_is_black() {
    assert_eq!(color_from_hex("abc"), Color::Black);
    assert_eq!(color_from_hex("ff00ab0"), Color::Black);
    assert_eq!(color_from_hex("#ff00a"), Color::Black);
    assert_eq!(color_from_hex(""), Color::Black);
}

#[test]
fn written_colours_read_back_unchanged() {
    for c in [Color::Rgb(0, 0, 0), Color::Rgb(255, 255, 255), Color::Rgb(18, 52, 86)] {
        assert_eq!(color_from_hex(&color_to_hex(c)), c);
    }
}
