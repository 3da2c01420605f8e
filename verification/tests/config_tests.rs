use vhs_86::config::{
    apply_active_theme, built_in_themes, config_path_in, key_matches, parse_color, theme_name_for, themes_dir_in,
    Colors, Config, KeyBindings, KeyCodeChar, NEON_DREAM_THEME,
};
use vhs_86::keybindings::KeyCode;
use vhs_86::theme::Color;

#[test]
fn parse_color_names_and_rgb() {
    assert_eq!(parse_color("black"), Color::Black);
    assert_eq!(parse_color("  Light_Cyan \n"), Color::LightCyan);
    assert_eq!(parse_color("grey"), Color::Gray);
    assert_eq!(parse_color("dark_grey"), Color::DarkGray);
    assert_eq!(parse_color("rgb(255,0,255)"), Color::Rgb(255, 0, 255));
    assert_eq!(parse_color("RGB( 1 , +2,3 )"), Color::Rgb(1, 2, 3));
    assert_eq!(parse_color("rgb(256,0,0)"), Color::White);
    assert_eq!(parse_color("rgb(1,2)"), Color::White);
    assert_eq!(parse_color("rgb(1,2,3"), Color::White);
    assert_eq!(parse_color("chartreuse"), Color::White);
    assert_eq!(parse_color("\u{3000}red\u{a0}"), Color::Red);
}

#[test]
fn built_in_themes_are_the_three_shipped_ones() {
    let themes = built_in_themes();
    let names: Vec<&str> = themes.iter().map(|t| t.0.as_str()).collect();
    assert_eq!(names, vec!["synthwave-84", "midnight-green", "amber-crt"]);
    assert_eq!(themes[1].1.colors.foreground, "rgb(200,220,200)");
    assert_eq!(themes[2].1.colors.border, "rgb(200,140,0)");
    assert_eq!(themes[0].1.active_theme.as_deref(), Some("synthwave-84"));
    assert!(themes[0].1.bookmarks.is_empty());
    assert!(themes[0].1.keys.quit.is_none());
}

#[test]
fn default_config_file_text() {
    let text = Config::default().to_toml();
    assert!(text.starts_with("# VHS-86 configuration\n\n# Active theme name. Built-in: synthwave-84, midnight-green, amber-crt\n# active_theme = \"synthwave-84\"\n\n"));
    assert!(text.contains("\nbookmarks = []\n# bookmarks = [\n#     \"/home/user/projects\",\n"));
    assert!(text.contains("\n# Colors: black, red, green, yellow, blue, magenta, cyan, gray,\n"));
    assert!(text.contains("[colors]\nbackground = \"black\"\nforeground = \"white\"\nhighlight_bg = \"magenta\"\n"));
    assert!(text.contains("status = \"yellow\"\n\n# Optional keybinding overrides.\n"));
    assert!(text.ends_with("# confirm = \"y\"\n# cancel = \"n\"\n"));
}

#[test]
fn config_file_text_with_theme_and_bookmarks() {
    let mut cfg = Config::default();
    cfg.active_theme = Some("amber-crt".to_string());
    cfg.bookmarks = vec!["/a".to_string(), "/b c".to_string()];
    let text = cfg.to_toml();
    assert!(text.contains("\nactive_theme = \"amber-crt\"\n\n# Saved directory bookmarks for quick jumping\nbookmarks = [\n    \"/a\",\n    \"/b c\"\n]\n\n# Colors: "));
    let colors_at = text.find("[colors]").unwrap();
    assert!(text.find("active_theme").unwrap() < colors_at);
    assert!(text.find("bookmarks = [").unwrap() < colors_at);
}

#[test]
fn configured_keys_match_typed_keys() {
    let c = KeyCodeChar::from_key(&KeyCode::Char('x'));
    assert!(key_matches(&Some("x".to_string()), &c));
    assert!(!key_matches(&Some("y".to_string()), &c));
    assert!(!key_matches(&None, &c));
    assert!(key_matches(&Some("enter".to_string()), &KeyCodeChar::from_key(&KeyCode::Enter)));
    assert!(key_matches(&Some("esc".to_string()), &KeyCodeChar::Esc));
    assert!(key_matches(&Some("backspace".to_string()), &KeyCodeChar::Backspace));
    assert!(!key_matches(&Some("tab".to_string()), &KeyCodeChar::from_key(&KeyCode::Tab)));
}

#[test]
fn active_theme_takes_its_colours() {
    let themes = built_in_themes();
    let mut cfg = Config::default();
    cfg.active_theme = Some("midnight-green".to_string());
    apply_active_theme(&mut cfg, &themes);
    assert_eq!(cfg.colors.directory, "rgb(0,200,150)");
    let mut other = Config::default();
    other.active_theme = Some("missing".to_string());
    apply_active_theme(&mut other, &themes);
    assert_eq!(other.colors.directory, "cyan");
}

#[test]
fn theme_files_name_new_themes_only() {
    let themes = built_in_themes();
    assert_eq!(theme_name_for("/t/neon-dream.toml", &themes), Some("neon-dream".to_string()));
    assert_eq!(theme_name_for("/t/amber-crt.toml", &themes), None);
    assert_eq!(theme_name_for("/t/readme.md", &themes), None);
    assert_eq!(theme_name_for("/t/X.TOML", &themes), None);
}

#[test]
fn config_locations_under_a_directory() {
    assert_eq!(config_path_in(Some("/home/u/.config".to_string())), Some("/home/u/.config/vhs-86/config.toml".to_string()));
    assert_eq!(themes_dir_in(Some("/c".to_string())), Some("/c/vhs-86/themes".to_string()));
    assert_eq!(config_path_in(None), None);
}

#[test]
fn defaults_of_colors_and_keys() {
    let c = Colors::default();
    assert_eq!(c.highlight_bg, "magenta");
    let k = KeyBindings::default();
    assert!(k.move_key.is_none());
}

#[test]
fn written_config_reads_back_theme_and_bookmarks_at_top_level() {
    let mut cfg = Config::default();
    cfg.active_theme = Some("amber-crt".to_string());
    cfg.bookmarks = vec!["/a".to_string(), "/b c".to_string()];
    let table: toml::Table = toml::from_str(&cfg.to_toml()).unwrap();
    assert_eq!(table["active_theme"].as_str(), Some("amber-crt"));
    let marks: Vec<&str> = table["bookmarks"].as_array().unwrap().iter().map(|v| v.as_str().unwrap()).collect();
    assert_eq!(marks, vec!["/a", "/b c"]);
    assert_eq!(table["colors"]["directory"].as_str(), Some("cyan"));
    assert!(table["colors"].get("bookmarks").is_none());
}

#[test]
fn sample_theme_has_every_configuration_key() {
    let table: toml::Table = toml::from_str(NEON_DREAM_THEME).unwrap();
    assert!(table["bookmarks"].as_array().unwrap().is_empty());
    assert!(table["keys"].as_table().unwrap().is_empty());
    assert_eq!(table["colors"]["status"].as_str(), Some("rgb(255,255,0)"));
    assert!(table.get("active_theme").is_none());
}

#[test]
fn built_in_themes_are_distinct_and_plain() {
    let themes = built_in_themes();
    let names: Vec<&str> = themes.iter().map(|t| t.0.as_str()).collect();
    assert_eq!(names, vec!["synthwave-84", "midnight-green", "amber-crt"]);
    let d = Colors::default();
    assert_eq!(themes[0].1.colors.background, d.background);
    assert_eq!(themes[0].1.colors.status, d.status);
    for (name, cfg) in &themes {
        assert!(cfg.bookmarks.is_empty());
        assert!(cfg.keys.quit.is_none());
        assert_eq!(cfg.active_theme.as_deref(), Some(name.as_str()));
    }
}

#[test]
fn rgb_colour_texts_read_back() {
    assert_eq!(parse_color("rgb(200,220,200)"), Color::Rgb(200, 220, 200));
    assert_eq!(parse_color("rgb(0,128,128)"), Color::Rgb(0, 128, 128));
    assert_eq!(parse_color("rgb(255,0,7)"), Color::Rgb(255, 0, 7));
}

#[test]
fn default_config_file_has_every_required_key() {
    let table: toml::Table = toml::from_str(&Config::default().to_toml()).unwrap();
    assert!(table["bookmarks"].as_array().unwrap().is_empty());
    assert!(table["keys"].as_table().unwrap().is_empty());
    assert_eq!(table["colors"]["background"].as_str(), Some("black"));
    assert!(table.get("active_theme").is_none());
}
