use vhs_86::preview::{
    dir_preview, highlighted_preview, is_image, kitty_image_commands, kitty_image_for, kitty_target_size, lines_with_endings_of,
    plain_preview, KITTY_CLEAR,
};

#[test]
fn images_are_recognised_by_extension_in_any_case() {
    assert!(is_image("a/b.jpeg"));
    assert!(is_image("x.webp"));
    assert!(is_image("x.PNG"));
    assert!(is_image("x.tiff"));
    assert!(is_image("g.TIF"));
    assert!(is_image("x.ico"));
    assert!(is_image("h.avif"));
    assert!(!is_image("file.txt"));
    assert!(!is_image("png"));
}

#[test]
fn plain_preview_takes_fits_and_pads_lines() {
    let lines = plain_preview(Some("Hello, World!\nSecond line\n"), 5, 80);
    assert_eq!(lines, vec!["Hello, World!", "Second line", "", "", ""]);
    let cut = plain_preview(Some("abcdefghij\nxy"), 1, 6);
    assert_eq!(cut, vec!["abc..."]);
    let wide = plain_preview(Some("日本語テキスト"), 1, 6);
    assert_eq!(wide, vec!["日本語..."]);
    assert_eq!(plain_preview(None, 2, 10), vec!["[binary or unreadable file]", ""]);
}

#[test]
fn directory_preview_marks_kinds_and_skips_unreadable() {
    let items = vec![Some(("docs".to_string(), true)), None, Some(("a.txt".to_string(), false))];
    assert_eq!(dir_preview(&items, 10), vec!["📁 docs", "📄 a.txt"]);
    assert_eq!(dir_preview(&items, 2), vec!["📁 docs"]);
    assert_eq!(dir_preview(&vec![None], 5), vec!["[empty directory]"]);
}

#[test]
fn lines_keep_their_endings() {
    assert_eq!(lines_with_endings_of("a\nb"), vec!["a\n", "b"]);
    assert_eq!(lines_with_endings_of("a\n"), vec!["a\n"]);
    assert!(lines_with_endings_of("").is_empty());
    assert_eq!(lines_with_endings_of("\n\n"), vec!["\n", "\n"]);
}

#[test]
fn highlighted_preview_trims_and_pads() {
    let lines = highlighted_preview(Some("fn main() {}   \nlet x = 1;\n"), "rs", 4, 80);
    assert_eq!(lines.len(), 4);
    assert_eq!(lines[0].0, "fn main() {}");
    assert!(lines[0].1.is_some());
    assert_eq!(lines[1].0, "let x = 1;");
    assert_eq!(lines[2].0, "");
    assert!(lines[3].1.is_none());
    let none = highlighted_preview(None, "rs", 4, 80);
    assert_eq!(none.len(), 1);
    assert_eq!(none[0].0, "[binary or unreadable file]");
}

#[test]
fn kitty_commands_carry_base64_in_chunks() {
    let cmds = kitty_image_commands(1, 1, &vec![255, 0, 0, 255]);
    assert_eq!(cmds, vec!["\x1b_Ga=T,f=32,s=1,v=1,m=1;/wAA/w==\x1b\\".to_string()]);
    let big = vec![7u8; 6000];
    let cmds = kitty_image_commands(50, 30, &big);
    assert_eq!(cmds.len(), 2);
    assert!(cmds[0].starts_with("\x1b_Ga=T,f=32,s=50,v=30,m=1;"));
    assert_eq!(cmds[0].len(), "\x1b_Ga=T,f=32,s=50,v=30,m=1;".len() + 4096 + 2);
    assert!(cmds[1].starts_with("\x1b_Gm=0;"));
    assert_eq!(kitty_target_size(10, 5), Some((80, 80)));
    assert_eq!(kitty_target_size(0, 5), None);
    assert_eq!(KITTY_CLEAR, "\x1b_Ga=d,d=A\x1b\\");
}

#[test]
fn images_are_scaled_to_the_pane_before_sending() {
    let cmds = kitty_image_for(64, 32, &vec![0u8; 64 * 32 * 4], 2, 1);
    assert_eq!(cmds.len(), 1);
    assert!(cmds[0].starts_with("\x1b_Ga=T,f=32,s=16,v=8,m=1;"));
    assert!(cmds[0].ends_with("\x1b\\"));
    let same = kitty_image_commands(16, 8, &vec![0u8; 16 * 8 * 4]);
    assert_eq!(cmds, same);
}

#[test]
fn an_empty_pane_gets_no_image() {
    let px = vec![7u8; 4 * 4 * 4];
    assert!(kitty_image_for(4, 4, &px, 0, 3).is_empty());
    assert!(kitty_image_for(4, 4, &px, 3, 0).is_empty());
}

#[test]
fn small_images_are_scaled_up_to_the_pane() {
    let px: Vec<u8> = (0..(2 * 2 * 4)).map(|i| i as u8).collect();
    let cmds = kitty_image_for(2, 2, &px, 1, 1);
    assert!(cmds[0].starts_with("\x1b_Ga=T,f=32,s=8,v=8,m=1;"));
}

#[test]
fn highlighted_rows_take_the_colour_of_the_first_span_from_syntect() {
    let text = "fn main() {}\nlet x = 1;\n";
    let rows = highlighted_preview(Some(text), "rs", 3, 80);
    let ss = syntect::parsing::SyntaxSet::load_defaults_newlines();
    let ts = syntect::highlighting::ThemeSet::load_defaults();
    let syntax = ss.find_syntax_by_extension("rs").unwrap();
    let mut h = syntect::easy::HighlightLines::new(syntax, &ts.themes["base16-ocean.dark"]);
    for (i, line) in ["fn main() {}\n", "let x = 1;\n"].iter().enumerate() {
        let spans = h.highlight_line(line, &ss).unwrap();
        let fg = spans[0].0.foreground;
        assert_eq!(rows[i].1, Some((fg.r, fg.g, fg.b)));
        assert_eq!(rows[i].0, line.trim_end());
    }
    assert_eq!(rows[2], (String::new(), None));
}

#[test]
fn unknown_extensions_are_highlighted_as_plain_text() {
    let rows = highlighted_preview(Some("hello\n"), "no-such-ext", 1, 80);
    let ss = syntect::parsing::SyntaxSet::load_defaults_newlines();
    let ts = syntect::highlighting::ThemeSet::load_defaults();
    let mut h = syntect::easy::HighlightLines::new(ss.find_syntax_plain_text(), &ts.themes["base16-ocean.dark"]);
    let spans = h.highlight_line("hello\n", &ss).unwrap();
    let fg = spans[0].0.foreground;
    assert_eq!(rows, vec![("hello".to_string(), Some((fg.r, fg.g, fg.b)))]);
}
