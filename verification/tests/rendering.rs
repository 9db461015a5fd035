use ld::{enrich, layout, output, output_with_permissions, render, render_grid, clean_styling,
    Date, DirectoryItem, DisplayMode, Filter};

fn plain_file(name: &str) -> DirectoryItem {
    DirectoryItem {
        name: String::from(name),
        is_dir: false,
        is_hidden: name.starts_with('.'),
        file_permissions: String::from("rwxrwxrwx"),
        created_at: Date { year: 2024, month: 6, day: 15 },
        size: 0,
    }
}

fn plain_dir(name: &str) -> DirectoryItem {
    DirectoryItem {
        name: String::from(name),
        is_dir: true,
        is_hidden: name.starts_with('.'),
        file_permissions: String::from("rwxrwxrwx"),
        created_at: Date { year: 2024, month: 6, day: 15 },
        size: 0,
    }
}

#[test]
fn test_output() {
    let items = vec![plain_file("testfile.txt"), plain_dir("subdir")];
    // column width 12 + 2; the directory token comes first, padded to a
    // visual width of 14, the file token after it, trailing padding trimmed
    let expected = "\u{1b}[1m\u{1b}[95msubdir\u{1b}[0m\u{1b}[39m        testfile.txt";
    assert_eq!(render_grid(&items, Filter::ShowAll, 80), expected);
}

#[test]
fn output_test_output() {
    let items = vec![plain_file("testfile.txt"), plain_dir("subdir")];
    let expected = "\u{1b}[1m\u{1b}[95msubdir\u{1b}[0m\u{1b}[39m        testfile.txt";
    assert_eq!(
        render(&items, Filter::ShowAll, DisplayMode::Grid, 80),
        expected
    );
}

#[test]
fn test_output_without_hidden_items() {
    let items = vec![plain_file(".DS_Store")];
    assert_eq!(output(&items, Filter::HideHidden), "");
}

#[test]
fn output_test_output_without_hidden_items() {
    let items = vec![plain_file(".DS_Store")];
    assert_eq!(render_grid(&items, Filter::HideHidden, 80), "");
}

#[test]
fn test_output_with_permissions() {
    let items = vec![plain_file(".DS_Store"), plain_dir("subdir")];
    // directories come first; 0 bytes renders as "0b" right-aligned to 8
    let expected = format!(
        "2024-06-15 rwxrwxrwx {} \u{1b}[1m\u{1b}[95msubdir\u{1b}[0m\u{1b}[39m\n2024-06-15 rwxrwxrwx {} .DS_Store",
        "      0b", "      0b"
    );
    assert_eq!(output_with_permissions(&items, Filter::ShowAll), expected);
}

#[test]
fn test_detailed_sorts_directories_first() {
    let mut file = plain_file("a.txt");
    file.file_permissions = String::from("rw-r--r--");
    let mut dir = plain_dir("b");
    dir.file_permissions = String::from("rwxr-xr-x");
    dir.size = 64;
    let items = vec![file, dir];
    let expected = format!(
        "2024-06-15 rwxr-xr-x {} \u{1b}[1m\u{1b}[95mb\u{1b}[0m\u{1b}[39m\n2024-06-15 rw-r--r-- {} a.txt",
        "     64b", "      0b"
    );
    assert_eq!(output_with_permissions(&items, Filter::ShowAll), expected);
}

#[test]
fn test_end_to_end_grid() {
    let date = Date::new(2024, 6, 15).unwrap();
    let file = enrich(Some(String::from("file.txt")), false, 0o644, 0, Some(date)).unwrap();
    let subdir = enrich(Some(String::from("subdir")), true, 0o755, 64, Some(date)).unwrap();
    let items = vec![file, subdir];
    // two tokens: "file.txt" plain, "subdir" styled; column width 8 + 2
    let expected = "\u{1b}[1m\u{1b}[95msubdir\u{1b}[0m\u{1b}[39m    file.txt";
    assert_eq!(render_grid(&items, Filter::HideHidden, 80), expected);
}

#[test]
fn test_grid_wraps_rows() {
    let items = vec![plain_file("a"), plain_file("b"), plain_file("c")];
    // column width 3, two columns at width 7: "a  b  " then "c"
    assert_eq!(render_grid(&items, Filter::ShowAll, 7), "a  b  \nc");
}

#[test]
fn test_layout_empty() {
    let tokens: Vec<String> = vec![];
    assert_eq!(layout(&tokens, 80), "");
}

#[test]
fn test_layout_single_wide_token() {
    // a single token wider than the terminal still gets one column
    let tokens = vec![String::from("aaaaaaaaaa")];
    assert_eq!(layout(&tokens, 5), "aaaaaaaaaa");
}

#[test]
fn test_layout_pads_by_visual_width() {
    // the styled token is 20 characters long but 6 cells wide: padding goes
    // by the visual width, so it gets 2 trailing spaces, not none
    let tokens = vec![
        String::from("\u{1b}[1m\u{1b}[95msubdir\u{1b}[0m\u{1b}[39m"),
        String::from("abc"),
    ];
    let expected = "\u{1b}[1m\u{1b}[95msubdir\u{1b}[0m\u{1b}[39m  abc";
    assert_eq!(layout(&tokens, 80), expected);
}

#[test]
fn test_grid_lines_fit_width() {
    let items = vec![
        plain_file("alpha"),
        plain_file("be"),
        plain_file("gamma!"),
        plain_dir("dir1"),
    ];
    let width = 20;
    let out = render_grid(&items, Filter::ShowAll, width);
    let stripped = clean_styling(&out);
    for line in stripped.split('\n') {
        assert!(line.chars().count() <= width);
    }
}

#[test]
fn test_render_detailed_mode() {
    let items = vec![plain_file(".DS_Store")];
    let by_mode = render(&items, Filter::ShowAll, DisplayMode::Detailed, 80);
    assert_eq!(by_mode, output_with_permissions(&items, Filter::ShowAll));
}
