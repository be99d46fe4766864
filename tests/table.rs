use tabbs::{border_line, column_widths, format_line, render_table, render_table_with, shown_text};

fn strings(cells: &[&str]) -> Vec<String> {
    cells.iter().map(|s| s.to_string()).collect()
}

#[test]
fn test_print_table_to_writer() {
    let column_names = ["name", "age", "text"];
    let rows = [
        vec!["jack".to_string(), "35".to_string(), "neat".to_string()],
        vec!["jane".to_string(), "50".to_string(), "cool".to_string()],
        vec!["erin".to_string(), "20".to_string(), "nice".to_string()],
    ];

    let expected_output = "\
+------+-----+------+
| name | age | text |
+------+-----+------+
| jack | 35  | neat |
| jane | 50  | cool |
| erin | 20  | nice |
+------+-----+------+";
    let output_str = render_table(&column_names, &rows, None, None);
    assert_eq!(output_str.trim(), expected_output);
}

#[test]
fn full_table_ends_with_newline() {
    let rows = [strings(&["jack", "35", "neat"])];
    let text = render_table(&["name", "age", "text"], &rows, None, None);
    assert_eq!(
        text,
        "+------+-----+------+\n| name | age | text |\n+------+-----+------+\n| jack | 35  | neat |\n+------+-----+------+\n"
    );
}

#[test]
fn zero_rows_gives_four_lines() {
    let rows: Vec<Vec<String>> = Vec::new();
    let text = render_table(&["a", "b"], &rows, None, None);
    assert_eq!(text, "+---+---+\n| a | b |\n+---+---+\n+---+---+\n");
    assert_eq!(text.lines().count(), 4);
}

#[test]
fn extra_cell_is_dropped() {
    let rows = [strings(&["x", "y"])];
    let text = render_table(&["a"], &rows, None, None);
    assert_eq!(text, "+---+\n| a |\n+---+\n| x |\n+---+\n");
    assert!(!text.contains('y'));
}

#[test]
fn missing_cell_gets_no_segment() {
    let rows = [strings(&["x"]), strings(&["long", "z"])];
    let text = render_table(&["a", "b"], &rows, None, None);
    assert_eq!(
        text,
        "+------+---+\n| a    | b |\n+------+---+\n| x    |\n| long | z |\n+------+---+\n"
    );
}

#[test]
fn zero_columns_degenerate() {
    let rows = [strings(&["x"])];
    let text = render_table(&[], &rows, None, None);
    assert_eq!(text, "++\n|\n++\n|\n++\n");
}

#[test]
fn widths_are_maxima_of_names_and_cells() {
    let rows = [strings(&["jack", "35", "neat"]), strings(&["a", "12345", "b", "ignored-cell"])];
    assert_eq!(column_widths(&["name", "age", "text"], &rows), vec![4, 5, 4]);
}

#[test]
fn widths_twice_are_equal() {
    let rows = [strings(&["xx", "yyy"]), strings(&["z"])];
    let first = column_widths(&["a", "b"], &rows);
    let second = column_widths(&["a", "b"], &rows);
    assert_eq!(first, second);
    assert_eq!(first, vec![2, 3]);
}

#[test]
fn widths_of_empty_input() {
    let rows: Vec<Vec<String>> = Vec::new();
    assert_eq!(column_widths(&[], &rows), Vec::<usize>::new());
    assert_eq!(column_widths(&["abc"], &rows), vec![3]);
}

#[test]
fn border_for_widths() {
    assert_eq!(border_line(&vec![4, 3, 4]), "+------+-----+------+");
    assert_eq!(border_line(&vec![0]), "+--+");
    assert_eq!(border_line(&vec![]), "++");
}

#[test]
fn line_pads_by_raw_length() {
    let texts = strings(&["ab", "c"]);
    let shown = strings(&["<ab>", "c"]);
    assert_eq!(format_line(&texts, &shown, &vec![3, 2]), "| <ab>  | c  |");
    assert_eq!(format_line(&texts, &texts, &vec![3, 2]), "| ab  | c  |");
}

#[test]
fn line_keeps_text_wider_than_column() {
    let texts = strings(&["abcd"]);
    assert_eq!(format_line(&texts, &texts, &vec![2]), "| abcd |");
}

#[test]
fn aligned_lines_have_equal_length() {
    let rows = [strings(&["jack", "35", "neat"]), strings(&["x", "y", "zzzzzz"])];
    let text = render_table(&["name", "age", "text"], &rows, None, None);
    let lens: Vec<usize> = text.lines().map(|l| l.chars().count()).collect();
    // 1 + (4 + 3) + (3 + 3) + (6 + 3)
    assert!(lens.iter().all(|&n| n == 23));
}

#[test]
fn decorated_table_keeps_widths() {
    let rows = [strings(&["x", "yy"])];
    let shown_rows = [strings(&["[x]", "yy"])];
    let shown_names = strings(&["*a*", "b"]);
    let text = render_table_with(&["a", "b"], &rows, &shown_names, &shown_rows);
    assert_eq!(
        text,
        "+---+----+\n| *a* | b  |\n+---+----+\n| [x] | yy |\n+---+----+\n"
    );
}

#[test]
fn shown_text_without_color_is_unchanged() {
    assert_eq!(shown_text("abc", None), "abc");
}

#[test]
fn shown_text_with_color_wraps_in_escapes() {
    colored::control::set_override(true);
    assert_eq!(shown_text("abc", Some("red")), "\u{1b}[31mabc\u{1b}[0m");
    assert_eq!(shown_text("abc", Some("not-a-color")), "\u{1b}[37mabc\u{1b}[0m");
}

#[test]
fn colored_header_keeps_alignment() {
    colored::control::set_override(true);
    let rows = [strings(&["xyz"])];
    let text = render_table(&["ab"], &rows, Some("red"), None);
    assert_eq!(
        text,
        "+-----+\n| \u{1b}[31mab\u{1b}[0m  |\n+-----+\n| xyz |\n+-----+\n"
    );
}
