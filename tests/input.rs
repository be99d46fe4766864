use tabbs::{parse_args, parse_rows, render_table};

fn args(words: &[&str]) -> Vec<String> {
    words.iter().map(|s| s.to_string()).collect()
}

#[test]
fn missing_column_flag_is_refused() {
    assert!(parse_args(&args(&["tabb"])).is_none());
    assert!(parse_args(&args(&["tabb", "name,age"])).is_none());
    assert!(parse_args(&args(&["tabb", "--header-color", "red", "-c", "a"])).is_none());
    assert!(parse_args(&args(&["tabb", "-c"])).is_none());
}

#[test]
fn column_flag_gives_names() {
    let opts = parse_args(&args(&["tabb", "-c", "name,age,text"])).unwrap();
    assert_eq!(opts.columns, vec!["name", "age", "text"]);
    assert_eq!(opts.header_color, None);
    assert_eq!(opts.cell_color, None);
}

#[test]
fn color_flags_are_read() {
    let opts = parse_args(&args(&[
        "tabb",
        "-c",
        "a,,b",
        "--cell-color",
        "green",
        "--header-color",
        "red",
    ]))
    .unwrap();
    assert_eq!(opts.columns, vec!["a", "", "b"]);
    assert_eq!(opts.header_color, Some("red".to_string()));
    assert_eq!(opts.cell_color, Some("green".to_string()));
}

#[test]
fn color_flag_without_value_is_ignored() {
    let opts = parse_args(&args(&["tabb", "-c", "a", "--header-color"])).unwrap();
    assert_eq!(opts.header_color, None);
}

#[test]
fn records_split_on_white_space_and_commas() {
    let rows = parse_rows("jack,35,neat\n  jane,50,cool\terin,20,nice\n");
    assert_eq!(
        rows,
        vec![
            vec!["jack", "35", "neat"],
            vec!["jane", "50", "cool"],
            vec!["erin", "20", "nice"],
        ]
    );
}

#[test]
fn empty_fields_are_kept() {
    assert_eq!(parse_rows(" a,,b, x "), vec![vec!["a", "", "b", ""], vec!["x"]]);
}

#[test]
fn blank_input_has_no_rows() {
    assert!(parse_rows("").is_empty());
    assert!(parse_rows(" \n\t\u{3000}").is_empty());
}

#[test]
fn parsed_input_renders_as_table() {
    let opts = parse_args(&args(&["tabb", "-c", "name,age,text"])).unwrap();
    let rows = parse_rows("jack,35,neat\njane,50,cool\nerin,20,nice\n");
    let names: Vec<&str> = opts.columns.iter().map(|s| s.as_str()).collect();
    let text = render_table(&names, &rows, None, None);
    assert_eq!(
        text,
        "+------+-----+------+\n| name | age | text |\n+------+-----+------+\n| jack | 35  | neat |\n| jane | 50  | cool |\n| erin | 20  | nice |\n+------+-----+------+\n"
    );
}
