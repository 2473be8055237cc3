use located::Position;

fn render(pos: &Position, text: &str) -> String {
    let mut out = String::new();
    assert!(pos.display(&mut out, text).is_ok());
    out
}

#[test]
fn test() {
    // `ln` is inclusive at both ends here: 0..1 shows lines 0 and 1.
    let text = "hello man\n  i like pizza";
    let mut display = String::new();
    Position::new(0..1, 1..5)
        .display(&mut display, text)
        .unwrap();
    println!("{display}");
    let expected = [
        "   1| hello man\n",
        "       ~~~~~~~~\n",
        "   2|   i like pizza\n",
        "      ~~~~~         \n",
    ]
    .concat();
    assert_eq!(display, expected);
}

#[test]
fn single_line_marks_columns() {
    let text = "hello man\n  i like pizza";
    let out = render(&Position::new(1..1, 2..6), text);
    assert_eq!(out, "   2|   i like pizza\n        ~~~~        \n");
}

#[test]
fn single_line_empty_columns() {
    let out = render(&Position::new(0..0, 3..3), "abc");
    assert_eq!(out, "   1| abc\n         \n");
}

#[test]
fn out_of_range_gives_placeholder() {
    let text = "hello man\n  i like pizza";
    let out = render(&Position::new(5..5, 0..1), text);
    assert_eq!(out, "... code snippet unavailable ...\n");
}

#[test]
fn end_line_past_text_gives_placeholder() {
    let out = render(&Position::new(0..2, 0..1), "a\nb");
    assert_eq!(out, "... code snippet unavailable ...\n");
}

#[test]
fn reversed_lines_give_placeholder() {
    let out = render(&Position::new(2..1, 0..1), "a\nb");
    assert_eq!(out, "... code snippet unavailable ...\n");
}

#[test]
fn empty_text_gives_placeholder() {
    let out = render(&Position::new(0..0, 0..0), "");
    assert_eq!(out, "... code snippet unavailable ...\n");
}

#[test]
fn multi_line_edges_and_interior() {
    let text = "abc\ndefg\nhi";
    let out = render(&Position::new(0..2, 1..1), text);
    let expected = [
        "   1| abc\n",
        "       ~~\n",
        "   2| defg\n",
        "      ~~~~\n",
        "   3| hi\n",
        "      ~ \n",
    ]
    .concat();
    assert_eq!(out, expected);
}

#[test]
fn multi_line_numbers_count_from_span_start() {
    // Known behaviour: a span over several lines numbers them from 1,
    // not by their line in the file.
    let text = "a\nb\nc\nd";
    let out = render(&Position::new(2..3, 0..1), text);
    assert_eq!(out, "   1| c\n      ~\n   2| d\n      ~\n");
}

#[test]
fn interior_line_underlined_per_utf8_byte() {
    let text = "ab\n\u{e9}x\ncd";
    let out = render(&Position::new(0..2, 0..0), text);
    let expected = [
        "   1| ab\n",
        "      ~~\n",
        "   2| \u{e9}x\n",
        "      ~~~\n",
        "   3| cd\n",
        "        \n",
    ]
    .concat();
    assert_eq!(out, expected);
}

#[test]
fn columns_count_characters() {
    let out = render(&Position::new(0..0, 2..3), "h\u{e9}llo");
    assert_eq!(out, "   1| h\u{e9}llo\n        ~  \n");
}

#[test]
fn crlf_terminators_are_dropped() {
    let out = render(&Position::new(1..1, 0..2), "ab\r\ncd\r\n");
    assert_eq!(out, "   2| cd\n      ~~\n");
}

#[test]
fn trailing_newline_adds_no_line() {
    let out = render(&Position::new(1..1, 0..1), "a\n");
    assert_eq!(out, "... code snippet unavailable ...\n");
}

#[test]
fn empty_line_between_newlines() {
    let out = render(&Position::new(1..1, 0..1), "a\n\nb");
    assert_eq!(out, "   2| \n      \n");
}

#[test]
fn wide_line_number_is_not_cut() {
    let text = "x\n".repeat(10000);
    let out = render(&Position::new(9999..9999, 0..1), &text);
    assert_eq!(out, "10000| x\n      ~\n");
}

#[test]
fn output_is_appended() {
    let mut out = String::from("error: bad\n");
    Position::new(0..0, 0..1).display(&mut out, "z").unwrap();
    assert_eq!(out, "error: bad\n   1| z\n      ~\n");
}
