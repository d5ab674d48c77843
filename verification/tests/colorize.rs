use shimmy::colorize::{can_colorize, colorize_json_string, escape_html, ColorizedLine};

fn lines(json: &str) -> Vec<(usize, String)> {
    colorize_json_string(json)
        .into_iter()
        .map(|ColorizedLine { indent, html }| (indent, html))
        .collect()
}

#[test]
fn escape_html_replaces_the_three_specials() {
    assert_eq!(escape_html("a<b>&c"), "a&lt;b&gt;&amp;c");
    assert_eq!(escape_html("plain"), "plain");
    assert_eq!(escape_html(""), "");
    assert_eq!(escape_html("&amp;"), "&amp;amp;");
}

#[test]
fn colorizes_a_pretty_printed_object() {
    let json = "{\n  \"a\": 1,\n  \"b\": \"x<y\",\n  \"c\": null,\n  \"d\": [true, false],\n  \"e\": -2.5e3\n}";
    let got = lines(json);
    let expected: Vec<(usize, String)> = vec![
        (0, "{".to_string()),
        (2, "<span class=\"text-blue-300\">\"a\"</span>: <span class=\"text-purple-400\">1</span>,".to_string()),
        (2, "<span class=\"text-blue-300\">\"b\"</span>: <span class=\"text-green-400\">\"x&lt;y\"</span>,".to_string()),
        (2, "<span class=\"text-blue-300\">\"c\"</span>: <span class=\"text-orange-400\">null</span>,".to_string()),
        (2, "<span class=\"text-blue-300\">\"d\"</span>: [<span class=\"text-yellow-400\">true</span>, <span class=\"text-yellow-400\">false</span>],".to_string()),
        (2, "<span class=\"text-blue-300\">\"e\"</span>: <span class=\"text-purple-400\">-2.5e3</span>".to_string()),
        (0, "}".to_string()),
    ];
    assert_eq!(got, expected);
}

#[test]
fn key_detection_skips_spaces_before_the_colon() {
    assert_eq!(
        lines("\"k\"   : \"v\""),
        vec![(0, "<span class=\"text-blue-300\">\"k\"</span>   : <span class=\"text-green-400\">\"v\"</span>".to_string())]
    );
}

#[test]
fn escaped_quotes_stay_inside_the_string() {
    assert_eq!(
        lines("\"a\\\"b\""),
        vec![(0, "<span class=\"text-green-400\">\"a\\\"b\"</span>".to_string())]
    );
}

#[test]
fn unterminated_string_runs_to_the_end() {
    assert_eq!(
        lines("\"abc"),
        vec![(0, "<span class=\"text-green-400\">\"abc</span>".to_string())]
    );
}

#[test]
fn words_that_are_not_literals_are_copied() {
    assert_eq!(lines("nul tru fals"), vec![(0, "nul tru fals".to_string())]);
}

#[test]
fn non_ascii_outside_strings_is_copied_byte_by_byte() {
    // 'é' is C3 A9 in UTF-8; each byte is written as the character with that code.
    assert_eq!(lines("é"), vec![(0, "\u{c3}\u{a9}".to_string())]);
    // Inside a string literal the text is kept as it is.
    assert_eq!(
        lines("\"é\""),
        vec![(0, "<span class=\"text-green-400\">\"é\"</span>".to_string())]
    );
}

#[test]
fn leading_whitespace_is_trimmed_but_only_spaces_count_as_indent() {
    assert_eq!(lines("\t  1"), vec![(0, "<span class=\"text-purple-400\">1</span>".to_string())]);
    assert_eq!(lines("    x"), vec![(4, "x".to_string())]);
}

#[test]
fn empty_input_gives_one_empty_line() {
    assert_eq!(lines(""), vec![(0, String::new())]);
    assert_eq!(lines("\n"), vec![(0, String::new()), (0, String::new())]);
}

#[test]
fn one_output_line_per_input_line() {
    let json = "[\n  1,\n  \"two\\nlines\",\n\n  3\n]";
    let out = colorize_json_string(json);
    assert_eq!(out.len(), json.split('\n').count());
    let indents: Vec<usize> = out.iter().map(|l| l.indent).collect();
    assert_eq!(indents, vec![0, 2, 2, 0, 2, 0]);
}

#[test]
fn escaped_output_has_no_raw_angle_brackets_from_input() {
    let out = escape_html("<script>alert('x')</script>");
    assert!(!out.contains('<') && !out.contains('>'));
}

#[test]
fn can_colorize_refuses_an_open_string_ending_in_a_backslash() {
    assert!(can_colorize("{}"));
    assert!(can_colorize("\"abc"));
    assert!(can_colorize("\"a\\\"b\""));
    assert!(!can_colorize("\"abc\\"));
}
