use wordcount::lines::count_lines;

#[test]
fn empty_text_has_no_line() {
    assert_eq!(count_lines(""), 0);
}

#[test]
fn every_newline_ends_a_line() {
    assert_eq!(count_lines("\n"), 1);
    assert_eq!(count_lines("\n\n"), 2);
    assert_eq!(count_lines("a\n"), 1);
    assert_eq!(count_lines("a\nb\n"), 2);
    assert_eq!(count_lines("a\n\nb\n"), 3);
}

#[test]
fn unterminated_last_line_counts() {
    assert_eq!(count_lines("a"), 1);
    assert_eq!(count_lines("a\nb"), 2);
    assert_eq!(count_lines("hello world\nfoo"), 2);
    assert_eq!(count_lines("\nx"), 2);
}

#[test]
fn final_newline_adds_no_empty_line() {
    assert_eq!(count_lines("hello world\nfoo\n"), 2);
    assert_eq!(count_lines("hello world\nfoo"), count_lines("hello world\nfoo\n"));
}

#[test]
fn carriage_return_ends_no_line() {
    assert_eq!(count_lines("a\rb"), 1);
    assert_eq!(count_lines("\r"), 1);
    assert_eq!(count_lines("a\r\nb\r\n"), 2);
}

#[test]
fn other_separators_end_no_line() {
    assert_eq!(count_lines("a\u{2028}b\u{2029}c\u{85}d\u{b}e\u{c}f"), 1);
}

#[test]
fn line_count_agrees_with_std() {
    let samples = vec![
        "",
        "\n",
        "\n\n\n",
        "one",
        "one\n",
        "one\ntwo",
        "one\r\ntwo\r\n",
        "  leading\n\n\ntrailing  \n",
        "h\u{e9}llo w\u{f6}rld\n\u{4e16}\u{754c}\n",
        "\r\n\r\n",
        "tab\tseparated\tline\nnext",
    ];
    for text in samples {
        let expected: usize = text.lines().count();
        assert_eq!(count_lines(text) as usize, expected);
    }
}

#[test]
fn many_lines() {
    let mut text = String::new();
    let mut i: u32 = 0;
    while i < 100_000 {
        text.push_str("x y\n");
        i += 1;
    }
    assert_eq!(count_lines(&text), 100_000);
    text.push('z');
    assert_eq!(count_lines(&text), 100_001);
}
