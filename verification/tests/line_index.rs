use squawk::line_index::{find_newline, LineEnding, UniversalNewlines};

#[test]
fn finding_the_newline() {
    assert_eq!(find_newline("a\nb"), Some((1, LineEnding::Lf)));
    assert_eq!(find_newline("a\r\nb"), Some((1, LineEnding::CrLf)));
    assert_eq!(find_newline("a\rb"), Some((1, LineEnding::Cr)));
    // a lone `\r` at the very end still reads as CR
    assert_eq!(find_newline("a\r"), Some((1, LineEnding::Cr)));
    // we report the first line break, so mixed endings pick the first one
    assert_eq!(find_newline("a\rb\nc"), Some((1, LineEnding::Cr)));
    // no line breaks at all
    assert_eq!(find_newline("a"), None);
    assert_eq!(find_newline(""), None);
}

#[test]
fn platform_default() {
    assert_eq!(LineEnding::default(), LineEnding::Lf);
    assert_eq!(LineEnding::default().as_str(), "\n");
}

#[test]
fn universal_newlines_matches_str_lines() {
    let lines = |text: &'static str| text.universal_newlines().collect_lines();

    assert_eq!(lines(""), Vec::<&str>::new());
    assert_eq!(lines("a"), vec!["a"]);
    assert_eq!(lines("a\nb"), vec!["a", "b"]);
    assert_eq!(lines("a\r\nb"), vec!["a", "b"]);

    // `str::lines` doesn't support `\r`
    assert_eq!(lines("a\rb"), vec!["a", "b"]);
    assert_eq!(lines("a\rb\r\nc\nd"), vec!["a", "b", "c", "d"]);

    // trailing new lines
    assert_eq!(lines("a\n"), vec!["a"]);
    assert_eq!(lines("a\r\n"), vec!["a"]);
    assert_eq!(lines("a\r"), vec!["a"]);

    assert_eq!(lines("a\n\nb"), vec!["a", "", "b"]);
    assert_eq!(lines("\n"), vec![""]);
}

#[test]
fn newline_type_default() {
    let detect = |text| {
        find_newline(text)
            .map(|(_, ending)| ending)
            .unwrap_or_default()
    };

    assert_eq!(detect("select 1;"), LineEnding::default());
    assert_eq!(detect(""), LineEnding::default());

    assert_eq!(detect("select 1;\n"), LineEnding::Lf);
    assert_eq!(detect("select 1;\r\n"), LineEnding::CrLf);
    assert_eq!(detect("select 1;\r"), LineEnding::Cr);
}

#[test]
fn line_ending_texts() {
    assert_eq!(LineEnding::Cr.as_str(), "\r");
    assert_eq!(LineEnding::CrLf.as_str(), "\r\n");
    assert_eq!(LineEnding::Lf.as_str(), "\n");
}

#[test]
fn next_line_then_exhausted() {
    let mut it = "ab\r\ncd".universal_newlines();
    assert_eq!(it.next(), Some("ab"));
    assert_eq!(it.next(), Some("cd"));
    assert_eq!(it.next(), None);
    assert_eq!(it.next(), None);
}

#[test]
fn find_newline_after_non_ascii() {
    assert_eq!(find_newline("ẞ漢\nx"), Some((6, LineEnding::Lf)));
    let lines = "ẞ\r漢".universal_newlines().collect_lines();
    assert_eq!(lines, vec!["ẞ", "漢"]);
}
