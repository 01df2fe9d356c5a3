use mermaid_quicklook::diagram::{error_summary, strip_empty_comments};
use mermaid_quicklook::numeral::{to_decimal, to_hex16, to_octal4};
use mermaid_quicklook::text::{
    chars_of, ends_with, is_blank, is_white, join_lines, same_text, split_lines, starts_with,
    string_of, trim,
};

/// Every string of up to `max` characters out of `alphabet`.
fn strings(alphabet: &[char], max: usize) -> Vec<String> {
    let mut all: Vec<String> = vec![String::new()];
    let mut last: Vec<String> = vec![String::new()];
    for _ in 0..max {
        let mut longer: Vec<String> = Vec::new();
        for s in &last {
            for c in alphabet {
                let mut t = s.clone();
                t.push(*c);
                longer.push(t);
            }
        }
        all.extend(longer.iter().cloned());
        last = longer;
    }
    all
}

fn lines_of(s: &str) -> Vec<String> {
    split_lines(&chars_of(s)).iter().map(string_of).collect()
}

#[test]
fn drops_bare_comment_markers_but_keeps_real_comments() {
    let source = "%% header\n%%\n%% more\n\nflowchart TB\n  A-->B\n";
    assert_eq!(
        strip_empty_comments(source),
        "%% header\n%% more\n\nflowchart TB\n  A-->B"
    );
}

#[test]
fn leaves_diagram_body_alone() {
    let source = "flowchart TB\n  %% a note\n  A-->B";
    assert_eq!(strip_empty_comments(source), source);
}

#[test]
fn white_space_is_that_of_unicode() {
    for n in 0..=0x10ffffu32 {
        if let Some(c) = char::from_u32(n) {
            assert_eq!(is_white(c), c.is_whitespace(), "{:x}", n);
        }
    }
}

#[test]
fn lines_are_those_of_the_standard_library() {
    for s in strings(&['a', '\r', '\n', '\u{e9}'], 7) {
        let expected: Vec<String> = s.lines().map(|l| l.to_string()).collect();
        assert_eq!(lines_of(&s), expected, "{:?}", s);
    }
}

#[test]
fn trimming_is_that_of_the_standard_library() {
    for s in strings(&['a', ' ', '\u{3000}', '\r', '\u{1f600}'], 6) {
        let chars = chars_of(&s);
        assert_eq!(string_of(&trim(&chars)), s.trim(), "{:?}", s);
        assert_eq!(is_blank(&chars), s.trim().is_empty(), "{:?}", s);
    }
}

#[test]
fn prefixes_and_suffixes_are_found() {
    for s in strings(&['a', 'b'], 5) {
        let chars = chars_of(&s);
        for t in strings(&['a', 'b'], 3) {
            assert_eq!(starts_with(&chars, &t), s.starts_with(t.as_str()));
            assert_eq!(ends_with(&chars, &t), s.ends_with(t.as_str()));
            assert_eq!(same_text(&s, &t), s == t);
        }
    }
}

#[test]
fn joining_puts_a_line_feed_between() {
    let rows = vec![chars_of("a"), chars_of(""), chars_of("b")];
    assert_eq!(join_lines(&rows), "a\n\nb");
    assert_eq!(join_lines(&Vec::new()), "");
    assert_eq!(join_lines(&vec![chars_of("a")]), "a");
}

#[test]
fn joined_lines_split_again() {
    let text = "a\n\n  b\nc";
    assert_eq!(join_lines(&split_lines(&chars_of(text))), text);
    assert_eq!(lines_of(text), vec!["a", "", "  b", "c"]);
}

#[test]
fn markers_are_found_within_white_space() {
    assert_eq!(strip_empty_comments("a\n  %%\t\nb"), "a\nb");
    assert_eq!(strip_empty_comments("a\r\n%%\r\nb\r\n"), "a\nb");
    assert_eq!(strip_empty_comments("%%"), "");
    assert_eq!(strip_empty_comments("%%\n%%"), "");
    assert_eq!(strip_empty_comments("%% %%\n%%%"), "%% %%\n%%%");
    assert_eq!(strip_empty_comments(""), "");
}

#[test]
fn no_marker_is_left_after_stripping() {
    for s in strings(&['%', '\n', '\r', 'a'], 7) {
        let stripped = strip_empty_comments(&s);
        assert!(stripped.lines().all(|l| l.trim() != "%%"), "{:?}", s);
        let expected: Vec<&str> = s.lines().filter(|l| l.trim() != "%%").collect();
        assert_eq!(stripped, expected.join("\n"));
    }
}

#[test]
fn stripping_twice_is_stripping_once_without_blank_end() {
    let once = strip_empty_comments("%% a\n%%\nb\n%%\n");
    assert_eq!(once, "%% a\nb");
    assert_eq!(strip_empty_comments(&once), once);
    // A line feed at the end of what is left goes the second time.
    assert_eq!(strip_empty_comments("a\n\n"), "a\n");
    assert_eq!(strip_empty_comments("a\n"), "a");
}

#[test]
fn summary_keeps_message_and_cuts_stack() {
    let stderr = "Generating single mermaid chart\n\nError: Parse error on line 2:\n\
                  ...TB  A--&gt;\n  ----------^\nExpecting 'AMP', got 'EOF'\n\
                  at Parser.parseError (file.js:1:2)\n    at async run\nmore";
    assert_eq!(
        error_summary(stderr),
        "Error: Parse error on line 2:\n...TB  A--&gt;\n----------^\nExpecting 'AMP', got 'EOF'"
    );
}

#[test]
fn summary_has_no_more_than_six_lines() {
    assert_eq!(error_summary("1\n2\n3\n4\n5\n6\n7\n8"), "1\n2\n3\n4\n5\n6");
    assert_eq!(error_summary("1\nat 2\n3"), "1");
    assert_eq!(error_summary("1\nat\n3"), "1\nat\n3");
}

#[test]
fn summary_without_a_useful_line_says_so() {
    assert_eq!(error_summary(""), "mmdc failed");
    assert_eq!(error_summary("  \n\n"), "mmdc failed");
    assert_eq!(error_summary("at x\nError"), "mmdc failed");
    assert_eq!(error_summary("Generating\nGenerating more\n"), "mmdc failed");
}

#[test]
fn numerals_are_those_of_the_standard_library() {
    for n in [0u64, 1, 7, 8, 9, 10, 15, 16, 448, 511, 999, 1000, 4095, 4096, 65535, 123456789] {
        assert_eq!(to_decimal(n), format!("{}", n));
        assert_eq!(to_octal4(n), format!("{:04o}", n));
        assert_eq!(to_hex16(n), format!("{:016x}", n));
    }
    assert_eq!(to_decimal(u64::MAX), "18446744073709551615");
    assert_eq!(to_hex16(u64::MAX), "ffffffffffffffff");
    assert_eq!(to_hex16(0xdead_beef), "00000000deadbeef");
    assert_eq!(to_octal4(0o755), "0755");
}
