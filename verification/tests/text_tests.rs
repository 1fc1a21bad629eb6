use github_dashboard::numbers::{count_in, decimal_of, number_in};
use github_dashboard::path_map::{comes_before, PathMap};
use github_dashboard::strings::{
    contains_text, flattened, has_prefix, is_blank, is_white_space, joined, line_range, lines_of,
    padded_left, repeat_char, same_text, split_at_char, tail_after_char, tail_after_text, trimmed,
};

fn samples() -> Vec<&'static str> {
    vec![
        "",
        " ",
        "\n",
        "\r\n",
        "a",
        "a\n",
        "a\nb",
        "a\r\nb\r\n",
        "a\rb",
        "a\r\r\n",
        "\n\n",
        "  a b  ",
        "\t\u{a0}x\u{3000}",
        "x\u{200b}",
        "R  old -> new",
        "a -> b -> c",
        " -> ",
        "é\u{1f600}ß",
        "1\t2\tpath",
        "\t\t",
        "refs/remotes/origin/main",
        "/",
        "@@ -1 +1 @@",
        "++",
        "+++ b/file",
    ]
}

#[test]
fn white_space_is_that_of_unicode() {
    for n in 0..=0x10ffffu32 {
        if let Some(c) = char::from_u32(n) {
            assert_eq!(is_white_space(c), c.is_whitespace(), "{n:x}");
        }
    }
}

#[test]
fn trimming_cuts_white_space_at_both_ends() {
    for s in samples() {
        assert_eq!(trimmed(s), s.trim());
        assert_eq!(is_blank(s), s.trim().is_empty());
        assert_eq!(trimmed(&trimmed(s)), trimmed(s));
    }
    assert_eq!(trimmed(" \u{2003}main\r\n"), "main");
}

#[test]
fn lines_end_at_line_feeds() {
    for s in samples() {
        let expected: Vec<String> = s.lines().map(str::to_string).collect();
        assert_eq!(lines_of(s), expected);
    }
    assert_eq!(lines_of("a\r\n\nb"), vec!["a", "", "b"]);
    assert_eq!(lines_of("a\nb\n"), lines_of("a\nb"));
}

#[test]
fn lines_joined_read_back() {
    let pieces = vec!["one".to_string(), String::new(), "three".to_string()];
    let text = joined(&pieces, "\n");
    assert_eq!(text, "one\n\nthree");
    assert_eq!(lines_of(&text), pieces);
    assert_eq!(joined(&Vec::new(), "\n"), "");
}

#[test]
fn a_range_of_lines_is_cut_out() {
    let pieces = lines_of("a\nb\nc\nd");
    assert_eq!(line_range(&pieces, 1, 3), vec!["b", "c"]);
    assert!(line_range(&pieces, 2, 2).is_empty());
}

#[test]
fn pieces_between_separators_join_back() {
    for s in samples() {
        for c in ['\t', '/', '\n', ' '] {
            let expected: Vec<String> = s.split(c).map(str::to_string).collect();
            assert_eq!(split_at_char(s, c), expected);
            assert_eq!(joined(&split_at_char(s, c), &c.to_string()), s);
            assert_eq!(tail_after_char(s, c), s.rsplit(c).next().unwrap());
        }
        assert_eq!(tail_after_text(s, " -> "), s.split(" -> ").last().unwrap());
    }
    assert_eq!(tail_after_text("a -> b -> c", " -> "), "c");
    assert_eq!(tail_after_text("a", " -> "), "a");
}

#[test]
fn prefixes_and_parts_are_found() {
    for s in samples() {
        for t in samples() {
            assert_eq!(has_prefix(s, t), s.starts_with(t));
            assert_eq!(contains_text(s, t), s.contains(t));
            assert_eq!(same_text(s, t), s == t);
        }
    }
}

#[test]
fn small_helpers_shape_text() {
    assert_eq!(flattened("a\nb\n\nc"), "a b  c");
    assert_eq!(repeat_char('█', 3), "███");
    assert_eq!(repeat_char('x', 0), "");
    assert_eq!(padded_left("M", 2), " M");
    assert_eq!(padded_left("", 2), "  ");
    assert_eq!(padded_left("MM", 2), "MM");
    assert_eq!(padded_left("ABC", 2), "ABC");
}

#[test]
fn numbers_are_written_and_read_in_decimal() {
    for n in [0u64, 7, 10, 99, 100, 4294967295, 4294967296, 18446744073709551615] {
        assert_eq!(decimal_of(n), n.to_string());
    }
    for s in [
        "", "0", "7", "007", "+5", "-5", "+", "++1", "4294967295", "4294967296", "99999999999", "1a",
        " 1", "1 ", "-", "٣", "+0",
    ] {
        assert_eq!(number_in(s), s.parse::<u32>().ok(), "{s:?}");
        assert_eq!(count_in(s), s.parse::<u32>().unwrap_or(0));
    }
    assert_eq!(number_in(&decimal_of(123)), Some(123));
}

#[test]
fn paths_are_ordered_as_strings_are() {
    let paths = ["", "a", "a/b", "a b", "B", "z", "é", "\u{ffff}", "\u{10000}", "ab", "a\u{0}"];
    for a in paths {
        for b in paths {
            assert_eq!(comes_before(a, b), a < b, "{a:?} {b:?}");
        }
    }
}

#[test]
fn a_path_map_lists_each_path_once_and_in_order() {
    let mut map: PathMap<u32> = PathMap::new();
    map.insert("b".to_string(), 1);
    map.insert("a".to_string(), 2);
    map.insert("c".to_string(), 3);
    map.insert("b".to_string(), 4);
    assert_eq!(map.get("b"), Some(&4));
    assert_eq!(map.get("d"), None);
    let (paths, values) = map.into_entries();
    assert_eq!(paths, vec!["a", "b", "c"]);
    assert_eq!(values, vec![2, 4, 3]);
}
