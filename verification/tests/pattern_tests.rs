use github_dashboard::clock::Moment;
use github_dashboard::graph::{cut_line, graph_segments, Segment};
use github_dashboard::labels::Tone;
use github_dashboard::model::DashboardState;
use github_dashboard::patterns::{
    cut_text, extract_repo_name, find_commit, first_found, selected_commit_sha,
};

fn at(millis: i64) -> Moment {
    Moment { millis, offset: 0 }
}

fn three(a: &str, b: &str, c: &str) -> Option<(String, String, String)> {
    Some((a.to_string(), b.to_string(), c.to_string()))
}

fn piece(text: &str, tone: Tone) -> Segment {
    Segment {
        text: text.to_string(),
        tone,
    }
}

#[test]
fn the_commit_of_a_graph_line_is_found() {
    assert_eq!(
        find_commit("* 1a2b3c4 (HEAD -> main) fix deadbeef"),
        three("* ", "1a2b3c4", " (HEAD -> main) fix deadbeef")
    );
    assert_eq!(find_commit("| * abcdef0"), three("| * ", "abcdef0", ""));
    let full = "0123456789abcdef0123456789abcdef01234567";
    assert_eq!(find_commit(full), three("", full, ""));
}

#[test]
fn the_leftmost_commit_name_is_found() {
    let line = "| * abc123 ABCDEF12 1a2b3c4 (HEAD -> main) fix 89abcdef";
    assert_eq!(
        find_commit(line),
        three("| * abc123 ABCDEF12 ", "1a2b3c4", " (HEAD -> main) fix 89abcdef")
    );
    let mut state = DashboardState::new(at(0));
    state.git_graph = vec!["* 7654321 other".to_string(), line.to_string()];
    state.selected_commit_index = 1;
    assert_eq!(selected_commit_sha(&state), Some("1a2b3c4".to_string()));
}

#[test]
fn what_is_no_commit_name_is_not_found() {
    assert_eq!(find_commit("|/"), None);
    assert_eq!(find_commit(""), None);
    assert_eq!(find_commit("* 1a2b3c"), None);
    assert_eq!(find_commit("* 1A2B3C4"), None);
    assert_eq!(find_commit("x1a2b3c4"), None);
    assert_eq!(find_commit("1a2b3c4_"), None);
    assert_eq!(find_commit("0123456789abcdef0123456789abcdef012345678"), None);
    assert_eq!(find_commit("é1a2b3c4"), None);
    assert_eq!(find_commit("→1a2b3c4←"), three("→", "1a2b3c4", "←"));
}

#[test]
fn a_text_is_cut_at_bytes() {
    assert_eq!(cut_text("aéb", 1, 3), three("a", "é", "b"));
    assert_eq!(cut_text("aéb", 0, 4), three("", "aéb", ""));
    assert_eq!(cut_text("aéb", 4, 4), three("aéb", "", ""));
    assert_eq!(cut_text("aéb", 2, 3), None);
    assert_eq!(cut_text("aéb", 1, 2), None);
    assert_eq!(cut_text("aéb", 3, 1), None);
    assert_eq!(cut_text("aéb", 1, 5), None);
}

#[test]
fn the_selected_line_names_the_selected_commit() {
    let mut state = DashboardState::new(at(0));
    assert_eq!(selected_commit_sha(&state), None);
    state.git_graph = vec!["* 1111111 one".to_string(), "|\\".to_string(), "* 2222222 two".to_string()];
    assert_eq!(selected_commit_sha(&state), Some("1111111".to_string()));
    state.selected_commit_index = 1;
    assert_eq!(selected_commit_sha(&state), None);
    state.selected_commit_index = 2;
    assert_eq!(selected_commit_sha(&state), Some("2222222".to_string()));
    state.selected_commit_index = 3;
    assert_eq!(selected_commit_sha(&state), None);
}

#[test]
fn owner_and_name_are_read_from_addresses() {
    for address in [
        "https://github.com/owner/name.git",
        "https://github.com/owner/name",
        "git@github.com:owner/name.git",
        "git@github.com:owner/name",
        "ssh://git@github.com/owner/name.git\n",
        "  https://github.com/owner/name.git  ",
    ] {
        assert_eq!(extract_repo_name(address), Some("owner/name".to_string()));
    }
    assert_eq!(extract_repo_name("git@github.com:o/a.b.git"), Some("o/a.b".to_string()));
    assert_eq!(extract_repo_name("git@github.com:o/.git"), Some("o/.git".to_string()));
}

#[test]
fn other_addresses_name_no_repository() {
    for address in [
        "",
        "https://gitlab.com/owner/name.git",
        "https://github.com/name.git",
        "https://github.com/a/b/c.git",
        "https://github.com/owner/name/",
        "https://githubXcom/owner/name",
        "https://github.com//name",
    ] {
        assert_eq!(extract_repo_name(address), None, "{address}");
    }
}

#[test]
fn the_first_search_that_finds_something_counts() {
    let a = || Some(Some(Some("a".to_string())));
    let b = || Some(Some(Some("b".to_string())));
    assert_eq!(first_found(a(), b()), Some("a".to_string()));
    assert_eq!(first_found(Some(None), b()), Some("b".to_string()));
    assert_eq!(first_found(Some(None), Some(None)), None);
    assert_eq!(first_found(Some(None), None), None);
    assert_eq!(first_found(None, b()), None);
    assert_eq!(first_found(Some(Some(None)), b()), None);
}

#[test]
fn a_graph_line_is_cut_into_pieces() {
    assert_eq!(
        graph_segments("* 1a2b3c4 (HEAD -> main) fix (x)", false),
        vec![
            piece("* ", Tone::Graph),
            piece("1a2b3c4", Tone::Warning),
            piece(" ", Tone::Graph),
            piece("(HEAD -> main)", Tone::Info),
            piece(" fix (x)", Tone::Plain),
        ]
    );
    assert_eq!(
        graph_segments("* 1a2b3c4 (tag: v1) fix", false)[3],
        piece("(tag: v1)", Tone::Reference)
    );
    assert_eq!(
        graph_segments("1a2b3c4 (open", false),
        vec![
            piece("", Tone::Graph),
            piece("1a2b3c4", Tone::Warning),
            piece(" ", Tone::Graph),
            piece("(open", Tone::Plain),
        ]
    );
    assert_eq!(graph_segments("|/", false), vec![piece("|/", Tone::Plain)]);
    assert!(graph_segments("", false).is_empty());
    assert_eq!(
        graph_segments("* 1a2b3c4", false),
        vec![piece("* ", Tone::Graph), piece("1a2b3c4", Tone::Warning)]
    );
}

#[test]
fn a_selected_line_has_one_tone() {
    for part in graph_segments("* 1a2b3c4 (HEAD -> main) fix", true) {
        assert_eq!(part.tone, Tone::Selected);
    }
}

#[test]
fn the_pieces_are_the_line() {
    for line in ["* 1a2b3c4 (a) b", "(", ")(", "|\\ ", "é 1a2b3c4 ü (x", ""] {
        for selected in [true, false] {
            let text: String = graph_segments(line, selected).into_iter().map(|s| s.text).collect();
            assert_eq!(text, line);
        }
    }
}

#[test]
fn a_line_is_cut_where_the_commit_was_found() {
    assert_eq!(
        cut_line("a b c", three("a ", "b", " c"), false),
        vec![
            piece("a ", Tone::Graph),
            piece("b", Tone::Warning),
            piece(" c", Tone::Plain),
        ]
    );
    assert_eq!(cut_line("a b c", None, false), vec![piece("a b c", Tone::Plain)]);
}
