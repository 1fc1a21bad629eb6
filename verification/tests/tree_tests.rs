use github_dashboard::model::FileChange;
use github_dashboard::working_tree::{
    load_working_tree_changes, parse_numstat_entries, parse_status_entries,
    try_load_working_tree_changes, try_parse_numstat_entries, try_parse_status_entries,
};

fn change(path: &str, status: &str, additions: u32, deletions: u32) -> FileChange {
    FileChange {
        path: path.to_string(),
        status: status.to_string(),
        additions,
        deletions,
    }
}

#[test]
fn status_lines_give_files() {
    let map = parse_status_entries(" M src/main.rs\nA  new.txt\n?? notes\nMM both\n");
    let (paths, files) = map.into_entries();
    assert_eq!(paths, vec!["both", "new.txt", "notes", "src/main.rs"]);
    assert_eq!(
        files,
        vec![
            change("both", "MM", 0, 0),
            change("new.txt", "A", 0, 0),
            change("notes", "??", 0, 0),
            change("src/main.rs", "M", 0, 0),
        ]
    );
}

#[test]
fn a_renamed_file_is_known_by_its_new_path() {
    let map = parse_status_entries("R  old.rs -> new.rs\n");
    assert_eq!(map.get("new.rs"), Some(&change("new.rs", "R", 0, 0)));
    assert_eq!(map.get("old.rs"), None);
}

#[test]
fn the_last_arrow_of_a_rename_counts() {
    let map = parse_status_entries("R  a -> b -> c\nR  x -> -> y\n");
    let (paths, _) = map.into_entries();
    assert_eq!(paths, vec!["-> y", "c"]);
}

#[test]
fn it_makes_no_difference_which_side_counts_come_from() {
    let (one, other) = ("1\t2\tf\n3\t4\tg\n", "5\t6\tf\n");
    assert_eq!(
        load_working_tree_changes(" M f\n", one, other),
        load_working_tree_changes(" M f\n", other, one)
    );
}

#[test]
fn short_lines_are_no_files() {
    let (paths, _) = parse_status_entries("M a\n M \nabc\n\n").into_entries();
    assert!(paths.is_empty());
    let (paths, _) = parse_status_entries("M  a\n").into_entries();
    assert_eq!(paths, vec!["a"]);
}

#[test]
fn a_blank_status_is_a_modification() {
    let map = parse_status_entries("   file\n");
    assert_eq!(map.get("file"), Some(&change("file", "M", 0, 0)));
}

#[test]
fn the_last_line_of_a_path_counts() {
    let map = parse_status_entries("A  x\nD  x\n");
    assert_eq!(map.get("x"), Some(&change("x", "D", 0, 0)));
}

#[test]
fn a_status_that_cannot_be_cut_is_told() {
    assert!(try_parse_status_entries("é x\n").is_some());
    assert!(try_parse_status_entries("aéb\n").is_none());
    assert!(try_parse_status_entries("abé\n").is_none());
    assert!(try_parse_status_entries("?? é\n").is_some());
}

#[test]
fn counts_add_up_by_path() {
    let map = parse_numstat_entries("1\t2\ta\n3\t4\tb\n10\t20\ta\n");
    assert_eq!(map.get("a"), Some(&(11, 22)));
    assert_eq!(map.get("b"), Some(&(3, 4)));
    assert_eq!(map.get("c"), None);
}

#[test]
fn binary_files_and_odd_lines_count_nothing() {
    let map = parse_numstat_entries("-\t-\timage.png\nnot a count\n1\t2\n5\tx\tmid\tlast\n");
    assert_eq!(map.get("image.png"), Some(&(0, 0)));
    assert_eq!(map.get("last"), Some(&(5, 0)));
    let (paths, _) = map.into_entries();
    assert_eq!(paths, vec!["image.png", "last"]);
}

#[test]
fn counts_that_do_not_fit_are_told() {
    assert!(try_parse_numstat_entries("4294967295\t0\ta\n1\t0\ta\n").is_none());
    assert!(try_parse_numstat_entries("4294967295\t0\ta\n0\t1\ta\n").is_some());
}

#[test]
fn the_tree_puts_status_and_counts_together() {
    let files = load_working_tree_changes(
        "MM b\n M a\n?? n\n",
        "1\t2\tb\n5\t0\ta\n",
        "3\t4\tb\n7\t8\tgone\n",
    );
    assert_eq!(
        files,
        vec![
            change("a", "M", 5, 0),
            change("b", "MM", 4, 6),
            change("gone", "??", 7, 8),
            change("n", "??", 0, 0),
        ]
    );
}

#[test]
fn the_tree_is_sorted_by_path() {
    let files = load_working_tree_changes("?? z\n?? a/b\n?? B\n?? a\n", "", "");
    let paths: Vec<String> = files.into_iter().map(|f| f.path).collect();
    assert_eq!(paths, vec!["B", "a", "a/b", "z"]);
}

#[test]
fn a_tree_that_cannot_be_read_is_told() {
    assert!(try_load_working_tree_changes("abé\n", "", "").is_none());
    assert!(try_load_working_tree_changes("", "4294967295\t0\ta\n", "1\t0\ta\n").is_none());
    assert!(try_load_working_tree_changes("", "1\t0\ta\n", "1\t0\ta\n").is_some());
    assert!(try_load_working_tree_changes("", "", "").unwrap().is_empty());
}
