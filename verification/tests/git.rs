use daltui::git::{
    parse_branches, parse_diff, parse_side_by_side, parse_worktrees, try_parse_diff, SbsKind,
};

const DIFF: &str = "diff --git a/src/a.rs b/src/a.rs\nindex 111..222 100644\n--- a/src/a.rs\n+++ b/src/a.rs\n@@ -10,4 +20,4 @@ fn f()\n same\n-old one\n-old two\n+new one\n tail\ndiff --git a/b.txt b/b.txt\nnew file mode 100644\n@@ -0,0 +1 @@\n+hello\n";

#[test]
fn current_branch_is_marked() {
    let v = parse_branches("* main abc\n  dev def\n");
    assert_eq!(v.len(), 2);
    assert_eq!(v[0].name, "main");
    assert!(v[0].is_current);
    assert_eq!(v[1].name, "dev");
    assert!(!v[1].is_current);
}

#[test]
fn remote_and_foreign_branches_are_left_out() {
    let raw = "  dev 1\n  remotes/origin/dev 2\n\n+ linked 3\n* (HEAD detached at 1) 4\n";
    let v = parse_branches(raw);
    let names: Vec<&str> = v.iter().map(|b| b.name.as_str()).collect();
    assert_eq!(names, vec!["dev", "(HEAD"]);
    assert!(v[1].is_current);
}

#[test]
fn branch_names_hold_no_white_space() {
    for b in parse_branches("*   a b\n  \u{a0}c\u{2003}d\n") {
        assert!(!b.name.is_empty());
        assert!(!b.name.chars().any(|c| c.is_whitespace()));
    }
}

#[test]
fn worktrees_are_named_by_branch_state_or_directory() {
    let raw = "worktree /w/main\nHEAD 1\nbranch refs/heads/main\n\nworktree /w/loose\nHEAD 2\ndetached\n\nworktree /w/store.git\nbare\n\nworktree /w/plain\nHEAD 3\n\n\n\nHEAD 4\nbranch refs/heads/lost\n\nworktree /\nHEAD 5\n";
    let v = parse_worktrees(raw);
    let pairs: Vec<(&str, &str)> = v.iter().map(|w| (w.path.as_str(), w.name.as_str())).collect();
    assert_eq!(
        pairs,
        vec![
            ("/w/main", "main"),
            ("/w/loose", "(detached)"),
            ("/w/store.git", "(detached)"),
            ("/w/plain", "plain"),
            ("/", "?"),
        ]
    );
}

#[test]
fn worktree_branch_prefix_is_stripped_as_often_as_it_stands() {
    let v = parse_worktrees("worktree  /w/x \nbranch  refs/heads/refs/heads/topic \n");
    assert_eq!(v[0].path, "/w/x");
    assert_eq!(v[0].name, "topic");
}

#[test]
fn no_worktrees_in_blank_output() {
    assert!(parse_worktrees("").is_empty());
    assert!(parse_worktrees("\n\n  \n\n").is_empty());
}

#[test]
fn diff_is_cut_into_files() {
    let v = parse_diff(DIFF);
    assert_eq!(v.len(), 2);
    assert_eq!(v[0].filename, "src/a.rs");
    assert!(v[0].content.starts_with("diff --git a/src/a.rs b/src/a.rs\nindex "));
    assert!(v[0].content.ends_with("\n tail"));
    assert_eq!(v[1].filename, "b.txt");
    assert_eq!(v[1].sbs.len(), 4);
}

#[test]
fn text_before_the_first_file_is_dropped() {
    assert!(parse_diff("warning: something\n@@ -1 +1 @@\n-a\n").is_empty());
    let v = parse_diff("warning\ndiff --git a/x b/x\n");
    assert_eq!(v.len(), 1);
    assert_eq!(v[0].content, "diff --git a/x b/x");
}

#[test]
fn file_names_come_from_the_second_word() {
    assert_eq!(parse_diff("diff --git a/x b/b/y\n")[0].filename, "y");
    assert_eq!(parse_diff("diff --git only\n")[0].filename, "only");
    assert!(parse_diff("diff --git a/x b/\n").is_empty());
}

#[test]
fn sides_are_paired_and_numbered() {
    let v = parse_diff(DIFF);
    let rows = &v[0].sbs;
    let kinds: Vec<SbsKind> = rows.iter().map(|r| r.kind).collect();
    assert!(
        kinds
            == vec![
                SbsKind::Header,
                SbsKind::Header,
                SbsKind::Header,
                SbsKind::Header,
                SbsKind::Header,
                SbsKind::Context,
                SbsKind::Changed,
                SbsKind::Removed,
                SbsKind::Context,
            ]
    );
    let numbers: Vec<(Option<usize>, Option<usize>)> =
        rows.iter().skip(5).map(|r| (r.left_no, r.right_no)).collect();
    assert_eq!(
        numbers,
        vec![
            (Some(10), Some(20)),
            (Some(11), Some(21)),
            (Some(12), None),
            (Some(13), Some(22)),
        ]
    );
    assert_eq!(rows[6].left, "old one");
    assert_eq!(rows[6].right, "new one");
    assert_eq!(rows[7].left, "old two");
    assert_eq!(rows[7].right, "");
    assert_eq!(rows[8].left, "tail");
    assert_eq!(rows[8].right, "tail");
}

#[test]
fn numbers_start_at_one_without_a_hunk_header() {
    let rows = parse_side_by_side("-a\n+b\n+c\n\\ No newline\n");
    assert_eq!(rows.len(), 3);
    assert_eq!((rows[0].left_no, rows[0].right_no), (Some(1), Some(1)));
    assert!(rows[1].kind == SbsKind::Added);
    assert_eq!((rows[1].left_no, rows[1].right_no), (None, Some(2)));
    assert_eq!((rows[2].left_no, rows[2].right_no), (Some(2), Some(3)));
    assert_eq!(rows[2].left, "\\ No newline");
}

#[test]
fn odd_hunk_headers_keep_the_count() {
    let rows = parse_side_by_side(" a\n@@ nonsense\n b\n@@ -x,1 +2 @@\n c\n@@ -7 +9,2 @@\n d\n");
    let numbers: Vec<(Option<usize>, Option<usize>)> =
        rows.iter().map(|r| (r.left_no, r.right_no)).collect();
    assert_eq!(
        numbers,
        vec![
            (Some(1), Some(1)),
            (None, None),
            (Some(2), Some(2)),
            (None, None),
            (Some(3), Some(3)),
            (None, None),
            (Some(7), Some(9)),
        ]
    );
}

#[test]
fn columns_hold_both_files_in_order() {
    let rows = parse_side_by_side("@@ -1,3 +1,3 @@\n-one\n-two\n+uno\n same\n+dos\n");
    let left: Vec<(usize, &str)> =
        rows.iter().filter_map(|r| r.left_no.map(|n| (n, r.left.as_str()))).collect();
    let right: Vec<(usize, &str)> =
        rows.iter().filter_map(|r| r.right_no.map(|n| (n, r.right.as_str()))).collect();
    assert_eq!(left, vec![(1, "one"), (2, "two"), (3, "same")]);
    assert_eq!(right, vec![(1, "uno"), (2, "same"), (3, "dos")]);
}

#[test]
fn a_diff_that_counts_too_far_is_refused() {
    let raw = format!("diff --git a/x b/x\n@@ -{} +1 @@\n-a\n", usize::MAX);
    assert!(try_parse_diff(&raw).is_none());
    let raw = format!("diff --git a/x b/x\n@@ -{} +1 @@\n-a\n", usize::MAX - 1);
    assert_eq!(try_parse_diff(&raw).map(|v| v[0].sbs[2].left_no), Some(Some(usize::MAX - 1)));
    assert_eq!(try_parse_diff(DIFF).map(|v| v.len()), Some(2));
}

#[test]
fn carriage_returns_at_line_ends_are_dropped() {
    let v = parse_diff("diff --git a/x b/x\r\n@@ -1 +1 @@\r\n-a\r\n+b\r\n");
    assert_eq!(v[0].filename, "x");
    assert_eq!(v[0].content, "diff --git a/x b/x\n@@ -1 +1 @@\n-a\n+b");
    assert_eq!(v[0].sbs[2].left, "a");
}

#[test]
fn listings_are_joined_by_an_empty_line() {
    let parts = [
        "",
        "\n",
        "\n\n\n",
        "worktree /a\nbranch refs/heads/a",
        "worktree /b\r\ndetached\r\n",
        "\nworktree /c\n",
        "branch refs/heads/lost\n\n\nworktree /d\r",
        "worktree \r",
    ];
    let list = |raw: &str| -> Vec<(String, String)> {
        parse_worktrees(raw).into_iter().map(|w| (w.path, w.name)).collect()
    };
    for a in parts {
        for b in parts {
            let mut want = list(a);
            want.extend(list(b));
            assert_eq!(list(&format!("{a}\n\n{b}")), want);
        }
    }
}

#[test]
fn only_the_first_line_of_a_file_names_it() {
    let raw = "diff --git a/x b/b/x\r\r\n+diff --git \n\ndiff --git a/y b/y\n\n";
    let v = parse_diff(raw);
    assert_eq!(v.len(), 2);
    for f in &v {
        assert!(!f.filename.is_empty() && !f.filename.starts_with("b/"));
        for (i, line) in f.content.lines().enumerate() {
            assert_eq!(line.starts_with("diff --git "), i == 0);
        }
    }
}
