use daltui::paths::{file_name, same_path, sibling_path};
use daltui::text::{
    count_lines, is_white, parse_number, split_blocks, split_char, split_lines, split_words,
    strip_all, to_chars, to_decimal, to_text, trimmed,
};
use daltui::util::{branch_name_for, output_text, pick_output};

#[test]
fn white_space_is_unicode_white_space() {
    for n in 0..=0x10ffffu32 {
        if let Some(c) = char::from_u32(n) {
            assert_eq!(is_white(c), c.is_whitespace());
        }
    }
}

#[test]
fn trimming_agrees_with_strings() {
    for s in ["", "  ", "a", " a b ", "\u{3000}x\u{2028}", "\t\n.\r"] {
        assert_eq!(to_text(trimmed(&to_chars(s))), s.trim());
    }
}

#[test]
fn lines_agree_with_strings() {
    for s in ["", "\n", "a", "a\n", "a\nb", "a\r\nb\r", "\r\n\r\n", "a\n\nb\n\n", "\r"] {
        let cs = to_chars(s);
        let v: Vec<String> = split_lines(&cs).iter().map(|l| to_text(l)).collect();
        let want: Vec<String> = s.lines().map(|l| l.to_string()).collect();
        assert_eq!(v, want);
        assert_eq!(count_lines(s), want.len());
    }
}

#[test]
fn splitting_agrees_with_strings() {
    for s in ["", "+", "a+b", "++", "a++b+", "x"] {
        let cs = to_chars(s);
        let v: Vec<String> = split_char(&cs, '+').iter().map(|l| to_text(l)).collect();
        let want: Vec<String> = s.split('+').map(|l| l.to_string()).collect();
        assert_eq!(v, want);
    }
    for s in ["", "\n\n", "a\n\nb", "\n\n\n", "a\n\n\n\nb\n", "a\nb"] {
        let cs = to_chars(s);
        let v: Vec<String> = split_blocks(&cs).iter().map(|l| to_text(l)).collect();
        let want: Vec<String> = s.split("\n\n").map(|l| l.to_string()).collect();
        assert_eq!(v, want);
    }
    for s in ["", "  ", " a  b\tc ", "x\u{a0}y"] {
        let cs = to_chars(s);
        let v: Vec<String> = split_words(&cs).iter().map(|l| to_text(l)).collect();
        let want: Vec<String> = s.split_whitespace().map(|l| l.to_string()).collect();
        assert_eq!(v, want);
    }
}

#[test]
fn prefixes_are_stripped_as_often_as_they_stand() {
    for s in ["", "b/", "b/b/x", "a/b/", "bb/x"] {
        assert_eq!(to_text(strip_all(&to_chars(s), "b/")), s.trim_start_matches("b/"));
    }
}

#[test]
fn numbers_agree_with_strings() {
    for s in ["", "0", "007", "255", "256", "+5", "+", "++5", "-1", "1x", "18446744073709551616"] {
        let want = s.parse::<u8>().ok().map(|n| n as usize);
        assert_eq!(parse_number(&to_chars(s), 255), want);
        assert_eq!(parse_number(&to_chars(s), usize::MAX), s.parse::<usize>().ok());
    }
    for n in [0, 9, 10, 99, 100, 12345, usize::MAX] {
        assert_eq!(to_text(&to_decimal(n)), n.to_string());
        assert_eq!(parse_number(&to_decimal(n), usize::MAX), Some(n));
    }
}

#[test]
fn paths_agree_with_std() {
    let samples = [
        "", ".", "..", "/", "//", "/.", "a", "./a", "a/.", "a//b", "a/b/", "/a/b", "/a/./b", "a/..",
        "../a", "/..", "a/b", "./", "/a/b/.", ".hidden", "a/./b", "x/.hid",
    ];
    for a in samples {
        let p = std::path::Path::new(a);
        let name = p.file_name().map(|n| n.to_string_lossy().to_string());
        assert_eq!(file_name(a), name);
        for b in samples {
            assert_eq!(same_path(a, b), p == std::path::Path::new(b));
        }
        for n in ["topic", "a/b", "/abs", ""] {
            let want = p.parent().unwrap_or(p).join(n).to_string_lossy().to_string();
            assert_eq!(sibling_path(a, n), want);
        }
    }
}

#[test]
fn first_output_is_shown_unless_empty() {
    assert_eq!(pick_output("a".to_string(), "b".to_string()), "a");
    assert_eq!(pick_output("".to_string(), "b".to_string()), "b");
    assert_eq!(pick_output("".to_string(), "".to_string()), "");
    assert_eq!(output_text(Ok((b"out".to_vec(), b"err".to_vec()))), "out");
    assert_eq!(output_text(Ok((Vec::new(), b"err".to_vec()))), "err");
    assert_eq!(output_text(Err("no such file".to_string())), "error: no such file");
}

#[test]
fn outputs_are_decoded_with_replacements() {
    let bytes = vec![b'a', 0xff, 0xc3, 0xa9];
    assert_eq!(output_text(Ok((bytes, Vec::new()))), "a\u{fffd}é");
}

#[test]
fn windows_are_named_by_branch_or_directory() {
    assert_eq!(branch_name_for("/w/dir", Some(b"topic\n".to_vec())), "topic");
    assert_eq!(branch_name_for("/w/dir", Some(b" \n".to_vec())), "dir");
    assert_eq!(branch_name_for("/w/dir", Some(vec![0xff])), "dir");
    assert_eq!(branch_name_for("/w/dir", None), "dir");
    assert_eq!(branch_name_for("/w/..", None), "main");
    assert_eq!(branch_name_for("/", None), "main");
    assert_eq!(branch_name_for("/", Some("größe".as_bytes().to_vec())), "größe");
}

#[test]
fn siblings_share_their_parent() {
    for (base, want) in [
        ("/w/main", "/w/topic"),
        ("/w/./main//", "/w/topic"),
        ("main", "topic"),
        ("./main", "./topic"),
        ("/", "/topic"),
        (".", "topic"),
        ("../x", "../topic"),
    ] {
        assert_eq!(sibling_path(base, "topic"), want);
    }
    assert_eq!(sibling_path("/w/main", "a/b"), "/w/a/b");
    assert_eq!(sibling_path("/w/main", "/abs"), "/abs");
}
