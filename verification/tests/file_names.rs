use lchat::names::{sanitize, unique_path};
use lchat::text::{control, is_before, to_decimal, trim, trim_line_ends, white_space};

#[test]
fn sanitize_strips_paths_and_bad_chars() {
    assert_eq!(sanitize("../../etc/passwd"), "passwd");
    assert_eq!(sanitize("C:\\Windows\\secret.txt"), "secret.txt");
    assert_eq!(sanitize("a:b*c?.txt"), "abc.txt");
    assert_eq!(sanitize("   "), "file.bin");
}

#[test]
fn sanitize_edge_cases() {
    assert_eq!(sanitize(""), "file.bin");
    assert_eq!(sanitize("dir/"), "file.bin");
    assert_eq!(sanitize("a/b\\c"), "c");
    assert_eq!(sanitize("b\\c/d"), "d");
    assert_eq!(sanitize("\u{0}\u{1f}\u{7f}\u{9f}"), "file.bin");
    assert_eq!(sanitize(" \u{3000}отчёт.pdf\u{a0}\t"), "отчёт.pdf");
    assert_eq!(sanitize("\"<a|b>\""), "ab");
    assert_eq!(sanitize(" : x : "), "x");
    for step in [".", "..", "a/.", "a/..", "..\\..", " .. ", ".:.", "*.\u{7}"] {
        assert_eq!(sanitize(step), "file.bin");
    }
    assert_eq!(sanitize("..."), "...");
    assert_eq!(sanitize(".rc"), ".rc");
}

#[test]
fn sanitize_is_safe_and_idempotent() {
    for name in ["../x", "..", "x/.", "  a b  ", "con:", "\u{85}q\u{2028}", "a\tb", "норм.txt", "|||"] {
        let safe = sanitize(name);
        assert!(!safe.is_empty() && safe != "." && safe != "..");
        assert!(!safe.contains(['/', '\\', ':', '*', '?', '"', '<', '>', '|']));
        assert!(!safe.chars().any(|c| c.is_control()));
        assert_eq!(safe.trim(), safe);
        assert_eq!(sanitize(&safe), safe);
    }
    assert_eq!(sanitize("уже хорошо.txt"), "уже хорошо.txt");
}

#[test]
fn characters_agree_with_the_standard_library() {
    for n in 0..=0x10ffffu32 {
        if let Some(c) = char::from_u32(n) {
            assert_eq!(control(c), c.is_control());
            assert_eq!(white_space(c), c.is_whitespace());
        }
    }
}

#[test]
fn strings_agree_with_the_standard_library() {
    let words = ["", " ", "a", "ab", "b", "10.0.0.2", "10.0.0.10", "я", "Я", "\u{ffff}", "\u{10000}"];
    for a in words {
        for b in words {
            assert_eq!(is_before(a, b), a < b);
        }
        let padded = format!(" \n{a}\r\n\n");
        assert_eq!(trim(&padded), padded.trim());
        assert_eq!(trim_line_ends(&padded), padded.trim_end_matches(['\n', '\r']));
    }
    for n in [0u64, 9, 10, 99, 100, 9009, 1234567890, u64::MAX] {
        assert_eq!(to_decimal(n), n.to_string());
    }
}

#[test]
fn a_free_name_is_taken_as_it_is() {
    assert_eq!(unique_path("a.txt", |_: &str| false), Some("a.txt".to_string()));
}

#[test]
fn a_taken_name_gets_a_number() {
    let used = ["a.txt", "a (1).txt", "a (2).txt"];
    assert_eq!(unique_path("a.txt", |s: &str| used.contains(&s)), Some("a (3).txt".to_string()));
    assert_eq!(unique_path("a", |s: &str| s == "a"), Some("a (1)".to_string()));
    assert_eq!(unique_path("x.tar.gz", |s: &str| s == "x.tar.gz"), Some("x.tar (1).gz".to_string()));
    assert_eq!(unique_path(".", |s: &str| s == "."), Some(" (1).".to_string()));
    assert_eq!(unique_path("..", |s: &str| s == ".."), Some(". (1).".to_string()));
    assert_eq!(unique_path(".rc", |s: &str| s == ".rc"), Some(" (1).rc".to_string()));
}

#[test]
fn names_are_tried_in_order_and_none_twice() {
    let seen = std::cell::RefCell::new(Vec::<String>::new());
    let free = unique_path("n.b", |s: &str| {
        seen.borrow_mut().push(s.to_string());
        seen.borrow().len() <= 12
    });
    let seen = seen.into_inner();
    assert_eq!(free, Some("n (12).b".to_string()));
    assert_eq!(seen.len(), 13);
    assert_eq!(seen[0], "n.b");
    assert_eq!(seen[10], "n (10).b");
    for i in 0..seen.len() {
        for j in 0..i {
            assert_ne!(seen[i], seen[j]);
        }
        assert!(!seen[i].contains(['/', '\\']));
    }
}

#[test]
fn a_received_file_is_a_new_entry() {
    let dir = std::cell::RefCell::new(std::collections::BTreeMap::<String, Vec<u8>>::new());
    for (n, name) in ["../a", "..", ".", "a", "b/..", "a"].iter().enumerate() {
        let free = unique_path(&sanitize(name), |s: &str| dir.borrow().contains_key(s)).unwrap();
        assert!(!free.is_empty() && free != "." && free != ".." && !free.contains(['/', '\\']));
        assert_eq!(dir.borrow_mut().insert(free, vec![n as u8]), None);
    }
    let dir = dir.into_inner();
    assert_eq!(dir.len(), 6);
    assert_eq!(dir["a"], vec![0]);
    assert_eq!(dir["file.bin"], vec![1]);
    assert_eq!(dir["file (1).bin"], vec![2]);
    assert_eq!(dir["a (1)"], vec![3]);
    assert_eq!(dir["file (2).bin"], vec![4]);
    assert_eq!(dir["a (2)"], vec![5]);
}
