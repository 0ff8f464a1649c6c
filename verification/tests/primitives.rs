//! Text, paths, tokens and headers.

use aeroshare::paths::{is_inside, PathStyle};
use aeroshare::secrets::{
    bearer_header, generate_secret, is_authorized, is_stream_token_authorized, RequestHeaders,
    STREAM_TOKEN_HEADER, TOKEN_LEN,
};
use aeroshare::table::Table;
use aeroshare::text::{
    eq_ignore_ascii_case, is_white_space, same_text, split_at_space, strip_prefix, to_decimal,
    trim, use_forward_slashes,
};
use std::path::{Component, Path};

/// All texts over `alphabet` with at most `len` characters.
fn texts(alphabet: &[char], len: usize) -> Vec<String> {
    let mut all = vec![String::new()];
    let mut from = 0;
    for _ in 0..len {
        let to = all.len();
        for i in from..to {
            for c in alphabet {
                let mut longer = all[i].clone();
                longer.push(*c);
                all.push(longer);
            }
        }
        from = to;
    }
    all
}

#[test]
fn white_space_is_that_of_unicode() {
    for n in 0..=0x10ffff_u32 {
        if let Some(c) = char::from_u32(n) {
            assert_eq!(is_white_space(c), c.is_whitespace(), "{:?}", c);
        }
    }
}

#[test]
fn text_functions_agree_with_the_standard_library() {
    for s in texts(&['a', 'A', ' ', '\\', '\t', 'é'], 5) {
        assert_eq!(trim(&s), s.trim());
        assert_eq!(trim(&trim(&s)), trim(&s));
        assert_eq!(use_forward_slashes(&s), s.replace('\\', "/"));
        assert_eq!(strip_prefix(&s, "aA"), s.strip_prefix("aA").map(String::from));
        assert_eq!(eq_ignore_ascii_case(&s, "aAé"), s.eq_ignore_ascii_case("aAé"));
        assert_eq!(same_text(&s, "a a"), s == "a a");
        let mut parts = s.splitn(2, ' ');
        let head = parts.next().unwrap_or_default().to_string();
        let tail = parts.next().unwrap_or_default().to_string();
        assert_eq!(split_at_space(&s), (head, tail));
    }
    assert_eq!(to_decimal(0), "0");
    assert_eq!(to_decimal(1024), "1024");
    assert_eq!(to_decimal(u64::MAX), u64::MAX.to_string());
}

#[test]
fn paths_agree_with_the_standard_library() {
    let style = PathStyle::of_separator(std::path::MAIN_SEPARATOR);
    assert_eq!(PathStyle::host(), style);
    for s in texts(&['a', '.', '/', '\\', ':'], 6) {
        let safe = !s.is_empty()
            && Path::new(&s)
                .components()
                .all(|part| matches!(part, Component::Normal(_)));
        assert_eq!(style.is_safe(&s), safe, "{:?}", s);
        if style == PathStyle::Unix {
            let name = Path::new(&s)
                .file_name()
                .unwrap_or_default()
                .to_string_lossy()
                .to_string();
            assert_eq!(style.file_name(&s), name, "{:?}", s);
            assert!(!safe || !name.is_empty());
        }
    }
}

#[test]
fn windows_paths_may_be_written_with_either_slash() {
    let style = PathStyle::Windows;
    assert_eq!(PathStyle::of_separator('\\'), style);
    assert_eq!(PathStyle::of_separator('/'), PathStyle::Unix);
    assert!(style.is_separator('\\'));
    assert!(!PathStyle::Unix.is_separator('\\'));
    assert!(style.is_safe("folder\\file.txt"));
    assert!(!style.is_safe("folder\\..\\file.txt"));
    assert!(!style.is_safe("C:file.txt"));
    assert!(!style.is_safe("\\file.txt"));
    assert!(!style.is_safe(".\\file.txt"));
    assert!(PathStyle::Unix.is_safe("C:file.txt"));
    assert!(PathStyle::Unix.is_safe("folder\\..\\file.txt"));
    assert_eq!(style.file_name("C:\\folder\\file.txt"), "file.txt");
    assert_eq!(style.file_name("C:"), "");
    assert_eq!(PathStyle::Unix.file_name("C:\\folder\\file.txt"), "C:\\folder\\file.txt");
    assert_eq!(style.file_name("folder/.."), "");
    assert_eq!(style.file_name("folder/./"), "folder");
}

fn parts(path: &[&str]) -> Vec<Vec<u8>> {
    path.iter().map(|part| part.as_bytes().to_vec()).collect()
}

#[test]
fn a_folder_holds_itself_and_what_is_below_it() {
    let folder = parts(&["/", "srv", "files"]);
    assert!(is_inside(&folder, &folder));
    assert!(is_inside(&folder, &parts(&["/", "srv", "files", "a", "b.txt"])));
    assert!(!is_inside(&folder, &parts(&["/", "srv"])));
    assert!(!is_inside(&folder, &parts(&["/", "srv", "files2"])));
    assert!(!is_inside(&folder, &parts(&["/", "srv", "file", "s"])));
    assert!(is_inside(&parts(&[]), &folder));
}

#[test]
fn secrets_are_letters_and_digits() {
    assert_eq!(TOKEN_LEN, 48);
    assert_eq!(generate_secret(0), "");
    let secret = generate_secret(TOKEN_LEN);
    assert_eq!(secret.len(), 48);
    assert!(secret.chars().all(|c| c.is_ascii_alphanumeric()));
    assert_ne!(secret, generate_secret(TOKEN_LEN));
    let long = generate_secret(4000);
    assert!(long.chars().any(|c| c.is_ascii_lowercase()));
    assert!(long.chars().any(|c| c.is_ascii_uppercase()));
    assert!(long.chars().any(|c| c.is_ascii_digit()));
}

fn bearing(value: &[u8]) -> RequestHeaders {
    RequestHeaders { authorization: Some(value.to_vec()), stream_token: None }
}

#[test]
fn only_the_right_bearer_token_is_authorized() {
    assert!(is_authorized(&bearing(b"Bearer secret"), "secret"));
    assert!(!is_authorized(&bearing(b"Bearer secret "), "secret"));
    assert!(!is_authorized(&bearing(b"Bearer Secret"), "secret"));
    assert!(!is_authorized(&bearing(b"bearer secret"), "secret"));
    assert!(!is_authorized(&bearing(b"secret"), "secret"));
    assert!(!is_authorized(&bearing(b""), "secret"));
    assert!(!is_authorized(&bearing("Bearer sécret".as_bytes()), "sécret"));
    assert!(!is_authorized(&bearing(b"Bearer sec\nret"), "sec\nret"));
    assert!(is_authorized(&bearing(b"Bearer sec\tret"), "sec\tret"));
    let nothing = RequestHeaders { authorization: None, stream_token: None };
    assert!(!is_authorized(&nothing, ""));
    assert!(!is_stream_token_authorized(&nothing, ""));
}

#[test]
fn only_the_right_stream_token_opens_a_stream() {
    assert_eq!(STREAM_TOKEN_HEADER, "x-stream-token");
    let headers = RequestHeaders { authorization: None, stream_token: Some(b"abc".to_vec()) };
    assert!(is_stream_token_authorized(&headers, "abc"));
    assert!(!is_stream_token_authorized(&headers, "abd"));
    assert!(!is_stream_token_authorized(&headers, "ab"));
    let hidden = RequestHeaders { authorization: None, stream_token: Some(vec![200]) };
    assert!(!is_stream_token_authorized(&hidden, "È"));
}

#[test]
fn a_header_that_was_written_is_read_as_its_text() {
    for token in ["secret", "with space", "tab\there", ""] {
        let headers = RequestHeaders { authorization: bearer_header(token), stream_token: None };
        assert!(is_authorized(&headers, token));
        assert!(!is_authorized(&headers, "other"));
    }
    assert_eq!(bearer_header("abc"), Some(b"Bearer abc".to_vec()));
    assert_eq!(bearer_header("two\nlines"), None);
    assert_eq!(bearer_header("del\u{7f}"), None);
    let hidden = RequestHeaders { authorization: bearer_header("é"), stream_token: None };
    assert!(hidden.authorization.is_some());
    assert!(!is_authorized(&hidden, "é"));
}

#[test]
fn a_table_keeps_one_value_per_key_in_order_of_arrival() {
    let mut table: Table<u32> = Table::new();
    table.insert("b".to_string(), 1);
    table.insert("a".to_string(), 2);
    table.insert("b".to_string(), 3);
    assert_eq!(table.len(), 2);
    assert_eq!(table.key_at(0), "b");
    assert_eq!(table.key_at(1), "a");
    assert_eq!(table.get("b"), Some(&3));
    assert_eq!(table.get("c"), None);
    assert!(table.contains_key("a"));
    if let Some(value) = table.get_mut("a") {
        *value = 7;
    }
    assert_eq!(table.remove("a"), Some(7));
    assert_eq!(table.remove("a"), None);
    assert!(!table.contains_key("a"));
    assert_eq!(table.len(), 1);
}

#[test]
fn what_windows_calls_safe_unix_calls_safe() {
    for s in texts(&['a', '.', '/', '\\', ':'], 5) {
        assert!(!PathStyle::Windows.is_safe(&s) || PathStyle::Unix.is_safe(&s), "{:?}", s);
    }
}

#[test]
fn file_names_are_empty_or_plain() {
    for style in [PathStyle::Unix, PathStyle::Windows] {
        for s in texts(&['a', '.', '/', '\\', ':'], 5) {
            let name = style.file_name(&s);
            assert!(name != "." && name != "..", "{:?}", s);
            assert!(!name.chars().any(|c| style.is_separator(c)), "{:?}", s);
            assert!(!style.is_safe(&s) || !name.is_empty(), "{:?}", s);
            if !name.is_empty() && !name.contains(':') {
                assert!(style.is_safe(&name));
                assert_eq!(style.file_name(&name), name);
            }
        }
    }
}

/// Where a path leads from a folder, by its components.
fn lexically(folder: &[&str], path: &str) -> Vec<String> {
    let mut at: Vec<String> = folder.iter().map(|part| part.to_string()).collect();
    for part in path.split('/') {
        match part {
            "" | "." => {}
            ".." => {
                at.pop();
            }
            name => at.push(name.to_string()),
        }
    }
    at
}

#[test]
fn safe_paths_lead_below_their_folder() {
    for s in texts(&['a', '.', '/'], 7) {
        if PathStyle::Unix.is_safe(&s) {
            let place = lexically(&["srv", "files"], &s);
            assert_eq!(place[..2], ["srv", "files"]);
            assert!(place.len() > 2);
            assert_eq!(place[place.len() - 1], PathStyle::Unix.file_name(&s));
        }
    }
}

#[test]
fn windows_prefixes_are_no_part_of_a_name() {
    let names = [
        ("\\\\server\\share", ""),
        ("//server/share", ""),
        ("\\\\server\\share\\", ""),
        ("\\\\server\\share\\a.txt", "a.txt"),
        ("//server/share/d/a.txt", "a.txt"),
        ("\\/server/share\\.", ""),
        ("\\\\server", "server"),
        ("\\\\server\\", "server"),
        ("\\\\\\share", "share"),
        ("\\\\server\\\\a", "a"),
        ("\\\\.\\COM1", ""),
        ("//./COM1", ""),
        ("\\\\.\\COM1\\x", "x"),
        ("\\\\.\\", ""),
        ("\\\\?\\C:", ""),
        ("\\\\?\\C:\\", ""),
        ("\\\\?\\C:\\d\\a.txt", "a.txt"),
        ("\\\\?\\C:\\d\\a.txt\\\\", "a.txt"),
        ("\\\\?\\C:/a", "a"),
        ("\\\\?\\C:\\d\\a/b", "a/b"),
        ("\\\\?\\C:\\d\\.", ""),
        ("\\\\?\\C:\\d\\..", ""),
        ("\\\\?\\C:x\\a", "a"),
        ("\\\\?\\C:x", ""),
        ("\\\\?\\pictures", ""),
        ("\\\\?\\pictures\\a", "a"),
        ("\\\\?\\UNC\\server\\share", ""),
        ("\\\\?\\UNC\\server", ""),
        ("\\\\?\\UNC\\server\\share\\a", "a"),
        ("\\\\?\\UNC\\server\\\\a", "a"),
        ("//?/C:/a", "a"),
        ("//?/C:", ""),
        ("C:", ""),
        ("C:a", "a"),
        ("C:.", ""),
        ("C:\\a\\.", "a"),
        ("CD:a", "CD:a"),
        ("a/C:b", "C:b"),
        ("\\a", "a"),
        ("", ""),
    ];
    for (path, name) in names {
        assert_eq!(PathStyle::Windows.file_name(path), name, "{:?}", path);
    }
    assert_eq!(PathStyle::Unix.file_name("//server/share"), "share");
}
