use rsgrep::binary::is_binary;
use rsgrep::config::Config;
use rsgrep::matcher::RegexPattern;
use rsgrep::paths::{path_to_string, relative_path};

fn config(insensitive: bool, regex: Option<RegexPattern>) -> Config {
    Config::new(String::from("/home/u"), false, false, false, insensitive, false, false, regex)
}

fn is_match(config: &Config, string: &str, line: &str) -> bool {
    rsgrep::matcher::matches(config, string, line)
}

#[test]
fn literal_match_is_case_sensitive() {
    let c = config(false, None);
    assert!(is_match(&c, "foo", "a foo b"));
    assert!(!is_match(&c, "foo", "a Foo b"));
    assert!(!is_match(&c, "foo", "fo o"));
    assert!(is_match(&c, "", "anything"));
}

#[test]
fn insensitive_literal_lowers_both_sides() {
    let c = config(true, None);
    assert!(is_match(&c, "FOO", "a foo b"));
    assert!(is_match(&c, "foo", "A FOO B"));
    assert!(!is_match(&c, "foo", "f-o-o"));
    assert!(is_match(&c, "Foo", "a FOO b"));
    assert!(is_match(&c, "MiXeD", "mixed"));
}

#[test]
fn sensitive_needle_keeps_its_case() {
    let c = config(false, None);
    assert!(!is_match(&c, "MiXeD", "mixed"));
    assert!(is_match(&c, "MiXeD", "a MiXeD b"));
}

#[test]
fn regex_pattern_matches() {
    let re = RegexPattern::new("^a.c$").unwrap();
    assert_eq!(re.as_str(), "^a.c$");
    let c = config(false, Some(re));
    assert!(is_match(&c, "^a.c$", "abc"));
    assert!(!is_match(&c, "^a.c$", "xabc"));
}

#[test]
fn regex_ignores_insensitive_flag() {
    let re = RegexPattern::new("Foo").unwrap();
    let c = config(true, Some(re));
    assert!(!c.insensitive);
    assert!(!is_match(&c, "Foo", "a foo line"));
    assert!(is_match(&c, "Foo", "a Foo line"));
    let re = RegexPattern::new("(?i)Foo").unwrap();
    let c = config(true, Some(re));
    assert!(is_match(&c, "(?i)Foo", "a foo line"));
}

#[test]
fn malformed_regex_is_rejected() {
    assert!(RegexPattern::new("(unclosed").is_err());
    assert!(RegexPattern::new("closed()").is_ok());
}

#[test]
fn binary_detection() {
    assert!(!is_binary(&vec![]));
    assert!(!is_binary(&b"plain text\n".to_vec()));
    assert!(is_binary(&vec![b'a', 0, b'b']));
    // printable text is text, whatever it begins with
    assert!(!is_binary(&b"%PDF-1.4".to_vec()));
    assert!(!is_binary(&"gr\u{fc}\u{df}e\ttab\r\n".as_bytes().to_vec()));
    // a NUL byte is binary, after a byte order mark too
    assert!(is_binary(&vec![0xFF, 0xFE, b'A', 0]));
    assert!(is_binary(&vec![0xFF, 0xFE, 0]));
    // invalid UTF-8 is binary
    assert!(is_binary(&vec![0x80, b'A']));
    assert!(is_binary(&vec![0x89, b'P', b'N', b'G', 1, 2]));
    assert!(is_binary(&vec![b'a', 0xC3]));
    // valid text with control bytes: the content heuristic decides
    assert!(!is_binary(&vec![b'a', 0x01, b'b']));
    assert!(is_binary(&vec![b'%', b'P', b'D', b'F', 0x01]));
    // only the first 1024 bytes are searched for NUL
    let mut late = vec![b'x'; 1024];
    late.push(0);
    assert!(!is_binary(&late));
    let mut early = vec![b'x'; 1023];
    early.push(0);
    assert!(is_binary(&early));
}

#[test]
fn character_cut_at_sample_end_is_text() {
    let mut cut = vec![b'x'; 1023];
    cut.push(0xC3);
    assert!(!is_binary(&cut));
    let mut cut3 = vec![b'x'; 1022];
    cut3.extend_from_slice(&[0xE2, 0x82]);
    assert!(!is_binary(&cut3));
    let mut stray = vec![b'x'; 1023];
    stray.push(0x80);
    assert!(is_binary(&stray));
}

#[test]
fn relative_rendering() {
    let mut c = config(false, None);
    c.relative = true;
    assert_eq!(path_to_string(&c, "/home/u/sub/file.txt"), "sub/file.txt");
    assert_eq!(path_to_string(&c, "/home/u//x"), "x");
    assert_eq!(path_to_string(&c, "/home/u/./sub"), "sub");
    assert_eq!(path_to_string(&c, "/home/u///sub//file.txt"), "sub/file.txt");
    assert_eq!(path_to_string(&c, "/home/u/"), "");
    assert_eq!(path_to_string(&c, "/home/u"), "");
    assert_eq!(path_to_string(&c, "/home/user/x"), "/home/user/x");
    assert_eq!(path_to_string(&c, "/etc/passwd"), "/etc/passwd");
    c.relative = false;
    assert_eq!(path_to_string(&c, "/home/u/sub/file.txt"), "/home/u/sub/file.txt");
}

#[test]
fn relative_to_root_directory() {
    assert_eq!(relative_path("/a/b", "/"), Some(String::from("a/b")));
    assert_eq!(relative_path("/a/b", "/a/"), Some(String::from("b")));
    assert_eq!(relative_path("/ab", "/a"), None);
    assert_eq!(relative_path("/a", "/a/b"), None);
    assert_eq!(relative_path("//a/./b/", "/a"), Some(String::from("b")));
    assert_eq!(relative_path("a/b", "/a"), None);
    assert_eq!(relative_path("/a/b", "/a//"), Some(String::from("b")));
}
