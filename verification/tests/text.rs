use imagedrive::text::{
    file_name, is_whitespace, prefix_before_colon, split, trim, without_tag, Separator,
};

fn strings(items: &[&str]) -> Vec<String> {
    items.iter().map(|s| s.to_string()).collect()
}

#[test]
fn whitespace_is_what_unicode_says() {
    for c in [' ', '\t', '\n', '\r', '\u{b}', '\u{c}', '\u{85}', '\u{a0}', '\u{1680}', '\u{2000}',
        '\u{200a}', '\u{2028}', '\u{2029}', '\u{202f}', '\u{205f}', '\u{3000}']
    {
        assert!(is_whitespace(c), "{:?}", c);
        assert!(c.is_whitespace());
    }
    for c in ['a', '0', '/', '.', '\u{8}', '\u{e}', '\u{200b}', '\u{feff}', '\u{1f}'] {
        assert!(!is_whitespace(c), "{:?}", c);
        assert!(!c.is_whitespace());
    }
}

#[test]
fn whitespace_agrees_with_std_on_every_char() {
    let mut code: u32 = 0;
    while code <= 0x10ffff {
        if let Some(c) = char::from_u32(code) {
            assert_eq!(is_whitespace(c), c.is_whitespace(), "U+{:04X}", code);
        }
        code += 1;
    }
}

#[test]
fn split_on_whitespace_gives_the_words() {
    assert_eq!(split("cat.png\ndog.png\n", Separator::Whitespace), strings(&["cat.png", "dog.png"]));
    assert_eq!(split("  a \t b\r\n\nc", Separator::Whitespace), strings(&["a", "b", "c"]));
    assert_eq!(split("one", Separator::Whitespace), strings(&["one"]));
}

#[test]
fn split_of_nothing_gives_no_words() {
    assert_eq!(split("", Separator::Whitespace), Vec::<String>::new());
    assert_eq!(split(" \n\t ", Separator::Whitespace), Vec::<String>::new());
}

#[test]
fn split_agrees_with_std() {
    for text in ["", " ", "a", " a", "a ", "a b", "a\u{a0}b", "é ü\n漢字 \u{3000}x", "\n\n", "x\ty\tz\t"] {
        let expected: Vec<String> = text.split_whitespace().map(|s| s.to_string()).collect();
        assert_eq!(split(text, Separator::Whitespace), expected, "{:?}", text);
    }
}

#[test]
fn split_on_slash_drops_empty_names() {
    assert_eq!(split("/data/photos/cat.png", Separator::Slash), strings(&["data", "photos", "cat.png"]));
    assert_eq!(split("//a///b/", Separator::Slash), strings(&["a", "b"]));
    assert_eq!(split("a b/c", Separator::Slash), strings(&["a b", "c"]));
    assert_eq!(split("/", Separator::Slash), Vec::<String>::new());
}

#[test]
fn trim_removes_white_space_at_both_ends() {
    assert_eq!(trim("  abc \n"), "abc");
    assert_eq!(trim("abc"), "abc");
    assert_eq!(trim("a b"), "a b");
    assert_eq!(trim("\n\n"), "");
    assert_eq!(trim(""), "");
    assert_eq!(trim("\u{3000}é\u{a0}"), "é");
}

#[test]
fn trim_agrees_with_std() {
    for text in ["", " ", "a", " a", "a ", " a b ", "\t\u{2028}x y\u{85}", "漢 字\n"] {
        assert_eq!(trim(text), text.trim(), "{:?}", text);
    }
}

#[test]
fn file_name_is_the_last_name() {
    assert_eq!(file_name("/home/u/cat.png"), Some("cat.png".to_string()));
    assert_eq!(file_name("cat.png"), Some("cat.png".to_string()));
    assert_eq!(file_name("/usr/bin/"), Some("bin".to_string()));
    assert_eq!(file_name("tmp/foo.txt/."), Some("foo.txt".to_string()));
    assert_eq!(file_name("foo.txt/.//"), Some("foo.txt".to_string()));
    assert_eq!(file_name("./foo"), Some("foo".to_string()));
    assert_eq!(file_name("a/..b"), Some("..b".to_string()));
    assert_eq!(file_name("a/..."), Some("...".to_string()));
}

#[test]
fn file_name_of_a_path_that_names_nothing() {
    assert_eq!(file_name(""), None);
    assert_eq!(file_name("/"), None);
    assert_eq!(file_name("."), None);
    assert_eq!(file_name("./"), None);
    assert_eq!(file_name(".."), None);
    assert_eq!(file_name("foo.txt/.."), None);
    assert_eq!(file_name("foo/../."), None);
    assert_eq!(file_name("///"), None);
}

#[test]
fn file_name_agrees_with_std() {
    for path in ["", "/", ".", "..", "a", "/a", "a/", "a/b", "a/./b", "a/b/.", "a/b/..", "./a",
        "../a", "a//b//", "/data/photos/cat.png", "a/.b", "a/b./", ".../x/."]
    {
        let expected = std::path::Path::new(path)
            .file_name()
            .map(|n| n.to_string_lossy().to_string());
        if cfg_unix() {
            assert_eq!(file_name(path), expected, "{:?}", path);
        }
    }
}

fn cfg_unix() -> bool {
    std::path::MAIN_SEPARATOR == '/'
}

#[test]
fn prefix_before_colon_drops_the_tag() {
    assert_eq!(prefix_before_colon("busybox:latest"), "busybox");
    assert_eq!(prefix_before_colon("busybox"), "busybox");
    assert_eq!(prefix_before_colon("repo/store:1:2"), "repo/store");
    assert_eq!(prefix_before_colon(":tag"), "");
    assert_eq!(prefix_before_colon(""), "");
    assert_eq!(prefix_before_colon("localhost:5000/store:v1"), "localhost");
}

#[test]
fn without_tag_drops_only_a_tag() {
    assert_eq!(without_tag("busybox:latest"), "busybox");
    assert_eq!(without_tag("busybox"), "busybox");
    assert_eq!(without_tag("repo/store:1"), "repo/store");
    assert_eq!(without_tag("localhost:5000/store:v1"), "localhost:5000/store");
    assert_eq!(without_tag("localhost:5000/store"), "localhost:5000/store");
    assert_eq!(without_tag("localhost:5000/a/b:v1"), "localhost:5000/a/b");
    assert_eq!(without_tag("store:"), "store");
    assert_eq!(without_tag(":tag"), "");
    assert_eq!(without_tag("a:b:c"), "a:b");
    assert_eq!(without_tag("registry.example/store:latest"), "registry.example/store");
    assert_eq!(without_tag("host:5000/"), "host:5000/");
    assert_eq!(without_tag(""), "");
    assert_eq!(without_tag("/"), "/");
    assert_eq!(without_tag(":"), "");
}
