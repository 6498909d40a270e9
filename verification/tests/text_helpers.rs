use luowm::text::{split_lines, str_eq, take_chars};

fn std_lines(s: &str) -> Vec<String> {
    s.lines().map(|l| l.to_string()).collect()
}

#[test]
fn split_lines_agrees_with_std() {
    let cases = [
        "",
        "a",
        "\n",
        "\n\n",
        "a\n",
        "a\nb",
        "a\nb\n",
        "a\r\nb\r\n",
        "a\r",
        "a\r\r\n",
        "\r\n",
        "  readme.txt  (91 bytes)\n  motd.txt  (35 bytes)",
        "ünïcödé\nlines\n\nend",
        "x\n\ny",
    ];
    for c in cases.iter() {
        assert_eq!(split_lines(c), std_lines(c), "input {:?}", c);
    }
}

#[test]
fn split_lines_examples() {
    assert_eq!(split_lines("a\nb"), vec!["a".to_string(), "b".to_string()]);
    assert_eq!(split_lines("a\r\n"), vec!["a".to_string()]);
    assert_eq!(split_lines("\n"), vec!["".to_string()]);
    assert!(split_lines("").is_empty());
}

#[test]
fn take_chars_examples() {
    assert_eq!(take_chars("hello", 3), "hel");
    assert_eq!(take_chars("hello", 5), "hello");
    assert_eq!(take_chars("hello", 50), "hello");
    assert_eq!(take_chars("hello", 0), "");
    assert_eq!(take_chars("äöü", 2), "äö");
}

#[test]
fn str_eq_examples() {
    assert!(str_eq("ls", "ls"));
    assert!(!str_eq("ls", "lsx"));
    assert!(!str_eq("ls", "ps"));
    assert!(str_eq("", ""));
    assert!(str_eq("äö", "äö"));
}
