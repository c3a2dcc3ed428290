use chipsmith::error::{push_digits, push_int, ChipsmithError};
use chipsmith::path::join;
use chipsmith::strmap::StrMap;
use chipsmith::text::{join_strings, lines_of, split_once_exec, str_less, to_ascii_lowercase, trim_str};

#[test]
fn a_map_keeps_its_keys_in_order_and_the_last_insert_wins() {
    let mut m: StrMap<u32> = StrMap::new();
    assert!(m.is_empty());
    m.insert("zlib".to_string(), 1);
    m.insert("bash".to_string(), 2);
    m.insert("glibc".to_string(), 3);
    m.insert("bash".to_string(), 4);
    assert_eq!(m.len(), 3);
    let keys: Vec<&str> = m.as_slice().iter().map(|(k, _)| k.as_str()).collect();
    assert_eq!(keys, vec!["bash", "glibc", "zlib"]);
    assert_eq!(m.get("bash"), Some(&4));
    assert_eq!(m.get("nope"), None);
    assert!(m.contains_key("zlib"));
    assert!(!m.contains_key("z"));
}

#[test]
fn strings_compare_as_rust_orders_them() {
    assert!(str_less("abc", "abd"));
    assert!(str_less("ab", "abc"));
    assert!(!str_less("abc", "abc"));
    assert!(!str_less("b", "abc"));
    assert!(str_less("B", "a"));
}

#[test]
fn text_helpers_do_what_std_does() {
    assert_eq!(trim_str("  Slack : 1 \t"), "Slack : 1");
    assert_eq!(to_ascii_lowercase("Cyclone V"), "cyclone v");
    assert_eq!(
        split_once_exec("Type : Slow : x", ':'),
        Some(("Type ".to_string(), " Slow : x".to_string()))
    );
    assert_eq!(split_once_exec("no colon", ':'), None);
    assert_eq!(lines_of("a\r\nb\n\nc"), vec!["a", "b", "", "c"]);
    assert_eq!(lines_of("a\n"), vec!["a"]);
    assert_eq!(join_strings(&vec!["a".to_string(), "b".to_string()], ", "), "a, b");
    assert_eq!(join("/a", "b"), "/a/b");
    assert_eq!(join("/a/", "b"), "/a/b");
    assert_eq!(join("/a", "/b"), "/b");
}

#[test]
fn numbers_are_written_in_decimal() {
    let mut s = String::new();
    push_digits(&mut s, 0);
    s.push(' ');
    push_digits(&mut s, 1207);
    s.push(' ');
    push_int(&mut s, -42);
    assert_eq!(s, "0 1207 -42");
}

#[test]
fn errors_say_what_went_wrong() {
    let e = ChipsmithError::ProcessFailed {
        command: "quartus_map blinky".to_string(),
        code: Some(3),
        stderr_tail: Some("Error: boom".to_string()),
    };
    assert_eq!(
        e.message(),
        "process `quartus_map blinky` failed with exit code Some(3)\nError: boom"
    );
    let e = ChipsmithError::ProcessFailed {
        command: "x".to_string(),
        code: None,
        stderr_tail: None,
    };
    assert_eq!(e.message(), "process `x` failed with exit code None");
    let e = ChipsmithError::UnknownVersion {
        version: "9".to_string(),
        available: vec!["1.0".to_string(), "2.0".to_string()],
    };
    assert_eq!(e.message(), "unknown version: 9 (available: 1.0, 2.0)");
    let e = ChipsmithError::Download {
        url: "https://x/y".to_string(),
        status: Some(404),
        message: "Not Found".to_string(),
    };
    assert!(e.message().contains("404"));
    assert!(e.message().contains("https://x/y"));
    let e = ChipsmithError::OutputNotFound { path: "/p/b.sof".to_string() };
    assert_eq!(e.message(), "output file not found: /p/b.sof (have you run `chipsmith build`?)");
}

#[test]
fn an_io_error_is_wrapped_with_what_was_being_done() {
    let make = ChipsmithError::file("write", "/p/x.qsf".to_string());
    let e = make(std::io::Error::new(std::io::ErrorKind::Other, "disk full"));
    let message = e.message();
    assert!(message.contains("write"), "{message}");
    assert!(message.contains("/p/x.qsf"), "{message}");
    assert!(message.contains("disk full"), "{message}");
}
