use sr_core::status::{parse_count, parse_status};

#[test]
fn porcelain_entries() {
    let status = " M src/a.rs\nA  b.rs\n?? new.txt\nR  old.rs -> new.rs\nD  gone\nx\n";
    assert_eq!(
        parse_status(status),
        vec![
            ("src/a.rs".to_string(), 'M'),
            ("b.rs".to_string(), 'A'),
            ("new.txt".to_string(), 'A'),
            ("new.rs".to_string(), 'R'),
            ("gone".to_string(), 'D'),
        ]
    );
    assert_eq!(parse_status("R  a -> b -> c\n"), vec![("c".to_string(), 'R')]);
    assert!(parse_status("").is_empty());
}

#[test]
fn counts() {
    assert_eq!(parse_count("12\n"), Some(12));
    assert_eq!(parse_count("  0 "), Some(0));
    assert_eq!(parse_count(""), None);
    assert_eq!(parse_count("1a"), None);
    assert_eq!(parse_count("-1"), None);
    assert_eq!(parse_count("99999999999999999999999"), None);
    assert_eq!(parse_count(&usize::MAX.to_string()), Some(usize::MAX));
}
