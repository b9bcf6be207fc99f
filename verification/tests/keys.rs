use pinentry_fprint::keys::{
    menu_line, parse_key_listing, parse_selection, parse_usize, selected_keygrips, Selection,
};

const LISTING: &str = "\
sec:u:255:22:AAAABBBBCCCCDDDD:1700000000:::u:::scESC:::+:::ed25519:::0:
fpr:::::::::0123456789ABCDEF0123456789ABCDEF01234567:
grp:::::::::GRIP1:
uid:u::::1700000000::HASH::Alice <alice@example.org>::::::::::0:
uid:u::::1700000000::HASH::Alice Work <alice@work.example>::::::::::0:
ssb:u:255:18:EEEEFFFF00001111:1700000000::::::e:::+:::cv25519::
fpr:::::::::FEDCBA9876543210FEDCBA9876543210FEDCBA98:
grp:::::::::GRIP2:
sec:u:255:22:1111222233334444:1700000000:::u:::scESC:::+:::ed25519:::0:
fpr:::::::::99998888777766665555444433332222:
grp:::::::::GRIP3:\r
uid:u::::1700000000::HASH::Bob::::::::::0:
";

#[test]
fn parses_a_listing() {
    let keys = parse_key_listing(LISTING);
    assert_eq!(keys.len(), 2);
    assert_eq!(keys[0].uid, "Alice <alice@example.org>");
    assert_eq!(keys[0].fingerprint, "0123456789ABCDEF0123456789ABCDEF01234567");
    assert_eq!(keys[0].keygrips, vec!["GRIP1".to_string(), "GRIP2".to_string()]);
    assert_eq!(keys[1].uid, "Bob");
    assert_eq!(keys[1].fingerprint, "99998888777766665555444433332222");
    assert_eq!(keys[1].keygrips, vec!["GRIP3".to_string()]);
}

#[test]
fn listing_edge_cases() {
    assert!(parse_key_listing("").is_empty());
    assert!(parse_key_listing("fpr:::::::::X:\nuid:::::::::Y:\n").is_empty());
    let keys = parse_key_listing("sec\ngrp:::::::::\ngrp:::\nuid:short\n");
    assert_eq!(keys.len(), 1);
    assert!(keys[0].keygrips.is_empty());
    assert_eq!(keys[0].uid, "");
    let keys = parse_key_listing("sec\nsec\n\nsec");
    assert_eq!(keys.len(), 3);
}

#[test]
fn menu_lines() {
    let keys = parse_key_listing(LISTING);
    assert_eq!(menu_line(0, &keys[0]), "  [1] Alice <alice@example.org> (0123456789ABCDEF... | 1 subkey(s))");
    assert_eq!(menu_line(1, &keys[1]), "  [2] Bob (9999888877776666... | 0 subkey(s))");
    let short = parse_key_listing("sec\nfpr:::::::::ABC:\n");
    assert_eq!(menu_line(9, &short[0]), "  [10]  (ABC... | 0 subkey(s))");
}

#[test]
fn selections() {
    assert!(matches!(parse_selection("q\n", 3), Selection::Quit));
    assert!(matches!(parse_selection(" Q ", 3), Selection::Quit));
    assert!(matches!(parse_selection("a", 3), Selection::All));
    assert!(matches!(parse_selection("A\n", 3), Selection::All));
    assert!(matches!(parse_selection("1\n", 3), Selection::One(0)));
    assert!(matches!(parse_selection("  3  ", 3), Selection::One(2)));
    assert!(matches!(parse_selection("+2", 3), Selection::One(1)));
    assert!(matches!(parse_selection("0", 3), Selection::Invalid));
    assert!(matches!(parse_selection("4", 3), Selection::Invalid));
    assert!(matches!(parse_selection("-1", 3), Selection::Invalid));
    assert!(matches!(parse_selection("x", 3), Selection::Invalid));
    assert!(matches!(parse_selection("", 3), Selection::Invalid));
    assert!(matches!(parse_selection("99999999999999999999999", 3), Selection::Invalid));
}

#[test]
fn usize_parsing_agrees_with_std() {
    let cases = [
        "", "+", "-", "0", "00", "7", "+7", "++7", "-7", "12a", "a12", "42", "18446744073709551615",
        "18446744073709551616", "99999999999999999999", " 1", "1 ",
    ];
    for c in cases {
        let chars: Vec<char> = c.chars().collect();
        assert_eq!(parse_usize(&chars), c.parse::<usize>().ok(), "input {c:?}");
    }
}

#[test]
fn selected_grips() {
    let keys = parse_key_listing(LISTING);
    assert_eq!(selected_keygrips(&keys, &Selection::All), vec!["GRIP1", "GRIP2", "GRIP3"]);
    assert_eq!(selected_keygrips(&keys, &Selection::One(1)), vec!["GRIP3"]);
    assert!(selected_keygrips(&keys, &Selection::Quit).is_empty());
    assert!(selected_keygrips(&keys, &Selection::One(5)).is_empty());
}

#[test]
fn menu_number_selects_the_key() {
    let keys = parse_key_listing(LISTING);
    for (i, key) in keys.iter().enumerate() {
        let line = menu_line(i, key);
        let number = line.trim_start().trim_start_matches('[').split(']').next().unwrap();
        assert!(matches!(parse_selection(number, keys.len()), Selection::One(j) if j == i));
    }
}
