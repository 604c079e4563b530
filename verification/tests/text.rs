use lexical_items::order::{text_order, TextOrder};
use lexical_items::text::{decimal_string, is_whitespace, str_eq, trim};

#[test]
fn whitespace_agrees_with_std_on_every_char() {
    let mut c: u32 = 0;
    while c <= 0x10FFFF {
        if let Some(ch) = char::from_u32(c) {
            assert_eq!(is_whitespace(ch), ch.is_whitespace(), "U+{:04X}", c);
        }
        c += 1;
    }
}

#[test]
fn trim_removes_outer_white_space_only() {
    assert_eq!(trim(" Imker "), "Imker");
    assert_eq!(trim("\t\n two words \u{3000}"), "two words");
    assert_eq!(trim(""), "");
    assert_eq!(trim(" \u{2003}\r\n"), "");
    assert_eq!(trim("x"), "x");
    assert_eq!(trim("Bienenz\u{fc}chter  "), "Bienenz\u{fc}chter");
}

#[test]
fn trim_agrees_with_std() {
    let samples = [
        "", " ", "a", " a", "a ", " a b ", "\u{a0}\u{1680}x\u{2028}\u{2029}", "\u{200b}x\u{200b}",
        "  \u{feff}y  ", "\n{\"k\": 1}\n", "\u{85}z\u{85}", "\u{1f600} ",
    ];
    for s in samples {
        assert_eq!(trim(s), s.trim(), "{:?}", s);
    }
}

#[test]
fn str_eq_compares_texts() {
    assert!(str_eq("", ""));
    assert!(str_eq("Imker", "Imker"));
    assert!(!str_eq("Imker", "imker"));
    assert!(!str_eq("Imker", "Imke"));
    assert!(!str_eq("Imke", "Imker"));
    assert!(str_eq("K\u{f6}ter", "K\u{f6}ter"));
}

#[test]
fn text_order_is_lexicographic() {
    assert_eq!(text_order("apiarist", "beekeeper"), TextOrder::Before);
    assert_eq!(text_order("beekeeper", "apiarist"), TextOrder::After);
    assert_eq!(text_order("bee", "beekeeper"), TextOrder::Before);
    assert_eq!(text_order("beekeeper", "bee"), TextOrder::After);
    assert_eq!(text_order("bee", "bee"), TextOrder::Same);
    assert_eq!(text_order("", ""), TextOrder::Same);
    assert_eq!(text_order("", "a"), TextOrder::Before);
    assert_eq!(text_order("Z", "a"), TextOrder::Before);
    assert_eq!(text_order("Bienenhalter", "Bienenz\u{fc}chter"), TextOrder::Before);
    assert_eq!(text_order("z", "\u{e4}"), TextOrder::Before);
}

#[test]
fn text_order_agrees_with_std() {
    let samples = ["", "a", "ab", "b", "B", "\u{e4}", "\u{20ac}", "\u{1f600}", "\u{ffff}", "zz"];
    for a in samples {
        for b in samples {
            let expected = if a < b {
                TextOrder::Before
            } else if a == b {
                TextOrder::Same
            } else {
                TextOrder::After
            };
            assert_eq!(text_order(a, b), expected, "{:?} {:?}", a, b);
        }
    }
}

#[test]
fn decimal_string_writes_numerals() {
    assert_eq!(decimal_string(0), "0");
    assert_eq!(decimal_string(7), "7");
    assert_eq!(decimal_string(10), "10");
    assert_eq!(decimal_string(513), "513");
    assert_eq!(decimal_string(1234567890), "1234567890");
    assert_eq!(decimal_string(usize::MAX), usize::MAX.to_string());
}
