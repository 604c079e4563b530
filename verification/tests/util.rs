use lexical_items::util::{truncate, width_of, MAX};

/// The cut as the standard library finds it: at the last start of a
/// character that is no further than `MAX` bytes in.
fn expected(s: &str) -> String {
    if s.len() > MAX {
        let end = s.char_indices().map(|(i, _)| i).take_while(|&i| i <= MAX).last().unwrap_or(MAX);
        format!("{}… ({} bytes)", &s[..end], s.len())
    } else {
        s.to_string()
    }
}

#[test]
fn short_text_is_its_own_preview() {
    assert_eq!(truncate(""), "");
    assert_eq!(truncate("{ error }"), "{ error }");
    let exactly = "a".repeat(512);
    assert_eq!(truncate(&exactly), exactly);
    let umlauts = "\u{fc}".repeat(256);
    assert_eq!(truncate(&umlauts), umlauts);
}

#[test]
fn long_text_is_cut_after_512_bytes() {
    let long = "a".repeat(513);
    assert_eq!(truncate(&long), format!("{}\u{2026} (513 bytes)", "a".repeat(512)));
    let longer = "ab".repeat(1000);
    assert_eq!(truncate(&longer), format!("{}\u{2026} (2000 bytes)", "ab".repeat(256)));
}

#[test]
fn cut_falls_between_two_characters() {
    let s = format!("{}\u{e9}tail", "a".repeat(511));
    assert_eq!(s.len(), 517);
    assert_eq!(truncate(&s), format!("{}\u{2026} (517 bytes)", "a".repeat(511)));

    let t = format!("{}\u{e9}tail", "a".repeat(510));
    assert_eq!(truncate(&t), format!("{}\u{e9}\u{2026} (516 bytes)", "a".repeat(510)));

    let wide = "\u{1f600}".repeat(200);
    assert_eq!(truncate(&wide), format!("{}\u{2026} (800 bytes)", "\u{1f600}".repeat(128)));

    let three = "\u{20ac}".repeat(171);
    assert_eq!(truncate(&three), format!("{}\u{2026} (513 bytes)", "\u{20ac}".repeat(170)));
}

#[test]
fn truncate_agrees_with_the_cut_of_the_standard_library() {
    let pieces = ["a", "\u{e9}", "\u{20ac}", "\u{1f600}", "ab\u{fc}", " \n"];
    for lead in 0..6usize {
        for piece in pieces {
            for count in [0usize, 1, 100, 128, 170, 171, 255, 256, 257, 511, 512, 513, 700] {
                let s = format!("{}{}", "x".repeat(lead), piece.repeat(count));
                assert_eq!(truncate(&s), expected(&s), "{} {:?} {}", lead, piece, count);
            }
        }
    }
}

#[test]
fn width_is_the_length_of_the_encoding() {
    assert_eq!(width_of('a'), 1);
    assert_eq!(width_of('\u{7f}'), 1);
    assert_eq!(width_of('\u{80}'), 2);
    assert_eq!(width_of('\u{7ff}'), 2);
    assert_eq!(width_of('\u{800}'), 3);
    assert_eq!(width_of('\u{ffff}'), 3);
    assert_eq!(width_of('\u{10000}'), 4);
    assert_eq!(width_of('\u{10ffff}'), 4);
    let mut c: u32 = 0;
    while c <= 0x10FFFF {
        if let Some(ch) = char::from_u32(c) {
            assert_eq!(width_of(ch), ch.len_utf8());
        }
        c += 97;
    }
}
