use pc_booster::text::{
    chars_of, compare_str, concat3, concat4, decimal_string, is_white_space_char, join_strings,
    str_contains, str_eq, string_from_chars, trim_vec,
};
use pc_booster::wide::{string_from_wide, to_pcwstr};

#[test]
fn decimal_string_matches_to_string() {
    for n in [0u64, 1, 9, 10, 99, 100, 12345, u32::MAX as u64, u64::MAX] {
        assert_eq!(decimal_string(n), n.to_string());
    }
    assert_eq!(decimal_string(42), "42");
}

#[test]
fn string_from_chars_keeps_order() {
    let v = vec!['a', 'é', '字', '😀'];
    assert_eq!(string_from_chars(&v), "aé字😀");
    assert_eq!(chars_of("aé字😀"), v);
}

#[test]
fn str_eq_compares_text() {
    assert!(str_eq("Running", "Running"));
    assert!(!str_eq("Running", "Runnin"));
    assert!(!str_eq("Running", "running"));
    assert!(str_eq("", ""));
}

#[test]
fn compare_str_follows_str_order() {
    let words = ["", "a", "ab", "b", "B", "Zeta", "zeta", "é", "e", "\u{FFFF}", "😀", "ab\u{0}"];
    for a in words.iter() {
        for b in words.iter() {
            let expected: i8 = match a.cmp(b) {
                std::cmp::Ordering::Less => -1,
                std::cmp::Ordering::Equal => 0,
                std::cmp::Ordering::Greater => 1,
            };
            assert_eq!(compare_str(a, b), expected, "{:?} vs {:?}", a, b);
        }
    }
}

#[test]
fn str_contains_matches_std() {
    let hays = ["Exiting...", "Services refreshed", "", "xExitingx", "Exitin", "ExExiting"];
    for h in hays.iter() {
        for n in ["Exiting", "", "x", "ing.."].iter() {
            assert_eq!(str_contains(h, n), h.contains(n), "{:?} in {:?}", n, h);
        }
    }
}

#[test]
fn white_space_matches_char_is_whitespace() {
    for u in 0u32..=0x10FFFF {
        if let Some(c) = char::from_u32(u) {
            assert_eq!(is_white_space_char(c), c.is_whitespace(), "U+{:04X}", u);
        }
    }
}

#[test]
fn trim_matches_str_trim() {
    for s in ["  a b  ", "\t\n x\u{3000}", "", "   ", "abc", "\u{85}y\u{A0}", " é "].iter() {
        let t = trim_vec(&chars_of(s));
        assert_eq!(string_from_chars(&t), s.trim());
    }
}

#[test]
fn join_strings_matches_join() {
    let parts = vec!["WSearch".to_string(), "SysMain".to_string(), "DiagTrack".to_string()];
    assert_eq!(join_strings(&parts, ", "), "WSearch, SysMain, DiagTrack");
    assert_eq!(join_strings(&Vec::new(), ", "), "");
    assert_eq!(join_strings(&vec!["one".to_string()], ", "), "one");
}

#[test]
fn concat_writes_in_order() {
    assert_eq!(concat3("Service '", "Fax", "' stopped"), "Service 'Fax' stopped");
    assert_eq!(concat4("Failed to stop '", "Fax", "': ", "denied"), "Failed to stop 'Fax': denied");
}

#[test]
fn to_pcwstr_is_utf16_with_nul() {
    for s in ["WSearch", "", "é字", "😀x", "a\u{10FFFF}"].iter() {
        let mut expected: Vec<u16> = s.encode_utf16().collect();
        expected.push(0);
        assert_eq!(to_pcwstr(s), expected);
    }
    assert_eq!(to_pcwstr("ab"), vec![0x61, 0x62, 0]);
}

#[test]
fn string_from_wide_stops_at_nul_and_decodes_lossily() {
    assert_eq!(string_from_wide(&[0x61, 0x62, 0, 0x63]), "ab");
    assert_eq!(string_from_wide(&[0x61, 0x62]), "ab");
    assert_eq!(string_from_wide(&[]), "");
    assert_eq!(string_from_wide(&[0xD83D, 0xDE00, 0]), "😀");
    let cases: Vec<Vec<u16>> = vec![
        vec![0xD800],
        vec![0xDC00, 0x41],
        vec![0xD800, 0x41],
        vec![0xD800, 0xD800, 0xDC00],
        vec![0x41, 0xDBFF, 0xDFFF, 0xDFFF],
        vec![0xFFFD, 0xE000, 0x20AC],
    ];
    for c in cases.iter() {
        assert_eq!(string_from_wide(c), String::from_utf16_lossy(c), "{:?}", c);
    }
}

#[test]
fn wide_round_trip_concrete() {
    for s in ["Windows Search", "é字😀", ""].iter() {
        assert_eq!(string_from_wide(&to_pcwstr(s)), *s);
    }
}
