use horb::text::{is_unicode_whitespace, parse_list_string, safe_state_tag, split_trimmed, str_eq};

#[test]
fn split_keeps_empty_fields() {
    assert_eq!(split_trimmed("a, b,,c "), vec!["a", "b", "", "c"]);
    assert_eq!(split_trimmed(""), vec![""]);
    assert_eq!(split_trimmed(","), vec!["", ""]);
    assert_eq!(split_trimmed(" 0.6 ,0.8,\t1.0"), vec!["0.6", "0.8", "1.0"]);
}

#[test]
fn list_string_drops_empty_fields() {
    assert_eq!(
        parse_list_string("1s,2p_z, 3d_z2 ,,"),
        vec!["1s", "2p_z", "3d_z2"]
    );
    assert!(parse_list_string("").is_empty());
    assert!(parse_list_string(" , ,").is_empty());
}

#[test]
fn trimming_uses_unicode_whitespace() {
    assert_eq!(split_trimmed("\u{3000}x\u{a0},\u{2009}y z\u{85}"), vec!["x", "y z"]);
    assert!(is_unicode_whitespace('\u{1680}'));
    assert!(is_unicode_whitespace('\n'));
    assert!(!is_unicode_whitespace('\u{200b}'));
    assert!(!is_unicode_whitespace('x'));
    for c in ['\t', ' ', '\u{a0}', '\u{2028}', '\u{202f}', '\u{205f}', '\u{3000}', 'a', '\u{feff}'] {
        assert_eq!(is_unicode_whitespace(c), c.is_whitespace());
    }
}

#[test]
fn state_tags_replace_slashes() {
    assert_eq!(safe_state_tag("3d_z2/3d_xy"), "3d_z2_3d_xy");
    assert_eq!(safe_state_tag("//"), "__");
    assert_eq!(safe_state_tag("1s"), "1s");
    let once = safe_state_tag("a/b/c");
    assert_eq!(safe_state_tag(&once), once);
}

#[test]
fn string_equality() {
    assert!(str_eq("nfw", "nfw"));
    assert!(!str_eq("nfw", "NFW"));
    assert!(!str_eq("nfw", "nfw "));
    assert!(str_eq("", ""));
}

#[test]
fn list_entries_are_clean() {
    let out = parse_list_string(" a b ,\u{a0}c\u{2003},,\t, d ");
    assert_eq!(out, vec!["a b", "c", "d"]);
    for e in &out {
        assert!(!e.is_empty());
        assert!(!e.contains(','));
        assert_eq!(e.trim(), e.as_str());
    }
}

#[test]
fn field_count_is_comma_count_plus_one() {
    for s in ["", ",", ",,a,", "a", " a , b , c "] {
        let commas = s.chars().filter(|&c| c == ',').count();
        assert_eq!(split_trimmed(s).len(), commas + 1);
    }
}
