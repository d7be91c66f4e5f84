use cargo_q::text::{is_space_char, split_on, split_words};

#[test]
fn words_are_maximal_runs_of_non_space() {
    assert_eq!(split_words("  a bc\t\nd  "), vec!["a", "bc", "d"]);
    assert!(split_words("").is_empty());
    assert!(split_words(" \t ").is_empty());
    assert_eq!(split_words("é\u{2003}ü"), vec!["é", "ü"]);
}

#[test]
fn pieces_keep_empty_parts() {
    assert_eq!(split_on("a;;b", ';'), vec!["a", "", "b"]);
    assert_eq!(split_on("", '&'), vec![""]);
    assert_eq!(split_on("&x&", '&'), vec!["", "x", ""]);
    assert_eq!(split_on("no separator", '&'), vec!["no separator"]);
}

#[test]
fn space_matches_std_whitespace() {
    for u in 0u32..0x3100 {
        if let Some(c) = char::from_u32(u) {
            assert_eq!(is_space_char(c), c.is_whitespace(), "{:x}", u);
        }
    }
}
