use whisrs::text::{decimal_text, join, trim, white_space};

#[test]
fn white_space_is_that_of_std() {
    for c in '\0'..=char::MAX {
        assert_eq!(white_space(c), c.is_whitespace(), "{:?}", c);
    }
}

#[test]
fn trim_is_that_of_std() {
    for s in ["", " ", "a", " a", "a ", "\u{3000}\t a b \n\u{2028}", "  \r\n ", "ä — ö "] {
        assert_eq!(trim(s), s.trim());
    }
}

#[test]
fn join_is_that_of_std() {
    for parts in [vec![], vec!["a"], vec!["a", "b"], vec!["", "", "c"]] {
        let parts: Vec<String> = parts.iter().map(|part| part.to_string()).collect();
        assert_eq!(join(&parts, " "), parts.join(" "));
    }
}

#[test]
fn decimal_is_that_of_std() {
    for n in [0, 1, 9, 10, 19, 100, 1_000_009, u64::MAX as u128, u128::MAX] {
        assert_eq!(decimal_text(n), n.to_string());
    }
}
