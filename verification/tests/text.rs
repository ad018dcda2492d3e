use spread_circuit::text::{
    characters, contains, eq_ignore_case, find, join, replace, same, split, trim,
};

#[test]
fn trimming_agrees_with_the_standard_library() {
    for text in ["", " ", "a", " a b ", "\t\r\n x \u{b}\u{c}", "\u{a0}y\u{3000}", "\u{200b}z", "\u{85}q"] {
        assert_eq!(trim(text), text.trim());
    }
}

#[test]
fn splitting_agrees_with_the_standard_library() {
    for text in ["", ",", "a", "a,b", ",a,,b,", "交易,对"] {
        assert_eq!(split(text, ','), text.split(',').map(str::to_owned).collect::<Vec<_>>());
    }
}

#[test]
fn comparing_ignores_the_case_of_ascii_letters_only() {
    for (a, b) in [("USDC", "usdc"), ("a", "b"), ("É", "é"), ("abc", "ab"), ("[", "{"), ("", "")] {
        assert_eq!(eq_ignore_case(a, b), a.eq_ignore_ascii_case(b));
        assert_eq!(same(a, b), a == b);
    }
}

#[test]
fn searching_and_replacing_agree_with_the_standard_library() {
    for (text, part) in [("aXbXc", "X"), ("aaaa", "aa"), ("", "x"), ("x", "xx"), ("日本語日本", "日本"), ("abc", "c")] {
        assert_eq!(contains(text, part), text.contains(part));
        assert_eq!(replace(text, part, "<>"), text.replace(part, "<>"));
    }
    assert_eq!(replace("abc", "", "<>"), "abc");
    assert_eq!(find(&characters("a://b://c"), &characters("://"), 2), Some(5));
    assert_eq!(join("a", "b"), "ab");
}
