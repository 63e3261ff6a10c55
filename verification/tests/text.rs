use twoblade_client::text::find_char_in;
use twoblade_client::text::split_str;
use twoblade_client::text::str_eq_chars;
use twoblade_client::text::trim_str;

#[test]
fn find_char_in_names_the_first_occurrence() {
    assert_eq!(find_char_in("a=b=c", '='), Some(1));
    assert_eq!(find_char_in("abc", '='), None);
    assert_eq!(find_char_in("", '='), None);
}

#[test]
fn trim_str_strips_both_ends_only() {
    assert_eq!(trim_str("  a b  "), "a b");
    assert_eq!(trim_str("\t\r\n"), "");
    assert_eq!(trim_str("ab"), "ab");
}

#[test]
fn split_str_keeps_empty_segments() {
    let parts = split_str("a;;b;", ';');
    let views: Vec<&str> = parts.iter().map(|p| p.as_str()).collect();
    assert_eq!(views, vec!["a", "", "b", ""]);
    let whole = split_str("abc", ';');
    let whole_views: Vec<&str> = whole.iter().map(|p| p.as_str()).collect();
    assert_eq!(whole_views, vec!["abc"]);
}

#[test]
fn str_eq_chars_compares_by_characters() {
    assert!(str_eq_chars("abc", "abc"));
    assert!(!str_eq_chars("abc", "abd"));
    assert!(!str_eq_chars("abc", "ab"));
    assert!(str_eq_chars("", ""));
}
