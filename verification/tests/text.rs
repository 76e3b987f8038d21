use lightning::text::{first_word, remove_chars};

#[test]
fn removes_signs() {
    assert_eq!(remove_chars("+20%", '+', '%'), "20");
    assert_eq!(remove_chars("abc", '+', '%'), "abc");
    assert_eq!(remove_chars("", '+', '%'), "");
}

#[test]
fn first_word_before_space() {
    assert_eq!(first_word("20 (Max)"), "20");
    assert_eq!(first_word("18"), "18");
    assert_eq!(first_word(" x"), "");
}
