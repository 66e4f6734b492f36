use notification_behaviour::text::str_eq;

#[test]
fn equal_text_is_equal() {
    assert!(str_eq("", ""));
    assert!(str_eq("show", "show"));
    assert!(str_eq("näme ☝", "näme ☝"));
}

#[test]
fn different_text_is_different() {
    assert!(!str_eq("show", "shown"));
    assert!(!str_eq("shown", "show"));
    assert!(!str_eq("show", "shoW"));
    assert!(!str_eq("", "a"));
    assert!(!str_eq("ä", "a"));
}
