use zxc::text::same_text;

#[test]
fn equal_texts_are_the_same() {
    assert!(same_text("", ""));
    assert!(same_text("greet", "greet"));
    assert!(same_text("grüße", "grüße"));
    let owned = String::from("zxc.yml");
    assert!(same_text(&owned, "zxc.yml"));
}

#[test]
fn different_texts_are_not_the_same() {
    assert!(!same_text("", "a"));
    assert!(!same_text("a", ""));
    assert!(!same_text("greet", "great"));
    assert!(!same_text("greet", "greets"));
    assert!(!same_text("Greet", "greet"));
    assert!(!same_text("é", "e"));
    assert!(!same_text("ab", "ba"));
}
