use just_notes::threads::title::{normalized_external_title, validated_title};

#[test]
fn trims_and_validates_titles() {
    assert_eq!(
        validated_title("  Design review  ").unwrap(),
        "Design review"
    );
    assert!(validated_title("   ").is_err());
    assert!(validated_title(&"x".repeat(121)).is_err());
}

#[test]
fn external_titles_are_trimmed_and_bounded() {
    let title = normalized_external_title(&format!("  {}  ", "x".repeat(140)));
    assert_eq!(title.chars().count(), 120);
    assert_eq!(normalized_external_title("  "), "Untitled thread");
}

#[test]
fn validation_errors_name_the_problem() {
    assert_eq!(
        validated_title(" \t "),
        Err("Thread title cannot be empty".to_string())
    );
    assert_eq!(
        validated_title(&"y".repeat(121)),
        Err("Thread title must stay under 120 characters".to_string())
    );
    assert_eq!(validated_title(&"y".repeat(120)), Ok("y".repeat(120).as_str()));
}

#[test]
fn an_external_title_is_always_a_valid_title() {
    for raw in ["", "   ", "  Weekly sync ", "x"] {
        let title = normalized_external_title(raw);
        assert!(validated_title(&title).is_ok());
    }
    let long = format!("{} {}", "a".repeat(119), "b".repeat(30));
    let title = normalized_external_title(&long);
    assert_eq!(title.chars().count(), 120);
    assert!(validated_title(&title).is_ok());
}
