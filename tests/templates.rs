use transcription_core::sanitize_template_id;

#[test]
fn test_sanitize_template_id_valid() {
    assert_eq!(sanitize_template_id("my_template_1").unwrap(), "my_template_1");
}

#[test]
fn test_sanitize_template_id_invalid_chars() {
    assert!(sanitize_template_id("my-template").is_err());
    assert!(sanitize_template_id("../hack").is_err());
    assert!(sanitize_template_id("My Template").is_err());
}

#[test]
fn test_sanitize_template_id_empty() {
    assert!(sanitize_template_id("").is_err());
    assert!(sanitize_template_id("...").is_err());
}

#[test]
fn sanitize_suggests_cleaned_identifier() {
    assert_eq!(
        sanitize_template_id("my-template").unwrap_err(),
        "Template ID contains invalid characters. Only lowercase letters, digits, and underscores are allowed. Suggested: 'mytemplate'"
    );
    assert_eq!(
        sanitize_template_id("...").unwrap_err(),
        "Template ID must contain at least one valid character (a-z, 0-9, _)"
    );
}
