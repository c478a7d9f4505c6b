use portfolio_feeds::contact::{
    render_contact_template, validate_message_content, validate_name, validate_text, ContentError,
    EmailMessage, Request,
};

#[test]
fn test_valid_request() {
    let request = Request {
        name: "John Doe".to_string(),
        email: "john@example.com".to_string(),
        subject: "Test Subject".to_string(),
        message: "This is a valid message with good content.".to_string(),
        is_test: false,
    };
    assert!(request.validate().is_ok());
}

#[test]
fn test_invalid_name() {
    let request = Request {
        name: "John123".to_string(),
        email: "john@example.com".to_string(),
        subject: "Test Subject".to_string(),
        message: "Valid message".to_string(),
        is_test: false,
    };
    assert!(request.validate().is_err());
}

#[test]
fn test_invalid_email() {
    let request = Request {
        name: "John".to_string(),
        email: "not-an-email".to_string(),
        subject: "Test Subject".to_string(),
        message: "Valid message".to_string(),
        is_test: false,
    };
    assert!(request.validate().is_err());
}

#[test]
fn test_invalid_subject() {
    let request = Request {
        name: "John".to_string(),
        email: "john@example.com".to_string(),
        subject: "Test <script>alert('xss')</script>".to_string(),
        message: "Valid message".to_string(),
        is_test: false,
    };
    assert!(request.validate().is_err());
}

#[test]
fn test_message_with_html() {
    let request = Request {
        name: "John".to_string(),
        email: "john@example.com".to_string(),
        subject: "Test Subject".to_string(),
        message: "Message with <script>alert('xss')</script>".to_string(),
        is_test: false,
    };
    assert!(request.validate().is_err());
}

#[test]
fn test_message_with_too_many_links() {
    let request = Request {
        name: "John".to_string(),
        email: "john@example.com".to_string(),
        subject: "Test Subject".to_string(),
        message: "http://spam1.com http://spam2.com http://spam3.com http://spam4.com".to_string(),
        is_test: false,
    };
    assert!(request.validate().is_err());
}

#[test]
fn test_message_with_char_repetition() {
    let request = Request {
        name: "John".to_string(),
        email: "john@example.com".to_string(),
        subject: "Test Subject".to_string(),
        message: "a".repeat(51),
        is_test: false,
    };
    assert!(request.validate().is_err());
}

#[test]
fn test_render_contact_template() {
    let html = render_contact_template("John Doe", "john@example.com", "Test Subject", "Test message")
        .unwrap();

    assert!(html.contains("John Doe"));
    assert!(html.contains("john@example.com"));
    assert!(html.contains("Test Subject"));
    assert!(html.contains("Test message"));
}

#[test]
fn rendered_template_escapes_html() {
    let html = render_contact_template("A <b>", "a@b.co", "Hi", "x").unwrap();
    assert!(html.contains("A &lt;b&gt;"));
    assert!(!html.contains("<b>"));
}

#[test]
fn failure_lists_every_broken_field() {
    let request = Request {
        name: "J".to_string(),
        email: "john@example.com".to_string(),
        subject: "Fine subject".to_string(),
        message: "short".to_string(),
        is_test: true,
    };
    let failure = request.validate().unwrap_err();
    assert!(failure.name);
    assert!(!failure.email);
    assert!(!failure.subject);
    assert!(failure.message);
}

#[test]
fn length_bounds_are_inclusive() {
    let request = Request {
        name: "Jo".to_string(),
        email: "jo@example.com".to_string(),
        subject: "Hi".to_string(),
        message: "b".repeat(10),
        is_test: false,
    };
    assert!(request.validate().is_ok());
    let long = Request {
        name: "Jo".to_string(),
        email: "jo@example.com".to_string(),
        subject: "Hi".to_string(),
        message: "abcdefghij".repeat(101),
        is_test: false,
    };
    assert!(long.validate().unwrap_err().message);
}

#[test]
fn accented_names_are_letters() {
    assert_eq!(validate_name("Jean-Luc O'Brien Éloïse"), Ok(()));
    assert_eq!(validate_name("R2D2"), Err(ContentError::DisallowedCharacters));
}

#[test]
fn safe_text_refuses_brackets() {
    assert_eq!(validate_text("Question: prix 10% (TTC)?"), Ok(()));
    assert_eq!(validate_text("a <b>"), Err(ContentError::DisallowedCharacters));
}

#[test]
fn message_content_errors_in_order() {
    assert_eq!(validate_message_content("fine text here"), Ok(()));
    assert_eq!(validate_message_content("x > y"), Err(ContentError::HtmlCharacters));
    assert_eq!(
        validate_message_content("http http http http <"),
        Err(ContentError::HtmlCharacters)
    );
    assert_eq!(validate_message_content("http http http"), Ok(()));
    assert_eq!(
        validate_message_content("http http http http"),
        Err(ContentError::TooManyLinks)
    );
    assert_eq!(validate_message_content(&"z".repeat(50)), Ok(()));
    assert_eq!(
        validate_message_content(&"z".repeat(51)),
        Err(ContentError::RepeatedCharacters)
    );
}

#[test]
fn delivery_notice_names_recipient_and_subject() {
    let m = EmailMessage {
        to: "test@example.com".to_string(),
        subject: "Test Subject".to_string(),
        body: "<p>Test content</p>".to_string(),
    };
    assert_eq!(m.delivery_notice(), "Email sent to test@example.com with subject: Test Subject");
}

#[test]
fn sample_contact_request_can_be_created() {
    let contact = Request {
        name: "Test User".to_string(),
        email: "test@example.com".to_string(),
        subject: "Test Subject".to_string(),
        message: "This is a valid test message for the contact form".to_string(),
        is_test: false,
    };

    assert_eq!(contact.name, "Test User");
    assert_eq!(contact.email, "test@example.com");
}

#[test]
fn contact_validation_works() {
    let valid_contact = Request {
        name: "John Doe".to_string(),
        email: "john@example.com".to_string(),
        subject: "Valid Subject".to_string(),
        message: "This is a valid message for testing purposes".to_string(),
        is_test: false,
    };

    assert!(valid_contact.validate().is_ok());
}

#[test]
fn invalid_contact_fails_validation() {
    let invalid_contact = Request {
        name: "John123".to_string(),
        email: "john@example.com".to_string(),
        subject: "Valid Subject".to_string(),
        message: "This is a valid message for testing purposes".to_string(),
        is_test: false,
    };

    assert!(invalid_contact.validate().is_err());
}
