use cluebot::email::{compose_email, EmailChannel, EmailConfig};

#[test]
fn test_email_config_gmail() {
    let config = EmailConfig::email("test@gmail.com", "password");
    assert_eq!(config.smtp_server, "smtp.gmail.com");
    assert_eq!(config.smtp_port, 587);
    assert_eq!(config.from_email, "test@gmail.com");
}

#[test]
fn test_email_config_qq() {
    let config = EmailConfig::qq("test@qq.com", "password");
    assert_eq!(config.smtp_server, "smtp.qq.com");
    assert_eq!(config.smtp_port, 587);
}

#[test]
fn test_email_config_custom() {
    let config = EmailConfig::custom("mail.corp.example", 465, "alerts@corp.example", "svc-user", "pw", false);
    assert_eq!(config.smtp_server, "mail.corp.example");
    assert_eq!(config.smtp_port, 465);
    assert_eq!(config.from_email, "alerts@corp.example");
    assert_eq!(config.username, "svc-user");
    assert_eq!(config.password, "pw");
    assert_eq!(config.from_name, "ClueBot");
    assert!(!config.use_tls);
}

#[test]
fn test_email_channel_creation() {
    let config = EmailConfig::email("test@gmail.com", "password");
    let channel = EmailChannel::new(config).with_recipients(vec!["recipient@example.com".to_string()]);

    assert_eq!(channel.name(), "Email");
    assert_eq!(channel.recipients().len(), 1);
}

#[test]
fn test_add_recipient_chains() {
    let mut channel = EmailChannel::new(EmailConfig::qq("me@qq.com", "pw"));
    channel.add_recipient("a@example.com").add_recipient("b@example.com");
    assert_eq!(channel.recipients(), &vec!["a@example.com".to_string(), "b@example.com".to_string()]);
    assert_eq!(channel.sender(), "ClueBot <me@qq.com>");
}

#[test]
fn test_format_email_content() {
    let config = EmailConfig::email("test@gmail.com", "password");
    let channel = EmailChannel::new(config);

    // JSON message
    let json_msg = r#"{"strategy_name": "TestStrategy", "signal_type": "Buy"}"#;
    let (subject, body) = channel.format_email_content(json_msg);

    assert!(subject.contains("TestStrategy"));
    assert!(body.contains("ClueBot Trading Alert"));
    assert!(body.contains("Buy"));

    // Plain message
    let plain_msg = "Simple notification";
    let (subject, body) = channel.format_email_content(plain_msg);

    assert_eq!(subject, "[ClueBot] Notification");
    assert!(body.contains("Simple notification"));
}

#[test]
fn test_format_email_content_exact() {
    let channel = EmailChannel::new(EmailConfig::email("a@b.c", "p"));
    let (subject, body) = channel.format_email_content("{\"strategy_name\":\"S\"}");
    assert_eq!(subject, "[ClueBot] S");
    assert_eq!(body, "ClueBot Trading Alert\n\n{\n  \"strategy_name\": \"S\"\n}\n\n---\nGenerated by ClueBot");

    // JSON without a strategy name, or with a non-string one.
    let (subject, _) = channel.format_email_content("{\"x\": 1}");
    assert_eq!(subject, "[ClueBot] Trading Signal");
    let (subject, _) = channel.format_email_content("{\"strategy_name\": 7}");
    assert_eq!(subject, "[ClueBot] Trading Signal");

    let (subject, body) = channel.format_email_content("not json {");
    assert_eq!(subject, "[ClueBot] Notification");
    assert_eq!(body, "not json {\n\n---\nGenerated by ClueBot");
}

#[test]
fn test_compose_email_cases() {
    let (s, b) = compose_email("m", None);
    assert_eq!(s, "[ClueBot] Notification");
    assert_eq!(b, "m\n\n---\nGenerated by ClueBot");
    let (s, b) = compose_email("raw", Some((None, None)));
    assert_eq!(s, "[ClueBot] Trading Signal");
    assert_eq!(b, "ClueBot Trading Alert\n\nraw\n\n---\nGenerated by ClueBot");
    let (s, b) = compose_email("raw", Some((Some("N".to_string()), Some("P".to_string()))));
    assert_eq!(s, "[ClueBot] N");
    assert_eq!(b, "ClueBot Trading Alert\n\nP\n\n---\nGenerated by ClueBot");
}
