use errbit::{
    serialize_severity, BacktraceInfo, Config, Context, ErrorInfo, Notice, NotifierInfo,
    Severity,
};

fn parse_error() -> std::num::ParseIntError {
    let double_number = |number_str: &str| -> Result<i32, std::num::ParseIntError> {
        number_str.parse::<i32>().map(|n| 2 * n)
    };
    double_number("NOT A NUMBER").err().unwrap()
}

fn chained_error() -> anyhow::Error {
    let number_str = "NOT A NUMBER";
    match number_str.parse::<i32>() {
        Ok(_) => unreachable!(),
        Err(e) => anyhow::Error::new(e).context(format!("Failed to parse number_str of {}", number_str)),
    }
}

fn test_config() -> Config {
    Config::from_settings(
        None,
        None,
        None,
        Some("test".to_owned()),
        Some("linux".to_owned()),
        Some("host".to_owned()),
        Some("/root".to_owned()),
    )
}

#[test]
fn test_error_info_from_std_error() {
    let err = parse_error();
    let error_info = ErrorInfo::new_with_error(&err).unwrap();
    assert!(error_info.backtrace.is_none());
}

#[test]
fn test_error_info_from_anyhow() {
    let err = chained_error();
    let error_info = ErrorInfo::from_anyhow(&err).unwrap();
    assert!(error_info.backtrace.unwrap().len() > 0);
}

#[test]
fn test_notice() {
    let error_info = ErrorInfo {
        type_: "Error".to_owned(),
        message: "This is test".to_owned(),
        backtrace: None,
    };
    let mut context = Context::default();
    context.http_method = Some("GET".to_owned());
    let notice = Notice {
        errors: vec![error_info],
        context,
        environment: None,
        session: None,
        params: Some(
            [("param1".to_owned(), "1".to_owned())]
                .iter()
                .cloned()
                .collect(),
        ),
    };
    let json = notice.to_json();
    let expected = r##"{"errors":[{"type":"Error","message":"This is test"}],"context":{"httpMethod":"GET"},"params":{"param1":"1"}}"##;
    assert_eq!(json, expected);
}

#[test]
fn test_notice2() {
    let error_info = ErrorInfo {
        type_: "Error".to_owned(),
        message: "This is test".to_owned(),
        backtrace: None,
    };
    let mut context = Context::default();
    context.http_method = Some("POST".to_owned());
    context.severity = Some(Severity::INFO);
    context.notifier = Some(NotifierInfo::default());
    let notice = Notice {
        errors: vec![error_info],
        context,
        environment: None,
        session: None,
        params: None,
    };
    let json = notice.to_json();
    let expected = r##"{"errors":[{"type":"Error","message":"This is test"}],"context":{"notifier":{"name":"errbit","version":"0.1.0","url":"https://github.com/kumanote/errbit-rs"},"severity":"info","httpMethod":"POST"}}"##;
    assert_eq!(json, expected);
}

#[test]
fn simple_error_kind_and_message() {
    let info = ErrorInfo::new_with_error(&parse_error()).unwrap();
    assert_eq!(info.type_, "ParseIntError");
    assert_eq!(info.message, "invalid digit found in string");
    assert!(info.backtrace.is_none());
}

#[test]
fn chained_error_kind_from_root_cause() {
    let info = ErrorInfo::from_anyhow(&chained_error()).unwrap();
    assert_eq!(info.type_, "ParseIntError");
    assert_eq!(info.message, "Failed to parse number_str of NOT A NUMBER");
    assert!(info.backtrace.is_some());
}

#[test]
fn classify_empty_trace_is_present_and_empty() {
    let info = ErrorInfo::classify("Kind { x: 1 }", "m".to_owned(), Some("")).unwrap();
    assert_eq!(info.type_, "Kind");
    assert_eq!(info.backtrace.unwrap().len(), 0);
}

#[test]
fn classify_without_trace_has_none() {
    let info = ErrorInfo::classify("  Io(Custom)", "m".to_owned(), None).unwrap();
    assert_eq!(info.type_, "Io(Custom)");
    assert!(info.backtrace.is_none());
}

#[test]
fn classify_without_word_fails() {
    assert!(ErrorInfo::classify("", "m".to_owned(), None).is_none());
    assert!(ErrorInfo::classify(" \t\n ", "m".to_owned(), Some("f")).is_none());
}

#[test]
fn classify_parses_trace() {
    let info = ErrorInfo::classify("E", "m".to_owned(), Some("foo\nat bar.rs:10:5")).unwrap();
    let frames = info.backtrace.unwrap();
    assert_eq!(frames.len(), 1);
    assert_eq!(frames[0].function.as_deref(), Some("foo"));
    assert_eq!(frames[0].line, Some(10));
}

#[test]
fn notice_from_std_error_is_error_severity() {
    let config = test_config();
    let notice = Notice::new_from_std_error(&parse_error(), &config).unwrap();
    assert_eq!(notice.errors.len(), 1);
    assert_eq!(notice.context.severity, Some(Severity::ERROR));
    assert_eq!(notice.context.environment.as_deref(), Some("test"));
    assert_eq!(notice.context.os.as_deref(), Some("linux"));
    assert_eq!(notice.context.hostname.as_deref(), Some("host"));
    assert_eq!(notice.context.root_directory.as_deref(), Some("/root"));
    assert!(notice.context.user_agent.is_none());
    assert!(notice.context.notifier.is_some());
    assert!(notice.params.is_none());
}

#[test]
fn notice_from_anyhow_error_has_trace() {
    let config = test_config();
    let notice = Notice::new_from_anyhow_error(&chained_error(), &config).unwrap();
    assert_eq!(notice.errors.len(), 1);
    assert!(notice.errors[0].backtrace.is_some());
    assert_eq!(notice.context.severity, Some(Severity::ERROR));
}

#[test]
fn context_from_config_copies_fields() {
    let config = test_config();
    let context = Context::new_from_config(&config);
    assert_eq!(context.environment.as_deref(), Some("test"));
    assert!(context.severity.is_none());
    assert!(context.http_method.is_none());
    let notifier = context.notifier.unwrap();
    assert_eq!(notifier.name.as_deref(), Some("errbit"));
}

#[test]
fn absent_fields_give_only_errors_and_context() {
    let notice = Notice {
        errors: vec![ErrorInfo {
            type_: "E".to_owned(),
            message: "m".to_owned(),
            backtrace: None,
        }],
        context: Context::default(),
        environment: None,
        session: None,
        params: None,
    };
    let json = notice.to_json();
    assert_eq!(json, r#"{"errors":[{"type":"E","message":"m"}],"context":{}}"#);
    assert!(!json.contains("null"));
}

#[test]
fn frames_are_written_with_numbers() {
    let frame = BacktraceInfo {
        file: Some("a.rs".to_owned()),
        function: Some("f".to_owned()),
        line: Some(120),
        column: None,
        code: Some(vec![("3".to_owned(), "let x = \"y\";".to_owned())]),
    };
    let notice = Notice {
        errors: vec![ErrorInfo {
            type_: "E".to_owned(),
            message: "m".to_owned(),
            backtrace: Some(vec![frame, BacktraceInfo::new()]),
        }],
        context: Context::default(),
        environment: Some(vec![("k".to_owned(), "v".to_owned())]),
        session: Some(vec![]),
        params: None,
    };
    assert_eq!(
        notice.to_json(),
        r#"{"errors":[{"type":"E","message":"m","backtrace":[{"file":"a.rs","function":"f","line":120,"code":{"3":"let x = \"y\";"}},{}]}],"context":{},"environment":{"k":"v"},"session":{}}"#
    );
}

#[test]
fn severity_tokens() {
    let all = [
        (Severity::DEBUG, "debug"),
        (Severity::INFO, "info"),
        (Severity::NOTICE, "notice"),
        (Severity::WARNING, "warning"),
        (Severity::ERROR, "error"),
        (Severity::CRITICAL, "critical"),
        (Severity::ALERT, "alert"),
        (Severity::EMERGENCY, "emergency"),
        (Severity::INVALID, "invalid"),
    ];
    for (s, t) in all.iter() {
        assert_eq!(serialize_severity(&Some(*s)), *t);
        assert_eq!(s.to_string(), *t);
    }
    assert_eq!(serialize_severity(&None), "invalid");
}

#[test]
fn frame_emptiness() {
    assert!(BacktraceInfo::new().is_empty());
    let mut f = BacktraceInfo::new();
    f.column = Some(0);
    assert!(!f.is_empty());
}

#[test]
fn strings_are_escaped() {
    let notice = Notice {
        errors: vec![ErrorInfo {
            type_: "E".to_owned(),
            message: "a\"b\\c\u{1}\n\té/".to_owned(),
            backtrace: None,
        }],
        context: Context::default(),
        environment: None,
        session: None,
        params: None,
    };
    assert_eq!(
        notice.to_json(),
        "{\"errors\":[{\"type\":\"E\",\"message\":\"a\\\"b\\\\c\\u0001\\n\\té/\"}],\"context\":{}}"
    );
}
