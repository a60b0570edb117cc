use errbit::{interpret_response, Client, Config, Error, Notifier};

#[test]
fn created_gives_identifiers() {
    let r = interpret_response(201, r#"{"id":"abc","url":"https://x/y"}"#.to_owned()).unwrap();
    assert_eq!(r.id, "abc");
    assert_eq!(r.url, "https://x/y");
}

#[test]
fn other_status_is_gateway_error() {
    let r = interpret_response(422, "bad request".to_owned());
    assert_eq!(
        r.err(),
        Some(Error::Gateway { status_code: 422, reason: "bad request".to_owned() })
    );
}

#[test]
fn created_with_bad_body_is_decode_error() {
    assert!(matches!(interpret_response(201, "bad".to_owned()), Err(Error::Decode { .. })));
    assert!(matches!(
        interpret_response(201, r#"{"id":"abc"}"#.to_owned()),
        Err(Error::Decode { .. })
    ));
    assert!(matches!(
        interpret_response(201, r#"{"id":1,"url":"u"}"#.to_owned()),
        Err(Error::Decode { .. })
    ));
}

#[test]
fn default_settings_endpoint() {
    let config = Config::from_settings(None, None, None, None, None, None, None);
    assert_eq!(config.host, "https://api.airbrake.io");
    assert_eq!(config.environment, None);
    assert_eq!(config.endpoint(), "https://api.airbrake.io/api/v3/projects/0/notices?key=0");
}

#[test]
fn given_settings_endpoint() {
    let config = Config::from_settings(
        Some("https://errbit.example.com".to_owned()),
        Some("1".to_owned()),
        Some("my-key".to_owned()),
        Some("dev".to_owned()),
        None,
        None,
        None,
    );
    assert_eq!(config.environment.as_deref(), Some("dev"));
    assert_eq!(
        config.endpoint(),
        "https://errbit.example.com/api/v3/projects/1/notices?key=my-key"
    );
}

#[test]
fn scheme_chooses_tls() {
    assert!(Client::new("https://api.airbrake.io/x").unwrap().uses_tls());
    assert!(!Client::new("http://localhost:8080/x").unwrap().uses_tls());
    assert!(!Client::new("/relative").unwrap().uses_tls());
    assert!(matches!(Client::new("http://bad host/"), Err(Error::InvalidUri { .. })));
}

#[test]
fn notifier_keeps_config() {
    let config = Config::from_settings(None, None, None, None, None, None, None);
    let notifier = Notifier::new(config.clone()).unwrap();
    assert_eq!(notifier.config(), &config);
    assert!(notifier.client().uses_tls());
    let bad = Config::from_settings(Some("ht tp://x".to_owned()), None, None, None, None, None, None);
    assert!(matches!(Notifier::new(bad), Err(Error::InvalidUri { .. })));
}

#[test]
fn created_with_extra_members_reads_identifiers() {
    let r = interpret_response(
        201,
        r#"{"url":"https://x/y","other":3,"id":"abc"}"#.to_owned(),
    )
    .unwrap();
    assert_eq!(r.id, "abc");
    assert_eq!(r.url, "https://x/y");
    assert!(matches!(
        interpret_response(201, r#"["abc","https://x/y"]"#.to_owned()),
        Err(Error::Decode { .. })
    ));
}

#[test]
fn client_keeps_endpoint_text() {
    let c = Client::new("https://errbit.example.com/api").unwrap();
    assert_eq!(c.url(), "https://errbit.example.com/api");
    assert_eq!(c.uri().host(), Some("errbit.example.com"));
    assert!(!Client::new("HTTP://x/").unwrap().uses_tls());
}
