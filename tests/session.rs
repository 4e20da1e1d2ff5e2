use iptv_proxy::{
    base_url_from_epgurl, base_url_from_parts, decrypt_auth_blob, Handshake, IptvConfig, IptvError, LoginAction,
    LoginEvent, LoginPhase, SessionCache, SESSION_TTL_MS,
};

fn config() -> IptvConfig {
    IptvConfig {
        user: "user01".into(),
        passwd: "secret".into(),
        mac: "AA:BB:CC".into(),
        imei: None,
        ip: Some("10.1.1.1".into()),
        interface: None,
    }
}

fn query(r: &iptv_proxy::Request) -> Vec<(&str, &str)> {
    r.query.iter().map(|(k, v)| (k.as_str(), v.as_str())).collect()
}

#[test]
fn base_url_from_redirect_target() {
    assert_eq!(base_url_from_epgurl("http://183.2.3.4:33200/EPG/jsp/default.jsp").unwrap(), "http://183.2.3.4:33200");
    assert_eq!(base_url_from_epgurl("http://epg.example.com/EPG").unwrap(), "http://epg.example.com:80");
    assert!(matches!(base_url_from_epgurl("not a url"), Err(IptvError::Parse(s)) if s == "not a url"));
}

#[test]
fn base_url_from_url_parts() {
    assert_eq!(base_url_from_parts("http", Some("h"), Some(8080)).unwrap(), "http://h:8080");
    assert!(base_url_from_parts("http", None, Some(80)).is_none());
    assert!(base_url_from_parts("http", Some("h"), None).is_none());
}

#[test]
fn handshake_runs_three_steps() {
    let (mut h, first) = Handshake::start(config());
    assert_eq!(first.url, "http://eds.iptv.gd.cn:8082/EDS/jsp/AuthenticationURL");
    assert_eq!(query(&first), vec![("Action", "Login"), ("return_type", "1"), ("UserID", "user01")]);

    let a = h.step_with_nonce(LoginEvent::Discovered("http://10.0.0.9:33200/EPG/x".into()), 7);
    match &a {
        LoginAction::Send(r) => {
            assert_eq!(r.url, "http://10.0.0.9:33200/EPG/oauth/v2/authorize");
            assert_eq!(query(r), vec![("response_type", "EncryToken"), ("client_id", "smcphone"), ("userid", "user01")]);
        },
        _ => panic!("expected a request"),
    }

    let b = h.step_with_nonce(LoginEvent::TokenIssued("TOK".into()), 7);
    match &b {
        LoginAction::Send(r) => {
            assert_eq!(r.url, "http://10.0.0.9:33200/EPG/oauth/v2/token");
            let q = query(r);
            assert_eq!(q.len(), 9);
            assert_eq!(q[2], ("UserID", "user01"));
            assert_eq!(q[7].0, "authinfo");
            let plain = decrypt_auth_blob("secret", q[7].1).unwrap();
            assert_eq!(String::from_utf8(plain).unwrap(), "7$TOK$user01$default_imei$10.1.1.1$AA:BB:CC$$CTC");
            assert_eq!(q[8], ("grant_type", "EncryToken"));
        },
        _ => panic!("expected a request"),
    }

    match h.step(LoginEvent::Granted) {
        LoginAction::Complete(b) => assert_eq!(b, "http://10.0.0.9:33200"),
        _ => panic!("expected completion"),
    }
    assert!(matches!(h.phase, LoginPhase::Established(_)));
}

#[test]
fn handshake_aborts_on_failure_and_on_bad_url() {
    let (mut h, _) = Handshake::start(config());
    match h.step(LoginEvent::Failed(IptvError::UpstreamStatus(500))) {
        LoginAction::Abort(IptvError::UpstreamStatus(500)) => {},
        _ => panic!("expected abort"),
    }
    assert!(matches!(h.phase, LoginPhase::Failed));

    let (mut h, _) = Handshake::start(config());
    assert!(matches!(h.step(LoginEvent::Discovered("::".into())), LoginAction::Abort(IptvError::Parse(_))));

    let (mut h, _) = Handshake::start(config());
    assert!(matches!(h.step(LoginEvent::Granted), LoginAction::Abort(IptvError::Decode(_))));
}

#[test]
fn session_reused_within_ttl_and_renewed_after() {
    let mut cache: SessionCache<u32> = SessionCache::new();
    assert!(cache.lookup(0).is_none());
    cache.store(17, "http://b:1".into(), 1_000);
    let first = cache.lookup(1_000).map(|s| (s.handle, s.base_url.clone()));
    let second = cache.lookup(1_000 + SESSION_TTL_MS - 1).map(|s| (s.handle, s.base_url.clone()));
    assert_eq!(first, Some((17, "http://b:1".to_string())));
    assert_eq!(first, second);
    assert!(cache.lookup(1_000 + SESSION_TTL_MS).is_none());
    cache.store(18, "http://b:2".into(), 1_000 + SESSION_TTL_MS);
    assert_eq!(cache.lookup(1_000 + SESSION_TTL_MS).map(|s| s.handle), Some(18));
}
