use zeroclaw::channels::weixin::auth::{
    AuthError, WeixinAuth, WeixinAuthCredentials, WeixinLoginSession,
};

fn creds(token: &str, user: &str, expires_at: u64) -> WeixinAuthCredentials {
    WeixinAuthCredentials {
        bot_token: token.to_string(),
        bot_wxuin: user.to_string(),
        expires_at,
    }
}

fn same(a: &WeixinAuthCredentials, b: &WeixinAuthCredentials) -> bool {
    a.bot_token == b.bot_token && a.bot_wxuin == b.bot_wxuin && a.expires_at == b.expires_at
}

#[test]
fn test_generate_session_id() {
    let id = WeixinAuth::generate_session_id();
    assert_eq!(id.len(), 32);
    assert!(id.chars().all(|c| c.is_ascii_hexdigit()));
}

#[test]
fn test_url_encoding() {
    // Simple URL encoding test
    let encoded = "hello world".replace(' ', "%20");
    assert_eq!(encoded, "hello%20world");
}

#[test]
fn login_has_five_minutes() {
    let session = WeixinAuth::start_login(1_000);
    assert_eq!(session.created_at, 1_000);
    assert_eq!(session.expires_at, 1_300);
    assert_eq!(
        session.qr_url,
        "https://open.weixin.qq.com/connect/qrconnect?appid=wx_ilink_bot&redirect_uri=https%3A%2F%2Filinkapi.weixin.qq.com%2Fcallback&response_type=code&scope=snsapi_login"
    );
    assert_ne!(session.session_id, WeixinAuth::start_login(1_000).session_id);
    assert!(WeixinAuth::poll_login(&session, 1_299).unwrap().is_none());
    assert_eq!(
        WeixinAuth::poll_login(&session, 1_300).unwrap_err(),
        AuthError::SessionExpired
    );
    assert!(WeixinAuth::check_timeout(&session, 1_299).is_ok());
    assert_eq!(WeixinAuth::check_timeout(&session, 1_300).unwrap_err(), AuthError::TimedOut);
}

#[test]
fn errors_have_words() {
    assert_eq!(
        AuthError::SessionExpired.message(),
        "Login session expired. Please run `zeroclaw auth login weixin` again."
    );
    assert_eq!(AuthError::TimedOut.message(), "Login timed out. Please try again.");
    assert_eq!(AuthError::NotJson.message(), "Failed to parse auth file");
}

#[test]
fn identifiers_are_shortened() {
    let session = WeixinAuth::start_login(0);
    assert_eq!(WeixinAuth::session_label(&session), session.session_id[..16]);
    let wide = WeixinLoginSession { session_id: "éééééééé rest".to_string(), ..session };
    assert_eq!(WeixinAuth::session_label(&wide), "éééééééé");
    let token = creds("abcdefghijklmnopqrstuvwxyz", "", 0);
    assert_eq!(WeixinAuth::token_preview(&token), "abcdefghijklmnopqrst");
    assert_eq!(WeixinAuth::token_preview(&creds("short", "", 0)), "short");
    assert_eq!(
        WeixinAuth::token_preview(&creds("abcdefghijklmnopqrsé", "", 0)),
        "abcdefghijklmnopqrs"
    );
}

#[test]
fn user_is_shown_where_to_log_in() {
    let session = WeixinLoginSession {
        session_id: "0123456789abcdef0123456789abcdef".to_string(),
        qr_url: "https://qr".to_string(),
        created_at: 0,
        expires_at: 300,
    };
    let text = WeixinAuth::qr_instructions(&session);
    let lines: Vec<&str> = text.lines().collect();
    assert_eq!(lines.len(), 17);
    assert_eq!(lines[0], "");
    assert_eq!(lines[2], "║          WeChat iLink Bot — QR Code Login               ║");
    assert_eq!(lines[7], "║  https://qr  ║");
    assert_eq!(lines[13], "║  Session ID: 0123456789abcdef                          ║");
    assert_eq!(lines[14], "║  Expires in: 5 minutes                                   ║");
    assert!(lines[1].starts_with('╔') && lines[16].starts_with('╚'));
    assert!(text.ends_with("╝\n"));
}

#[test]
fn home_is_looked_for_in_two_places() {
    let h = Some("/home/a".to_string());
    let u = Some("C:\\Users\\a".to_string());
    assert_eq!(WeixinAuth::home_directory(h.clone(), u.clone()), h);
    assert_eq!(WeixinAuth::home_directory(None, u.clone()), u);
    assert_eq!(WeixinAuth::home_directory(None, None), None);
}

#[test]
fn openclaw_credentials_are_imported() {
    let c = WeixinAuth::import_from_openclaw(
        br#"{"weixin":{"bot_token":"t","bot_wxuin":"u"}}"#,
    )
    .unwrap();
    assert!(same(&c, &creds("t", "u", 0)));
    let c = WeixinAuth::import_from_openclaw(
        br#"{"openclaw-weixin":{"bot_token":"t","wxuin":"w","expires_at":9}}"#,
    )
    .unwrap();
    assert!(same(&c, &creds("t", "w", 0)));
    let c = WeixinAuth::import_from_openclaw(
        br#"{"weixin":{"bot_token":"a","bot_wxuin":5,"wxuin":"w"},"openclaw-weixin":{"bot_token":"b"}}"#,
    )
    .unwrap();
    assert!(same(&c, &creds("a", "", 0)));
}

#[test]
fn openclaw_without_a_token_gives_nothing() {
    for content in ["", "no json", "[]", "{}", r#"{"weixin":{}}"#, r#"{"weixin":{"bot_token":""}}"#] {
        assert!(WeixinAuth::import_from_openclaw(content.as_bytes()).is_none());
    }
}

#[test]
fn stored_credentials_are_loaded() {
    let c = WeixinAuth::load_credentials(
        br#"{"weixin":{"bot_token":"t","bot_wxuin":"u","expires_at":17}}"#,
    )
    .unwrap()
    .unwrap();
    assert!(same(&c, &creds("t", "u", 17)));
    let c = WeixinAuth::load_credentials(br#"{"weixin":{"bot_token":"t","expires_at":-3}}"#)
        .unwrap()
        .unwrap();
    assert!(same(&c, &creds("t", "", 0)));
    assert!(WeixinAuth::load_credentials(b"{}").unwrap().is_none());
    assert!(WeixinAuth::load_credentials(br#"{"weixin":{"bot_wxuin":"u"}}"#).unwrap().is_none());
    assert_eq!(WeixinAuth::load_credentials(b"{").unwrap_err(), AuthError::NotJson);
}

#[test]
fn saved_credentials_are_loaded_again() {
    let c = creds("tök\"en", "u\\1", u64::MAX);
    for content in [None, Some("not json"), Some("{}"), Some("null")] {
        let text = WeixinAuth::save_credentials(content.map(|s: &str| s.as_bytes()), &c).unwrap();
        let loaded = WeixinAuth::load_credentials(text.as_bytes()).unwrap().unwrap();
        assert!(same(&loaded, &c));
    }
}

#[test]
fn saving_keeps_other_entries() {
    let c = creds("new", "u", 0);
    let text = WeixinAuth::save_credentials(
        Some(br#"{"other":{"a":[1,null,true,"x"]},"weixin":{"bot_token":"old","extra":1}}"#),
        &c,
    )
    .unwrap();
    let json: serde_json::Value = serde_json::from_str(&text).unwrap();
    assert_eq!(json["other"]["a"][0].as_u64(), Some(1));
    assert_eq!(json["other"]["a"][3].as_str(), Some("x"));
    assert_eq!(json["weixin"]["bot_token"].as_str(), Some("new"));
    assert!(json["weixin"].get("extra").is_none());
}

#[test]
fn doubles_in_the_store_do_not_matter() {
    let c = creds("t", "u", 3);
    for content in [
        r#"{"a":1.5}"#,
        r#"{"a":[0.1,-2e-300,5e-324,1e16,123456789012345678901234567890,-0]}"#,
        r#"{"a":8e307,"b":{"c":[-8e307]}}"#,
    ] {
        let text = WeixinAuth::save_credentials(Some(content.as_bytes()), &c).unwrap();
        let loaded = WeixinAuth::load_credentials(text.as_bytes()).unwrap().unwrap();
        assert!(same(&loaded, &c));
        let back: serde_json::Value = serde_json::from_str(&text).unwrap();
        let old: serde_json::Value = serde_json::from_str(content).unwrap();
        assert_eq!(back["a"].is_f64(), old["a"].is_f64());
        if let Some(list) = back["a"].as_array() {
            assert!(list.iter().all(|n| n.is_f64()));
        }
    }
}

#[test]
fn largest_doubles_in_the_store_do_not_matter() {
    let c = creds("t", "u", 3);
    for below in 0..2_000u64 {
        let number = f64::from_bits(f64::MAX.to_bits() - below);
        let items = vec![serde_json::Value::from(number), serde_json::Value::from(-number)];
        let mut json = serde_json::Value::Null;
        json["a"] = serde_json::Value::Array(items);
        let text = WeixinAuth::put_credentials(Some(json), &c).unwrap();
        let loaded = WeixinAuth::load_credentials(text.as_bytes()).unwrap().unwrap();
        assert!(same(&loaded, &c));
        let back: serde_json::Value = serde_json::from_str(&text).unwrap();
        assert!(back["a"][0].as_f64().unwrap() > 1.79e308);
        assert!(back["a"][1].as_f64().unwrap() < -1.79e308);
    }
    let text = WeixinAuth::save_credentials(Some(br#"{"a":1.7976931348623157e308}"#), &c).unwrap();
    let back: serde_json::Value = serde_json::from_str(&text).unwrap();
    assert_eq!(back["a"].as_f64(), Some(f64::MAX));
}

#[test]
fn store_is_printed_in_the_order_of_its_keys() {
    let text = WeixinAuth::save_credentials(Some(br#"{"z":1,"a":[]}"#), &creds("t", "u", 5)).unwrap();
    assert_eq!(
        text,
        "{\n  \"a\": [],\n  \"weixin\": {\n    \"bot_token\": \"t\",\n    \"bot_wxuin\": \"u\",\n    \"expires_at\": 5\n  },\n  \"z\": 1\n}"
    );
}

#[test]
fn deeply_nested_store_is_kept() {
    let c = creds("t", "u", 3);
    let nested = |depth: usize| {
        format!("{{\"a\":{}{}}}", "[".repeat(depth), "]".repeat(depth))
    };
    let text = WeixinAuth::save_credentials(Some(nested(126).as_bytes()), &c).unwrap();
    let back: serde_json::Value = serde_json::from_str(&text).unwrap();
    let old: serde_json::Value = serde_json::from_str(&nested(126)).unwrap();
    assert_eq!(back["a"], old["a"]);
    let text = WeixinAuth::save_credentials(Some(nested(127).as_bytes()), &c).unwrap();
    let back: serde_json::Value = serde_json::from_str(&text).unwrap();
    assert!(back.get("a").is_none());
}

#[test]
fn entry_cannot_be_put_into_a_list() {
    let c = creds("t", "u", 0);
    for content in ["[]", "5", "\"x\"", "true"] {
        assert!(WeixinAuth::save_credentials(Some(content.as_bytes()), &c).is_none());
    }
}

#[test]
fn document_takes_the_entry() {
    let json: serde_json::Value = serde_json::from_str(r#"{"a":1}"#).unwrap();
    let text = WeixinAuth::put_credentials(Some(json), &creds("t", "u", 5)).unwrap();
    let back: serde_json::Value = serde_json::from_str(&text).unwrap();
    assert_eq!(back["a"].as_u64(), Some(1));
    assert_eq!(back["weixin"]["expires_at"].as_u64(), Some(5));
    let found = WeixinAuth::credentials_of(Some(&back)).unwrap().unwrap();
    assert!(same(&found, &creds("t", "u", 5)));
    assert!(WeixinAuth::openclaw_credentials(None).is_none());
}
