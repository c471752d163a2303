use zeroclaw::channels::weixin::api::{
    accept_config, accept_sent, accept_updates, cursor_to_send, poll_timeout_ms,
    random_uin_base64, send_refused, upload_refused, ApiCall, GetConfigResp, GetUpdatesResp,
    ILinkErrorCode, ILinkErrorResponse, MessageItem, TypingStatus, WeXinApiClient, WeixinMessage,
};

fn updates(ret: i32, errcode: Option<i32>) -> GetUpdatesResp {
    GetUpdatesResp {
        ret,
        errcode,
        errmsg: None,
        msgs: vec![],
        get_updates_buf: Some("cursor".to_string()),
        longpolling_timeout_ms: Some(35_000),
    }
}

#[test]
fn test_message_item_text_factory() {
    let item = MessageItem::text("hello");
    assert!(item.is_text());
    assert_eq!(item.as_text(), Some("hello"));
}

#[test]
fn test_message_item_image_factory() {
    let item = MessageItem::image("encrypted_param", "base64_aes_key");
    assert!(matches!(item, MessageItem::Image { .. }));
}

#[test]
fn test_weixin_message_helpers() {
    let user_msg = WeixinMessage {
        seq: Some(1),
        message_id: Some(123),
        from_user_id: Some("user_abc".into()),
        to_user_id: Some("bot_xyz".into()),
        create_time_ms: Some(1_000_000_000_000),
        session_id: Some("sess_1".into()),
        message_type: Some(1),
        message_state: Some(0),
        item_list: None,
        context_token: Some("ctx_token".into()),
    };
    assert!(user_msg.is_from_user());
    assert!(user_msg.is_new());

    let bot_msg = WeixinMessage {
        message_type: Some(2),
        message_state: Some(2),
        ..Default::default()
    };
    assert!(!bot_msg.is_from_user());
}

#[test]
fn media_items_carry_place_and_key() {
    let voice = MessageItem::voice("param", "key");
    assert!(!voice.is_text());
    assert_eq!(voice.as_text(), None);
    match voice {
        MessageItem::Voice { voice_item } => {
            assert_eq!(voice_item.encrypt_query_param.as_deref(), Some("param"));
            assert_eq!(voice_item.aes_key.as_deref(), Some("key"));
        }
        _ => panic!("no voice item"),
    }
    match MessageItem::image("p", "k") {
        MessageItem::Image { image_item } => {
            assert_eq!(image_item.encrypt_query_param.as_deref(), Some("p"));
            assert_eq!(image_item.aes_key.as_deref(), Some("k"));
        }
        _ => panic!("no image item"),
    }
}

#[test]
fn typing_status_has_numbers() {
    assert_eq!(TypingStatus::Typing.code(), 1);
    assert_eq!(TypingStatus::Cancel.code(), 2);
}

#[test]
fn calls_have_addresses() {
    assert_eq!(ApiCall::GetUpdates.url(), "https://ilinkapi.weixin.qq.com/getupdates");
    assert_eq!(ApiCall::SendMessage.url(), "https://ilinkapi.weixin.qq.com/sendmessage");
    assert_eq!(ApiCall::GetConfig.url(), "https://ilinkapi.weixin.qq.com/getconfig");
    assert_eq!(ApiCall::SendTyping.url(), "https://ilinkapi.weixin.qq.com/sendtyping");
    assert_eq!(ApiCall::GetUploadUrl.url(), "https://ilinkapi.weixin.qq.com/getuploadurl");
}

#[test]
fn first_poll_sends_the_empty_cursor() {
    assert_eq!(cursor_to_send(None), "");
    assert_eq!(cursor_to_send(Some("abc")), "abc");
    assert_eq!(poll_timeout_ms(35_000), 40_000);
}

#[test]
fn successful_updates_are_handed_on() {
    let resp = accept_updates(updates(0, None)).unwrap();
    assert_eq!(resp.get_updates_buf.as_deref(), Some("cursor"));
    for code in [0, -1, -200, -500, 14] {
        let resp = accept_updates(updates(0, Some(code))).unwrap();
        assert_eq!(resp.get_updates_buf.as_deref(), Some("cursor"));
        assert_eq!(resp.errcode, Some(code));
    }
}

#[test]
fn expired_session_is_an_error() {
    for ret in [0, -1] {
        let err = accept_updates(updates(ret, Some(-14))).unwrap_err();
        assert_eq!(err.message, "Session timeout - cursor expired, please reset");
        assert_eq!(err.code, Some(ILinkErrorCode::SessionTimeout));
    }
}

#[test]
fn invalid_token_asks_for_login() {
    let err = accept_updates(updates(0, Some(-20))).unwrap_err();
    assert_eq!(
        err.message,
        "Invalid or expired token - please re-authenticate. Please run: openclaw channels login --channel openclaw-weixin"
    );
    assert_eq!(err.code, Some(ILinkErrorCode::InvalidToken));
}

#[test]
fn rate_limit_and_return_codes_are_errors() {
    for ret in [0, -1] {
        let err = accept_updates(updates(ret, Some(-100))).unwrap_err();
        assert_eq!(
            err.message,
            "iLink getUpdates error (-100): Rate limited - too many requests"
        );
        assert_eq!(err.code, Some(ILinkErrorCode::RateLimited));
    }
    let err = accept_updates(updates(-1, Some(-500))).unwrap_err();
    assert_eq!(err.message, "iLink getUpdates error (-500): Content blocked by moderation");
    let err = accept_updates(updates(-7, None)).unwrap_err();
    assert_eq!(err.message, "iLink getUpdates error (-7): Unknown error");
    let err = accept_updates(updates(-7, Some(0))).unwrap_err();
    assert_eq!(err.message, "iLink getUpdates error (0): Success");
}

#[test]
fn sent_message_is_judged_by_its_report() {
    let report = |ret: i32, errcode: Option<i32>, errmsg: Option<&str>| ILinkErrorResponse {
        ret,
        errcode,
        errmsg: errmsg.map(|m| m.to_string()),
    };
    assert!(accept_sent(None).is_ok());
    assert!(accept_sent(Some(&report(0, None, None))).is_ok());
    assert!(accept_sent(Some(&report(0, Some(0), Some("ok")))).is_ok());
    assert!(accept_sent(Some(&report(0, Some(-200), None))).is_ok());
    assert!(accept_sent(Some(&report(-1, None, None))).is_ok());
    assert!(accept_sent(Some(&report(-20, Some(0), None))).is_ok());
    let err = accept_sent(Some(&report(0, Some(-301), Some("2048 max")))).unwrap_err();
    assert_eq!(
        err.message,
        "iLink sendMessage error (-301): Message exceeds maximum length — 2048 max"
    );
    let err = accept_sent(Some(&report(-1, Some(-20), None))).unwrap_err();
    assert!(err.message.starts_with("iLink sendMessage error (-20): "));
    let err = accept_sent(Some(&report(-500, None, None))).unwrap_err();
    assert_eq!(err.message, "iLink sendMessage error (-500): Content blocked by moderation — ");
}

#[test]
fn config_is_judged_by_its_return_code() {
    let ok = GetConfigResp { ret: 0, typing_ticket: Some("t".to_string()) };
    assert_eq!(accept_config(ok).unwrap().typing_ticket.as_deref(), Some("t"));
    let bad = GetConfigResp { ret: -200, typing_ticket: None };
    let err = accept_config(bad).unwrap_err();
    assert!(err.message.starts_with("iLink getConfig error (ret=-200): "));
}

#[test]
fn refused_message_tells_the_report() {
    let report = ILinkErrorResponse {
        ret: -1,
        errcode: Some(-301),
        errmsg: Some("too long".to_string()),
    };
    let err = send_refused(400, "400 Bad Request", "{}", Some(&report));
    assert!(err.message.starts_with("iLink sendMessage error (-301): "));
    assert!(err.message.ends_with(" — too long"));
    let bare = ILinkErrorResponse { ret: -1, errcode: None, errmsg: None };
    let err = send_refused(503, "503 Service Unavailable", "{}", Some(&bare));
    assert!(err.message.starts_with("iLink sendMessage error (503): "));
    assert!(err.message.ends_with(" — "));
    let err = send_refused(502, "502 Bad Gateway", "oops", None);
    assert_eq!(err.message, "iLink sendMessage HTTP error 502 Bad Gateway: oops");
}

#[test]
fn http_errors_name_the_call() {
    assert_eq!(
        ApiCall::GetConfig.http_error("500 Internal Server Error", "x").message,
        "iLink getConfig HTTP error 500 Internal Server Error: x"
    );
    assert_eq!(
        ApiCall::GetUpdates.http_error("404 Not Found", "").message,
        "iLink getUpdates HTTP error 404 Not Found: "
    );
}

#[test]
fn transport_errors_tell_timeouts_apart() {
    assert_eq!(
        ApiCall::GetUpdates.transport_error(false, true, "refused").message,
        "iLink connection failed: refused"
    );
    assert_eq!(
        ApiCall::GetUpdates.transport_error(false, false, "odd").message,
        "iLink getUpdates HTTP request failed: odd"
    );
    assert_eq!(
        ApiCall::SendMessage.transport_error(true, false, "slow").message,
        "iLink sendMessage timeout"
    );
    assert_eq!(
        ApiCall::SendMessage.transport_error(false, true, "refused").message,
        "iLink sendMessage HTTP error: refused"
    );
    assert_eq!(
        ApiCall::GetUploadUrl.transport_error(true, false, "slow").message,
        "iLink getUploadUrl HTTP error: slow"
    );
}

#[test]
fn refused_uploads_tell_why() {
    let large = upload_refused(413, "413 Payload Too Large").message;
    let kind = upload_refused(415, "415 Unsupported Media Type").message;
    let other = upload_refused(500, "500 Internal Server Error").message;
    assert!(large.starts_with("iLink getUploadUrl error (413 Payload Too Large): "));
    assert!(kind.starts_with("iLink getUploadUrl error (415 Unsupported Media Type): "));
    assert!(other.starts_with("iLink getUploadUrl error (500 Internal Server Error): "));
    assert_ne!(large.split("): ").last(), kind.split("): ").last());
    assert_ne!(kind.split("): ").last(), other.split("): ").last());
}

#[test]
fn headers_carry_the_token() {
    let client = WeXinApiClient::new("secret".to_string());
    let headers = client.headers_with("dWlu".to_string());
    let pairs: Vec<(&str, &str)> =
        headers.iter().map(|(n, v)| (n.as_str(), v.as_str())).collect();
    assert_eq!(
        pairs,
        vec![
            ("content-type", "application/json"),
            ("AuthorizationType", "ilink_bot_token"),
            ("authorization", "Bearer secret"),
            ("X-WECHAT-UIN", "dWlu"),
        ]
    );
}

#[test]
fn every_request_has_a_number_of_its_own() {
    let a = random_uin_base64();
    assert_eq!(a.len(), 8);
    assert!(a.ends_with("=="));
    let client = WeXinApiClient::new("t".to_string());
    let first = client.make_headers();
    let others: Vec<String> = (0..4).map(|_| client.make_headers()[3].1.clone()).collect();
    assert!(others.iter().any(|o| *o != first[3].1));
}
