use zeroclaw::channels::weixin::api::{
    accept_updates, FileItem, GetConfigResp, GetUpdatesResp, ILinkErrorCode, ImageItem,
    MessageItem, UpdatesError, VideoItem, VoiceItem, WeixinMessage,
};
use zeroclaw::channels::weixin::markers::{images_to_upload, parse_markers};
use zeroclaw::channels::weixin::{
    extract_content, DownloadedImage, PollAction, WeXinChannel, WeXinState,
};

fn channel(allowed: &[&str]) -> WeXinChannel {
    WeXinChannel::new(
        "token".into(),
        allowed.iter().map(|s| s.to_string()).collect(),
        35_000,
    )
}

fn message(items: Vec<MessageItem>) -> WeixinMessage {
    WeixinMessage {
        message_id: Some(42),
        from_user_id: Some("alice".into()),
        create_time_ms: Some(1_700),
        message_type: Some(1),
        message_state: Some(0),
        item_list: Some(items),
        context_token: Some("ctx".into()),
        ..Default::default()
    }
}

fn updates(cursor: Option<&str>, msgs: Vec<WeixinMessage>) -> GetUpdatesResp {
    GetUpdatesResp {
        ret: 0,
        errcode: None,
        errmsg: None,
        msgs,
        get_updates_buf: cursor.map(|c| c.to_string()),
        longpolling_timeout_ms: None,
    }
}

fn failure() -> UpdatesError {
    UpdatesError { code: None, message: "down".to_string() }
}

fn bare_image() -> MessageItem {
    MessageItem::Image { image_item: ImageItem { encrypt_query_param: None, aes_key: Some("k".into()) } }
}

#[test]
fn test_user_allowlist_wildcard() {
    let ch = WeXinChannel::new("token".into(), vec!["*".into()], 35_000);
    assert!(ch.is_user_allowed("any_user"));
    assert!(ch.is_user_allowed("wxuin_123"));
}

#[test]
fn test_user_allowlist_specific() {
    let ch = WeXinChannel::new(
        "token".into(),
        vec!["alice".into(), "bob".into()],
        35_000,
    );
    assert!(ch.is_user_allowed("alice"));
    assert!(ch.is_user_allowed("bob"));
    assert!(!ch.is_user_allowed("charlie"));
}

#[test]
fn test_user_allowlist_empty_denies_all() {
    let ch = WeXinChannel::new("token".into(), vec![], 35_000);
    assert!(!ch.is_user_allowed("anyone"));
}

#[test]
fn test_state_initial() {
    let ch = WeXinChannel::new("token".into(), vec![], 35_000);
    assert_eq!(ch.state(), WeXinState::Disconnected);
}

#[test]
fn new_channel_polls_without_a_cursor() {
    let mut ch = channel(&["*"]);
    assert_eq!(ch.name(), "weixin");
    assert_eq!(ch.max_image_size_bytes(), 20 * 1024 * 1024);
    ch.begin_listening();
    assert_eq!(ch.state(), WeXinState::Running);
    assert_eq!(ch.next_poll(), Some((None, 35_000)));
}

#[test]
fn delay_doubles_and_is_reset() {
    let mut ch = channel(&["*"]);
    let delays: Vec<u64> = (0..8).map(|_| ch.backoff()).collect();
    assert_eq!(delays, vec![2_000, 4_000, 8_000, 16_000, 32_000, 60_000, 60_000, 60_000]);
    ch.reset_backoff();
    assert_eq!(ch.backoff(), 2_000);
}

#[test]
fn polls_move_the_cursor_and_failures_do_not() {
    let mut ch = channel(&["*"]);
    match ch.after_poll(Ok(updates(Some("c1"), vec![message(vec![])]))) {
        PollAction::Process(msgs) => assert_eq!(msgs.len(), 1),
        PollAction::Wait(_) => panic!("no wait"),
    }
    assert_eq!(ch.next_poll(), Some((Some("c1"), 35_000)));
    assert!(matches!(ch.after_poll(Err(failure())), PollAction::Wait(2_000)));
    assert!(matches!(ch.after_poll(Err(failure())), PollAction::Wait(4_000)));
    assert_eq!(ch.next_poll(), Some((Some("c1"), 35_000)));
    assert!(matches!(ch.after_poll(Ok(updates(None, vec![]))), PollAction::Process(_)));
    assert_eq!(ch.next_poll(), Some((None, 35_000)));
    assert!(matches!(ch.after_poll(Err(failure())), PollAction::Wait(2_000)));
}

#[test]
fn expired_cursor_is_emptied() {
    let mut ch = channel(&["*"]);
    ch.after_poll(Ok(updates(Some("c1"), vec![])));
    let limited = UpdatesError {
        code: Some(ILinkErrorCode::RateLimited),
        message: "slow down".to_string(),
    };
    assert!(matches!(ch.after_poll(Err(limited)), PollAction::Wait(2_000)));
    assert_eq!(ch.next_poll(), Some((Some("c1"), 35_000)));
    let expired = GetUpdatesResp { errcode: Some(-14), ..updates(Some("c2"), vec![]) };
    assert!(matches!(ch.after_poll(accept_updates(expired)), PollAction::Wait(4_000)));
    assert_eq!(ch.next_poll(), Some((Some(""), 35_000)));
}

#[test]
fn text_is_delivered() {
    let mut ch = channel(&["alice"]);
    let msg = message(vec![MessageItem::text("hi"), MessageItem::text("there")]);
    assert!(ch.screen(&msg).unwrap());
    assert!(ch.images_to_download(&msg).is_empty());
    let out = ch.process_message(&msg, &vec![], 9).unwrap().unwrap();
    assert_eq!(out.id, "42");
    assert_eq!(out.sender, "alice");
    assert_eq!(out.reply_target, "alice");
    assert_eq!(out.content, "hi\nthere");
    assert_eq!(out.channel, "weixin");
    assert_eq!(out.timestamp, 1_700);
    assert!(out.attachments.is_empty());
    assert_eq!(ch.reply_token("alice"), "ctx");
    assert_eq!(ch.reply_token("bob"), "");
}

#[test]
fn missing_identifier_and_time_are_made_up_for() {
    let mut ch = channel(&["*"]);
    let msg = WeixinMessage {
        message_id: None,
        create_time_ms: None,
        ..message(vec![MessageItem::text("x")])
    };
    let a = ch.process_message(&msg, &vec![], 77).unwrap().unwrap();
    let b = ch.process_message(&msg, &vec![], 77).unwrap().unwrap();
    assert_eq!(a.timestamp, 77);
    assert_eq!(a.id.len(), 36);
    assert_ne!(a.id, b.id);
}

#[test]
fn unwanted_messages_are_ignored() {
    let mut ch = channel(&["alice"]);
    let own = WeixinMessage { message_type: Some(2), ..message(vec![MessageItem::text("x")]) };
    let update = WeixinMessage { message_state: Some(1), ..message(vec![MessageItem::text("x")]) };
    let blocked = WeixinMessage {
        from_user_id: Some("mallory".into()),
        ..message(vec![MessageItem::image("p", "k")])
    };
    let blank = message(vec![MessageItem::text(" \n ")]);
    for msg in [own, update, blocked, blank] {
        assert!(ch.images_to_download(&msg).is_empty());
        assert!(ch.process_message(&msg, &vec![], 0).unwrap().is_none());
        assert_eq!(ch.reply_token("alice"), "");
    }
}

#[test]
fn broken_messages_are_errors() {
    let mut ch = channel(&["*"]);
    let nobody = WeixinMessage { from_user_id: None, ..message(vec![]) };
    let err = ch.process_message(&nobody, &vec![], 0).unwrap_err();
    assert_eq!(err.message, "WeXin: missing from_user_id");
    let nothing = WeixinMessage { item_list: None, ..message(vec![]) };
    let err = ch.process_message(&nothing, &vec![], 0).unwrap_err();
    assert_eq!(err.message, "WeXin: missing item_list");
}

#[test]
fn images_become_markers_and_attachments() {
    let mut ch = channel(&["*"]);
    let msg = message(vec![
        MessageItem::text("look"),
        MessageItem::image("p1", "k1"),
        bare_image(),
        MessageItem::image("p2", "k2"),
    ]);
    assert_eq!(
        ch.images_to_download(&msg),
        vec![("p1".to_string(), "k1".to_string()), ("p2".to_string(), "k2".to_string())]
    );
    let loaded = DownloadedImage {
        path: "/tmp/x.png".to_string(),
        mime: "image/png".to_string(),
        data: vec![1, 2, 3],
    };
    let out = ch.process_message(&msg, &vec![None, Some(loaded)], 0).unwrap().unwrap();
    assert_eq!(out.content, "look\n[Image]\n[Image]\n[IMAGE:/tmp/x.png]");
    assert_eq!(out.attachments.len(), 1);
    assert_eq!(out.attachments[0].file_name, "weixin_image.png");
    assert_eq!(out.attachments[0].data, vec![1, 2, 3]);
    assert_eq!(out.attachments[0].mime_type.as_deref(), Some("image/png"));
    assert_eq!(images_to_upload(&parse_markers(&out.content)), vec!["/tmp/x.png"]);
}

#[test]
fn other_media_have_placeholders() {
    let items = vec![
        MessageItem::Voice { voice_item: VoiceItem { encrypt_query_param: None, aes_key: None } },
        MessageItem::File { file_item: FileItem { encrypt_query_param: None, aes_key: None } },
        MessageItem::Video {
            video_item: VideoItem { encrypt_query_param: None, aes_key: None, thumb: None },
        },
    ];
    let (content, attachments) = extract_content(&items, &vec![]);
    assert_eq!(content, "[Voice]\n[File]\n[Video]");
    assert!(attachments.is_empty());
}

#[test]
fn replies_carry_the_newest_token() {
    let mut ch = channel(&["*"]);
    let first = message(vec![MessageItem::text("a")]);
    let second = WeixinMessage { context_token: Some("new".into()), ..first.clone() };
    let third = WeixinMessage { context_token: None, ..first.clone() };
    for (msg, token) in [(first, "ctx"), (second, "new"), (third, "new")] {
        ch.process_message(&msg, &vec![], 0).unwrap().unwrap();
        assert_eq!(ch.reply_token("alice"), token);
    }
}

#[test]
fn typing_tickets_are_kept() {
    let mut ch = channel(&["*"]);
    assert_eq!(ch.typing_ticket("alice"), None);
    let none = GetConfigResp { ret: 0, typing_ticket: None };
    assert_eq!(
        ch.learn_typing_ticket("alice", none).unwrap_err().message,
        "WeXin: no typing_ticket"
    );
    assert_eq!(ch.typing_ticket("alice"), None);
    let some = GetConfigResp { ret: 0, typing_ticket: Some("tt".into()) };
    assert_eq!(ch.learn_typing_ticket("alice", some).unwrap(), "tt");
    assert_eq!(ch.typing_ticket("alice").as_deref(), Some("tt"));
    assert_eq!(ch.typing_ticket("bob"), None);
}

#[test]
fn requests_carry_the_token_of_the_channel() {
    let ch = channel(&[]);
    assert_eq!(ch.api().headers_with(String::new())[2].1, "Bearer token");
}
