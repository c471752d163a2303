use zeroclaw::channels::weixin::api::MessageItem;
use zeroclaw::channels::weixin::markers::{
    assemble_items, images_to_upload, parse_markers, Segment,
};

fn written(segments: &[Segment]) -> String {
    segments
        .iter()
        .map(|s| match s {
            Segment::Text(t) => t.clone(),
            Segment::Image(p) => format!("[IMAGE:{p}]"),
        })
        .collect()
}

fn paths(content: &str) -> Vec<String> {
    images_to_upload(&parse_markers(content))
}

fn text_of(item: &MessageItem) -> &str {
    item.as_text().unwrap()
}

#[test]
fn pieces_make_up_the_text() {
    for content in [
        "",
        "hello",
        "a [b] c",
        "[IMAGE:/tmp/a.png] and [IMAGE:]",
        "open [IMAGE:/tmp/a.png",
        "[a[IMAGE:x]]",
        "[VOICE:x] [FILE:y] [VIDEO:z]",
        "ünïcode [IMAGE:bild ü.png] 微信",
    ] {
        assert_eq!(written(&parse_markers(content)), content);
    }
}

#[test]
fn images_are_found_in_order() {
    assert_eq!(paths("x[IMAGE:/a.png]y[IMAGE:/b.png]"), vec!["/a.png", "/b.png"]);
    assert_eq!(paths("[IMAGE:]"), vec![""]);
    assert_eq!(paths("no brackets"), Vec::<String>::new());
    assert_eq!(paths("[image:/a.png] [IMAGE /a.png]"), Vec::<String>::new());
    assert_eq!(paths("[IMAGE:/a.png"), Vec::<String>::new());
    assert_eq!(paths("[x[IMAGE:/a.png]"), Vec::<String>::new());
    assert_eq!(paths("[IMAGE:a[b]"), vec!["a[b"]);
}

#[test]
fn uploaded_images_follow_the_text() {
    let segments = parse_markers("see [IMAGE:/a.png] and [IMAGE:/b.png]!");
    let uploads = vec![
        Some(("pa".to_string(), "ka".to_string())),
        Some(("pb".to_string(), "kb".to_string())),
    ];
    let items = assemble_items(&segments, &uploads);
    assert_eq!(items.len(), 3);
    assert_eq!(text_of(&items[0]), "see  and !");
    match &items[2] {
        MessageItem::Image { image_item } => {
            assert_eq!(image_item.encrypt_query_param.as_deref(), Some("pb"));
            assert_eq!(image_item.aes_key.as_deref(), Some("kb"));
        }
        _ => panic!("no image"),
    }
}

#[test]
fn marker_stays_where_the_upload_failed() {
    let segments = parse_markers("[IMAGE:/a.png][IMAGE:/b.png]");
    let uploads = vec![None, Some(("p".to_string(), "k".to_string()))];
    let items = assemble_items(&segments, &uploads);
    assert_eq!(items.len(), 2);
    assert_eq!(text_of(&items[0]), "[IMAGE:/a.png]");
    assert!(!items[1].is_text());
}

#[test]
fn failed_uploads_leave_the_text_as_it_was() {
    let content = "a [IMAGE:/a.png] b [c] [IMAGE:d";
    let items = assemble_items(&parse_markers(content), &vec![None]);
    assert_eq!(items.len(), 1);
    assert_eq!(text_of(&items[0]), content);
}

#[test]
fn white_space_alone_is_not_sent() {
    let items = assemble_items(&parse_markers(" \n\t"), &vec![]);
    assert!(items.is_empty());
    let items = assemble_items(
        &parse_markers(" [IMAGE:/a.png]\n"),
        &vec![Some(("p".to_string(), "k".to_string()))],
    );
    assert_eq!(items.len(), 1);
    assert!(!items[0].is_text());
}
