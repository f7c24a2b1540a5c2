use xtg::model::{DownloadedMedia, MediaItem, MediaKind, Post};
use xtg::telegram::{chunk_text, classify_target, compose_post_text, format_post_time_line_ms, plan_media_upload, post_messages, post_send_ops, MediaPlan, TargetRef, TgOp};

fn post() -> Post {
    Post {
        id: "1234567890123456789".into(),
        author_handle: "alice".into(),
        text: "hello".into(),
        media: vec![],
        url: Some("https://x.com/alice/status/1234567890123456789".into()),
        posted_at_ms: Some(0),
        reply_to_url: None,
    }
}

fn dm(path: &str, mime: Option<&str>) -> DownloadedMedia {
    DownloadedMedia { path: path.into(), mime: mime.map(|s| s.into()) }
}

#[test]
fn chunks_cover_the_text() {
    assert_eq!(chunk_text(""), vec![String::new()]);
    let s: String = "中".repeat(4096 * 2 + 5);
    let parts = chunk_text(&s);
    assert_eq!(parts.len(), 3);
    assert_eq!(parts[0].chars().count(), 4096);
    assert_eq!(parts[2].chars().count(), 5);
    assert_eq!(parts.concat(), s);
    assert_eq!(chunk_text(&"a".repeat(4096)).len(), 1);
}

#[test]
fn time_line_in_utc8() {
    assert_eq!(format_post_time_line_ms(0), "发帖时间：1970-01-01 08:00:00 (UTC+8)");
    assert_eq!(format_post_time_line_ms(1704067200000), "发帖时间：2024-01-01 08:00:00 (UTC+8)");
    assert_eq!(format_post_time_line_ms(i64::MAX), format!("时间戳(ms): {}", i64::MAX));
}

#[test]
fn post_text_layout() {
    let mut p = post();
    p.reply_to_url = Some("https://x.com/i/status/1".into());
    p.media = vec![
        MediaItem { url: "https://m/1.jpg".into(), kind: MediaKind::Image },
        MediaItem { url: "https://m/2.mp4".into(), kind: MediaKind::Video },
    ];
    let t = compose_post_text(&p, Some("你好"));
    assert_eq!(
        t,
        "@alice · 1234567890123456789\n发帖时间：1970-01-01 08:00:00 (UTC+8)\n【回复】\n源帖：https://x.com/i/status/1\n你好\nhttps://x.com/alice/status/1234567890123456789\n\n媒体（下载完成后补发文件）：\nhttps://m/1.jpg\nhttps://m/2.mp4"
    );
    let mut q = post();
    q.url = None;
    q.posted_at_ms = None;
    q.id = "x".into();
    assert_eq!(compose_post_text(&q, None), "@alice · x\nhello");
    assert_eq!(post_messages(&q, None), vec!["@alice · x\nhello".to_string()]);
}

#[test]
fn media_go_as_album_or_documents() {
    assert!(matches!(plan_media_upload(&vec![]), MediaPlan::TextOnly));
    match plan_media_upload(&vec![dm("/t/a.mp4", Some("video/mp4")), dm("/t/b.jpg", Some("image/jpeg")), dm("/t/c.PNG", None)]) {
        MediaPlan::Album(v) => assert_eq!(v, vec!["/t/b.jpg".to_string()]),
        other => panic!("{other:?}"),
    }
    match plan_media_upload(&vec![dm("/t/a.bin", None), dm("/t/b.mov", None), dm("/t/c.mp4", Some("video/mp4"))]) {
        MediaPlan::Document(p) => assert_eq!(p, "/t/b.mov"),
        other => panic!("{other:?}"),
    }
    match plan_media_upload(&vec![dm("/t/a.bin", None), dm("/t/b", Some("text/plain"))]) {
        MediaPlan::Documents(v) => assert_eq!(v, vec!["/t/a.bin".to_string(), "/t/b".to_string()]),
        other => panic!("{other:?}"),
    }
    match plan_media_upload(&vec![dm("/t/a.gif", None)]) {
        MediaPlan::Album(v) => assert_eq!(v, vec!["/t/a.gif".to_string()]),
        other => panic!("{other:?}"),
    }
}

#[test]
fn targets_name_chats() {
    assert!(matches!(classify_target(" -1001234567890 "), TargetRef::BotApiId(-1001234567890)));
    match classify_target("@mychannel") {
        TargetRef::Username(u) => assert_eq!(u, "mychannel"),
        other => panic!("{other:?}"),
    }
    match classify_target("@12345") {
        TargetRef::Username(u) => assert_eq!(u, "12345"),
        other => panic!("{other:?}"),
    }
    match classify_target("1-2") {
        TargetRef::Username(u) => assert_eq!(u, "1-2"),
        other => panic!("{other:?}"),
    }
}

#[test]
fn delivery_sends_texts_then_files() {
    let p = post();
    let ops = post_send_ops(&p, Some("你好"), &vec![]);
    assert_eq!(ops.len(), 1);
    match &ops[0] {
        TgOp::Text(t) => assert_eq!(*t, compose_post_text(&p, Some("你好"))),
        other => panic!("{other:?}"),
    }
    let ops = post_send_ops(&p, None, &vec![dm("/t/a.bin", None), dm("/t/b", Some("text/plain"))]);
    assert_eq!(ops.len(), 3);
    assert!(matches!(&ops[0], TgOp::Text(_)));
    assert!(matches!(&ops[1], TgOp::Document(d) if d == "/t/a.bin"));
    assert!(matches!(&ops[2], TgOp::Document(d) if d == "/t/b"));
    let ops = post_send_ops(&p, None, &vec![dm("/t/a.jpg", None), dm("/t/v.mp4", None)]);
    assert_eq!(ops.len(), 2);
    assert!(matches!(&ops[1], TgOp::Album(v) if v == &vec!["/t/a.jpg".to_string()]));
}
