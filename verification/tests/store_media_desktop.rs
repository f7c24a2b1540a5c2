use xtg::desktop::{
    font_candidates, font_face_index, panel_log_line, pick_font, push_log, ready_line, PanelEvent, Platform,
};
use xtg::media::{accept_chunk, content_length_ok, guess_ext, guess_mime, media_targets};
use xtg::model::{MediaItem, MediaKind, Post};
use xtg::store::TweetStore;

#[test]
fn store_reads_what_was_written() {
    let mut s = TweetStore::empty("/d/cursors.json".into());
    assert_eq!(s.last_id("alice"), None);
    s.set_last_id("alice", "5");
    s.set_last_id("bob", "7");
    s.set_last_id("alice", "9");
    assert_eq!(s.last_id("alice"), Some("9".to_string()));
    assert_eq!(s.last_id("bob"), Some("7".to_string()));
    assert_eq!(s.path(), "/d/cursors.json");
    let mut e = s.entries();
    e.sort();
    assert_eq!(e, vec![("alice".to_string(), "9".to_string()), ("bob".to_string(), "7".to_string())]);
    let back = TweetStore::from_entries("/d/c".into(), e);
    assert_eq!(back.last_id("alice"), Some("9".to_string()));
    let dup = TweetStore::from_entries("/d/c".into(), vec![("a".into(), "1".into()), ("a".into(), "2".into())]);
    assert_eq!(dup.last_id("a"), Some("2".to_string()));
    assert_eq!(dup.entries().len(), 1);
}

#[test]
fn media_extensions() {
    assert_eq!(guess_ext(MediaKind::Image, "https://v.twimg.com/VIDEO/1"), "mp4");
    assert_eq!(guess_ext(MediaKind::Image, "https://x/a.GIF?x"), "gif");
    assert_eq!(guess_ext(MediaKind::Image, "https://x/a.png"), "jpg");
    assert_eq!(guess_ext(MediaKind::Video, "https://x/a"), "mp4");
    assert_eq!(guess_ext(MediaKind::Gif, "https://x/a"), "gif");
    assert_eq!(guess_ext(MediaKind::Unknown, "https://x/a"), "bin");
}

#[test]
fn media_types() {
    assert_eq!(guess_mime("/t/1_0.JPG").as_deref(), Some("image/jpeg"));
    assert_eq!(guess_mime("/t/1_0.jpeg").as_deref(), Some("image/jpeg"));
    assert_eq!(guess_mime("/t/1_0.png").as_deref(), Some("image/png"));
    assert_eq!(guess_mime("/t/1_0.gif").as_deref(), Some("image/gif"));
    assert_eq!(guess_mime("/t/1_0.webp").as_deref(), Some("image/webp"));
    assert_eq!(guess_mime("/t/1_0.mp4").as_deref(), Some("video/mp4"));
    assert_eq!(guess_mime("/t/1_0.bin").as_deref(), Some("application/octet-stream"));
    assert_eq!(guess_mime("/t/noext"), None);
}

#[test]
fn media_files_are_named_by_post_and_index() {
    let p = Post {
        id: "42".into(),
        author_handle: "a".into(),
        text: "".into(),
        media: vec![
            MediaItem { url: "https://x/1.jpg".into(), kind: MediaKind::Image },
            MediaItem { url: "https://x/v.mp4".into(), kind: MediaKind::Video },
        ],
        url: None,
        posted_at_ms: None,
        reply_to_url: None,
    };
    let t = media_targets(&p, "/tmp/xtg-42");
    assert_eq!(t.len(), 2);
    assert_eq!(t[0].path, "/tmp/xtg-42/42_0.jpg");
    assert_eq!(t[1].path, "/tmp/xtg-42/42_1.mp4");
    assert_eq!(t[1].url, "https://x/v.mp4");
}

#[test]
fn download_cap() {
    assert!(content_length_ok(None, 10));
    assert!(content_length_ok(Some(10), 10));
    assert!(!content_length_ok(Some(11), 10));
    assert_eq!(accept_chunk(5, 5, 10), Some(10));
    assert_eq!(accept_chunk(5, 6, 10), None);
}

#[test]
fn log_keeps_recent_lines() {
    let mut logs: Vec<String> = (0..500).map(|i| i.to_string()).collect();
    push_log(&mut logs, "500".into());
    assert_eq!(logs.len(), 401);
    assert_eq!(logs[0], "100");
    assert_eq!(logs[400], "500");
    let mut short = vec!["a".to_string()];
    push_log(&mut short, "b".into());
    assert_eq!(short, vec!["a".to_string(), "b".to_string()]);
}

#[test]
fn font_faces() {
    assert_eq!(font_face_index(&[0u8; 50]), None);
    assert_eq!(font_face_index(&[0u8; 400]), None);
}

#[test]
fn panel_lines_after_buttons() {
    assert!(ready_line().starts_with("就绪。"));
    assert_eq!(
        panel_log_line(&PanelEvent::CodeRequested(Ok(()))),
        Some("验证码已发送，请输入后点「提交登录」".to_string())
    );
    assert_eq!(
        panel_log_line(&PanelEvent::CodeRequested(Err("timeout".into()))),
        Some("请求验证码失败: timeout".to_string())
    );
    assert_eq!(
        panel_log_line(&PanelEvent::LoginSubmitted(Ok(()), true)),
        Some("需要二步验证密码，填写后点「提交 2FA」".to_string())
    );
    assert_eq!(
        panel_log_line(&PanelEvent::LoginSubmitted(Ok(()), false)),
        Some("Telegram 登录成功".to_string())
    );
    assert_eq!(
        panel_log_line(&PanelEvent::LoginSubmitted(Err("bad code".into()), false)),
        Some("登录失败: bad code".to_string())
    );
    assert_eq!(
        panel_log_line(&PanelEvent::SecondFactorSubmitted(Err("wrong".into()))),
        Some("2FA 失败: wrong".to_string())
    );
    assert_eq!(panel_log_line(&PanelEvent::SettingsSaved(Ok(()))), None);
    assert_eq!(
        panel_log_line(&PanelEvent::SettingsSaved(Err("disk".into()))),
        Some("保存配置失败: disk".to_string())
    );
    assert_eq!(panel_log_line(&PanelEvent::PollStarted(Ok(()))), None);
    assert_eq!(
        panel_log_line(&PanelEvent::PollStarted(Err("API ID 无效".into()))),
        Some("启动轮询: API ID 无效".to_string())
    );
}

#[test]
fn font_candidate_files() {
    let w = font_candidates(Platform::Windows, None);
    assert_eq!(w.len(), 4);
    assert_eq!(w[0], "C:\\Windows\\Fonts\\msyh.ttc");
    assert_eq!(w[3], "C:\\Windows\\Fonts\\SIMHEI.TTF");
    let w2 = font_candidates(Platform::Windows, Some("D:\\Win"));
    assert_eq!(w2[1], "D:\\Win\\Fonts\\msyhbd.ttc");
    let l = font_candidates(Platform::Linux, None);
    assert_eq!(l[0], "/usr/share/fonts/opentype/noto/NotoSansCJK-Regular.ttc");
    assert_eq!(l.len(), 4);
    let m = font_candidates(Platform::MacOs, None);
    assert_eq!(m, vec![
        "/System/Library/Fonts/PingFang.ttc".to_string(),
        "/System/Library/Fonts/STHeiti Light.ttc".to_string(),
        "/Library/Fonts/Arial Unicode.ttf".to_string(),
    ]);
    assert!(font_candidates(Platform::Other, None).is_empty());
}

#[test]
fn no_font_without_a_readable_face() {
    assert_eq!(pick_font(&vec![]), None);
    assert_eq!(pick_font(&vec![None, Some(vec![0u8; 50]), Some(vec![0u8; 300])]), None);
}
