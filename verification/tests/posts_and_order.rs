use xtg::model::{tweet_id_to_unix_ms, AiJobConfig, CoreError, JobConfig, MediaItem, MediaKind, Post};
use xtg::order::{sort_posts_by_id, IdOrder};
use xtg::pipeline::{bigger_id, biggest_post, is_latest_command, latest_dir_name, post_is_new, select_new_posts, should_translate};

fn post(id: &str) -> Post {
    Post {
        id: id.to_string(),
        author_handle: "a".into(),
        text: format!("t{id}"),
        media: vec![],
        url: None,
        posted_at_ms: None,
        reply_to_url: None,
    }
}

fn ids(ps: &[Post]) -> Vec<String> {
    ps.iter().map(|p| p.id.clone()).collect()
}

#[test]
fn id_time_from_snowflake() {
    assert_eq!(tweet_id_to_unix_ms("1234567890123456789"), Some(1583178896824));
    assert_eq!(tweet_id_to_unix_ms("0"), Some(1288834974657));
    assert_eq!(tweet_id_to_unix_ms("abc"), None);
    assert_eq!(tweet_id_to_unix_ms("18446744073709551615"), Some(((u64::MAX >> 22) as i64) + 1288834974657));
}

#[test]
fn effective_time_prefers_api_time() {
    let mut p = post("1234567890123456789");
    assert_eq!(p.effective_time_ms(), Some(1583178896824));
    p.posted_at_ms = Some(5);
    assert_eq!(p.effective_time_ms(), Some(5));
    assert_eq!(post("x").effective_time_ms(), None);
}

#[test]
fn error_texts() {
    assert_eq!(CoreError::Fetch("a".into()).message(), "fetch: a");
    assert_eq!(CoreError::Telegram("b".into()).message(), "telegram: b");
    assert_eq!(CoreError::Storage("c".into()).message(), "storage: c");
}

#[test]
fn job_defaults() {
    let ai = AiJobConfig::default();
    assert!(!ai.enabled);
    assert_eq!(ai.api_base, "https://api.x.ai/v1");
    assert_eq!(ai.model, "grok-3-mini");
    let job = JobConfig::default();
    assert_eq!(job.max_media_bytes, 50 * 1024 * 1024);
    assert_eq!(job.poll_started_at_ms, 0);
    assert!(job.x_handles.is_empty() && job.tg_targets.is_empty());
}

#[test]
fn numeric_sort_is_stable() {
    let mut a = post("10");
    a.text = "first".into();
    let mut b = post("010");
    b.text = "second".into();
    let r = sort_posts_by_id(vec![post("300"), a, post("2"), b, post("x")], IdOrder::Numeric);
    assert_eq!(ids(&r), vec!["x", "2", "10", "010", "300"]);
    assert_eq!(r[2].text, "first");
    assert_eq!(r[3].text, "second");
}

#[test]
fn text_sort_compares_characters() {
    let r = sort_posts_by_id(vec![post("9"), post("10"), post("100"), post("1")], IdOrder::Lexicographic);
    assert_eq!(ids(&r), vec!["1", "10", "100", "9"]);
}

#[test]
fn bigger_id_is_numeric() {
    assert!(bigger_id("10", "9"));
    assert!(!bigger_id("9", "10"));
    assert!(!bigger_id("abc", "0"));
    assert!(bigger_id("1", "abc"));
}

#[test]
fn new_posts_come_after_cursor_and_start() {
    let posts = vec![post("1234567890123456789"), post("5"), post("1234567890123456790"), post("7")];
    let r = select_new_posts(posts, Some("6"), 0);
    assert_eq!(ids(&r), vec!["1234567890123456789", "1234567890123456790", "7"]);
    let r = select_new_posts(vec![post("1234567890123456789"), post("7"), post("x")], None, 1583178896825);
    assert_eq!(ids(&r), vec!["x"]);
    assert!(post_is_new("1234567890123456789", None, 1583178896824));
    assert!(!post_is_new("1234567890123456789", None, 1583178896825));
    assert!(!post_is_new("5", Some("5"), 0));
}

#[test]
fn biggest_post_takes_last_of_equals() {
    let mut a = post("20");
    a.text = "a".into();
    let mut b = post("020");
    b.text = "b".into();
    let r = biggest_post(vec![post("3"), a, post("x"), b, post("19")]).unwrap();
    assert_eq!(r.text, "b");
    assert!(biggest_post(vec![]).is_none());
}

#[test]
fn latest_command_detection() {
    assert!(is_latest_command(false, true, "@me 最新"));
    assert!(!is_latest_command(true, true, "最新"));
    assert!(!is_latest_command(false, false, "最新"));
    assert!(!is_latest_command(false, true, "hello"));
    assert_eq!(latest_dir_name("alice", "42"), "latest_alice_42");
}

#[test]
fn translation_needs_enabled_and_key() {
    let mut ai = AiJobConfig::default();
    assert!(!should_translate(&ai));
    ai.enabled = true;
    ai.api_key = "   ".into();
    assert!(!should_translate(&ai));
    ai.api_key = "k".into();
    assert!(should_translate(&ai));
}

#[test]
fn post_copy_is_equal() {
    let mut p = post("1");
    p.media.push(MediaItem { url: "u".into(), kind: MediaKind::Gif });
    p.url = Some("x".into());
    let q = p.copy();
    assert_eq!(format!("{:?}", p), format!("{:?}", q));
}
