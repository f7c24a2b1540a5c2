use xtg::latest::{LatestAction, LatestEvent, LatestPhase, LatestReply};
use xtg::model::{AiJobConfig, DownloadedMedia, JobConfig, Post};
use xtg::round::{Phase, PollRound, RoundAction, RoundEvent};
use xtg::settings::{AppSettings, CommandState};

fn post(id: &str) -> Post {
    Post {
        id: id.into(),
        author_handle: "alice".into(),
        text: format!("text {id}"),
        media: vec![],
        url: None,
        posted_at_ms: None,
        reply_to_url: None,
    }
}

fn job(handles: &[&str], targets: &[&str]) -> JobConfig {
    JobConfig {
        x_handles: handles.iter().map(|s| s.to_string()).collect(),
        tg_targets: targets.iter().map(|s| s.to_string()).collect(),
        max_media_bytes: 1000,
        poll_started_at_ms: 0,
        ai: AiJobConfig::default(),
    }
}

#[test]
fn round_without_targets_does_nothing() {
    let mut r = PollRound::new(&job(&["alice"], &[]), "/tmp");
    let s = r.step(RoundEvent::Begin);
    assert_eq!(s.logs, vec!["未配置 Telegram 目标".to_string()]);
    assert!(matches!(s.action, RoundAction::Finish));
    let mut r = PollRound::new(&job(&[], &["t"]), "/tmp");
    assert_eq!(r.step(RoundEvent::Begin).logs, vec!["未配置 X 账号".to_string()]);
    assert_eq!(r.phase(), Phase::Finished);
}

#[test]
fn round_relays_new_posts_in_order_and_moves_cursor() {
    let mut r = PollRound::new(&job(&["alice"], &["t1", "t2"]), "/tmp");
    assert!(matches!(r.step(RoundEvent::Begin).action, RoundAction::ReadCursor { ref handle } if handle == "alice"));
    assert!(matches!(r.step(RoundEvent::Cursor(Some("5".into()))).action, RoundAction::Fetch { .. }));
    let s = r.step(RoundEvent::Fetched(vec![post("9"), post("3"), post("7")]));
    match s.action {
        RoundAction::Download { post, dir, max_bytes } => {
            assert_eq!(post.id, "7");
            assert_eq!(dir, "/tmp/xtg-7");
            assert_eq!(max_bytes, 1000);
        }
        other => panic!("{other:?}"),
    }
    let s = r.step(RoundEvent::Downloaded(Ok(vec![DownloadedMedia { path: "/tmp/xtg-7/7_0.jpg".into(), mime: None }])));
    match s.action {
        RoundAction::Send { target, post, files, translated } => {
            assert_eq!(target, "t1");
            assert_eq!(post.id, "7");
            assert_eq!(files.len(), 1);
            assert!(translated.is_none());
        }
        other => panic!("{other:?}"),
    }
    let s = r.step(RoundEvent::Sent(Ok(())));
    assert_eq!(s.logs, vec!["已发送 @alice 推文 7 → t1".to_string()]);
    assert!(matches!(s.action, RoundAction::Send { ref target, .. } if target == "t2"));
    let s = r.step(RoundEvent::Sent(Ok(())));
    match s.action {
        RoundAction::SaveCursor { handle, post_id } => assert_eq!((handle.as_str(), post_id.as_str()), ("alice", "7")),
        other => panic!("{other:?}"),
    }
    assert!(matches!(r.step(RoundEvent::CursorSaved).action, RoundAction::RemoveDir { ref dir } if dir == "/tmp/xtg-7"));
    assert!(matches!(r.step(RoundEvent::Removed).action, RoundAction::Download { ref post, .. } if post.id == "9"));
}

#[test]
fn failed_send_keeps_cursor() {
    let mut r = PollRound::new(&job(&["alice", "bob"], &["t1", "t2"]), "/tmp");
    r.step(RoundEvent::Begin);
    r.step(RoundEvent::Cursor(None));
    r.step(RoundEvent::Fetched(vec![post("1")]));
    r.step(RoundEvent::Downloaded(Ok(vec![])));
    let s = r.step(RoundEvent::Sent(Err("boom".into())));
    assert_eq!(s.logs, vec!["TG 发送失败 1 → t1: boom".to_string()]);
    let s = r.step(RoundEvent::Sent(Ok(())));
    assert!(matches!(s.action, RoundAction::RemoveDir { .. }));
    let s = r.step(RoundEvent::Removed);
    assert!(matches!(s.action, RoundAction::ReadCursor { ref handle } if handle == "bob"));
    let s = r.step(RoundEvent::CursorOpenFailed("denied".into()));
    assert_eq!(s.logs, vec!["打开游标文件失败: denied".to_string()]);
    assert!(matches!(s.action, RoundAction::Finish));
}

#[test]
fn round_errors_are_logged() {
    let mut j = job(&["alice"], &["t"]);
    j.ai.enabled = true;
    j.ai.api_key = "k".into();
    let mut r = PollRound::new(&j, "/tmp");
    r.step(RoundEvent::Begin);
    let s = r.step(RoundEvent::CursorReadFailed("bad json".into()));
    assert_eq!(s.logs, vec!["读取游标失败: bad json".to_string()]);
    let mut r = PollRound::new(&j, "/tmp");
    r.step(RoundEvent::Begin);
    r.step(RoundEvent::Cursor(None));
    assert_eq!(r.step(RoundEvent::FetchFailed("fetch: x".into())).logs, vec!["抓取 @alice 失败: fetch: x".to_string()]);
    let mut r = PollRound::new(&j, "/tmp");
    r.step(RoundEvent::Begin);
    r.step(RoundEvent::Cursor(None));
    assert!(matches!(r.step(RoundEvent::Fetched(vec![post("2")])).action, RoundAction::Translate { ref text } if text == "text 2"));
    let s = r.step(RoundEvent::Translated(Err("timeout".into())));
    assert_eq!(s.logs, vec!["汉化失败 2: timeout".to_string()]);
    let s = r.step(RoundEvent::Downloaded(Err("disk".into())));
    assert_eq!(s.logs, vec!["下载媒体失败 2: disk".to_string()]);
    assert!(matches!(s.action, RoundAction::Finish));
}

#[test]
fn cursor_save_failure_is_logged() {
    let mut r = PollRound::new(&job(&["alice"], &["t"]), "/tmp");
    r.step(RoundEvent::Begin);
    r.step(RoundEvent::Cursor(None));
    r.step(RoundEvent::Fetched(vec![post("1")]));
    r.step(RoundEvent::Downloaded(Ok(vec![])));
    r.step(RoundEvent::Sent(Ok(())));
    let s = r.step(RoundEvent::CursorSaveFailed("ro".into()));
    assert_eq!(s.logs, vec!["保存游标失败: ro".to_string()]);
    assert!(r.expects(&RoundEvent::Removed));
    assert!(!r.expects(&RoundEvent::Begin));
}

fn state(handles: &str) -> CommandState {
    let mut s = AppSettings::default_in("/d");
    s.x_handles = handles.into();
    CommandState::from_settings(&s)
}

#[test]
fn latest_answers_with_largest_post() {
    let mut l = LatestReply::new(&state("alice\nbob"), "/m");
    assert!(matches!(l.step(LatestEvent::Begin).action, LatestAction::Fetch { ref handle } if handle == "alice"));
    let s = l.step(LatestEvent::Fetched(vec![post("3"), post("12"), post("9")]));
    match s.action {
        LatestAction::Download { post, dir, .. } => {
            assert_eq!(post.id, "12");
            assert_eq!(dir, "/m/xtg-latest_alice_12");
        }
        other => panic!("{other:?}"),
    }
    let s = l.step(LatestEvent::Downloaded(Err("net".into())));
    assert_eq!(s.logs, vec!["「最新」下载媒体失败: net".to_string()]);
    assert!(matches!(s.action, LatestAction::Reply { ref files, .. } if files.is_empty()));
    let s = l.step(LatestEvent::Sent(Ok(())));
    assert_eq!(s.logs, vec!["「最新」已回复 @alice 推文 12".to_string()]);
    l.step(LatestEvent::Removed);
    let s = l.step(LatestEvent::Fetched(vec![]));
    assert_eq!(s.logs, vec!["「最新」@bob 无可用推文".to_string()]);
    assert_eq!(l.phase(), LatestPhase::Finished);
}

#[test]
fn latest_without_accounts() {
    let mut l = LatestReply::new(&state(""), "/m");
    let s = l.step(LatestEvent::Begin);
    assert_eq!(s.logs, vec!["「最新」：未配置 X 账号".to_string()]);
}
