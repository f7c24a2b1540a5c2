use xtg::model::AiJobConfig;
use xtg::service::{authorize_request, begin_poll, parse_api_id, plan_poll_start, PollStart, poll_tick, tick_log, LoginFlow, PollTick, SignInOutcome};
use xtg::settings::{migrate_config_keys, AppSettings, CommandState};
use xtg::translate::{normalize_chat_api_base, plan_translation, sanitize_api_key, translation_from_choices, translation_http_error};

fn settings() -> AppSettings {
    let mut s = AppSettings::default_in("/data");
    s.api_id = "12345".into();
    s.tg_targets = " @chan \n\n-100123\r\n".into();
    s.x_handles = "@alice\n  bob  \n@\n".into();
    s
}

#[test]
fn defaults() {
    let s = AppSettings::default_in("/data");
    assert_eq!(s.tg_session_path, "/data/telegram.session");
    assert_eq!(s.max_media_mb, 50);
    assert!(s.use_fake_x);
    assert_eq!(s.x_api_base, "https://api.twitter.com");
    assert_eq!(s.ai_model, "grok-3-mini");
}

#[test]
fn one_per_line_lists() {
    let s = settings();
    assert_eq!(s.tg_target_list(), vec!["@chan".to_string(), "-100123".to_string()]);
    assert_eq!(s.handle_list(), vec!["alice".to_string(), "bob".to_string()]);
}

#[test]
fn ai_settings_get_defaults() {
    let mut s = settings();
    s.ai_api_base = "  https://api.openai.com/v1 ".into();
    s.ai_model = "   ".into();
    let ai = s.ai_job_config();
    assert_eq!(ai.api_base, "https://api.x.ai/v1");
    assert_eq!(ai.model, "grok-3-mini");
    s.ai_api_base = " https://llm.example/v1 ".into();
    s.ai_model = " m1 ".into();
    let ai = s.ai_job_config();
    assert_eq!(ai.api_base, "https://llm.example/v1");
    assert_eq!(ai.model, " m1 ");
    s.ai_api_base = "".into();
    assert_eq!(s.ai_job_config().api_base, "https://api.x.ai/v1");
}

#[test]
fn any_openai_address_becomes_xai() {
    let mut s = settings();
    for base in [
        "https://api.openai.com",
        " https://api.openai.com/v1 ",
        "https://API.OpenAI.com/v1/",
        "http://api.openai.com:443/v1",
        "api.openai.com",
    ] {
        s.ai_api_base = base.into();
        assert_eq!(s.ai_job_config().api_base, "https://api.x.ai/v1", "{base}");
    }
    for base in ["https://api.openai.com.example/v1", "https://myapi.openai.com/v1", "https://x.example/api.openai.com"] {
        s.ai_api_base = base.into();
        assert_eq!(s.ai_job_config().api_base, base);
    }
}

#[test]
fn command_state_from_settings() {
    let s = settings();
    let c = CommandState::from_settings(&s);
    assert_eq!(c.handles, vec!["alice".to_string(), "bob".to_string()]);
    assert_eq!(c.max_media_bytes, 50 * 1024 * 1024);
    assert!(c.use_fake_x);
}

#[test]
fn old_keys_are_migrated() {
    let r = migrate_config_keys(vec![
        ("ai_provider".to_string(), 1),
        ("tg_target".to_string(), 2),
        ("phone".to_string(), 3),
    ]);
    let mut r = r;
    r.sort();
    assert_eq!(r, vec![("phone".to_string(), 3), ("tg_targets".to_string(), 2)]);
    let mut r = migrate_config_keys(vec![("tg_targets".to_string(), 5), ("tg_target".to_string(), 2)]);
    r.sort();
    assert_eq!(r, vec![("tg_targets".to_string(), 5)]);
}

#[test]
fn api_keys_and_roots_are_cleaned() {
    assert_eq!(sanitize_api_key("  \u{feff}Bearer   xai-123  "), "xai-123");
    assert_eq!(sanitize_api_key("bearer k"), "k");
    assert_eq!(sanitize_api_key("BEARER k"), "BEARER k");
    assert_eq!(normalize_chat_api_base(" HTTPS://API.X.AI/ "), "HTTPS://API.X.AI/v1");
    assert_eq!(normalize_chat_api_base("http://api.x.ai"), "http://api.x.ai/v1");
    assert_eq!(normalize_chat_api_base("https://api.x.ai/v1/"), "https://api.x.ai/v1");
}

#[test]
fn translation_requests() {
    let mut ai = AiJobConfig::default();
    assert!(plan_translation(&ai, "hi").is_none());
    ai.enabled = true;
    ai.api_key = " \u{feff} ".into();
    assert!(plan_translation(&ai, "hi").is_none());
    ai.api_key = "k".into();
    ai.api_base = "https://api.x.ai".into();
    let q = plan_translation(&ai, "hi").unwrap();
    assert_eq!(q.url, "https://api.x.ai/v1/chat/completions");
    assert_eq!(q.api_key, "k");
    assert_eq!(q.prompt, "将以下推文内容翻译成简体中文，只输出译文，不要解释或引号：\n\nhi");
    assert_eq!(translation_from_choices(&vec![Some("  你好 ".into()), Some("x".into())]), Ok("你好".to_string()));
    assert_eq!(translation_from_choices(&vec![None, Some("x".into())]), Err("API 未返回译文".to_string()));
    assert_eq!(translation_from_choices(&vec![Some("  ".into())]), Err("API 未返回译文".to_string()));
    assert_eq!(translation_from_choices(&vec![]), Err("API 未返回译文".to_string()));
    assert_eq!(translation_http_error("401 Unauthorized", "no"), "HTTP 401 Unauthorized: no");
}

#[test]
fn starting_to_poll() {
    let s = settings();
    let job = plan_poll_start(&s, 77).unwrap();
    assert_eq!(job.x_handles, vec!["alice".to_string(), "bob".to_string()]);
    assert_eq!(job.tg_targets, vec!["@chan".to_string(), "-100123".to_string()]);
    assert_eq!(job.poll_started_at_ms, 77);
    let mut bad = settings();
    bad.api_id = "abc".into();
    let e = plan_poll_start(&bad, 0).unwrap_err();
    assert_eq!((e.log.as_str(), e.error.as_str()), ("API ID 无效", "API ID 无效"));
    let mut bad = settings();
    bad.tg_targets = " \n ".into();
    assert_eq!(plan_poll_start(&bad, 0).unwrap_err().error, "未配置 TG 目标");
    let mut bad = settings();
    bad.use_fake_x = false;
    assert_eq!(plan_poll_start(&bad, 0).unwrap_err().error, "未配置 X Bearer");
    assert_eq!(parse_api_id(" 1"), 0);
    assert_eq!(parse_api_id("+7"), 7);
}

#[test]
fn sign_in_flow() {
    let mut f: LoginFlow<u8, u16> = LoginFlow::new();
    assert_eq!(f.take_login_token(), Err("请先请求验证码".to_string()));
    f.code_requested(1);
    assert_eq!(f.take_login_token(), Ok(1));
    assert_eq!(f.take_login_token(), Err("请先请求验证码".to_string()));
    f.code_requested(2);
    assert_eq!(f.code_outcome(SignInOutcome::PasswordRequired(9)), Ok(()));
    assert!(f.has_pending_2fa());
    assert!(f.login_token.is_none());
    assert_eq!(f.take_password_token(), Ok(9));
    assert_eq!(f.take_password_token(), Err("当前不需要 2FA".to_string()));
    assert_eq!(f.code_outcome(SignInOutcome::Failed("bad code".into())), Err("bad code".to_string()));
    f.pending_password = Some(3);
    assert_eq!(f.code_outcome(SignInOutcome::SignedIn), Ok(()));
    assert!(!f.has_pending_2fa());
}

#[test]
fn poll_ticks() {
    assert_eq!(poll_tick(false, true, true), PollTick::Paused);
    assert_eq!(poll_tick(true, false, true), PollTick::NotConnected);
    assert_eq!(poll_tick(true, true, false), PollTick::NotAuthorized);
    assert_eq!(poll_tick(true, true, true), PollTick::RunRound);
    assert_eq!(tick_log(&PollTick::NotConnected).unwrap(), "轮询跳过：未连接 TG");
    assert_eq!(tick_log(&PollTick::NotAuthorized).unwrap(), "轮询跳过：TG 未授权");
    assert!(tick_log(&PollTick::RunRound).is_none());
}

#[test]
fn web_api_access() {
    assert!(authorize_request("/api/health", Some("s"), None));
    assert!(authorize_request("/settings", None, None));
    assert!(authorize_request("/settings", Some("s"), Some("Bearer s")));
    assert!(!authorize_request("/settings", Some("s"), Some("Bearer x")));
    assert!(!authorize_request("/settings", Some("s"), Some("bearer s")));
    assert!(!authorize_request("/settings", Some("s"), None));
}

#[test]
fn starting_polls_resumes_or_plans() {
    let s = settings();
    match begin_poll(true, &s, 5) {
        (PollStart::Resumed(m), true) => assert_eq!(m, "轮询已恢复"),
        other => panic!("{other:?}"),
    }
    match begin_poll(false, &s, 5) {
        (PollStart::Started(job), true) => assert_eq!(job.poll_started_at_ms, 5),
        other => panic!("{other:?}"),
    }
    let mut bad = settings();
    bad.api_id = "x".into();
    match begin_poll(false, &bad, 5) {
        (PollStart::Refused(f), false) => assert_eq!(f.error, "API ID 无效"),
        other => panic!("{other:?}"),
    }
    match begin_poll(true, &bad, 5) {
        (PollStart::Resumed(_), true) => {}
        other => panic!("{other:?}"),
    }
}
