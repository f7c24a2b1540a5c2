//! The decisions of the relay service: checking the settings before polling
//! starts, the sign-in flow, what each polling tick does, and who may use the
//! web API.

use vstd::prelude::*;
use crate::model::JobConfig;
use crate::settings::{ai_base_of, ai_model_of, clean_lines, AppSettings};
use crate::text::{chars_of, has_prefix, parse_i32, parse_signed, push_str, split_char, str_eq, string_of_range, starts_with, trim, trim_str, views};

verus! {

/// The API id a setting gives: the number it reads as (`i32`), else 0.
pub open spec fn api_id_of(s: Seq<char>) -> int {
    match parse_signed(s, i32::MAX as nat) {
        Some(n) => n,
        None => 0,
    }
}

/// The API id of the settings; 0 when it does not read as a number.
pub fn parse_api_id(s: &str) -> (r: i32)
    ensures
        r as int == api_id_of(s@),
{
    match parse_i32(s) {
        Some(n) => n,
        None => 0,
    }
}

/// Why polling did not start: the line for the log and the error to return.
#[derive(Debug)]
pub struct StartRefusal {
    pub log: String,
    pub error: String,
}

fn refusal(log: &str, error: &str) -> (r: StartRefusal)
    ensures
        r.log@ == log@,
        r.error@ == error@,
{
    let mut l = String::new();
    push_str(&mut l, log);
    let mut e = String::new();
    push_str(&mut e, error);
    StartRefusal { log: l, error: e }
}

/// The job that starting to poll runs, started at `now_ms`; or why it does
/// not start: no valid API id; no Telegram target; or no bearer token while
/// the real X API is in use.
pub open spec fn poll_plan(s: AppSettings, now_ms: i64, r: Result<JobConfig, StartRefusal>) -> bool {
    let targets = clean_lines(split_char(s.tg_targets@, '\n'), false);
    if api_id_of(s.api_id@) == 0 {
        r matches Err(f) && f.log@ == "API ID 无效"@ && f.error@ == "API ID 无效"@
    } else if targets.len() == 0 {
        r matches Err(f) && f.log@ == "未配置 Telegram 目标（每行一个群组/频道）"@ && f.error@
            == "未配置 TG 目标"@
    } else if !s.use_fake_x && trim(s.x_bearer_token@).len() == 0 {
        r matches Err(f) && f.log@ == "未配置 X Bearer Token（或勾选「假 X 数据」用于测试）"@
            && f.error@ == "未配置 X Bearer"@
    } else {
        r matches Ok(job) && {
            &&& views(job.x_handles@) == clean_lines(split_char(s.x_handles@, '\n'), true)
            &&& views(job.tg_targets@) == targets
            &&& job.max_media_bytes == s.max_media_mb * 1024 * 1024
            &&& job.poll_started_at_ms == now_ms
            &&& job.ai.enabled == s.ai_enabled
            &&& job.ai.api_base@ == ai_base_of(s.ai_api_base@)
            &&& job.ai.api_key@ == s.ai_api_key@
            &&& job.ai.model@ == ai_model_of(s.ai_model@)
        }
    }
}

/// The job that starting to poll runs, or why it does not start. The media
/// cap in megabytes must fit in bytes.
pub fn plan_poll_start(s: &AppSettings, now_ms: i64) -> (r: Result<JobConfig, StartRefusal>)
    requires
        s.max_media_mb * 1024 * 1024 <= u64::MAX,
    ensures
        poll_plan(*s, now_ms, r),
{
    if parse_api_id(s.api_id.as_str()) == 0 {
        return Err(refusal("API ID 无效", "API ID 无效"));
    }
    let handles = s.handle_list();
    let targets = s.tg_target_list();
    if targets.len() == 0 {
        return Err(refusal("未配置 Telegram 目标（每行一个群组/频道）", "未配置 TG 目标"));
    }
    if !s.use_fake_x {
        let t = trim_str(s.x_bearer_token.as_str());
        if t.as_str().unicode_len() == 0 {
            return Err(refusal("未配置 X Bearer Token（或勾选「假 X 数据」用于测试）", "未配置 X Bearer"));
        }
    }
    Ok(JobConfig {
        x_handles: handles,
        tg_targets: targets,
        max_media_bytes: s.max_media_mb * 1024 * 1024,
        poll_started_at_ms: now_ms,
        ai: s.ai_job_config(),
    })
}

/// What pressing "start polling" comes to.
#[derive(Debug)]
pub enum PollStart {
    /// A polling task exists already: it runs again, with this log line.
    Resumed(String),
    /// A new task starts with this job.
    Started(JobConfig),
    /// Nothing starts, for this reason.
    Refused(StartRefusal),
}

/// Starting to poll: with a polling task in place, it only resumes;
/// otherwise the settings are checked and a job is planned. Polling runs
/// afterwards unless the start was refused.
pub fn begin_poll(task_exists: bool, s: &AppSettings, now_ms: i64) -> (r: (PollStart, bool))
    requires
        !task_exists ==> s.max_media_mb * 1024 * 1024 <= u64::MAX,
    ensures
        task_exists ==> (r.0 matches PollStart::Resumed(m) && m@ == "轮询已恢复"@),
        !task_exists ==> match r.0 {
            PollStart::Started(job) => poll_plan(*s, now_ms, Ok(job)),
            PollStart::Refused(f) => poll_plan(*s, now_ms, Err(f)),
            PollStart::Resumed(_) => false,
        },
        r.1 == !(r.0 is Refused),
{
    if task_exists {
        let mut m = String::new();
        push_str(&mut m, "轮询已恢复");
        return (PollStart::Resumed(m), true);
    }
    match plan_poll_start(s, now_ms) {
        Ok(job) => (PollStart::Started(job), true),
        Err(f) => (PollStart::Refused(f), false),
    }
}

// ---------------------------------------------------------------------------
// Signing in
// ---------------------------------------------------------------------------

/// How a sign-in attempt ended.
#[derive(Debug)]
pub enum SignInOutcome<P> {
    /// The account is signed in.
    SignedIn,
    /// The account has a second factor; its password is asked for next.
    PasswordRequired(P),
    /// The attempt failed, with the error's text.
    Failed(String),
}

/// The tokens between the steps of signing in: the one that a requested
/// login code comes with, and the one that a second-factor password answers.
pub struct LoginFlow<L, P> {
    pub login_token: Option<L>,
    pub pending_password: Option<P>,
}

impl<L, P> LoginFlow<L, P> {
    /// No sign-in under way.
    pub fn new() -> (r: LoginFlow<L, P>)
        ensures
            r.login_token is None,
            r.pending_password is None,
    {
        LoginFlow { login_token: None, pending_password: None }
    }

    /// A login code was sent; `token` comes with it.
    pub fn code_requested(&mut self, token: L)
        ensures
            final(self).login_token == Some(token),
            final(self).pending_password == old(self).pending_password,
    {
        self.login_token = Some(token);
    }

    /// The token to sign in with a code; it is used up. Without one, a code
    /// must be requested first.
    pub fn take_login_token(&mut self) -> (r: Result<L, String>)
        ensures
            final(self).login_token is None,
            final(self).pending_password == old(self).pending_password,
            match old(self).login_token {
                Some(t) => r == Ok::<L, String>(t),
                None => r matches Err(m) && m@ == "请先请求验证码"@,
            },
    {
        match self.login_token.take() {
            Some(t) => Ok(t),
            None => {
                let mut m = String::new();
                push_str(&mut m, "请先请求验证码");
                Err(m)
            },
        }
    }

    /// The outcome of signing in with a code: signed in, nothing is pending;
    /// a password is required, its token is kept (and no login token);
    /// failed, the error is returned and nothing changes.
    pub fn code_outcome(&mut self, outcome: SignInOutcome<P>) -> (r: Result<(), String>)
        ensures
            match outcome {
                SignInOutcome::SignedIn => r is Ok && final(self).pending_password is None
                    && final(self).login_token == old(self).login_token,
                SignInOutcome::PasswordRequired(t) => r is Ok && final(self).pending_password
                    == Some(t) && final(self).login_token is None,
                SignInOutcome::Failed(m) => r matches Err(e) && e@ == m@ && final(self).login_token
                    == old(self).login_token && final(self).pending_password == old(
                    self,
                ).pending_password,
            },
    {
        match outcome {
            SignInOutcome::SignedIn => {
                self.pending_password = None;
                Ok(())
            },
            SignInOutcome::PasswordRequired(t) => {
                self.pending_password = Some(t);
                self.login_token = None;
                Ok(())
            },
            SignInOutcome::Failed(m) => Err(m),
        }
    }

    /// The token that a second-factor password answers; it is used up.
    /// Without one, no second factor is asked for.
    pub fn take_password_token(&mut self) -> (r: Result<P, String>)
        ensures
            final(self).pending_password is None,
            final(self).login_token == old(self).login_token,
            match old(self).pending_password {
                Some(t) => r == Ok::<P, String>(t),
                None => r matches Err(m) && m@ == "当前不需要 2FA"@,
            },
    {
        match self.pending_password.take() {
            Some(t) => Ok(t),
            None => {
                let mut m = String::new();
                push_str(&mut m, "当前不需要 2FA");
                Err(m)
            },
        }
    }

    /// Whether a second-factor password is asked for.
    pub fn has_pending_2fa(&self) -> (r: bool)
        ensures
            r == self.pending_password is Some,
    {
        self.pending_password.is_some()
    }
}

// ---------------------------------------------------------------------------
// Polling ticks
// ---------------------------------------------------------------------------

/// What one tick of the poller does.
#[derive(Debug, PartialEq, Eq, Structural)]
pub enum PollTick {
    /// Polling is paused: wait a moment and look again.
    Paused,
    /// No Telegram connection: say so and wait an interval.
    NotConnected,
    /// The account is not signed in: say so and wait an interval.
    NotAuthorized,
    /// Run a round, then wait an interval.
    RunRound,
}

/// What one tick of the poller does.
pub fn poll_tick(running: bool, connected: bool, authorized: bool) -> (r: PollTick)
    ensures
        !running ==> r == PollTick::Paused,
        running && !connected ==> r == PollTick::NotConnected,
        running && connected && !authorized ==> r == PollTick::NotAuthorized,
        running && connected && authorized ==> r == PollTick::RunRound,
{
    if !running {
        PollTick::Paused
    } else if !connected {
        PollTick::NotConnected
    } else if !authorized {
        PollTick::NotAuthorized
    } else {
        PollTick::RunRound
    }
}

/// The log line of a tick that skips its round, if it does.
pub fn tick_log(t: &PollTick) -> (r: Option<String>)
    ensures
        *t == PollTick::NotConnected ==> (r matches Some(m) && m@ == "轮询跳过：未连接 TG"@),
        *t == PollTick::NotAuthorized ==> (r matches Some(m) && m@ == "轮询跳过：TG 未授权"@),
        (*t == PollTick::Paused || *t == PollTick::RunRound) ==> r is None,
{
    match t {
        PollTick::NotConnected => {
            let mut m = String::new();
            push_str(&mut m, "轮询跳过：未连接 TG");
            Some(m)
        },
        PollTick::NotAuthorized => {
            let mut m = String::new();
            push_str(&mut m, "轮询跳过：TG 未授权");
            Some(m)
        },
        _ => None,
    }
}

// ---------------------------------------------------------------------------
// The web API's access check
// ---------------------------------------------------------------------------

/// Whether a request may pass: the health check always may; with an admin
/// token configured, only a request whose `Authorization` header is
/// `Bearer ` and that token; without one, every request.
pub open spec fn request_allowed(path: Seq<char>, admin_token: Option<Seq<char>>, authorization: Option<Seq<char>>) -> bool {
    if path == "/api/health"@ {
        true
    } else {
        match admin_token {
            None => true,
            Some(expected) => match authorization {
                Some(a) => starts_with(a, "Bearer "@) && a.subrange(7, a.len() as int)
                    == expected,
                None => false,
            },
        }
    }
}

/// Whether a request to the web API may pass.
pub fn authorize_request(path: &str, admin_token: Option<&str>, authorization: Option<&str>) -> (r: bool)
    ensures
        r == request_allowed(
            path@,
            match admin_token {
                Some(t) => Some(t@),
                None => None,
            },
            match authorization {
                Some(a) => Some(a@),
                None => None,
            },
        ),
{
    if str_eq(path, "/api/health") {
        return true;
    }
    let expected = match admin_token {
        None => return true,
        Some(t) => t,
    };
    let a = match authorization {
        None => return false,
        Some(a) => a,
    };
    let av = chars_of(a);
    let p = chars_of("Bearer ");
    proof {
        reveal_strlit("Bearer ");
    }
    assert(p@.len() == 7);
    if !has_prefix(av.as_slice(), p.as_slice()) {
        return false;
    }
    let rest = string_of_range(av.as_slice(), 7, av.len());
    str_eq(rest.as_str(), expected)
}

} // verus!
