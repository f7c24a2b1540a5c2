//! One polling round as a state machine. For each account: read its cursor,
//! fetch its posts, keep the new ones in id order, and for each: translate
//! it when asked to, download its media, send it to every target, and move
//! the cursor past it only when every target received it. The caller does
//! the outside work that each action names and reports back with an event.

use vstd::prelude::*;
use crate::model::{copy_strings, opt_view, view_seq, DownloadedMedia, DownloadedMediaView, JobConfig, Post, PostView};
use crate::order::{is_stable_sort, IdOrder};
use crate::paths::{join_path, temp_dir_for_post};
use crate::pipeline::{keep_new, select_new_posts, should_translate, translation_wanted};
use crate::text::{push_str, views};

verus! {

/// Where a round stands.
#[derive(Clone, Copy, Debug, PartialEq, Eq, Structural)]
pub enum Phase {
    Start,
    AwaitCursor,
    AwaitFetch,
    AwaitTranslate,
    AwaitDownload,
    AwaitSend,
    AwaitSave,
    AwaitRemove,
    Finished,
}

/// What the caller reports after doing an action.
#[derive(Debug)]
pub enum RoundEvent {
    /// The round starts.
    Begin,
    /// The cursor file could not be opened.
    CursorOpenFailed(String),
    /// The cursor file could not be read.
    CursorReadFailed(String),
    /// The account's cursor.
    Cursor(Option<String>),
    /// The fetch failed, with the error's text.
    FetchFailed(String),
    /// The fetched posts.
    Fetched(Vec<Post>),
    /// The translation, or the error's text.
    Translated(Result<String, String>),
    /// The downloaded files, or the error's text.
    Downloaded(Result<Vec<DownloadedMedia>, String>),
    /// Whether the post reached the target, or the error's text.
    Sent(Result<(), String>),
    /// The cursor was written.
    CursorSaved,
    /// The cursor file could not be opened; the cursor stays.
    CursorStoreUnavailable,
    /// Writing the cursor failed, with the error's text.
    CursorSaveFailed(String),
    /// The scratch directory is gone.
    Removed,
}

/// The outside work a round asks for next.
#[derive(Debug)]
pub enum RoundAction {
    ReadCursor { handle: String },
    Fetch { handle: String },
    Translate { text: String },
    Download { post: Post, dir: String, max_bytes: u64 },
    Send { target: String, post: Post, files: Vec<DownloadedMedia>, translated: Option<String> },
    SaveCursor { handle: String, post_id: String },
    RemoveDir { dir: String },
    Finish,
}

/// Log lines to emit, then an action to perform.
#[derive(Debug)]
pub struct RoundStep {
    pub logs: Vec<String>,
    pub action: RoundAction,
}

pub enum EventView {
    Begin,
    CursorOpenFailed(Seq<char>),
    CursorReadFailed(Seq<char>),
    Cursor(Option<Seq<char>>),
    FetchFailed(Seq<char>),
    Fetched(Seq<PostView>),
    Translated(Result<Seq<char>, Seq<char>>),
    Downloaded(Result<Seq<DownloadedMediaView>, Seq<char>>),
    Sent(Result<(), Seq<char>>),
    CursorSaved,
    CursorStoreUnavailable,
    CursorSaveFailed(Seq<char>),
    Removed,
}

impl View for RoundEvent {
    type V = EventView;

    open spec fn view(&self) -> EventView {
        match self {
            RoundEvent::Begin => EventView::Begin,
            RoundEvent::CursorOpenFailed(m) => EventView::CursorOpenFailed(m@),
            RoundEvent::CursorReadFailed(m) => EventView::CursorReadFailed(m@),
            RoundEvent::Cursor(c) => EventView::Cursor(opt_view(*c)),
            RoundEvent::FetchFailed(m) => EventView::FetchFailed(m@),
            RoundEvent::Fetched(ps) => EventView::Fetched(view_seq(ps@)),
            RoundEvent::Translated(r) => EventView::Translated(
                match r {
                    Ok(t) => Ok(t@),
                    Err(m) => Err(m@),
                },
            ),
            RoundEvent::Downloaded(r) => EventView::Downloaded(
                match r {
                    Ok(fs) => Ok(view_seq(fs@)),
                    Err(m) => Err(m@),
                },
            ),
            RoundEvent::Sent(r) => EventView::Sent(
                match r {
                    Ok(_) => Ok(()),
                    Err(m) => Err(m@),
                },
            ),
            RoundEvent::CursorSaved => EventView::CursorSaved,
            RoundEvent::CursorStoreUnavailable => EventView::CursorStoreUnavailable,
            RoundEvent::CursorSaveFailed(m) => EventView::CursorSaveFailed(m@),
            RoundEvent::Removed => EventView::Removed,
        }
    }
}

pub enum ActionView {
    ReadCursor(Seq<char>),
    Fetch(Seq<char>),
    Translate(Seq<char>),
    Download(PostView, Seq<char>, u64),
    Send(Seq<char>, PostView, Seq<DownloadedMediaView>, Option<Seq<char>>),
    SaveCursor(Seq<char>, Seq<char>),
    RemoveDir(Seq<char>),
    Finish,
}

impl View for RoundAction {
    type V = ActionView;

    open spec fn view(&self) -> ActionView {
        match self {
            RoundAction::ReadCursor { handle } => ActionView::ReadCursor(handle@),
            RoundAction::Fetch { handle } => ActionView::Fetch(handle@),
            RoundAction::Translate { text } => ActionView::Translate(text@),
            RoundAction::Download { post, dir, max_bytes } => ActionView::Download(
                post@,
                dir@,
                *max_bytes,
            ),
            RoundAction::Send { target, post, files, translated } => ActionView::Send(
                target@,
                post@,
                view_seq(files@),
                opt_view(*translated),
            ),
            RoundAction::SaveCursor { handle, post_id } => ActionView::SaveCursor(
                handle@,
                post_id@,
            ),
            RoundAction::RemoveDir { dir } => ActionView::RemoveDir(dir@),
            RoundAction::Finish => ActionView::Finish,
        }
    }
}

/// A round's state.
pub struct RoundView {
    pub handles: Seq<Seq<char>>,
    pub targets: Seq<Seq<char>>,
    pub max_media_bytes: u64,
    pub poll_started_at_ms: i64,
    pub translate: bool,
    pub temp_base: Seq<char>,
    pub phase: Phase,
    pub handle_idx: int,
    pub last: Option<Seq<char>>,
    pub posts: Seq<PostView>,
    pub post_idx: int,
    pub translation: Option<Seq<char>>,
    pub files: Seq<DownloadedMediaView>,
    pub dir: Seq<char>,
    pub target_idx: int,
    pub all_ok: bool,
}

/// The state of one polling round.
pub struct PollRound {
    handles: Vec<String>,
    targets: Vec<String>,
    max_media_bytes: u64,
    poll_started_at_ms: i64,
    translate: bool,
    temp_base: String,
    phase: Phase,
    handle_idx: usize,
    last: Option<String>,
    posts: Vec<Post>,
    post_idx: usize,
    translation: Option<String>,
    files: Vec<DownloadedMedia>,
    dir: String,
    target_idx: usize,
    all_ok: bool,
}

impl View for PollRound {
    type V = RoundView;

    closed spec fn view(&self) -> RoundView {
        RoundView {
            handles: views(self.handles@),
            targets: views(self.targets@),
            max_media_bytes: self.max_media_bytes,
            poll_started_at_ms: self.poll_started_at_ms,
            translate: self.translate,
            temp_base: self.temp_base@,
            phase: self.phase,
            handle_idx: self.handle_idx as int,
            last: opt_view(self.last),
            posts: view_seq(self.posts@),
            post_idx: self.post_idx as int,
            translation: opt_view(self.translation),
            files: view_seq(self.files@),
            dir: self.dir@,
            target_idx: self.target_idx as int,
            all_ok: self.all_ok,
        }
    }
}

// ---------------------------------------------------------------------------
// The transitions
// ---------------------------------------------------------------------------

/// The indices that each phase relies on are in range.
pub open spec fn round_inv(s: RoundView) -> bool {
    &&& s.phase == Phase::Start ==> s.handle_idx == 0
    &&& (s.phase != Phase::Start && s.phase != Phase::Finished) ==> {
        &&& s.targets.len() > 0
        &&& 0 <= s.handle_idx < s.handles.len()
    }
    &&& (s.phase == Phase::AwaitTranslate || s.phase == Phase::AwaitDownload || s.phase
        == Phase::AwaitSend || s.phase == Phase::AwaitSave || s.phase == Phase::AwaitRemove)
        ==> 0 <= s.post_idx < s.posts.len()
    &&& s.phase == Phase::AwaitSend ==> 0 <= s.target_idx < s.targets.len()
    &&& s.phase == Phase::AwaitSave ==> s.all_ok && s.target_idx == s.targets.len()
    &&& s.phase == Phase::AwaitTranslate ==> s.translate
}

/// Go to account `idx`: read its cursor, or finish after the last one.
pub open spec fn begin_handle(s: RoundView, idx: int) -> (RoundView, ActionView) {
    if idx >= s.handles.len() {
        (RoundView { phase: Phase::Finished, handle_idx: idx, ..s }, ActionView::Finish)
    } else {
        (
            RoundView { phase: Phase::AwaitCursor, handle_idx: idx, ..s },
            ActionView::ReadCursor(s.handles[idx]),
        )
    }
}

/// The scratch directory of a post.
pub open spec fn post_dir(s: RoundView, i: int) -> Seq<char> {
    join_path(s.temp_base, "xtg-"@ + s.posts[i].id)
}

/// Download the current post's media, with translation `tr`.
pub open spec fn start_download(s: RoundView, tr: Option<Seq<char>>) -> (RoundView, ActionView) {
    let dir = post_dir(s, s.post_idx);
    (
        RoundView { phase: Phase::AwaitDownload, translation: tr, dir: dir, ..s },
        ActionView::Download(s.posts[s.post_idx], dir, s.max_media_bytes),
    )
}

/// Go to post `i` of the account: translate it or download its media; after
/// the last, go to the next account.
pub open spec fn begin_post(s: RoundView, i: int) -> (RoundView, ActionView) {
    if i >= s.posts.len() {
        begin_handle(s, s.handle_idx + 1)
    } else if s.translate {
        (
            RoundView { phase: Phase::AwaitTranslate, post_idx: i, ..s },
            ActionView::Translate(s.posts[i].text),
        )
    } else {
        start_download(RoundView { post_idx: i, ..s }, None)
    }
}

/// Send to the next target; after the last, move the cursor if every target
/// received the post, else clean up.
pub open spec fn next_target(s: RoundView) -> (RoundView, ActionView) {
    if s.target_idx >= s.targets.len() {
        if s.all_ok {
            (
                RoundView { phase: Phase::AwaitSave, ..s },
                ActionView::SaveCursor(s.handles[s.handle_idx], s.posts[s.post_idx].id),
            )
        } else {
            (RoundView { phase: Phase::AwaitRemove, ..s }, ActionView::RemoveDir(s.dir))
        }
    } else {
        (
            RoundView { phase: Phase::AwaitSend, ..s },
            ActionView::Send(
                s.targets[s.target_idx],
                s.posts[s.post_idx],
                s.files,
                s.translation,
            ),
        )
    }
}

pub open spec fn with_logs(p: (RoundView, ActionView), logs: Seq<Seq<char>>) -> (RoundView, Seq<Seq<char>>, ActionView) {
    (p.0, logs, p.1)
}

/// Which events each phase takes.
pub open spec fn accepts(phase: Phase, e: EventView) -> bool {
    match phase {
        Phase::Start => e is Begin,
        Phase::AwaitCursor => e is CursorOpenFailed || e is CursorReadFailed || e is Cursor,
        Phase::AwaitFetch => e is FetchFailed || e is Fetched,
        Phase::AwaitTranslate => e is Translated,
        Phase::AwaitDownload => e is Downloaded,
        Phase::AwaitSend => e is Sent,
        Phase::AwaitSave => e is CursorSaved || e is CursorStoreUnavailable || e is CursorSaveFailed,
        Phase::AwaitRemove => e is Removed,
        Phase::Finished => false,
    }
}

/// One transition: the next state, the log lines, and the next action. For
/// `Fetched`, `sorted` is the account's new posts in order.
pub open spec fn step_spec(s: RoundView, e: EventView, sorted: Seq<PostView>) -> (RoundView, Seq<Seq<char>>, ActionView) {
    let h = s.handles[s.handle_idx];
    let p = s.posts[s.post_idx];
    let none = Seq::<Seq<char>>::empty();
    match e {
        EventView::Begin => if s.handles.len() == 0 {
            with_logs((RoundView { phase: Phase::Finished, ..s }, ActionView::Finish), seq!["未配置 X 账号"@])
        } else if s.targets.len() == 0 {
            with_logs(
                (RoundView { phase: Phase::Finished, ..s }, ActionView::Finish),
                seq!["未配置 Telegram 目标"@],
            )
        } else {
            with_logs(begin_handle(s, 0), none)
        },
        EventView::CursorOpenFailed(m) => with_logs(
            begin_handle(s, s.handle_idx + 1),
            seq!["打开游标文件失败: "@ + m],
        ),
        EventView::CursorReadFailed(m) => with_logs(
            begin_handle(s, s.handle_idx + 1),
            seq!["读取游标失败: "@ + m],
        ),
        EventView::Cursor(last) => (
            RoundView { phase: Phase::AwaitFetch, last: last, ..s },
            none,
            ActionView::Fetch(h),
        ),
        EventView::FetchFailed(m) => with_logs(
            begin_handle(s, s.handle_idx + 1),
            seq!["抓取 @"@ + h + " 失败: "@ + m],
        ),
        EventView::Fetched(_) => with_logs(begin_post(RoundView { posts: sorted, ..s }, 0), none),
        EventView::Translated(Ok(t)) => with_logs(start_download(s, Some(t)), none),
        EventView::Translated(Err(m)) => with_logs(
            start_download(s, None),
            seq!["汉化失败 "@ + p.id + ": "@ + m],
        ),
        EventView::Downloaded(Ok(fs)) => with_logs(
            next_target(RoundView { files: fs, target_idx: 0, all_ok: true, ..s }),
            none,
        ),
        EventView::Downloaded(Err(m)) => with_logs(
            begin_post(s, s.post_idx + 1),
            seq!["下载媒体失败 "@ + p.id + ": "@ + m],
        ),
        EventView::Sent(Ok(_)) => with_logs(
            next_target(RoundView { target_idx: s.target_idx + 1, ..s }),
            seq!["已发送 @"@ + h + " 推文 "@ + p.id + " → "@ + s.targets[s.target_idx]],
        ),
        EventView::Sent(Err(m)) => with_logs(
            next_target(RoundView { target_idx: s.target_idx + 1, all_ok: false, ..s }),
            seq!["TG 发送失败 "@ + p.id + " → "@ + s.targets[s.target_idx] + ": "@ + m],
        ),
        EventView::CursorSaved => (
            RoundView { phase: Phase::AwaitRemove, ..s },
            none,
            ActionView::RemoveDir(s.dir),
        ),
        EventView::CursorStoreUnavailable => (
            RoundView { phase: Phase::AwaitRemove, ..s },
            none,
            ActionView::RemoveDir(s.dir),
        ),
        EventView::CursorSaveFailed(m) => (
            RoundView { phase: Phase::AwaitRemove, ..s },
            seq!["保存游标失败: "@ + m],
            ActionView::RemoveDir(s.dir),
        ),
        EventView::Removed => with_logs(begin_post(s, s.post_idx + 1), none),
    }
}

// ---------------------------------------------------------------------------
// The machine
// ---------------------------------------------------------------------------

fn join2(a: &str, b: &str) -> (r: String)
    ensures
        r@ == a@ + b@,
{
    let mut s = String::new();
    push_str(&mut s, a);
    push_str(&mut s, b);
    s
}

fn join4(a: &str, b: &str, c: &str, d: &str) -> (r: String)
    ensures
        r@ == a@ + b@ + c@ + d@,
{
    let mut s = String::new();
    push_str(&mut s, a);
    push_str(&mut s, b);
    push_str(&mut s, c);
    push_str(&mut s, d);
    s
}

fn join6(a: &str, b: &str, c: &str, d: &str, e: &str, f: &str) -> (r: String)
    ensures
        r@ == a@ + b@ + c@ + d@ + e@ + f@,
{
    let mut s = String::new();
    push_str(&mut s, a);
    push_str(&mut s, b);
    push_str(&mut s, c);
    push_str(&mut s, d);
    push_str(&mut s, e);
    push_str(&mut s, f);
    s
}

fn owned(a: &str) -> (r: String)
    ensures
        r@ == a@,
{
    let mut s = String::new();
    push_str(&mut s, a);
    s
}

fn one_line(s: String) -> (r: Vec<String>)
    ensures
        views(r@) == seq![s@],
{
    let mut r: Vec<String> = Vec::new();
    r.push(s);
    assert(views(r@) =~= seq![s@]);
    r
}

fn no_lines() -> (r: Vec<String>)
    ensures
        views(r@) == Seq::<Seq<char>>::empty(),
{
    let r: Vec<String> = Vec::new();
    assert(views(r@) =~= Seq::<Seq<char>>::empty());
    r
}

fn copy_files(v: &Vec<DownloadedMedia>) -> (r: Vec<DownloadedMedia>)
    ensures
        view_seq(r@) == view_seq(v@),
{
    let mut r: Vec<DownloadedMedia> = Vec::new();
    let mut i: usize = 0;
    while i < v.len()
        invariant
            i <= v@.len(),
            view_seq(r@) == view_seq(v@.subrange(0, i as int)),
        decreases v@.len() - i,
    {
        let ghost before = r@;
        r.push(v[i].copy());
        assert(v@.subrange(0, i + 1) =~= v@.subrange(0, i as int).push(v@[i as int]));
        assert(view_seq(r@) =~= view_seq(before).push(v@[i as int]@));
        assert(view_seq(v@.subrange(0, i + 1)) =~= view_seq(v@.subrange(0, i as int)).push(
            v@[i as int]@,
        ));
        i += 1;
    }
    assert(v@.subrange(0, v@.len() as int) =~= v@);
    r
}

impl PollRound {
    /// A round over the accounts and targets of `job`, keeping scratch files
    /// under `temp_base`.
    pub fn new(job: &JobConfig, temp_base: &str) -> (r: PollRound)
        ensures
            r@.handles == views(job.x_handles@),
            r@.targets == views(job.tg_targets@),
            r@.max_media_bytes == job.max_media_bytes,
            r@.poll_started_at_ms == job.poll_started_at_ms,
            r@.translate == translation_wanted(job.ai.enabled, job.ai.api_key@),
            r@.temp_base == temp_base@,
            r@.phase == Phase::Start,
            r@.handle_idx == 0,
            round_inv(r@),
    {
        let mut base = String::new();
        push_str(&mut base, temp_base);
        PollRound {
            handles: copy_strings(&job.x_handles),
            targets: copy_strings(&job.tg_targets),
            max_media_bytes: job.max_media_bytes,
            poll_started_at_ms: job.poll_started_at_ms,
            translate: should_translate(&job.ai),
            temp_base: base,
            phase: Phase::Start,
            handle_idx: 0,
            last: None,
            posts: Vec::new(),
            post_idx: 0,
            translation: None,
            files: Vec::new(),
            dir: String::new(),
            target_idx: 0,
            all_ok: true,
        }
    }

    /// Where the round stands.
    pub fn phase(&self) -> (r: Phase)
        ensures
            r == self@.phase,
    {
        self.phase
    }

    /// Whether the round takes `ev` now.
    pub fn expects(&self, ev: &RoundEvent) -> (r: bool)
        ensures
            r == accepts(self@.phase, ev@),
    {
        match self.phase {
            Phase::Start => matches!(ev, RoundEvent::Begin),
            Phase::AwaitCursor => matches!(ev, RoundEvent::CursorOpenFailed(_)) || matches!(ev, RoundEvent::CursorReadFailed(_)) || matches!(ev, RoundEvent::Cursor(_)),
            Phase::AwaitFetch => matches!(ev, RoundEvent::FetchFailed(_)) || matches!(ev, RoundEvent::Fetched(_)),
            Phase::AwaitTranslate => matches!(ev, RoundEvent::Translated(_)),
            Phase::AwaitDownload => matches!(ev, RoundEvent::Downloaded(_)),
            Phase::AwaitSend => matches!(ev, RoundEvent::Sent(_)),
            Phase::AwaitSave => matches!(ev, RoundEvent::CursorSaved) || matches!(ev, RoundEvent::CursorStoreUnavailable) || matches!(ev, RoundEvent::CursorSaveFailed(_)),
            Phase::AwaitRemove => matches!(ev, RoundEvent::Removed),
            Phase::Finished => false,
        }
    }

    fn begin_handle(&mut self, idx: usize) -> (a: RoundAction)
        requires
            idx <= old(self)@.handles.len(),
        ensures
            (final(self)@, a@) == begin_handle(old(self)@, idx as int),
    {
        self.handle_idx = idx;
        if idx >= self.handles.len() {
            self.phase = Phase::Finished;
            RoundAction::Finish
        } else {
            self.phase = Phase::AwaitCursor;
            RoundAction::ReadCursor { handle: self.handles[idx].clone() }
        }
    }

    fn start_download(&mut self, tr: Option<String>) -> (a: RoundAction)
        requires
            0 <= old(self)@.post_idx < old(self)@.posts.len(),
        ensures
            (final(self)@, a@) == start_download(old(self)@, opt_view(tr)),
    {
        let p = &self.posts[self.post_idx];
        let dir = temp_dir_for_post(self.temp_base.as_str(), p.id.as_str());
        let post = p.copy();
        self.translation = tr;
        self.dir = dir.clone();
        self.phase = Phase::AwaitDownload;
        RoundAction::Download { post, dir, max_bytes: self.max_media_bytes }
    }

    fn begin_post(&mut self, i: usize) -> (a: RoundAction)
        requires
            i <= old(self)@.posts.len(),
            0 <= old(self)@.handle_idx < old(self)@.handles.len(),
        ensures
            (final(self)@, a@) == begin_post(old(self)@, i as int),
    {
        if i >= self.posts.len() {
            let n = self.handles.len();
            assert(self.handle_idx < n);
            let next = self.handle_idx + 1;
            self.begin_handle(next)
        } else if self.translate {
            self.post_idx = i;
            self.phase = Phase::AwaitTranslate;
            RoundAction::Translate { text: self.posts[i].text.clone() }
        } else {
            self.post_idx = i;
            self.start_download(None)
        }
    }

    fn next_target(&mut self) -> (a: RoundAction)
        requires
            0 <= old(self)@.target_idx <= old(self)@.targets.len(),
            0 <= old(self)@.handle_idx < old(self)@.handles.len(),
            0 <= old(self)@.post_idx < old(self)@.posts.len(),
        ensures
            (final(self)@, a@) == next_target(old(self)@),
    {
        if self.target_idx >= self.targets.len() {
            if self.all_ok {
                self.phase = Phase::AwaitSave;
                RoundAction::SaveCursor {
                    handle: self.handles[self.handle_idx].clone(),
                    post_id: self.posts[self.post_idx].id.clone(),
                }
            } else {
                self.phase = Phase::AwaitRemove;
                RoundAction::RemoveDir { dir: self.dir.clone() }
            }
        } else {
            self.phase = Phase::AwaitSend;
            RoundAction::Send {
                target: self.targets[self.target_idx].clone(),
                post: self.posts[self.post_idx].copy(),
                files: copy_files(&self.files),
                translated: crate::model::copy_opt_string(&self.translation),
            }
        }
    }

    /// Takes one event and says what to log and do next.
    pub fn step(&mut self, ev: RoundEvent) -> (r: RoundStep)
        requires
            round_inv(old(self)@),
            accepts(old(self)@.phase, ev@),
        ensures
            round_inv(final(self)@),
            (final(self)@, views(r.logs@), r.action@) == step_spec(old(self)@, ev@, final(self)@.posts),
            ev@ matches EventView::Fetched(ps) ==> is_stable_sort(
                final(self)@.posts,
                keep_new(ps, old(self)@.last, old(self)@.poll_started_at_ms),
                IdOrder::Lexicographic,
            ),
    {
        let ghost s = self@;
        let nh = self.handles.len();
        let nt = self.targets.len();
        let np = self.posts.len();
        match ev {
            RoundEvent::Begin => {
                if self.handles.len() == 0 {
                    self.phase = Phase::Finished;
                    return RoundStep { logs: one_line(owned("未配置 X 账号")), action: RoundAction::Finish };
                }
                if self.targets.len() == 0 {
                    self.phase = Phase::Finished;
                    return RoundStep { logs: one_line(owned("未配置 Telegram 目标")), action: RoundAction::Finish };
                }
                let a = self.begin_handle(0);
                RoundStep { logs: no_lines(), action: a }
            },
            RoundEvent::CursorOpenFailed(m) => {
                let l = join2("打开游标文件失败: ", m.as_str());
                let next = self.handle_idx + 1;
                let a = self.begin_handle(next);
                RoundStep { logs: one_line(l), action: a }
            },
            RoundEvent::CursorReadFailed(m) => {
                let l = join2("读取游标失败: ", m.as_str());
                let next = self.handle_idx + 1;
                let a = self.begin_handle(next);
                RoundStep { logs: one_line(l), action: a }
            },
            RoundEvent::Cursor(last) => {
                self.last = last;
                self.phase = Phase::AwaitFetch;
                RoundStep {
                    logs: no_lines(),
                    action: RoundAction::Fetch { handle: self.handles[self.handle_idx].clone() },
                }
            },
            RoundEvent::FetchFailed(m) => {
                let l = join4("抓取 @", self.handles[self.handle_idx].as_str(), " 失败: ", m.as_str());
                let next = self.handle_idx + 1;
                let a = self.begin_handle(next);
                RoundStep { logs: one_line(l), action: a }
            },
            RoundEvent::Fetched(posts) => {
                let chosen = match &self.last {
                    Some(l) => select_new_posts(posts, Some(l.as_str()), self.poll_started_at_ms),
                    None => select_new_posts(posts, None, self.poll_started_at_ms),
                };
                self.posts = chosen;
                let a = self.begin_post(0);
                RoundStep { logs: no_lines(), action: a }
            },
            RoundEvent::Translated(Ok(t)) => {
                let a = self.start_download(Some(t));
                RoundStep { logs: no_lines(), action: a }
            },
            RoundEvent::Translated(Err(m)) => {
                let l = join4("汉化失败 ", self.posts[self.post_idx].id.as_str(), ": ", m.as_str());
                let a = self.start_download(None);
                RoundStep { logs: one_line(l), action: a }
            },
            RoundEvent::Downloaded(Ok(files)) => {
                self.files = files;
                self.target_idx = 0;
                self.all_ok = true;
                let a = self.next_target();
                RoundStep { logs: no_lines(), action: a }
            },
            RoundEvent::Downloaded(Err(m)) => {
                let l = join4("下载媒体失败 ", self.posts[self.post_idx].id.as_str(), ": ", m.as_str());
                let next = self.post_idx + 1;
                let a = self.begin_post(next);
                RoundStep { logs: one_line(l), action: a }
            },
            RoundEvent::Sent(Ok(())) => {
                let l = join6("已发送 @", self.handles[self.handle_idx].as_str(), " 推文 ", self.posts[self.post_idx].id.as_str(), " → ", self.targets[self.target_idx].as_str());
                self.target_idx = self.target_idx + 1;
                let a = self.next_target();
                RoundStep { logs: one_line(l), action: a }
            },
            RoundEvent::Sent(Err(m)) => {
                let l = join6("TG 发送失败 ", self.posts[self.post_idx].id.as_str(), " → ", self.targets[self.target_idx].as_str(), ": ", m.as_str());
                self.target_idx = self.target_idx + 1;
                self.all_ok = false;
                let a = self.next_target();
                RoundStep { logs: one_line(l), action: a }
            },
            RoundEvent::CursorSaved => {
                self.phase = Phase::AwaitRemove;
                RoundStep { logs: no_lines(), action: RoundAction::RemoveDir { dir: self.dir.clone() } }
            },
            RoundEvent::CursorStoreUnavailable => {
                self.phase = Phase::AwaitRemove;
                RoundStep { logs: no_lines(), action: RoundAction::RemoveDir { dir: self.dir.clone() } }
            },
            RoundEvent::CursorSaveFailed(m) => {
                let l = join2("保存游标失败: ", m.as_str());
                self.phase = Phase::AwaitRemove;
                RoundStep { logs: one_line(l), action: RoundAction::RemoveDir { dir: self.dir.clone() } }
            },
            RoundEvent::Removed => {
                let next = self.post_idx + 1;
                let a = self.begin_post(next);
                RoundStep { logs: no_lines(), action: a }
            },
        }
    }
}


// ---------------------------------------------------------------------------
// Laws of a round
// ---------------------------------------------------------------------------

/// Every transition from a state that the round can be in, on an event it
/// takes, leads to a state that it can be in.
pub proof fn law_round_inv_kept(s: RoundView, e: EventView, sorted: Seq<PostView>)
    requires
        round_inv(s),
        accepts(s.phase, e),
    ensures
        round_inv(step_spec(s, e, sorted).0),
{
}

/// The cursor moves only after the last target reported success and no
/// target failed for this post; it moves to this post, for this account.
pub proof fn law_cursor_moves_only_when_all_sent(s: RoundView, e: EventView, sorted: Seq<PostView>)
    requires
        round_inv(s),
        accepts(s.phase, e),
        step_spec(s, e, sorted).2 is SaveCursor,
    ensures
        s.phase == Phase::AwaitSend,
        e matches EventView::Sent(Ok(_)),
        s.all_ok,
        s.target_idx + 1 == s.targets.len(),
        step_spec(s, e, sorted).2 == ActionView::SaveCursor(
            s.handles[s.handle_idx],
            s.posts[s.post_idx].id,
        ),
{
}

/// A failed send clears the all-sent flag, and nothing but the download of
/// the next post sets it again.
pub proof fn law_failure_sticks(s: RoundView, e: EventView, sorted: Seq<PostView>)
    requires
        round_inv(s),
        accepts(s.phase, e),
    ensures
        e matches EventView::Sent(Err(_)) ==> !step_spec(s, e, sorted).0.all_ok,
        !(e matches EventView::Downloaded(Ok(_))) ==> (step_spec(s, e, sorted).0.all_ok ==> s.all_ok),
{
}

/// Each send goes to the next target in the configured order, with the
/// current post, its files and its translation.
pub proof fn law_sends_follow_targets(s: RoundView, e: EventView, sorted: Seq<PostView>)
    requires
        round_inv(s),
        accepts(s.phase, e),
        step_spec(s, e, sorted).2 is Send,
    ensures
        ({
            let t = step_spec(s, e, sorted).0;
            &&& t.phase == Phase::AwaitSend
            &&& step_spec(s, e, sorted).2 == ActionView::Send(
                t.targets[t.target_idx],
                t.posts[t.post_idx],
                t.files,
                t.translation,
            )
            &&& t.target_idx == if e is Downloaded {
                0
            } else {
                s.target_idx + 1
            }
        }),
{
}

/// With no accounts or no targets, a round does nothing but say so.
pub proof fn law_nothing_without_accounts_or_targets(s: RoundView, sorted: Seq<PostView>)
    requires
        s.phase == Phase::Start,
        s.handles.len() == 0 || s.targets.len() == 0,
    ensures
        step_spec(s, EventView::Begin, sorted).2 is Finish,
        step_spec(s, EventView::Begin, sorted).0.phase == Phase::Finished,
        step_spec(s, EventView::Begin, sorted).1.len() == 1,
{
}

/// A translation that came back is what gets posted: from a post awaiting
/// its translation, `Translated(Ok(t))` and then `Downloaded(Ok(fs))` send
/// the post, with files `fs` and translation `Some(t)`, to the first target.
pub proof fn law_translation_is_sent(
    s: RoundView,
    t: Seq<char>,
    fs: Seq<DownloadedMediaView>,
    sorted: Seq<PostView>,
)
    requires
        round_inv(s),
        s.phase == Phase::AwaitTranslate,
    ensures
        ({
            let s1 = step_spec(s, EventView::Translated(Ok(t)), sorted).0;
            let s2 = step_spec(s1, EventView::Downloaded(Ok(fs)), sorted);
            &&& s1.translation == Some(t)
            &&& s1.post_idx == s.post_idx
            &&& round_inv(s1)
            &&& accepts(s1.phase, EventView::Downloaded(Ok(fs)))
            &&& s2.2 == ActionView::Send(s.targets[0], s.posts[s.post_idx], fs, Some(t))
        }),
{
}

/// While a post goes out, each report of a send keeps the post, its files
/// and its translation: every further send of it carries the same ones.
pub proof fn law_sends_keep_post(s: RoundView, e: EventView, sorted: Seq<PostView>)
    requires
        round_inv(s),
        s.phase == Phase::AwaitSend,
        accepts(s.phase, e),
    ensures
        ({
            let n = step_spec(s, e, sorted);
            &&& n.0.post_idx == s.post_idx
            &&& n.0.posts == s.posts
            &&& n.0.files == s.files
            &&& n.0.translation == s.translation
            &&& n.2 is Send ==> n.2 == ActionView::Send(
                s.targets[s.target_idx + 1],
                s.posts[s.post_idx],
                s.files,
                s.translation,
            )
        }),
{
}

/// Without translation on, no translation is asked for and none is sent:
/// a post goes from its fetch straight to its download.
pub proof fn law_no_translation_when_off(s: RoundView, e: EventView, sorted: Seq<PostView>)
    requires
        round_inv(s),
        accepts(s.phase, e),
        !s.translate,
    ensures
        !(step_spec(s, e, sorted).2 is Translate),
        step_spec(s, e, sorted).2 is Download ==> step_spec(s, e, sorted).0.translation is None,
{
}

/// The selected posts go out in order: after the fetch the round works on
/// the first of them, and once a post is done (its scratch directory
/// removed, or its download failed) it moves to the next one; past the last,
/// to the next account.
pub proof fn law_posts_in_order(s: RoundView, e: EventView, sorted: Seq<PostView>)
    requires
        round_inv(s),
        accepts(s.phase, e),
        e is Fetched || e is Removed || e matches EventView::Downloaded(Err(_)),
    ensures
        ({
            let n = step_spec(s, e, sorted);
            let ps = if e is Fetched { sorted } else { s.posts };
            let i = if e is Fetched { 0 } else { s.post_idx + 1 };
            &&& n.0.posts == ps
            &&& i < ps.len() && s.translate ==> n.2 == ActionView::Translate(ps[i].text)
                && n.0.post_idx == i
            &&& i < ps.len() && !s.translate ==> (n.2 matches ActionView::Download(q, _, _) && q
                == ps[i]) && n.0.post_idx == i && n.0.translation is None
            &&& i >= ps.len() ==> (n.2 is ReadCursor || n.2 is Finish) && n.0.handle_idx
                == s.handle_idx + 1
        }),
{
}

} // verus!
