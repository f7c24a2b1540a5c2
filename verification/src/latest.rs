//! Answering the "latest" command in a chat: for each configured account,
//! fetch its posts and send back the one with the largest id, translated
//! when asked to, with its media. Failures are logged and the next account
//! follows. The caller does the outside work of each action and reports back.

use vstd::prelude::*;
use crate::model::{copy_strings, opt_view, view_seq, DownloadedMedia, DownloadedMediaView, Post, PostView};
use crate::paths::{join_path, temp_dir_for_post};
use crate::pipeline::{biggest_post, is_last_max, latest_dir_name, should_translate, translation_wanted};
use crate::order::num_key;
use crate::settings::CommandState;
use crate::text::{push_str, views};

verus! {

#[derive(Clone, Copy, Debug, PartialEq, Eq, Structural)]
pub enum LatestPhase {
    Start,
    AwaitFetch,
    AwaitTranslate,
    AwaitDownload,
    AwaitSend,
    AwaitRemove,
    Finished,
}

/// What the caller reports after doing an action.
#[derive(Debug)]
pub enum LatestEvent {
    Begin,
    FetchFailed(String),
    Fetched(Vec<Post>),
    Translated(Result<String, String>),
    Downloaded(Result<Vec<DownloadedMedia>, String>),
    Sent(Result<(), String>),
    Removed,
}

/// The outside work the reply asks for next.
#[derive(Debug)]
pub enum LatestAction {
    Fetch { handle: String },
    Translate { text: String },
    Download { post: Post, dir: String, max_bytes: u64 },
    Reply { post: Post, files: Vec<DownloadedMedia>, translated: Option<String> },
    RemoveDir { dir: String },
    Finish,
}

/// Log lines to emit, then an action to perform.
#[derive(Debug)]
pub struct LatestStep {
    pub logs: Vec<String>,
    pub action: LatestAction,
}

pub enum LatestEventView {
    Begin,
    FetchFailed(Seq<char>),
    Fetched(Seq<PostView>),
    Translated(Result<Seq<char>, Seq<char>>),
    Downloaded(Result<Seq<DownloadedMediaView>, Seq<char>>),
    Sent(Result<(), Seq<char>>),
    Removed,
}

impl View for LatestEvent {
    type V = LatestEventView;

    open spec fn view(&self) -> LatestEventView {
        match self {
            LatestEvent::Begin => LatestEventView::Begin,
            LatestEvent::FetchFailed(m) => LatestEventView::FetchFailed(m@),
            LatestEvent::Fetched(ps) => LatestEventView::Fetched(view_seq(ps@)),
            LatestEvent::Translated(r) => LatestEventView::Translated(
                match r {
                    Ok(t) => Ok(t@),
                    Err(m) => Err(m@),
                },
            ),
            LatestEvent::Downloaded(r) => LatestEventView::Downloaded(
                match r {
                    Ok(fs) => Ok(view_seq(fs@)),
                    Err(m) => Err(m@),
                },
            ),
            LatestEvent::Sent(r) => LatestEventView::Sent(
                match r {
                    Ok(_) => Ok(()),
                    Err(m) => Err(m@),
                },
            ),
            LatestEvent::Removed => LatestEventView::Removed,
        }
    }
}

pub enum LatestActionView {
    Fetch(Seq<char>),
    Translate(Seq<char>),
    Download(PostView, Seq<char>, u64),
    Reply(PostView, Seq<DownloadedMediaView>, Option<Seq<char>>),
    RemoveDir(Seq<char>),
    Finish,
}

impl View for LatestAction {
    type V = LatestActionView;

    open spec fn view(&self) -> LatestActionView {
        match self {
            LatestAction::Fetch { handle } => LatestActionView::Fetch(handle@),
            LatestAction::Translate { text } => LatestActionView::Translate(text@),
            LatestAction::Download { post, dir, max_bytes } => LatestActionView::Download(
                post@,
                dir@,
                *max_bytes,
            ),
            LatestAction::Reply { post, files, translated } => LatestActionView::Reply(
                post@,
                view_seq(files@),
                opt_view(*translated),
            ),
            LatestAction::RemoveDir { dir } => LatestActionView::RemoveDir(dir@),
            LatestAction::Finish => LatestActionView::Finish,
        }
    }
}

pub struct LatestView {
    pub handles: Seq<Seq<char>>,
    pub translate: bool,
    pub max_media_bytes: u64,
    pub temp_base: Seq<char>,
    pub phase: LatestPhase,
    pub idx: int,
    pub post: PostView,
    pub translation: Option<Seq<char>>,
    pub files: Seq<DownloadedMediaView>,
    pub dir: Seq<char>,
}

/// The state of one answer to "latest".
pub struct LatestReply {
    handles: Vec<String>,
    translate: bool,
    max_media_bytes: u64,
    temp_base: String,
    phase: LatestPhase,
    idx: usize,
    post: Option<Post>,
    translation: Option<String>,
    files: Vec<DownloadedMedia>,
    dir: String,
}

/// A post with no content, standing in before one is chosen.
pub open spec fn no_post() -> PostView {
    PostView {
        id: Seq::empty(),
        author_handle: Seq::empty(),
        text: Seq::empty(),
        media: Seq::empty(),
        url: None,
        posted_at_ms: None,
        reply_to_url: None,
    }
}

impl View for LatestReply {
    type V = LatestView;

    closed spec fn view(&self) -> LatestView {
        LatestView {
            handles: views(self.handles@),
            translate: self.translate,
            max_media_bytes: self.max_media_bytes,
            temp_base: self.temp_base@,
            phase: self.phase,
            idx: self.idx as int,
            post: match self.post {
                Some(p) => p@,
                None => no_post(),
            },
            translation: opt_view(self.translation),
            files: view_seq(self.files@),
            dir: self.dir@,
        }
    }
}

impl LatestReply {
    /// Whether a post is held in every phase after its fetch.
    pub closed spec fn holds_post(self) -> bool {
        (self.phase == LatestPhase::AwaitTranslate || self.phase == LatestPhase::AwaitDownload
            || self.phase == LatestPhase::AwaitSend || self.phase == LatestPhase::AwaitRemove)
            ==> self.post is Some
    }
}

pub open spec fn latest_inv(s: LatestView) -> bool {
    &&& s.phase == LatestPhase::Start ==> s.idx == 0
    &&& (s.phase != LatestPhase::Start && s.phase != LatestPhase::Finished) ==> 0 <= s.idx
        < s.handles.len()
}

pub open spec fn latest_accepts(phase: LatestPhase, e: LatestEventView) -> bool {
    match phase {
        LatestPhase::Start => e is Begin,
        LatestPhase::AwaitFetch => e is FetchFailed || e is Fetched,
        LatestPhase::AwaitTranslate => e is Translated,
        LatestPhase::AwaitDownload => e is Downloaded,
        LatestPhase::AwaitSend => e is Sent,
        LatestPhase::AwaitRemove => e is Removed,
        LatestPhase::Finished => false,
    }
}

/// Go to account `i`, or finish after the last.
pub open spec fn latest_begin(s: LatestView, i: int) -> (LatestView, LatestActionView) {
    if i >= s.handles.len() {
        (LatestView { phase: LatestPhase::Finished, idx: i, ..s }, LatestActionView::Finish)
    } else {
        (
            LatestView { phase: LatestPhase::AwaitFetch, idx: i, ..s },
            LatestActionView::Fetch(s.handles[i]),
        )
    }
}

/// The scratch directory of the answer for the current account and post.
pub open spec fn latest_dir(s: LatestView) -> Seq<char> {
    join_path(s.temp_base, "xtg-"@ + ("latest_"@ + s.handles[s.idx] + "_"@ + s.post.id))
}

pub open spec fn latest_download(s: LatestView, tr: Option<Seq<char>>) -> (LatestView, LatestActionView) {
    let dir = latest_dir(s);
    (
        LatestView { phase: LatestPhase::AwaitDownload, translation: tr, dir: dir, ..s },
        LatestActionView::Download(s.post, dir, s.max_media_bytes),
    )
}

pub open spec fn latest_send(s: LatestView, fs: Seq<DownloadedMediaView>) -> (LatestView, LatestActionView) {
    (
        LatestView { phase: LatestPhase::AwaitSend, files: fs, ..s },
        LatestActionView::Reply(s.post, fs, s.translation),
    )
}

pub open spec fn logged(p: (LatestView, LatestActionView), logs: Seq<Seq<char>>) -> (LatestView, Seq<Seq<char>>, LatestActionView) {
    (p.0, logs, p.1)
}

/// One transition. For `Fetched`, `chosen` is the post with the largest id,
/// if any.
pub open spec fn latest_step_spec(s: LatestView, e: LatestEventView, chosen: Option<PostView>) -> (LatestView, Seq<Seq<char>>, LatestActionView) {
    let h = s.handles[s.idx];
    let none = Seq::<Seq<char>>::empty();
    match e {
        LatestEventView::Begin => if s.handles.len() == 0 {
            logged(
                (LatestView { phase: LatestPhase::Finished, ..s }, LatestActionView::Finish),
                seq!["「最新」：未配置 X 账号"@],
            )
        } else {
            logged(latest_begin(s, 0), none)
        },
        LatestEventView::FetchFailed(m) => logged(
            latest_begin(s, s.idx + 1),
            seq!["「最新」抓取 @"@ + h + " 失败: "@ + m],
        ),
        LatestEventView::Fetched(_) => match chosen {
            None => logged(latest_begin(s, s.idx + 1), seq!["「最新」@"@ + h + " 无可用推文"@]),
            Some(p) => if s.translate {
                logged(
                    (
                        LatestView { phase: LatestPhase::AwaitTranslate, post: p, ..s },
                        LatestActionView::Translate(p.text),
                    ),
                    none,
                )
            } else {
                logged(latest_download(LatestView { post: p, ..s }, None), none)
            },
        },
        LatestEventView::Translated(Ok(t)) => logged(latest_download(s, Some(t)), none),
        LatestEventView::Translated(Err(m)) => logged(
            latest_download(s, None),
            seq!["「最新」汉化失败: "@ + m],
        ),
        LatestEventView::Downloaded(Ok(fs)) => logged(latest_send(s, fs), none),
        LatestEventView::Downloaded(Err(m)) => logged(
            latest_send(s, Seq::empty()),
            seq!["「最新」下载媒体失败: "@ + m],
        ),
        LatestEventView::Sent(Ok(_)) => (
            LatestView { phase: LatestPhase::AwaitRemove, ..s },
            seq!["「最新」已回复 @"@ + h + " 推文 "@ + s.post.id],
            LatestActionView::RemoveDir(s.dir),
        ),
        LatestEventView::Sent(Err(m)) => (
            LatestView { phase: LatestPhase::AwaitRemove, ..s },
            seq!["「最新」发送失败: "@ + m],
            LatestActionView::RemoveDir(s.dir),
        ),
        LatestEventView::Removed => logged(latest_begin(s, s.idx + 1), none),
    }
}

/// `chosen` is the answer's post among `posts`: none for no posts, else the
/// one with the largest id (the last of equal ones).
pub open spec fn chosen_ok(posts: Seq<PostView>, chosen: Option<PostView>) -> bool {
    match chosen {
        None => posts.len() == 0,
        Some(p) => exists|i: int| is_last_max(posts, i) && #[trigger] posts[i] == p,
    }
}

fn one(s: String) -> (r: Vec<String>)
    ensures
        views(r@) == seq![s@],
{
    let mut r: Vec<String> = Vec::new();
    r.push(s);
    assert(views(r@) =~= seq![s@]);
    r
}

fn none() -> (r: Vec<String>)
    ensures
        views(r@) == Seq::<Seq<char>>::empty(),
{
    let r: Vec<String> = Vec::new();
    assert(views(r@) =~= Seq::<Seq<char>>::empty());
    r
}

fn cat(parts: (&str, &str, &str, &str)) -> (r: String)
    ensures
        r@ == parts.0@ + parts.1@ + parts.2@ + parts.3@,
{
    let mut s = String::new();
    push_str(&mut s, parts.0);
    push_str(&mut s, parts.1);
    push_str(&mut s, parts.2);
    push_str(&mut s, parts.3);
    s
}

impl LatestReply {
    /// An answer over the accounts of the command state, with scratch files
    /// under `temp_base`.
    pub fn new(st: &CommandState, temp_base: &str) -> (r: LatestReply)
        ensures
            r@.handles == views(st.handles@),
            r@.translate == translation_wanted(st.ai.enabled, st.ai.api_key@),
            r@.max_media_bytes == st.max_media_bytes,
            r@.temp_base == temp_base@,
            r@.phase == LatestPhase::Start,
            latest_inv(r@),
            r.holds_post(),
    {
        let mut base = String::new();
        push_str(&mut base, temp_base);
        LatestReply {
            handles: copy_strings(&st.handles),
            translate: should_translate(&st.ai),
            max_media_bytes: st.max_media_bytes,
            temp_base: base,
            phase: LatestPhase::Start,
            idx: 0,
            post: None,
            translation: None,
            files: Vec::new(),
            dir: String::new(),
        }
    }

    /// Where the answer stands.
    pub fn phase(&self) -> (r: LatestPhase)
        ensures
            r == self@.phase,
    {
        self.phase
    }

    fn begin(&mut self, i: usize) -> (a: LatestAction)
        requires
            i <= old(self)@.handles.len(),
            old(self).holds_post(),
        ensures
            (final(self)@, a@) == latest_begin(old(self)@, i as int),
            final(self).holds_post(),
    {
        self.idx = i;
        if i >= self.handles.len() {
            self.phase = LatestPhase::Finished;
            LatestAction::Finish
        } else {
            self.phase = LatestPhase::AwaitFetch;
            LatestAction::Fetch { handle: self.handles[i].clone() }
        }
    }

    fn download(&mut self, tr: Option<String>) -> (a: LatestAction)
        requires
            old(self).post is Some,
            0 <= old(self)@.idx < old(self)@.handles.len(),
        ensures
            (final(self)@, a@) == latest_download(old(self)@, opt_view(tr)),
            final(self).post is Some,
            final(self).holds_post(),
    {
        let p = match &self.post {
            Some(p) => p,
            None => {
                assert(false);
                return LatestAction::Finish;
            },
        };
        let name = latest_dir_name(self.handles[self.idx].as_str(), p.id.as_str());
        let dir = temp_dir_for_post(self.temp_base.as_str(), name.as_str());
        let post = p.copy();
        self.translation = tr;
        self.dir = dir.clone();
        self.phase = LatestPhase::AwaitDownload;
        LatestAction::Download { post, dir, max_bytes: self.max_media_bytes }
    }

    fn reply(&mut self, files: Vec<DownloadedMedia>) -> (a: LatestAction)
        requires
            old(self).post is Some,
        ensures
            (final(self)@, a@) == latest_send(old(self)@, view_seq(files@)),
            final(self).holds_post(),
    {
        let post = match &self.post {
            Some(p) => p.copy(),
            None => {
                assert(false);
                return LatestAction::Finish;
            },
        };
        let mut copies: Vec<DownloadedMedia> = Vec::new();
        let mut i: usize = 0;
        while i < files.len()
            invariant
                i <= files@.len(),
                view_seq(copies@) == view_seq(files@.subrange(0, i as int)),
            decreases files@.len() - i,
        {
            let ghost before = copies@;
            copies.push(files[i].copy());
            assert(files@.subrange(0, i + 1) =~= files@.subrange(0, i as int).push(files@[i as int]));
            assert(view_seq(copies@) =~= view_seq(before).push(files@[i as int]@));
            assert(view_seq(files@.subrange(0, i + 1)) =~= view_seq(files@.subrange(0, i as int)).push(
                files@[i as int]@,
            ));
            i += 1;
        }
        assert(files@.subrange(0, files@.len() as int) =~= files@);
        self.files = files;
        self.phase = LatestPhase::AwaitSend;
        LatestAction::Reply {
            post,
            files: copies,
            translated: crate::model::copy_opt_string(&self.translation),
        }
    }

    /// Takes one event and says what to log and do next.
    pub fn step(&mut self, ev: LatestEvent) -> (r: LatestStep)
        requires
            latest_inv(old(self)@),
            old(self).holds_post(),
            latest_accepts(old(self)@.phase, ev@),
        ensures
            latest_inv(final(self)@),
            final(self).holds_post(),
            ev@ matches LatestEventView::Fetched(ps) ==> exists|c: Option<PostView>|
                chosen_ok(ps, c) && (final(self)@, views(r.logs@), r.action@) == #[trigger] latest_step_spec(
                    old(self)@,
                    ev@,
                    c,
                ),
            !(ev@ is Fetched) ==> (final(self)@, views(r.logs@), r.action@) == latest_step_spec(
                old(self)@,
                ev@,
                None,
            ),
    {
        let nh = self.handles.len();
        let ghost old_s = self@;
        let ghost evv = ev@;
        match ev {
            LatestEvent::Begin => {
                if self.handles.len() == 0 {
                    self.phase = LatestPhase::Finished;
                    let mut m = String::new();
                    push_str(&mut m, "「最新」：未配置 X 账号");
                    return LatestStep { logs: one(m), action: LatestAction::Finish };
                }
                let a = self.begin(0);
                LatestStep { logs: none(), action: a }
            },
            LatestEvent::FetchFailed(m) => {
                let l = cat(("「最新」抓取 @", self.handles[self.idx].as_str(), " 失败: ", m.as_str()));
                let next = self.idx + 1;
                let a = self.begin(next);
                LatestStep { logs: one(l), action: a }
            },
            LatestEvent::Fetched(posts) => {
                let ghost ps = view_seq(posts@);
                match biggest_post(posts) {
                    None => {
                        let l = cat(("「最新」@", self.handles[self.idx].as_str(), " 无可用推文", ""));
                        proof {
                            reveal_strlit("");
                            assert(("「最新」@"@ + self@.handles[self@.idx] + " 无可用推文"@ + ""@) =~= ("「最新」@"@ + self@.handles[self@.idx] + " 无可用推文"@));
                        }
                        let next = self.idx + 1;
                        let a = self.begin(next);
                        assert(chosen_ok(ps, None));
                        let r = LatestStep { logs: one(l), action: a };
                        assert((self@, views(r.logs@), r.action@) == latest_step_spec(old_s, evv, None));
                        r
                    },
                    Some(p) => {
                        let ghost c = Some(p@);
                        assert(chosen_ok(ps, c));
                        if self.translate {
                            let text = p.text.clone();
                            self.post = Some(p);
                            self.phase = LatestPhase::AwaitTranslate;
                            let r = LatestStep { logs: none(), action: LatestAction::Translate { text } };
                            assert((self@, views(r.logs@), r.action@) == latest_step_spec(old_s, evv, c));
                            r
                        } else {
                            self.post = Some(p);
                            let a = self.download(None);
                            let r = LatestStep { logs: none(), action: a };
                            assert((self@, views(r.logs@), r.action@) == latest_step_spec(old_s, evv, c));
                            r
                        }
                    },
                }
            },
            LatestEvent::Translated(Ok(t)) => {
                let a = self.download(Some(t));
                LatestStep { logs: none(), action: a }
            },
            LatestEvent::Translated(Err(m)) => {
                let l = cat(("「最新」汉化失败: ", m.as_str(), "", ""));
                proof {
                    reveal_strlit("");
                    assert("「最新」汉化失败: "@ + m@ + ""@ + ""@ =~= "「最新」汉化失败: "@ + m@);
                }
                let a = self.download(None);
                LatestStep { logs: one(l), action: a }
            },
            LatestEvent::Downloaded(Ok(files)) => {
                let a = self.reply(files);
                LatestStep { logs: none(), action: a }
            },
            LatestEvent::Downloaded(Err(m)) => {
                let l = cat(("「最新」下载媒体失败: ", m.as_str(), "", ""));
                proof {
                    reveal_strlit("");
                    assert("「最新」下载媒体失败: "@ + m@ + ""@ + ""@ =~= "「最新」下载媒体失败: "@ + m@);
                }
                let empty: Vec<DownloadedMedia> = Vec::new();
                assert(view_seq(empty@) =~= Seq::<DownloadedMediaView>::empty());
                let a = self.reply(empty);
                LatestStep { logs: one(l), action: a }
            },
            LatestEvent::Sent(Ok(())) => {
                let id = match &self.post {
                    Some(p) => p.id.clone(),
                    None => String::new(),
                };
                let l = cat(("「最新」已回复 @", self.handles[self.idx].as_str(), " 推文 ", id.as_str()));
                self.phase = LatestPhase::AwaitRemove;
                LatestStep { logs: one(l), action: LatestAction::RemoveDir { dir: self.dir.clone() } }
            },
            LatestEvent::Sent(Err(m)) => {
                let l = cat(("「最新」发送失败: ", m.as_str(), "", ""));
                proof {
                    reveal_strlit("");
                    assert("「最新」发送失败: "@ + m@ + ""@ + ""@ =~= "「最新」发送失败: "@ + m@);
                }
                self.phase = LatestPhase::AwaitRemove;
                LatestStep { logs: one(l), action: LatestAction::RemoveDir { dir: self.dir.clone() } }
            },
            LatestEvent::Removed => {
                let next = self.idx + 1;
                let a = self.begin(next);
                LatestStep { logs: none(), action: a }
            },
        }
    }
}

/// The answer for an account is its post with the largest id: any reply
/// the answer sends carries that post.
pub proof fn law_reply_is_largest(s: LatestView, ps: Seq<PostView>, c: Option<PostView>)
    requires
        latest_inv(s),
        s.phase == LatestPhase::AwaitFetch,
        chosen_ok(ps, c),
        c is Some,
        !s.translate,
    ensures
        latest_step_spec(s, LatestEventView::Fetched(ps), c).2 matches LatestActionView::Download(p, _, _)
            && exists|i: int| is_last_max(ps, i) && ps[i] == p,
{
}

/// What a download brings is what the reply sends: with files `fs`, the
/// reply carries the held post, exactly `fs` and the held translation; a
/// failed download replies with no files.
pub proof fn law_reply_carries_download(s: LatestView, r: Result<Seq<DownloadedMediaView>, Seq<char>>, c: Option<PostView>)
    requires
        latest_inv(s),
        s.phase == LatestPhase::AwaitDownload,
    ensures
        ({
            let n = latest_step_spec(s, LatestEventView::Downloaded(r), c);
            &&& n.0.phase == LatestPhase::AwaitSend
            &&& n.2 == LatestActionView::Reply(
                s.post,
                match r {
                    Ok(fs) => fs,
                    Err(_) => Seq::empty(),
                },
                s.translation,
            )
        }),
{
}

/// The whole answer for one account: from its fetch, with `p` chosen, the
/// post is translated when that is on (its text is what is translated),
/// then its media are downloaded, and the reply carries `p`, the downloaded
/// files `fs`, and the translation `t` when one came back.
pub proof fn law_answer_sends_post_files_translation(
    s: LatestView,
    ps: Seq<PostView>,
    p: PostView,
    t: Seq<char>,
    fs: Seq<DownloadedMediaView>,
)
    requires
        latest_inv(s),
        s.phase == LatestPhase::AwaitFetch,
        chosen_ok(ps, Some(p)),
    ensures
        ({
            let n1 = latest_step_spec(s, LatestEventView::Fetched(ps), Some(p));
            if s.translate {
                let n2 = latest_step_spec(n1.0, LatestEventView::Translated(Ok(t)), None);
                let n3 = latest_step_spec(n2.0, LatestEventView::Downloaded(Ok(fs)), None);
                &&& n1.2 == LatestActionView::Translate(p.text)
                &&& n2.2 matches LatestActionView::Download(q, _, _) && q == p
                &&& n3.2 == LatestActionView::Reply(p, fs, Some(t))
            } else {
                let n3 = latest_step_spec(n1.0, LatestEventView::Downloaded(Ok(fs)), None);
                &&& n1.2 matches LatestActionView::Download(q, _, _) && q == p
                &&& n3.2 == LatestActionView::Reply(p, fs, None)
            }
        }),
{
}

/// The post an answer chooses is one of the fetched posts, and no fetched
/// post has a larger id; there is none only when nothing was fetched.
pub proof fn law_chosen_is_largest(ps: Seq<PostView>, c: Option<PostView>)
    requires
        chosen_ok(ps, c),
    ensures
        c is None <==> ps.len() == 0,
        c matches Some(p) ==> ps.contains(p) && forall|j: int|
            0 <= j < ps.len() ==> num_key(#[trigger] ps[j].id) <= num_key(p.id),
{
    if let Some(p) = c {
        let i = choose|i: int| is_last_max(ps, i) && #[trigger] ps[i] == p;
        assert(ps[i] == p);
    }
}

} // verus!
