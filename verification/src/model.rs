//! The relay's data: posts, their media, job configuration and errors.

use vstd::prelude::*;
use crate::text::{parse_u64, parse_unsigned, push_str, views};

verus! {

/// The kind of a post's attached media.
#[derive(Clone, Copy, Debug, PartialEq, Eq, Structural)]
pub enum MediaKind {
    Image,
    Video,
    Gif,
    Unknown,
}

/// One remote media attachment of a post.
#[derive(Debug)]
pub struct MediaItem {
    pub url: String,
    pub kind: MediaKind,
}

pub struct MediaItemView {
    pub url: Seq<char>,
    pub kind: MediaKind,
}

impl View for MediaItem {
    type V = MediaItemView;

    open spec fn view(&self) -> MediaItemView {
        MediaItemView { url: self.url@, kind: self.kind }
    }
}

impl MediaItem {
    /// A field-by-field copy.
    pub fn copy(&self) -> (r: MediaItem)
        ensures
            r@ == self@,
    {
        MediaItem { url: self.url.clone(), kind: self.kind }
    }
}

/// The views of a sequence of values.
pub open spec fn view_seq<T: View>(s: Seq<T>) -> Seq<T::V> {
    s.map_values(|x: T| x@)
}

/// The view of an optional string.
pub open spec fn opt_view(o: Option<String>) -> Option<Seq<char>> {
    match o {
        Some(s) => Some(s@),
        None => None,
    }
}

pub fn copy_opt_string(o: &Option<String>) -> (r: Option<String>)
    ensures
        opt_view(r) == opt_view(*o),
{
    match o {
        Some(s) => Some(s.clone()),
        None => None,
    }
}

/// A copy of a list of media items.
pub fn copy_media(v: &Vec<MediaItem>) -> (r: Vec<MediaItem>)
    ensures
        view_seq(r@) == view_seq(v@),
{
    let mut r: Vec<MediaItem> = Vec::new();
    let mut i: usize = 0;
    while i < v.len()
        invariant
            i <= v@.len(),
            view_seq(r@) == view_seq(v@.subrange(0, i as int)),
        decreases v@.len() - i,
    {
        let ghost before = r@;
        r.push(v[i].copy());
        assert(v@.subrange(0, i + 1) =~= v@.subrange(0, i as int).push(v@[i as int]));
        assert(view_seq(r@) =~= view_seq(before).push(v@[i as int]@));
        assert(view_seq(v@.subrange(0, i + 1)) =~= view_seq(v@.subrange(0, i as int)).push(
            v@[i as int]@,
        ));
        i += 1;
    }
    assert(v@.subrange(0, v@.len() as int) =~= v@);
    r
}

/// A copy of a list of strings.
pub fn copy_strings(v: &Vec<String>) -> (r: Vec<String>)
    ensures
        views(r@) == views(v@),
{
    let mut r: Vec<String> = Vec::new();
    let mut i: usize = 0;
    while i < v.len()
        invariant
            i <= v@.len(),
            views(r@) == views(v@.subrange(0, i as int)),
        decreases v@.len() - i,
    {
        let ghost before = r@;
        r.push(v[i].clone());
        assert(v@.subrange(0, i + 1) =~= v@.subrange(0, i as int).push(v@[i as int]));
        assert(views(r@) =~= views(before).push(v@[i as int]@));
        assert(views(v@.subrange(0, i + 1)) =~= views(v@.subrange(0, i as int)).push(
            v@[i as int]@,
        ));
        i += 1;
    }
    assert(v@.subrange(0, v@.len() as int) =~= v@);
    r
}

/// One post of an X account, as the relay handles it.
#[derive(Debug)]
pub struct Post {
    /// The post id: a decimal number, as X gives it.
    pub id: String,
    pub author_handle: String,
    pub text: String,
    pub media: Vec<MediaItem>,
    pub url: Option<String>,
    /// The time the X API reported, in Unix milliseconds.
    pub posted_at_ms: Option<i64>,
    /// For a reply, the link to the post it answers.
    pub reply_to_url: Option<String>,
}

pub struct PostView {
    pub id: Seq<char>,
    pub author_handle: Seq<char>,
    pub text: Seq<char>,
    pub media: Seq<MediaItemView>,
    pub url: Option<Seq<char>>,
    pub posted_at_ms: Option<i64>,
    pub reply_to_url: Option<Seq<char>>,
}

impl View for Post {
    type V = PostView;

    open spec fn view(&self) -> PostView {
        PostView {
            id: self.id@,
            author_handle: self.author_handle@,
            text: self.text@,
            media: view_seq(self.media@),
            url: opt_view(self.url),
            posted_at_ms: self.posted_at_ms,
            reply_to_url: opt_view(self.reply_to_url),
        }
    }
}

/// Offset of X's id epoch from the Unix epoch, in milliseconds.
pub const TWEET_EPOCH_MS: i64 = 1288834974657;

/// The time encoded in a post id: the id's bits above the lowest 22 are
/// milliseconds since X's epoch. `None` when the id is not a `u64`.
pub open spec fn id_time_ms(id: Seq<char>) -> Option<i64> {
    match parse_unsigned(id, u64::MAX as nat) {
        Some(n) => Some((n / 4194304 + TWEET_EPOCH_MS) as i64),
        None => None,
    }
}

/// The posting time that a post id encodes, in Unix milliseconds.
pub fn tweet_id_to_unix_ms(id: &str) -> (r: Option<i64>)
    ensures
        r == id_time_ms(id@),
{
    match parse_u64(id) {
        Some(n) => {
            let high: u64 = n >> 22;
            assert(high == n / 4194304) by (bit_vector)
                requires
                    high == n >> 22,
            ;
            let ms: i64 = high as i64 + TWEET_EPOCH_MS;
            Some(ms)
        },
        None => None,
    }
}

impl Post {
    /// The posting time to show: the API's time when it gave one, else the
    /// time encoded in the id.
    pub fn effective_time_ms(&self) -> (r: Option<i64>)
        ensures
            r == match self.posted_at_ms {
                Some(t) => Some(t),
                None => id_time_ms(self.id@),
            },
    {
        match self.posted_at_ms {
            Some(t) => Some(t),
            None => tweet_id_to_unix_ms(self.id.as_str()),
        }
    }

    /// A field-by-field copy.
    pub fn copy(&self) -> (r: Post)
        ensures
            r@ == self@,
    {
        Post {
            id: self.id.clone(),
            author_handle: self.author_handle.clone(),
            text: self.text.clone(),
            media: copy_media(&self.media),
            url: copy_opt_string(&self.url),
            posted_at_ms: self.posted_at_ms,
            reply_to_url: copy_opt_string(&self.reply_to_url),
        }
    }
}

/// A failure of the relay, by the side it came from.
#[derive(Debug)]
pub enum CoreError {
    Fetch(String),
    Telegram(String),
    Storage(String),
}

/// The text of an error: its side, a colon, and its message.
pub open spec fn error_text(e: CoreError) -> Seq<char> {
    match e {
        CoreError::Fetch(m) => "fetch: "@ + m@,
        CoreError::Telegram(m) => "telegram: "@ + m@,
        CoreError::Storage(m) => "storage: "@ + m@,
    }
}

impl CoreError {
    /// The error's text, as it is shown and logged.
    pub fn message(&self) -> (r: String)
        ensures
            r@ == error_text(*self),
    {
        let mut s = String::new();
        match self {
            CoreError::Fetch(m) => {
                push_str(&mut s, "fetch: ");
                push_str(&mut s, m.as_str());
            },
            CoreError::Telegram(m) => {
                push_str(&mut s, "telegram: ");
                push_str(&mut s, m.as_str());
            },
            CoreError::Storage(m) => {
                push_str(&mut s, "storage: ");
                push_str(&mut s, m.as_str());
            },
        }
        s
    }
}

/// The translation service settings of a job.
#[derive(Debug)]
pub struct AiJobConfig {
    pub enabled: bool,
    pub api_base: String,
    pub api_key: String,
    pub model: String,
}

impl AiJobConfig {
    pub fn copy(&self) -> (r: AiJobConfig)
        ensures
            r.enabled == self.enabled,
            r.api_base@ == self.api_base@,
            r.api_key@ == self.api_key@,
            r.model@ == self.model@,
    {
        AiJobConfig {
            enabled: self.enabled,
            api_base: self.api_base.clone(),
            api_key: self.api_key.clone(),
            model: self.model.clone(),
        }
    }
}

impl Default for AiJobConfig {
    fn default() -> (r: AiJobConfig)
        ensures
            !r.enabled,
            r.api_base@ == "https://api.x.ai/v1"@,
            r.api_key@ == Seq::<char>::empty(),
            r.model@ == "grok-3-mini"@,
    {
        let mut api_base = String::new();
        push_str(&mut api_base, "https://api.x.ai/v1");
        let mut model = String::new();
        push_str(&mut model, "grok-3-mini");
        AiJobConfig { enabled: false, api_base, api_key: String::new(), model }
    }
}

/// What one polling job works on. The polling interval stays with the
/// scheduler that sleeps between rounds.
#[derive(Debug)]
pub struct JobConfig {
    pub x_handles: Vec<String>,
    /// Telegram targets; every new post goes to each of them in turn.
    pub tg_targets: Vec<String>,
    pub max_media_bytes: u64,
    /// Unix milliseconds when polling started; older posts are not relayed.
    pub poll_started_at_ms: i64,
    pub ai: AiJobConfig,
}

impl Default for JobConfig {
    fn default() -> (r: JobConfig)
        ensures
            r.x_handles@.len() == 0,
            r.tg_targets@.len() == 0,
            r.max_media_bytes == 50 * 1024 * 1024,
            r.poll_started_at_ms == 0,
            !r.ai.enabled,
            r.ai.api_base@ == "https://api.x.ai/v1"@,
            r.ai.api_key@ == Seq::<char>::empty(),
            r.ai.model@ == "grok-3-mini"@,
    {
        JobConfig {
            x_handles: Vec::new(),
            tg_targets: Vec::new(),
            max_media_bytes: 50 * 1024 * 1024,
            poll_started_at_ms: 0,
            ai: AiJobConfig::default(),
        }
    }
}

/// A media file fetched to local storage.
#[derive(Debug)]
pub struct DownloadedMedia {
    pub path: String,
    pub mime: Option<String>,
}

pub struct DownloadedMediaView {
    pub path: Seq<char>,
    pub mime: Option<Seq<char>>,
}

impl View for DownloadedMedia {
    type V = DownloadedMediaView;

    open spec fn view(&self) -> DownloadedMediaView {
        DownloadedMediaView { path: self.path@, mime: opt_view(self.mime) }
    }
}

impl DownloadedMedia {
    pub fn copy(&self) -> (r: DownloadedMedia)
        ensures
            r@ == self@,
    {
        DownloadedMedia { path: self.path.clone(), mime: copy_opt_string(&self.mime) }
    }
}

} // verus!
