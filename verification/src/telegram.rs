//! What is sent to Telegram for a post: the text, cut into messages, and how
//! the downloaded media go out; and how a target names its chat.

use vstd::prelude::*;
use chrono::TimeZone;
use crate::model::{id_time_ms, opt_view, view_seq, DownloadedMedia, DownloadedMediaView, MediaItemView, Post, PostView};
use crate::paths::{extension_of, path_extension};
use crate::text::{chars_of, has_prefix, parse_i64, parse_signed, push_i64, push_str, signed_decimal, starts_with, str_eq, string_of_range, strip_start, strip_start_str, trim, trim_str, views, CharPat};

verus! {

/// The most characters one Telegram message holds.
pub const TG_MAX_MSG: usize = 4096;

/// `s` cut into pieces of `TG_MAX_MSG` characters, the last one shorter; the
/// empty text is one empty piece.
pub open spec fn chunks(s: Seq<char>) -> Seq<Seq<char>>
    decreases s.len(),
{
    if s.len() <= TG_MAX_MSG {
        seq![s]
    } else {
        seq![s.subrange(0, TG_MAX_MSG as int)] + chunks(s.subrange(TG_MAX_MSG as int, s.len() as int))
    }
}

/// The pieces joined back together.
pub open spec fn concat_all(parts: Seq<Seq<char>>) -> Seq<char>
    decreases parts.len(),
{
    if parts.len() == 0 {
        Seq::empty()
    } else {
        parts[0] + concat_all(parts.drop_first())
    }
}

/// Cutting loses and adds nothing: the pieces joined give the text back;
/// every piece fits in one message; and no piece is empty unless the text is.
pub proof fn law_chunks_cover(s: Seq<char>)
    ensures
        concat_all(chunks(s)) == s,
        forall|i: int| 0 <= i < chunks(s).len() ==> (#[trigger] chunks(s)[i]).len() <= TG_MAX_MSG,
        s.len() > 0 ==> forall|i: int|
            0 <= i < chunks(s).len() ==> (#[trigger] chunks(s)[i]).len() > 0,
    decreases s.len(),
{
    if s.len() <= TG_MAX_MSG {
        assert(seq![s].drop_first() =~= Seq::<Seq<char>>::empty());
        assert(concat_all(Seq::<Seq<char>>::empty()) =~= Seq::<char>::empty());
        assert(s + Seq::<char>::empty() =~= s);
    } else {
        let rest = s.subrange(TG_MAX_MSG as int, s.len() as int);
        law_chunks_cover(rest);
        let c = chunks(s);
        assert(c =~= seq![s.subrange(0, TG_MAX_MSG as int)] + chunks(rest));
        assert(c.drop_first() =~= chunks(rest));
        assert(s =~= s.subrange(0, TG_MAX_MSG as int) + rest);
        assert forall|i: int| 0 <= i < c.len() implies (#[trigger] c[i]).len() <= TG_MAX_MSG by {
            if i > 0 {
                assert(c[i] == chunks(rest)[i - 1]);
            }
        }
        assert forall|i: int| 0 <= i < c.len() implies (#[trigger] c[i]).len() > 0 by {
            if i > 0 {
                assert(c[i] == chunks(rest)[i - 1]);
            }
        }
    }
}

/// `s` cut into messages of at most `TG_MAX_MSG` characters.
pub fn chunk_text(s: &str) -> (r: Vec<String>)
    ensures
        views(r@) == chunks(s@),
{
    let v = chars_of(s);
    let mut out: Vec<String> = Vec::new();
    let mut i: usize = 0;
    assert(views(out@) =~= Seq::<Seq<char>>::empty());
    assert(v@.subrange(0, v@.len() as int) =~= v@);
    assert(views(out@) + chunks(v@) =~= chunks(v@));
    while v.len() - i > TG_MAX_MSG
        invariant
            i <= v@.len(),
            views(out@) + chunks(v@.subrange(i as int, v@.len() as int)) == chunks(v@),
        decreases v@.len() - i,
    {
        let ghost rest = v@.subrange(i as int, v@.len() as int);
        let piece = string_of_range(v.as_slice(), i, i + TG_MAX_MSG);
        let ghost before = views(out@);
        out.push(piece);
        assert(views(out@) =~= before.push(v@.subrange(i as int, i + TG_MAX_MSG)));
        assert(rest.subrange(0, TG_MAX_MSG as int) =~= v@.subrange(i as int, i + TG_MAX_MSG));
        assert(rest.subrange(TG_MAX_MSG as int, rest.len() as int) =~= v@.subrange(
            i + TG_MAX_MSG,
            v@.len() as int,
        ));
        assert(chunks(rest) =~= seq![v@.subrange(i as int, i + TG_MAX_MSG)] + chunks(
            v@.subrange(i + TG_MAX_MSG, v@.len() as int),
        ));
        assert(before + chunks(rest) =~= views(out@) + chunks(
            v@.subrange(i + TG_MAX_MSG, v@.len() as int),
        ));
        i += TG_MAX_MSG;
    }
    let ghost rest = v@.subrange(i as int, v@.len() as int);
    let ghost before = views(out@);
    let last = string_of_range(v.as_slice(), i, v.len());
    out.push(last);
    assert(views(out@) =~= before.push(rest));
    assert(chunks(rest) == seq![rest]);
    assert(before + seq![rest] =~= before.push(rest));
    assert(v@.subrange(0, v@.len() as int) =~= v@);
    out
}

/// A time in Unix milliseconds as chrono writes it at UTC offset
/// `offset_secs` with strftime pattern `pattern`; `None` where chrono has no
/// such time.
pub uninterp spec fn clock_text(ms: i64, offset_secs: i32, pattern: Seq<char>) -> Option<Seq<char>>;

/// The strftime pattern in which posting times are written.
pub open spec fn time_pattern() -> Seq<char> {
    "%Y-%m-%d %H:%M:%S"@
}

/// chrono: `Utc.timestamp_millis_opt`, then `with_timezone` to
/// `FixedOffset::east_opt(offset_secs)`, then `format(pattern)`. The contract
/// names the result; it depends on the three arguments alone. chrono's
/// `to_string` panics on a pattern it cannot format, so only the one pattern
/// in use is admitted.
#[verifier::external_body]
fn format_millis_at_offset(ms: i64, offset_secs: i32, pattern: &str) -> (r: Option<String>)
    requires
        pattern@ == time_pattern(),
    ensures
        opt_view(r) == clock_text(ms, offset_secs, pattern@),
{
    let utc = match chrono::Utc.timestamp_millis_opt(ms) {
        chrono::LocalResult::Single(dt) => dt,
        chrono::LocalResult::Ambiguous(dt, _) => dt,
        chrono::LocalResult::None => return None,
    };
    let zone = chrono::FixedOffset::east_opt(offset_secs)?;
    Some(utc.with_timezone(&zone).format(pattern).to_string())
}

/// The offset of China Standard Time, in which posting times are shown.
pub const UTC8_OFFSET_SECS: i32 = 8 * 3600;

/// The line that gives a post's time: the clock time at UTC+8, or the raw
/// milliseconds where the time is out of chrono's range.
pub open spec fn time_line(ms: i64) -> Seq<char> {
    match clock_text(ms, UTC8_OFFSET_SECS, time_pattern()) {
        Some(t) => "发帖时间："@ + t + " (UTC+8)"@,
        None => "时间戳(ms): "@ + signed_decimal(ms as int),
    }
}

/// The line that gives a post's time.
pub fn format_post_time_line_ms(ms: i64) -> (r: String)
    ensures
        r@ == time_line(ms),
{
    let mut s = String::new();
    match format_millis_at_offset(ms, UTC8_OFFSET_SECS, "%Y-%m-%d %H:%M:%S") {
        Some(t) => {
            push_str(&mut s, "发帖时间：");
            push_str(&mut s, t.as_str());
            push_str(&mut s, " (UTC+8)");
        },
        None => {
            push_str(&mut s, "时间戳(ms): ");
            push_i64(&mut s, ms);
        },
    }
    s
}

/// The list of media links under a post's text.
pub open spec fn media_lines(ms: Seq<MediaItemView>) -> Seq<char>
    decreases ms.len(),
{
    if ms.len() == 0 {
        Seq::empty()
    } else {
        media_lines(ms.drop_last()) + "\n"@ + ms.last().url
    }
}

/// The post's time in milliseconds: the API's, else the id's.
pub open spec fn effective_time(p: PostView) -> Option<i64> {
    match p.posted_at_ms {
        Some(t) => Some(t),
        None => id_time_ms(p.id),
    }
}

/// The text that announces a post: author and id; its time; the post it
/// answers; the translation when there is one, else the post's text; its
/// link; and the links of its media, which follow as files.
pub open spec fn post_message(p: PostView, translated: Option<Seq<char>>) -> Seq<char> {
    let main = match translated {
        Some(t) => t,
        None => p.text,
    };
    let time = match effective_time(p) {
        Some(ms) => time_line(ms) + "\n"@,
        None => Seq::empty(),
    };
    let reply = match p.reply_to_url {
        Some(u) => "【回复】\n源帖："@ + u + "\n"@,
        None => Seq::empty(),
    };
    let head = "@"@ + p.author_handle + " · "@ + p.id + "\n"@ + time + reply + main;
    let with_url = match p.url {
        Some(u) => head + "\n"@ + u,
        None => head,
    };
    if p.media.len() > 0 {
        with_url + "\n\n媒体（下载完成后补发文件）："@ + media_lines(p.media)
    } else {
        with_url
    }
}

/// The text that announces a post.
pub fn compose_post_text(post: &Post, translated: Option<&str>) -> (r: String)
    ensures
        r@ == post_message(
            post@,
            match translated {
                Some(t) => Some(t@),
                None => None,
            },
        ),
{
    let mut s = String::new();
    push_str(&mut s, "@");
    push_str(&mut s, post.author_handle.as_str());
    push_str(&mut s, " · ");
    push_str(&mut s, post.id.as_str());
    push_str(&mut s, "\n");
    match post.effective_time_ms() {
        Some(ms) => {
            let line = format_post_time_line_ms(ms);
            push_str(&mut s, line.as_str());
            push_str(&mut s, "\n");
        },
        None => {},
    }
    match &post.reply_to_url {
        Some(u) => {
            push_str(&mut s, "【回复】\n源帖：");
            push_str(&mut s, u.as_str());
            push_str(&mut s, "\n");
        },
        None => {},
    }
    match translated {
        Some(t) => push_str(&mut s, t),
        None => push_str(&mut s, post.text.as_str()),
    }
    match &post.url {
        Some(u) => {
            push_str(&mut s, "\n");
            push_str(&mut s, u.as_str());
        },
        None => {},
    }
    let ghost main = match translated {
        Some(t) => t@,
        None => post.text@,
    };
    let ghost time = match effective_time(post@) {
        Some(ms) => time_line(ms) + "\n"@,
        None => Seq::<char>::empty(),
    };
    let ghost reply = match post@.reply_to_url {
        Some(u) => "【回复】\n源帖："@ + u + "\n"@,
        None => Seq::<char>::empty(),
    };
    let ghost head = "@"@ + post@.author_handle + " · "@ + post@.id + "\n"@ + time + reply + main;
    assert(s@ =~= match post@.url {
        Some(u) => head + "\n"@ + u,
        None => head,
    });
    if post.media.len() > 0 {
        push_str(&mut s, "\n\n媒体（下载完成后补发文件）：");
        let ghost base = s@;
        let mut i: usize = 0;
        while i < post.media.len()
            invariant
                i <= post.media@.len(),
                s@ == base + media_lines(post@.media.subrange(0, i as int)),
            decreases post.media@.len() - i,
        {
            let ghost before = s@;
            push_str(&mut s, "\n");
            push_str(&mut s, post.media[i].url.as_str());
            assert(post@.media.subrange(0, i + 1).drop_last() =~= post@.media.subrange(0, i as int));
            assert(post@.media.subrange(0, i + 1).last() == post.media@[i as int]@);
            assert(s@ =~= base + media_lines(post@.media.subrange(0, i + 1)));
            i += 1;
        }
        assert(post@.media.subrange(0, post@.media.len() as int) =~= post@.media);
        assert(post@.media.subrange(0, 0) =~= Seq::<MediaItemView>::empty());
    }
    s
}

/// The messages of `parts` that are not empty, in order.
pub open spec fn non_empty(parts: Seq<Seq<char>>) -> Seq<Seq<char>>
    decreases parts.len(),
{
    if parts.len() == 0 {
        Seq::empty()
    } else if parts.last().len() > 0 {
        non_empty(parts.drop_last()).push(parts.last())
    } else {
        non_empty(parts.drop_last())
    }
}

/// The text messages that announce a post: its text cut to message size,
/// empty pieces left out.
pub fn post_messages(post: &Post, translated: Option<&str>) -> (r: Vec<String>)
    ensures
        views(r@) == non_empty(
            chunks(
                post_message(
                    post@,
                    match translated {
                        Some(t) => Some(t@),
                        None => None,
                    },
                ),
            ),
        ),
{
    let body = compose_post_text(post, translated);
    let parts = chunk_text(body.as_str());
    let ghost all = views(parts@);
    let mut out: Vec<String> = Vec::new();
    let mut i: usize = 0;
    while i < parts.len()
        invariant
            i <= parts@.len(),
            all == views(parts@),
            views(out@) == non_empty(all.subrange(0, i as int)),
        decreases parts@.len() - i,
    {
        assert(all.subrange(0, i + 1).drop_last() =~= all.subrange(0, i as int));
        assert(all.subrange(0, i + 1).last() == parts@[i as int]@);
        let ghost before = views(out@);
        if parts[i].as_str().unicode_len() > 0 {
            out.push(parts[i].clone());
            assert(views(out@) =~= before.push(parts@[i as int]@));
        }
        i += 1;
    }
    assert(all.subrange(0, all.len() as int) =~= all);
    out
}

// ---------------------------------------------------------------------------
// Media files
// ---------------------------------------------------------------------------

pub open spec fn ext_is_one_of(e: Option<Seq<char>>, words: Seq<Seq<char>>) -> bool {
    e matches Some(x) && words.contains(x)
}

/// A file that goes in a photo album: its MIME type is `image/…`, or, without
/// a type, its extension is a picture's.
pub open spec fn is_image_file(m: DownloadedMediaView) -> bool {
    match m.mime {
        Some(t) => starts_with(t, "image/"@),
        None => ext_is_one_of(
            path_extension(m.path),
            seq!["jpg"@, "jpeg"@, "png"@, "gif"@, "webp"@],
        ),
    }
}

/// A file that goes as a document: its MIME type is `video/…` or
/// `application/octet-stream`, or, without a type, its extension is a video's.
pub open spec fn is_video_or_doc_file(m: DownloadedMediaView) -> bool {
    match m.mime {
        Some(t) => starts_with(t, "video/"@) || t == "application/octet-stream"@,
        None => ext_is_one_of(path_extension(m.path), seq!["mp4"@, "webm"@, "mov"@]),
    }
}

/// How the files of a post are sent after its text.
#[derive(Debug)]
pub enum MediaPlan {
    /// There are no files.
    TextOnly,
    /// The pictures, as one album, in order.
    Album(Vec<String>),
    /// The first video or document alone.
    Document(String),
    /// Every file as a document, in order.
    Documents(Vec<String>),
}

/// The paths of the files of `ms` that pass `keep`, in order.
pub open spec fn paths_where(ms: Seq<DownloadedMediaView>, keep: spec_fn(DownloadedMediaView) -> bool) -> Seq<Seq<char>>
    decreases ms.len(),
{
    if ms.len() == 0 {
        Seq::empty()
    } else if keep(ms.last()) {
        paths_where(ms.drop_last(), keep).push(ms.last().path)
    } else {
        paths_where(ms.drop_last(), keep)
    }
}

/// How the files go out: none, nothing; pictures, as an album (other files
/// are then left out); else the first video or document alone; else each
/// file as a document.
pub open spec fn media_plan_ok(plan: MediaPlan, ms: Seq<DownloadedMediaView>) -> bool {
    let images = paths_where(ms, |m: DownloadedMediaView| is_image_file(m));
    let docs = paths_where(ms, |m: DownloadedMediaView| is_video_or_doc_file(m));
    if ms.len() == 0 {
        plan is TextOnly
    } else if images.len() > 0 {
        plan matches MediaPlan::Album(v) && views(v@) == images
    } else if docs.len() > 0 {
        plan matches MediaPlan::Document(p) && p@ == docs[0]
    } else {
        plan matches MediaPlan::Documents(v) && views(v@) == ms.map_values(
            |m: DownloadedMediaView| m.path,
        )
    }
}

/// The views of a sequence of string slices.
pub open spec fn str_views(s: Seq<&str>) -> Seq<Seq<char>> {
    s.map_values(|w: &str| w@)
}

fn ext_in(path: &str, words: &Vec<&str>) -> (r: bool)
    ensures
        r == ext_is_one_of(path_extension(path@), str_views(words@)),
{
    let e = match extension_of(path) {
        Some(e) => e,
        None => return false,
    };
    let ghost ws = str_views(words@);
    let mut i: usize = 0;
    while i < words.len()
        invariant
            i <= words@.len(),
            ws == str_views(words@),
            path_extension(path@) == Some(e@),
            forall|j: int| 0 <= j < i ==> ws[j] != e@,
        decreases words@.len() - i,
    {
        if str_eq(e.as_str(), words[i]) {
            assert(ws[i as int] == e@);
            assert(ws.contains(e@));
            return true;
        }
        i += 1;
    }
    assert(ws.len() == words@.len());
    assert(!ws.contains(e@));
    false
}

fn is_image_exec(m: &DownloadedMedia) -> (r: bool)
    ensures
        r == is_image_file(m@),
{
    match &m.mime {
        Some(t) => {
            let tv = chars_of(t.as_str());
            let p = chars_of("image/");
            has_prefix(tv.as_slice(), p.as_slice())
        },
        None => {
            let words = vec!["jpg", "jpeg", "png", "gif", "webp"];
            let r = ext_in(m.path.as_str(), &words);
            assert(str_views(words@) =~= seq!["jpg"@, "jpeg"@, "png"@, "gif"@, "webp"@]);
            r
        },
    }
}

fn is_video_or_doc_exec(m: &DownloadedMedia) -> (r: bool)
    ensures
        r == is_video_or_doc_file(m@),
{
    match &m.mime {
        Some(t) => {
            let tv = chars_of(t.as_str());
            let p = chars_of("video/");
            has_prefix(tv.as_slice(), p.as_slice()) || str_eq(t.as_str(), "application/octet-stream")
        },
        None => {
            let words = vec!["mp4", "webm", "mov"];
            let r = ext_in(m.path.as_str(), &words);
            assert(str_views(words@) =~= seq!["mp4"@, "webm"@, "mov"@]);
            r
        },
    }
}

/// How the downloaded files of a post are sent.
pub fn plan_media_upload(files: &Vec<DownloadedMedia>) -> (r: MediaPlan)
    ensures
        media_plan_ok(r, view_seq(files@)),
{
    let ghost ms = view_seq(files@);
    let ghost img = |m: DownloadedMediaView| is_image_file(m);
    let ghost doc = |m: DownloadedMediaView| is_video_or_doc_file(m);
    if files.len() == 0 {
        return MediaPlan::TextOnly;
    }
    let mut images: Vec<String> = Vec::new();
    let mut first_doc: Option<usize> = None;
    let mut all: Vec<String> = Vec::new();
    let mut i: usize = 0;
    while i < files.len()
        invariant
            i <= files@.len(),
            ms == view_seq(files@),
            img == (|m: DownloadedMediaView| is_image_file(m)),
            doc == (|m: DownloadedMediaView| is_video_or_doc_file(m)),
            views(images@) == paths_where(ms.subrange(0, i as int), img),
            views(all@) == ms.subrange(0, i as int).map_values(|m: DownloadedMediaView| m.path),
            match first_doc {
                Some(k) => k < i && paths_where(ms.subrange(0, i as int), doc).len() > 0
                    && paths_where(ms.subrange(0, i as int), doc)[0] == ms[k as int].path,
                None => paths_where(ms.subrange(0, i as int), doc).len() == 0,
            },
        decreases files@.len() - i,
    {
        let ghost pre = ms.subrange(0, i as int);
        let ghost next = ms.subrange(0, i + 1);
        assert(next.drop_last() =~= pre);
        assert(next.last() == files@[i as int]@);
        let ghost old_images = views(images@);
        let ghost old_all = views(all@);
        if is_image_exec(&files[i]) {
            images.push(files[i].path.clone());
            assert(views(images@) =~= old_images.push(files@[i as int]@.path));
        }
        proof {
            lemma_paths_where_prefix(next, doc);
        }
        if first_doc.is_none() && is_video_or_doc_exec(&files[i]) {
            first_doc = Some(i);
        }
        all.push(files[i].path.clone());
        assert(views(all@) =~= old_all.push(files@[i as int]@.path));
        assert(next.map_values(|m: DownloadedMediaView| m.path) =~= pre.map_values(
            |m: DownloadedMediaView| m.path,
        ).push(files@[i as int]@.path));
        i += 1;
    }
    assert(ms.subrange(0, files@.len() as int) =~= ms);
    if images.len() > 0 {
        MediaPlan::Album(images)
    } else {
        match first_doc {
            Some(k) => MediaPlan::Document(files[k].path.clone()),
            None => MediaPlan::Documents(all),
        }
    }
}

/// Once non-empty, the first path of a filtered prefix stays the first.
proof fn lemma_paths_where_prefix(s: Seq<DownloadedMediaView>, keep: spec_fn(DownloadedMediaView) -> bool)
    requires
        s.len() > 0,
    ensures
        paths_where(s.drop_last(), keep).len() > 0 ==> paths_where(s, keep).len() > 0
            && paths_where(s, keep)[0] == paths_where(s.drop_last(), keep)[0],
        paths_where(s.drop_last(), keep).len() == 0 ==> (keep(s.last()) ==> paths_where(s, keep)
            == seq![s.last().path]) && (!keep(s.last()) ==> paths_where(s, keep).len() == 0),
{
    if paths_where(s.drop_last(), keep).len() == 0 && keep(s.last()) {
        assert(paths_where(s.drop_last(), keep) =~= Seq::<Seq<char>>::empty());
        assert(Seq::<Seq<char>>::empty().push(s.last().path) =~= seq![s.last().path]);
    }
}

// ---------------------------------------------------------------------------
// The calls that deliver a post
// ---------------------------------------------------------------------------

/// One Telegram call in the delivery of a post.
#[derive(Debug)]
pub enum TgOp {
    /// A text message.
    Text(String),
    /// The files at these paths, uploaded and sent as one photo album.
    Album(Vec<String>),
    /// The file at this path, uploaded and sent as a document.
    Document(String),
}

pub enum TgOpView {
    Text(Seq<char>),
    Album(Seq<Seq<char>>),
    Document(Seq<char>),
}

impl View for TgOp {
    type V = TgOpView;

    open spec fn view(&self) -> TgOpView {
        match self {
            TgOp::Text(t) => TgOpView::Text(t@),
            TgOp::Album(v) => TgOpView::Album(views(v@)),
            TgOp::Document(p) => TgOpView::Document(p@),
        }
    }
}

/// The calls that send the files of a post, as `media_plan_ok` lays them
/// out: one album of the pictures; else the first video or document; else
/// every file as a document; nothing without files.
pub open spec fn media_ops(ms: Seq<DownloadedMediaView>) -> Seq<TgOpView> {
    let images = paths_where(ms, |m: DownloadedMediaView| is_image_file(m));
    let docs = paths_where(ms, |m: DownloadedMediaView| is_video_or_doc_file(m));
    if ms.len() == 0 {
        Seq::empty()
    } else if images.len() > 0 {
        seq![TgOpView::Album(images)]
    } else if docs.len() > 0 {
        seq![TgOpView::Document(docs[0])]
    } else {
        ms.map_values(|m: DownloadedMediaView| TgOpView::Document(m.path))
    }
}

/// The calls that deliver a post, in order: its text messages, then its
/// files. Delivery stops at the first call that fails.
pub open spec fn post_ops(p: PostView, translated: Option<Seq<char>>, ms: Seq<DownloadedMediaView>) -> Seq<TgOpView> {
    non_empty(chunks(post_message(p, translated))).map_values(|t: Seq<char>| TgOpView::Text(t))
        + media_ops(ms)
}

/// The views of a sequence of calls.
pub open spec fn op_views(s: Seq<TgOp>) -> Seq<TgOpView> {
    s.map_values(|o: TgOp| o@)
}

/// The calls that deliver a post, in order.
pub fn post_send_ops(post: &Post, translated: Option<&str>, files: &Vec<DownloadedMedia>) -> (r: Vec<TgOp>)
    ensures
        op_views(r@) == post_ops(
            post@,
            match translated {
                Some(t) => Some(t@),
                None => None,
            },
            view_seq(files@),
        ),
{
    let texts = post_messages(post, translated);
    let ghost tv = views(texts@);
    let mut r: Vec<TgOp> = Vec::new();
    let mut i: usize = 0;
    while i < texts.len()
        invariant
            i <= texts@.len(),
            tv == views(texts@),
            op_views(r@) == tv.subrange(0, i as int).map_values(|t: Seq<char>| TgOpView::Text(t)),
        decreases texts@.len() - i,
    {
        let ghost before = op_views(r@);
        r.push(TgOp::Text(texts[i].clone()));
        assert(op_views(r@) =~= before.push(TgOpView::Text(tv[i as int])));
        assert(tv.subrange(0, i + 1).map_values(|t: Seq<char>| TgOpView::Text(t)) =~= tv.subrange(
            0,
            i as int,
        ).map_values(|t: Seq<char>| TgOpView::Text(t)).push(TgOpView::Text(tv[i as int])));
        i += 1;
    }
    assert(tv.subrange(0, tv.len() as int) =~= tv);
    let ghost head = op_views(r@);
    let ghost ms = view_seq(files@);
    match plan_media_upload(files) {
        MediaPlan::TextOnly => {
            assert(media_ops(ms) =~= Seq::<TgOpView>::empty());
            assert(head + media_ops(ms) =~= head);
        },
        MediaPlan::Album(v) => {
            r.push(TgOp::Album(v));
            assert(op_views(r@) =~= head + media_ops(ms));
        },
        MediaPlan::Document(p) => {
            r.push(TgOp::Document(p));
            assert(op_views(r@) =~= head + media_ops(ms));
        },
        MediaPlan::Documents(v) => {
            let ghost pv = views(v@);
            let mut j: usize = 0;
            while j < v.len()
                invariant
                    j <= v@.len(),
                    pv == views(v@),
                    op_views(r@) == head + pv.subrange(0, j as int).map_values(
                        |p: Seq<char>| TgOpView::Document(p),
                    ),
                decreases v@.len() - j,
            {
                let ghost before = op_views(r@);
                r.push(TgOp::Document(v[j].clone()));
                assert(op_views(r@) =~= before.push(TgOpView::Document(pv[j as int])));
                assert(pv.subrange(0, j + 1).map_values(|p: Seq<char>| TgOpView::Document(p))
                    =~= pv.subrange(0, j as int).map_values(|p: Seq<char>| TgOpView::Document(p)).push(
                    TgOpView::Document(pv[j as int]),
                ));
                j += 1;
            }
            assert(pv.subrange(0, pv.len() as int) =~= pv);
            assert(pv.map_values(|p: Seq<char>| TgOpView::Document(p)) =~= ms.map_values(
                |m: DownloadedMediaView| TgOpView::Document(m.path),
            ));
        },
    }
    r
}

proof fn lemma_paths_where_none(ms: Seq<DownloadedMediaView>, keep: spec_fn(DownloadedMediaView) -> bool)
    ensures
        paths_where(ms, keep).len() == 0 <==> forall|j: int| 0 <= j < ms.len() ==> !keep(#[trigger] ms[j]),
    decreases ms.len(),
{
    if ms.len() > 0 {
        let pre = ms.drop_last();
        lemma_paths_where_none(pre, keep);
        assert forall|j: int| 0 <= j < pre.len() implies pre[j] == ms[j] by {}
        if forall|j: int| 0 <= j < ms.len() ==> !keep(#[trigger] ms[j]) {
            assert forall|j: int| 0 <= j < pre.len() implies !keep(#[trigger] pre[j]) by {
                assert(pre[j] == ms[j]);
            }
            assert(!keep(ms[ms.len() - 1]));
        }
        if paths_where(ms, keep).len() == 0 {
            assert forall|j: int| 0 <= j < ms.len() implies !keep(#[trigger] ms[j]) by {
                if j < ms.len() - 1 {
                    assert(pre[j] == ms[j]);
                }
            }
        }
    }
}

proof fn lemma_paths_where_first(ms: Seq<DownloadedMediaView>, keep: spec_fn(DownloadedMediaView) -> bool, k: int)
    requires
        0 <= k < ms.len(),
        keep(ms[k]),
        forall|j: int| 0 <= j < k ==> !keep(#[trigger] ms[j]),
    ensures
        paths_where(ms, keep).len() > 0,
        paths_where(ms, keep)[0] == ms[k].path,
    decreases ms.len(),
{
    let pre = ms.drop_last();
    if k < ms.len() - 1 {
        assert forall|j: int| 0 <= j < k implies !keep(#[trigger] pre[j]) by {
            assert(pre[j] == ms[j]);
        }
        assert(pre[k] == ms[k]);
        lemma_paths_where_first(pre, keep, k);
    } else {
        assert forall|j: int| 0 <= j < pre.len() implies !keep(#[trigger] pre[j]) by {
            assert(pre[j] == ms[j]);
        }
        lemma_paths_where_none(pre, keep);
    }
}

/// How a post is delivered: first its text messages, in order; then its
/// files. Without files nothing follows. With a picture among them, one
/// album follows. With no picture but a video or document, exactly one
/// document follows: the first such file. With neither, every file follows
/// as a document, in order. The album holds the paths of the pictures, in
/// order.
pub proof fn law_delivery_order(p: PostView, tr: Option<Seq<char>>, ms: Seq<DownloadedMediaView>)
    ensures
        ({
            let texts = non_empty(chunks(post_message(p, tr)));
            let ops = post_ops(p, tr, ms);
            let n = texts.len() as int;
            &&& forall|i: int| 0 <= i < n ==> #[trigger] ops[i] == TgOpView::Text(texts[i])
            &&& ms.len() == 0 ==> ops.len() == n
            &&& (exists|j: int| 0 <= j < ms.len() && is_image_file(#[trigger] ms[j])) ==> ops.len()
                == n + 1 && ops[n] == TgOpView::Album(
                paths_where(ms, |m: DownloadedMediaView| is_image_file(m)),
            ) && paths_where(ms, |m: DownloadedMediaView| is_image_file(m)).len() > 0
            &&& forall|k: int|
                0 <= k < ms.len() && is_video_or_doc_file(#[trigger] ms[k]) && (forall|j: int|
                    0 <= j < k ==> !is_video_or_doc_file(#[trigger] ms[j])) && (forall|j: int|
                    0 <= j < ms.len() ==> !is_image_file(#[trigger] ms[j])) ==> ops.len() == n + 1
                    && ops[n] == TgOpView::Document(ms[k].path)
            &&& (ms.len() > 0 && (forall|j: int| 0 <= j < ms.len() ==> !is_image_file(#[trigger] ms[j]))
                && (forall|j: int| 0 <= j < ms.len() ==> !is_video_or_doc_file(#[trigger] ms[j])))
                ==> ops.len() == n + ms.len() && forall|j: int|
                0 <= j < ms.len() ==> #[trigger] ops[n + j] == TgOpView::Document(ms[j].path)
        }),
{
    let img = |m: DownloadedMediaView| is_image_file(m);
    let doc = |m: DownloadedMediaView| is_video_or_doc_file(m);
    lemma_paths_where_none(ms, img);
    lemma_paths_where_none(ms, doc);
    assert forall|k: int|
        0 <= k < ms.len() && is_video_or_doc_file(#[trigger] ms[k]) && (forall|j: int|
            0 <= j < k ==> !is_video_or_doc_file(#[trigger] ms[j])) && (forall|j: int|
            0 <= j < ms.len() ==> !is_image_file(#[trigger] ms[j])) implies post_ops(p, tr, ms).len()
        == non_empty(chunks(post_message(p, tr))).len() + 1 && post_ops(p, tr, ms)[non_empty(
        chunks(post_message(p, tr)),
    ).len() as int] == TgOpView::Document(ms[k].path) by {
        assert forall|j: int| 0 <= j < k implies !doc(#[trigger] ms[j]) by {
            assert(!is_video_or_doc_file(ms[j]));
        }
        lemma_paths_where_first(ms, doc, k);
        assert(forall|j: int| 0 <= j < ms.len() ==> !img(#[trigger] ms[j]));
    }
}

// ---------------------------------------------------------------------------
// Targets
// ---------------------------------------------------------------------------

/// How a Telegram target names its chat.
#[derive(Debug)]
pub enum TargetRef {
    /// A Bot API chat id, looked up among the account's dialogs.
    BotApiId(i64),
    /// A user name, resolved by Telegram.
    Username(String),
}

pub open spec fn is_id_char(c: char) -> bool {
    ('0' <= c && c <= '9') || c == '-'
}

/// A target made of digits and minus signs (after trimming and dropping
/// leading `@`) that reads as an `i64` names a Bot API chat id; any other
/// names a user name: the trimmed text without leading `@`.
pub open spec fn target_ok(r: TargetRef, target: Seq<char>) -> bool {
    let t = trim(target);
    let u = strip_start(t, CharPat::Exactly('@'));
    let numeric = u.len() > 0 && (forall|i: int| 0 <= i < u.len() ==> is_id_char(#[trigger] u[i]));
    if numeric && parse_signed(t, i64::MAX as nat) is Some {
        r matches TargetRef::BotApiId(id) && Some(id as int) == parse_signed(t, i64::MAX as nat)
    } else {
        r matches TargetRef::Username(name) && name@ == u
    }
}

/// How `target` names its chat.
pub fn classify_target(target: &str) -> (r: TargetRef)
    ensures
        target_ok(r, target@),
{
    let t = trim_str(target);
    let u = strip_start_str(t.as_str(), CharPat::Exactly('@'));
    let uv = chars_of(u.as_str());
    let mut numeric = uv.len() > 0;
    let mut i: usize = 0;
    while i < uv.len()
        invariant
            i <= uv@.len(),
            numeric == (uv@.len() > 0 && forall|j: int| 0 <= j < i ==> is_id_char(#[trigger] uv@[j])),
        decreases uv@.len() - i,
    {
        let c = uv[i];
        if !(('0' <= c && c <= '9') || c == '-') {
            numeric = false;
        }
        i += 1;
    }
    if numeric {
        match parse_i64(t.as_str()) {
            Some(id) => {
                return TargetRef::BotApiId(id);
            },
            None => {},
        }
    }
    TargetRef::Username(u)
}

} // verus!
