//! Naming and typing of downloaded media, and the size cap of a download.
//!
//! Case is folded before words are looked for. Every word looked for is
//! lower-case ASCII without `k`, and no `i` in them ends a word, so full
//! Unicode lower-casing and ASCII folding find the same words; the
//! specifications use ASCII folding.

use vstd::prelude::*;
use crate::model::{MediaKind, Post, PostView};
use crate::paths::{extension_of, join_path, path_extension, path_join};
use crate::text::{chars_eq, chars_of, contains, contains_chars, decimal, lower_ascii, lower_ascii_vec, push_str, push_u64};

verus! {

/// The file extension chosen for a media item: from the URL when it names
/// mp4, video or gif, else from the item's kind.
pub open spec fn ext_for(kind: MediaKind, url: Seq<char>) -> Seq<char> {
    let l = lower_ascii(url);
    if contains(l, ".mp4"@) || contains(l, "video"@) {
        "mp4"@
    } else if contains(l, ".gif"@) {
        "gif"@
    } else {
        match kind {
            MediaKind::Image => "jpg"@,
            MediaKind::Video => "mp4"@,
            MediaKind::Gif => "gif"@,
            MediaKind::Unknown => "bin"@,
        }
    }
}

fn owned(s: &str) -> (r: String)
    ensures
        r@ == s@,
{
    let mut r = String::new();
    push_str(&mut r, s);
    r
}

/// The file extension for a media item.
pub fn guess_ext(kind: MediaKind, url: &str) -> (r: String)
    ensures
        r@ == ext_for(kind, url@),
{
    let u = chars_of(url);
    let l = lower_ascii_vec(u.as_slice());
    let mp4 = chars_of(".mp4");
    let video = chars_of("video");
    let gif = chars_of(".gif");
    if contains_chars(l.as_slice(), mp4.as_slice()) || contains_chars(l.as_slice(), video.as_slice()) {
        return owned("mp4");
    }
    if contains_chars(l.as_slice(), gif.as_slice()) {
        return owned("gif");
    }
    match kind {
        MediaKind::Image => owned("jpg"),
        MediaKind::Video => owned("mp4"),
        MediaKind::Gif => owned("gif"),
        MediaKind::Unknown => owned("bin"),
    }
}

/// The MIME type for a lower-case extension.
pub open spec fn mime_for_ext(e: Seq<char>) -> Seq<char> {
    if e == "jpg"@ || e == "jpeg"@ {
        "image/jpeg"@
    } else if e == "png"@ {
        "image/png"@
    } else if e == "gif"@ {
        "image/gif"@
    } else if e == "webp"@ {
        "image/webp"@
    } else if e == "mp4"@ {
        "video/mp4"@
    } else {
        "application/octet-stream"@
    }
}

/// The MIME type of a file, from its extension; `None` without one.
pub open spec fn mime_of_path(path: Seq<char>) -> Option<Seq<char>> {
    match path_extension(path) {
        Some(e) => Some(mime_for_ext(lower_ascii(e))),
        None => None,
    }
}

fn is_word(v: &Vec<char>, w: &str) -> (r: bool)
    ensures
        r == (v@ == w@),
{
    let c = chars_of(w);
    chars_eq(v.as_slice(), c.as_slice())
}

/// The MIME type of the file at `path`.
pub fn guess_mime(path: &str) -> (r: Option<String>)
    ensures
        match r {
            Some(m) => mime_of_path(path@) == Some(m@),
            None => mime_of_path(path@) is None,
        },
{
    let e = match extension_of(path) {
        Some(e) => e,
        None => return None,
    };
    let ev = chars_of(e.as_str());
    let l = lower_ascii_vec(ev.as_slice());
    let m = if is_word(&l, "jpg") || is_word(&l, "jpeg") {
        owned("image/jpeg")
    } else if is_word(&l, "png") {
        owned("image/png")
    } else if is_word(&l, "gif") {
        owned("image/gif")
    } else if is_word(&l, "webp") {
        owned("image/webp")
    } else if is_word(&l, "mp4") {
        owned("video/mp4")
    } else {
        owned("application/octet-stream")
    };
    Some(m)
}

/// The local file name of the `i`-th media item of a post.
pub open spec fn media_file_name(post_id: Seq<char>, i: nat, ext: Seq<char>) -> Seq<char> {
    post_id + "_"@ + decimal(i) + "."@ + ext
}

/// Where one media item is fetched from and stored to.
#[derive(Debug)]
pub struct MediaTarget {
    pub url: String,
    pub path: String,
}

/// The target path of each media item of `post` inside `dir`.
pub open spec fn media_target_ok(t_url: Seq<char>, t_path: Seq<char>, post: PostView, dir: Seq<char>, i: int) -> bool {
    &&& t_url == post.media[i].url
    &&& t_path == join_path(
        dir,
        media_file_name(post.id, i as nat, ext_for(post.media[i].kind, post.media[i].url)),
    )
}

/// For each media item of `post`, its URL and the file it is stored to in `dir`.
pub fn media_targets(post: &Post, dir: &str) -> (r: Vec<MediaTarget>)
    ensures
        r@.len() == post@.media.len(),
        forall|i: int|
            0 <= i < r@.len() ==> media_target_ok(#[trigger] r@[i].url@, r@[i].path@, post@, dir@, i),
{
    let mut r: Vec<MediaTarget> = Vec::new();
    let mut i: usize = 0;
    while i < post.media.len()
        invariant
            i <= post.media@.len(),
            r@.len() == i,
            forall|k: int|
                0 <= k < i ==> media_target_ok(#[trigger] r@[k].url@, r@[k].path@, post@, dir@, k),
        decreases post.media@.len() - i,
    {
        let m = &post.media[i];
        let ext = guess_ext(m.kind, m.url.as_str());
        let mut name = String::new();
        push_str(&mut name, post.id.as_str());
        push_str(&mut name, "_");
        push_u64(&mut name, i as u64);
        push_str(&mut name, ".");
        push_str(&mut name, ext.as_str());
        let path = path_join(dir, name.as_str());
        assert(post@.media[i as int] == post.media@[i as int]@);
        r.push(MediaTarget { url: m.url.clone(), path });
        i += 1;
    }
    r
}

/// Whether a download announced with `content_length` bytes (none: 0) fits
/// the cap.
pub fn content_length_ok(content_length: Option<u64>, max_bytes: u64) -> (r: bool)
    ensures
        r == (match content_length {
            Some(n) => n,
            None => 0,
        } <= max_bytes),
{
    match content_length {
        Some(n) => n <= max_bytes,
        None => true,
    }
}

/// The running total after one more chunk of a download; `None` when it
/// passes the cap, and the download is then abandoned.
pub fn accept_chunk(total: u64, chunk_len: u64, max_bytes: u64) -> (r: Option<u64>)
    requires
        total + chunk_len <= u64::MAX,
    ensures
        r == (if total + chunk_len > max_bytes {
            None
        } else {
            Some((total + chunk_len) as u64)
        }),
{
    let t = total + chunk_len;
    if t > max_bytes {
        None
    } else {
        Some(t)
    }
}

} // verus!
