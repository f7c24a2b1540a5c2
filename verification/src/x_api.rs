//! The X API v2 side: request URLs, the checks before a fetch, and turning a
//! timeline response (already decoded into plain values) into posts.

use vstd::prelude::*;
use crate::model::{opt_view, view_seq, CoreError, MediaItem, MediaItemView, MediaKind, Post, PostView};
use crate::text::{chars_of, decimal, push_str, push_u64, strip_end, strip_end_str, strip_start, strip_start_str, str_eq, trim, trim_str, CharPat};

verus! {

// ---------------------------------------------------------------------------
// Decoded response values
// ---------------------------------------------------------------------------

/// One encoding of a video.
#[derive(Debug)]
pub struct Variant {
    pub content_type: Option<String>,
    pub bitrate: Option<u64>,
    pub url: Option<String>,
}

/// A media object of the response's `includes`.
#[derive(Debug)]
pub struct MediaObj {
    pub media_key: String,
    pub media_type: String,
    pub url: Option<String>,
    pub variants: Option<Vec<Variant>>,
}

/// The `includes` part of a timeline response.
#[derive(Debug)]
pub struct Includes {
    pub media: Option<Vec<MediaObj>>,
}

/// The media keys a tweet refers to.
#[derive(Debug)]
pub struct Attachments {
    pub media_keys: Vec<String>,
}

/// A tweet that a tweet refers to, with the kind of reference.
#[derive(Debug)]
pub struct ReferencedTweet {
    pub ref_type: String,
    pub id: String,
}

/// One tweet of a timeline response.
#[derive(Debug)]
pub struct Tweet {
    pub id: String,
    pub text: String,
    pub created_at: Option<String>,
    pub attachments: Option<Attachments>,
    pub referenced_tweets: Option<Vec<ReferencedTweet>>,
}

// ---------------------------------------------------------------------------
// Choosing a video URL
// ---------------------------------------------------------------------------

pub open spec fn is_mp4_variant(v: Variant) -> bool {
    opt_view(v.content_type) == Some("video/mp4"@) && v.url is Some
}

pub open spec fn bitrate_of(v: Variant) -> u64 {
    match v.bitrate {
        Some(b) => b,
        None => 0,
    }
}

/// The mp4 variant with the highest bitrate (missing: 0); of equal ones, the
/// last.
pub open spec fn best_mp4(vs: Seq<Variant>) -> Option<Variant>
    decreases vs.len(),
{
    if vs.len() == 0 {
        None
    } else {
        let b = best_mp4(vs.drop_last());
        let v = vs.last();
        if is_mp4_variant(v) {
            match b {
                Some(w) => if bitrate_of(v) >= bitrate_of(w) {
                    Some(v)
                } else {
                    b
                },
                None => Some(v),
            }
        } else {
            b
        }
    }
}

/// The first URL among the variants.
pub open spec fn first_url(vs: Seq<Variant>) -> Option<Seq<char>>
    decreases vs.len(),
{
    if vs.len() == 0 {
        None
    } else {
        match vs[0].url {
            Some(u) => Some(u@),
            None => first_url(vs.drop_first()),
        }
    }
}

/// The URL to fetch a video from: the best mp4 variant's, else the first
/// variant's that has one.
pub open spec fn best_video(variants: Option<Seq<Variant>>) -> Option<Seq<char>> {
    match variants {
        None => None,
        Some(vs) => match best_mp4(vs) {
            Some(v) => opt_view(v.url),
            None => first_url(vs),
        },
    }
}

pub open spec fn opt_vec_view<T>(o: Option<Vec<T>>) -> Option<Seq<T>> {
    match o {
        Some(v) => Some(v@),
        None => None,
    }
}

fn is_mp4_exec(v: &Variant) -> (r: bool)
    ensures
        r == is_mp4_variant(*v),
{
    match &v.content_type {
        Some(ct) => str_eq(ct.as_str(), "video/mp4") && v.url.is_some(),
        None => false,
    }
}

fn bitrate_exec(v: &Variant) -> (r: u64)
    ensures
        r == bitrate_of(*v),
{
    match v.bitrate {
        Some(b) => b,
        None => 0,
    }
}

/// The URL to fetch a video from.
pub fn best_video_url(variants: &Option<Vec<Variant>>) -> (r: Option<String>)
    ensures
        opt_view(r) == best_video(opt_vec_view(*variants)),
{
    let vs = match variants {
        Some(vs) => vs,
        None => return None,
    };
    let mut best: Option<usize> = None;
    let mut i: usize = 0;
    while i < vs.len()
        invariant
            i <= vs@.len(),
            match best {
                Some(k) => k < i && best_mp4(vs@.subrange(0, i as int)) == Some(vs@[k as int]),
                None => best_mp4(vs@.subrange(0, i as int)) is None,
            },
        decreases vs@.len() - i,
    {
        assert(vs@.subrange(0, i + 1).drop_last() =~= vs@.subrange(0, i as int));
        if is_mp4_exec(&vs[i]) {
            match best {
                Some(k) => {
                    if bitrate_exec(&vs[i]) >= bitrate_exec(&vs[k]) {
                        best = Some(i);
                    }
                },
                None => {
                    best = Some(i);
                },
            }
        }
        i += 1;
    }
    assert(vs@.subrange(0, vs@.len() as int) =~= vs@);
    match best {
        Some(k) => match &vs[k].url {
            Some(u) => Some(u.clone()),
            None => None,
        },
        None => {
            let mut j: usize = 0;
            while j < vs.len()
                invariant
                    j <= vs@.len(),
                    opt_vec_view(*variants) == Some(vs@),
                    best_mp4(vs@) is None,
                    first_url(vs@) == first_url(vs@.subrange(j as int, vs@.len() as int)),
                decreases vs@.len() - j,
            {
                assert(vs@.subrange(j as int, vs@.len() as int).drop_first() =~= vs@.subrange(
                    j + 1,
                    vs@.len() as int,
                ));
                assert(vs@.subrange(j as int, vs@.len() as int)[0] == vs@[j as int]);
                match &vs[j].url {
                    Some(u) => {
                        return Some(u.clone());
                    },
                    None => {},
                }
                j += 1;
            }
            None
        },
    }
}

// ---------------------------------------------------------------------------
// Media of a tweet
// ---------------------------------------------------------------------------

/// The media item a media object gives: a photo by its URL, a video or GIF by
/// its best variant, anything else by its URL as of unknown kind.
pub open spec fn item_of(mo: MediaObj) -> Option<MediaItemView> {
    let t = mo.media_type@;
    if t == "photo"@ {
        match mo.url {
            Some(u) => Some(MediaItemView { url: u@, kind: MediaKind::Image }),
            None => None,
        }
    } else if t == "video"@ || t == "animated_gif"@ {
        let kind = if t == "animated_gif"@ {
            MediaKind::Gif
        } else {
            MediaKind::Video
        };
        match best_video(opt_vec_view(mo.variants)) {
            Some(u) => Some(MediaItemView { url: u, kind: kind }),
            None => None,
        }
    } else {
        match mo.url {
            Some(u) => Some(MediaItemView { url: u@, kind: MediaKind::Unknown }),
            None => None,
        }
    }
}

pub open spec fn opt_item_view(o: Option<MediaItem>) -> Option<MediaItemView> {
    match o {
        Some(m) => Some(m@),
        None => None,
    }
}

/// The media item of one media object.
pub fn media_obj_to_item(mo: &MediaObj) -> (r: Option<MediaItem>)
    ensures
        opt_item_view(r) == item_of(*mo),
{
    let t = mo.media_type.as_str();
    if str_eq(t, "photo") {
        match &mo.url {
            Some(u) => Some(MediaItem { url: u.clone(), kind: MediaKind::Image }),
            None => None,
        }
    } else if str_eq(t, "video") || str_eq(t, "animated_gif") {
        let kind = if str_eq(t, "animated_gif") {
            MediaKind::Gif
        } else {
            MediaKind::Video
        };
        match best_video_url(&mo.variants) {
            Some(u) => Some(MediaItem { url: u, kind }),
            None => None,
        }
    } else {
        match &mo.url {
            Some(u) => Some(MediaItem { url: u.clone(), kind: MediaKind::Unknown }),
            None => None,
        }
    }
}

/// The media objects of a response, looked up by key; of several with one
/// key, the last counts, as when each is inserted into a map in turn. The
/// keys are strings, and vstd specifies `HashMap` lookups by key only for
/// key types whose hashing it models, which `String` is not; so the table
/// keeps the objects in order and a lookup takes the last match, which gives
/// the same answers with a contract that can be proved.
pub struct MediaTable {
    pub entries: Vec<MediaObj>,
}

/// The last media object with key `key`.
pub open spec fn lookup_media(entries: Seq<MediaObj>, key: Seq<char>) -> Option<MediaObj>
    decreases entries.len(),
{
    if entries.len() == 0 {
        None
    } else if entries.last().media_key@ == key {
        Some(entries.last())
    } else {
        lookup_media(entries.drop_last(), key)
    }
}

/// The media objects of a response, by key.
pub fn build_media_map(includes: Option<Includes>) -> (r: MediaTable)
    ensures
        r.entries@ == match includes {
            Some(inc) => match inc.media {
                Some(list) => list@,
                None => Seq::<MediaObj>::empty(),
            },
            None => Seq::<MediaObj>::empty(),
        },
{
    match includes {
        Some(inc) => match inc.media {
            Some(list) => MediaTable { entries: list },
            None => MediaTable { entries: Vec::new() },
        },
        None => MediaTable { entries: Vec::new() },
    }
}

impl MediaTable {
    /// The media object with key `key`.
    pub fn get(&self, key: &str) -> (r: Option<&MediaObj>)
        ensures
            match r {
                Some(m) => lookup_media(self.entries@, key@) == Some(*m),
                None => lookup_media(self.entries@, key@) is None,
            },
    {
        let mut j: usize = self.entries.len();
        assert(self.entries@.subrange(0, j as int) =~= self.entries@);
        while j > 0
            invariant
                j <= self.entries@.len(),
                lookup_media(self.entries@, key@) == lookup_media(
                    self.entries@.subrange(0, j as int),
                    key@,
                ),
            decreases j,
        {
            assert(self.entries@.subrange(0, j as int).drop_last() =~= self.entries@.subrange(
                0,
                j - 1,
            ));
            if str_eq(self.entries[j - 1].media_key.as_str(), key) {
                return Some(&self.entries[j - 1]);
            }
            j -= 1;
        }
        assert(self.entries@.subrange(0, 0) =~= Seq::<MediaObj>::empty());
        None
    }
}

/// The media items that `keys` give, in order, skipping keys without an
/// object and objects without an item.
pub open spec fn items_for_keys(keys: Seq<String>, entries: Seq<MediaObj>) -> Seq<MediaItemView>
    decreases keys.len(),
{
    if keys.len() == 0 {
        Seq::empty()
    } else {
        let prev = items_for_keys(keys.drop_last(), entries);
        match lookup_media(entries, keys.last()@) {
            Some(mo) => match item_of(mo) {
                Some(it) => prev.push(it),
                None => prev,
            },
            None => prev,
        }
    }
}

/// The media items of a tweet.
pub open spec fn tweet_media(tw: Tweet, entries: Seq<MediaObj>) -> Seq<MediaItemView> {
    match tw.attachments {
        Some(a) => items_for_keys(a.media_keys@, entries),
        None => Seq::empty(),
    }
}

/// The media items of a tweet.
pub fn media_for_tweet(tw: &Tweet, table: &MediaTable) -> (r: Vec<MediaItem>)
    ensures
        view_seq(r@) == tweet_media(*tw, table.entries@),
{
    let att = match &tw.attachments {
        Some(a) => a,
        None => {
            let r: Vec<MediaItem> = Vec::new();
            assert(view_seq(r@) =~= Seq::<MediaItemView>::empty());
            return r;
        },
    };
    let keys = &att.media_keys;
    let mut out: Vec<MediaItem> = Vec::new();
    let mut i: usize = 0;
    assert(view_seq(out@) =~= items_for_keys(keys@.subrange(0, 0), table.entries@));
    while i < keys.len()
        invariant
            i <= keys@.len(),
            view_seq(out@) == items_for_keys(keys@.subrange(0, i as int), table.entries@),
        decreases keys@.len() - i,
    {
        assert(keys@.subrange(0, i + 1).drop_last() =~= keys@.subrange(0, i as int));
        let ghost before = out@;
        match table.get(keys[i].as_str()) {
            Some(mo) => match media_obj_to_item(mo) {
                Some(item) => {
                    out.push(item);
                    assert(view_seq(out@) =~= view_seq(before).push(out@.last()@));
                },
                None => {},
            },
            None => {},
        }
        i += 1;
    }
    assert(keys@.subrange(0, keys@.len() as int) =~= keys@);
    out
}

// ---------------------------------------------------------------------------
// Replies and times
// ---------------------------------------------------------------------------

/// The id of the first referenced tweet of kind `replied_to`.
pub open spec fn first_reply(refs: Seq<ReferencedTweet>) -> Option<Seq<char>>
    decreases refs.len(),
{
    if refs.len() == 0 {
        None
    } else if refs[0].ref_type@ == "replied_to"@ {
        Some(refs[0].id@)
    } else {
        first_reply(refs.drop_first())
    }
}

pub open spec fn reply_id_of(tw: Tweet) -> Option<Seq<char>> {
    match tw.referenced_tweets {
        Some(refs) => first_reply(refs@),
        None => None,
    }
}

impl Tweet {
    /// The id of the tweet this one answers, if it is a reply.
    pub fn reply_to_id(&self) -> (r: Option<&str>)
        ensures
            match r {
                Some(s) => reply_id_of(*self) == Some(s@),
                None => reply_id_of(*self) is None,
            },
    {
        let refs = match &self.referenced_tweets {
            Some(refs) => refs,
            None => return None,
        };
        let mut j: usize = 0;
        assert(refs@.subrange(0, refs@.len() as int) =~= refs@);
        while j < refs.len()
            invariant
                j <= refs@.len(),
                reply_id_of(*self) == first_reply(refs@),
                first_reply(refs@) == first_reply(refs@.subrange(j as int, refs@.len() as int)),
            decreases refs@.len() - j,
        {
            assert(refs@.subrange(j as int, refs@.len() as int).drop_first() =~= refs@.subrange(
                j + 1,
                refs@.len() as int,
            ));
            assert(refs@.subrange(j as int, refs@.len() as int)[0] == refs@[j as int]);
            if str_eq(refs[j].ref_type.as_str(), "replied_to") {
                return Some(refs[j].id.as_str());
            }
            j += 1;
        }
        None
    }
}

/// The Unix milliseconds of an RFC 3339 timestamp, as chrono reads it;
/// `None` where chrono refuses the text.
pub uninterp spec fn rfc3339_millis(s: Seq<char>) -> Option<i64>;

/// chrono's `DateTime::parse_from_rfc3339`, then `timestamp_millis` of the
/// result. The contract only names the result: it depends on the text alone.
#[verifier::external_body]
fn parse_rfc3339_millis(s: &str) -> (r: Option<i64>)
    ensures
        r == rfc3339_millis(s@),
{
    chrono::DateTime::parse_from_rfc3339(s).ok().map(|dt| dt.timestamp_millis())
}

/// The time of a tweet's `created_at` field, in Unix milliseconds.
pub fn millis_from_twitter_created_at(s: &str) -> (r: Option<i64>)
    ensures
        r == rfc3339_millis(trim(s@)),
{
    let t = trim_str(s);
    parse_rfc3339_millis(t.as_str())
}

// ---------------------------------------------------------------------------
// From tweets to posts
// ---------------------------------------------------------------------------

pub open spec fn status_url(handle: Seq<char>, id: Seq<char>) -> Seq<char> {
    "https://x.com/"@ + handle + "/status/"@ + id
}

pub open spec fn reply_url(id: Seq<char>) -> Seq<char> {
    "https://x.com/i/status/"@ + id
}

/// `p` is the post that tweet `tw` of account `handle` becomes.
pub open spec fn post_of_tweet(p: PostView, tw: Tweet, entries: Seq<MediaObj>, handle: Seq<char>) -> bool {
    &&& p.id == tw.id@
    &&& p.author_handle == handle
    &&& p.text == tw.text@
    &&& p.media == tweet_media(tw, entries)
    &&& p.url == Some(status_url(handle, tw.id@))
    &&& p.posted_at_ms == match tw.created_at {
        Some(c) => rfc3339_millis(trim(c@)),
        None => None,
    }
    &&& p.reply_to_url == match reply_id_of(tw) {
        Some(id) => Some(reply_url(id)),
        None => None,
    }
}

/// The posts of a timeline response of account `handle`, in response order.
pub fn posts_from_timeline(tweets: &Vec<Tweet>, includes: Option<Includes>, handle: &str) -> (r: Vec<Post>)
    ensures
        r@.len() == tweets@.len(),
        forall|i: int|
            0 <= i < r@.len() ==> (#[trigger] r@[i]).id@ == tweets@[i].id@ && r@[i].text@
                == tweets@[i].text@ && r@[i].author_handle@ == handle@,
        forall|i: int|
            0 <= i < r@.len() ==> post_of_tweet(
                #[trigger] r@[i]@,
                tweets@[i],
                match includes {
                    Some(inc) => match inc.media {
                        Some(list) => list@,
                        None => Seq::<MediaObj>::empty(),
                    },
                    None => Seq::<MediaObj>::empty(),
                },
                handle@,
            ),
{
    let table = build_media_map(includes);
    let mut out: Vec<Post> = Vec::new();
    let mut i: usize = 0;
    while i < tweets.len()
        invariant
            i <= tweets@.len(),
            out@.len() == i,
            forall|k: int|
                0 <= k < i ==> post_of_tweet(#[trigger] out@[k]@, tweets@[k], table.entries@, handle@),
        decreases tweets@.len() - i,
    {
        let tw = &tweets[i];
        let media = media_for_tweet(tw, &table);
        let mut url = String::new();
        push_str(&mut url, "https://x.com/");
        push_str(&mut url, handle);
        push_str(&mut url, "/status/");
        push_str(&mut url, tw.id.as_str());
        let reply_to_url = match tw.reply_to_id() {
            Some(id) => {
                let mut u = String::new();
                push_str(&mut u, "https://x.com/i/status/");
                push_str(&mut u, id);
                Some(u)
            },
            None => None,
        };
        let posted_at_ms = match &tw.created_at {
            Some(c) => millis_from_twitter_created_at(c.as_str()),
            None => None,
        };
        let mut author = String::new();
        push_str(&mut author, handle);
        let p = Post {
            id: tw.id.clone(),
            author_handle: author,
            text: tw.text.clone(),
            media,
            url: Some(url),
            posted_at_ms,
            reply_to_url,
        };
        out.push(p);
        i += 1;
    }
    assert forall|i: int| 0 <= i < out@.len() implies (#[trigger] out@[i]).id@ == tweets@[i].id@
        && out@[i].text@ == tweets@[i].text@ && out@[i].author_handle@ == handle@ by {
        assert(post_of_tweet(out@[i]@, tweets@[i], table.entries@, handle@));
    }
    out
}

// ---------------------------------------------------------------------------
// Requests
// ---------------------------------------------------------------------------

pub open spec fn default_x_api_base() -> Seq<char> {
    "https://api.twitter.com"@
}

/// The API root a source uses: the given one unless it is blank, else the
/// public root; trailing slashes removed.
pub open spec fn x_api_base_of(api_base: Option<Seq<char>>) -> Seq<char> {
    let b = match api_base {
        Some(s) => if trim(s).len() > 0 {
            s
        } else {
            default_x_api_base()
        },
        None => default_x_api_base(),
    };
    strip_end(b, CharPat::Exactly('/'))
}

/// The API root a source uses.
pub fn normalize_x_api_base(api_base: Option<&str>) -> (r: String)
    ensures
        r@ == x_api_base_of(
            match api_base {
                Some(s) => Some(s@),
                None => None,
            },
        ),
{
    match api_base {
        Some(s) => {
            let t = trim_str(s);
            if t.as_str().unicode_len() > 0 {
                strip_end_str(s, CharPat::Exactly('/'))
            } else {
                strip_end_str("https://api.twitter.com", CharPat::Exactly('/'))
            }
        },
        None => strip_end_str("https://api.twitter.com", CharPat::Exactly('/')),
    }
}

/// The value of the `Authorization` header for a bearer token.
pub fn bearer_header(token: &str) -> (r: String)
    ensures
        r@ == "Bearer "@ + trim(token@),
{
    let mut s = String::new();
    push_str(&mut s, "Bearer ");
    let t = trim_str(token);
    push_str(&mut s, t.as_str());
    s
}

/// The characters that percent-encoding leaves as they are.
pub open spec fn is_unreserved(c: char) -> bool {
    ('0' <= c && c <= '9') || ('A' <= c && c <= 'Z') || ('a' <= c && c <= 'z') || c == '-' || c
        == '.' || c == '_' || c == '~'
}

/// The bytes that percent-encoding leaves as they are: ASCII letters and
/// digits, `-`, `.`, `_` and `~`.
pub open spec fn is_unreserved_byte(b: u8) -> bool {
    (48 <= b && b <= 57) || (65 <= b && b <= 90) || (97 <= b && b <= 122) || b == 45 || b == 46
        || b == 95 || b == 126
}

/// An upper-case hexadecimal digit.
pub open spec fn hex_digit(d: u8) -> char {
    if d < 10 {
        (48 + d) as char
    } else {
        (55 + d) as char
    }
}

/// Bytes percent-encoded: a kept byte stands as its character, any other as
/// `%` and two upper-case hexadecimal digits.
pub open spec fn percent_encoded(bs: Seq<u8>) -> Seq<char>
    decreases bs.len(),
{
    if bs.len() == 0 {
        Seq::empty()
    } else {
        let b = bs[0];
        (if is_unreserved_byte(b) {
            seq![b as char]
        } else {
            seq!['%', hex_digit(b / 16), hex_digit(b % 16)]
        }) + percent_encoded(bs.drop_first())
    }
}

/// A text percent-encoded byte by byte in UTF-8.
pub open spec fn url_encoded(s: Seq<char>) -> Seq<char> {
    percent_encoded(vstd::utf8::encode_utf8(s))
}

/// `urlencoding::encode`: every UTF-8 byte of the text except ASCII letters,
/// digits and `- . _ ~` becomes `%XX` with upper-case hexadecimal digits;
/// those stand as they are.
#[verifier::external_body]
fn encode_component(s: &str) -> (r: String)
    ensures
        r@ == url_encoded(s@),
{
    urlencoding::encode(s).into_owned()
}

/// Text made only of unreserved characters is percent-encoded as itself.
pub proof fn law_unreserved_text_unchanged(s: Seq<char>)
    requires
        forall|i: int| 0 <= i < s.len() ==> is_unreserved(#[trigger] s[i]),
    ensures
        url_encoded(s) == s,
    decreases s.len(),
{
    if s.len() > 0 {
        let rest = s.drop_first();
        assert forall|i: int| 0 <= i < rest.len() implies is_unreserved(#[trigger] rest[i]) by {
            assert(rest[i] == s[i + 1]);
        }
        law_unreserved_text_unchanged(rest);
        let c = s[0];
        assert(is_unreserved(c));
        let v = c as u32;
        assert(v <= 0x7f);
        assert(v as u8 == vstd::utf8::leading_byte_width_1(v)) by (bit_vector)
            requires
                v <= 0x7f,
        ;
        let bs = vstd::utf8::encode_utf8(s);
        let b = v as u8;
        assert(bs == seq![b] + vstd::utf8::encode_utf8(rest));
        assert(bs[0] == b);
        assert(bs.drop_first() =~= vstd::utf8::encode_utf8(rest));
        assert(is_unreserved_byte(b));
        assert(b as char == c);
        assert(seq![c] + rest =~= s);
    }
}

/// The URL that looks up an account by user name.
pub fn user_lookup_url(api_base: &str, username: &str) -> (r: String)
    ensures
        r@ == api_base@ + "/2/users/by/username/"@ + url_encoded(username@),
{
    let mut s = String::new();
    push_str(&mut s, api_base);
    push_str(&mut s, "/2/users/by/username/");
    let e = encode_component(username);
    push_str(&mut s, e.as_str());
    s
}

/// The URL of an account's recent tweets.
pub fn timeline_url(api_base: &str, user_id: &str) -> (r: String)
    ensures
        r@ == api_base@ + "/2/users/"@ + user_id@ + "/tweets"@,
{
    let mut s = String::new();
    push_str(&mut s, api_base);
    push_str(&mut s, "/2/users/");
    push_str(&mut s, user_id);
    push_str(&mut s, "/tweets");
    s
}

fn pair(a: &str, b: &str) -> (r: (String, String))
    ensures
        r.0@ == a@,
        r.1@ == b@,
{
    let mut x = String::new();
    push_str(&mut x, a);
    let mut y = String::new();
    push_str(&mut y, b);
    (x, y)
}

/// The query of a timeline request: up to 15 tweets with their time,
/// attachments and references, and the media they refer to.
pub fn timeline_query() -> (r: Vec<(String, String)>)
    ensures
        r@.len() == 4,
        r@[0].0@ == "max_results"@ && r@[0].1@ == "15"@,
        r@[1].0@ == "tweet.fields"@ && r@[1].1@ == "created_at,attachments,referenced_tweets"@,
        r@[2].0@ == "expansions"@ && r@[2].1@ == "attachments.media_keys"@,
        r@[3].0@ == "media.fields"@ && r@[3].1@ == "type,url,preview_image_url,variants"@,
{
    let mut r: Vec<(String, String)> = Vec::new();
    r.push(pair("max_results", "15"));
    r.push(pair("tweet.fields", "created_at,attachments,referenced_tweets"));
    r.push(pair("expansions", "attachments.media_keys"));
    r.push(pair("media.fields", "type,url,preview_image_url,variants"));
    r
}

/// The first `n` characters of `s`.
fn prefix_chars(s: &str, n: usize) -> (r: String)
    ensures
        r@ == if s@.len() <= n {
            s@
        } else {
            s@.subrange(0, n as int)
        },
{
    let v = chars_of(s);
    if v.len() <= n {
        let mut r = String::new();
        push_str(&mut r, s);
        r
    } else {
        crate::text::string_of_range(v.as_slice(), 0, n)
    }
}

/// The first `n` characters of `s` (`s.chars().take(n)`).
pub open spec fn take_chars(s: Seq<char>, n: nat) -> Seq<char> {
    if s.len() <= n {
        s
    } else {
        s.subrange(0, n as int)
    }
}

/// The error of an unsuccessful API answer: what was asked, the status, and
/// the first 500 characters of the body.
pub fn http_failure(what: &str, status: u16, body: &str) -> (r: CoreError)
    ensures
        r matches CoreError::Fetch(m) && m@ == what@ + " HTTP "@ + decimal(status as nat) + ": "@
            + take_chars(body@, 500),
{
    let mut m = String::new();
    push_str(&mut m, what);
    push_str(&mut m, " HTTP ");
    push_u64(&mut m, status as u64);
    push_str(&mut m, ": ");
    let b = prefix_chars(body, 500);
    push_str(&mut m, b.as_str());
    CoreError::Fetch(m)
}

/// The error of an answer that did not decode: what was decoded, the
/// decoder's message, and the first 200 characters of the body.
pub fn decode_failure(what: &str, err: &str, body: &str) -> (r: CoreError)
    ensures
        r matches CoreError::Fetch(m) && m@ == what@ + ": "@ + err@ + "; body="@ + take_chars(
            body@,
            200,
        ),
{
    let mut m = String::new();
    push_str(&mut m, what);
    push_str(&mut m, ": ");
    push_str(&mut m, err);
    push_str(&mut m, "; body=");
    let b = prefix_chars(body, 200);
    push_str(&mut m, b.as_str());
    CoreError::Fetch(m)
}

/// The account id of a user lookup, or the error that the account was not found.
pub fn user_id_from(data: Option<String>) -> (r: Result<String, CoreError>)
    ensures
        match data {
            Some(id) => r matches Ok(x) && x@ == id@,
            None => r matches Err(CoreError::Fetch(m)) && m@ == "X API：未找到该用户名或无权访问"@,
        },
{
    match data {
        Some(id) => Ok(id),
        None => {
            let mut m = String::new();
            push_str(&mut m, "X API：未找到该用户名或无权访问");
            Err(CoreError::Fetch(m))
        },
    }
}

/// The account name a fetch uses: trimmed, without leading `@`.
pub open spec fn fetch_handle(handle: Seq<char>) -> Seq<char> {
    strip_start(trim(handle), CharPat::Exactly('@'))
}

/// The checks before a fetch: the account name must not be blank, and a
/// bearer token must be configured. `Ok` holds the name to fetch.
pub fn validate_fetch(handle: &str, bearer_token: &str) -> (r: Result<String, CoreError>)
    ensures
        fetch_handle(handle@).len() == 0 ==> (r matches Err(CoreError::Fetch(m)) && m@
            == "empty handle"@),
        fetch_handle(handle@).len() > 0 && trim(bearer_token@).len() == 0 ==> (r matches Err(
            CoreError::Fetch(m),
        ) && m@ == "未配置 X API Bearer Token"@),
        fetch_handle(handle@).len() > 0 && trim(bearer_token@).len() > 0 ==> (r matches Ok(h)
            && h@ == fetch_handle(handle@)),
{
    let t = trim_str(handle);
    let h = strip_start_str(t.as_str(), CharPat::Exactly('@'));
    if h.as_str().unicode_len() == 0 {
        let mut m = String::new();
        push_str(&mut m, "empty handle");
        return Err(CoreError::Fetch(m));
    }
    let tok = trim_str(bearer_token);
    if tok.as_str().unicode_len() == 0 {
        let mut m = String::new();
        push_str(&mut m, "未配置 X API Bearer Token");
        return Err(CoreError::Fetch(m));
    }
    Ok(h)
}

// ---------------------------------------------------------------------------
// Sources
// ---------------------------------------------------------------------------

/// Canned posts, for running the pipeline without the API.
pub struct FakeXSource {
    pub posts: Vec<Post>,
}

impl FakeXSource {
    /// One sample post without media.
    pub fn sample() -> (r: FakeXSource)
        ensures
            r.posts@.len() == 1,
            r.posts@[0]@.id == "1234567890123456789"@,
            r.posts@[0]@.author_handle == "sample"@,
            r.posts@[0]@.text == "[fake] hello from xtg pipeline"@,
            r.posts@[0]@.media.len() == 0,
            r.posts@[0]@.url == Some("https://x.com/sample/status/1234567890123456789"@),
            r.posts@[0]@.posted_at_ms is None,
            r.posts@[0]@.reply_to_url is None,
    {
        let mut id = String::new();
        push_str(&mut id, "1234567890123456789");
        let mut author = String::new();
        push_str(&mut author, "sample");
        let mut text = String::new();
        push_str(&mut text, "[fake] hello from xtg pipeline");
        let mut url = String::new();
        push_str(&mut url, "https://x.com/sample/status/1234567890123456789");
        let media: Vec<MediaItem> = Vec::new();
        assert(view_seq(media@) =~= Seq::<MediaItemView>::empty());
        let p = Post {
            id,
            author_handle: author,
            text,
            media,
            url: Some(url),
            posted_at_ms: None,
            reply_to_url: None,
        };
        let mut posts: Vec<Post> = Vec::new();
        posts.push(p);
        FakeXSource { posts }
    }
}

/// Which X source a configuration asks for.
#[derive(Debug)]
pub enum XSourceConfig {
    /// The canned sample posts.
    Fake,
    /// The API with a bearer token (trimmed) and its root.
    Api { bearer_token: String, api_base: String },
}

/// The X source for a configuration: the sample posts when asked for, else
/// the API with the trimmed token and the root that a blank or missing base
/// turns into.
pub fn build_x_source(use_fake_x: bool, x_bearer_token: &str, x_api_base: &str) -> (r: XSourceConfig)
    ensures
        use_fake_x ==> r is Fake,
        !use_fake_x ==> (r matches XSourceConfig::Api { bearer_token, api_base } && bearer_token@
            == trim(x_bearer_token@) && api_base@ == x_api_base_of(
            if trim(x_api_base@).len() == 0 {
                None
            } else {
                Some(trim(x_api_base@))
            },
        )),
{
    if use_fake_x {
        return XSourceConfig::Fake;
    }
    let token = trim_str(x_bearer_token);
    let base = trim_str(x_api_base);
    let api_base = if base.as_str().unicode_len() == 0 {
        normalize_x_api_base(None)
    } else {
        normalize_x_api_base(Some(base.as_str()))
    };
    XSourceConfig::Api { bearer_token: token, api_base }
}

/// A post keeps its tweet's id and text word for word, and names the
/// account it was fetched for; its link is that account's status page for
/// the id.
pub proof fn law_post_keeps_tweet(p: PostView, tw: Tweet, entries: Seq<MediaObj>, handle: Seq<char>)
    requires
        post_of_tweet(p, tw, entries, handle),
    ensures
        p.id == tw.id@,
        p.text == tw.text@,
        p.author_handle == handle,
        p.url == Some("https://x.com/"@ + handle + "/status/"@ + tw.id@),
{
}

} // verus!
