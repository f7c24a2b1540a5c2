//! Which posts a polling round relays, and which post the "latest" command
//! answers with.

use vstd::prelude::*;
use crate::model::{id_time_ms, view_seq, AiJobConfig, Post, PostView};
use crate::order::{class_of, id_equiv, is_stable_sort, lemma_lex_total, num_key, sort_posts_by_id, IdOrder};
use crate::text::{chars_of, contains, contains_chars, parse_u128, push_str, trim, trim_str};

verus! {

/// Whether post id `a` denotes a larger number than `b` (an id that is not a
/// `u128` counts as 0).
pub fn bigger_id(a: &str, b: &str) -> (r: bool)
    ensures
        r == (num_key(a@) > num_key(b@)),
{
    let x = match parse_u128(a) {
        Some(n) => n,
        None => 0,
    };
    let y = match parse_u128(b) {
        Some(n) => n,
        None => 0,
    };
    x > y
}

/// Whether a post is new for a round: its id is larger than the account's
/// cursor (when there is one), and, when polling has a start time, the time
/// in its id (when it has one) is not before that start.
pub open spec fn is_new_post(id: Seq<char>, last: Option<Seq<char>>, poll_started_at_ms: i64) -> bool {
    &&& match last {
        Some(l) => num_key(id) > num_key(l),
        None => true,
    }
    &&& !(poll_started_at_ms > 0 && (id_time_ms(id) matches Some(t) && t < poll_started_at_ms))
}

/// The posts of `s` that are new, in their order in `s`.
pub open spec fn keep_new(s: Seq<PostView>, last: Option<Seq<char>>, poll_started_at_ms: i64) -> Seq<PostView>
    decreases s.len(),
{
    if s.len() == 0 {
        Seq::empty()
    } else {
        let prev = keep_new(s.drop_last(), last, poll_started_at_ms);
        if is_new_post(s.last().id, last, poll_started_at_ms) {
            prev.push(s.last())
        } else {
            prev
        }
    }
}

/// Whether the post with id `id` is new.
pub fn post_is_new(id: &str, last: Option<&str>, poll_started_at_ms: i64) -> (r: bool)
    ensures
        r == is_new_post(
            id@,
            match last {
                Some(l) => Some(l@),
                None => None,
            },
            poll_started_at_ms,
        ),
{
    let after_cursor = match last {
        Some(l) => bigger_id(id, l),
        None => true,
    };
    if !after_cursor {
        return false;
    }
    if poll_started_at_ms > 0 {
        match crate::model::tweet_id_to_unix_ms(id) {
            Some(t) => {
                if t < poll_started_at_ms {
                    return false;
                }
            },
            None => {},
        }
    }
    true
}

/// The new posts among `posts`, ordered by id text (stably).
pub fn select_new_posts(posts: Vec<Post>, last: Option<&str>, poll_started_at_ms: i64) -> (r: Vec<Post>)
    ensures
        is_stable_sort(
            view_seq(r@),
            keep_new(
                view_seq(posts@),
                match last {
                    Some(l) => Some(l@),
                    None => None,
                },
                poll_started_at_ms,
            ),
            IdOrder::Lexicographic,
        ),
{
    let ghost lastv = match last {
        Some(l) => Some(l@),
        None => None,
    };
    let ghost orig = view_seq(posts@);
    let mut input = posts;
    let mut kept: Vec<Post> = Vec::new();
    let ghost mut done: int = 0;
    while input.len() > 0
        invariant
            0 <= done <= orig.len(),
            view_seq(input@) == orig.subrange(done, orig.len() as int),
            view_seq(kept@) == keep_new(orig.subrange(0, done), lastv, poll_started_at_ms),
            lastv == match last {
                Some(l) => Some(l@),
                None => None::<Seq<char>>,
            },
        decreases input@.len(),
    {
        let ghost old_in = input@;
        let ghost old_kept = view_seq(kept@);
        assert(view_seq(old_in).len() == old_in.len());
        assert(done < orig.len());
        let p = input.remove(0);
        assert(view_seq(old_in)[0] == old_in[0]@);
        assert(orig.subrange(done, orig.len() as int)[0] == orig[done]);
        assert(p@ == orig[done]);
        assert forall|j: int| 0 <= j < input@.len() implies #[trigger] view_seq(input@)[j] == orig[done + 1 + j] by {
            assert(view_seq(old_in)[j + 1] == old_in[j + 1]@);
            assert(orig.subrange(done, orig.len() as int)[j + 1] == orig[done + 1 + j]);
        }
        assert(view_seq(input@) =~= orig.subrange(done + 1, orig.len() as int));
        assert(orig.subrange(0, done + 1).drop_last() =~= orig.subrange(0, done));
        assert(orig.subrange(0, done + 1).last() == orig[done]);
        if post_is_new(p.id.as_str(), last, poll_started_at_ms) {
            kept.push(p);
            assert(view_seq(kept@) =~= old_kept.push(orig[done]));
        }
        proof {
            done = done + 1;
        }
    }
    assert(orig.subrange(0, done) =~= orig);
    sort_posts_by_id(kept, IdOrder::Lexicographic)
}

/// Index `i` holds the largest id of `s` (numerically), and no later post has
/// an equally large one.
pub open spec fn is_last_max(s: Seq<PostView>, i: int) -> bool {
    &&& 0 <= i < s.len()
    &&& forall|j: int| 0 <= j < s.len() ==> num_key(#[trigger] s[j].id) <= num_key(s[i].id)
    &&& forall|j: int| i < j < s.len() ==> num_key(#[trigger] s[j].id) < num_key(s[i].id)
}

/// The post with the largest id (numerically); of equal ones, the last.
pub fn biggest_post(posts: Vec<Post>) -> (r: Option<Post>)
    ensures
        posts@.len() == 0 <==> r is None,
        r matches Some(p) ==> exists|i: int|
            is_last_max(view_seq(posts@), i) && #[trigger] view_seq(posts@)[i] == p@,
{
    if posts.len() == 0 {
        return None;
    }
    let ghost s = view_seq(posts@);
    let mut best: usize = 0;
    let mut best_key: u128 = match parse_u128(posts[0].id.as_str()) {
        Some(n) => n,
        None => 0,
    };
    let mut i: usize = 1;
    assert(s[0] == posts@[0]@);
    while i < posts.len()
        invariant
            s == view_seq(posts@),
            1 <= i <= posts@.len(),
            best < i,
            best_key == num_key(s[best as int].id),
            forall|j: int| 0 <= j < i ==> num_key(#[trigger] s[j].id) <= best_key,
            forall|j: int| best < j < i ==> num_key(#[trigger] s[j].id) < best_key,
        decreases posts@.len() - i,
    {
        assert(s[i as int] == posts@[i as int]@);
        let k = match parse_u128(posts[i].id.as_str()) {
            Some(n) => n,
            None => 0,
        };
        if k >= best_key {
            best = i;
            best_key = k;
        }
        i += 1;
    }
    let mut posts = posts;
    let p = posts.remove(best);
    assert(is_last_max(s, best as int));
    Some(p)
}

/// Whether posts are translated before they are relayed: translation is
/// enabled and an API key (not blank) is configured.
pub open spec fn translation_wanted(enabled: bool, api_key: Seq<char>) -> bool {
    enabled && trim(api_key).len() > 0
}

/// Whether a job translates posts before relaying them.
pub fn should_translate(ai: &AiJobConfig) -> (r: bool)
    ensures
        r == translation_wanted(ai.enabled, ai.api_key@),
{
    if !ai.enabled {
        return false;
    }
    let k = trim_str(ai.api_key.as_str());
    k.as_str().unicode_len() > 0
}

/// Whether a chat message asks for the latest posts: it was not sent by this
/// account, it mentions this account, and its text holds "最新".
pub fn is_latest_command(outgoing: bool, mentioned: bool, text: &str) -> (r: bool)
    ensures
        r == (!outgoing && mentioned && contains(text@, "最新"@)),
{
    if outgoing || !mentioned {
        return false;
    }
    let t = chars_of(text);
    let w = chars_of("最新");
    contains_chars(t.as_slice(), w.as_slice())
}

/// The name of the scratch directory for answering "latest" with a post of
/// account `handle`.
pub fn latest_dir_name(handle: &str, post_id: &str) -> (r: String)
    ensures
        r@ == "latest_"@ + handle@ + "_"@ + post_id@,
{
    let mut s = String::new();
    push_str(&mut s, "latest_");
    push_str(&mut s, handle);
    push_str(&mut s, "_");
    push_str(&mut s, post_id);
    s
}

/// Which posts are new: one whose id dates from before a positive polling
/// start is never new, whatever the cursor; one at or below the cursor is
/// never new; any other is new.
pub proof fn law_which_posts_are_new(id: Seq<char>, last: Option<Seq<char>>, start: i64)
    ensures
        (start > 0 && (id_time_ms(id) matches Some(t) && t < start)) ==> !is_new_post(id, last, start),
        (last matches Some(l) && num_key(id) <= num_key(l)) ==> !is_new_post(id, last, start),
        (!(start > 0 && (id_time_ms(id) matches Some(t) && t < start)) && (last matches Some(l)
            ==> num_key(id) > num_key(l))) ==> is_new_post(id, last, start),
{
}

proof fn lemma_keep_new_members(ps: Seq<PostView>, last: Option<Seq<char>>, start: i64, x: PostView)
    ensures
        keep_new(ps, last, start).contains(x) <==> (ps.contains(x) && is_new_post(x.id, last, start)),
    decreases ps.len(),
{
    if ps.len() > 0 {
        let pre = ps.drop_last();
        lemma_keep_new_members(pre, last, start, x);
        let k = keep_new(pre, last, start);
        assert(ps =~= pre.push(ps.last()));
        if ps.contains(x) && x != ps.last() {
            let j = choose|j: int| 0 <= j < ps.len() && ps[j] == x;
            assert(j < ps.len() - 1);
            assert(pre[j] == x);
        }
        if pre.contains(x) {
            let j = choose|j: int| 0 <= j < pre.len() && pre[j] == x;
            assert(ps[j] == x);
        }
        if is_new_post(ps.last().id, last, start) {
            assert(keep_new(ps, last, start) == k.push(ps.last()));
            if k.push(ps.last()).contains(x) && x != ps.last() {
                let j = choose|j: int| 0 <= j < k.push(ps.last()).len() && k.push(ps.last())[j] == x;
                assert(k[j] == x);
            }
            if k.contains(x) {
                let j = choose|j: int| 0 <= j < k.len() && k[j] == x;
                assert(k.push(ps.last())[j] == x);
            }
            assert(k.push(ps.last())[k.len() as int] == ps.last());
        }
    }
}

proof fn lemma_class_members(s: Seq<PostView>, o: IdOrder, x: PostView)
    requires
        id_equiv(o, x.id, x.id),
    ensures
        class_of(s, o, x.id).contains(x) <==> s.contains(x),
    decreases s.len(),
{
    if s.len() > 0 {
        let pre = s.drop_last();
        lemma_class_members(pre, o, x);
        let c = class_of(pre, o, x.id);
        if s.contains(x) && x != s.last() {
            let j = choose|j: int| 0 <= j < s.len() && s[j] == x;
            assert(pre[j] == x);
        }
        if pre.contains(x) {
            let j = choose|j: int| 0 <= j < pre.len() && pre[j] == x;
            assert(s[j] == x);
        }
        if x == s.last() {
            assert(s[s.len() - 1] == x);
        }
        if id_equiv(o, s.last().id, x.id) {
            if c.push(s.last()).contains(x) && x != s.last() {
                let j = choose|j: int| 0 <= j < c.push(s.last()).len() && c.push(s.last())[j] == x;
                assert(c[j] == x);
            }
            if c.contains(x) {
                let j = choose|j: int| 0 <= j < c.len() && c[j] == x;
                assert(c.push(s.last())[j] == x);
            }
            assert(c.push(s.last())[c.len() as int] == s.last());
        }
    }
}

/// What a round relays for an account, once sorted: each post came in the
/// fetch, lies above the cursor when there is one, and does not date from
/// before a positive polling start; and every fetched post that meets both
/// is among them.
pub proof fn law_relayed_posts(ps: Seq<PostView>, last: Option<Seq<char>>, start: i64, r: Seq<PostView>)
    requires
        is_stable_sort(r, keep_new(ps, last, start), IdOrder::Lexicographic),
    ensures
        forall|i: int|
            0 <= i < r.len() ==> {
                &&& ps.contains(#[trigger] r[i])
                &&& (last matches Some(l) ==> num_key(r[i].id) > num_key(l))
                &&& !(start > 0 && (id_time_ms(r[i].id) matches Some(t) && t < start))
            },
        forall|j: int|
            0 <= j < ps.len() && (last matches Some(l) ==> num_key(ps[j].id) > num_key(l)) && !(start
                > 0 && (id_time_ms(ps[j].id) matches Some(t) && t < start)) ==> r.contains(#[trigger] ps[j]),
{
    let o = IdOrder::Lexicographic;
    let kn = keep_new(ps, last, start);
    assert forall|i: int| 0 <= i < r.len() implies {
        &&& ps.contains(#[trigger] r[i])
        &&& (last matches Some(l) ==> num_key(r[i].id) > num_key(l))
        &&& !(start > 0 && (id_time_ms(r[i].id) matches Some(t) && t < start))
    } by {
        let x = r[i];
        lemma_lex_total(x.id, x.id);
        assert(r.contains(x));
        lemma_class_members(r, o, x);
        assert(class_of(r, o, x.id) == class_of(kn, o, x.id));
        lemma_class_members(kn, o, x);
        lemma_keep_new_members(ps, last, start, x);
    }
    assert forall|j: int|
        0 <= j < ps.len() && (last matches Some(l) ==> num_key(ps[j].id) > num_key(l)) && !(start > 0
            && (id_time_ms(ps[j].id) matches Some(t) && t < start)) implies r.contains(#[trigger] ps[j]) by {
        let x = ps[j];
        assert(ps.contains(x));
        lemma_lex_total(x.id, x.id);
        lemma_keep_new_members(ps, last, start, x);
        lemma_class_members(kn, o, x);
        assert(class_of(r, o, x.id) == class_of(kn, o, x.id));
        lemma_class_members(r, o, x);
    }
}

} // verus!
