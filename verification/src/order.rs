//! Ordering posts by id: numerically (as `u128`, an unreadable id counting as
//! 0) or by the id text, and a stable sort in either order.

use vstd::prelude::*;
use crate::model::{view_seq, Post, PostView};
use crate::text::{chars_of, parse_u128, parse_unsigned};

verus! {

/// How post ids are compared.
#[derive(Clone, Copy, Debug, PartialEq, Eq, Structural)]
pub enum IdOrder {
    /// By the number the id denotes; an id that is not a `u128` counts as 0.
    Numeric,
    /// By the id text, character by character (`String`'s order).
    Lexicographic,
}

/// The number an id denotes, or 0 when it is not a `u128`.
pub open spec fn num_key(id: Seq<char>) -> nat {
    match parse_unsigned(id, u128::MAX as nat) {
        Some(n) => n,
        None => 0,
    }
}

/// `a <= b` in the lexicographic order of code points.
pub open spec fn lex_le(a: Seq<char>, b: Seq<char>) -> bool
    decreases a.len(),
{
    if a.len() == 0 {
        true
    } else if b.len() == 0 {
        false
    } else if a[0] < b[0] {
        true
    } else if a[0] > b[0] {
        false
    } else {
        lex_le(a.drop_first(), b.drop_first())
    }
}

pub proof fn lemma_lex_total(a: Seq<char>, b: Seq<char>)
    ensures
        lex_le(a, b) || lex_le(b, a),
    decreases a.len(),
{
    if a.len() > 0 && b.len() > 0 && a[0] == b[0] {
        lemma_lex_total(a.drop_first(), b.drop_first());
    }
}

pub proof fn lemma_lex_trans(a: Seq<char>, b: Seq<char>, c: Seq<char>)
    requires
        lex_le(a, b),
        lex_le(b, c),
    ensures
        lex_le(a, c),
    decreases a.len(),
{
    if a.len() > 0 && b.len() > 0 && c.len() > 0 {
        if a[0] == b[0] && b[0] == c[0] {
            lemma_lex_trans(a.drop_first(), b.drop_first(), c.drop_first());
        }
    }
}

pub proof fn lemma_lex_antisym(a: Seq<char>, b: Seq<char>)
    requires
        lex_le(a, b),
        lex_le(b, a),
    ensures
        a == b,
    decreases a.len(),
{
    if a.len() > 0 && b.len() > 0 {
        lemma_lex_antisym(a.drop_first(), b.drop_first());
        assert(a =~= seq![a[0]] + a.drop_first());
        assert(b =~= seq![b[0]] + b.drop_first());
    } else {
        assert(a =~= b);
    }
}

/// `a <= b` in order `o`.
pub open spec fn id_le(o: IdOrder, a: Seq<char>, b: Seq<char>) -> bool {
    match o {
        IdOrder::Numeric => num_key(a) <= num_key(b),
        IdOrder::Lexicographic => lex_le(a, b),
    }
}

/// `a` and `b` sort as equal in order `o`.
pub open spec fn id_equiv(o: IdOrder, a: Seq<char>, b: Seq<char>) -> bool {
    id_le(o, a, b) && id_le(o, b, a)
}

pub proof fn lemma_id_total(o: IdOrder, a: Seq<char>, b: Seq<char>)
    ensures
        id_le(o, a, b) || id_le(o, b, a),
{
    if o == IdOrder::Lexicographic {
        lemma_lex_total(a, b);
    }
}

pub proof fn lemma_id_trans(o: IdOrder, a: Seq<char>, b: Seq<char>, c: Seq<char>)
    requires
        id_le(o, a, b),
        id_le(o, b, c),
    ensures
        id_le(o, a, c),
{
    if o == IdOrder::Lexicographic {
        lemma_lex_trans(a, b, c);
    }
}

/// Whether `a <= b` in the lexicographic order.
pub fn lex_le_exec(a: &[char], b: &[char]) -> (r: bool)
    ensures
        r == lex_le(a@, b@),
{
    let mut i: usize = 0;
    assert(a@.subrange(0, a@.len() as int) =~= a@);
    assert(b@.subrange(0, b@.len() as int) =~= b@);
    loop
        invariant
            i <= a@.len(),
            i <= b@.len(),
            lex_le(a@, b@) == lex_le(
                a@.subrange(i as int, a@.len() as int),
                b@.subrange(i as int, b@.len() as int),
            ),
        decreases a@.len() - i,
    {
        let ghost sa = a@.subrange(i as int, a@.len() as int);
        let ghost sb = b@.subrange(i as int, b@.len() as int);
        if i == a.len() {
            return true;
        }
        if i == b.len() {
            return false;
        }
        assert(sa[0] == a@[i as int] && sb[0] == b@[i as int]);
        if a[i] < b[i] {
            return true;
        }
        if a[i] > b[i] {
            return false;
        }
        assert(sa.drop_first() =~= a@.subrange(i + 1, a@.len() as int));
        assert(sb.drop_first() =~= b@.subrange(i + 1, b@.len() as int));
        i += 1;
    }
}

/// Whether id `a` sorts at or before id `b` in order `o`.
pub fn id_le_exec(o: IdOrder, a: &str, b: &str) -> (r: bool)
    ensures
        r == id_le(o, a@, b@),
{
    match o {
        IdOrder::Numeric => {
            let x = match parse_u128(a) {
                Some(n) => n,
                None => 0,
            };
            let y = match parse_u128(b) {
                Some(n) => n,
                None => 0,
            };
            x <= y
        },
        IdOrder::Lexicographic => {
            let va = chars_of(a);
            let vb = chars_of(b);
            lex_le_exec(va.as_slice(), vb.as_slice())
        },
    }
}

/// The posts of `s` whose id sorts as equal to `k`, in their order in `s`.
pub open spec fn class_of(s: Seq<PostView>, o: IdOrder, k: Seq<char>) -> Seq<PostView>
    decreases s.len(),
{
    if s.len() == 0 {
        Seq::empty()
    } else {
        let prev = class_of(s.drop_last(), o, k);
        if id_equiv(o, s.last().id, k) {
            prev.push(s.last())
        } else {
            prev
        }
    }
}

/// The ids of `s` never decrease in order `o`.
pub open spec fn sorted_by_id(s: Seq<PostView>, o: IdOrder) -> bool {
    forall|i: int, j: int| 0 <= i < j < s.len() ==> id_le(o, #[trigger] s[i].id, #[trigger] s[j].id)
}

/// `r` is `s` sorted stably by id in order `o`: ids never decrease, and the
/// posts whose ids sort as equal keep their order. Together these fix `r`.
pub open spec fn is_stable_sort(r: Seq<PostView>, s: Seq<PostView>, o: IdOrder) -> bool {
    &&& r.len() == s.len()
    &&& sorted_by_id(r, o)
    &&& forall|k: Seq<char>| #[trigger] class_of(r, o, k) == class_of(s, o, k)
}

pub proof fn lemma_class_concat(a: Seq<PostView>, b: Seq<PostView>, o: IdOrder, k: Seq<char>)
    ensures
        class_of(a + b, o, k) == class_of(a, o, k) + class_of(b, o, k),
    decreases b.len(),
{
    if b.len() == 0 {
        assert(a + b =~= a);
        assert(class_of(a, o, k) + class_of(b, o, k) =~= class_of(a, o, k));
    } else {
        lemma_class_concat(a, b.drop_last(), o, k);
        assert((a + b).drop_last() =~= a + b.drop_last());
        assert((a + b).last() == b.last());
        if id_equiv(o, b.last().id, k) {
            assert(class_of(a, o, k) + class_of(b, o, k) =~= (class_of(a, o, k) + class_of(
                b.drop_last(),
                o,
                k,
            )).push(b.last()));
        }
    }
}

pub proof fn lemma_class_none(s: Seq<PostView>, o: IdOrder, k: Seq<char>)
    requires
        forall|j: int| 0 <= j < s.len() ==> !id_equiv(o, #[trigger] s[j].id, k),
    ensures
        class_of(s, o, k) == Seq::<PostView>::empty(),
    decreases s.len(),
{
    if s.len() > 0 {
        assert(forall|j: int|
            0 <= j < s.drop_last().len() ==> s.drop_last()[j] == #[trigger] s[j]);
        lemma_class_none(s.drop_last(), o, k);
    }
}

pub proof fn lemma_class_single(x: PostView, o: IdOrder, k: Seq<char>)
    ensures
        class_of(seq![x], o, k) == if id_equiv(o, x.id, k) {
            seq![x]
        } else {
            Seq::<PostView>::empty()
        },
{
    assert(seq![x].drop_last() =~= Seq::<PostView>::empty());
    assert(class_of(Seq::<PostView>::empty(), o, k) =~= Seq::<PostView>::empty());
    assert(Seq::<PostView>::empty().push(x) =~= seq![x]);
}

/// Inserting `x` into sorted `s` at `pos`, where everything before `pos` sorts
/// at or before `x` and everything from `pos` on sorts strictly after it,
/// keeps `s` sorted and adds `x` at the end of its class.
pub proof fn lemma_insert_sorted(s: Seq<PostView>, x: PostView, pos: int, o: IdOrder)
    requires
        0 <= pos <= s.len(),
        sorted_by_id(s, o),
        forall|j: int| 0 <= j < pos ==> id_le(o, #[trigger] s[j].id, x.id),
        forall|j: int| pos <= j < s.len() ==> !id_le(o, #[trigger] s[j].id, x.id),
    ensures
        sorted_by_id(s.insert(pos, x), o),
        forall|k: Seq<char>|
            #[trigger] class_of(s.insert(pos, x), o, k) == class_of(s.push(x), o, k),
{
    let t = s.insert(pos, x);
    assert forall|j: int| pos <= j < s.len() implies id_le(o, x.id, #[trigger] s[j].id) by {
        lemma_id_total(o, x.id, s[j].id);
    }
    assert forall|i: int, j: int| 0 <= i < j < t.len() implies id_le(o, #[trigger] t[i].id, #[trigger] t[j].id) by {
        if i < pos && j == pos {
        } else if i < pos && j > pos {
            lemma_id_trans(o, s[i].id, x.id, s[j - 1].id);
        } else if i == pos {
        } else if j < pos {
        } else {
        }
    }
    assert forall|k: Seq<char>| #[trigger] class_of(t, o, k) == class_of(s.push(x), o, k) by {
        let a = s.subrange(0, pos);
        let b = s.subrange(pos, s.len() as int);
        assert(t =~= a + seq![x] + b);
        assert(s =~= a + b);
        assert(s.push(x) =~= a + b + seq![x]);
        lemma_class_concat(a + seq![x], b, o, k);
        lemma_class_concat(a, seq![x], o, k);
        lemma_class_concat(a + b, seq![x], o, k);
        lemma_class_concat(a, b, o, k);
        lemma_class_single(x, o, k);
        if id_equiv(o, x.id, k) {
            assert forall|j: int| 0 <= j < b.len() implies !id_equiv(o, #[trigger] b[j].id, k) by {
                assert(b[j] == s[pos + j]);
                if id_equiv(o, b[j].id, k) {
                    lemma_id_trans(o, b[j].id, k, x.id);
                }
            }
            lemma_class_none(b, o, k);
            assert(class_of(a, o, k) + seq![x] + Seq::<PostView>::empty() =~= class_of(a, o, k)
                + seq![x]);
            assert(class_of(a, o, k) + Seq::<PostView>::empty() =~= class_of(a, o, k));
        } else {
            assert(class_of(a, o, k) + Seq::<PostView>::empty() =~= class_of(a, o, k));
            assert(class_of(a + b, o, k) + Seq::<PostView>::empty() =~= class_of(a + b, o, k));
        }
    }
}

/// `posts` sorted stably by id in order `o`.
pub fn sort_posts_by_id(posts: Vec<Post>, o: IdOrder) -> (r: Vec<Post>)
    ensures
        is_stable_sort(view_seq(r@), view_seq(posts@), o),
{
    let ghost orig = view_seq(posts@);
    let mut input = posts;
    let mut out: Vec<Post> = Vec::new();
    let ghost mut done: int = 0;
    while input.len() > 0
        invariant
            0 <= done <= orig.len(),
            view_seq(input@) == orig.subrange(done, orig.len() as int),
            out@.len() == done,
            sorted_by_id(view_seq(out@), o),
            forall|k: Seq<char>|
                #[trigger] class_of(view_seq(out@), o, k) == class_of(orig.subrange(0, done), o, k),
        decreases input@.len(),
    {
        let ghost before = view_seq(out@);
        let ghost old_in = input@;
        assert(view_seq(old_in).len() == old_in.len());
        assert(done < orig.len());
        let x = input.remove(0);
        assert(input@ =~= old_in.subrange(1, old_in.len() as int));
        assert(view_seq(old_in)[0] == old_in[0]@);
        assert(orig.subrange(done, orig.len() as int)[0] == orig[done]);
        assert(x@ == orig[done]);
        assert forall|j: int| 0 <= j < input@.len() implies #[trigger] view_seq(input@)[j] == orig[done + 1 + j] by {
            assert(view_seq(old_in)[j + 1] == old_in[j + 1]@);
            assert(orig.subrange(done, orig.len() as int)[j + 1] == orig[done + 1 + j]);
        }
        assert(view_seq(input@) =~= orig.subrange(done + 1, orig.len() as int));
        let mut pos: usize = 0;
        while pos < out.len() && id_le_exec(o, out[pos].id.as_str(), x.id.as_str())
            invariant
                pos <= out@.len(),
                before == view_seq(out@),
                forall|j: int| 0 <= j < pos ==> id_le(o, #[trigger] before[j].id, x@.id),
            decreases out@.len() - pos,
        {
            pos += 1;
        }
        assert forall|j: int| pos <= j < before.len() implies !id_le(o, #[trigger] before[j].id, x@.id) by {
            if j > pos && id_le(o, before[j].id, x@.id) {
                lemma_id_trans(o, before[pos as int].id, before[j].id, x@.id);
            }
        }
        proof {
            lemma_insert_sorted(before, x@, pos as int, o);
        }
        out.insert(pos, x);
        assert(view_seq(out@) =~= before.insert(pos as int, orig[done]));
        assert(orig.subrange(0, done + 1) =~= orig.subrange(0, done).push(orig[done]));
        assert forall|k: Seq<char>| #[trigger] class_of(view_seq(out@), o, k) == class_of(orig.subrange(0, done + 1), o, k) by {
            assert(before.push(orig[done]).drop_last() =~= before);
            assert(before.push(orig[done]).last() == orig[done]);
            assert(orig.subrange(0, done + 1).drop_last() =~= orig.subrange(0, done));
            assert(orig.subrange(0, done + 1).last() == orig[done]);
            assert(class_of(before.insert(pos as int, orig[done]), o, k) == class_of(
                before.push(orig[done]),
                o,
                k,
            ));
            assert(class_of(before, o, k) == class_of(orig.subrange(0, done), o, k));
        }
        proof {
            done = done + 1;
        }
    }
    assert(orig.subrange(0, done) =~= orig);
    out
}

} // verus!
