//! The cursor store: for each X account, the id of the last post relayed.
//! The file that holds it is read and written by the caller; this is its
//! content.

use vstd::prelude::*;
use crate::settings::{key_lookup, keys_unique};
use crate::text::str_eq;

verus! {

/// The cursors of the accounts, as a map from account to post id.
pub open spec fn cursor_map(entries: Seq<(String, String)>) -> Map<Seq<char>, Seq<char>> {
    Map::new(
        |k: Seq<char>| key_lookup(entries, k) is Some,
        |k: Seq<char>| key_lookup(entries, k)->0@,
    )
}

/// The cursor of an account in a cursor map.
pub open spec fn cursor_of(m: Map<Seq<char>, Seq<char>>, handle: Seq<char>) -> Option<Seq<char>> {
    if m.contains_key(handle) {
        Some(m[handle])
    } else {
        None
    }
}

/// The last relayed post id of each account, and the file it is kept in.
pub struct TweetStore {
    path: String,
    cursors: Vec<(String, String)>,
}

impl View for TweetStore {
    type V = Map<Seq<char>, Seq<char>>;

    closed spec fn view(&self) -> Map<Seq<char>, Seq<char>> {
        cursor_map(self.cursors@)
    }
}

proof fn lemma_lookup_push_s(s: Seq<(String, String)>, e: (String, String), k: Seq<char>)
    ensures
        key_lookup(s.push(e), k) == if e.0@ == k {
            Some(e.1)
        } else {
            key_lookup(s, k)
        },
{
    assert(s.push(e).drop_last() =~= s);
}

impl TweetStore {
    #[verifier::type_invariant]
    closed spec fn well_formed(self) -> bool {
        keys_unique(self.cursors@)
    }

    /// The file the cursors are kept in.
    pub closed spec fn file(self) -> Seq<char> {
        self.path@
    }

    /// A store at `path` with no cursors.
    pub fn empty(path: String) -> (r: TweetStore)
        ensures
            r@ == Map::<Seq<char>, Seq<char>>::empty(),
            r.file() == path@,
    {
        let r = TweetStore { path, cursors: Vec::new() };
        assert(r@ =~= Map::<Seq<char>, Seq<char>>::empty());
        r
    }

    /// The file the cursors are kept in.
    pub fn path(&self) -> (r: &str)
        ensures
            r@ == self.file(),
    {
        self.path.as_str()
    }

    /// The cursor of `handle`.
    pub fn last_id(&self, handle: &str) -> (r: Option<String>)
        ensures
            match r {
                Some(id) => cursor_of(self@, handle@) == Some(id@),
                None => cursor_of(self@, handle@) is None,
            },
    {
        let ghost c = self.cursors@;
        let mut j: usize = self.cursors.len();
        assert(c.subrange(0, j as int) =~= c);
        while j > 0
            invariant
                j <= c.len(),
                c == self.cursors@,
                key_lookup(c, handle@) == key_lookup(c.subrange(0, j as int), handle@),
            decreases j,
        {
            assert(c.subrange(0, j as int).drop_last() =~= c.subrange(0, j - 1));
            if str_eq(self.cursors[j - 1].0.as_str(), handle) {
                return Some(self.cursors[j - 1].1.clone());
            }
            j -= 1;
        }
        assert(c.subrange(0, 0) =~= Seq::<(String, String)>::empty());
        None
    }

    /// Records `tweet_id` as the cursor of `handle`; other cursors stay.
    pub fn set_last_id(&mut self, handle: &str, tweet_id: &str)
        ensures
            final(self)@ == old(self)@.insert(handle@, tweet_id@),
            final(self).file() == old(self).file(),
    {
        proof {
            use_type_invariant(&*self);
        }
        let ghost c = self.cursors@;
        let mut kept: Vec<(String, String)> = Vec::new();
        let mut i: usize = 0;
        while i < self.cursors.len()
            invariant
                i <= c.len(),
                c == self.cursors@,
                keys_unique(c),
                keys_unique(kept@),
                forall|j: int| 0 <= j < kept@.len() ==> (#[trigger] kept@[j]).0@ != handle@,
                forall|j: int| 0 <= j < kept@.len() ==> exists|m: int| 0 <= m < i && (#[trigger] kept@[j]).0@ == c[m].0@,
                forall|k: Seq<char>|
                    k != handle@ ==> #[trigger] key_lookup(kept@, k) == key_lookup(c.subrange(0, i as int), k),
            decreases c.len() - i,
        {
            let e = &self.cursors[i];
            let ghost old_kept = kept@;
            assert(c.subrange(0, i + 1) =~= c.subrange(0, i as int).push(c[i as int]));
            proof {
                assert forall|k: Seq<char>| #[trigger] key_lookup(c.subrange(0, i as int).push(c[i as int]), k) == (if c[i as int].0@ == k {
                    Some(c[i as int].1)
                } else {
                    key_lookup(c.subrange(0, i as int), k)
                }) by {
                    lemma_lookup_push_s(c.subrange(0, i as int), c[i as int], k);
                }
            }
            if !str_eq(e.0.as_str(), handle) {
                let pair = (e.0.clone(), e.1.clone());
                proof {
                    assert forall|j: int| 0 <= j < old_kept.len() implies (#[trigger] old_kept[j]).0@ != pair.0@ by {
                        let m = choose|m: int| 0 <= m < i && old_kept[j].0@ == c[m].0@;
                        assert(c[m].0@ != c[i as int].0@);
                    }
                    assert forall|k: Seq<char>| #[trigger] key_lookup(old_kept.push(pair), k) == (if pair.0@ == k {
                        Some(pair.1)
                    } else {
                        key_lookup(old_kept, k)
                    }) by {
                        lemma_lookup_push_s(old_kept, pair, k);
                    }
                }
                kept.push(pair);
                assert forall|j: int| 0 <= j < kept@.len() implies exists|m: int| 0 <= m < i + 1 && (#[trigger] kept@[j]).0@ == c[m].0@ by {
                    if j < old_kept.len() {
                        assert(kept@[j] == old_kept[j]);
                    } else {
                        assert(kept@[j].0@ == c[i as int].0@);
                    }
                }
            }
            i += 1;
        }
        assert(c.subrange(0, c.len() as int) =~= c);
        let ghost before = kept@;
        let mut key = String::new();
        crate::text::push_str(&mut key, handle);
        let mut val = String::new();
        crate::text::push_str(&mut val, tweet_id);
        let pair = (key, val);
        proof {
            assert forall|k: Seq<char>| #[trigger] key_lookup(before.push(pair), k) == (if pair.0@ == k {
                Some(pair.1)
            } else {
                key_lookup(before, k)
            }) by {
                lemma_lookup_push_s(before, pair, k);
            }
        }
        kept.push(pair);
        assert(keys_unique(kept@)) by {
            assert forall|a: int, b: int| 0 <= a < b < kept@.len() implies (#[trigger] kept@[a]).0@ != (#[trigger] kept@[b]).0@ by {
                if b == kept@.len() - 1 {
                    assert(kept@[a] == before[a]);
                } else {
                    assert(kept@[a] == before[a] && kept@[b] == before[b]);
                }
            }
        }
        self.cursors = kept;
        assert(self@ =~= old(self)@.insert(handle@, tweet_id@));
    }

    /// The store at `path` with the cursors `entries`; of several entries for
    /// one account, the last counts.
    pub fn from_entries(path: String, entries: Vec<(String, String)>) -> (r: TweetStore)
        ensures
            r@ == cursor_map(entries@),
            r.file() == path@,
    {
        let mut s = TweetStore::empty(path);
        let mut i: usize = 0;
        assert(s@ =~= cursor_map(entries@.subrange(0, 0)));
        while i < entries.len()
            invariant
                i <= entries@.len(),
                s@ == cursor_map(entries@.subrange(0, i as int)),
                s.file() == path@,
            decreases entries@.len() - i,
        {
            s.set_last_id(entries[i].0.as_str(), entries[i].1.as_str());
            let ghost pre = entries@.subrange(0, i as int);
            assert(entries@.subrange(0, i + 1) =~= pre.push(entries@[i as int]));
            assert forall|k: Seq<char>| #[trigger] key_lookup(pre.push(entries@[i as int]), k) == (if entries@[i as int].0@ == k {
                Some(entries@[i as int].1)
            } else {
                key_lookup(pre, k)
            }) by {
                lemma_lookup_push_s(pre, entries@[i as int], k);
            }
            assert(s@ =~= cursor_map(entries@.subrange(0, i + 1)));
            i += 1;
        }
        assert(entries@.subrange(0, entries@.len() as int) =~= entries@);
        s
    }

    /// The cursors as entries, one per account, to be written out.
    pub fn entries(&self) -> (r: Vec<(String, String)>)
        ensures
            cursor_map(r@) == self@,
            keys_unique(r@),
    {
        proof {
            use_type_invariant(self);
        }
        let mut r: Vec<(String, String)> = Vec::new();
        let mut i: usize = 0;
        while i < self.cursors.len()
            invariant
                i <= self.cursors@.len(),
                r@.len() == i,
                forall|j: int| 0 <= j < i ==> (#[trigger] r@[j]).0@ == self.cursors@[j].0@ && r@[j].1@ == self.cursors@[j].1@,
            decreases self.cursors@.len() - i,
        {
            r.push((self.cursors[i].0.clone(), self.cursors[i].1.clone()));
            i += 1;
        }
        proof {
            lemma_same_views_same_map(r@, self.cursors@);
        }
        r
    }
}

proof fn lemma_same_views_same_map(a: Seq<(String, String)>, b: Seq<(String, String)>)
    requires
        a.len() == b.len(),
        forall|j: int| 0 <= j < a.len() ==> (#[trigger] a[j]).0@ == b[j].0@ && a[j].1@ == b[j].1@,
    ensures
        cursor_map(a) == cursor_map(b),
        keys_unique(b) ==> keys_unique(a),
{
    assert forall|k: Seq<char>| #![auto] key_lookup(a, k) is Some == key_lookup(b, k) is Some && (key_lookup(a, k) is Some ==> key_lookup(a, k)->0@ == key_lookup(b, k)->0@) by {
        lemma_lookup_same_views(a, b, k);
    }
    assert(cursor_map(a) =~= cursor_map(b));
}

proof fn lemma_lookup_same_views(a: Seq<(String, String)>, b: Seq<(String, String)>, k: Seq<char>)
    requires
        a.len() == b.len(),
        forall|j: int| 0 <= j < a.len() ==> (#[trigger] a[j]).0@ == b[j].0@ && a[j].1@ == b[j].1@,
    ensures
        key_lookup(a, k) is Some == key_lookup(b, k) is Some,
        key_lookup(a, k) is Some ==> key_lookup(a, k)->0@ == key_lookup(b, k)->0@,
    decreases a.len(),
{
    if a.len() > 0 {
        assert(a.last() == a[a.len() - 1]);
        assert(forall|j: int| 0 <= j < a.drop_last().len() ==> a.drop_last()[j] == #[trigger] a[j]);
        assert(forall|j: int| 0 <= j < b.drop_last().len() ==> b.drop_last()[j] == #[trigger] b[j]);
        lemma_lookup_same_views(a.drop_last(), b.drop_last(), k);
    }
}

/// A read after a write: after `set_last_id(h, id)`, the cursor of `h` is
/// `id` and every other account's cursor is what it was.
pub proof fn law_read_after_write(before: TweetStore, after: TweetStore, h: Seq<char>, id: Seq<char>, k: Seq<char>)
    requires
        after@ == before@.insert(h, id),
    ensures
        cursor_of(after@, k) == if k == h {
            Some(id)
        } else {
            cursor_of(before@, k)
        },
{
}

/// Writing out and reading back: a store rebuilt from its own entries holds
/// the same cursors.
pub proof fn law_entries_round_trip(s: TweetStore, written: Seq<(String, String)>, reread: TweetStore)
    requires
        cursor_map(written) == s@,
        reread@ == cursor_map(written),
    ensures
        reread@ == s@,
{
}

} // verus!
