//! Path arithmetic on Unix paths held as strings: joining, file names and
//! extensions, and where the relay keeps its files.

use vstd::prelude::*;
use crate::text::{chars_of, push_str, split_char, split_on, string_of_range, trim, trim_str, views};

verus! {

/// `PathBuf::push` on Unix: an absolute component replaces the path,
/// otherwise it is appended after a `/` unless the path is empty or already
/// ends in one.
pub open spec fn join_path(base: Seq<char>, comp: Seq<char>) -> Seq<char> {
    if comp.len() > 0 && comp[0] == '/' {
        comp
    } else if base.len() == 0 {
        comp
    } else if base.last() == '/' {
        base + comp
    } else {
        base + seq!['/'] + comp
    }
}

/// `Path::join`.
pub fn path_join(base: &str, comp: &str) -> (r: String)
    ensures
        r@ == join_path(base@, comp@),
{
    let b = chars_of(base);
    let c = chars_of(comp);
    let mut s = String::new();
    if c.len() > 0 && c[0] == '/' {
        push_str(&mut s, comp);
    } else if b.len() == 0 {
        push_str(&mut s, comp);
    } else if b[b.len() - 1] == '/' {
        push_str(&mut s, base);
        push_str(&mut s, comp);
    } else {
        push_str(&mut s, base);
        push_str(&mut s, "/");
        proof {
            reveal_strlit("/");
        }
        push_str(&mut s, comp);
        assert(s@ =~= base@ + seq!['/'] + comp@);
    }
    s
}

/// The configuration file inside the data directory.
pub fn config_path(data_dir: &str) -> (r: String)
    ensures
        r@ == join_path(data_dir@, "config.toml"@),
{
    path_join(data_dir, "config.toml")
}

/// The file that keeps the last relayed post of each account.
pub fn default_store_path(data_dir: &str) -> (r: String)
    ensures
        r@ == join_path(data_dir@, "cursors.json"@),
{
    path_join(data_dir, "cursors.json")
}

/// The scratch directory for the media of one post.
pub fn temp_dir_for_post(base: &str, post_id: &str) -> (r: String)
    ensures
        r@ == join_path(base@, "xtg-"@ + post_id@),
{
    let mut name = String::new();
    push_str(&mut name, "xtg-");
    push_str(&mut name, post_id);
    path_join(base, name.as_str())
}

/// The data directory: the configured one (trimmed) when given, else the
/// platform's application directory, else `xtg-app` in the scratch area.
pub open spec fn data_dir_choice(
    configured: Option<Seq<char>>,
    platform: Option<Seq<char>>,
    scratch: Seq<char>,
) -> Seq<char> {
    match configured {
        Some(p) => trim(p),
        None => match platform {
            Some(d) => d,
            None => join_path(scratch, "xtg-app"@),
        },
    }
}

pub fn choose_data_dir(configured: Option<&str>, platform: Option<&str>, scratch: &str) -> (r:
    String)
    ensures
        r@ == data_dir_choice(
            match configured {
                Some(p) => Some(p@),
                None => None,
            },
            match platform {
                Some(d) => Some(d@),
                None => None,
            },
            scratch@,
        ),
{
    match configured {
        Some(p) => trim_str(p),
        None => match platform {
            Some(d) => {
                let mut s = String::new();
                push_str(&mut s, d);
                s
            },
            None => path_join(scratch, "xtg-app"),
        },
    }
}

/// The last component of a path that names something (not empty, not `.`).
pub open spec fn last_component(segs: Seq<Seq<char>>) -> Option<Seq<char>>
    decreases segs.len(),
{
    if segs.len() == 0 {
        None
    } else if segs.last().len() == 0 || segs.last() == seq!['.'] {
        last_component(segs.drop_last())
    } else {
        Some(segs.last())
    }
}

/// `Path::file_name` on Unix.
pub open spec fn file_name(path: Seq<char>) -> Option<Seq<char>> {
    match last_component(split_char(path, '/')) {
        Some(c) => if c == seq!['.', '.'] {
            None
        } else {
            Some(c)
        },
        None => None,
    }
}

/// The index of the last `.` in `s`.
pub open spec fn last_dot(s: Seq<char>) -> Option<int>
    decreases s.len(),
{
    if s.len() == 0 {
        None
    } else if s.last() == '.' {
        Some(s.len() - 1)
    } else {
        last_dot(s.drop_last())
    }
}

/// The extension of a file name: what follows its last `.`, unless that dot
/// is the name's first character.
pub open spec fn name_extension(name: Seq<char>) -> Option<Seq<char>> {
    match last_dot(name) {
        Some(k) => if k == 0 {
            None
        } else {
            Some(name.subrange(k + 1, name.len() as int))
        },
        None => None,
    }
}

/// `Path::extension` on Unix.
pub open spec fn path_extension(path: Seq<char>) -> Option<Seq<char>> {
    match file_name(path) {
        Some(n) => name_extension(n),
        None => None,
    }
}

/// The file name of `path`.
pub fn file_name_of(path: &str) -> (r: Option<String>)
    ensures
        match r {
            Some(n) => file_name(path@) == Some(n@),
            None => file_name(path@) is None,
        },
{
    let segs = split_on(path, '/');
    let ghost all = views(segs@);
    let mut j: usize = segs.len();
    assert(all.subrange(0, segs@.len() as int) =~= all);
    while j > 0
        invariant
            j <= segs@.len(),
            all == views(segs@),
            all == split_char(path@, '/'),
            last_component(all) == last_component(all.subrange(0, j as int)),
        decreases j,
    {
        let seg = chars_of(segs[j - 1].as_str());
        assert(all[j - 1] == segs@[j - 1]@);
        assert(all.subrange(0, j as int).last() == seg@);
        assert(all.subrange(0, j as int).drop_last() =~= all.subrange(0, j - 1));
        if seg.len() == 0 || (seg.len() == 1 && seg[0] == '.') {
            assert(seg@.len() == 1 ==> seg@ =~= seq!['.']);
            j -= 1;
        } else {
            assert(seg@ != seq!['.']);
            if seg.len() == 2 && seg[0] == '.' && seg[1] == '.' {
                assert(seg@ =~= seq!['.', '.']);
                return None;
            }
            assert(seg@ != seq!['.', '.']);
            assert(seg@.subrange(0, seg@.len() as int) =~= seg@);
            return Some(string_of_range(seg.as_slice(), 0, seg.len()));
        }
    }
    assert(all.subrange(0, 0) =~= Seq::<Seq<char>>::empty());
    None
}

/// The extension of the file that `path` names.
pub fn extension_of(path: &str) -> (r: Option<String>)
    ensures
        match r {
            Some(e) => path_extension(path@) == Some(e@),
            None => path_extension(path@) is None,
        },
{
    let name = match file_name_of(path) {
        Some(n) => n,
        None => return None,
    };
    let v = chars_of(name.as_str());
    let mut j: usize = v.len();
    assert(v@.subrange(0, v@.len() as int) =~= v@);
    while j > 0 && v[j - 1] != '.'
        invariant
            j <= v@.len(),
            last_dot(v@) == last_dot(v@.subrange(0, j as int)),
        decreases j,
    {
        assert(v@.subrange(0, j as int).drop_last() =~= v@.subrange(0, j - 1));
        j -= 1;
    }
    assert(v@.subrange(0, v@.len() as int) =~= v@);
    if j == 0 {
        assert(v@.subrange(0, 0) =~= Seq::<char>::empty());
        return None;
    }
    assert(last_dot(v@.subrange(0, j as int)) == Some(j - 1));
    if j == 1 {
        return None;
    }
    Some(string_of_range(v.as_slice(), j, v.len()))
}

} // verus!
