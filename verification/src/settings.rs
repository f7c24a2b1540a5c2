//! The relay's settings: their defaults, the lists they hold one item per
//! line, the translation settings they give, and the renaming of old keys in
//! a stored configuration.

use vstd::prelude::*;
use crate::model::AiJobConfig;
use crate::paths::{join_path, path_join};
use crate::text::{chars_eq, chars_of, has_prefix, lower_ascii, lower_ascii_vec, starts_with, string_of_range, split_char, split_on, str_eq, strip_start, strip_start_str, trim, trim_str, views, push_str, CharPat};

verus! {

/// The settings the relay is configured with. (The polling interval, a
/// fraction of seconds, is kept by the scheduler beside these.)
#[derive(Debug)]
pub struct AppSettings {
    pub api_id: String,
    pub api_hash: String,
    pub phone: String,
    pub tg_session_path: String,
    /// One Telegram target per line.
    pub tg_targets: String,
    /// One X account per line.
    pub x_handles: String,
    pub max_media_mb: u64,
    pub use_fake_x: bool,
    pub x_bearer_token: String,
    /// The X API root; blank means the public one.
    pub x_api_base: String,
    pub ai_enabled: bool,
    pub ai_api_base: String,
    pub ai_api_key: String,
    pub ai_model: String,
}

fn owned(s: &str) -> (r: String)
    ensures
        r@ == s@,
{
    let mut r = String::new();
    push_str(&mut r, s);
    r
}

impl AppSettings {
    /// The settings of a fresh installation whose data lives in `data_dir`.
    pub fn default_in(data_dir: &str) -> (r: AppSettings)
        ensures
            r.api_id@.len() == 0,
            r.api_hash@.len() == 0,
            r.phone@.len() == 0,
            r.tg_session_path@ == join_path(data_dir@, "telegram.session"@),
            r.tg_targets@.len() == 0,
            r.x_handles@.len() == 0,
            r.max_media_mb == 50,
            r.use_fake_x,
            r.x_bearer_token@.len() == 0,
            r.x_api_base@ == "https://api.twitter.com"@,
            !r.ai_enabled,
            r.ai_api_base@ == "https://api.x.ai/v1"@,
            r.ai_api_key@.len() == 0,
            r.ai_model@ == "grok-3-mini"@,
    {
        AppSettings {
            api_id: String::new(),
            api_hash: String::new(),
            phone: String::new(),
            tg_session_path: path_join(data_dir, "telegram.session"),
            tg_targets: String::new(),
            x_handles: String::new(),
            max_media_mb: 50,
            use_fake_x: true,
            x_bearer_token: String::new(),
            x_api_base: owned("https://api.twitter.com"),
            ai_enabled: false,
            ai_api_base: owned("https://api.x.ai/v1"),
            ai_api_key: String::new(),
            ai_model: owned("grok-3-mini"),
        }
    }

    /// A field-by-field copy.
    pub fn copy(&self) -> (r: AppSettings)
        ensures
            r == *self,
    {
        AppSettings {
            api_id: self.api_id.clone(),
            api_hash: self.api_hash.clone(),
            phone: self.phone.clone(),
            tg_session_path: self.tg_session_path.clone(),
            tg_targets: self.tg_targets.clone(),
            x_handles: self.x_handles.clone(),
            max_media_mb: self.max_media_mb,
            use_fake_x: self.use_fake_x,
            x_bearer_token: self.x_bearer_token.clone(),
            x_api_base: self.x_api_base.clone(),
            ai_enabled: self.ai_enabled,
            ai_api_base: self.ai_api_base.clone(),
            ai_api_key: self.ai_api_key.clone(),
            ai_model: self.ai_model.clone(),
        }
    }
}

/// Whether `c` ends the host part of an address.
pub open spec fn ends_host(c: char) -> bool {
    c == '/' || c == ':' || c == '?' || c == '#'
}

/// The index of the first character of `s`, from `i` on, that ends a host;
/// `s.len()` when there is none.
pub open spec fn host_end(s: Seq<char>, i: int) -> int
    decreases s.len() - i,
{
    if i >= s.len() {
        s.len() as int
    } else if ends_host(s[i]) {
        i
    } else {
        host_end(s, i + 1)
    }
}

/// An address without its leading `https://` or `http://`.
pub open spec fn after_scheme(t: Seq<char>) -> Seq<char> {
    if starts_with(t, "https://"@) {
        t.subrange(8, t.len() as int)
    } else if starts_with(t, "http://"@) {
        t.subrange(7, t.len() as int)
    } else {
        t
    }
}

/// The host of an address: what follows the scheme, up to the first `/`,
/// `:`, `?` or `#`.
pub open spec fn host_of(t: Seq<char>) -> Seq<char> {
    let r = after_scheme(t);
    r.subrange(0, host_end(r, 0))
}

/// Whether an address points at OpenAI's API host, in any ASCII case.
pub open spec fn is_openai_host(t: Seq<char>) -> bool {
    lower_ascii(host_of(t)) == "api.openai.com"@
}

/// The translation root a setting gives: the xAI root when the setting is
/// blank or, by mistake, an address on `api.openai.com` (with any path);
/// else the setting, trimmed.
pub open spec fn ai_base_of(setting: Seq<char>) -> Seq<char> {
    let t = trim(setting);
    if t.len() == 0 || is_openai_host(t) {
        "https://api.x.ai/v1"@
    } else {
        t
    }
}

fn openai_host(t: &str) -> (r: bool)
    ensures
        r == is_openai_host(t@),
{
    let v = chars_of(t);
    let https = chars_of("https://");
    let http = chars_of("http://");
    proof {
        reveal_strlit("https://");
        reveal_strlit("http://");
    }
    let start: usize = if has_prefix(v.as_slice(), https.as_slice()) {
        8
    } else if has_prefix(v.as_slice(), http.as_slice()) {
        7
    } else {
        0
    };
    let ghost rest = after_scheme(t@);
    assert(rest =~= v@.subrange(start as int, v@.len() as int));
    let mut i: usize = start;
    while i < v.len() && !ends_host_exec(v[i])
        invariant
            start <= i <= v@.len(),
            rest == v@.subrange(start as int, v@.len() as int),
            host_end(rest, 0) == host_end(rest, i - start),
        decreases v@.len() - i,
    {
        assert(rest[i - start] == v@[i as int]);
        i += 1;
    }
    if i < v.len() {
        assert(rest[i - start] == v@[i as int]);
    }
    assert(host_end(rest, i - start) == i - start);
    let host = string_of_range(v.as_slice(), start, i);
    assert(host@ =~= host_of(t@));
    let hv = chars_of(host.as_str());
    let lower = lower_ascii_vec(hv.as_slice());
    let want = chars_of("api.openai.com");
    chars_eq(lower.as_slice(), want.as_slice())
}

fn ends_host_exec(c: char) -> (r: bool)
    ensures
        r == ends_host(c),
{
    c == '/' || c == ':' || c == '?' || c == '#'
}

/// The model a setting gives: the setting unless it is blank, else the default.
pub open spec fn ai_model_of(setting: Seq<char>) -> Seq<char> {
    if trim(setting).len() > 0 {
        setting
    } else {
        "grok-3-mini"@
    }
}

impl AppSettings {
    /// The translation settings of a job.
    pub fn ai_job_config(&self) -> (r: AiJobConfig)
        ensures
            r.enabled == self.ai_enabled,
            r.api_base@ == ai_base_of(self.ai_api_base@),
            r.api_key@ == self.ai_api_key@,
            r.model@ == ai_model_of(self.ai_model@),
    {
        let t = trim_str(self.ai_api_base.as_str());
        let api_base = if t.as_str().unicode_len() == 0 || openai_host(t.as_str()) {
            owned("https://api.x.ai/v1")
        } else {
            t
        };
        let m = trim_str(self.ai_model.as_str());
        let model = if m.as_str().unicode_len() > 0 {
            self.ai_model.clone()
        } else {
            owned("grok-3-mini")
        };
        AiJobConfig { enabled: self.ai_enabled, api_base, api_key: self.ai_api_key.clone(), model }
    }
}

/// The entries of a one-per-line list: each line trimmed (and, for account
/// names, stripped of leading `@`), blank ones left out.
pub open spec fn clean_lines(lines: Seq<Seq<char>>, drop_at: bool) -> Seq<Seq<char>>
    decreases lines.len(),
{
    if lines.len() == 0 {
        Seq::empty()
    } else {
        let prev = clean_lines(lines.drop_last(), drop_at);
        let t = trim(lines.last());
        let e = if drop_at {
            strip_start(t, CharPat::Exactly('@'))
        } else {
            t
        };
        if e.len() > 0 {
            prev.push(e)
        } else {
            prev
        }
    }
}

/// The entries of the one-per-line list `text`.
pub fn list_entries(text: &str, drop_at: bool) -> (r: Vec<String>)
    ensures
        views(r@) == clean_lines(split_char(text@, '\n'), drop_at),
{
    let lines = split_on(text, '\n');
    let ghost all = views(lines@);
    let mut out: Vec<String> = Vec::new();
    let mut i: usize = 0;
    assert(views(out@) =~= clean_lines(all.subrange(0, 0), drop_at));
    while i < lines.len()
        invariant
            i <= lines@.len(),
            all == views(lines@),
            views(out@) == clean_lines(all.subrange(0, i as int), drop_at),
        decreases lines@.len() - i,
    {
        assert(all.subrange(0, i + 1).drop_last() =~= all.subrange(0, i as int));
        assert(all.subrange(0, i + 1).last() == lines@[i as int]@);
        let t = trim_str(lines[i].as_str());
        let e = if drop_at {
            strip_start_str(t.as_str(), CharPat::Exactly('@'))
        } else {
            t
        };
        let ghost before = views(out@);
        if e.as_str().unicode_len() > 0 {
            out.push(e);
            assert(views(out@) =~= before.push(out@.last()@));
        }
        i += 1;
    }
    assert(all.subrange(0, all.len() as int) =~= all);
    out
}

impl AppSettings {
    /// The Telegram targets, one per non-blank line, trimmed.
    pub fn tg_target_list(&self) -> (r: Vec<String>)
        ensures
            views(r@) == clean_lines(split_char(self.tg_targets@, '\n'), false),
    {
        list_entries(self.tg_targets.as_str(), false)
    }

    /// The X accounts, one per non-blank line, trimmed, without leading `@`.
    pub fn handle_list(&self) -> (r: Vec<String>)
        ensures
            views(r@) == clean_lines(split_char(self.x_handles@, '\n'), true),
    {
        list_entries(self.x_handles.as_str(), true)
    }
}

/// What the "latest" command and the poller read of the settings.
#[derive(Debug)]
pub struct CommandState {
    pub handles: Vec<String>,
    pub use_fake_x: bool,
    pub x_bearer_token: String,
    pub x_api_base: String,
    pub ai: AiJobConfig,
    pub max_media_bytes: u64,
}

impl CommandState {
    /// The command state of some settings; the media cap in megabytes must
    /// fit in bytes.
    pub fn from_settings(s: &AppSettings) -> (r: CommandState)
        requires
            s.max_media_mb * 1024 * 1024 <= u64::MAX,
        ensures
            views(r.handles@) == clean_lines(split_char(s.x_handles@, '\n'), true),
            r.use_fake_x == s.use_fake_x,
            r.x_bearer_token@ == s.x_bearer_token@,
            r.x_api_base@ == s.x_api_base@,
            r.ai.enabled == s.ai_enabled,
            r.ai.api_base@ == ai_base_of(s.ai_api_base@),
            r.ai.api_key@ == s.ai_api_key@,
            r.ai.model@ == ai_model_of(s.ai_model@),
            r.max_media_bytes == s.max_media_mb * 1024 * 1024,
    {
        CommandState {
            handles: s.handle_list(),
            use_fake_x: s.use_fake_x,
            x_bearer_token: s.x_bearer_token.clone(),
            x_api_base: s.x_api_base.clone(),
            ai: s.ai_job_config(),
            max_media_bytes: s.max_media_mb * 1024 * 1024,
        }
    }

    /// A field-by-field copy.
    pub fn copy(&self) -> (r: CommandState)
        ensures
            views(r.handles@) == views(self.handles@),
            r.use_fake_x == self.use_fake_x,
            r.x_bearer_token@ == self.x_bearer_token@,
            r.x_api_base@ == self.x_api_base@,
            r.ai.enabled == self.ai.enabled,
            r.ai.api_base@ == self.ai.api_base@,
            r.ai.api_key@ == self.ai.api_key@,
            r.ai.model@ == self.ai.model@,
            r.max_media_bytes == self.max_media_bytes,
    {
        CommandState {
            handles: crate::model::copy_strings(&self.handles),
            use_fake_x: self.use_fake_x,
            x_bearer_token: self.x_bearer_token.clone(),
            x_api_base: self.x_api_base.clone(),
            ai: self.ai.copy(),
            max_media_bytes: self.max_media_bytes,
        }
    }
}

// ---------------------------------------------------------------------------
// Old configuration keys
// ---------------------------------------------------------------------------

/// The value of key `k` among `entries` (the last entry with that key).
pub open spec fn key_lookup<V>(entries: Seq<(String, V)>, k: Seq<char>) -> Option<V>
    decreases entries.len(),
{
    if entries.len() == 0 {
        None
    } else if entries.last().0@ == k {
        Some(entries.last().1)
    } else {
        key_lookup(entries.drop_last(), k)
    }
}

/// No key occurs twice.
pub open spec fn keys_unique<V>(entries: Seq<(String, V)>) -> bool {
    forall|i: int, j: int|
        0 <= i < j < entries.len() ==> (#[trigger] entries[i]).0@ != (#[trigger] entries[j]).0@
}

/// A stored configuration with its old keys brought up to date: the retired
/// `ai_provider` is gone, and the single `tg_target` becomes `tg_targets`
/// unless that is already set.
pub open spec fn migrated<V>(entries: Seq<(String, V)>, k: Seq<char>) -> Option<V> {
    if k == "ai_provider"@ || k == "tg_target"@ {
        None
    } else if k == "tg_targets"@ {
        match key_lookup(entries, "tg_targets"@) {
            Some(v) => Some(v),
            None => key_lookup(entries, "tg_target"@),
        }
    } else {
        key_lookup(entries, k)
    }
}

proof fn lemma_lookup_push<V>(s: Seq<(String, V)>, e: (String, V), k: Seq<char>)
    ensures
        key_lookup(s.push(e), k) == if e.0@ == k {
            Some(e.1)
        } else {
            key_lookup(s, k)
        },
{
    assert(s.push(e).drop_last() =~= s);
}

proof fn lemma_lookup_absent<V>(s: Seq<(String, V)>, k: Seq<char>)
    requires
        forall|i: int| 0 <= i < s.len() ==> (#[trigger] s[i]).0@ != k,
    ensures
        key_lookup(s, k) is None,
    decreases s.len(),
{
    if s.len() > 0 {
        assert(forall|i: int| 0 <= i < s.drop_last().len() ==> s.drop_last()[i] == #[trigger] s[i]);
        lemma_lookup_absent(s.drop_last(), k);
    }
}

/// The entries of a stored configuration with old keys brought up to date.
pub fn migrate_config_keys<V>(entries: Vec<(String, V)>) -> (r: Vec<(String, V)>)
    requires
        keys_unique(entries@),
    ensures
        keys_unique(r@),
        forall|k: Seq<char>| #[trigger] key_lookup(r@, k) == migrated(entries@, k),
{
    let ghost orig = entries@;
    let mut input = entries;
    let mut out: Vec<(String, V)> = Vec::new();
    let mut old_target: Option<V> = None;
    let mut has_targets = false;
    let ghost mut done: int = 0;
    while input.len() > 0
        invariant
            0 <= done <= orig.len(),
            keys_unique(orig),
            input@ == orig.subrange(done, orig.len() as int),
            keys_unique(out@),
            forall|i: int| 0 <= i < out@.len() ==> (#[trigger] out@[i]).0@ != "ai_provider"@
                && out@[i].0@ != "tg_target"@,
            forall|i: int| 0 <= i < out@.len() ==> exists|j: int| 0 <= j < done && (#[trigger] out@[i]).0@ == orig[j].0@,
            forall|k: Seq<char>|
                k != "ai_provider"@ && k != "tg_target"@ ==> #[trigger] key_lookup(out@, k)
                    == key_lookup(orig.subrange(0, done), k),
            old_target == key_lookup(orig.subrange(0, done), "tg_target"@),
            has_targets == key_lookup(orig.subrange(0, done), "tg_targets"@) is Some,
        decreases input@.len(),
    {
        let ghost old_in = input@;
        let ghost old_out = out@;
        proof {
            lemma_key_names_differ();
        }
        assert(done < orig.len());
        let e = input.remove(0);
        assert(e == orig[done]);
        assert(input@ =~= orig.subrange(done + 1, orig.len() as int));
        let ghost pre = orig.subrange(0, done);
        assert(orig.subrange(0, done + 1) =~= pre.push(e));
        proof {
            assert forall|k: Seq<char>| #[trigger] key_lookup(pre.push(e), k) == (if e.0@ == k {
                Some(e.1)
            } else {
                key_lookup(pre, k)
            }) by {
                lemma_lookup_push(pre, e, k);
            }
        }
        assert(key_lookup(pre.push(e), "tg_target"@) == (if e.0@ == "tg_target"@ {
            Some(e.1)
        } else {
            key_lookup(pre, "tg_target"@)
        }));
        assert(key_lookup(pre.push(e), "tg_targets"@) == (if e.0@ == "tg_targets"@ {
            Some(e.1)
        } else {
            key_lookup(pre, "tg_targets"@)
        }));
        if str_eq(e.0.as_str(), "ai_provider") {
            assert(old_target == key_lookup(orig.subrange(0, done + 1), "tg_target"@));
        } else if str_eq(e.0.as_str(), "tg_target") {
            old_target = Some(e.1);
            assert(old_target == key_lookup(orig.subrange(0, done + 1), "tg_target"@));
        } else {
            if str_eq(e.0.as_str(), "tg_targets") {
                has_targets = true;
            }
            proof {
                assert forall|i: int| 0 <= i < old_out.len() implies (#[trigger] old_out[i]).0@ != e.0@ by {
                    let j = choose|j: int| 0 <= j < done && old_out[i].0@ == orig[j].0@;
                    assert(orig[j].0@ != orig[done].0@);
                }
                assert forall|k: Seq<char>| #[trigger] key_lookup(old_out.push(e), k) == (if e.0@ == k {
                    Some(e.1)
                } else {
                    key_lookup(old_out, k)
                }) by {
                    lemma_lookup_push(old_out, e, k);
                }
            }
            out.push(e);
            assert(out@ == old_out.push(orig[done]));
            assert forall|i: int| 0 <= i < out@.len() implies exists|j: int| 0 <= j < done + 1 && (#[trigger] out@[i]).0@ == orig[j].0@ by {
                if i < old_out.len() {
                    assert(out@[i] == old_out[i]);
                } else {
                    assert(out@[i].0@ == orig[done].0@);
                }
            }
        }
        proof {
            done = done + 1;
        }
    }
    assert(orig.subrange(0, done) =~= orig);
    proof {
        lemma_key_names_differ();
    }
    if !has_targets {
        match old_target {
            Some(v) => {
                proof {
                    assert forall|i: int| 0 <= i < out@.len() implies (#[trigger] out@[i]).0@ != "tg_targets"@ by {
                        if out@[i].0@ == "tg_targets"@ {
                            let j = choose|j: int| 0 <= j < done && out@[i].0@ == orig[j].0@;
                            assert(key_lookup(orig, "tg_targets"@) is Some) by {
                                lemma_lookup_present(orig, j);
                            }
                        }
                    }
                    lemma_lookup_absent(out@, "tg_targets"@);
                }
                let ghost old_out = out@;
                out.push((owned("tg_targets"), v));
                proof {
                    assert forall|k: Seq<char>| #[trigger] key_lookup(out@, k) == migrated(orig, k) by {
                        lemma_lookup_push(old_out, out@.last(), k);
                        if k == "ai_provider"@ || k == "tg_target"@ {
                            assert forall|i: int| 0 <= i < out@.len() implies (#[trigger] out@[i]).0@ != k by {
                                if i < old_out.len() {
                                    assert(out@[i] == old_out[i]);
                                }
                            }
                            lemma_lookup_absent(out@, k);
                        }
                    }
                }
            },
            None => {
                proof {
                    assert forall|k: Seq<char>| #[trigger] key_lookup(out@, k) == migrated(orig, k) by {
                        if k == "ai_provider"@ || k == "tg_target"@ {
                            lemma_lookup_absent(out@, k);
                        }
                    }
                }
            },
        }
    } else {
        proof {
            assert forall|k: Seq<char>| #[trigger] key_lookup(out@, k) == migrated(orig, k) by {
                if k == "ai_provider"@ || k == "tg_target"@ {
                    lemma_lookup_absent(out@, k);
                }
            }
        }
    }
    out
}

proof fn lemma_key_names_differ()
    ensures
        "ai_provider"@ != "tg_target"@,
        "ai_provider"@ != "tg_targets"@,
        "tg_target"@ != "tg_targets"@,
{
    reveal_strlit("ai_provider");
    reveal_strlit("tg_target");
    reveal_strlit("tg_targets");
    assert("ai_provider"@.len() == 11);
    assert("tg_target"@.len() == 9);
    assert("tg_targets"@.len() == 10);
}

proof fn lemma_lookup_present<V>(s: Seq<(String, V)>, j: int)
    requires
        0 <= j < s.len(),
    ensures
        key_lookup(s, s[j].0@) is Some,
    decreases s.len(),
{
    if s.last().0@ != s[j].0@ {
        assert(j < s.len() - 1);
        assert(s.drop_last()[j] == s[j]);
        lemma_lookup_present(s.drop_last(), j);
    }
}

} // verus!
