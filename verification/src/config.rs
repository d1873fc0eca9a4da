//! Process configuration shapes and the pure parsing rules for them. The
//! values are supplied externally (loading them is not the library's job);
//! the parsing of the raw text into lists and toggles is.

use vstd::prelude::*;
use vstd::string::{StrSliceExecFns, StringExecFns};
use crate::strutil::{has_prefix, strip_prefix_of};

verus! {

/// Settings that may change per process run.
#[derive(Debug)]
pub struct RuntimeConfig {
    /// Whether self-registration is allowed; when off, registration fails
    /// with an authentication error regardless of input.
    pub user_login_allowed: bool,
}

impl Default for RuntimeConfig {
    /// Self-registration defaults to allowed.
    fn default() -> (r: RuntimeConfig)
        ensures
            r.user_login_allowed,
    {
        RuntimeConfig { user_login_allowed: true }
    }
}

/// Immutable process configuration: the signing secret, the storage target,
/// the static key allow-list, the management token and the bind address.
#[derive(Debug)]
pub struct AppConfig {
    pub jwt_secret: String,
    pub database_connection_string: String,
    pub client_api_keys: Vec<String>,
    pub management_token: String,
    pub host: String,
    pub port: u16,
}

/// The colon-separated fields of `s`, empty fields dropped, scanning left to
/// right.
pub open spec fn api_keys_of(s: Seq<char>) -> Seq<Seq<char>>
    decreases s.len(), via api_keys_of_decreases
{
    let i = find_colon(s);
    if i == -1 {
        if s.len() == 0 {
            Seq::empty()
        } else {
            seq![s]
        }
    } else {
        let head = s.take(i);
        let rest = api_keys_of(s.skip(i + 1));
        if head.len() == 0 {
            rest
        } else {
            seq![head] + rest
        }
    }
}

/// Index of the first colon, or -1 if none.
pub open spec fn find_colon(s: Seq<char>) -> int
    decreases s.len(),
{
    if s.len() == 0 {
        -1
    } else if s[0] == ':' {
        0
    } else {
        let rest = find_colon(s.drop_first());
        if rest == -1 {
            -1
        } else {
            rest + 1
        }
    }
}

proof fn lemma_find_colon_range(s: Seq<char>)
    ensures
        -1 <= find_colon(s) < s.len(),
        find_colon(s) >= 0 ==> s[find_colon(s)] == ':',
    decreases s.len(),
{
    if s.len() > 0 && s[0] != ':' {
        lemma_find_colon_range(s.drop_first());
        let rest = find_colon(s.drop_first());
        if rest >= 0 {
            assert(s.drop_first()[rest] == s[rest + 1]);
        }
    }
}

#[via_fn]
proof fn api_keys_of_decreases(s: Seq<char>) {
    lemma_find_colon_range(s);
}

proof fn lemma_find_colon_at(s: Seq<char>, i: int)
    requires
        0 <= i < s.len(),
        s[i] == ':',
        forall|j: int| 0 <= j < i ==> s[j] != ':',
    ensures
        find_colon(s) == i,
    decreases i,
{
    if i > 0 {
        assert(s.drop_first()[i - 1] == s[i]);
        assert(forall|j: int| 0 <= j < i - 1 ==> #[trigger] s.drop_first()[j] == s[j + 1]);
        lemma_find_colon_at(s.drop_first(), i - 1);
    }
}

proof fn lemma_find_colon_none(s: Seq<char>)
    requires
        forall|j: int| 0 <= j < s.len() ==> s[j] != ':',
    ensures
        find_colon(s) == -1,
    decreases s.len(),
{
    if s.len() > 0 {
        assert(forall|j: int|
            0 <= j < s.len() - 1 ==> #[trigger] s.drop_first()[j] == s[j + 1]);
        lemma_find_colon_none(s.drop_first());
    }
}

fn char_colon_at(s: &str, i: usize) -> (r: bool)
    requires
        i < s@.len(),
    ensures
        r == (s@[i as int] == ':'),
{
    s.get_char(i) == ':'
}

/// Splits a raw allow-list on colons, dropping empty fields.
pub fn parse_api_keys(s: &str) -> (r: Vec<String>)
    ensures
        r.deep_view() == api_keys_of(s@),
    decreases s@.len(),
{
    let n = s.unicode_len();
    let mut i: usize = 0;
    while i < n && !char_colon_at(s, i)
        invariant
            n == s@.len(),
            0 <= i <= n,
            forall|j: int| 0 <= j < i ==> s@[j] != ':',
        decreases n - i,
    {
        i = i + 1;
    }
    if i == n {
        proof {
            lemma_find_colon_none(s@);
        }
        let mut r: Vec<String> = Vec::new();
        if n > 0 {
            r.push(s.to_owned());
        }
        proof {
            assert(r.deep_view() =~= api_keys_of(s@));
        }
        r
    } else {
        proof {
            lemma_find_colon_at(s@, i as int);
        }
        let head = s.substring_char(0, i);
        proof {
            assert(head@ =~= s@.take(i as int));
        }
        let rest = s.substring_char(i + 1, n);
        proof {
            assert(rest@ =~= s@.skip(i + 1));
        }
        let mut tail = parse_api_keys(rest);
        if i == 0 {
            proof {
                assert(tail.deep_view() =~= api_keys_of(s@));
            }
            tail
        } else {
            let mut r: Vec<String> = Vec::new();
            r.push(head.to_owned());
            let mut k: usize = 0;
            let ghost tv = tail.deep_view();
            let n2 = tail.len();
            while k < n2
                invariant
                    n2 == tail@.len(),
                    tv == tail.deep_view(),
                    0 <= k <= n2,
                    r@.len() == k + 1,
                    r@[0]@ == s@.take(i as int),
                    forall|j: int| 1 <= j < k + 1 ==> #[trigger] r@[j]@ == tv[j - 1],
                decreases n2 - k,
            {
                let item = tail[k].clone();
                proof {
                    assert(item@ == tail@[k as int]@);
                    assert(tail@[k as int]@ == tv[k as int]);
                }
                r.push(item);
                k = k + 1;
            }
            proof {
                let target = seq![s@.take(i as int)] + tv;
                assert forall|j: int| 0 <= j < r@.len() implies r.deep_view()[j] == target[j] by {
                    if j >= 1 {
                        assert(r@[j]@ == tv[j - 1]);
                    }
                }
                assert(r.deep_view() =~= target);
                assert(r.deep_view() =~= api_keys_of(s@));
            }
            r
        }
    }
}

/// Whether the raw text of a toggle turns it on: it must contain `true`
/// after lowercasing.
pub open spec fn flag_enabled(lowered: Seq<char>) -> bool {
    exists|i: int| 0 <= i <= lowered.len() - 4 && #[trigger] lowered.subrange(i, i + 4) == "true"@
}

/// Reads a toggle the way the environment expresses it: lowercases the text
/// and looks for `true` anywhere in it.
pub fn parse_bool_flag(s: &str) -> (r: bool)
    ensures
        r == flag_enabled(crate::validation::lower_of(s@)),
{
    let lowered = crate::validation::force_lowercase(s);
    let ghost low = crate::validation::lower_of(s@);
    let n = lowered.as_str().unicode_len();
    if n < 4 {
        return false;
    }
    let mut i: usize = 0;
    while i <= n - 4
        invariant
            n == low.len(),
            n >= 4,
            low == crate::validation::lower_of(s@),
            lowered@ == low,
            0 <= i <= n - 3,
            forall|j: int| 0 <= j < i ==> #[trigger] low.subrange(j, j + 4) != "true"@,
        decreases n - i,
    {
        let sub = lowered.as_str().substring_char(i, n);
        let hit = strip_prefix_of(sub, "true");
        if hit.is_some() {
            proof {
                reveal_strlit("true");
                assert(has_prefix(sub@, "true"@));
                assert(sub@.subrange(0, 4) =~= low.subrange(i as int, i as int + 4));
                assert(low.subrange(i as int, i as int + 4) == "true"@);
                assert(flag_enabled(low)) by {
                    assert(0 <= i as int <= low.len() - 4 && low.subrange(i as int, i as int + 4)
                        == "true"@);
                }
            }
            return true;
        }
        proof {
            reveal_strlit("true");
            assert(sub@.subrange(0, 4) =~= low.subrange(i as int, i + 4));
            assert(low.subrange(i as int, i + 4) != "true"@);
        }
        i = i + 1;
    }
    proof {
        assert(forall|j: int|
            0 <= j <= low.len() - 4 ==> #[trigger] low.subrange(j, j + 4) != "true"@);
    }
    false
}

} // verus!
