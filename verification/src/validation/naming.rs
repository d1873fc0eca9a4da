//! The username rule: lowercase first, then 2 to 25 characters, ASCII
//! alphanumerics and underscore only, not starting with a digit.

use vstd::prelude::*;
use vstd::string::StringExecFns;
use crate::validation::{
    Validator, char_admitted, first_disallowed, invalid_char_message, is_ascii_alnum,
    is_ascii_digit, leading_digit_message, length_limit_message, lower_of, force_lowercase,
    run_validators,
};

verus! {

/// Characters a username may contain.
pub open spec fn is_username_char(c: char) -> bool {
    is_ascii_alnum(c) || c == '_'
}

/// A well-formed (already lowercased) username.
pub open spec fn valid_username(s: Seq<char>) -> bool {
    &&& s.len() <= 25
    &&& s.len() >= 2
    &&& forall|i: int| 0 <= i < s.len() ==> is_username_char(#[trigger] s[i])
    &&& !is_ascii_digit(s[0])
}

/// The rule a lowercased username breaks first, with its message, or None if
/// it is well formed. The rules apply in order: maximum length, minimum
/// length, character whitelist, leading digit.
pub open spec fn username_error(s: Seq<char>) -> Option<Seq<char>> {
    if s.len() > 25 {
        Some(length_limit_message(s.len(), 25))
    } else if s.len() < 2 {
        Some(length_limit_message(s.len(), 2))
    } else if exists|i: int| 0 <= i < s.len() && !is_username_char(#[trigger] s[i]) {
        Some(invalid_char_message(s[first_disallowed(s, seq!['_'])]))
    } else if is_ascii_digit(s[0]) {
        Some(leading_digit_message())
    } else {
        None
    }
}

/// A username is valid exactly when no rule rejects it.
pub proof fn lemma_valid_username_iff_no_error(s: Seq<char>)
    ensures
        valid_username(s) <==> username_error(s) is None,
{
}

/// Lowercases the username, then checks the naming rules against the
/// lowercased form; returns the stored (normalized) name on success.
pub fn validate_username(username: &str) -> (r: Result<String, String>)
    ensures
        r matches Ok(out) ==> out@ == lower_of(username@),
        r is Ok <==> valid_username(lower_of(username@)),
        r matches Err(m) ==> username_error(lower_of(username@)) == Some(m@),
{
    let lowercased = force_lowercase(username);
    let ghost low = lower_of(username@);
    let validators: Vec<Validator> = vec![
        Validator::MaxLength(25),
        Validator::MinLength(2),
        Validator::AllowedChars(Some(String::from_str("_"))),
        Validator::NoLeadingDigit,
    ];
    proof {
        reveal_strlit("_");
        assert(validators@[2].specials_view() =~= seq!['_']);
        assert(forall|c: char|
            char_admitted(c, validators@[2].specials_view()) == is_username_char(c)) by {
            assert(forall|c: char| seq!['_'].contains(c) <==> c == '_') by {
                assert(forall|c: char| c == '_' ==> seq!['_'][0] == c && seq!['_'].contains(c));
            }
        }
    }
    match run_validators(lowercased.as_str(), &validators) {
        Ok(()) => {
            proof {
                assert(validators@[0].passes(low));
                assert(validators@[1].passes(low));
                assert(validators@[2].passes(low));
                assert(validators@[3].passes(low));
            }
            Ok(lowercased)
        },
        Err(m) => {
            proof {
                let i = choose|i: int|
                    0 <= i < validators@.len() && !(#[trigger] validators@[i].passes(low)) && (
                    forall|j: int| 0 <= j < i ==> #[trigger] validators@[j].passes(low)) && m@
                        == validators@[i].failure_message(low);
                assert(seq!['_'] =~= validators@[2].specials_view());
                if i == 0 {
                    assert(low.len() > 25);
                    assert(m@ == length_limit_message(low.len(), 25));
                } else if i == 1 {
                    assert(validators@[0].passes(low) && !validators@[1].passes(low));
                    assert(low.len() <= 25 && low.len() < 2);
                    assert(m@ == length_limit_message(low.len(), 2));
                } else if i == 2 {
                    assert(validators@[0].passes(low) && validators@[1].passes(low));
                    assert(low.len() <= 25 && low.len() >= 2);
                    assert(!validators@[2].passes(low));
                    let k = choose|k: int|
                        0 <= k < low.len() && !char_admitted(
                            #[trigger] low[k],
                            validators@[2].specials_view(),
                        );
                    assert(!is_username_char(low[k]));
                    assert(exists|k2: int|
                        0 <= k2 < low.len() && !is_username_char(#[trigger] low[k2]));
                    assert(m@ == invalid_char_message(
                        low[first_disallowed(low, validators@[2].specials_view())],
                    ));
                    assert(first_disallowed(low, seq!['_']) == first_disallowed(
                        low,
                        validators@[2].specials_view(),
                    ));
                } else {
                    assert(i == 3);
                    assert(validators@[0].passes(low) && validators@[1].passes(low)
                        && validators@[2].passes(low) && !validators@[3].passes(low));
                    assert(low.len() <= 25 && low.len() >= 2);
                    assert(forall|k: int|
                        0 <= k < low.len() ==> is_username_char(#[trigger] low[k]));
                    assert(low.len() > 0 && is_ascii_digit(low[0]));
                    assert(m@ == leading_digit_message());
                }
            }
            Err(m)
        },
    }
}

} // verus!
