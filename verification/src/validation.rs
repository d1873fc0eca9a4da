//! String validation pipeline: length limits, character whitelists, and case
//! transforms, composed into a username rule.

use vstd::prelude::*;
use vstd::string::StrSliceExecFns;
use vstd::string::StringExecFns;

pub mod naming;

verus! {

/// Decimal digit character for a value below ten.
pub open spec fn spec_digit_char(d: nat) -> char {
    if d == 0 {
        '0'
    } else if d == 1 {
        '1'
    } else if d == 2 {
        '2'
    } else if d == 3 {
        '3'
    } else if d == 4 {
        '4'
    } else if d == 5 {
        '5'
    } else if d == 6 {
        '6'
    } else if d == 7 {
        '7'
    } else if d == 8 {
        '8'
    } else {
        '9'
    }
}

/// Decimal rendering of a natural number, most significant digit first.
pub open spec fn spec_decimal(n: nat) -> Seq<char>
    decreases n,
{
    if n < 10 {
        seq![spec_digit_char(n)]
    } else {
        spec_decimal(n / 10).push(spec_digit_char(n % 10))
    }
}

fn digit_str(d: u64) -> (r: &'static str)
    requires
        d < 10,
    ensures
        r@ == seq![spec_digit_char(d as nat)],
{
    proof {
        reveal_strlit("0");
        reveal_strlit("1");
        reveal_strlit("2");
        reveal_strlit("3");
        reveal_strlit("4");
        reveal_strlit("5");
        reveal_strlit("6");
        reveal_strlit("7");
        reveal_strlit("8");
        reveal_strlit("9");
    }
    let r: &'static str = match d {
        0 => "0",
        1 => "1",
        2 => "2",
        3 => "3",
        4 => "4",
        5 => "5",
        6 => "6",
        7 => "7",
        8 => "8",
        _ => "9",
    };
    proof {
        assert(r@ =~= seq![spec_digit_char(d as nat)]);
    }
    r
}

/// Renders a number in decimal, for use in error messages.
pub fn decimal_string(n: u64) -> (r: String)
    ensures
        r@ == spec_decimal(n as nat),
    decreases n,
{
    if n < 10 {
        String::from_str(digit_str(n))
    } else {
        let mut s = decimal_string(n / 10);
        s.append(digit_str(n % 10));
        s
    }
}

pub open spec fn is_ascii_alnum(c: char) -> bool {
    ('a' <= c && c <= 'z') || ('A' <= c && c <= 'Z') || ('0' <= c && c <= '9')
}

pub open spec fn is_ascii_digit(c: char) -> bool {
    '0' <= c && c <= '9'
}

/// The message a length validator produces when a string of `found`
/// characters violates a bound of `limit`.
pub open spec fn length_limit_message(found: nat, limit: nat) -> Seq<char> {
    "Length limit exceeded: "@ + spec_decimal(found) + " characters found, maximum is "@
        + spec_decimal(limit)
}

/// The message the character whitelist produces for a disallowed character.
pub open spec fn invalid_char_message(c: char) -> Seq<char> {
    "Invalid character '"@ + seq![c]
        + "' found. Only alphanumerics and allowed specials are permitted."@
}

/// The message produced for a string that starts with a digit.
pub open spec fn leading_digit_message() -> Seq<char> {
    "String cannot start with a digit."@
}

fn length_limit_string(found: usize, limit: usize) -> (r: String)
    ensures
        r@ == length_limit_message(found as nat, limit as nat),
{
    let mut s = String::from_str("Length limit exceeded: ");
    let d1 = decimal_string(found as u64);
    s.append(d1.as_str());
    s.append(" characters found, maximum is ");
    let d2 = decimal_string(limit as u64);
    s.append(d2.as_str());
    s
}

/// Checks that the string has at most `n` characters (Unicode-aware).
pub fn limit_length(n: usize, s: &str) -> (r: Result<(), String>)
    ensures
        r is Ok <==> s@.len() <= n,
        r matches Err(m) ==> m@ == length_limit_message(s@.len(), n as nat),
{
    let actual_len = s.unicode_len();
    if actual_len > n {
        Err(length_limit_string(actual_len, n))
    } else {
        Ok(())
    }
}

/// Checks that the string has at least `n` characters (Unicode-aware).
pub fn limit_min_length(n: usize, s: &str) -> (r: Result<(), String>)
    ensures
        r is Ok <==> s@.len() >= n,
        r matches Err(m) ==> m@ == length_limit_message(s@.len(), n as nat),
{
    let actual_len = s.unicode_len();
    if actual_len < n {
        Err(length_limit_string(actual_len, n))
    } else {
        Ok(())
    }
}

/// The characters the whitelist admits beyond ASCII alphanumerics.
pub open spec fn allowed_specials_of(allowed: Option<&str>) -> Seq<char> {
    match allowed {
        Some(a) => a@,
        None => Seq::<char>::empty(),
    }
}

pub open spec fn char_admitted(c: char, specials: Seq<char>) -> bool {
    is_ascii_alnum(c) || specials.contains(c)
}

/// Index of the first character the whitelist rejects, or -1 if none.
pub open spec fn first_disallowed(s: Seq<char>, specials: Seq<char>) -> int
    decreases s.len(),
{
    if s.len() == 0 {
        -1
    } else if !char_admitted(s[0], specials) {
        0
    } else {
        let rest = first_disallowed(s.drop_first(), specials);
        if rest == -1 {
            -1
        } else {
            rest + 1
        }
    }
}

proof fn lemma_first_disallowed(s: Seq<char>, specials: Seq<char>, i: int)
    requires
        0 <= i < s.len(),
        !char_admitted(s[i], specials),
        forall|j: int| 0 <= j < i ==> char_admitted(#[trigger] s[j], specials),
    ensures
        first_disallowed(s, specials) == i,
    decreases s.len(),
{
    if i > 0 {
        assert(char_admitted(s[0], specials));
        lemma_first_disallowed(s.drop_first(), specials, i - 1);
    }
}

proof fn lemma_no_disallowed(s: Seq<char>, specials: Seq<char>)
    requires
        forall|j: int| 0 <= j < s.len() ==> char_admitted(#[trigger] s[j], specials),
    ensures
        first_disallowed(s, specials) == -1,
    decreases s.len(),
{
    if s.len() > 0 {
        lemma_no_disallowed(s.drop_first(), specials);
    }
}

fn char_in_str(c: char, specials: &str) -> (r: bool)
    ensures
        r == specials@.contains(c),
{
    let n = specials.unicode_len();
    let mut i: usize = 0;
    while i < n
        invariant
            n == specials@.len(),
            0 <= i <= n,
            forall|j: int| 0 <= j < i ==> specials@[j] != c,
        decreases n - i,
    {
        if specials.get_char(i) == c {
            assert(specials@.contains(c));
            return true;
        }
        i = i + 1;
    }
    assert(forall|j: int| 0 <= j < specials@.len() ==> specials@[j] != c);
    false
}

fn char_is_ascii_alnum(c: char) -> (r: bool)
    ensures
        r == is_ascii_alnum(c),
{
    ('a' <= c && c <= 'z') || ('A' <= c && c <= 'Z') || ('0' <= c && c <= '9')
}

fn invalid_char_string(c: char) -> (r: String)
    ensures
        r@ == invalid_char_message(c),
{
    let mut s = String::from_str("Invalid character '");
    push_char(&mut s, c);
    s.append("' found. Only alphanumerics and allowed specials are permitted.");
    proof {
        assert(s@ =~= invalid_char_message(c));
    }
    s
}

/// Relies on String::push: appends exactly the one character.
#[verifier::external_body]
fn push_char(s: &mut String, c: char)
    ensures
        final(s)@ == old(s)@.push(c),
{
    s.push(c);
}

/// Checks that every character is an ASCII alphanumeric or one of the
/// allowed special characters; reports the first offender otherwise.
pub fn allow_only_alphanumerics_and_specials(allowed_specials: Option<&str>, s: &str) -> (r:
    Result<(), String>)
    ensures
        r is Ok <==> forall|i: int|
            0 <= i < s@.len() ==> char_admitted(#[trigger] s@[i], allowed_specials_of(
                allowed_specials,
            )),
        r matches Err(m) ==> {
            let k = first_disallowed(s@, allowed_specials_of(allowed_specials));
            0 <= k < s@.len() && m@ == invalid_char_message(s@[k])
        },
{
    let ghost specials = allowed_specials_of(allowed_specials);
    let n = s.unicode_len();
    let mut i: usize = 0;
    while i < n
        invariant
            n == s@.len(),
            0 <= i <= n,
            specials == allowed_specials_of(allowed_specials),
            forall|j: int| 0 <= j < i ==> char_admitted(#[trigger] s@[j], specials),
        decreases n - i,
    {
        let c = s.get_char(i);
        let ok = char_is_ascii_alnum(c) || (match allowed_specials {
            Some(a) => char_in_str(c, a),
            None => false,
        });
        if !ok {
            proof {
                lemma_first_disallowed(s@, specials, i as int);
            }
            return Err(invalid_char_string(c));
        }
        i = i + 1;
    }
    proof {
        lemma_no_disallowed(s@, specials);
    }
    Ok(())
}

/// Checks that the string does not start with an ASCII digit.
pub fn not_start_with_digit(s: &str) -> (r: Result<(), String>)
    ensures
        r is Ok <==> (s@.len() == 0 || !is_ascii_digit(s@[0])),
        r matches Err(m) ==> m@ == leading_digit_message(),
{
    if s.is_empty() {
        return Ok(());
    }
    let first_char = s.get_char(0);
    if '0' <= first_char && first_char <= '9' {
        Err(String::from_str("String cannot start with a digit."))
    } else {
        Ok(())
    }
}

/// What str::to_lowercase returns; it depends on the characters alone.
pub uninterp spec fn lower_of(s: Seq<char>) -> Seq<char>;

/// What str::to_uppercase returns; it depends on the characters alone.
pub uninterp spec fn upper_of(s: Seq<char>) -> Seq<char>;

/// Forces the string to lowercase.
///
/// Relies on str::to_lowercase: full Unicode lowercasing, a pure function of
/// the input characters; an empty input gives an empty output.
#[verifier::external_body]
pub fn force_lowercase(s: &str) -> (r: String)
    ensures
        r@ == lower_of(s@),
        s@.len() == 0 ==> r@.len() == 0,
{
    s.to_lowercase()
}

/// Forces the string to uppercase.
///
/// Relies on str::to_uppercase: full Unicode uppercasing, a pure function of
/// the input characters; an empty input gives an empty output.
#[verifier::external_body]
pub fn force_uppercase(s: &str) -> (r: String)
    ensures
        r@ == upper_of(s@),
        s@.len() == 0 ==> r@.len() == 0,
{
    s.to_uppercase()
}

/// One step of the validation pipeline.
pub enum Validator {
    /// At most this many characters.
    MaxLength(usize),
    /// At least this many characters.
    MinLength(usize),
    /// ASCII alphanumerics plus the given special characters only.
    AllowedChars(Option<String>),
    /// Must not start with an ASCII digit.
    NoLeadingDigit,
}

impl Validator {
    /// Whether the string satisfies this validator.
    pub open spec fn passes(&self, s: Seq<char>) -> bool {
        match self {
            Validator::MaxLength(n) => s.len() <= *n,
            Validator::MinLength(n) => s.len() >= *n,
            Validator::AllowedChars(specials) => forall|i: int|
                0 <= i < s.len() ==> char_admitted(#[trigger] s[i], self.specials_view()),
            Validator::NoLeadingDigit => s.len() == 0 || !is_ascii_digit(s[0]),
        }
    }

    pub open spec fn specials_view(&self) -> Seq<char> {
        match self {
            Validator::AllowedChars(Some(a)) => a@,
            _ => Seq::<char>::empty(),
        }
    }

    /// The message this validator reports when the string fails it.
    pub open spec fn failure_message(&self, s: Seq<char>) -> Seq<char> {
        match self {
            Validator::MaxLength(n) => length_limit_message(s.len(), *n as nat),
            Validator::MinLength(n) => length_limit_message(s.len(), *n as nat),
            Validator::AllowedChars(specials) => invalid_char_message(
                s[first_disallowed(s, self.specials_view())],
            ),
            Validator::NoLeadingDigit => leading_digit_message(),
        }
    }

    /// Runs this validator against the string.
    pub fn apply(&self, s: &str) -> (r: Result<(), String>)
        ensures
            r is Ok <==> self.passes(s@),
            r matches Err(m) ==> m@ == self.failure_message(s@),
    {
        match self {
            Validator::MaxLength(n) => limit_length(*n, s),
            Validator::MinLength(n) => limit_min_length(*n, s),
            Validator::AllowedChars(specials) => {
                let opt: Option<&str> = match specials {
                    Some(a) => Some(a.as_str()),
                    None => None,
                };
                allow_only_alphanumerics_and_specials(opt, s)
            },
            Validator::NoLeadingDigit => not_start_with_digit(s),
        }
    }
}

/// Runs the validators in order and reports the first failure.
pub fn run_validators(s: &str, validators: &Vec<Validator>) -> (r: Result<(), String>)
    ensures
        r is Ok <==> forall|i: int|
            0 <= i < validators@.len() ==> #[trigger] validators@[i].passes(s@),
        r matches Err(m) ==> exists|i: int|
            0 <= i < validators@.len() && !(#[trigger] validators@[i].passes(s@)) && (forall|
                j: int,
            |
                0 <= j < i ==> #[trigger] validators@[j].passes(s@)) && m@
                == validators@[i].failure_message(s@),
{
    let n = validators.len();
    let mut i: usize = 0;
    while i < n
        invariant
            n == validators@.len(),
            0 <= i <= n,
            forall|j: int| 0 <= j < i ==> #[trigger] validators@[j].passes(s@),
        decreases n - i,
    {
        match validators[i].apply(s) {
            Ok(()) => {},
            Err(m) => {
                return Err(m);
            },
        }
        i = i + 1;
    }
    Ok(())
}

} // verus!
