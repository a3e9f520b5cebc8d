//! Validation of caller input and allocation of unique short codes.
use vstd::prelude::*;

use crate::alphabet::{generate_short_code, in_alphabet, is_code_char, is_code_string};
use crate::error::{AppError, ValidationError};

verus! {

/// The longest custom code a caller may ask for.
pub const MAX_CUSTOM_CODE_LEN: usize = 20;

/// How many random candidates the allocator tries before giving up.
pub const MAX_RETRIES: u32 = 10;

/// The verdict on a caller-supplied code: non-empty, at most twenty characters, all from
/// the code alphabet, checked in that order.
pub open spec fn custom_code_verdict(s: Seq<char>) -> Result<(), AppError> {
    if s.len() == 0 {
        Err(AppError::Validation(ValidationError::EmptyCode))
    } else if s.len() > MAX_CUSTOM_CODE_LEN {
        Err(AppError::Validation(ValidationError::CodeTooLong))
    } else if !is_code_string(s) {
        Err(AppError::Validation(ValidationError::CodeCharacters))
    } else {
        Ok(())
    }
}

/// A custom code is accepted exactly when it is non-empty, at most twenty characters long
/// and drawn entirely from the code alphabet; every other code is rejected.
pub proof fn lemma_custom_code_accepted(s: Seq<char>)
    ensures
        custom_code_verdict(s) is Ok <==> (1 <= s.len() <= MAX_CUSTOM_CODE_LEN && is_code_string(
            s,
        )),
{
}

/// Checks a caller-supplied short code without consulting the store.
pub fn validate_custom_code(code: &str) -> (r: Result<(), AppError>)
    ensures
        r == custom_code_verdict(code@),
{
    let mut n: usize = 0;
    let mut all_ok = true;
    for c in it: code.chars()
        invariant
            it.seq() == code@,
            n == it.index(),
            n <= MAX_CUSTOM_CODE_LEN,
            all_ok == is_code_string(code@.take(n as int)),
    {
        if n == MAX_CUSTOM_CODE_LEN {
            return Err(AppError::Validation(ValidationError::CodeTooLong));
        }
        let ok = in_alphabet(c);
        proof {
            let t = code@.take(n as int + 1);
            assert(t == code@.take(n as int).push(c));
            assert(is_code_string(t) == (is_code_string(code@.take(n as int)) && is_code_char(c)))
                by {
                if is_code_string(t) {
                    assert forall|i: int| 0 <= i < n implies #[trigger] is_code_char(
                        code@.take(n as int)[i],
                    ) by {
                        assert(t[i] == code@.take(n as int)[i]);
                    }
                    assert(is_code_char(t[n as int]));
                }
            }
        }
        all_ok = all_ok && ok;
        n = n + 1;
    }
    proof {
        assert(code@.take(n as int) == code@);
    }
    if n == 0 {
        Err(AppError::Validation(ValidationError::EmptyCode))
    } else if !all_ok {
        Err(AppError::Validation(ValidationError::CodeCharacters))
    } else {
        Ok(())
    }
}

/// Relies on `str::starts_with` with a string pattern: true exactly when `prefix` is a
/// prefix of `s`.
#[verifier::external_body]
fn has_prefix(s: &str, prefix: &str) -> (r: bool)
    ensures
        r == prefix@.is_prefix_of(s@),
{
    s.starts_with(prefix)
}

/// The verdict on a target address: non-empty, and with an `http://` or `https://` scheme.
pub open spec fn url_verdict(u: Seq<char>) -> Result<(), AppError> {
    if u.len() == 0 {
        Err(AppError::InvalidUrl)
    } else if !("http://"@.is_prefix_of(u) || "https://"@.is_prefix_of(u)) {
        Err(AppError::Validation(ValidationError::UrlScheme))
    } else {
        Ok(())
    }
}

/// Checks the address a short link is to point at.
pub fn validate_url(url: &str) -> (r: Result<(), AppError>)
    ensures
        r == url_verdict(url@),
{
    if url.is_empty() {
        return Err(AppError::InvalidUrl);
    }
    if !has_prefix(url, "http://") && !has_prefix(url, "https://") {
        return Err(AppError::Validation(ValidationError::UrlScheme));
    }
    Ok(())
}

/// Whether a link whose expiry time is `expires_at` may still be followed at time `now`
/// (both in the same unit since a common epoch).
pub fn check_not_expired(now: i64, expires_at: Option<i64>) -> (r: Result<(), AppError>)
    ensures
        r == (match expires_at {
            Some(e) => if now > e {
                Err(AppError::UrlExpired)
            } else {
                Ok(())
            },
            None => Ok(()),
        }),
{
    match expires_at {
        Some(e) => if now > e {
            Err(AppError::UrlExpired)
        } else {
            Ok(())
        },
        None => Ok(()),
    }
}

/// What the allocator does once a candidate has been checked against the store.
#[derive(Debug, Clone, Copy, PartialEq, Eq, Structural)]
pub enum NextStep {
    /// The candidate is free: hand it out.
    Accept,
    /// The candidate is taken and budget remains: draw another one.
    Retry,
    /// The candidate is taken and the budget is spent.
    GiveUp,
}

/// The allocator's decision after its `attempts`-th existence check, out of `budget`.
pub open spec fn next_step(attempts: u32, budget: u32, taken: bool) -> NextStep {
    if !taken {
        NextStep::Accept
    } else if attempts >= budget {
        NextStep::GiveUp
    } else {
        NextStep::Retry
    }
}

/// Decides what follows the `attempts`-th existence check, whose answer was `taken`.
pub fn after_probe(attempts: u32, budget: u32, taken: bool) -> (r: NextStep)
    ensures
        r == next_step(attempts, budget, taken),
{
    if !taken {
        NextStep::Accept
    } else if attempts >= budget {
        NextStep::GiveUp
    } else {
        NextStep::Retry
    }
}

/// The outcome of a bounded allocation.
#[derive(Debug)]
pub enum Allocation {
    /// `code` was free when checked; `attempts` existence checks were made.
    Allocated { code: String, attempts: u32 },
    /// Every one of `attempts` candidates was taken.
    Exhausted { attempts: u32 },
}

/// The predicate answers `false` for every code.
pub open spec fn never_taken<F: Fn(&String) -> bool>(is_taken: F) -> bool {
    forall|c: &String, b: bool| is_taken.ensures((c,), b) ==> !b
}

/// The predicate answers `true` for every code.
pub open spec fn always_taken<F: Fn(&String) -> bool>(is_taken: F) -> bool {
    forall|c: &String, b: bool| is_taken.ensures((c,), b) ==> b
}

/// `cs` are codes of `length` alphabet characters, each of which `is_taken` answered as taken.
pub open spec fn all_taken<F: Fn(&String) -> bool>(is_taken: F, cs: Seq<String>, length: usize) -> bool {
    forall|i: int|
        0 <= i < cs.len() ==> {
            &&& #[trigger] cs[i]@.len() == length
            &&& is_code_string(cs[i]@)
            &&& is_taken.ensures((&cs[i],), true)
        }
}

/// Draws up to `budget` random codes of `length` characters and returns the first one for
/// which `is_taken` answers `false`, calling `is_taken` once per candidate: an allocation
/// after `attempts` checks follows `attempts - 1` taken candidates, and exhaustion follows
/// `budget` taken candidates. The code is free only at the instant of its check: the
/// store's own uniqueness constraint stays the backstop against a concurrent writer.
pub fn allocate<F: Fn(&String) -> bool>(length: usize, budget: u32, is_taken: F) -> (r: Allocation)
    requires
        length <= usize::MAX / 8,
        forall|c: &String| is_taken.requires((c,)),
    ensures
        match r {
            Allocation::Allocated { code, attempts } => {
                &&& 1 <= attempts <= budget
                &&& code@.len() == length
                &&& is_code_string(code@)
                &&& is_taken.ensures((&code,), false)
                &&& exists|cs: Seq<String>|
                    cs.len() == attempts - 1 && #[trigger] all_taken(is_taken, cs, length)
            },
            Allocation::Exhausted { attempts } => {
                &&& attempts == budget
                &&& exists|cs: Seq<String>|
                    cs.len() == budget && #[trigger] all_taken(is_taken, cs, length)
            },
        },
        never_taken(is_taken) && budget > 0 ==> r matches Allocation::Allocated { attempts: 1, .. },
        always_taken(is_taken) ==> r matches Allocation::Exhausted { .. },
{
    let mut attempts: u32 = 0;
    let ghost mut taken_codes: Seq<String> = Seq::empty();
    while attempts < budget
        invariant
            attempts <= budget,
            length <= usize::MAX / 8,
            forall|c: &String| is_taken.requires((c,)),
            never_taken(is_taken) ==> attempts == 0,
            taken_codes.len() == attempts,
            all_taken(is_taken, taken_codes, length),
        decreases budget - attempts,
    {
        let code = generate_short_code(length);
        let taken = is_taken(&code);
        attempts = attempts + 1;
        match after_probe(attempts, budget, taken) {
            NextStep::Accept => {
                assert(all_taken(is_taken, taken_codes, length));
                return Allocation::Allocated { code, attempts };
            },
            NextStep::GiveUp => {
                proof {
                    let prev = taken_codes;
                    taken_codes = taken_codes.push(code);
                    assert forall|i: int| 0 <= i < taken_codes.len() implies {
                        &&& #[trigger] taken_codes[i]@.len() == length
                        &&& is_code_string(taken_codes[i]@)
                        &&& is_taken.ensures((&taken_codes[i],), true)
                    } by {
                        if i < prev.len() {
                            assert(taken_codes[i] == prev[i]);
                        }
                    }
                    assert(all_taken(is_taken, taken_codes, length));
                }
                return Allocation::Exhausted { attempts };
            },
            NextStep::Retry => {
                proof {
                    let prev = taken_codes;
                    taken_codes = taken_codes.push(code);
                    assert forall|i: int| 0 <= i < taken_codes.len() implies {
                        &&& #[trigger] taken_codes[i]@.len() == length
                        &&& is_code_string(taken_codes[i]@)
                        &&& is_taken.ensures((&taken_codes[i],), true)
                    } by {
                        if i < prev.len() {
                            assert(taken_codes[i] == prev[i]);
                        }
                    }
                }
            },
        }
    }
    assert(all_taken(is_taken, taken_codes, length));
    Allocation::Exhausted { attempts }
}

/// Allocates a code of `length` characters not yet in the store, within `MAX_RETRIES`
/// existence checks.
pub fn generate_unique_code<F: Fn(&String) -> bool>(length: usize, is_taken: F) -> (r: Result<
    String,
    AppError,
>)
    requires
        length <= usize::MAX / 8,
        forall|c: &String| is_taken.requires((c,)),
    ensures
        match r {
            Ok(code) => {
                &&& code@.len() == length
                &&& is_code_string(code@)
                &&& is_taken.ensures((&code,), false)
                &&& exists|cs: Seq<String>|
                    cs.len() < MAX_RETRIES && #[trigger] all_taken(is_taken, cs, length)
            },
            Err(e) => {
                &&& e == AppError::AllocationExhausted { attempts: MAX_RETRIES }
                &&& exists|cs: Seq<String>|
                    cs.len() == MAX_RETRIES && #[trigger] all_taken(is_taken, cs, length)
            },
        },
        never_taken(is_taken) ==> r is Ok,
        always_taken(is_taken) ==> r == Err::<String, AppError>(
            AppError::AllocationExhausted { attempts: MAX_RETRIES },
        ),
{
    match allocate(length, MAX_RETRIES, is_taken) {
        Allocation::Allocated { code, .. } => Ok(code),
        Allocation::Exhausted { attempts } => Err(AppError::AllocationExhausted { attempts }),
    }
}

/// Settles a caller-supplied code once the store has answered whether it is `taken`:
/// the code's own verdict first, then the conflict.
pub fn claim_custom_code(code: String, taken: bool) -> (r: Result<String, AppError>)
    ensures
        r == (match custom_code_verdict(code@) {
            Err(e) => Err(e),
            Ok(_) => if taken {
                Err(AppError::CodeAlreadyExists)
            } else {
                Ok(code)
            },
        }),
{
    match validate_custom_code(code.as_str()) {
        Err(e) => Err(e),
        Ok(()) => if taken {
            Err(AppError::CodeAlreadyExists)
        } else {
            Ok(code)
        },
    }
}

/// Picks the short code of a new link: the caller's own code when one is given (validated,
/// then checked once against the store), else a generated one.
pub fn allocate_short_code<F: Fn(&String) -> bool>(
    length: usize,
    custom_code: Option<String>,
    is_taken: F,
) -> (r: Result<String, AppError>)
    requires
        length <= usize::MAX / 8,
        forall|c: &String| is_taken.requires((c,)),
    ensures
        match custom_code {
            Some(c) => match custom_code_verdict(c@) {
                Err(e) => r == Err::<String, AppError>(e),
                Ok(_) => {
                    ||| r == Ok::<String, AppError>(c) && is_taken.ensures((&c,), false)
                    ||| r == Err::<String, AppError>(AppError::CodeAlreadyExists)
                        && is_taken.ensures((&c,), true)
                },
            },
            None => {
                &&& match r {
                    Ok(code) => {
                        &&& code@.len() == length
                        &&& is_code_string(code@)
                        &&& is_taken.ensures((&code,), false)
                        &&& exists|cs: Seq<String>|
                            cs.len() < MAX_RETRIES && #[trigger] all_taken(is_taken, cs, length)
                    },
                    Err(e) => {
                        &&& e == AppError::AllocationExhausted { attempts: MAX_RETRIES }
                        &&& exists|cs: Seq<String>|
                            cs.len() == MAX_RETRIES && #[trigger] all_taken(is_taken, cs, length)
                    },
                }
                &&& never_taken(is_taken) ==> r is Ok
            },
        },
{
    match custom_code {
        Some(c) => {
            if let Err(e) = validate_custom_code(c.as_str()) {
                return Err(e);
            }
            let taken = is_taken(&c);
            if taken {
                Err(AppError::CodeAlreadyExists)
            } else {
                Ok(c)
            }
        },
        None => generate_unique_code(length, is_taken),
    }
}

} // verus!
