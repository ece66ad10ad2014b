use vstd::prelude::*;
use vstd::string::StrSliceExecFns;
use vstd::string::StringExecFns;
use crate::text::{chars_of, find, lemma_find_from, occurs_at};

verus! {

/// The number of prompts in one round of a benchmark run.
pub const ROUND_SIZE: usize = 50;

/// Opens the single-turn prompt sent to the model.
pub const USER_PREFIX: &'static str = "user: ";

/// Closes the single-turn prompt and leaves the assistant turn open.
pub const ASSISTANT_SUFFIX: &'static str = "\nassistant: ";

/// Why a requested number of prompts cannot be run.
#[derive(Debug, Clone, Copy, PartialEq, Eq, Structural)]
pub enum QuantityError {
    /// The number is not a whole number of rounds.
    NotMultipleOfRound,
}

/// The number of rounds that make up `quantity` prompts, when it is a whole
/// number of rounds.
pub fn rounds_for(quantity: usize) -> (r: Result<usize, QuantityError>)
    ensures
        quantity % ROUND_SIZE == 0 ==> r == Ok::<usize, QuantityError>(
            (quantity / ROUND_SIZE) as usize,
        ),
        quantity % ROUND_SIZE != 0 ==> r == Err::<usize, QuantityError>(
            QuantityError::NotMultipleOfRound,
        ),
{
    if quantity % ROUND_SIZE != 0 {
        Err(QuantityError::NotMultipleOfRound)
    } else {
        Ok(quantity / ROUND_SIZE)
    }
}

/// `prompt` as one user turn followed by an open assistant turn.
pub fn user_turn(prompt: &str) -> (r: String)
    ensures
        r@ == USER_PREFIX@ + prompt@ + ASSISTANT_SUFFIX@,
{
    let mut r = String::from_str(USER_PREFIX);
    r.append(prompt);
    r.append(ASSISTANT_SUFFIX);
    r
}

/// Which prompt each request of a run sends: the whole list, in order, once
/// per round.
pub fn request_order(n_prompts: usize, rounds: usize) -> (r: Vec<usize>)
    requires
        n_prompts * rounds <= usize::MAX,
    ensures
        r@.len() == n_prompts * rounds,
        forall|i: int| 0 <= i < r@.len() ==> r@[i] == i % (n_prompts as int),
{
    let mut r: Vec<usize> = Vec::new();
    let mut round: usize = 0;
    while round < rounds
        invariant
            n_prompts * rounds <= usize::MAX,
            round <= rounds,
            r@.len() == n_prompts * round,
            forall|i: int| 0 <= i < r@.len() ==> r@[i] == i % (n_prompts as int),
        decreases rounds - round,
    {
        let mut k: usize = 0;
        while k < n_prompts
            invariant
                n_prompts * rounds <= usize::MAX,
                round < rounds,
                k <= n_prompts,
                r@.len() == n_prompts * round + k,
                forall|i: int| 0 <= i < r@.len() ==> r@[i] == i % (n_prompts as int),
            decreases n_prompts - k,
        {
            proof {
                assert((n_prompts * round + k) % (n_prompts as int) == k) by (nonlinear_arith)
                    requires
                        k < n_prompts,
                ;
            }
            r.push(k);
            k = k + 1;
        }
        proof {
            assert(n_prompts * round + n_prompts == n_prompts * (round + 1)) by (nonlinear_arith);
        }
        round = round + 1;
    }
    r
}

/// The sum of `counts`, as the average over a run needs it.
pub fn total(counts: &Vec<u64>) -> (r: u128)
    requires
        counts@.len() <= u64::MAX,
    ensures
        r == sum_of(counts@),
{
    let mut r: u128 = 0;
    let mut i: usize = 0;
    while i < counts.len()
        invariant
            counts@.len() <= u64::MAX,
            i <= counts@.len(),
            r == sum_of(counts@.take(i as int)),
            r <= i * (u64::MAX as int),
        decreases counts@.len() - i,
    {
        proof {
            assert(counts@.take(i + 1).drop_last() =~= counts@.take(i as int));
            assert((i + 1) * (u64::MAX as int) == i * (u64::MAX as int) + u64::MAX)
                by (nonlinear_arith);
            assert((i + 1) * (u64::MAX as int) <= (u64::MAX as int) * (u64::MAX as int))
                by (nonlinear_arith)
                requires
                    i + 1 <= u64::MAX,
            ;
        }
        r = r + counts[i] as u128;
        i = i + 1;
    }
    assert(counts@.take(i as int) =~= counts@);
    r
}

/// The sum of a sequence of counts.
pub open spec fn sum_of(s: Seq<u64>) -> int
    decreases s.len(),
{
    if s.len() == 0 {
        0
    } else {
        sum_of(s.drop_last()) + s.last()
    }
}

/// Separates the system prompt from a case.
pub const LINE_FEED: &'static str = "\n";

/// Marks the prompt files of the per-file benchmark by their name.
pub const CASE_TAG: &'static str = "cisco";

/// Whether a file name carries the case tag.
pub fn is_case_file(name: &str) -> (r: bool)
    ensures
        r == exists|i: int| occurs_at(name@, CASE_TAG@, i),
{
    proof {
        reveal_strlit("cisco");
        lemma_find_from(name@, CASE_TAG@, 0);
    }
    find(&chars_of(name), &chars_of(CASE_TAG)).is_some()
}

/// The decimal digits of `n`, most significant first.
pub open spec fn decimal_spec(n: nat) -> Seq<char>
    decreases n,
{
    if n < 10 {
        seq![digit_char(n)]
    } else {
        decimal_spec(n / 10).push(digit_char(n % 10))
    }
}

/// The character of a decimal digit.
pub open spec fn digit_char(d: nat) -> char {
    ((48 + d) as u8) as char
}

/// Relies on `usize::to_string`: the decimal digits of `n`, without sign or
/// leading zeros.
#[verifier::external_body]
fn decimal(n: usize) -> (r: String)
    ensures
        r@ == decimal_spec(n as nat),
{
    n.to_string()
}

/// `s` with `piece` inserted before its character at position `at`.
pub fn insert_at(s: &str, at: usize, piece: &str) -> (r: String)
    requires
        at <= s@.len(),
    ensures
        r@ == s@.take(at as int) + piece@ + s@.skip(at as int),
{
    let n = s.unicode_len();
    let mut r = s.substring_char(0, at).to_owned();
    r.append(piece);
    r.append(s.substring_char(at, n));
    proof {
        assert(s@.subrange(0, at as int) =~= s@.take(at as int));
        assert(s@.subrange(at as int, n as int) =~= s@.skip(at as int));
    }
    r
}

/// The system prompt of the `count`-th request: the number written in
/// decimal before the character at position `at`.
pub fn numbered_system_prompt(system: &str, at: usize, count: usize) -> (r: String)
    requires
        at <= system@.len(),
    ensures
        r@ == system@.take(at as int) + decimal_spec(count as nat) + system@.skip(at as int),
{
    let digits = decimal(count);
    insert_at(system, at, digits.as_str())
}

/// The prompt of one case: the system prompt, a line break, and the case.
pub fn case_prompt(system: &str, content: &str) -> (r: String)
    ensures
        r@ == system@ + LINE_FEED@ + content@,
{
    let mut r = String::from_str(system);
    r.append(LINE_FEED);
    r.append(content);
    r
}

} // verus!
