//! How the service is set up: how many chunks are moderated at a time, and how large they are.

use vstd::prelude::*;

verus! {

/// The settings of a running service.
#[derive(Debug, Clone)]
pub struct AppState {
    pub version: String,
    pub max_concurrency: usize,
    pub chunk_size: usize,
}

/// Whether every character is a decimal digit.
pub open spec fn all_digits(text: Seq<char>) -> bool {
    forall|i: int| 0 <= i < text.len() ==> '0' <= #[trigger] text[i] <= '9'
}

/// The number that decimal digits stand for.
pub open spec fn digits_value(digits: Seq<char>) -> int
    decreases digits.len(),
{
    if digits.len() == 0 {
        0
    } else {
        digits_value(digits.drop_last()) * 10 + (digits.last() as int - '0' as int)
    }
}

/// `text` without a leading plus sign.
pub open spec fn without_plus(text: Seq<char>) -> Seq<char> {
    if text.len() > 0 && text[0] == '+' {
        text.skip(1)
    } else {
        text
    }
}

/// The number that `text` stands for: decimal digits after an optional plus sign, not too large.
pub open spec fn parsed(text: Seq<char>) -> Option<usize> {
    let digits = without_plus(text);
    if digits.len() > 0 && all_digits(digits) && digits_value(digits) <= usize::MAX {
        Some(digits_value(digits) as usize)
    } else {
        None
    }
}

/// `str::parse` to `usize`: a number is an optional plus sign and then decimal digits alone;
/// anything else, and a number that does not fit, is an error.
#[verifier::external_body]
fn parse_usize(text: &str) -> (number: Option<usize>)
    ensures
        number == parsed(text@),
{
    text.parse::<usize>().ok()
}

/// The number that a setting stands for, if it is given and is a number.
pub open spec fn setting_value(setting: Option<&str>) -> Option<usize> {
    match setting {
        Some(text) => parsed(text@),
        None => None,
    }
}

fn read_setting(setting: Option<&str>) -> (number: Option<usize>)
    ensures
        number == setting_value(setting),
{
    match setting {
        Some(text) => parse_usize(text),
        None => None,
    }
}

/// How many chunks are moderated at a time where nothing is set: eight for each core, but no
/// fewer than 16 and no more than 256.
pub open spec fn default_concurrency(cpu_cores: int) -> int {
    if cpu_cores * 8 < 16 {
        16
    } else if cpu_cores * 8 > 256 {
        256
    } else {
        cpu_cores * 8
    }
}

/// How many chunks are moderated at a time.
pub fn max_concurrency(setting: Option<&str>, cpu_cores: usize) -> (concurrency: usize)
    requires
        setting_value(setting) is None ==> cpu_cores * 8 <= usize::MAX,
    ensures
        concurrency == match setting_value(setting) {
            Some(number) => number as int,
            None => default_concurrency(cpu_cores as int),
        },
{
    match read_setting(setting) {
        Some(number) => number,
        None => {
            let wanted: usize = cpu_cores * 8;
            let raised: usize = if wanted < 16 {
                16
            } else {
                wanted
            };
            if raised > 256 {
                256
            } else {
                raised
            }
        },
    }
}

/// How many messages a chunk has: 32 where nothing is set.
pub fn chunk_size(setting: Option<&str>) -> (size: usize)
    ensures
        size == match setting_value(setting) {
            Some(number) => number,
            None => 32usize,
        },
{
    match read_setting(setting) {
        Some(number) => number,
        None => 32,
    }
}

impl AppState {
    /// The settings of this version of the service.
    pub fn configured(
        concurrency_setting: Option<&str>,
        chunk_setting: Option<&str>,
        cpu_cores: usize,
    ) -> (state: AppState)
        requires
            setting_value(concurrency_setting) is None ==> cpu_cores * 8 <= usize::MAX,
        ensures
            state.version@ == "0.1.0"@,
            state.max_concurrency == match setting_value(concurrency_setting) {
                Some(number) => number as int,
                None => default_concurrency(cpu_cores as int),
            },
            state.chunk_size == match setting_value(chunk_setting) {
                Some(number) => number,
                None => 32usize,
            },
    {
        AppState {
            version: "0.1.0".to_owned(),
            max_concurrency: max_concurrency(concurrency_setting, cpu_cores),
            chunk_size: chunk_size(chunk_setting),
        }
    }
}

/// Where nothing is set, between 16 and 256 chunks are moderated at a time, and no fewer on a
/// machine with more cores.
pub proof fn default_concurrency_is_bounded(cpu_cores: int, more_cores: int)
    requires
        0 <= cpu_cores <= more_cores,
    ensures
        16 <= default_concurrency(cpu_cores) <= 256,
        default_concurrency(cpu_cores) <= default_concurrency(more_cores),
{
}

/// Where nothing is set, eight chunks are moderated at a time for each core on a machine with 2
/// to 32 cores, 16 on a smaller one and 256 on a larger one.
pub proof fn default_concurrency_is_eight_for_each_core(cpu_cores: int)
    ensures
        2 <= cpu_cores <= 32 ==> default_concurrency(cpu_cores) == 8 * cpu_cores,
        cpu_cores < 2 ==> default_concurrency(cpu_cores) == 16,
        cpu_cores > 32 ==> default_concurrency(cpu_cores) == 256,
{
}

/// A setting that is given counts as the number that its text stands for; one that is not given
/// counts as none.
pub proof fn given_setting_is_read(text: &str)
    ensures
        setting_value(Some(text)) == parsed(text@),
        setting_value(None) is None,
{
}

proof fn lemma_digits_stand_for_no_less_than_zero(digits: Seq<char>)
    requires
        all_digits(digits),
    ensures
        digits_value(digits) >= 0,
    decreases digits.len(),
{
    if digits.len() > 0 {
        let front = digits.drop_last();
        assert(all_digits(front)) by {
            assert forall|i: int| 0 <= i < front.len() implies '0' <= #[trigger] front[i]
                <= '9' by {
                assert(front[i] == digits[i]);
            }
        }
        lemma_digits_stand_for_no_less_than_zero(front);
        assert('0' <= digits[digits.len() - 1]);
    }
}

/// A number is read digit by digit: a single digit is its own number, and one more digit makes
/// it ten times as large and adds the digit. A number too large to hold is none.
pub proof fn number_is_read_digit_by_digit(digits: Seq<char>, digit: char)
    requires
        '0' <= digit <= '9',
    ensures
        parsed(seq![digit]) == Some((digit as int - '0' as int) as usize),
        parsed(digits) matches Some(n) ==> {
            let more = n * 10 + (digit as int - '0' as int);
            &&& more <= usize::MAX ==> parsed(digits.push(digit)) == Some(more as usize)
            &&& more > usize::MAX ==> parsed(digits.push(digit)) is None
        },
{
    let one = seq![digit];
    assert(one.drop_last() =~= Seq::empty());
    assert(without_plus(one) == one);
    reveal_with_fuel(digits_value, 2);
    assert(digits_value(one) == digit as int - '0' as int);
    assert(all_digits(one));
    if parsed(digits) is Some {
        let plain = without_plus(digits);
        assert(digits.push(digit).len() > 0);
        assert(without_plus(digits.push(digit)) =~= plain.push(digit));
        assert(plain.push(digit).drop_last() =~= plain);
        assert(digits_value(plain.push(digit)) == digits_value(plain) * 10 + (digit as int
            - '0' as int));
        assert(all_digits(plain.push(digit)));
        lemma_digits_stand_for_no_less_than_zero(plain);
        lemma_digits_stand_for_no_less_than_zero(plain.push(digit));
    }
}

/// A leading plus sign makes no difference to a number. A text without digits is no number, nor
/// is one that holds anything but digits behind its first character.
pub proof fn only_digits_make_a_number(text: Seq<char>, i: int)
    ensures
        text.len() > 0 && text[0] != '+' ==> parsed(seq!['+'] + text) == parsed(text),
        text.len() == 0 ==> parsed(text) is None && parsed(seq!['+'] + text) is None,
        0 < i < text.len() && !('0' <= text[i] <= '9') ==> parsed(text) is None,
        text.len() > 0 && !('0' <= text[0] <= '9') && text[0] != '+' ==> parsed(text) is None,
{
    let signed = seq!['+'] + text;
    assert(signed.skip(1) =~= text);
    assert(signed[0] == '+');
    if 0 < i < text.len() && !('0' <= text[i] <= '9') {
        if text[0] == '+' {
            assert(text.skip(1)[i - 1] == text[i]);
        }
        assert(!all_digits(without_plus(text)));
    }
}

} // verus!
