//! Decimal text of unsigned 64-bit amounts.
//!
//! The grammar is the one the standard library reads for `u64`: an optional
//! single `+`, then one or more ASCII digits, with a value that fits. The
//! printer writes the shortest such text.

use vstd::prelude::*;
use vstd::string::*;

verus! {

/// Why a piece of text is not an amount.
#[derive(Debug, Clone, Copy, PartialEq, Eq, Structural)]
pub enum AmountError {
    /// The text is empty.
    Empty,
    /// A character that is no digit stands where a digit must.
    InvalidDigit,
    /// The digits, read so far, already exceed `u64::MAX`.
    Overflow,
}

impl AmountError {
    /// What the error says, in words.
    pub open spec fn text(self) -> Seq<char> {
        match self {
            AmountError::Empty => "cannot parse integer from empty string"@,
            AmountError::InvalidDigit => "invalid digit found in string"@,
            AmountError::Overflow => "number too large to fit in target type"@,
        }
    }

    /// What the error says, in words.
    pub fn describe(&self) -> (words: &'static str)
        ensures
            words@ == self.text(),
    {
        match self {
            AmountError::Empty => "cannot parse integer from empty string",
            AmountError::InvalidDigit => "invalid digit found in string",
            AmountError::Overflow => "number too large to fit in target type",
        }
    }
}

pub open spec fn is_digit(c: char) -> bool {
    '0' <= c && c <= '9'
}

pub open spec fn digit_value(c: char) -> nat
    recommends
        is_digit(c),
{
    (c as u32 - '0' as u32) as nat
}

pub open spec fn digit_char(d: nat) -> char
    recommends
        d < 10,
{
    (d + '0' as u32) as char
}

/// The number that a run of digits denotes, most significant digit first.
pub open spec fn decimal_value(s: Seq<char>) -> nat
    decreases s.len(),
{
    if s.len() == 0 {
        0
    } else {
        10 * decimal_value(s.drop_last()) + digit_value(s.last())
    }
}

/// Length of the longest prefix of `s` made of digits only.
pub open spec fn digit_prefix_len(s: Seq<char>) -> nat
    decreases s.len(),
{
    if s.len() == 0 || !is_digit(s[0]) {
        0
    } else {
        1 + digit_prefix_len(s.skip(1))
    }
}

/// The text without its sign: one leading `+` is dropped when digits may follow.
pub open spec fn unsigned_part(s: Seq<char>) -> Seq<char> {
    if s.len() > 1 && s[0] == '+' {
        s.skip(1)
    } else {
        s
    }
}

/// What a piece of text means as an amount.
///
/// `Ok` exactly when the unsigned part is a non-empty run of digits whose
/// value fits in 64 bits. Otherwise the error names the first thing that
/// goes wrong from the left: a value that has outgrown 64 bits before any
/// foreign character is met is an overflow, anything else an invalid digit.
pub open spec fn parse_amount_spec(s: Seq<char>) -> Result<u64, AmountError> {
    let body = unsigned_part(s);
    let p = digit_prefix_len(body) as int;
    if s.len() == 0 {
        Err(AmountError::Empty)
    } else if decimal_value(body.take(p)) > u64::MAX {
        Err(AmountError::Overflow)
    } else if p < body.len() {
        Err(AmountError::InvalidDigit)
    } else {
        Ok(decimal_value(body) as u64)
    }
}

/// The shortest decimal text of `n`.
pub open spec fn decimal_text(n: nat) -> Seq<char>
    decreases n,
{
    if n < 10 {
        seq![digit_char(n)]
    } else {
        decimal_text(n / 10).push(digit_char(n % 10))
    }
}

/// Every position before the digit prefix's end holds a digit, and the
/// position at its end, if there is one, does not.
pub proof fn lemma_digit_prefix(s: Seq<char>)
    ensures
        digit_prefix_len(s) <= s.len(),
        forall|j: int| 0 <= j < digit_prefix_len(s) ==> is_digit(#[trigger] s[j]),
        digit_prefix_len(s) < s.len() ==> !is_digit(s[digit_prefix_len(s) as int]),
    decreases s.len(),
{
    if s.len() == 0 || !is_digit(s[0]) {
    } else {
        let t = s.skip(1);
        lemma_digit_prefix(t);
        assert forall|j: int| 0 <= j < digit_prefix_len(s) implies is_digit(#[trigger] s[j]) by {
            if j > 0 {
                assert(s[j] == t[j - 1]);
            }
        }
        if digit_prefix_len(s) < s.len() {
            assert(s[digit_prefix_len(s) as int] == t[digit_prefix_len(t) as int]);
        }
    }
}

/// The digit prefix ends at `k` when digits fill the first `k` positions and
/// none stands at position `k`.
pub proof fn lemma_digit_prefix_is(s: Seq<char>, k: int)
    requires
        0 <= k <= s.len(),
        forall|j: int| 0 <= j < k ==> is_digit(#[trigger] s[j]),
        k < s.len() ==> !is_digit(s[k]),
    ensures
        digit_prefix_len(s) == k,
{
    lemma_digit_prefix(s);
    let p = digit_prefix_len(s) as int;
    if p < k {
        assert(is_digit(s[p]));
    } else if p > k {
        assert(is_digit(s[k]));
    }
}

/// Reading one more digit multiplies by ten and adds the digit.
pub proof fn lemma_value_step(s: Seq<char>, k: int)
    requires
        0 <= k < s.len(),
    ensures
        decimal_value(s.take(k + 1)) == 10 * decimal_value(s.take(k)) + digit_value(s[k]),
{
    assert(s.take(k + 1).drop_last() =~= s.take(k));
}

/// A longer prefix never denotes a smaller number.
pub proof fn lemma_value_monotone(s: Seq<char>, a: int, b: int)
    requires
        0 <= a <= b <= s.len(),
    ensures
        decimal_value(s.take(a)) <= decimal_value(s.take(b)),
    decreases b - a,
{
    if a < b {
        lemma_value_monotone(s, a, b - 1);
        lemma_value_step(s, b - 1);
    }
}

/// Reads an amount.
pub fn parse_amount(text: &str) -> (r: Result<u64, AmountError>)
    ensures
        r == parse_amount_spec(text@),
{
    let n = text.unicode_len();
    if n == 0 {
        return Err(AmountError::Empty);
    }
    let start: usize = if n > 1 && text.get_char(0) == '+' {
        1
    } else {
        0
    };
    let ghost body = unsigned_part(text@);
    assert(body == text@.skip(start as int));
    let mut acc: u64 = 0;
    let mut i: usize = start;
    assert(body.take(0) =~= Seq::<char>::empty());
    while i < n
        invariant
            start <= i <= n,
            n == text@.len(),
            body == unsigned_part(text@),
            body == text@.skip(start as int),
            forall|j: int| 0 <= j < i - start ==> is_digit(#[trigger] body[j]),
            acc == decimal_value(body.take(i - start)),
        decreases n - i,
    {
        let c = text.get_char(i);
        let ghost k = (i - start) as int;
        assert(body[k] == c);
        if !(c >= '0' && c <= '9') {
            proof {
                lemma_digit_prefix_is(body, k);
            }
            return Err(AmountError::InvalidDigit);
        }
        let d: u64 = (c as u32 - '0' as u32) as u64;
        proof {
            lemma_value_step(body, k);
            lemma_digit_prefix(body);
            if digit_prefix_len(body) <= k {
                assert(!is_digit(body[digit_prefix_len(body) as int]));
            }
            lemma_value_monotone(body, k + 1, digit_prefix_len(body) as int);
        }
        let stepped: Option<u64> = match acc.checked_mul(10) {
            Some(m) => m.checked_add(d),
            None => None,
        };
        match stepped {
            Some(v) => {
                acc = v;
            },
            None => {
                return Err(AmountError::Overflow);
            },
        }
        i += 1;
    }
    proof {
        lemma_digit_prefix_is(body, body.len() as int);
        assert(body.take(body.len() as int) =~= body);
    }
    Ok(acc)
}

/// The one-character text of a digit.
fn digit_str(d: u64) -> (r: &'static str)
    requires
        d < 10,
    ensures
        r@ == seq![digit_char(d as nat)],
{
    proof {
        reveal_strlit("0");
        reveal_strlit("1");
        reveal_strlit("2");
        reveal_strlit("3");
        reveal_strlit("4");
        reveal_strlit("5");
        reveal_strlit("6");
        reveal_strlit("7");
        reveal_strlit("8");
        reveal_strlit("9");
    }
    let r = match d {
        0 => "0",
        1 => "1",
        2 => "2",
        3 => "3",
        4 => "4",
        5 => "5",
        6 => "6",
        7 => "7",
        8 => "8",
        _ => "9",
    };
    assert(r@ =~= seq![digit_char(d as nat)]);
    r
}

/// Appends the shortest decimal text of `n` to `out`.
pub fn push_decimal(out: &mut String, n: u64)
    ensures
        final(out)@ == old(out)@ + decimal_text(n as nat),
    decreases n,
{
    if n >= 10 {
        push_decimal(out, n / 10);
    }
    out.append(digit_str(n % 10));
    assert(out@ =~= old(out)@ + decimal_text(n as nat));
}

/// The printed text is a non-empty run of digits that denotes the number.
pub proof fn lemma_decimal_text(n: nat)
    ensures
        decimal_text(n).len() >= 1,
        forall|j: int| 0 <= j < decimal_text(n).len() ==> is_digit(#[trigger] decimal_text(n)[j]),
        decimal_value(decimal_text(n)) == n,
    decreases n,
{
    let t = decimal_text(n);
    if n < 10 {
        assert(t.drop_last() =~= Seq::<char>::empty());
        assert(decimal_value(t.drop_last()) == 0);
    } else {
        lemma_decimal_text(n / 10);
        assert(t.drop_last() =~= decimal_text(n / 10));
    }
}

/// Printing an amount and reading the text back gives the amount.
pub proof fn lemma_print_then_parse(n: u64)
    ensures
        parse_amount_spec(decimal_text(n as nat)) == Ok::<u64, AmountError>(n),
{
    let t = decimal_text(n as nat);
    lemma_decimal_text(n as nat);
    assert(is_digit(t[0]));
    assert(unsigned_part(t) == t);
    lemma_digit_prefix_is(t, t.len() as int);
    assert(t.take(t.len() as int) =~= t);
}

} // verus!
