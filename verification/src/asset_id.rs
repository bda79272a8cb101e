//! Asset identifiers and their decimal text.
//!
//! The metadata service echoes a correlation token with every record. The
//! token of a request is the decimal text of the asset id, so a record is
//! matched to its request by reading the token back as a number.

use vstd::prelude::*;

verus! {

/// The character that writes the digit `d`, for `d` below ten.
pub open spec fn digit_char(d: nat) -> char {
    (48 + d) as char
}

/// Whether `c` is one of the ten ASCII digits.
pub open spec fn is_digit(c: char) -> bool {
    48 <= c as int <= 57
}

/// The number a digit character stands for.
pub open spec fn digit_value(c: char) -> nat {
    (c as int - 48) as nat
}

/// The decimal text of `n`: most significant digit first, no sign, no
/// leading zero except for zero itself.
pub open spec fn decimal(n: nat) -> Seq<char>
    decreases n,
{
    if n < 10 {
        seq![digit_char(n)]
    } else {
        decimal(n / 10).push(digit_char(n % 10))
    }
}

/// Whether every character of `s` is an ASCII digit.
pub open spec fn all_digits(s: Seq<char>) -> bool {
    forall|i: int| 0 <= i < s.len() ==> is_digit(#[trigger] s[i])
}

/// The number written by the digit sequence `s`, most significant first.
pub open spec fn digits_value(s: Seq<char>) -> nat
    decreases s.len(),
{
    if s.len() == 0 {
        0
    } else {
        digits_value(s.drop_last()) * 10 + digit_value(s.last())
    }
}

/// The digits of a token: the token without one leading plus sign.
pub open spec fn token_digits(s: Seq<char>) -> Seq<char> {
    if s.len() > 0 && s[0] == '+' {
        s.drop_first()
    } else {
        s
    }
}

/// The asset id that a token denotes, if any: an optional plus sign, then
/// one or more ASCII digits whose value fits in 64 bits.
pub open spec fn token_id(s: Seq<char>) -> Option<u64> {
    let body = token_digits(s);
    if body.len() > 0 && all_digits(body) && digits_value(body) <= u64::MAX {
        Some(digits_value(body) as u64)
    } else {
        None
    }
}

/// `String::push`: the character is appended to the end of the string and
/// the characters before it stay as they were.
#[verifier::external_body]
pub(crate) fn push_char(s: &mut String, c: char)
    ensures
        final(s)@ == old(s)@.push(c),
{
    s.push(c);
}

fn digit_to_char(d: u8) -> (c: char)
    requires
        d < 10,
    ensures
        c == digit_char(d as nat),
{
    (48u8 + d) as char
}

fn append_decimal(out: &mut String, id: u64)
    ensures
        final(out)@ == old(out)@ + decimal(id as nat),
    decreases id,
{
    if id >= 10 {
        append_decimal(out, id / 10);
    }
    let d: u8 = (id % 10) as u8;
    push_char(out, digit_to_char(d));
}

/// The decimal text of an asset id, as it is sent to the metadata service
/// both as the asset to look up and as the correlation token.
pub fn id_to_string(id: u64) -> (text: String)
    ensures
        text@ == decimal(id as nat),
{
    let mut text = String::new();
    append_decimal(&mut text, id);
    text
}

/// The digits of a prefix of a token are a prefix of the digits of the
/// token.
pub proof fn lemma_token_digits_prefix(s: Seq<char>, k: int)
    requires
        0 <= k <= s.len(),
    ensures
        token_digits(s.take(k)).len() <= token_digits(s).len(),
        token_digits(s.take(k)) == token_digits(s).take(token_digits(s.take(k)).len() as int),
{
    assert(token_digits(s.take(k)) =~= token_digits(s).take(
        token_digits(s.take(k)).len() as int,
    ));
}

/// Reads a correlation token back as an asset id.
///
/// Returns the id exactly when the token is an optional plus sign followed
/// by at least one ASCII digit and the number fits in 64 bits.
pub fn parse_id(token: &str) -> (id: Option<u64>)
    ensures
        id == token_id(token@),
{
    let ghost all = token@;
    let mut value: u64 = 0;
    let mut at_start: bool = true;
    let mut has_digit: bool = false;
    proof {
        assert(all.take(0) =~= Seq::<char>::empty());
    }
    for c in it: token.chars()
        invariant
            it.seq() == all,
            all == token@,
            at_start == (it.index() == 0),
            has_digit == (token_digits(all.take(it.index() as int)).len() > 0),
            all_digits(token_digits(all.take(it.index() as int))),
            value == digits_value(token_digits(all.take(it.index() as int))),
    {
        let ghost before = token_digits(all.take(it.index() as int));
        let ghost read = all.take(it.index() + 1);
        proof {
            assert(read =~= all.take(it.index() as int).push(c));
            lemma_token_digits_prefix(all, it.index() + 1);
        }
        if at_start && c == '+' {
            proof {
                assert(token_digits(read) =~= Seq::<char>::empty());
            }
        } else {
            proof {
                assert(token_digits(read) =~= before.push(c));
                assert(token_digits(read).drop_last() =~= before);
            }
            if !(c >= '0' && c <= '9') {
                proof {
                    assert(token_digits(all)[before.len() as int] == c);
                }
                return None;
            }
            let d: u64 = (c as u32 - 48) as u64;
            if value > (u64::MAX - d) / 10 {
                proof {
                    assert(digits_value(token_digits(read)) == value * 10 + d);
                    lemma_digits_value_grows(token_digits(all), (before.len() + 1) as int);
                }
                return None;
            }
            value = value * 10 + d;
            has_digit = true;
            proof {
                assert forall|k: int| 0 <= k < token_digits(read).len() implies is_digit(
                    #[trigger] token_digits(read)[k],
                ) by {
                    if k < before.len() {
                        assert(token_digits(read)[k] == before[k]);
                    }
                }
            }
        }
        at_start = false;
    }
    proof {
        assert(all.take(all.len() as int) =~= all);
    }
    if has_digit {
        Some(value)
    } else {
        None
    }
}

/// The value of a digit sequence is at least the value of each of its
/// prefixes.
pub proof fn lemma_digits_value_grows(s: Seq<char>, k: int)
    requires
        0 <= k <= s.len(),
    ensures
        digits_value(s.take(k)) <= digits_value(s),
    decreases s.len() - k,
{
    if k < s.len() {
        lemma_digits_value_grows(s, k + 1);
        assert(s.take(k + 1).drop_last() =~= s.take(k));
    } else {
        assert(s.take(k) =~= s);
    }
}

/// The decimal text of a number consists of digits only, is never empty,
/// and writes that number.
pub proof fn lemma_decimal_digits(n: nat)
    ensures
        decimal(n).len() > 0,
        all_digits(decimal(n)),
        digits_value(decimal(n)) == n,
    decreases n,
{
    if n < 10 {
        assert(decimal(n).drop_last() =~= Seq::<char>::empty());
        assert(digits_value(decimal(n).drop_last()) == 0);
    } else {
        lemma_decimal_digits(n / 10);
        assert(decimal(n).drop_last() =~= decimal(n / 10));
    }
}

/// Reading back the decimal text of an asset id gives that id.
pub proof fn lemma_token_round_trip(id: u64)
    ensures
        token_id(decimal(id as nat)) == Some(id),
{
    lemma_decimal_digits(id as nat);
    assert(is_digit(decimal(id as nat)[0]));
}

/// Two asset ids with the same decimal text are the same id.
pub proof fn lemma_decimal_injective(a: u64, b: u64)
    requires
        decimal(a as nat) == decimal(b as nat),
    ensures
        a == b,
{
    lemma_decimal_digits(a as nat);
    lemma_decimal_digits(b as nat);
}

} // verus!
