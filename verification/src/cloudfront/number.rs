//! Numbers written in decimal digits.

use vstd::prelude::*;
use vstd::std_specs::iter::IteratorSpec;

verus! {

/// Whether a character is a decimal digit.
pub open spec fn is_digit(c: char) -> bool {
    '0' <= c <= '9'
}

/// The value of a decimal digit; of any other character, zero.
pub open spec fn digit(c: char) -> nat {
    if is_digit(c) {
        (c as nat - '0' as nat) as nat
    } else {
        0
    }
}

/// Whether all characters are decimal digits.
pub open spec fn all_digits(text: Seq<char>) -> bool {
    forall|i: int| 0 <= i < text.len() ==> is_digit(#[trigger] text[i])
}

/// The number that decimal digits stand for.
pub open spec fn digits_value(digits: Seq<char>) -> nat
    decreases digits.len(),
{
    if digits.len() == 0 {
        0
    } else {
        10 * digits_value(digits.drop_last()) + digit(digits.last())
    }
}

/// The digits of a number that may be written with a plus sign before it.
pub open spec fn unsigned(text: Seq<char>) -> Seq<char> {
    if text.len() > 0 && text[0] == '+' {
        text.skip(1)
    } else {
        text
    }
}

/// The number that a text stands for: its digits, at least one, after at most
/// one plus sign. A text with anything else in it stands for none.
pub open spec fn number(text: Seq<char>) -> Option<nat> {
    if unsigned(text).len() > 0 && all_digits(unsigned(text)) {
        Some(digits_value(unsigned(text)))
    } else {
        None
    }
}

/// The number that a text stands for, where it is one of 64 bits.
pub open spec fn number_u64(text: Seq<char>) -> Option<u64> {
    match number(text) {
        Some(n) if n <= u64::MAX => Some(n as u64),
        _ => None,
    }
}

/// More digits do not make a number smaller.
pub proof fn lemma_digits_grow(digits: Seq<char>, k: int)
    requires
        0 <= k <= digits.len(),
    ensures
        digits_value(digits.take(k)) <= digits_value(digits),
    decreases digits.len(),
{
    if k == digits.len() {
        assert(digits.take(k) =~= digits);
    } else {
        lemma_digits_grow(digits.drop_last(), k);
        assert(digits.drop_last().take(k) =~= digits.take(k));
    }
}

/// The value of a character that is a decimal digit.
pub fn digit_of(c: char) -> (d: Option<u64>)
    ensures
        d is Some == is_digit(c),
        d matches Some(v) ==> v == digit(c) && v <= 9,
{
    if c >= '0' && c <= '9' {
        Some((c as u32 - '0' as u32) as u64)
    } else {
        None
    }
}

/// Reads a number of 64 bits: decimal digits, at least one, after at most one
/// plus sign. Gives `None` for any other text, and for a number that does not
/// fit.
pub fn parse_u64(text: &str) -> (r: Option<u64>)
    ensures
        r == number_u64(text@),
{
    let ghost all = text@;
    let mut chars = text.chars();
    proof {
        broadcast use vstd::string::axiom_spec_iter;
    }
    let first = chars.next();
    proof {
        broadcast use vstd::string::next_postcondition;
    }
    let mut value: u64 = 0;
    let ghost mut at: int = 1;
    let ghost mut from: int = 0;
    let mut any = false;
    match first {
        None => {
            return None;
        },
        Some(c) => {
            if c == '+' {
                proof {
                    from = 1;
                }
            } else {
                match digit_of(c) {
                    Some(d) => {
                        value = d;
                        any = true;
                    },
                    None => {
                        return None;
                    },
                }
            }
        },
    }
    proof {
        assert(all.skip(0) =~= all);
        assert(unsigned(all) =~= all.skip(from));
        assert(all.subrange(1, 1) =~= Seq::<char>::empty());
        assert(all.subrange(0, 1).drop_last() =~= Seq::<char>::empty());
        assert(all.subrange(0, 1).last() == all[0]);
        assert(digits_value(Seq::<char>::empty()) == 0);
        assert(digits_value(all.subrange(0, 1)) == digit(all[0]));
    }
    loop
        invariant_except_break
            chars.remaining() == all.skip(at),
        invariant
            all == text@,
            0 <= from <= at <= all.len(),
            unsigned(all) == all.skip(from),
            all_digits(all.subrange(from, at)),
            value == digits_value(all.subrange(from, at)),
            any == (from < at),
        ensures
            at == all.len(),
        decreases all.len() - at,
    {
        let next = chars.next();
        proof {
            broadcast use vstd::string::next_postcondition;
        }
        match next {
            Some(c) => {
                proof {
                    assert(all.skip(at).drop_first() =~= all.skip(at + 1));
                    assert(all.subrange(from, at + 1).drop_last() =~= all.subrange(from, at));
                    assert(unsigned(all).take(at + 1 - from) =~= all.subrange(from, at + 1));
                    assert(unsigned(all)[at - from] == c);
                }
                match digit_of(c) {
                    Some(d) => {
                        if value > (u64::MAX - d) / 10 {
                            proof {
                                lemma_digits_grow(unsigned(all), at + 1 - from);
                            }
                            return None;
                        }
                        value = value * 10 + d;
                        any = true;
                    },
                    None => {
                        return None;
                    },
                }
                proof {
                    at = at + 1;
                }
            },
            None => {
                break ;
            },
        }
    }
    proof {
        assert(all.subrange(from, at) =~= all.skip(from));
    }
    if any {
        Some(value)
    } else {
        None
    }
}

} // verus!
