//! What a request asks for: the threshold named by the `since` parameter of
//! a query, read from its text.

use vstd::prelude::*;

verus! {

/// Whether `byte` is one of the characters `0` to `9`.
pub open spec fn is_digit(byte: u8) -> bool {
    0x30 <= byte <= 0x39
}

/// Whether `text` is a decimal numeral: one digit or more and nothing else.
pub open spec fn is_numeral(text: Seq<u8>) -> bool {
    &&& text.len() > 0
    &&& forall|i: int| 0 <= i < text.len() ==> is_digit(#[trigger] text[i])
}

/// The number that the digits of `text` write in base ten.
pub open spec fn numeral_value(text: Seq<u8>) -> nat
    decreases text.len(),
{
    if text.len() == 0 {
        0
    } else {
        numeral_value(text.drop_last()) * 10 + (text.last() - 0x30) as nat
    }
}

/// The threshold that a request asks for. A parameter that is a decimal
/// numeral no greater than the largest timestamp names its value. A request
/// without the parameter, or with one that is anything else, asks for
/// everything: its threshold is zero.
pub open spec fn threshold_of(since: Option<Seq<u8>>) -> u64 {
    match since {
        Some(text) => if is_numeral(text) && numeral_value(text) <= u64::MAX {
            numeral_value(text) as u64
        } else {
            0
        },
        None => 0,
    }
}

/// A numeral is worth at least as much as any of its beginnings.
pub proof fn lemma_numeral_value_grows(text: Seq<u8>, n: int)
    requires
        0 <= n <= text.len(),
        forall|i: int| 0 <= i < text.len() ==> is_digit(#[trigger] text[i]),
    ensures
        numeral_value(text.take(n)) <= numeral_value(text),
    decreases text.len() - n,
{
    if n == text.len() {
        assert(text.take(n) =~= text);
    } else {
        let longer = text.take(n + 1);
        assert(longer.drop_last() =~= text.take(n));
        assert(longer.last() == text[n]);
        lemma_numeral_value_grows(text, n + 1);
    }
}

/// Reads the threshold that a request asks for from the text of its `since`
/// parameter, where it has one.
pub fn parse_since(since: Option<&[u8]>) -> (threshold: u64)
    ensures
        threshold == threshold_of(
            match since {
                Some(text) => Some(text@),
                None => None,
            },
        ),
{
    let text = match since {
        Some(text) => text,
        None => {
            return 0;
        },
    };
    if text.len() == 0 {
        return 0;
    }
    let mut value: u64 = 0;
    let mut i: usize = 0;
    while i < text.len()
        invariant
            since == Some(text),
            0 <= i <= text@.len(),
            forall|k: int| 0 <= k < i ==> is_digit(#[trigger] text@[k]),
            value == numeral_value(text@.take(i as int)),
        decreases text@.len() - i,
    {
        let byte = text[i];
        if byte < 0x30 || byte > 0x39 {
            return 0;
        }
        let digit: u64 = (byte - 0x30) as u64;
        proof {
            let longer = text@.take(i + 1);
            assert(longer.drop_last() =~= text@.take(i as int));
            assert(longer.last() == byte);
            assert(numeral_value(longer) == value * 10 + digit);
        }
        let grown = match value.checked_mul(10) {
            Some(tenfold) => tenfold.checked_add(digit),
            None => None,
        };
        match grown {
            Some(next) => {
                value = next;
            },
            None => {
                proof {
                    if is_numeral(text@) {
                        lemma_numeral_value_grows(text@, i + 1);
                    }
                }
                return 0;
            },
        }
        i += 1;
    }
    proof {
        assert(text@.take(i as int) =~= text@);
    }
    value
}

} // verus!
