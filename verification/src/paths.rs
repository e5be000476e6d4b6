//! Paths of fields that a reader of descriptors did not consume. A path is
//! the position of the interface in its document, a dot, and the path of the
//! field below the interface: `0.ipv4.forwarding`.

use vstd::prelude::*;
use crate::search::{first_index, lemma_first_index_absent, lemma_first_index_found};

verus! {

/// Whether a character is a decimal digit.
pub open spec fn is_digit(c: char) -> bool {
    '0' <= c <= '9'
}

/// The value of a decimal digit, and 0 for any other character.
pub open spec fn digit_of(c: char) -> nat {
    if is_digit(c) {
        (c as nat - '0' as nat) as nat
    } else {
        0
    }
}

/// Whether a text holds decimal digits only.
pub open spec fn all_digits(s: Seq<char>) -> bool {
    forall|i: int| 0 <= i < s.len() ==> is_digit(#[trigger] s[i])
}

/// The number that a run of decimal digits denotes.
pub open spec fn digits_value(s: Seq<char>) -> nat
    decreases s.len(),
{
    if s.len() == 0 {
        0
    } else {
        digits_value(s.drop_last()) * 10 + digit_of(s.last())
    }
}

/// The digits of a text that may begin with a plus sign.
pub open spec fn unsigned_part(s: Seq<char>) -> Seq<char> {
    if s.len() > 0 && s[0] == '+' {
        s.skip(1)
    } else {
        s
    }
}

/// The position that a text denotes: one or more decimal digits, after a
/// plus sign or not, with a value that a `usize` holds.
pub open spec fn index_of_text(s: Seq<char>) -> Option<nat> {
    let d = unsigned_part(s);
    if d.len() > 0 && all_digits(d) && digits_value(d) <= usize::MAX {
        Some(digits_value(d))
    } else {
        None
    }
}

/// A path taken apart at its first dot: the position before it and the field
/// after it. Nothing where there is no dot or no position before it.
pub open spec fn split_path(path: Seq<char>) -> Option<(nat, Seq<char>)> {
    match first_index(path, '.') {
        Some(dot) => match index_of_text(path.take(dot)) {
            Some(position) => Some((position, path.skip(dot + 1))),
            None => None,
        },
        None => None,
    }
}

/// A prefix of a run of digits denotes no more than the whole run.
pub proof fn lemma_digits_value_grows(s: Seq<char>, k: int)
    requires
        0 <= k <= s.len(),
    ensures
        digits_value(s.take(k)) <= digits_value(s),
    decreases s.len() - k,
{
    if k == s.len() {
        assert(s.take(k) =~= s);
    } else {
        lemma_digits_value_grows(s, k + 1);
        assert(s.take(k + 1).drop_last() =~= s.take(k));
    }
}

/// Reads a position.
pub fn parse_index(text: &str) -> (r: Option<usize>)
    ensures
        match r {
            Some(i) => index_of_text(text@) == Some(i as nat),
            None => index_of_text(text@).is_none(),
        },
{
    let n = text.unicode_len();
    let start: usize = if n > 0 && text.get_char(0) == '+' {
        1
    } else {
        0
    };
    let ghost d = unsigned_part(text@);
    assert(d == text@.skip(start as int));
    if start == n {
        return None;
    }
    let mut value: usize = 0;
    let mut i: usize = start;
    assert(d.take(0).len() == 0);
    while i < n
        invariant
            start <= i <= n,
            n == text@.len(),
            d == text@.skip(start as int),
            d == unsigned_part(text@),
            all_digits(d.take(i - start)),
            value == digits_value(d.take(i - start)),
        decreases n - i,
    {
        let c = text.get_char(i);
        let ghost k = i - start;
        assert(d[k] == c);
        if !(c >= '0' && c <= '9') {
            assert(!all_digits(d));
            return None;
        }
        let digit: usize = ((c as u32) - ('0' as u32)) as usize;
        proof {
            assert(d.take(k + 1).drop_last() =~= d.take(k));
            assert(d.take(k + 1).last() == c);
            assert(digits_value(d.take(k + 1)) == value * 10 + digit);
            assert forall|j: int| 0 <= j < k + 1 implies is_digit(#[trigger] d.take(k + 1)[j]) by {
                if j < k {
                    assert(d.take(k)[j] == d[j]);
                }
            }
        }
        if value > (usize::MAX - digit) / 10 {
            proof {
                lemma_digits_value_grows(d, k + 1);
            }
            return None;
        }
        value = value * 10 + digit;
        i += 1;
    }
    assert(d.take(n - start) =~= d);
    Some(value)
}

/// The position of the first `c` in `text`.
pub fn find_char(text: &str, c: char) -> (r: Option<usize>)
    ensures
        match r {
            Some(i) => first_index(text@, c) == Some(i as int),
            None => first_index(text@, c).is_none(),
        },
{
    let n = text.unicode_len();
    let mut i: usize = 0;
    while i < n
        invariant
            i <= n,
            n == text@.len(),
            forall|j: int| 0 <= j < i ==> text@[j] != c,
        decreases n - i,
    {
        if text.get_char(i) == c {
            proof {
                lemma_first_index_found(text@, c, i as int);
            }
            return Some(i);
        }
        i += 1;
    }
    proof {
        lemma_first_index_absent(text@, c);
    }
    None
}

/// Takes a path apart into the position of its interface and the field.
pub fn split_field_path(path: &str) -> (r: Option<(usize, String)>)
    ensures
        match r {
            Some(parts) => split_path(path@) == Some((parts.0 as nat, parts.1@)),
            None => split_path(path@).is_none(),
        },
{
    match find_char(path, '.') {
        Some(dot) => {
            proof {
                crate::search::lemma_first_index(path@, '.');
            }
            let n = path.unicode_len();
            let head = path.substring_char(0, dot);
            assert(head@ =~= path@.take(dot as int));
            match parse_index(head) {
                Some(position) => {
                    let tail = path.substring_char(dot + 1, n);
                    assert(tail@ =~= path@.skip(dot + 1));
                    Some((position, tail.to_owned()))
                },
                None => None,
            }
        },
        None => None,
    }
}

} // verus!
