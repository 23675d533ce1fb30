//! Telling postal codes from city names in a location query.
use vstd::prelude::*;
use vstd::string::*;
use crate::cache::{trim_text, trimmed};

verus! {

/// An ASCII decimal digit.
pub open spec fn is_digit(c: char) -> bool {
    '0' <= c <= '9'
}

/// Every character is an ASCII decimal digit (true of the empty text).
pub open spec fn all_digits(s: Seq<char>) -> bool {
    forall|i: int| 0 <= i < s.len() ==> is_digit(#[trigger] s[i])
}

/// How many commas `s` holds.
pub open spec fn commas(s: Seq<char>) -> nat
    decreases s.len(),
{
    if s.len() == 0 {
        0
    } else {
        commas(s.drop_last()) + if s.last() == ',' {
            1nat
        } else {
            0nat
        }
    }
}

/// `i` is the position of the first comma of `s`.
pub open spec fn first_comma_at(s: Seq<char>, i: int) -> bool {
    0 <= i < s.len() && s[i] == ',' && forall|j: int| 0 <= j < i ==> s[j] != ','
}

/// A query is a postal code when it has at most one comma and the part
/// before the comma (or the whole query), trimmed, is all digits: "60601",
/// "60601,US".
pub open spec fn zip_like(s: Seq<char>) -> bool {
    &&& commas(s) <= 1
    &&& if exists|i: int| first_comma_at(s, i) {
        exists|i: int| first_comma_at(s, i) && all_digits(trimmed(s.subrange(0, i)))
    } else {
        all_digits(trimmed(s))
    }
}

fn digits_only(s: &str) -> (r: bool)
    ensures
        r == all_digits(s@),
{
    let n = s.unicode_len();
    let mut i: usize = 0;
    while i < n
        invariant
            n == s@.len(),
            i <= n,
            forall|j: int| 0 <= j < i ==> is_digit(#[trigger] s@[j]),
        decreases n - i,
    {
        let c = s.get_char(i);
        if !('0' <= c && c <= '9') {
            return false;
        }
        i = i + 1;
    }
    true
}

/// Whether a location query is a postal code rather than a city name.
pub fn is_zip_code(input: &str) -> (r: bool)
    ensures
        r == zip_like(input@),
{
    let n = input.unicode_len();
    let mut count: usize = 0;
    let mut first: Option<usize> = None;
    let mut i: usize = 0;
    while i < n
        invariant
            n == input@.len(),
            i <= n,
            count == commas(input@.subrange(0, i as int)),
            count <= i,
            first is None ==> forall|j: int| 0 <= j < i ==> input@[j] != ',',
            first matches Some(f) ==> f < i && first_comma_at(input@, f as int),
        decreases n - i,
    {
        let c = input.get_char(i);
        proof {
            assert(input@.subrange(0, i + 1).drop_last() =~= input@.subrange(0, i as int));
        }
        if c == ',' {
            count = count + 1;
            if first.is_none() {
                first = Some(i);
            }
        }
        i = i + 1;
    }
    proof {
        assert(input@.subrange(0, n as int) =~= input@);
    }
    if count > 1 {
        return false;
    }
    match first {
        None => digits_only(trim_text(input)),
        Some(f) => {
            let r = digits_only(trim_text(input.substring_char(0, f)));
            proof {
                assert forall|g: int| first_comma_at(input@, g) implies g == f by {
                    if g < f {
                        assert(input@[g] != ',');
                    } else if g > f {
                        assert(input@[f as int] != ',');
                    }
                }
            }
            r
        },
    }
}

} // verus!
