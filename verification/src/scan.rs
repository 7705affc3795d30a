//! Character-level scanning used by the bind-address grammar: digit
//! classification, bounded number parsing, and searches within a character
//! range of a string.
//!
//! Every executable function returns exactly what its specification-level
//! counterpart denotes, so the address grammar can be stated once, as spec
//! functions, and proved about both the parser and the resolution rules.

use vstd::prelude::*;
use vstd::string::StrSliceExecFns;

verus! {

/// A decimal digit `0`..`9`.
pub open spec fn is_digit(c: char) -> bool {
    48 <= c as u32 && c as u32 <= 57
}

/// A digit of the given base: decimal, or hexadecimal with both letter cases.
pub open spec fn is_radix_digit(c: char, base: nat) -> bool {
    is_digit(c) || (base == 16 && ((97 <= c as u32 && c as u32 <= 102) || (65 <= c as u32
        && c as u32 <= 70)))
}

/// The numeric value of a digit character; zero on anything else.
pub open spec fn char_val(c: char) -> nat {
    if 97 <= c as u32 && c as u32 <= 102 {
        (c as u32 - 87) as nat
    } else if 65 <= c as u32 && c as u32 <= 70 {
        (c as u32 - 55) as nat
    } else if is_digit(c) {
        (c as u32 - 48) as nat
    } else {
        0
    }
}

/// Every character of `s` in `[i, j)` is a digit of the given base.
pub open spec fn all_radix(s: Seq<char>, i: int, j: int, base: nat) -> bool {
    forall|k: int| i <= k < j ==> is_radix_digit(s[k], base)
}

/// The value of the digits of `s` in `[i, j)` read in the given base.
pub open spec fn num_value(s: Seq<char>, i: int, j: int, base: nat) -> nat
    decreases j - i,
{
    if j <= i {
        0
    } else {
        num_value(s, i, j - 1, base) * base + char_val(s[j - 1])
    }
}

/// Reading more digits never lowers the value.
pub proof fn lemma_num_value_mono(s: Seq<char>, i: int, k: int, j: int, base: nat)
    requires
        i <= k <= j,
        base >= 1,
    ensures
        num_value(s, i, j, base) >= num_value(s, i, k, base),
    decreases j - k,
{
    if k < j {
        lemma_num_value_mono(s, i, k, j - 1, base);
        let v = num_value(s, i, j - 1, base);
        assert(v * base >= v) by (nonlinear_arith)
            requires
                base >= 1,
                v >= 0,
        ;
    }
}

/// A number of at most `max_digits` digits in `[i, j)`, read in `base`,
/// bounded by `max_val`, with a leading zero allowed only where `allow_lead`
/// says so (or for the single digit `0` itself).
pub open spec fn parse_num_spec(
    s: Seq<char>,
    i: int,
    j: int,
    base: nat,
    max_digits: nat,
    max_val: nat,
    allow_lead: bool,
) -> Option<nat> {
    if i < j && j - i <= max_digits && all_radix(s, i, j, base) && (allow_lead || j - i == 1 || s[i]
        != '0') && num_value(s, i, j, base) <= max_val {
        Some(num_value(s, i, j, base))
    } else {
        None
    }
}

/// The position of the first occurrence of `c` in `[i, j)` of `s`.
pub open spec fn find_char(s: Seq<char>, i: int, j: int, c: char) -> Option<int>
    decreases j - i,
{
    if i >= j {
        None
    } else if s[i] == c {
        Some(i)
    } else {
        find_char(s, i + 1, j, c)
    }
}

/// What a successful or failed search means, position by position.
pub proof fn lemma_find_char(s: Seq<char>, i: int, j: int, c: char)
    ensures
        match find_char(s, i, j, c) {
            Some(k) => i <= k < j && s[k] == c && (forall|m: int| i <= m < k ==> s[m] != c),
            None => forall|m: int| i <= m < j ==> s[m] != c,
        },
    decreases j - i,
{
    if i >= j {
    } else if s[i] == c {
    } else {
        lemma_find_char(s, i + 1, j, c);
    }
}

/// How many occurrences of `c` the range `[i, j)` of `s` holds.
pub open spec fn count_char(s: Seq<char>, i: int, j: int, c: char) -> nat
    decreases j - i,
{
    if i >= j {
        0
    } else {
        (if s[i] == c {
            1nat
        } else {
            0nat
        }) + count_char(s, i + 1, j, c)
    }
}

/// Occurrence counts add across a split of the range.
pub proof fn lemma_count_char_split(s: Seq<char>, i: int, k: int, j: int, c: char)
    requires
        i <= k <= j,
    ensures
        count_char(s, i, j, c) == count_char(s, i, k, c) + count_char(s, k, j, c),
    decreases k - i,
{
    if i < k {
        lemma_count_char_split(s, i + 1, k, j, c);
    }
}

/// A range without the character has count zero.
pub proof fn lemma_count_char_none(s: Seq<char>, i: int, j: int, c: char)
    requires
        forall|m: int| i <= m < j ==> s[m] != c,
    ensures
        count_char(s, i, j, c) == 0,
    decreases j - i,
{
    if i < j {
        lemma_count_char_none(s, i + 1, j, c);
    }
}

/// Whether a digit of the given kind stands at `c`.
pub fn is_radix_digit_exec(c: char, hex: bool) -> (r: bool)
    ensures
        r == is_radix_digit(
            c,
            if hex {
                16nat
            } else {
                10nat
            },
        ),
{
    let u = c as u32;
    (48 <= u && u <= 57) || (hex && ((97 <= u && u <= 102) || (65 <= u && u <= 70)))
}

/// The numeric value of a digit character.
pub fn char_val_exec(c: char) -> (r: u32)
    ensures
        r == char_val(c),
{
    let u = c as u32;
    if 97 <= u && u <= 102 {
        u - 87
    } else if 65 <= u && u <= 70 {
        u - 55
    } else if 48 <= u && u <= 57 {
        u - 48
    } else {
        0
    }
}

/// Parses the number that `parse_num_spec` denotes on the same arguments.
pub fn parse_num_exec(
    s: &str,
    i: usize,
    j: usize,
    hex: bool,
    max_digits: usize,
    max_val: u32,
    allow_lead: bool,
) -> (r: Option<u32>)
    requires
        i <= j <= s@.len(),
        1 <= max_digits <= 5,
        max_val <= 65535,
    ensures
        ({
            let sp = parse_num_spec(
                s@,
                i as int,
                j as int,
                if hex {
                    16nat
                } else {
                    10nat
                },
                max_digits as nat,
                max_val as nat,
                allow_lead,
            );
            match r {
                Some(v) => sp == Some(v as nat),
                None => sp is None,
            }
        }),
{
    let ghost base: nat = if hex {
        16nat
    } else {
        10nat
    };
    if i == j || j - i > max_digits {
        return None;
    }
    if !allow_lead && j - i > 1 && s.get_char(i) == '0' {
        return None;
    }
    let base_exec: u32 = if hex {
        16
    } else {
        10
    };
    let mut acc: u32 = 0;
    let mut k: usize = i;
    while k < j
        invariant
            i <= k <= j,
            j <= s@.len(),
            all_radix(s@, i as int, k as int, base),
            acc == num_value(s@, i as int, k as int, base),
            acc <= max_val,
            max_val <= 65535,
            base == if hex {
                16nat
            } else {
                10nat
            },
            base_exec == base,
        decreases j - k,
    {
        let c = s.get_char(k);
        if !is_radix_digit_exec(c, hex) {
            return None;
        }
        acc = acc * base_exec + char_val_exec(c);
        if acc > max_val {
            proof {
                lemma_num_value_mono(s@, i as int, k + 1 as int, j as int, base);
            }
            return None;
        }
        k = k + 1;
    }
    Some(acc)
}

} // verus!
