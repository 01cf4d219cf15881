//! Verified decimal reading and writing for the unsigned integers that the
//! mission-code format carries.

use vstd::prelude::*;

verus! {

/// Is `c` a decimal digit?
pub open spec fn is_digit(c: char) -> bool {
    c == '0' || c == '1' || c == '2' || c == '3' || c == '4' || c == '5' || c == '6' || c == '7'
        || c == '8' || c == '9'
}

/// The value of the digit `c`; meaningful only when `is_digit(c)`.
pub open spec fn digit_val(c: char) -> int {
    if c == '0' {
        0
    } else if c == '1' {
        1
    } else if c == '2' {
        2
    } else if c == '3' {
        3
    } else if c == '4' {
        4
    } else if c == '5' {
        5
    } else if c == '6' {
        6
    } else if c == '7' {
        7
    } else if c == '8' {
        8
    } else {
        9
    }
}

/// The digit character for `d`; meaningful only when `0 <= d <= 9`.
pub open spec fn digit_char(d: int) -> char {
    if d == 0 {
        '0'
    } else if d == 1 {
        '1'
    } else if d == 2 {
        '2'
    } else if d == 3 {
        '3'
    } else if d == 4 {
        '4'
    } else if d == 5 {
        '5'
    } else if d == 6 {
        '6'
    } else if d == 7 {
        '7'
    } else if d == 8 {
        '8'
    } else {
        '9'
    }
}

/// Are all characters of `s` decimal digits?
pub open spec fn all_digits(s: Seq<char>) -> bool {
    forall|i: int| 0 <= i < s.len() ==> is_digit(#[trigger] s[i])
}

/// The number denoted by the digit string `s`, most significant digit first.
pub open spec fn digits_val(s: Seq<char>) -> int
    decreases s.len(),
{
    if s.len() == 0 {
        0
    } else {
        digits_val(s.drop_last()) * 10 + digit_val(s.last())
    }
}

/// A digit string denotes a value no smaller than any of its prefixes'.
pub proof fn lemma_digits_val_monotonic(s: Seq<char>, i: int)
    requires
        all_digits(s),
        0 <= i <= s.len(),
    ensures
        0 <= digits_val(s.take(i)) <= digits_val(s),
    decreases s.len() - i,
{
    if i == s.len() {
        assert(s.take(i) =~= s);
        lemma_digits_val_nonneg(s);
    } else {
        lemma_digits_val_monotonic(s, i + 1);
        assert(s.take(i + 1).drop_last() =~= s.take(i));
        assert(digits_val(s.take(i + 1)) == digits_val(s.take(i)) * 10 + digit_val(
            s.take(i + 1).last(),
        ));
        lemma_digits_val_nonneg(s.take(i));
    }
}

/// A digit string denotes a non-negative value.
pub proof fn lemma_digits_val_nonneg(s: Seq<char>)
    requires
        all_digits(s),
    ensures
        digits_val(s) >= 0,
    decreases s.len(),
{
    if s.len() > 0 {
        assert(all_digits(s.drop_last()));
        lemma_digits_val_nonneg(s.drop_last());
    }
}

/// The number that `parse_decimal` reads from `s`, if any: an optional `'+'`
/// sign, then one or more digits, denoting a value that fits in `usize`.
pub open spec fn spec_parse_decimal(s: Seq<char>) -> Option<int> {
    let body = if s.len() > 0 && s[0] == '+' {
        s.drop_first()
    } else {
        s
    };
    if body.len() == 0 || !all_digits(body) {
        None
    } else if digits_val(body) > usize::MAX {
        None
    } else {
        Some(digits_val(body))
    }
}

/// Read a `usize` from `v` in decimal, accepting one leading `'+'` and
/// rejecting anything else that is not a digit, overflow included.
pub fn parse_decimal(v: &Vec<char>) -> (r: Option<usize>)
    ensures
        match r {
            Some(n) => spec_parse_decimal(v@) == Some(n as int),
            None => spec_parse_decimal(v@) is None,
        },
{
    let start: usize = if v.len() > 0 && v[0] == '+' {
        1
    } else {
        0
    };
    let ghost body = if v@.len() > 0 && v@[0] == '+' {
        v@.drop_first()
    } else {
        v@
    };
    proof {
        assert(body =~= v@.skip(start as int));
    }
    if v.len() == start {
        return None;
    }
    let mut acc: usize = 0;
    let mut i: usize = start;
    while i < v.len()
        invariant
            start <= i <= v@.len(),
            body == v@.skip(start as int),
            body == (if v@.len() > 0 && v@[0] == '+' {
                v@.drop_first()
            } else {
                v@
            }),
            all_digits(body.take(i - start)),
            acc == digits_val(body.take(i - start)),
        decreases v@.len() - i,
    {
        let c = v[i];
        let d: usize = match c {
            '0' => 0,
            '1' => 1,
            '2' => 2,
            '3' => 3,
            '4' => 4,
            '5' => 5,
            '6' => 6,
            '7' => 7,
            '8' => 8,
            '9' => 9,
            _ => {
                proof {
                    assert(body[i - start] == v@[i as int]);
                    assert(!is_digit(body[i - start]));
                    assert(!all_digits(body));
                    assert(spec_parse_decimal(v@) is None);
                }
                return None;
            },
        };
        proof {
            assert(body[i - start] == v@[i as int]);
            assert(is_digit(body[i - start]) && digit_val(body[i - start]) == d);
            assert(body.take(i - start + 1).drop_last() =~= body.take(i - start));
            assert(all_digits(body.take(i - start + 1)));
        }
        if acc > usize::MAX / 10 || (acc == usize::MAX / 10 && d > usize::MAX % 10) {
            proof {
                assert(usize::MAX == 10 * (usize::MAX / 10) + (usize::MAX % 10));
                assert(body.take(i - start + 1).last() == body[i - start]);
                assert(digits_val(body.take(i - start + 1)) == acc * 10 + d);
                assert(digits_val(body.take(i - start + 1)) > usize::MAX);
                if all_digits(body) {
                    lemma_digits_val_monotonic(body, i - start + 1);
                    assert(digits_val(body) > usize::MAX);
                }
                assert(spec_parse_decimal(v@) is None);
            }
            return None;
        }
        proof {
            assert(usize::MAX == 10 * (usize::MAX / 10) + (usize::MAX % 10));
            assert(acc * 10 + d <= usize::MAX);
            assert(body.take(i - start + 1).last() == body[i - start]);
            assert(digits_val(body.take(i - start + 1)) == acc * 10 + d);
        }
        acc = acc * 10 + d;
        i = i + 1;
    }
    proof {
        assert(body.take(v@.len() - start) =~= body);
    }
    Some(acc)
}

/// The decimal digit string of `v`, most significant digit first, with no
/// sign and no leading zero except for zero itself.
pub open spec fn spec_decimal(v: int) -> Seq<char>
    decreases v,
{
    if v <= 9 {
        seq![digit_char(v)]
    } else {
        spec_decimal(v / 10).push(digit_char(v % 10))
    }
}

/// Write `v` in decimal.
pub fn u64_to_string(v: u64) -> (r: String)
    ensures
        r@ == spec_decimal(v as int),
{
    let mut digits: Vec<char> = Vec::new();
    let mut cur: u64 = v;
    loop
        invariant_except_break
            spec_decimal(v as int) =~= spec_decimal(cur as int) + digits@.reverse(),
        ensures
            spec_decimal(v as int) =~= digits@.reverse(),
        decreases cur,
    {
        let d: u64 = cur % 10;
        let c: char = match d {
            0 => '0',
            1 => '1',
            2 => '2',
            3 => '3',
            4 => '4',
            5 => '5',
            6 => '6',
            7 => '7',
            8 => '8',
            _ => '9',
        };
        proof {
            assert(c == digit_char(cur as int % 10));
        }
        if cur <= 9 {
            digits.push(c);
            proof {
                assert(spec_decimal(cur as int) =~= seq![c]);
                assert(digits@.reverse() =~= seq![c] + digits@.drop_last().reverse());
                assert(spec_decimal(v as int) =~= digits@.reverse());
            }
            break;
        }
        digits.push(c);
        proof {
            assert(digits@.reverse() =~= seq![c] + digits@.drop_last().reverse());
            assert(spec_decimal(cur as int) =~= spec_decimal(cur as int / 10).push(c));
            assert(spec_decimal(cur as int) + digits@.drop_last().reverse() =~= spec_decimal(
                cur as int / 10,
            ) + digits@.reverse());
        }
        cur = cur / 10;
    }
    let mut r = String::new();
    let mut i: usize = digits.len();
    while i > 0
        invariant
            i <= digits@.len(),
            r@ == digits@.reverse().take(digits@.len() - i),
        decreases i,
    {
        i = i - 1;
        crate::text::push_char(&mut r, digits[i]);
        proof {
            assert(digits@.reverse()[digits@.len() - 1 - i] == digits@[i as int]);
            assert(r@ =~= digits@.reverse().take(digits@.len() - i));
        }
    }
    proof {
        assert(digits@.reverse().take(digits@.len() as int) =~= digits@.reverse());
    }
    r
}

} // verus!
