use vstd::prelude::*;
use vstd::string::StrSliceExecFns;

verus! {

/// Whether `c` is a decimal digit.
pub open spec fn is_digit(c: char) -> bool {
    48 <= c as u32 && c as u32 <= 57
}

/// The digit's value.
pub open spec fn digit_val(c: char) -> int {
    c as u32 - 48
}

/// Whether every character is a decimal digit.
pub open spec fn all_digits(s: Seq<char>) -> bool {
    forall|i: int| 0 <= i < s.len() ==> is_digit(#[trigger] s[i])
}

/// The number a digit sequence denotes.
pub open spec fn digits_val(s: Seq<char>) -> int
    decreases s.len(),
{
    if s.len() == 0 {
        0
    } else {
        digits_val(s.drop_last()) * 10 + digit_val(s.last())
    }
}

/// The number an optionally `+`-signed decimal numeral denotes, absent
/// when the text is not such a numeral or the number does not fit.
pub open spec fn spec_parse_u128(s: Seq<char>) -> Option<u128> {
    spec_parse_u128_of(
        if s.len() > 0 && s[0] == '+' {
            s.drop_first()
        } else {
            s
        },
    )
}

/// The numeral denoted by an already-unsigned digit text.
pub open spec fn spec_parse_u128_of(ds: Seq<char>) -> Option<u128> {
    if ds.len() == 0 || !all_digits(ds) {
        None
    } else if digits_val(ds) > u128::MAX {
        None
    } else {
        Some(digits_val(ds) as u128)
    }
}

/// A digit sequence denotes a nonnegative number.
pub proof fn lemma_digits_val_nonneg(s: Seq<char>)
    requires
        all_digits(s),
    ensures
        digits_val(s) >= 0,
    decreases s.len(),
{
    if s.len() > 0 {
        assert(all_digits(s.drop_last())) by {
            assert(forall|i: int| 0 <= i < s.len() - 1 ==> s.drop_last()[i] == s[i]);
        }
        lemma_digits_val_nonneg(s.drop_last());
    }
}

/// A digit sequence denotes at least what any of its prefixes denotes.
pub proof fn lemma_digits_val_prefix(s: Seq<char>, j: int)
    requires
        all_digits(s),
        0 <= j <= s.len(),
    ensures
        digits_val(s.take(j)) <= digits_val(s),
    decreases s.len() - j,
{
    if j == s.len() {
        assert(s.take(j) =~= s);
    } else {
        lemma_digits_val_prefix(s, j + 1);
        assert(s.take(j + 1).drop_last() =~= s.take(j));
        assert(all_digits(s.take(j))) by {
            assert(forall|i: int| 0 <= i < j ==> s.take(j)[i] == s[i]);
        }
        lemma_digits_val_nonneg(s.take(j));
        assert(digits_val(s.take(j + 1)) == digits_val(s.take(j)) * 10 + digit_val(
            s.take(j + 1).last(),
        ));
        assert(digit_val(s.take(j + 1).last()) >= 0);
        assert(digits_val(s.take(j)) * 10 >= digits_val(s.take(j)));
    }
}

/// Reads an optionally `+`-signed decimal numeral, exactly as
/// `spec_parse_u128` describes.
pub fn parse_u128(s: &str) -> (r: Option<u128>)
    ensures
        r == spec_parse_u128(s@),
{
    let n = s.unicode_len();
    let mut start: usize = 0;
    if n > 0 {
        let c0 = s.get_char(0);
        if c0 == '+' {
            start = 1;
        }
    }
    let ghost ds = if s@.len() > 0 && s@[0] == '+' {
        s@.drop_first()
    } else {
        s@
    };
    proof {
        assert(ds.len() == n - start);
        assert(forall|i: int| 0 <= i < ds.len() ==> ds[i] == s@[i + start]);
    }
    if n == start {
        return None;
    }
    let mut acc: u128 = 0;
    let mut i: usize = start;
    while i < n
        invariant
            start <= i <= n,
            n == s@.len(),
            start <= 1,
            ds == (if s@.len() > 0 && s@[0] == '+' {
                s@.drop_first()
            } else {
                s@
            }),
            ds.len() == n - start,
            forall|j: int| 0 <= j < ds.len() ==> ds[j] == s@[j + start],
            all_digits(ds.take(i - start)),
            acc == digits_val(ds.take(i - start)),
        decreases n - i,
    {
        let c = s.get_char(i);
        let u = c as u32;
        if u < 48 || u > 57 {
            proof {
                assert(ds[i - start] == c);
                assert(!all_digits(ds)) by {
                    assert(!is_digit(ds[i - start]));
                }
            }
            return None;
        }
        let d = (u - 48) as u128;
        proof {
            assert(ds.take(i - start + 1).drop_last() =~= ds.take(i - start));
            assert(ds.take(i - start + 1).last() == ds[i - start]);
            assert(all_digits(ds.take(i - start + 1))) by {
                assert(forall|j: int|
                    0 <= j < i - start + 1 ==> ds.take(i - start + 1)[j] == ds[j]);
                assert(is_digit(ds[i - start]));
            }
            assert(digits_val(ds.take(i - start + 1)) == acc * 10 + d);
        }
        let acc10 = match acc.checked_mul(10) {
            Some(v) => v,
            None => {
                proof {
                    overflow_rest(ds, i - start + 1, acc * 10 + d);
                }
                return None;
            },
        };
        let acc1 = match acc10.checked_add(d) {
            Some(v) => v,
            None => {
                proof {
                    overflow_rest(ds, i - start + 1, acc * 10 + d);
                }
                return None;
            },
        };
        acc = acc1;
        i = i + 1;
    }
    proof {
        assert(ds.take(n - start) =~= ds);
    }
    Some(acc)
}

/// When some prefix of the digits already denotes more than fits, the
/// whole numeral does too.
proof fn overflow_rest(ds: Seq<char>, j: int, val: int)
    requires
        0 <= j <= ds.len(),
        all_digits(ds.take(j)),
        digits_val(ds.take(j)) == val,
        val > u128::MAX,
    ensures
        spec_parse_u128_of(ds) is None,
{
    if all_digits(ds) {
        lemma_digits_val_prefix(ds, j);
    }
}

} // verus!
