use vstd::prelude::*;
use vstd::slice::slice_subrange;

verus! {

/// The position of the first occurrence of `b` in `s`, or the length
/// of `s` if it never occurs.
pub open spec fn first_byte(s: Seq<u8>, b: u8) -> int
    decreases s.len(),
{
    if s.len() == 0 {
        0
    } else if s[0] == b {
        0
    } else {
        1 + first_byte(s.skip(1), b)
    }
}

/// The first occurrence lies between zero and the length, nothing
/// before it matches, and it matches unless it is the length.
pub proof fn lemma_first_byte(s: Seq<u8>, b: u8)
    ensures
        0 <= first_byte(s, b) <= s.len(),
        forall|j: int| 0 <= j < first_byte(s, b) ==> s[j] != b,
        first_byte(s, b) < s.len() ==> s[first_byte(s, b)] == b,
    decreases s.len(),
{
    if s.len() > 0 && s[0] != b {
        lemma_first_byte(s.skip(1), b);
        assert(forall|j: int| 1 <= j < s.len() ==> s[j] == s.skip(1)[j - 1]);
    }
}

/// Finds the first occurrence of `b` in `s`, or the length of `s`.
pub fn find_byte(s: &[u8], b: u8) -> (i: usize)
    ensures
        i == first_byte(s@, b),
{
    proof {
        lemma_first_byte(s@, b);
    }
    let n = s.len();
    let mut i: usize = 0;
    proof {
        assert(s@.skip(0) =~= s@);
    }
    while i < n
        invariant
            n == s@.len(),
            0 <= i <= n,
            first_byte(s@, b) == i + first_byte(s@.skip(i as int), b),
            forall|j: int| 0 <= j < i ==> s@[j] != b,
        decreases n - i,
    {
        proof {
            assert(s@.skip(i as int)[0] == s@[i as int]);
            assert(s@.skip(i as int).skip(1) =~= s@.skip(i as int + 1));
        }
        if s[i] == b {
            return i;
        }
        i = i + 1;
    }
    proof {
        assert(s@.skip(n as int) =~= Seq::<u8>::empty());
    }
    i
}

/// A line with a trailing carriage return stripped.
pub open spec fn strip_cr(s: Seq<u8>) -> Seq<u8> {
    if s.len() > 0 && s[s.len() - 1] == 13 {
        s.drop_last()
    } else {
        s
    }
}

/// Strips one trailing carriage return, if present.
pub fn strip_cr_slice<'a>(s: &'a [u8]) -> (r: &'a [u8])
    ensures
        r@ == strip_cr(s@),
{
    let n = s.len();
    if n > 0 && s[n - 1] == 13 {
        let r = slice_subrange(s, 0, n - 1);
        proof {
            assert(s@.subrange(0, n as int - 1) =~= s@.drop_last());
        }
        r
    } else {
        s
    }
}

/// Whether every byte is an ASCII decimal digit.
pub open spec fn all_digits(s: Seq<u8>) -> bool {
    forall|j: int| 0 <= j < s.len() ==> 48 <= #[trigger] s[j] <= 57
}

/// The value of a digit string, most significant digit first.
pub open spec fn digits_val(s: Seq<u8>) -> int
    decreases s.len(),
{
    if s.len() == 0 {
        0
    } else {
        digits_val(s.drop_last()) * 10 + (s.last() - 48)
    }
}

/// Ten to the `n`.
pub open spec fn pow10(n: nat) -> int
    decreases n,
{
    if n == 0 {
        1
    } else {
        10 * pow10((n - 1) as nat)
    }
}

/// A digit string's value is non-negative and below ten to its
/// length.
pub proof fn lemma_digits_val_bound(s: Seq<u8>)
    requires
        all_digits(s),
    ensures
        0 <= digits_val(s) < pow10(s.len()),
    decreases s.len(),
{
    if s.len() > 0 {
        assert(all_digits(s.drop_last()));
        lemma_digits_val_bound(s.drop_last());
        assert(pow10(s.len()) == 10 * pow10((s.len() - 1) as nat));
    }
}

/// Ten to the eighteen, spelled out; every accepted integer field
/// fits well inside a machine word.
pub proof fn lemma_pow10_18()
    ensures
        pow10(18) == 1_000_000_000_000_000_000,
        pow10(12) == 1_000_000_000_000,
        pow10(3) == 1000,
        pow10(2) == 100,
        pow10(1) == 10,
        pow10(0) == 1,
{
    reveal_with_fuel(pow10, 19);
}

/// Ten to the power is monotone in the exponent.
pub proof fn lemma_pow10_increases(a: nat, b: nat)
    requires
        a <= b,
    ensures
        pow10(a) <= pow10(b),
        pow10(a) >= 1,
    decreases b,
{
    if a < b {
        lemma_pow10_increases(a, (b - 1) as nat);
        assert(pow10(b) == 10 * pow10((b - 1) as nat));
    } else if b > 0 {
        lemma_pow10_increases((a - 1) as nat, (b - 1) as nat);
    }
}

/// Reads a digit string of at most `max_len` digits. Nothing else —
/// an empty string, a stray byte, or a longer string — is accepted.
pub fn parse_digits(s: &[u8], max_len: usize) -> (r: Option<i64>)
    requires
        1 <= max_len <= 18,
    ensures
        r == if 1 <= s@.len() <= max_len && all_digits(s@) {
            Some(digits_val(s@) as i64)
        } else {
            None::<i64>
        },
        r is Some ==> 0 <= digits_val(s@) < pow10(s@.len() as nat) <= pow10(18)
            && r.unwrap() == digits_val(s@),
{
    let n = s.len();
    if n < 1 || n > max_len {
        return None;
    }
    let mut acc: i64 = 0;
    let mut i: usize = 0;
    proof {
        assert(s@.take(0) =~= Seq::<u8>::empty());
        lemma_pow10_18();
    }
    while i < n
        invariant
            n == s@.len(),
            1 <= n <= 18,
            0 <= i <= n,
            all_digits(s@.take(i as int)),
            acc == digits_val(s@.take(i as int)),
            0 <= acc < pow10(i as nat),
            pow10(18) == 1_000_000_000_000_000_000,
        decreases n - i,
    {
        let d = s[i];
        if d < 48 || d > 57 {
            proof {
                assert(!all_digits(s@));
            }
            return None;
        }
        proof {
            assert(s@.take(i as int + 1).drop_last() =~= s@.take(i as int));
            assert(s@.take(i as int + 1).last() == s@[i as int]);
            lemma_pow10_increases(i as nat + 1, 18);
            lemma_pow10_increases(i as nat, 17);
            assert(pow10(i as nat + 1) == 10 * pow10(i as nat));
        }
        acc = acc * 10 + ((d - 48) as i64);
        i = i + 1;
        proof {
            assert(all_digits(s@.take(i as int)));
        }
    }
    proof {
        assert(s@.take(n as int) =~= s@);
        lemma_pow10_increases(n as nat, 18);
        lemma_digits_val_bound(s@);
    }
    Some(acc)
}

/// An accepted integer field fits well inside a machine word.
pub proof fn lemma_parse_int_fits(s: Seq<u8>)
    requires
        spec_parse_int(s) is Some,
    ensures
        -1_000_000_000_000_000_000 < spec_parse_int(s).unwrap() < 1_000_000_000_000_000_000,
{
    lemma_pow10_18();
    let digits = if s.len() > 0 && s[0] == 45 {
        s.skip(1)
    } else {
        s
    };
    lemma_digits_val_bound(digits);
    lemma_pow10_increases(digits.len() as nat, 18);
}

/// An accepted decimal field's milli value fits well inside a
/// machine word.
pub proof fn lemma_parse_milli_fits(s: Seq<u8>)
    requires
        spec_parse_milli(s) is Some,
    ensures
        -1_000_000_000_000_000 < spec_parse_milli(s).unwrap() < 1_000_000_000_000_000,
{
    lemma_pow10_18();
    let body = if s.len() > 0 && s[0] == 45 {
        s.skip(1)
    } else {
        s
    };
    let dot = first_byte(body, 46);
    let int_part = body.take(dot);
    let frac = if dot == body.len() {
        Seq::<u8>::empty()
    } else {
        body.skip(dot + 1)
    };
    lemma_digits_val_bound(int_part);
    lemma_pow10_increases(int_part.len() as nat, 12);
    if frac.len() >= 3 {
        lemma_digits_val_bound(frac.take(3));
    } else if frac.len() >= 1 {
        lemma_digits_val_bound(frac);
        lemma_pow10_increases(frac.len() as nat, 2);
    }
}

/// The value of a signed integer field: an optional minus sign and
/// one to eighteen digits, nothing else.
pub open spec fn spec_parse_int(s: Seq<u8>) -> Option<int> {
    let (neg, digits) = if s.len() > 0 && s[0] == 45 {
        (true, s.skip(1))
    } else {
        (false, s)
    };
    if 1 <= digits.len() <= 18 && all_digits(digits) {
        Some(
            if neg {
                -digits_val(digits)
            } else {
                digits_val(digits)
            },
        )
    } else {
        None
    }
}

/// Parses a signed integer field.
pub fn parse_int(s: &[u8]) -> (r: Option<i64>)
    ensures
        r == match spec_parse_int(s@) {
            Some(v) => Some(v as i64),
            None => None::<i64>,
        },
        r is Some ==> -1_000_000_000_000_000_000 < r.unwrap() < 1_000_000_000_000_000_000,
{
    proof {
        lemma_pow10_18();
    }
    if s.len() > 0 && s[0] == 45 {
        let digits = slice_subrange(s, 1, s.len());
        proof {
            assert(s@.subrange(1, s@.len() as int) =~= s@.skip(1));
        }
        match parse_digits(digits, 18) {
            Some(v) => {
                proof {
                    lemma_pow10_increases(digits@.len() as nat, 18);
                }
                Some(-v)
            },
            None => None,
        }
    } else {
        match parse_digits(s, 18) {
            Some(v) => {
                proof {
                    lemma_pow10_increases(s@.len() as nat, 18);
                }
                Some(v)
            },
            None => None,
        }
    }
}

/// The milli-unit value of a decimal field: an optional minus sign,
/// an integer part of at most twelve digits, and optionally a dot
/// and a fractional part, of which the first three digits count.
/// At least one digit must be present on one of the two sides.
pub open spec fn spec_parse_milli(s: Seq<u8>) -> Option<int> {
    let (neg, body) = if s.len() > 0 && s[0] == 45 {
        (true, s.skip(1))
    } else {
        (false, s)
    };
    let dot = first_byte(body, 46);
    let int_part = body.take(dot);
    let frac = if dot == body.len() {
        Seq::<u8>::empty()
    } else {
        body.skip(dot + 1)
    };
    if int_part.len() <= 12 && all_digits(int_part) && all_digits(frac) && int_part.len()
        + frac.len() >= 1 {
        let frac3 = if frac.len() >= 3 {
            digits_val(frac.take(3))
        } else if frac.len() == 2 {
            digits_val(frac) * 10
        } else if frac.len() == 1 {
            digits_val(frac) * 100
        } else {
            0
        };
        let v = digits_val(int_part) * 1000 + frac3;
        Some(
            if neg {
                -v
            } else {
                v
            },
        )
    } else {
        None
    }
}

/// Parses a decimal field into milli-units.
pub fn parse_milli(s: &[u8]) -> (r: Option<i64>)
    ensures
        r == match spec_parse_milli(s@) {
            Some(v) => Some(v as i64),
            None => None::<i64>,
        },
{
    proof {
        lemma_pow10_18();
    }
    let (neg, body) = if s.len() > 0 && s[0] == 45 {
        let b = slice_subrange(s, 1, s.len());
        proof {
            assert(s@.subrange(1, s@.len() as int) =~= s@.skip(1));
        }
        (true, b)
    } else {
        (false, s)
    };
    let dot = find_byte(body, 46);
    proof {
        lemma_first_byte(body@, 46);
    }
    let int_slice = slice_subrange(body, 0, dot);
    proof {
        assert(body@.subrange(0, dot as int) =~= body@.take(dot as int));
    }
    let frac_slice = if dot == body.len() {
        slice_subrange(body, 0, 0)
    } else {
        slice_subrange(body, dot + 1, body.len())
    };
    proof {
        if dot == body.len() {
            assert(body@.subrange(0, 0) =~= Seq::<u8>::empty());
        } else {
            assert(body@.subrange(dot as int + 1, body@.len() as int) =~= body@.skip(dot as int + 1));
        }
    }
    let int_val = if int_slice.len() == 0 {
        Some(0i64)
    } else {
        parse_digits(int_slice, 12)
    };
    let int_val = match int_val {
        Some(v) => v,
        None => {
            return None;
        },
    };
    proof {
        if int_slice@.len() == 0 {
            assert(digits_val(int_slice@) == 0);
            assert(all_digits(int_slice@));
        } else {
            lemma_digits_val_bound(int_slice@);
            lemma_pow10_increases(int_slice@.len() as nat, 12);
            reveal_with_fuel(pow10, 13);
        }
        assert(int_val == digits_val(int_slice@));
        assert(int_slice@.len() <= 12 && all_digits(int_slice@));
        assert(0 <= int_val < 1_000_000_000_000int);
    }
    // The fractional part must be all digits, and its first three
    // digits give the milli value.
    let frac3 = if frac_slice.len() >= 3 {
        let head = slice_subrange(frac_slice, 0, 3);
        proof {
            assert(frac_slice@.subrange(0, 3) =~= frac_slice@.take(3));
        }
        let v = match parse_digits(head, 3) {
            Some(v) => v,
            None => {
                return None;
            },
        };
        // The digits past the third still have to be digits.
        let n = frac_slice.len();
        let mut j: usize = 3;
        proof {
            assert forall|k: int| 0 <= k < 3 implies 48 <= #[trigger] frac_slice@[k] <= 57 by {
                assert(frac_slice@[k] == frac_slice@.take(3)[k]);
            }
        }
        proof {
            if !all_digits(frac_slice@) {
                assert(spec_parse_milli(s@) is None);
            }
        }
        while j < n
            invariant
                n == frac_slice@.len(),
                3 <= j <= n,
                forall|k: int| 0 <= k < j ==> 48 <= #[trigger] frac_slice@[k] <= 57,
                !all_digits(frac_slice@) ==> spec_parse_milli(s@) is None,
            decreases n - j,
        {
            if frac_slice[j] < 48 || frac_slice[j] > 57 {
                proof {
                    assert(!all_digits(frac_slice@));
                }
                return None;
            }
            j = j + 1;
        }
        proof {
            assert(all_digits(frac_slice@));
        }
        v
    } else if frac_slice.len() == 2 {
        match parse_digits(frac_slice, 2) {
            Some(v) => v * 10,
            None => {
                return None;
            },
        }
    } else if frac_slice.len() == 1 {
        match parse_digits(frac_slice, 1) {
            Some(v) => v * 100,
            None => {
                return None;
            },
        }
    } else {
        0
    };
    if int_slice.len() == 0 && frac_slice.len() == 0 {
        return None;
    }
    proof {
        if frac_slice@.len() >= 3 {
            lemma_digits_val_bound(frac_slice@.take(3));
            lemma_pow10_18();
        } else if frac_slice@.len() >= 1 {
            lemma_digits_val_bound(frac_slice@);
            lemma_pow10_18();
            lemma_pow10_increases(frac_slice@.len() as nat, 2);
        }
        assert(0 <= frac3 < 1000);
    }
    let v = int_val * 1000 + frac3;
    if neg {
        Some(-v)
    } else {
        Some(v)
    }
}

} // verus!
