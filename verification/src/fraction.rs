//! Rational numbers parsed from `"numerator/denominator"` text.
//!
//! The textual form is exactly one run of decimal digits, a slash, and a
//! second run of decimal digits. A denominator of zero, any other shape, or
//! a part that does not fit in 32 bits is a parse failure.

use vstd::prelude::*;

use crate::errors::MediaError;

verus! {

/// A rational number with a non-zero denominator.
#[derive(Clone, Copy, Debug, PartialEq, Eq, Structural)]
pub struct Fraction {
    numer: u32,
    denom: u32,
}

/// A decimal digit character.
pub open spec fn is_digit(c: char) -> bool {
    '0' <= c && c <= '9'
}

/// The value of one digit character.
pub open spec fn digit_val(c: char) -> int {
    c as int - '0' as int
}

/// Every character of the sequence is a decimal digit.
pub open spec fn all_digits(s: Seq<char>) -> bool {
    forall|i: int| 0 <= i < s.len() ==> is_digit(s[i])
}

/// The number written by a digit sequence, most significant digit first.
pub open spec fn digits_val(s: Seq<char>) -> int
    decreases s.len(),
{
    if s.len() == 0 {
        0
    } else {
        digits_val(s.drop_last()) * 10 + digit_val(s.last())
    }
}

/// `i` splits `s` into a non-empty digit run, a slash, and a second
/// non-empty digit run.
pub open spec fn fraction_split_at(s: Seq<char>, i: int) -> bool {
    &&& 1 <= i
    &&& i + 2 <= s.len()
    &&& s[i] == '/'
    &&& all_digits(s.take(i))
    &&& all_digits(s.skip(i + 1))
}

/// The text has the `"numerator/denominator"` shape.
pub open spec fn valid_fraction_text(s: Seq<char>) -> bool {
    exists|i: int| fraction_split_at(s, i)
}

/// The position of the slash in a valid fraction text.
pub open spec fn split_index(s: Seq<char>) -> int {
    choose|i: int| fraction_split_at(s, i)
}

/// The numerator written by a valid fraction text.
pub open spec fn numer_of_text(s: Seq<char>) -> int {
    digits_val(s.take(split_index(s)))
}

/// The denominator written by a valid fraction text.
pub open spec fn denom_of_text(s: Seq<char>) -> int {
    digits_val(s.skip(split_index(s) + 1))
}

/// A digit sequence writes a non-negative number.
pub proof fn lemma_digits_val_nonneg(s: Seq<char>)
    requires
        all_digits(s),
    ensures
        digits_val(s) >= 0,
    decreases s.len(),
{
    if s.len() > 0 {
        assert(all_digits(s.drop_last()));
        lemma_digits_val_nonneg(s.drop_last());
    }
}

/// Dropping trailing digits never increases the number written.
pub proof fn lemma_digits_prefix_le(s: Seq<char>, i: int)
    requires
        all_digits(s),
        0 <= i <= s.len(),
    ensures
        digits_val(s.take(i)) <= digits_val(s),
    decreases s.len() - i,
{
    if i == s.len() {
        assert(s.take(i) =~= s);
    } else {
        lemma_digits_prefix_le(s, i + 1);
        assert(s.take(i + 1).drop_last() =~= s.take(i));
        assert(all_digits(s.take(i)));
        lemma_digits_val_nonneg(s.take(i));
        assert(digits_val(s.take(i + 1)) == digits_val(s.take(i)) * 10 + digit_val(s.take(i + 1).last()));
        assert(is_digit(s[i]));
    }
}

/// Parse one run of digits out of `s`, between character positions `from`
/// (inclusive) and `to` (exclusive). Yields the value exactly when every
/// character there is a digit and the value fits in 32 bits.
fn parse_digits(s: &str, from: usize, to: usize) -> (r: Option<u32>)
    requires
        from <= to <= s@.len(),
    ensures
        r is Some <==> (all_digits(s@.subrange(from as int, to as int)) && digits_val(
            s@.subrange(from as int, to as int),
        ) <= u32::MAX),
        r matches Some(v) ==> v as int == digits_val(s@.subrange(from as int, to as int)),
{
    let ghost whole = s@.subrange(from as int, to as int);
    let mut acc: u64 = 0;
    let mut i: usize = from;
    while i < to
        invariant
            from <= i <= to <= s@.len(),
            whole == s@.subrange(from as int, to as int),
            all_digits(s@.subrange(from as int, i as int)),
            acc <= u32::MAX,
            acc as int == digits_val(s@.subrange(from as int, i as int)),
        decreases to - i,
    {
        let c = s.get_char(i);
        let ghost part = s@.subrange(from as int, i as int);
        let ghost part1 = s@.subrange(from as int, i as int + 1);
        proof {
            assert(part1.drop_last() =~= part);
            assert(part1.last() == s@[i as int]);
            assert(part1 =~= whole.take(i + 1 - from));
        }
        if !('0' <= c && c <= '9') {
            proof {
                assert(!is_digit(whole[i - from]));
            }
            return None;
        }
        let d: u64 = (c as u32 - '0' as u32) as u64;
        let next: u64 = acc * 10 + d;
        proof {
            assert(next as int == digits_val(part1));
        }
        if next > u32::MAX as u64 {
            proof {
                if all_digits(whole) && digits_val(whole) <= u32::MAX {
                    lemma_digits_prefix_le(whole, i + 1 - from);
                    assert(false);
                }
            }
            return None;
        }
        acc = next;
        i = i + 1;
    }
    proof {
        assert(s@.subrange(from as int, i as int) =~= whole);
    }
    Some(acc as u32)
}

impl Fraction {
    /// The numerator.
    pub closed spec fn spec_numer(&self) -> u32 {
        self.numer
    }

    /// The denominator; never zero.
    pub closed spec fn spec_denom(&self) -> u32 {
        self.denom
    }

    /// Build a fraction; refused when the denominator is zero.
    pub fn new(numer: u32, denom: u32) -> (r: Option<Fraction>)
        ensures
            r is Some <==> denom != 0,
            r matches Some(f) ==> f.spec_numer() == numer && f.spec_denom() == denom,
    {
        if denom == 0 {
            None
        } else {
            Some(Fraction { numer, denom })
        }
    }

    /// The numerator.
    pub fn numer(&self) -> (r: u32)
        ensures
            r == self.spec_numer(),
    {
        self.numer
    }

    /// The denominator.
    pub fn denom(&self) -> (r: u32)
        ensures
            r == self.spec_denom(),
            self.wf() ==> r != 0,
    {
        self.denom
    }

    /// The denominator is never zero for a parsed fraction.
    pub closed spec fn wf(&self) -> bool {
        self.denom != 0
    }

    /// Parse `"numerator/denominator"` text. Succeeds exactly on a
    /// well-shaped text whose parts fit in 32 bits and whose denominator is
    /// not zero.
    pub fn parse(s: &str) -> (r: Result<Fraction, MediaError>)
        ensures
            r is Ok <==> (valid_fraction_text(s@) && 0 < denom_of_text(s@) <= u32::MAX
                && numer_of_text(s@) <= u32::MAX),
            r matches Ok(f) ==> f.spec_numer() == numer_of_text(s@) && f.spec_denom()
                == denom_of_text(s@) && f.wf(),
            r matches Err(e) ==> e is MetadataParseFailed,
    {
        let n = s.unicode_len();
        // Find the first slash; a valid text can split nowhere else.
        let mut k: usize = 0;
        while k < n && !is_slash(s, k)
            invariant
                k <= n,
                n == s@.len(),
                forall|j: int| 0 <= j < k ==> s@[j] != '/',
            decreases n - k,
        {
            k = k + 1;
        }
        if k == n {
            proof {
                assert(forall|i: int| !fraction_split_at(s@, i));
            }
            return Err(parse_error());
        }
        proof {
            assert(s@[k as int] == '/');
            assert forall|i: int| fraction_split_at(s@, i) implies i == k as int by {
                if i < k as int {
                    assert(s@[i] == '/');
                } else if i > k as int {
                    assert(is_digit(s@.take(i)[k as int]));
                }
            }
        }
        if k == 0 || n - k < 2 {
            proof {
                assert(forall|i: int| !fraction_split_at(s@, i));
            }
            return Err(parse_error());
        }
        let numer = match parse_digits(s, 0, k) {
            Some(v) => v,
            None => {
                proof {
                    assert(s@.subrange(0, k as int) =~= s@.take(k as int));
                    if valid_fraction_text(s@) {
                        assert(fraction_split_at(s@, split_index(s@)));
                    }
                }
                return Err(parse_error());
            },
        };
        let denom = match parse_digits(s, k + 1, n) {
            Some(v) => v,
            None => {
                proof {
                    assert(s@.subrange(k as int + 1, n as int) =~= s@.skip(k as int + 1));
                    if valid_fraction_text(s@) {
                        assert(fraction_split_at(s@, split_index(s@)));
                        assert(s@.subrange(0, k as int) =~= s@.take(k as int));
                    }
                }
                return Err(parse_error());
            },
        };
        proof {
            assert(s@.subrange(0, k as int) =~= s@.take(k as int));
            assert(s@.subrange(k as int + 1, n as int) =~= s@.skip(k as int + 1));
            assert(fraction_split_at(s@, k as int));
            assert(fraction_split_at(s@, split_index(s@)));
        }
        if denom == 0 {
            return Err(parse_error());
        }
        Ok(Fraction { numer, denom })
    }
}

/// Is the character at `i` a slash?
fn is_slash(s: &str, i: usize) -> (r: bool)
    requires
        i < s@.len(),
    ensures
        r == (s@[i as int] == '/'),
{
    s.get_char(i) == '/'
}

/// The failure for malformed fraction text.
fn parse_error() -> (r: MediaError)
    ensures
        r is MetadataParseFailed,
{
    MediaError::MetadataParseFailed { detail: "expected fraction".to_owned() }
}

} // verus!
