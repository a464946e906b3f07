use vstd::prelude::*;

verus! {

pub open spec fn is_digit(c: char) -> bool {
    '0' as u32 <= c as u32 <= '9' as u32
}

pub open spec fn digit_val(c: char) -> int {
    (c as u32) - ('0' as u32)
}

/// The number a run of decimal digits denotes.
pub open spec fn digits_val(s: Seq<char>) -> int
    decreases s.len(),
{
    if s.len() == 0 {
        0
    } else {
        digits_val(s.drop_last()) * 10 + digit_val(s.last())
    }
}

pub open spec fn all_digits(s: Seq<char>) -> bool {
    forall|i: int| 0 <= i < s.len() ==> is_digit(s[i])
}

/// How many digits stand at the front of `s`.
pub open spec fn digit_prefix_len(s: Seq<char>) -> int
    decreases s.len(),
{
    if s.len() == 0 || !is_digit(s[0]) {
        0
    } else {
        1 + digit_prefix_len(s.drop_first())
    }
}

/// The `u32` a whole string of digits denotes, if it is one and fits.
pub open spec fn u32_str(s: Seq<char>) -> Option<u32> {
    if s.len() > 0 && all_digits(s) && digits_val(s) <= u32::MAX {
        Some(digits_val(s) as u32)
    } else {
        None
    }
}

pub(crate) proof fn lemma_digit_prefix_characterization(s: Seq<char>, i: int)
    requires
        0 <= i <= s.len(),
        all_digits(s.subrange(0, i)),
        i == s.len() || !is_digit(s[i]),
    ensures
        digit_prefix_len(s) == i,
    decreases s.len(),
{
    if i == 0 {
        if s.len() > 0 {
            assert(!is_digit(s[0]));
        }
    } else {
        assert(is_digit(s[0])) by {
            assert(s.subrange(0, i)[0] == s[0]);
        }
        let t = s.drop_first();
        assert(t.subrange(0, i - 1) =~= s.subrange(0, i).drop_first());
        assert(all_digits(t.subrange(0, i - 1))) by {
            assert(forall|k: int|
                0 <= k < i - 1 ==> #[trigger] t.subrange(0, i - 1)[k] == s.subrange(0, i)[k + 1]);
        }
        if i < s.len() {
            assert(t[i - 1] == s[i]);
        }
        lemma_digit_prefix_characterization(t, i - 1);
    }
}

pub(crate) proof fn lemma_digits_val_nonneg(s: Seq<char>)
    requires
        all_digits(s),
    ensures
        digits_val(s) >= 0,
    decreases s.len(),
{
    if s.len() > 0 {
        assert(all_digits(s.drop_last()));
        lemma_digits_val_nonneg(s.drop_last());
    }
}

pub(crate) proof fn lemma_digits_val_step(s: Seq<char>, j: int)
    requires
        0 <= j < s.len(),
    ensures
        digits_val(s.subrange(0, j + 1)) == digits_val(s.subrange(0, j)) * 10 + digit_val(s[j]),
{
    assert(s.subrange(0, j + 1).drop_last() =~= s.subrange(0, j));
    assert(s.subrange(0, j + 1).last() == s[j]);
}

pub(crate) proof fn lemma_digits_val_mono(s: Seq<char>, m: int, n: int)
    requires
        0 <= m <= n <= s.len(),
        all_digits(s.subrange(0, n)),
    ensures
        digits_val(s.subrange(0, m)) <= digits_val(s.subrange(0, n)),
    decreases n - m,
{
    if m < n {
        lemma_digits_val_step(s, n - 1);
        assert(all_digits(s.subrange(0, n - 1))) by {
            assert(forall|k: int|
                0 <= k < n - 1 ==> #[trigger] s.subrange(0, n - 1)[k] == s.subrange(0, n)[k]);
        }
        lemma_digits_val_nonneg(s.subrange(0, n - 1));
        assert(is_digit(s[n - 1])) by {
            assert(s.subrange(0, n)[n - 1] == s[n - 1]);
        }
        lemma_digits_val_mono(s, m, n - 1);
    }
}

pub(crate) fn is_digit_char(c: char) -> (b: bool)
    ensures
        b == is_digit(c),
{
    let u = c as u32;
    '0' as u32 <= u && u <= '9' as u32
}

/// Reads a whole string of decimal digits as a `u32`; `None` when the
/// string is empty, holds a non-digit, or overflows.
pub fn parse_u32(value: &str) -> (r: Option<u32>)
    ensures
        r == u32_str(value@),
{
    let len = value.unicode_len();
    let ghost s = value@;
    if len == 0 {
        return None;
    }
    let mut acc: u64 = 0;
    let mut j: usize = 0;
    while j < len
        invariant
            0 <= j <= len,
            len == s.len(),
            s == value@,
            forall|k: int| 0 <= k < j ==> is_digit(s[k]),
            acc == digits_val(s.subrange(0, j as int)),
            acc <= u32::MAX,
        decreases len - j,
    {
        let c = value.get_char(j);
        if !is_digit_char(c) {
            return None;
        }
        let d = ((c as u32) - ('0' as u32)) as u64;
        proof {
            lemma_digits_val_step(s, j as int);
        }
        acc = acc * 10 + d;
        j = j + 1;
        if acc > u32::MAX as u64 {
            proof {
                assert(all_digits(s.subrange(0, j as int))) by {
                    assert(forall|k: int|
                        0 <= k < j ==> #[trigger] s.subrange(0, j as int)[k] == s[k]);
                }
                if all_digits(s) {
                    assert(s.subrange(0, len as int) =~= s);
                    lemma_digits_val_mono(s, j as int, len as int);
                }
            }
            return None;
        }
    }
    proof {
        assert(s.subrange(0, len as int) =~= s);
    }
    Some(acc as u32)
}

} // verus!
