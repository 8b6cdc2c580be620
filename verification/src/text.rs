//! String ordering and shard-number parsing.
//!
//! The lookup tables and the rebalance pass compare strings by code point,
//! and the extraction pass reads shard numbers out of decimal string keys.
//! Both operations are implemented and specified here, over `Seq<char>`.

use vstd::prelude::*;

verus! {

/// Three-way comparison of two character sequences by code point:
/// `-1` when `x` sorts before `y`, `0` when they are equal, `1` otherwise.
pub open spec fn spec_str_cmp(x: Seq<char>, y: Seq<char>) -> int
    decreases x.len(),
{
    if x.len() == 0 && y.len() == 0 {
        0
    } else if x.len() == 0 {
        -1
    } else if y.len() == 0 {
        1
    } else if (x[0] as int) < (y[0] as int) {
        -1
    } else if (x[0] as int) > (y[0] as int) {
        1
    } else {
        spec_str_cmp(x.drop_first(), y.drop_first())
    }
}

pub proof fn lemma_str_cmp_refl(x: Seq<char>)
    ensures
        spec_str_cmp(x, x) == 0,
    decreases x.len(),
{
    if x.len() > 0 {
        lemma_str_cmp_refl(x.drop_first());
    }
}

pub proof fn lemma_str_cmp_antisym(x: Seq<char>, y: Seq<char>)
    ensures
        spec_str_cmp(x, y) == -spec_str_cmp(y, x),
    decreases x.len(),
{
    if x.len() > 0 && y.len() > 0 {
        lemma_str_cmp_antisym(x.drop_first(), y.drop_first());
    }
}

pub proof fn lemma_str_cmp_eq(x: Seq<char>, y: Seq<char>)
    requires
        spec_str_cmp(x, y) == 0,
    ensures
        x == y,
    decreases x.len(),
{
    if x.len() == 0 && y.len() == 0 {
        assert(x =~= y);
    } else {
        assert(x.len() > 0 && y.len() > 0);
        lemma_str_cmp_eq(x.drop_first(), y.drop_first());
        assert(x[0] == y[0]);
        assert(x =~= Seq::empty().push(x[0]) + x.drop_first());
        assert(y =~= Seq::empty().push(y[0]) + y.drop_first());
        assert(x =~= y);
    }
}

pub proof fn lemma_str_cmp_trans(x: Seq<char>, y: Seq<char>, z: Seq<char>)
    requires
        spec_str_cmp(x, y) <= 0,
        spec_str_cmp(y, z) <= 0,
    ensures
        spec_str_cmp(x, z) <= 0,
    decreases x.len(),
{
    if x.len() > 0 && y.len() > 0 && z.len() > 0 {
        if (x[0] as int) == (y[0] as int) && (y[0] as int) == (z[0] as int) {
            lemma_str_cmp_trans(x.drop_first(), y.drop_first(), z.drop_first());
        }
    }
}

/// Compares two strings by code point, returning `-1`, `0` or `1`.
pub fn compare_str(a: &str, b: &str) -> (r: i32)
    ensures
        r as int == spec_str_cmp(a@, b@),
{
    let a_len = a.unicode_len();
    let b_len = b.unicode_len();
    let mut i: usize = 0;
    proof {
        assert(a@.skip(0) =~= a@);
        assert(b@.skip(0) =~= b@);
    }
    loop
        invariant
            i <= a_len,
            i <= b_len,
            a_len == a@.len(),
            b_len == b@.len(),
            spec_str_cmp(a@, b@) == spec_str_cmp(a@.skip(i as int), b@.skip(i as int)),
        decreases a_len - i,
    {
        proof {
            assert(a@.skip(i as int).len() == a@.len() - i);
            assert(b@.skip(i as int).len() == b@.len() - i);
        }
        if i == a_len && i == b_len {
            return 0;
        }
        if i == a_len {
            return -1;
        }
        if i == b_len {
            return 1;
        }
        let ca = a.get_char(i);
        let cb = b.get_char(i);
        proof {
            assert(a@.skip(i as int)[0] == a@[i as int]);
            assert(b@.skip(i as int)[0] == b@[i as int]);
        }
        if (ca as u32) < (cb as u32) {
            return -1;
        }
        if (ca as u32) > (cb as u32) {
            return 1;
        }
        proof {
            assert(a@.skip(i as int).drop_first() =~= a@.skip(i as int + 1));
            assert(b@.skip(i as int).drop_first() =~= b@.skip(i as int + 1));
        }
        i = i + 1;
    }
}

/// Whether two strings hold the same characters.
pub fn str_eq(a: &str, b: &str) -> (r: bool)
    ensures
        r == (a@ == b@),
{
    let c = compare_str(a, b);
    proof {
        if c == 0 {
            lemma_str_cmp_eq(a@, b@);
        } else {
            lemma_str_cmp_refl(a@);
        }
    }
    c == 0
}

/// Whether every character of `s` is a decimal digit and `s` is non-empty.
pub open spec fn is_digit_seq(s: Seq<char>) -> bool {
    s.len() > 0 && forall|i: int| 0 <= i < s.len() ==> '0' <= #[trigger] s[i] && s[i] <= '9'
}

/// The value of a sequence of decimal digits.
pub open spec fn digits_val(s: Seq<char>) -> nat
    decreases s.len(),
{
    if s.len() == 0 {
        0
    } else {
        digits_val(s.drop_last()) * 10 + (s.last() as u32 - '0' as u32) as nat
    }
}

/// The shard number encoded by a string key: defined exactly when the key is
/// a non-empty run of decimal digits whose value fits in `u16`.
pub open spec fn spec_parse_shard_number(s: Seq<char>) -> Option<u16> {
    if is_digit_seq(s) && digits_val(s) <= u16::MAX {
        Some(digits_val(s) as u16)
    } else {
        None
    }
}

/// Parses a shard-number key.  Returns `None` for anything that is not a
/// non-empty decimal digit string with a value that fits in `u16`.
pub fn parse_shard_number(s: &str) -> (r: Option<u16>)
    ensures
        r == spec_parse_shard_number(s@),
{
    let len = s.unicode_len();
    if len == 0 {
        return None;
    }
    let mut i: usize = 0;
    let mut acc: u32 = 0;
    let mut too_big: bool = false;
    while i < len
        invariant
            i <= len,
            len == s@.len(),
            len > 0,
            forall|j: int| 0 <= j < i ==> '0' <= #[trigger] s@[j] && s@[j] <= '9',
            !too_big ==> acc == digits_val(s@.take(i as int)) && acc <= u16::MAX,
            too_big ==> digits_val(s@.take(i as int)) > u16::MAX,
        decreases len - i,
    {
        let c = s.get_char(i);
        if c < '0' || c > '9' {
            proof {
                assert(!is_digit_seq(s@));
            }
            return None;
        }
        let d = c as u32 - '0' as u32;
        proof {
            assert(s@.take(i as int + 1).drop_last() =~= s@.take(i as int));
            assert(s@.take(i as int + 1).last() == s@[i as int]);
        }
        if too_big || acc > 6553 || (acc == 6553 && d > 5) {
            proof {
                if !too_big {
                    assert(digits_val(s@.take(i as int + 1)) == acc * 10 + d);
                }
            }
            too_big = true;
        } else {
            acc = acc * 10 + d;
        }
        i = i + 1;
    }
    proof {
        assert(s@.take(len as int) =~= s@);
    }
    if too_big {
        return None;
    }
    Some(acc as u16)
}

} // verus!
