//! What trimming, writing and reading texts comes to.

use crate::text::{
    dec, dec_int, digit_char, digits_value, int_value, is_white, join, parsed_in, trim_back,
    trim_front, trimmed,
};
use vstd::prelude::*;

verus! {

/// A text is made of white space alone.
pub open spec fn all_white(s: Seq<char>) -> bool {
    forall|i: int| 0 <= i < s.len() ==> is_white(#[trigger] s[i])
}

proof fn lemma_front(s: Seq<char>) -> (n: int)
    ensures
        0 <= n <= s.len(),
        trim_front(s) == s.skip(n),
        all_white(s.take(n)),
        n < s.len() ==> !is_white(s[n]),
    decreases s.len(),
{
    if s.len() > 0 && is_white(s[0]) {
        let d = s.drop_first();
        let m = lemma_front(d);
        assert(d.skip(m) =~= s.skip(m + 1));
        assert forall|i: int| 0 <= i < m + 1 implies is_white(#[trigger] s.take(m + 1)[i]) by {
            if i > 0 {
                assert(d.take(m)[i - 1] == s[i]);
            }
        }
        m + 1
    } else {
        assert(s.skip(0) =~= s);
        0
    }
}

proof fn lemma_back(s: Seq<char>) -> (n: int)
    ensures
        0 <= n <= s.len(),
        trim_back(s) == s.take(n),
        all_white(s.skip(n)),
        n > 0 ==> !is_white(s[n - 1]),
    decreases s.len(),
{
    if s.len() > 0 && is_white(s.last()) {
        let d = s.drop_last();
        let m = lemma_back(d);
        assert(d.take(m) =~= s.take(m));
        assert forall|i: int| 0 <= i < s.skip(m).len() implies is_white(#[trigger] s.skip(m)[i]) by {
            if m + i < d.len() {
                assert(d.skip(m)[i] == s[m + i]);
            }
        }
        m
    } else {
        assert(s.take(s.len() as int) =~= s);
        s.len() as int
    }
}

/// Trimming takes white space off both ends of a text, all of it there, and nothing else.
pub proof fn law_trimmed(s: Seq<char>) -> (r: (int, int))
    ensures
        0 <= r.0 <= r.1 <= s.len(),
        trimmed(s) == s.subrange(r.0, r.1),
        all_white(s.take(r.0)),
        all_white(s.skip(r.1)),
        r.0 < r.1 ==> !is_white(s[r.0]) && !is_white(s[r.1 - 1]),
{
    let a = lemma_front(s);
    let t = s.skip(a);
    let b = lemma_back(t);
    assert(t.take(b) =~= s.subrange(a, a + b));
    assert(s.skip(a + b) =~= t.skip(b));
    if b > 0 {
        assert(t[b - 1] == s[a + b - 1]);
    }
    (a, a + b)
}

proof fn lemma_digits(n: nat)
    ensures
        digits_value(dec(n)) == Some(n),
        dec(n).len() > 0,
        forall|i: int| 0 <= i < dec(n).len() ==> '0' <= #[trigger] dec(n)[i] <= '9',
    decreases n,
{
    let s = dec(n);
    if n < 10 {
        assert(s =~= seq![digit_char(n)]);
    } else {
        lemma_digits(n / 10);
        let d = dec(n / 10);
        assert(s == d.push(digit_char(n % 10)));
        assert(s.drop_last() =~= d);
        assert forall|i: int| 0 <= i < s.len() implies '0' <= #[trigger] s[i] <= '9' by {
            if i < d.len() {
                assert(s[i] == d[i]);
            }
        }
    }
}

/// A number that is written down in decimal, and nothing else, is read back as that number.
pub proof fn law_decimal_reads_back(i: int)
    ensures
        int_value(dec_int(i), true) == Some(i),
        i >= 0 ==> int_value(dec_int(i), false) == Some(i),
        i < 0 ==> int_value(dec_int(i), false) is None,
{
    if i >= 0 {
        lemma_digits(i as nat);
        let s = dec_int(i);
        assert('0' <= s[0] <= '9');
    } else {
        lemma_digits((-i) as nat);
        let s = dec_int(i);
        assert(s.drop_first() =~= dec((-i) as nat));
        lemma_sign(s);
    }
}

proof fn lemma_sign(s: Seq<char>)
    requires
        s.len() > 0,
        s[0] == '-',
    ensures
        digits_value(s) is None,
    decreases s.len(),
{
    if s.len() > 1 {
        assert(s.drop_last()[0] == '-');
        lemma_sign(s.drop_last());
    }
}

/// A text in which another character than a digit stands is no number.
pub proof fn law_digits_only(s: Seq<char>, i: int)
    requires
        0 <= i < s.len(),
        !('0' <= s[i] <= '9'),
    ensures
        digits_value(s) is None,
    decreases s.len(),
{
    if i < s.len() - 1 {
        assert(s.drop_last()[i] == s[i]);
        law_digits_only(s.drop_last(), i);
    }
}

/// The digits of a number, and no other characters, stand in its decimal.
pub proof fn law_decimal_digits(n: nat)
    ensures
        dec(n).len() > 0,
        forall|i: int| 0 <= i < dec(n).len() ==> '0' <= #[trigger] dec(n)[i] <= '9',
        digits_value(dec(n)) == Some(n),
{
    lemma_digits(n);
}

/// A number counts where it lies between the bounds, and only there.
pub proof fn law_parsed_in(i: int, lo: int, hi: int)
    ensures
        parsed_in(dec_int(i), true, lo, hi) == (if lo <= i <= hi {
            Some(i)
        } else {
            None
        }),
        parsed_in(dec_int(i), false, lo, hi) == (if 0 <= i && lo <= i <= hi {
            Some(i)
        } else {
            None
        }),
{
    law_decimal_reads_back(i);
}

/// Joined texts stand one behind the other, with the separator between each two: the first `n`
/// joined are a beginning of all joined, and what follows is a separator and the next text.
pub proof fn law_join(parts: Seq<Seq<char>>, sep: Seq<char>, p: Seq<char>)
    ensures
        join(Seq::empty(), sep).len() == 0,
        join(seq![p], sep) == p,
        parts.len() > 0 ==> join(parts.push(p), sep) == join(parts, sep) + sep + p,
{
    assert(parts.push(p).drop_last() =~= parts);
}

} // verus!
