//! Codes for new records.

use crate::outside::{to_upper, uppercase};
use crate::text::{chars_of, radix_string, radix_text, string_of};
use vstd::prelude::*;

verus! {

/// Makes the code of a new record of a dictionary from a fresh id.
pub trait CodeGenerator: Send + Sync {
    fn generate(&self, dict_code: &str, rule_code: Option<&str>, id: i64) -> String;
}

/// Codes made of the dictionary's name and the id.
pub struct RandomCodeGenerator;

/// An integer in a base, without a sign: nothing for a negative one.
pub open spec fn radix_of(n: i64, radix: u32) -> Seq<char> {
    if n < 0 {
        Seq::empty()
    } else {
        radix_text(n as nat, radix as nat)
    }
}

/// An integer in a base, with letters in lower case behind the digits.
pub fn format_radix(n: i64, radix: u32) -> (r: String)
    requires
        2 <= radix <= 36,
    ensures
        r@ == radix_of(n, radix),
{
    if n < 0 {
        String::new()
    } else {
        radix_string(n as u64, radix as u64)
    }
}

/// The beginning of a code: the first six characters of the name in capitals, or `MDM`.
pub open spec fn code_prefix(upper: Seq<char>) -> Seq<char> {
    if upper.len() == 0 {
        "MDM"@
    } else if upper.len() <= 6 {
        upper
    } else {
        upper.take(6)
    }
}

/// The code of a record, given the dictionary's name in capitals.
pub open spec fn code_of(upper: Seq<char>, id: i64) -> Seq<char> {
    code_prefix(upper) + "-"@ + radix_of(id, 36)
}

/// The code of a record, given the dictionary's name in capitals.
pub fn code_from(upper: &str, id: i64) -> (r: String)
    ensures
        r@ == code_of(upper@, id),
{
    let v = chars_of(upper);
    let mut s: String = if v.len() == 0 {
        "MDM".to_owned()
    } else if v.len() <= 6 {
        upper.to_owned()
    } else {
        assert(v@.subrange(0, 6) =~= v@.take(6));
        string_of(&v, 0, 6)
    };
    s.append("-");
    s.append(format_radix(id, 36).as_str());
    s
}

impl CodeGenerator for RandomCodeGenerator {
    fn generate(&self, dict_code: &str, _rule_code: Option<&str>, id: i64) -> (r: String)
        ensures
            r@ == code_of(uppercase(dict_code@), id),
    {
        code_from(to_upper(dict_code).as_str(), id)
    }
}

/// Different ids have different texts in a base.
pub proof fn law_radix_distinct(a: nat, b: nat, r: nat)
    requires
        2 <= r <= 36,
        radix_text(a, r) == radix_text(b, r),
    ensures
        a == b,
    decreases a,
{
    let s = radix_text(a, r);
    let t = radix_text(b, r);
    lemma_radix_some(a, r);
    lemma_radix_some(b, r);
    if a < r && b < r {
        assert(s[0] == t[0]);
    } else if a < r {
        lemma_radix_some(b / r, r);
        assert(t.len() >= 2);
    } else if b < r {
        lemma_radix_some(a / r, r);
        assert(s.len() >= 2);
    } else {
        assert(s.drop_last() =~= radix_text(a / r, r));
        assert(t.drop_last() =~= radix_text(b / r, r));
        assert(s.last() == t.last());
        assert(a / r < a) by (nonlinear_arith)
            requires
                2 <= r <= a,
        ;
        assert(a % r < r) by (nonlinear_arith)
            requires
                2 <= r,
        ;
        assert(b % r < r) by (nonlinear_arith)
            requires
                2 <= r,
        ;
        law_radix_distinct(a / r, b / r, r);
        assert(a == r * (a / r) + a % r) by (nonlinear_arith)
            requires
                2 <= r,
        ;
        assert(b == r * (b / r) + b % r) by (nonlinear_arith)
            requires
                2 <= r,
        ;
    }
}

proof fn lemma_radix_some(n: nat, r: nat)
    requires
        2 <= r <= 36,
    ensures
        radix_text(n, r).len() >= 1,
    decreases n,
{
    if n >= r {
        assert(n / r < n) by (nonlinear_arith)
            requires
                2 <= r <= n,
        ;
        lemma_radix_some(n / r, r);
    }
}

/// Two records of a dictionary get different codes, as their ids differ.
pub proof fn law_codes_distinct(upper: Seq<char>, a: i64, b: i64)
    requires
        a >= 0,
        b >= 0,
        a != b,
    ensures
        code_of(upper, a) != code_of(upper, b),
{
    if code_of(upper, a) == code_of(upper, b) {
        let head = code_prefix(upper) + "-"@;
        let x = radix_of(a, 36);
        let y = radix_of(b, 36);
        assert((head + x).skip(head.len() as int) =~= x);
        assert((head + y).skip(head.len() as int) =~= y);
        law_radix_distinct(a as nat, b as nat, 36);
    }
}

} // verus!
