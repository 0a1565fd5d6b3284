//! Decimal rendering of query identifiers, and the injectivity facts that
//! make identifier-qualified bind names collision-free.

use vstd::prelude::*;
use vstd::arithmetic::div_mod::lemma_fundamental_div_mod;

verus! {

/// The character of one decimal digit value below ten.
pub open spec fn spec_digit_char(d: nat) -> char {
    if d == 0 {
        '0'
    } else if d == 1 {
        '1'
    } else if d == 2 {
        '2'
    } else if d == 3 {
        '3'
    } else if d == 4 {
        '4'
    } else if d == 5 {
        '5'
    } else if d == 6 {
        '6'
    } else if d == 7 {
        '7'
    } else if d == 8 {
        '8'
    } else {
        '9'
    }
}

pub open spec fn is_decimal_digit(c: char) -> bool {
    c == '0' || c == '1' || c == '2' || c == '3' || c == '4' || c == '5' || c == '6' || c == '7'
        || c == '8' || c == '9'
}

/// The decimal text of `n`, most significant digit first, no leading zeros
/// except for `n == 0` itself.
pub open spec fn spec_decimal(n: nat) -> Seq<char>
    decreases n,
{
    if n < 10 {
        seq![spec_digit_char(n)]
    } else {
        spec_decimal(n / 10).push(spec_digit_char(n % 10))
    }
}

pub proof fn lemma_decimal_len(n: nat)
    ensures
        spec_decimal(n).len() >= 1,
    decreases n,
{
    if n >= 10 {
        lemma_decimal_len(n / 10);
    }
}

pub proof fn lemma_decimal_digits(n: nat)
    ensures
        forall|i: int| 0 <= i < spec_decimal(n).len() ==> is_decimal_digit(#[trigger] spec_decimal(n)[i]),
    decreases n,
{
    if n < 10 {
        assert(spec_decimal(n)[0] == spec_digit_char(n));
        assert(is_decimal_digit(spec_digit_char(n)));
    } else {
        lemma_decimal_digits(n / 10);
        let prefix = spec_decimal(n / 10);
        assert forall|i: int| 0 <= i < spec_decimal(n).len() implies is_decimal_digit(
            #[trigger] spec_decimal(n)[i],
        ) by {
            if i < prefix.len() {
                assert(spec_decimal(n)[i] == prefix[i]);
                assert(is_decimal_digit(prefix[i]));
            } else {
                assert(spec_decimal(n)[i] == spec_digit_char(n % 10));
            }
        }
    }
}

/// Distinct numbers have distinct decimal texts.
pub proof fn lemma_decimal_injective(a: nat, b: nat)
    requires
        spec_decimal(a) == spec_decimal(b),
    ensures
        a == b,
    decreases a,
{
    lemma_decimal_len(a);
    lemma_decimal_len(b);
    if a < 10 && b < 10 {
        assert(spec_decimal(a)[0] == spec_digit_char(a));
        assert(spec_decimal(b)[0] == spec_digit_char(b));
        assert(spec_digit_char(a) == spec_digit_char(b));
        assert(a == b);
    } else if a < 10 {
        lemma_decimal_len(b / 10);
        assert(spec_decimal(a).len() == 1);
        assert(spec_decimal(b).len() == spec_decimal(b / 10).len() + 1);
        assert(false);
    } else if b < 10 {
        lemma_decimal_len(a / 10);
        assert(spec_decimal(b).len() == 1);
        assert(spec_decimal(a).len() == spec_decimal(a / 10).len() + 1);
        assert(false);
    } else {
        let la = spec_decimal(a).len();
        assert(spec_decimal(a)[la - 1] == spec_digit_char(a % 10));
        assert(spec_decimal(b)[la - 1] == spec_digit_char(b % 10));
        assert(a % 10 == b % 10);
        assert(spec_decimal(a).drop_last() =~= spec_decimal(a / 10));
        assert(spec_decimal(b).drop_last() =~= spec_decimal(b / 10));
        assert(spec_decimal(a / 10) == spec_decimal(b / 10));
        lemma_decimal_injective(a / 10, b / 10);
        lemma_fundamental_div_mod(a as int, 10);
        lemma_fundamental_div_mod(b as int, 10);
    }
}

/// A placeholder name qualified by the owning query's identifier: the
/// identifier's decimal text, an underscore, then the logical argument name.
pub open spec fn spec_bind_key(id: nat, name: Seq<char>) -> Seq<char> {
    spec_decimal(id) + seq!['_'] + name
}

/// Two qualified placeholder names coincide only when both the query
/// identifier and the logical argument name coincide, so composing several
/// predicates into one query never collides two binds.
pub proof fn lemma_bind_key_injective(id1: nat, n1: Seq<char>, id2: nat, n2: Seq<char>)
    requires
        spec_bind_key(id1, n1) == spec_bind_key(id2, n2),
    ensures
        id1 == id2,
        n1 == n2,
{
    let d1 = spec_decimal(id1);
    let d2 = spec_decimal(id2);
    let s1 = spec_bind_key(id1, n1);
    let s2 = spec_bind_key(id2, n2);
    lemma_decimal_len(id1);
    lemma_decimal_len(id2);
    lemma_decimal_digits(id1);
    lemma_decimal_digits(id2);
    assert(s1.len() == d1.len() + 1 + n1.len());
    assert(s2.len() == d2.len() + 1 + n2.len());
    assert(s1[d1.len() as int] == '_');
    assert(s2[d2.len() as int] == '_');
    if d1.len() < d2.len() {
        assert(s2[d1.len() as int] == d2[d1.len() as int]);
        assert(is_decimal_digit(s1[d1.len() as int]));
        assert(false);
    } else if d2.len() < d1.len() {
        assert(s1[d2.len() as int] == d1[d2.len() as int]);
        assert(is_decimal_digit(s2[d2.len() as int]));
        assert(false);
    }
    assert forall|i: int| 0 <= i < d1.len() implies d1[i] == d2[i] by {
        assert(s1[i] == d1[i]);
        assert(s2[i] == d2[i]);
    }
    assert(d1 =~= d2);
    lemma_decimal_injective(id1, id2);
    assert(n1.len() == n2.len());
    assert forall|i: int| 0 <= i < n1.len() implies n1[i] == n2[i] by {
        assert(s1[d1.len() + 1 + i] == n1[i]);
        assert(s2[d2.len() + 1 + i] == n2[i]);
    }
    assert(n1 =~= n2);
}

/// The decimal text of one digit value, as a string slice.
fn digit_str(d: u64) -> (r: &'static str)
    requires
        d < 10,
    ensures
        r@ == seq![spec_digit_char(d as nat)],
{
    proof {
        reveal_strlit("0");
        reveal_strlit("1");
        reveal_strlit("2");
        reveal_strlit("3");
        reveal_strlit("4");
        reveal_strlit("5");
        reveal_strlit("6");
        reveal_strlit("7");
        reveal_strlit("8");
        reveal_strlit("9");
    }
    let r: &'static str = if d == 0 {
        "0"
    } else if d == 1 {
        "1"
    } else if d == 2 {
        "2"
    } else if d == 3 {
        "3"
    } else if d == 4 {
        "4"
    } else if d == 5 {
        "5"
    } else if d == 6 {
        "6"
    } else if d == 7 {
        "7"
    } else if d == 8 {
        "8"
    } else {
        "9"
    };
    proof {
        assert(r@ =~= seq![spec_digit_char(d as nat)]);
    }
    r
}

/// Renders `n` as decimal text.
pub fn u64_to_decimal(n: u64) -> (r: String)
    ensures
        r@ == spec_decimal(n as nat),
    decreases n,
{
    if n < 10 {
        let r = digit_str(n).to_owned();
        proof {
            assert(r@ =~= spec_decimal(n as nat));
        }
        r
    } else {
        let prefix = u64_to_decimal(n / 10);
        let r = prefix.concat(digit_str(n % 10));
        proof {
            assert(r@ =~= spec_decimal(n as nat));
        }
        r
    }
}

/// Renders the qualified placeholder name for argument `name` of the query
/// with identifier `id`.
pub fn render_bind_key(id: u64, name: &str) -> (r: String)
    ensures
        r@ == spec_bind_key(id as nat, name@),
{
    let mut s = u64_to_decimal(id);
    s.append("_");
    s.append(name);
    proof {
        reveal_strlit("_");
        assert(s@ =~= spec_bind_key(id as nat, name@));
    }
    s
}

} // verus!
