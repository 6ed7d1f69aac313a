//! Nonce minting with monotonic freshness. A nonce is the decimal rendering
//! of a strictly increasing sequence number, a separator, and a random
//! suffix: the suffix keeps the challenge unpredictable, the sequence number
//! makes every minted nonce provably different from every nonce minted
//! before it, however the randomness falls.

use vstd::prelude::*;
use vstd::string::StringExecFns;

verus! {

/// The decimal digit character for a value below ten.
pub open spec fn spec_digit(d: nat) -> char {
    if d == 0 {
        '0'
    } else if d == 1 {
        '1'
    } else if d == 2 {
        '2'
    } else if d == 3 {
        '3'
    } else if d == 4 {
        '4'
    } else if d == 5 {
        '5'
    } else if d == 6 {
        '6'
    } else if d == 7 {
        '7'
    } else if d == 8 {
        '8'
    } else {
        '9'
    }
}

/// The decimal rendering of a natural number, most significant digit first.
pub open spec fn spec_decimal(n: nat) -> Seq<char>
    decreases n,
{
    if n < 10 {
        seq![spec_digit(n)]
    } else {
        spec_decimal(n / 10).push(spec_digit(n % 10))
    }
}

/// A nonce string: the decimal sequence number, a separator, and a suffix.
pub open spec fn spec_nonce_string(counter: nat, suffix: Seq<char>) -> Seq<char> {
    spec_decimal(counter) + seq!['-'] + suffix
}

/// Whether the nonce embeds sequence number `counter`.
pub open spec fn spec_has_counter(nonce: Seq<char>, counter: nat) -> bool {
    exists|suffix: Seq<char>| nonce == #[trigger] spec_nonce_string(counter, suffix)
}

/// Whether the nonce embeds some sequence number below `bound`.
pub open spec fn spec_counter_below(nonce: Seq<char>, bound: nat) -> bool {
    exists|c: nat| c < bound && #[trigger] spec_has_counter(nonce, c)
}

/// Whether every member of the set embeds a sequence number below `bound`.
pub open spec fn spec_issued_bounded(issued: Set<Seq<char>>, bound: nat) -> bool {
    forall|n: Seq<char>| #[trigger] issued.contains(n) ==> spec_counter_below(n, bound)
}

/// The decimal digit string for a value below ten.
fn digit_str(d: u64) -> (r: &'static str)
    requires
        d < 10,
    ensures
        r@ == seq![spec_digit(d as nat)],
{
    proof {
        reveal_strlit("0");
        reveal_strlit("1");
        reveal_strlit("2");
        reveal_strlit("3");
        reveal_strlit("4");
        reveal_strlit("5");
        reveal_strlit("6");
        reveal_strlit("7");
        reveal_strlit("8");
        reveal_strlit("9");
    }
    match d {
        0 => "0",
        1 => "1",
        2 => "2",
        3 => "3",
        4 => "4",
        5 => "5",
        6 => "6",
        7 => "7",
        8 => "8",
        _ => "9",
    }
}

/// The decimal rendering of `n`.
pub fn decimal_string(n: u64) -> (r: String)
    ensures
        r@ == spec_decimal(n as nat),
    decreases n,
{
    if n < 10 {
        String::from_str(digit_str(n))
    } else {
        let mut prefix = decimal_string(n / 10);
        prefix.append(digit_str(n % 10));
        proof {
            assert(prefix@ =~= spec_decimal(n as nat));
        }
        prefix
    }
}

/// A nonce embedding the given sequence number ahead of the suffix.
pub fn nonce_string(counter: u64, suffix: &str) -> (r: String)
    ensures
        r@ == spec_nonce_string(counter as nat, suffix@),
{
    let mut nonce = decimal_string(counter);
    nonce.append("-");
    proof {
        reveal_strlit("-");
        assert("-"@ =~= seq!['-']);
    }
    nonce.append(suffix);
    proof {
        assert(nonce@ =~= spec_nonce_string(counter as nat, suffix@));
    }
    nonce
}

/// No character of a decimal rendering is the separator.
proof fn lemma_decimal_no_separator(n: nat)
    ensures
        forall|i: int| 0 <= i < spec_decimal(n).len() ==> spec_decimal(n)[i] != '-',
    decreases n,
{
    if n >= 10 {
        lemma_decimal_no_separator(n / 10);
        assert forall|i: int| 0 <= i < spec_decimal(n).len() implies spec_decimal(n)[i] != '-' by {
            if i < spec_decimal(n / 10).len() {
                assert(spec_decimal(n)[i] == spec_decimal(n / 10)[i]);
            }
        }
    }
}

/// A decimal rendering is non-empty, and two digits long from ten upward.
proof fn lemma_decimal_len(n: nat)
    ensures
        spec_decimal(n).len() >= 1,
        n >= 10 ==> spec_decimal(n).len() >= 2,
    decreases n,
{
    if n >= 10 {
        lemma_decimal_len(n / 10);
    }
}

/// Decimal renderings are injective.
proof fn lemma_decimal_injective(a: nat, b: nat)
    requires
        spec_decimal(a) == spec_decimal(b),
    ensures
        a == b,
    decreases a,
{
    lemma_decimal_len(a);
    lemma_decimal_len(b);
    if a < 10 && b < 10 {
        assert(spec_decimal(a)[0] == spec_digit(a));
        assert(spec_decimal(b)[0] == spec_digit(b));
    } else if a >= 10 && b >= 10 {
        let pa = spec_decimal(a / 10);
        let pb = spec_decimal(b / 10);
        assert(spec_decimal(a).last() == spec_digit(a % 10));
        assert(spec_decimal(b).last() == spec_digit(b % 10));
        assert(a % 10 == b % 10);
        assert(pa =~= spec_decimal(a).drop_last());
        assert(pb =~= spec_decimal(b).drop_last());
        assert(pa =~= pb);
        lemma_decimal_injective(a / 10, b / 10);
        assert(a == (a / 10) * 10 + a % 10);
        assert(b == (b / 10) * 10 + b % 10);
    } else {
        // one is a single digit, the other at least two: the lengths differ
        assert(false);
    }
}

/// A nonce embeds exactly one sequence number: the digits before the first
/// separator determine it.
pub proof fn lemma_nonce_counter_unique(nonce: Seq<char>, c1: nat, c2: nat)
    requires
        spec_has_counter(nonce, c1),
        spec_has_counter(nonce, c2),
    ensures
        c1 == c2,
{
    let s1 = choose|s: Seq<char>| nonce == #[trigger] spec_nonce_string(c1, s);
    let s2 = choose|s: Seq<char>| nonce == #[trigger] spec_nonce_string(c2, s);
    let d1 = spec_decimal(c1);
    let d2 = spec_decimal(c2);
    lemma_decimal_no_separator(c1);
    lemma_decimal_no_separator(c2);
    if d1.len() < d2.len() {
        assert(nonce[d1.len() as int] == '-');
        assert(nonce[d1.len() as int] == d2[d1.len() as int]);
        assert(false);
    } else if d2.len() < d1.len() {
        assert(nonce[d2.len() as int] == '-');
        assert(nonce[d2.len() as int] == d1[d2.len() as int]);
        assert(false);
    } else {
        assert(d1 =~= d2) by {
            assert forall|i: int| 0 <= i < d1.len() implies d1[i] == d2[i] by {
                assert(nonce[i] == d1[i]);
                assert(nonce[i] == d2[i]);
            }
        }
        lemma_decimal_injective(c1, c2);
    }
}

/// A nonce embedding the bound itself cannot be in a set whose members all
/// embed sequence numbers below the bound.
pub proof fn lemma_minted_nonce_not_issued(issued: Set<Seq<char>>, bound: nat, nonce: Seq<char>)
    requires
        spec_issued_bounded(issued, bound),
        spec_has_counter(nonce, bound),
    ensures
        !issued.contains(nonce),
{
    if issued.contains(nonce) {
        let c = choose|c: nat| c < bound && #[trigger] spec_has_counter(nonce, c);
        lemma_nonce_counter_unique(nonce, c, bound);
    }
}

/// Recording a nonce that embeds the bound keeps the set bounded by the
/// successor.
pub proof fn lemma_issued_bound_insert(issued: Set<Seq<char>>, bound: nat, nonce: Seq<char>)
    requires
        spec_issued_bounded(issued, bound),
        spec_has_counter(nonce, bound),
    ensures
        spec_issued_bounded(issued.insert(nonce), bound + 1),
{
    assert forall|m: Seq<char>| #[trigger]
        issued.insert(nonce).contains(m) implies spec_counter_below(m, bound + 1) by {
        if m == nonce {
            assert(spec_has_counter(m, bound));
        } else {
            assert(issued.contains(m));
            let c = choose|c: nat| c < bound && #[trigger] spec_has_counter(m, c);
            assert(spec_has_counter(m, c));
        }
    }
}

} // verus!
