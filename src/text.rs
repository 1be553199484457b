//! Identifier and default-name text of records.
use vstd::prelude::*;

verus! {

pub open spec fn digit_char(d: nat) -> char {
    seq!['0', '1', '2', '3', '4', '5', '6', '7', '8', '9'][d as int]
}

/// The decimal digits of `n`, without leading zeros.
pub open spec fn decimal(n: nat) -> Seq<char>
    decreases n,
{
    if n < 10 {
        seq![digit_char(n)]
    } else {
        decimal(n / 10).push(digit_char(n % 10))
    }
}

/// The identifier of the record numbered `n`: `T` and the number.
pub open spec fn identifier_text(n: nat) -> Seq<char> {
    seq!['T'] + decimal(n)
}

/// The name a record numbered `n` starts with: `Untitled(n)`.
pub open spec fn untitled_text(n: nat) -> Seq<char> {
    seq!['U', 'n', 't', 'i', 't', 'l', 'e', 'd', '('] + decimal(n) + seq![')']
}

/// Appends the decimal digits of `n` to `s`.
pub fn push_decimal(s: &mut String, n: u64)
    ensures
        final(s)@ == old(s)@ + decimal(n as nat),
    decreases n,
{
    if n >= 10 {
        push_decimal(s, n / 10);
    }
    let d = (n % 10) as usize;
    let digits = "0123456789";
    proof {
        reveal_strlit("0123456789");
    }
    let one = digits.substring_char(d, d + 1);
    assert(one@ =~= seq![digit_char(d as nat)]);
    s.append(one);
    assert(final(s)@ =~= old(s)@ + decimal(n as nat));
}

/// The identifier of the record numbered `n`, such as `T12`.
pub fn identifier(n: u64) -> (r: String)
    ensures
        r@ == identifier_text(n as nat),
{
    let mut s = String::from_str("T");
    proof {
        reveal_strlit("T");
    }
    push_decimal(&mut s, n);
    assert(s@ =~= identifier_text(n as nat));
    s
}

/// The default name of the record numbered `n`, such as `Untitled(12)`.
pub fn untitled(n: u64) -> (r: String)
    ensures
        r@ == untitled_text(n as nat),
{
    let mut s = String::from_str("Untitled(");
    proof {
        reveal_strlit("Untitled(");
        reveal_strlit(")");
    }
    push_decimal(&mut s, n);
    s.append(")");
    assert(s@ =~= untitled_text(n as nat));
    s
}

proof fn lemma_decimal_nonempty(n: nat)
    ensures
        decimal(n).len() >= 1,
        n >= 10 ==> decimal(n).len() >= 2,
    decreases n,
{
    if n >= 10 {
        lemma_decimal_nonempty(n / 10);
    }
}

proof fn lemma_digit_char_injective(a: nat, b: nat)
    requires
        a < 10,
        b < 10,
        digit_char(a) == digit_char(b),
    ensures
        a == b,
{
}

/// Distinct numbers have distinct decimal digits.
pub proof fn lemma_decimal_injective(a: nat, b: nat)
    requires
        decimal(a) == decimal(b),
    ensures
        a == b,
    decreases a,
{
    lemma_decimal_nonempty(a);
    lemma_decimal_nonempty(b);
    if a < 10 && b < 10 {
        assert(decimal(a) == seq![digit_char(a)]);
        assert(decimal(b) == seq![digit_char(b)]);
        assert(decimal(a)[0] == digit_char(a));
        assert(decimal(b)[0] == digit_char(b));
        lemma_digit_char_injective(a, b);
    } else if a >= 10 && b >= 10 {
        let da = decimal(a / 10);
        let db = decimal(b / 10);
        assert(decimal(a).last() == digit_char(a % 10));
        assert(decimal(b).last() == digit_char(b % 10));
        lemma_digit_char_injective(a % 10, b % 10);
        assert(decimal(a).drop_last() =~= da);
        assert(decimal(b).drop_last() =~= db);
        lemma_decimal_injective(a / 10, b / 10);
    } else if a < 10 {
        assert(decimal(a).len() == 1);
    } else {
        assert(decimal(b).len() == 1);
    }
}

/// Records with distinct numbers have distinct identifiers.
pub proof fn lemma_identifier_injective(a: nat, b: nat)
    requires
        a != b,
    ensures
        identifier_text(a) != identifier_text(b),
{
    if identifier_text(a) == identifier_text(b) {
        assert(decimal(a) =~= identifier_text(a).drop_first());
        assert(decimal(b) =~= identifier_text(b).drop_first());
        lemma_decimal_injective(a, b);
    }
}

} // verus!
