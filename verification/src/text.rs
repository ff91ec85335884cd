//! Text that messages are put together from: decimal numbers and lists of
//! them.
use vstd::prelude::*;
use vstd::string::*;

verus! {

/// The digit `d` as a character.
pub open spec fn digit_char(d: nat) -> char {
    (48 + d) as char
}

/// `n` in decimal, without leading zeros.
pub open spec fn decimal(n: nat) -> Seq<char>
    decreases n,
{
    if n < 10 {
        seq![digit_char(n)]
    } else {
        decimal(n / 10) + seq![digit_char(n % 10)]
    }
}

/// Numbers in decimal, with `", "` between them.
pub open spec fn decimal_list(s: Seq<u64>) -> Seq<char>
    decreases s.len(),
{
    if s.len() == 0 {
        Seq::empty()
    } else if s.len() == 1 {
        decimal(s[0] as nat)
    } else {
        decimal_list(s.drop_last()) + ", "@ + decimal(s.last() as nat)
    }
}

/// Whether a text is the given one.
pub fn same_text(a: &String, b: &str) -> (r: bool)
    ensures
        r == (a@ == b@),
{
    *a == String::from_str(b)
}

/// A copy of a text.
pub fn copy_text(a: &str) -> (t: String)
    ensures
        t@ == a@,
{
    String::from_str(a)
}

fn digit_text(d: u64) -> (t: &'static str)
    requires
        d < 10,
    ensures
        t@ == seq![digit_char(d as nat)],
{
    proof {
        reveal_strlit("0");
        reveal_strlit("1");
        reveal_strlit("2");
        reveal_strlit("3");
        reveal_strlit("4");
        reveal_strlit("5");
        reveal_strlit("6");
        reveal_strlit("7");
        reveal_strlit("8");
        reveal_strlit("9");
    }
    let t: &'static str = match d {
        0 => "0",
        1 => "1",
        2 => "2",
        3 => "3",
        4 => "4",
        5 => "5",
        6 => "6",
        7 => "7",
        8 => "8",
        _ => "9",
    };
    assert(t@ =~= seq![digit_char(d as nat)]);
    t
}

/// `n` in decimal.
pub fn decimal_text(n: u64) -> (t: String)
    ensures
        t@ == decimal(n as nat),
    decreases n,
{
    if n < 10 {
        String::from_str(digit_text(n))
    } else {
        let mut t: String = decimal_text(n / 10);
        t.append(digit_text(n % 10));
        t
    }
}

/// The numbers in decimal, with `", "` between them.
pub fn decimal_list_text(s: &[u64]) -> (t: String)
    ensures
        t@ == decimal_list(s@),
{
    let mut t: String = String::new();
    let mut i: usize = 0;
    assert(t@ =~= decimal_list(s@.take(0)));
    while i < s.len()
        invariant
            i <= s@.len(),
            t@ == decimal_list(s@.take(i as int)),
        decreases s@.len() - i,
    {
        let ghost next = s@.take(i + 1);
        assert(next.drop_last() =~= s@.take(i as int));
        let word: String = decimal_text(s[i]);
        if i > 0 {
            t.append(", ");
            t.append(word.as_str());
        } else {
            t = word;
        }
        assert(t@ =~= decimal_list(next));
        i += 1;
    }
    assert(s@.take(i as int) =~= s@);
    t
}

proof fn lemma_decimal_shape(n: nat)
    ensures
        decimal(n).len() >= 1,
        decimal(n).len() == 1 <==> n < 10,
        forall|i: int| 0 <= i < decimal(n).len() ==> '0' <= #[trigger] decimal(n)[i] <= '9',
    decreases n,
{
    if n >= 10 {
        lemma_decimal_shape(n / 10);
    }
}

/// A decimal number is made of digits, at least one of them.
pub proof fn law_decimal_is_digits(n: nat)
    ensures
        decimal(n).len() >= 1,
        forall|i: int| 0 <= i < decimal(n).len() ==> '0' <= #[trigger] decimal(n)[i] <= '9',
{
    lemma_decimal_shape(n);
}

/// Two numbers that look the same in decimal are the same.
pub proof fn law_decimal_tells_numbers(a: nat, b: nat)
    requires
        decimal(a) == decimal(b),
    ensures
        a == b,
    decreases a,
{
    lemma_decimal_shape(a);
    lemma_decimal_shape(b);
    if a < 10 {
        assert(decimal(a)[0] as int == 48 + a);
        assert(decimal(b)[0] as int == 48 + b);
    } else {
        assert(decimal(a).drop_last() =~= decimal(a / 10));
        assert(decimal(b).drop_last() =~= decimal(b / 10));
        law_decimal_tells_numbers(a / 10, b / 10);
        assert(decimal(a).last() as int == 48 + a % 10);
        assert(decimal(b).last() as int == 48 + b % 10);
    }
}

/// The number that some digits stand for, the first digit counting most.
pub open spec fn digits_value(s: Seq<char>) -> nat
    decreases s.len(),
{
    if s.len() == 0 {
        0
    } else {
        digits_value(s.drop_last()) * 10 + (s.last() as nat - '0' as nat) as nat
    }
}

/// A number's digits stand for the number, without a zero in front.
pub proof fn law_digits_stand_for_the_number(n: nat)
    ensures
        decimal(n).len() >= 1,
        digits_value(decimal(n)) == n,
        n > 0 ==> decimal(n)[0] != '0',
    decreases n,
{
    reveal_with_fuel(digits_value, 2);
    if n < 10 {
        assert(decimal(n).drop_last() =~= Seq::<char>::empty());
    } else {
        law_digits_stand_for_the_number(n / 10);
        assert(decimal(n).drop_last() =~= decimal(n / 10));
        assert(decimal(n)[0] == decimal(n / 10)[0]);
    }
}

/// Listed numbers stand in order, a comma and a space between two of them.
pub proof fn law_listed_numbers(s: Seq<u64>, x: u64)
    ensures
        decimal_list(Seq::<u64>::empty()) == Seq::<char>::empty(),
        s.len() == 0 ==> decimal_list(s.push(x)) == decimal(x as nat),
        s.len() > 0 ==> decimal_list(s.push(x)) == decimal_list(s) + ", "@ + decimal(x as nat),
{
    assert(s.push(x).drop_last() =~= s);
}

} // verus!
