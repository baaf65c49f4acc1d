//! Correlation ids: the counter that issues them and their decimal text.

use vstd::arithmetic::div_mod::{lemma_fundamental_div_mod, lemma_small_mod};
use vstd::prelude::*;
use vstd::string::StringExecFns;

verus! {

/// The character of the decimal digit `d`.
pub open spec fn digit_char(d: nat) -> char {
    if d == 0 {
        '0'
    } else if d == 1 {
        '1'
    } else if d == 2 {
        '2'
    } else if d == 3 {
        '3'
    } else if d == 4 {
        '4'
    } else if d == 5 {
        '5'
    } else if d == 6 {
        '6'
    } else if d == 7 {
        '7'
    } else if d == 8 {
        '8'
    } else {
        '9'
    }
}

/// The digit that `c` stands for, if it is a decimal digit.
pub open spec fn digit_value(c: char) -> Option<nat> {
    if c == '0' {
        Some(0)
    } else if c == '1' {
        Some(1)
    } else if c == '2' {
        Some(2)
    } else if c == '3' {
        Some(3)
    } else if c == '4' {
        Some(4)
    } else if c == '5' {
        Some(5)
    } else if c == '6' {
        Some(6)
    } else if c == '7' {
        Some(7)
    } else if c == '8' {
        Some(8)
    } else if c == '9' {
        Some(9)
    } else {
        None
    }
}

/// The decimal text of `n`: its digits, most significant first, without leading zeros.
pub open spec fn decimal(n: nat) -> Seq<char>
    decreases n,
{
    if n < 10 {
        seq![digit_char(n)]
    } else {
        decimal(n / 10).push(digit_char(n % 10))
    }
}

/// The number that a text of decimal digits stands for.
pub open spec fn decimal_value(text: Seq<char>) -> nat
    decreases text.len(),
{
    if text.len() == 0 {
        0
    } else {
        match digit_value(text.last()) {
            Some(d) => 10 * decimal_value(text.drop_last()) + d,
            None => 0,
        }
    }
}

/// Reading the decimal text of a number gives the number back.
pub proof fn lemma_decimal_value_of_decimal(n: nat)
    ensures
        decimal_value(decimal(n)) == n,
    decreases n,
{
    if n < 10 {
        let text = decimal(n);
        assert(text.last() == digit_char(n));
        assert(text.drop_last() =~= Seq::<char>::empty());
        assert(decimal_value(text.drop_last()) == 0);
    } else {
        let text = decimal(n);
        lemma_decimal_value_of_decimal(n / 10);
        assert(text.last() == digit_char(n % 10));
        assert(text.drop_last() =~= decimal(n / 10));
    }
}

/// Two numbers with the same decimal text are the same number.
pub proof fn lemma_decimal_injective(a: nat, b: nat)
    requires
        decimal(a) == decimal(b),
    ensures
        a == b,
{
    lemma_decimal_value_of_decimal(a);
    lemma_decimal_value_of_decimal(b);
}

/// The text of one decimal digit.
fn digit_text(d: usize) -> (text: &'static str)
    requires
        d < 10,
    ensures
        text@ == seq![digit_char(d as nat)],
{
    proof {
        reveal_strlit("0");
        reveal_strlit("1");
        reveal_strlit("2");
        reveal_strlit("3");
        reveal_strlit("4");
        reveal_strlit("5");
        reveal_strlit("6");
        reveal_strlit("7");
        reveal_strlit("8");
        reveal_strlit("9");
    }
    let text = if d == 0 {
        "0"
    } else if d == 1 {
        "1"
    } else if d == 2 {
        "2"
    } else if d == 3 {
        "3"
    } else if d == 4 {
        "4"
    } else if d == 5 {
        "5"
    } else if d == 6 {
        "6"
    } else if d == 7 {
        "7"
    } else if d == 8 {
        "8"
    } else {
        "9"
    };
    assert(text@ =~= seq![digit_char(d as nat)]);
    text
}

/// The decimal text of `n`.
pub fn decimal_text(n: usize) -> (text: String)
    ensures
        text@ == decimal(n as nat),
{
    let mut text = digit_text(n % 10).to_owned();
    let mut rest: usize = n / 10;
    while rest > 0
        invariant
            rest > 0 ==> decimal(n as nat) == decimal(rest as nat) + text@,
            rest == 0 ==> decimal(n as nat) == text@,
        decreases rest,
    {
        let ghost high = rest as nat;
        text = digit_text(rest % 10).to_owned().concat(text.as_str());
        rest = rest / 10;
        proof {
            if rest == 0 {
                assert(decimal(high) =~= seq![digit_char(high % 10)]);
                assert(decimal(n as nat) =~= text@);
            } else {
                assert(decimal(high) =~= decimal(rest as nat) + seq![digit_char(high % 10)]);
                assert(decimal(n as nat) =~= decimal(rest as nat) + text@);
            }
        }
    }
    text
}

/// The largest id that the counter issues.
pub open spec fn max_id() -> nat {
    usize::MAX as nat
}

/// The id that is issued after `last`, where `last` is 0 before the first one: the next
/// number, and 1 again after the largest.
pub open spec fn following(last: nat) -> nat {
    if last >= max_id() {
        1
    } else {
        last + 1
    }
}

/// The `k`-th id that a new counter issues, for `k` from 1 on.
pub open spec fn issued(k: nat) -> nat
    decreases k,
{
    if k == 0 {
        0
    } else {
        following(issued((k - 1) as nat))
    }
}

/// The counter of correlation ids. It remembers the id that it issued last.
pub struct MessageCounter {
    counter: usize,
}

impl MessageCounter {
    /// The id that was issued last, or 0 where none was issued yet.
    pub closed spec fn last(&self) -> nat {
        self.counter as nat
    }

    /// A counter that has issued no id.
    pub fn new() -> (ids: Self)
        ensures
            ids.last() == 0,
    {
        MessageCounter { counter: 0 }
    }

    /// A counter that goes on after the id `last`.
    pub fn starting_after(last: usize) -> (ids: Self)
        ensures
            ids.last() == last,
    {
        MessageCounter { counter: last }
    }

    /// Issues the next id and returns its decimal text.
    pub fn message_id(&mut self) -> (id: String)
        ensures
            final(self).last() == following(old(self).last()),
            1 <= final(self).last() <= max_id(),
            id@ == decimal(final(self).last()),
    {
        if self.counter >= usize::MAX {
            self.counter = 0;
        }
        self.counter += 1;
        decimal_text(self.counter)
    }
}

/// No id is 0, as a number or as a text: after any id comes one between 1 and the
/// largest, and after the largest comes 1.
pub proof fn lemma_following_in_range(last: nat)
    ensures
        1 <= following(last) <= max_id(),
        following(last) != 0,
        decimal(following(last)) != decimal(0),
        following(max_id()) == 1,
        last < max_id() ==> following(last) == last + 1,
{
    if decimal(following(last)) == decimal(0) {
        lemma_decimal_injective(following(last), 0);
    }
}

/// The ids of a new counter run through 1 up to the largest id, again and again.
pub proof fn lemma_issued_closed_form(k: nat)
    requires
        k >= 1,
    ensures
        issued(k) == (k - 1) % (max_id() as int) + 1,
        1 <= issued(k) <= max_id(),
    decreases k,
{
    let m = max_id() as int;
    if k == 1 {
        assert(issued(0) == 0);
        assert(issued(1) == following(issued(0)));
        lemma_small_mod(0, max_id());
    } else {
        let prev = (k - 1) as nat;
        lemma_issued_closed_form(prev);
        lemma_step_modulo(k - 2, m);
    }
}

/// How the remainder moves when the dividend grows by one.
proof fn lemma_step_modulo(x: int, m: int)
    requires
        x >= 0,
        m > 0,
    ensures
        (x + 1) % m == if x % m == m - 1 {
            0
        } else {
            x % m + 1
        },
{
    lemma_fundamental_div_mod(x, m);
    lemma_fundamental_div_mod(x + 1, m);
    let q = x / m;
    let r = x % m;
    let q1 = (x + 1) / m;
    let r1 = (x + 1) % m;
    assert(0 <= r < m && 0 <= r1 < m);
    if r == m - 1 {
        assert(q1 == q + 1 && r1 == 0) by (nonlinear_arith)
            requires
                x == m * q + r,
                x + 1 == m * q1 + r1,
                r == m - 1,
                0 <= r1 < m,
                m > 0,
        ;
    } else {
        assert(q1 == q && r1 == r + 1) by (nonlinear_arith)
            requires
                x == m * q + r,
                x + 1 == m * q1 + r1,
                0 <= r < m - 1,
                0 <= r1 < m,
                m > 0,
        ;
    }
}

/// Two ids that a counter issues are different, and so are their texts, unless as many
/// ids as there are lie between them.
pub proof fn lemma_issued_distinct(i: nat, j: nat)
    requires
        1 <= i < j,
        j - i < max_id(),
    ensures
        issued(i) != issued(j),
        decimal(issued(i)) != decimal(issued(j)),
{
    let m = max_id() as int;
    lemma_issued_closed_form(i);
    lemma_issued_closed_form(j);
    let a = i - 1;
    let b = j - 1;
    lemma_fundamental_div_mod(a, m);
    lemma_fundamental_div_mod(b, m);
    if a % m == b % m {
        let qa = a / m;
        let qb = b / m;
        assert(false) by (nonlinear_arith)
            requires
                a == m * qa + a % m,
                b == m * qb + b % m,
                a % m == b % m,
                0 < b - a < m,
                m > 0,
        ;
    }
    if decimal(issued(i)) == decimal(issued(j)) {
        lemma_decimal_injective(issued(i), issued(j));
    }
}

} // verus!
