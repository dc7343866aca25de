//! Decimal formatting of counters.
use vstd::prelude::*;
use crate::text::push_char;

verus! {

/// The character of a decimal digit.
pub open spec fn digit_char(d: nat) -> char {
    ((d + '0' as nat) as u32) as char
}

/// The decimal digits of `n`.
pub open spec fn decimal(n: nat) -> Seq<char>
    decreases n,
{
    if n < 10 {
        seq![digit_char(n)]
    } else {
        decimal(n / 10).push(digit_char(n % 10))
    }
}

/// The decimal digits of `n`, zero-padded to at least four (`{:04}`).
pub open spec fn padded4(n: nat) -> Seq<char> {
    let d = decimal(n);
    if d.len() >= 4 {
        d
    } else {
        Seq::new((4 - d.len()) as nat, |i: int| '0') + d
    }
}

proof fn lemma_decimal_len(n: nat)
    ensures
        decimal(n).len() >= 1,
        n < 10 ==> decimal(n).len() == 1,
        10 <= n < 100 ==> decimal(n).len() == 2,
        100 <= n < 1000 ==> decimal(n).len() == 3,
    decreases n,
{
    if n >= 10 {
        lemma_decimal_len(n / 10);
    }
}

proof fn lemma_digit_char_injective(a: nat, b: nat)
    requires
        a < 10,
        b < 10,
        digit_char(a) == digit_char(b),
    ensures
        a == b,
{
    assert((digit_char(a) as u32) == (a + 48) as u32);
    assert((digit_char(b) as u32) == (b + 48) as u32);
}

/// Different numbers have different decimal digits.
pub proof fn lemma_decimal_injective(a: nat, b: nat)
    requires
        decimal(a) == decimal(b),
    ensures
        a == b,
    decreases a,
{
    lemma_decimal_len(a);
    lemma_decimal_len(b);
    if a < 10 && b < 10 {
        assert(decimal(a)[0] == digit_char(a));
        assert(decimal(b)[0] == digit_char(b));
        lemma_digit_char_injective(a, b);
    } else if a < 10 {
        lemma_decimal_len(b / 10);
    } else if b < 10 {
        lemma_decimal_len(a / 10);
    } else {
        let da = decimal(a);
        assert(da.last() == digit_char(a % 10));
        assert(decimal(b).last() == digit_char(b % 10));
        lemma_digit_char_injective(a % 10, b % 10);
        assert(decimal(a / 10) =~= da.drop_last());
        assert(decimal(b / 10) =~= decimal(b).drop_last());
        lemma_decimal_injective(a / 10, b / 10);
    }
}

fn digit(d: usize) -> (c: char)
    requires
        d < 10,
    ensures
        c == digit_char(d as nat),
{
    let c = ((d as u8) + ('0' as u8)) as char;
    assert(c == digit_char(d as nat)) by {
        assert(((d + '0' as nat) as u32) as char == ((d as u8 + '0' as u8) as u8) as char);
    }
    c
}

/// Writes `n` in decimal, zero-padded to at least four digits.
pub fn format_padded4(n: usize) -> (s: String)
    ensures
        s@ == padded4(n as nat),
{
    let mut digits: Vec<char> = Vec::new();
    let mut m: usize = n;
    // digits holds the decimal digits of n below m, last digit first
    while m >= 10
        invariant
            decimal(n as nat) == decimal(m as nat) + digits@.reverse(),
        decreases m,
    {
        let ghost before = digits@;
        digits.push(digit(m % 10));
        assert(decimal(m as nat) == decimal((m / 10) as nat).push(digit_char((m % 10) as nat)));
        assert(digits@.reverse() =~= seq![digit_char((m % 10) as nat)] + before.reverse());
        assert(decimal(m as nat) + before.reverse() =~= decimal((m / 10) as nat) + digits@.reverse());
        m = m / 10;
    }
    let ghost before = digits@;
    digits.push(digit(m));
    assert(digits@.reverse() =~= seq![digit_char(m as nat)] + before.reverse());
    assert(decimal(n as nat) =~= digits@.reverse());
    let mut s = String::new();
    let total = digits.len();
    proof {
        lemma_decimal_len(n as nat);
    }
    let count: usize = if total < 4 { 4 - total } else { 0 };
    let mut pad: usize = 0;
    while pad < count
        invariant
            pad <= count,
            s@ == Seq::new(pad as nat, |i: int| '0'),
            total == digits.len(),
        decreases count - pad,
    {
        push_char(&mut s, '0');
        pad += 1;
        assert(s@ =~= Seq::new(pad as nat, |i: int| '0'));
    }
    let ghost padding = s@;
    let mut i: usize = total;
    while i > 0
        invariant
            i <= total == digits.len(),
            s@ == padding + digits@.reverse().take((total - i) as int),
        decreases i,
    {
        i -= 1;
        push_char(&mut s, digits[i]);
        assert(digits@.reverse()[(total - i - 1) as int] == digits@[i as int]);
        assert(s@ =~= padding + digits@.reverse().take((total - i) as int));
    }
    assert(digits@.reverse().take(total as int) =~= digits@.reverse());
    if total >= 4 {
        assert(pad == 0);
        assert(s@ =~= decimal(n as nat));
    } else {
        assert(pad == 4 - total);
    }
    s
}

/// The decimal digits of `n`, computed.
fn decimal_chars(n: usize) -> (r: Vec<char>)
    ensures
        r@ == decimal(n as nat),
{
    let mut digits: Vec<char> = Vec::new();
    let mut m: usize = n;
    while m >= 10
        invariant
            decimal(n as nat) == decimal(m as nat) + digits@.reverse(),
        decreases m,
    {
        let ghost before = digits@;
        digits.push(digit(m % 10));
        assert(decimal(m as nat) == decimal((m / 10) as nat).push(digit_char((m % 10) as nat)));
        assert(digits@.reverse() =~= seq![digit_char((m % 10) as nat)] + before.reverse());
        assert(decimal(m as nat) + before.reverse() =~= decimal((m / 10) as nat) + digits@.reverse());
        m = m / 10;
    }
    let ghost before = digits@;
    digits.push(digit(m));
    assert(digits@.reverse() =~= seq![digit_char(m as nat)] + before.reverse());
    assert(decimal(n as nat) =~= digits@.reverse());
    let mut out: Vec<char> = Vec::new();
    let total = digits.len();
    let mut i: usize = total;
    while i > 0
        invariant
            i <= total == digits.len(),
            out@ == digits@.reverse().take((total - i) as int),
        decreases i,
    {
        i -= 1;
        out.push(digits[i]);
        assert(digits@.reverse()[(total - i - 1) as int] == digits@[i as int]);
        assert(out@ =~= digits@.reverse().take((total - i) as int));
    }
    assert(digits@.reverse().take(total as int) =~= digits@.reverse());
    out
}

/// Writes `n` in decimal (`{}`).
pub fn format_decimal(n: usize) -> (s: String)
    ensures
        s@ == decimal(n as nat),
{
    let cs = decimal_chars(n);
    crate::text::string_of(&cs)
}

/// How a count of pages is written: `1 page`, else the count and `pages`.
pub open spec fn page_count_text(n: nat) -> Seq<char> {
    if n == 1 {
        "1 page"@
    } else {
        decimal(n) + " pages"@
    }
}

/// Writes a count of pages.
pub fn format_page_count(n: usize) -> (s: String)
    ensures
        s@ == page_count_text(n as nat),
{
    if n == 1 {
        let mut s = String::new();
        s.append("1 page");
        s
    } else {
        let mut s = format_decimal(n);
        s.append(" pages");
        s
    }
}

} // verus!
