//! Numbers as text.
use vstd::prelude::*;

verus! {

/// `String::push` appends one character to the string.
pub assume_specification[ String::push ](s: &mut String, c: char)
    ensures
        final(s)@ == old(s)@.push(c),
;

/// What an optional string holds.
pub open spec fn view_of(s: Option<String>) -> Option<Seq<char>> {
    match s {
        Some(s) => Some(s@),
        None => None,
    }
}

/// The digit of value `d`, for any base up to 16.
pub open spec fn digit(d: int) -> char {
    seq!['0', '1', '2', '3', '4', '5', '6', '7', '8', '9', 'a', 'b', 'c', 'd', 'e', 'f'][d]
}

/// `n` written in base `base`, without leading zeros.
pub open spec fn numeral(n: nat, base: nat) -> Seq<char>
    decreases n,
    via numeral_shrinks
{
    if n < base || base < 2 {
        seq![digit(n as int)]
    } else {
        numeral(n / base, base).push(digit((n % base) as int))
    }
}

#[via_fn]
proof fn numeral_shrinks(n: nat, base: nat) {
    lemma_quotient_shrinks(n, base);
}

proof fn lemma_quotient_shrinks(n: nat, base: nat)
    ensures
        n >= base && base >= 2 ==> n / base < n,
{
    if n >= base && base >= 2 {
        assert(n / base < n) by (nonlinear_arith)
            requires
                n >= base,
                base >= 2,
        ;
    }
}

/// `n` in decimal.
pub open spec fn decimal(n: nat) -> Seq<char> {
    numeral(n, 10)
}

/// `n` in lower-case hexadecimal.
pub open spec fn hexadecimal(n: nat) -> Seq<char> {
    numeral(n, 16)
}

/// `n` in decimal, filled up with leading zeros to at least `width` digits.
pub open spec fn padded(n: nat, width: nat) -> Seq<char> {
    let zeros = if decimal(n).len() < width {
        (width - decimal(n).len()) as nat
    } else {
        0
    };
    Seq::new(zeros, |i: int| '0') + decimal(n)
}

/// Ten to the power of `n`.
pub open spec fn pow10(n: nat) -> nat
    decreases n,
{
    if n == 0 {
        1
    } else {
        10 * pow10((n - 1) as nat)
    }
}

/// A number below `10^n` has at most `n` digits.
pub proof fn lemma_decimal_len(v: nat, n: nat)
    requires
        n >= 1,
        v < pow10(n),
    ensures
        1 <= decimal(v).len() <= n,
    decreases n,
{
    if v >= 10 {
        assert(n >= 2) by {
            reveal_with_fuel(pow10, 2);
        }
        lemma_decimal_len(v / 10, (n - 1) as nat);
    }
}

/// A number that fits in `width` digits is written in exactly as many.
pub proof fn lemma_padded_len(v: nat, width: nat)
    requires
        width >= 1,
        v < pow10(width),
    ensures
        padded(v, width).len() == width,
{
    lemma_decimal_len(v, width);
}

/// A decimal digit.
pub open spec fn is_decimal_digit(c: char) -> bool {
    '0' <= c <= '9'
}

/// A number in decimal has digits alone.
pub proof fn lemma_decimal_digits(v: nat)
    ensures
        forall|i: int| 0 <= i < decimal(v).len() ==> is_decimal_digit(#[trigger] decimal(v)[i]),
    decreases v,
{
    let d = (v % 10) as int;
    assert(d == 0 || d == 1 || d == 2 || d == 3 || d == 4 || d == 5 || d == 6 || d == 7 || d == 8
        || d == 9);
    assert(is_decimal_digit(digit(d)));
    if v >= 10 {
        lemma_decimal_digits(v / 10);
        let front = decimal(v / 10);
        assert(decimal(v) == front.push(digit(d)));
        assert forall|i: int| 0 <= i < decimal(v).len() implies is_decimal_digit(
            #[trigger] decimal(v)[i],
        ) by {
            if i < front.len() {
                assert(decimal(v)[i] == front[i]);
            }
        }
    }
}

/// A padded number has digits alone.
pub proof fn lemma_padded_digits(v: nat, width: nat)
    ensures
        forall|i: int|
            0 <= i < padded(v, width).len() ==> is_decimal_digit(#[trigger] padded(v, width)[i]),
{
    lemma_decimal_digits(v);
}

/// `a` comes before `b` in the order of strings: they agree up to a character at
/// which `a` has the smaller one.
pub open spec fn comes_before(a: Seq<char>, b: Seq<char>) -> bool {
    exists|k: int| #[trigger] differ_first_at(a, b, k) && a[k] < b[k]
}

/// `k` is the first place at which `a` and `b` may differ.
pub open spec fn differ_first_at(a: Seq<char>, b: Seq<char>, k: int) -> bool {
    0 <= k < a.len() && k < b.len() && a.take(k) == b.take(k)
}

/// What comes before stays before, whatever is appended.
pub proof fn lemma_before_append(a: Seq<char>, b: Seq<char>, u: Seq<char>, v: Seq<char>)
    requires
        comes_before(a, b),
    ensures
        comes_before(a + u, b + v),
{
    let k = choose|k: int| #[trigger] differ_first_at(a, b, k) && a[k] < b[k];
    assert((a + u).take(k) =~= a.take(k));
    assert((b + v).take(k) =~= b.take(k));
    assert(differ_first_at(a + u, b + v, k));
}

/// A common front does not matter to the order.
pub proof fn lemma_before_prepend(front: Seq<char>, u: Seq<char>, v: Seq<char>)
    requires
        comes_before(u, v),
    ensures
        comes_before(front + u, front + v),
{
    let k = choose|k: int| #[trigger] differ_first_at(u, v, k) && u[k] < v[k];
    let n = front.len() + k;
    assert((front + u).take(n) =~= front + u.take(k));
    assert((front + v).take(n) =~= front + v.take(k));
    assert(differ_first_at(front + u, front + v, n));
}

/// A padded number is its quotient by ten, one digit shorter, and its last digit.
proof fn lemma_padded_last(v: nat, width: nat)
    requires
        width >= 2,
        v < pow10(width),
    ensures
        padded(v, width) == padded(v / 10, (width - 1) as nat).push(digit((v % 10) as int)),
{
    lemma_decimal_len(v, width);
    lemma_decimal_len(v / 10, (width - 1) as nat);
    let short = padded(v / 10, (width - 1) as nat);
    if v < 10 {
        assert(decimal(v / 10) =~= seq!['0']);
    }
    assert(padded(v, width) =~= short.push(digit((v % 10) as int)));
}

/// Padded to the same width, a smaller number comes before a larger one.
pub proof fn lemma_padded_order(a: nat, b: nat, width: nat)
    requires
        width >= 1,
        a < b < pow10(width),
    ensures
        comes_before(padded(a, width), padded(b, width)),
    decreases width,
{
    lemma_padded_len(a, width);
    lemma_padded_len(b, width);
    if width == 1 {
        reveal_with_fuel(pow10, 2);
        assert(differ_first_at(padded(a, width), padded(b, width), 0)) by {
            assert(padded(a, width).take(0) =~= padded(b, width).take(0));
        }
    } else {
        let (x, y) = (padded(a / 10, (width - 1) as nat), padded(b / 10, (width - 1) as nat));
        let (da, db) = (digit((a % 10) as int), digit((b % 10) as int));
        lemma_padded_last(a, width);
        lemma_padded_last(b, width);
        assert(x.push(da) =~= x + seq![da]);
        assert(y.push(db) =~= y + seq![db]);
        if a / 10 < b / 10 {
            lemma_padded_order(a / 10, b / 10, (width - 1) as nat);
            lemma_before_append(x, y, seq![da], seq![db]);
        } else {
            assert(a / 10 == b / 10 && a % 10 < b % 10);
            assert(differ_first_at(seq![da], seq![db], 0)) by {
                assert(seq![da].take(0) =~= seq![db].take(0));
            }
            lemma_before_prepend(x, seq![da], seq![db]);
        }
    }
}

/// One numeral stands for one number.
pub proof fn lemma_numeral_unique(a: nat, b: nat, base: nat)
    requires
        2 <= base <= 16,
        numeral(a, base) == numeral(b, base),
    ensures
        a == b,
    decreases a,
{
    lemma_digits_differ();
    lemma_numeral_len(a, base);
    lemma_numeral_len(b, base);
    if a >= base && b >= base {
        lemma_quotient_shrinks(a, base);
        let (x, y) = (numeral(a / base, base), numeral(b / base, base));
        let (da, db) = (digit((a % base) as int), digit((b % base) as int));
        assert(x =~= x.push(da).drop_last());
        assert(y =~= y.push(db).drop_last());
        assert(x.push(da).last() == da && y.push(db).last() == db);
        assert(0 <= a % base < base && 0 <= b % base < base) by (nonlinear_arith)
            requires
                base >= 2,
        ;
        lemma_numeral_unique(a / base, b / base, base);
        assert(digit((a % base) as int) == digit((b % base) as int));
        assert(a % base == b % base);
        vstd::arithmetic::div_mod::lemma_fundamental_div_mod(a as int, base as int);
        vstd::arithmetic::div_mod::lemma_fundamental_div_mod(b as int, base as int);
    } else {
        assert(numeral(a, base) == seq![digit(a as int)]);
        assert(numeral(b, base) == seq![digit(b as int)]);
        assert(seq![digit(a as int)][0] == seq![digit(b as int)][0]);
        assert(digit(a as int) == digit(b as int));
    }
}

/// A numeral has a digit, and more than one exactly from the base on.
pub proof fn lemma_numeral_len(n: nat, base: nat)
    requires
        base >= 2,
    ensures
        numeral(n, base).len() >= 1,
        numeral(n, base).len() > 1 <==> n >= base,
    decreases n,
{
    if n >= base {
        lemma_quotient_shrinks(n, base);
        lemma_numeral_len(n / base, base);
    }
}

/// Digits of different values differ.
proof fn lemma_digits_differ()
    ensures
        forall|x: int, y: int|
            0 <= x < 16 && 0 <= y < 16 && #[trigger] digit(x) == #[trigger] digit(y) ==> x == y,
{
    let all = seq!['0', '1', '2', '3', '4', '5', '6', '7', '8', '9', 'a', 'b', 'c', 'd', 'e', 'f'];
    assert forall|x: int, y: int|
        0 <= x < 16 && 0 <= y < 16 && #[trigger] digit(x) == #[trigger] digit(y) implies x == y by {
        assert(all[x] == all[y]);
    }
}

fn digit_char(d: u64) -> (c: char)
    requires
        d < 16,
    ensures
        c == digit(d as int),
{
    match d {
        0 => '0',
        1 => '1',
        2 => '2',
        3 => '3',
        4 => '4',
        5 => '5',
        6 => '6',
        7 => '7',
        8 => '8',
        9 => '9',
        10 => 'a',
        11 => 'b',
        12 => 'c',
        13 => 'd',
        14 => 'e',
        _ => 'f',
    }
}

fn push_numeral(s: &mut String, n: u64, base: u64)
    requires
        2 <= base <= 16,
    ensures
        final(s)@ == old(s)@ + numeral(n as nat, base as nat),
    decreases n,
{
    if n < base {
        s.push(digit_char(n));
        assert(s@ =~= old(s)@ + numeral(n as nat, base as nat));
    } else {
        assert(n / base < n) by (nonlinear_arith)
            requires
                n >= base,
                base >= 2,
        ;
        push_numeral(s, n / base, base);
        s.push(digit_char(n % base));
        assert(s@ =~= old(s)@ + numeral(n as nat, base as nat));
    }
}

/// Appends `n` in decimal.
pub fn push_decimal(s: &mut String, n: u64)
    ensures
        final(s)@ == old(s)@ + decimal(n as nat),
{
    push_numeral(s, n, 10);
}

/// Appends `n` in lower-case hexadecimal.
pub fn push_hexadecimal(s: &mut String, n: u64)
    ensures
        final(s)@ == old(s)@ + hexadecimal(n as nat),
{
    push_numeral(s, n, 16);
}

/// Number of decimal digits of `n`.
fn decimal_len(n: u64) -> (len: u64)
    ensures
        len == decimal(n as nat).len(),
        1 <= len <= n + 1,
    decreases n,
{
    if n < 10 {
        1
    } else {
        decimal_len(n / 10) + 1
    }
}

/// Appends `n` in decimal with at least `width` digits.
pub fn push_padded(s: &mut String, n: u64, width: u64)
    ensures
        final(s)@ == old(s)@ + padded(n as nat, width as nat),
{
    let len: u64 = decimal_len(n);
    let mut i: u64 = len;
    let ghost zeros = Seq::new((width - len) as nat, |i: int| '0');
    if len < width {
        while i < width
            invariant
                len <= i <= width,
                zeros == Seq::new((width - len) as nat, |i: int| '0'),
                s@ == old(s)@ + zeros.take(i - len),
            decreases width - i,
        {
            s.push('0');
            i = i + 1;
            assert(s@ =~= old(s)@ + zeros.take(i - len));
        }
        assert(zeros.take(width - len) =~= zeros);
    }
    push_decimal(s, n);
    assert(s@ =~= old(s)@ + padded(n as nat, width as nat));
}

} // verus!
