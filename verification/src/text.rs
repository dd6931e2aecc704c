//! Rendering of numbers and fixed-width columns as text.
use vstd::prelude::*;
use vstd::string::*;

verus! {

/// The decimal digit character for `d` (meaningful for `d < 10`).
pub open spec fn digit_char(d: nat) -> char {
    seq!['0', '1', '2', '3', '4', '5', '6', '7', '8', '9'][d as int]
}

/// The decimal notation of a natural number, most significant digit first,
/// without leading zeros (zero itself is written `0`).
pub open spec fn decimal(n: nat) -> Seq<char>
    decreases n,
{
    if n < 10 {
        seq![digit_char(n)]
    } else {
        decimal(n / 10).push(digit_char(n % 10))
    }
}

/// The decimal notation of an integer: a minus sign in front of the
/// magnitude for negative values.
pub open spec fn signed_decimal(n: int) -> Seq<char> {
    if n < 0 {
        seq!['-'] + decimal((-n) as nat)
    } else {
        decimal(n as nat)
    }
}

/// `n` blanks.
pub open spec fn blanks(n: nat) -> Seq<char> {
    Seq::new(n, |i: int| ' ')
}

/// `s` extended on the right with blanks up to `width` characters; a text
/// already that wide or wider is left as it is.
pub open spec fn padded(s: Seq<char>, width: nat) -> Seq<char> {
    if s.len() >= width {
        s
    } else {
        s + blanks((width - s.len()) as nat)
    }
}

/// `c` is one of the decimal digits `0` to `9`.
pub open spec fn is_digit(c: char) -> bool {
    48 <= (c as int) <= 57
}

/// The digit character of `d` has code `'0' + d`.
pub proof fn lemma_digit_char(d: nat)
    requires
        d < 10,
    ensures
        (digit_char(d) as int) == 48 + d,
{
    assert(d == 0 || d == 1 || d == 2 || d == 3 || d == 4 || d == 5 || d == 6 || d == 7 || d
        == 8 || d == 9);
}

/// Decimal notation is made of digits only; a single digit stands exactly
/// for the numbers below ten.
pub proof fn lemma_decimal_digits(n: nat)
    ensures
        decimal(n).len() >= 1,
        decimal(n).len() == 1 <==> n < 10,
        forall|i: int| 0 <= i < decimal(n).len() ==> is_digit(#[trigger] decimal(n)[i]),
    decreases n,
{
    if n < 10 {
        lemma_digit_char(n);
    } else {
        lemma_decimal_digits(n / 10);
        lemma_digit_char(n % 10);
        let d = decimal(n / 10);
        assert forall|i: int| 0 <= i < decimal(n).len() implies is_digit(#[trigger] decimal(n)[i]) by {
            if i < d.len() {
                assert(decimal(n)[i] == d[i]);
            }
        }
    }
}

/// Different numbers are written differently.
pub proof fn lemma_decimal_injective(a: nat, b: nat)
    requires
        decimal(a) == decimal(b),
    ensures
        a == b,
    decreases a,
{
    lemma_decimal_digits(a);
    lemma_decimal_digits(b);
    if a < 10 && b < 10 {
        assert(decimal(a)[0] == decimal(b)[0]);
        assert(decimal(a)[0] == digit_char(a));
        assert(decimal(b)[0] == digit_char(b));
        lemma_digit_char(a);
        lemma_digit_char(b);
        assert((digit_char(a) as int) == (digit_char(b) as int));
    } else if a >= 10 && b >= 10 {
        let da = decimal(a);
        let db = decimal(b);
        assert(da.last() == db.last());
        lemma_digit_char(a % 10);
        lemma_digit_char(b % 10);
        assert(da.last() == digit_char(a % 10));
        assert(a % 10 == b % 10);
        assert(da.drop_last() =~= decimal(a / 10));
        assert(db.drop_last() =~= decimal(b / 10));
        lemma_decimal_injective(a / 10, b / 10);
        assert(a == 10 * (a / 10) + a % 10);
        assert(b == 10 * (b / 10) + b % 10);
        assert(a == b);
    } else {
        assert(decimal(a).len() == decimal(b).len());
    }
}

/// Different integers are written differently.
pub proof fn lemma_signed_decimal_injective(a: int, b: int)
    requires
        signed_decimal(a) == signed_decimal(b),
    ensures
        a == b,
{
    if a < 0 && b < 0 {
        assert((seq!['-'] + decimal((-a) as nat)).drop_first() =~= decimal((-a) as nat));
        assert((seq!['-'] + decimal((-b) as nat)).drop_first() =~= decimal((-b) as nat));
        lemma_decimal_injective((-a) as nat, (-b) as nat);
    } else if a >= 0 && b >= 0 {
        lemma_decimal_injective(a as nat, b as nat);
    } else if a < 0 {
        lemma_decimal_digits(b as nat);
        assert(signed_decimal(a)[0] == '-');
        assert(is_digit(decimal(b as nat)[0]));
    } else {
        lemma_decimal_digits(a as nat);
        assert(signed_decimal(b)[0] == '-');
        assert(is_digit(decimal(a as nat)[0]));
    }
}

/// Text framed by the same prefix and suffix is equal only where the middle
/// parts are.
pub proof fn lemma_framed_equal(p: Seq<char>, x: Seq<char>, y: Seq<char>, q: Seq<char>)
    requires
        p + x + q == p + y + q,
    ensures
        x == y,
{
    let l = p + x + q;
    let r = p + y + q;
    assert(l.len() == r.len());
    assert(l.len() == p.len() + x.len() + q.len());
    assert(r.len() == p.len() + y.len() + q.len());
    assert forall|i: int| 0 <= i < x.len() implies x[i] == y[i] by {
        assert(l[p.len() + i] == x[i]);
        assert(r[p.len() + i] == y[i]);
    }
    assert(x =~= y);
}

fn digit_string(d: u32) -> (res: String)
    requires
        d < 10,
    ensures
        res@ == seq![digit_char(d as nat)],
{
    let digits = "0123456789";
    proof {
        reveal_strlit("0123456789");
    }
    let one = digits.substring_char(d as usize, (d + 1) as usize);
    assert(one@ =~= seq![digit_char(d as nat)]);
    String::from_str(one)
}

/// Writes `n` in decimal, as `Display` for `u32` does.
pub fn u32_to_decimal(n: u32) -> (res: String)
    ensures
        res@ == decimal(n as nat),
    decreases n,
{
    if n < 10 {
        digit_string(n)
    } else {
        let mut res = u32_to_decimal(n / 10);
        let last = digit_string(n % 10);
        res.append(last.as_str());
        res
    }
}

/// Writes `n` in decimal, as `Display` for `i32` does.
pub fn i32_to_decimal(n: i32) -> (res: String)
    ensures
        res@ == signed_decimal(n as int),
{
    if n < 0 {
        let magnitude: u32 = if n == i32::MIN {
            2147483648u32
        } else {
            (-n) as u32
        };
        let mut res = String::from_str("-");
        proof {
            reveal_strlit("-");
        }
        assert(res@ =~= seq!['-']);
        let digits = u32_to_decimal(magnitude);
        res.append(digits.as_str());
        res
    } else {
        u32_to_decimal(n as u32)
    }
}

/// `s` padded on the right with blanks to `width` characters, as the format
/// specification `{:<width}` does.
pub fn pad_right(s: &str, width: usize) -> (res: String)
    ensures
        res@ == padded(s@, width as nat),
{
    let len = s.unicode_len();
    let mut res = String::from_str(s);
    if len >= width {
        return res;
    }
    let mut k: usize = len;
    while k < width
        invariant
            len == s@.len(),
            len <= k <= width,
            res@ =~= s@ + blanks((k - len) as nat),
        decreases width - k,
    {
        proof {
            reveal_strlit(" ");
        }
        assert(" "@ =~= seq![' ']);
        res.append(" ");
        k = k + 1;
        assert(res@ =~= s@ + blanks((k - len) as nat));
    }
    res
}

} // verus!
