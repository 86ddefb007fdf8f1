//! Decimal integers and the exact decimal numbers that stand for the format's
//! fractional values.
use vstd::prelude::*;
use crate::text::{
    copy_range, find_from, is_space, push_char, push_chars, split_once, split_once_chars,
};

verus! {

/// Whether `c` is one of the ASCII digits.
pub open spec fn is_digit(c: char) -> bool {
    48 <= (c as u32) <= 57
}

/// The value of the digit `c`.
pub open spec fn digit_of(c: char) -> nat {
    ((c as u32) - 48) as nat
}

/// Whether every character of `s` is a digit.
pub open spec fn all_digits(s: Seq<char>) -> bool {
    forall|i: int| 0 <= i < s.len() ==> is_digit(#[trigger] s[i])
}

/// The number that the digits `s` spell in base ten.
pub open spec fn digits_value(s: Seq<char>) -> nat
    decreases s.len(),
{
    if s.len() == 0 {
        0
    } else {
        digits_value(s.drop_last()) * 10 + digit_of(s.last())
    }
}

/// The unsigned integer that `s` spells: an optional `+`, then one digit or more.
pub open spec fn unsigned_of(s: Seq<char>) -> Option<nat> {
    let d = if s.len() > 0 && s[0] == '+' {
        s.drop_first()
    } else {
        s
    };
    if d.len() > 0 && all_digits(d) {
        Some(digits_value(d))
    } else {
        None
    }
}

/// The signed integer that `s` spells: an optional `+` or `-`, then one digit or more.
pub open spec fn signed_of(s: Seq<char>) -> Option<int> {
    if s.len() > 0 && s[0] == '-' {
        let d = s.drop_first();
        if d.len() > 0 && all_digits(d) {
            Some(-digits_value(d))
        } else {
            None
        }
    } else {
        match unsigned_of(s) {
            Some(n) => Some(n as int),
            None => None,
        }
    }
}

/// `s` read as a `u8`, as `u8::from_str` reads it.
pub open spec fn u8_of(s: Seq<char>) -> Option<u8> {
    match unsigned_of(s) {
        Some(n) => if n <= u8::MAX {
            Some(n as u8)
        } else {
            None
        },
        None => None,
    }
}

/// `s` read as a `u32`, as `u32::from_str` reads it.
pub open spec fn u32_of(s: Seq<char>) -> Option<u32> {
    match unsigned_of(s) {
        Some(n) => if n <= u32::MAX {
            Some(n as u32)
        } else {
            None
        },
        None => None,
    }
}

/// `s` read as an `i32`, as `i32::from_str` reads it.
pub open spec fn i32_of(s: Seq<char>) -> Option<i32> {
    match signed_of(s) {
        Some(n) => if i32::MIN <= n <= i32::MAX {
            Some(n as i32)
        } else {
            None
        },
        None => None,
    }
}

/// The digit character for `d < 10`.
pub open spec fn digit_char(d: nat) -> char {
    seq!['0', '1', '2', '3', '4', '5', '6', '7', '8', '9'][d as int]
}

/// The shortest decimal spelling of `n`.
pub open spec fn nat_text(n: nat) -> Seq<char>
    decreases n,
{
    if n < 10 {
        seq![digit_char(n)]
    } else {
        nat_text(n / 10).push(digit_char(n % 10))
    }
}

/// The decimal spelling of `n`, with a `-` when it is negative.
pub open spec fn int_text(n: int) -> Seq<char> {
    if n < 0 {
        seq!['-'] + nat_text((-n) as nat)
    } else {
        nat_text(n as nat)
    }
}

proof fn lemma_digits_prefix(s: Seq<char>, k: int)
    requires
        0 <= k <= s.len(),
    ensures
        digits_value(s.subrange(0, k)) <= digits_value(s),
    decreases s.len(),
{
    if k == s.len() {
        assert(s.subrange(0, k) =~= s);
    } else {
        lemma_digits_prefix(s.drop_last(), k);
        assert(s.drop_last().subrange(0, k) =~= s.subrange(0, k));
    }
}

/// The value of the digits `d`, when it is at most `bound`.
pub fn digits_upto(d: &[char], bound: u64) -> (r: Option<u64>)
    requires
        all_digits(d@),
    ensures
        r == (if digits_value(d@) <= bound {
            Some(digits_value(d@) as u64)
        } else {
            None
        }),
{
    let mut acc: u64 = 0;
    let mut i: usize = 0;
    proof {
        assert(d@.subrange(0, 0) =~= Seq::<char>::empty());
    }
    while i < d.len()
        invariant
            i <= d@.len(),
            all_digits(d@),
            acc as nat == digits_value(d@.subrange(0, i as int)),
            acc <= bound,
        decreases d.len() - i,
    {
        let c = d[i];
        proof {
            assert(is_digit(d@[i as int]));
            assert(d@.subrange(0, i + 1).drop_last() =~= d@.subrange(0, i as int));
        }
        let v: u64 = (c as u32 - 48) as u64;
        if v > bound || acc > (bound - v) / 10 {
            proof {
                assert(acc * 10 + v > bound) by (nonlinear_arith)
                    requires
                        v > bound || acc > (bound - v) / 10,
                ;
                lemma_digits_prefix(d@, i + 1);
            }
            return None;
        }
        proof {
            assert(acc * 10 + v <= bound) by (nonlinear_arith)
                requires
                    v <= bound,
                    acc <= (bound - v) / 10,
            ;
        }
        acc = acc * 10 + v;
        i += 1;
    }
    proof {
        assert(d@.subrange(0, d@.len() as int) =~= d@);
    }
    Some(acc)
}

/// Whether every character of `d` is a digit.
pub fn all_digit_chars(d: &[char]) -> (b: bool)
    ensures
        b == all_digits(d@),
{
    let mut i: usize = 0;
    while i < d.len()
        invariant
            i <= d@.len(),
            forall|j: int| 0 <= j < i ==> is_digit(#[trigger] d@[j]),
        decreases d.len() - i,
    {
        let n = d[i] as u32;
        if n < 48 || n > 57 {
            return false;
        }
        i += 1;
    }
    true
}

/// `s` read as an unsigned integer, when it is at most `bound`.
pub fn parse_unsigned(s: &[char], bound: u64) -> (r: Option<u64>)
    ensures
        r == (match unsigned_of(s@) {
            Some(n) => if n <= bound {
                Some(n as u64)
            } else {
                None
            },
            None => None,
        }),
{
    let start: usize = if s.len() > 0 && s[0] == '+' {
        1
    } else {
        0
    };
    let d = copy_range(s, start, s.len());
    proof {
        if start == 1 {
            assert(d@ =~= s@.drop_first());
        } else {
            assert(d@ =~= s@);
        }
    }
    if d.len() == 0 || !all_digit_chars(&d) {
        return None;
    }
    digits_upto(&d, bound)
}

/// `s` read as a `u8`.
pub fn parse_u8(s: &[char]) -> (r: Option<u8>)
    ensures
        r == u8_of(s@),
{
    match parse_unsigned(s, 255) {
        Some(n) => Some(n as u8),
        None => None,
    }
}

/// `s` read as a `u32`.
pub fn parse_u32(s: &[char]) -> (r: Option<u32>)
    ensures
        r == u32_of(s@),
{
    match parse_unsigned(s, 4294967295) {
        Some(n) => Some(n as u32),
        None => None,
    }
}

/// `s` read as an `i32`.
pub fn parse_i32(s: &[char]) -> (r: Option<i32>)
    ensures
        r == i32_of(s@),
{
    if s.len() > 0 && s[0] == '-' {
        let d = copy_range(s, 1, s.len());
        proof {
            assert(d@ =~= s@.drop_first());
        }
        if d.len() == 0 || !all_digit_chars(&d) {
            return None;
        }
        match digits_upto(&d, 2147483648) {
            Some(n) => Some((0 - (n as i64)) as i32),
            None => None,
        }
    } else {
        match parse_unsigned(s, 2147483647) {
            Some(n) => Some(n as i32),
            None => None,
        }
    }
}

/// The digit character for `d`.
pub fn digit_char_of(d: u64) -> (c: char)
    requires
        d < 10,
    ensures
        c == digit_char(d as nat),
{
    if d == 0 {
        '0'
    } else if d == 1 {
        '1'
    } else if d == 2 {
        '2'
    } else if d == 3 {
        '3'
    } else if d == 4 {
        '4'
    } else if d == 5 {
        '5'
    } else if d == 6 {
        '6'
    } else if d == 7 {
        '7'
    } else if d == 8 {
        '8'
    } else {
        '9'
    }
}

/// The shortest decimal spelling of `n`.
pub fn nat_chars(n: u64) -> (r: Vec<char>)
    ensures
        r@ == nat_text(n as nat),
    decreases n,
{
    if n < 10 {
        let mut v: Vec<char> = Vec::new();
        v.push(digit_char_of(n));
        proof {
            assert(v@ =~= seq![digit_char(n as nat)]);
        }
        v
    } else {
        let mut v = nat_chars(n / 10);
        v.push(digit_char_of(n % 10));
        v
    }
}

/// Appends the decimal spelling of `n` to `buf`.
pub fn push_u64(buf: &mut String, n: u64)
    ensures
        final(buf)@ == old(buf)@ + nat_text(n as nat),
{
    let v = nat_chars(n);
    push_chars(buf, &v);
}

/// Appends the decimal spelling of `n` to `buf`.
pub fn push_i32(buf: &mut String, n: i32)
    ensures
        final(buf)@ == old(buf)@ + int_text(n as int),
{
    if n < 0 {
        push_char(buf, '-');
        let m: u64 = (0 - (n as i64)) as u64;
        push_u64(buf, m);
        proof {
            assert(old(buf)@ + int_text(n as int) =~= old(buf)@.push('-') + nat_text(m as nat));
        }
    } else {
        push_u64(buf, n as u64);
    }
}

/// An exact decimal number: `digits / 10^scale`, negated when `negative` is set.
///
/// The format writes its fractional values (difficulty settings, beat lengths,
/// slider lengths) in decimal; this type keeps them exactly as written, in the
/// canonical form that [`Decimal::wf`] describes.
#[derive(Clone, Copy, Debug, PartialEq, Eq, Structural)]
pub struct Decimal {
    pub negative: bool,
    pub digits: u64,
    pub scale: u8,
}

impl View for Decimal {
    type V = Decimal;

    open spec fn view(&self) -> Decimal {
        *self
    }
}

impl Decimal {
    /// Canonical form: no trailing zero after the point, and zero is written
    /// once, without a sign.
    pub open spec fn wf(self) -> bool {
        &&& self.scale > 0 ==> self.digits % 10 != 0
        &&& self.digits == 0 ==> !self.negative && self.scale == 0
    }

    /// Zero.
    pub fn zero() -> (r: Decimal)
        ensures
            r == (Decimal { negative: false, digits: 0, scale: 0 }),
            r.wf(),
    {
        Decimal { negative: false, digits: 0, scale: 0 }
    }

    /// Whether this is zero, the value that a missing field takes.
    pub fn is_zero(&self) -> (b: bool)
        ensures
            b == (self.digits == 0),
    {
        self.digits == 0
    }

    /// The number that `s` spells.
    pub fn from_str(s: &str) -> (r: Option<Decimal>)
        ensures
            r == decimal_of(s@),
    {
        let c = crate::text::chars_of(s);
        parse_decimal(&c)
    }

    /// The canonical spelling.
    pub fn to_string(&self) -> (r: String)
        ensures
            r@ == decimal_text(*self),
    {
        let mut buf = String::new();
        push_decimal(&mut buf, self);
        buf
    }

    /// The whole number `n`.
    pub fn from_int(n: i32) -> (r: Decimal)
        ensures
            r.wf(),
            r.scale == 0,
            r.negative == (n < 0),
            r.digits == (if n < 0 { -(n as int) } else { n as int }),
    {
        if n < 0 {
            Decimal { negative: true, digits: (0 - (n as i64)) as u64, scale: 0 }
        } else {
            Decimal { negative: false, digits: n as u64, scale: 0 }
        }
    }
}

impl Default for Decimal {
    fn default() -> (r: Decimal)
        ensures
            r == (Decimal { negative: false, digits: 0, scale: 0 }),
    {
        Decimal::zero()
    }
}

/// The number that `s` spells: an optional sign, digits, and an optional point
/// followed by more digits, with one digit at least. Trailing zeros after the
/// point do not count; a number whose digits do not fit in a `u64` is refused.
pub open spec fn decimal_of(s: Seq<char>) -> Option<Decimal> {
    let neg = s.len() > 0 && s[0] == '-';
    let body = if s.len() > 0 && (s[0] == '-' || s[0] == '+') {
        s.drop_first()
    } else {
        s
    };
    let ip = match split_once(body, '.') {
        Some((a, _)) => a,
        None => body,
    };
    let fp = match split_once(body, '.') {
        Some((_, b)) => b,
        None => Seq::empty(),
    };
    let fz = fp.subrange(0, zeros_end(fp, fp.len() as int));
    let n = digits_value(ip + fz);
    if (ip.len() == 0 && fp.len() == 0) || !all_digits(ip) || !all_digits(fp) || fz.len() > 255
        || n > u64::MAX {
        None
    } else {
        Some(Decimal { negative: neg && n != 0, digits: n as u64, scale: fz.len() as u8 })
    }
}

/// End of the text before `j` once trailing `0` digits are dropped.
pub open spec fn zeros_end(s: Seq<char>, j: int) -> int
    decreases j,
{
    if 0 < j <= s.len() && (s[j - 1] as u32) == 48 {
        zeros_end(s, j - 1)
    } else {
        j
    }
}

fn zeros_end_of(s: &[char]) -> (j: usize)
    ensures
        j == zeros_end(s@, s@.len() as int),
        j <= s@.len(),
        j > 0 ==> (s@[j - 1] as u32) != 48,
{
    let mut j: usize = s.len();
    while j > 0 && (s[j - 1] as u32) == 48
        invariant
            j <= s@.len(),
            zeros_end(s@, j as int) == zeros_end(s@, s@.len() as int),
        decreases j,
    {
        j -= 1;
    }
    j
}

/// `n` characters `0`.
pub open spec fn zeros(n: nat) -> Seq<char> {
    Seq::new(n, |i: int| '0')
}

/// The digits of `d`, with zeros in front so that more than `scale` of them stand.
pub open spec fn padded_digits(d: Decimal) -> Seq<char> {
    let t = nat_text(d.digits as nat);
    let k = d.scale as int;
    if t.len() <= k {
        zeros((k + 1 - t.len()) as nat) + t
    } else {
        t
    }
}

/// The canonical spelling of `d`: its digits, with a point before the last
/// `scale` of them (padded with zeros so that one digit stands before it).
pub open spec fn decimal_text(d: Decimal) -> Seq<char> {
    let k = d.scale as int;
    let p = padded_digits(d);
    let body = if k == 0 {
        p
    } else {
        p.subrange(0, p.len() - k) + seq!['.'] + p.subrange(p.len() - k, p.len() as int)
    };
    if d.negative {
        seq!['-'] + body
    } else {
        body
    }
}

proof fn lemma_nat_text_len(n: nat)
    ensures
        nat_text(n).len() >= 1,
    decreases n,
{
    if n >= 10 {
        lemma_nat_text_len(n / 10);
    }
}

/// `s` read as a decimal number.
pub fn parse_decimal(s: &[char]) -> (r: Option<Decimal>)
    ensures
        r == decimal_of(s@),
        r matches Some(d) ==> d.wf(),
{
    let neg = s.len() > 0 && s[0] == '-';
    let start: usize = if s.len() > 0 && (s[0] == '-' || s[0] == '+') {
        1
    } else {
        0
    };
    let body = copy_range(s, start, s.len());
    proof {
        if start == 1 {
            assert(body@ =~= s@.drop_first());
        } else {
            assert(body@ =~= s@);
        }
    }
    let (ip, fp) = match split_once_chars(&body, '.') {
        Some(p) => p,
        None => (body, Vec::new()),
    };
    let e = zeros_end_of(&fp);
    let fz = copy_range(&fp, 0, e);
    if (ip.len() == 0 && fp.len() == 0) || !all_digit_chars(&ip) || !all_digit_chars(&fp)
        || fz.len() > 255 {
        return None;
    }
    let mut all = copy_range(&ip, 0, ip.len());
    let mut i: usize = 0;
    proof {
        assert(ip@.subrange(0, ip@.len() as int) =~= ip@);
        assert(fz@.subrange(0, 0) =~= Seq::<char>::empty());
        assert(ip@ + fz@.subrange(0, 0) =~= ip@);
    }
    while i < fz.len()
        invariant
            i <= fz@.len(),
            all@ == ip@ + fz@.subrange(0, i as int),
        decreases fz.len() - i,
    {
        all.push(fz[i]);
        i += 1;
        proof {
            assert(all@ =~= ip@ + fz@.subrange(0, i as int));
        }
    }
    proof {
        assert(fz@.subrange(0, fz@.len() as int) =~= fz@);
        assert forall|j: int| 0 <= j < all@.len() implies is_digit(#[trigger] all@[j]) by {
            if j >= ip@.len() {
                assert(all@[j] == fp@[j - ip@.len()]);
            }
        }
    }
    match digits_upto(&all, 18446744073709551615) {
        None => None,
        Some(n) => {
            proof {
                if fz@.len() > 0 {
                    assert(fz@.last() == fp@[e - 1]);
                    assert(is_digit(fz@.last()));
                    assert((ip@ + fz@).drop_last() =~= ip@ + fz@.drop_last());
                    assert(digit_of(fz@.last()) != 0);
                    assert((ip@ + fz@).last() == fz@.last());
                    assert(n % 10 != 0);
                }
            }
            Some(Decimal { negative: neg && n != 0, digits: n, scale: fz.len() as u8 })
        },
    }
}

fn padded_chars(d: &Decimal) -> (p: Vec<char>)
    ensures
        p@ == padded_digits(*d),
        p@.len() > d.scale,
{
    let t = nat_chars(d.digits);
    let k = d.scale as usize;
    let mut p: Vec<char> = Vec::new();
    if t.len() <= k {
        let n = k + 1 - t.len();
        let mut i: usize = 0;
        while i < n
            invariant
                i <= n,
                p@ == zeros(i as nat),
            decreases n - i,
        {
            p.push('0');
            i += 1;
            proof {
                assert(p@ =~= zeros(i as nat));
            }
        }
    }
    let mut j: usize = 0;
    let ghost z = p@;
    while j < t.len()
        invariant
            j <= t@.len(),
            p@ == z + t@.subrange(0, j as int),
        decreases t.len() - j,
    {
        p.push(t[j]);
        j += 1;
        proof {
            assert(p@ =~= z + t@.subrange(0, j as int));
        }
    }
    proof {
        assert(t@.subrange(0, t@.len() as int) =~= t@);
        lemma_nat_text_len(d.digits as nat);
    }
    p
}

/// Appends the canonical spelling of `d` to `buf`.
pub fn push_decimal(buf: &mut String, d: &Decimal)
    ensures
        final(buf)@ == old(buf)@ + decimal_text(*d),
{
    let ghost start = buf@;
    if d.negative {
        push_char(buf, '-');
    }
    let p = padded_chars(d);
    let k = d.scale as usize;
    let ghost sign = buf@;
    if k == 0 {
        push_chars(buf, &p);
    } else {
        let m: usize = p.len() - k;
        let front = copy_range(&p, 0, m);
        let back = copy_range(&p, m, p.len());
        push_chars(buf, &front);
        push_char(buf, '.');
        push_chars(buf, &back);
        proof {
            assert(buf@ =~= sign + (front@ + seq!['.'] + back@));
        }
    }
    proof {
        assert(buf@ =~= start + decimal_text(*d));
    }
}

proof fn lemma_digit_char(d: nat)
    requires
        d < 10,
    ensures
        is_digit(digit_char(d)),
        digit_of(digit_char(d)) == d,
{
    assert(('0' as u32) == 48 && ('1' as u32) == 49 && ('2' as u32) == 50 && ('3' as u32) == 51);
    assert(('4' as u32) == 52 && ('5' as u32) == 53 && ('6' as u32) == 54 && ('7' as u32) == 55);
    assert(('8' as u32) == 56 && ('9' as u32) == 57);
}

/// The digits of [`nat_text`] are digits, one at least, and spell `n` back.
pub proof fn lemma_nat_text(n: nat)
    ensures
        nat_text(n).len() >= 1,
        all_digits(nat_text(n)),
        digits_value(nat_text(n)) == n,
    decreases n,
{
    let t = nat_text(n);
    if n < 10 {
        lemma_digit_char(n);
        assert(t.drop_last() =~= Seq::<char>::empty());
        assert(t.last() == digit_char(n));
        assert(digits_value(t) == digits_value(t.drop_last()) * 10 + digit_of(t.last()));
    } else {
        lemma_nat_text(n / 10);
        lemma_digit_char(n % 10);
        assert(t.drop_last() =~= nat_text(n / 10));
        assert((n / 10) * 10 + n % 10 == n) by (nonlinear_arith);
        assert(t.last() == digit_char(n % 10));
        assert(digits_value(t) == digits_value(t.drop_last()) * 10 + digit_of(t.last()));
        assert forall|i: int| 0 <= i < t.len() implies is_digit(#[trigger] t[i]) by {
            if i < t.len() - 1 {
                assert(t[i] == nat_text(n / 10)[i]);
            }
        }
    }
}

/// Reading the spelling of a natural number gives the number back.
pub proof fn law_unsigned_round_trip(n: nat)
    ensures
        unsigned_of(nat_text(n)) == Some(n),
{
    lemma_nat_text(n);
    assert(('+' as u32) == 43);
    assert(is_digit(nat_text(n)[0]));
}

/// Reading the spelling of an integer gives the integer back.
pub proof fn law_signed_round_trip(n: int)
    ensures
        signed_of(int_text(n)) == Some(n),
{
    if n < 0 {
        let m = (-n) as nat;
        lemma_nat_text(m);
        assert(int_text(n).drop_first() =~= nat_text(m));
    } else {
        law_unsigned_round_trip(n as nat);
        lemma_nat_text(n as nat);
        assert(('-' as u32) == 45);
        assert(is_digit(nat_text(n as nat)[0]));
    }
}

/// Every `u8`, `u32` and `i32` reads back from its spelling.
pub proof fn law_integer_round_trips(a: u8, b: u32, c: i32)
    ensures
        u8_of(nat_text(a as nat)) == Some(a),
        u32_of(nat_text(b as nat)) == Some(b),
        i32_of(int_text(c as int)) == Some(c),
{
    law_unsigned_round_trip(a as nat);
    law_unsigned_round_trip(b as nat);
    law_signed_round_trip(c as int);
}

/// Digits are neither white space nor any of the format's separators.
pub proof fn lemma_digits_plain(s: Seq<char>)
    requires
        all_digits(s),
    ensures
        forall|i: int| 0 <= i < s.len() ==> !is_space(#[trigger] s[i]) && s[i] != ',' && s[i] != ':'
            && s[i] != '|' && s[i] != '.' && s[i] != '-' && s[i] != '\n',
{
    assert((',' as u32) == 44 && (':' as u32) == 58 && ('|' as u32) == 124 && ('.' as u32) == 46
        && ('-' as u32) == 45 && ('\n' as u32) == 10);
    assert forall|i: int| 0 <= i < s.len() implies !is_space(#[trigger] s[i]) && s[i] != ','
        && s[i] != ':' && s[i] != '|' && s[i] != '.' && s[i] != '-' && s[i] != '\n' by {
        assert(is_digit(s[i]));
    }
}

proof fn lemma_find_absent(s: Seq<char>, c: char, i: int)
    requires
        0 <= i,
        forall|j: int| i <= j < s.len() ==> s[j] != c,
    ensures
        find_from(s, c, i) == s.len(),
    decreases s.len() - i,
{
    if i < s.len() {
        lemma_find_absent(s, c, i + 1);
    }
}

proof fn lemma_find_first(s: Seq<char>, c: char, i: int, k: int)
    requires
        0 <= i <= k < s.len(),
        s[k] == c,
        forall|j: int| i <= j < k ==> s[j] != c,
    ensures
        find_from(s, c, i) == k,
    decreases k - i,
{
    if i < k {
        lemma_find_first(s, c, i + 1, k);
    }
}

proof fn lemma_zeros_value(m: nat, t: Seq<char>)
    ensures
        digits_value(zeros(m) + t) == digits_value(t),
    decreases t.len() + m,
{
    if t.len() > 0 {
        lemma_zeros_value(m, t.drop_last());
        assert((zeros(m) + t).drop_last() =~= zeros(m) + t.drop_last());
        assert((zeros(m) + t).last() == t.last());
    } else if m > 0 {
        lemma_zeros_value((m - 1) as nat, t);
        assert((zeros(m) + t).drop_last() =~= zeros((m - 1) as nat) + t);
        assert((zeros(m) + t).last() == '0');
        assert(('0' as u32) == 48);
    } else {
        assert(zeros(m) + t =~= Seq::<char>::empty());
    }
}

proof fn lemma_zeros_end_stops(s: Seq<char>, j: int)
    requires
        0 <= j <= s.len(),
    ensures
        0 <= zeros_end(s, j) <= j,
        zeros_end(s, j) > 0 ==> (s[zeros_end(s, j) - 1] as u32) != 48,
    decreases j,
{
    if j > 0 && (s[j - 1] as u32) == 48 {
        lemma_zeros_end_stops(s, j - 1);
    }
}

proof fn lemma_last_digit(s: Seq<char>)
    requires
        s.len() > 0,
        all_digits(s),
    ensures
        digits_value(s) % 10 == digit_of(s.last()),
{
    let a = digits_value(s.drop_last());
    let d = digit_of(s.last());
    assert(is_digit(s[s.len() - 1]));
    assert(d < 10);
    assert((a * 10 + d) % 10 == d) by (nonlinear_arith)
        requires
            d < 10,
    ;
}

/// What [`decimal_of`] reads is in canonical form.
pub proof fn lemma_decimal_of_wf(s: Seq<char>)
    requires
        decimal_of(s) is Some,
    ensures
        decimal_of(s)->Some_0.wf(),
{
    let body = if s.len() > 0 && (s[0] == '-' || s[0] == '+') {
        s.drop_first()
    } else {
        s
    };
    let ip = match split_once(body, '.') {
        Some((a, _)) => a,
        None => body,
    };
    let fp = match split_once(body, '.') {
        Some((_, b)) => b,
        None => Seq::empty(),
    };
    let e = zeros_end(fp, fp.len() as int);
    let fz = fp.subrange(0, e);
    lemma_zeros_end_stops(fp, fp.len() as int);
    if fz.len() > 0 {
        let all = ip + fz;
        assert(all_digits(all)) by {
            assert forall|i: int| 0 <= i < all.len() implies is_digit(#[trigger] all[i]) by {
                if i >= ip.len() {
                    assert(all[i] == fp[i - ip.len()]);
                }
            }
        }
        lemma_last_digit(all);
        assert(all.last() == fp[e - 1]);
    }
}

proof fn lemma_nat_text_last(n: nat)
    ensures
        nat_text(n).last() == digit_char(n % 10),
{
    if n < 10 {
        assert(n % 10 == n);
    }
}

/// A decimal in canonical form reads back from its spelling.
pub proof fn law_decimal_round_trip(d: Decimal)
    requires
        d.wf(),
    ensures
        decimal_of(decimal_text(d)) == Some(d),
{
    let t = nat_text(d.digits as nat);
    let k = d.scale as int;
    let p = padded_digits(d);
    lemma_nat_text(d.digits as nat);
    lemma_nat_text_last(d.digits as nat);
    lemma_digit_char(d.digits as nat % 10);
    assert(('0' as u32) == 48 && ('.' as u32) == 46 && ('-' as u32) == 45 && ('+' as u32) == 43);
    if t.len() <= k {
        lemma_zeros_value((k + 1 - t.len()) as nat, t);
        assert(p.last() == t.last());
    }
    assert(all_digits(p)) by {
        assert forall|i: int| 0 <= i < p.len() implies is_digit(#[trigger] p[i]) by {
            if t.len() <= k && i < k + 1 - t.len() {
                assert(p[i] == '0');
            } else if t.len() <= k {
                assert(p[i] == t[i - (k + 1 - t.len())]);
            }
        }
    }
    assert(digits_value(p) == d.digits);
    assert(p.len() > k);
    let body = if k == 0 {
        p
    } else {
        p.subrange(0, p.len() - k) + seq!['.'] + p.subrange(p.len() - k, p.len() as int)
    };
    let text = decimal_text(d);
    assert(text =~= if d.negative {
        seq!['-'] + body
    } else {
        body
    });
    assert(is_digit(body[0]));
    assert(if text.len() > 0 && (text[0] == '-' || text[0] == '+') {
        text.drop_first()
    } else {
        text
    } =~= body);
    if k == 0 {
        lemma_find_absent(body, '.', 0);
        assert(split_once(body, '.') is None);
        assert(zeros_end(Seq::<char>::empty(), 0) == 0);
        assert(body + Seq::<char>::empty().subrange(0, 0) =~= body);
    } else {
        let a = p.subrange(0, p.len() - k);
        let b = p.subrange(p.len() - k, p.len() as int);
        lemma_find_first(body, '.', 0, a.len() as int);
        assert(body.subrange(0, a.len() as int) =~= a);
        assert(body.subrange(a.len() as int + 1, body.len() as int) =~= b);
        assert(b.last() == p.last());
        assert(b.last() == t.last());
        assert(zeros_end(b, b.len() as int) == b.len());
        assert(b.subrange(0, b.len() as int) =~= b);
        assert(a + b =~= p);
        assert(all_digits(a));
        assert(all_digits(b));
    }
}

/// Reading a decimal, writing it and reading it again gives the first reading.
pub proof fn law_decimal_idempotent(s: Seq<char>)
    requires
        decimal_of(s) is Some,
    ensures
        decimal_of(decimal_text(decimal_of(s)->Some_0)) == decimal_of(s),
{
    lemma_decimal_of_wf(s);
    law_decimal_round_trip(decimal_of(s)->Some_0);
}

/// The spelling of an integer has a digit or a sign first, a digit last, and
/// no white space or separator.
pub proof fn lemma_int_text_plain(n: int)
    ensures
        int_text(n).len() > 0,
        is_digit(int_text(n).last()),
        forall|i: int|
            0 <= i < int_text(n).len() ==> !is_space(#[trigger] int_text(n)[i]) && int_text(n)[i]
                != ',' && int_text(n)[i] != ':' && int_text(n)[i] != '|' && int_text(n)[i] != '\n',
{
    let m = if n < 0 {
        (-n) as nat
    } else {
        n as nat
    };
    lemma_nat_text(m);
    lemma_digits_plain(nat_text(m));
    assert(('-' as u32) == 45);
    if n < 0 {
        let t = int_text(n);
        assert forall|i: int| 0 <= i < t.len() implies !is_space(#[trigger] t[i]) && t[i] != ','
            && t[i] != ':' && t[i] != '|' && t[i] != '\n' by {
            if i > 0 {
                assert(t[i] == nat_text(m)[i - 1]);
            }
        }
        assert(t.last() == nat_text(m).last());
    }
    assert(is_digit(nat_text(m)[nat_text(m).len() - 1]));
}

/// The spelling of a decimal has no white space or separator and ends in a digit.
pub proof fn lemma_decimal_text_plain(d: Decimal)
    ensures
        decimal_text(d).len() > 0,
        is_digit(decimal_text(d).last()),
        forall|i: int|
            0 <= i < decimal_text(d).len() ==> !is_space(#[trigger] decimal_text(d)[i])
                && decimal_text(d)[i] != ',' && decimal_text(d)[i] != ':' && decimal_text(d)[i]
                != '|' && decimal_text(d)[i] != '\n',
{
    let t = nat_text(d.digits as nat);
    let k = d.scale as int;
    let p = padded_digits(d);
    lemma_nat_text(d.digits as nat);
    assert(('0' as u32) == 48 && ('.' as u32) == 46 && ('-' as u32) == 45);
    assert(all_digits(p)) by {
        assert forall|i: int| 0 <= i < p.len() implies is_digit(#[trigger] p[i]) by {
            if t.len() <= k && i < k + 1 - t.len() {
                assert(p[i] == '0');
            } else if t.len() <= k {
                assert(p[i] == t[i - (k + 1 - t.len())]);
            }
        }
    }
    lemma_digits_plain(p);
    let body = if k == 0 {
        p
    } else {
        p.subrange(0, p.len() - k) + seq!['.'] + p.subrange(p.len() - k, p.len() as int)
    };
    let text = decimal_text(d);
    assert(text =~= if d.negative {
        seq!['-'] + body
    } else {
        body
    });
    assert(body.len() > 0);
    assert(body.last() == p.last());
    assert(text.last() == body.last());
    assert(is_digit(p[p.len() - 1]));
    assert forall|i: int| 0 <= i < body.len() implies !is_space(#[trigger] body[i]) && body[i]
        != ',' && body[i] != ':' && body[i] != '|' && body[i] != '\n' by {
        if k > 0 {
            if i < p.len() - k {
                assert(body[i] == p[i]);
            } else if i > p.len() - k {
                assert(body[i] == p[i - 1]);
            } else {
                assert(body[i] == '.');
            }
        }
    }
    assert forall|i: int| 0 <= i < text.len() implies !is_space(#[trigger] text[i]) && text[i]
        != ',' && text[i] != ':' && text[i] != '|' && text[i] != '\n' by {
        if d.negative && i > 0 {
            assert(text[i] == body[i - 1]);
        } else if !d.negative {
            assert(text[i] == body[i]);
        }
    }
}

} // verus!
