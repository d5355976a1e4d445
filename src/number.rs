//! Conversion of numeric literals: counts are decimal integers that fit a `u8`,
//! versions are exact decimals. A literal that does not convert is rejected.
use vstd::prelude::*;

use crate::lex::{chars_of, is_digit, run_end, lemma_run_end, Run};
use crate::nodes::Decimal;

verus! {

/// The value of a decimal digit.
pub open spec fn digit_val(c: char) -> nat {
    if is_digit(c) {
        (c as u32 - '0' as u32) as nat
    } else {
        0
    }
}

/// The value of a sequence of decimal digits, most significant first.
pub open spec fn digits_value(s: Seq<char>) -> nat
    decreases s.len(),
{
    if s.len() == 0 {
        0
    } else {
        digits_value(s.drop_last()) * 10 + digit_val(s.last())
    }
}

/// Whether every character of `s` is a decimal digit.
pub open spec fn all_digits(s: Seq<char>) -> bool {
    forall|i: int| 0 <= i < s.len() ==> is_digit(#[trigger] s[i])
}

/// A count: one or more digits whose value fits a `u8`.
pub open spec fn count_of(s: Seq<char>) -> Option<u8> {
    if s.len() > 0 && all_digits(s) && digits_value(s) <= u8::MAX {
        Some(digits_value(s) as u8)
    } else {
        None
    }
}

/// A decimal: digits, then optionally a point and more digits, whose digits
/// together fit a `u64`.
pub open spec fn decimal_of(s: Seq<char>) -> Option<Decimal> {
    let p = run_end(s, 0, Run::Digits);
    let frac = s.subrange(p + 1, s.len() as int);
    let all = s.subrange(0, p) + frac;
    if p == 0 {
        None
    } else if p == s.len() {
        if digits_value(s) <= u64::MAX {
            Some(Decimal { digits: digits_value(s) as u64, scale: 0 })
        } else {
            None
        }
    } else if s[p] == '.' && all_digits(frac) && digits_value(all) <= u64::MAX && frac.len()
        <= u32::MAX {
        Some(Decimal { digits: digits_value(all) as u64, scale: frac.len() as u32 })
    } else {
        None
    }
}

/// One more digit multiplies the value by ten and adds the digit.
pub proof fn lemma_digits_push(s: Seq<char>, c: char)
    ensures
        digits_value(s.push(c)) == digits_value(s) * 10 + digit_val(c),
{
    assert(s.push(c).drop_last() =~= s);
}

/// Appending characters never makes the value smaller.
pub proof fn lemma_digits_monotone(x: Seq<char>, z: Seq<char>)
    ensures
        digits_value(x) <= digits_value(x + z),
    decreases z.len(),
{
    if z.len() > 0 {
        lemma_digits_monotone(x, z.drop_last());
        assert((x + z).drop_last() =~= x + z.drop_last());
    }
}

fn digit_exec(c: char) -> (r: u64)
    requires
        is_digit(c),
    ensures
        r == digit_val(c),
{
    (c as u32 - '0' as u32) as u64
}

/// Append the digits `cs[from..to]` to `acc`; `None` when they are not all
/// digits or the value leaves `u64`.
fn accumulate(cs: &Vec<char>, from: usize, to: usize, prefix: Ghost<Seq<char>>, acc: u64) -> (r:
    Option<u64>)
    requires
        from <= to <= cs.len(),
        acc == digits_value(prefix@),
    ensures
        ({
            let all = prefix@ + cs@.subrange(from as int, to as int);
            r == (if all_digits(cs@.subrange(from as int, to as int)) && digits_value(all)
                <= u64::MAX {
                Some(digits_value(all) as u64)
            } else {
                None
            })
        }),
{
    let ghost whole = prefix@ + cs@.subrange(from as int, to as int);
    let mut acc = acc;
    let mut i = from;
    while i < to
        invariant
            from <= i <= to <= cs.len(),
            acc == digits_value(prefix@ + cs@.subrange(from as int, i as int)),
            all_digits(cs@.subrange(from as int, i as int)),
            whole == prefix@ + cs@.subrange(from as int, to as int),
        decreases to - i,
    {
        let ghost before = prefix@ + cs@.subrange(from as int, i as int);
        let c = cs[i];
        if !('0' <= c && c <= '9') {
            assert(cs@.subrange(from as int, to as int)[i - from] == c);
            return None;
        }
        proof {
            lemma_digits_push(before, c);
            assert(before.push(c) =~= prefix@ + cs@.subrange(from as int, i + 1));
            assert(whole =~= before.push(c) + cs@.subrange(i + 1, to as int));
            lemma_digits_monotone(before.push(c), cs@.subrange(i + 1, to as int));
        }
        let d = digit_exec(c);
        match acc.checked_mul(10) {
            Some(m) => match m.checked_add(d) {
                Some(v) => {
                    acc = v;
                },
                None => {
                    return None;
                },
            },
            None => {
                return None;
            },
        }
        i = i + 1;
        assert(cs@.subrange(from as int, i as int) =~= cs@.subrange(from as int, i - 1).push(c));
    }
    assert(cs@.subrange(from as int, to as int) =~= cs@.subrange(from as int, i as int));
    Some(acc)
}

/// Convert a count literal.
pub fn parse_count(s: &String) -> (r: Option<u8>)
    ensures
        r == count_of(s@),
{
    let cs = chars_of(s);
    if cs.len() == 0 {
        return None;
    }
    assert(Seq::<char>::empty() + cs@.subrange(0, cs.len() as int) =~= s@);
    match accumulate(&cs, 0, cs.len(), Ghost(Seq::empty()), 0) {
        Some(v) => {
            if v <= 255 {
                Some(v as u8)
            } else {
                None
            }
        },
        None => None,
    }
}

/// Convert a decimal literal.
pub fn parse_decimal(s: &String) -> (r: Option<Decimal>)
    ensures
        r == decimal_of(s@),
{
    let cs = chars_of(s);
    let n = cs.len();
    let mut p: usize = 0;
    proof {
        lemma_run_end(s@, 0, Run::Digits);
    }
    while p < n && '0' <= cs[p] && cs[p] <= '9'
        invariant
            p <= n == cs.len(),
            cs@ == s@,
            run_end(s@, p as int, Run::Digits) == run_end(s@, 0, Run::Digits),
        decreases n - p,
    {
        p = p + 1;
    }
    let ghost int_part = cs@.subrange(0, p as int);
    assert(Seq::<char>::empty() + cs@.subrange(0, p as int) =~= int_part);
    if p == 0 {
        return None;
    }
    let int_val = accumulate(&cs, 0, p, Ghost(Seq::empty()), 0);
    if p == n {
        assert(int_part =~= s@);
        return match int_val {
            Some(v) => Some(Decimal { digits: v, scale: 0 }),
            None => None,
        };
    }
    if cs[p] != '.' {
        return None;
    }
    proof {
        lemma_run_end(s@, 0, Run::Digits);
        assert forall|i: int| 0 <= i < int_part.len() implies is_digit(#[trigger] int_part[i]) by {
            assert(int_part[i] == s@[i]);
        }
    }
    let ghost frac = cs@.subrange(p + 1, n as int);
    match int_val {
        Some(v) => {
            let r = accumulate(&cs, p + 1, n, Ghost(int_part), v);
            match r {
                Some(d) => {
                    if n - p - 1 <= 4294967295 {
                        Some(Decimal { digits: d, scale: (n - p - 1) as u32 })
                    } else {
                        None
                    }
                },
                None => None,
            }
        },
        None => {
            proof {
                lemma_digits_monotone(int_part, frac);
            }
            None
        },
    }
}


/// The character of a decimal digit.
pub open spec fn digit_char(d: nat) -> char {
    seq!['0', '1', '2', '3', '4', '5', '6', '7', '8', '9'][d as int]
}

/// The decimal writing of `n`, without leading zeros.
pub open spec fn decimal_chars(n: nat) -> Seq<char>
    decreases n,
{
    if n < 10 {
        seq![digit_char(n)]
    } else {
        decimal_chars(n / 10).push(digit_char(n % 10))
    }
}

fn digit_str(d: u64) -> (r: &'static str)
    requires
        d < 10,
    ensures
        r@ == seq![digit_char(d as nat)],
{
    proof {
        reveal_strlit("0");
        reveal_strlit("1");
        reveal_strlit("2");
        reveal_strlit("3");
        reveal_strlit("4");
        reveal_strlit("5");
        reveal_strlit("6");
        reveal_strlit("7");
        reveal_strlit("8");
        reveal_strlit("9");
    }
    let r = match d {
        0 => "0",
        1 => "1",
        2 => "2",
        3 => "3",
        4 => "4",
        5 => "5",
        6 => "6",
        7 => "7",
        8 => "8",
        _ => "9",
    };
    assert(r@ =~= seq![digit_char(d as nat)]);
    r
}

/// Write `n` in decimal.
pub fn decimal_string(n: u64) -> (r: String)
    ensures
        r@ == decimal_chars(n as nat),
    decreases n,
{
    if n < 10 {
        String::from_str(digit_str(n))
    } else {
        let mut s = decimal_string(n / 10);
        s.append(digit_str(n % 10));
        assert(s@ =~= decimal_chars(n as nat));
        s
    }
}


/// `n` zeros.
pub open spec fn zeros(n: nat) -> Seq<char>
    decreases n,
{
    if n == 0 {
        seq![]
    } else {
        zeros((n - 1) as nat).push('0')
    }
}

/// The digits of `d`, with leading zeros so that at least one stands before the point.
pub open spec fn padded_digits(d: Decimal) -> Seq<char> {
    let ds = decimal_chars(d.digits as nat);
    if ds.len() > d.scale {
        ds
    } else {
        zeros((d.scale + 1 - ds.len()) as nat) + ds
    }
}

/// The writing of `d`: its digits, with a point before the last `scale` of them.
pub open spec fn decimal_text(d: Decimal) -> Seq<char> {
    let p = padded_digits(d);
    if d.scale == 0 {
        p
    } else {
        p.subrange(0, p.len() - d.scale) + "."@ + p.subrange(p.len() - d.scale, p.len() as int)
    }
}

proof fn lemma_zeros_len(n: nat)
    ensures
        zeros(n).len() == n,
    decreases n,
{
    if n > 0 {
        lemma_zeros_len((n - 1) as nat);
    }
}

impl Decimal {
    /// Write the number in decimal, as `1.50` for 150 with scale 2.
    pub fn to_text(&self) -> (r: String)
        ensures
            r@ == decimal_text(*self),
    {
        let ds = decimal_string(self.digits);
        let len = ds.as_str().unicode_len();
        let scale = self.scale as usize;
        let mut p = String::new();
        if len <= scale {
            let count: u64 = (self.scale as u64) + 1 - (len as u64);
            let mut i: u64 = 0;
            while i < count
                invariant
                    i <= count,
                    p@ == zeros(i as nat),
                decreases count - i,
            {
                proof {
                    reveal_strlit("0");
                }
                p.append("0");
                i = i + 1;
                assert(p@ =~= zeros(i as nat));
            }
            proof {
                lemma_zeros_len(i as nat);
            }
        }
        p.append(ds.as_str());
        assert(p@ =~= padded_digits(*self));
        if scale == 0 {
            return p;
        }
        let n = p.as_str().unicode_len();
        let mut r = String::from_str(p.as_str().substring_char(0, n - scale));
        r.append(".");
        r.append(p.as_str().substring_char(n - scale, n));
        r
    }
}

} // verus!
