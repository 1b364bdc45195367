//! Unsigned integers in text: parsing as `str::parse`/`from_str_radix` accept
//! them, and decimal rendering.
use vstd::prelude::*;

verus! {

/// Value of one digit in `radix` (digits, then letters of either case).
pub open spec fn digit_value(c: char, radix: nat) -> Option<nat> {
    let d: int = if '0' <= c && c <= '9' {
        c as u32 - '0' as u32
    } else if 'a' <= c && c <= 'z' {
        c as u32 - 'a' as u32 + 10
    } else if 'A' <= c && c <= 'Z' {
        c as u32 - 'A' as u32 + 10
    } else {
        99
    };
    if d < radix {
        Some(d as nat)
    } else {
        None
    }
}

/// Value of a digit string (the empty string is zero).
pub open spec fn digits_value(d: Seq<char>, radix: nat) -> Option<nat>
    decreases d.len(),
{
    if d.len() == 0 {
        Some(0)
    } else {
        match (digits_value(d.drop_last(), radix), digit_value(d.last(), radix)) {
            (Some(a), Some(b)) => Some(a * radix + b),
            _ => None,
        }
    }
}

/// An unsigned number as Rust's integer parsing accepts it: an optional `+`,
/// then at least one digit of the radix.
pub open spec fn parse_unsigned(s: Seq<char>, radix: nat) -> Option<nat> {
    if s.len() == 0 {
        None
    } else if (s[0] == '+' || s[0] == '-') && s.len() == 1 {
        None
    } else {
        digits_value(if s[0] == '+' { s.skip(1) } else { s }, radix)
    }
}

/// An unsigned number no larger than `max`.
pub open spec fn parse_bounded(s: Seq<char>, radix: nat, max: nat) -> Option<nat> {
    match parse_unsigned(s, radix) {
        Some(n) => if n <= max { Some(n) } else { None },
        None => None,
    }
}

/// Decimal digits of `n`, without leading zeros.
pub open spec fn decimal(n: nat) -> Seq<char>
    decreases n,
{
    if n < 10 {
        seq![(n + '0' as u32) as char]
    } else {
        decimal(n / 10).push(((n % 10) + '0' as u32) as char)
    }
}

/// A prefix never has a larger value than the digit string it begins.
pub proof fn lemma_digits_prefix(d: Seq<char>, radix: nat, k: int)
    requires
        radix >= 1,
        0 <= k <= d.len(),
        digits_value(d, radix) is Some,
    ensures
        digits_value(d.take(k), radix) is Some,
        digits_value(d.take(k), radix)->0 <= digits_value(d, radix)->0,
    decreases d.len(),
{
    if k == d.len() {
        assert(d.take(k) =~= d);
    } else {
        let p = d.drop_last();
        lemma_digits_prefix(p, radix, k);
        assert(p.take(k) =~= d.take(k));
        let a = digits_value(p, radix)->0;
        let b = digit_value(d.last(), radix)->0;
        assert(a * radix + b >= a) by (nonlinear_arith)
            requires
                radix >= 1,
                b >= 0,
                a >= 0,
        ;
    }
}

fn digit_value_exec(c: char, radix: u32) -> (r: Option<u32>)
    requires
        radix <= 36,
    ensures
        match r {
            Some(d) => digit_value(c, radix as nat) == Some(d as nat) && d < radix,
            None => digit_value(c, radix as nat) is None,
        },
{
    let d: u32 = if '0' <= c && c <= '9' {
        c as u32 - '0' as u32
    } else if 'a' <= c && c <= 'z' {
        c as u32 - 'a' as u32 + 10
    } else if 'A' <= c && c <= 'Z' {
        c as u32 - 'A' as u32 + 10
    } else {
        99
    };
    if d < radix {
        Some(d)
    } else {
        None
    }
}

/// Parse `v[from..to]` as an unsigned number in `radix` that does not exceed `max`.
pub fn parse_bounded_exec(v: &[char], from: usize, to: usize, radix: u32, max: u64) -> (r: Option<u64>)
    requires
        from <= to <= v@.len(),
        2 <= radix <= 36,
    ensures
        match r {
            Some(n) => parse_bounded(v@.subrange(from as int, to as int), radix as nat, max as nat)
                == Some(n as nat),
            None => parse_bounded(v@.subrange(from as int, to as int), radix as nat, max as nat) is None,
        },
{
    let ghost s = v@.subrange(from as int, to as int);
    if from == to {
        return None;
    }
    if (v[from] == '+' || v[from] == '-') && to - from == 1 {
        return None;
    }
    let start = if v[from] == '+' { from + 1 } else { from };
    let ghost d = v@.subrange(start as int, to as int);
    assert(d =~= if s[0] == '+' { s.skip(1) } else { s });
    let mut acc: u64 = 0;
    let mut i = start;
    while i < to
        invariant
            from <= start <= i <= to <= v@.len(),
            2 <= radix <= 36,
            d == v@.subrange(start as int, to as int),
            parse_unsigned(v@.subrange(from as int, to as int), radix as nat) == digits_value(
                d,
                radix as nat,
            ),
            digits_value(d.take(i - start), radix as nat) == Some(acc as nat),
            acc <= max,
        decreases to - i,
    {
        assert(d.take(i - start + 1).drop_last() =~= d.take(i - start));
        assert(d.take(i - start + 1).last() == v@[i as int]);
        match digit_value_exec(v[i], radix) {
            None => {
                proof {
                    assert(digits_value(d.take(i - start + 1), radix as nat) is None);
                    if digits_value(d, radix as nat) is Some {
                        lemma_digits_prefix(d, radix as nat, i - start + 1);
                    }
                }
                return None;
            },
            Some(b) => {
                let next = match acc.checked_mul(radix as u64) {
                    Some(m) => m.checked_add(b as u64),
                    None => None,
                };
                match next {
                    Some(n) if n <= max => {
                        acc = n;
                    },
                    _ => {
                        proof {
                            assert(acc * radix + b > max);
                            assert(digits_value(d.take(i - start + 1), radix as nat) == Some(
                                (acc * radix + b) as nat,
                            ));
                            if digits_value(d, radix as nat) is Some {
                                lemma_digits_prefix(d, radix as nat, i - start + 1);
                            }
                        }
                        return None;
                    },
                }
            },
        }
        i += 1;
    }
    assert(d.take(to - start) =~= d);
    Some(acc)
}

/// Decimal text of `n`.
pub fn decimal_exec(n: u64) -> (r: Vec<char>)
    ensures
        r@ == decimal(n as nat),
    decreases n,
{
    if n < 10 {
        let c = ((n as u8) + 48) as char;
        let mut r = Vec::new();
        r.push(c);
        r
    } else {
        let mut r = decimal_exec(n / 10);
        let c = (((n % 10) as u8) + 48) as char;
        r.push(c);
        r
    }
}


/// Decimal text of a signed number: a `-` before a negative one.
pub open spec fn signed_decimal(n: int) -> Seq<char> {
    if n < 0 {
        seq!['-'] + decimal((-n) as nat)
    } else {
        decimal(n as nat)
    }
}

/// Decimal text of `n`, with a `-` when it is negative.
pub fn signed_decimal_exec(n: i64) -> (r: Vec<char>)
    ensures
        r@ == signed_decimal(n as int),
{
    if n < 0 {
        let magnitude: u64 = if n == i64::MIN {
            0x8000_0000_0000_0000u64
        } else {
            (0 - n) as u64
        };
        let mut r: Vec<char> = Vec::new();
        r.push('-');
        let d = decimal_exec(magnitude);
        let mut i: usize = 0;
        while i < d.len()
            invariant
                i <= d@.len(),
                r@ == seq!['-'] + d@.take(i as int),
            decreases d@.len() - i,
        {
            r.push(d[i]);
            assert(d@.take(i + 1) =~= d@.take(i as int).push(d@[i as int]));
            i += 1;
        }
        assert(d@.take(i as int) =~= d@);
        r
    } else {
        decimal_exec(n as u64)
    }
}

} // verus!
