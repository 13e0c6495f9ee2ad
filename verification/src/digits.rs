//! Numbers written as text: decimal and hexadecimal digits, zero padding,
//! and the `+`-prefixed digit strings that `u16::from_str_radix` accepts.
use vstd::prelude::*;

verus! {

/// The digit character for `d` in base 16 (and so also in base 10).
pub open spec fn hex_char(d: nat, upper: bool) -> char {
    if d < 10 {
        (d + 48) as char
    } else if upper {
        (d + 55) as char
    } else {
        (d + 87) as char
    }
}

/// The hexadecimal digits of `n`, without leading zeros (`0` for zero).
pub open spec fn hex_digits(n: nat, upper: bool) -> Seq<char>
    decreases n,
{
    if n < 16 {
        seq![hex_char(n, upper)]
    } else {
        hex_digits(n / 16, upper).push(hex_char(n % 16, upper))
    }
}

/// `n` in hexadecimal, left-padded with `0` to at least `width` digits
/// (`format!("{n:0width$x}")`, or `X` when `upper`).
pub open spec fn hex_padded(n: nat, width: nat, upper: bool) -> Seq<char> {
    let d = hex_digits(n, upper);
    if d.len() < width {
        Seq::new((width - d.len()) as nat, |i: int| '0') + d
    } else {
        d
    }
}

/// The decimal digits of `n`, without leading zeros (`0` for zero).
pub open spec fn decimal(n: nat) -> Seq<char>
    decreases n,
{
    if n < 10 {
        seq![hex_char(n, true)]
    } else {
        decimal(n / 10).push(hex_char(n % 10, true))
    }
}

pub fn hex_char_exec(d: u64, upper: bool) -> (r: char)
    requires
        d < 16,
    ensures
        r == hex_char(d as nat, upper),
{
    let b: u8 = d as u8;
    if b < 10 {
        (b + 48) as char
    } else if upper {
        (b + 55) as char
    } else {
        (b + 87) as char
    }
}

fn hex_string(n: u128, upper: bool) -> (r: String)
    ensures
        r@ == hex_digits(n as nat, upper),
    decreases n,
{
    if n < 16 {
        let mut s = String::new();
        s.push(hex_char_exec(n as u64, upper));
        s
    } else {
        let mut s = hex_string(n / 16, upper);
        s.push(hex_char_exec((n % 16) as u64, upper));
        s
    }
}

/// Appends `hex_padded(n, width, upper)`.
pub fn push_hex(out: &mut String, n: u128, width: usize, upper: bool)
    ensures
        final(out)@ == old(out)@ + hex_padded(n as nat, width as nat, upper),
{
    let digits = hex_string(n, upper);
    let len = digits.unicode_len();
    let ghost start = out@;
    if len < width {
        let mut i: usize = len;
        while i < width
            invariant
                len <= i <= width,
                out@ == start + Seq::new((i - len) as nat, |k: int| '0'),
            decreases width - i,
        {
            out.push('0');
            assert(out@ =~= start + Seq::new((i + 1 - len) as nat, |k: int| '0'));
            i = i + 1;
        }
    }
    out.append(digits.as_str());
    assert(out@ =~= start + hex_padded(n as nat, width as nat, upper));
}

fn decimal_string(n: u64) -> (r: String)
    ensures
        r@ == decimal(n as nat),
    decreases n,
{
    if n < 10 {
        let mut s = String::new();
        s.push(hex_char_exec(n, true));
        s
    } else {
        let mut s = decimal_string(n / 10);
        s.push(hex_char_exec(n % 10, true));
        s
    }
}

/// Appends the decimal digits of `n`.
pub fn push_decimal(out: &mut String, n: u64)
    ensures
        final(out)@ == old(out)@ + decimal(n as nat),
{
    let digits = decimal_string(n);
    out.append(digits.as_str());
}

/// The value of a digit character in the given radix (`char::to_digit`).
pub open spec fn digit_value(c: char, radix: nat) -> Option<nat> {
    let u = c as u32;
    let d: int = if 0x30 <= u <= 0x39 {
        u - 0x30
    } else if 0x61 <= u <= 0x7A {
        u - 0x61 + 10
    } else if 0x41 <= u <= 0x5A {
        u - 0x41 + 10
    } else {
        36
    };
    if d < radix {
        Some(d as nat)
    } else {
        None
    }
}

/// The value of a string of digits, or `None` if a character is not a digit.
pub open spec fn digits_value(s: Seq<char>, radix: nat) -> Option<nat>
    decreases s.len(),
{
    if s.len() == 0 {
        Some(0)
    } else {
        match (digits_value(s.drop_last(), radix), digit_value(s.last(), radix)) {
            (Some(v), Some(d)) => Some(v * radix + d),
            _ => None,
        }
    }
}

/// `u16::from_str_radix`: an optional `+`, then at least one digit of the
/// radix, with a value that fits in sixteen bits.
pub open spec fn parse_u16(s: Seq<char>, radix: nat) -> Option<u16> {
    let body = if s.len() > 0 && s[0] == '+' {
        s.drop_first()
    } else {
        s
    };
    if body.len() == 0 {
        None
    } else {
        match digits_value(body, radix) {
            Some(v) => if v <= 0xFFFF {
                Some(v as u16)
            } else {
                None
            },
            None => None,
        }
    }
}

/// A digit string whose prefix is not all digits is not all digits, and its
/// value is at least the value of any prefix.
proof fn lemma_digits_prefix(s: Seq<char>, radix: nat, i: int)
    requires
        1 <= radix,
        0 <= i <= s.len(),
    ensures
        digits_value(s.subrange(0, i), radix) is None ==> digits_value(s, radix) is None,
        digits_value(s, radix) is Some ==> digits_value(s.subrange(0, i), radix)->0 <= digits_value(
            s,
            radix,
        )->0,
    decreases s.len(),
{
    if i == s.len() {
        assert(s.subrange(0, i) =~= s);
    } else {
        lemma_digits_prefix(s.drop_last(), radix, i);
        assert(s.drop_last().subrange(0, i) =~= s.subrange(0, i));
        if digits_value(s, radix) is Some {
            let v = digits_value(s.drop_last(), radix)->0;
            let d = digit_value(s.last(), radix)->0;
            assert(v * radix + d >= v) by (nonlinear_arith)
                requires
                    1 <= radix,
            ;
        }
    }
}

fn digit_value_exec(c: char, radix: u32) -> (r: Option<u32>)
    requires
        radix <= 36,
    ensures
        match r {
            Some(d) => digit_value(c, radix as nat) == Some(d as nat),
            None => digit_value(c, radix as nat) is None,
        },
{
    let u = c as u32;
    let d: u32 = if 0x30 <= u && u <= 0x39 {
        u - 0x30
    } else if 0x61 <= u && u <= 0x7A {
        u - 0x61 + 10
    } else if 0x41 <= u && u <= 0x5A {
        u - 0x41 + 10
    } else {
        36
    };
    if d < radix {
        Some(d)
    } else {
        None
    }
}

/// `u16::from_str_radix(s, radix).ok()`.
pub fn parse_u16_exec(s: &str, radix: u32) -> (r: Option<u16>)
    requires
        2 <= radix <= 36,
    ensures
        r == parse_u16(s@, radix as nat),
{
    let n = s.unicode_len();
    let mut start: usize = 0;
    if n > 0 && s.get_char(0) == '+' {
        start = 1;
    }
    let ghost body = if s@.len() > 0 && s@[0] == '+' {
        s@.drop_first()
    } else {
        s@
    };
    assert(body =~= s@.subrange(start as int, n as int));
    if start == n {
        return None;
    }
    let mut acc: u32 = 0;
    let mut i: usize = start;
    assert(body.subrange(0, 0) =~= Seq::<char>::empty());
    while i < n
        invariant
            start < n,
            body == (if s@.len() > 0 && s@[0] == '+' {
                s@.drop_first()
            } else {
                s@
            }),
            start <= i <= n,
            n == s@.len(),
            2 <= radix <= 36,
            body == s@.subrange(start as int, n as int),
            digits_value(body.subrange(0, i - start), radix as nat) == Some(acc as nat),
            acc <= 0xFFFF,
        decreases n - i,
    {
        let ghost k = i - start;
        assert(body.subrange(0, k + 1).drop_last() =~= body.subrange(0, k));
        assert(body.subrange(0, k + 1).last() == s@[i as int]);
        match digit_value_exec(s.get_char(i), radix) {
            None => {
                proof {
                    lemma_digits_prefix(body, radix as nat, k + 1);
                }
                return None;
            },
            Some(d) => {
                assert(acc * radix + d <= 0xFFFF * 36 + 36) by (nonlinear_arith)
                    requires
                        acc <= 0xFFFF,
                        radix <= 36,
                        d < 36,
                ;
                acc = acc * radix + d;
                if acc > 0xFFFF {
                    proof {
                        lemma_digits_prefix(body, radix as nat, k + 1);
                    }
                    return None;
                }
            },
        }
        i = i + 1;
    }
    assert(body.subrange(0, n - start) =~= body);
    Some(acc as u16)
}

/// `16` to the power `k`.
pub open spec fn pow16(k: nat) -> nat
    decreases k,
{
    if k == 0 {
        1
    } else {
        16 * pow16((k - 1) as nat)
    }
}

/// The 32 lower-case hexadecimal digits of a 128-bit identifier.
pub open spec fn id_digits(id: u128) -> Seq<char> {
    Seq::new(32, |i: int| hex_char(((id as nat) / pow16((31 - i) as nat)) % 16, false))
}

/// A 128-bit identifier in the hyphenated form of a UUID:
/// `xxxxxxxx-xxxx-xxxx-xxxx-xxxxxxxxxxxx`, lower case.
pub open spec fn uuid_text(id: u128) -> Seq<char> {
    let d = id_digits(id);
    d.subrange(0, 8) + "-"@ + d.subrange(8, 12) + "-"@ + d.subrange(12, 16) + "-"@ + d.subrange(
        16,
        20,
    ) + "-"@ + d.subrange(20, 32)
}

proof fn lemma_pow16_step(k: nat)
    ensures
        pow16(k + 1) == 16 * pow16(k),
        pow16(k) >= 1,
    decreases k,
{
    if k > 0 {
        lemma_pow16_step((k - 1) as nat);
    }
}

fn pow16_exec(k: u32) -> (r: u128)
    requires
        k <= 31,
    ensures
        r == pow16(k as nat),
        r >= 1,
{
    let mut r: u128 = 1;
    let mut i: u32 = 0;
    proof {
        reveal_with_fuel(pow16, 32);
        assert(pow16(31) == 0x1000_0000_0000_0000_0000_0000_0000_0000);
        lemma_pow16_mono(0, 31);
    }
    while i < k
        invariant
            pow16(31) == 0x1000_0000_0000_0000_0000_0000_0000_0000,
            i <= k <= 31,
            r == pow16(i as nat),
            1 <= r <= pow16(31),
        decreases k - i,
    {
        proof {
            lemma_pow16_step(i as nat);
            lemma_pow16_mono((i + 1) as nat, 31);
        }
        r = r * 16;
        i = i + 1;
    }
    r
}

proof fn lemma_pow16_mono(a: nat, b: nat)
    requires
        a <= b,
    ensures
        pow16(a) <= pow16(b),
    decreases b,
{
    if a < b {
        lemma_pow16_mono(a, (b - 1) as nat);
        lemma_pow16_step((b - 1) as nat);
    }
}

/// Appends the digits `from..to` of `id_digits(id)`.
fn push_id_digits(out: &mut String, id: u128, from: usize, to: usize)
    requires
        from <= to <= 32,
    ensures
        final(out)@ == old(out)@ + id_digits(id).subrange(from as int, to as int),
{
    proof {
        reveal_with_fuel(pow16, 32);
        assert(pow16(31) == 0x1000_0000_0000_0000_0000_0000_0000_0000);
    }
    let ghost start = out@;
    let ghost d = id_digits(id);
    let mut i = from;
    while i < to
        invariant
            from <= i <= to <= 32,
            d == id_digits(id),
            pow16(31) == 0x1000_0000_0000_0000_0000_0000_0000_0000,
            out@ == start + d.subrange(from as int, i as int),
        decreases to - i,
    {
        let divisor = pow16_exec((31 - i) as u32);
        let digit: u128 = (id / divisor) % 16;
        out.push(hex_char_exec(digit as u64, false));
        assert(d[i as int] == hex_char(digit as nat, false));
        assert(out@ =~= start + d.subrange(from as int, i + 1));
        i = i + 1;
    }
}

/// Appends `uuid_text(id)`.
pub fn push_uuid(out: &mut String, id: u128)
    ensures
        final(out)@ == old(out)@ + uuid_text(id),
{
    let ghost start = out@;
    push_id_digits(out, id, 0, 8);
    out.append("-");
    push_id_digits(out, id, 8, 12);
    out.append("-");
    push_id_digits(out, id, 12, 16);
    out.append("-");
    push_id_digits(out, id, 16, 20);
    out.append("-");
    push_id_digits(out, id, 20, 32);
    assert(out@ =~= start + uuid_text(id));
}

/// `s` begins with `prefix`.
pub fn has_prefix(s: &str, prefix: &str) -> (r: bool)
    ensures
        r == (prefix@.len() <= s@.len() && s@.subrange(0, prefix@.len() as int) == prefix@),
{
    let m = prefix.unicode_len();
    if m > s.unicode_len() {
        return false;
    }
    let mut i: usize = 0;
    while i < m
        invariant
            m == prefix@.len(),
            m <= s@.len(),
            i <= m,
            forall|j: int| 0 <= j < i ==> s@[j] == prefix@[j],
        decreases m - i,
    {
        if s.get_char(i) != prefix.get_char(i) {
            assert(s@.subrange(0, m as int)[i as int] != prefix@[i as int]);
            return false;
        }
        i = i + 1;
    }
    assert(s@.subrange(0, m as int) =~= prefix@);
    true
}

} // verus!
