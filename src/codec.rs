//! Text forms of numbers used on the wire: zero-padded decimal and
//! hexadecimal fields, and the integer parsing rules of the standard library.

use vstd::prelude::*;

verus! {

/// The character of a digit value below sixteen (upper case above nine).
pub open spec fn digit_char(d: nat) -> char {
    seq!['0', '1', '2', '3', '4', '5', '6', '7', '8', '9', 'A', 'B', 'C', 'D', 'E', 'F'][d as int]
}

/// The value of a digit character in any radix up to 36; 36 for a character
/// that is no digit at all.
pub open spec fn digit_value(c: char) -> nat {
    if '0' <= c && c <= '9' {
        (c as u32 - '0' as u32) as nat
    } else if 'a' <= c && c <= 'z' {
        (c as u32 - 'a' as u32 + 10) as nat
    } else if 'A' <= c && c <= 'Z' {
        (c as u32 - 'A' as u32 + 10) as nat
    } else {
        36
    }
}

/// The digits of `n` in `radix`, most significant first, without leading zeros.
pub open spec fn radix_digits(n: nat, radix: nat) -> Seq<char>
    decreases n via radix_digits_decreases
{
    if radix < 2 || n < radix {
        seq![digit_char(n)]
    } else {
        radix_digits(n / radix, radix) + seq![digit_char(n % radix)]
    }
}

#[via_fn]
proof fn radix_digits_decreases(n: nat, radix: nat) {
    if !(radix < 2 || n < radix) {
        assert(n / radix < n) by (nonlinear_arith)
            requires
                radix >= 2,
                n >= radix,
        ;
    }
}

/// `digits` with zeros in front up to `width` characters.
pub open spec fn zero_padded(digits: Seq<char>, width: nat) -> Seq<char> {
    if digits.len() < width {
        Seq::new((width - digits.len()) as nat, |i: int| '0') + digits
    } else {
        digits
    }
}

/// Decimal text of `n`, at least five characters (`{:05}`).
pub open spec fn dec5(n: nat) -> Seq<char> {
    zero_padded(radix_digits(n, 10), 5)
}

/// Upper-case hexadecimal text of `n`, at least four characters (`{:04X}`).
pub open spec fn hex4(n: nat) -> Seq<char> {
    zero_padded(radix_digits(n, 16), 4)
}

/// The value of a string of digits in `radix`.
pub open spec fn digits_value(s: Seq<char>, radix: nat) -> nat
    decreases s.len(),
{
    if s.len() == 0 {
        0
    } else {
        digits_value(s.drop_last(), radix) * radix + digit_value(s.last())
    }
}

pub open spec fn all_digits(s: Seq<char>, radix: nat) -> bool {
    forall|i: int| 0 <= i < s.len() ==> digit_value(#[trigger] s[i]) < radix
}

/// A non-empty run of digits.
pub open spec fn is_digit_run(s: Seq<char>, radix: nat) -> bool {
    s.len() > 0 && all_digits(s, radix)
}

/// An unsigned number as the standard library reads it: an optional `+`
/// then at least one digit.
pub open spec fn parse_unsigned(s: Seq<char>, radix: nat) -> Option<nat> {
    let body = if s.len() > 0 && s[0] == '+' { s.drop_first() } else { s };
    if is_digit_run(body, radix) {
        Some(digits_value(body, radix))
    } else {
        None
    }
}

/// A signed decimal number as the standard library reads it: an optional
/// `+` or `-` then at least one digit.
pub open spec fn parse_signed(s: Seq<char>) -> Option<int> {
    if s.len() > 0 && s[0] == '-' {
        if is_digit_run(s.drop_first(), 10) {
            Some(-(digits_value(s.drop_first(), 10) as int))
        } else {
            None
        }
    } else {
        match parse_unsigned(s, 10) {
            Some(v) => Some(v as int),
            None => None,
        }
    }
}

/// `str::parse::<u16>`.
pub open spec fn spec_parse_u16(s: Seq<char>) -> Option<u16> {
    match parse_unsigned(s, 10) {
        Some(v) => if v <= u16::MAX { Some(v as u16) } else { None },
        None => None,
    }
}

/// `str::parse::<i16>`.
pub open spec fn spec_parse_i16(s: Seq<char>) -> Option<i16> {
    match parse_signed(s) {
        Some(v) => if i16::MIN <= v <= i16::MAX { Some(v as i16) } else { None },
        None => None,
    }
}

/// `str::parse::<i32>`.
pub open spec fn spec_parse_i32(s: Seq<char>) -> Option<i32> {
    match parse_signed(s) {
        Some(v) => if i32::MIN <= v <= i32::MAX { Some(v as i32) } else { None },
        None => None,
    }
}

/// `b` to the power `e`.
pub open spec fn power(b: nat, e: nat) -> nat
    decreases e,
{
    if e == 0 {
        1
    } else {
        power(b, (e - 1) as nat) * b
    }
}

proof fn lemma_digits_value_bound(s: Seq<char>, radix: nat)
    requires
        all_digits(s, radix),
        radix >= 1,
    ensures
        digits_value(s, radix) < power(radix, s.len()),
    decreases s.len(),
{
    if s.len() > 0 {
        let p = s.drop_last();
        assert(all_digits(p, radix)) by {
            assert forall|i: int| 0 <= i < p.len() implies digit_value(#[trigger] p[i]) < radix by {
                assert(p[i] == s[i]);
            }
        }
        lemma_digits_value_bound(p, radix);
        let v = digits_value(p, radix);
        let d = digit_value(s.last());
        let big = power(radix, p.len());
        assert(d < radix);
        assert(v * radix + d < big * radix) by (nonlinear_arith)
            requires
                v < big,
                d < radix,
        ;
    }
}

/// A number read from `s` is below `radix` to the power of its length.
pub proof fn lemma_parse_unsigned_bound(s: Seq<char>, radix: nat)
    requires
        radix >= 1,
    ensures
        parse_unsigned(s, radix) matches Some(v) ==> v < power(radix, s.len()),
{
    let body = if s.len() > 0 && s[0] == '+' { s.drop_first() } else { s };
    if is_digit_run(body, radix) {
        lemma_digits_value_bound(body, radix);
        if body.len() < s.len() {
            let pb = power(radix, body.len());
            assert(body.len() + 1 == s.len());
            assert(pb <= pb * radix) by (nonlinear_arith)
                requires
                    radix >= 1,
            ;
        }
    }
}

proof fn lemma_digits_value_prefix(s: Seq<char>, k: int, radix: nat)
    requires
        0 <= k <= s.len(),
        radix >= 1,
    ensures
        digits_value(s.subrange(0, k), radix) <= digits_value(s, radix),
    decreases s.len(),
{
    if k < s.len() {
        let p = s.drop_last();
        lemma_digits_value_prefix(p, k, radix);
        assert(p.subrange(0, k) =~= s.subrange(0, k));
        let v = digits_value(p, radix);
        assert(v * radix >= v) by (nonlinear_arith)
            requires
                radix >= 1,
        ;
    } else {
        assert(s.subrange(0, k) =~= s);
    }
}

proof fn lemma_digit_char_value(d: nat)
    requires
        d < 16,
    ensures
        digit_value(digit_char(d)) == d,
        digit_char(d) != '+',
{
    let t = seq!['0', '1', '2', '3', '4', '5', '6', '7', '8', '9', 'A', 'B', 'C', 'D', 'E', 'F'];
    assert(t[0] == '0' && t[1] == '1' && t[2] == '2' && t[3] == '3' && t[4] == '4');
    assert(t[5] == '5' && t[6] == '6' && t[7] == '7' && t[8] == '8' && t[9] == '9');
    assert(t[10] == 'A' && t[11] == 'B' && t[12] == 'C' && t[13] == 'D' && t[14] == 'E');
    assert(t[15] == 'F');
}

/// The digits of `n` read back as `n`.
pub proof fn lemma_radix_digits_value(n: nat, radix: nat)
    requires
        2 <= radix <= 16,
    ensures
        all_digits(radix_digits(n, radix), radix),
        digits_value(radix_digits(n, radix), radix) == n,
        radix_digits(n, radix).len() >= 1,
    decreases n,
{
    let ds = radix_digits(n, radix);
    if n < radix {
        lemma_digit_char_value(n);
        assert(ds.drop_last() =~= Seq::<char>::empty());
        assert(digits_value(ds.drop_last(), radix) == 0);
        assert(ds.last() == digit_char(n));
    } else {
        assert(n / radix < n) by (nonlinear_arith)
            requires
                radix >= 2,
                n >= radix,
        ;
        lemma_radix_digits_value(n / radix, radix);
        let pre = radix_digits(n / radix, radix);
        assert(n % radix < radix) by (nonlinear_arith)
            requires
                radix >= 2,
        ;
        lemma_digit_char_value(n % radix);
        assert(ds.drop_last() =~= pre);
        assert(ds.last() == digit_char(n % radix));
        assert(digits_value(ds, radix) == digits_value(pre, radix) * radix + digit_value(ds.last()));
        assert(n == (n / radix) * radix + n % radix) by (nonlinear_arith)
            requires
                radix >= 2,
        ;
        assert forall|i: int| 0 <= i < ds.len() implies digit_value(#[trigger] ds[i]) < radix by {
            if i < pre.len() {
                assert(ds[i] == pre[i]);
            }
        }
    }
}

/// Below `radix` to the power `k`, a number has at most `k` digits.
pub proof fn lemma_radix_digits_len(n: nat, radix: nat, k: nat)
    requires
        2 <= radix <= 16,
        k >= 1,
        n < power(radix, k),
    ensures
        radix_digits(n, radix).len() <= k,
    decreases n,
{
    if n >= radix {
        let pk = power(radix, (k - 1) as nat);
        if k == 1 {
            assert(power(radix, 0) == 1);
            assert(power(radix, 1) == power(radix, 0) * radix);
            let initial = power(radix, 0);
            let first_power = power(radix, 1);
            assert(first_power == radix) by (nonlinear_arith)
                requires
                    initial == 1,
                    first_power == initial * radix,
            ;
        }
        assert(k >= 2);
        assert(n / radix < pk) by (nonlinear_arith)
            requires
                n < pk * radix,
                radix >= 2,
        ;
        assert(n / radix < n) by (nonlinear_arith)
            requires
                radix >= 2,
                n >= radix,
        ;
        lemma_radix_digits_len(n / radix, radix, (k - 1) as nat);
    }
}

proof fn lemma_leading_zeros(z: nat, ds: Seq<char>, radix: nat)
    ensures
        digits_value(Seq::new(z, |i: int| '0') + ds, radix) == digits_value(ds, radix),
    decreases ds.len() + z,
{
    let zs = Seq::new(z, |i: int| '0');
    if ds.len() == 0 {
        assert(zs + ds =~= zs);
        if z > 0 {
            assert(zs.drop_last() =~= Seq::new((z - 1) as nat, |i: int| '0'));
            lemma_leading_zeros((z - 1) as nat, ds, radix);
            assert(Seq::new((z - 1) as nat, |i: int| '0') + ds =~= Seq::new(
                (z - 1) as nat,
                |i: int| '0',
            ));
            assert(digit_value('0') == 0);
            assert(zs.last() == '0');
            assert(digits_value(zs, radix) == digits_value(zs.drop_last(), radix) * radix + digit_value(
                zs.last(),
            ));
        }
    } else {
        lemma_leading_zeros(z, ds.drop_last(), radix);
        assert((zs + ds).drop_last() =~= zs + ds.drop_last());
        assert((zs + ds).last() == ds.last());
        assert(digits_value(zs + ds, radix) == digits_value(zs + ds.drop_last(), radix) * radix
            + digit_value(ds.last()));
    }
}

/// A zero-padded number reads back as itself.
pub proof fn lemma_zero_padded_value(n: nat, radix: nat, width: nat, k: nat)
    requires
        2 <= radix <= 16,
        1 <= k <= width,
        n < power(radix, k),
    ensures
        zero_padded(radix_digits(n, radix), width).len() == width,
        parse_unsigned(zero_padded(radix_digits(n, radix), width), radix) == Some(n),
{
    let ds = radix_digits(n, radix);
    lemma_radix_digits_value(n, radix);
    lemma_radix_digits_len(n, radix, k);
    let s = zero_padded(ds, width);
    if ds.len() < width {
        let z = (width - ds.len()) as nat;
        lemma_leading_zeros(z, ds, radix);
        assert(digit_value('0') == 0);
        assert forall|i: int| 0 <= i < s.len() implies digit_value(#[trigger] s[i]) < radix by {
            if i >= z {
                assert(s[i] == ds[i - z]);
            }
        }
    }
    assert(digit_value('+') == 36);
    assert(s[0] != '+');
}

/// The value of a digit character (see `digit_value`).
fn digit_of(c: char) -> (r: u32)
    ensures
        r == digit_value(c),
{
    if '0' <= c && c <= '9' {
        c as u32 - '0' as u32
    } else if 'a' <= c && c <= 'z' {
        c as u32 - 'a' as u32 + 10
    } else if 'A' <= c && c <= 'Z' {
        c as u32 - 'A' as u32 + 10
    } else {
        36
    }
}

/// Reads the digits of `s` from `start` to its end, giving their value when
/// all are digits of `radix`, there is at least one, and the value is at
/// most `limit`.
fn read_digits(s: &str, start: usize, radix: u32, limit: u64) -> (r: Option<u64>)
    requires
        start <= s@.len(),
        2 <= radix <= 36,
        limit <= u32::MAX,
    ensures
        ({
            let body = s@.subrange(start as int, s@.len() as int);
            match r {
                Some(v) => is_digit_run(body, radix as nat) && v == digits_value(body, radix as nat)
                    && v <= limit,
                None => !(is_digit_run(body, radix as nat) && digits_value(body, radix as nat)
                    <= limit),
            }
        }),
{
    let n = s.unicode_len();
    let ghost body = s@.subrange(start as int, s@.len() as int);
    if start >= n {
        return None;
    }
    let mut acc: u64 = 0;
    let mut i: usize = start;
    while i < n
        invariant
            start <= i <= n,
            n == s@.len(),
            body == s@.subrange(start as int, s@.len() as int),
            2 <= radix <= 36,
            limit <= u32::MAX,
            acc <= limit,
            acc == digits_value(body.subrange(0, i - start), radix as nat),
            all_digits(body.subrange(0, i - start), radix as nat),
        decreases n - i,
    {
        let c = s.get_char(i);
        let d = digit_of(c);
        assert(body.subrange(0, i + 1 - start).drop_last() =~= body.subrange(0, i - start));
        assert(body[i - start] == c);
        if d >= radix {
            assert(!all_digits(body, radix as nat)) by {
                assert(digit_value(body[i - start]) >= radix);
            }
            return None;
        }
        assert(acc * (radix as u64) <= u32::MAX * 36) by (nonlinear_arith)
            requires
                acc <= u32::MAX,
                radix <= 36,
        ;
        let next = acc * (radix as u64) + (d as u64);
        if next > limit {
            proof {
                if all_digits(body, radix as nat) {
                    lemma_digits_value_prefix(body, i + 1 - start, radix as nat);
                }
            }
            return None;
        }
        acc = next;
        i = i + 1;
        assert(all_digits(body.subrange(0, i - start), radix as nat)) by {
            assert forall|j: int| 0 <= j < i - start implies digit_value(
                #[trigger] body.subrange(0, i - start)[j],
            ) < radix by {
                if j < i - 1 - start {
                    assert(body.subrange(0, i - start)[j] == body.subrange(0, i - 1 - start)[j]);
                }
            }
        }
    }
    assert(body.subrange(0, n - start) =~= body);
    Some(acc)
}

/// Reads an unsigned number the way the standard library does, giving it
/// when it is at most `limit`.
pub fn parse_unsigned_text(s: &str, radix: u32, limit: u64) -> (r: Option<u64>)
    requires
        2 <= radix <= 36,
        limit <= u32::MAX,
    ensures
        match parse_unsigned(s@, radix as nat) {
            Some(v) => if v <= limit { r == Some(v as u64) } else { r is None },
            None => r is None,
        },
{
    let n = s.unicode_len();
    let start: usize = if n > 0 && s.get_char(0) == '+' { 1 } else { 0 };
    let ghost body = if s@.len() > 0 && s@[0] == '+' { s@.drop_first() } else { s@ };
    assert(s@.subrange(start as int, s@.len() as int) =~= body);
    read_digits(s, start, radix, limit)
}

/// Reads a signed decimal number the way the standard library does, giving
/// it when it lies within `[min, max]`.
pub fn parse_signed_text(s: &str, min: i64, max: i64) -> (r: Option<i64>)
    requires
        -(u32::MAX as int) <= min <= 0 <= max <= u32::MAX,
    ensures
        match parse_signed(s@) {
            Some(v) => if min <= v <= max { r == Some(v as i64) } else { r is None },
            None => r is None,
        },
{
    let n = s.unicode_len();
    if n > 0 && s.get_char(0) == '-' {
        let limit: u64 = (0 - min) as u64;
        assert(s@.subrange(1, s@.len() as int) =~= s@.drop_first());
        match read_digits(s, 1, 10, limit) {
            Some(v) => Some(0 - (v as i64)),
            None => None,
        }
    } else {
        match parse_unsigned_text(s, 10, max as u64) {
            Some(v) => Some(v as i64),
            None => None,
        }
    }
}

/// The one-character text of a digit value below sixteen.
fn digit_text(d: u64) -> (r: &'static str)
    requires
        d < 16,
    ensures
        r@ == seq![digit_char(d as nat)],
{
    let all = "0123456789ABCDEF";
    proof {
        reveal_strlit("0123456789ABCDEF");
    }
    let r = all.substring_char(d as usize, d as usize + 1);
    assert(r@ =~= seq![digit_char(d as nat)]);
    r
}

/// Appends the digits of `n` in `radix` to `out`.
fn append_digits(out: &mut String, n: u64, radix: u64)
    requires
        2 <= radix <= 16,
    ensures
        final(out)@ == old(out)@ + radix_digits(n as nat, radix as nat),
    decreases n,
{
    if n >= radix {
        assert(n / radix < n) by (nonlinear_arith)
            requires
                radix >= 2,
                n >= radix,
        ;
        append_digits(out, n / radix, radix);
    }
    let ghost before = out@;
    out.append(digit_text(n % radix));
    if n < radix {
        assert(n % radix == n) by (nonlinear_arith)
            requires
                n < radix,
        ;
    }
    assert(out@ =~= before + seq![digit_char((n % radix) as nat)]);
}

/// Text of `n` in `radix` with zeros in front up to `width` characters
/// (`{:0width$}` and `{:0width$X}`).
pub fn format_padded(n: u64, radix: u64, width: usize) -> (r: String)
    requires
        2 <= radix <= 16,
    ensures
        r@ == zero_padded(radix_digits(n as nat, radix as nat), width as nat),
{
    let mut digits = String::new();
    append_digits(&mut digits, n, radix);
    let ghost d = radix_digits(n as nat, radix as nat);
    assert(digits@ =~= d);
    let len = digits.as_str().unicode_len();
    let mut out = String::new();
    let mut k: usize = len;
    while k < width
        invariant
            len == d.len(),
            len <= k <= if len < width { width } else { len },
            out@ =~= Seq::new((k - len) as nat, |i: int| '0'),
        decreases width - k,
    {
        out.append("0");
        proof {
            reveal_strlit("0");
        }
        k = k + 1;
    }
    out.append(digits.as_str());
    out
}

/// Whether two texts hold the same characters.
pub fn same_text(a: &str, b: &str) -> (r: bool)
    ensures
        r == (a@ == b@),
{
    let n = a.unicode_len();
    if n != b.unicode_len() {
        return false;
    }
    let mut i: usize = 0;
    while i < n
        invariant
            n == a@.len() == b@.len(),
            i <= n,
            a@.subrange(0, i as int) == b@.subrange(0, i as int),
        decreases n - i,
    {
        if a.get_char(i) != b.get_char(i) {
            return false;
        }
        assert(a@.subrange(0, i + 1) =~= a@.subrange(0, i as int).push(a@[i as int]));
        assert(b@.subrange(0, i + 1) =~= b@.subrange(0, i as int).push(b@[i as int]));
        i = i + 1;
    }
    assert(a@ =~= a@.subrange(0, n as int));
    assert(b@ =~= b@.subrange(0, n as int));
    true
}

/// A new string holding `prefix` followed by `tail`.
pub fn joined_text(prefix: &str, tail: &str) -> (r: String)
    ensures
        r@ == prefix@ + tail@,
{
    let mut r = String::from_str(prefix);
    r.append(tail);
    r
}

} // verus!
