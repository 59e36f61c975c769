//! Character-level text helpers: trimming, integer parsing in a radix and
//! integer formatting, each with a mathematical specification.
use vstd::prelude::*;

verus! {

/// `char::is_whitespace`: the characters with the Unicode `White_Space` property.
pub open spec fn is_ws(c: char) -> bool {
    ||| c == ' '
    ||| ('\t' <= c && c <= '\r')
    ||| c == '\u{85}'
    ||| c == '\u{A0}'
    ||| c == '\u{1680}'
    ||| ('\u{2000}' <= c && c <= '\u{200A}')
    ||| c == '\u{2028}'
    ||| c == '\u{2029}'
    ||| c == '\u{202F}'
    ||| c == '\u{205F}'
    ||| c == '\u{3000}'
}

pub fn is_ws_exec(c: char) -> (b: bool)
    ensures
        b == is_ws(c),
{
    c == ' ' || ('\t' <= c && c <= '\r') || c == '\u{85}' || c == '\u{A0}' || c == '\u{1680}'
        || ('\u{2000}' <= c && c <= '\u{200A}') || c == '\u{2028}' || c == '\u{2029}' || c
        == '\u{202F}' || c == '\u{205F}' || c == '\u{3000}'
}

/// Number of leading whitespace characters of `s`.
pub open spec fn lead_ws(s: Seq<char>) -> nat
    decreases s.len(),
{
    if s.len() > 0 && is_ws(s[0]) {
        1 + lead_ws(s.drop_first())
    } else {
        0
    }
}

/// Number of trailing whitespace characters of `s`.
pub open spec fn trail_ws(s: Seq<char>) -> nat
    decreases s.len(),
{
    if s.len() > 0 && is_ws(s.last()) {
        1 + trail_ws(s.drop_last())
    } else {
        0
    }
}

/// `str::trim`: `s` without its leading and trailing whitespace.
pub open spec fn trimmed(s: Seq<char>) -> Seq<char> {
    let t = s.subrange(lead_ws(s) as int, s.len() as int);
    t.subrange(0, t.len() - trail_ws(t))
}

proof fn lemma_lead_ws(s: Seq<char>, i: int)
    requires
        0 <= i <= s.len(),
        forall|j: int| 0 <= j < i ==> is_ws(#[trigger] s[j]),
        i == s.len() || !is_ws(s[i]),
    ensures
        lead_ws(s) == i,
    decreases i,
{
    if i > 0 {
        lemma_lead_ws(s.drop_first(), i - 1);
    }
}

proof fn lemma_trail_ws(s: Seq<char>, k: int)
    requires
        0 <= k <= s.len(),
        forall|j: int| s.len() - k <= j < s.len() ==> is_ws(#[trigger] s[j]),
        k == s.len() || !is_ws(s[s.len() - k - 1]),
    ensures
        trail_ws(s) == k,
    decreases k,
{
    if k > 0 {
        assert forall|j: int| s.drop_last().len() - (k - 1) <= j < s.drop_last().len() implies is_ws(
            #[trigger] s.drop_last()[j],
        ) by {
            assert(s.drop_last()[j] == s[j]);
        }
        lemma_trail_ws(s.drop_last(), k - 1);
    }
}

/// Trims whitespace from both ends of `s`.
pub fn trim_chars(s: &[char]) -> (r: Vec<char>)
    ensures
        r@ == trimmed(s@),
{
    let n = s.len();
    let mut i: usize = 0;
    while i < n && is_ws_exec(s[i])
        invariant
            i <= n == s@.len(),
            forall|j: int| 0 <= j < i ==> is_ws(#[trigger] s@[j]),
        decreases n - i,
    {
        i += 1;
    }
    proof {
        lemma_lead_ws(s@, i as int);
    }
    let mut e: usize = n;
    while e > i && is_ws_exec(s[e - 1])
        invariant
            i <= e <= n == s@.len(),
            forall|j: int| e <= j < n ==> is_ws(#[trigger] s@[j]),
        decreases e,
    {
        e -= 1;
    }
    let ghost t = s@.subrange(i as int, n as int);
    proof {
        assert forall|j: int| t.len() - (n - e) <= j < t.len() implies is_ws(#[trigger] t[j]) by {
            assert(t[j] == s@[j + i]);
        }
        if e > i {
            assert(t[t.len() - (n - e) - 1] == s@[e - 1]);
        }
        lemma_trail_ws(t, (n - e) as int);
    }
    let mut r: Vec<char> = Vec::new();
    let mut k: usize = i;
    while k < e
        invariant
            i <= k <= e <= n == s@.len(),
            r@ == s@.subrange(i as int, k as int),
        decreases e - k,
    {
        r.push(s[k]);
        k += 1;
    }
    assert(r@ =~= trimmed(s@));
    r
}

/// Value of the digit `c` in base `radix` (2..=36), as `char::to_digit` gives it.
pub open spec fn digit_val(c: char, radix: nat) -> Option<nat> {
    let v: int = if '0' <= c && c <= '9' {
        (c as u32) - ('0' as u32)
    } else if 'a' <= c && c <= 'z' {
        (c as u32) - ('a' as u32) + 10
    } else if 'A' <= c && c <= 'Z' {
        (c as u32) - ('A' as u32) + 10
    } else {
        -1
    };
    if 0 <= v && v < radix {
        Some(v as nat)
    } else {
        None
    }
}

pub fn digit_val_exec(c: char, radix: u32) -> (r: Option<u32>)
    requires
        2 <= radix <= 36,
    ensures
        match r {
            Some(v) => digit_val(c, radix as nat) == Some(v as nat),
            None => digit_val(c, radix as nat) is None,
        },
{
    let u = c as u32;
    let v: u32 = if '0' <= c && c <= '9' {
        u - ('0' as u32)
    } else if 'a' <= c && c <= 'z' {
        u - ('a' as u32) + 10
    } else if 'A' <= c && c <= 'Z' {
        u - ('A' as u32) + 10
    } else {
        return None;
    };
    if v < radix {
        Some(v)
    } else {
        None
    }
}

/// Every character of `s` is a digit in base `radix`.
pub open spec fn all_digits(s: Seq<char>, radix: nat) -> bool {
    forall|i: int| 0 <= i < s.len() ==> (#[trigger] digit_val(s[i], radix)) is Some
}

/// Big-endian value of the digit string `s` in base `radix`.
pub open spec fn digits_value(s: Seq<char>, radix: nat) -> nat
    decreases s.len(),
{
    if s.len() == 0 {
        0
    } else {
        digits_value(s.drop_last(), radix) * radix + digit_val(s.last(), radix).unwrap_or(0)
    }
}

/// `s` with one leading `+` removed.
pub open spec fn strip_plus(s: Seq<char>) -> Seq<char> {
    if s.len() > 0 && s[0] == '+' {
        s.drop_first()
    } else {
        s
    }
}

/// What `from_str_radix` of an unsigned type with largest value `max` gives for `s`:
/// an optional `+`, then at least one digit, and a value that fits.
pub open spec fn parse_unsigned(s: Seq<char>, radix: nat, max: nat) -> Option<nat> {
    let d = strip_plus(s);
    if d.len() > 0 && all_digits(d, radix) && digits_value(d, radix) <= max {
        Some(digits_value(d, radix))
    } else {
        None
    }
}

proof fn lemma_digits_prefix_le(s: Seq<char>, k: int, radix: nat)
    requires
        0 <= k <= s.len(),
        radix >= 1,
    ensures
        digits_value(s.take(k), radix) <= digits_value(s, radix),
    decreases s.len() - k,
{
    if k < s.len() {
        lemma_digits_prefix_le(s, k + 1, radix);
        assert(s.take(k + 1).drop_last() =~= s.take(k));
        assert(digits_value(s.take(k + 1), radix) == digits_value(s.take(k), radix) * radix
            + digit_val(s.take(k + 1).last(), radix).unwrap_or(0));
        assert(digits_value(s.take(k), radix) * radix >= digits_value(s.take(k), radix))
            by (nonlinear_arith)
            requires
                radix >= 1,
        ;
    } else {
        assert(s.take(k) =~= s);
    }
}

/// Parses `s` as `from_str_radix` does for an unsigned type whose largest value is `max`.
pub fn parse_unsigned_chars(s: &[char], radix: u32, max: u64) -> (r: Option<u64>)
    requires
        2 <= radix <= 36,
    ensures
        match r {
            Some(v) => parse_unsigned(s@, radix as nat, max as nat) == Some(v as nat),
            None => parse_unsigned(s@, radix as nat, max as nat) is None,
        },
{
    let n = s.len();
    let start: usize = if n > 0 && s[0] == '+' {
        1
    } else {
        0
    };
    let ghost d = strip_plus(s@);
    assert(d =~= s@.subrange(start as int, n as int));
    if start >= n {
        return None;
    }
    let mut acc: u64 = 0;
    let mut i: usize = start;
    while i < n
        invariant
            start <= i <= n == s@.len(),
            d == s@.subrange(start as int, n as int),
            d == strip_plus(s@),
            d.len() > 0,
            2 <= radix <= 36,
            acc <= max,
            acc as nat == digits_value(d.take(i - start), radix as nat),
            all_digits(d.take(i - start), radix as nat),
        decreases n - i,
    {
        let ghost k = (i - start) as int;
        let dv = match digit_val_exec(s[i], radix) {
            Some(v) => v,
            None => {
                assert(d[k] == s@[i as int]);
                assert(digit_val(d[k], radix as nat) is None);
                assert(!all_digits(d, radix as nat));
                return None;
            },
        };
        assert(d[k] == s@[i as int]);
        assert(d.take(k + 1).drop_last() =~= d.take(k));
        assert(d.take(k + 1).last() == d[k]);
        assert((acc as u128) * (radix as u128) <= 0xffff_ffff_ffff_ffffu128 * 36) by (nonlinear_arith)
            requires
                acc <= 0xffff_ffff_ffff_ffffu64,
                radix <= 36,
        ;
        let next: u128 = (acc as u128) * (radix as u128) + (dv as u128);
        assert(next == digits_value(d.take(k + 1), radix as nat));
        if next > max as u128 {
            proof {
                lemma_digits_prefix_le(d, k + 1, radix as nat);
            }
            return None;
        }
        acc = next as u64;
        assert forall|j: int| 0 <= j < k + 1 implies (#[trigger] digit_val(
            d.take(k + 1)[j],
            radix as nat,
        )) is Some by {
            if j < k {
                assert(d.take(k + 1)[j] == d.take(k)[j]);
            }
        }
        i += 1;
    }
    assert(d.take(n - start) =~= d);
    Some(acc)
}

/// The upper-case character for digit `d` (< 16).
pub open spec fn digit_char(d: nat) -> char {
    seq!['0', '1', '2', '3', '4', '5', '6', '7', '8', '9', 'A', 'B', 'C', 'D', 'E', 'F'][d as int]
}

pub fn digit_char_exec(d: u32) -> (c: char)
    requires
        d < 16,
    ensures
        c == digit_char(d as nat),
{
    let table: [char; 16] = ['0', '1', '2', '3', '4', '5', '6', '7', '8', '9', 'A', 'B', 'C', 'D', 'E', 'F'];
    let c = table[d as usize];
    assert(table@ =~= seq!['0', '1', '2', '3', '4', '5', '6', '7', '8', '9', 'A', 'B', 'C', 'D', 'E', 'F']);
    c
}

pub proof fn lemma_digit_roundtrip(d: nat, radix: nat)
    requires
        d < radix <= 16,
    ensures
        digit_val(digit_char(d), radix) == Some(d),
{
    let t = seq!['0', '1', '2', '3', '4', '5', '6', '7', '8', '9', 'A', 'B', 'C', 'D', 'E', 'F'];
    if d == 0 { assert(t[0] == '0'); } else if d == 1 { assert(t[1] == '1'); }
    else if d == 2 { assert(t[2] == '2'); } else if d == 3 { assert(t[3] == '3'); }
    else if d == 4 { assert(t[4] == '4'); } else if d == 5 { assert(t[5] == '5'); }
    else if d == 6 { assert(t[6] == '6'); } else if d == 7 { assert(t[7] == '7'); }
    else if d == 8 { assert(t[8] == '8'); } else if d == 9 { assert(t[9] == '9'); }
    else if d == 10 { assert(t[10] == 'A'); } else if d == 11 { assert(t[11] == 'B'); }
    else if d == 12 { assert(t[12] == 'C'); } else if d == 13 { assert(t[13] == 'D'); }
    else if d == 14 { assert(t[14] == 'E'); } else { assert(t[15] == 'F'); }
}

/// The digits of `n` in base `radix` (upper case, no leading zeros), as `{}` or `{:X}` print it.
pub open spec fn radix_digits(n: nat, radix: nat) -> Seq<char>
    decreases n,
{
    if radix < 2 || n < radix {
        seq![digit_char(n)]
    } else {
        proof {
            assert(n / radix < n) by (nonlinear_arith)
                requires
                    radix >= 2,
                    n >= radix,
            ;
        }
        radix_digits(n / radix, radix).push(digit_char(n % radix))
    }
}

/// Decimal digits of `n`.
pub open spec fn dec(n: nat) -> Seq<char> {
    radix_digits(n, 10)
}

/// Upper-case hexadecimal digits of `n`.
pub open spec fn hex(n: nat) -> Seq<char> {
    radix_digits(n, 16)
}

/// Two upper-case hexadecimal digits of a byte, as `{:02X}` prints it.
pub open spec fn hex2(b: u8) -> Seq<char> {
    seq![digit_char((b / 16) as nat), digit_char((b % 16) as nat)]
}

/// The digit string of `n` parses back to `n`.
pub proof fn lemma_radix_digits_value(n: nat, radix: nat)
    requires
        2 <= radix <= 16,
    ensures
        all_digits(radix_digits(n, radix), radix),
        digits_value(radix_digits(n, radix), radix) == n,
        radix_digits(n, radix).len() > 0,
        radix_digits(n, radix)[0] != '+',
    decreases n,
{
    if n < radix {
        lemma_digit_roundtrip(n, radix);
        let s = radix_digits(n, radix);
        assert(s.drop_last() =~= Seq::<char>::empty());
        assert(digits_value(s.drop_last(), radix) == 0);
        assert(digits_value(s, radix) == 0 * radix + n);
    } else {
        assert(n / radix < n) by (nonlinear_arith)
            requires
                radix >= 2,
                n >= radix,
        ;
        lemma_radix_digits_value(n / radix, radix);
        lemma_digit_roundtrip(n % radix, radix);
        let p = radix_digits(n / radix, radix);
        let s = radix_digits(n, radix);
        assert(s.drop_last() =~= p);
        assert(n == (n / radix) * radix + n % radix) by (nonlinear_arith)
            requires
                radix >= 2,
        ;
        assert(digits_value(s, radix) == digits_value(p, radix) * radix + (n % radix));
        assert forall|i: int| 0 <= i < s.len() implies (#[trigger] digit_val(s[i], radix)) is Some by {
            if i < p.len() {
                assert(s[i] == p[i]);
            }
        }
    }
}

/// A digit string holds no whitespace, no `,` and no `+`.
pub proof fn lemma_digits_plain(s: Seq<char>, radix: nat)
    requires
        all_digits(s, radix),
    ensures
        forall|i: int| 0 <= i < s.len() ==> !is_ws(#[trigger] s[i]) && s[i] != ',' && s[i] != '+'
            && s[i] != ':' && s[i] != '-' && s[i] != '.' && s[i] != ' ',
{
    assert forall|i: int| 0 <= i < s.len() implies !is_ws(#[trigger] s[i]) && s[i] != ',' && s[i]
        != '+' && s[i] != ':' && s[i] != '-' && s[i] != '.' && s[i] != ' ' by {
        assert(digit_val(s[i], radix) is Some);
    }
}

/// Parsing the printed digits of `n` gives `n` back.
pub proof fn lemma_parse_radix_digits(n: nat, radix: nat, max: nat)
    requires
        2 <= radix <= 16,
        n <= max,
    ensures
        parse_unsigned(radix_digits(n, radix), radix, max) == Some(n),
{
    lemma_radix_digits_value(n, radix);
}

/// Appends the base-`radix` digits of `n` to `out`.
pub fn push_radix(out: &mut Vec<char>, n: u128, radix: u128)
    requires
        2 <= radix <= 16,
    ensures
        final(out)@ == old(out)@ + radix_digits(n as nat, radix as nat),
    decreases n,
{
    if n < radix {
        out.push(digit_char_exec(n as u32));
    } else {
        assert(n / radix < n) by (nonlinear_arith)
            requires
                radix >= 2,
                n >= radix,
        ;
        push_radix(out, n / radix, radix);
        out.push(digit_char_exec((n % radix) as u32));
    }
}

/// The lower-case character for digit `d` (< 16).
pub open spec fn digit_char_lower(d: nat) -> char {
    seq!['0', '1', '2', '3', '4', '5', '6', '7', '8', '9', 'a', 'b', 'c', 'd', 'e', 'f'][d as int]
}

/// Two lower-case hexadecimal digits of a byte, as `{:02x}` prints it.
pub open spec fn hex2_lower(b: u8) -> Seq<char> {
    seq![digit_char_lower((b / 16) as nat), digit_char_lower((b % 16) as nat)]
}

fn digit_char_lower_exec(d: u8) -> (c: char)
    requires
        d < 16,
    ensures
        c == digit_char_lower(d as nat),
{
    let table: [char; 16] = ['0', '1', '2', '3', '4', '5', '6', '7', '8', '9', 'a', 'b', 'c', 'd', 'e', 'f'];
    let c = table[d as usize];
    assert(table@ =~= seq!['0', '1', '2', '3', '4', '5', '6', '7', '8', '9', 'a', 'b', 'c', 'd', 'e', 'f']);
    c
}

/// Appends the two lower-case hexadecimal digits of `b` to `out`.
pub fn push_hex2_lower(out: &mut Vec<char>, b: u8)
    ensures
        final(out)@ == old(out)@ + hex2_lower(b),
{
    out.push(digit_char_lower_exec(b / 16));
    out.push(digit_char_lower_exec(b % 16));
}

/// Appends the two upper-case hexadecimal digits of `b` to `out`.
pub fn push_hex2(out: &mut Vec<char>, b: u8)
    ensures
        final(out)@ == old(out)@ + hex2(b),
{
    out.push(digit_char_exec((b / 16) as u32));
    out.push(digit_char_exec((b % 16) as u32));
}

/// Appends the characters of `s` to `out`.
pub fn push_str(out: &mut Vec<char>, s: &str)
    ensures
        final(out)@ == old(out)@ + s@,
{
    let cs = str_chars(s);
    push_all(out, &cs);
}

/// Appends `s` to `out`.
pub fn push_all(out: &mut Vec<char>, s: &[char])
    ensures
        final(out)@ == old(out)@ + s@,
{
    let ghost o = out@;
    let mut i: usize = 0;
    while i < s.len()
        invariant
            i <= s@.len(),
            out@ == o + s@.take(i as int),
        decreases s@.len() - i,
    {
        out.push(s[i]);
        i += 1;
        assert(s@.take(i as int) =~= s@.take(i - 1).push(s@[i - 1]));
    }
    assert(s@.take(i as int) =~= s@);
}

/// Collects the characters of a string slice.
pub fn str_chars(s: &str) -> (v: Vec<char>)
    ensures
        v@ == s@,
{
    let mut v: Vec<char> = Vec::new();
    for c in it: s.chars()
        invariant
            v@ == it.seq().take(it.index() as int),
    {
        v.push(c);
    }
    v
}

/// std `String::push`: appends the character `c` to `s`.
#[verifier::external_body]
fn string_push(s: &mut String, c: char)
    ensures
        final(s)@ == old(s)@.push(c),
{
    s.push(c)
}

/// Builds a `String` holding the characters of `v`.
pub fn string_from_chars(v: &[char]) -> (s: String)
    ensures
        s@ == v@,
{
    let mut s = String::new();
    let mut i: usize = 0;
    while i < v.len()
        invariant
            i <= v@.len(),
            s@ == v@.take(i as int),
        decreases v@.len() - i,
    {
        string_push(&mut s, v[i]);
        i += 1;
        assert(v@.take(i as int) =~= v@.take(i - 1).push(v@[i - 1]));
    }
    assert(v@.take(i as int) =~= v@);
    s
}

/// Index of the first `c` in `s`.
pub open spec fn find_char(s: Seq<char>, c: char) -> Option<nat>
    decreases s.len(),
{
    if s.len() == 0 {
        None
    } else if s[0] == c {
        Some(0)
    } else {
        match find_char(s.drop_first(), c) {
            Some(i) => Some(i + 1),
            None => None,
        }
    }
}

pub proof fn lemma_find_char(s: Seq<char>, c: char, i: int)
    requires
        0 <= i <= s.len(),
        forall|j: int| 0 <= j < i ==> s[j] != c,
    ensures
        i < s.len() && s[i] == c ==> find_char(s, c) == Some(i as nat),
        i == s.len() ==> find_char(s, c) is None,
    decreases i,
{
    if i > 0 {
        lemma_find_char(s.drop_first(), c, i - 1);
    }
}

/// Finds the first `c` in `s`.
pub fn find_char_exec(s: &[char], c: char) -> (r: Option<usize>)
    ensures
        match r {
            Some(i) => find_char(s@, c) == Some(i as nat) && i < s@.len(),
            None => find_char(s@, c) is None,
        },
{
    let mut i: usize = 0;
    while i < s.len()
        invariant
            i <= s@.len(),
            forall|j: int| 0 <= j < i ==> s@[j] != c,
        decreases s@.len() - i,
    {
        if s[i] == c {
            proof {
                lemma_find_char(s@, c, i as int);
            }
            return Some(i);
        }
        i += 1;
    }
    proof {
        lemma_find_char(s@, c, i as int);
    }
    None
}

/// A copy of `s[from..to]`.
pub fn sub_chars(s: &[char], from: usize, to: usize) -> (r: Vec<char>)
    requires
        from <= to <= s@.len(),
    ensures
        r@ == s@.subrange(from as int, to as int),
{
    let mut r: Vec<char> = Vec::new();
    let mut k = from;
    while k < to
        invariant
            from <= k <= to <= s@.len(),
            r@ == s@.subrange(from as int, k as int),
        decreases to - k,
    {
        r.push(s[k]);
        k += 1;
    }
    r
}

/// Whether `s` begins with `p`.
pub open spec fn starts_with(s: Seq<char>, p: Seq<char>) -> bool {
    p.len() <= s.len() && s.take(p.len() as int) == p
}

/// Whether `s` begins with the two characters `a`, `b`.
pub fn starts_with2(s: &[char], a: char, b: char) -> (r: bool)
    ensures
        r == starts_with(s@, seq![a, b]),
{
    let r = s.len() >= 2 && s[0] == a && s[1] == b;
    assert(r ==> s@.take(2) =~= seq![a, b]);
    assert(starts_with(s@, seq![a, b]) ==> s@.take(2)[0] == a && s@.take(2)[1] == b);
    r
}

/// No whitespace at either end means trimming changes nothing.
pub proof fn lemma_trim_noop(s: Seq<char>)
    requires
        s.len() > 0,
        !is_ws(s[0]),
        !is_ws(s.last()),
    ensures
        trimmed(s) == s,
{
    assert(s.subrange(0, s.len() as int) =~= s);
    assert(s.take(s.len() as int) =~= s);
}

/// Splitting `s` at every `sep`, as `str::split` with a character does.
pub open spec fn split_on(s: Seq<char>, sep: char) -> Seq<Seq<char>>
    decreases s.len(),
{
    if s.len() == 0 {
        seq![Seq::<char>::empty()]
    } else {
        let p = split_on(s.drop_last(), sep);
        if s.last() == sep {
            p.push(Seq::<char>::empty())
        } else {
            p.update(p.len() - 1, p.last().push(s.last()))
        }
    }
}

pub proof fn lemma_split_on_nonempty(s: Seq<char>, sep: char)
    ensures
        split_on(s, sep).len() >= 1,
    decreases s.len(),
{
    if s.len() > 0 {
        lemma_split_on_nonempty(s.drop_last(), sep);
    }
}

/// Splitting a string without `sep` gives the string itself.
pub proof fn lemma_split_no_sep(s: Seq<char>, sep: char)
    requires
        forall|i: int| 0 <= i < s.len() ==> s[i] != sep,
    ensures
        split_on(s, sep) == seq![s],
    decreases s.len(),
{
    if s.len() > 0 {
        lemma_split_no_sep(s.drop_last(), sep);
        assert(s.drop_last().push(s.last()) =~= s);
    } else {
        assert(s =~= Seq::<char>::empty());
    }
}

/// Splitting `x`, `sep`, `y` where `y` holds no `sep`: the parts of `x`, then `y`.
pub proof fn lemma_split_append(x: Seq<char>, sep: char, y: Seq<char>)
    requires
        forall|i: int| 0 <= i < y.len() ==> y[i] != sep,
    ensures
        split_on(x.push(sep) + y, sep) == split_on(x, sep).push(y),
    decreases y.len(),
{
    let s = x.push(sep) + y;
    if y.len() == 0 {
        assert(s =~= x.push(sep));
        assert(s.drop_last() =~= x);
        assert(y =~= Seq::<char>::empty());
    } else {
        lemma_split_append(x, sep, y.drop_last());
        assert(s.drop_last() =~= x.push(sep) + y.drop_last());
        assert(s.last() == y.last());
        assert(y.last() != sep);
        assert(y.drop_last().push(y.last()) =~= y);
        let p = split_on(s.drop_last(), sep);
        assert(p == split_on(x, sep).push(y.drop_last()));
        assert(split_on(s, sep) =~= split_on(x, sep).push(y));
    }
}

/// The number of bytes in the UTF-8 encoding of `c`.
pub open spec fn utf8_len(c: char) -> nat {
    if (c as u32) < 0x80 {
        1
    } else if (c as u32) < 0x800 {
        2
    } else if (c as u32) < 0x10000 {
        3
    } else {
        4
    }
}

/// The number of bytes in the UTF-8 encoding of `s`, as `str::len` counts them.
pub open spec fn utf8_total(s: Seq<char>) -> nat
    decreases s.len(),
{
    if s.len() == 0 {
        0
    } else {
        utf8_total(s.drop_last()) + utf8_len(s.last())
    }
}

pub fn utf8_len_exec(c: char) -> (r: usize)
    ensures
        r == utf8_len(c),
{
    let u = c as u32;
    if u < 0x80 {
        1
    } else if u < 0x800 {
        2
    } else if u < 0x10000 {
        3
    } else {
        4
    }
}

/// The UTF-8 length of `s`.
pub fn utf8_total_exec(s: &[char]) -> (r: u128)
    ensures
        r == utf8_total(s@),
{
    let mut n: u128 = 0;
    let mut i: usize = 0;
    while i < s.len()
        invariant
            i <= s@.len(),
            n == utf8_total(s@.take(i as int)),
            n <= 4 * i,
        decreases s@.len() - i,
    {
        assert(s@.take(i + 1).drop_last() =~= s@.take(i as int));
        n = n + utf8_len_exec(s[i]) as u128;
        i += 1;
    }
    assert(s@.take(i as int) =~= s@);
    n
}

/// The views of a sequence of character vectors.
pub open spec fn views(v: Seq<Vec<char>>) -> Seq<Seq<char>> {
    Seq::new(v.len(), |i: int| v[i]@)
}

/// Splits `s` at every `sep`.
pub fn split_chars(s: &[char], sep: char) -> (parts: Vec<Vec<char>>)
    ensures
        views(parts@) == split_on(s@, sep),
{
    let mut parts: Vec<Vec<char>> = Vec::new();
    let mut cur: Vec<char> = Vec::new();
    let mut i: usize = 0;
    assert(s@.take(0) =~= Seq::<char>::empty());
    assert(views(parts@).push(cur@) =~= split_on(s@.take(0), sep));
    while i < s.len()
        invariant
            i <= s@.len(),
            views(parts@).push(cur@) == split_on(s@.take(i as int), sep),
        decreases s@.len() - i,
    {
        let c = s[i];
        let ghost t = s@.take(i + 1);
        assert(t.drop_last() =~= s@.take(i as int));
        assert(t.last() == c);
        if c == sep {
            let ghost old_parts = parts@;
            let done = cur;
            parts.push(done);
            cur = Vec::new();
            assert(views(parts@) =~= views(old_parts).push(done@));
            assert(views(parts@).push(cur@) =~= split_on(t, sep));
        } else {
            let ghost old_cur = cur@;
            cur.push(c);
            assert(views(parts@).push(cur@) =~= views(parts@).push(old_cur).update(
                views(parts@).len() as int,
                old_cur.push(c),
            ));
        }
        i += 1;
    }
    assert(s@.take(i as int) =~= s@);
    let ghost old_parts = parts@;
    parts.push(cur);
    assert(views(parts@) =~= views(old_parts).push(parts@.last()@));
    parts
}

} // verus!
