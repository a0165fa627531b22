//! Text building blocks: decimal and hexadecimal rendering, digit grouping,
//! unsigned decimal parsing, ASCII case folding and trimming, all stated
//! over the character sequences that strings view as.

use vstd::prelude::*;

verus! {

// ---------------------------------------------------------------------------
// Appending to strings
// ---------------------------------------------------------------------------

/// Appends one character (`String::push`).
/// Trusted: the contract says the character is added at the end.
#[verifier::external_body]
pub(crate) fn push_char(s: &mut String, c: char)
    ensures
        final(s)@ == old(s)@.push(c),
{
    s.push(c);
}

/// Appends the characters of `t`.
pub fn push_str(s: &mut String, t: &str)
    ensures
        final(s)@ == old(s)@ + t@,
{
    s.append(t);
}

/// A new string holding the characters of `t`.
pub fn owned(t: &str) -> (s: String)
    ensures
        s@ == t@,
{
    String::from_str(t)
}

/// The characters of `s`, in order.
pub fn chars_of(s: &str) -> (v: Vec<char>)
    ensures
        v@ == s@,
{
    let n = s.unicode_len();
    let mut v: Vec<char> = Vec::new();
    let mut i: usize = 0;
    while i < n
        invariant
            n == s@.len(),
            i <= n,
            v@ == s@.subrange(0, i as int),
        decreases n - i,
    {
        v.push(s.get_char(i));
        i = i + 1;
    }
    v
}

/// A string made of the characters `v[from..to]`.
pub fn string_from_chars(v: &Vec<char>, from: usize, to: usize) -> (s: String)
    requires
        from <= to <= v.len(),
    ensures
        s@ == v@.subrange(from as int, to as int),
{
    let mut s = String::new();
    let mut i = from;
    while i < to
        invariant
            from <= i <= to <= v.len(),
            s@ == v@.subrange(from as int, i as int),
        decreases to - i,
    {
        push_char(&mut s, v[i]);
        i = i + 1;
    }
    s
}

/// Whether two character sequences are equal.
pub fn chars_equal(a: &Vec<char>, b: &Vec<char>) -> (r: bool)
    ensures
        r == (a@ == b@),
{
    if a.len() != b.len() {
        return false;
    }
    let mut i: usize = 0;
    while i < a.len()
        invariant
            a.len() == b.len(),
            i <= a.len(),
            forall|k: int| 0 <= k < i ==> a@[k] == b@[k],
        decreases a.len() - i,
    {
        if a[i] != b[i] {
            return false;
        }
        i = i + 1;
    }
    assert(a@ =~= b@);
    true
}

/// Whether two strings hold the same characters.
pub fn str_equal(a: &str, b: &str) -> (r: bool)
    ensures
        r == (a@ == b@),
{
    let va = chars_of(a);
    let vb = chars_of(b);
    chars_equal(&va, &vb)
}

/// `prefix` is a prefix of `s`.
pub open spec fn has_prefix(s: Seq<char>, prefix: Seq<char>) -> bool {
    prefix.len() <= s.len() && s.subrange(0, prefix.len() as int) == prefix
}

/// `needle` occurs in `s` starting at position `at`.
pub open spec fn occurs_at(s: Seq<char>, needle: Seq<char>, at: int) -> bool {
    0 <= at && at + needle.len() <= s.len() && s.subrange(at, at + needle.len()) == needle
}

/// `needle` occurs somewhere in `s`.
pub open spec fn contains_seq(s: Seq<char>, needle: Seq<char>) -> bool {
    exists|at: int| occurs_at(s, needle, at)
}

fn matches_at(s: &Vec<char>, needle: &Vec<char>, at: usize) -> (r: bool)
    requires
        at + needle.len() <= s.len(),
    ensures
        r == occurs_at(s@, needle@, at as int),
{
    let mut k: usize = 0;
    while k < needle.len()
        invariant
            at + needle.len() <= s.len(),
            k <= needle.len(),
            forall|j: int| 0 <= j < k ==> s@[at + j] == needle@[j],
        decreases needle.len() - k,
    {
        if s[at + k] != needle[k] {
            assert(s@.subrange(at as int, at + needle.len())[k as int] != needle@[k as int]);
            return false;
        }
        k = k + 1;
    }
    assert(s@.subrange(at as int, at + needle.len()) =~= needle@);
    true
}

/// Whether `needle` is a prefix of `s`.
pub fn starts_with_chars(s: &Vec<char>, needle: &Vec<char>) -> (r: bool)
    ensures
        r == has_prefix(s@, needle@),
{
    if needle.len() > s.len() {
        return false;
    }
    let r = matches_at(s, needle, 0);
    r
}

/// Whether `needle` occurs in `s`.
pub fn contains_chars(s: &Vec<char>, needle: &Vec<char>) -> (r: bool)
    ensures
        r == contains_seq(s@, needle@),
{
    if needle.len() > s.len() {
        assert(!contains_seq(s@, needle@));
        return false;
    }
    let last = s.len() - needle.len();
    let mut at: usize = 0;
    while at < last
        invariant
            last + needle.len() == s.len(),
            at <= last,
            forall|j: int| 0 <= j < at ==> !occurs_at(s@, needle@, j),
        decreases last - at,
    {
        if matches_at(s, needle, at) {
            return true;
        }
        at = at + 1;
    }
    if matches_at(s, needle, last) {
        return true;
    }
    assert forall|j: int| !occurs_at(s@, needle@, j) by {
        if 0 <= j && j + needle@.len() <= s@.len() {
            assert(j <= last);
        }
    }
    false
}

// ---------------------------------------------------------------------------
// ASCII case folding
// ---------------------------------------------------------------------------

/// The ASCII lowercase of `c`; other characters are unchanged.
pub open spec fn ascii_lower(c: char) -> char {
    if 'A' <= c && c <= 'Z' {
        (((c as u8) + 32) as u8) as char
    } else {
        c
    }
}

/// The ASCII lowercase of every character of `s`.
pub open spec fn ascii_lowercase(s: Seq<char>) -> Seq<char> {
    Seq::new(s.len(), |i: int| ascii_lower(s[i]))
}

fn lower_char(c: char) -> (r: char)
    ensures
        r == ascii_lower(c),
{
    if 'A' <= c && c <= 'Z' {
        let code: u8 = c as u8 + 32;
        code as char
    } else {
        c
    }
}

/// The ASCII lowercase of the characters of `s`.
pub fn lowercase_chars(s: &str) -> (v: Vec<char>)
    ensures
        v@ == ascii_lowercase(s@),
{
    let src = chars_of(s);
    let mut v: Vec<char> = Vec::new();
    let mut i: usize = 0;
    while i < src.len()
        invariant
            src@ == s@,
            i <= src.len(),
            v@ =~= ascii_lowercase(s@).subrange(0, i as int),
        decreases src.len() - i,
    {
        v.push(lower_char(src[i]));
        i = i + 1;
    }
    v
}

/// ASCII case-insensitive equality (`str::eq_ignore_ascii_case`).
pub open spec fn eq_ignore_ascii_case(a: Seq<char>, b: Seq<char>) -> bool {
    ascii_lowercase(a) == ascii_lowercase(b)
}

/// Whether `a` and `b` are equal when ASCII letters are folded to lowercase.
pub fn equal_ignoring_ascii_case(a: &str, b: &str) -> (r: bool)
    ensures
        r == eq_ignore_ascii_case(a@, b@),
{
    let la = lowercase_chars(a);
    let lb = lowercase_chars(b);
    chars_equal(&la, &lb)
}

// ---------------------------------------------------------------------------
// Numbers
// ---------------------------------------------------------------------------

/// The digit character for `d` in base 16 (`0-9`, then `a-f` or `A-F`).
pub open spec fn digit_char(d: nat, upper: bool) -> char {
    if d == 0 { '0' }
    else if d == 1 { '1' }
    else if d == 2 { '2' }
    else if d == 3 { '3' }
    else if d == 4 { '4' }
    else if d == 5 { '5' }
    else if d == 6 { '6' }
    else if d == 7 { '7' }
    else if d == 8 { '8' }
    else if d == 9 { '9' }
    else if d == 10 { if upper { 'A' } else { 'a' } }
    else if d == 11 { if upper { 'B' } else { 'b' } }
    else if d == 12 { if upper { 'C' } else { 'c' } }
    else if d == 13 { if upper { 'D' } else { 'd' } }
    else if d == 14 { if upper { 'E' } else { 'e' } }
    else { if upper { 'F' } else { 'f' } }
}

fn digit(d: u8, upper: bool) -> (c: char)
    requires
        d < 16,
    ensures
        c == digit_char(d as nat, upper),
{
    if d == 0 { '0' }
    else if d == 1 { '1' }
    else if d == 2 { '2' }
    else if d == 3 { '3' }
    else if d == 4 { '4' }
    else if d == 5 { '5' }
    else if d == 6 { '6' }
    else if d == 7 { '7' }
    else if d == 8 { '8' }
    else if d == 9 { '9' }
    else if d == 10 { if upper { 'A' } else { 'a' } }
    else if d == 11 { if upper { 'B' } else { 'b' } }
    else if d == 12 { if upper { 'C' } else { 'c' } }
    else if d == 13 { if upper { 'D' } else { 'd' } }
    else if d == 14 { if upper { 'E' } else { 'e' } }
    else { if upper { 'F' } else { 'f' } }
}

/// The digits of `n` in `base` (10 or 16), most significant first, with no
/// leading zeros (`0` is a single digit).
pub open spec fn digits(n: nat, base: nat, upper: bool) -> Seq<char>
    decreases n,
{
    if base < 2 || n < base {
        seq![digit_char(n, upper)]
    } else {
        proof {
            assert(n / base < n) by (nonlinear_arith)
                requires
                    base >= 2,
                    n >= base,
            ;
        }
        digits(n / base, base, upper).push(digit_char(n % base, upper))
    }
}

/// Decimal rendering of `n` (`Display` of an unsigned integer).
pub open spec fn decimal(n: nat) -> Seq<char> {
    digits(n, 10, false)
}

/// Decimal rendering of a signed integer (`Display` of `i32`).
pub open spec fn signed_decimal(i: int) -> Seq<char> {
    if i < 0 {
        seq!['-'] + decimal((-i) as nat)
    } else {
        decimal(i as nat)
    }
}

fn digits_of_u128(n: u128, base: u128, upper: bool) -> (s: String)
    requires
        base == 10 || base == 16,
    ensures
        s@ == digits(n as nat, base as nat, upper),
    decreases n,
{
    let mut s = if n >= base {
        digits_of_u128(n / base, base, upper)
    } else {
        String::new()
    };
    let d = (n % base) as u8;
    push_char(&mut s, digit(d, upper));
    s
}

/// The decimal text of `n`.
pub fn u128_text(n: u128) -> (s: String)
    ensures
        s@ == decimal(n as nat),
{
    digits_of_u128(n, 10, false)
}

/// The decimal text of `n`.
pub fn u64_text(n: u64) -> (s: String)
    ensures
        s@ == decimal(n as nat),
{
    digits_of_u128(n as u128, 10, false)
}

/// The decimal text of `n`.
pub fn u8_text(n: u8) -> (s: String)
    ensures
        s@ == decimal(n as nat),
{
    digits_of_u128(n as u128, 10, false)
}

/// The decimal text of `i`, with a leading `-` when negative.
pub fn i32_text(i: i32) -> (s: String)
    ensures
        s@ == signed_decimal(i as int),
{
    if i < 0 {
        let magnitude: u128 = (0i64 - i as i64) as u128;
        let mut s = owned("-");
        proof {
            reveal_strlit("-");
        }
        let rest = digits_of_u128(magnitude, 10, false);
        push_str(&mut s, rest.as_str());
        s
    } else {
        digits_of_u128(i as u128, 10, false)
    }
}

/// `s` padded on the left with `'0'` up to `width` characters.
pub open spec fn zero_padded(s: Seq<char>, width: nat) -> Seq<char> {
    if s.len() < width {
        Seq::new((width - s.len()) as nat, |i: int| '0') + s
    } else {
        s
    }
}

fn pad_zeros(s: String, width: usize) -> (r: String)
    ensures
        r@ == zero_padded(s@, width as nat),
{
    let n = s.as_str().unicode_len();
    if n >= width {
        return s;
    }
    let mut r = String::new();
    let mut k: usize = 0;
    while k < width - n
        invariant
            n < width,
            k <= width - n,
            r@ =~= Seq::new(k as nat, |i: int| '0'),
        decreases width - n - k,
    {
        push_char(&mut r, '0');
        k = k + 1;
    }
    push_str(&mut r, s.as_str());
    r
}

/// `{:02X}`: two uppercase hexadecimal digits.
pub fn hex2_upper(n: u8) -> (s: String)
    ensures
        s@ == zero_padded(digits(n as nat, 16, true), 2),
{
    pad_zeros(digits_of_u128(n as u128, 16, true), 2)
}

/// `{:016x}`: sixteen lowercase hexadecimal digits.
pub fn hex16_lower(n: u64) -> (s: String)
    ensures
        s@ == zero_padded(digits(n as nat, 16, false), 16),
{
    pad_zeros(digits_of_u128(n as u128, 16, false), 16)
}

/// `{:#x}` of a 32-bit status: `0x` and the lowercase hexadecimal digits of
/// its two's-complement bit pattern.
pub fn hex_status(bits: u32) -> (s: String)
    ensures
        s@ == seq!['0', 'x'] + digits(bits as nat, 16, false),
{
    let mut s = String::new();
    push_char(&mut s, '0');
    push_char(&mut s, 'x');
    let d = digits_of_u128(bits as u128, 16, false);
    push_str(&mut s, d.as_str());
    s
}

// ---------------------------------------------------------------------------
// Digit grouping
// ---------------------------------------------------------------------------

/// The first `k` characters of `cs`, each preceded by a `,` when it starts a
/// group of three counted back from a text of `byte_len` bytes.
pub open spec fn grouped_prefix(cs: Seq<char>, byte_len: int, k: int) -> Seq<char>
    decreases k,
{
    if k <= 0 {
        Seq::empty()
    } else {
        let i = k - 1;
        grouped_prefix(cs, byte_len, i) + (if i > 0 && (byte_len - i) % 3 == 0 {
            seq![',']
        } else {
            Seq::empty()
        }) + seq![cs[i]]
    }
}

/// Thousands grouping: a `,` before the character at index `i > 0` whenever
/// the byte length minus `i` is a multiple of three.
pub open spec fn grouped(cs: Seq<char>, byte_len: int) -> Seq<char> {
    grouped_prefix(cs, byte_len, cs.len() as int)
}

/// A text never has more characters than its UTF-8 encoding has bytes.
pub proof fn lemma_chars_at_most_bytes(cs: Seq<char>)
    ensures
        cs.len() <= vstd::utf8::encode_utf8(cs).len(),
    decreases cs.len(),
{
    if cs.len() > 0 {
        lemma_chars_at_most_bytes(cs.drop_first());
    }
}

/// Encoding one more character appends its own encoding.
pub proof fn lemma_encode_push(cs: Seq<char>, c: char)
    ensures
        vstd::utf8::encode_utf8(cs.push(c)) == vstd::utf8::encode_utf8(cs)
            + vstd::utf8::encode_scalar(c as u32),
    decreases cs.len(),
{
    if cs.len() == 0 {
        assert(cs.push(c).drop_first() =~= Seq::<char>::empty());
        assert(vstd::utf8::encode_utf8(Seq::<char>::empty()) =~= Seq::<u8>::empty());
        assert(vstd::utf8::encode_scalar(c as u32) + Seq::<u8>::empty() =~= vstd::utf8::encode_scalar(c as u32));
    } else {
        assert(cs.push(c).drop_first() =~= cs.drop_first().push(c));
        lemma_encode_push(cs.drop_first(), c);
        assert(vstd::utf8::encode_utf8(cs.push(c)) =~= vstd::utf8::encode_utf8(cs)
            + vstd::utf8::encode_scalar(c as u32));
    }
}

/// Not a comma.
pub open spec fn not_comma(c: char) -> bool {
    c != ','
}

/// Grouping only inserts separators: removing the commas from a grouped
/// text without commas gives the text back.
pub proof fn lemma_grouping_keeps_digits(cs: Seq<char>, byte_len: int)
    requires
        forall|i: int| 0 <= i < cs.len() ==> #[trigger] cs[i] != ',',
    ensures
        grouped(cs, byte_len).filter(|c: char| not_comma(c)) == cs,
{
    lemma_grouped_prefix_keeps_digits(cs, byte_len, cs.len() as int);
    assert(cs.subrange(0, cs.len() as int) =~= cs);
}

proof fn lemma_grouped_prefix_keeps_digits(cs: Seq<char>, byte_len: int, k: int)
    requires
        0 <= k <= cs.len(),
        forall|i: int| 0 <= i < cs.len() ==> #[trigger] cs[i] != ',',
    ensures
        grouped_prefix(cs, byte_len, k).filter(|c: char| not_comma(c)) == cs.subrange(0, k),
    decreases k,
{
    let p = |c: char| not_comma(c);
    if k == 0 {
        assert(Seq::<char>::empty().filter(p) =~= Seq::<char>::empty());
    } else {
        let i = k - 1;
        lemma_grouped_prefix_keeps_digits(cs, byte_len, i);
        let prev = grouped_prefix(cs, byte_len, i);
        let sep: Seq<char> = if i > 0 && (byte_len - i) % 3 == 0 {
            seq![',']
        } else {
            Seq::empty()
        };
        Seq::filter_distributes_over_add(prev + sep, seq![cs[i]], p);
        Seq::filter_distributes_over_add(prev, sep, p);
        reveal_with_fuel(Seq::filter, 2);
        assert(sep.filter(p) =~= Seq::<char>::empty());
        assert(seq![cs[i]].filter(p) =~= seq![cs[i]]);
        assert(cs.subrange(0, k) =~= cs.subrange(0, i).push(cs[i]));
    }
}

/// The number of bytes of the UTF-8 encoding of `s` (`str::len`).
pub fn utf8_len(s: &str) -> (n: u128)
    ensures
        n == vstd::utf8::encode_utf8(s@).len(),
{
    let cs = chars_of(s);
    let mut n: u128 = 0;
    let mut i: usize = 0;
    while i < cs.len()
        invariant
            cs@ == s@,
            i <= cs.len(),
            n == vstd::utf8::encode_utf8(s@.subrange(0, i as int)).len(),
            n <= 4 * i,
        decreases cs.len() - i,
    {
        let c = cs[i];
        let v = c as u32;
        proof {
            vstd::utf8::char_is_scalar(c);
            lemma_encode_push(s@.subrange(0, i as int), c);
            assert(s@.subrange(0, i + 1) =~= s@.subrange(0, i as int).push(c));
        }
        let w: u128 = if v <= 0x7F {
            1
        } else if v <= 0x7FF {
            2
        } else if v <= 0xFFFF {
            3
        } else {
            4
        };
        assert(w == vstd::utf8::encode_scalar(v).len());
        n = n + w;
        i = i + 1;
    }
    assert(s@.subrange(0, cs.len() as int) =~= s@);
    n
}

/// Inserts `,` between groups of three digits counted from the end.
pub fn group_decimal(value: &str) -> (s: String)
    ensures
        s@ == grouped(value@, vstd::utf8::encode_utf8(value@).len() as int),
{
    let blen = utf8_len(value);
    let cs = chars_of(value);
    proof {
        lemma_chars_at_most_bytes(value@);
    }
    let mut s = String::new();
    let mut i: usize = 0;
    while i < cs.len()
        invariant
            cs@ == value@,
            cs.len() <= blen,
            blen == vstd::utf8::encode_utf8(value@).len(),
            i <= cs.len(),
            s@ == grouped_prefix(value@, blen as int, i as int),
        decreases cs.len() - i,
    {
        if i > 0 && (blen - i as u128) % 3 == 0 {
            push_char(&mut s, ',');
        }
        push_char(&mut s, cs[i]);
        proof {
            assert(s@ =~= grouped_prefix(value@, blen as int, i + 1));
        }
        i = i + 1;
    }
    s
}

// ---------------------------------------------------------------------------
// Unsigned decimal parsing
// ---------------------------------------------------------------------------

/// An ASCII decimal digit.
pub open spec fn is_digit(c: char) -> bool {
    '0' <= c && c <= '9'
}

/// The value of an ASCII decimal digit.
pub open spec fn digit_value(c: char) -> nat {
    ((c as u32) - ('0' as u32)) as nat
}

/// The value of a run of decimal digits, most significant first.
pub open spec fn digits_value(ds: Seq<char>) -> nat
    decreases ds.len(),
{
    if ds.len() == 0 {
        0
    } else {
        digits_value(ds.drop_last()) * 10 + digit_value(ds.last())
    }
}

/// The digits that follow an optional leading `+`.
pub open spec fn unsigned_digits(cs: Seq<char>) -> Seq<char> {
    if cs.len() > 0 && cs[0] == '+' {
        cs.drop_first()
    } else {
        cs
    }
}

/// `str::parse::<u128>`: an optional `+`, then at least one ASCII digit,
/// with a value that fits in 128 bits.
pub open spec fn parsed_u128(cs: Seq<char>) -> Option<nat> {
    let ds = unsigned_digits(cs);
    if ds.len() > 0 && (forall|i: int| 0 <= i < ds.len() ==> is_digit(#[trigger] ds[i]))
        && digits_value(ds) <= u128::MAX {
        Some(digits_value(ds))
    } else {
        None
    }
}

proof fn lemma_digits_value_monotone(ds: Seq<char>, k: int)
    requires
        0 <= k <= ds.len(),
    ensures
        digits_value(ds.subrange(0, k)) <= digits_value(ds),
    decreases ds.len() - k,
{
    if k < ds.len() {
        lemma_digits_value_monotone(ds, k + 1);
        assert(ds.subrange(0, k + 1).drop_last() =~= ds.subrange(0, k));
    } else {
        assert(ds.subrange(0, k) =~= ds);
    }
}

proof fn lemma_decimal_digits(n: nat)
    ensures
        decimal(n).len() > 0,
        forall|i: int| 0 <= i < decimal(n).len() ==> is_digit(#[trigger] decimal(n)[i]),
        digits_value(decimal(n)) == n,
    decreases n,
{
    let d = (n % 10) as nat;
    assert(digit_value(digit_char(d, false)) == d && is_digit(digit_char(d, false))) by {
        assert(d < 10);
    }
    if n >= 10 {
        lemma_decimal_digits(n / 10);
        let prefix = decimal(n / 10);
        assert(decimal(n) == prefix.push(digit_char(d, false)));
        assert(decimal(n).drop_last() =~= prefix);
        assert(decimal(n).last() == digit_char(d, false));
        assert(digits_value(decimal(n)) == digits_value(prefix) * 10 + digit_value(digit_char(d, false)));
        assert((n / 10) * 10 + n % 10 == n);
        assert forall|i: int| 0 <= i < decimal(n).len() implies is_digit(#[trigger] decimal(n)[i]) by {
            if i < prefix.len() {
                assert(decimal(n)[i] == prefix[i]);
            }
        }
    } else {
        assert(decimal(n) == seq![digit_char(n, false)]);
        assert(decimal(n).drop_last() =~= Seq::<char>::empty());
        assert(decimal(n).last() == digit_char(d, false));
        assert(digits_value(decimal(n)) == digits_value(Seq::<char>::empty()) * 10 + digit_value(
            digit_char(d, false),
        ));
    }
}

/// Decimal text parses back to its value: the text of a 128-bit counter
/// is read as that counter.
pub proof fn lemma_decimal_parses_back(n: nat)
    requires
        n <= u128::MAX,
    ensures
        parsed_u128(decimal(n)) == Some(n),
{
    lemma_decimal_digits(n);
    assert(decimal(n)[0] != '+');
    assert(unsigned_digits(decimal(n)) == decimal(n));
}

/// Parses an unsigned 128-bit decimal (`str::parse::<u128>`).
pub fn parse_u128(value: &str) -> (r: Option<u128>)
    ensures
        match parsed_u128(value@) {
            Some(v) => r == Some(v as u128),
            None => r is None,
        },
{
    let cs = chars_of(value);
    let start: usize = if cs.len() > 0 && cs[0] == '+' { 1 } else { 0 };
    let ghost ds = unsigned_digits(value@);
    assert(ds =~= cs@.subrange(start as int, cs.len() as int));
    if start >= cs.len() {
        return None;
    }
    let mut acc: u128 = 0;
    let mut i: usize = start;
    while i < cs.len()
        invariant
            cs@ == value@,
            ds == unsigned_digits(value@),
            ds == cs@.subrange(start as int, cs.len() as int),
            start <= i <= cs.len(),
            forall|k: int| 0 <= k < i - start ==> is_digit(#[trigger] ds[k]),
            acc == digits_value(ds.subrange(0, i - start)),
        decreases cs.len() - i,
    {
        let c = cs[i];
        proof {
            assert(ds[i - start] == c);
            assert(ds.subrange(0, i - start + 1).drop_last() =~= ds.subrange(0, i - start));
        }
        if !('0' <= c && c <= '9') {
            assert(!is_digit(ds[i - start]));
            return None;
        }
        let d: u128 = (c as u32 - '0' as u32) as u128;
        let next = match acc.checked_mul(10) {
            Some(m) => m.checked_add(d),
            None => None,
        };
        match next {
            Some(v) => {
                acc = v;
            },
            None => {
                proof {
                    assert(digit_value(c) == d);
                    assert(digits_value(ds.subrange(0, i - start + 1)) == acc * 10 + d);
                    lemma_digits_value_monotone(ds, i - start + 1);
                }
                return None;
            },
        }
        i = i + 1;
    }
    proof {
        assert(ds.subrange(0, ds.len() as int) =~= ds);
    }
    Some(acc)
}

// ---------------------------------------------------------------------------
// Trimming
// ---------------------------------------------------------------------------

/// Which characters trimming removes.
#[derive(Clone, Copy, Debug, PartialEq, Eq)]
pub enum TrimSet {
    /// NUL and ASCII whitespace (space, tab, line feed, form feed,
    /// carriage return), as padded device strings use.
    Padding,
    /// Unicode `White_Space` characters (`str::trim`).
    Whitespace,
}

/// A Unicode `White_Space` character (`char::is_whitespace`).
pub open spec fn is_unicode_whitespace(c: char) -> bool {
    let v = c as u32;
    (0x9 <= v && v <= 0xD) || v == 0x20 || v == 0x85 || v == 0xA0 || v == 0x1680 || (0x2000 <= v
        && v <= 0x200A) || v == 0x2028 || v == 0x2029 || v == 0x202F || v == 0x205F || v == 0x3000
}

/// Whether `set` removes `c`.
pub open spec fn trims(set: TrimSet, c: char) -> bool {
    match set {
        TrimSet::Padding => c == '\0' || c == ' ' || c == '\t' || c == '\n' || c == '\x0C' || c
            == '\r',
        TrimSet::Whitespace => is_unicode_whitespace(c),
    }
}

fn is_trimmed_char(set: TrimSet, c: char) -> (r: bool)
    ensures
        r == trims(set, c),
{
    match set {
        TrimSet::Padding => c == '\0' || c == ' ' || c == '\t' || c == '\n' || c == '\x0C' || c
            == '\r',
        TrimSet::Whitespace => {
            let v = c as u32;
            (0x9 <= v && v <= 0xD) || v == 0x20 || v == 0x85 || v == 0xA0 || v == 0x1680 || (0x2000
                <= v && v <= 0x200A) || v == 0x2028 || v == 0x2029 || v == 0x202F || v == 0x205F
                || v == 0x3000
        },
    }
}

/// Number of removable characters at the start of `cs`.
pub open spec fn leading_count(cs: Seq<char>, set: TrimSet) -> nat
    decreases cs.len(),
{
    if cs.len() > 0 && trims(set, cs[0]) {
        1 + leading_count(cs.drop_first(), set)
    } else {
        0
    }
}

/// Number of removable characters at the end of `cs`.
pub open spec fn trailing_count(cs: Seq<char>, set: TrimSet) -> nat
    decreases cs.len(),
{
    if cs.len() > 0 && trims(set, cs.last()) {
        1 + trailing_count(cs.drop_last(), set)
    } else {
        0
    }
}

/// `cs` with removable characters stripped from both ends.
pub open spec fn trim_chars(cs: Seq<char>, set: TrimSet) -> Seq<char> {
    if leading_count(cs, set) >= cs.len() {
        Seq::empty()
    } else {
        cs.subrange(leading_count(cs, set) as int, cs.len() - trailing_count(cs, set))
    }
}

/// `cs` with NUL and ASCII whitespace stripped from both ends.
pub open spec fn trim_padding(cs: Seq<char>) -> Seq<char> {
    trim_chars(cs, TrimSet::Padding)
}

proof fn lemma_leading_count(cs: Seq<char>, set: TrimSet, i: int)
    requires
        0 <= i <= cs.len(),
        forall|k: int| 0 <= k < i ==> trims(set, #[trigger] cs[k]),
        i == cs.len() || !trims(set, cs[i]),
    ensures
        leading_count(cs, set) == i,
    decreases i,
{
    if i > 0 {
        assert forall|k: int| 0 <= k < i - 1 implies trims(set, #[trigger] cs.drop_first()[k]) by {
            assert(cs.drop_first()[k] == cs[k + 1]);
        }
        lemma_leading_count(cs.drop_first(), set, i - 1);
    }
}

proof fn lemma_trailing_count(cs: Seq<char>, set: TrimSet, j: int)
    requires
        0 <= j <= cs.len(),
        forall|k: int| j <= k < cs.len() ==> trims(set, #[trigger] cs[k]),
        j == 0 || !trims(set, cs[j - 1]),
    ensures
        trailing_count(cs, set) == cs.len() - j,
    decreases cs.len() - j,
{
    if j < cs.len() {
        assert forall|k: int| j <= k < cs.drop_last().len() implies trims(
            set,
            #[trigger] cs.drop_last()[k],
        ) by {
            assert(cs.drop_last()[k] == cs[k]);
        }
        lemma_trailing_count(cs.drop_last(), set, j);
    }
}

/// The characters of `s` with the characters of `set` removed from both
/// ends (`str::trim_matches`).
pub fn trim_text(s: &str, set: TrimSet) -> (r: String)
    ensures
        r@ == trim_chars(s@, set),
{
    let cs = chars_of(s);
    let n = cs.len();
    let mut i: usize = 0;
    while i < n && is_trimmed_char(set, cs[i])
        invariant
            cs@ == s@,
            n == cs.len(),
            i <= n,
            forall|k: int| 0 <= k < i ==> trims(set, #[trigger] cs@[k]),
        decreases n - i,
    {
        i = i + 1;
    }
    proof {
        lemma_leading_count(s@, set, i as int);
    }
    if i == n {
        return String::new();
    }
    let mut j: usize = n;
    while j > i && is_trimmed_char(set, cs[j - 1])
        invariant
            cs@ == s@,
            n == cs.len(),
            i < n,
            !trims(set, cs@[i as int]),
            i < j <= n,
            forall|k: int| j <= k < n ==> trims(set, #[trigger] cs@[k]),
        decreases j,
    {
        j = j - 1;
    }
    proof {
        lemma_trailing_count(s@, set, j as int);
    }
    string_from_chars(&cs, i, j)
}

/// The view of an optional string.
pub open spec fn opt_text(s: Option<String>) -> Option<Seq<char>> {
    match s {
        Some(t) => Some(t@),
        None => None,
    }
}

/// The characters of `s` with NUL and ASCII whitespace removed from both
/// ends, or `None` when nothing remains.
pub fn trimmed(s: &str) -> (r: Option<String>)
    ensures
        trim_padding(s@).len() == 0 ==> r is None,
        trim_padding(s@).len() > 0 ==> r is Some && r->0@ == trim_padding(s@),
{
    let t = trim_text(s, TrimSet::Padding);
    if t.as_str().unicode_len() == 0 {
        None
    } else {
        Some(t)
    }
}

} // verus!
