//! Character-level text utilities: building strings from computed characters,
//! percent-encoding in the `application/x-www-form-urlencoded` style, and a
//! reversible escaping used by the session payload codec.

use vstd::prelude::*;
use vstd::string::*;

verus! {

// ---------------------------------------------------------------------------
// Character classes and hexadecimal digits
// ---------------------------------------------------------------------------

/// Characters that form-urlencoding leaves as they are.
pub open spec fn is_unreserved_char(c: char) -> bool {
    (97 <= c as u32 && c as u32 <= 122)  // a-z
    || (65 <= c as u32 && c as u32 <= 90)  // A-Z
    || (48 <= c as u32 && c as u32 <= 57)  // 0-9
    || c == '*' || c == '-' || c == '.' || c == '_'
}

pub open spec fn hex_digit_char(d: int) -> char {
    if d == 0 { '0' } else if d == 1 { '1' } else if d == 2 { '2' }
    else if d == 3 { '3' } else if d == 4 { '4' } else if d == 5 { '5' }
    else if d == 6 { '6' } else if d == 7 { '7' } else if d == 8 { '8' }
    else if d == 9 { '9' } else if d == 10 { 'A' } else if d == 11 { 'B' }
    else if d == 12 { 'C' } else if d == 13 { 'D' } else if d == 14 { 'E' }
    else { 'F' }
}

pub fn hex_digit(d: u8) -> (c: char)
    requires
        d < 16,
    ensures
        c == hex_digit_char(d as int),
{
    if d == 0 { '0' } else if d == 1 { '1' } else if d == 2 { '2' }
    else if d == 3 { '3' } else if d == 4 { '4' } else if d == 5 { '5' }
    else if d == 6 { '6' } else if d == 7 { '7' } else if d == 8 { '8' }
    else if d == 9 { '9' } else if d == 10 { 'A' } else if d == 11 { 'B' }
    else if d == 12 { 'C' } else if d == 13 { 'D' } else if d == 14 { 'E' }
    else { 'F' }
}

// ---------------------------------------------------------------------------
// Percent-encoding (form-urlencoded serialization of parameter values)
// ---------------------------------------------------------------------------

/// `%XX` escape of one byte value (`0 <= b < 256`).
pub open spec fn pct_of_byte(b: int) -> Seq<char> {
    seq!['%', hex_digit_char(b / 16), hex_digit_char(b % 16)]
}

/// The encoding of a single character: unreserved characters stand for
/// themselves, a space becomes `+`, and everything else is the percent-escape
/// of its UTF-8 bytes.
pub open spec fn enc_char(c: char) -> Seq<char> {
    let cp = c as int;
    if is_unreserved_char(c) {
        seq![c]
    } else if c == ' ' {
        seq!['+']
    } else if cp < 0x80 {
        pct_of_byte(cp)
    } else if cp < 0x800 {
        pct_of_byte(0xC0 + cp / 64) + pct_of_byte(0x80 + cp % 64)
    } else if cp < 0x10000 {
        pct_of_byte(0xE0 + cp / 4096) + pct_of_byte(0x80 + (cp / 64) % 64)
            + pct_of_byte(0x80 + cp % 64)
    } else {
        pct_of_byte(0xF0 + cp / 262144) + pct_of_byte(0x80 + (cp / 4096) % 64)
            + pct_of_byte(0x80 + (cp / 64) % 64) + pct_of_byte(0x80 + cp % 64)
    }
}

/// Form-urlencoding of a whole string.
pub open spec fn urlencode(s: Seq<char>) -> Seq<char>
    decreases s.len(),
{
    if s.len() == 0 {
        Seq::empty()
    } else {
        enc_char(s[0]) + urlencode(s.drop_first())
    }
}

pub proof fn lemma_urlencode_snoc(s: Seq<char>, i: int)
    requires
        0 <= i < s.len(),
    ensures
        urlencode(s.take(i + 1)) == urlencode(s.take(i)) + enc_char(s[i]),
    decreases i,
{
    if i == 0 {
        assert(s.take(1).drop_first() =~= Seq::<char>::empty());
        assert(s.take(1)[0] == s[0]);
        assert(urlencode(s.take(1)) == enc_char(s[0]) + urlencode(Seq::<char>::empty()));
        assert(s.take(0) =~= Seq::<char>::empty());
        assert(urlencode(s.take(1)) =~= urlencode(s.take(0)) + enc_char(s[0]));
    } else {
        let t = s.drop_first();
        lemma_urlencode_snoc(t, i - 1);
        assert(s.take(i + 1).drop_first() =~= t.take(i));
        assert(s.take(i).drop_first() =~= t.take(i - 1));
        assert(t[i - 1] == s[i]);
        assert(urlencode(s.take(i + 1)) == enc_char(s[0]) + urlencode(t.take(i)));
        assert(urlencode(s.take(i)) == enc_char(s[0]) + urlencode(t.take(i - 1)));
        assert(enc_char(s[0]) + (urlencode(t.take(i - 1)) + enc_char(s[i]))
            =~= (enc_char(s[0]) + urlencode(t.take(i - 1))) + enc_char(s[i]));
    }
}

/// Encoding a string whose characters are all unreserved changes nothing.
pub proof fn lemma_urlencode_unreserved(s: Seq<char>)
    requires
        forall|i: int| 0 <= i < s.len() ==> is_unreserved_char(s[i]),
    ensures
        urlencode(s) == s,
    decreases s.len(),
{
    if s.len() == 0 {
        assert(urlencode(s) =~= s);
    } else {
        lemma_urlencode_unreserved(s.drop_first());
        assert(urlencode(s) =~= seq![s[0]] + s.drop_first());
        assert(seq![s[0]] + s.drop_first() =~= s);
    }
}

/// Appends the percent-encoding of one character to `out`.
fn push_encoded_char(out: &mut Vec<char>, c: char)
    ensures
        final(out)@ == old(out)@ + enc_char(c),
{
    let cp: u32 = c as u32;
    if (97 <= cp && cp <= 122) || (65 <= cp && cp <= 90) || (48 <= cp && cp <= 57)
        || c == '*' || c == '-' || c == '.' || c == '_' {
        out.push(c);
        assert(final(out)@ =~= old(out)@ + enc_char(c));
    } else if c == ' ' {
        out.push('+');
        assert(final(out)@ =~= old(out)@ + enc_char(c));
    } else if cp < 0x80 {
        push_pct(out, cp);
        assert(final(out)@ =~= old(out)@ + enc_char(c));
    } else if cp < 0x800 {
        push_pct(out, 0xC0 + cp / 64);
        push_pct(out, 0x80 + cp % 64);
        assert(final(out)@ =~= old(out)@ + enc_char(c));
    } else if cp < 0x10000 {
        push_pct(out, 0xE0 + cp / 4096);
        push_pct(out, 0x80 + (cp / 64) % 64);
        push_pct(out, 0x80 + cp % 64);
        assert(final(out)@ =~= old(out)@ + enc_char(c));
    } else {
        assert(cp < 0x110000);
        push_pct(out, 0xF0 + cp / 262144);
        push_pct(out, 0x80 + (cp / 4096) % 64);
        push_pct(out, 0x80 + (cp / 64) % 64);
        push_pct(out, 0x80 + cp % 64);
        assert(final(out)@ =~= old(out)@ + enc_char(c));
    }
}

/// Appends `%XX` for a byte value.
fn push_pct(out: &mut Vec<char>, b: u32)
    requires
        b < 256,
    ensures
        final(out)@ == old(out)@ + pct_of_byte(b as int),
{
    out.push('%');
    out.push(hex_digit((b / 16) as u8));
    out.push(hex_digit((b % 16) as u8));
    assert(final(out)@ =~= old(out)@ + pct_of_byte(b as int));
}

/// Appends the form-urlencoding of `s` to `out`.
pub fn urlencode_into(out: &mut Vec<char>, s: &str)
    ensures
        final(out)@ == old(out)@ + urlencode(s@),
{
    let n: usize = s.unicode_len();
    let mut i: usize = 0;
    while i < n
        invariant
            n == s@.len(),
            i <= n,
            out@ == old(out)@ + urlencode(s@.take(i as int)),
        decreases n - i,
    {
        let c = s.get_char(i);
        push_encoded_char(out, c);
        proof {
            lemma_urlencode_snoc(s@, i as int);
        }
        i = i + 1;
    }
    assert(s@.take(n as int) =~= s@);
}

// ---------------------------------------------------------------------------
// Plain character pushing and string assembly
// ---------------------------------------------------------------------------

/// Appends the characters of `s` unchanged.
pub fn push_literal(out: &mut Vec<char>, s: &str)
    ensures
        final(out)@ == old(out)@ + s@,
{
    let n: usize = s.unicode_len();
    let mut i: usize = 0;
    while i < n
        invariant
            n == s@.len(),
            i <= n,
            out@ == old(out)@ + s@.take(i as int),
        decreases n - i,
    {
        let c = s.get_char(i);
        out.push(c);
        assert(out@ =~= old(out)@ + s@.take(i as int + 1));
        i = i + 1;
    }
    assert(s@.take(n as int) =~= s@);
}

/// The characters of a string, one by one.
pub fn str_to_chars(s: &str) -> (v: Vec<char>)
    ensures
        v@ == s@,
{
    let mut v: Vec<char> = Vec::new();
    push_literal(&mut v, s);
    assert(v@ =~= s@);
    v
}

/// Relies on `String::from_iter` over `char`: collecting characters yields the
/// string holding exactly those characters in order.
#[verifier::external_body]
pub fn chars_to_string(v: &Vec<char>) -> (s: String)
    ensures
        s@ == v@,
{
    v.iter().collect()
}

} // verus!
