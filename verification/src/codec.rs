//! The session payload codec.
//!
//! A payload is serialized to a line of `&`-terminated fields. Strings are
//! escaped so that they cannot contain the separator (`%` becomes `%p`,
//! `&` becomes `%a`); numbers are written as fixed-width hexadecimal.
//! Decoding is proved to invert encoding.

use vstd::prelude::*;

use crate::text::hex_digit_char;

verus! {

// ---------------------------------------------------------------------------
// Escaping
// ---------------------------------------------------------------------------

pub open spec fn esc_char(c: char) -> Seq<char> {
    if c == '%' {
        seq!['%', 'p']
    } else if c == '&' {
        seq!['%', 'a']
    } else {
        seq![c]
    }
}

pub open spec fn esc(s: Seq<char>) -> Seq<char>
    decreases s.len(),
{
    if s.len() == 0 {
        Seq::empty()
    } else {
        esc_char(s[0]) + esc(s.drop_first())
    }
}

pub open spec fn unesc(s: Seq<char>) -> Option<Seq<char>>
    decreases s.len(),
{
    if s.len() == 0 {
        Some(Seq::empty())
    } else if s[0] == '%' {
        if s.len() >= 2 && (s[1] == 'p' || s[1] == 'a') {
            let c = if s[1] == 'p' { '%' } else { '&' };
            match unesc(s.skip(2)) {
                Some(r) => Some(seq![c] + r),
                None => None,
            }
        } else {
            None
        }
    } else {
        match unesc(s.drop_first()) {
            Some(r) => Some(seq![s[0]] + r),
            None => None,
        }
    }
}

pub proof fn lemma_esc_no_amp(s: Seq<char>)
    ensures
        forall|i: int| 0 <= i < esc(s).len() ==> esc(s)[i] != '&',
    decreases s.len(),
{
    if s.len() > 0 {
        lemma_esc_no_amp(s.drop_first());
        let e = esc(s);
        let h = esc_char(s[0]);
        let t = esc(s.drop_first());
        assert(forall|i: int| 0 <= i < h.len() ==> h[i] != '&');
        assert(forall|i: int| 0 <= i < e.len() ==> e[i] == (if i < h.len() {
            h[i]
        } else {
            t[i - h.len()]
        }));
    }
}

pub proof fn lemma_unesc_esc(s: Seq<char>)
    ensures
        unesc(esc(s)) == Some(s),
    decreases s.len(),
{
    if s.len() == 0 {
        assert(esc(s).len() == 0);
    } else {
        lemma_unesc_esc(s.drop_first());
        let e = esc(s);
        if s[0] == '%' {
            assert(e =~= seq!['%', 'p'] + esc(s.drop_first()));
            assert(e.skip(2) =~= esc(s.drop_first()));
            assert(unesc(e) == Some(seq!['%'] + s.drop_first()));
            assert(seq!['%'] + s.drop_first() =~= s);
        } else if s[0] == '&' {
            assert(e =~= seq!['%', 'a'] + esc(s.drop_first()));
            assert(e.skip(2) =~= esc(s.drop_first()));
            assert(unesc(e) == Some(seq!['&'] + s.drop_first()));
            assert(seq!['&'] + s.drop_first() =~= s);
        } else {
            assert(e =~= seq![s[0]] + esc(s.drop_first()));
            assert(e[0] == s[0]);
            assert(e.drop_first() =~= esc(s.drop_first()));
            assert(unesc(e) == Some(seq![s[0]] + s.drop_first()));
            assert(seq![s[0]] + s.drop_first() =~= s);
        }
    }
}

// ---------------------------------------------------------------------------
// Fields
// ---------------------------------------------------------------------------

/// Index of the first `&`, or -1 when there is none.
pub open spec fn find_amp(s: Seq<char>) -> int
    decreases s.len(),
{
    if s.len() == 0 {
        -1
    } else if s[0] == '&' {
        0
    } else {
        let r = find_amp(s.drop_first());
        if r == -1 {
            -1
        } else {
            r + 1
        }
    }
}

pub proof fn lemma_find_amp_is_first(s: Seq<char>, i: int)
    requires
        0 <= i < s.len(),
        s[i] == '&',
        forall|j: int| 0 <= j < i ==> s[j] != '&',
    ensures
        find_amp(s) == i,
    decreases i,
{
    if i > 0 {
        lemma_find_amp_is_first(s.drop_first(), i - 1);
    }
}

pub proof fn lemma_find_amp_none(s: Seq<char>)
    requires
        forall|i: int| 0 <= i < s.len() ==> s[i] != '&',
    ensures
        find_amp(s) == -1,
    decreases s.len(),
{
    if s.len() > 0 {
        lemma_find_amp_none(s.drop_first());
    }
}

/// Splits off one escaped, `&`-terminated field: the unescaped content and
/// what follows the separator.
pub open spec fn take_field(s: Seq<char>) -> Option<(Seq<char>, Seq<char>)> {
    let i = find_amp(s);
    if i < 0 {
        None
    } else {
        match unesc(s.take(i)) {
            Some(x) => Some((x, s.skip(i + 1))),
            None => None,
        }
    }
}

/// One encoded field: the escaped content and the separator.
pub open spec fn field(x: Seq<char>) -> Seq<char> {
    esc(x) + seq!['&']
}

pub proof fn lemma_take_field_encoded(x: Seq<char>, t: Seq<char>)
    ensures
        take_field(field(x) + t) == Some((x, t)),
{
    let s = field(x) + t;
    let n = esc(x).len() as int;
    lemma_esc_no_amp(x);
    assert(s[n] == '&');
    assert(forall|j: int| 0 <= j < n ==> s[j] == esc(x)[j] && s[j] != '&');
    lemma_find_amp_is_first(s, n);
    assert(s.take(n) =~= esc(x));
    lemma_unesc_esc(x);
    assert(s.skip(n + 1) =~= t);
}

// ---------------------------------------------------------------------------
// Fixed-width hexadecimal numbers
// ---------------------------------------------------------------------------

pub open spec fn pow16(w: nat) -> nat
    decreases w,
{
    if w == 0 {
        1
    } else {
        16 * pow16((w - 1) as nat)
    }
}

/// `n` in base 16, `w` digits wide (the value must fit).
pub open spec fn hexw(n: nat, w: nat) -> Seq<char>
    decreases w,
{
    if w == 0 {
        Seq::empty()
    } else {
        hexw(n / 16, (w - 1) as nat) + seq![hex_digit_char((n % 16) as int)]
    }
}

/// The value of an uppercase hexadecimal digit, or -1.
pub open spec fn hex_val(c: char) -> int {
    if c == '0' { 0 } else if c == '1' { 1 } else if c == '2' { 2 }
    else if c == '3' { 3 } else if c == '4' { 4 } else if c == '5' { 5 }
    else if c == '6' { 6 } else if c == '7' { 7 } else if c == '8' { 8 }
    else if c == '9' { 9 } else if c == 'A' { 10 } else if c == 'B' { 11 }
    else if c == 'C' { 12 } else if c == 'D' { 13 } else if c == 'E' { 14 }
    else if c == 'F' { 15 } else { -1 }
}

/// The number a hexadecimal string denotes, most significant digit first.
pub open spec fn unhex(s: Seq<char>) -> Option<nat>
    decreases s.len(),
{
    if s.len() == 0 {
        Some(0)
    } else {
        match unhex(s.drop_last()) {
            Some(h) => {
                let d = hex_val(s.last());
                if d >= 0 {
                    Some((h * 16 + d) as nat)
                } else {
                    None
                }
            },
            None => None,
        }
    }
}

pub proof fn lemma_hexw_len(n: nat, w: nat)
    ensures
        hexw(n, w).len() == w,
    decreases w,
{
    if w > 0 {
        lemma_hexw_len(n / 16, (w - 1) as nat);
    }
}

pub proof fn lemma_hexw_digits(n: nat, w: nat)
    ensures
        forall|i: int| 0 <= i < hexw(n, w).len() ==> hex_val(hexw(n, w)[i]) >= 0,
        forall|i: int|
            0 <= i < hexw(n, w).len() ==> hexw(n, w)[i] != '&' && hexw(n, w)[i] != '%',
    decreases w,
{
    if w > 0 {
        let wp = (w - 1) as nat;
        lemma_hexw_digits(n / 16, wp);
        lemma_hexw_len(n / 16, wp);
        lemma_hexw_len(n, w);
        let s = hexw(n, w);
        let sp = hexw(n / 16, wp);
        assert(forall|i: int| 0 <= i < wp ==> s[i] == sp[i]);
        let d = (n % 16) as int;
        assert(0 <= d < 16);
        assert(s[w - 1] == hex_digit_char(d));
        assert(hex_val(hex_digit_char(d)) == d);
        assert(hex_digit_char(d) != '&' && hex_digit_char(d) != '%');
    }
}

pub proof fn lemma_unhex_hexw(n: nat, w: nat)
    requires
        n < pow16(w),
    ensures
        unhex(hexw(n, w)) == Some(n),
    decreases w,
{
    if w == 0 {
        assert(n == 0);
    } else {
        let wp = (w - 1) as nat;
        assert(n / 16 < pow16(wp)) by (nonlinear_arith)
            requires
                n < pow16(w),
                pow16(w) == 16 * pow16(wp),
        {
        }
        lemma_unhex_hexw(n / 16, wp);
        let s = hexw(n, w);
        lemma_hexw_len(n / 16, wp);
        assert(s.drop_last() =~= hexw(n / 16, wp));
        assert(s.last() == hex_digit_char((n % 16) as int));
        assert(hex_val(hex_digit_char((n % 16) as int)) == n % 16);
        assert((n / 16) * 16 + n % 16 == n) by (nonlinear_arith);
    }
}

/// Unescaping a string without `%` or `&` leaves it unchanged.
pub proof fn lemma_unesc_plain(s: Seq<char>)
    requires
        forall|i: int| 0 <= i < s.len() ==> s[i] != '%' && s[i] != '&',
    ensures
        unesc(s) == Some(s),
    decreases s.len(),
{
    if s.len() > 0 {
        lemma_unesc_plain(s.drop_first());
        assert(seq![s[0]] + s.drop_first() =~= s);
    }
}

/// A fixed-width hexadecimal field needs no escaping; splitting it off
/// recovers the digits.
pub proof fn lemma_take_field_hex(n: nat, t: Seq<char>)
    ensures
        take_field(hexw(n, 16) + seq!['&'] + t) == Some((hexw(n, 16), t)),
{
    let h = hexw(n, 16);
    lemma_hexw_len(n, 16);
    lemma_hexw_digits(n, 16);
    let s = h + seq!['&'] + t;
    assert(s[16] == '&');
    assert(forall|j: int| 0 <= j < 16 ==> s[j] == h[j] && s[j] != '&');
    lemma_find_amp_is_first(s, 16);
    assert(s.take(16) =~= h);
    lemma_unesc_plain(h);
    assert(s.skip(17) =~= t);
}

pub proof fn lemma_pow16_mono(a: nat, b: nat)
    requires
        a <= b,
    ensures
        pow16(a) <= pow16(b),
    decreases b,
{
    if a < b {
        lemma_pow16_mono(a, (b - 1) as nat);
    }
}

// ---------------------------------------------------------------------------
// The payload line
// ---------------------------------------------------------------------------

/// A signed 64-bit value shifted into the unsigned range, so that it can be
/// written as an unsigned number.
pub open spec fn offs64(n: i64) -> nat {
    (n + 0x8000000000000000) as nat
}

pub open spec fn hex_field(n: nat) -> Seq<char> {
    hexw(n, 16) + seq!['&']
}

pub open spec fn flag_field(b: bool) -> Seq<char> {
    seq![if b { '1' } else { '0' }, '&']
}

pub open spec fn enc_attempt(a: Option<crate::session::AttemptView>) -> Seq<char> {
    match a {
        Some(at) => flag_field(true) + field(at.pkce) + field(at.csrf),
        None => flag_field(false) + field(Seq::empty()) + field(Seq::empty()),
    }
}

pub open spec fn enc_user(u: Option<crate::session::UserRecordView>) -> Seq<char> {
    match u {
        Some(ur) => flag_field(true) + hex_field(ur.id as nat) + field(ur.subject) + field(
            ur.email,
        ) + field(ur.display_name) + hex_field(offs64(ur.created_at)) + hex_field(
            offs64(ur.updated_at),
        ),
        None => flag_field(false) + hex_field(0) + field(Seq::empty()) + field(Seq::empty())
            + field(Seq::empty()) + hex_field(0) + hex_field(0),
    }
}

/// The serialized form of a session payload.
pub open spec fn enc_data(d: crate::session::SessionDataView) -> Seq<char> {
    enc_attempt(d.attempt) + enc_user(d.user)
}

pub open spec fn parse_hex16(x: Seq<char>) -> Option<nat> {
    if x.len() == 16 {
        unhex(x)
    } else {
        None
    }
}

pub open spec fn dec_attempt(s: Seq<char>) -> Option<
    (Option<crate::session::AttemptView>, Seq<char>),
> {
    match take_field(s) {
        None => None,
        Some((f, s1)) => match take_field(s1) {
            None => None,
            Some((p, s2)) => match take_field(s2) {
                None => None,
                Some((c, s3)) => if f == seq!['1'] {
                    Some((Some(crate::session::AttemptView { pkce: p, csrf: c }), s3))
                } else if f == seq!['0'] {
                    Some((None, s3))
                } else {
                    None
                },
            },
        },
    }
}

pub open spec fn dec_user(s: Seq<char>) -> Option<
    (Option<crate::session::UserRecordView>, Seq<char>),
> {
    match take_field(s) {
        None => None,
        Some((f, s1)) => match take_field(s1) {
            None => None,
            Some((idx, s2)) => match take_field(s2) {
                None => None,
                Some((sub, s3)) => match take_field(s3) {
                    None => None,
                    Some((em, s4)) => match take_field(s4) {
                        None => None,
                        Some((nm, s5)) => match take_field(s5) {
                            None => None,
                            Some((cr, s6)) => match take_field(s6) {
                                None => None,
                                Some((up, s7)) => if f == seq!['1'] {
                                    match (parse_hex16(idx), parse_hex16(cr), parse_hex16(up)) {
                                        (Some(i), Some(c), Some(u)) => Some(
                                            (
                                                Some(
                                                    crate::session::UserRecordView {
                                                        id: i as u64,
                                                        subject: sub,
                                                        email: em,
                                                        display_name: nm,
                                                        created_at: (c - 0x8000000000000000) as i64,
                                                        updated_at: (u - 0x8000000000000000) as i64,
                                                    },
                                                ),
                                                s7,
                                            ),
                                        ),
                                        _ => None,
                                    }
                                } else if f == seq!['0'] {
                                    Some((None, s7))
                                } else {
                                    None
                                },
                            },
                        },
                    },
                },
            },
        },
    }
}

/// The payload a serialized line denotes, if it is well formed.
pub open spec fn dec_data(s: Seq<char>) -> Option<crate::session::SessionDataView> {
    match dec_attempt(s) {
        None => None,
        Some((a, s1)) => match dec_user(s1) {
            None => None,
            Some((u, s2)) => if s2.len() == 0 {
                Some(crate::session::SessionDataView { attempt: a, user: u })
            } else {
                None
            },
        },
    }
}

proof fn lemma_take_flag(b: bool, t: Seq<char>)
    ensures
        take_field(flag_field(b) + t) == Some((seq![if b { '1' } else { '0' }], t)),
{
    let ch = if b { '1' } else { '0' };
    assert(ch != '%' && ch != '&');
    let s1: Seq<char> = seq![ch];
    assert(s1.drop_first() =~= Seq::<char>::empty());
    assert(s1[0] == ch);
    assert(esc(s1) == esc_char(ch) + esc(s1.drop_first()));
    assert(esc(s1) =~= s1);
    lemma_take_field_encoded(s1, t);
    assert(field(s1) + t =~= flag_field(b) + t);
}

proof fn lemma_take_hex_field(n: nat, t: Seq<char>)
    ensures
        take_field(hex_field(n) + t) == Some((hexw(n, 16), t)),
{
    lemma_take_field_hex(n, t);
    assert((hexw(n, 16) + seq!['&']) + t =~= hex_field(n) + t);
}

proof fn lemma_dec_attempt_enc(a: Option<crate::session::AttemptView>, t: Seq<char>)
    ensures
        dec_attempt(enc_attempt(a) + t) == Some((a, t)),
{
    match a {
        Some(at) => {
            let s = enc_attempt(a) + t;
            assert(s =~= flag_field(true) + (field(at.pkce) + (field(at.csrf) + t)));
            lemma_take_flag(true, field(at.pkce) + (field(at.csrf) + t));
            lemma_take_field_encoded(at.pkce, field(at.csrf) + t);
            lemma_take_field_encoded(at.csrf, t);
        },
        None => {
            let s = enc_attempt(a) + t;
            assert(s =~= flag_field(false) + (field(Seq::empty()) + (field(Seq::empty()) + t)));
            lemma_take_flag(false, field(Seq::empty()) + (field(Seq::empty()) + t));
            lemma_take_field_encoded(Seq::empty(), field(Seq::empty()) + t);
            lemma_take_field_encoded(Seq::empty(), t);
            assert(seq!['0'][0] == '0' && seq!['1'][0] == '1');
            assert(seq![if false { '1' } else { '0' }] != seq!['1']);
        },
    }
}

proof fn lemma_dec_user_enc(u: Option<crate::session::UserRecordView>, t: Seq<char>)
    ensures
        dec_user(enc_user(u) + t) == Some((u, t)),
{
    match u {
        Some(ur) => {
            let s = enc_user(u) + t;
            let r6 = hex_field(offs64(ur.updated_at)) + t;
            let r5 = hex_field(offs64(ur.created_at)) + r6;
            let r4 = field(ur.display_name) + r5;
            let r3 = field(ur.email) + r4;
            let r2 = field(ur.subject) + r3;
            let r1 = hex_field(ur.id as nat) + r2;
            assert(s =~= flag_field(true) + r1);
            lemma_take_flag(true, r1);
            lemma_take_hex_field(ur.id as nat, r2);
            lemma_take_field_encoded(ur.subject, r3);
            lemma_take_field_encoded(ur.email, r4);
            lemma_take_field_encoded(ur.display_name, r5);
            lemma_take_hex_field(offs64(ur.created_at), r6);
            lemma_take_hex_field(offs64(ur.updated_at), t);
            assert(pow16(16) == 0x10000000000000000) by {
                reveal_with_fuel(pow16, 17);
            }
            lemma_hexw_len(ur.id as nat, 16);
            lemma_unhex_hexw(ur.id as nat, 16);
            lemma_unhex_hexw(offs64(ur.created_at), 16);
            lemma_unhex_hexw(offs64(ur.updated_at), 16);
            assert(parse_hex16(hexw(ur.id as nat, 16)) == Some(ur.id as nat)) by {
                lemma_hexw_len(ur.id as nat, 16);
            }
            assert(parse_hex16(hexw(offs64(ur.created_at), 16)) == Some(offs64(ur.created_at)))
                by {
                lemma_hexw_len(offs64(ur.created_at), 16);
            }
            assert(parse_hex16(hexw(offs64(ur.updated_at), 16)) == Some(offs64(ur.updated_at)))
                by {
                lemma_hexw_len(offs64(ur.updated_at), 16);
            }
            assert((ur.id as nat) as u64 == ur.id);
            assert((offs64(ur.created_at) - 0x8000000000000000) as i64 == ur.created_at);
            assert((offs64(ur.updated_at) - 0x8000000000000000) as i64 == ur.updated_at);
        },
        None => {
            let s = enc_user(u) + t;
            let r6 = hex_field(0) + t;
            let r5 = hex_field(0) + r6;
            let r4 = field(Seq::empty()) + r5;
            let r3 = field(Seq::empty()) + r4;
            let r2 = field(Seq::empty()) + r3;
            let r1 = hex_field(0) + r2;
            assert(s =~= flag_field(false) + r1);
            lemma_take_flag(false, r1);
            lemma_take_hex_field(0, r2);
            lemma_take_field_encoded(Seq::empty(), r3);
            lemma_take_field_encoded(Seq::empty(), r4);
            lemma_take_field_encoded(Seq::empty(), r5);
            lemma_take_hex_field(0, r6);
            lemma_take_hex_field(0, t);
            assert(seq!['0'][0] == '0' && seq!['1'][0] == '1');
            assert(seq![if false { '1' } else { '0' }] != seq!['1']);
        },
    }
}

/// Decoding inverts encoding: every payload is read back exactly as it was
/// written.
pub proof fn lemma_codec_round_trip(d: crate::session::SessionDataView)
    ensures
        dec_data(enc_data(d)) == Some(d),
{
    let s = enc_data(d);
    assert(s =~= enc_attempt(d.attempt) + (enc_user(d.user) + Seq::<char>::empty()));
    lemma_dec_attempt_enc(d.attempt, enc_user(d.user) + Seq::<char>::empty());
    assert(enc_user(d.user) + Seq::<char>::empty() =~= enc_user(d.user) + Seq::<char>::empty());
    lemma_dec_user_enc(d.user, Seq::<char>::empty());
}

// ---------------------------------------------------------------------------
// Executable encoding
// ---------------------------------------------------------------------------

proof fn lemma_esc_snoc(s: Seq<char>, i: int)
    requires
        0 <= i < s.len(),
    ensures
        esc(s.take(i + 1)) == esc(s.take(i)) + esc_char(s[i]),
    decreases i,
{
    if i == 0 {
        assert(s.take(1).drop_first() =~= Seq::<char>::empty());
        assert(s.take(1)[0] == s[0]);
        assert(esc(s.take(1)) == esc_char(s[0]) + esc(Seq::<char>::empty()));
        assert(s.take(0) =~= Seq::<char>::empty());
        assert(esc(s.take(1)) =~= esc(s.take(0)) + esc_char(s[0]));
    } else {
        let t = s.drop_first();
        lemma_esc_snoc(t, i - 1);
        assert(s.take(i + 1).drop_first() =~= t.take(i));
        assert(s.take(i).drop_first() =~= t.take(i - 1));
        assert(t[i - 1] == s[i]);
        assert(esc(s.take(i + 1)) == esc_char(s[0]) + esc(t.take(i)));
        assert(esc(s.take(i)) == esc_char(s[0]) + esc(t.take(i - 1)));
        assert(esc_char(s[0]) + (esc(t.take(i - 1)) + esc_char(s[i])) =~= (esc_char(s[0]) + esc(
            t.take(i - 1),
        )) + esc_char(s[i]));
    }
}

/// Appends one `&`-terminated, escaped string field.
fn push_field_str(out: &mut Vec<char>, s: &str)
    ensures
        final(out)@ == old(out)@ + field(s@),
{
    let n: usize = s.unicode_len();
    let mut i: usize = 0;
    while i < n
        invariant
            n == s@.len(),
            i <= n,
            out@ == old(out)@ + esc(s@.take(i as int)),
        decreases n - i,
    {
        let c = s.get_char(i);
        if c == '%' {
            out.push('%');
            out.push('p');
        } else if c == '&' {
            out.push('%');
            out.push('a');
        } else {
            out.push(c);
        }
        proof {
            lemma_esc_snoc(s@, i as int);
            assert(out@ =~= old(out)@ + esc(s@.take(i as int + 1)));
        }
        i = i + 1;
    }
    out.push('&');
    assert(s@.take(n as int) =~= s@);
    assert(final(out)@ =~= old(out)@ + field(s@));
}

/// Appends `n` in base 16, `w` digits wide.
fn push_hexw(out: &mut Vec<char>, n: u64, w: u8)
    ensures
        final(out)@ == old(out)@ + hexw(n as nat, w as nat),
    decreases w,
{
    if w > 0 {
        push_hexw(out, n / 16, w - 1);
        out.push(crate::text::hex_digit((n % 16) as u8));
        assert(final(out)@ =~= old(out)@ + hexw(n as nat, w as nat));
    } else {
        assert(final(out)@ =~= old(out)@ + hexw(n as nat, 0));
    }
}

/// Appends one `&`-terminated hexadecimal field.
fn push_hex_field(out: &mut Vec<char>, n: u64)
    ensures
        final(out)@ == old(out)@ + hex_field(n as nat),
{
    push_hexw(out, n, 16);
    out.push('&');
    assert(final(out)@ =~= old(out)@ + hex_field(n as nat));
}

/// Appends one `&`-terminated presence flag.
fn push_flag(out: &mut Vec<char>, b: bool)
    ensures
        final(out)@ == old(out)@ + flag_field(b),
{
    if b {
        out.push('1');
    } else {
        out.push('0');
    }
    out.push('&');
    assert(final(out)@ =~= old(out)@ + flag_field(b));
}

/// The signed-to-unsigned shift used for timestamps.
fn offs64_exec(n: i64) -> (r: u64)
    ensures
        r as nat == offs64(n),
{
    ((n as i128) + 0x8000000000000000) as u64
}

/// Serializes a session payload to its stored form.
pub fn encode_data(d: &crate::session::SessionData) -> (s: String)
    ensures
        s@ == enc_data(d@),
{
    let mut out: Vec<char> = Vec::new();
    match &d.attempt {
        Some(at) => {
            push_flag(&mut out, true);
            push_field_str(&mut out, at.pkce.as_str());
            push_field_str(&mut out, at.csrf.as_str());
        },
        None => {
            push_flag(&mut out, false);
            push_field_str(&mut out, "");
            push_field_str(&mut out, "");
        },
    }
    match &d.user {
        Some(u) => {
            push_flag(&mut out, true);
            push_hex_field(&mut out, u.id);
            push_field_str(&mut out, u.subject.as_str());
            push_field_str(&mut out, u.email.as_str());
            push_field_str(&mut out, u.display_name.as_str());
            push_hex_field(&mut out, offs64_exec(u.created_at));
            push_hex_field(&mut out, offs64_exec(u.updated_at));
        },
        None => {
            push_flag(&mut out, false);
            push_hex_field(&mut out, 0);
            push_field_str(&mut out, "");
            push_field_str(&mut out, "");
            push_field_str(&mut out, "");
            push_hex_field(&mut out, 0);
            push_hex_field(&mut out, 0);
        },
    }
    proof {
        reveal_strlit("");
        assert(""@ =~= Seq::<char>::empty());
        assert(out@ =~= enc_data(d@));
    }
    crate::text::chars_to_string(&out)
}

// ---------------------------------------------------------------------------
// Executable decoding
// ---------------------------------------------------------------------------

fn find_amp_at(v: &Vec<char>, pos: usize) -> (r: Option<usize>)
    requires
        pos <= v@.len(),
    ensures
        r is Some ==> pos <= r->0 < v@.len() && find_amp(v@.skip(pos as int)) == r->0 - pos,
        r is None ==> find_amp(v@.skip(pos as int)) == -1,
{
    let n = v.len();
    let mut i: usize = pos;
    while i < n
        invariant
            pos <= i <= n,
            n == v@.len(),
            forall|j: int| pos <= j < i ==> v@[j] != '&',
        decreases n - i,
    {
        if v[i] == '&' {
            proof {
                let s = v@.skip(pos as int);
                assert(s[i - pos] == '&');
                assert(forall|j: int| 0 <= j < i - pos ==> s[j] == v@[j + pos] && s[j] != '&');
                lemma_find_amp_is_first(s, i - pos);
            }
            return Some(i);
        }
        i = i + 1;
    }
    proof {
        let s = v@.skip(pos as int);
        assert(forall|j: int| 0 <= j < s.len() ==> s[j] == v@[j + pos] && s[j] != '&');
        lemma_find_amp_none(s);
    }
    None
}

fn unesc_range(v: &Vec<char>, from: usize, to: usize) -> (r: Option<Vec<char>>)
    requires
        from <= to <= v@.len(),
    ensures
        r is Some ==> unesc(v@.subrange(from as int, to as int)) == Some(r->0@),
        r is None ==> unesc(v@.subrange(from as int, to as int)) is None,
{
    let whole = Ghost(v@.subrange(from as int, to as int));
    let mut out: Vec<char> = Vec::new();
    let mut i: usize = from;
    while i < to
        invariant
            from <= i <= to <= v@.len(),
            whole@ == v@.subrange(from as int, to as int),
            match unesc(v@.subrange(i as int, to as int)) {
                Some(rest) => unesc(whole@) == Some(out@ + rest),
                None => unesc(whole@) is None,
            },
        decreases to - i,
    {
        let ghost s = v@.subrange(i as int, to as int);
        let c = v[i];
        assert(s[0] == c);
        if c == '%' {
            if i + 1 < to {
                let e = v[i + 1];
                assert(s[1] == e);
                if e == 'p' || e == 'a' {
                    out.push(if e == 'p' { '%' } else { '&' });
                    proof {
                        assert(s.skip(2) =~= v@.subrange(i as int + 2, to as int));
                    }
                    i = i + 2;
                } else {
                    assert(unesc(s) is None);
                    return None;
                }
            } else {
                assert(s.len() == 1);
                assert(unesc(s) is None);
                return None;
            }
        } else {
            out.push(c);
            proof {
                assert(s.drop_first() =~= v@.subrange(i as int + 1, to as int));
            }
            i = i + 1;
        }
    }
    proof {
        assert(v@.subrange(to as int, to as int) =~= Seq::<char>::empty());
        assert(unesc(whole@) == Some(out@ + Seq::<char>::empty()));
        assert(out@ + Seq::<char>::empty() =~= out@);
    }
    Some(out)
}

/// Splits off one field starting at `pos`: the unescaped content and the
/// position after the separator.
fn take_field_at(v: &Vec<char>, pos: usize) -> (r: Option<(Vec<char>, usize)>)
    requires
        pos <= v@.len(),
    ensures
        r is Some ==> {
            &&& pos < (r->0).1 <= v@.len()
            &&& take_field(v@.skip(pos as int)) == Some(
                ((r->0).0@, v@.skip((r->0).1 as int)),
            )
        },
        r is None ==> take_field(v@.skip(pos as int)) is None,
{
    match find_amp_at(v, pos) {
        None => None,
        Some(amp) => {
            let n = v.len();
            assert(amp < n);
            proof {
                assert(v@.skip(pos as int).take(amp - pos) =~= v@.subrange(
                    pos as int,
                    amp as int,
                ));
            }
            match unesc_range(v, pos, amp) {
                None => None,
                Some(x) => {
                    proof {
                        assert(v@.skip(pos as int).skip(amp - pos + 1) =~= v@.skip(
                            amp as int + 1,
                        ));
                    }
                    Some((x, amp + 1))
                },
            }
        },
    }
}

fn hex_val_exec(c: char) -> (d: Option<u8>)
    ensures
        d is Some ==> hex_val(c) == d->0 && d->0 < 16,
        d is None ==> hex_val(c) < 0,
{
    if c == '0' { Some(0) } else if c == '1' { Some(1) } else if c == '2' { Some(2) }
    else if c == '3' { Some(3) } else if c == '4' { Some(4) } else if c == '5' { Some(5) }
    else if c == '6' { Some(6) } else if c == '7' { Some(7) } else if c == '8' { Some(8) }
    else if c == '9' { Some(9) } else if c == 'A' { Some(10) } else if c == 'B' { Some(11) }
    else if c == 'C' { Some(12) } else if c == 'D' { Some(13) } else if c == 'E' { Some(14) }
    else if c == 'F' { Some(15) } else { None }
}

proof fn lemma_unhex_invalid(s: Seq<char>, i: int)
    requires
        0 <= i < s.len(),
        hex_val(s[i]) < 0,
    ensures
        unhex(s) is None,
    decreases s.len(),
{
    if i < s.len() - 1 {
        lemma_unhex_invalid(s.drop_last(), i);
    }
}

/// Reads a 16-digit hexadecimal field.
fn parse_hex_vec(x: &Vec<char>) -> (r: Option<u64>)
    ensures
        r is Some ==> parse_hex16(x@) == Some(r->0 as nat),
        r is None ==> parse_hex16(x@) is None,
{
    if x.len() != 16 {
        return None;
    }
    let mut acc: u64 = 0;
    let mut i: usize = 0;
    proof {
        assert(x@.take(0) =~= Seq::<char>::empty());
    }
    while i < 16
        invariant
            i <= 16,
            x@.len() == 16,
            unhex(x@.take(i as int)) == Some(acc as nat),
            (acc as nat) < pow16(i as nat),
        decreases 16 - i,
    {
        let c = x[i];
        match hex_val_exec(c) {
            None => {
                proof {
                    lemma_unhex_invalid(x@, i as int);
                }
                return None;
            },
            Some(d) => {
                proof {
                    assert(pow16(16) == 0x10000000000000000) by {
                        reveal_with_fuel(pow16, 17);
                    }
                    lemma_pow16_mono(i as nat + 1, 16);
                    assert(16 * pow16(i as nat) == pow16(i as nat + 1));
                    assert(acc as nat * 16 + 15 < 16 * pow16(i as nat)) by (nonlinear_arith)
                        requires
                            (acc as nat) < pow16(i as nat),
                    {
                    }
                }
                acc = acc * 16 + (d as u64);
                proof {
                    assert(x@.take(i as int + 1).drop_last() =~= x@.take(i as int));
                    assert(x@.take(i as int + 1).last() == c);
                }
                i = i + 1;
            },
        }
    }
    proof {
        assert(x@.take(16) =~= x@);
    }
    Some(acc)
}

/// Reads back a serialized session payload; a malformed line yields nothing.
pub fn decode_data(blob: &str) -> (r: Option<crate::session::SessionData>)
    ensures
        r is Some ==> dec_data(blob@) == Some(r->0@),
        r is None ==> dec_data(blob@) is None,
{
    let v = crate::text::str_to_chars(blob);
    proof {
        assert(v@.skip(0) =~= v@);
    }
    let Some((f1, p1)) = take_field_at(&v, 0) else { return None };
    let Some((pk, p2)) = take_field_at(&v, p1) else { return None };
    let Some((cs, p3)) = take_field_at(&v, p2) else { return None };
    let attempt: Option<crate::oauth::LoginAttempt> = if f1.len() == 1 && f1[0] == '1' {
        assert(f1@ =~= seq!['1']);
        Some(
            crate::oauth::LoginAttempt {
                pkce: crate::text::chars_to_string(&pk),
                csrf: crate::text::chars_to_string(&cs),
            },
        )
    } else if f1.len() == 1 && f1[0] == '0' {
        assert(f1@ =~= seq!['0']);
        None
    } else {
        assert(f1@ != seq!['1'] && f1@ != seq!['0']) by {
            assert(seq!['1'].len() == 1 && seq!['1'][0] == '1');
            assert(seq!['0'].len() == 1 && seq!['0'][0] == '0');
        }
        return None;
    };
    let Some((f2, q1)) = take_field_at(&v, p3) else { return None };
    let Some((idx, q2)) = take_field_at(&v, q1) else { return None };
    let Some((sub, q3)) = take_field_at(&v, q2) else { return None };
    let Some((em, q4)) = take_field_at(&v, q3) else { return None };
    let Some((nm, q5)) = take_field_at(&v, q4) else { return None };
    let Some((cr, q6)) = take_field_at(&v, q5) else { return None };
    let Some((up, q7)) = take_field_at(&v, q6) else { return None };
    let user: Option<crate::session::UserRecord> = if f2.len() == 1 && f2[0] == '1' {
        assert(f2@ =~= seq!['1']);
        let Some(idv) = parse_hex_vec(&idx) else { return None };
        let Some(crv) = parse_hex_vec(&cr) else { return None };
        let Some(upv) = parse_hex_vec(&up) else { return None };
        Some(
            crate::session::UserRecord {
                id: idv,
                subject: crate::text::chars_to_string(&sub),
                email: crate::text::chars_to_string(&em),
                display_name: crate::text::chars_to_string(&nm),
                created_at: ((crv as i128) - 0x8000000000000000) as i64,
                updated_at: ((upv as i128) - 0x8000000000000000) as i64,
            },
        )
    } else if f2.len() == 1 && f2[0] == '0' {
        assert(f2@ =~= seq!['0']);
        None
    } else {
        assert(f2@ != seq!['1'] && f2@ != seq!['0']) by {
            assert(seq!['1'].len() == 1 && seq!['1'][0] == '1');
            assert(seq!['0'].len() == 1 && seq!['0'][0] == '0');
        }
        return None;
    };
    if q7 != v.len() {
        assert(v@.skip(q7 as int).len() > 0);
        return None;
    }
    assert(v@.skip(q7 as int).len() == 0);
    Some(crate::session::SessionData { attempt, user })
}

} // verus!
