//! The claims payload format: a JSON object holding the fields of
//! [`Claims`] in a fixed order, with the two string fields escaped as JSON
//! demands. The serializer and the parser are both verified, and parsing a
//! serialized claims value is proved to give the value back.

use vstd::prelude::*;
use vstd::string::{StrSliceExecFns, StringExecFns};
use crate::claims::{Claims, ClaimsView, TokenType};

verus! {

// ---------- characters and digits ----------

/// Decimal digit character for a value below ten.
pub open spec fn digit_char(d: int) -> char {
    if d == 0 {
        '0'
    } else if d == 1 {
        '1'
    } else if d == 2 {
        '2'
    } else if d == 3 {
        '3'
    } else if d == 4 {
        '4'
    } else if d == 5 {
        '5'
    } else if d == 6 {
        '6'
    } else if d == 7 {
        '7'
    } else if d == 8 {
        '8'
    } else {
        '9'
    }
}

/// Lowercase hexadecimal digit character for a value below sixteen.
pub open spec fn hex_char(d: int) -> char {
    if d < 10 {
        digit_char(d)
    } else if d == 10 {
        'a'
    } else if d == 11 {
        'b'
    } else if d == 12 {
        'c'
    } else if d == 13 {
        'd'
    } else if d == 14 {
        'e'
    } else {
        'f'
    }
}

pub open spec fn is_dec_digit(c: char) -> bool {
    48 <= c as u32 <= 57
}

pub open spec fn dec_digit_val(c: char) -> int {
    c as u32 - 48
}

pub open spec fn is_hex_lower(c: char) -> bool {
    is_dec_digit(c) || 97 <= c as u32 <= 102
}

pub open spec fn hex_val(c: char) -> int {
    if is_dec_digit(c) {
        dec_digit_val(c)
    } else {
        c as u32 - 87
    }
}

// ---------- decimal numbers ----------

/// Decimal digit string of a non-negative number.
pub open spec fn dec_str(n: int) -> Seq<char>
    decreases n,
{
    if n < 10 {
        seq![digit_char(n)]
    } else {
        dec_str(n / 10).push(digit_char(n % 10))
    }
}

/// Value of a digit string, most significant digit first.
pub open spec fn dec_val(ds: Seq<char>) -> int
    decreases ds.len(),
{
    if ds.len() == 0 {
        0
    } else {
        dec_val(ds.drop_last()) * 10 + dec_digit_val(ds.last())
    }
}

pub open spec fn all_dec_digits(ds: Seq<char>) -> bool {
    forall|k: int| 0 <= k < ds.len() ==> is_dec_digit(#[trigger] ds[k])
}

/// Length of the run of decimal digits that starts the sequence.
pub open spec fn digits_len(s: Seq<char>) -> int
    decreases s.len(),
{
    if s.len() > 0 && is_dec_digit(s[0]) {
        1 + digits_len(s.drop_first())
    } else {
        0
    }
}

/// Scan a decimal number from the front; values above `i64::MAX` are
/// rejected rather than wrapped.
pub open spec fn scan_num(s: Seq<char>) -> Option<(int, Seq<char>)> {
    let k = digits_len(s);
    if k == 0 {
        None
    } else {
        let v = dec_val(s.take(k));
        if v > i64::MAX {
            None
        } else {
            Some((v, s.skip(k)))
        }
    }
}

// ---------- JSON string escaping ----------

/// How one character appears inside a JSON string: quotes and backslashes
/// get a backslash escape, control characters a `\u00XX` escape, and every
/// other character stands as itself.
pub open spec fn esc_char(c: char) -> Seq<char> {
    if c == '"' {
        seq!['\\', '"']
    } else if c == '\\' {
        seq!['\\', '\\']
    } else if (c as u32) < 32 {
        seq!['\\', 'u', '0', '0', hex_char(c as u32 as int / 16), hex_char(c as u32 as int % 16)]
    } else {
        seq![c]
    }
}

pub open spec fn esc_str(s: Seq<char>) -> Seq<char>
    decreases s.len(),
{
    if s.len() == 0 {
        Seq::empty()
    } else {
        esc_char(s[0]) + esc_str(s.drop_first())
    }
}

pub open spec fn cons_scan(c: char, r: Option<(Seq<char>, Seq<char>)>) -> Option<
    (Seq<char>, Seq<char>),
> {
    match r {
        Some(p) => Some((seq![c] + p.0, p.1)),
        None => None,
    }
}

/// Scan the body of a JSON string up to and including its closing quote,
/// understanding exactly the escapes that [`esc_char`] produces.
pub open spec fn scan_qstr(s: Seq<char>) -> Option<(Seq<char>, Seq<char>)>
    decreases s.len(),
{
    if s.len() == 0 {
        None
    } else if s[0] == '"' {
        Some((Seq::empty(), s.drop_first()))
    } else if s[0] == '\\' {
        if s.len() >= 2 && (s[1] == '"' || s[1] == '\\') {
            cons_scan(s[1], scan_qstr(s.skip(2)))
        } else if s.len() >= 6 && s[1] == 'u' && s[2] == '0' && s[3] == '0' && is_hex_lower(s[4])
            && is_hex_lower(s[5]) {
            cons_scan(((hex_val(s[4]) * 16 + hex_val(s[5])) as u32) as char, scan_qstr(s.skip(6)))
        } else {
            None
        }
    } else {
        cons_scan(s[0], scan_qstr(s.skip(1)))
    }
}

// ---------- fixed pieces of the payload ----------

pub open spec fn expect_seq(s: Seq<char>, lit: Seq<char>) -> Option<Seq<char>> {
    if lit.is_prefix_of(s) {
        Some(s.skip(lit.len() as int))
    } else {
        None
    }
}

pub open spec fn bool_str(b: bool) -> Seq<char> {
    if b {
        "true"@
    } else {
        "false"@
    }
}

pub open spec fn kind_str(t: TokenType) -> Seq<char> {
    match t {
        TokenType::Access => "access"@,
        TokenType::Refresh => "refresh"@,
    }
}

pub open spec fn scan_bool(s: Seq<char>) -> Option<(bool, Seq<char>)> {
    match expect_seq(s, "true"@) {
        Some(r) => Some((true, r)),
        None => match expect_seq(s, "false"@) {
            Some(r) => Some((false, r)),
            None => None,
        },
    }
}

pub open spec fn scan_kind(s: Seq<char>) -> Option<(TokenType, Seq<char>)> {
    match expect_seq(s, "access"@) {
        Some(r) => Some((TokenType::Access, r)),
        None => match expect_seq(s, "refresh"@) {
            Some(r) => Some((TokenType::Refresh, r)),
            None => None,
        },
    }
}

// ---------- the payload and its parse ----------

/// The serialized payload of a claims value.
pub open spec fn payload_spec(c: ClaimsView) -> Seq<char> {
    "{\"sub\":\""@ + (esc_str(c.sub) + (seq!['"'] + (",\"username\":\""@ + (esc_str(c.username) + (
    seq!['"'] + (",\"is_admin\":"@ + (bool_str(c.is_admin) + (",\"exp\":"@ + (dec_str(c.exp) + (
    ",\"iat\":"@ + (dec_str(c.iat) + (",\"token_type\":\""@ + (kind_str(c.token_type)
        + "\"}"@)))))))))))))
}

/// Parse a payload back into a claims value; `None` for anything that is
/// not exactly the canonical form.
pub open spec fn parse_claims(p: Seq<char>) -> Option<ClaimsView> {
    match expect_seq(p, "{\"sub\":\""@) {
        None => None,
        Some(r1) => match scan_qstr(r1) {
            None => None,
            Some((sub, r2)) => match expect_seq(r2, ",\"username\":\""@) {
                None => None,
                Some(r3) => match scan_qstr(r3) {
                    None => None,
                    Some((username, r4)) => match expect_seq(r4, ",\"is_admin\":"@) {
                        None => None,
                        Some(r5) => match scan_bool(r5) {
                            None => None,
                            Some((is_admin, r6)) => match expect_seq(r6, ",\"exp\":"@) {
                                None => None,
                                Some(r7) => match scan_num(r7) {
                                    None => None,
                                    Some((exp, r8)) => match expect_seq(r8, ",\"iat\":"@) {
                                        None => None,
                                        Some(r9) => match scan_num(r9) {
                                            None => None,
                                            Some((iat, r10)) => match expect_seq(
                                                r10,
                                                ",\"token_type\":\""@,
                                            ) {
                                                None => None,
                                                Some(r11) => match scan_kind(r11) {
                                                    None => None,
                                                    Some((token_type, r12)) => match expect_seq(r12, "\"}"@) {
                                                        None => None,
                                                        Some(r13) => if r13.len() == 0 {
                                                            Some(
                                                                ClaimsView {
                                                                    sub,
                                                                    username,
                                                                    is_admin,
                                                                    exp,
                                                                    iat,
                                                                    token_type,
                                                                },
                                                            )
                                                        } else {
                                                            None
                                                        },
                                                    },
                                                },
                                            },
                                        },
                                    },
                                },
                            },
                        },
                    },
                },
            },
        },
    }
}


// ---------- round-trip lemmas ----------

proof fn lemma_expect_concat(lit: Seq<char>, rest: Seq<char>)
    ensures
        expect_seq(lit + rest, lit) == Some(rest),
{
    assert(lit =~= (lit + rest).subrange(0, lit.len() as int));
    assert((lit + rest).skip(lit.len() as int) =~= rest);
}

proof fn lemma_dec_str_digits(n: int)
    requires
        0 <= n,
    ensures
        all_dec_digits(dec_str(n)),
        dec_str(n).len() >= 1,
        dec_val(dec_str(n)) == n,
    decreases n,
{
    if n < 10 {
        assert(seq![digit_char(n)].drop_last() =~= Seq::<char>::empty());
        assert(dec_val(Seq::<char>::empty()) == 0);
        assert(seq![digit_char(n)].last() == digit_char(n));
        assert(dec_val(seq![digit_char(n)]) == dec_digit_val(digit_char(n)));
        assert(dec_digit_val(digit_char(n)) == n);
    } else {
        lemma_dec_str_digits(n / 10);
        let pre = dec_str(n / 10);
        let d = digit_char(n % 10);
        assert(dec_str(n) == pre.push(d));
        assert(pre.push(d).drop_last() =~= pre);
        assert(pre.push(d).last() == d);
        assert(dec_val(pre.push(d)) == dec_val(pre) * 10 + dec_digit_val(d));
        assert(dec_digit_val(d) == n % 10);
        assert(n == (n / 10) * 10 + n % 10);
        assert forall|k: int| 0 <= k < dec_str(n).len() implies is_dec_digit(
            #[trigger] dec_str(n)[k],
        ) by {
            if k < pre.len() {
                assert(dec_str(n)[k] == pre[k]);
            } else {
                assert(dec_str(n)[k] == d);
            }
        }
    }
}

proof fn lemma_digits_len_concat(a: Seq<char>, rest: Seq<char>)
    requires
        all_dec_digits(a),
        rest.len() == 0 || !is_dec_digit(rest[0]),
    ensures
        digits_len(a + rest) == a.len(),
        (a + rest).take(a.len() as int) =~= a,
        (a + rest).skip(a.len() as int) =~= rest,
    decreases a.len(),
{
    if a.len() == 0 {
        assert(a + rest =~= rest);
    } else {
        assert(is_dec_digit(a[0]));
        assert(all_dec_digits(a.drop_first())) by {
            assert(forall|k: int|
                0 <= k < a.drop_first().len() ==> #[trigger] a.drop_first()[k] == a[k + 1]);
        }
        lemma_digits_len_concat(a.drop_first(), rest);
        assert((a + rest).drop_first() =~= a.drop_first() + rest);
        assert((a + rest)[0] == a[0]);
    }
}

proof fn lemma_scan_dec(n: int, rest: Seq<char>)
    requires
        0 <= n <= i64::MAX,
        rest.len() == 0 || !is_dec_digit(rest[0]),
    ensures
        scan_num(dec_str(n) + rest) == Some((n, rest)),
{
    lemma_dec_str_digits(n);
    lemma_digits_len_concat(dec_str(n), rest);
}

proof fn lemma_hex_char_props(d: int)
    requires
        0 <= d < 16,
    ensures
        is_hex_lower(hex_char(d)),
        hex_val(hex_char(d)) == d,
{
}

proof fn lemma_scan_esc(s: Seq<char>, rest: Seq<char>)
    ensures
        scan_qstr(esc_str(s) + (seq!['"'] + rest)) == Some((s, rest)),
    decreases s.len(),
{
    let total = esc_str(s) + (seq!['"'] + rest);
    if s.len() == 0 {
        assert(total =~= seq!['"'] + rest);
        assert(total[0] == '"');
        assert(total.drop_first() =~= rest);
        assert(Seq::<char>::empty() =~= s);
    } else {
        let c = s[0];
        let t = s.drop_first();
        lemma_scan_esc(t, rest);
        let sub_total = esc_str(t) + (seq!['"'] + rest);
        assert(esc_str(s) == esc_char(c) + esc_str(t));
        assert(seq![c] + t =~= s);
        if c == '"' {
            assert(total =~= seq!['\\', '"'] + sub_total);
            assert(total.skip(2) =~= sub_total);
            assert(scan_qstr(total) == cons_scan('"', scan_qstr(sub_total)));
        } else if c == '\\' {
            assert(total =~= seq!['\\', '\\'] + sub_total);
            assert(total.skip(2) =~= sub_total);
            assert(scan_qstr(total) == cons_scan('\\', scan_qstr(sub_total)));
        } else if (c as u32) < 32 {
            let v = c as u32 as int;
            lemma_hex_char_props(v / 16);
            lemma_hex_char_props(v % 16);
            assert(total =~= seq!['\\', 'u', '0', '0', hex_char(v / 16), hex_char(v % 16)]
                + sub_total);
            assert(total.skip(6) =~= sub_total);
            assert(hex_val(total[4]) * 16 + hex_val(total[5]) == v);
            vstd::utf8::char_u32_cast(c, c as u32);
            assert(((v as u32) as char) == c);
            assert(scan_qstr(total) == cons_scan(c, scan_qstr(sub_total)));
        } else {
            assert(total =~= seq![c] + sub_total);
            assert(total[0] == c);
            assert(total.skip(1) =~= sub_total);
            assert(scan_qstr(total) == cons_scan(c, scan_qstr(sub_total)));
        }
    }
}

proof fn lemma_scan_bool(b: bool, rest: Seq<char>)
    ensures
        scan_bool(bool_str(b) + rest) == Some((b, rest)),
{
    reveal_strlit("true");
    reveal_strlit("false");
    if b {
        lemma_expect_concat("true"@, rest);
    } else {
        assert(!"true"@.is_prefix_of("false"@ + rest)) by {
            assert(("false"@ + rest)[0] == 'f');
        }
        lemma_expect_concat("false"@, rest);
    }
}

proof fn lemma_scan_kind(t: TokenType, rest: Seq<char>)
    ensures
        scan_kind(kind_str(t) + rest) == Some((t, rest)),
{
    reveal_strlit("access");
    reveal_strlit("refresh");
    match t {
        TokenType::Access => {
            lemma_expect_concat("access"@, rest);
        },
        TokenType::Refresh => {
            assert(!"access"@.is_prefix_of("refresh"@ + rest)) by {
                assert(("refresh"@ + rest)[0] == 'r');
            }
            lemma_expect_concat("refresh"@, rest);
        },
    }
}

/// Parsing the serialized payload of a well-formed claims value gives the
/// value back: the claims codec loses nothing.
pub proof fn lemma_parse_payload(c: ClaimsView)
    requires
        c.wf(),
    ensures
        parse_claims(payload_spec(c)) == Some(c),
{
    let rest13 = Seq::<char>::empty();
    let rest12 = "\"}"@;
    let rest11 = kind_str(c.token_type) + rest12;
    let rest10 = ",\"token_type\":\""@ + rest11;
    let rest9 = dec_str(c.iat) + rest10;
    let rest8 = ",\"iat\":"@ + rest9;
    let rest7 = dec_str(c.exp) + rest8;
    let rest6 = ",\"exp\":"@ + rest7;
    let rest5 = bool_str(c.is_admin) + rest6;
    let rest4 = ",\"is_admin\":"@ + rest5;
    let rest3 = esc_str(c.username) + (seq!['"'] + rest4);
    let rest2 = ",\"username\":\""@ + rest3;
    let rest1 = esc_str(c.sub) + (seq!['"'] + rest2);
    assert(payload_spec(c) == "{\"sub\":\""@ + rest1);
    lemma_expect_concat("{\"sub\":\""@, rest1);
    lemma_scan_esc(c.sub, rest2);
    lemma_expect_concat(",\"username\":\""@, rest3);
    lemma_scan_esc(c.username, rest4);
    lemma_expect_concat(",\"is_admin\":"@, rest5);
    lemma_scan_bool(c.is_admin, rest6);
    lemma_expect_concat(",\"exp\":"@, rest7);
    reveal_strlit(",\"iat\":");
    reveal_strlit(",\"token_type\":\"");
    assert(rest8[0] == ',' && !is_dec_digit(','));
    lemma_scan_dec(c.exp, rest8);
    lemma_expect_concat(",\"iat\":"@, rest9);
    assert(rest10[0] == ',');
    lemma_scan_dec(c.iat, rest10);
    lemma_expect_concat(",\"token_type\":\""@, rest11);
    lemma_scan_kind(c.token_type, rest12);
    assert(rest12 =~= "\"}"@ + rest13);
    lemma_expect_concat("\"}"@, rest13);
    assert(parse_claims(payload_spec(c)) == Some(
        ClaimsView {
            sub: c.sub,
            username: c.username,
            is_admin: c.is_admin,
            exp: c.exp,
            iat: c.iat,
            token_type: c.token_type,
        },
    ));
}

// ---------- more digit lemmas (for the executable scanner) ----------

proof fn lemma_dec_val_nonneg(ds: Seq<char>)
    requires
        all_dec_digits(ds),
    ensures
        dec_val(ds) >= 0,
    decreases ds.len(),
{
    if ds.len() > 0 {
        assert(all_dec_digits(ds.drop_last())) by {
            assert(forall|k: int|
                0 <= k < ds.drop_last().len() ==> #[trigger] ds.drop_last()[k] == ds[k]);
        }
        lemma_dec_val_nonneg(ds.drop_last());
    }
}

proof fn lemma_dec_val_mono(s: Seq<char>, l: int, m: int)
    requires
        0 <= l <= m <= s.len(),
        forall|k: int| 0 <= k < m ==> is_dec_digit(#[trigger] s[k]),
    ensures
        dec_val(s.take(l)) <= dec_val(s.take(m)),
    decreases m - l,
{
    if l < m {
        lemma_dec_val_mono(s, l, m - 1);
        assert(s.take(m).drop_last() =~= s.take(m - 1));
        assert(all_dec_digits(s.take(m - 1))) by {
            assert(forall|k: int|
                0 <= k < s.take(m - 1).len() ==> #[trigger] s.take(m - 1)[k] == s[k]);
        }
        lemma_dec_val_nonneg(s.take(m - 1));
        assert(dec_val(s.take(m)) == dec_val(s.take(m - 1)) * 10 + dec_digit_val(s.take(m).last()));
        assert(is_dec_digit(s[m - 1]));
        assert(dec_digit_val(s[m - 1]) >= 0);
    }
}

proof fn lemma_digits_len_props(s: Seq<char>)
    ensures
        0 <= digits_len(s) <= s.len(),
        forall|k: int| 0 <= k < digits_len(s) ==> is_dec_digit(#[trigger] s[k]),
        digits_len(s) == s.len() || !is_dec_digit(s[digits_len(s)]),
    decreases s.len(),
{
    if s.len() > 0 && is_dec_digit(s[0]) {
        lemma_digits_len_props(s.drop_first());
        let d = digits_len(s);
        assert(d == 1 + digits_len(s.drop_first()));
        assert(forall|k: int| 0 <= k < d ==> is_dec_digit(#[trigger] s[k])) by {
            assert(forall|k: int|
                1 <= k < d ==> #[trigger] s[k] == s.drop_first()[k - 1]);
        }
        if d < s.len() {
            assert(s[d] == s.drop_first()[d - 1]);
        }
    }
}

proof fn lemma_digits_len_lower(s: Seq<char>, m: int)
    requires
        0 <= m <= s.len(),
        forall|k: int| 0 <= k < m ==> is_dec_digit(#[trigger] s[k]),
    ensures
        digits_len(s) >= m,
    decreases m,
{
    if m > 0 {
        assert(is_dec_digit(s[0]));
        assert(forall|k: int|
            0 <= k < m - 1 ==> #[trigger] s.drop_first()[k] == s[k + 1]);
        assert(forall|k: int| 0 <= k < m - 1 ==> is_dec_digit(#[trigger] s.drop_first()[k]));
        lemma_digits_len_lower(s.drop_first(), m - 1);
        assert(digits_len(s) == 1 + digits_len(s.drop_first()));
    } else {
        lemma_digits_len_props(s);
    }
}

proof fn lemma_esc_str_concat(a: Seq<char>, b: Seq<char>)
    ensures
        esc_str(a + b) == esc_str(a) + esc_str(b),
    decreases a.len(),
{
    if a.len() == 0 {
        assert(a + b =~= b);
        assert(esc_str(a) + esc_str(b) =~= esc_str(b));
    } else {
        lemma_esc_str_concat(a.drop_first(), b);
        assert((a + b).drop_first() =~= a.drop_first() + b);
        assert((a + b)[0] == a[0]);
        assert(esc_char(a[0]) + (esc_str(a.drop_first()) + esc_str(b)) =~= (esc_char(a[0])
            + esc_str(a.drop_first())) + esc_str(b));
    }
}

proof fn lemma_esc_str_snoc(s: Seq<char>, i: int)
    requires
        0 <= i < s.len(),
    ensures
        esc_str(s.take(i + 1)) == esc_str(s.take(i)) + esc_char(s[i]),
{
    assert(s.take(i + 1) =~= s.take(i) + seq![s[i]]);
    lemma_esc_str_concat(s.take(i), seq![s[i]]);
    assert(seq![s[i]].drop_first() =~= Seq::<char>::empty());
    assert(esc_str(Seq::<char>::empty()) =~= Seq::<char>::empty());
    assert(esc_str(seq![s[i]]) == esc_char(s[i]) + esc_str(seq![s[i]].drop_first()));
    assert(esc_char(s[i]) + Seq::<char>::empty() =~= esc_char(s[i]));
}

// ---------- executable serializer ----------

/// Relies on String::push: appends the given character to the end.
#[verifier::external_body]
pub(crate) fn push_char(s: &mut String, c: char)
    ensures
        final(s)@ == old(s)@.push(c),
{
    s.push(c);
}

fn digit_char_exec(d: u8) -> (c: char)
    requires
        d < 10,
    ensures
        c == digit_char(d as int),
{
    (48 + d) as char
}

fn hex_char_exec(d: u8) -> (c: char)
    requires
        d < 16,
    ensures
        c == hex_char(d as int),
{
    if d < 10 {
        (48 + d) as char
    } else {
        (87 + d) as char
    }
}

fn append_escaped(out: &mut String, s: &str)
    ensures
        final(out)@ == old(out)@ + esc_str(s@),
{
    let n = s.unicode_len();
    let mut i: usize = 0;
    proof {
        assert(s@.take(0) =~= Seq::<char>::empty());
        assert(old(out)@ + esc_str(s@.take(0)) =~= old(out)@);
    }
    while i < n
        invariant
            n == s@.len(),
            i <= n,
            out@ == old(out)@ + esc_str(s@.take(i as int)),
        decreases n - i,
    {
        let c = s.get_char(i);
        if c == '"' {
            push_char(out, '\\');
            push_char(out, '"');
        } else if c == '\\' {
            push_char(out, '\\');
            push_char(out, '\\');
        } else if (c as u32) < 32 {
            let v = c as u32;
            push_char(out, '\\');
            push_char(out, 'u');
            push_char(out, '0');
            push_char(out, '0');
            push_char(out, hex_char_exec((v / 16) as u8));
            push_char(out, hex_char_exec((v % 16) as u8));
        } else {
            push_char(out, c);
        }
        proof {
            lemma_esc_str_snoc(s@, i as int);
            assert(out@ =~= old(out)@ + esc_str(s@.take(i as int + 1)));
        }
        i += 1;
    }
    proof {
        assert(s@.take(n as int) =~= s@);
    }
}

fn append_dec(out: &mut String, n: i64)
    requires
        0 <= n,
    ensures
        final(out)@ == old(out)@ + dec_str(n as int),
    decreases n,
{
    if n < 10 {
        push_char(out, digit_char_exec(n as u8));
        proof {
            assert(old(out)@.push(digit_char(n as int)) =~= old(out)@ + dec_str(n as int));
        }
    } else {
        append_dec(out, n / 10);
        push_char(out, digit_char_exec((n % 10) as u8));
        proof {
            assert((old(out)@ + dec_str(n as int / 10)).push(digit_char(n as int % 10)) =~= old(
                out,
            )@ + dec_str(n as int));
        }
    }
}

/// Serialize a claims value into its canonical payload text.
#[verifier::rlimit(100)]
pub fn claims_payload(c: &Claims) -> (r: String)
    requires
        c@.wf(),
    ensures
        r@ == payload_spec(c@),
{
    let mut out = String::new();
    out.append("{\"sub\":\"");
    append_escaped(&mut out, c.sub.as_str());
    push_char(&mut out, '"');
    out.append(",\"username\":\"");
    append_escaped(&mut out, c.username.as_str());
    push_char(&mut out, '"');
    out.append(",\"is_admin\":");
    if c.is_admin {
        out.append("true");
    } else {
        out.append("false");
    }
    out.append(",\"exp\":");
    append_dec(&mut out, c.exp);
    out.append(",\"iat\":");
    append_dec(&mut out, c.iat);
    out.append(",\"token_type\":\"");
    match c.token_type {
        TokenType::Access => out.append("access"),
        TokenType::Refresh => out.append("refresh"),
    }
    out.append("\"}");
    proof {
        assert(out@ =~= payload_spec(c@));
    }
    out
}

// ---------- executable parser ----------

fn is_hex_lower_exec(c: char) -> (r: bool)
    ensures
        r == is_hex_lower(c),
{
    let u = c as u32;
    (48 <= u && u <= 57) || (97 <= u && u <= 102)
}

fn hex_val_exec(c: char) -> (v: u32)
    requires
        is_hex_lower(c),
    ensures
        v as int == hex_val(c),
        v < 16,
{
    let u = c as u32;
    if u <= 57 {
        u - 48
    } else {
        u - 87
    }
}

fn eat_lit(s: &str, n: usize, start: usize, lit: &str) -> (r: Option<usize>)
    requires
        n == s@.len(),
        start <= n,
    ensures
        match r {
            Some(j) => start <= j <= n && expect_seq(s@.skip(start as int), lit@) == Some(
                s@.skip(j as int),
            ),
            None => expect_seq(s@.skip(start as int), lit@) is None,
        },
{
    let m = lit.unicode_len();
    if n - start < m {
        return None;
    }
    let mut k: usize = 0;
    while k < m
        invariant
            k <= m,
            m == lit@.len(),
            n == s@.len(),
            start <= n,
            m <= n - start,
            forall|t: int| 0 <= t < k ==> s@[start + t] == lit@[t],
        decreases m - k,
    {
        let a = s.get_char(start + k);
        let b = lit.get_char(k);
        if a != b {
            proof {
                assert(!lit@.is_prefix_of(s@.skip(start as int))) by {
                    assert(s@.skip(start as int).subrange(0, lit@.len() as int)[k as int] == s@[
                        start + k]);
                }
            }
            return None;
        }
        k += 1;
    }
    proof {
        assert(lit@ =~= s@.skip(start as int).subrange(0, m as int)) by {
            assert(forall|t: int|
                0 <= t < m ==> s@.skip(start as int).subrange(0, m as int)[t] == s@[start + t]);
        }
        assert(s@.skip(start as int).skip(m as int) =~= s@.skip(start as int + m as int));
    }
    Some(start + m)
}

fn scan_qstr_exec(s: &str, n: usize, start: usize) -> (r: Option<(String, usize)>)
    requires
        n == s@.len(),
        start <= n,
    ensures
        match r {
            Some(p) => start <= p.1 <= n && scan_qstr(s@.skip(start as int)) == Some(
                (p.0@, s@.skip(p.1 as int)),
            ),
            None => scan_qstr(s@.skip(start as int)) is None,
        },
{
    let mut acc = String::new();
    let mut j: usize = start;
    loop
        invariant
            start <= j <= n,
            n == s@.len(),
            ({
                let tail = scan_qstr(s@.skip(j as int));
                &&& (tail is Some ==> scan_qstr(s@.skip(start as int)) == Some(
                    (acc@ + tail.unwrap().0, tail.unwrap().1),
                ))
                &&& (tail is None ==> scan_qstr(s@.skip(start as int)) is None)
            }),
        decreases n - j,
    {
        if j == n {
            proof {
                assert(s@.skip(j as int).len() == 0);
            }
            return None;
        }
        let c = s.get_char(j);
        proof {
            assert(s@.skip(j as int)[0] == s@[j as int]);
        }
        if c == '"' {
            proof {
                assert(s@.skip(j as int).drop_first() =~= s@.skip(j as int + 1));
                assert(acc@ + Seq::<char>::empty() =~= acc@);
            }
            return Some((acc, j + 1));
        } else if c == '\\' {
            if n - j < 2 {
                proof {
                    assert(s@.skip(j as int).len() == 1);
                }
                return None;
            }
            let c2 = s.get_char(j + 1);
            proof {
                assert(s@.skip(j as int)[1] == s@[j as int + 1]);
            }
            if c2 == '"' || c2 == '\\' {
                let ghost pre = acc@;
                push_char(&mut acc, c2);
                proof {
                    assert(s@.skip(j as int).skip(2) =~= s@.skip(j as int + 2));
                    let tail2 = scan_qstr(s@.skip(j as int + 2));
                    if tail2 is Some {
                        assert(pre + (seq![c2] + tail2.unwrap().0) =~= acc@ + tail2.unwrap().0);
                    }
                }
                j = j + 2;
            } else if c2 == 'u' {
                if n - j < 6 {
                    return None;
                }
                let c3 = s.get_char(j + 2);
                let c4 = s.get_char(j + 3);
                let h1 = s.get_char(j + 4);
                let h2 = s.get_char(j + 5);
                proof {
                    assert(s@.skip(j as int)[2] == s@[j as int + 2]);
                    assert(s@.skip(j as int)[3] == s@[j as int + 3]);
                    assert(s@.skip(j as int)[4] == s@[j as int + 4]);
                    assert(s@.skip(j as int)[5] == s@[j as int + 5]);
                }
                if c3 == '0' && c4 == '0' && is_hex_lower_exec(h1) && is_hex_lower_exec(h2) {
                    let v: u32 = hex_val_exec(h1) * 16 + hex_val_exec(h2);
                    let ch: char = (v as u8) as char;
                    let ghost pre = acc@;
                    push_char(&mut acc, ch);
                    proof {
                        assert(s@.skip(j as int).skip(6) =~= s@.skip(j as int + 6));
                        assert(ch == ((hex_val(h1) * 16 + hex_val(h2)) as u32) as char);
                        let tail2 = scan_qstr(s@.skip(j as int + 6));
                        if tail2 is Some {
                            assert(pre + (seq![ch] + tail2.unwrap().0) =~= acc@ + tail2.unwrap().0);
                        }
                    }
                    j = j + 6;
                } else {
                    return None;
                }
            } else {
                return None;
            }
        } else {
            let ghost pre = acc@;
            push_char(&mut acc, c);
            proof {
                assert(s@.skip(j as int).skip(1) =~= s@.skip(j as int + 1));
                let tail2 = scan_qstr(s@.skip(j as int + 1));
                if tail2 is Some {
                    assert(pre + (seq![c] + tail2.unwrap().0) =~= acc@ + tail2.unwrap().0);
                }
            }
            j = j + 1;
        }
    }
}


fn scan_num_exec(s: &str, n: usize, start: usize) -> (r: Option<(i64, usize)>)
    requires
        n == s@.len(),
        start <= n,
    ensures
        match r {
            Some(p) => start <= p.1 <= n && 0 <= p.0 && scan_num(s@.skip(start as int)) == Some(
                (p.0 as int, s@.skip(p.1 as int)),
            ),
            None => scan_num(s@.skip(start as int)) is None,
        },
{
    let mut j: usize = start;
    let mut acc: i64 = 0;
    let mut stop: bool = false;
    proof {
        assert(s@.subrange(start as int, start as int) =~= Seq::<char>::empty());
    }
    while !stop
        invariant
            start <= j <= n,
            n == s@.len(),
            forall|t: int| start <= t < j ==> is_dec_digit(#[trigger] s@[t]),
            0 <= acc,
            acc as int == dec_val(s@.subrange(start as int, j as int)),
            stop ==> j == n || !is_dec_digit(s@[j as int]),
        decreases n - j + 1 - (stop as int),
    {
        if j == n {
            stop = true;
        } else {
            let c = s.get_char(j);
            let u = c as u32;
            if !(48 <= u && u <= 57) {
                stop = true;
            } else {
                let d: i64 = (u - 48) as i64;
                if acc > (i64::MAX - d) / 10 {
                    proof {
                        let sk = s@.skip(start as int);
                        assert(forall|t: int|
                            0 <= t < j - start + 1 ==> is_dec_digit(#[trigger] sk[t])) by {
                            assert(forall|t: int|
                                0 <= t < j - start + 1 ==> sk[t] == s@[start + t]);
                        }
                        lemma_digits_len_props(sk);
                        lemma_digits_len_lower(sk, j - start + 1);
                        let k = digits_len(sk);
                        assert(s@.subrange(start as int, j as int + 1).drop_last() =~= s@.subrange(
                            start as int,
                            j as int,
                        ));
                        assert(s@.subrange(start as int, j as int + 1).last() == s@[j as int]);
                        assert(sk.take((j - start + 1) as int) =~= s@.subrange(
                            start as int,
                            j as int + 1,
                        ));
                        assert(dec_val(sk.take((j - start + 1) as int)) == acc * 10 + d);
                        assert(acc * 10 + d > i64::MAX);
                        lemma_dec_val_mono(sk, j - start + 1, k);
                        assert(dec_val(sk.take(k)) > i64::MAX);
                        assert(sk.take(k) =~= sk.take(k as int));
                    }
                    return None;
                }
                proof {
                    assert(s@.subrange(start as int, j as int + 1).drop_last() =~= s@.subrange(
                        start as int,
                        j as int,
                    ));
                    assert(s@.subrange(start as int, j as int + 1).last() == s@[j as int]);
                }
                acc = acc * 10 + d;
                j = j + 1;
            }
        }
    }
    if j == start {
        proof {
            assert(digits_len(s@.skip(start as int)) == 0);
        }
        return None;
    }
    proof {
        let sk = s@.skip(start as int);
        assert(forall|t: int| 0 <= t < j - start ==> is_dec_digit(#[trigger] sk[t])) by {
            assert(forall|t: int| 0 <= t < j - start ==> sk[t] == s@[start + t]);
        }
        lemma_digits_len_props(sk);
        lemma_digits_len_lower(sk, j - start);
        if digits_len(sk) > j - start {
            assert(is_dec_digit(sk[(j - start) as int]));
            assert(sk[(j - start) as int] == s@[j as int]);
        }
        assert(digits_len(sk) == j - start);
        assert(sk.take((j - start) as int) =~= s@.subrange(start as int, j as int));
        assert(sk.skip((j - start) as int) =~= s@.skip(j as int));
    }
    Some((acc, j))
}

fn scan_bool_exec(s: &str, n: usize, start: usize) -> (r: Option<(bool, usize)>)
    requires
        n == s@.len(),
        start <= n,
    ensures
        match r {
            Some(p) => start <= p.1 <= n && scan_bool(s@.skip(start as int)) == Some(
                (p.0, s@.skip(p.1 as int)),
            ),
            None => scan_bool(s@.skip(start as int)) is None,
        },
{
    match eat_lit(s, n, start, "true") {
        Some(j) => Some((true, j)),
        None => match eat_lit(s, n, start, "false") {
            Some(j) => Some((false, j)),
            None => None,
        },
    }
}

fn scan_kind_exec(s: &str, n: usize, start: usize) -> (r: Option<(TokenType, usize)>)
    requires
        n == s@.len(),
        start <= n,
    ensures
        match r {
            Some(p) => start <= p.1 <= n && scan_kind(s@.skip(start as int)) == Some(
                (p.0, s@.skip(p.1 as int)),
            ),
            None => scan_kind(s@.skip(start as int)) is None,
        },
{
    match eat_lit(s, n, start, "access") {
        Some(j) => Some((TokenType::Access, j)),
        None => match eat_lit(s, n, start, "refresh") {
            Some(j) => Some((TokenType::Refresh, j)),
            None => None,
        },
    }
}

/// Parse canonical payload text back into a claims value; `None` for
/// anything that is not exactly the canonical form.
pub fn parse_claims_str(p: &str) -> (r: Option<Claims>)
    ensures
        match r {
            Some(c) => parse_claims(p@) == Some(c@),
            None => parse_claims(p@) is None,
        },
{
    let n = p.unicode_len();
    proof {
        assert(p@.skip(0) =~= p@);
    }
    let j1 = match eat_lit(p, n, 0, "{\"sub\":\"") {
        Some(j) => j,
        None => {
            return None;
        },
    };
    let (sub, j2) = match scan_qstr_exec(p, n, j1) {
        Some(x) => x,
        None => {
            return None;
        },
    };
    let j3 = match eat_lit(p, n, j2, ",\"username\":\"") {
        Some(j) => j,
        None => {
            return None;
        },
    };
    let (username, j4) = match scan_qstr_exec(p, n, j3) {
        Some(x) => x,
        None => {
            return None;
        },
    };
    let j5 = match eat_lit(p, n, j4, ",\"is_admin\":") {
        Some(j) => j,
        None => {
            return None;
        },
    };
    let (is_admin, j6) = match scan_bool_exec(p, n, j5) {
        Some(x) => x,
        None => {
            return None;
        },
    };
    let j7 = match eat_lit(p, n, j6, ",\"exp\":") {
        Some(j) => j,
        None => {
            return None;
        },
    };
    let (exp, j8) = match scan_num_exec(p, n, j7) {
        Some(x) => x,
        None => {
            return None;
        },
    };
    let j9 = match eat_lit(p, n, j8, ",\"iat\":") {
        Some(j) => j,
        None => {
            return None;
        },
    };
    let (iat, j10) = match scan_num_exec(p, n, j9) {
        Some(x) => x,
        None => {
            return None;
        },
    };
    let j11 = match eat_lit(p, n, j10, ",\"token_type\":\"") {
        Some(j) => j,
        None => {
            return None;
        },
    };
    let (token_type, j12) = match scan_kind_exec(p, n, j11) {
        Some(x) => x,
        None => {
            return None;
        },
    };
    let j13 = match eat_lit(p, n, j12, "\"}") {
        Some(j) => j,
        None => {
            return None;
        },
    };
    if j13 != n {
        return None;
    }
    Some(Claims { sub, username, is_admin, exp, iat, token_type })
}

} // verus!


