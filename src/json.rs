//! The canonical JSON text of a claim set, and its strict parser.
//!
//! Claims are written as one compact JSON object whose members come in a
//! fixed order. The parser accepts exactly that shape, so decoding the text of
//! any claim set gives that claim set back.
use vstd::prelude::*;

use crate::claims::{strings_view, Claims, ClaimsView};

verus! {

pub open spec fn is_digit(c: char) -> bool {
    '0' <= c && c <= '9'
}

pub open spec fn digit_value(c: char) -> nat {
    (c as int - 48) as nat
}

pub open spec fn digit_char(d: nat) -> char {
    ((d + 48) as u8) as char
}

pub open spec fn hex_char(v: nat) -> char {
    if v < 10 {
        digit_char(v)
    } else {
        ((v + 87) as u8) as char
    }
}

pub open spec fn hex_value(c: char) -> Option<nat> {
    if is_digit(c) {
        Some(digit_value(c))
    } else if 'a' <= c && c <= 'f' {
        Some((c as int - 87) as nat)
    } else {
        None
    }
}

/// How one character stands inside a JSON string.
pub open spec fn escape_char(c: char) -> Seq<char> {
    if c == '"' {
        seq!['\\', '"']
    } else if c == '\\' {
        seq!['\\', '\\']
    } else if (c as u32) < 32 {
        seq!['\\', 'u', '0', '0', hex_char(((c as u32) / 16) as nat), hex_char(((c as u32) % 16) as nat)]
    } else {
        seq![c]
    }
}

pub open spec fn escaped(s: Seq<char>) -> Seq<char>
    decreases s.len(),
{
    if s.len() == 0 {
        Seq::empty()
    } else {
        escape_char(s[0]) + escaped(s.drop_first())
    }
}

/// A JSON string literal holding `s`.
pub open spec fn quoted(s: Seq<char>) -> Seq<char> {
    seq!['"'] + (escaped(s) + seq!['"'])
}

/// The decimal digits of `n`, without leading zeros.
pub open spec fn decimal(n: nat) -> Seq<char>
    decreases n,
{
    if n < 10 {
        seq![digit_char(n)]
    } else {
        decimal(n / 10).push(digit_char(n % 10))
    }
}

pub open spec fn boolean(b: bool) -> Seq<char> {
    if b {
        "true"@
    } else {
        "false"@
    }
}

pub open spec fn more_items(xs: Seq<Seq<char>>) -> Seq<char>
    decreases xs.len(),
{
    if xs.len() == 0 {
        Seq::empty()
    } else {
        seq![','] + (quoted(xs[0]) + more_items(xs.drop_first()))
    }
}

/// The members of a JSON array of strings, separated by commas.
pub open spec fn string_list(xs: Seq<Seq<char>>) -> Seq<char> {
    if xs.len() == 0 {
        Seq::empty()
    } else {
        quoted(xs[0]) + more_items(xs.drop_first())
    }
}

pub open spec fn text_times(c: ClaimsView) -> Seq<char> {
    "{\"sub\":"@ + (quoted(c.sub) + (",\"exp\":"@ + (decimal(c.exp as nat) + (",\"nbf\":"@ + decimal(
    c.nbf as nat)))))
}

pub open spec fn text_profile(c: ClaimsView) -> Seq<char> {
    ",\"premium\":"@ + (boolean(c.premium) + (",\"name\":"@ + (quoted(c.name) + (",\"email\":"@
        + quoted(c.email)))))
}

pub open spec fn text_methods(c: ClaimsView) -> Seq<char> {
    ",\"email_verified\":"@ + (boolean(c.email_verified) + (",\"amr\":["@ + (string_list(c.amr) + seq![
    ']', '}'])))
}

/// The canonical JSON text of a claim set.
pub open spec fn claims_text(c: ClaimsView) -> Seq<char> {
    text_times(c) + (text_profile(c) + text_methods(c))
}

// ---- parsing, on the text that is left to read ----

pub open spec fn prepend(c: char, o: Option<(Seq<char>, Seq<char>)>) -> Option<(Seq<char>, Seq<char>)> {
    match o {
        Some((s, r)) => Some((seq![c] + s, r)),
        None => None,
    }
}

/// Reads the rest of a string literal, after its opening quote.
pub open spec fn string_body(t: Seq<char>) -> Option<(Seq<char>, Seq<char>)>
    decreases t.len(),
{
    if t.len() == 0 {
        None
    } else if t[0] == '"' {
        Some((Seq::empty(), t.drop_first()))
    } else if t[0] == '\\' {
        if t.len() < 2 {
            None
        } else if t[1] == '"' || t[1] == '\\' {
            prepend(t[1], string_body(t.subrange(2, t.len() as int)))
        } else if t.len() >= 6 && t[1] == 'u' && t[2] == '0' && t[3] == '0' && hex_value(t[4]) is Some
            && hex_value(t[5]) is Some && hex_value(t[4])->0 * 16 + hex_value(t[5])->0 < 32 {
            prepend(
                ((hex_value(t[4])->0 * 16 + hex_value(t[5])->0) as u32) as char,
                string_body(t.subrange(6, t.len() as int)),
            )
        } else {
            None
        }
    } else if (t[0] as u32) < 32 {
        None
    } else {
        prepend(t[0], string_body(t.drop_first()))
    }
}

#[verifier::opaque]
pub open spec fn string_at(t: Seq<char>) -> Option<(Seq<char>, Seq<char>)> {
    if t.len() > 0 && t[0] == '"' {
        string_body(t.drop_first())
    } else {
        None
    }
}

pub open spec fn digits_from(t: Seq<char>, acc: nat) -> (nat, Seq<char>)
    decreases t.len(),
{
    if t.len() > 0 && is_digit(t[0]) {
        digits_from(t.drop_first(), acc * 10 + digit_value(t[0]))
    } else {
        (acc, t)
    }
}

#[verifier::opaque]
pub open spec fn number_at(t: Seq<char>) -> Option<(u64, Seq<char>)> {
    if t.len() > 0 && is_digit(t[0]) && digits_from(t, 0).0 <= u64::MAX {
        Some((digits_from(t, 0).0 as u64, digits_from(t, 0).1))
    } else {
        None
    }
}

#[verifier::opaque]
pub open spec fn expect(t: Seq<char>, l: Seq<char>) -> Option<Seq<char>> {
    if t.len() >= l.len() && t.subrange(0, l.len() as int) == l {
        Some(t.subrange(l.len() as int, t.len() as int))
    } else {
        None
    }
}

#[verifier::opaque]
pub open spec fn bool_at(t: Seq<char>) -> Option<(bool, Seq<char>)> {
    match expect(t, "true"@) {
        Some(r) => Some((true, r)),
        None => match expect(t, "false"@) {
            Some(r) => Some((false, r)),
            None => None,
        },
    }
}

pub open spec fn more_at(t: Seq<char>, acc: Seq<Seq<char>>) -> Option<(Seq<Seq<char>>, Seq<char>)>
    decreases t.len(),
{
    if t.len() == 0 {
        None
    } else if t[0] == ',' {
        match string_at(t.drop_first()) {
            Some((s, r)) => if r.len() < t.len() {
                more_at(r, acc.push(s))
            } else {
                None
            },
            None => None,
        }
    } else if t[0] == ']' {
        Some((acc, t.drop_first()))
    } else {
        None
    }
}

/// Reads the members of an array of strings and its closing bracket.
#[verifier::opaque]
pub open spec fn list_at(t: Seq<char>) -> Option<(Seq<Seq<char>>, Seq<char>)> {
    if t.len() > 0 && t[0] == ']' {
        Some((Seq::empty(), t.drop_first()))
    } else {
        match string_at(t) {
            Some((s, r)) => more_at(r, seq![s]),
            None => None,
        }
    }
}


pub open spec fn times_at(t: Seq<char>) -> Option<(Seq<char>, u64, u64, Seq<char>)> {
    match expect(t, "{\"sub\":"@) { None => None, Some(t) =>
    match string_at(t) { None => None, Some((sub, t)) =>
    match expect(t, ",\"exp\":"@) { None => None, Some(t) =>
    match number_at(t) { None => None, Some((exp, t)) =>
    match expect(t, ",\"nbf\":"@) { None => None, Some(t) =>
    match number_at(t) { None => None, Some((nbf, t)) => Some((sub, exp, nbf, t))
    }}}}}}
}

pub open spec fn profile_at(t: Seq<char>) -> Option<(bool, Seq<char>, Seq<char>, Seq<char>)> {
    match expect(t, ",\"premium\":"@) { None => None, Some(t) =>
    match bool_at(t) { None => None, Some((premium, t)) =>
    match expect(t, ",\"name\":"@) { None => None, Some(t) =>
    match string_at(t) { None => None, Some((name, t)) =>
    match expect(t, ",\"email\":"@) { None => None, Some(t) =>
    match string_at(t) { None => None, Some((email, t)) => Some((premium, name, email, t))
    }}}}}}
}

/// Reads the last members and the end of the object; nothing may follow.
pub open spec fn methods_at(t: Seq<char>) -> Option<(bool, Seq<Seq<char>>)> {
    match expect(t, ",\"email_verified\":"@) { None => None, Some(t) =>
    match bool_at(t) { None => None, Some((email_verified, t)) =>
    match expect(t, ",\"amr\":["@) { None => None, Some(t) =>
    match list_at(t) { None => None, Some((amr, t)) =>
    if t == seq!['}'] { Some((email_verified, amr)) } else { None }
    }}}}
}

/// Reads a whole claims text.
pub open spec fn parse_claims(t: Seq<char>) -> Option<ClaimsView> {
    match times_at(t) {
        None => None,
        Some((sub, exp, nbf, t)) => match profile_at(t) {
            None => None,
            Some((premium, name, email, t)) => match methods_at(t) {
                None => None,
                Some((email_verified, amr)) => Some(
                    ClaimsView { sub, exp, nbf, premium, name, email, email_verified, amr },
                ),
            },
        },
    }
}

// ---- the text of every claim set reads back as that claim set ----

pub proof fn lemma_expect(l: Seq<char>, rest: Seq<char>)
    ensures
        expect(l + rest, l) == Some(rest),
{
    reveal(expect);
    assert((l + rest).subrange(0, l.len() as int) =~= l);
    assert((l + rest).subrange(l.len() as int, (l + rest).len() as int) =~= rest);
}

proof fn lemma_hex(v: nat)
    requires
        v < 16,
    ensures
        hex_value(hex_char(v)) == Some(v),
{
}

pub proof fn lemma_string_body(s: Seq<char>, rest: Seq<char>)
    ensures
        string_body(escaped(s) + (seq!['"'] + rest)) == Some((s, rest)),
    decreases s.len(),
{
    let t = escaped(s) + (seq!['"'] + rest);
    if s.len() == 0 {
        assert(t =~= seq!['"'] + rest);
        assert(t.drop_first() =~= rest);
    } else {
        let c = s[0];
        let tail = s.drop_first();
        let t2 = escaped(tail) + (seq!['"'] + rest);
        lemma_string_body(tail, rest);
        assert(t =~= escape_char(c) + t2);
        assert(seq![c] + tail =~= s);
        if c == '"' || c == '\\' {
            assert(t.subrange(2, t.len() as int) =~= t2);
        } else if (c as u32) < 32 {
            let hi = ((c as u32) / 16) as nat;
            let lo = ((c as u32) % 16) as nat;
            lemma_hex(hi);
            lemma_hex(lo);
            assert(t[4] == hex_char(hi));
            assert(t[5] == hex_char(lo));
            assert(hi * 16 + lo == c as u32);
            let v = (hi * 16 + lo) as u32;
            assert(v == c as u32);
            vstd::utf8::char_u32_cast(c, v);
            assert(t.subrange(6, t.len() as int) =~= t2);
        } else {
            assert(t.drop_first() =~= t2);
        }
    }
}

pub proof fn lemma_string_at(s: Seq<char>, rest: Seq<char>)
    ensures
        string_at(quoted(s) + rest) == Some((s, rest)),
        quoted(s).len() > 0,
{
    reveal(string_at);
    let t = quoted(s) + rest;
    assert(t.drop_first() =~= escaped(s) + (seq!['"'] + rest));
    lemma_string_body(s, rest);
}

pub open spec fn all_digits(d: Seq<char>) -> bool {
    forall|i: int| 0 <= i < d.len() ==> is_digit(#[trigger] d[i])
}

proof fn lemma_digits_concat(d: Seq<char>, rest: Seq<char>, acc: nat)
    requires
        all_digits(d),
        rest.len() == 0 || !is_digit(rest[0]),
    ensures
        digits_from(d + rest, acc) == (digits_from(d, acc).0, rest),
    decreases d.len(),
{
    if d.len() == 0 {
        assert(d + rest =~= rest);
    } else {
        assert((d + rest).drop_first() =~= d.drop_first() + rest);
        lemma_digits_concat(d.drop_first(), rest, acc * 10 + digit_value(d[0]));
    }
}

proof fn lemma_digits_push(d: Seq<char>, c: char, acc: nat)
    requires
        all_digits(d),
        is_digit(c),
    ensures
        digits_from(d.push(c), acc).0 == digits_from(d, acc).0 * 10 + digit_value(c),
    decreases d.len(),
{
    if d.len() == 0 {
        assert(d.push(c).drop_first() =~= Seq::<char>::empty());
        assert(d.push(c)[0] == c);
        assert(digits_from(Seq::<char>::empty(), acc * 10 + digit_value(c)).0 == acc * 10 + digit_value(c));
    } else {
        assert(d.push(c).drop_first() =~= d.drop_first().push(c));
        assert(d.push(c)[0] == d[0]);
        assert(is_digit(d[0]));
        assert forall|i: int| 0 <= i < d.drop_first().len() implies is_digit(#[trigger] d.drop_first()[i]) by {
            assert(d.drop_first()[i] == d[i + 1]);
        }
        lemma_digits_push(d.drop_first(), c, acc * 10 + digit_value(d[0]));
    }
}

proof fn lemma_decimal(n: nat)
    ensures
        all_digits(decimal(n)),
        decimal(n).len() > 0,
        digits_from(decimal(n), 0).0 == n,
    decreases n,
{
    if n >= 10 {
        lemma_decimal(n / 10);
        let d = decimal(n / 10);
        let c = digit_char(n % 10);
        assert(is_digit(c));
        assert(digit_value(c) == n % 10);
        lemma_digits_push(d, c, 0);
        assert forall|i: int| 0 <= i < d.push(c).len() implies is_digit(#[trigger] d.push(c)[i]) by {
            if i < d.len() {
                assert(d.push(c)[i] == d[i]);
            }
        }
    } else {
        let d = seq![digit_char(n)];
        assert(d.drop_first() =~= Seq::<char>::empty());
        assert(digit_value(d[0]) == n);
        assert(digits_from(Seq::<char>::empty(), n).0 == n);
    }
}

pub proof fn lemma_number_at(n: u64, rest: Seq<char>)
    requires
        rest.len() == 0 || !is_digit(rest[0]),
    ensures
        number_at(decimal(n as nat) + rest) == Some((n, rest)),
{
    reveal(number_at);
    lemma_decimal(n as nat);
    lemma_digits_concat(decimal(n as nat), rest, 0);
    assert((decimal(n as nat) + rest)[0] == decimal(n as nat)[0]);
}

pub proof fn lemma_bool_at(b: bool, rest: Seq<char>)
    ensures
        bool_at(boolean(b) + rest) == Some((b, rest)),
{
    reveal(bool_at);
    reveal(expect);
    reveal_strlit("true");
    reveal_strlit("false");
    if b {
        lemma_expect("true"@, rest);
    } else {
        let t = "false"@ + rest;
        assert(t[0] == 'f');
        assert("true"@[0] == 't');
        assert(t.subrange(0, 4)[0] == 'f');
        lemma_expect("false"@, rest);
    }
}

proof fn lemma_more_at(xs: Seq<Seq<char>>, acc: Seq<Seq<char>>, rest: Seq<char>)
    ensures
        more_at(more_items(xs) + (seq![']'] + rest), acc) == Some((acc + xs, rest)),
    decreases xs.len(),
{
    let t = more_items(xs) + (seq![']'] + rest);
    if xs.len() == 0 {
        assert(t =~= seq![']'] + rest);
        assert(t.drop_first() =~= rest);
        assert(acc + xs =~= acc);
    } else {
        let tail = xs.drop_first();
        let r = more_items(tail) + (seq![']'] + rest);
        assert(t.drop_first() =~= quoted(xs[0]) + r);
        lemma_string_at(xs[0], r);
        reveal(string_at);
        lemma_more_at(tail, acc.push(xs[0]), rest);
        assert(acc.push(xs[0]) + tail =~= acc + xs);
    }
}

pub proof fn lemma_list_at(xs: Seq<Seq<char>>, rest: Seq<char>)
    ensures
        list_at(string_list(xs) + (seq![']'] + rest)) == Some((xs, rest)),
{
    reveal(list_at);
    let t = string_list(xs) + (seq![']'] + rest);
    if xs.len() == 0 {
        assert(t =~= seq![']'] + rest);
        assert(t.drop_first() =~= rest);
    } else {
        let r = more_items(xs.drop_first()) + (seq![']'] + rest);
        assert(t =~= quoted(xs[0]) + r);
        lemma_string_at(xs[0], r);
        reveal(string_at);
        assert(t[0] == '"');
        lemma_more_at(xs.drop_first(), seq![xs[0]], rest);
        assert(seq![xs[0]] + xs.drop_first() =~= xs);
    }
}

#[verifier::rlimit(50)]
proof fn lemma_times_at(c: ClaimsView, rest: Seq<char>)
    requires
        rest.len() == 0 || !is_digit(rest[0]),
    ensures
        times_at(text_times(c) + rest) == Some((c.sub, c.exp, c.nbf, rest)),
{
    reveal_strlit(",\"nbf\":");
    let t6 = decimal(c.nbf as nat) + rest;
    lemma_number_at(c.nbf, rest);
    let t5 = ",\"nbf\":"@ + t6;
    lemma_expect(",\"nbf\":"@, t6);
    assert(t5[0] == ',');
    let t4 = decimal(c.exp as nat) + t5;
    lemma_number_at(c.exp, t5);
    let t3 = ",\"exp\":"@ + t4;
    lemma_expect(",\"exp\":"@, t4);
    let t2 = quoted(c.sub) + t3;
    lemma_string_at(c.sub, t3);
    lemma_expect("{\"sub\":"@, t2);
    assert(text_times(c) + rest =~= "{\"sub\":"@ + t2);
}

#[verifier::rlimit(100)]
proof fn lemma_profile_at(c: ClaimsView, rest: Seq<char>)
    ensures
        profile_at(text_profile(c) + rest) == Some((c.premium, c.name, c.email, rest)),
{
    let t12 = quoted(c.email) + rest;
    lemma_string_at(c.email, rest);
    let t11 = ",\"email\":"@ + t12;
    lemma_expect(",\"email\":"@, t12);
    let t10 = quoted(c.name) + t11;
    lemma_string_at(c.name, t11);
    let t9 = ",\"name\":"@ + t10;
    lemma_expect(",\"name\":"@, t10);
    let t8 = boolean(c.premium) + t9;
    lemma_bool_at(c.premium, t9);
    lemma_expect(",\"premium\":"@, t8);
    let t = text_profile(c) + rest;
    assert(t =~= ",\"premium\":"@ + t8);
    assert(expect(t, ",\"premium\":"@) == Some(t8));
    assert(bool_at(t8) == Some((c.premium, t9)));
    assert(expect(t9, ",\"name\":"@) == Some(t10));
    assert(string_at(t10) == Some((c.name, t11)));
    assert(expect(t11, ",\"email\":"@) == Some(t12));
    assert(string_at(t12) == Some((c.email, rest)));
}

proof fn lemma_methods_at(c: ClaimsView)
    ensures
        methods_at(text_methods(c)) == Some((c.email_verified, c.amr)),
{
    let t_amr = string_list(c.amr) + seq![']', '}'];
    assert(t_amr =~= string_list(c.amr) + (seq![']'] + seq!['}']));
    lemma_list_at(c.amr, seq!['}']);
    let t15 = ",\"amr\":["@ + t_amr;
    lemma_expect(",\"amr\":["@, t_amr);
    let t14 = boolean(c.email_verified) + t15;
    lemma_bool_at(c.email_verified, t15);
    lemma_expect(",\"email_verified\":"@, t14);
}

/// Parsing the canonical text of a claim set gives that claim set back.
pub proof fn lemma_parse_claims_text(c: ClaimsView)
    ensures
        parse_claims(claims_text(c)) == Some(c),
{
    reveal_strlit(",\"premium\":");
    let tail = text_profile(c) + text_methods(c);
    assert(tail[0] == ',');
    lemma_times_at(c, tail);
    lemma_methods_at(c);
    lemma_profile_at(c, text_methods(c));
}

// ---- writing ----

/// Relies on std's `FromIterator<&char>` for `String`: the string of exactly these characters.
#[verifier::external_body]
fn text_of(v: &Vec<char>) -> (r: String)
    ensures
        r@ == v@,
{
    v.iter().collect()
}

fn push_str(out: &mut Vec<char>, s: &str)
    ensures
        final(out)@ == old(out)@ + s@,
{
    let n = s.unicode_len();
    let mut i: usize = 0;
    while i < n
        invariant
            n == s@.len(),
            i <= n,
            out@ == old(out)@ + s@.subrange(0, i as int),
        decreases n - i,
    {
        out.push(s.get_char(i));
        i += 1;
        assert(out@ =~= old(out)@ + s@.subrange(0, i as int));
    }
    assert(s@.subrange(0, n as int) =~= s@);
}

fn hex_digit(v: u32) -> (r: char)
    requires
        v < 16,
    ensures
        r == hex_char(v as nat),
{
    if v < 10 {
        ((v + 48) as u8) as char
    } else {
        ((v + 87) as u8) as char
    }
}

proof fn lemma_escaped_push(a: Seq<char>, c: char)
    ensures
        escaped(a.push(c)) == escaped(a) + escape_char(c),
    decreases a.len(),
{
    if a.len() == 0 {
        assert(a.push(c).drop_first() =~= Seq::<char>::empty());
        assert(a.push(c)[0] == c);
        assert(escaped(Seq::<char>::empty()) == Seq::<char>::empty());
        assert(escaped(a.push(c)) =~= escaped(a) + escape_char(c));
    } else {
        assert(a.push(c).drop_first() =~= a.drop_first().push(c));
        assert(a.push(c)[0] == a[0]);
        lemma_escaped_push(a.drop_first(), c);
        assert(escaped(a.push(c)) =~= escaped(a) + escape_char(c));
    }
}

fn push_quoted(out: &mut Vec<char>, s: &str)
    ensures
        final(out)@ == old(out)@ + quoted(s@),
{
    out.push('"');
    let n = s.unicode_len();
    let mut i: usize = 0;
    while i < n
        invariant
            n == s@.len(),
            i <= n,
            out@ == old(out)@.push('"') + escaped(s@.subrange(0, i as int)),
        decreases n - i,
    {
        let c = s.get_char(i);
        let ghost before = out@;
        if c == '"' {
            out.push('\\');
            out.push('"');
        } else if c == '\\' {
            out.push('\\');
            out.push('\\');
        } else if (c as u32) < 32 {
            out.push('\\');
            out.push('u');
            out.push('0');
            out.push('0');
            out.push(hex_digit((c as u32) / 16));
            out.push(hex_digit((c as u32) % 16));
        } else {
            out.push(c);
        }
        assert(out@ =~= before + escape_char(c));
        proof {
            lemma_escaped_push(s@.subrange(0, i as int), c);
            assert(s@.subrange(0, i as int).push(c) =~= s@.subrange(0, i + 1));
        }
        i += 1;
    }
    out.push('"');
    assert(s@.subrange(0, n as int) =~= s@);
    assert(out@ =~= old(out)@ + quoted(s@));
}

fn push_decimal(out: &mut Vec<char>, n: u64)
    ensures
        final(out)@ == old(out)@ + decimal(n as nat),
    decreases n,
{
    if n >= 10 {
        push_decimal(out, n / 10);
    }
    out.push(((n % 10 + 48) as u8) as char);
    if n >= 10 {
        assert(out@ =~= old(out)@ + decimal(n as nat));
    } else {
        assert(out@ =~= old(out)@ + decimal(n as nat));
    }
}

fn push_bool(out: &mut Vec<char>, b: bool)
    ensures
        final(out)@ == old(out)@ + boolean(b),
{
    if b {
        push_str(out, "true");
    } else {
        push_str(out, "false");
    }
}

proof fn lemma_more_items_push(ys: Seq<Seq<char>>, y: Seq<char>)
    ensures
        more_items(ys.push(y)) == more_items(ys) + (seq![','] + quoted(y)),
    decreases ys.len(),
{
    if ys.len() == 0 {
        assert(ys.push(y).drop_first() =~= Seq::<Seq<char>>::empty());
        assert(ys.push(y)[0] == y);
        assert(more_items(Seq::<Seq<char>>::empty()) == Seq::<char>::empty());
        assert(more_items(ys.push(y)) =~= more_items(ys) + (seq![','] + quoted(y)));
    } else {
        assert(ys.push(y).drop_first() =~= ys.drop_first().push(y));
        assert(ys.push(y)[0] == ys[0]);
        lemma_more_items_push(ys.drop_first(), y);
        assert(more_items(ys.push(y)) =~= more_items(ys) + (seq![','] + quoted(y)));
    }
}

fn push_list(out: &mut Vec<char>, xs: &Vec<String>)
    ensures
        final(out)@ == old(out)@ + string_list(strings_view(xs@)),
{
    let ghost v = strings_view(xs@);
    let mut i: usize = 0;
    while i < xs.len()
        invariant
            i <= xs@.len(),
            v == strings_view(xs@),
            out@ == old(out)@ + string_list(v.subrange(0, i as int)),
        decreases xs@.len() - i,
    {
        let ghost before = out@;
        let ghost pre = v.subrange(0, i as int);
        assert(v.subrange(0, i + 1) =~= pre.push(v[i as int]));
        if i > 0 {
            out.push(',');
            push_quoted(out, xs[i].as_str());
            proof {
                lemma_more_items_push(pre.drop_first(), v[i as int]);
                assert(pre.push(v[i as int]).drop_first() =~= pre.drop_first().push(v[i as int]));
            }
            assert(out@ =~= old(out)@ + string_list(v.subrange(0, i + 1)));
        } else {
            push_quoted(out, xs[i].as_str());
            assert(pre.push(v[i as int]).drop_first() =~= Seq::<Seq<char>>::empty());
            assert(out@ =~= old(out)@ + string_list(v.subrange(0, i + 1)));
        }
        i += 1;
    }
    assert(v.subrange(0, xs@.len() as int) =~= v);
}

fn push_times(out: &mut Vec<char>, c: &Claims)
    ensures
        final(out)@ == old(out)@ + text_times(c@),
{
    push_str(out, "{\"sub\":");
    push_quoted(out, c.sub.as_str());
    push_str(out, ",\"exp\":");
    push_decimal(out, c.exp);
    push_str(out, ",\"nbf\":");
    push_decimal(out, c.nbf);
    assert(out@ =~= old(out)@ + text_times(c@));
}

fn push_profile(out: &mut Vec<char>, c: &Claims)
    ensures
        final(out)@ == old(out)@ + text_profile(c@),
{
    push_str(out, ",\"premium\":");
    push_bool(out, c.premium);
    push_str(out, ",\"name\":");
    push_quoted(out, c.name.as_str());
    push_str(out, ",\"email\":");
    push_quoted(out, c.email.as_str());
    assert(out@ =~= old(out)@ + text_profile(c@));
}

fn push_methods(out: &mut Vec<char>, c: &Claims)
    ensures
        final(out)@ == old(out)@ + text_methods(c@),
{
    push_str(out, ",\"email_verified\":");
    push_bool(out, c.email_verified);
    push_str(out, ",\"amr\":[");
    push_list(out, &c.amr);
    out.push(']');
    out.push('}');
    assert(out@ =~= old(out)@ + text_methods(c@));
}

/// The canonical JSON text of `c`.
pub fn claims_json(c: &Claims) -> (r: String)
    ensures
        r@ == claims_text(c@),
{
    let mut out: Vec<char> = Vec::new();
    push_times(&mut out, c);
    push_profile(&mut out, c);
    push_methods(&mut out, c);
    assert(out@ =~= claims_text(c@));
    text_of(&out)
}

// ---- reading ----

pub open spec fn suffix(t: Seq<char>, i: int) -> Seq<char> {
    t.subrange(i, t.len() as int)
}

fn chars_of(s: &str) -> (r: Vec<char>)
    ensures
        r@ == s@,
{
    let n = s.unicode_len();
    let mut v: Vec<char> = Vec::new();
    let mut i: usize = 0;
    while i < n
        invariant
            n == s@.len(),
            i <= n,
            v@ == s@.subrange(0, i as int),
        decreases n - i,
    {
        v.push(s.get_char(i));
        i += 1;
        assert(v@ =~= s@.subrange(0, i as int));
    }
    assert(s@.subrange(0, n as int) =~= s@);
    v
}

fn expect_lit(t: &Vec<char>, i: usize, l: &str) -> (r: Option<usize>)
    requires
        i <= t@.len(),
    ensures
        match r {
            Some(j) => i <= j <= t@.len() && expect(suffix(t@, i as int), l@) == Some(suffix(t@, j as int)),
            None => expect(suffix(t@, i as int), l@) is None,
        },
{
    reveal(expect);
    let ghost u = suffix(t@, i as int);
    let n = l.unicode_len();
    let tl = t.len();
    if n > tl - i {
        return None;
    }
    let mut k: usize = 0;
    while k < n
        invariant
            tl == t@.len(),
            n == l@.len(),
            k <= n,
            i + n <= t@.len(),
            u == suffix(t@, i as int),
            forall|m: int| 0 <= m < k ==> t@[i + m] == l@[m],
        decreases n - k,
    {
        if t[i + k] != l.get_char(k) {
            assert(u.subrange(0, n as int)[k as int] != l@[k as int]);
            assert(u.subrange(0, n as int) != l@);
            reveal(expect);
            return None;
        }
        k += 1;
    }
    assert(u.subrange(0, n as int) =~= l@);
    assert(u.subrange(n as int, u.len() as int) =~= suffix(t@, i + n));
    Some(i + n)
}

fn hex_val(c: char) -> (r: Option<u32>)
    ensures
        match r {
            Some(v) => hex_value(c) == Some(v as nat),
            None => hex_value(c) is None,
        },
{
    if '0' <= c && c <= '9' {
        Some(c as u32 - 48)
    } else if 'a' <= c && c <= 'f' {
        Some(c as u32 - 87)
    } else {
        None
    }
}

pub open spec fn prepend_all(a: Seq<char>, o: Option<(Seq<char>, Seq<char>)>) -> Option<(Seq<char>, Seq<char>)> {
    match o {
        Some((s, r)) => Some((a + s, r)),
        None => None,
    }
}

fn string_lit(t: &Vec<char>, i: usize) -> (r: Option<(String, usize)>)
    requires
        i <= t@.len(),
    ensures
        match r {
            Some((s, j)) => i <= j <= t@.len() && string_at(suffix(t@, i as int)) == Some((s@, suffix(t@, j as int))),
            None => string_at(suffix(t@, i as int)) is None,
        },
{
    reveal(string_at);
    let n = t.len();
    if i >= n || t[i] != '"' {
        return None;
    }
    assert(suffix(t@, i as int).drop_first() =~= suffix(t@, i + 1));
    let mut acc: Vec<char> = Vec::new();
    let mut k: usize = i + 1;
    while k <= n
        invariant
            n == t@.len(),
            i + 1 <= k <= n,
            string_at(suffix(t@, i as int)) == string_body(suffix(t@, i + 1)),
            string_body(suffix(t@, i + 1)) == prepend_all(acc@, string_body(suffix(t@, k as int))),
        decreases n - k,
    {
        let ghost u = suffix(t@, k as int);
        if k == n {
            return None;
        }
        let c = t[k];
        if c == '"' {
            assert(u.drop_first() =~= suffix(t@, k + 1));
            assert(acc@ + Seq::<char>::empty() =~= acc@);
            return Some((text_of(&acc), k + 1));
        } else if c == '\\' {
            if k + 1 >= n {
                return None;
            }
            let c1 = t[k + 1];
            if c1 == '"' || c1 == '\\' {
                assert(u.subrange(2, u.len() as int) =~= suffix(t@, k + 2));
                let ghost a0 = acc@;
                acc.push(c1);
                proof {
                    match string_body(suffix(t@, k + 2)) {
                        Some((s2, r2)) => assert(a0 + (seq![c1] + s2) =~= acc@ + s2),
                        None => {},
                    }
                }
                k += 2;
            } else if n - k >= 6 && c1 == 'u' && t[k + 2] == '0' && t[k + 3] == '0' {
                let hi = hex_val(t[k + 4]);
                let lo = hex_val(t[k + 5]);
                match (hi, lo) {
                    (Some(h), Some(l)) => {
                        if h * 16 + l >= 32 {
                            return None;
                        }
                        let v = h * 16 + l;
                        let ch = (v as u8) as char;
                        proof {
                            vstd::utf8::char_u32_cast(ch, v);
                        }
                        assert(u.subrange(6, u.len() as int) =~= suffix(t@, k + 6));
                        let ghost a0 = acc@;
                        acc.push(ch);
                        proof {
                            match string_body(suffix(t@, k + 6)) {
                                Some((s2, r2)) => assert(a0 + (seq![ch] + s2) =~= acc@ + s2),
                                None => {},
                            }
                        }
                        k += 6;
                    },
                    _ => {
                        return None;
                    },
                }
            } else {
                return None;
            }
        } else if (c as u32) < 32 {
            return None;
        } else {
            assert(u.drop_first() =~= suffix(t@, k + 1));
            let ghost a0 = acc@;
            acc.push(c);
            proof {
                match string_body(suffix(t@, k + 1)) {
                    Some((s2, r2)) => assert(a0 + (seq![c] + s2) =~= acc@ + s2),
                    None => {},
                }
            }
            k += 1;
        }
    }
    None
}

proof fn lemma_digits_from_grows(t: Seq<char>, acc: nat)
    ensures
        digits_from(t, acc).0 >= acc,
    decreases t.len(),
{
    if t.len() > 0 && is_digit(t[0]) {
        lemma_digits_from_grows(t.drop_first(), acc * 10 + digit_value(t[0]));
    }
}

fn number_lit(t: &Vec<char>, i: usize) -> (r: Option<(u64, usize)>)
    requires
        i <= t@.len(),
    ensures
        match r {
            Some((v, j)) => i <= j <= t@.len() && number_at(suffix(t@, i as int)) == Some((v, suffix(t@, j as int))),
            None => number_at(suffix(t@, i as int)) is None,
        },
{
    reveal(number_at);
    let n = t.len();
    if i >= n || !('0' <= t[i] && t[i] <= '9') {
        return None;
    }
    let mut acc: u64 = 0;
    let mut k: usize = i;
    while k < n && '0' <= t[k] && t[k] <= '9'
        invariant
            n == t@.len(),
            i <= k <= n,
            i < n,
            is_digit(t@[i as int]),
            digits_from(suffix(t@, i as int), 0) == digits_from(suffix(t@, k as int), acc as nat),
        decreases n - k,
    {
        let ghost u = suffix(t@, k as int);
        assert(u.drop_first() =~= suffix(t@, k + 1));
        let d = t[k] as u32 - 48;
        assert(digit_value(t@[k as int]) == d as nat);
        assert(digits_from(u, acc as nat) == digits_from(suffix(t@, k + 1), (acc as nat) * 10 + d as nat));
        match acc.checked_mul(10) {
            Some(m) => match m.checked_add(d as u64) {
                Some(a) => {
                    acc = a;
                },
                None => {
                    proof {
                        lemma_digits_from_grows(suffix(t@, k + 1), (acc as nat) * 10 + digit_value(t@[k as int]));
                        reveal(number_at);
                    }
                    return None;
                },
            },
            None => {
                proof {
                    lemma_digits_from_grows(suffix(t@, k + 1), (acc as nat) * 10 + digit_value(t@[k as int]));
                    reveal(number_at);
                }
                return None;
            },
        }
        k += 1;
    }
    assert(suffix(t@, i as int)[0] == t@[i as int]);
    Some((acc, k))
}

fn bool_lit(t: &Vec<char>, i: usize) -> (r: Option<(bool, usize)>)
    requires
        i <= t@.len(),
    ensures
        match r {
            Some((b, j)) => i <= j <= t@.len() && bool_at(suffix(t@, i as int)) == Some((b, suffix(t@, j as int))),
            None => bool_at(suffix(t@, i as int)) is None,
        },
{
    reveal(bool_at);
    match expect_lit(t, i, "true") {
        Some(j) => Some((true, j)),
        None => match expect_lit(t, i, "false") {
            Some(j) => Some((false, j)),
            None => None,
        },
    }
}

fn list_lit(t: &Vec<char>, i: usize) -> (r: Option<(Vec<String>, usize)>)
    requires
        i <= t@.len(),
    ensures
        match r {
            Some((xs, j)) => i <= j <= t@.len() && list_at(suffix(t@, i as int)) == Some((strings_view(xs@), suffix(t@, j as int))),
            None => list_at(suffix(t@, i as int)) is None,
        },
{
    reveal(list_at);
    let n = t.len();
    if i < n && t[i] == ']' {
        assert(suffix(t@, i as int).drop_first() =~= suffix(t@, i + 1));
        let empty: Vec<String> = Vec::new();
        assert(strings_view(empty@) =~= Seq::<Seq<char>>::empty());
        return Some((empty, i + 1));
    }
    let (first, j0) = match string_lit(t, i) {
        Some(p) => p,
        None => {
            return None;
        },
    };
    let mut acc: Vec<String> = Vec::new();
    acc.push(first);
    assert(strings_view(acc@) =~= seq![first@]);
    let mut k: usize = j0;
    while k <= n
        invariant
            n == t@.len(),
            i <= k <= n,
            list_at(suffix(t@, i as int)) == more_at(suffix(t@, k as int), strings_view(acc@)),
        decreases n - k,
    {
        let ghost u = suffix(t@, k as int);
        if k == n {
            return None;
        }
        if t[k] == ',' {
            assert(u.drop_first() =~= suffix(t@, k + 1));
            match string_lit(t, k + 1) {
                Some((s, j)) => {
                    let ghost before = strings_view(acc@);
                    acc.push(s);
                    assert(strings_view(acc@) =~= before.push(s@));
                    k = j;
                },
                None => {
                    return None;
                },
            }
        } else if t[k] == ']' {
            assert(u.drop_first() =~= suffix(t@, k + 1));
            return Some((acc, k + 1));
        } else {
            return None;
        }
    }
    None
}

fn times_lit(t: &Vec<char>) -> (r: Option<(String, u64, u64, usize)>)
    ensures
        match r {
            Some((sub, exp, nbf, j)) => j <= t@.len() && times_at(t@) == Some((sub@, exp, nbf, suffix(t@, j as int))),
            None => times_at(t@) is None,
        },
{
    assert(suffix(t@, 0) =~= t@);
    let i = match expect_lit(t, 0, "{\"sub\":") { Some(i) => i, None => { return None; } };
    let (sub, i) = match string_lit(t, i) { Some(p) => p, None => { return None; } };
    let i = match expect_lit(t, i, ",\"exp\":") { Some(i) => i, None => { return None; } };
    let (exp, i) = match number_lit(t, i) { Some(p) => p, None => { return None; } };
    let i = match expect_lit(t, i, ",\"nbf\":") { Some(i) => i, None => { return None; } };
    let (nbf, i) = match number_lit(t, i) { Some(p) => p, None => { return None; } };
    Some((sub, exp, nbf, i))
}

fn profile_lit(t: &Vec<char>, i: usize) -> (r: Option<(bool, String, String, usize)>)
    requires
        i <= t@.len(),
    ensures
        match r {
            Some((premium, name, email, j)) => j <= t@.len() && profile_at(suffix(t@, i as int)) == Some(
                (premium, name@, email@, suffix(t@, j as int)),
            ),
            None => profile_at(suffix(t@, i as int)) is None,
        },
{
    let i = match expect_lit(t, i, ",\"premium\":") { Some(i) => i, None => { return None; } };
    let (premium, i) = match bool_lit(t, i) { Some(p) => p, None => { return None; } };
    let i = match expect_lit(t, i, ",\"name\":") { Some(i) => i, None => { return None; } };
    let (name, i) = match string_lit(t, i) { Some(p) => p, None => { return None; } };
    let i = match expect_lit(t, i, ",\"email\":") { Some(i) => i, None => { return None; } };
    let (email, i) = match string_lit(t, i) { Some(p) => p, None => { return None; } };
    Some((premium, name, email, i))
}

fn methods_lit(t: &Vec<char>, i: usize) -> (r: Option<(bool, Vec<String>)>)
    requires
        i <= t@.len(),
    ensures
        match r {
            Some((email_verified, amr)) => methods_at(suffix(t@, i as int)) == Some((email_verified, strings_view(amr@))),
            None => methods_at(suffix(t@, i as int)) is None,
        },
{
    let i = match expect_lit(t, i, ",\"email_verified\":") { Some(i) => i, None => { return None; } };
    let (email_verified, i) = match bool_lit(t, i) { Some(p) => p, None => { return None; } };
    let i = match expect_lit(t, i, ",\"amr\":[") { Some(i) => i, None => { return None; } };
    let (amr, i) = match list_lit(t, i) { Some(p) => p, None => { return None; } };
    if t.len() - i == 1 && t[i] == '}' {
        assert(suffix(t@, i as int) =~= seq!['}']);
        Some((email_verified, amr))
    } else {
        assert(suffix(t@, i as int) != seq!['}']) by {
            let u = suffix(t@, i as int);
            let e = seq!['}'];
            assert(e.len() == 1 && e[0] == '}');
            if t@.len() - i == 1 {
                assert(u[0] == t@[i as int]);
                assert(u[0] != e[0]);
            } else {
                assert(u.len() != e.len());
            }
        }
        None
    }
}

pub open spec fn claims_option_view(r: Option<Claims>) -> Option<ClaimsView> {
    match r {
        Some(c) => Some(c@),
        None => None,
    }
}

/// Reads a claims text: the claim set whose canonical text it is, if any.
pub fn parse_claims_json(text: &str) -> (r: Option<Claims>)
    ensures
        claims_option_view(r) == parse_claims(text@),
{
    let t = chars_of(text);
    let (sub, exp, nbf, i) = match times_lit(&t) { Some(p) => p, None => { return None; } };
    let (premium, name, email, i) = match profile_lit(&t, i) { Some(p) => p, None => { return None; } };
    let (email_verified, amr) = match methods_lit(&t, i) { Some(p) => p, None => { return None; } };
    let c = Claims { sub, exp, nbf, premium, name, email, email_verified, amr };
    Some(c)
}

} // verus!
