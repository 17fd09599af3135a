//! JSON text as the chat protocol writes it: string literals and numbers are
//! produced by `serde_json`; objects and arrays are framed here.

use vstd::prelude::*;

verus! {

/// The character of a hexadecimal digit `d` (`0 <= d < 16`), lower case.
pub open spec fn hex_digit(d: int) -> char {
    if d < 10 {
        (48 + d) as char
    } else {
        (87 + d) as char
    }
}

/// The character of a decimal digit `d` (`0 <= d < 10`).
pub open spec fn decimal_digit(d: int) -> char {
    (48 + d) as char
}

/// How one character stands inside a JSON string literal: quote and
/// backslash are escaped, control characters below U+0020 take their short
/// escape where JSON has one and `\u00XX` otherwise; every other character
/// stands for itself.
pub open spec fn escape_char(c: char) -> Seq<char> {
    if c == '"' {
        seq!['\\', '"']
    } else if c == '\\' {
        seq!['\\', '\\']
    } else if c == '\u{8}' {
        seq!['\\', 'b']
    } else if c == '\t' {
        seq!['\\', 't']
    } else if c == '\n' {
        seq!['\\', 'n']
    } else if c == '\u{c}' {
        seq!['\\', 'f']
    } else if c == '\r' {
        seq!['\\', 'r']
    } else if (c as int) < 32 {
        seq!['\\', 'u', '0', '0', hex_digit((c as int) / 16), hex_digit((c as int) % 16)]
    } else {
        seq![c]
    }
}

/// The escaped contents of a string literal, character by character.
pub open spec fn escape_text(s: Seq<char>) -> Seq<char>
    decreases s.len(),
{
    if s.len() == 0 {
        Seq::empty()
    } else {
        escape_char(s[0]) + escape_text(s.drop_first())
    }
}

/// The JSON string literal of `s`.
pub open spec fn json_string(s: Seq<char>) -> Seq<char> {
    seq!['"'] + escape_text(s) + seq!['"']
}

/// The decimal numeral of `n`, without leading zeros.
pub open spec fn decimal(n: nat) -> Seq<char>
    decreases n,
{
    if n < 10 {
        seq![decimal_digit(n as int)]
    } else {
        decimal(n / 10) + seq![decimal_digit((n % 10) as int)]
    }
}

/// `parts` with `sep` between each two neighbours.
pub open spec fn join(parts: Seq<Seq<char>>, sep: Seq<char>) -> Seq<char>
    decreases parts.len(),
{
    if parts.len() == 0 {
        Seq::empty()
    } else if parts.len() == 1 {
        parts[0]
    } else {
        join(parts.drop_last(), sep) + sep + parts.last()
    }
}

/// The JSON array of the string literals of `items`.
pub open spec fn json_string_array(items: Seq<Seq<char>>) -> Seq<char> {
    seq!['['] + join(items.map_values(|s: Seq<char>| json_string(s)), seq![',']) + seq![']']
}

/// Distinct digits have distinct characters.
proof fn lemma_hex_digit_injective(p: int, q: int)
    requires
        0 <= p < 16,
        0 <= q < 16,
        hex_digit(p) == hex_digit(q),
    ensures
        p == q,
{
    assert(hex_digit(p) as int == if p < 10 { 48 + p } else { 87 + p });
    assert(hex_digit(q) as int == if q < 10 { 48 + q } else { 87 + q });
}

/// The escape of a character is never empty; an escape that is longer than
/// one character starts with a backslash, and one that is not is the
/// character itself, which is then no backslash.
proof fn lemma_escape_char_shape(c: char)
    ensures
        escape_char(c).len() == 1 || escape_char(c).len() == 2 || escape_char(c).len() == 6,
        escape_char(c).len() == 1 ==> escape_char(c)[0] == c && c != '\\' && c != '"',
        escape_char(c).len() > 1 ==> escape_char(c)[0] == '\\',
{
}

/// Where two texts start with the escapes of two characters and agree, the
/// characters agree and so do the rests.
proof fn lemma_escape_char_prefix(c: char, d: char, x: Seq<char>, y: Seq<char>)
    requires
        escape_char(c) + x == escape_char(d) + y,
    ensures
        c == d,
        x == y,
{
    let ec = escape_char(c);
    let ed = escape_char(d);
    let s = ec + x;
    lemma_escape_char_shape(c);
    lemma_escape_char_shape(d);
    assert(s[0] == ec[0]);
    assert(s[0] == ed[0]);
    if ec.len() == 1 || ed.len() == 1 {
        assert(c == d);
    } else {
        assert(s[1] == ec[1]);
        assert(s[1] == ed[1]);
        if ec.len() == 6 || ed.len() == 6 {
            assert(ec.len() == 6 && ed.len() == 6);
            assert(s[4] == ec[4] && s[4] == ed[4]);
            assert(s[5] == ec[5] && s[5] == ed[5]);
            lemma_hex_digit_injective((c as int) / 16, (d as int) / 16);
            lemma_hex_digit_injective((c as int) % 16, (d as int) % 16);
            assert(c as int == d as int);
        }
        assert(c == d);
    }
    assert(x =~= s.subrange(ec.len() as int, s.len() as int));
    assert(y =~= s.subrange(ed.len() as int, s.len() as int));
}

/// Escaping loses nothing: two texts whose escapes agree are the same text.
pub proof fn lemma_escape_text_injective(a: Seq<char>, b: Seq<char>)
    requires
        escape_text(a) == escape_text(b),
    ensures
        a == b,
    decreases a.len(),
{
    if a.len() == 0 {
        if b.len() != 0 {
            lemma_escape_char_shape(b[0]);
        }
    } else {
        if b.len() == 0 {
            lemma_escape_char_shape(a[0]);
        } else {
            lemma_escape_char_prefix(a[0], b[0], escape_text(a.drop_first()), escape_text(b.drop_first()));
            lemma_escape_text_injective(a.drop_first(), b.drop_first());
            assert(a =~= seq![a[0]] + a.drop_first());
            assert(b =~= seq![b[0]] + b.drop_first());
        }
    }
}

/// Two texts with the same JSON string literal are the same text: the
/// literal that `serde_json` writes determines the text.
pub proof fn lemma_json_string_injective(a: Seq<char>, b: Seq<char>)
    requires
        json_string(a) == json_string(b),
    ensures
        a == b,
{
    let ja = json_string(a);
    let ea = escape_text(a);
    let eb = escape_text(b);
    assert(ea =~= ja.subrange(1, ja.len() - 1));
    assert(eb =~= ja.subrange(1, ja.len() - 1));
    lemma_escape_text_injective(a, b);
}

/// Where escaped texts, each closed by a quote, start two texts that
/// agree, the escaped texts are the same and so are the rests: the first
/// unescaped quote ends the escaped text.
pub proof fn lemma_escape_text_closed(s: Seq<char>, t: Seq<char>, r1: Seq<char>, r2: Seq<char>)
    requires
        escape_text(s) + seq!['"'] + r1 == escape_text(t) + seq!['"'] + r2,
    ensures
        s == t,
        r1 == r2,
    decreases s.len(),
{
    let lhs = escape_text(s) + seq!['"'] + r1;
    if s.len() == 0 {
        assert(lhs[0] == '"');
        if t.len() != 0 {
            lemma_escape_char_shape(t[0]);
            assert(lhs[0] == escape_char(t[0])[0]);
        }
        assert(r1 =~= lhs.skip(1));
        assert(r2 =~= lhs.skip(1));
    } else if t.len() == 0 {
        lemma_escape_char_shape(s[0]);
        assert(lhs[0] == escape_char(s[0])[0]);
    } else {
        let x1 = escape_text(s.drop_first()) + seq!['"'] + r1;
        let x2 = escape_text(t.drop_first()) + seq!['"'] + r2;
        assert(lhs =~= escape_char(s[0]) + x1);
        assert(lhs =~= escape_char(t[0]) + x2);
        lemma_escape_char_prefix(s[0], t[0], x1, x2);
        lemma_escape_text_closed(s.drop_first(), t.drop_first(), r1, r2);
        assert(s =~= seq![s[0]] + s.drop_first());
        assert(t =~= seq![t[0]] + t.drop_first());
    }
}

/// A JSON string literal ends where it ends: where two texts start with
/// string literals and agree, the literals' texts are the same and so are
/// the rests.
pub proof fn lemma_json_string_prefix(s: Seq<char>, t: Seq<char>, r1: Seq<char>, r2: Seq<char>)
    requires
        json_string(s) + r1 == json_string(t) + r2,
    ensures
        s == t,
        r1 == r2,
{
    let lhs = json_string(s) + r1;
    assert(lhs.skip(1) =~= escape_text(s) + seq!['"'] + r1);
    assert(lhs.skip(1) =~= escape_text(t) + seq!['"'] + r2);
    lemma_escape_text_closed(s, t, r1, r2);
}

/// Joining one part more appends the separator and the part.
pub proof fn lemma_join_push(parts: Seq<Seq<char>>, sep: Seq<char>, x: Seq<char>)
    ensures
        join(parts.push(x), sep) == if parts.len() == 0 {
            x
        } else {
            join(parts, sep) + sep + x
        },
{
    assert(parts.push(x).drop_last() =~= parts);
}

/// A join of two parts or more starts with the first part and the
/// separator.
pub proof fn lemma_join_front(parts: Seq<Seq<char>>, sep: Seq<char>)
    requires
        parts.len() >= 2,
    ensures
        join(parts, sep) == parts[0] + sep + join(parts.drop_first(), sep),
    decreases parts.len(),
{
    if parts.len() == 2 {
        assert(parts.drop_last() =~= seq![parts[0]]);
        assert(parts.drop_first() =~= seq![parts[1]]);
        assert(join(parts.drop_last(), sep) == parts[0]);
        assert(join(parts.drop_first(), sep) == parts[1]);
    } else {
        let dl = parts.drop_last();
        let df = parts.drop_first();
        lemma_join_front(dl, sep);
        assert(dl.drop_first() =~= df.drop_last());
        assert(dl[0] == parts[0]);
        assert(df.last() == parts.last());
        assert(join(df, sep) == join(df.drop_last(), sep) + sep + df.last());
        assert(join(parts, sep) == join(dl, sep) + sep + parts.last());
        assert(join(parts, sep) =~= parts[0] + sep + (join(df.drop_last(), sep) + sep + parts.last()));
    }
}

/// A decimal numeral is never empty.
proof fn lemma_decimal_nonempty(n: nat)
    ensures
        decimal(n).len() >= 1,
    decreases n,
{
    if n >= 10 {
        lemma_decimal_nonempty(n / 10);
    }
}

/// Two numbers with the same decimal numeral are the same number.
pub proof fn lemma_decimal_injective(n: nat, m: nat)
    requires
        decimal(n) == decimal(m),
    ensures
        n == m,
    decreases n,
{
    let d = decimal(n);
    if n >= 10 {
        lemma_decimal_nonempty(n / 10);
    }
    if m >= 10 {
        lemma_decimal_nonempty(m / 10);
    }
    if n < 10 && m < 10 {
        assert(d[0] == decimal_digit(n as int));
        assert(decimal(m)[0] == decimal_digit(m as int));
        assert(decimal_digit(n as int) as int == 48 + n);
        assert(decimal_digit(m as int) as int == 48 + m);
    } else if n < 10 {
        assert(d.len() == 1);
    } else if m < 10 {
        assert(d.len() == 1);
    } else {
        assert(d.last() == decimal_digit((n % 10) as int));
        assert(d.last() == decimal_digit((m % 10) as int));
        assert(decimal_digit((n % 10) as int) as int == 48 + n % 10);
        assert(decimal_digit((m % 10) as int) as int == 48 + m % 10);
        assert(decimal(n / 10) =~= d.drop_last());
        assert(decimal(m / 10) =~= d.drop_last());
        lemma_decimal_injective(n / 10, m / 10);
        assert(n == 10 * (n / 10) + n % 10);
        assert(m == 10 * (m / 10) + m % 10);
    }
}

#[verifier::external_type_specification]
#[verifier::external_body]
pub struct ExJsonError(serde_json::Error);

/// `serde_json::to_string` on a string slice. Its source writes the escaped
/// string into a `Vec<u8>`, which cannot fail, so the result is always `Ok`,
/// and the text is `"` + the escaped characters + `"`, escaped as the
/// `ESCAPE` table and `write_char_escape` of `serde_json::ser` do (lower-case
/// hexadecimal digits).
#[verifier::external_body]
fn serde_json_str(s: &str) -> (r: Result<String, serde_json::Error>)
    ensures
        r is Ok,
        r->Ok_0@ == json_string(s@),
{
    serde_json::to_string(s)
}

/// `serde_json::to_string` on a `u128`. Its source formats the number with
/// `itoa` into a `Vec<u8>`, which cannot fail: the result is always `Ok` and
/// holds the decimal numeral of the number.
#[verifier::external_body]
fn serde_json_u128(n: u128) -> (r: Result<String, serde_json::Error>)
    ensures
        r is Ok,
        r->Ok_0@ == decimal(n as nat),
{
    serde_json::to_string(&n)
}

/// Failure to encode a value as JSON.
#[derive(Debug)]
pub struct EncodeError;

/// The JSON string literal of `s`.
pub fn quote(s: &str) -> (r: Result<String, EncodeError>)
    ensures
        r matches Ok(q) && q@ == json_string(s@),
{
    match serde_json_str(s) {
        Ok(q) => Ok(q),
        Err(_) => Err(EncodeError),
    }
}

/// The JSON numeral of `n`.
pub fn number(n: u128) -> (r: Result<String, EncodeError>)
    ensures
        r matches Ok(q) && q@ == decimal(n as nat),
{
    match serde_json_u128(n) {
        Ok(q) => Ok(q),
        Err(_) => Err(EncodeError),
    }
}

/// `parts` joined with `sep` between each two neighbours.
pub fn join_strings(parts: &Vec<String>, sep: &str) -> (r: String)
    ensures
        r@ == join(parts.deep_view(), sep@),
{
    let ghost dv = parts.deep_view();
    let mut r = String::new();
    let n = parts.len();
    for i in 0..n
        invariant
            n == parts.len(),
            dv == parts.deep_view(),
            r@ == join(dv.take(i as int), sep@),
    {
        assert(dv.take(i + 1).drop_last() =~= dv.take(i as int));
        if i != 0 {
            r.append(sep);
        }
        r.append(parts[i].as_str());
    }
    assert(dv.take(n as int) =~= dv);
    r
}

/// The JSON array of the string literals of `items`.
pub fn string_array(items: &Vec<String>) -> (r: Result<String, EncodeError>)
    ensures
        r matches Ok(q) && q@ == json_string_array(items.deep_view()),
{
    let ghost dv = items.deep_view();
    let ghost quoted = dv.map_values(|s: Seq<char>| json_string(s));
    let mut body = String::new();
    let n = items.len();
    for i in 0..n
        invariant
            n == items.len(),
            dv == items.deep_view(),
            quoted == dv.map_values(|s: Seq<char>| json_string(s)),
            body@ == join(quoted.take(i as int), seq![',']),
    {
        let q = match quote(items[i].as_str()) {
            Ok(q) => q,
            Err(e) => return Err(e),
        };
        assert(quoted.take(i + 1).drop_last() =~= quoted.take(i as int));
        if i != 0 {
            body.append(",");
            proof { reveal_strlit(","); }
        }
        body.append(q.as_str());
    }
    assert(quoted.take(n as int) =~= quoted);
    let mut r = String::new();
    r.append("[");
    r.append(body.as_str());
    r.append("]");
    proof {
        reveal_strlit("[");
        reveal_strlit("]");
        assert(r@ =~= json_string_array(dv));
    }
    Ok(r)
}

} // verus!
