//! Verified building blocks for the JSON documents this crate emits and reads.
//!
//! JSON strings are escaped character by character: the quote, the backslash
//! and the common control characters get their two-character escapes, any
//! other control character below U+0020 gets a `\u00XX` escape, and every
//! remaining character stands for itself.  The parser in this module reads
//! exactly that canonical form back, so that escaping and unescaping are
//! proved to be inverses.
use vstd::prelude::*;
use vstd::string::StrSliceExecFns;
use vstd::string::StringExecFns;

verus! {

/// The hexadecimal digit character for a value below sixteen.
pub open spec fn hex_digit(n: int) -> char {
    if n == 0 {
        '0'
    } else if n == 1 {
        '1'
    } else if n == 2 {
        '2'
    } else if n == 3 {
        '3'
    } else if n == 4 {
        '4'
    } else if n == 5 {
        '5'
    } else if n == 6 {
        '6'
    } else if n == 7 {
        '7'
    } else if n == 8 {
        '8'
    } else if n == 9 {
        '9'
    } else if n == 10 {
        'a'
    } else if n == 11 {
        'b'
    } else if n == 12 {
        'c'
    } else if n == 13 {
        'd'
    } else if n == 14 {
        'e'
    } else {
        'f'
    }
}

/// The value of a hexadecimal digit character, or -1 for any other character.
pub open spec fn hex_val(c: char) -> int {
    if c == '0' {
        0
    } else if c == '1' {
        1
    } else if c == '2' {
        2
    } else if c == '3' {
        3
    } else if c == '4' {
        4
    } else if c == '5' {
        5
    } else if c == '6' {
        6
    } else if c == '7' {
        7
    } else if c == '8' {
        8
    } else if c == '9' {
        9
    } else if c == 'a' {
        10
    } else if c == 'b' {
        11
    } else if c == 'c' {
        12
    } else if c == 'd' {
        13
    } else if c == 'e' {
        14
    } else if c == 'f' {
        15
    } else {
        -1
    }
}

/// The escape sequence a single character contributes to a JSON string body.
pub open spec fn esc_char(c: char) -> Seq<char> {
    if c == '"' {
        seq!['\\', '"']
    } else if c == '\\' {
        seq!['\\', '\\']
    } else if c == '\n' {
        seq!['\\', 'n']
    } else if c == '\r' {
        seq!['\\', 'r']
    } else if c == '\t' {
        seq!['\\', 't']
    } else if (c as u32) < 0x20 {
        seq!['\\', 'u', '0', '0', hex_digit((c as u32) as int / 16), hex_digit((c as u32) as int % 16)]
    } else {
        seq![c]
    }
}

/// The escaped body of a JSON string holding the characters of `s`.
pub open spec fn esc(s: Seq<char>) -> Seq<char>
    decreases s.len(),
{
    if s.len() == 0 {
        Seq::<char>::empty()
    } else {
        esc_char(s[0]) + esc(s.drop_first())
    }
}

/// A complete JSON string: a quote, the escaped body, a quote.
pub open spec fn jstr(s: Seq<char>) -> Seq<char> {
    seq!['"'] + esc(s) + seq!['"']
}

/// Escaping distributes over concatenation.
pub proof fn lemma_esc_concat(a: Seq<char>, b: Seq<char>)
    ensures
        esc(a + b) == esc(a) + esc(b),
    decreases a.len(),
{
    if a.len() == 0 {
        assert(a + b =~= b);
        assert(esc(a) + esc(b) =~= esc(b));
    } else {
        assert((a + b).drop_first() =~= a.drop_first() + b);
        lemma_esc_concat(a.drop_first(), b);
        assert(a + b =~= seq![a[0]] + (a.drop_first() + b));
        assert((a + b).len() > 0);
        assert((a + b)[0] == a[0]);
        assert(esc(a + b) == esc_char(a[0]) + (esc(a.drop_first()) + esc(b)));
        assert(esc_char(a[0]) + (esc(a.drop_first()) + esc(b)) =~= (esc_char(a[0]) + esc(
            a.drop_first(),
        )) + esc(b));
    }
}

/// Escaping one more character appends that character's escape sequence.
pub proof fn lemma_esc_push(s: Seq<char>, c: char)
    ensures
        esc(s.push(c)) == esc(s) + esc_char(c),
{
    assert(s.push(c) =~= s + seq![c]);
    lemma_esc_concat(s, seq![c]);
    assert(seq![c].drop_first() =~= Seq::<char>::empty());
    assert(esc(seq![c]) == esc_char(c) + esc(Seq::<char>::empty()));
    assert(esc_char(c) + Seq::<char>::empty() =~= esc_char(c));
}

/// Relies on String::push: appends exactly one character to the string.
#[verifier::external_body]
fn push_char(out: &mut String, c: char)
    ensures
        final (out)@ == old(out)@ + seq![c],
{
    out.push(c);
}

/// The hexadecimal digit character for a value below sixteen.
fn hex_digit_exec(n: u8) -> (c: char)
    requires
        n < 16,
    ensures
        c == hex_digit(n as int),
{
    match n {
        0 => '0',
        1 => '1',
        2 => '2',
        3 => '3',
        4 => '4',
        5 => '5',
        6 => '6',
        7 => '7',
        8 => '8',
        9 => '9',
        10 => 'a',
        11 => 'b',
        12 => 'c',
        13 => 'd',
        14 => 'e',
        _ => 'f',
    }
}

/// Appends the escape sequence of one character to `out`.
fn append_esc_char(out: &mut String, c: char)
    ensures
        final (out)@ == old(out)@ + esc_char(c),
{
    if c == '"' {
        push_char(out, '\\');
        push_char(out, '"');
        assert(final (out)@ =~= old(out)@ + esc_char(c));
    } else if c == '\\' {
        push_char(out, '\\');
        push_char(out, '\\');
        assert(final (out)@ =~= old(out)@ + esc_char(c));
    } else if c == '\n' {
        push_char(out, '\\');
        push_char(out, 'n');
        assert(final (out)@ =~= old(out)@ + esc_char(c));
    } else if c == '\r' {
        push_char(out, '\\');
        push_char(out, 'r');
        assert(final (out)@ =~= old(out)@ + esc_char(c));
    } else if c == '\t' {
        push_char(out, '\\');
        push_char(out, 't');
        assert(final (out)@ =~= old(out)@ + esc_char(c));
    } else if (c as u32) < 0x20 {
        let code = c as u32;
        let hi = hex_digit_exec((code / 16) as u8);
        let lo = hex_digit_exec((code % 16) as u8);
        push_char(out, '\\');
        push_char(out, 'u');
        push_char(out, '0');
        push_char(out, '0');
        push_char(out, hi);
        push_char(out, lo);
        assert(final (out)@ =~= old(out)@ + esc_char(c));
    } else {
        push_char(out, c);
        assert(final (out)@ =~= old(out)@ + esc_char(c));
    }
}

/// Appends the escaped body of `s` to `out`.
fn append_escaped(out: &mut String, s: &str)
    ensures
        final (out)@ == old(out)@ + esc(s@),
{
    let n = s.unicode_len();
    let mut i: usize = 0;
    proof {
        assert(s@.subrange(0, 0) =~= Seq::<char>::empty());
        assert(old(out)@ + esc(s@.subrange(0, 0)) =~= old(out)@);
    }
    while i < n
        invariant
            i <= n,
            n == s@.len(),
            out@ == old(out)@ + esc(s@.subrange(0, i as int)),
        decreases n - i,
    {
        let c = s.get_char(i);
        append_esc_char(out, c);
        proof {
            assert(s@.subrange(0, i + 1 as int) =~= s@.subrange(0, i as int).push(s@[i as int]));
            lemma_esc_push(s@.subrange(0, i as int), s@[i as int]);
            assert((old(out)@ + esc(s@.subrange(0, i as int))) + esc_char(s@[i as int]) =~= old(
                out,
            )@ + esc(s@.subrange(0, i + 1 as int)));
        }
        i += 1;
    }
    proof {
        assert(s@.subrange(0, n as int) =~= s@);
    }
}

/// Appends a complete JSON string holding the characters of `s` to `out`.
pub fn append_json_string(out: &mut String, s: &str)
    ensures
        final (out)@ == old(out)@ + jstr(s@),
{
    push_char(out, '"');
    append_escaped(out, s);
    push_char(out, '"');
    assert(final (out)@ =~= old(out)@ + jstr(s@));
}

/// Whether `c` may follow a backslash as a one-character escape.
pub open spec fn is_simple_escape(c: char) -> bool {
    c == '"' || c == '\\' || c == 'n' || c == 'r' || c == 't'
}

/// The character a one-character escape stands for.
pub open spec fn unesc_simple(c: char) -> char {
    if c == '"' {
        '"'
    } else if c == '\\' {
        '\\'
    } else if c == 'n' {
        '\n'
    } else if c == 'r' {
        '\r'
    } else {
        '\t'
    }
}

/// Reads a JSON string body up to and including its closing quote.
///
/// On success the result holds the unescaped characters and whatever follows
/// the closing quote.  `\uXXXX` escapes are accepted for code points below
/// 256, which covers everything the escaper emits.
pub open spec fn parse_str_body(s: Seq<char>) -> Option<(Seq<char>, Seq<char>)>
    decreases s.len(),
{
    if s.len() == 0 {
        None
    } else if s[0] == '"' {
        Some((Seq::<char>::empty(), s.drop_first()))
    } else if s[0] == '\\' {
        if s.len() >= 2 && is_simple_escape(s[1]) {
            match parse_str_body(s.subrange(2, s.len() as int)) {
                Some(p) => Some((seq![unesc_simple(s[1])] + p.0, p.1)),
                None => None,
            }
        } else if s.len() >= 6 && s[1] == 'u' && hex_val(s[2]) >= 0 && hex_val(s[3]) >= 0
            && hex_val(s[4]) >= 0 && hex_val(s[5]) >= 0 && hex_val(s[2]) * 4096 + hex_val(s[3])
            * 256 + hex_val(s[4]) * 16 + hex_val(s[5]) < 256 {
            match parse_str_body(s.subrange(6, s.len() as int)) {
                Some(p) => Some(
                    (
                        seq![
                            (((hex_val(s[2]) * 4096 + hex_val(s[3]) * 256 + hex_val(s[4]) * 16
                                + hex_val(s[5])) as u8) as char)
                        ] + p.0,
                        p.1,
                    ),
                ),
                None => None,
            }
        } else {
            None
        }
    } else {
        match parse_str_body(s.drop_first()) {
            Some(p) => Some((seq![s[0]] + p.0, p.1)),
            None => None,
        }
    }
}

/// Parsing a string body consumes at least the closing quote.
pub proof fn lemma_parse_str_body_shrinks(s: Seq<char>)
    ensures
        parse_str_body(s) matches Some(p) ==> p.1.len() < s.len(),
    decreases s.len(),
{
    if s.len() == 0 {
    } else if s[0] == '"' {
    } else if s[0] == '\\' {
        if s.len() >= 2 && is_simple_escape(s[1]) {
            lemma_parse_str_body_shrinks(s.subrange(2, s.len() as int));
        } else if s.len() >= 6 && s[1] == 'u' && hex_val(s[2]) >= 0 && hex_val(s[3]) >= 0
            && hex_val(s[4]) >= 0 && hex_val(s[5]) >= 0 && hex_val(s[2]) * 4096 + hex_val(s[3])
            * 256 + hex_val(s[4]) * 16 + hex_val(s[5]) < 256 {
            lemma_parse_str_body_shrinks(s.subrange(6, s.len() as int));
        }
    } else {
        lemma_parse_str_body_shrinks(s.drop_first());
    }
}

/// Unescaping inverts escaping: a string body made of `esc(s)` followed by the
/// closing quote parses back to exactly `s`, leaving `rest` untouched.
pub proof fn lemma_parse_esc(s: Seq<char>, rest: Seq<char>)
    ensures
        parse_str_body(esc(s) + seq!['"'] + rest) == Some((s, rest)),
    decreases s.len(),
{
    let t = esc(s) + seq!['"'] + rest;
    if s.len() == 0 {
        assert(t =~= seq!['"'] + rest);
        assert(t[0] == '"');
        assert(t.drop_first() =~= rest);
        assert(parse_str_body(t) == Some((Seq::<char>::empty(), rest)));
        assert(Seq::<char>::empty() =~= s);
    } else {
        let c = s[0];
        let tail = esc(s.drop_first()) + seq!['"'] + rest;
        assert(t =~= esc_char(c) + tail);
        lemma_parse_esc(s.drop_first(), rest);
        if c == '"' || c == '\\' || c == '\n' || c == '\r' || c == '\t' {
            let x = if c == '"' {
                '"'
            } else if c == '\\' {
                '\\'
            } else if c == '\n' {
                'n'
            } else if c == '\r' {
                'r'
            } else {
                't'
            };
            assert(esc_char(c) =~= seq!['\\', x]);
            assert(t[0] == '\\');
            assert(t.len() >= 2);
            assert(t[1] == x);
            assert(is_simple_escape(x));
            assert(t.subrange(2, t.len() as int) =~= tail);
            assert(unesc_simple(x) == c);
            assert(seq![c] + s.drop_first() =~= s);
        } else if (c as u32) < 0x20 {
            let v = (c as u32) as int;
            vstd::arithmetic::div_mod::lemma_fundamental_div_mod(v, 16);
            assert(0 <= v / 16 < 16) by {
                vstd::arithmetic::div_mod::lemma_div_nonincreasing(v, 16);
                vstd::arithmetic::div_mod::lemma_div_pos_is_pos(v, 16);
            }
            assert(0 <= v % 16 < 16);
            let h1 = hex_digit(v / 16);
            let h2 = hex_digit(v % 16);
            assert(esc_char(c) =~= seq!['\\', 'u', '0', '0', h1, h2]);
            assert(t[0] == '\\');
            assert(t.len() >= 6);
            assert(t[1] == 'u');
            assert(t[2] == '0' && t[3] == '0' && t[4] == h1 && t[5] == h2);
            assert(hex_val('0') == 0);
            assert(hex_val(h1) == v / 16);
            assert(hex_val(h2) == v % 16);
            assert(!is_simple_escape('u'));
            let val = hex_val(t[2]) * 4096 + hex_val(t[3]) * 256 + hex_val(t[4]) * 16 + hex_val(
                t[5],
            );
            assert(val == (v / 16) * 16 + v % 16);
            assert(val == v);
            assert(t.subrange(6, t.len() as int) =~= tail);
            assert(((val as u8) as char) == c) by {
                assert(((val as u8) as char) as u32 == c as u32);
                vstd::utf8::char_u32_cast(c, c as u32);
                vstd::utf8::char_u32_cast((val as u8) as char, c as u32);
            }
            assert(seq![c] + s.drop_first() =~= s);
        } else {
            assert(esc_char(c) =~= seq![c]);
            assert(t[0] == c);
            assert(c != '"' && c != '\\');
            assert(t.drop_first() =~= tail);
            assert(seq![c] + s.drop_first() =~= s);
        }
    }
}

/// The text of a JSON boolean.
pub open spec fn jbool(b: bool) -> Seq<char> {
    if b {
        "true"@
    } else {
        "false"@
    }
}

/// The text of an optional JSON boolean: `null` when absent.
pub open spec fn jopt_bool(b: Option<bool>) -> Seq<char> {
    match b {
        Some(x) => jbool(x),
        None => "null"@,
    }
}

/// Already-rendered pieces joined with commas, in order.
pub open spec fn join_comma(rs: Seq<Seq<char>>) -> Seq<char>
    decreases rs.len(),
{
    if rs.len() == 0 {
        Seq::<char>::empty()
    } else if rs.len() == 1 {
        rs[0]
    } else {
        rs[0] + ","@ + join_comma(rs.drop_first())
    }
}

/// Joining one more piece appends a comma and that piece.
pub proof fn lemma_join_comma_push(rs: Seq<Seq<char>>, x: Seq<char>)
    requires
        rs.len() >= 1,
    ensures
        join_comma(rs.push(x)) == join_comma(rs) + ","@ + x,
    decreases rs.len(),
{
    if rs.len() == 1 {
        assert(rs.push(x).drop_first() =~= seq![x]);
        assert(rs.push(x)[0] == rs[0]);
        assert(join_comma(seq![x]) == x);
        assert(join_comma(rs.push(x)) == rs[0] + ","@ + x);
    } else {
        lemma_join_comma_push(rs.drop_first(), x);
        assert(rs.push(x).drop_first() =~= rs.drop_first().push(x));
        assert(rs.push(x)[0] == rs[0]);
        assert(join_comma(rs.push(x)) == rs[0] + ","@ + (join_comma(rs.drop_first()) + ","@ + x));
        assert(rs[0] + ","@ + (join_comma(rs.drop_first()) + ","@ + x) =~= (rs[0] + ","@
            + join_comma(rs.drop_first())) + ","@ + x);
    }
}

/// Appends the text of a JSON boolean to `out`.
pub fn append_bool(out: &mut String, b: bool)
    ensures
        final (out)@ == old(out)@ + jbool(b),
{
    if b {
        out.append("true");
    } else {
        out.append("false");
    }
}

/// Appends the text of an optional JSON boolean to `out`.
pub fn append_opt_bool(out: &mut String, b: &Option<bool>)
    ensures
        final (out)@ == old(out)@ + jopt_bool(*b),
{
    match b {
        Some(x) => append_bool(out, *x),
        None => out.append("null"),
    }
}

/// The suffix of `s` from position `i` on.
pub open spec fn suffix(s: Seq<char>, i: int) -> Seq<char> {
    s.subrange(i, s.len() as int)
}

/// Prepends already-read characters to a partial parse result.
pub open spec fn prepend_parse(pre: Seq<char>, p: Option<(Seq<char>, Seq<char>)>) -> Option<
    (Seq<char>, Seq<char>),
> {
    match p {
        Some(q) => Some((pre + q.0, q.1)),
        None => None,
    }
}

/// Prepending distributes over composition.
pub proof fn lemma_prepend_compose(a: Seq<char>, b: Seq<char>, p: Option<(Seq<char>, Seq<char>)>)
    ensures
        prepend_parse(a, prepend_parse(b, p)) == prepend_parse(a + b, p),
{
    match p {
        Some(q) => {
            assert(a + (b + q.0) =~= (a + b) + q.0);
        },
        None => {},
    }
}

/// The characters of `s`, in order, as a vector.
pub fn str_chars(s: &str) -> (r: Vec<char>)
    ensures
        r@ == s@,
{
    let n = s.unicode_len();
    let mut r: Vec<char> = Vec::new();
    let mut i: usize = 0;
    while i < n
        invariant
            i <= n,
            n == s@.len(),
            r@ == s@.subrange(0, i as int),
        decreases n - i,
    {
        r.push(s.get_char(i));
        proof {
            assert(s@.subrange(0, i + 1 as int) =~= s@.subrange(0, i as int).push(s@[i as int]));
        }
        i += 1;
    }
    proof {
        assert(s@.subrange(0, n as int) =~= s@);
    }
    r
}

/// The value of a hexadecimal digit character.
fn hex_val_exec(c: char) -> (r: Option<u8>)
    ensures
        match r {
            Some(v) => hex_val(c) == v as int && v < 16,
            None => hex_val(c) == -1,
        },
{
    match c {
        '0' => Some(0),
        '1' => Some(1),
        '2' => Some(2),
        '3' => Some(3),
        '4' => Some(4),
        '5' => Some(5),
        '6' => Some(6),
        '7' => Some(7),
        '8' => Some(8),
        '9' => Some(9),
        'a' => Some(10),
        'b' => Some(11),
        'c' => Some(12),
        'd' => Some(13),
        'e' => Some(14),
        'f' => Some(15),
        _ => None,
    }
}

/// Reads a JSON string body out of `s` starting at `start`, returning the
/// unescaped text and the position right after the closing quote.
pub fn parse_string_body_exec(s: &Vec<char>, start: usize) -> (r: Option<(String, usize)>)
    requires
        start <= s@.len(),
    ensures
        match r {
            Some(p) => p.1 <= s@.len() && parse_str_body(suffix(s@, start as int)) == Some(
                (p.0@, suffix(s@, p.1 as int)),
            ),
            None => parse_str_body(suffix(s@, start as int)) is None,
        },
{
    let mut acc = String::new();
    let mut i: usize = start;
    loop
        invariant
            start <= i <= s@.len(),
            parse_str_body(suffix(s@, start as int)) == prepend_parse(
                acc@,
                parse_str_body(suffix(s@, i as int)),
            ),
        decreases s@.len() - i,
    {
        let ghost si = suffix(s@, i as int);
        if i == s.len() {
            proof {
                assert(si.len() == 0);
            }
            return None;
        }
        let c = s[i];
        proof {
            assert(si[0] == s@[i as int]);
        }
        if c == '"' {
            proof {
                assert(si.drop_first() =~= suffix(s@, i + 1 as int));
                assert(acc@ + Seq::<char>::empty() =~= acc@);
            }
            return Some((acc, i + 1));
        } else if c == '\\' {
            if i + 1 == s.len() {
                proof {
                    assert(si.len() == 1);
                }
                return None;
            }
            let e = s[i + 1];
            proof {
                assert(si.len() >= 2);
                assert(si[1] == s@[i + 1 as int]);
            }
            if e == '"' || e == '\\' || e == 'n' || e == 'r' || e == 't' {
                let u = if e == '"' {
                    '"'
                } else if e == '\\' {
                    '\\'
                } else if e == 'n' {
                    '\n'
                } else if e == 'r' {
                    '\r'
                } else {
                    '\t'
                };
                proof {
                    assert(is_simple_escape(e));
                    assert(u == unesc_simple(e));
                    assert(si.subrange(2, si.len() as int) =~= suffix(s@, i + 2 as int));
                    assert(parse_str_body(si) == prepend_parse(
                        seq![u],
                        parse_str_body(suffix(s@, i + 2 as int)),
                    ));
                    lemma_prepend_compose(acc@, seq![u], parse_str_body(suffix(s@, i + 2 as int)));
                    assert(acc@ + seq![u] =~= acc@.push(u));
                }
                push_char(&mut acc, u);
                i = i + 2;
            } else if e == 'u' {
                proof {
                    assert(!is_simple_escape(e));
                }
                if s.len() - i < 6 {
                    proof {
                        assert(si.len() < 6);
                    }
                    return None;
                }
                proof {
                    assert(si.len() >= 6);
                    assert(si[2] == s@[i + 2 as int]);
                    assert(si[3] == s@[i + 3 as int]);
                    assert(si[4] == s@[i + 4 as int]);
                    assert(si[5] == s@[i + 5 as int]);
                }
                let h2 = hex_val_exec(s[i + 2]);
                let h3 = hex_val_exec(s[i + 3]);
                let h4 = hex_val_exec(s[i + 4]);
                let h5 = hex_val_exec(s[i + 5]);
                match (h2, h3, h4, h5) {
                    (Some(a), Some(b), Some(cc), Some(d)) => {
                        let val: u32 = (a as u32) * 4096 + (b as u32) * 256 + (cc as u32) * 16
                            + (d as u32);
                        if val >= 256 {
                            return None;
                        }
                        let ch = (val as u8) as char;
                        proof {
                            assert(si.subrange(6, si.len() as int) =~= suffix(s@, i + 6 as int));
                            assert(parse_str_body(si) == prepend_parse(
                                seq![ch],
                                parse_str_body(suffix(s@, i + 6 as int)),
                            ));
                            lemma_prepend_compose(
                                acc@,
                                seq![ch],
                                parse_str_body(suffix(s@, i + 6 as int)),
                            );
                            assert(acc@ + seq![ch] =~= acc@.push(ch));
                        }
                        push_char(&mut acc, ch);
                        i = i + 6;
                    },
                    _ => {
                        return None;
                    },
                }
            } else {
                proof {
                    assert(!is_simple_escape(e));
                    assert(e != 'u');
                }
                return None;
            }
        } else {
            proof {
                assert(si.drop_first() =~= suffix(s@, i + 1 as int));
                assert(parse_str_body(si) == prepend_parse(
                    seq![c],
                    parse_str_body(suffix(s@, i + 1 as int)),
                ));
                lemma_prepend_compose(acc@, seq![c], parse_str_body(suffix(s@, i + 1 as int)));
                assert(acc@ + seq![c] =~= acc@.push(c));
            }
            push_char(&mut acc, c);
            i = i + 1;
        }
    }
}

} // verus!
