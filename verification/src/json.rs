//! Canonical JSON text, built and read by hand.
//!
//! The snapshot file and the pipeline document are fixed-shape JSON values
//! whose encoding this library owns: keys in a fixed sorted order, no
//! incidental whitespace, absent optional fields omitted rather than null.
//! This module holds the character-level pieces: string escaping with its
//! inverse, literal matching, and decimal rendering.

use vstd::prelude::*;

use crate::text::push_char;

verus! {

/// The hexadecimal digit character for `n`, lower case.
pub open spec fn hex_char(n: int) -> char {
    if n == 0 {
        '0'
    } else if n == 1 {
        '1'
    } else if n == 2 {
        '2'
    } else if n == 3 {
        '3'
    } else if n == 4 {
        '4'
    } else if n == 5 {
        '5'
    } else if n == 6 {
        '6'
    } else if n == 7 {
        '7'
    } else if n == 8 {
        '8'
    } else if n == 9 {
        '9'
    } else if n == 10 {
        'a'
    } else if n == 11 {
        'b'
    } else if n == 12 {
        'c'
    } else if n == 13 {
        'd'
    } else if n == 14 {
        'e'
    } else {
        'f'
    }
}

/// The value of a hexadecimal digit character, or a marker below zero.
pub open spec fn hex_val(c: char) -> int {
    if c == '0' {
        0
    } else if c == '1' {
        1
    } else if c == '2' {
        2
    } else if c == '3' {
        3
    } else if c == '4' {
        4
    } else if c == '5' {
        5
    } else if c == '6' {
        6
    } else if c == '7' {
        7
    } else if c == '8' {
        8
    } else if c == '9' {
        9
    } else if c == 'a' {
        10
    } else if c == 'b' {
        11
    } else if c == 'c' {
        12
    } else if c == 'd' {
        13
    } else if c == 'e' {
        14
    } else if c == 'f' {
        15
    } else {
        -1
    }
}

/// How one character appears inside a JSON string: quote, backslash and the
/// named control characters get their short escapes, other control characters
/// a `\u00` escape, everything else stands literally.
pub open spec fn escape_char(c: char) -> Seq<char> {
    if c == '"' {
        seq!['\\', '"']
    } else if c == '\\' {
        seq!['\\', '\\']
    } else if c == '\n' {
        seq!['\\', 'n']
    } else if c == '\r' {
        seq!['\\', 'r']
    } else if c == '\t' {
        seq!['\\', 't']
    } else if c == '\u{8}' {
        seq!['\\', 'b']
    } else if c == '\u{c}' {
        seq!['\\', 'f']
    } else if (c as u32) < 32 {
        seq!['\\', 'u', '0', '0', hex_char((c as u32) as int / 16), hex_char((c as u32) as int % 16)]
    } else {
        seq![c]
    }
}

/// The body of a JSON string for the text `s`.
pub open spec fn escape_string(s: Seq<char>) -> Seq<char>
    decreases s.len(),
{
    if s.len() == 0 {
        Seq::empty()
    } else {
        escape_char(s[0]) + escape_string(s.skip(1))
    }
}

/// Reads a JSON string body up to its closing quote, `acc` holding the text
/// read so far; yields the text and what follows the closing quote.
pub open spec fn parse_string_body(s: Seq<char>, acc: Seq<char>) -> Option<(Seq<char>, Seq<char>)>
    decreases s.len(),
{
    if s.len() == 0 {
        None
    } else if s[0] == '"' {
        Some((acc, s.skip(1)))
    } else if s[0] == '\\' {
        if s.len() < 2 {
            None
        } else {
            let e = s[1];
            if e == '"' {
                parse_string_body(s.skip(2), acc.push('"'))
            } else if e == '\\' {
                parse_string_body(s.skip(2), acc.push('\\'))
            } else if e == 'n' {
                parse_string_body(s.skip(2), acc.push('\n'))
            } else if e == 'r' {
                parse_string_body(s.skip(2), acc.push('\r'))
            } else if e == 't' {
                parse_string_body(s.skip(2), acc.push('\t'))
            } else if e == 'b' {
                parse_string_body(s.skip(2), acc.push('\u{8}'))
            } else if e == 'f' {
                parse_string_body(s.skip(2), acc.push('\u{c}'))
            } else if e == 'u' {
                if s.len() < 6 {
                    None
                } else if s[2] == '0' && s[3] == '0' && 0 <= hex_val(s[4]) && 0 <= hex_val(s[5]) {
                    parse_string_body(
                        s.skip(6),
                        acc.push((((hex_val(s[4]) * 16 + hex_val(s[5])) as u32) as char)),
                    )
                } else {
                    None
                }
            } else {
                None
            }
        }
    } else {
        parse_string_body(s.skip(1), acc.push(s[0]))
    }
}

/// Parsing inverts escaping: the escaped text, a closing quote and anything
/// after parse back to exactly the text.
pub proof fn lemma_parse_escape(v: Seq<char>, rest: Seq<char>, acc: Seq<char>)
    ensures
        parse_string_body(escape_string(v) + seq!['"'] + rest, acc) == Some((acc + v, rest)),
    decreases v.len(),
{
    broadcast use vstd::utf8::char_u32_cast;

    let s = escape_string(v) + seq!['"'] + rest;
    if v.len() == 0 {
        assert(s =~= seq!['"'] + rest);
        assert(s[0] == '"');
        assert(s.skip(1) =~= rest);
        assert(acc + v =~= acc);
    } else {
        let c = v[0];
        let v1 = v.skip(1);
        assert(s =~= escape_char(c) + (escape_string(v1) + seq!['"'] + rest));
        let s_tail = escape_string(v1) + seq!['"'] + rest;
        lemma_parse_escape(v1, rest, acc.push(c));
        assert(acc.push(c) + v1 =~= acc + v);
        if c == '"' {
            assert(s =~= seq!['\\', '"'] + s_tail);
            assert(s[0] == '\\' && s[1] == '"');
            assert(s.skip(2) =~= s_tail);
        } else if c == '\\' {
            assert(s =~= seq!['\\', '\\'] + s_tail);
            assert(s[0] == '\\' && s[1] == '\\');
            assert(s.skip(2) =~= s_tail);
        } else if c == '\n' {
            assert(s =~= seq!['\\', 'n'] + s_tail);
            assert(s[0] == '\\' && s[1] == 'n');
            assert(s.skip(2) =~= s_tail);
        } else if c == '\r' {
            assert(s =~= seq!['\\', 'r'] + s_tail);
            assert(s.skip(2) =~= s_tail);
        } else if c == '\t' {
            assert(s =~= seq!['\\', 't'] + s_tail);
            assert(s.skip(2) =~= s_tail);
        } else if c == '\u{8}' {
            assert(s =~= seq!['\\', 'b'] + s_tail);
            assert(s.skip(2) =~= s_tail);
        } else if c == '\u{c}' {
            assert(s =~= seq!['\\', 'f'] + s_tail);
            assert(s.skip(2) =~= s_tail);
        } else if (c as u32) < 32 {
            let u = (c as u32) as int;
            assert(s =~= seq!['\\', 'u', '0', '0', hex_char(u / 16), hex_char(u % 16)] + s_tail);
            assert(s[0] == '\\' && s[1] == 'u' && s[2] == '0' && s[3] == '0');
            assert(s[4] == hex_char(u / 16) && s[5] == hex_char(u % 16));
            assert(hex_val(hex_char(u / 16)) == u / 16 && hex_val(hex_char(u % 16)) == u % 16);
            assert(hex_val(s[4]) * 16 + hex_val(s[5]) == u);
            assert(((hex_val(s[4]) * 16 + hex_val(s[5])) as u32) == (c as u32));
            vstd::utf8::char_u32_cast(c, c as u32);
            assert((((hex_val(s[4]) * 16 + hex_val(s[5])) as u32) as char) == c);
            assert(s.skip(6) =~= s_tail);
        } else {
            assert(s =~= seq![c] + s_tail);
            assert(s[0] == c);
            assert(c != '"' && c != '\\');
            assert(s.skip(1) =~= s_tail);
        }
    }
}

/// `rest` after the literal `lit`, when `s` starts with it.
pub open spec fn expect(s: Seq<char>, lit: Seq<char>) -> Option<Seq<char>> {
    if lit.len() <= s.len() && s.take(lit.len() as int) == lit {
        Some(s.skip(lit.len() as int))
    } else {
        None
    }
}

/// A literal at the front is always matched and consumed.
pub proof fn lemma_expect_prefix(lit: Seq<char>, rest: Seq<char>)
    ensures
        expect(lit + rest, lit) == Some(rest),
{
    assert((lit + rest).take(lit.len() as int) =~= lit);
    assert((lit + rest).skip(lit.len() as int) =~= rest);
}

/// The decimal digits of `n`, most significant first.
pub open spec fn dec_str(n: nat) -> Seq<char>
    decreases n,
{
    if n < 10 {
        seq![hex_char(n as int)]
    } else {
        dec_str(n / 10) + seq![hex_char((n % 10) as int)]
    }
}

/// A complete JSON string: quote, escaped body, quote.
pub open spec fn json_quoted(v: Seq<char>) -> Seq<char> {
    seq!['"'] + escape_string(v) + seq!['"']
}

/// The spelling of a JSON boolean.
pub open spec fn bool_str(b: bool) -> Seq<char> {
    if b {
        seq!['t', 'r', 'u', 'e']
    } else {
        seq!['f', 'a', 'l', 's', 'e']
    }
}

fn hex_char_exec(n: u32) -> (r: char)
    requires
        n < 16,
    ensures
        r == hex_char(n as int),
{
    if n == 0 {
        '0'
    } else if n == 1 {
        '1'
    } else if n == 2 {
        '2'
    } else if n == 3 {
        '3'
    } else if n == 4 {
        '4'
    } else if n == 5 {
        '5'
    } else if n == 6 {
        '6'
    } else if n == 7 {
        '7'
    } else if n == 8 {
        '8'
    } else if n == 9 {
        '9'
    } else if n == 10 {
        'a'
    } else if n == 11 {
        'b'
    } else if n == 12 {
        'c'
    } else if n == 13 {
        'd'
    } else if n == 14 {
        'e'
    } else {
        'f'
    }
}

fn hex_val_exec(c: char) -> (r: Option<u8>)
    ensures
        match r {
            Some(v) => hex_val(c) == v as int && v < 16,
            None => hex_val(c) < 0,
        },
{
    if c == '0' {
        Some(0)
    } else if c == '1' {
        Some(1)
    } else if c == '2' {
        Some(2)
    } else if c == '3' {
        Some(3)
    } else if c == '4' {
        Some(4)
    } else if c == '5' {
        Some(5)
    } else if c == '6' {
        Some(6)
    } else if c == '7' {
        Some(7)
    } else if c == '8' {
        Some(8)
    } else if c == '9' {
        Some(9)
    } else if c == 'a' {
        Some(10)
    } else if c == 'b' {
        Some(11)
    } else if c == 'c' {
        Some(12)
    } else if c == 'd' {
        Some(13)
    } else if c == 'e' {
        Some(14)
    } else if c == 'f' {
        Some(15)
    } else {
        None
    }
}

proof fn lemma_escape_snoc(prefix: Seq<char>, c: char)
    ensures
        escape_string(prefix.push(c)) == escape_string(prefix) + escape_char(c),
    decreases prefix.len(),
{
    if prefix.len() == 0 {
        assert(prefix.push(c) =~= seq![c]);
        assert(seq![c].skip(1) =~= Seq::<char>::empty());
        assert(escape_string(Seq::<char>::empty()) == Seq::<char>::empty());
        assert(escape_string(seq![c]) == escape_char(c) + Seq::<char>::empty());
        assert(escape_char(c) + Seq::<char>::empty() =~= escape_char(c));
        assert(escape_string(prefix) + escape_char(c) =~= escape_char(c));
    } else {
        let p = prefix.push(c);
        assert(p[0] == prefix[0]);
        assert(p.skip(1) =~= prefix.skip(1).push(c));
        lemma_escape_snoc(prefix.skip(1), c);
        assert(escape_char(prefix[0]) + (escape_string(prefix.skip(1)) + escape_char(c)) =~= (
        escape_char(prefix[0]) + escape_string(prefix.skip(1))) + escape_char(c));
    }
}

/// Appends the escaped body of `s` to `out`.
pub(crate) fn push_escaped(out: &mut String, s: &str)
    ensures
        final(out)@ == old(out)@ + escape_string(s@),
{
    let sv = crate::text::chars_vec(s);
    let mut i: usize = 0;
    proof {
        assert(s@.take(0) =~= Seq::<char>::empty());
        assert(old(out)@ + escape_string(s@.take(0)) =~= old(out)@);
    }
    while i < sv.len()
        invariant
            sv@ == s@,
            i <= sv@.len(),
            out@ == old(out)@ + escape_string(s@.take(i as int)),
        decreases sv@.len() - i,
    {
        let c = sv[i];
        let ghost out0 = out@;
        if c == '"' {
            push_char(out, '\\');
            push_char(out, '"');
        } else if c == '\\' {
            push_char(out, '\\');
            push_char(out, '\\');
        } else if c == '\n' {
            push_char(out, '\\');
            push_char(out, 'n');
        } else if c == '\r' {
            push_char(out, '\\');
            push_char(out, 'r');
        } else if c == '\t' {
            push_char(out, '\\');
            push_char(out, 't');
        } else if c == '\u{8}' {
            push_char(out, '\\');
            push_char(out, 'b');
        } else if c == '\u{c}' {
            push_char(out, '\\');
            push_char(out, 'f');
        } else if (c as u32) < 32 {
            let u = c as u32;
            push_char(out, '\\');
            push_char(out, 'u');
            push_char(out, '0');
            push_char(out, '0');
            push_char(out, hex_char_exec(u / 16));
            push_char(out, hex_char_exec(u % 16));
        } else {
            push_char(out, c);
        }
        assert(out@ =~= out0 + escape_char(c));
        proof {
            lemma_escape_snoc(s@.take(i as int), c);
            assert(s@.take(i + 1) =~= s@.take(i as int).push(c));
            assert((old(out)@ + escape_string(s@.take(i as int))) + escape_char(c) =~= old(out)@
                + escape_string(s@.take(i + 1)));
        }
        i = i + 1;
    }
    proof {
        assert(s@.take(s@.len() as int) =~= s@);
    }
}

/// Appends the complete JSON string for `s` to `out`.
pub(crate) fn push_quoted(out: &mut String, s: &str)
    ensures
        final(out)@ == old(out)@ + json_quoted(s@),
{
    push_char(out, '"');
    push_escaped(out, s);
    push_char(out, '"');
    assert(((old(out)@ + seq!['"']) + escape_string(s@)) + seq!['"'] =~= old(out)@ + json_quoted(
        s@,
    ));
}

/// Appends the decimal digits of `n` to `out`.
pub(crate) fn push_u16(out: &mut String, n: u16)
    ensures
        final(out)@ == old(out)@ + dec_str(n as nat),
    decreases n,
{
    if n < 10 {
        push_char(out, hex_char_exec(n as u32));
    } else {
        push_u16(out, n / 10);
        push_char(out, hex_char_exec((n % 10) as u32));
    }
}

/// Appends `true` or `false` to `out`.
pub(crate) fn push_bool(out: &mut String, b: bool)
    ensures
        final(out)@ == old(out)@ + bool_str(b),
{
    if b {
        push_char(out, 't');
        push_char(out, 'r');
        push_char(out, 'u');
        push_char(out, 'e');
        assert(out@ =~= old(out)@ + bool_str(b));
    } else {
        push_char(out, 'f');
        push_char(out, 'a');
        push_char(out, 'l');
        push_char(out, 's');
        push_char(out, 'e');
        assert(out@ =~= old(out)@ + bool_str(b));
    }
}

/// The elements of a JSON array of strings, comma-separated.
pub open spec fn str_array_items(xs: Seq<Seq<char>>) -> Seq<char>
    decreases xs.len(),
{
    if xs.len() == 0 {
        Seq::empty()
    } else if xs.len() == 1 {
        json_quoted(xs[0])
    } else {
        json_quoted(xs[0]) + seq![','] + str_array_items(xs.drop_first())
    }
}

/// A JSON array of strings.
pub open spec fn str_array(xs: Seq<Seq<char>>) -> Seq<char> {
    seq!['['] + str_array_items(xs) + seq![']']
}

/// The members of a JSON object of string keys and values, comma-separated.
pub open spec fn obj_items(xs: Seq<(Seq<char>, Seq<char>)>) -> Seq<char>
    decreases xs.len(),
{
    if xs.len() == 0 {
        Seq::empty()
    } else if xs.len() == 1 {
        json_quoted(xs[0].0) + seq![':'] + json_quoted(xs[0].1)
    } else {
        json_quoted(xs[0].0) + seq![':'] + json_quoted(xs[0].1) + seq![','] + obj_items(
            xs.drop_first(),
        )
    }
}

/// A JSON object with string keys and values.
pub open spec fn str_obj(xs: Seq<(Seq<char>, Seq<char>)>) -> Seq<char> {
    seq!['{'] + obj_items(xs) + seq!['}']
}

/// An optional string-valued field: its prefix (comma, key and colon) and
/// value, or nothing at all when absent.
pub open spec fn opt_str_field(prefix: Seq<char>, o: Option<Seq<char>>) -> Seq<char> {
    match o {
        Option::None => Seq::empty(),
        Option::Some(x) => prefix + json_quoted(x),
    }
}

/// An optional field holding an array of strings.
pub open spec fn opt_arr_field(prefix: Seq<char>, o: Option<Seq<Seq<char>>>) -> Seq<char> {
    match o {
        Option::None => Seq::empty(),
        Option::Some(xs) => prefix + str_array(xs),
    }
}

/// An optional field holding an object of string keys and values.
pub open spec fn opt_obj_field(
    prefix: Seq<char>,
    o: Option<Seq<(Seq<char>, Seq<char>)>>,
) -> Seq<char> {
    match o {
        Option::None => Seq::empty(),
        Option::Some(xs) => prefix + str_obj(xs),
    }
}

/// Appends an optional string-valued field: prefix and value, or nothing.
pub(crate) fn push_opt_str_field(out: &mut String, prefix: &str, o: &Option<String>)
    ensures
        final(out)@ == old(out)@ + opt_str_field(prefix@, o.deep_view()),
{
    match o {
        Some(x) => {
            out.append(prefix);
            push_quoted(out, x.as_str());
            assert(out@ =~= old(out)@ + opt_str_field(prefix@, o.deep_view()));
        },
        None => {
            assert(out@ =~= old(out)@ + opt_str_field(prefix@, o.deep_view()));
        },
    }
}

/// Appends an optional array-of-strings field: prefix and array, or nothing.
pub(crate) fn push_opt_arr_field(out: &mut String, prefix: &str, o: &Option<Vec<String>>)
    ensures
        final(out)@ == old(out)@ + opt_arr_field(prefix@, o.deep_view()),
{
    match o {
        Some(xs) => {
            out.append(prefix);
            push_str_array(out, xs);
            assert(out@ =~= old(out)@ + opt_arr_field(prefix@, o.deep_view()));
        },
        None => {
            assert(out@ =~= old(out)@ + opt_arr_field(prefix@, o.deep_view()));
        },
    }
}

/// Appends an optional object field: prefix and object, or nothing.
pub(crate) fn push_opt_obj_field(out: &mut String, prefix: &str, o: &Option<Vec<(String, String)>>)
    ensures
        final(out)@ == old(out)@ + opt_obj_field(prefix@, o.deep_view()),
{
    match o {
        Some(xs) => {
            out.append(prefix);
            push_str_obj(out, xs);
            assert(out@ =~= old(out)@ + opt_obj_field(prefix@, o.deep_view()));
        },
        None => {
            assert(out@ =~= old(out)@ + opt_obj_field(prefix@, o.deep_view()));
        },
    }
}

proof fn lemma_str_array_items_snoc(xs: Seq<Seq<char>>, x: Seq<char>)
    ensures
        xs.len() == 0 ==> str_array_items(xs.push(x)) == json_quoted(x),
        xs.len() > 0 ==> str_array_items(xs.push(x)) == str_array_items(xs) + seq![',']
            + json_quoted(x),
    decreases xs.len(),
{
    let p = xs.push(x);
    if xs.len() == 0 {
        assert(p.len() == 1);
        assert(p[0] == x);
    } else {
        assert(p[0] == xs[0]);
        assert(p.drop_first() =~= xs.drop_first().push(x));
        lemma_str_array_items_snoc(xs.drop_first(), x);
        if xs.len() == 1 {
        } else {
            assert(json_quoted(xs[0]) + seq![','] + (str_array_items(xs.drop_first()) + seq![',']
                + json_quoted(x)) =~= (json_quoted(xs[0]) + seq![','] + str_array_items(
                xs.drop_first(),
            )) + seq![','] + json_quoted(x));
        }
    }
}

proof fn lemma_obj_items_snoc(xs: Seq<(Seq<char>, Seq<char>)>, x: (Seq<char>, Seq<char>))
    ensures
        xs.len() == 0 ==> obj_items(xs.push(x)) == json_quoted(x.0) + seq![':'] + json_quoted(x.1),
        xs.len() > 0 ==> obj_items(xs.push(x)) == obj_items(xs) + seq![','] + json_quoted(x.0)
            + seq![':'] + json_quoted(x.1),
    decreases xs.len(),
{
    let p = xs.push(x);
    if xs.len() == 0 {
        assert(p.len() == 1);
        assert(p[0] == x);
    } else {
        assert(p[0] == xs[0]);
        assert(p.drop_first() =~= xs.drop_first().push(x));
        lemma_obj_items_snoc(xs.drop_first(), x);
        let head = json_quoted(xs[0].0) + seq![':'] + json_quoted(xs[0].1);
        if xs.len() == 1 {
            assert(obj_items(p) == head + seq![','] + obj_items(p.drop_first()));
        } else {
            assert(head + seq![','] + (obj_items(xs.drop_first()) + seq![','] + json_quoted(x.0)
                + seq![':'] + json_quoted(x.1)) =~= (head + seq![','] + obj_items(
                xs.drop_first(),
            )) + seq![','] + json_quoted(x.0) + seq![':'] + json_quoted(x.1));
        }
    }
}

/// Appends the JSON array of the strings in `xs` to `out`.
pub(crate) fn push_str_array(out: &mut String, xs: &Vec<String>)
    ensures
        final(out)@ == old(out)@ + str_array(xs.deep_view()),
{
    push_char(out, '[');
    let mut i: usize = 0;
    proof {
        assert(xs.deep_view().take(0) =~= Seq::<Seq<char>>::empty());
        assert(out@ =~= old(out)@ + seq!['['] + str_array_items(xs.deep_view().take(0)));
    }
    while i < xs.len()
        invariant
            i <= xs@.len(),
            xs.deep_view().len() == xs@.len(),
            out@ == old(out)@ + seq!['['] + str_array_items(xs.deep_view().take(i as int)),
        decreases xs@.len() - i,
    {
        let ghost dv = xs.deep_view();
        let ghost out0 = out@;
        if i > 0 {
            push_char(out, ',');
        }
        push_quoted(out, xs[i].as_str());
        proof {
            assert(xs[i as int].deep_view() == dv[i as int]);
            lemma_str_array_items_snoc(dv.take(i as int), dv[i as int]);
            assert(dv.take(i + 1) =~= dv.take(i as int).push(dv[i as int]));
            if i == 0 {
                assert(out@ =~= old(out)@ + seq!['['] + str_array_items(dv.take(i + 1)));
            } else {
                assert(out@ =~= old(out)@ + seq!['['] + str_array_items(dv.take(i + 1)));
            }
        }
        i = i + 1;
    }
    push_char(out, ']');
    proof {
        assert(xs.deep_view().take(xs@.len() as int) =~= xs.deep_view());
        assert(out@ =~= old(out)@ + str_array(xs.deep_view()));
    }
}

/// Appends the JSON object of the key-value pairs in `xs` to `out`.
pub(crate) fn push_str_obj(out: &mut String, xs: &Vec<(String, String)>)
    ensures
        final(out)@ == old(out)@ + str_obj(xs.deep_view()),
{
    push_char(out, '{');
    let mut i: usize = 0;
    proof {
        assert(xs.deep_view().take(0) =~= Seq::<(Seq<char>, Seq<char>)>::empty());
        assert(out@ =~= old(out)@ + seq!['{'] + obj_items(xs.deep_view().take(0)));
    }
    while i < xs.len()
        invariant
            i <= xs@.len(),
            xs.deep_view().len() == xs@.len(),
            out@ == old(out)@ + seq!['{'] + obj_items(xs.deep_view().take(i as int)),
        decreases xs@.len() - i,
    {
        let ghost dv = xs.deep_view();
        let ghost out0 = out@;
        if i > 0 {
            push_char(out, ',');
        }
        push_quoted(out, xs[i].0.as_str());
        push_char(out, ':');
        push_quoted(out, xs[i].1.as_str());
        proof {
            assert(xs[i as int].deep_view() == dv[i as int]);
            assert(xs[i as int].0@ == dv[i as int].0 && xs[i as int].1@ == dv[i as int].1);
            lemma_obj_items_snoc(dv.take(i as int), dv[i as int]);
            assert(dv.take(i + 1) =~= dv.take(i as int).push(dv[i as int]));
            assert(out@ =~= old(out)@ + seq!['{'] + obj_items(dv.take(i + 1)));
        }
        i = i + 1;
    }
    push_char(out, '}');
    proof {
        assert(xs.deep_view().take(xs@.len() as int) =~= xs.deep_view());
        assert(out@ =~= old(out)@ + str_obj(xs.deep_view()));
    }
}

/// Matches the literal `lit` at position `i` of `sv`; yields the position
/// after it.
pub(crate) fn match_lit(sv: &Vec<char>, i: usize, lit: &str) -> (r: Option<usize>)
    requires
        i <= sv@.len(),
    ensures
        match r {
            Some(j) => {
                &&& i <= j <= sv@.len()
                &&& expect(sv@.skip(i as int), lit@) == Some(sv@.skip(j as int))
            },
            None => expect(sv@.skip(i as int), lit@) is None,
        },
{
    let lv = crate::text::chars_vec(lit);
    if sv.len() - i < lv.len() {
        assert(sv@.skip(i as int).len() < lit@.len());
        return None;
    }
    let slen = sv.len();
    let mut j: usize = 0;
    while j < lv.len()
        invariant
            slen == sv@.len(),
            sv@.len() >= i + lv@.len(),
            lv@ == lit@,
            j <= lv@.len(),
            forall|k: int| 0 <= k < j ==> sv@[i + k] == lit@[k],
        decreases lv@.len() - j,
    {
        assert(i + j < slen);
        if sv[i + j] != lv[j] {
            assert(sv@.skip(i as int).take(lit@.len() as int)[j as int] != lit@[j as int]);
            return None;
        }
        j = j + 1;
    }
    assert(sv@.skip(i as int).take(lit@.len() as int) =~= lit@);
    assert(sv@.skip(i as int).skip(lit@.len() as int) =~= sv@.skip(i + lit@.len()));
    Some(i + lv.len())
}

/// Reads a JSON string body (after its opening quote) at position `i`;
/// yields the text and the position after the closing quote.
pub(crate) fn parse_jstring(sv: &Vec<char>, i: usize) -> (r: Option<(String, usize)>)
    requires
        i <= sv@.len(),
    ensures
        match r {
            Some(vj) => {
                &&& i <= vj.1 <= sv@.len()
                &&& parse_string_body(sv@.skip(i as int), Seq::empty()) == Some(
                    (vj.0@, sv@.skip(vj.1 as int)),
                )
            },
            None => parse_string_body(sv@.skip(i as int), Seq::empty()) is None,
        },
{
    let mut out: Vec<char> = Vec::new();
    let mut k: usize = i;
    loop
        invariant
            i <= k <= sv@.len(),
            parse_string_body(sv@.skip(i as int), Seq::empty()) == parse_string_body(
                sv@.skip(k as int),
                out@,
            ),
        decreases sv@.len() - k,
    {
        let ghost tail = sv@.skip(k as int);
        if k == sv.len() {
            assert(tail.len() == 0);
            return None;
        }
        let c = sv[k];
        assert(tail[0] == c);
        if c == '"' {
            assert(tail.skip(1) =~= sv@.skip(k + 1));
            let s = crate::text::string_from_chars(&out);
            return Some((s, k + 1));
        }
        if c == '\\' {
            if sv.len() - k < 2 {
                assert(tail.len() < 2);
                return None;
            }
            let e = sv[k + 1];
            assert(tail[1] == e);
            assert(tail.skip(2) =~= sv@.skip(k + 2));
            if e == '"' {
                out.push('"');
                k = k + 2;
            } else if e == '\\' {
                out.push('\\');
                k = k + 2;
            } else if e == 'n' {
                out.push('\n');
                k = k + 2;
            } else if e == 'r' {
                out.push('\r');
                k = k + 2;
            } else if e == 't' {
                out.push('\t');
                k = k + 2;
            } else if e == 'b' {
                out.push('\u{8}');
                k = k + 2;
            } else if e == 'f' {
                out.push('\u{c}');
                k = k + 2;
            } else if e == 'u' {
                if sv.len() - k < 6 {
                    assert(tail.len() < 6);
                    return None;
                }
                assert(tail[2] == sv@[k + 2] && tail[3] == sv@[k + 3] && tail[4] == sv@[k + 4]
                    && tail[5] == sv@[k + 5]);
                if !(sv[k + 2] == '0' && sv[k + 3] == '0') {
                    return None;
                }
                let h1 = match hex_val_exec(sv[k + 4]) {
                    Some(v) => v,
                    None => {
                        return None;
                    },
                };
                let h2 = match hex_val_exec(sv[k + 5]) {
                    Some(v) => v,
                    None => {
                        return None;
                    },
                };
                let code: u8 = h1 * 16 + h2;
                let ch = code as char;
                proof {
                    assert(code as int == hex_val(tail[4]) * 16 + hex_val(tail[5]));
                    assert(ch == (((hex_val(tail[4]) * 16 + hex_val(tail[5])) as u32) as char));
                }
                out.push(ch);
                assert(tail.skip(6) =~= sv@.skip(k + 6));
                k = k + 6;
            } else {
                return None;
            }
        } else {
            out.push(c);
            assert(tail.skip(1) =~= sv@.skip(k + 1));
            k = k + 1;
        }
    }
}

} // verus!
