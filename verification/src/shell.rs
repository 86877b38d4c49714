//! Shell quoting for synthesized command lines.
//!
//! Every step command is a single string that a POSIX shell later splits back
//! into arguments.  Quoting must therefore round-trip: tokenizing the joined
//! command line yields exactly the original argument list, whatever spaces or
//! metacharacters the arguments hold.  The tokenizer specified here models
//! POSIX field splitting restricted to the forms the quoter emits: unquoted
//! words, backslash escapes and single-quoted groups; it gives no other
//! character a special meaning, and agrees with a POSIX shell on every string
//! the quoter produces, since those consist only of such forms.

use vstd::prelude::*;

use crate::text::{chars_vec, push_char};

verus! {

/// Characters that never need quoting: letters, digits and a small set of
/// punctuation with no meaning to the shell.
pub open spec fn is_safe_char(c: char) -> bool {
    ||| ('a' as u32) <= (c as u32) && (c as u32) <= ('z' as u32)
    ||| ('A' as u32) <= (c as u32) && (c as u32) <= ('Z' as u32)
    ||| ('0' as u32) <= (c as u32) && (c as u32) <= ('9' as u32)
    ||| c == '_'
    ||| c == '-'
    ||| c == '.'
    ||| c == '/'
    ||| c == ':'
    ||| c == '='
    ||| c == '@'
    ||| c == '%'
    ||| c == '+'
    ||| c == ','
}

/// A non-empty word of safe characters may stand unquoted.
pub open spec fn safe_word(s: Seq<char>) -> bool {
    s.len() > 0 && forall|i: int| 0 <= i < s.len() ==> is_safe_char(s[i])
}

/// How one character appears inside a single-quoted group: a quote closes the
/// group, stands backslash-escaped, and reopens it; everything else is
/// literal.
pub open spec fn sq_escape_char(c: char) -> Seq<char> {
    if c == '\'' {
        seq!['\'', '\\', '\'', '\'']
    } else {
        seq![c]
    }
}

/// The body of a single-quoted group for the argument `s`.
pub open spec fn sq_escape(s: Seq<char>) -> Seq<char>
    decreases s.len(),
{
    if s.len() == 0 {
        Seq::empty()
    } else {
        sq_escape_char(s[0]) + sq_escape(s.skip(1))
    }
}

/// One argument, quoted: safe words stand as they are, everything else is
/// wrapped in single quotes.
pub open spec fn quote_seq(s: Seq<char>) -> Seq<char> {
    if safe_word(s) {
        s
    } else {
        seq!['\''] + sq_escape(s) + seq!['\'']
    }
}

/// The whole command line: each argument quoted, joined with single spaces.
pub open spec fn join_quoted(args: Seq<Seq<char>>) -> Seq<char>
    decreases args.len(),
{
    if args.len() == 0 {
        Seq::empty()
    } else if args.len() == 1 {
        quote_seq(args[0])
    } else {
        quote_seq(args[0]) + seq![' '] + join_quoted(args.drop_first())
    }
}

/// Scans one word starting at an unquoted position, `acc` holding the
/// characters read so far; stops before a space or at the end.  `None` means
/// an unterminated construct.
pub open spec fn scan_word(s: Seq<char>, acc: Seq<char>) -> Option<(Seq<char>, Seq<char>)>
    decreases s.len(), 0int,
{
    if s.len() == 0 {
        Some((acc, s))
    } else if s[0] == ' ' {
        Some((acc, s))
    } else if s[0] == '\'' {
        scan_quoted(s.skip(1), acc)
    } else if s[0] == '\\' {
        if s.len() < 2 {
            None
        } else {
            scan_word(s.skip(2), acc + seq![s[1]])
        }
    } else {
        scan_word(s.skip(1), acc + seq![s[0]])
    }
}

/// Scans the rest of a single-quoted group: literal until the closing quote.
pub open spec fn scan_quoted(s: Seq<char>, acc: Seq<char>) -> Option<(Seq<char>, Seq<char>)>
    decreases s.len(), 1int,
{
    if s.len() == 0 {
        None
    } else if s[0] == '\'' {
        scan_word(s.skip(1), acc)
    } else {
        scan_quoted(s.skip(1), acc + seq![s[0]])
    }
}

/// A scan never lengthens its input, and consumes at least one character when
/// it starts on something other than a space.
pub proof fn lemma_scan_word_rest(s: Seq<char>, acc: Seq<char>)
    ensures
        scan_word(s, acc) matches Some(tr) ==> tr.1.len() <= s.len(),
        s.len() > 0 && s[0] != ' ' && (scan_word(s, acc) matches Some(tr2)) ==> (scan_word(
            s,
            acc,
        ) matches Some(tr) && tr.1.len() < s.len()),
    decreases s.len(), 0int,
{
    if s.len() == 0 {
    } else if s[0] == ' ' {
    } else if s[0] == '\'' {
        lemma_scan_quoted_rest(s.skip(1), acc);
    } else if s[0] == '\\' {
        if s.len() >= 2 {
            lemma_scan_word_rest(s.skip(2), acc + seq![s[1]]);
        }
    } else {
        lemma_scan_word_rest(s.skip(1), acc + seq![s[0]]);
    }
}

/// As [`lemma_scan_word_rest`], for the quoted mode.
pub proof fn lemma_scan_quoted_rest(s: Seq<char>, acc: Seq<char>)
    ensures
        scan_quoted(s, acc) matches Some(tr) ==> tr.1.len() <= s.len(),
    decreases s.len(), 1int,
{
    if s.len() == 0 {
    } else if s[0] == '\'' {
        lemma_scan_word_rest(s.skip(1), acc);
    } else {
        lemma_scan_quoted_rest(s.skip(1), acc + seq![s[0]]);
    }
}

/// Splits a command line into its arguments: fields separated by spaces, with
/// backslash escapes and single-quoted groups.
pub open spec fn tokenize(s: Seq<char>) -> Option<Seq<Seq<char>>>
    decreases s.len(),
    via tokenize_decreases
{
    if s.len() == 0 {
        Some(Seq::empty())
    } else if s[0] == ' ' {
        tokenize(s.skip(1))
    } else {
        match scan_word(s, Seq::empty()) {
            Option::None => Option::None,
            Option::Some(tr) => match tokenize(tr.1) {
                Option::None => Option::None,
                Option::Some(toks) => Some(seq![tr.0] + toks),
            },
        }
    }
}

#[via_fn]
proof fn tokenize_decreases(s: Seq<char>) {
    if s.len() > 0 && s[0] != ' ' {
        lemma_scan_word_rest(s, Seq::empty());
    }
}

/// What may follow a completed token: the end of the line or a space.
pub open spec fn is_boundary(rest: Seq<char>) -> bool {
    rest.len() == 0 || rest[0] == ' '
}

proof fn lemma_scan_safe(t: Seq<char>, rest: Seq<char>, acc: Seq<char>)
    requires
        forall|i: int| 0 <= i < t.len() ==> is_safe_char(t[i]),
        is_boundary(rest),
    ensures
        scan_word(t + rest, acc) == Some((acc + t, rest)),
    decreases t.len(),
{
    let s = t + rest;
    if t.len() == 0 {
        assert(s =~= rest);
        assert(acc + t =~= acc);
    } else {
        assert(is_safe_char(t[0]));
        assert(s[0] == t[0]);
        assert(s.skip(1) =~= t.skip(1) + rest);
        lemma_scan_safe(t.skip(1), rest, acc + seq![t[0]]);
        assert((acc + seq![t[0]]) + t.skip(1) =~= acc + t);
    }
}

proof fn lemma_scan_sq(t: Seq<char>, rest: Seq<char>, acc: Seq<char>)
    requires
        is_boundary(rest),
    ensures
        scan_quoted(sq_escape(t) + seq!['\''] + rest, acc) == Some((acc + t, rest)),
    decreases t.len(),
{
    let s = sq_escape(t) + seq!['\''] + rest;
    if t.len() == 0 {
        assert(s =~= seq!['\''] + rest);
        assert(s[0] == '\'');
        assert(s.skip(1) =~= rest);
        assert(scan_quoted(s, acc) == scan_word(rest, acc));
        assert(scan_word(rest, acc) == Some((acc, rest)));
        assert(acc + t =~= acc);
    } else if t[0] == '\'' {
        assert(sq_escape(t) =~= seq!['\'', '\\', '\'', '\''] + sq_escape(t.skip(1)));
        assert(s[0] == '\'');
        let s1 = s.skip(1);
        assert(s1 =~= seq!['\\', '\'', '\''] + sq_escape(t.skip(1)) + seq!['\''] + rest);
        assert(s1[0] == '\\');
        assert(s1.len() >= 2);
        let s2 = s1.skip(2);
        assert(s1[1] == '\'');
        assert(s2 =~= seq!['\''] + sq_escape(t.skip(1)) + seq!['\''] + rest);
        assert(s2[0] == '\'');
        assert(s2.skip(1) =~= sq_escape(t.skip(1)) + seq!['\''] + rest);
        lemma_scan_sq(t.skip(1), rest, acc + seq!['\'']);
        assert(scan_quoted(s2.skip(1), acc + seq!['\'']) == Some((acc + seq!['\''] + t.skip(1), rest)));
        assert(scan_word(s2, acc + seq!['\'']) == scan_quoted(s2.skip(1), acc + seq!['\'']));
        assert(scan_word(s1, acc) == scan_word(s2, acc + seq![s1[1]]));
        assert(acc + seq![s1[1]] == acc + seq!['\'']);
        assert(scan_quoted(s, acc) == scan_word(s1, acc));
        assert((acc + seq!['\'']) + t.skip(1) =~= acc + t);
    } else {
        assert(s[0] == t[0]);
        assert(s.skip(1) =~= sq_escape(t.skip(1)) + seq!['\''] + rest);
        lemma_scan_sq(t.skip(1), rest, acc + seq![t[0]]);
        assert(scan_quoted(s, acc) == scan_quoted(s.skip(1), acc + seq![s[0]]));
        assert((acc + seq![t[0]]) + t.skip(1) =~= acc + t);
    }
}

proof fn lemma_scan_quote(t: Seq<char>, rest: Seq<char>, acc: Seq<char>)
    requires
        is_boundary(rest),
    ensures
        scan_word(quote_seq(t) + rest, acc) == Some((acc + t, rest)),
        quote_seq(t).len() > 0,
        (quote_seq(t) + rest)[0] != ' ',
{
    let s = quote_seq(t) + rest;
    if safe_word(t) {
        assert(s[0] == t[0]);
        lemma_scan_safe(t, rest, acc);
    } else {
        assert(quote_seq(t) =~= seq!['\''] + (sq_escape(t) + seq!['\'']));
        assert(s[0] == '\'');
        assert(s.skip(1) =~= sq_escape(t) + seq!['\''] + rest);
        lemma_scan_sq(t, rest, acc);
    }
}

/// The quoting round trip: tokenizing a joined, quoted command line yields
/// exactly the original argument list, whatever characters the arguments
/// hold.
pub proof fn lemma_quote_round_trip(args: Seq<Seq<char>>)
    ensures
        tokenize(join_quoted(args)) == Some(args),
    decreases args.len(),
{
    if args.len() == 0 {
        assert(args =~= Seq::<Seq<char>>::empty());
    } else {
        let t = args[0];
        let sep: Seq<char> = if args.len() == 1 {
            Seq::empty()
        } else {
            seq![' '] + join_quoted(args.drop_first())
        };
        let s = join_quoted(args);
        assert(s =~= quote_seq(t) + sep);
        lemma_scan_quote(t, sep, Seq::empty());
        assert(Seq::<char>::empty() + t =~= t);
        assert(s.len() > 0 && s[0] != ' ');
        assert(scan_word(s, Seq::empty()) == Some((t, sep)));
        if args.len() == 1 {
            assert(tokenize(sep) == Some(Seq::<Seq<char>>::empty()));
            assert(seq![t] + Seq::<Seq<char>>::empty() =~= args);
        } else {
            assert(sep[0] == ' ');
            assert(sep.skip(1) =~= join_quoted(args.drop_first()));
            lemma_quote_round_trip(args.drop_first());
            assert(seq![t] + args.drop_first() =~= args);
        }
    }
}

fn is_safe_char_exec(c: char) -> (r: bool)
    ensures
        r == is_safe_char(c),
{
    let u = c as u32;
    (97 <= u && u <= 122) || (65 <= u && u <= 90) || (48 <= u && u <= 57) || c == '_' || c == '-'
        || c == '.' || c == '/' || c == ':' || c == '=' || c == '@' || c == '%' || c == '+'
        || c == ','
}

proof fn lemma_sq_escape_snoc(prefix: Seq<char>, c: char)
    ensures
        sq_escape(prefix.push(c)) == sq_escape(prefix) + sq_escape_char(c),
    decreases prefix.len(),
{
    if prefix.len() == 0 {
        assert(prefix.push(c) =~= seq![c]);
        assert(seq![c].skip(1) =~= Seq::<char>::empty());
        assert(sq_escape(Seq::<char>::empty()) == Seq::<char>::empty());
        assert(sq_escape(seq![c]) == sq_escape_char(c) + Seq::<char>::empty());
        assert(sq_escape_char(c) + Seq::<char>::empty() =~= sq_escape_char(c));
        assert(sq_escape(prefix) + sq_escape_char(c) =~= sq_escape_char(c));
    } else {
        let p = prefix.push(c);
        assert(p[0] == prefix[0]);
        assert(p.skip(1) =~= prefix.skip(1).push(c));
        lemma_sq_escape_snoc(prefix.skip(1), c);
        assert(sq_escape_char(prefix[0]) + (sq_escape(prefix.skip(1)) + sq_escape_char(c)) =~= (
        sq_escape_char(prefix[0]) + sq_escape(prefix.skip(1))) + sq_escape_char(c));
    }
}

/// One argument, quoted so that tokenizing recovers it exactly.
pub fn quote_arg(s: &str) -> (r: String)
    ensures
        r@ == quote_seq(s@),
{
    let sv = chars_vec(s);
    let mut all_safe = true;
    let mut i: usize = 0;
    while i < sv.len()
        invariant
            sv@ == s@,
            i <= sv@.len(),
            all_safe == (forall|k: int| 0 <= k < i ==> is_safe_char(s@[k])),
        decreases sv@.len() - i,
    {
        if !is_safe_char_exec(sv[i]) {
            all_safe = false;
        }
        i = i + 1;
    }
    if all_safe && sv.len() > 0 {
        assert(safe_word(s@));
        return s.to_owned();
    }
    assert(!safe_word(s@));
    let mut out = String::new();
    push_char(&mut out, '\'');
    let mut i: usize = 0;
    proof {
        assert(s@.take(0) =~= Seq::<char>::empty());
        assert(Seq::<char>::empty() + Seq::<char>::empty() =~= Seq::<char>::empty());
        assert(out@ =~= seq!['\''] + sq_escape(s@.take(0)));
    }
    while i < sv.len()
        invariant
            sv@ == s@,
            i <= sv@.len(),
            out@ == seq!['\''] + sq_escape(s@.take(i as int)),
        decreases sv@.len() - i,
    {
        let c = sv[i];
        let ghost out0 = out@;
        if c == '\'' {
            push_char(&mut out, '\'');
            push_char(&mut out, '\\');
            push_char(&mut out, '\'');
            push_char(&mut out, '\'');
            assert(out@ =~= out0 + sq_escape_char(c));
        } else {
            push_char(&mut out, c);
            assert(out@ =~= out0 + sq_escape_char(c));
        }
        proof {
            lemma_sq_escape_snoc(s@.take(i as int), c);
            assert(s@.take(i + 1) =~= s@.take(i as int).push(c));
            assert((seq!['\''] + sq_escape(s@.take(i as int))) + sq_escape_char(c) =~= seq!['\'']
                + sq_escape(s@.take(i + 1)));
        }
        i = i + 1;
    }
    let ghost out1 = out@;
    push_char(&mut out, '\'');
    proof {
        assert(s@.take(s@.len() as int) =~= s@);
        assert(out1 + seq!['\''] =~= seq!['\''] + sq_escape(s@) + seq!['\'']);
    }
    out
}

proof fn lemma_join_snoc(args: Seq<Seq<char>>, x: Seq<char>)
    ensures
        args.len() == 0 ==> join_quoted(args.push(x)) == quote_seq(x),
        args.len() > 0 ==> join_quoted(args.push(x)) == join_quoted(args) + seq![' ']
            + quote_seq(x),
    decreases args.len(),
{
    let p = args.push(x);
    if args.len() == 0 {
        assert(p.len() == 1);
        assert(p[0] == x);
    } else {
        assert(p[0] == args[0]);
        assert(p.drop_first() =~= args.drop_first().push(x));
        lemma_join_snoc(args.drop_first(), x);
        if args.len() == 1 {
            assert(join_quoted(args) == quote_seq(args[0]));
            assert(join_quoted(p) == quote_seq(p[0]) + seq![' '] + join_quoted(p.drop_first()));
            assert(join_quoted(p.drop_first()) == quote_seq(x));
        } else {
            assert(quote_seq(args[0]) + seq![' '] + (join_quoted(args.drop_first()) + seq![' ']
                + quote_seq(x)) =~= (quote_seq(args[0]) + seq![' '] + join_quoted(
                args.drop_first(),
            )) + seq![' '] + quote_seq(x));
        }
    }
}

/// The full command line: each argument quoted, joined with single spaces.
pub fn quote_join(args: &Vec<String>) -> (r: String)
    ensures
        r@ == join_quoted(args.deep_view()),
{
    let mut out = String::new();
    let mut i: usize = 0;
    proof {
        assert(args.deep_view().take(0) =~= Seq::<Seq<char>>::empty());
    }
    while i < args.len()
        invariant
            i <= args@.len(),
            args.deep_view().len() == args@.len(),
            out@ == join_quoted(args.deep_view().take(i as int)),
        decreases args@.len() - i,
    {
        let ghost out0 = out@;
        let ghost dv = args.deep_view();
        if i > 0 {
            push_char(&mut out, ' ');
        }
        let q = quote_arg(args[i].as_str());
        out.append(q.as_str());
        proof {
            assert(args[i as int].deep_view() == dv[i as int]);
            assert(q@ == quote_seq(dv[i as int]));
            lemma_join_snoc(dv.take(i as int), dv[i as int]);
            assert(dv.take(i + 1) =~= dv.take(i as int).push(dv[i as int]));
            if i == 0 {
                assert(out@ =~= quote_seq(dv[0]));
            } else {
                assert(out@ =~= (out0 + seq![' ']) + quote_seq(dv[i as int]));
                assert((out0 + seq![' ']) + quote_seq(dv[i as int]) =~= out0 + seq![' ']
                    + quote_seq(dv[i as int]));
            }
        }
        i = i + 1;
    }
    proof {
        assert(args.deep_view().take(args@.len() as int) =~= args.deep_view());
    }
    out
}

} // verus!
