//! Shell quoting: a word as one double-quoted (or bare) shell word, and bytes
//! as an ANSI-C `$'...'` literal.

use vstd::prelude::*;
use crate::lexer::{dq_escapable, lemma_lex_run_concat, lex_run, lex_start, lex_step, mk, shell_words, LexMode, LexState};
use crate::text::string_of;

verus! {

/// Characters after which shlex's `quote` no longer leaves a word bare.
pub open spec fn shlex_special(c: char) -> bool {
    c == '|' || c == '&' || c == ';' || c == '<' || c == '>' || c == '(' || c == ')'
        || c == '$' || c == '`' || c == '\\' || c == '"' || c == '\'' || c == ' '
        || c == '\t' || c == '\r' || c == '\n' || c == '*' || c == '?' || c == '['
        || c == '#' || c == '~' || c == '=' || c == '%'
}

pub open spec fn has_special(s: Seq<char>) -> bool {
    exists|i: int| 0 <= i < s.len() && shlex_special(#[trigger] s[i])
}

pub open spec fn dq_char(c: char) -> Seq<char> {
    if dq_escapable(c) {
        seq!['\\', c]
    } else {
        seq![c]
    }
}

/// `s` with a backslash before each `"`, `\`, `` ` `` and `$`.
pub open spec fn dq_body(s: Seq<char>) -> Seq<char>
    decreases s.len(),
{
    if s.len() == 0 {
        seq![]
    } else {
        dq_body(s.drop_last()) + dq_char(s.last())
    }
}

/// The quoted form of a word: `""` for the empty word, the word itself where it
/// holds no special character, and otherwise the word in double quotes.
pub open spec fn quoted(s: Seq<char>) -> Seq<char> {
    if s.len() == 0 {
        seq!['"', '"']
    } else if has_special(s) {
        seq!['"'] + dq_body(s) + seq!['"']
    } else {
        s
    }
}

/// Relies on `shlex::quote` (1.1): `""` for an empty input; the input unchanged
/// where none of its bytes is one of the special characters listed in its
/// source; otherwise the input between double quotes, with a backslash before
/// each `$`, `` ` ``, `"` and `\`.
#[verifier::external_body]
pub(crate) fn shell_quote(s: &str) -> (r: String)
    ensures
        r@ == quoted(s@),
{
    shlex::quote(s).into_owned()
}

proof fn lemma_run_two(st: LexState, a: char, b: char)
    ensures
        lex_run(st, seq![a, b]) == lex_step(lex_step(st, a), b),
{
    assert(seq![a, b].drop_last() =~= seq![a]);
    lemma_run_one(st, a);
}

proof fn lemma_run_one(st: LexState, a: char)
    ensures
        lex_run(st, seq![a]) == lex_step(st, a),
{
    assert(seq![a].drop_last() =~= Seq::<char>::empty());
    assert(lex_run(st, Seq::<char>::empty()) == st);
}

/// Inside double quotes, the escaped body reads back as the word itself.
proof fn lemma_dq_body(w: Seq<Seq<char>>, cur: Seq<char>, s: Seq<char>)
    ensures
        lex_run(mk(w, cur, LexMode::Double), dq_body(s)) == mk(w, cur + s, LexMode::Double),
    decreases s.len(),
{
    let st = mk(w, cur, LexMode::Double);
    if s.len() == 0 {
        assert(cur + s =~= cur);
    } else {
        let c = s.last();
        lemma_dq_body(w, cur, s.drop_last());
        lemma_lex_run_concat(st, dq_body(s.drop_last()), dq_char(c));
        let mid = mk(w, cur + s.drop_last(), LexMode::Double);
        if dq_escapable(c) {
            lemma_run_two(mid, '\\', c);
        } else {
            lemma_run_one(mid, c);
        }
        assert((cur + s.drop_last()).push(c) =~= cur + s);
    }
}

/// A word without special characters reads back as itself, unquoted.
proof fn lemma_plain(w: Seq<Seq<char>>, s: Seq<char>)
    requires
        s.len() > 0,
        !has_special(s),
    ensures
        lex_run(mk(w, seq![], LexMode::Blank), s) == mk(w, s, LexMode::Word),
    decreases s.len(),
{
    let c = s.last();
    assert(!shlex_special(s[s.len() - 1]));
    if s.len() == 1 {
        assert(s.drop_last() =~= Seq::<char>::empty());
        assert(seq![c] =~= s);
    } else {
        assert forall|i: int| 0 <= i < s.drop_last().len() implies !shlex_special(
            #[trigger] s.drop_last()[i],
        ) by {
            assert(s.drop_last()[i] == s[i]);
        }
        lemma_plain(w, s.drop_last());
        assert(s.drop_last().push(c) =~= s);
    }
}

/// From between words, the quoted form of `s` reads back as the word `s`.
pub proof fn lemma_quoted_word(w: Seq<Seq<char>>, s: Seq<char>)
    ensures
        lex_run(mk(w, seq![], LexMode::Blank), quoted(s)) == mk(w, s, LexMode::Word),
{
    let st = mk(w, seq![], LexMode::Blank);
    if s.len() == 0 {
        lemma_run_two(st, '"', '"');
    } else if has_special(s) {
        let open = seq!['"'];
        let close = seq!['"'];
        assert(quoted(s) == open + dq_body(s) + close);
        lemma_lex_run_concat(st, open + dq_body(s), close);
        lemma_lex_run_concat(st, open, dq_body(s));
        lemma_run_one(st, '"');
        lemma_dq_body(w, seq![], s);
        assert(Seq::<char>::empty() + s =~= s);
        lemma_run_one(mk(w, s, LexMode::Double), '"');
    } else {
        lemma_plain(w, s);
    }
}

/// Round trip: splitting the quoted form of any word gives back exactly that
/// one word.
pub proof fn lemma_quote_round_trip(s: Seq<char>)
    ensures
        shell_words(quoted(s)) == Some(seq![s]),
{
    lemma_quoted_word(seq![], s);
    assert(Seq::<Seq<char>>::empty().push(s) =~= seq![s]);
}

/// The quoted forms of `ws`, joined by single spaces.
pub open spec fn quoted_list(ws: Seq<Seq<char>>) -> Seq<char>
    decreases ws.len(),
{
    if ws.len() == 0 {
        seq![]
    } else if ws.len() == 1 {
        quoted(ws[0])
    } else {
        quoted_list(ws.drop_last()) + seq![' '] + quoted(ws.last())
    }
}

proof fn lemma_quoted_list_run(ws: Seq<Seq<char>>)
    requires
        ws.len() > 0,
    ensures
        lex_run(lex_start(), quoted_list(ws)) == mk(ws.drop_last(), ws.last(), LexMode::Word),
    decreases ws.len(),
{
    if ws.len() == 1 {
        lemma_quoted_word(seq![], ws[0]);
        assert(ws.drop_last() =~= Seq::<Seq<char>>::empty());
    } else {
        let front = ws.drop_last();
        lemma_quoted_list_run(front);
        let a = quoted_list(front);
        lemma_lex_run_concat(lex_start(), a + seq![' '], quoted(ws.last()));
        lemma_lex_run_concat(lex_start(), a, seq![' ']);
        lemma_run_one(mk(front.drop_last(), front.last(), LexMode::Word), ' ');
        assert(front.drop_last().push(front.last()) =~= front);
        lemma_quoted_word(front, ws.last());
    }
}

/// Splitting a rendered list of words gives back exactly those words; the
/// empty list renders to no words at all.
pub proof fn lemma_quoted_list_round_trip(ws: Seq<Seq<char>>)
    ensures
        shell_words(quoted_list(ws)) == Some(ws),
{
    if ws.len() > 0 {
        lemma_quoted_list_run(ws);
        assert(ws.drop_last().push(ws.last()) =~= ws);
    }
}

} // verus!
