//! POSIX-style word splitting: single quotes, double quotes with backslash
//! escapes, unquoted backslash escapes, and blank-separated words.

use vstd::prelude::*;
use crate::text::{chars_of, string_of};

verus! {

/// Where the lexer stands between two characters.
#[derive(Clone, Copy, PartialEq, Eq, Debug)]
pub enum LexMode {
    /// Between words.
    Blank,
    /// Inside an unquoted part of a word.
    Word,
    /// Inside single quotes.
    Single,
    /// Inside double quotes.
    Double,
    /// After an unquoted backslash that came between words.
    BlankEscape,
    /// After an unquoted backslash inside a word.
    WordEscape,
    /// After a backslash inside double quotes.
    DoubleEscape,
}

/// The abstract lexer state: the finished words, the word being built, the mode.
pub struct LexState {
    pub words: Seq<Seq<char>>,
    pub cur: Seq<char>,
    pub mode: LexMode,
}

pub open spec fn is_blank(c: char) -> bool {
    c == ' ' || c == '\t' || c == '\n'
}

/// Characters that a backslash escapes inside double quotes.
pub open spec fn dq_escapable(c: char) -> bool {
    c == '"' || c == '\\' || c == '`' || c == '$'
}

pub open spec fn lex_start() -> LexState {
    LexState { words: seq![], cur: seq![], mode: LexMode::Blank }
}

pub open spec fn mk(words: Seq<Seq<char>>, cur: Seq<char>, mode: LexMode) -> LexState {
    LexState { words, cur, mode }
}

/// One character of input.
pub open spec fn lex_step(st: LexState, c: char) -> LexState {
    match st.mode {
        LexMode::Blank => {
            if is_blank(c) {
                st
            } else if c == '\'' {
                mk(st.words, seq![], LexMode::Single)
            } else if c == '"' {
                mk(st.words, seq![], LexMode::Double)
            } else if c == '\\' {
                mk(st.words, seq![], LexMode::BlankEscape)
            } else {
                mk(st.words, seq![c], LexMode::Word)
            }
        },
        LexMode::Word => {
            if is_blank(c) {
                mk(st.words.push(st.cur), seq![], LexMode::Blank)
            } else if c == '\'' {
                mk(st.words, st.cur, LexMode::Single)
            } else if c == '"' {
                mk(st.words, st.cur, LexMode::Double)
            } else if c == '\\' {
                mk(st.words, st.cur, LexMode::WordEscape)
            } else {
                mk(st.words, st.cur.push(c), LexMode::Word)
            }
        },
        LexMode::Single => {
            if c == '\'' {
                mk(st.words, st.cur, LexMode::Word)
            } else {
                mk(st.words, st.cur.push(c), LexMode::Single)
            }
        },
        LexMode::Double => {
            if c == '"' {
                mk(st.words, st.cur, LexMode::Word)
            } else if c == '\\' {
                mk(st.words, st.cur, LexMode::DoubleEscape)
            } else {
                mk(st.words, st.cur.push(c), LexMode::Double)
            }
        },
        LexMode::BlankEscape => {
            if c == '\n' {
                mk(st.words, seq![], LexMode::Blank)
            } else {
                mk(st.words, seq![c], LexMode::Word)
            }
        },
        LexMode::WordEscape => {
            if c == '\n' {
                mk(st.words, st.cur, LexMode::Word)
            } else {
                mk(st.words, st.cur.push(c), LexMode::Word)
            }
        },
        LexMode::DoubleEscape => {
            if c == '\n' {
                mk(st.words, st.cur, LexMode::Double)
            } else if dq_escapable(c) {
                mk(st.words, st.cur.push(c), LexMode::Double)
            } else {
                mk(st.words, st.cur.push('\\').push(c), LexMode::Double)
            }
        },
    }
}

/// The state after reading all of `s` from `st`.
pub open spec fn lex_run(st: LexState, s: Seq<char>) -> LexState
    decreases s.len(),
{
    if s.len() == 0 {
        st
    } else {
        lex_step(lex_run(st, s.drop_last()), s.last())
    }
}

/// The words at the end of input, or `None` where a quote or an escape is left open.
pub open spec fn lex_finish(st: LexState) -> Option<Seq<Seq<char>>> {
    match st.mode {
        LexMode::Blank => Some(st.words),
        LexMode::Word => Some(st.words.push(st.cur)),
        _ => None,
    }
}

/// The words of `s` as a POSIX shell splits them, or `None` for malformed quoting.
pub open spec fn shell_words(s: Seq<char>) -> Option<Seq<Seq<char>>> {
    lex_finish(lex_run(lex_start(), s))
}

/// Reading `a` and then `b` is reading `a + b`.
pub proof fn lemma_lex_run_concat(st: LexState, a: Seq<char>, b: Seq<char>)
    ensures
        lex_run(st, a + b) == lex_run(lex_run(st, a), b),
    decreases b.len(),
{
    if b.len() == 0 {
        assert(a + b =~= a);
    } else {
        assert((a + b).drop_last() =~= a + b.drop_last());
        assert((a + b).last() == b.last());
        lemma_lex_run_concat(st, a, b.drop_last());
    }
}

fn step_exec(
    words: &mut Vec<Vec<char>>,
    cur: &mut Vec<char>,
    mode: LexMode,
    c: char,
) -> (next: LexMode)
    ensures
        ({
            let st = mk(old(words)@.map_values(|w: Vec<char>| w@), old(cur)@, mode);
            let nx = lex_step(st, c);
            &&& final(words)@.map_values(|w: Vec<char>| w@) == nx.words
            &&& final(cur)@ == nx.cur
            &&& next == nx.mode
        }),
{
    let ghost ws = old(words)@;
    match mode {
        LexMode::Blank => {
            if c == ' ' || c == '\t' || c == '\n' {
                LexMode::Blank
            } else if c == '\'' {
                *cur = Vec::new();
                LexMode::Single
            } else if c == '"' {
                *cur = Vec::new();
                LexMode::Double
            } else if c == '\\' {
                *cur = Vec::new();
                LexMode::BlankEscape
            } else {
                *cur = vec![c];
                LexMode::Word
            }
        },
        LexMode::Word => {
            if c == ' ' || c == '\t' || c == '\n' {
                words.push(cur.clone());
                *cur = Vec::new();
                assert(words@.map_values(|w: Vec<char>| w@) =~= ws.map_values(|w: Vec<char>| w@).push(old(cur)@));
                LexMode::Blank
            } else if c == '\'' {
                LexMode::Single
            } else if c == '"' {
                LexMode::Double
            } else if c == '\\' {
                LexMode::WordEscape
            } else {
                cur.push(c);
                LexMode::Word
            }
        },
        LexMode::Single => {
            if c == '\'' {
                LexMode::Word
            } else {
                cur.push(c);
                LexMode::Single
            }
        },
        LexMode::Double => {
            if c == '"' {
                LexMode::Word
            } else if c == '\\' {
                LexMode::DoubleEscape
            } else {
                cur.push(c);
                LexMode::Double
            }
        },
        LexMode::BlankEscape => {
            if c == '\n' {
                *cur = Vec::new();
                LexMode::Blank
            } else {
                *cur = vec![c];
                LexMode::Word
            }
        },
        LexMode::WordEscape => {
            if c != '\n' {
                cur.push(c);
            }
            LexMode::Word
        },
        LexMode::DoubleEscape => {
            if c == '\n' {
            } else if c == '"' || c == '\\' || c == '`' || c == '$' {
                cur.push(c);
            } else {
                cur.push('\\');
                cur.push(c);
            }
            LexMode::Double
        },
    }
}

/// Splits a sequence of characters into shell words.
pub fn split_chars(s: &Vec<char>) -> (r: Option<Vec<Vec<char>>>)
    ensures
        match shell_words(s@) {
            Some(ws) => r matches Some(v) && v@.map_values(|w: Vec<char>| w@) == ws,
            None => r is None,
        },
{
    let mut words: Vec<Vec<char>> = Vec::new();
    let mut cur: Vec<char> = Vec::new();
    let mut mode = LexMode::Blank;
    let mut i: usize = 0;
    assert(words@.map_values(|w: Vec<char>| w@) =~= seq![]);
    while i < s.len()
        invariant
            0 <= i <= s@.len(),
            ({
                let st = lex_run(lex_start(), s@.take(i as int));
                &&& words@.map_values(|w: Vec<char>| w@) == st.words
                &&& cur@ == st.cur
                &&& mode == st.mode
            }),
        decreases s@.len() - i,
    {
        assert(s@.take(i as int + 1).drop_last() =~= s@.take(i as int));
        mode = step_exec(&mut words, &mut cur, mode, s[i]);
        i = i + 1;
    }
    assert(s@.take(i as int) =~= s@);
    match mode {
        LexMode::Blank => Some(words),
        LexMode::Word => {
            let ghost ws = words@;
            words.push(cur);
            assert(words@.map_values(|w: Vec<char>| w@) =~= ws.map_values(|w: Vec<char>| w@).push(cur@));
            Some(words)
        },
        _ => None,
    }
}

pub open spec fn views(v: Seq<String>) -> Seq<Seq<char>> {
    v.map_values(|w: String| w@)
}

/// Splits one line of text into shell words, as a POSIX shell does after quote
/// removal. A blank line gives no words; unterminated quoting gives `None`.
pub fn tokenize(line: &str) -> (r: Option<Vec<String>>)
    ensures
        match shell_words(line@) {
            Some(ws) => r matches Some(v) && views(v@) == ws,
            None => r is None,
        },
{
    let cs = chars_of(line);
    match split_chars(&cs) {
        None => None,
        Some(ws) => {
            let mut out: Vec<String> = Vec::new();
            let mut i: usize = 0;
            while i < ws.len()
                invariant
                    i <= ws@.len(),
                    views(out@) =~= ws@.map_values(|w: Vec<char>| w@).take(i as int),
                decreases ws@.len() - i,
            {
                let ghost before = out@;
                let w = string_of(&ws[i]);
                out.push(w);
                assert(views(out@) =~= views(before).push(w@));
                assert(ws@.map_values(|w: Vec<char>| w@).take(i as int + 1)
                    =~= ws@.map_values(|w: Vec<char>| w@).take(i as int).push(ws@[i as int]@));
                i = i + 1;
            }
            assert(ws@.map_values(|w: Vec<char>| w@).take(i as int) =~= ws@.map_values(|w: Vec<char>| w@));
            Some(out)
        },
    }
}

} // verus!
