//! The script-spec mini-language: an optional `cd <dir>` line, then
//! `export NAME=VALUE` lines, then a command body that may span lines.

use vstd::prelude::*;
use crate::lexer::{shell_words, split_chars};
use crate::text::{chars_of, string_of};

verus! {

/// Why a script spec was rejected.
#[derive(Clone, Copy, PartialEq, Eq, Structural, Debug)]
pub enum ParseError {
    /// A `cd` line without exactly one directory.
    CdArgCount,
    /// A `cd` line after a `cd` or `export` line.
    CdNotFirst,
    /// An `export` line without exactly one `NAME=VALUE` word.
    ExportArgCount,
    /// An `export` word that is not `NAME=VALUE`.
    ExportSyntax,
    /// The command body has unterminated quoting.
    Tokenize,
    /// There is no command at all.
    NoCommand,
}

/// A parsed script spec.
pub struct ScriptSpec {
    pub binary: String,
    pub args: Vec<String>,
    pub env: Vec<(String, String)>,
    pub cd: Option<String>,
}

/// The mathematical model of a [`ScriptSpec`].
pub struct ScriptView {
    pub binary: Seq<char>,
    pub args: Seq<Seq<char>>,
    pub env: Seq<(Seq<char>, Seq<char>)>,
    pub cd: Option<Seq<char>>,
}

pub open spec fn env_view(env: Seq<(String, String)>) -> Seq<(Seq<char>, Seq<char>)> {
    env.map_values(|p: (String, String)| (p.0@, p.1@))
}

pub open spec fn opt_view(o: Option<String>) -> Option<Seq<char>> {
    match o {
        Some(s) => Some(s@),
        None => None,
    }
}

impl ScriptSpec {
    /// A parsed spec always names a binary.
    pub open spec fn wf(&self) -> bool {
        self.binary@.len() > 0
    }
}

impl View for ScriptSpec {
    type V = ScriptView;

    open spec fn view(&self) -> ScriptView {
        ScriptView {
            binary: self.binary@,
            args: self.args@.map_values(|w: String| w@),
            env: env_view(self.env@),
            cd: opt_view(self.cd),
        }
    }
}

/// The lines of a text, split at each newline (a text ending in a newline ends
/// with an empty line).
pub open spec fn text_lines(s: Seq<char>) -> Seq<Seq<char>>
    decreases s.len(),
{
    if s.len() == 0 {
        seq![seq![]]
    } else {
        let ls = text_lines(s.drop_last());
        if s.last() == '\n' {
            ls.push(seq![])
        } else {
            ls.update(ls.len() - 1, ls.last().push(s.last()))
        }
    }
}

/// Lines joined by newlines.
pub open spec fn join_lines(ls: Seq<Seq<char>>) -> Seq<char>
    decreases ls.len(),
{
    if ls.len() == 0 {
        seq![]
    } else if ls.len() == 1 {
        ls[0]
    } else {
        join_lines(ls.drop_last()) + seq!['\n'] + ls.last()
    }
}

/// `s` with every backslash that stands right before a newline removed
/// together with that newline.
pub open spec fn collapse(s: Seq<char>) -> Seq<char>
    decreases s.len(),
{
    if s.len() == 0 {
        seq![]
    } else if s.len() >= 2 && s[0] == '\\' && s[1] == '\n' {
        collapse(s.skip(2))
    } else {
        seq![s[0]] + collapse(s.skip(1))
    }
}

/// `p` is the one `=` of `t`, with a non-empty name before it.
pub open spec fn single_eq_at(t: Seq<char>, p: int) -> bool {
    &&& 0 < p < t.len()
    &&& t[p] == '='
    &&& forall|j: int| 0 <= j < t.len() && j != p ==> t[j] != '='
}

/// The binding that an `export` word gives, if it is one.
pub open spec fn export_binding(t: Seq<char>) -> Option<(Seq<char>, Seq<char>)> {
    if exists|p: int| single_eq_at(t, p) {
        let p = choose|p: int| single_eq_at(t, p);
        Some((t.take(p), t.skip(p + 1)))
    } else {
        None
    }
}

/// Where the parser stands between two lines.
#[derive(Clone, Copy, PartialEq, Eq, Structural, Debug)]
pub enum Phase {
    ExpectCd,
    ExpectEnvOrCmd,
    InCommand,
}

/// The abstract parser state.
pub struct ParseState {
    pub phase: Phase,
    pub cd: Option<Seq<char>>,
    pub env: Seq<(Seq<char>, Seq<char>)>,
    pub body: Seq<Seq<char>>,
}

pub open spec fn parse_start() -> ParseState {
    ParseState { phase: Phase::ExpectCd, cd: None, env: seq![], body: seq![] }
}

pub open spec fn cd_word() -> Seq<char> {
    seq!['c', 'd']
}

pub open spec fn export_word() -> Seq<char> {
    seq!['e', 'x', 'p', 'o', 'r', 't']
}

/// One line of input.
pub open spec fn parse_step(st: ParseState, line: Seq<char>) -> Result<ParseState, ParseError> {
    if st.phase == Phase::InCommand {
        Ok(ParseState { body: st.body.push(line), ..st })
    } else {
        match shell_words(line) {
            Some(ws) if ws.len() == 0 => Ok(st),
            Some(ws) if ws[0] == cd_word() => {
                if st.phase != Phase::ExpectCd {
                    Err(ParseError::CdNotFirst)
                } else if ws.len() != 2 {
                    Err(ParseError::CdArgCount)
                } else {
                    Ok(ParseState { phase: Phase::ExpectEnvOrCmd, cd: Some(ws[1]), ..st })
                }
            },
            Some(ws) if ws[0] == export_word() => {
                if ws.len() != 2 {
                    Err(ParseError::ExportArgCount)
                } else {
                    match export_binding(ws[1]) {
                        Some(b) => Ok(
                            ParseState { phase: Phase::ExpectEnvOrCmd, env: st.env.push(b), ..st },
                        ),
                        None => Err(ParseError::ExportSyntax),
                    }
                }
            },
            _ => Ok(ParseState { phase: Phase::InCommand, body: seq![line], ..st }),
        }
    }
}

/// The state after all of `ls`, or the first error.
pub open spec fn parse_run(ls: Seq<Seq<char>>) -> Result<ParseState, ParseError>
    decreases ls.len(),
{
    if ls.len() == 0 {
        Ok(parse_start())
    } else {
        match parse_run(ls.drop_last()) {
            Ok(st) => parse_step(st, ls.last()),
            Err(e) => Err(e),
        }
    }
}

/// What the command body of a finished state comes to.
pub open spec fn finish_parse(st: ParseState) -> Result<ScriptView, ParseError> {
    if st.phase != Phase::InCommand {
        Err(ParseError::NoCommand)
    } else {
        match shell_words(collapse(join_lines(st.body))) {
            None => Err(ParseError::Tokenize),
            Some(ws) => {
                if ws.len() == 0 || ws[0].len() == 0 {
                    Err(ParseError::NoCommand)
                } else {
                    Ok(ScriptView { binary: ws[0], args: ws.skip(1), env: st.env, cd: st.cd })
                }
            },
        }
    }
}

/// The meaning of a script spec text.
pub open spec fn parsed(text: Seq<char>) -> Result<ScriptView, ParseError> {
    match parse_run(text_lines(text)) {
        Err(e) => Err(e),
        Ok(st) => finish_parse(st),
    }
}

pub open spec fn char_views(v: Seq<Vec<char>>) -> Seq<Seq<char>> {
    v.map_values(|l: Vec<char>| l@)
}

pub proof fn lemma_parse_err_prefix(ls: Seq<Seq<char>>, j: int)
    requires
        0 <= j <= ls.len(),
        parse_run(ls.take(j)) is Err,
    ensures
        parse_run(ls) == parse_run(ls.take(j)),
    decreases ls.len(),
{
    if j == ls.len() {
        assert(ls.take(j) =~= ls);
    } else {
        assert(ls.drop_last().take(j) =~= ls.take(j));
        lemma_parse_err_prefix(ls.drop_last(), j);
    }
}

fn split_lines(s: &Vec<char>) -> (r: Vec<Vec<char>>)
    ensures
        char_views(r@) == text_lines(s@),
{
    let mut done: Vec<Vec<char>> = Vec::new();
    let mut cur: Vec<char> = Vec::new();
    let mut i: usize = 0;
    assert(s@.take(0) =~= Seq::<char>::empty());
    assert(char_views(done@).push(cur@) =~= seq![seq![]]);
    while i < s.len()
        invariant
            i <= s@.len(),
            text_lines(s@.take(i as int)) == char_views(done@).push(cur@),
        decreases s@.len() - i,
    {
        let c = s[i];
        assert(s@.take(i as int + 1).drop_last() =~= s@.take(i as int));
        let ghost before = char_views(done@);
        let ghost cv = cur@;
        if c == '\n' {
            done.push(cur.clone());
            cur = Vec::new();
            assert(char_views(done@) =~= before.push(cv));
        } else {
            cur.push(c);
            assert(before.push(cv).update(before.len() as int, cv.push(c)) =~= before.push(cur@));
        }
        i = i + 1;
    }
    assert(s@.take(i as int) =~= s@);
    let ghost before = char_views(done@);
    done.push(cur);
    assert(char_views(done@) =~= before.push(cur@));
    done
}

fn collapse_exec(s: &Vec<char>) -> (r: Vec<char>)
    ensures
        r@ == collapse(s@),
{
    let mut out: Vec<char> = Vec::new();
    let mut i: usize = 0;
    assert(s@.skip(0) =~= s@);
    while i < s.len()
        invariant
            i <= s@.len(),
            collapse(s@) == out@ + collapse(s@.skip(i as int)),
        decreases s@.len() - i,
    {
        let ghost rest = s@.skip(i as int);
        if i + 1 < s.len() && s[i] == '\\' && s[i + 1] == '\n' {
            assert(rest.skip(2) =~= s@.skip(i as int + 2));
            i = i + 2;
        } else {
            let ghost before = out@;
            out.push(s[i]);
            assert(rest.skip(1) =~= s@.skip(i as int + 1));
            assert(before + (seq![rest[0]] + collapse(rest.skip(1))) =~= out@ + collapse(rest.skip(1)));
            i = i + 1;
        }
    }
    assert(s@.skip(i as int) =~= Seq::<char>::empty());
    assert(out@ + Seq::<char>::empty() =~= out@);
    out
}

fn find_single_eq(t: &Vec<char>) -> (r: Option<usize>)
    ensures
        match r {
            Some(p) => single_eq_at(t@, p as int),
            None => forall|p: int| !single_eq_at(t@, p),
        },
{
    let mut first: Option<usize> = None;
    let mut many = false;
    let mut i: usize = 0;
    while i < t.len()
        invariant
            i <= t@.len(),
            first is None ==> forall|j: int| 0 <= j < i ==> t@[j] != '=',
            first matches Some(p) ==> {
                &&& p < i
                &&& t@[p as int] == '='
                &&& !many ==> forall|j: int| 0 <= j < i && j != p ==> t@[j] != '='
                &&& many ==> exists|q: int| 0 <= q < i && q != p && t@[q] == '='
            },
            many ==> first is Some,
        decreases t@.len() - i,
    {
        if t[i] == '=' {
            match first {
                None => {
                    first = Some(i);
                },
                Some(p) => {
                    assert(t@[i as int] == '=');
                    many = true;
                },
            }
        }
        i = i + 1;
    }
    match first {
        None => None,
        Some(p) => {
            if many {
                assert forall|x: int| !single_eq_at(t@, x) by {
                    let q = choose|q: int| 0 <= q < i && q != p && t@[q] == '=';
                    if single_eq_at(t@, x) {
                        if x == p {
                            assert(t@[q] != '=');
                        } else {
                            assert(t@[p as int] != '=');
                        }
                    }
                }
                None
            } else if p == 0 {
                assert forall|x: int| !single_eq_at(t@, x) by {
                    if single_eq_at(t@, x) && x != 0 {
                        assert(t@[0] != '=');
                    }
                }
                None
            } else {
                Some(p)
            }
        },
    }
}

fn is_cd(t: &Vec<char>) -> (r: bool)
    ensures
        r == (t@ == cd_word()),
{
    if t.len() == 2 && t[0] == 'c' && t[1] == 'd' {
        assert(t@ =~= cd_word());
        true
    } else {
        assert(t@.len() != 2 || t@[0] != 'c' || t@[1] != 'd');
        false
    }
}

fn is_export(t: &Vec<char>) -> (r: bool)
    ensures
        r == (t@ == export_word()),
{
    if t.len() == 6 && t[0] == 'e' && t[1] == 'x' && t[2] == 'p' && t[3] == 'o' && t[4] == 'r'
        && t[5] == 't' {
        assert(t@ =~= export_word());
        true
    } else {
        assert(t@.len() != 6 || t@[0] != 'e' || t@[1] != 'x' || t@[2] != 'p' || t@[3] != 'o'
            || t@[4] != 'r' || t@[5] != 't');
        false
    }
}

fn sub_chars(t: &Vec<char>, from: usize, to: usize) -> (r: Vec<char>)
    requires
        from <= to <= t@.len(),
    ensures
        r@ == t@.subrange(from as int, to as int),
{
    let mut out: Vec<char> = Vec::new();
    let mut i: usize = from;
    while i < to
        invariant
            from <= i <= to <= t@.len(),
            out@ == t@.subrange(from as int, i as int),
        decreases to - i,
    {
        out.push(t[i]);
        assert(t@.subrange(from as int, i as int + 1) =~= t@.subrange(from as int, i as int).push(t@[i as int]));
        i = i + 1;
    }
    out
}

fn strings_of(ws: &Vec<Vec<char>>, from: usize) -> (r: Vec<String>)
    requires
        from <= ws@.len(),
    ensures
        r@.map_values(|w: String| w@) == char_views(ws@).skip(from as int),
{
    let mut out: Vec<String> = Vec::new();
    let mut i: usize = from;
    while i < ws.len()
        invariant
            from <= i <= ws@.len(),
            out@.map_values(|w: String| w@) =~= char_views(ws@).subrange(from as int, i as int),
        decreases ws@.len() - i,
    {
        let ghost before = out@;
        let w = string_of(&ws[i]);
        out.push(w);
        assert(out@.map_values(|w: String| w@) =~= before.map_values(|w: String| w@).push(w@));
        assert(char_views(ws@).subrange(from as int, i as int + 1) =~= char_views(ws@).subrange(
            from as int,
            i as int,
        ).push(ws@[i as int]@));
        i = i + 1;
    }
    assert(char_views(ws@).subrange(from as int, i as int) =~= char_views(ws@).skip(from as int));
    out
}

/// Parses a script spec: an optional first `cd <dir>` line, `export NAME=VALUE`
/// lines, and a command body whose lines are joined, freed of backslash-newline
/// continuations and split into the binary and its arguments. Blank lines
/// before the body are skipped.
pub fn parse_script(text: &str) -> (r: Result<ScriptSpec, ParseError>)
    ensures
        match parsed(text@) {
            Ok(v) => r matches Ok(spec) && spec@ == v,
            Err(e) => r == Err::<ScriptSpec, ParseError>(e),
        },
        r matches Ok(spec) ==> spec.wf(),
{
    let chars = chars_of(text);
    let lines = split_lines(&chars);
    let ghost ls = char_views(lines@);
    let mut phase = Phase::ExpectCd;
    let mut cd: Option<String> = None;
    let mut env: Vec<(String, String)> = Vec::new();
    let mut body: Vec<char> = Vec::new();
    let ghost mut gbody: Seq<Seq<char>> = seq![];
    let mut i: usize = 0;
    assert(ls.take(0) =~= Seq::<Seq<char>>::empty());
    assert(env_view(env@) =~= Seq::<(Seq<char>, Seq<char>)>::empty());
    while i < lines.len()
        invariant
            i <= lines@.len(),
            ls == char_views(lines@),
            ls == text_lines(text@),
            parse_run(ls.take(i as int)) == Ok::<ParseState, ParseError>(
                ParseState { phase, cd: opt_view(cd), env: env_view(env@), body: gbody },
            ),
            phase == Phase::InCommand ==> gbody.len() >= 1 && body@ == join_lines(gbody),
        decreases lines@.len() - i,
    {
        let line = &lines[i];
        let ghost st = ParseState { phase, cd: opt_view(cd), env: env_view(env@), body: gbody };
        assert(ls.take(i as int + 1).drop_last() =~= ls.take(i as int));
        assert(ls.take(i as int + 1).last() == line@);
        if phase == Phase::InCommand {
            let ghost old_body = gbody;
            body.push('\n');
            let mut more = line.clone();
            assert(more@ =~= line@);
            body.append(&mut more);
            proof {
                gbody = gbody.push(line@);
                assert(gbody.drop_last() =~= old_body);
            }
        } else {
            match split_chars(line) {
                Some(ws) => {
                    let ghost wv = char_views(ws@);
                    if ws.len() == 0 {
                    } else if is_cd(&ws[0]) {
                        if phase != Phase::ExpectCd {
                            proof {
                                lemma_parse_err_prefix(ls, i as int + 1);
                            }
                            return Err(ParseError::CdNotFirst);
                        } else if ws.len() != 2 {
                            proof {
                                lemma_parse_err_prefix(ls, i as int + 1);
                            }
                            return Err(ParseError::CdArgCount);
                        } else {
                            cd = Some(string_of(&ws[1]));
                            phase = Phase::ExpectEnvOrCmd;
                        }
                    } else if is_export(&ws[0]) {
                        if ws.len() != 2 {
                            proof {
                                lemma_parse_err_prefix(ls, i as int + 1);
                            }
                            return Err(ParseError::ExportArgCount);
                        }
                        match find_single_eq(&ws[1]) {
                            Some(p) => {
                                let w = &ws[1];
                                let n = w.len();
                                assert(p < n);
                                proof {
                                    let q = choose|q: int| single_eq_at(w@, q);
                                    if q != p as int {
                                        assert(w@[p as int] != '=');
                                    }
                                }
                                let name = string_of(&sub_chars(w, 0, p));
                                let value = string_of(&sub_chars(w, p + 1, n));
                                assert(w@.subrange(0, p as int) =~= w@.take(p as int));
                                assert(w@.subrange(p as int + 1, w@.len() as int) =~= w@.skip(p as int + 1));
                                let ghost before = env@;
                                env.push((name, value));
                                assert(env_view(env@) =~= env_view(before).push((name@, value@)));
                                phase = Phase::ExpectEnvOrCmd;
                            },
                            None => {
                                proof {
                                    lemma_parse_err_prefix(ls, i as int + 1);
                                }
                                return Err(ParseError::ExportSyntax);
                            },
                        }
                    } else {
                        phase = Phase::InCommand;
                        body = line.clone();
                        assert(body@ =~= line@);
                        proof {
                            gbody = seq![line@];
                        }
                    }
                },
                None => {
                    phase = Phase::InCommand;
                    body = line.clone();
                    assert(body@ =~= line@);
                    proof {
                        gbody = seq![line@];
                    }
                },
            }
        }
        i = i + 1;
    }
    assert(ls.take(i as int) =~= ls);
    if phase != Phase::InCommand {
        return Err(ParseError::NoCommand);
    }
    let flat = collapse_exec(&body);
    match split_chars(&flat) {
        None => Err(ParseError::Tokenize),
        Some(ws) => {
            if ws.len() == 0 || ws[0].len() == 0 {
                Err(ParseError::NoCommand)
            } else {
                let binary = string_of(&ws[0]);
                let args = strings_of(&ws, 1);
                Ok(ScriptSpec { binary, args, env, cd })
            }
        },
    }
}

} // verus!
