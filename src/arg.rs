//! Typed values to interpolate into a template, and their shell-safe text.

use vstd::prelude::*;
use vstd::string::StringExecFns;
use crate::ansi::{ansi_c_quoted, ansi_c_value, bash_binary_quote, lemma_ansi_c_round_trip};
use crate::lexer::shell_words;
use crate::quote::{lemma_quote_round_trip, lemma_quoted_list_round_trip, quoted, quoted_list, shell_quote};
use crate::text::string_of;

verus! {

/// One value to interpolate into a template.
pub enum CommandArg {
    /// An absent optional value: renders to nothing.
    Empty,
    /// A single word, quoted on rendering.
    Literal(String),
    /// Text that is already shell-safe, emitted unchanged.
    Raw(String),
    /// Words quoted one by one and joined by single spaces.
    List(Vec<String>),
}

/// The mathematical model of a [`CommandArg`].
pub enum ArgView {
    Empty,
    Literal(Seq<char>),
    Raw(Seq<char>),
    List(Seq<Seq<char>>),
}

impl View for CommandArg {
    type V = ArgView;

    open spec fn view(&self) -> ArgView {
        match self {
            CommandArg::Empty => ArgView::Empty,
            CommandArg::Literal(s) => ArgView::Literal(s@),
            CommandArg::Raw(s) => ArgView::Raw(s@),
            CommandArg::List(v) => ArgView::List(v@.map_values(|w: String| w@)),
        }
    }
}

/// The shell text of a value.
pub open spec fn rendered(a: ArgView) -> Seq<char> {
    match a {
        ArgView::Empty => seq![],
        ArgView::Literal(s) => quoted(s),
        ArgView::Raw(s) => s,
        ArgView::List(ws) => quoted_list(ws),
    }
}

/// The shell text of `value`: a literal quoted as one shell word, raw text as
/// it is, a list as its quoted words joined by single spaces, and nothing for
/// an empty value.
pub fn render_argument(value: &CommandArg) -> (r: String)
    ensures
        r@ == rendered(value@),
{
    match value {
        CommandArg::Empty => String::new(),
        CommandArg::Literal(s) => shell_quote(s.as_str()),
        CommandArg::Raw(s) => s.clone(),
        CommandArg::List(v) => render_list(v),
    }
}

fn render_list(v: &Vec<String>) -> (r: String)
    ensures
        r@ == quoted_list(v@.map_values(|w: String| w@)),
{
    let ghost ws = v@.map_values(|w: String| w@);
    let mut out = String::new();
    let mut i: usize = 0;
    while i < v.len()
        invariant
            i <= v@.len(),
            ws == v@.map_values(|w: String| w@),
            out@ == quoted_list(ws.take(i as int)),
        decreases v@.len() - i,
    {
        let q = shell_quote(v[i].as_str());
        assert(ws.take(i as int + 1).drop_last() =~= ws.take(i as int));
        assert(ws.take(i as int + 1).last() == ws[i as int]);
        if i > 0 {
            proof {
                reveal_strlit(" ");
            }
            out.append(" ");
        } else {
            assert(ws.take(1) =~= seq![ws[0]]);
        }
        out.append(q.as_str());
        i = i + 1;
    }
    assert(ws.take(i as int) =~= ws);
    if i == 0 {
        assert(ws.take(0) =~= Seq::<Seq<char>>::empty());
    }
    out
}

pub uninterp spec fn utf8_decoded(b: Seq<u8>) -> Option<Seq<char>>;

/// Relies on `std::str::from_utf8`: the text that `b` encodes, or `None` where
/// `b` is not valid UTF-8.
#[verifier::external_body]
fn decode_utf8(b: &[u8]) -> (r: Option<String>)
    ensures
        match utf8_decoded(b@) {
            Some(t) => r matches Some(s) && s@ == t,
            None => r is None,
        },
{
    std::str::from_utf8(b).ok().map(|s| s.to_string())
}

/// The value for a filesystem path given as its bytes and, where those bytes
/// are valid text, that text: the text as a literal, and otherwise the bytes
/// as an ANSI-C literal, taken raw.
pub fn path_arg_from(text: Option<&str>, bytes: &[u8]) -> (r: CommandArg)
    ensures
        r@ == (match text {
            Some(t) => ArgView::Literal(t@),
            None => ArgView::Raw(ansi_c_quoted(bytes@)),
        }),
{
    match text {
        Some(t) => CommandArg::Literal(String::from_str(t)),
        None => CommandArg::Raw(bash_binary_quote(bytes)),
    }
}

/// The model of the value for a path with bytes `b`.
pub open spec fn path_view(b: Seq<u8>) -> ArgView {
    match utf8_decoded(b) {
        Some(t) => ArgView::Literal(t),
        None => ArgView::Raw(ansi_c_quoted(b)),
    }
}

/// The value for a filesystem path given as its bytes.
pub fn path_arg(bytes: &[u8]) -> (r: CommandArg)
    ensures
        r@ == path_view(bytes@),
{
    match decode_utf8(bytes) {
        Some(s) => path_arg_from(Some(s.as_str()), bytes),
        None => path_arg_from(None, bytes),
    }
}

/// The decimal digits of `n`.
pub open spec fn decimal(n: nat) -> Seq<char>
    decreases n,
{
    if n < 10 {
        seq![(n + 48) as char]
    } else {
        decimal(n / 10).push(((n % 10) + 48) as char)
    }
}

/// The decimal text of a signed integer.
pub open spec fn signed_decimal(n: int) -> Seq<char> {
    if n < 0 {
        seq!['-'] + decimal((-n) as nat)
    } else {
        decimal(n as nat)
    }
}

fn push_decimal(out: &mut Vec<char>, n: u64)
    ensures
        final(out)@ == old(out)@ + decimal(n as nat),
    decreases n,
{
    if n < 10 {
        out.push(((n as u8) + 48) as char);
    } else {
        push_decimal(out, n / 10);
        out.push((((n % 10) as u8) + 48) as char);
    }
}

/// The decimal text of an unsigned integer.
pub fn decimal_text(n: u64) -> (r: String)
    ensures
        r@ == decimal(n as nat),
{
    let mut out: Vec<char> = Vec::new();
    push_decimal(&mut out, n);
    assert(out@ =~= decimal(n as nat));
    string_of(&out)
}

/// The decimal text of a signed integer.
pub fn signed_decimal_text(n: i64) -> (r: String)
    ensures
        r@ == signed_decimal(n as int),
{
    let mut out: Vec<char> = Vec::new();
    if n < 0 {
        out.push('-');
        let m: u64 = (-(n + 1)) as u64 + 1;
        push_decimal(&mut out, m);
    } else {
        push_decimal(&mut out, n as u64);
        assert(out@ =~= decimal(n as nat));
    }
    string_of(&out)
}

/// A value with a canonical text: strings and integers.
pub trait ShellText {
    spec fn text(&self) -> Seq<char>;

    fn to_text(&self) -> (r: String)
        ensures
            r@ == self.text(),
    ;
}

impl<'a> ShellText for &'a str {
    open spec fn text(&self) -> Seq<char> {
        (*self)@
    }

    fn to_text(&self) -> (r: String) {
        String::from_str(*self)
    }
}

impl ShellText for String {
    open spec fn text(&self) -> Seq<char> {
        self@
    }

    fn to_text(&self) -> (r: String) {
        self.clone()
    }
}

impl ShellText for u64 {
    open spec fn text(&self) -> Seq<char> {
        decimal(*self as nat)
    }

    fn to_text(&self) -> (r: String) {
        decimal_text(*self)
    }
}

impl ShellText for u32 {
    open spec fn text(&self) -> Seq<char> {
        decimal(*self as nat)
    }

    fn to_text(&self) -> (r: String) {
        decimal_text(*self as u64)
    }
}

impl ShellText for i64 {
    open spec fn text(&self) -> Seq<char> {
        signed_decimal(*self as int)
    }

    fn to_text(&self) -> (r: String) {
        signed_decimal_text(*self)
    }
}

impl ShellText for i32 {
    open spec fn text(&self) -> Seq<char> {
        signed_decimal(*self as int)
    }

    fn to_text(&self) -> (r: String) {
        signed_decimal_text(*self as i64)
    }
}

/// A value that becomes a [`CommandArg`].
pub trait ToCommandArg {
    spec fn arg_view(&self) -> ArgView;

    fn to_command_arg(&self) -> (r: CommandArg)
        ensures
            r@ == self.arg_view(),
    ;
}

impl<'a> ToCommandArg for &'a str {
    open spec fn arg_view(&self) -> ArgView {
        ArgView::Literal(self.text())
    }

    fn to_command_arg(&self) -> (r: CommandArg) {
        CommandArg::Literal(self.to_text())
    }
}

impl ToCommandArg for String {
    open spec fn arg_view(&self) -> ArgView {
        ArgView::Literal(self.text())
    }

    fn to_command_arg(&self) -> (r: CommandArg) {
        CommandArg::Literal(self.to_text())
    }
}

impl ToCommandArg for u64 {
    open spec fn arg_view(&self) -> ArgView {
        ArgView::Literal(self.text())
    }

    fn to_command_arg(&self) -> (r: CommandArg) {
        CommandArg::Literal(self.to_text())
    }
}

impl ToCommandArg for u32 {
    open spec fn arg_view(&self) -> ArgView {
        ArgView::Literal(self.text())
    }

    fn to_command_arg(&self) -> (r: CommandArg) {
        CommandArg::Literal(self.to_text())
    }
}

impl ToCommandArg for i64 {
    open spec fn arg_view(&self) -> ArgView {
        ArgView::Literal(self.text())
    }

    fn to_command_arg(&self) -> (r: CommandArg) {
        CommandArg::Literal(self.to_text())
    }
}

impl ToCommandArg for i32 {
    open spec fn arg_view(&self) -> ArgView {
        ArgView::Literal(self.text())
    }

    fn to_command_arg(&self) -> (r: CommandArg) {
        CommandArg::Literal(self.to_text())
    }
}

impl<T: ShellText> ToCommandArg for Option<T> {
    open spec fn arg_view(&self) -> ArgView {
        match self {
            Some(v) => ArgView::Literal(v.text()),
            None => ArgView::Empty,
        }
    }

    fn to_command_arg(&self) -> (r: CommandArg) {
        match self {
            Some(v) => CommandArg::Literal(v.to_text()),
            None => CommandArg::Empty,
        }
    }
}

impl<T: ShellText> ToCommandArg for Vec<T> {
    open spec fn arg_view(&self) -> ArgView {
        ArgView::List(self@.map_values(|x: T| x.text()))
    }

    fn to_command_arg(&self) -> (r: CommandArg) {
        let mut out: Vec<String> = Vec::new();
        let mut i: usize = 0;
        while i < self.len()
            invariant
                i <= self@.len(),
                out@.map_values(|w: String| w@) =~= self@.map_values(|x: T| x.text()).take(i as int),
            decreases self@.len() - i,
        {
            let ghost before = out@;
            let t = self[i].to_text();
            out.push(t);
            assert(out@.map_values(|w: String| w@) =~= before.map_values(|w: String| w@).push(t@));
            assert(self@.map_values(|x: T| x.text()).take(i as int + 1)
                =~= self@.map_values(|x: T| x.text()).take(i as int).push(self@[i as int].text()));
            i = i + 1;
        }
        assert(self@.map_values(|x: T| x.text()).take(i as int) =~= self@.map_values(|x: T| x.text()));
        CommandArg::List(out)
    }
}

/// Turns an interpolation input into a [`CommandArg`]: strings and integers
/// become literals, an optional value its inner literal or nothing, a vector a
/// list of its elements' texts.
pub fn command_arg<T: ToCommandArg>(value: &T) -> (r: CommandArg)
    ensures
        r@ == value.arg_view(),
{
    value.to_command_arg()
}

/// A rendered literal splits into exactly one shell word: the literal itself,
/// whatever spaces, quotes, `$`, backticks or newlines it holds.
pub proof fn lemma_literal_is_one_word(s: Seq<char>)
    ensures
        shell_words(rendered(ArgView::Literal(s))) == Some(seq![s]),
{
    lemma_quote_round_trip(s);
}

/// A rendered list splits into exactly its elements, in order; an empty list
/// gives no words.
pub proof fn lemma_list_is_its_words(ws: Seq<Seq<char>>)
    ensures
        shell_words(rendered(ArgView::List(ws))) == Some(ws),
{
    lemma_quoted_list_round_trip(ws);
}

/// An empty value renders to no text and so to no word.
pub proof fn lemma_empty_is_no_word()
    ensures
        rendered(ArgView::Empty) == Seq::<char>::empty(),
        shell_words(rendered(ArgView::Empty)) == Some(Seq::<Seq<char>>::empty()),
{
    assert(crate::lexer::lex_run(crate::lexer::lex_start(), Seq::<char>::empty())
        == crate::lexer::lex_start());
}

/// A path whose bytes are not valid text renders to an ANSI-C literal that a
/// shell reads back as exactly those bytes.
pub proof fn lemma_binary_path_round_trip(b: Seq<u8>)
    requires
        utf8_decoded(b) is None,
    ensures
        ansi_c_value(rendered(path_view(b))) == Some(b),
{
    lemma_ansi_c_round_trip(b);
}

} // verus!
