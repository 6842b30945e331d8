//! The lexical tokens that the class-list compiler reads, and the spec-level
//! predicates over a token stream that its grammar is stated with.
use vstd::prelude::*;
use vstd::string::StringExecFns;

verus! {

/// The delimiter of a token group.
#[derive(Debug, Clone, Copy, PartialEq, Eq, Structural)]
pub enum Delim {
    Paren,
    Bracket,
    Brace,
    Invisible,
}

/// One token tree of the input: groups hold their own tokens.
#[derive(Debug)]
pub enum Tok {
    Ident(String),
    /// A punctuation character, and whether it is joined to the next one.
    Punct(char, bool),
    Literal(String),
    Group(Delim, Vec<Tok>),
}

/// A range `start..end` of positions in the input stream.
#[derive(Debug, Clone, Copy, PartialEq, Eq, Structural)]
pub struct Span {
    pub start: usize,
    pub end: usize,
}

/// What went wrong while reading an invocation.
#[derive(Debug, Clone, Copy, PartialEq, Eq, Structural)]
pub enum ParseErrorKind {
    /// `<=>` was expected.
    ExpectedBindPunct,
    /// An option keyword is followed by syntax that its clause does not allow.
    MalformedOption,
    /// The tokens do not start an option clause.
    NotAnOption,
    /// An entry has no value tokens.
    EmptyValue,
    /// A toggle separator is followed by no toggle tokens.
    EmptyToggle,
}

/// A parse failure and the position in the input where it was found.
#[derive(Debug, Clone, Copy, PartialEq, Eq, Structural)]
pub struct ParseError {
    pub pos: usize,
    pub kind: ParseErrorKind,
}

pub open spec fn punct_at(s: Seq<Tok>, i: int, c: char) -> bool {
    0 <= i < s.len() && (s[i] matches Tok::Punct(p, _) && p == c)
}

/// A punctuation character that is joined to the one after it.
pub open spec fn joint_punct_at(s: Seq<Tok>, i: int, c: char) -> bool {
    0 <= i < s.len() && (s[i] matches Tok::Punct(p, joint) && p == c && joint)
}

pub open spec fn ident_at(s: Seq<Tok>, i: int) -> bool {
    0 <= i < s.len() && s[i] is Ident
}

pub open spec fn keyword_at(s: Seq<Tok>, i: int, word: Seq<char>) -> bool {
    0 <= i < s.len() && (s[i] matches Tok::Ident(name) && name@ == word)
}

/// The text of an identifier token.
pub open spec fn ident_text(t: Tok) -> Seq<char> {
    match t {
        Tok::Ident(name) => name@,
        _ => Seq::empty(),
    }
}

/// `<=>`, written as the three characters `<`, `=`, `>`.
pub open spec fn bind_at(s: Seq<Tok>, i: int) -> bool {
    punct_at(s, i, '<') && punct_at(s, i + 1, '=') && punct_at(s, i + 2, '>')
}

/// A colon that stands alone, not one of the two colons of a path separator.
pub open spec fn colon_sep_at(s: Seq<Tok>, i: int) -> bool {
    &&& 0 <= i < s.len()
    &&& s[i] matches Tok::Punct(p, joint) && p == ':' && !joint
    &&& !joint_punct_at(s, i - 1, ':')
}

/// The number of tokens of the toggle separator at `i`, or 0 where none is.
pub open spec fn toggle_sep_len(s: Seq<Tok>, i: int) -> int {
    if bind_at(s, i) {
        3
    } else if colon_sep_at(s, i) {
        1
    } else {
        0
    }
}

/// Where a scan of entry tokens stops.
#[derive(Debug, Clone, Copy, PartialEq, Eq, Structural)]
pub enum StopAt {
    /// At an entry separator or a toggle separator.
    EntryOrToggle,
    /// At an entry separator.
    Entry,
}

pub open spec fn stops_at(s: Seq<Tok>, i: int, stop: StopAt) -> bool {
    match stop {
        StopAt::EntryOrToggle => punct_at(s, i, ',') || toggle_sep_len(s, i) > 0,
        StopAt::Entry => punct_at(s, i, ','),
    }
}

/// The first position from `i` on where the scan stops, or the end of input.
pub open spec fn scan_end(s: Seq<Tok>, i: int, stop: StopAt) -> int
    decreases s.len() - i,
{
    if i >= s.len() || stops_at(s, i, stop) {
        i
    } else {
        scan_end(s, i + 1, stop)
    }
}

pub proof fn lemma_scan_end_bounds(s: Seq<Tok>, i: int, stop: StopAt)
    requires
        0 <= i <= s.len(),
    ensures
        i <= scan_end(s, i, stop) <= s.len(),
        scan_end(s, i, stop) < s.len() ==> stops_at(s, scan_end(s, i, stop), stop),
        forall|k: int| i <= k < scan_end(s, i, stop) ==> !#[trigger] stops_at(s, k, stop),
    decreases s.len() - i,
{
    if i < s.len() && !stops_at(s, i, stop) {
        lemma_scan_end_bounds(s, i + 1, stop);
    }
}

pub fn is_punct(t: &Tok, c: char) -> (r: bool)
    ensures
        r == (*t matches Tok::Punct(p, _) && p == c),
{
    match t {
        Tok::Punct(p, _) => *p == c,
        _ => false,
    }
}

pub fn is_punct_at(toks: &Vec<Tok>, i: usize, c: char) -> (r: bool)
    ensures
        r == punct_at(toks@, i as int, c),
{
    i < toks.len() && is_punct(&toks[i], c)
}

pub fn is_joint_punct_at(toks: &Vec<Tok>, i: usize, c: char) -> (r: bool)
    ensures
        r == joint_punct_at(toks@, i as int, c),
{
    if i < toks.len() {
        match &toks[i] {
            Tok::Punct(p, joint) => *p == c && *joint,
            _ => false,
        }
    } else {
        false
    }
}

/// Whether `a` holds exactly the characters of `b`.
fn same_text(a: &String, b: &str) -> (r: bool)
    ensures
        r == (a@ == b@),
{
    let b = String::from_str(b);
    *a == b
}

pub fn is_keyword_at(toks: &Vec<Tok>, i: usize, word: &str) -> (r: bool)
    ensures
        r == keyword_at(toks@, i as int, word@),
{
    if i < toks.len() {
        match &toks[i] {
            Tok::Ident(name) => same_text(name, word),
            _ => false,
        }
    } else {
        false
    }
}

pub fn is_ident_at(toks: &Vec<Tok>, i: usize) -> (r: bool)
    ensures
        r == ident_at(toks@, i as int),
{
    i < toks.len() && match &toks[i] {
        Tok::Ident(_) => true,
        _ => false,
    }
}

pub fn toggle_sep_len_at(toks: &Vec<Tok>, i: usize) -> (r: usize)
    ensures
        r as int == toggle_sep_len(toks@, i as int),
{
    if i < toks.len() && toks.len() - i > 2 && is_punct_at(toks, i, '<') && is_punct_at(toks, i + 1, '=')
        && is_punct_at(toks, i + 2, '>') {
        3
    } else if i < toks.len() && !is_joint_punct_at(toks, i, ':') && is_punct_at(
        toks,
        i,
        ':',
    ) && !(i > 0 && is_joint_punct_at(toks, i - 1, ':')) {
        1
    } else {
        0
    }
}

pub fn stops_at_pos(toks: &Vec<Tok>, i: usize, stop: StopAt) -> (r: bool)
    ensures
        r == stops_at(toks@, i as int, stop),
{
    match stop {
        StopAt::EntryOrToggle => is_punct_at(toks, i, ',') || toggle_sep_len_at(toks, i) > 0,
        StopAt::Entry => is_punct_at(toks, i, ','),
    }
}

/// Scans token trees from `pos` on until `stop` holds or the input ends, and
/// returns the position where the scan ended; the tokens scanned are
/// `pos..r`. Every token tree is taken whole, so groups are never split.
pub fn parse_until(toks: &Vec<Tok>, pos: usize, stop: StopAt) -> (r: usize)
    requires
        pos <= toks@.len(),
    ensures
        r as int == scan_end(toks@, pos as int, stop),
{
    let mut i = pos;
    while i < toks.len() && !stops_at_pos(toks, i, stop)
        invariant
            pos <= i <= toks@.len(),
            scan_end(toks@, i as int, stop) == scan_end(toks@, pos as int, stop),
        decreases toks@.len() - i,
    {
        i = i + 1;
    }
    i
}

} // verus!
