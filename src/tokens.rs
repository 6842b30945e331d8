//! The grammar of a class-list invocation: leading option clauses, then a
//! comma-separated list of entries, each a value with an optional toggle.
use crate::token::{
    bind_at, ident_at, ident_text, is_ident_at, is_joint_punct_at, is_keyword_at, is_punct_at,
    joint_punct_at, keyword_at, lemma_scan_end_bounds, parse_until, punct_at, scan_end,
    toggle_sep_len, toggle_sep_len_at, Delim, ParseError, ParseErrorKind, Span, StopAt, Tok,
};
use vstd::prelude::*;
use vstd::string::StringExecFns;

verus! {

/// The texts of a list of strings.
pub open spec fn texts(v: Seq<String>) -> Seq<Seq<char>> {
    v.map_values(|x: String| x@)
}

/// A path such as `::class_list` or `crate::x`.
pub struct CratePath {
    pub leading_colons: bool,
    pub segments: Vec<String>,
}

pub struct PathModel {
    pub leading_colons: bool,
    pub segments: Seq<Seq<char>>,
}

impl View for CratePath {
    type V = PathModel;

    open spec fn view(&self) -> PathModel {
        PathModel { leading_colons: self.leading_colons, segments: texts(self.segments@) }
    }
}

/// `::` at `i`: a colon joined to a second colon.
pub open spec fn path_sep_at(s: Seq<Tok>, i: int) -> bool {
    joint_punct_at(s, i, ':') && punct_at(s, i + 1, ':')
}

/// The segments `:: ident` that follow position `k`, and where they end.
pub open spec fn path_rest(s: Seq<Tok>, k: int) -> (Seq<Seq<char>>, int)
    decreases s.len() - k,
{
    if 0 <= k && path_sep_at(s, k) && ident_at(s, k + 2) {
        let (rest, e) = path_rest(s, k + 3);
        (seq![ident_text(s[k + 2])] + rest, e)
    } else {
        (Seq::empty(), k)
    }
}

/// A path at `i`: an optional leading `::`, then identifiers separated by `::`.
pub open spec fn spec_path(s: Seq<Tok>, i: int) -> Option<(PathModel, int)> {
    let j = if path_sep_at(s, i) {
        i + 2
    } else {
        i
    };
    if ident_at(s, j) {
        let (rest, e) = path_rest(s, j + 1);
        Some(
            (
                PathModel {
                    leading_colons: path_sep_at(s, i),
                    segments: seq![ident_text(s[j])] + rest,
                },
                e,
            ),
        )
    } else {
        None
    }
}

/// A copy of `s` with the same characters.
pub(crate) fn copy_text(s: &String) -> (r: String)
    ensures
        r@ == s@,
{
    s.clone()
}

fn ident_text_at(toks: &Vec<Tok>, i: usize) -> (r: String)
    requires
        ident_at(toks@, i as int),
    ensures
        r@ == ident_text(toks@[i as int]),
{
    match &toks[i] {
        Tok::Ident(name) => copy_text(name),
        _ => String::new(),
    }
}

fn parse_path(toks: &Vec<Tok>, i: usize) -> (r: Option<(CratePath, usize)>)
    requires
        i <= toks@.len() <= isize::MAX,
    ensures
        match spec_path(toks@, i as int) {
            Some((p, e)) => r matches Some((q, e2)) && q@ == p && e2 as int == e,
            None => r is None,
        },
{
    let leading_colons = is_joint_punct_at(toks, i, ':') && is_punct_at(toks, i + 1, ':');
    let j = if leading_colons {
        i + 2
    } else {
        i
    };
    if !is_ident_at(toks, j) {
        return None;
    }
    let mut segments: Vec<String> = Vec::new();
    segments.push(ident_text_at(toks, j));
    let mut k = j + 1;
    let ghost start = j + 1;
    proof {
        assert(texts(segments@) =~= seq![ident_text(toks@[j as int])]);
    }
    while is_joint_punct_at(toks, k, ':') && is_punct_at(toks, k + 1, ':') && is_ident_at(
        toks,
        k + 2,
    )
        invariant
            j + 1 <= k <= toks@.len() <= isize::MAX,
            start == j + 1,
            seq![ident_text(toks@[j as int])] + path_rest(toks@, start as int).0 == texts(
                segments@,
            ) + path_rest(toks@, k as int).0,
            path_rest(toks@, k as int).1 == path_rest(toks@, start as int).1,
        decreases toks@.len() - k,
    {
        let ghost before = texts(segments@);
        segments.push(ident_text_at(toks, k + 2));
        proof {
            assert(texts(segments@) =~= before.push(ident_text(toks@[k + 2])));
            let rest = path_rest(toks@, k + 3).0;
            assert(before + (seq![ident_text(toks@[k + 2])] + rest) =~= before.push(
                ident_text(toks@[k + 2]),
            ) + rest);
        }
        k = k + 3;
    }
    proof {
        assert(texts(segments@) + path_rest(toks@, k as int).0 =~= texts(segments@));
    }
    Some((CratePath { leading_colons, segments }, k))
}

/// The toggle separator `<=>`.
pub struct BindPunct;

impl BindPunct {
    /// Reads `<=>` at `pos` and returns the position after it.
    pub fn parse(toks: &Vec<Tok>, pos: usize) -> (r: Result<(BindPunct, usize), ParseError>)
        requires
            pos <= toks@.len() <= isize::MAX,
        ensures
            r is Ok <==> bind_at(toks@, pos as int),
            r matches Ok((_, e)) ==> e == pos + 3,
            r matches Err(err) ==> err == (ParseError {
                pos,
                kind: ParseErrorKind::ExpectedBindPunct,
            }),
    {
        if is_punct_at(toks, pos, '<') && is_punct_at(toks, pos + 1, '=') && is_punct_at(
            toks,
            pos + 2,
            '>',
        ) {
            Ok((BindPunct, pos + 3))
        } else {
            Err(ParseError { pos, kind: ParseErrorKind::ExpectedBindPunct })
        }
    }
}

/// The clause `crate = Path`, naming the path of the runtime library.
pub struct CrateOverride(pub CratePath);

/// The path `::class_list`.
pub open spec fn default_crate_path() -> PathModel {
    PathModel { leading_colons: true, segments: seq!["class_list"@] }
}

impl CrateOverride {
    /// The default path of the runtime library, `::class_list`.
    pub fn default() -> (r: CrateOverride)
        ensures
            r.0@ == default_crate_path(),
    {
        let mut segments: Vec<String> = Vec::new();
        segments.push(String::from_str("class_list"));
        proof {
            assert(texts(segments@) =~= seq!["class_list"@]);
        }
        CrateOverride(CratePath { leading_colons: true, segments })
    }

    /// Reads `crate = Path` at `pos`.
    pub fn parse(toks: &Vec<Tok>, pos: usize) -> (r: Result<(CrateOverride, usize), ParseError>)
        requires
            pos <= toks@.len() <= isize::MAX,
        ensures
            match spec_crate_option(toks@, pos as int) {
                Ok((p, e)) => r matches Ok((c, e2)) && c.0@ == p && e2 as int == e,
                Err(err) => r == Err::<(CrateOverride, usize), ParseError>(err),
            },
    {
        if !is_keyword_at(toks, pos, "crate") || !is_punct_at(toks, pos + 1, '=') {
            return Err(ParseError { pos, kind: ParseErrorKind::MalformedOption });
        }
        match parse_path(toks, pos + 2) {
            Some((p, e)) => Ok((CrateOverride(p), e)),
            None => Err(ParseError { pos, kind: ParseErrorKind::MalformedOption }),
        }
    }
}

pub open spec fn spec_crate_option(s: Seq<Tok>, i: int) -> Result<(PathModel, int), ParseError> {
    if keyword_at(s, i, "crate"@) && punct_at(s, i + 1, '=') {
        match spec_path(s, i + 2) {
            Some((p, e)) => Ok((p, e)),
            None => Err(ParseError { pos: i as usize, kind: ParseErrorKind::MalformedOption }),
        }
    } else {
        Err(ParseError { pos: i as usize, kind: ParseErrorKind::MalformedOption })
    }
}

/// The clause `raw` or `raw = true|false`.
pub struct RawOption(pub bool);

pub open spec fn spec_raw_option(s: Seq<Tok>, i: int) -> Result<(bool, int), ParseError> {
    if !keyword_at(s, i, "raw"@) {
        Err(ParseError { pos: i as usize, kind: ParseErrorKind::MalformedOption })
    } else if punct_at(s, i + 1, '=') {
        if keyword_at(s, i + 2, "true"@) {
            Ok((true, i + 3))
        } else if keyword_at(s, i + 2, "false"@) {
            Ok((false, i + 3))
        } else {
            Err(ParseError { pos: i as usize, kind: ParseErrorKind::MalformedOption })
        }
    } else {
        Ok((true, i + 1))
    }
}

impl RawOption {
    /// Reads `raw` (meaning `raw = true`) or `raw = <bool>` at `pos`.
    pub fn parse(toks: &Vec<Tok>, pos: usize) -> (r: Result<(RawOption, usize), ParseError>)
        requires
            pos <= toks@.len() <= isize::MAX,
        ensures
            match spec_raw_option(toks@, pos as int) {
                Ok((b, e)) => r matches Ok((o, e2)) && o.0 == b && e2 as int == e,
                Err(err) => r == Err::<(RawOption, usize), ParseError>(err),
            },
    {
        if !is_keyword_at(toks, pos, "raw") {
            return Err(ParseError { pos, kind: ParseErrorKind::MalformedOption });
        }
        if is_punct_at(toks, pos + 1, '=') {
            if is_keyword_at(toks, pos + 2, "true") {
                Ok((RawOption(true), pos + 3))
            } else if is_keyword_at(toks, pos + 2, "false") {
                Ok((RawOption(false), pos + 3))
            } else {
                Err(ParseError { pos, kind: ParseErrorKind::MalformedOption })
            }
        } else {
            Ok((RawOption(true), pos + 1))
        }
    }
}

/// The bracketed list of a `clone` clause: identifiers separated by commas,
/// at least one, with an optional trailing comma.
pub open spec fn clone_list_ok(inner: Seq<Tok>) -> bool {
    &&& inner.len() >= 1
    &&& forall|k: int| 0 <= k < inner.len() ==> #[trigger] clone_tok_ok(inner, k)
}

/// Identifiers stand at even positions of a clone list, commas at odd ones.
pub open spec fn clone_tok_ok(inner: Seq<Tok>, k: int) -> bool {
    if k % 2 == 0 {
        ident_at(inner, k)
    } else {
        punct_at(inner, k, ',')
    }
}

/// The identifiers of a well-formed bracketed clone list, in order.
pub open spec fn clone_names(inner: Seq<Tok>) -> Seq<Seq<char>> {
    Seq::new(((inner.len() + 1) / 2) as nat, |m: int| ident_text(inner[2 * m]))
}

pub open spec fn spec_clone_option(s: Seq<Tok>, i: int) -> Result<(Seq<Seq<char>>, int), ParseError> {
    let j = if punct_at(s, i + 1, '=') {
        i + 2
    } else {
        i + 1
    };
    let malformed = ParseError { pos: i as usize, kind: ParseErrorKind::MalformedOption };
    if keyword_at(s, i, "clone"@) && 0 <= j < s.len() {
        match s[j] {
            Tok::Group(Delim::Bracket, inner) => if clone_list_ok(inner@) {
                Ok((clone_names(inner@), j + 1))
            } else {
                Err(malformed)
            },
            _ => Err(malformed),
        }
    } else {
        Err(malformed)
    }
}

/// The clause `clone[a, b]` (or `clone = [a, b]`): the identifiers whose
/// values are duplicated before the class list is built.
pub struct CloneListOption(pub Vec<String>);

fn parse_clone_names(inner: &Vec<Tok>) -> (r: Option<Vec<String>>)
    ensures
        clone_list_ok(inner@) ==> (r matches Some(names) && texts(names@) == clone_names(inner@)),
        !clone_list_ok(inner@) ==> r is None,
{
    if inner.len() == 0 {
        return None;
    }
    let mut names: Vec<String> = Vec::new();
    let mut k: usize = 0;
    while k < inner.len()
        invariant
            k <= inner@.len(),
            inner@.len() >= 1,
            forall|kk: int| 0 <= kk < k ==> #[trigger] clone_tok_ok(inner@, kk),
            texts(names@) =~= Seq::new(((k + 1) / 2) as nat, |m: int| ident_text(inner@[2 * m])),
        decreases inner@.len() - k,
    {
        if k % 2 == 0 {
            if !is_ident_at(inner, k) {
                assert(!clone_tok_ok(inner@, k as int));
                return None;
            }
            let ghost before = texts(names@);
            names.push(ident_text_at(inner, k));
            proof {
                assert(texts(names@) =~= before.push(ident_text(inner@[k as int])));
                assert(2 * ((k as int) / 2) == k);
            }
        } else {
            if !is_punct_at(inner, k, ',') {
                assert(!clone_tok_ok(inner@, k as int));
                return None;
            }
        }
        assert(clone_tok_ok(inner@, k as int));
        k = k + 1;
    }
    assert(clone_list_ok(inner@));
    Some(names)
}

impl CloneListOption {
    /// Reads `clone [ident, ...]`, with an optional `=` before the brackets.
    pub fn parse(toks: &Vec<Tok>, pos: usize) -> (r: Result<(CloneListOption, usize), ParseError>)
        requires
            pos <= toks@.len() <= isize::MAX,
        ensures
            match spec_clone_option(toks@, pos as int) {
                Ok((names, e)) => r matches Ok((c, e2)) && texts(c.0@) == names && e2 as int == e,
                Err(err) => r == Err::<(CloneListOption, usize), ParseError>(err),
            },
    {
        let malformed = ParseError { pos, kind: ParseErrorKind::MalformedOption };
        let j = if is_punct_at(toks, pos + 1, '=') {
            pos + 2
        } else {
            pos + 1
        };
        if !is_keyword_at(toks, pos, "clone") || j >= toks.len() {
            return Err(malformed);
        }
        match &toks[j] {
            Tok::Group(Delim::Bracket, inner) => match parse_clone_names(inner) {
                Some(names) => Ok((CloneListOption(names), j + 1)),
                None => Err(malformed),
            },
            _ => Err(malformed),
        }
    }
}

/// One option clause.
pub enum ClassListOption {
    MacroCrate(CratePath),
    Raw(RawOption),
    Clones(CloneListOption),
}

pub enum OptionModel {
    MacroCrate(PathModel),
    Raw(bool),
    Clones(Seq<Seq<char>>),
}

impl View for ClassListOption {
    type V = OptionModel;

    open spec fn view(&self) -> OptionModel {
        match self {
            ClassListOption::MacroCrate(p) => OptionModel::MacroCrate(p@),
            ClassListOption::Raw(r) => OptionModel::Raw(r.0),
            ClassListOption::Clones(c) => OptionModel::Clones(texts(c.0@)),
        }
    }
}

/// The tokens at `i` start an option clause: `crate =`, `raw` or `clone`.
pub open spec fn option_head_at(s: Seq<Tok>, i: int) -> bool {
    ||| keyword_at(s, i, "crate"@) && punct_at(s, i + 1, '=')
    ||| keyword_at(s, i, "raw"@)
    ||| keyword_at(s, i, "clone"@)
}

pub open spec fn spec_option(s: Seq<Tok>, i: int) -> Result<(OptionModel, int), ParseError> {
    if keyword_at(s, i, "crate"@) && punct_at(s, i + 1, '=') {
        match spec_crate_option(s, i) {
            Ok((p, e)) => Ok((OptionModel::MacroCrate(p), e)),
            Err(err) => Err(err),
        }
    } else if keyword_at(s, i, "raw"@) {
        match spec_raw_option(s, i) {
            Ok((b, e)) => Ok((OptionModel::Raw(b), e)),
            Err(err) => Err(err),
        }
    } else if keyword_at(s, i, "clone"@) {
        match spec_clone_option(s, i) {
            Ok((names, e)) => Ok((OptionModel::Clones(names), e)),
            Err(err) => Err(err),
        }
    } else {
        Err(ParseError { pos: i as usize, kind: ParseErrorKind::NotAnOption })
    }
}

proof fn lemma_path_rest_bounds(s: Seq<Tok>, k: int)
    requires
        0 <= k <= s.len(),
    ensures
        k <= path_rest(s, k).1 <= s.len(),
    decreases s.len() - k,
{
    if path_sep_at(s, k) && ident_at(s, k + 2) {
        lemma_path_rest_bounds(s, k + 3);
    }
}

/// A clause that is read takes at least one token and stays within the input.
proof fn lemma_option_advances(s: Seq<Tok>, i: int)
    requires
        0 <= i < s.len(),
    ensures
        spec_option(s, i) matches Ok((_, e)) ==> i < e <= s.len(),
{
    if keyword_at(s, i, "crate"@) && punct_at(s, i + 1, '=') {
        let j = if path_sep_at(s, i + 2) {
            i + 4
        } else {
            i + 2
        };
        if ident_at(s, j) {
            lemma_path_rest_bounds(s, j + 1);
        }
    }
}

impl ClassListOption {
    /// Reads one option clause at `pos`.
    pub fn parse(toks: &Vec<Tok>, pos: usize) -> (r: Result<(ClassListOption, usize), ParseError>)
        requires
            pos <= toks@.len() <= isize::MAX,
        ensures
            match spec_option(toks@, pos as int) {
                Ok((o, e)) => r matches Ok((c, e2)) && c@ == o && e2 as int == e,
                Err(err) => r matches Err(err2) && err2 == err,
            },
    {
        if is_keyword_at(toks, pos, "crate") && is_punct_at(toks, pos + 1, '=') {
            match CrateOverride::parse(toks, pos) {
                Ok((c, e)) => Ok((ClassListOption::MacroCrate(c.0), e)),
                Err(err) => Err(err),
            }
        } else if is_keyword_at(toks, pos, "raw") {
            match RawOption::parse(toks, pos) {
                Ok((o, e)) => Ok((ClassListOption::Raw(o), e)),
                Err(err) => Err(err),
            }
        } else if is_keyword_at(toks, pos, "clone") {
            match CloneListOption::parse(toks, pos) {
                Ok((o, e)) => Ok((ClassListOption::Clones(o), e)),
                Err(err) => Err(err),
            }
        } else {
            Err(ParseError { pos, kind: ParseErrorKind::NotAnOption })
        }
    }
}

/// One entry: the span of its value tokens and, when a toggle separator
/// follows them, the span of its toggle tokens.
#[derive(Debug, Clone, Copy, PartialEq, Eq, Structural)]
pub struct ClassNameToken {
    pub value: Span,
    pub toggle: Option<Span>,
}

pub open spec fn spec_entry(s: Seq<Tok>, i: int) -> Result<(ClassNameToken, int), ParseError> {
    let ve = scan_end(s, i, StopAt::EntryOrToggle);
    let sep = toggle_sep_len(s, ve);
    let value = Span { start: i as usize, end: ve as usize };
    if ve == i {
        Err(ParseError { pos: i as usize, kind: ParseErrorKind::EmptyValue })
    } else if sep > 0 {
        let te = scan_end(s, ve + sep, StopAt::Entry);
        if te == ve + sep {
            Err(ParseError { pos: ve as usize, kind: ParseErrorKind::EmptyToggle })
        } else {
            Ok(
                (
                    ClassNameToken {
                        value,
                        toggle: Some(Span { start: (ve + sep) as usize, end: te as usize }),
                    },
                    te,
                ),
            )
        }
    } else {
        Ok((ClassNameToken { value, toggle: None }, ve))
    }
}

proof fn lemma_entry_advances(s: Seq<Tok>, i: int)
    requires
        0 <= i <= s.len(),
    ensures
        spec_entry(s, i) matches Ok((_, e)) ==> i < e <= s.len(),
{
    lemma_scan_end_bounds(s, i, StopAt::EntryOrToggle);
    let ve = scan_end(s, i, StopAt::EntryOrToggle);
    if toggle_sep_len(s, ve) > 0 {
        lemma_scan_end_bounds(s, ve + toggle_sep_len(s, ve), StopAt::Entry);
    }
}

impl ClassNameToken {
    /// Reads one entry at `pos`: value tokens up to a toggle separator (`<=>`
    /// or a lone `:`) or a comma, then, after a toggle separator, toggle
    /// tokens up to a comma.
    pub fn parse(toks: &Vec<Tok>, pos: usize) -> (r: Result<(ClassNameToken, usize), ParseError>)
        requires
            pos <= toks@.len() <= isize::MAX,
        ensures
            match spec_entry(toks@, pos as int) {
                Ok((c, e)) => r matches Ok((c2, e2)) && c2 == c && e2 as int == e,
                Err(err) => r matches Err(err2) && err2 == err,
            },
    {
        proof {
            lemma_scan_end_bounds(toks@, pos as int, StopAt::EntryOrToggle);
        }
        let ve = parse_until(toks, pos, StopAt::EntryOrToggle);
        if ve == pos {
            return Err(ParseError { pos, kind: ParseErrorKind::EmptyValue });
        }
        let value = Span { start: pos, end: ve };
        let sep = toggle_sep_len_at(toks, ve);
        if sep > 0 {
            proof {
                lemma_scan_end_bounds(toks@, (ve + sep) as int, StopAt::Entry);
            }
            let te = parse_until(toks, ve + sep, StopAt::Entry);
            if te == ve + sep {
                Err(ParseError { pos: ve, kind: ParseErrorKind::EmptyToggle })
            } else {
                Ok((ClassNameToken { value, toggle: Some(Span { start: ve + sep, end: te }) }, te))
            }
        } else {
            Ok((ClassNameToken { value, toggle: None }, ve))
        }
    }
}

/// The entries from `i` on, each optionally followed by a comma.
pub open spec fn spec_entries(s: Seq<Tok>, i: int) -> Result<Seq<ClassNameToken>, ParseError>
    decreases s.len() - i,
{
    if i < 0 || i >= s.len() {
        Ok(Seq::empty())
    } else {
        match spec_entry(s, i) {
            Err(err) => Err(err),
            Ok((c, e)) => {
                let next = if punct_at(s, e, ',') {
                    e + 1
                } else {
                    e
                };
                if i < next <= s.len() {
                    match spec_entries(s, next) {
                        Ok(rest) => Ok(seq![c] + rest),
                        Err(err) => Err(err),
                    }
                } else {
                    Ok(seq![c])
                }
            },
        }
    }
}

/// The options read so far; `crate_path` is `None` until a `crate` clause.
pub struct OptionsModel {
    pub crate_path: Option<PathModel>,
    pub raw: bool,
    pub clones: Seq<Seq<char>>,
}

/// A clause sets its own slot and leaves the others; a later clause of the
/// same kind replaces an earlier one.
pub open spec fn apply_option(acc: OptionsModel, o: OptionModel) -> OptionsModel {
    match o {
        OptionModel::MacroCrate(p) => OptionsModel { crate_path: Some(p), ..acc },
        OptionModel::Raw(b) => OptionsModel { raw: b, ..acc },
        OptionModel::Clones(names) => OptionsModel { clones: names, ..acc },
    }
}

/// The option clauses from `i` on, each optionally followed by `;`, and the
/// position of the first token that starts no clause.
pub open spec fn spec_options(s: Seq<Tok>, i: int, acc: OptionsModel) -> Result<
    (OptionsModel, int),
    ParseError,
>
    decreases s.len() - i,
{
    if 0 <= i < s.len() && option_head_at(s, i) {
        match spec_option(s, i) {
            Err(err) => Err(err),
            Ok((o, e)) => {
                let next = if punct_at(s, e, ';') {
                    e + 1
                } else {
                    e
                };
                if i < next <= s.len() {
                    spec_options(s, next, apply_option(acc, o))
                } else {
                    Ok((apply_option(acc, o), next))
                }
            },
        }
    } else {
        Ok((acc, i))
    }
}

pub struct ClassListModel {
    pub crate_path: PathModel,
    pub raw: bool,
    pub clones: Seq<Seq<char>>,
    pub entries: Seq<ClassNameToken>,
}

/// A whole invocation: its options, then its entries. Without a `crate`
/// clause the runtime library is found at `default_crate`.
pub open spec fn spec_class_list(s: Seq<Tok>, default_crate: PathModel) -> Result<
    ClassListModel,
    ParseError,
> {
    match spec_options(s, 0, OptionsModel { crate_path: None, raw: false, clones: Seq::empty() }) {
        Err(err) => Err(err),
        Ok((o, i)) => match spec_entries(s, i) {
            Err(err) => Err(err),
            Ok(entries) => Ok(
                ClassListModel {
                    crate_path: match o.crate_path {
                        Some(p) => p,
                        None => default_crate,
                    },
                    raw: o.raw,
                    clones: o.clones,
                    entries,
                },
            ),
        },
    }
}

/// A parsed invocation.
pub struct ClassListToken {
    pub macro_crate: CratePath,
    pub raw: bool,
    pub values: Vec<ClassNameToken>,
    pub clones: Vec<String>,
}

impl View for ClassListToken {
    type V = ClassListModel;

    open spec fn view(&self) -> ClassListModel {
        ClassListModel {
            crate_path: self.macro_crate@,
            raw: self.raw,
            clones: texts(self.clones@),
            entries: self.values@,
        }
    }
}

pub open spec fn path_option_view(p: Option<CratePath>) -> Option<PathModel> {
    match p {
        Some(p) => Some(p@),
        None => None,
    }
}

impl ClassListToken {
    /// Reads a whole invocation: option clauses first, then entries until the
    /// input ends. Without a `crate` clause, `default_crate` is used.
    pub fn parse(toks: &Vec<Tok>, default_crate: CratePath) -> (r: Result<
        ClassListToken,
        ParseError,
    >)
        requires
            toks@.len() <= isize::MAX,
        ensures
            match spec_class_list(toks@, default_crate@) {
                Ok(m) => r matches Ok(c) && c@ == m,
                Err(err) => r matches Err(err2) && err2 == err,
            },
    {
        let ghost init = OptionsModel { crate_path: None, raw: false, clones: Seq::empty() };
        let mut macro_crate: Option<CratePath> = None;
        let mut raw = false;
        let mut clones: Vec<String> = Vec::new();
        let mut i: usize = 0;
        proof {
            assert(texts(clones@) =~= Seq::<Seq<char>>::empty());
        }
        loop
            invariant
                i <= toks@.len() <= isize::MAX,
                init == (OptionsModel { crate_path: None, raw: false, clones: Seq::empty() }),
                spec_options(toks@, 0, init) == spec_options(
                    toks@,
                    i as int,
                    OptionsModel {
                        crate_path: path_option_view(macro_crate),
                        raw,
                        clones: texts(clones@),
                    },
                ),
            ensures
                i <= toks@.len(),
                spec_options(toks@, 0, init) == Ok::<(OptionsModel, int), ParseError>(
                    (
                        OptionsModel {
                            crate_path: path_option_view(macro_crate),
                            raw,
                            clones: texts(clones@),
                        },
                        i as int,
                    ),
                ),
            decreases toks@.len() - i,
        {
            if i >= toks.len() {
                break;
            }
            let head = (is_keyword_at(toks, i, "crate") && is_punct_at(toks, i + 1, '='))
                || is_keyword_at(toks, i, "raw") || is_keyword_at(toks, i, "clone");
            if !head {
                break;
            }
            proof {
                lemma_option_advances(toks@, i as int);
            }
            let ghost cur = OptionsModel {
                crate_path: path_option_view(macro_crate),
                raw,
                clones: texts(clones@),
            };
            match ClassListOption::parse(toks, i) {
                Err(err) => {
                    assert(spec_options(toks@, i as int, cur) == Err::<
                        (OptionsModel, int),
                        ParseError,
                    >(err));
                    assert(spec_options(toks@, 0, init) == Err::<(OptionsModel, int), ParseError>(
                        err,
                    ));
                    return Err(err);
                },
                Ok((option, e)) => {
                    match option {
                        ClassListOption::MacroCrate(p) => {
                            macro_crate = Some(p);
                        },
                        ClassListOption::Raw(o) => {
                            raw = o.0;
                        },
                        ClassListOption::Clones(o) => {
                            clones = o.0;
                        },
                    }
                    i = if is_punct_at(toks, e, ';') {
                        e + 1
                    } else {
                        e
                    };
                },
            }
        }
        let ghost options = OptionsModel {
            crate_path: path_option_view(macro_crate),
            raw,
            clones: texts(clones@),
        };
        let ghost start = i as int;
        let mut values: Vec<ClassNameToken> = Vec::new();
        while i < toks.len()
            invariant
                start <= i <= toks@.len() <= isize::MAX,
                init == (OptionsModel { crate_path: None, raw: false, clones: Seq::empty() }),
                spec_options(toks@, 0, init) == Ok::<(OptionsModel, int), ParseError>(
                    (options, start),
                ),
                match spec_entries(toks@, start) {
                    Ok(all) => spec_entries(toks@, i as int) matches Ok(rest) && all == values@
                        + rest,
                    Err(err) => spec_entries(toks@, i as int) == Err::<
                        Seq<ClassNameToken>,
                        ParseError,
                    >(err),
                },
            decreases toks@.len() - i,
        {
            proof {
                lemma_entry_advances(toks@, i as int);
            }
            match ClassNameToken::parse(toks, i) {
                Err(err) => {
                    assert(spec_entries(toks@, i as int) == Err::<Seq<ClassNameToken>, ParseError>(
                        err,
                    ));
                    return Err(err);
                },
                Ok((entry, e)) => {
                    let ghost before = values@;
                    values.push(entry);
                    i = if is_punct_at(toks, e, ',') {
                        e + 1
                    } else {
                        e
                    };
                    proof {
                        if let Ok(all) = spec_entries(toks@, start) {
                            if let Ok(rest) = spec_entries(toks@, i as int) {
                                assert(before + (seq![entry] + rest) =~= values@ + rest);
                            }
                        }
                    }
                },
            }
        }
        proof {
            if let Ok(all) = spec_entries(toks@, start) {
                assert(values@ + Seq::<ClassNameToken>::empty() =~= values@);
            }
        }
        let macro_crate = match macro_crate {
            Some(p) => p,
            None => default_crate,
        };
        Ok(ClassListToken { macro_crate, raw, values, clones })
    }
}

} // verus!
