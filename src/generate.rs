//! Code generation: the computation that a parsed invocation stands for,
//! emitted as a flat list of tokens.
use crate::token::{Delim, ParseError, Span, Tok};
use crate::tokens::{
    copy_text, spec_class_list, ClassListModel, ClassListToken, ClassNameToken, CratePath,
    PathModel,
};
use vstd::prelude::*;
use vstd::string::StringExecFns;

verus! {

/// One emitted token. Groups are written as an opening and a closing token;
/// `Source` stands for the input tokens of a span, copied verbatim.
#[derive(Debug)]
pub enum Emit {
    Ident(String),
    Punct(char, bool),
    Literal(String),
    Open(Delim),
    Close(Delim),
    Source(Span),
}

pub enum EmitModel {
    Ident(Seq<char>),
    Punct(char, bool),
    Literal(Seq<char>),
    Open(Delim),
    Close(Delim),
    Source(Span),
}

impl View for Emit {
    type V = EmitModel;

    open spec fn view(&self) -> EmitModel {
        match self {
            Emit::Ident(s) => EmitModel::Ident(s@),
            Emit::Punct(c, joint) => EmitModel::Punct(*c, *joint),
            Emit::Literal(s) => EmitModel::Literal(s@),
            Emit::Open(d) => EmitModel::Open(*d),
            Emit::Close(d) => EmitModel::Close(*d),
            Emit::Source(span) => EmitModel::Source(*span),
        }
    }
}

pub open spec fn emits(v: Seq<Emit>) -> Seq<EmitModel> {
    v.map_values(|e: Emit| e@)
}

pub open spec fn id(s: Seq<char>) -> EmitModel {
    EmitModel::Ident(s)
}

pub open spec fn pc(c: char) -> EmitModel {
    EmitModel::Punct(c, false)
}

/// `::`
pub open spec fn spec_sep() -> Seq<EmitModel> {
    seq![EmitModel::Punct(':', true), pc(':')]
}

/// The segments of a path joined by `::`.
pub open spec fn spec_segments(segs: Seq<Seq<char>>) -> Seq<EmitModel>
    decreases segs.len(),
{
    if segs.len() == 0 {
        Seq::empty()
    } else if segs.len() == 1 {
        seq![id(segs[0])]
    } else {
        spec_segments(segs.drop_last()) + spec_sep() + seq![id(segs.last())]
    }
}

pub open spec fn spec_path_emits(p: PathModel) -> Seq<EmitModel> {
    (if p.leading_colons {
        spec_sep()
    } else {
        Seq::empty()
    }) + spec_segments(p.segments)
}

/// `use PATH::traits::*;`
pub open spec fn spec_imports(p: PathModel) -> Seq<EmitModel> {
    seq![id("use"@)] + spec_path_emits(p) + spec_sep() + seq![id("traits"@)] + spec_sep() + seq![
        pc('*'),
        pc(';'),
    ]
}

/// `let x = x.clone();`
pub open spec fn spec_clone_stmt(x: Seq<char>) -> Seq<EmitModel> {
    seq![
        id("let"@),
        id(x),
        pc('='),
        id(x),
        pc('.'),
        id("clone"@),
        EmitModel::Open(Delim::Paren),
        EmitModel::Close(Delim::Paren),
        pc(';'),
    ]
}

pub open spec fn spec_clones(names: Seq<Seq<char>>) -> Seq<EmitModel>
    decreases names.len(),
{
    if names.len() == 0 {
        Seq::empty()
    } else {
        spec_clones(names.drop_last()) + spec_clone_stmt(names.last())
    }
}

/// `move ||`, which makes the computation a closure that runs it afresh on
/// every call; nothing in raw mode, where it runs once, in place.
pub open spec fn spec_deferral(raw: bool) -> Seq<EmitModel> {
    if raw {
        Seq::empty()
    } else {
        seq![id("move"@), EmitModel::Punct('|', true), pc('|')]
    }
}

/// `(VALUE)`
pub open spec fn spec_group(span: Span) -> Seq<EmitModel> {
    seq![EmitModel::Open(Delim::Paren), EmitModel::Source(span), EmitModel::Close(Delim::Paren)]
}

/// What one entry contributes: `PATH::utils::toggled_class(&(VALUE), &(TOGGLE))`
/// for a toggled entry, `(VALUE).to_class_list(false)` for one without a toggle.
pub open spec fn spec_contribution(p: PathModel, e: ClassNameToken) -> Seq<EmitModel> {
    match e.toggle {
        Some(toggle) => spec_path_emits(p) + spec_sep() + seq![id("utils"@)] + spec_sep() + seq![
            id("toggled_class"@),
            EmitModel::Open(Delim::Paren),
            pc('&'),
        ] + spec_group(e.value) + seq![pc(','), pc('&')] + spec_group(toggle) + seq![
            EmitModel::Close(Delim::Paren),
        ],
        None => spec_group(e.value) + seq![
            pc('.'),
            id("to_class_list"@),
            EmitModel::Open(Delim::Paren),
            id("false"@),
            EmitModel::Close(Delim::Paren),
        ],
    }
}

/// The contributions of the entries, in order, separated by commas.
pub open spec fn spec_contributions(p: PathModel, es: Seq<ClassNameToken>) -> Seq<EmitModel>
    decreases es.len(),
{
    if es.len() == 0 {
        Seq::empty()
    } else if es.len() == 1 {
        spec_contribution(p, es[0])
    } else {
        spec_contributions(p, es.drop_last()) + seq![pc(',')] + spec_contribution(p, es.last())
    }
}

/// `PATH::utils::join_class_list(::std::vec::Vec::from([C1, C2, ...]))`
pub open spec fn spec_computation(p: PathModel, es: Seq<ClassNameToken>) -> Seq<EmitModel> {
    spec_path_emits(p) + spec_sep() + seq![id("utils"@)] + spec_sep() + seq![
        id("join_class_list"@),
        EmitModel::Open(Delim::Paren),
    ] + spec_sep() + seq![id("std"@)] + spec_sep() + seq![id("vec"@)] + spec_sep() + seq![
        id("Vec"@),
    ] + spec_sep() + seq![
        id("from"@),
        EmitModel::Open(Delim::Paren),
        EmitModel::Open(Delim::Bracket),
    ] + spec_contributions(p, es) + seq![
        EmitModel::Close(Delim::Bracket),
        EmitModel::Close(Delim::Paren),
        EmitModel::Close(Delim::Paren),
    ]
}

/// The code of a whole invocation: a block that imports the capabilities,
/// duplicates each listed binding, and ends in the computation, deferred
/// behind a closure unless raw mode is set.
pub open spec fn spec_generate(m: ClassListModel) -> Seq<EmitModel> {
    seq![EmitModel::Open(Delim::Brace)] + spec_imports(m.crate_path) + spec_clones(m.clones)
        + spec_deferral(m.raw) + spec_computation(m.crate_path, m.entries) + seq![
        EmitModel::Close(Delim::Brace),
    ]
}

fn push_emit(out: &mut Vec<Emit>, e: Emit)
    ensures
        emits(final(out)@) == emits(old(out)@).push(e@),
{
    let ghost e_view = e@;
    out.push(e);
    assert(emits(out@) =~= emits(old(out)@).push(e_view));
}

fn push_ident(out: &mut Vec<Emit>, s: &str)
    ensures
        emits(final(out)@) == emits(old(out)@).push(id(s@)),
{
    push_emit(out, Emit::Ident(String::from_str(s)));
}

fn push_punct(out: &mut Vec<Emit>, c: char)
    ensures
        emits(final(out)@) == emits(old(out)@).push(pc(c)),
{
    push_emit(out, Emit::Punct(c, false));
}

fn push_sep(out: &mut Vec<Emit>)
    ensures
        emits(final(out)@) == emits(old(out)@) + spec_sep(),
{
    let ghost before = emits(out@);
    push_emit(out, Emit::Punct(':', true));
    push_punct(out, ':');
    assert(emits(out@) =~= before + spec_sep());
}

fn push_group(out: &mut Vec<Emit>, span: Span)
    ensures
        emits(final(out)@) == emits(old(out)@) + spec_group(span),
{
    let ghost before = emits(out@);
    push_emit(out, Emit::Open(Delim::Paren));
    push_emit(out, Emit::Source(span));
    push_emit(out, Emit::Close(Delim::Paren));
    assert(emits(out@) =~= before + spec_group(span));
}

fn push_path(out: &mut Vec<Emit>, p: &CratePath)
    ensures
        emits(final(out)@) == emits(old(out)@) + spec_path_emits(p@),
{
    let ghost before = emits(out@);
    if p.leading_colons {
        push_sep(out);
    }
    let ghost mid = emits(out@);
    let ghost segs = p@.segments;
    let mut k: usize = 0;
    while k < p.segments.len()
        invariant
            k <= p.segments@.len(),
            segs == p@.segments,
            segs.len() == p.segments@.len(),
            emits(out@) == mid + spec_segments(segs.subrange(0, k as int)),
        decreases p.segments@.len() - k,
    {
        assert(segs.subrange(0, k + 1).drop_last() =~= segs.subrange(0, k as int));
        if k > 0 {
            push_sep(out);
        }
        push_emit(out, Emit::Ident(copy_text(&p.segments[k])));
        proof {
            if k == 0 {
                assert(spec_segments(segs.subrange(0, 1)) =~= seq![id(segs[0])]);
            }
            assert(emits(out@) =~= mid + spec_segments(segs.subrange(0, k + 1)));
        }
        k = k + 1;
    }
    assert(segs.subrange(0, k as int) =~= segs);
    assert(emits(out@) =~= before + spec_path_emits(p@));
}

fn push_imports(out: &mut Vec<Emit>, p: &CratePath)
    ensures
        emits(final(out)@) == emits(old(out)@) + spec_imports(p@),
{
    let ghost before = emits(out@);
    push_ident(out, "use");
    push_path(out, p);
    push_sep(out);
    push_ident(out, "traits");
    push_sep(out);
    push_punct(out, '*');
    push_punct(out, ';');
    assert(emits(out@) =~= before + spec_imports(p@));
}

fn push_clones(out: &mut Vec<Emit>, names: &Vec<String>)
    ensures
        emits(final(out)@) == emits(old(out)@) + spec_clones(
            names@.map_values(|x: String| x@),
        ),
{
    let ghost before = emits(out@);
    let ghost all = names@.map_values(|x: String| x@);
    let mut k: usize = 0;
    while k < names.len()
        invariant
            k <= names@.len(),
            all == names@.map_values(|x: String| x@),
            emits(out@) == before + spec_clones(all.subrange(0, k as int)),
        decreases names@.len() - k,
    {
        assert(all.subrange(0, k + 1).drop_last() =~= all.subrange(0, k as int));
        let ghost cur = emits(out@);
        push_ident(out, "let");
        push_emit(out, Emit::Ident(copy_text(&names[k])));
        push_punct(out, '=');
        push_emit(out, Emit::Ident(copy_text(&names[k])));
        push_punct(out, '.');
        push_ident(out, "clone");
        push_emit(out, Emit::Open(Delim::Paren));
        push_emit(out, Emit::Close(Delim::Paren));
        push_punct(out, ';');
        assert(emits(out@) =~= cur + spec_clone_stmt(all[k as int]));
        assert(emits(out@) =~= before + spec_clones(all.subrange(0, k + 1)));
        k = k + 1;
    }
    assert(all.subrange(0, k as int) =~= all);
}

fn push_contribution(out: &mut Vec<Emit>, p: &CratePath, e: ClassNameToken)
    ensures
        emits(final(out)@) == emits(old(out)@) + spec_contribution(p@, e),
{
    let ghost before = emits(out@);
    match e.toggle {
        Some(toggle) => {
            push_path(out, p);
            push_sep(out);
            push_ident(out, "utils");
            push_sep(out);
            push_ident(out, "toggled_class");
            push_emit(out, Emit::Open(Delim::Paren));
            push_punct(out, '&');
            push_group(out, e.value);
            push_punct(out, ',');
            push_punct(out, '&');
            push_group(out, toggle);
            push_emit(out, Emit::Close(Delim::Paren));
        },
        None => {
            push_group(out, e.value);
            push_punct(out, '.');
            push_ident(out, "to_class_list");
            push_emit(out, Emit::Open(Delim::Paren));
            push_ident(out, "false");
            push_emit(out, Emit::Close(Delim::Paren));
        },
    }
    assert(emits(out@) =~= before + spec_contribution(p@, e));
}

fn push_computation(out: &mut Vec<Emit>, p: &CratePath, es: &Vec<ClassNameToken>)
    ensures
        emits(final(out)@) == emits(old(out)@) + spec_computation(p@, es@),
{
    let ghost before = emits(out@);
    push_path(out, p);
    push_sep(out);
    push_ident(out, "utils");
    push_sep(out);
    push_ident(out, "join_class_list");
    push_emit(out, Emit::Open(Delim::Paren));
    push_sep(out);
    push_ident(out, "std");
    push_sep(out);
    push_ident(out, "vec");
    push_sep(out);
    push_ident(out, "Vec");
    push_sep(out);
    push_ident(out, "from");
    push_emit(out, Emit::Open(Delim::Paren));
    push_emit(out, Emit::Open(Delim::Bracket));
    let ghost head = emits(out@);
    let mut k: usize = 0;
    while k < es.len()
        invariant
            k <= es@.len(),
            emits(out@) == head + spec_contributions(p@, es@.subrange(0, k as int)),
        decreases es@.len() - k,
    {
        assert(es@.subrange(0, k + 1).drop_last() =~= es@.subrange(0, k as int));
        if k > 0 {
            push_punct(out, ',');
        }
        push_contribution(out, p, es[k]);
        proof {
            if k == 0 {
                assert(es@.subrange(0, 1) =~= seq![es@[0]]);
            }
            assert(emits(out@) =~= head + spec_contributions(p@, es@.subrange(0, k + 1)));
        }
        k = k + 1;
    }
    assert(es@.subrange(0, k as int) =~= es@);
    push_emit(out, Emit::Close(Delim::Bracket));
    push_emit(out, Emit::Close(Delim::Paren));
    push_emit(out, Emit::Close(Delim::Paren));
    assert(emits(out@) =~= before + spec_computation(p@, es@));
}

/// Emits the code of a parsed invocation.
pub fn generate(unit: &ClassListToken) -> (r: Vec<Emit>)
    ensures
        emits(r@) == spec_generate(unit@),
{
    let mut out: Vec<Emit> = Vec::new();
    push_emit(&mut out, Emit::Open(Delim::Brace));
    push_imports(&mut out, &unit.macro_crate);
    push_clones(&mut out, &unit.clones);
    if !unit.raw {
        push_ident(&mut out, "move");
        push_emit(&mut out, Emit::Punct('|', true));
        push_punct(&mut out, '|');
    }
    push_computation(&mut out, &unit.macro_crate, &unit.values);
    push_emit(&mut out, Emit::Close(Delim::Brace));
    assert(emits(out@) =~= spec_generate(unit@));
    out
}

/// Compiles an invocation: reads its options and entries and emits its code.
/// Without a `crate` clause, the runtime library is found at `default_crate`.
pub fn class_list(toks: &Vec<Tok>, default_crate: CratePath) -> (r: Result<Vec<Emit>, ParseError>)
    requires
        toks@.len() <= isize::MAX,
    ensures
        match spec_class_list(toks@, default_crate@) {
            Ok(m) => r matches Ok(code) && emits(code@) == spec_generate(m),
            Err(err) => r matches Err(err2) && err2 == err,
        },
{
    match ClassListToken::parse(toks, default_crate) {
        Ok(unit) => Ok(generate(&unit)),
        Err(err) => Err(err),
    }
}

/// Raw and deferred mode emit the same computation: the deferred code is the
/// raw code with `move ||` put right before the computation, so calling it
/// once evaluates exactly what raw mode evaluates in place.
pub proof fn lemma_deferred_wraps_raw(m: ClassListModel)
    ensures
        ({
            let raw = spec_generate(ClassListModel { raw: true, ..m });
            let deferred = spec_generate(ClassListModel { raw: false, ..m });
            let k = 1 + spec_imports(m.crate_path).len() + spec_clones(m.clones).len() as int;
            &&& 0 <= k <= raw.len()
            &&& deferred == raw.subrange(0, k) + spec_deferral(false) + raw.subrange(
                k,
                raw.len() as int,
            )
        }),
{
    let raw = spec_generate(ClassListModel { raw: true, ..m });
    let deferred = spec_generate(ClassListModel { raw: false, ..m });
    let head = seq![EmitModel::Open(Delim::Brace)] + spec_imports(m.crate_path) + spec_clones(
        m.clones,
    );
    let tail = spec_computation(m.crate_path, m.entries) + seq![EmitModel::Close(Delim::Brace)];
    assert(raw =~= head + tail);
    assert(deferred =~= head + spec_deferral(false) + tail);
    assert(raw.subrange(0, head.len() as int) =~= head);
    assert(raw.subrange(head.len() as int, raw.len() as int) =~= tail);
}

proof fn lemma_clones_layout(names: Seq<Seq<char>>, k: int)
    requires
        0 <= k < names.len(),
    ensures
        spec_clones(names).len() == 9 * names.len(),
        spec_clones(names).subrange(9 * k, 9 * k + 9) == spec_clone_stmt(names[k]),
    decreases names.len(),
{
    let init = names.drop_last();
    lemma_clones_len(init);
    if k < init.len() {
        lemma_clones_layout(init, k);
        assert(spec_clones(names).subrange(9 * k, 9 * k + 9) =~= spec_clones(init).subrange(
            9 * k,
            9 * k + 9,
        ));
    } else {
        assert(spec_clones(names).subrange(9 * k, 9 * k + 9) =~= spec_clone_stmt(names.last()));
    }
}

proof fn lemma_clones_len(names: Seq<Seq<char>>)
    ensures
        spec_clones(names).len() == 9 * names.len(),
    decreases names.len(),
{
    if names.len() > 0 {
        lemma_clones_len(names.drop_last());
    }
}

/// Every identifier of the clone list gets its own `let x = x.clone();`,
/// in list order, and all of them stand before the computation, so the
/// computation (and the closure of deferred mode) only sees the duplicates.
pub proof fn lemma_clones_precede_computation(m: ClassListModel, k: int)
    requires
        0 <= k < m.clones.len(),
    ensures
        ({
            let code = spec_generate(m);
            let o = 1 + spec_imports(m.crate_path).len() + 9 * k;
            let computation_start = 1 + spec_imports(m.crate_path).len() as int + spec_clones(
                m.clones,
            ).len() + spec_deferral(m.raw).len();
            &&& o + 9 <= computation_start
            &&& code.subrange(o, o + 9) == spec_clone_stmt(m.clones[k])
            &&& code.subrange(computation_start, code.len() - 1) == spec_computation(
                m.crate_path,
                m.entries,
            )
        }),
{
    lemma_clones_layout(m.clones, k);
    let code = spec_generate(m);
    let head = seq![EmitModel::Open(Delim::Brace)] + spec_imports(m.crate_path);
    let clones = spec_clones(m.clones);
    let rest = spec_deferral(m.raw) + spec_computation(m.crate_path, m.entries) + seq![
        EmitModel::Close(Delim::Brace),
    ];
    assert(code =~= head + clones + rest);
    let o = 1 + spec_imports(m.crate_path).len() + 9 * k;
    assert(code.subrange(o, o + 9) =~= clones.subrange(9 * k, 9 * k + 9));
    let cs = head.len() + clones.len() + spec_deferral(m.raw).len();
    assert(code.subrange(cs as int, code.len() - 1) =~= spec_computation(m.crate_path, m.entries));
}

} // verus!
