//! Declarations: imports, and functions with their parameters, results and
//! body.
//!
//! As for statements, each parsing function is stated by a spec function of
//! the grammar over the token sequence.

use vstd::prelude::*;

use crate::frontend::ast::{block_renders, stmt_views, FunctionDecl, ImportDecl, ImportSpec, StmtView};
use crate::frontend::parser::expressions::expect_at;
use crate::frontend::parser::statements::{block_at, parse_block};
use crate::frontend::parser::{
    at_kind, at_type_start, error_at, error_text, expect, expect_identifier, parse_type, plain_error, skip_at,
    skip_semicolons, tokens_wf, type_at, type_start, ParseError,
};
use crate::frontend::signature::{ParameterDecl, ResultDecl, TypeRef};
use crate::frontend::token::{Token, TokenKind};

verus! {

broadcast use vstd::std_specs::control_flow::group_control_flow_axioms;

/// One entry of a parameter or result list before entries are grouped:
/// its name where it has one, its type, and whether it is variadic.
pub struct Entry {
    pub name: Option<String>,
    pub type_ref: TypeRef,
    pub variadic: bool,
}

/// A parameter group as a mathematical value.
pub struct ParamView {
    pub names: Seq<String>,
    pub type_ref: TypeRef,
    pub variadic: bool,
}

/// A result group as a mathematical value.
pub struct ResultView {
    pub names: Seq<String>,
    pub type_ref: TypeRef,
}

/// A function declaration as a mathematical value.
pub struct FunctionView {
    pub name: String,
    pub parameters: Seq<ParamView>,
    pub results: Seq<ResultView>,
    pub body: Seq<StmtView>,
}

/// An import declaration as a mathematical value.
pub enum ImportView {
    Single(ImportSpec),
    Group(Seq<ImportSpec>),
}

pub open spec fn param_view(d: ParameterDecl) -> ParamView {
    ParamView { names: d.names@, type_ref: d.type_ref, variadic: d.variadic }
}

pub open spec fn param_views(ds: Seq<ParameterDecl>) -> Seq<ParamView> {
    ds.map_values(|d: ParameterDecl| param_view(d))
}

pub open spec fn result_view(d: ResultDecl) -> ResultView {
    ResultView { names: d.names@, type_ref: d.type_ref }
}

pub open spec fn result_views(ds: Seq<ResultDecl>) -> Seq<ResultView> {
    ds.map_values(|d: ResultDecl| result_view(d))
}

/// A parameter group standing as a result group.
pub open spec fn as_result(g: ParamView) -> ResultView {
    ResultView { names: g.names, type_ref: g.type_ref }
}

pub open spec fn function_view(f: FunctionDecl) -> FunctionView {
    FunctionView {
        name: f.name,
        parameters: param_views(f.parameters@),
        results: result_views(f.results@),
        body: stmt_views(f.body.statements@),
    }
}

pub open spec fn import_view(d: ImportDecl) -> ImportView {
    match d {
        ImportDecl::Single(s) => ImportView::Single(s),
        ImportDecl::Group(specs) => ImportView::Group(specs@),
    }
}

/// The message for a list that names some entries and not others.
pub open spec fn mixed_message() -> Seq<char> {
    "mixed named and unnamed parameters"@
}

/// One entry at `p`: a name where a type or `...` follows it, `...` where
/// `variadic` allows it, and a type.
#[verifier::opaque]
pub open spec fn entry_at(ts: Seq<Token>, p: int, variadic: bool) -> Result<(Entry, int), Seq<char>> {
    let named = 0 <= p && p + 1 < ts.len() && ts[p].kind is Identifier && (type_start(ts[p + 1].kind) || (variadic
        && ts[p + 1].kind is Ellipsis));
    let q = if named { p + 1 } else { p };
    let spread = variadic && 0 <= q < ts.len() && ts[q].kind is Ellipsis;
    let r = if spread { q + 1 } else { q };
    match type_at(ts, r) {
        Ok((t, next)) => Ok((
            Entry { name: if named { Some(ts[p].kind->Identifier_0) } else { None }, type_ref: t, variadic: spread },
            next,
        )),
        Err(m) => Err(m),
    }
}

/// The entries of a list from `p` up to and past `)`, after those already
/// read; a variadic entry must be the last.
#[verifier::opaque]
pub open spec fn entries_rest(ts: Seq<Token>, entries: Seq<Entry>, p: int, variadic: bool) -> Result<
    (Seq<Entry>, int),
    Seq<char>,
>
    decreases ts.len() - p,
{
    if p < 0 || p >= ts.len() {
        Err(seq![])
    } else if ts[p].kind is RightParen {
        Ok((entries, p + 1))
    } else {
        match entry_at(ts, p, variadic) {
            Ok((e, next)) => if !(p < next && next + 1 < ts.len()) {
                if p < next < ts.len() {
                    match expect_at(ts, next, TokenKind::RightParen) {
                        Ok(end) => Ok((entries.push(e), end)),
                        Err(m) => Err(m),
                    }
                } else {
                    Err(seq![])
                }
            } else if ts[next].kind is Comma {
                if e.variadic && !(ts[next + 1].kind is RightParen) {
                    Err(error_text(ts, next + 1, "variadic parameter must be the final parameter"@))
                } else {
                    entries_rest(ts, entries.push(e), next + 1, variadic)
                }
            } else {
                match expect_at(ts, next, TokenKind::RightParen) {
                    Ok(end) => Ok((entries.push(e), end)),
                    Err(m) => Err(m),
                }
            },
            Err(m) => Err(m),
        }
    }
}

/// Whether any entry has a name.
pub open spec fn has_named(entries: Seq<Entry>) -> bool {
    exists|i: int| 0 <= i < entries.len() && (#[trigger] entries[i]).name is Some
}

/// The groups of the entries that remain, after the groups already formed
/// and the bare names waiting for a type.
#[verifier::opaque]
pub open spec fn group_rest(entries: Seq<Entry>, named: bool, pending: Seq<String>, groups: Seq<ParamView>) -> Result<
    Seq<ParamView>,
    Seq<char>,
>
    decreases entries.len(),
{
    if entries.len() == 0 {
        if pending.len() > 0 {
            Err(mixed_message())
        } else {
            Ok(groups)
        }
    } else {
        let e = entries[0];
        let rest = entries.drop_first();
        if !named {
            group_rest(rest, named, pending, groups.push(ParamView { names: seq![], type_ref: e.type_ref, variadic: e.variadic }))
        } else {
            match e.name {
                None => if e.variadic {
                    Err(mixed_message())
                } else {
                    match e.type_ref {
                        TypeRef::Named(n) => group_rest(rest, named, pending.push(n), groups),
                        _ => Err(mixed_message()),
                    }
                },
                Some(n) => if e.variadic && pending.len() > 0 {
                    Err("can only use `...` with one final parameter"@)
                } else {
                    group_rest(
                        rest,
                        named,
                        seq![],
                        groups.push(ParamView { names: pending.push(n), type_ref: e.type_ref, variadic: e.variadic }),
                    )
                },
            }
        }
    }
}

/// Entries grouped into declarations: each named entry takes the bare
/// names before it; without any name, each entry is a declaration of its
/// own.
pub open spec fn groups_of(entries: Seq<Entry>) -> Result<Seq<ParamView>, Seq<char>> {
    group_rest(entries, has_named(entries), seq![], seq![])
}

/// After `(`: the parameter groups of a function, and the position after
/// `)`.
#[verifier::opaque]
pub open spec fn parameters_at(ts: Seq<Token>, pos: int) -> Result<(Seq<ParamView>, int), Seq<char>> {
    match entries_rest(ts, seq![], pos, true) {
        Ok((entries, end)) => match groups_of(entries) {
            Ok(groups) => Ok((groups, end)),
            Err(m) => Err(m),
        },
        Err(m) => Err(m),
    }
}

/// After the parameters: a parenthesized list of result groups, a single
/// type, or nothing.
#[verifier::opaque]
pub open spec fn results_at(ts: Seq<Token>, pos: int) -> Result<(Seq<ResultView>, int), Seq<char>> {
    if 0 <= pos && pos + 1 < ts.len() && ts[pos].kind is LeftParen {
        match entries_rest(ts, seq![], pos + 1, false) {
            Ok((entries, end)) => match groups_of(entries) {
                Ok(groups) => Ok((groups.map_values(|g: ParamView| as_result(g)), end)),
                Err(m) => Err(m),
            },
            Err(m) => Err(m),
        }
    } else if 0 <= pos < ts.len() && type_start(ts[pos].kind) {
        match type_at(ts, pos) {
            Ok((t, end)) => Ok((seq![ResultView { names: seq![], type_ref: t }], end)),
            Err(m) => Err(m),
        }
    } else {
        Ok((seq![], pos))
    }
}

/// A function declaration at `pos`: `func`, its name, its parameters, its
/// results and its body.
#[verifier::opaque]
pub open spec fn function_at(ts: Seq<Token>, pos: int) -> Result<(FunctionView, int), Seq<char>> {
    match expect_at(ts, pos, TokenKind::Func) {
        Err(m) => Err(m),
        Ok(p) => if !(p < ts.len()) {
            Err(seq![])
        } else if !(ts[p].kind is Identifier) {
            Err(error_text(ts, p, "expected identifier"@))
        } else {
            match expect_at(ts, p + 1, TokenKind::LeftParen) {
                Err(m) => Err(m),
                Ok(open) => if !(open < ts.len()) {
                    Err(seq![])
                } else {
                    match parameters_at(ts, open) {
                        Err(m) => Err(m),
                        Ok((parameters, q)) => if !(0 <= q < ts.len()) {
                            Err(seq![])
                        } else {
                            match results_at(ts, q) {
                                Err(m) => Err(m),
                                Ok((results, r)) => if !(0 <= r < ts.len()) {
                                    Err(seq![])
                                } else {
                                    match block_at(ts, r) {
                                        Ok((body, end)) => Ok((
                                            FunctionView { name: ts[p].kind->Identifier_0, parameters, results, body },
                                            end,
                                        )),
                                        Err(m) => Err(m),
                                    }
                                },
                            }
                        },
                    }
                },
            }
        },
    }
}

/// One imported path at `pos`, with its binding where a name comes first.
#[verifier::opaque]
pub open spec fn import_spec_at(ts: Seq<Token>, pos: int) -> Result<(ImportSpec, int), Seq<char>> {
    let named = 0 <= pos < ts.len() && ts[pos].kind is Identifier;
    let p = if named { pos + 1 } else { pos };
    if !(0 <= p < ts.len()) {
        Err(seq![])
    } else if ts[p].kind is String {
        Ok((
            ImportSpec { binding: if named { Some(ts[pos].kind->Identifier_0) } else { None }, path: ts[p].kind->String_0 },
            p + 1,
        ))
    } else {
        Err(error_text(ts, p, "expected import path"@))
    }
}

/// The paths of an import group from `q` up to and past `)`, after those
/// already read.
#[verifier::opaque]
pub open spec fn import_specs_rest(ts: Seq<Token>, specs: Seq<ImportSpec>, q: int) -> Result<
    (Seq<ImportSpec>, int),
    Seq<char>,
>
    decreases ts.len() - q,
{
    if q < 0 || q >= ts.len() {
        Err(seq![])
    } else if ts[q].kind is RightParen {
        Ok((specs, q + 1))
    } else {
        match import_spec_at(ts, q) {
            Ok((s, next)) => {
                let r = skip_at(ts, next);
                if q < r < ts.len() {
                    import_specs_rest(ts, specs.push(s), r)
                } else {
                    Err(seq![])
                }
            },
            Err(m) => Err(m),
        }
    }
}

/// An import declaration at `pos`: `import` and one path, or a
/// parenthesized group.
#[verifier::opaque]
pub open spec fn import_at(ts: Seq<Token>, pos: int) -> Result<(ImportView, int), Seq<char>> {
    match expect_at(ts, pos, TokenKind::Import) {
        Err(m) => Err(m),
        Ok(p) => if !(p + 1 < ts.len()) {
            match import_spec_at(ts, p) {
                Ok((s, end)) => Ok((ImportView::Single(s), end)),
                Err(m) => Err(m),
            }
        } else if !(ts[p].kind is LeftParen) {
            match import_spec_at(ts, p) {
                Ok((s, end)) => Ok((ImportView::Single(s), end)),
                Err(m) => Err(m),
            }
        } else {
            let q = skip_at(ts, p + 1);
            if p < q < ts.len() {
                match import_specs_rest(ts, seq![], q) {
                    Ok((specs, end)) => Ok((ImportView::Group(specs), end)),
                    Err(m) => Err(m),
                }
            } else {
                Err(seq![])
            }
        },
    }
}

/// After `(`: the entries of a parameter or result list, up to and past
/// `)`.
fn parse_entries_rest(tokens: &Vec<Token>, entries: Vec<Entry>, p: usize, variadic: bool) -> (r: Result<
    (Vec<Entry>, usize),
    ParseError,
>)
    requires
        tokens_wf(tokens@),
        p < tokens@.len(),
    ensures
        match entries_rest(tokens@, entries@, p as int, variadic) {
            Ok((v, end)) => r is Ok && r->Ok_0.0@ == v && r->Ok_0.1 == end,
            Err(m) => r is Err && r->Err_0.text() == m,
        },
        r is Ok ==> p < r->Ok_0.1 < tokens@.len(),
    decreases tokens@.len() - p,
{
    proof {
        reveal(entries_rest);
    }
    if at_kind(tokens, p, TokenKind::RightParen) {
        return Ok((entries, p + 1));
    }
    let (entry, next) = parse_entry(tokens, p, variadic)?;
    let spread = entry.variadic;
    let mut entries = entries;
    entries.push(entry);
    if at_kind(tokens, next, TokenKind::Comma) {
        if spread && !at_kind(tokens, next + 1, TokenKind::RightParen) {
            return Err(error_at(tokens, next + 1, "variadic parameter must be the final parameter"));
        }
        return parse_entries_rest(tokens, entries, next + 1, variadic);
    }
    let end = expect(tokens, next, TokenKind::RightParen)?;
    Ok((entries, end))
}

/// One entry of a parameter or result list.
fn parse_entry(tokens: &Vec<Token>, p: usize, variadic: bool) -> (r: Result<(Entry, usize), ParseError>)
    requires
        tokens_wf(tokens@),
        p < tokens@.len(),
    ensures
        match entry_at(tokens@, p as int, variadic) {
            Ok((v, end)) => r is Ok && r->Ok_0.0 == v && r->Ok_0.1 == end,
            Err(m) => r is Err && r->Err_0.text() == m,
        },
        r is Ok ==> p < r->Ok_0.1 < tokens@.len(),
{
    proof {
        reveal(entry_at);
    }
    let mut name: Option<String> = None;
    let mut q = p;
    match &tokens[p].kind {
        TokenKind::Identifier(n) => {
            if at_type_start(tokens, p + 1) || (variadic && at_kind(tokens, p + 1, TokenKind::Ellipsis)) {
                name = Some(n.clone());
                q = p + 1;
            }
        },
        _ => {},
    }
    let mut spread = false;
    if variadic && at_kind(tokens, q, TokenKind::Ellipsis) {
        spread = true;
        q = q + 1;
    }
    let (type_ref, next) = parse_type(tokens, q)?;
    Ok((Entry { name, type_ref, variadic: spread }, next))
}

/// Entries grouped into declarations.
fn group_entries(entries: Vec<Entry>) -> (r: Result<Vec<ParameterDecl>, ParseError>)
    ensures
        match groups_of(entries@) {
            Ok(v) => r is Ok && param_views(r->Ok_0@) == v,
            Err(m) => r is Err && r->Err_0.text() == m,
        },
{
    let mut named = false;
    let mut i: usize = 0;
    while i < entries.len()
        invariant
            i <= entries@.len(),
            named == (exists|k: int| 0 <= k < i && (#[trigger] entries@[k]).name is Some),
        decreases entries@.len() - i,
    {
        if entries[i].name.is_some() {
            named = true;
        }
        i = i + 1;
    }
    let groups: Vec<ParameterDecl> = Vec::new();
    let pending: Vec<String> = Vec::new();
    assert(param_views(groups@) =~= Seq::<ParamView>::empty());
    assert(pending@ =~= Seq::<String>::empty());
    group_from(entries, named, pending, groups)
}

/// The groups of the entries that remain, after the groups already formed
/// and the bare names waiting for a type.
fn group_from(entries: Vec<Entry>, named: bool, pending: Vec<String>, groups: Vec<ParameterDecl>) -> (r: Result<
    Vec<ParameterDecl>,
    ParseError,
>)
    ensures
        match group_rest(entries@, named, pending@, param_views(groups@)) {
            Ok(v) => r is Ok && param_views(r->Ok_0@) == v,
            Err(m) => r is Err && r->Err_0.text() == m,
        },
    decreases entries@.len(),
{
    proof {
        reveal(group_rest);
    }
    if entries.len() == 0 {
        if pending.len() > 0 {
            return Err(plain_error("mixed named and unnamed parameters"));
        }
        return Ok(groups);
    }
    let ghost all = entries@;
    let mut entries = entries;
    let entry = entries.remove(0);
    assert(entries@ =~= all.drop_first());
    let mut groups = groups;
    let ghost old_groups = groups@;
    if !named {
        groups.push(ParameterDecl { names: Vec::new(), type_ref: entry.type_ref, variadic: entry.variadic });
        assert(param_views(groups@) =~= param_views(old_groups).push(
            ParamView { names: seq![], type_ref: all[0].type_ref, variadic: all[0].variadic },
        ));
        return group_from(entries, named, pending, groups);
    }
    match entry.name {
        None => {
            if entry.variadic {
                return Err(plain_error("mixed named and unnamed parameters"));
            }
            match entry.type_ref {
                TypeRef::Named(n) => {
                    let mut pending = pending;
                    pending.push(n);
                    group_from(entries, named, pending, groups)
                },
                _ => Err(plain_error("mixed named and unnamed parameters")),
            }
        },
        Some(n) => {
            if entry.variadic && pending.len() > 0 {
                return Err(plain_error("can only use `...` with one final parameter"));
            }
            let mut names = pending;
            names.push(n);
            let ghost view = ParamView { names: names@, type_ref: entry.type_ref, variadic: entry.variadic };
            groups.push(ParameterDecl { names, type_ref: entry.type_ref, variadic: entry.variadic });
            assert(param_views(groups@) =~= param_views(old_groups).push(view));
            let fresh: Vec<String> = Vec::new();
            assert(fresh@ =~= Seq::<String>::empty());
            group_from(entries, named, fresh, groups)
        },
    }
}

/// After `(`: the parameter groups of a function, up to and past `)`.
fn parse_parameters(tokens: &Vec<Token>, pos: usize) -> (r: Result<(Vec<ParameterDecl>, usize), ParseError>)
    requires
        tokens_wf(tokens@),
        pos < tokens@.len(),
    ensures
        match parameters_at(tokens@, pos as int) {
            Ok((v, end)) => r is Ok && param_views(r->Ok_0.0@) == v && r->Ok_0.1 == end,
            Err(m) => r is Err && r->Err_0.text() == m,
        },
        r is Ok ==> pos < r->Ok_0.1 < tokens@.len(),
{
    proof {
        reveal(parameters_at);
    }
    let (entries, end) = parse_entries_rest(tokens, Vec::new(), pos, true)?;
    let groups = group_entries(entries)?;
    Ok((groups, end))
}

/// After the parameters: the results of a function, if any.
fn parse_results(tokens: &Vec<Token>, pos: usize) -> (r: Result<(Vec<ResultDecl>, usize), ParseError>)
    requires
        tokens_wf(tokens@),
        pos < tokens@.len(),
    ensures
        match results_at(tokens@, pos as int) {
            Ok((v, end)) => r is Ok && result_views(r->Ok_0.0@) == v && r->Ok_0.1 == end,
            Err(m) => r is Err && r->Err_0.text() == m,
        },
        r is Ok ==> pos <= r->Ok_0.1 < tokens@.len(),
{
    proof {
        reveal(results_at);
    }
    let mut results: Vec<ResultDecl> = Vec::new();
    if at_kind(tokens, pos, TokenKind::LeftParen) {
        let (entries, end) = parse_entries_rest(tokens, Vec::new(), pos + 1, false)?;
        let mut groups = group_entries(entries)?;
        let ghost all = param_views(groups@);
        while groups.len() > 0
            invariant
                all.map_values(|g: ParamView| as_result(g)) == result_views(results@) + param_views(groups@).map_values(
                    |g: ParamView| as_result(g),
                ),
            decreases groups@.len(),
        {
            let ghost before = groups@;
            let ghost done = results@;
            let group = groups.remove(0);
            assert(groups@ =~= before.drop_first());
            results.push(ResultDecl { names: group.names, type_ref: group.type_ref });
            assert(result_views(results@) =~= result_views(done).push(as_result(param_view(before[0]))));
            assert(param_views(before).map_values(|g: ParamView| as_result(g)) =~= seq![as_result(param_view(before[0]))]
                + param_views(groups@).map_values(|g: ParamView| as_result(g)));
            assert(result_views(done) + param_views(before).map_values(|g: ParamView| as_result(g)) =~= result_views(
                results@,
            ) + param_views(groups@).map_values(|g: ParamView| as_result(g)));
        }
        assert(param_views(groups@).map_values(|g: ParamView| as_result(g)) =~= Seq::<ResultView>::empty());
        assert(result_views(results@) + Seq::<ResultView>::empty() =~= result_views(results@));
        return Ok((results, end));
    }
    if at_type_start(tokens, pos) {
        let (type_ref, end) = parse_type(tokens, pos)?;
        results.push(ResultDecl { names: Vec::new(), type_ref });
        assert(result_views(results@) =~= seq![ResultView { names: seq![], type_ref: results@[0].type_ref }]);
        return Ok((results, end));
    }
    assert(result_views(results@) =~= Seq::<ResultView>::empty());
    Ok((results, pos))
}

/// A function declaration at `func`.
pub fn parse_function(tokens: &Vec<Token>, pos: usize) -> (r: Result<(FunctionDecl, usize), ParseError>)
    requires
        tokens_wf(tokens@),
        pos < tokens@.len(),
    ensures
        match function_at(tokens@, pos as int) {
            Ok((v, end)) => r is Ok && function_view(r->Ok_0.0) == v && r->Ok_0.1 == end,
            Err(m) => r is Err && r->Err_0.text() == m,
        },
        r is Ok ==> pos < r->Ok_0.1 < tokens@.len(),
        r is Ok ==> block_renders(r->Ok_0.0.body.statements@),
{
    proof {
        reveal(function_at);
    }
    let p = expect(tokens, pos, TokenKind::Func)?;
    let (name, q) = expect_identifier(tokens, p)?;
    let open = expect(tokens, q, TokenKind::LeftParen)?;
    let (parameters, after_parameters) = parse_parameters(tokens, open)?;
    let (results, after_results) = parse_results(tokens, after_parameters)?;
    let (body, end) = parse_block(tokens, after_results)?;
    Ok((FunctionDecl { name, parameters, results, body }, end))
}

/// One imported path, with its binding where one is written.
fn parse_import_spec(tokens: &Vec<Token>, pos: usize) -> (r: Result<(ImportSpec, usize), ParseError>)
    requires
        tokens_wf(tokens@),
        pos < tokens@.len(),
    ensures
        match import_spec_at(tokens@, pos as int) {
            Ok((v, end)) => r is Ok && r->Ok_0.0 == v && r->Ok_0.1 == end,
            Err(m) => r is Err && r->Err_0.text() == m,
        },
        r is Ok ==> pos < r->Ok_0.1 < tokens@.len(),
{
    proof {
        reveal(import_spec_at);
    }
    let mut p = pos;
    let mut binding: Option<String> = None;
    match &tokens[pos].kind {
        TokenKind::Identifier(name) => {
            binding = Some(name.clone());
            p = pos + 1;
        },
        _ => {},
    }
    match &tokens[p].kind {
        TokenKind::String(path) => Ok((ImportSpec { binding, path: path.clone() }, p + 1)),
        _ => Err(error_at(tokens, p, "expected import path")),
    }
}

/// The paths of an import group from `q` up to and past `)`.
fn parse_import_specs_rest(tokens: &Vec<Token>, specs: Vec<ImportSpec>, q: usize) -> (r: Result<
    (Vec<ImportSpec>, usize),
    ParseError,
>)
    requires
        tokens_wf(tokens@),
        q < tokens@.len(),
    ensures
        match import_specs_rest(tokens@, specs@, q as int) {
            Ok((v, end)) => r is Ok && r->Ok_0.0@ == v && r->Ok_0.1 == end,
            Err(m) => r is Err && r->Err_0.text() == m,
        },
        r is Ok ==> q < r->Ok_0.1 < tokens@.len(),
    decreases tokens@.len() - q,
{
    proof {
        reveal(import_specs_rest);
    }
    if at_kind(tokens, q, TokenKind::RightParen) {
        return Ok((specs, q + 1));
    }
    let (spec, next) = parse_import_spec(tokens, q)?;
    let mut specs = specs;
    specs.push(spec);
    let r = skip_semicolons(tokens, next);
    parse_import_specs_rest(tokens, specs, r)
}

/// An import declaration at `import`: one path or a parenthesized group.
pub fn parse_import(tokens: &Vec<Token>, pos: usize) -> (r: Result<(ImportDecl, usize), ParseError>)
    requires
        tokens_wf(tokens@),
        pos < tokens@.len(),
    ensures
        match import_at(tokens@, pos as int) {
            Ok((v, end)) => r is Ok && import_view(r->Ok_0.0) == v && r->Ok_0.1 == end,
            Err(m) => r is Err && r->Err_0.text() == m,
        },
        r is Ok ==> pos < r->Ok_0.1 < tokens@.len(),
{
    proof {
        reveal(import_at);
    }
    let p = expect(tokens, pos, TokenKind::Import)?;
    if !at_kind(tokens, p, TokenKind::LeftParen) {
        let (spec, end) = parse_import_spec(tokens, p)?;
        return Ok((ImportDecl::Single(spec), end));
    }
    let q = skip_semicolons(tokens, p + 1);
    let (specs, end) = parse_import_specs_rest(tokens, Vec::new(), q)?;
    Ok((ImportDecl::Group(specs), end))
}

} // verus!
