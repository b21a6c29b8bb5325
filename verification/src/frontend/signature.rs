//! Types, parameters and results as written in function signatures.

use vstd::prelude::*;

use crate::text::{join_with, push_str};

verus! {

/// A type as written in source.
#[derive(Debug, PartialEq, Eq)]
pub enum TypeRef {
    Named(String),
    Interface,
    Slice(Box<TypeRef>),
    Chan(Box<TypeRef>),
    Mapping { key: Box<TypeRef>, value: Box<TypeRef> },
}

/// The text of a type, such as `map[string][]int`.
pub open spec fn type_text(t: TypeRef) -> Seq<char>
    decreases t,
{
    match t {
        TypeRef::Named(name) => name@,
        TypeRef::Interface => "interface{}"@,
        TypeRef::Slice(element) => "[]"@ + type_text(*element),
        TypeRef::Chan(element) => "chan "@ + type_text(*element),
        TypeRef::Mapping { key, value } => "map["@ + type_text(*key) + "]"@ + type_text(*value),
    }
}

impl TypeRef {
    /// Appends the text of this type.
    pub fn push_text(&self, text: &mut String)
        ensures
            final(text)@ == old(text)@ + type_text(*self),
        decreases self,
    {
        match self {
            TypeRef::Named(name) => push_str(text, name.as_str()),
            TypeRef::Interface => push_str(text, "interface{}"),
            TypeRef::Slice(element) => {
                push_str(text, "[]");
                element.push_text(text);
            },
            TypeRef::Chan(element) => {
                push_str(text, "chan ");
                element.push_text(text);
            },
            TypeRef::Mapping { key, value } => {
                push_str(text, "map[");
                key.push_text(text);
                push_str(text, "]");
                value.push_text(text);
            },
        }
        assert(final(text)@ =~= old(text)@ + type_text(*self));
    }

    /// The text of this type, such as `chan int`.
    pub fn render(&self) -> (text: String)
        ensures
            text@ == type_text(*self),
    {
        let mut text = String::new();
        self.push_text(&mut text);
        assert(text@ =~= type_text(*self));
        text
    }

    /// A copy of this type.
    pub fn duplicate(&self) -> (r: TypeRef)
        ensures
            r == *self,
        decreases self,
    {
        match self {
            TypeRef::Named(name) => TypeRef::Named(name.clone()),
            TypeRef::Interface => TypeRef::Interface,
            TypeRef::Slice(element) => TypeRef::Slice(Box::new(element.duplicate())),
            TypeRef::Chan(element) => TypeRef::Chan(Box::new(element.duplicate())),
            TypeRef::Mapping { key, value } => TypeRef::Mapping {
                key: Box::new(key.duplicate()),
                value: Box::new(value.duplicate()),
            },
        }
    }
}

impl Clone for TypeRef {
    fn clone(&self) -> (r: Self)
        ensures
            r == *self,
    {
        self.duplicate()
    }
}

/// A group of parameters that share a type, such as `a, b int` or
/// `values ...int`.
#[derive(Clone, Debug, PartialEq, Eq)]
pub struct ParameterDecl {
    pub names: Vec<String>,
    pub type_ref: TypeRef,
    pub variadic: bool,
}

/// A group of results that share a type; `names` is empty for an unnamed
/// result.
#[derive(Clone, Debug, PartialEq, Eq)]
pub struct ResultDecl {
    pub names: Vec<String>,
    pub type_ref: TypeRef,
}

/// The texts of a list of names.
pub open spec fn name_list(names: Seq<String>) -> Seq<Seq<char>> {
    names.map_values(|n: String| n@)
}

/// Names joined with `, `.
pub open spec fn names_text(names: Seq<String>) -> Seq<char> {
    join_with(name_list(names), ", "@)
}

/// The text of a parameter group, such as `values ...int`.
pub open spec fn parameter_text(p: ParameterDecl) -> Seq<char> {
    names_text(p.names@) + " "@ + (if p.variadic { "..."@ } else { Seq::empty() }) + type_text(p.type_ref)
}

/// The text of a result group: the type alone, or the names and the type.
pub open spec fn result_text(r: ResultDecl) -> Seq<char> {
    if r.names@.len() == 0 {
        type_text(r.type_ref)
    } else {
        names_text(r.names@) + " "@ + type_text(r.type_ref)
    }
}

/// The texts of parameter groups.
pub open spec fn parameter_texts(ps: Seq<ParameterDecl>) -> Seq<Seq<char>> {
    ps.map_values(|p: ParameterDecl| parameter_text(p))
}

/// The texts of result groups.
pub open spec fn result_texts(rs: Seq<ResultDecl>) -> Seq<Seq<char>> {
    rs.map_values(|r: ResultDecl| result_text(r))
}

/// What follows the parameter list of a function: nothing, ` T` for one
/// unnamed result, or the parenthesized result groups.
pub open spec fn results_text(rs: Seq<ResultDecl>) -> Seq<char> {
    if rs.len() == 0 {
        Seq::empty()
    } else if rs.len() == 1 && rs[0].names@.len() == 0 {
        " "@ + type_text(rs[0].type_ref)
    } else {
        " ("@ + join_with(result_texts(rs), ", "@) + ")"@
    }
}

/// Appends names joined with `, `.
pub fn push_names(text: &mut String, names: &Vec<String>)
    ensures
        final(text)@ == old(text)@ + names_text(names@),
{
    let mut i: usize = 0;
    while i < names.len()
        invariant
            i <= names@.len(),
            text@ == old(text)@ + join_with(name_list(names@.take(i as int)), ", "@),
        decreases names@.len() - i,
    {
        let ghost before = text@;
        if i > 0 {
            push_str(text, ", ");
        }
        push_str(text, names[i].as_str());
        proof {
            let done = name_list(names@.take(i + 1));
            assert(done.drop_last() =~= name_list(names@.take(i as int)));
            assert(done.last() == names@[i as int]@);
        }
        i = i + 1;
        assert(text@ =~= old(text)@ + join_with(name_list(names@.take(i as int)), ", "@));
    }
    assert(names@.take(i as int) =~= names@);
}

impl ParameterDecl {
    /// Appends the text of this parameter group.
    pub fn push_text(&self, text: &mut String)
        ensures
            final(text)@ == old(text)@ + parameter_text(*self),
    {
        push_names(text, &self.names);
        push_str(text, " ");
        if self.variadic {
            push_str(text, "...");
        }
        self.type_ref.push_text(text);
        assert(final(text)@ =~= old(text)@ + parameter_text(*self));
    }

    /// The text of this parameter group, such as `a, b int`.
    pub fn render(&self) -> (text: String)
        ensures
            text@ == parameter_text(*self),
    {
        let mut text = String::new();
        self.push_text(&mut text);
        assert(text@ =~= parameter_text(*self));
        text
    }
}

impl ResultDecl {
    /// Appends the text of this result group.
    pub fn push_text(&self, text: &mut String)
        ensures
            final(text)@ == old(text)@ + result_text(*self),
    {
        if self.names.len() > 0 {
            push_names(text, &self.names);
            push_str(text, " ");
        }
        self.type_ref.push_text(text);
        assert(final(text)@ =~= old(text)@ + result_text(*self));
    }
}

/// Appends the text of result groups that follows a parameter list.
pub fn push_results(text: &mut String, results: &Vec<ResultDecl>)
    ensures
        final(text)@ == old(text)@ + results_text(results@),
{
    if results.len() == 0 {
        assert(final(text)@ =~= old(text)@ + results_text(results@));
        return;
    }
    if results.len() == 1 && results[0].names.len() == 0 {
        push_str(text, " ");
        results[0].type_ref.push_text(text);
        assert(final(text)@ =~= old(text)@ + results_text(results@));
        return;
    }
    push_str(text, " (");
    let ghost start = text@;
    let mut i: usize = 0;
    while i < results.len()
        invariant
            i <= results@.len(),
            text@ == start + join_with(result_texts(results@.take(i as int)), ", "@),
        decreases results@.len() - i,
    {
        if i > 0 {
            push_str(text, ", ");
        }
        results[i].push_text(text);
        proof {
            let done = result_texts(results@.take(i + 1));
            assert(done.drop_last() =~= result_texts(results@.take(i as int)));
        }
        i = i + 1;
        assert(text@ =~= start + join_with(result_texts(results@.take(i as int)), ", "@));
    }
    assert(results@.take(i as int) =~= results@);
    push_str(text, ")");
    assert(final(text)@ =~= old(text)@ + results_text(results@));
}

} // verus!
