//! The parts of a parsed source file that extraction reads: call sites,
//! the shape of their callee, and whether each argument is a string literal.
use vstd::prelude::*;

verus! {

/// One argument of a call, as extraction sees it.
pub enum Argument {
    /// A string literal, with its value.
    Literal(String),
    /// Any other expression (a variable, a template, a call, ...).
    Other,
}

/// The callee of a call, by syntactic shape.
pub enum Callee {
    /// A plain identifier: `f(...)`.
    Ident(String),
    /// A member access: `obj.f(...)`. `None` where the property is not a
    /// plain name (a computed or private property).
    Member(Option<String>),
    /// An optional-chaining member call: `obj?.f(...)`. `None` where the
    /// chained expression is not a member access with a plain name.
    OptionalMember(Option<String>),
    /// Any other callee (a call result, a computed expression, `super`, ...).
    Other,
}

/// A call node: its callee and its ordered arguments.
pub struct CallSite {
    pub callee: Callee,
    pub args: Vec<Argument>,
}

/// The call nodes of one parsed file, in the order of a post-order walk of
/// its syntax tree: the calls nested in a call come before that call.
pub struct Module {
    pub calls: Vec<CallSite>,
}

/// The value of an argument, where it is a string literal.
pub open spec fn literal_value(a: Argument) -> Option<Seq<char>> {
    match a {
        Argument::Literal(s) => Some(s@),
        Argument::Other => None,
    }
}

/// The literal value at an optional argument position: `None` where the
/// position is not configured, lies past the last argument, or holds
/// something other than a string literal.
pub open spec fn argument_at(args: Seq<Argument>, index: Option<usize>) -> Option<Seq<char>> {
    match index {
        Some(i) => if i < args.len() {
            literal_value(args[i as int])
        } else {
            None
        },
        None => None,
    }
}

/// The string literal held by an argument, if the argument is present and is one.
pub fn get_argument(node: Option<&Argument>) -> (r: Option<&String>)
    ensures
        match node {
            Some(Argument::Literal(s)) => r == Some(s),
            _ => r is None,
        },
{
    match node {
        Some(Argument::Literal(s)) => Some(s),
        _ => None,
    }
}

/// A copy of the literal value at an optional argument position.
pub fn string_from_option(node: &CallSite, index: Option<usize>) -> (r: Option<String>)
    ensures
        match r {
            Some(s) => argument_at(node.args@, index) == Some(s@),
            None => argument_at(node.args@, index) is None,
        },
{
    match index {
        Some(i) => {
            if i < node.args.len() {
                match get_argument(Some(&node.args[i])) {
                    Some(s) => Some(s.clone()),
                    None => None,
                }
            } else {
                None
            }
        },
        None => None,
    }
}

impl CallSite {
    /// The name a call is dispatched on: the identifier of a plain call, or
    /// the property name of a member or optional-chaining member call.
    pub open spec fn callee_name_spec(&self) -> Option<Seq<char>> {
        match self.callee {
            Callee::Ident(n) => Some(n@),
            Callee::Member(Some(n)) => Some(n@),
            Callee::OptionalMember(Some(n)) => Some(n@),
            _ => None,
        }
    }

    /// Resolves the callee to a single name under the three call shapes.
    pub fn callee_name(&self) -> (r: Option<&String>)
        ensures
            match r {
                Some(n) => self.callee_name_spec() == Some(n@),
                None => self.callee_name_spec() is None,
            },
    {
        match &self.callee {
            Callee::Ident(n) => Some(n),
            Callee::Member(Some(n)) => Some(n),
            Callee::OptionalMember(Some(n)) => Some(n),
            _ => None,
        }
    }
}

} // verus!
