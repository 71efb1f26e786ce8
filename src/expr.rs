use vstd::prelude::*;

use crate::idset::IdSet;
use crate::registry::{RegistryMap, RoleRegistry};

verus! {

/// A set expression over registry labels.
#[derive(Debug, PartialEq, Eq)]
pub enum SetExpr {
    Label(String),
    Union(Box<SetExpr>, Box<SetExpr>),
    Intersection(Box<SetExpr>, Box<SetExpr>),
    Difference(Box<SetExpr>, Box<SetExpr>),
}

/// The mathematical form of a set expression: labels as character sequences.
pub enum ExprTree {
    Label(Seq<char>),
    Union(Box<ExprTree>, Box<ExprTree>),
    Intersection(Box<ExprTree>, Box<ExprTree>),
    Difference(Box<ExprTree>, Box<ExprTree>),
}

/// The tree that an expression stands for.
pub open spec fn tree_of(e: SetExpr) -> ExprTree
    decreases e,
{
    match e {
        SetExpr::Label(l) => ExprTree::Label(l@),
        SetExpr::Union(a, b) => ExprTree::Union(Box::new(tree_of(*a)), Box::new(tree_of(*b))),
        SetExpr::Intersection(a, b) => ExprTree::Intersection(
            Box::new(tree_of(*a)),
            Box::new(tree_of(*b)),
        ),
        SetExpr::Difference(a, b) => ExprTree::Difference(
            Box::new(tree_of(*a)),
            Box::new(tree_of(*b)),
        ),
    }
}

impl View for SetExpr {
    type V = ExprTree;

    open spec fn view(&self) -> ExprTree {
        tree_of(*self)
    }
}

/// The value of a tree over a registry: the identifier set, or the leftmost label
/// that the registry lacks.
pub open spec fn eval(t: ExprTree, reg: RegistryMap) -> Result<Set<Seq<char>>, Seq<char>>
    decreases t,
{
    match t {
        ExprTree::Label(l) => if reg.contains_key(l) {
            Ok(reg[l])
        } else {
            Err(l)
        },
        ExprTree::Union(a, b) => match eval(*a, reg) {
            Err(l) => Err(l),
            Ok(x) => match eval(*b, reg) {
                Err(l) => Err(l),
                Ok(y) => Ok(x.union(y)),
            },
        },
        ExprTree::Intersection(a, b) => match eval(*a, reg) {
            Err(l) => Err(l),
            Ok(x) => match eval(*b, reg) {
                Err(l) => Err(l),
                Ok(y) => Ok(x.intersect(y)),
            },
        },
        ExprTree::Difference(a, b) => match eval(*a, reg) {
            Err(l) => Err(l),
            Ok(x) => match eval(*b, reg) {
                Err(l) => Err(l),
                Ok(y) => Ok(x.difference(y)),
            },
        },
    }
}

/// Whether `l` occurs as a leaf of `t`.
pub open spec fn mentions(t: ExprTree, l: Seq<char>) -> bool
    decreases t,
{
    match t {
        ExprTree::Label(m) => m == l,
        ExprTree::Union(a, b) => mentions(*a, l) || mentions(*b, l),
        ExprTree::Intersection(a, b) => mentions(*a, l) || mentions(*b, l),
        ExprTree::Difference(a, b) => mentions(*a, l) || mentions(*b, l),
    }
}

/// Why an expression could not be resolved.
#[derive(Debug, Clone, PartialEq, Eq)]
pub enum ResolveError {
    UnknownLabel(String),
}

/// Whether an executable result is the value `eval` gives.
pub open spec fn resolves_to(r: Result<IdSet, ResolveError>, v: Result<Set<Seq<char>>, Seq<char>>) -> bool {
    match (r, v) {
        (Ok(s), Ok(x)) => s.wf() && s@ == x,
        (Err(ResolveError::UnknownLabel(l)), Err(m)) => l@ == m,
        _ => false,
    }
}

/// Evaluates an expression against a registry, depth first, left before right.
pub fn resolve_set(parsed_expression: SetExpr, set_map: &RoleRegistry) -> (r: Result<IdSet, ResolveError>)
    requires
        set_map.wf(),
    ensures
        resolves_to(r, eval(parsed_expression@, set_map@)),
    decreases parsed_expression,
{
    match parsed_expression {
        SetExpr::Label(key) => match set_map.lookup(&key) {
            Some(s) => Ok(s.copy()),
            None => Err(ResolveError::UnknownLabel(key)),
        },
        SetExpr::Union(left, right) => {
            let a = resolve_set(*left, set_map)?;
            let b = resolve_set(*right, set_map)?;
            Ok(a.union(&b))
        },
        SetExpr::Intersection(left, right) => {
            let a = resolve_set(*left, set_map)?;
            let b = resolve_set(*right, set_map)?;
            Ok(a.intersection(&b))
        },
        SetExpr::Difference(left, right) => {
            let a = resolve_set(*left, set_map)?;
            let b = resolve_set(*right, set_map)?;
            Ok(a.difference(&b))
        },
    }
}

/// A label present in the registry evaluates to the registry's set for it.
pub proof fn lemma_label_lookup(reg: RegistryMap, l: Seq<char>)
    requires
        reg.contains_key(l),
    ensures
        eval(ExprTree::Label(l), reg) == Ok::<Set<Seq<char>>, Seq<char>>(reg[l]),
{
}

/// Each operator evaluates to the matching set operation on the values of its operands.
pub proof fn lemma_operators(a: ExprTree, b: ExprTree, reg: RegistryMap)
    requires
        eval(a, reg) is Ok,
        eval(b, reg) is Ok,
    ensures
        eval(ExprTree::Union(Box::new(a), Box::new(b)), reg)
            == Ok::<Set<Seq<char>>, Seq<char>>(eval(a, reg)->Ok_0.union(eval(b, reg)->Ok_0)),
        eval(ExprTree::Intersection(Box::new(a), Box::new(b)), reg)
            == Ok::<Set<Seq<char>>, Seq<char>>(eval(a, reg)->Ok_0.intersect(eval(b, reg)->Ok_0)),
        eval(ExprTree::Difference(Box::new(a), Box::new(b)), reg)
            == Ok::<Set<Seq<char>>, Seq<char>>(eval(a, reg)->Ok_0.difference(eval(b, reg)->Ok_0)),
{
}

/// Swapping the operands of a union or an intersection keeps the resolved set, and keeps
/// whether resolution fails.
pub proof fn lemma_commutative(a: ExprTree, b: ExprTree, reg: RegistryMap)
    ensures
        eval(ExprTree::Union(Box::new(a), Box::new(b)), reg) is Ok
            <==> eval(ExprTree::Union(Box::new(b), Box::new(a)), reg) is Ok,
        eval(ExprTree::Union(Box::new(a), Box::new(b)), reg) is Ok ==>
            eval(ExprTree::Union(Box::new(a), Box::new(b)), reg)
                == eval(ExprTree::Union(Box::new(b), Box::new(a)), reg),
        eval(ExprTree::Intersection(Box::new(a), Box::new(b)), reg) is Ok
            <==> eval(ExprTree::Intersection(Box::new(b), Box::new(a)), reg) is Ok,
        eval(ExprTree::Intersection(Box::new(a), Box::new(b)), reg) is Ok ==>
            eval(ExprTree::Intersection(Box::new(a), Box::new(b)), reg)
                == eval(ExprTree::Intersection(Box::new(b), Box::new(a)), reg),
{
    if eval(a, reg) is Ok && eval(b, reg) is Ok {
        let x = eval(a, reg)->Ok_0;
        let y = eval(b, reg)->Ok_0;
        assert(x.union(y) =~= y.union(x));
        assert(x.intersect(y) =~= y.intersect(x));
    }
}

/// A tree that mentions a label the registry lacks fails to resolve, wherever the label
/// stands, and the label it reports is one the registry lacks.
pub proof fn lemma_unknown_label_fails(t: ExprTree, reg: RegistryMap, l: Seq<char>)
    requires
        mentions(t, l),
        !reg.contains_key(l),
    ensures
        eval(t, reg) is Err,
        !reg.contains_key(eval(t, reg)->Err_0),
    decreases t,
{
    lemma_failure_is_unknown(t, reg);
    match t {
        ExprTree::Label(_) => {},
        ExprTree::Union(a, b) => {
            if mentions(*a, l) {
                lemma_unknown_label_fails(*a, reg, l);
            } else {
                lemma_unknown_label_fails(*b, reg, l);
            }
        },
        ExprTree::Intersection(a, b) => {
            if mentions(*a, l) {
                lemma_unknown_label_fails(*a, reg, l);
            } else {
                lemma_unknown_label_fails(*b, reg, l);
            }
        },
        ExprTree::Difference(a, b) => {
            if mentions(*a, l) {
                lemma_unknown_label_fails(*a, reg, l);
            } else {
                lemma_unknown_label_fails(*b, reg, l);
            }
        },
    }
}

/// A failed resolution names a label of the tree that the registry lacks.
pub proof fn lemma_failure_is_unknown(t: ExprTree, reg: RegistryMap)
    ensures
        eval(t, reg) is Err ==> mentions(t, eval(t, reg)->Err_0) && !reg.contains_key(
            eval(t, reg)->Err_0,
        ),
    decreases t,
{
    match t {
        ExprTree::Label(_) => {},
        ExprTree::Union(a, b) => {
            lemma_failure_is_unknown(*a, reg);
            lemma_failure_is_unknown(*b, reg);
        },
        ExprTree::Intersection(a, b) => {
            lemma_failure_is_unknown(*a, reg);
            lemma_failure_is_unknown(*b, reg);
        },
        ExprTree::Difference(a, b) => {
            lemma_failure_is_unknown(*a, reg);
            lemma_failure_is_unknown(*b, reg);
        },
    }
}

} // verus!
