//! The model of fully resolved, fully instantiated types.
//!
//! Like the host compiler, a node's type is interned: a `TyId` is an index
//! into the compilation unit's type arena, so copying and comparing the type
//! recorded on a node is copying and comparing a small integer.  The arena
//! entries themselves own their structure.  String-valued fields carry text
//! that only the host can compute (region names, trait-object predicates,
//! alias spellings); the renderer reproduces them verbatim.

use vstd::prelude::*;

verus! {

/// Index of an interned type in the unit's type arena.
pub type TyId = usize;

/// Index of an item definition in the unit's definition table.
pub type DefId = usize;

/// Index of an algebraic data type in the unit's ADT table.
pub type AdtId = usize;

#[derive(Clone, Copy, PartialEq, Eq, Structural, Debug)]
pub enum Mutability {
    Not,
    Mut,
}

#[derive(Clone, Copy, PartialEq, Eq, Structural, Debug)]
pub enum IntTy {
    Isize,
    I8,
    I16,
    I32,
    I64,
    I128,
}

#[derive(Clone, Copy, PartialEq, Eq, Structural, Debug)]
pub enum UintTy {
    Usize,
    U8,
    U16,
    U32,
    U64,
    U128,
}

/// One instantiated generic argument.
pub enum GenericArg {
    Type { ty: Box<Ty> },
    /// A region argument, spelled by the host's region printer.
    Lifetime { text: String },
    /// A constant argument, spelled by the host's constant printer.
    Const { text: String },
}

/// One fully resolved type.
pub enum Ty {
    Bool,
    Char,
    Str,
    Never,
    Int { ity: IntTy },
    Uint { uty: UintTy },
    Adt { adt: AdtId, args: Vec<GenericArg> },
    Foreign { def: DefId },
    RawPtr { mutability: Mutability, pointee: Box<Ty> },
    Ref { region: Option<String>, mutability: Mutability, pointee: Box<Ty> },
    Tuple { elems: Vec<Ty> },
    Array { elem: Box<Ty>, len: u128 },
    Slice { elem: Box<Ty> },
    FnPtr { inputs: Vec<Ty>, output: Box<Ty> },
    FnDef { def: DefId, args: Vec<GenericArg> },
    /// A trait object; the predicate list is spelled by the host.
    Dynamic { data: String, region: Option<String> },
    /// An alias (projection, opaque, weak) spelled by the host.
    Alias { text: String },
    /// A generic type parameter, by index and declared name.
    Param { index: usize, name: String },
    /// Types with no nameable surface spelling: rendered as a placeholder.
    Closure { def: DefId },
    Coroutine { def: DefId },
    CoroutineClosure { def: DefId },
    CoroutineWitness { def: DefId },
    Infer,
}

/// Every table index a generic argument mentions stays inside the unit.
pub open spec fn wf_generic_arg(a: GenericArg, nadts: int, ndefs: int) -> bool
    decreases a,
{
    match a {
        GenericArg::Type { ty } => wf_ty(*ty, nadts, ndefs),
        GenericArg::Lifetime { .. } => true,
        GenericArg::Const { .. } => true,
    }
}

/// Every table index a type mentions stays inside the unit.
pub open spec fn wf_ty(t: Ty, nadts: int, ndefs: int) -> bool
    decreases t,
{
    match t {
        Ty::Adt { adt, args } => adt < nadts && forall|i: int|
            0 <= i < args@.len() ==> wf_generic_arg(#[trigger] args@[i], nadts, ndefs),
        Ty::Foreign { def } => def < ndefs,
        Ty::RawPtr { pointee, .. } => wf_ty(*pointee, nadts, ndefs),
        Ty::Ref { pointee, .. } => wf_ty(*pointee, nadts, ndefs),
        Ty::Tuple { elems } => forall|i: int|
            0 <= i < elems@.len() ==> wf_ty(#[trigger] elems@[i], nadts, ndefs),
        Ty::Array { elem, .. } => wf_ty(*elem, nadts, ndefs),
        Ty::Slice { elem } => wf_ty(*elem, nadts, ndefs),
        Ty::FnPtr { inputs, output } => wf_ty(*output, nadts, ndefs) && forall|i: int|
            0 <= i < inputs@.len() ==> wf_ty(#[trigger] inputs@[i], nadts, ndefs),
        Ty::FnDef { def, args } => def < ndefs && forall|i: int|
            0 <= i < args@.len() ==> wf_generic_arg(#[trigger] args@[i], nadts, ndefs),
        Ty::Closure { def } => def < ndefs,
        Ty::Coroutine { def } => def < ndefs,
        Ty::CoroutineClosure { def } => def < ndefs,
        Ty::CoroutineWitness { def } => def < ndefs,
        _ => true,
    }
}

/// A whole type arena is well formed when each entry is.
pub open spec fn wf_tys(tys: Seq<Ty>, nadts: int, ndefs: int) -> bool {
    forall|i: int| 0 <= i < tys.len() ==> wf_ty(#[trigger] tys[i], nadts, ndefs)
}

} // verus!
