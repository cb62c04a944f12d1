//! Item-definition metadata consumed from the host compiler.
//!
//! The host's name resolution assigns every item a definition entry; the
//! renderer only reads plain facts from it: the declared name, the parent
//! chain, the definition kind, path spellings the host has already computed,
//! and, for associated items, which container they live in.

use vstd::prelude::*;

use crate::types::{AdtId, DefId, TyId};

verus! {

#[derive(Clone, Copy, PartialEq, Eq, Structural, Debug)]
pub enum DefKind {
    Mod,
    Struct,
    Enum,
    Union,
    Trait,
    TraitAlias,
    Fn,
    AssocFn,
    Closure,
    InlineConst,
    Const,
    Static,
    Impl,
    Variant,
    Other,
}

/// Container of an associated item.
#[derive(Clone, Copy, PartialEq, Eq, Structural, Debug)]
pub enum AssocContainer {
    /// Declared in a trait, reached through trait dispatch.
    Trait,
    /// Declared in an inherent `impl` block.
    InherentImpl,
    /// Declared in a trait `impl` block.
    TraitImpl,
}

#[derive(Clone, Copy, PartialEq, Eq, Structural, Debug)]
pub struct AssocItem {
    pub container: AssocContainer,
    /// The trait or impl the item is declared in.
    pub container_def: DefId,
}

/// Resolved visibility of an item, with the host's spelling for restricted
/// visibilities.
#[derive(Clone, Debug)]
pub enum Visibility {
    Public,
    Restricted { module: DefId, text: String },
}

/// One definition-table entry.
#[derive(Clone, Debug)]
pub struct DefInfo {
    /// The declared name of the item.
    pub name: String,
    /// The lexical parent definition; `None` for the crate root.
    pub parent: Option<DefId>,
    pub kind: DefKind,
    /// Whether the definition lives in the unit being rendered.
    pub local: bool,
    /// A publicly visible path for the item, when the host found one.
    pub visible_path: Option<String>,
    /// The host's fully qualified fallback path.
    pub canonical_path: String,
    /// How many generic arguments belong to enclosing definitions.
    pub parent_count: usize,
    /// Whether the first own generic argument is the implicit `Self`.
    pub has_self: bool,
    /// Set when the item is associated with a trait or an impl.
    pub assoc: Option<AssocItem>,
    /// For an impl definition: the interned self type of the impl.
    pub self_ty: Option<TyId>,
    pub vis: Visibility,
    /// The module enclosing the definition.
    pub parent_module: DefId,
}

/// One field of one variant, in declaration order.
#[derive(Clone, Debug)]
pub struct FieldDef {
    pub name: String,
}

#[derive(Clone, Copy, PartialEq, Eq, Structural, Debug)]
pub enum CtorKind {
    /// A unit variant: prints as a bare path.
    Const,
    /// A tuple variant.
    Fn,
    /// A braced variant.
    Braced,
}

/// One variant of an algebraic data type, with its fields in declaration
/// order.
#[derive(Clone, Debug)]
pub struct VariantDef {
    pub name: String,
    pub ctor: CtorKind,
    pub fields: Vec<FieldDef>,
}

/// An algebraic data type: its definition entry and its variants.
#[derive(Clone, Debug)]
pub struct AdtDef {
    pub def: DefId,
    pub is_enum: bool,
    pub variants: Vec<VariantDef>,
}

pub open spec fn wf_def(d: DefInfo, me: int, ndefs: int, ntys: int) -> bool {
    &&& match d.assoc {
        Some(a) => a.container_def < ndefs,
        None => true,
    }
    &&& match d.self_ty {
        Some(t) => t < ntys,
        None => true,
    }
    &&& match d.vis {
        Visibility::Restricted { module, .. } => module < ndefs,
        Visibility::Public => true,
    }
    &&& d.parent_module < ndefs
}

/// Parents strictly precede their children in the table.
pub open spec fn wf_def_parents(defs: Seq<DefInfo>) -> bool {
    forall|i: int| 0 <= i < defs.len() ==> match (#[trigger] defs[i]).parent {
        Some(p) => p < i,
        None => true,
    }
}

/// Parents strictly precede their children, and all cross references stay in
/// bounds.
pub open spec fn wf_defs(defs: Seq<DefInfo>, ntys: int) -> bool {
    &&& wf_def_parents(defs)
    &&& forall|i: int|
        0 <= i < defs.len() ==> wf_def(#[trigger] defs[i], i, defs.len() as int, ntys)
}

pub open spec fn wf_adt(a: AdtDef, ndefs: int) -> bool {
    a.def < ndefs
}

pub open spec fn wf_adts(adts: Seq<AdtDef>, ndefs: int) -> bool {
    forall|i: int| 0 <= i < adts.len() ==> wf_adt(#[trigger] adts[i], ndefs)
}

/// Definition kinds whose bodies make their nested items local: an item
/// declared under one of these prints by its bare name.
pub open spec fn spec_is_body_owner_kind(k: DefKind) -> bool {
    match k {
        DefKind::Fn => true,
        DefKind::AssocFn => true,
        DefKind::Closure => true,
        DefKind::InlineConst => true,
        DefKind::Const => true,
        DefKind::Static => true,
        _ => false,
    }
}

pub fn is_body_owner_kind(k: DefKind) -> (r: bool)
    ensures
        r == spec_is_body_owner_kind(k),
{
    match k {
        DefKind::Fn => true,
        DefKind::AssocFn => true,
        DefKind::Closure => true,
        DefKind::InlineConst => true,
        DefKind::Const => true,
        DefKind::Static => true,
        _ => false,
    }
}

/// Whether some ancestor of `d` is a function, method, closure, constant or
/// static body.
pub open spec fn spec_local_parent_is_body(defs: Seq<DefInfo>, d: int) -> bool
    decreases d,
{
    if !(0 <= d < defs.len()) {
        false
    } else {
        match defs[d].parent {
            None => false,
            Some(p) => if p < d {
                if spec_is_body_owner_kind(defs[p as int].kind) {
                    true
                } else {
                    spec_local_parent_is_body(defs, p as int)
                }
            } else {
                false
            },
        }
    }
}

/// The definition table of one compilation unit.
#[derive(Clone, Debug)]
pub struct DefTable {
    pub defs: Vec<DefInfo>,
}

impl DefTable {
    /// Whether the nearest enclosing ancestor chain of `d` passes through a
    /// body owner, so that `d` prints by its bare declared name.
    pub fn local_parent_is_body(&self, d: DefId) -> (r: bool)
        ensures
            r == spec_local_parent_is_body(self.defs@, d as int),
        decreases d,
    {
        if d >= self.defs.len() {
            return false;
        }
        match self.defs[d].parent {
            None => false,
            Some(p) => {
                if p < d {
                    if is_body_owner_kind(self.defs[p].kind) {
                        true
                    } else {
                        self.local_parent_is_body(p)
                    }
                } else {
                    false
                }
            },
        }
    }
}

} // verus!
