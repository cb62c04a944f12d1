//! The typed tree of one function or closure body.
//!
//! Nodes live in append-only arenas and refer to each other by index, so a
//! pass can push new nodes and overwrite an existing node's payload in place
//! without disturbing any other reference.  Patterns, by contrast, own their
//! subpatterns directly.

use vstd::prelude::*;

use crate::defs::AdtDef;
use crate::types::{AdtId, DefId, GenericArg, Mutability, TyId, wf_generic_arg};

verus! {

pub type ExprId = usize;

pub type StmtId = usize;

pub type BlockId = usize;

pub type ArmId = usize;

/// Index of a body within the compilation unit.
pub type BodyId = usize;

/// Identity of a local binding or other node within one body owner.
pub type LocalId = u32;

/// Identity of a lexical scope within one body owner.
pub type ScopeId = u32;

/// A source region, used only to carry positions through rewrites.
#[derive(Clone, Copy, PartialEq, Eq, Structural, Debug)]
pub struct Span {
    pub lo: u32,
    pub hi: u32,
}

#[derive(Clone, Copy, PartialEq, Eq, Structural, Debug)]
pub enum FakeBorrowKind {
    Shallow,
    Deep,
}

#[derive(Clone, Copy, PartialEq, Eq, Structural, Debug)]
pub enum BorrowKind {
    Shared,
    Fake(FakeBorrowKind),
    Mut,
}

#[derive(Clone, Copy, PartialEq, Eq, Structural, Debug)]
pub enum BinOp {
    Add,
    Sub,
    Mul,
    Div,
    Rem,
    BitXor,
    BitAnd,
    BitOr,
    Shl,
    Shr,
    Eq,
    Lt,
    Le,
    Ne,
    Ge,
    Gt,
    Offset,
    AddUnchecked,
    AddWithOverflow,
    SubUnchecked,
    SubWithOverflow,
    MulUnchecked,
    MulWithOverflow,
    ShlUnchecked,
    ShrUnchecked,
    Cmp,
}

#[derive(Clone, Copy, PartialEq, Eq, Structural, Debug)]
pub enum LogicalOp {
    And,
    Or,
}

#[derive(Clone, Copy, PartialEq, Eq, Structural, Debug)]
pub enum UnOp {
    Not,
    Neg,
    PtrMetadata,
}

#[derive(Clone, Copy, PartialEq, Eq, Structural, Debug)]
pub enum AssignOpKind {
    AddAssign,
    SubAssign,
    MulAssign,
    DivAssign,
    RemAssign,
    BitXorAssign,
    BitAndAssign,
    BitOrAssign,
    ShlAssign,
    ShrAssign,
}

#[derive(Clone, Copy, PartialEq, Eq, Structural, Debug)]
pub enum ByRef {
    No,
    Yes(Mutability),
}

/// How a binding takes its matched value.
#[derive(Clone, Copy, PartialEq, Eq, Structural, Debug)]
pub struct BindingMode {
    pub by_ref: ByRef,
    pub mutability: Mutability,
}

/// A literal as the host parsed it.
pub enum Lit {
    Str { text: String },
    ByteStr { bytes: Vec<u8> },
    CStr,
    Byte { value: u8 },
    Char { value: char },
    Int { value: u128 },
    /// Floating-point literals keep their source spelling as text.
    Float { text: String },
    Bool { value: bool },
    LitError,
}

/// One field inside a pattern that destructures an ADT or a tuple.
pub struct FieldPat {
    /// Declaration index of the matched field.
    pub field: usize,
    pub pattern: Pat,
}

pub struct Pat {
    pub ty: TyId,
    pub span: Span,
    pub kind: PatKind,
}

pub enum PatKind {
    Missing,
    Wild,
    AscribeUserType { subpattern: Box<Pat> },
    Binding {
        name: String,
        mode: BindingMode,
        var: LocalId,
        ty: TyId,
        subpattern: Option<Box<Pat>>,
        is_primary: bool,
    },
    Variant {
        adt: AdtId,
        args: Vec<GenericArg>,
        variant_index: usize,
        subpatterns: Vec<FieldPat>,
    },
    Leaf { subpatterns: Vec<FieldPat> },
    Deref { subpattern: Box<Pat> },
    DerefPattern { subpattern: Box<Pat>, borrow: ByRef },
    /// A constant pattern, spelled by the host's constant printer.
    Constant { text: String },
    ExpandedConstant { subpattern: Box<Pat> },
    Range { lo: String, hi: String },
    Slice { prefix: Vec<Pat>, slice: Option<Box<Pat>>, suffix: Vec<Pat> },
    Array { prefix: Vec<Pat>, slice: Option<Box<Pat>>, suffix: Vec<Pat> },
    Or { pats: Vec<Pat> },
    Never,
    PatError,
}

/// One field of an ADT construction expression.
#[derive(Clone, Copy, PartialEq, Eq, Structural, Debug)]
pub struct FieldExpr {
    /// Declaration index of the initialized field.
    pub name: usize,
    pub expr: ExprId,
}

/// An ADT construction expression.
pub struct AdtExpr {
    pub adt: AdtId,
    pub variant_index: usize,
    pub args: Vec<GenericArg>,
    pub fields: Vec<FieldExpr>,
    /// A `..base` spread, when the literal had one.
    pub base: Option<ExprId>,
}

pub enum ExprKind {
    /// A lexical-scope marker, transparent to rendering.
    Scope { region_scope: ScopeId, value: ExprId },
    Boxed { value: ExprId },
    If { cond: ExprId, then: ExprId, else_opt: Option<ExprId> },
    Call { fun: ExprId, args: Vec<ExprId> },
    ByUse { expr: ExprId },
    Deref { arg: ExprId },
    Binary { op: BinOp, lhs: ExprId, rhs: ExprId },
    LogicalOp { op: LogicalOp, lhs: ExprId, rhs: ExprId },
    Unary { op: UnOp, arg: ExprId },
    Cast { source: ExprId },
    Use { source: ExprId },
    NeverToAny { source: ExprId },
    PointerCoercion { source: ExprId },
    Loop { body: ExprId },
    Let { expr: ExprId, pat: Pat },
    Match { scrutinee: ExprId, arms: Vec<ArmId> },
    Block { block: BlockId },
    Assign { lhs: ExprId, rhs: ExprId },
    AssignOp { op: AssignOpKind, lhs: ExprId, rhs: ExprId },
    Field { lhs: ExprId, name: usize },
    Index { lhs: ExprId, index: ExprId },
    VarRef { id: LocalId },
    UpvarRef { var: LocalId },
    Borrow { borrow_kind: BorrowKind, arg: ExprId },
    RawBorrow { mutability: Mutability, arg: ExprId },
    Break { value: Option<ExprId> },
    Continue,
    Return { value: Option<ExprId> },
    Become { value: ExprId },
    ConstBlock,
    Repeat { value: ExprId, count: u128 },
    Array { fields: Vec<ExprId> },
    Tuple { fields: Vec<ExprId> },
    Adt { data: AdtExpr },
    PlaceTypeAscription { source: ExprId },
    ValueTypeAscription { source: ExprId },
    PlaceUnwrapUnsafeBinder { source: ExprId },
    ValueUnwrapUnsafeBinder { source: ExprId },
    WrapUnsafeBinder { source: ExprId },
    Closure { closure_id: BodyId },
    Literal { lit: Lit, neg: bool },
    NonHirLiteral { value: u128 },
    ZstLiteral,
    NamedConst { def: DefId, args: Vec<GenericArg> },
    ConstParam { name: String },
    StaticRef { def: DefId },
    InlineAsm,
    ThreadLocalRef { def: DefId },
    Yield { value: ExprId },
}

/// One typed-tree expression: a kind, a resolved type and a source span.
pub struct Expr {
    pub kind: ExprKind,
    pub ty: TyId,
    pub span: Span,
}

pub enum StmtKind {
    Expr { expr: ExprId },
    Let {
        remainder_scope: ScopeId,
        init_scope: ScopeId,
        pattern: Pat,
        initializer: Option<ExprId>,
        else_block: Option<BlockId>,
        span: Span,
    },
}

pub struct Stmt {
    pub kind: StmtKind,
}

#[derive(Clone, Copy, PartialEq, Eq, Structural, Debug)]
pub enum BlockSafety {
    Safe,
    ExplicitUnsafe,
}

pub struct Block {
    pub targeted_by_break: bool,
    pub region_scope: ScopeId,
    pub span: Span,
    pub stmts: Vec<StmtId>,
    pub expr: Option<ExprId>,
    pub safety_mode: BlockSafety,
}

pub struct Arm {
    pub pattern: Pat,
    pub guard: Option<ExprId>,
    pub body: ExprId,
}

pub struct Param {
    pub pat: Option<Pat>,
}

/// The arenas of one body.
pub struct Thir {
    pub exprs: Vec<Expr>,
    pub stmts: Vec<Stmt>,
    pub blocks: Vec<Block>,
    pub arms: Vec<Arm>,
    pub params: Vec<Param>,
}

impl Thir {
    pub fn new() -> (r: Thir)
        ensures
            r.exprs@.len() == 0,
            r.stmts@.len() == 0,
            r.blocks@.len() == 0,
            r.arms@.len() == 0,
            r.params@.len() == 0,
    {
        Thir { exprs: Vec::new(), stmts: Vec::new(), blocks: Vec::new(), arms: Vec::new(), params: Vec::new() }
    }

    /// Push a new expression node, receiving its fresh index.
    pub fn push_expr(&mut self, e: Expr) -> (r: ExprId)
        ensures
            final(self).exprs@ == old(self).exprs@.push(e),
            final(self).stmts == old(self).stmts,
            final(self).blocks == old(self).blocks,
            final(self).arms == old(self).arms,
            final(self).params == old(self).params,
            r == old(self).exprs@.len(),
    {
        let r = self.exprs.len();
        self.exprs.push(e);
        r
    }

    pub fn push_stmt(&mut self, s: Stmt) -> (r: StmtId)
        ensures
            final(self).stmts@ == old(self).stmts@.push(s),
            final(self).exprs == old(self).exprs,
            final(self).blocks == old(self).blocks,
            final(self).arms == old(self).arms,
            final(self).params == old(self).params,
            r == old(self).stmts@.len(),
    {
        let r = self.stmts.len();
        self.stmts.push(s);
        r
    }

    pub fn push_block(&mut self, b: Block) -> (r: BlockId)
        ensures
            final(self).blocks@ == old(self).blocks@.push(b),
            final(self).exprs == old(self).exprs,
            final(self).stmts == old(self).stmts,
            final(self).arms == old(self).arms,
            final(self).params == old(self).params,
            r == old(self).blocks@.len(),
    {
        let r = self.blocks.len();
        self.blocks.push(b);
        r
    }

    pub fn push_arm(&mut self, a: Arm) -> (r: ArmId)
        ensures
            final(self).arms@ == old(self).arms@.push(a),
            final(self).exprs == old(self).exprs,
            final(self).stmts == old(self).stmts,
            final(self).blocks == old(self).blocks,
            final(self).params == old(self).params,
            r == old(self).arms@.len(),
    {
        let r = self.arms.len();
        self.arms.push(a);
        r
    }

    pub fn push_param(&mut self, p: Param) -> (r: usize)
        ensures
            final(self).params@ == old(self).params@.push(p),
            final(self).exprs == old(self).exprs,
            final(self).stmts == old(self).stmts,
            final(self).blocks == old(self).blocks,
            final(self).arms == old(self).arms,
            r == old(self).params@.len(),
    {
        let r = self.params.len();
        self.params.push(p);
        r
    }

    /// Overwrite an existing expression's payload in place, keeping its
    /// identity, so every reference to it observes the new form.
    pub fn set_expr_kind(&mut self, id: ExprId, kind: ExprKind)
        requires
            id < old(self).exprs@.len(),
        ensures
            final(self).exprs@ == old(self).exprs@.update(
                id as int,
                Expr { kind, ty: old(self).exprs@[id as int].ty, span: old(self).exprs@[id as int].span },
            ),
            final(self).stmts == old(self).stmts,
            final(self).blocks == old(self).blocks,
            final(self).arms == old(self).arms,
            final(self).params == old(self).params,
    {
        let ty = self.exprs[id].ty;
        let span = self.exprs[id].span;
        self.exprs.set(id, Expr { kind, ty, span });
    }
}

/// Bounds for an optional expression reference.
pub open spec fn wf_opt_expr(e: Option<ExprId>, ne: int) -> bool {
    match e {
        Some(i) => i < ne,
        None => true,
    }
}

/// Well-formedness of a pattern: every type, ADT and field reference stays
/// inside the unit's tables.
pub open spec fn wf_pat(p: Pat, tys: Seq<crate::types::Ty>, adts: Seq<AdtDef>, ndefs: int) -> bool
    decreases p,
{
    &&& p.ty < tys.len()
    &&& match p.kind {
        PatKind::Missing => true,
        PatKind::Wild => true,
        PatKind::AscribeUserType { subpattern } => wf_pat(*subpattern, tys, adts, ndefs),
        PatKind::Binding { ty, subpattern, .. } => ty < tys.len() && match subpattern {
            Some(sp) => wf_pat(*sp, tys, adts, ndefs),
            None => true,
        },
        PatKind::Variant { adt, args, variant_index, subpatterns } => {
            &&& adt < adts.len()
            &&& variant_index < adts[adt as int].variants@.len()
            &&& forall|i: int|
                0 <= i < args@.len() ==> wf_generic_arg(#[trigger] args@[i], adts.len() as int, ndefs)
            &&& forall|i: int|
                0 <= i < subpatterns@.len() ==> (#[trigger] subpatterns@[i]).field
                    < adts[adt as int].variants@[variant_index as int].fields@.len()
                    && wf_pat(subpatterns@[i].pattern, tys, adts, ndefs)
        },
        PatKind::Leaf { subpatterns } => {
            &&& forall|i: int|
                0 <= i < subpatterns@.len() ==> wf_pat(
                    (#[trigger] subpatterns@[i]).pattern,
                    tys,
                    adts,
                    ndefs,
                )
            &&& match tys[p.ty as int] {
                crate::types::Ty::Adt { adt, .. } => {
                    &&& adt < adts.len()
                    &&& !adts[adt as int].is_enum
                    &&& adts[adt as int].variants@.len() == 1
                    &&& forall|i: int|
                        0 <= i < subpatterns@.len() ==> (#[trigger] subpatterns@[i]).field
                            < adts[adt as int].variants@[0].fields@.len()
                },
                _ => true,
            }
        },
        PatKind::Deref { subpattern } => wf_pat(*subpattern, tys, adts, ndefs),
        PatKind::DerefPattern { subpattern, .. } => wf_pat(*subpattern, tys, adts, ndefs),
        PatKind::Constant { .. } => true,
        PatKind::ExpandedConstant { subpattern } => wf_pat(*subpattern, tys, adts, ndefs),
        PatKind::Range { .. } => true,
        PatKind::Slice { prefix, slice, suffix } => {
            &&& forall|i: int|
                0 <= i < prefix@.len() ==> wf_pat(#[trigger] prefix@[i], tys, adts, ndefs)
            &&& match slice {
                Some(sp) => wf_pat(*sp, tys, adts, ndefs),
                None => true,
            }
            &&& forall|i: int|
                0 <= i < suffix@.len() ==> wf_pat(#[trigger] suffix@[i], tys, adts, ndefs)
        },
        PatKind::Array { prefix, slice, suffix } => {
            &&& forall|i: int|
                0 <= i < prefix@.len() ==> wf_pat(#[trigger] prefix@[i], tys, adts, ndefs)
            &&& match slice {
                Some(sp) => wf_pat(*sp, tys, adts, ndefs),
                None => true,
            }
            &&& forall|i: int|
                0 <= i < suffix@.len() ==> wf_pat(#[trigger] suffix@[i], tys, adts, ndefs)
        },
        PatKind::Or { pats } => forall|i: int|
            0 <= i < pats@.len() ==> wf_pat(#[trigger] pats@[i], tys, adts, ndefs),
        PatKind::Never => true,
        PatKind::PatError => true,
    }
}

/// Well-formedness of one expression kind with respect to the arena sizes of
/// its own body and the unit's tables.  `self_body` is the index of the body
/// the node lives in: closures may only reference later bodies, which is how
/// the host lays out nested definitions.
pub open spec fn wf_expr_kind(
    k: ExprKind,
    ne: int,
    ns: int,
    nb: int,
    na: int,
    tys: Seq<crate::types::Ty>,
    adts: Seq<AdtDef>,
    ndefs: int,
    self_body: int,
    nbodies: int,
) -> bool {
    match k {
        ExprKind::Scope { value, .. } => value < ne,
        ExprKind::Boxed { value } => value < ne,
        ExprKind::If { cond, then, else_opt } => cond < ne && then < ne && wf_opt_expr(
            else_opt,
            ne,
        ),
        ExprKind::Call { fun, args } => fun < ne && forall|i: int|
            0 <= i < args@.len() ==> #[trigger] args@[i] < ne,
        ExprKind::ByUse { expr } => expr < ne,
        ExprKind::Deref { arg } => arg < ne,
        ExprKind::Binary { lhs, rhs, .. } => lhs < ne && rhs < ne,
        ExprKind::LogicalOp { lhs, rhs, .. } => lhs < ne && rhs < ne,
        ExprKind::Unary { arg, .. } => arg < ne,
        ExprKind::Cast { source } => source < ne,
        ExprKind::Use { source } => source < ne,
        ExprKind::NeverToAny { source } => source < ne,
        ExprKind::PointerCoercion { source } => source < ne,
        ExprKind::Loop { body } => body < ne,
        ExprKind::Let { expr, pat } => expr < ne && wf_pat(pat, tys, adts, ndefs),
        ExprKind::Match { scrutinee, arms } => scrutinee < ne && forall|i: int|
            0 <= i < arms@.len() ==> #[trigger] arms@[i] < na,
        ExprKind::Block { block } => block < nb,
        ExprKind::Assign { lhs, rhs } => lhs < ne && rhs < ne,
        ExprKind::AssignOp { lhs, rhs, .. } => lhs < ne && rhs < ne,
        ExprKind::Field { lhs, .. } => lhs < ne,
        ExprKind::Index { lhs, index } => lhs < ne && index < ne,
        ExprKind::VarRef { .. } => true,
        ExprKind::UpvarRef { .. } => true,
        ExprKind::Borrow { arg, .. } => arg < ne,
        ExprKind::RawBorrow { arg, .. } => arg < ne,
        ExprKind::Break { value } => wf_opt_expr(value, ne),
        ExprKind::Continue => true,
        ExprKind::Return { value } => wf_opt_expr(value, ne),
        ExprKind::Become { value } => value < ne,
        ExprKind::ConstBlock => true,
        ExprKind::Repeat { value, .. } => value < ne,
        ExprKind::Array { fields } => forall|i: int|
            0 <= i < fields@.len() ==> #[trigger] fields@[i] < ne,
        ExprKind::Tuple { fields } => forall|i: int|
            0 <= i < fields@.len() ==> #[trigger] fields@[i] < ne,
        ExprKind::Adt { data } => {
            &&& data.adt < adts.len()
            &&& data.variant_index < adts[data.adt as int].variants@.len()
            &&& forall|i: int|
                0 <= i < data.args@.len() ==> wf_generic_arg(
                    #[trigger] data.args@[i],
                    adts.len() as int,
                    ndefs,
                )
            &&& forall|i: int|
                0 <= i < data.fields@.len() ==> (#[trigger] data.fields@[i]).expr < ne
                    && data.fields@[i].name
                    < adts[data.adt as int].variants@[data.variant_index as int].fields@.len()
            &&& wf_opt_expr(data.base, ne)
        },
        ExprKind::PlaceTypeAscription { source } => source < ne,
        ExprKind::ValueTypeAscription { source } => source < ne,
        ExprKind::PlaceUnwrapUnsafeBinder { source } => source < ne,
        ExprKind::ValueUnwrapUnsafeBinder { source } => source < ne,
        ExprKind::WrapUnsafeBinder { source } => source < ne,
        ExprKind::Closure { closure_id } => self_body < closure_id < nbodies,
        ExprKind::Literal { .. } => true,
        ExprKind::NonHirLiteral { .. } => true,
        ExprKind::ZstLiteral => true,
        ExprKind::NamedConst { def, args } => def < ndefs && forall|i: int|
            0 <= i < args@.len() ==> wf_generic_arg(#[trigger] args@[i], adts.len() as int, ndefs),
        ExprKind::ConstParam { .. } => true,
        ExprKind::StaticRef { def } => def < ndefs,
        ExprKind::InlineAsm => true,
        ExprKind::ThreadLocalRef { def } => def < ndefs,
        ExprKind::Yield { value } => value < ne,
    }
}

pub open spec fn wf_stmt(
    s: Stmt,
    ne: int,
    nb: int,
    tys: Seq<crate::types::Ty>,
    adts: Seq<AdtDef>,
    ndefs: int,
) -> bool {
    match s.kind {
        StmtKind::Expr { expr } => expr < ne,
        StmtKind::Let { pattern, initializer, else_block, .. } => {
            &&& wf_pat(pattern, tys, adts, ndefs)
            &&& wf_opt_expr(initializer, ne)
            &&& match else_block {
                Some(b) => b < nb,
                None => true,
            }
        },
    }
}

pub open spec fn wf_block(b: Block, ne: int, ns: int) -> bool {
    &&& forall|i: int| 0 <= i < b.stmts@.len() ==> #[trigger] b.stmts@[i] < ns
    &&& wf_opt_expr(b.expr, ne)
}

pub open spec fn wf_arm(
    a: Arm,
    ne: int,
    tys: Seq<crate::types::Ty>,
    adts: Seq<AdtDef>,
    ndefs: int,
) -> bool {
    &&& wf_pat(a.pattern, tys, adts, ndefs)
    &&& wf_opt_expr(a.guard, ne)
    &&& a.body < ne
}

pub open spec fn wf_param(
    p: Param,
    tys: Seq<crate::types::Ty>,
    adts: Seq<AdtDef>,
    ndefs: int,
) -> bool {
    match p.pat {
        Some(pt) => wf_pat(pt, tys, adts, ndefs),
        None => true,
    }
}

/// Well-formedness of a whole body's arenas: every cross reference resolves
/// within the same arena generation, and every table reference resolves in
/// the unit.
pub open spec fn wf_thir(
    t: Thir,
    tys: Seq<crate::types::Ty>,
    adts: Seq<AdtDef>,
    ndefs: int,
    self_body: int,
    nbodies: int,
) -> bool {
    let ne = t.exprs@.len() as int;
    let ns = t.stmts@.len() as int;
    let nb = t.blocks@.len() as int;
    let na = t.arms@.len() as int;
    &&& forall|i: int|
        0 <= i < ne ==> wf_expr_kind(
            (#[trigger] t.exprs@[i]).kind,
            ne,
            ns,
            nb,
            na,
            tys,
            adts,
            ndefs,
            self_body,
            nbodies,
        ) && t.exprs@[i].ty < tys.len()
    &&& forall|i: int| 0 <= i < ns ==> wf_stmt(#[trigger] t.stmts@[i], ne, nb, tys, adts, ndefs)
    &&& forall|i: int| 0 <= i < nb ==> wf_block(#[trigger] t.blocks@[i], ne, ns)
    &&& forall|i: int| 0 <= i < na ==> wf_arm(#[trigger] t.arms@[i], ne, tys, adts, ndefs)
    &&& forall|i: int|
        0 <= i < t.params@.len() ==> wf_param(#[trigger] t.params@[i], tys, adts, ndefs)
}

} // verus!
