//! Desugaring-pass infrastructure over one typed-tree body.
//!
//! A pass snapshots the index range that existed when it started, walks only
//! those nodes, pushes any new nodes it needs, and redirects references by
//! overwriting a node's payload in place — never deleting, never mutating an
//! index out from under the iteration.  The one shipped pass makes the
//! implicit temporary of a borrowed call expression explicit.

use vstd::prelude::*;

use crate::thir::{
    BindingMode, BlockSafety, BorrowKind, ByRef, Expr, ExprId, ExprKind, LocalId, Pat, PatKind,
    ScopeId, Stmt, StmtKind, Thir,
};
use crate::types::Mutability;
use crate::util::spec_dec;
use crate::util::u128_to_dec;

verus! {

/// Lookup in an association list where the last write wins.
pub open spec fn spec_name_lookup(m: Seq<(LocalId, String)>, id: LocalId) -> Option<Seq<char>>
    decreases m.len(),
{
    if m.len() == 0 {
        None
    } else if m.last().0 == id {
        Some(m.last().1@)
    } else {
        spec_name_lookup(m.drop_last(), id)
    }
}

/// Scans an association list from the most recent entry backwards.
pub(crate) fn assoc_lookup(m: &Vec<(LocalId, String)>, id: LocalId) -> (r: Option<String>)
    ensures
        match r {
            Some(s) => spec_name_lookup(m@, id) == Some(s@),
            None => spec_name_lookup(m@, id) is None,
        },
{
    let mut i: usize = m.len();
    proof {
        assert(m@.take(m@.len() as int) =~= m@);
    }
    while i > 0
        invariant
            0 <= i <= m@.len(),
            spec_name_lookup(m@.take(i as int), id) == spec_name_lookup(m@, id),
        decreases i,
    {
        i -= 1;
        proof {
            assert(m@.take(i + 1).drop_last() =~= m@.take(i as int));
            assert(m@.take(i + 1).last() == m@[i as int]);
        }
        if m[i].0 == id {
            return Some(m[i].1.clone());
        }
    }
    proof {
        assert(m@.take(0).len() == 0);
    }
    None
}

/// One function or closure body handed over by the host compiler, together
/// with the naming state this library adds to it.
///
/// Identities minted by the host's name resolution lie below
/// `next_local_id`; the allocator hands out fresh identities from there on,
/// monotonically, never reusing one within a session.
pub struct Body {
    /// The host identity of the body's owning item.
    pub def_id: u32,
    pub thir: Thir,
    pub root_expr: ExprId,
    /// Display names for identities this library minted, consulted by the
    /// renderer before the host's own names.
    pub synthetic_local_names: Vec<(LocalId, String)>,
    /// The next fresh identity: seeded one past the host's highest node
    /// count at construction.
    pub next_local_id: LocalId,
    /// The names the host's resolver assigned to its own local bindings.
    pub host_names: Vec<(LocalId, String)>,
}

impl Body {
    /// Wraps a typed tree for desugaring and rendering.  `host_node_count`
    /// is the number of identity-carrying nodes the host allocated for this
    /// owner; fresh identities start right after it.
    pub fn new(
        def_id: u32,
        thir: Thir,
        root_expr: ExprId,
        host_node_count: u32,
        host_names: Vec<(LocalId, String)>,
    ) -> (r: Body)
        ensures
            r.def_id == def_id,
            r.thir == thir,
            r.root_expr == root_expr,
            r.synthetic_local_names@.len() == 0,
            r.next_local_id == host_node_count,
            r.host_names == host_names,
    {
        Body {
            def_id,
            thir,
            root_expr,
            synthetic_local_names: Vec::new(),
            next_local_id: host_node_count,
            host_names,
        }
    }

    /// The host identity of the owning item.
    pub fn owner(&self) -> (r: u32)
        ensures
            r == self.def_id,
    {
        self.def_id
    }

    /// The display name this library bound for `id`, if any.
    pub fn synthetic_local_name(&self, id: LocalId) -> (r: Option<String>)
        ensures
            match r {
                Some(s) => spec_name_lookup(self.synthetic_local_names@, id) == Some(s@),
                None => spec_name_lookup(self.synthetic_local_names@, id) is None,
            },
    {
        assoc_lookup(&self.synthetic_local_names, id)
    }

    /// Binds a display name for a synthetic identity; binding the same
    /// identity again overwrites, last write wins.
    pub fn insert_synthetic_local_name(&mut self, id: LocalId, name: String)
        ensures
            final(self).synthetic_local_names@ == old(self).synthetic_local_names@.push(
                (id, name),
            ),
            final(self).def_id == old(self).def_id,
            final(self).thir == old(self).thir,
            final(self).root_expr == old(self).root_expr,
            final(self).next_local_id == old(self).next_local_id,
            final(self).host_names == old(self).host_names,
    {
        self.synthetic_local_names.push((id, name));
    }

    /// The name the host's resolver gave to `id`, if any.
    pub fn host_local_name(&self, id: LocalId) -> (r: Option<String>)
        ensures
            match r {
                Some(s) => spec_name_lookup(self.host_names@, id) == Some(s@),
                None => spec_name_lookup(self.host_names@, id) is None,
            },
    {
        assoc_lookup(&self.host_names, id)
    }

    /// Mints a fresh identity, one past the last known maximum.
    fn new_hir_id(&mut self) -> (r: LocalId)
        requires
            old(self).next_local_id < u32::MAX,
        ensures
            r == old(self).next_local_id,
            final(self).next_local_id == old(self).next_local_id + 1,
            final(self).def_id == old(self).def_id,
            final(self).thir == old(self).thir,
            final(self).root_expr == old(self).root_expr,
            final(self).synthetic_local_names == old(self).synthetic_local_names,
            final(self).host_names == old(self).host_names,
    {
        let local_id = self.next_local_id;
        self.next_local_id = self.next_local_id + 1;
        local_id
    }
}

/// The single wrapper-unwrapping step of the value peeler: scope markers,
/// use- and never-coercions, type ascriptions and binder wrappers are
/// transparent.
pub open spec fn spec_peel_step(k: ExprKind) -> Option<ExprId> {
    match k {
        ExprKind::Scope { value, .. } => Some(value),
        ExprKind::Use { source } => Some(source),
        ExprKind::NeverToAny { source } => Some(source),
        ExprKind::PlaceTypeAscription { source } => Some(source),
        ExprKind::ValueTypeAscription { source } => Some(source),
        ExprKind::PlaceUnwrapUnsafeBinder { source } => Some(source),
        ExprKind::ValueUnwrapUnsafeBinder { source } => Some(source),
        ExprKind::WrapUnsafeBinder { source } => Some(source),
        _ => None,
    }
}

/// Where the peeler ends up from `id` within `fuel` steps.
pub open spec fn spec_peel(exprs: Seq<Expr>, id: int, fuel: nat) -> int
    decreases fuel,
{
    if fuel == 0 {
        id
    } else if 0 <= id < exprs.len() {
        match spec_peel_step(exprs[id].kind) {
            Some(nxt) => spec_peel(exprs, nxt as int, (fuel - 1) as nat),
            None => id,
        }
    } else {
        id
    }
}

pub open spec fn spec_is_call(exprs: Seq<Expr>, id: int) -> bool {
    &&& 0 <= id < exprs.len()
    &&& exprs[id].kind matches ExprKind::Call { .. }
}

/// Whether the operand, once peeled, is a call expression.
pub open spec fn spec_should_temp(exprs: Seq<Expr>, arg: int, fuel: nat) -> bool {
    spec_is_call(exprs, spec_peel(exprs, arg, fuel))
}

/// Whether the pass transforms node `i`: a borrow whose operand peels to a
/// call.
pub open spec fn spec_temp_cond(exprs: Seq<Expr>, i: int, fuel: nat) -> bool {
    &&& 0 <= i < exprs.len()
    &&& match exprs[i].kind {
        ExprKind::Borrow { arg, .. } => arg < exprs.len() && spec_should_temp(
            exprs,
            arg as int,
            fuel,
        ),
        _ => false,
    }
}

/// The display name bound to a synthetic temporary.
pub open spec fn spec_tmp_name(h: LocalId) -> Seq<char> {
    "tmp"@ + spec_dec(h as nat)
}

/// How one temporary-introduction step rewrites the body: everything the
/// step appends, the overwrite of the original borrow node, and everything
/// it leaves untouched.
pub open spec fn temp_step_rel(o: Body, n: Body, i: int) -> bool {
    let oe = o.thir.exprs@;
    let ne = n.thir.exprs@;
    let h = o.next_local_id;
    &&& 0 <= i < oe.len()
    &&& match oe[i].kind {
        ExprKind::Borrow { borrow_kind, arg } => {
            let var_id = oe.len() as int;
            let borrow_id = oe.len() as int + 1;
            let stmt_id = o.thir.stmts@.len() as int;
            let block_id = o.thir.blocks@.len() as int;
            &&& arg < oe.len()
            // arena sizes
            &&& ne.len() == oe.len() + 2
            &&& n.thir.stmts@.len() == o.thir.stmts@.len() + 1
            &&& n.thir.blocks@.len() == o.thir.blocks@.len() + 1
            &&& n.thir.arms == o.thir.arms
            &&& n.thir.params == o.thir.params
            // untouched nodes keep their payload
            &&& forall|j: int| 0 <= j < oe.len() && j != i ==> ne[j] == oe[j]
            &&& forall|j: int| 0 <= j < o.thir.stmts@.len() ==> n.thir.stmts@[j] == o.thir.stmts@[j]
            &&& forall|j: int|
                0 <= j < o.thir.blocks@.len() ==> n.thir.blocks@[j] == o.thir.blocks@[j]
            // the synthetic variable reference carries the operand's type
            &&& ne[var_id].kind == (ExprKind::VarRef { id: h })
            &&& ne[var_id].ty == oe[arg as int].ty
            &&& ne[var_id].span == oe[arg as int].span
            // the new borrow has the same borrow kind and the original type
            &&& ne[borrow_id].kind == (ExprKind::Borrow { borrow_kind, arg: oe.len() as ExprId })
            &&& ne[borrow_id].ty == oe[i].ty
            &&& ne[borrow_id].span == oe[i].span
            // the let statement binds the fresh identity to the original call
            &&& match n.thir.stmts@.last().kind {
                StmtKind::Let {
                    remainder_scope,
                    init_scope,
                    pattern,
                    initializer,
                    else_block,
                    span,
                } => {
                    &&& remainder_scope == h + 1
                    &&& init_scope == h + 2
                    &&& initializer == Some(arg)
                    &&& else_block is None
                    &&& span == oe[arg as int].span
                    &&& pattern.ty == oe[arg as int].ty
                    &&& pattern.span == oe[arg as int].span
                    &&& match pattern.kind {
                        PatKind::Binding { name, mode, var, ty, subpattern, is_primary } => {
                            &&& name@ == spec_tmp_name(h)
                            &&& mode == (BindingMode {
                                by_ref: ByRef::No,
                                mutability: Mutability::Not,
                            })
                            &&& var == h
                            &&& ty == oe[arg as int].ty
                            &&& subpattern is None
                            &&& is_primary
                        },
                        _ => false,
                    }
                },
                _ => false,
            }
            // the block wraps exactly that statement and the new borrow
            &&& {
                let b = n.thir.blocks@.last();
                &&& !b.targeted_by_break
                &&& b.region_scope == h + 3
                &&& b.span == oe[i].span
                &&& b.stmts@ == seq![stmt_id as crate::thir::StmtId]
                &&& b.expr == Some(borrow_id as ExprId)
                &&& b.safety_mode == BlockSafety::Safe
            }
            // the original node keeps its identity, type and span but now
            // evaluates the block
            &&& ne[i].kind == (ExprKind::Block { block: block_id as crate::thir::BlockId })
            &&& ne[i].ty == oe[i].ty
            &&& ne[i].span == oe[i].span
            // naming state
            &&& n.synthetic_local_names@.len() == o.synthetic_local_names@.len() + 1
            &&& forall|j: int|
                0 <= j < o.synthetic_local_names@.len() ==> n.synthetic_local_names@[j]
                    == o.synthetic_local_names@[j]
            &&& n.synthetic_local_names@.last().0 == h
            &&& n.synthetic_local_names@.last().1@ == spec_tmp_name(h)
            &&& n.next_local_id == h + 4
            &&& n.def_id == o.def_id
            &&& n.root_expr == o.root_expr
            &&& n.host_names == o.host_names
        },
        _ => false,
    }
}

/// What one snapshot index does to the tree: a borrow of a call is
/// rewritten, anything else leaves the body untouched.  The peeling fuel is
/// the snapshot length: the pass never looks further than the nodes that
/// existed when it started.
pub open spec fn step_or_skip(m: Body, n: Body, k: int, fuel: nat) -> bool {
    if spec_temp_cond(m.thir.exprs@, k, fuel) {
        temp_step_rel(m, n, k)
    } else {
        n == m
    }
}

/// `tr` is the complete evolution of the pass from `o` to `n`: one
/// intermediate state per snapshot index, each obtained from the previous
/// one by `step_or_skip`.
pub open spec fn is_pass_trace(o: Body, n: Body, tr: Seq<Body>) -> bool {
    let ol = o.thir.exprs@.len() as int;
    &&& tr.len() == ol + 1
    &&& tr[0] == o
    &&& tr[ol] == n
    &&& forall|k: int|
        0 <= k < ol ==> #[trigger] step_or_skip(tr[k], tr[k + 1], k, o.thir.exprs@.len() as nat)
}

/// No borrow in the body still has a call operand: a run of the pass over
/// the current index range would transform nothing.
pub open spec fn spec_no_pending(b: Body) -> bool {
    forall|i: int|
        0 <= i < b.thir.exprs@.len() ==> !spec_temp_cond(
            b.thir.exprs@,
            i,
            b.thir.exprs@.len() as nat,
        )
}

/// Wrapper nodes only point at earlier nodes.  The host builds bodies
/// bottom-up, so its trees satisfy this; the pass preserves it because it
/// never creates or retargets a wrapper node.
pub open spec fn wrappers_decreasing(exprs: Seq<Expr>) -> bool {
    forall|j: int|
        0 <= j < exprs.len() ==> match spec_peel_step(#[trigger] exprs[j].kind) {
            Some(nxt) => nxt < j,
            None => true,
        }
}

/// The temporary-introduction pass: for every borrow of a call expression
/// in the snapshot range, binds the call's value to a fresh local and
/// borrows that local instead, redirecting the original node in place.
pub struct ValueToPlaceDesugarer {
    pub body: Body,
}

impl ValueToPlaceDesugarer {
    pub fn new(body: Body) -> (r: Self)
        ensures
            r.body == body,
    {
        ValueToPlaceDesugarer { body }
    }

    /// Peels transparent wrappers from `id`, walking at most `fuel` links.
    fn peel_value_expr(&self, id: ExprId, fuel: usize) -> (r: ExprId)
        ensures
            r == spec_peel(self.body.thir.exprs@, id as int, fuel as nat),
        decreases fuel,
    {
        if fuel == 0 {
            return id;
        }
        if id >= self.body.thir.exprs.len() {
            return id;
        }
        let step: Option<ExprId> = match &self.body.thir.exprs[id].kind {
            ExprKind::Scope { value, .. } => Some(*value),
            ExprKind::Use { source } => Some(*source),
            ExprKind::NeverToAny { source } => Some(*source),
            ExprKind::PlaceTypeAscription { source } => Some(*source),
            ExprKind::ValueTypeAscription { source } => Some(*source),
            ExprKind::PlaceUnwrapUnsafeBinder { source } => Some(*source),
            ExprKind::ValueUnwrapUnsafeBinder { source } => Some(*source),
            ExprKind::WrapUnsafeBinder { source } => Some(*source),
            _ => None,
        };
        match step {
            Some(nxt) => self.peel_value_expr(nxt, fuel - 1),
            None => id,
        }
    }

    /// Whether the operand at `arg`, once peeled, is a call expression.
    fn should_temp(&self, arg: ExprId, fuel: usize) -> (r: bool)
        ensures
            r == spec_should_temp(self.body.thir.exprs@, arg as int, fuel as nat),
    {
        let peeled = self.peel_value_expr(arg, fuel);
        if peeled < self.body.thir.exprs.len() {
            match &self.body.thir.exprs[peeled].kind {
                ExprKind::Call { .. } => true,
                _ => false,
            }
        } else {
            false
        }
    }

    /// Rewrites the borrow node at `expr_id` so that it evaluates a block
    /// binding the call's value to a fresh temporary and borrowing it.
    fn introduce_temp(&mut self, expr_id: ExprId, borrow_kind: BorrowKind, arg: ExprId)
        requires
            expr_id < old(self).body.thir.exprs@.len(),
            arg < old(self).body.thir.exprs@.len(),
            old(self).body.thir.exprs@[expr_id as int].kind == (ExprKind::Borrow {
                borrow_kind,
                arg,
            }),
            old(self).body.next_local_id + 4 <= u32::MAX,
        ensures
            temp_step_rel(old(self).body, final(self).body, expr_id as int),
    {
        let hir_id = self.body.new_hir_id();
        let mut tmp_name = String::new();
        tmp_name.append("tmp");
        let digits = u128_to_dec(hir_id as u128);
        tmp_name.append(digits.as_str());
        proof {
            assert(Seq::<char>::empty() + "tmp"@ =~= "tmp"@);
            assert(tmp_name@ == spec_tmp_name(hir_id));
        }
        self.body.insert_synthetic_local_name(hir_id, tmp_name.clone());

        let arg_ty = self.body.thir.exprs[arg].ty;
        let arg_span = self.body.thir.exprs[arg].span;
        let orig_ty = self.body.thir.exprs[expr_id].ty;
        let orig_span = self.body.thir.exprs[expr_id].span;

        let var_expr_id = self.body.thir.push_expr(
            Expr { kind: ExprKind::VarRef { id: hir_id }, ty: arg_ty, span: arg_span },
        );

        let borrow_expr_id = self.body.thir.push_expr(
            Expr {
                kind: ExprKind::Borrow { borrow_kind, arg: var_expr_id },
                ty: orig_ty,
                span: orig_span,
            },
        );

        let remainder_scope: ScopeId = self.body.new_hir_id();
        let init_scope: ScopeId = self.body.new_hir_id();
        let pat = Pat {
            ty: arg_ty,
            span: arg_span,
            kind: PatKind::Binding {
                name: tmp_name,
                mode: BindingMode { by_ref: ByRef::No, mutability: Mutability::Not },
                var: hir_id,
                ty: arg_ty,
                subpattern: None,
                is_primary: true,
            },
        };
        let stmt_id = self.body.thir.push_stmt(
            Stmt {
                kind: StmtKind::Let {
                    remainder_scope,
                    init_scope,
                    pattern: pat,
                    initializer: Some(arg),
                    else_block: None,
                    span: arg_span,
                },
            },
        );

        let region_scope: ScopeId = self.body.new_hir_id();
        let mut block_stmts: Vec<crate::thir::StmtId> = Vec::new();
        block_stmts.push(stmt_id);
        proof {
            assert(block_stmts@ =~= seq![stmt_id]);
        }
        let block_id = self.body.thir.push_block(
            crate::thir::Block {
                targeted_by_break: false,
                region_scope,
                span: orig_span,
                stmts: block_stmts,
                expr: Some(borrow_expr_id),
                safety_mode: BlockSafety::Safe,
            },
        );
        self.body.thir.set_expr_kind(expr_id, ExprKind::Block { block: block_id });
    }

    /// Runs the pass over the snapshot of node indices that existed at
    /// entry; nodes created by the pass itself are already in desugared
    /// form and are not revisited.  Returns the ghost evolution of the
    /// body, one state per snapshot index.
    ///
    /// Running the pass again on the result transforms nothing: on a body
    /// with nothing pending the loop leaves every arena untouched, and on a
    /// host-shaped body (wrappers pointing at earlier nodes) the result has
    /// nothing pending.
    pub fn run(&mut self) -> (trace: Ghost<Seq<Body>>)
        requires
            old(self).body.next_local_id + 4 * old(self).body.thir.exprs@.len() <= u32::MAX,
        ensures
            is_pass_trace(old(self).body, final(self).body, trace@),
            spec_no_pending(old(self).body) ==> final(self).body == old(self).body,
            wrappers_decreasing(old(self).body.thir.exprs@) ==> spec_no_pending(final(self).body)
                && wrappers_decreasing(final(self).body.thir.exprs@),
    {
        let snapshot_len = self.body.thir.exprs.len();
        let ghost o = self.body;
        let ghost mut tr: Seq<Body> = seq![o];
        let mut i: usize = 0;
        while i < snapshot_len
            invariant
                0 <= i <= snapshot_len,
                snapshot_len == o.thir.exprs@.len(),
                o.thir.exprs@.len() <= self.body.thir.exprs@.len(),
                self.body.next_local_id <= o.next_local_id + 4 * i,
                o.next_local_id + 4 * o.thir.exprs@.len() <= u32::MAX,
                tr.len() == i + 1,
                tr[0] == o,
                tr[i as int] == self.body,
                forall|k: int|
                    0 <= k < i ==> #[trigger] step_or_skip(
                        tr[k],
                        tr[k + 1],
                        k,
                        o.thir.exprs@.len() as nat,
                    ),
                spec_no_pending(o) ==> self.body == o,
                wrappers_decreasing(o.thir.exprs@) ==> wrappers_decreasing(self.body.thir.exprs@)
                    && clean_below(self.body, o.thir.exprs@.len(), i as int),
            decreases snapshot_len - i,
        {
            let ghost pre = self.body;
            let cond: Option<(BorrowKind, ExprId)> = match &self.body.thir.exprs[i].kind {
                ExprKind::Borrow { borrow_kind, arg } => Some((*borrow_kind, *arg)),
                _ => None,
            };
            match cond {
                Some((borrow_kind, arg)) => {
                    if arg < self.body.thir.exprs.len() && self.should_temp(arg, snapshot_len) {
                        self.introduce_temp(i, borrow_kind, arg);
                        proof {
                            lemma_step_keeps_verdicts(pre, self.body, i as int);
                            if wrappers_decreasing(o.thir.exprs@) {
                                lemma_step_clean(pre, self.body, i as int, o.thir.exprs@.len());
                            }
                            if spec_no_pending(o) {
                                assert(spec_temp_cond(
                                    o.thir.exprs@,
                                    i as int,
                                    o.thir.exprs@.len() as nat,
                                ));
                                assert(false);
                            }
                        }
                    } else {
                        proof {
                            if wrappers_decreasing(o.thir.exprs@) {
                                lemma_skip_clean(pre, i as int, o.thir.exprs@.len());
                            }
                        }
                    }
                },
                None => {},
            }
            proof {
                assert(step_or_skip(pre, self.body, i as int, o.thir.exprs@.len() as nat));
                tr = tr.push(self.body);
                assert(tr[i + 1] == self.body);
                assert forall|k: int|
                    0 <= k < i + 1 implies #[trigger] step_or_skip(
                    tr[k],
                    tr[k + 1],
                    k,
                    o.thir.exprs@.len() as nat,
                ) by {
                    if k < i {
                        assert(step_or_skip(
                            tr.drop_last()[k],
                            tr.drop_last()[k + 1],
                            k,
                            o.thir.exprs@.len() as nat,
                        ));
                        assert(tr.drop_last()[k] == tr[k]);
                        assert(tr.drop_last()[k + 1] == tr[k + 1]);
                    } else {
                        assert(tr[k] == pre);
                    }
                }
            }
            i += 1;
        }
        proof {
            if wrappers_decreasing(o.thir.exprs@) {
                lemma_clean_means_no_pending(o, self.body);
            }
        }
        Ghost(tr)
    }
}

/// Law: round-trip type preservation.  The type recorded on each newly
/// synthesized node equals the type of the node it replaces or wraps: the
/// synthetic variable reference and the let pattern carry the operand's
/// exact type, the new borrow carries the original borrow's type, and the
/// rewritten node keeps its own.
pub proof fn lemma_temp_preserves_types(m: Body, n: Body, i: int)
    requires
        temp_step_rel(m, n, i),
    ensures
        match m.thir.exprs@[i].kind {
            ExprKind::Borrow { arg, .. } => {
                &&& n.thir.exprs@[m.thir.exprs@.len() as int].ty == m.thir.exprs@[arg as int].ty
                &&& n.thir.exprs@[m.thir.exprs@.len() as int + 1].ty == m.thir.exprs@[i].ty
                &&& n.thir.exprs@[i].ty == m.thir.exprs@[i].ty
                &&& match n.thir.stmts@.last().kind {
                    StmtKind::Let { pattern, .. } => pattern.ty == m.thir.exprs@[arg as int].ty,
                    _ => false,
                }
            },
            _ => false,
        },
{
}

/// Law: identity stability.  The rewritten node keeps its index, type and
/// span — only its kind changes, from a borrow to a block — so every
/// reference into the arena still resolves to the same entry, and every
/// other pre-existing entry is untouched.
pub proof fn lemma_identity_stable(m: Body, n: Body, i: int)
    requires
        temp_step_rel(m, n, i),
    ensures
        m.thir.exprs@.len() <= n.thir.exprs@.len(),
        m.thir.exprs@[i].kind matches ExprKind::Borrow { .. },
        n.thir.exprs@[i].kind matches ExprKind::Block { .. },
        n.thir.exprs@[i].ty == m.thir.exprs@[i].ty,
        n.thir.exprs@[i].span == m.thir.exprs@[i].span,
        forall|j: int| 0 <= j < m.thir.exprs@.len() && j != i ==> n.thir.exprs@[j]
            == m.thir.exprs@[j],
{
}

/// Law: scope nesting.  The let binding's initialization and remainder
/// scopes are two distinct freshly allocated identities, the synthesized
/// block's scope is a third one, distinct from both and allocated after
/// them, and the block's span equals the span of the expression whose
/// evaluation it wraps.
pub proof fn lemma_scope_identities(m: Body, n: Body, i: int)
    requires
        temp_step_rel(m, n, i),
    ensures
        match n.thir.stmts@.last().kind {
            StmtKind::Let { remainder_scope, init_scope, .. } => {
                &&& remainder_scope != init_scope
                &&& remainder_scope >= m.next_local_id
                &&& init_scope >= m.next_local_id
                &&& n.thir.blocks@.last().region_scope != remainder_scope
                &&& n.thir.blocks@.last().region_scope != init_scope
                &&& n.thir.blocks@.last().region_scope > remainder_scope
                &&& n.thir.blocks@.last().region_scope > init_scope
                &&& n.thir.blocks@.last().span == m.thir.exprs@[i].span
            },
            _ => false,
        },
{
}

/// Which desugaring passes run on a body.  The temporary-introduction pass
/// ships as a demonstration and stays off unless asked for; whether to run
/// it is an explicit configuration decision, never inferred.
pub struct PassConfig {
    pub value_to_place: bool,
}

impl Default for PassConfig {
    fn default() -> (r: Self)
        ensures
            !r.value_to_place,
    {
        PassConfig { value_to_place: false }
    }
}

/// Applies the configured desugaring passes to one body.
pub fn desugar_thir(body: Body, config: &PassConfig) -> (r: Body)
    requires
        body.next_local_id + 4 * body.thir.exprs@.len() <= u32::MAX,
    ensures
        !config.value_to_place ==> r == body,
        config.value_to_place ==> exists|tr: Seq<Body>| is_pass_trace(body, r, tr),
        config.value_to_place && spec_no_pending(body) ==> r == body,
        config.value_to_place && wrappers_decreasing(body.thir.exprs@) ==> spec_no_pending(r)
            && wrappers_decreasing(r.thir.exprs@),
{
    if config.value_to_place {
        let ghost o = body;
        let mut desugarer = ValueToPlaceDesugarer::new(body);
        let trace = desugarer.run();
        proof {
            assert(is_pass_trace(o, desugarer.body, trace@));
        }
        desugarer.body
    } else {
        body
    }
}


/// Law: the pass keeps the body's arenas well formed.  Every index a new
/// node carries resolves inside the grown arenas, the rewritten node's new
/// payload resolves, and every untouched node still resolves because the
/// arenas only grew.
pub proof fn lemma_step_preserves_wf(
    m: Body,
    n: Body,
    i: int,
    tys: Seq<crate::types::Ty>,
    adts: Seq<crate::defs::AdtDef>,
    ndefs: int,
    self_body: int,
    nbodies: int,
)
    requires
        temp_step_rel(m, n, i),
        crate::thir::wf_thir(m.thir, tys, adts, ndefs, self_body, nbodies),
    ensures
        crate::thir::wf_thir(n.thir, tys, adts, ndefs, self_body, nbodies),
{
    let me = m.thir.exprs@;
    let ne = n.thir.exprs@;
    let new_ne = ne.len() as int;
    let new_ns = n.thir.stmts@.len() as int;
    let new_nb = n.thir.blocks@.len() as int;
    let new_na = n.thir.arms@.len() as int;
    assert forall|j: int| 0 <= j < new_ne implies crate::thir::wf_expr_kind(
        (#[trigger] ne[j]).kind,
        new_ne,
        new_ns,
        new_nb,
        new_na,
        tys,
        adts,
        ndefs,
        self_body,
        nbodies,
    ) && ne[j].ty < tys.len() by {
        if j < me.len() && j != i {
            assert(ne[j] == me[j]);
            assert(crate::thir::wf_expr_kind(
                me[j].kind,
                me.len() as int,
                m.thir.stmts@.len() as int,
                m.thir.blocks@.len() as int,
                m.thir.arms@.len() as int,
                tys,
                adts,
                ndefs,
                self_body,
                nbodies,
            ));
        } else if j == i {
            assert(ne[j].kind matches ExprKind::Block { .. });
        } else {
            assert(j == me.len() || j == me.len() + 1);
        }
    }
    assert forall|j: int| 0 <= j < new_ns implies crate::thir::wf_stmt(
        #[trigger] n.thir.stmts@[j],
        new_ne,
        new_nb,
        tys,
        adts,
        ndefs,
    ) by {
        if j < m.thir.stmts@.len() {
            assert(n.thir.stmts@[j] == m.thir.stmts@[j]);
            assert(crate::thir::wf_stmt(
                m.thir.stmts@[j],
                me.len() as int,
                m.thir.blocks@.len() as int,
                tys,
                adts,
                ndefs,
            ));
        } else {
            assert(n.thir.stmts@[j] == n.thir.stmts@.last());
        }
    }
    assert forall|j: int| 0 <= j < new_nb implies crate::thir::wf_block(
        #[trigger] n.thir.blocks@[j],
        new_ne,
        new_ns,
    ) by {
        if j < m.thir.blocks@.len() {
            assert(n.thir.blocks@[j] == m.thir.blocks@[j]);
            assert(crate::thir::wf_block(
                m.thir.blocks@[j],
                me.len() as int,
                m.thir.stmts@.len() as int,
            ));
        } else {
            assert(n.thir.blocks@[j] == n.thir.blocks@.last());
            assert(n.thir.blocks@.last().stmts@ == seq![(new_ns - 1) as crate::thir::StmtId]);
        }
    }
    assert forall|j: int| 0 <= j < new_na implies crate::thir::wf_arm(
        #[trigger] n.thir.arms@[j],
        new_ne,
        tys,
        adts,
        ndefs,
    ) by {
        assert(n.thir.arms@[j] == m.thir.arms@[j]);
        assert(crate::thir::wf_arm(m.thir.arms@[j], me.len() as int, tys, adts, ndefs));
    }
    assert forall|j: int| 0 <= j < n.thir.params@.len() implies crate::thir::wf_param(
        #[trigger] n.thir.params@[j],
        tys,
        adts,
        ndefs,
    ) by {
        assert(n.thir.params@[j] == m.thir.params@[j]);
    }
}


/// Law: a whole run of the pass keeps the body's arenas well formed, state
/// by state along its evolution.
pub proof fn lemma_run_preserves_wf(
    o: Body,
    n: Body,
    tr: Seq<Body>,
    tys: Seq<crate::types::Ty>,
    adts: Seq<crate::defs::AdtDef>,
    ndefs: int,
    self_body: int,
    nbodies: int,
)
    requires
        is_pass_trace(o, n, tr),
        crate::thir::wf_thir(o.thir, tys, adts, ndefs, self_body, nbodies),
    ensures
        crate::thir::wf_thir(n.thir, tys, adts, ndefs, self_body, nbodies),
{
    lemma_trace_wf_upto(o, n, tr, o.thir.exprs@.len() as int, tys, adts, ndefs, self_body, nbodies);
}

proof fn lemma_trace_wf_upto(
    o: Body,
    n: Body,
    tr: Seq<Body>,
    k: int,
    tys: Seq<crate::types::Ty>,
    adts: Seq<crate::defs::AdtDef>,
    ndefs: int,
    self_body: int,
    nbodies: int,
)
    requires
        is_pass_trace(o, n, tr),
        crate::thir::wf_thir(o.thir, tys, adts, ndefs, self_body, nbodies),
        0 <= k <= o.thir.exprs@.len(),
    ensures
        crate::thir::wf_thir(tr[k].thir, tys, adts, ndefs, self_body, nbodies),
    decreases k,
{
    if k == 0 {
    } else {
        let j = k - 1;
        lemma_trace_wf_upto(o, n, tr, j, tys, adts, ndefs, self_body, nbodies);
        assert(step_or_skip(tr[j], tr[j + 1], j, o.thir.exprs@.len() as nat));
        if spec_temp_cond(tr[j].thir.exprs@, j, o.thir.exprs@.len() as nat) {
            lemma_step_preserves_wf(tr[j], tr[j + 1], j, tys, adts, ndefs, self_body, nbodies);
        }
        assert(tr[k] == tr[j + 1]);
    }
}

/// Every already-processed snapshot index fails the transformation
/// condition in the current state, and every appended node is neither a
/// wrapper nor a call, and if it borrows, it borrows an appended
/// non-wrapper, non-call node.
pub open spec fn clean_below(b: Body, snapshot: nat, i: int) -> bool {
    &&& forall|j: int| 0 <= j < i ==> !#[trigger] spec_temp_cond(b.thir.exprs@, j, snapshot)
    &&& forall|j: int|
        snapshot <= j < b.thir.exprs@.len() ==> spec_peel_step(
            (#[trigger] b.thir.exprs@[j]).kind,
        ) is None && !spec_is_call(b.thir.exprs@, j) && !spec_temp_cond(
            b.thir.exprs@,
            j,
            snapshot,
        )
}

/// After one temporary-introduction step, peeling ends at the same node,
/// and the transformation verdict of every node is unchanged.
proof fn lemma_peel_same(m: Body, n: Body, i: int, id: int, fuel: nat)
    requires
        temp_step_rel(m, n, i),
    ensures
        spec_peel(n.thir.exprs@, id, fuel) == spec_peel(m.thir.exprs@, id, fuel),
    decreases fuel,
{
    let me = m.thir.exprs@;
    let ne = n.thir.exprs@;
    if fuel == 0 {
    } else if 0 <= id < me.len() {
        if id == i {
            assert(me[id].kind matches ExprKind::Borrow { .. });
            assert(spec_peel_step(me[id].kind) is None);
            assert(ne[id].kind matches ExprKind::Block { .. });
            assert(spec_peel_step(ne[id].kind) is None);
        } else {
            assert(ne[id] == me[id]);
            match spec_peel_step(me[id].kind) {
                Some(nxt) => {
                    lemma_peel_same(m, n, i, nxt as int, (fuel - 1) as nat);
                },
                None => {},
            }
        }
    } else if 0 <= id < ne.len() {
        // an appended node: a variable reference or a borrow, neither of
        // which is a wrapper
        assert(id == me.len() || id == me.len() + 1);
        assert(spec_peel_step(ne[id].kind) is None);
    } else {
    }
}

proof fn lemma_step_keeps_verdicts(m: Body, n: Body, i: int)
    requires
        temp_step_rel(m, n, i),
    ensures
        forall|id: int, fuel: nat|
            spec_should_temp(n.thir.exprs@, id, fuel) == spec_should_temp(
                m.thir.exprs@,
                id,
                fuel,
            ),
{
    let me = m.thir.exprs@;
    let ne = n.thir.exprs@;
    assert forall|id: int, fuel: nat|
        spec_should_temp(ne, id, fuel) == spec_should_temp(me, id, fuel) by {
        lemma_peel_same(m, n, i, id, fuel);
        let e = spec_peel(me, id, fuel);
        if 0 <= e < me.len() {
            if e == i {
                assert(!spec_is_call(me, e));
                assert(!spec_is_call(ne, e));
            } else {
                assert(ne[e] == me[e]);
            }
        } else if 0 <= e < ne.len() {
            assert(e == me.len() || e == me.len() + 1);
            assert(!spec_is_call(ne, e));
        }
    }
}

/// A step keeps the already-clean region clean, cleans the node it
/// rewrites, and appends only clean nodes.
proof fn lemma_step_clean(m: Body, n: Body, i: int, snapshot: nat)
    requires
        temp_step_rel(m, n, i),
        clean_below(m, snapshot, i),
        i < snapshot,
        snapshot <= m.thir.exprs@.len(),
        wrappers_decreasing(m.thir.exprs@),
    ensures
        clean_below(n, snapshot, i + 1),
        wrappers_decreasing(n.thir.exprs@),
{
    let me = m.thir.exprs@;
    let ne = n.thir.exprs@;
    vstd::std_specs::vec::axiom_spec_len(&m.thir.exprs);
    vstd::std_specs::vec::axiom_spec_len(&n.thir.exprs);
    lemma_step_keeps_verdicts(m, n, i);
    assert forall|j: int| 0 <= j < ne.len() implies match spec_peel_step(
        #[trigger] ne[j].kind,
    ) {
        Some(nxt) => nxt < j,
        None => true,
    } by {
        if j < me.len() {
            if j == i {
                assert(spec_peel_step(ne[j].kind) is None);
            } else {
                assert(ne[j] == me[j]);
            }
        } else {
            assert(spec_peel_step(ne[j].kind) is None);
        }
    }
    assert forall|j: int| 0 <= j < i + 1 implies !#[trigger] spec_temp_cond(
        ne,
        j,
        snapshot,
    ) by {
        if j < i {
            lemma_cond_stays_clean(m, n, i, j, snapshot);
        } else {
            // the rewritten node is a block now
            assert(ne[j].kind matches ExprKind::Block { .. });
        }
    }
    assert forall|j: int| snapshot <= j < ne.len() implies spec_peel_step(ne[j].kind) is None
        && !spec_is_call(ne, j) && !spec_temp_cond(ne, j, snapshot) by {
        if j < me.len() {
            assert(ne[j] == me[j]);
            lemma_cond_stays_clean(m, n, i, j, snapshot);
        } else if j == me.len() {
            assert(ne[j].kind matches ExprKind::VarRef { .. });
            assert(!spec_temp_cond(ne, j, snapshot));
        } else {
            // the appended borrow's operand is the appended variable
            // reference, which is not a call
            assert(ne[j].kind matches ExprKind::Borrow { .. });
            match ne[j].kind {
                ExprKind::Borrow { arg, .. } => {
                    assert(arg == me.len());
                    assert(spec_peel_step(ne[arg as int].kind) is None);
                    assert(spec_peel(ne, arg as int, snapshot) == arg as int);
                    assert(!spec_is_call(ne, arg as int));
                },
                _ => {},
            }
        }
    }
}

/// A node that failed the transformation condition before a step at another
/// index still fails it afterwards.
proof fn lemma_cond_stays_clean(m: Body, n: Body, i: int, j: int, fuel: nat)
    requires
        temp_step_rel(m, n, i),
        !spec_temp_cond(m.thir.exprs@, j, fuel),
    ensures
        !spec_temp_cond(n.thir.exprs@, j, fuel),
{
    let me = m.thir.exprs@;
    let ne = n.thir.exprs@;
    vstd::std_specs::vec::axiom_spec_len(&m.thir.exprs);
    vstd::std_specs::vec::axiom_spec_len(&n.thir.exprs);
    lemma_step_keeps_verdicts(m, n, i);
    if j == i {
        assert(ne[j].kind matches ExprKind::Block { .. });
    } else if 0 <= j < me.len() {
        assert(ne[j] == me[j]);
        match me[j].kind {
            ExprKind::Borrow { arg, .. } => {
                if arg < me.len() {
                    assert(spec_should_temp(ne, arg as int, fuel) == spec_should_temp(
                        me,
                        arg as int,
                        fuel,
                    ));
                } else if (arg as int) < ne.len() {
                    // the operand index was dangling and now lands on an
                    // appended node, which is not a wrapper and not a call
                    if fuel > 0 {
                        assert(spec_peel_step(ne[arg as int].kind) is None);
                        assert(spec_peel(ne, arg as int, fuel) == arg as int);
                    }
                    assert(!spec_is_call(ne, spec_peel(ne, arg as int, fuel)));
                }
            },
            _ => {},
        }
    } else if 0 <= j < ne.len() {
        assert(ne[j].kind matches ExprKind::VarRef { .. } || ne[j].kind matches ExprKind::Borrow {
            .. });
        match ne[j].kind {
            ExprKind::Borrow { arg, .. } => {
                assert(arg == me.len());
                assert(spec_peel_step(ne[arg as int].kind) is None);
                assert(spec_peel(ne, arg as int, fuel) == arg as int);
                assert(!spec_is_call(ne, arg as int));
            },
            _ => {},
        }
    }
}

/// A skipped node stays clean: nothing changed.
proof fn lemma_skip_clean(m: Body, i: int, snapshot: nat)
    requires
        0 <= i < snapshot,
        clean_below(m, snapshot, i),
        !spec_temp_cond(m.thir.exprs@, i, snapshot),
    ensures
        clean_below(m, snapshot, i + 1),
{
}

/// With wrappers decreasing, the peeling fuel never matters once it covers
/// the start index: the chain strictly descends.
proof fn lemma_peel_fuel_irrelevant(exprs: Seq<Expr>, id: int, f1: nat, f2: nat)
    requires
        wrappers_decreasing(exprs),
        0 <= id,
        f1 > id,
        f2 > id,
    ensures
        spec_peel(exprs, id, f1) == spec_peel(exprs, id, f2),
    decreases id,
{
    if 0 <= id < exprs.len() {
        match spec_peel_step(exprs[id].kind) {
            Some(nxt) => {
                assert(nxt < id);
                lemma_peel_fuel_irrelevant(exprs, nxt as int, (f1 - 1) as nat, (f2 - 1) as nat);
            },
            None => {},
        }
    }
}

/// Once every index is clean at the snapshot fuel, the body has no pending
/// transformation at its own (larger) fuel either.
proof fn lemma_clean_means_no_pending(o: Body, b: Body)
    requires
        wrappers_decreasing(b.thir.exprs@),
        o.thir.exprs@.len() <= b.thir.exprs@.len(),
        clean_below(b, o.thir.exprs@.len(), o.thir.exprs@.len() as int),
    ensures
        spec_no_pending(b),
{
    let snapshot = o.thir.exprs@.len();
    let full = b.thir.exprs@.len();
    assert forall|i: int| 0 <= i < b.thir.exprs@.len() implies !spec_temp_cond(
        b.thir.exprs@,
        i,
        full,
    ) by {
        let node = b.thir.exprs@[i];
        assert(!spec_temp_cond(b.thir.exprs@, i, snapshot));
        match b.thir.exprs@[i].kind {
            ExprKind::Borrow { arg, .. } => {
                if (arg as int) < b.thir.exprs@.len() {
                    if (arg as int) < snapshot {
                        lemma_peel_fuel_irrelevant(b.thir.exprs@, arg as int, snapshot, full);
                    } else {
                        // an appended node: not a wrapper, not a call
                        assert(spec_peel_step(b.thir.exprs@[arg as int].kind) is None);
                        assert(spec_peel(b.thir.exprs@, arg as int, full) == arg as int);
                        assert(!spec_is_call(b.thir.exprs@, arg as int));
                    }
                }
            },
            _ => {},
        }
    }
}

} // verus!
