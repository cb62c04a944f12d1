//! The temporary-introduction pass on concrete trees.

use desugar::desugar::{desugar_thir, Body, PassConfig, ValueToPlaceDesugarer};
use desugar::thir::{
    BlockSafety, BorrowKind, Expr, ExprKind, PatKind, Span, StmtKind, Thir,
};

fn sp(n: u32) -> Span {
    Span { lo: n, hi: n + 1 }
}

/// A body whose root borrows a call expression: `&f()`.
fn borrow_of_call_body() -> Body {
    let mut thir = Thir::new();
    let fun = thir.push_expr(Expr {
        kind: ExprKind::ZstLiteral,
        ty: 0,
        span: sp(0),
    });
    let call = thir.push_expr(Expr {
        kind: ExprKind::Call {
            fun,
            args: Vec::new(),
        },
        ty: 1,
        span: sp(1),
    });
    let borrow = thir.push_expr(Expr {
        kind: ExprKind::Borrow {
            borrow_kind: BorrowKind::Shared,
            arg: call,
        },
        ty: 2,
        span: sp(2),
    });
    Body::new(0, thir, borrow, 10, Vec::new())
}

#[test]
fn introduces_temporary_for_borrow_of_call() {
    let mut d = ValueToPlaceDesugarer::new(borrow_of_call_body());
    d.run();
    let t = &d.body.thir;
    // two expressions, one statement and one block were appended
    assert_eq!(t.exprs.len(), 5);
    assert_eq!(t.stmts.len(), 1);
    assert_eq!(t.blocks.len(), 1);
    // the synthetic variable reference carries the operand's type (round
    // trip type preservation)
    assert!(matches!(t.exprs[3].kind, ExprKind::VarRef { id: 10 }));
    assert_eq!(t.exprs[3].ty, 1);
    // the new borrow keeps the original borrow's kind and type
    match t.exprs[4].kind {
        ExprKind::Borrow { borrow_kind, arg } => {
            assert!(matches!(borrow_kind, BorrowKind::Shared));
            assert_eq!(arg, 3);
        }
        _ => panic!("expected a borrow"),
    }
    assert_eq!(t.exprs[4].ty, 2);
    // the let statement binds the fresh identity to the original call
    match &t.stmts[0].kind {
        StmtKind::Let {
            remainder_scope,
            init_scope,
            pattern,
            initializer,
            else_block,
            ..
        } => {
            assert_ne!(remainder_scope, init_scope);
            assert_eq!(*initializer, Some(1));
            assert!(else_block.is_none());
            assert_eq!(pattern.ty, 1);
            match &pattern.kind {
                PatKind::Binding { name, var, ty, .. } => {
                    assert_eq!(name.as_str(), "tmp10");
                    assert_eq!(*var, 10);
                    assert_eq!(*ty, 1);
                }
                _ => panic!("expected a binding pattern"),
            }
        }
        _ => panic!("expected a let statement"),
    }
    // the display name was bound before any rendering
    assert_eq!(d.body.synthetic_local_name(10), Some(String::from("tmp10")));
}

#[test]
fn identity_is_stable_under_the_pass() {
    let body = borrow_of_call_body();
    let borrow_index = body.root_expr;
    let mut d = ValueToPlaceDesugarer::new(body);
    assert!(matches!(
        d.body.thir.exprs[borrow_index].kind,
        ExprKind::Borrow { .. }
    ));
    d.run();
    // the index is unchanged while the node's kind became a block
    assert_eq!(d.body.root_expr, borrow_index);
    assert!(matches!(
        d.body.thir.exprs[borrow_index].kind,
        ExprKind::Block { block: 0 }
    ));
    assert_eq!(d.body.thir.exprs[borrow_index].span.lo, 2);
}

#[test]
fn scope_identities_are_fresh_and_distinct() {
    let mut d = ValueToPlaceDesugarer::new(borrow_of_call_body());
    d.run();
    let (remainder, init) = match &d.body.thir.stmts[0].kind {
        StmtKind::Let {
            remainder_scope,
            init_scope,
            ..
        } => (*remainder_scope, *init_scope),
        _ => panic!("expected a let statement"),
    };
    let block_scope = d.body.thir.blocks[0].region_scope;
    // three distinct fresh identities, all past the host's range
    assert!(remainder >= 10 && init >= 10 && block_scope >= 10);
    assert_ne!(remainder, init);
    assert_ne!(block_scope, remainder);
    assert_ne!(block_scope, init);
    assert!(block_scope > init && block_scope > remainder);
    // the synthesized block spans exactly the expression it wraps
    assert_eq!(d.body.thir.blocks[0].span.lo, 2);
    assert!(matches!(d.body.thir.blocks[0].safety_mode, BlockSafety::Safe));
    assert_eq!(d.body.thir.blocks[0].stmts, vec![0]);
    assert_eq!(d.body.thir.blocks[0].expr, Some(4));
}

#[test]
fn second_run_transforms_nothing() {
    let mut d = ValueToPlaceDesugarer::new(borrow_of_call_body());
    d.run();
    let exprs_after_one = d.body.thir.exprs.len();
    let stmts_after_one = d.body.thir.stmts.len();
    let blocks_after_one = d.body.thir.blocks.len();
    let next_after_one = d.body.next_local_id;
    d.run();
    // re-snapshotting finds no borrow of a call: no doubly nested
    // synthetic blocks appear
    assert_eq!(d.body.thir.exprs.len(), exprs_after_one);
    assert_eq!(d.body.thir.stmts.len(), stmts_after_one);
    assert_eq!(d.body.thir.blocks.len(), blocks_after_one);
    assert_eq!(d.body.next_local_id, next_after_one);
    assert!(matches!(d.body.thir.exprs[2].kind, ExprKind::Block { .. }));
}

#[test]
fn peels_wrappers_before_deciding() {
    // &({scope (call)}) is still a borrow of a call
    let mut thir = Thir::new();
    let fun = thir.push_expr(Expr {
        kind: ExprKind::ZstLiteral,
        ty: 0,
        span: sp(0),
    });
    let call = thir.push_expr(Expr {
        kind: ExprKind::Call {
            fun,
            args: Vec::new(),
        },
        ty: 1,
        span: sp(1),
    });
    let wrapped = thir.push_expr(Expr {
        kind: ExprKind::Scope {
            region_scope: 3,
            value: call,
        },
        ty: 1,
        span: sp(1),
    });
    let borrow = thir.push_expr(Expr {
        kind: ExprKind::Borrow {
            borrow_kind: BorrowKind::Mut,
            arg: wrapped,
        },
        ty: 2,
        span: sp(2),
    });
    let mut d = ValueToPlaceDesugarer::new(Body::new(0, thir, borrow, 20, Vec::new()));
    d.run();
    assert!(matches!(d.body.thir.exprs[borrow].kind, ExprKind::Block { .. }));
    // the statement still initializes from the wrapped operand
    match &d.body.thir.stmts[0].kind {
        StmtKind::Let { initializer, .. } => assert_eq!(*initializer, Some(wrapped)),
        _ => panic!("expected a let statement"),
    }
    // and the new borrow keeps the unique borrow kind
    assert!(matches!(
        d.body.thir.exprs[5].kind,
        ExprKind::Borrow {
            borrow_kind: BorrowKind::Mut,
            ..
        }
    ));
}

#[test]
fn borrow_of_variable_is_left_alone() {
    let mut thir = Thir::new();
    let var = thir.push_expr(Expr {
        kind: ExprKind::VarRef { id: 0 },
        ty: 0,
        span: sp(0),
    });
    let borrow = thir.push_expr(Expr {
        kind: ExprKind::Borrow {
            borrow_kind: BorrowKind::Shared,
            arg: var,
        },
        ty: 1,
        span: sp(1),
    });
    let mut d = ValueToPlaceDesugarer::new(Body::new(0, thir, borrow, 5, Vec::new()));
    d.run();
    assert_eq!(d.body.thir.exprs.len(), 2);
    assert!(matches!(d.body.thir.exprs[borrow].kind, ExprKind::Borrow { .. }));
}

#[test]
fn pass_stays_off_by_default() {
    let body = borrow_of_call_body();
    let config = PassConfig::default();
    assert!(!config.value_to_place);
    let out = desugar_thir(body, &config);
    assert_eq!(out.thir.exprs.len(), 3);
    assert!(matches!(out.thir.exprs[2].kind, ExprKind::Borrow { .. }));
}

#[test]
fn pass_runs_when_configured() {
    let body = borrow_of_call_body();
    let config = PassConfig {
        value_to_place: true,
    };
    let out = desugar_thir(body, &config);
    assert_eq!(out.thir.exprs.len(), 5);
    assert!(matches!(out.thir.exprs[2].kind, ExprKind::Block { .. }));
}
