//! Renderings of statements, arms and the remaining expression kinds.

use desugar::defs::{DefInfo, DefKind, DefTable, Visibility};
use desugar::desugar::Body;
use desugar::print::{CratePrinter, RenderCache, Unit};
use desugar::thir::{
    Arm, AssignOpKind, BinOp, BindingMode, Block, BlockSafety, ByRef, Expr, ExprKind, Lit,
    LogicalOp, Pat, PatKind, Span, Stmt, StmtKind, Thir, UnOp,
};
use desugar::types::{Mutability, Ty, UintTy};
use desugar::util::arg_values;

fn sp() -> Span {
    Span { lo: 0, hi: 0 }
}

fn local_fn_def(name: &str) -> DefInfo {
    DefInfo {
        name: String::from(name),
        parent: Some(0),
        kind: DefKind::Const,
        local: true,
        visible_path: None,
        canonical_path: String::from("crate::deep::path"),
        parent_count: 0,
        has_self: false,
        assoc: None,
        self_ty: None,
        vis: Visibility::Public,
        parent_module: 0,
    }
}

fn root_fn_def() -> DefInfo {
    DefInfo {
        name: String::from("main"),
        parent: None,
        kind: DefKind::Fn,
        local: true,
        visible_path: None,
        canonical_path: String::from("crate::main"),
        parent_count: 0,
        has_self: false,
        assoc: None,
        self_ty: None,
        vis: Visibility::Public,
        parent_module: 0,
    }
}

fn lit_int(thir: &mut Thir, v: u128) -> usize {
    thir.push_expr(Expr {
        kind: ExprKind::Literal { lit: Lit::Int { value: v }, neg: false },
        ty: 0,
        span: sp(),
    })
}

fn unit_of(thir: Thir, root: usize, names: Vec<(u32, String)>) -> Unit {
    Unit {
        tys: vec![Ty::Uint { uty: UintTy::U32 }, Ty::Bool],
        defs: DefTable { defs: vec![root_fn_def(), local_fn_def("helper")] },
        adts: Vec::new(),
        bodies: vec![Some(Body::new(0, thir, root, 100, names))],
        items: Vec::new(),
    }
}

#[test]
fn renders_match_with_guard_and_arms() {
    let mut thir = Thir::new();
    let scrut = lit_int(&mut thir, 3);
    let one = lit_int(&mut thir, 1);
    let two = lit_int(&mut thir, 2);
    let guard = thir.push_expr(Expr {
        kind: ExprKind::Literal { lit: Lit::Bool { value: true }, neg: false },
        ty: 1,
        span: sp(),
    });
    let a0 = thir.push_arm(Arm {
        pattern: Pat { ty: 0, span: sp(), kind: PatKind::Constant { text: String::from("0") } },
        guard: Some(guard),
        body: one,
    });
    let a1 = thir.push_arm(Arm {
        pattern: Pat { ty: 0, span: sp(), kind: PatKind::Wild },
        guard: None,
        body: two,
    });
    let m = thir.push_expr(Expr {
        kind: ExprKind::Match { scrutinee: scrut, arms: vec![a0, a1] },
        ty: 0,
        span: sp(),
    });
    let unit = unit_of(thir, m, Vec::new());
    let printer = CratePrinter::new(unit);
    let mut cache = RenderCache::new(1);
    assert_eq!(
        printer.expr(&mut cache, 0, 100, m),
        "match (3) {\n0 if true => 1,\n_ => 2,\n}"
    );
}

#[test]
fn renders_block_with_statements_and_let_else() {
    let mut thir = Thir::new();
    let init = lit_int(&mut thir, 5);
    let side = lit_int(&mut thir, 9);
    let tail = lit_int(&mut thir, 7);
    let diverge = thir.push_expr(Expr {
        kind: ExprKind::Return { value: None },
        ty: 0,
        span: sp(),
    });
    let else_blk = thir.push_block(Block {
        targeted_by_break: false,
        region_scope: 9,
        span: sp(),
        stmts: Vec::new(),
        expr: Some(diverge),
        safety_mode: BlockSafety::Safe,
    });
    let s0 = thir.push_stmt(Stmt {
        kind: StmtKind::Let {
            remainder_scope: 1,
            init_scope: 2,
            pattern: Pat {
                ty: 0,
                span: sp(),
                kind: PatKind::Binding {
                    name: String::from("x"),
                    mode: BindingMode { by_ref: ByRef::No, mutability: Mutability::Not },
                    var: 0,
                    ty: 0,
                    subpattern: None,
                    is_primary: true,
                },
            },
            initializer: Some(init),
            else_block: Some(else_blk),
            span: sp(),
        },
    });
    let s1 = thir.push_stmt(Stmt { kind: StmtKind::Expr { expr: side } });
    let blk = thir.push_block(Block {
        targeted_by_break: false,
        region_scope: 3,
        span: sp(),
        stmts: vec![s0, s1],
        expr: Some(tail),
        safety_mode: BlockSafety::ExplicitUnsafe,
    });
    let root = thir.push_expr(Expr { kind: ExprKind::Block { block: blk }, ty: 0, span: sp() });
    let names = vec![(0u32, String::from("x"))];
    let unit = unit_of(thir, root, names);
    let printer = CratePrinter::new(unit);
    let mut cache = RenderCache::new(1);
    assert_eq!(
        printer.expr(&mut cache, 0, 100, root),
        "unsafe {\nlet x_0 = 5 else {\nreturn\n};\n9;\n7\n}"
    );
}

#[test]
fn renders_remaining_operator_kinds() {
    let mut thir = Thir::new();
    let a = lit_int(&mut thir, 1);
    let b = lit_int(&mut thir, 2);
    let cmp = thir.push_expr(Expr {
        kind: ExprKind::Binary { op: BinOp::AddWithOverflow, lhs: a, rhs: b },
        ty: 0,
        span: sp(),
    });
    let both = thir.push_expr(Expr {
        kind: ExprKind::LogicalOp { op: LogicalOp::And, lhs: a, rhs: b },
        ty: 1,
        span: sp(),
    });
    let neg = thir.push_expr(Expr { kind: ExprKind::Unary { op: UnOp::Neg, arg: a }, ty: 0, span: sp() });
    let asg = thir.push_expr(Expr {
        kind: ExprKind::AssignOp { op: AssignOpKind::ShlAssign, lhs: a, rhs: b },
        ty: 0,
        span: sp(),
    });
    let field = thir.push_expr(Expr { kind: ExprKind::Field { lhs: a, name: 2 }, ty: 0, span: sp() });
    let index = thir.push_expr(Expr { kind: ExprKind::Index { lhs: a, index: b }, ty: 0, span: sp() });
    let rep = thir.push_expr(Expr { kind: ExprKind::Repeat { value: a, count: 4 }, ty: 0, span: sp() });
    let arr = thir.push_expr(Expr { kind: ExprKind::Array { fields: vec![a, b] }, ty: 0, span: sp() });
    let tup = thir.push_expr(Expr { kind: ExprKind::Tuple { fields: vec![a, b] }, ty: 0, span: sp() });
    let cast = thir.push_expr(Expr { kind: ExprKind::Cast { source: a }, ty: 0, span: sp() });
    let raw = thir.push_expr(Expr {
        kind: ExprKind::RawBorrow { mutability: Mutability::Mut, arg: a },
        ty: 0,
        span: sp(),
    });
    let unit = unit_of(thir, a, Vec::new());
    let printer = CratePrinter::new(unit);
    let mut cache = RenderCache::new(1);
    assert_eq!(printer.expr(&mut cache, 0, 100, cmp), "1 + (overflowing) 2");
    assert_eq!(printer.expr(&mut cache, 0, 100, both), "1 && 2");
    assert_eq!(printer.expr(&mut cache, 0, 100, neg), "-1");
    assert_eq!(printer.expr(&mut cache, 0, 100, asg), "1 <<= 2");
    assert_eq!(printer.expr(&mut cache, 0, 100, field), "1.2");
    assert_eq!(printer.expr(&mut cache, 0, 100, index), "1[2]");
    assert_eq!(printer.expr(&mut cache, 0, 100, rep), "[1; 4]");
    assert_eq!(printer.expr(&mut cache, 0, 100, arr), "[1, 2]");
    assert_eq!(printer.expr(&mut cache, 0, 100, tup), "(1,2,)");
    assert_eq!(printer.expr(&mut cache, 0, 100, cast), "(1 as u32)");
    assert_eq!(printer.expr(&mut cache, 0, 100, raw), "&raw mut 1");
}

#[test]
fn renders_control_flow_and_paths() {
    let mut thir = Thir::new();
    let v = lit_int(&mut thir, 8);
    let brk = thir.push_expr(Expr { kind: ExprKind::Break { value: Some(v) }, ty: 0, span: sp() });
    let cont = thir.push_expr(Expr { kind: ExprKind::Continue, ty: 0, span: sp() });
    let named = thir.push_expr(Expr {
        kind: ExprKind::NamedConst { def: 1, args: Vec::new() },
        ty: 0,
        span: sp(),
    });
    let cparam = thir.push_expr(Expr {
        kind: ExprKind::ConstParam { name: String::from("N") },
        ty: 0,
        span: sp(),
    });
    let boxed = thir.push_expr(Expr { kind: ExprKind::Boxed { value: v }, ty: 0, span: sp() });
    let unit = unit_of(thir, v, Vec::new());
    let printer = CratePrinter::new(unit);
    let mut cache = RenderCache::new(1);
    assert_eq!(printer.expr(&mut cache, 0, 100, brk), "break 8");
    assert_eq!(printer.expr(&mut cache, 0, 100, cont), "continue");
    // a local item nested in a body prints by its bare declared name
    assert_eq!(printer.expr(&mut cache, 0, 100, named), "helper");
    assert_eq!(printer.expr(&mut cache, 0, 100, cparam), "N");
    assert_eq!(printer.expr(&mut cache, 0, 100, boxed), "Box::new(8)");
}

#[test]
fn path_falls_back_from_visible_to_canonical() {
    let mut thir = Thir::new();
    let named = thir.push_expr(Expr {
        kind: ExprKind::NamedConst { def: 0, args: Vec::new() },
        ty: 0,
        span: sp(),
    });
    let hidden = DefInfo {
        name: String::from("K"),
        parent: None,
        kind: DefKind::Const,
        local: false,
        visible_path: None,
        canonical_path: String::from("hidden::K"),
        parent_count: 0,
        has_self: false,
        assoc: None,
        self_ty: None,
        vis: Visibility::Public,
        parent_module: 0,
    };
    let unit = Unit {
        tys: vec![Ty::Uint { uty: UintTy::U32 }],
        defs: DefTable { defs: vec![hidden] },
        adts: Vec::new(),
        bodies: vec![Some(Body::new(0, thir, named, 100, Vec::new()))],
        items: Vec::new(),
    };
    let printer = CratePrinter::new(unit);
    let mut cache = RenderCache::new(1);
    // no publicly visible path was found: the fully qualified fallback wins
    assert_eq!(printer.expr(&mut cache, 0, 100, named), "hidden::K");
}

#[test]
fn transparent_wrappers_leave_no_textual_trace() {
    let mut thir = Thir::new();
    let v = lit_int(&mut thir, 6);
    let scoped = thir.push_expr(Expr {
        kind: ExprKind::Scope { region_scope: 4, value: v },
        ty: 0,
        span: sp(),
    });
    let used = thir.push_expr(Expr { kind: ExprKind::Use { source: scoped }, ty: 0, span: sp() });
    let asc = thir.push_expr(Expr {
        kind: ExprKind::ValueTypeAscription { source: used },
        ty: 0,
        span: sp(),
    });
    let unit = unit_of(thir, asc, Vec::new());
    let printer = CratePrinter::new(unit);
    let mut cache = RenderCache::new(1);
    assert_eq!(printer.expr(&mut cache, 0, 100, asc), "6");
}

#[test]
fn dangling_index_renders_as_placeholder() {
    let mut thir = Thir::new();
    let bad = thir.push_expr(Expr {
        kind: ExprKind::Deref { arg: 77 },
        ty: 0,
        span: sp(),
    });
    let unit = unit_of(thir, bad, Vec::new());
    let printer = CratePrinter::new(unit);
    let mut cache = RenderCache::new(1);
    assert_eq!(
        printer.expr(&mut cache, 0, 100, bad),
        "*todo!(\"unrenderable\")"
    );
}

#[test]
fn needle_containing_equals_never_matches_an_equals_form() {
    // `--a=b` splits at its first equals sign: its key is `--a`, so a
    // needle spelled `--a=b` selects nothing from it
    let args = vec![String::from("--a=b")];
    assert!(arg_values(&args, "--a=b").is_empty());
}
