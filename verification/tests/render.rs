//! Exact renderings of concrete typed trees.

use desugar::defs::{
    AdtDef, AssocContainer, AssocItem, CtorKind, DefInfo, DefKind, DefTable, FieldDef, VariantDef,
    Visibility,
};
use desugar::desugar::Body;
use desugar::print::{CratePrinter, Item, RenderCache, Unit};
use desugar::thir::{
    BinOp, BindingMode, BlockSafety, BorrowKind, ByRef, Expr, ExprKind, FieldExpr, FieldPat, Lit,
    Pat, PatKind, Span, Thir,
};
use desugar::types::{GenericArg, Mutability, Ty, UintTy};

fn sp() -> Span {
    Span { lo: 0, hi: 0 }
}

fn plain_def(name: &str, visible: &str) -> DefInfo {
    DefInfo {
        name: String::from(name),
        parent: None,
        kind: DefKind::Struct,
        local: false,
        visible_path: Some(String::from(visible)),
        canonical_path: String::from(visible),
        parent_count: 0,
        has_self: false,
        assoc: None,
        self_ty: None,
        vis: Visibility::Public,
        parent_module: 0,
    }
}

fn unit_with_body(tys: Vec<Ty>, body: Body) -> Unit {
    Unit {
        tys,
        defs: DefTable { defs: vec![plain_def("root", "root")] },
        adts: Vec::new(),
        bodies: vec![Some(body)],
        items: Vec::new(),
    }
}

fn body_of(thir: Thir, root: usize, host_names: Vec<(u32, String)>) -> Body {
    Body::new(0, thir, root, 100, host_names)
}

#[test]
fn renders_binary_operation_with_mangled_locals() {
    let mut thir = Thir::new();
    let a = thir.push_expr(Expr { kind: ExprKind::VarRef { id: 0 }, ty: 0, span: sp() });
    let b = thir.push_expr(Expr { kind: ExprKind::VarRef { id: 1 }, ty: 0, span: sp() });
    let add = thir.push_expr(Expr {
        kind: ExprKind::Binary { op: BinOp::Add, lhs: a, rhs: b },
        ty: 0,
        span: sp(),
    });
    let names = vec![(0u32, String::from("a")), (1u32, String::from("b"))];
    let unit = unit_with_body(vec![Ty::Uint { uty: UintTy::U32 }], body_of(thir, add, names));
    let printer = CratePrinter::new(unit);
    let mut cache = RenderCache::new(1);
    assert_eq!(printer.expr(&mut cache, 0, 100, add), "a_0 + b_1");
}

#[test]
fn self_binding_is_never_mangled() {
    let mut thir = Thir::new();
    let s = thir.push_expr(Expr { kind: ExprKind::VarRef { id: 3 }, ty: 0, span: sp() });
    let names = vec![(3u32, String::from("self"))];
    let unit = unit_with_body(vec![Ty::Bool], body_of(thir, s, names));
    let printer = CratePrinter::new(unit);
    let mut cache = RenderCache::new(1);
    assert_eq!(printer.expr(&mut cache, 0, 100, s), "self");
}

#[test]
fn renders_literals_exactly() {
    let unit = unit_with_body(vec![Ty::Bool], body_of(Thir::new(), 0, Vec::new()));
    let printer = CratePrinter::new(unit);
    assert_eq!(printer.literal(&Lit::Int { value: 42 }, false), "42");
    assert_eq!(printer.literal(&Lit::Int { value: 7 }, true), "-7");
    assert_eq!(printer.literal(&Lit::Byte { value: 9 }, false), "9u8");
    assert_eq!(printer.literal(&Lit::Bool { value: true }, false), "true");
    assert_eq!(printer.literal(&Lit::Char { value: 'x' }, false), "'x'");
    assert_eq!(printer.literal(&Lit::Char { value: '\'' }, false), "'\\''");
    assert_eq!(
        printer.literal(&Lit::Str { text: String::from("a\"b\nc") }, false),
        "\"a\\\"b\\nc\""
    );
    assert_eq!(
        printer.literal(&Lit::ByteStr { bytes: vec![1, 2, 30] }, false),
        "&[1, 2, 30]"
    );
    assert_eq!(
        printer.literal(&Lit::Float { text: String::from("1.5f64") }, false),
        "1.5f64"
    );
}

#[test]
fn renders_types_exactly() {
    let unit = Unit {
        tys: vec![Ty::Bool],
        defs: DefTable { defs: vec![plain_def("Wrapper", "demo::Wrapper")] },
        adts: vec![AdtDef { def: 0, is_enum: false, variants: Vec::new() }],
        bodies: Vec::new(),
        items: Vec::new(),
    };
    let printer = CratePrinter::new(unit);
    assert_eq!(
        printer.print_ty(
            &Ty::Ref { region: None, mutability: Mutability::Not, pointee: Box::new(Ty::Bool) },
            8,
        ),
        "&bool"
    );
    assert_eq!(
        printer.print_ty(
            &Ty::Ref {
                region: Some(String::from("'a")),
                mutability: Mutability::Mut,
                pointee: Box::new(Ty::Uint { uty: UintTy::U8 }),
            },
            8,
        ),
        "&'a mut u8"
    );
    assert_eq!(printer.print_ty(&Ty::Tuple { elems: vec![Ty::Bool] }, 8), "(bool,)");
    assert_eq!(
        printer.print_ty(&Ty::Tuple { elems: vec![Ty::Bool, Ty::Char] }, 8),
        "(bool, char)"
    );
    assert_eq!(
        printer.print_ty(&Ty::Array { elem: Box::new(Ty::Bool), len: 4 }, 8),
        "[bool; 4]"
    );
    assert_eq!(
        printer.print_ty(
            &Ty::FnPtr { inputs: vec![Ty::Bool], output: Box::new(Ty::Char) },
            8,
        ),
        "fn(bool) -> char"
    );
    // unnameable types print as a placeholder parameter
    assert_eq!(printer.print_ty(&Ty::Closure { def: 0 }, 8), "_");
    // an ADT with an argument prints its path and an explicit argument list
    assert_eq!(
        printer.print_ty(
            &Ty::Adt { adt: 0, args: vec![GenericArg::Type { ty: Box::new(Ty::Bool) }] },
            8,
        ),
        "demo::Wrapper::<bool>"
    );
}

/// The explicit trait-method spelling of an overloaded operator call: a
/// typed tree computing `a + b` on an operator-overloading type renders as
/// a fully qualified trait method call.
#[test]
fn renders_overloaded_add_as_trait_method_call() {
    // defs: 0 = MyNum (struct), 1 = the Add trait, 2 = its method
    let defs = vec![
        plain_def("MyNum", "MyNum"),
        DefInfo {
            name: String::from("Add"),
            parent: None,
            kind: DefKind::Trait,
            local: false,
            visible_path: Some(String::from("std::ops::Add")),
            canonical_path: String::from("std::ops::Add"),
            parent_count: 0,
            has_self: true,
            assoc: None,
            self_ty: None,
            vis: Visibility::Public,
            parent_module: 0,
        },
        DefInfo {
            name: String::from("add"),
            parent: Some(1),
            kind: DefKind::AssocFn,
            local: false,
            visible_path: None,
            canonical_path: String::from("std::ops::Add::add"),
            parent_count: 2,
            has_self: false,
            assoc: Some(AssocItem { container: AssocContainer::Trait, container_def: 1 }),
            self_ty: None,
            vis: Visibility::Public,
            parent_module: 0,
        },
    ];
    // tys: 0 = MyNum, 1 = the definition type of the method instantiated
    // at <MyNum as Add<MyNum>>
    let my_num = 0usize;
    let tys = vec![
        Ty::Adt { adt: 0, args: Vec::new() },
        Ty::FnDef {
            def: 2,
            args: vec![
                GenericArg::Type { ty: Box::new(Ty::Adt { adt: 0, args: Vec::new() }) },
                GenericArg::Type { ty: Box::new(Ty::Adt { adt: 0, args: Vec::new() }) },
            ],
        },
    ];
    let mut thir = Thir::new();
    let fun = thir.push_expr(Expr { kind: ExprKind::ZstLiteral, ty: 1, span: sp() });
    let a = thir.push_expr(Expr { kind: ExprKind::VarRef { id: 0 }, ty: my_num, span: sp() });
    let b = thir.push_expr(Expr { kind: ExprKind::VarRef { id: 1 }, ty: my_num, span: sp() });
    let call = thir.push_expr(Expr {
        kind: ExprKind::Call { fun, args: vec![a, b] },
        ty: my_num,
        span: sp(),
    });
    let names = vec![(0u32, String::from("a")), (1u32, String::from("b"))];
    let unit = Unit {
        tys,
        defs: DefTable { defs },
        adts: vec![AdtDef { def: 0, is_enum: false, variants: Vec::new() }],
        bodies: vec![Some(body_of(thir, call, names))],
        items: Vec::new(),
    };
    let printer = CratePrinter::new(unit);
    let mut cache = RenderCache::new(1);
    assert_eq!(
        printer.expr(&mut cache, 0, 100, call),
        "<MyNum as std::ops::Add::<MyNum>>::add(a_0, b_1)"
    );
}

fn point_adt() -> AdtDef {
    AdtDef {
        def: 0,
        is_enum: false,
        variants: vec![VariantDef {
            name: String::from("Point"),
            ctor: CtorKind::Braced,
            fields: vec![FieldDef { name: String::from("x") }, FieldDef { name: String::from("y") }],
        }],
    }
}

/// Field-order canonicalization: a struct literal whose typed-tree field
/// list is deliberately reversed renders in the variant's declared order.
#[test]
fn struct_literal_fields_render_in_declaration_order() {
    let mut thir = Thir::new();
    let two = thir.push_expr(Expr {
        kind: ExprKind::Literal { lit: Lit::Int { value: 2 }, neg: false },
        ty: 1,
        span: sp(),
    });
    let one = thir.push_expr(Expr {
        kind: ExprKind::Literal { lit: Lit::Int { value: 1 }, neg: false },
        ty: 1,
        span: sp(),
    });
    let adt = thir.push_expr(Expr {
        kind: ExprKind::Adt {
            data: desugar::thir::AdtExpr {
                adt: 0,
                variant_index: 0,
                args: Vec::new(),
                // the typed tree stores y before x
                fields: vec![
                    FieldExpr { name: 1, expr: two },
                    FieldExpr { name: 0, expr: one },
                ],
                base: None,
            },
        },
        ty: 0,
        span: sp(),
    });
    let unit = Unit {
        tys: vec![Ty::Adt { adt: 0, args: Vec::new() }, Ty::Uint { uty: UintTy::U32 }],
        defs: DefTable { defs: vec![plain_def("Point", "Point")] },
        adts: vec![point_adt()],
        bodies: vec![Some(body_of(thir, adt, Vec::new()))],
        items: Vec::new(),
    };
    let printer = CratePrinter::new(unit);
    let mut cache = RenderCache::new(1);
    assert_eq!(printer.expr(&mut cache, 0, 100, adt), "Point{ x: 1, y: 2 }");
}

#[test]
fn struct_literal_with_base_spread() {
    let mut thir = Thir::new();
    let one = thir.push_expr(Expr {
        kind: ExprKind::Literal { lit: Lit::Int { value: 1 }, neg: false },
        ty: 1,
        span: sp(),
    });
    let base = thir.push_expr(Expr { kind: ExprKind::VarRef { id: 0 }, ty: 0, span: sp() });
    let adt = thir.push_expr(Expr {
        kind: ExprKind::Adt {
            data: desugar::thir::AdtExpr {
                adt: 0,
                variant_index: 0,
                args: Vec::new(),
                fields: vec![FieldExpr { name: 0, expr: one }],
                base: Some(base),
            },
        },
        ty: 0,
        span: sp(),
    });
    let names = vec![(0u32, String::from("p"))];
    let unit = Unit {
        tys: vec![Ty::Adt { adt: 0, args: Vec::new() }, Ty::Uint { uty: UintTy::U32 }],
        defs: DefTable { defs: vec![plain_def("Point", "Point")] },
        adts: vec![point_adt()],
        bodies: vec![Some(body_of(thir, adt, names))],
        items: Vec::new(),
    };
    let printer = CratePrinter::new(unit);
    let mut cache = RenderCache::new(1);
    assert_eq!(printer.expr(&mut cache, 0, 100, adt), "Point{ x: 1, ..p_0 }");
}

fn pair_enum() -> AdtDef {
    AdtDef {
        def: 0,
        is_enum: true,
        variants: vec![VariantDef {
            name: String::from("Pair"),
            ctor: CtorKind::Braced,
            fields: vec![FieldDef { name: String::from("a") }, FieldDef { name: String::from("b") }],
        }],
    }
}

/// Enum-variant disambiguation at the boundary: matching one field short of
/// the variant adds an explicit rest marker, matching all fields omits it.
#[test]
fn variant_pattern_rest_marker_boundary() {
    let unit = Unit {
        tys: vec![Ty::Adt { adt: 0, args: Vec::new() }, Ty::Bool],
        defs: DefTable { defs: vec![plain_def("Sum", "Sum")] },
        adts: vec![pair_enum()],
        bodies: Vec::new(),
        items: Vec::new(),
    };
    let printer = CratePrinter::new(unit);
    let body = body_of(Thir::new(), 0, Vec::new());
    let wild = |ty: usize| Pat { ty, span: sp(), kind: PatKind::Wild };
    let partial = Pat {
        ty: 0,
        span: sp(),
        kind: PatKind::Variant {
            adt: 0,
            args: Vec::new(),
            variant_index: 0,
            subpatterns: vec![FieldPat { field: 0, pattern: wild(1) }],
        },
    };
    assert_eq!(printer.pat(&body, &partial), "Sum::Pair { a: _, .. }");
    let full = Pat {
        ty: 0,
        span: sp(),
        kind: PatKind::Variant {
            adt: 0,
            args: Vec::new(),
            variant_index: 0,
            subpatterns: vec![
                FieldPat { field: 0, pattern: wild(1) },
                FieldPat { field: 1, pattern: wild(1) },
            ],
        },
    };
    assert_eq!(printer.pat(&body, &full), "Sum::Pair { a: _, b: _ }");
}

#[test]
fn tuple_pattern_sorts_by_field_index() {
    let unit = Unit {
        tys: vec![Ty::Tuple { elems: vec![Ty::Bool, Ty::Char] }, Ty::Bool, Ty::Char],
        defs: DefTable { defs: vec![plain_def("root", "root")] },
        adts: Vec::new(),
        bodies: Vec::new(),
        items: Vec::new(),
    };
    let printer = CratePrinter::new(unit);
    let body = body_of(Thir::new(), 0, Vec::new());
    let bind = |id: u32, name: &str, ty: usize| Pat {
        ty,
        span: sp(),
        kind: PatKind::Binding {
            name: String::from(name),
            mode: BindingMode { by_ref: ByRef::No, mutability: Mutability::Not },
            var: id,
            ty,
            subpattern: None,
            is_primary: true,
        },
    };
    let mut body_with_names = body;
    body_with_names.host_names = vec![(0u32, String::from("u")), (1u32, String::from("v"))];
    // leaf subpatterns stored out of declaration order
    let pat = Pat {
        ty: 0,
        span: sp(),
        kind: PatKind::Leaf {
            subpatterns: vec![
                FieldPat { field: 1, pattern: bind(1, "v", 2) },
                FieldPat { field: 0, pattern: bind(0, "u", 1) },
            ],
        },
    };
    assert_eq!(printer.pat(&body_with_names, &pat), "(u_0,v_1,)");
}

#[test]
fn renders_if_block_and_borrow() {
    let mut thir = Thir::new();
    let cond = thir.push_expr(Expr {
        kind: ExprKind::Literal { lit: Lit::Bool { value: true }, neg: false },
        ty: 0,
        span: sp(),
    });
    let one = thir.push_expr(Expr {
        kind: ExprKind::Literal { lit: Lit::Int { value: 1 }, neg: false },
        ty: 1,
        span: sp(),
    });
    let two = thir.push_expr(Expr {
        kind: ExprKind::Literal { lit: Lit::Int { value: 2 }, neg: false },
        ty: 1,
        span: sp(),
    });
    let ifx = thir.push_expr(Expr {
        kind: ExprKind::If { cond, then: one, else_opt: Some(two) },
        ty: 1,
        span: sp(),
    });
    let borrow = thir.push_expr(Expr {
        kind: ExprKind::Borrow { borrow_kind: BorrowKind::Mut, arg: ifx },
        ty: 1,
        span: sp(),
    });
    let unit = unit_with_body(
        vec![Ty::Bool, Ty::Uint { uty: UintTy::U32 }],
        body_of(thir, borrow, Vec::new()),
    );
    let printer = CratePrinter::new(unit);
    let mut cache = RenderCache::new(1);
    assert_eq!(
        printer.expr(&mut cache, 0, 100, borrow),
        "&mut if true { 1 } else { 2 }"
    );
}

#[test]
fn renders_whole_unit_and_reformats_it() {
    let mut thir = Thir::new();
    let fortytwo = thir.push_expr(Expr {
        kind: ExprKind::Literal { lit: Lit::Int { value: 42 }, neg: false },
        ty: 0,
        span: sp(),
    });
    let blk = thir.push_block(desugar::thir::Block {
        targeted_by_break: false,
        region_scope: 1,
        span: sp(),
        stmts: Vec::new(),
        expr: Some(fortytwo),
        safety_mode: BlockSafety::Safe,
    });
    let root = thir.push_expr(Expr { kind: ExprKind::Block { block: blk }, ty: 0, span: sp() });
    let body = body_of(thir, root, Vec::new());
    let unit = Unit {
        tys: vec![Ty::Uint { uty: UintTy::U32 }],
        defs: DefTable { defs: vec![plain_def("main", "main")] },
        adts: Vec::new(),
        bodies: vec![Some(body)],
        items: vec![Item { def: 0, header: String::from("fn main"), body: Some(0) }],
    };
    let printer = CratePrinter::new(unit);
    let mut cache = RenderCache::new(1);
    let out = printer.print_crate(&mut cache);
    // the rendered unit parses as a source file
    assert!(syn::parse_file(&out).is_ok());
    // and went through the formatting pass: the raw rendering puts the
    // trailing expression at column zero, the formatted one indents it
    assert!(out.contains("fn main"));
    assert!(out.contains("    42"));
    assert!(!out.contains("\n42\n"));
}

#[test]
fn unresolved_body_is_skipped_with_an_omission() {
    let unit = Unit {
        tys: Vec::new(),
        defs: DefTable { defs: vec![plain_def("gone", "gone")] },
        adts: Vec::new(),
        bodies: vec![None],
        items: vec![Item { def: 0, header: String::from("fn gone"), body: Some(0) }],
    };
    let printer = CratePrinter::new(unit);
    let mut cache = RenderCache::new(1);
    assert_eq!(printer.printed_body(&mut cache, 0).is_none(), true);
    let out = printer.print_crate(&mut cache);
    assert!(!out.contains("gone"));
}

#[test]
fn closure_renders_through_the_cache() {
    // body 0 returns a closure whose body is body 1
    let mut outer = Thir::new();
    let closure = outer.push_expr(Expr { kind: ExprKind::Closure { closure_id: 1 }, ty: 0, span: sp() });
    let mut inner = Thir::new();
    let seven = inner.push_expr(Expr {
        kind: ExprKind::Literal { lit: Lit::Int { value: 7 }, neg: false },
        ty: 1,
        span: sp(),
    });
    inner.push_param(desugar::thir::Param {
        pat: Some(Pat {
            ty: 1,
            span: sp(),
            kind: PatKind::Binding {
                name: String::from("n"),
                mode: BindingMode { by_ref: ByRef::No, mutability: Mutability::Not },
                var: 0,
                ty: 1,
                subpattern: None,
                is_primary: true,
            },
        }),
    });
    let mut inner_body = body_of(inner, seven, vec![(0u32, String::from("n"))]);
    inner_body.def_id = 1;
    let unit = Unit {
        tys: vec![Ty::Closure { def: 0 }, Ty::Uint { uty: UintTy::U32 }],
        defs: DefTable { defs: vec![plain_def("root", "root")] },
        adts: Vec::new(),
        bodies: vec![Some(body_of(outer, closure, Vec::new())), Some(inner_body)],
        items: Vec::new(),
    };
    let printer = CratePrinter::new(unit);
    let mut cache = RenderCache::new(2);
    let first = printer.expr(&mut cache, 0, 100, closure);
    assert_eq!(first, "|n_0| { 7 }");
    // the rendered body is now cached and renders identically
    let again = printer.expr(&mut cache, 0, 100, closure);
    assert_eq!(again, first);
}
