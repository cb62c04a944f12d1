//! The expression, pattern and statement renderer.
//!
//! A structural recursive-descent printer over the typed tree's node kinds.
//! Arena cross references are walked under a recursion budget derived from
//! the body's node count, so rendering is total even on malformed trees:
//! whatever cannot be rendered comes out as a placeholder call that still
//! parses.

use vstd::prelude::*;

use crate::defs::{CtorKind, VariantDef};
use crate::print::{CratePrinter, PrintedBody, Unit, spec_local_name};
use crate::print::types::{PATH_DEPTH, spec_path_with_args, spec_ty_by_id};
use crate::thir::{
    AssignOpKind, BinOp, BindingMode, BlockSafety, BodyId, BorrowKind, ByRef, ExprId, ExprKind,
    FieldPat, Lit, LogicalOp, Pat, PatKind, StmtKind, UnOp,
};
use crate::types::{Mutability, Ty};
use crate::util::{
    join_strs, spec_dec, spec_escape_str, spec_escaped_in_char, spec_join, append_escaped_str,
    push_char, u128_to_dec,
};

verus! {

/// The placeholder emitted for anything that cannot be rendered: it still
/// parses as an expression.
pub open spec fn spec_placeholder() -> Seq<char> {
    "todo!(\"unrenderable\")"@
}

pub fn placeholder() -> (r: &'static str)
    ensures
        r@ == spec_placeholder(),
{
    "todo!(\"unrenderable\")"
}

pub open spec fn spec_bin_op(op: BinOp) -> Seq<char> {
    match op {
        BinOp::Add => "+"@,
        BinOp::Sub => "-"@,
        BinOp::Mul => "*"@,
        BinOp::Div => "/"@,
        BinOp::Rem => "%"@,
        BinOp::BitXor => "^"@,
        BinOp::BitAnd => "&"@,
        BinOp::BitOr => "|"@,
        BinOp::Shl => "<<"@,
        BinOp::Shr => ">>"@,
        BinOp::Eq => "=="@,
        BinOp::Lt => "<"@,
        BinOp::Le => "<="@,
        BinOp::Ne => "!="@,
        BinOp::Ge => ">="@,
        BinOp::Gt => ">"@,
        BinOp::Offset => ".offset"@,
        BinOp::AddUnchecked => "+ (unchecked)"@,
        BinOp::AddWithOverflow => "+ (overflowing)"@,
        BinOp::SubUnchecked => "- (unchecked)"@,
        BinOp::SubWithOverflow => "- (overflowing)"@,
        BinOp::MulUnchecked => "* (unchecked)"@,
        BinOp::MulWithOverflow => "* (overflowing)"@,
        BinOp::ShlUnchecked => "<< (unchecked)"@,
        BinOp::ShrUnchecked => ">> (unchecked)"@,
        BinOp::Cmp => "<=>"@,
    }
}

pub open spec fn spec_assign_op(op: AssignOpKind) -> Seq<char> {
    match op {
        AssignOpKind::AddAssign => "+"@,
        AssignOpKind::SubAssign => "-"@,
        AssignOpKind::MulAssign => "*"@,
        AssignOpKind::DivAssign => "/"@,
        AssignOpKind::RemAssign => "%"@,
        AssignOpKind::BitXorAssign => "^"@,
        AssignOpKind::BitAndAssign => "&"@,
        AssignOpKind::BitOrAssign => "|"@,
        AssignOpKind::ShlAssign => "<<"@,
        AssignOpKind::ShrAssign => ">>"@,
    }
}

pub open spec fn spec_un_op(op: UnOp) -> Seq<char> {
    match op {
        UnOp::Not => "!"@,
        UnOp::Neg => "-"@,
        UnOp::PtrMetadata => "ptr_metadata "@,
    }
}

impl CratePrinter {
    /// The surface symbol of a binary operator; the overflow-checked and
    /// unchecked variants have no surface operator and carry a
    /// parenthetical annotation.
    pub fn bin_op(&self, op: BinOp) -> (r: &'static str)
        ensures
            r@ == spec_bin_op(op),
    {
        match op {
            BinOp::Add => "+",
            BinOp::Sub => "-",
            BinOp::Mul => "*",
            BinOp::Div => "/",
            BinOp::Rem => "%",
            BinOp::BitXor => "^",
            BinOp::BitAnd => "&",
            BinOp::BitOr => "|",
            BinOp::Shl => "<<",
            BinOp::Shr => ">>",
            BinOp::Eq => "==",
            BinOp::Lt => "<",
            BinOp::Le => "<=",
            BinOp::Ne => "!=",
            BinOp::Ge => ">=",
            BinOp::Gt => ">",
            BinOp::Offset => ".offset",
            BinOp::AddUnchecked => "+ (unchecked)",
            BinOp::AddWithOverflow => "+ (overflowing)",
            BinOp::SubUnchecked => "- (unchecked)",
            BinOp::SubWithOverflow => "- (overflowing)",
            BinOp::MulUnchecked => "* (unchecked)",
            BinOp::MulWithOverflow => "* (overflowing)",
            BinOp::ShlUnchecked => "<< (unchecked)",
            BinOp::ShrUnchecked => ">> (unchecked)",
            BinOp::Cmp => "<=>",
        }
    }

    pub fn assign_op(&self, op: AssignOpKind) -> (r: &'static str)
        ensures
            r@ == spec_assign_op(op),
    {
        match op {
            AssignOpKind::AddAssign => "+",
            AssignOpKind::SubAssign => "-",
            AssignOpKind::MulAssign => "*",
            AssignOpKind::DivAssign => "/",
            AssignOpKind::RemAssign => "%",
            AssignOpKind::BitXorAssign => "^",
            AssignOpKind::BitAndAssign => "&",
            AssignOpKind::BitOrAssign => "|",
            AssignOpKind::ShlAssign => "<<",
            AssignOpKind::ShrAssign => ">>",
        }
    }

    pub fn un_op(&self, op: UnOp) -> (r: &'static str)
        ensures
            r@ == spec_un_op(op),
    {
        match op {
            UnOp::Not => "!",
            UnOp::Neg => "-",
            UnOp::PtrMetadata => "ptr_metadata ",
        }
    }
}

/// The decimal renderings of a byte string's bytes.
pub open spec fn spec_byte_list(bytes: Seq<u8>) -> Seq<Seq<char>>
    decreases bytes.len(),
{
    if bytes.len() == 0 {
        Seq::empty()
    } else {
        spec_byte_list(bytes.drop_last()) + seq![spec_dec(bytes.last() as nat)]
    }
}

/// The surface spelling of one literal.
pub open spec fn spec_literal(lit: Lit, neg: bool) -> Seq<char> {
    let base = match lit {
        Lit::Str { text } => "\""@ + spec_escape_str(text@) + "\""@,
        Lit::ByteStr { bytes } => "&["@ + spec_join(spec_byte_list(bytes@), ", "@) + "]"@,
        Lit::CStr => "c\"...\""@,
        Lit::Byte { value } => spec_dec(value as nat) + "u8"@,
        Lit::Char { value } => "'"@ + spec_escaped_in_char(value) + "'"@,
        Lit::Int { value } => spec_dec(value as nat),
        Lit::Float { text } => text@,
        Lit::Bool { value } => if value {
            "true"@
        } else {
            "false"@
        },
        Lit::LitError => "<lit error>"@,
    };
    if neg {
        "-"@ + base
    } else {
        base
    }
}

impl CratePrinter {
    /// Renders one literal token.
    pub fn literal(&self, lit: &Lit, neg: bool) -> (r: String)
        ensures
            r@ == spec_literal(*lit, neg),
    {
        let base: String = match lit {
            Lit::Str { text } => {
                let mut s = "\"".to_owned();
                append_escaped_str(&mut s, text.as_str());
                s.append("\"");
                s
            },
            Lit::ByteStr { bytes } => {
                let mut parts: Vec<String> = Vec::new();
                let mut i: usize = 0;
                proof {
                    assert(parts.deep_view() =~= spec_byte_list(bytes@.take(0)));
                }
                while i < bytes.len()
                    invariant
                        0 <= i <= bytes@.len(),
                        parts.deep_view() == spec_byte_list(bytes@.take(i as int)),
                    decreases bytes@.len() - i,
                {
                    proof {
                        assert(bytes@.take(i + 1).drop_last() =~= bytes@.take(i as int));
                        assert(bytes@.take(i + 1).last() == bytes@[i as int]);
                    }
                    let ghost pre = parts.deep_view();
                    let one = u128_to_dec(bytes[i] as u128);
                    parts.push(one);
                    proof {
                        assert(parts.deep_view() =~= pre.push(spec_dec(bytes@[i as int] as nat)));
                    }
                    i += 1;
                }
                proof {
                    assert(bytes@.take(bytes@.len() as int) =~= bytes@);
                }
                let inner = join_strs(&parts, ", ");
                let mut s = "&[".to_owned();
                s.append(inner.as_str());
                s.append("]");
                s
            },
            Lit::CStr => "c\"...\"".to_owned(),
            Lit::Byte { value } => {
                let mut s = u128_to_dec(*value as u128);
                s.append("u8");
                s
            },
            Lit::Char { value } => {
                let mut s = "'".to_owned();
                if *value == '\'' {
                    s.append("\\'");
                    proof {
                        reveal_strlit("\\'");
                        assert(s@ =~= "'"@ + spec_escaped_in_char(*value));
                    }
                } else if *value == '\\' {
                    s.append("\\\\");
                    proof {
                        reveal_strlit("\\\\");
                        assert(s@ =~= "'"@ + spec_escaped_in_char(*value));
                    }
                } else if *value == '\n' {
                    s.append("\\n");
                    proof {
                        reveal_strlit("\\n");
                        assert(s@ =~= "'"@ + spec_escaped_in_char(*value));
                    }
                } else if *value == '\r' {
                    s.append("\\r");
                    proof {
                        reveal_strlit("\\r");
                        assert(s@ =~= "'"@ + spec_escaped_in_char(*value));
                    }
                } else if *value == '\t' {
                    s.append("\\t");
                    proof {
                        reveal_strlit("\\t");
                        assert(s@ =~= "'"@ + spec_escaped_in_char(*value));
                    }
                } else {
                    push_char(&mut s, *value);
                    proof {
                        assert(s@ =~= "'"@ + spec_escaped_in_char(*value));
                    }
                }
                s.append("'");
                s
            },
            Lit::Int { value } => u128_to_dec(*value),
            Lit::Float { text } => text.clone(),
            Lit::Bool { value } => if *value {
                "true".to_owned()
            } else {
                "false".to_owned()
            },
            Lit::LitError => "<lit error>".to_owned(),
        };
        if neg {
            let mut s = "-".to_owned();
            s.append(base.as_str());
            s
        } else {
            base
        }
    }
}

/// Stable insertion of a keyed entry into a run already sorted by key.
pub open spec fn spec_insert_pair(s: Seq<(usize, usize)>, x: (usize, usize)) -> Seq<
    (usize, usize),
>
    decreases s.len(),
{
    if s.len() == 0 {
        seq![x]
    } else if x.0 < s.last().0 {
        spec_insert_pair(s.drop_last(), x).push(s.last())
    } else {
        s.push(x)
    }
}

/// Stable insertion sort of `(key, payload)` pairs by key.
pub open spec fn spec_sort_pairs(s: Seq<(usize, usize)>) -> Seq<(usize, usize)>
    decreases s.len(),
{
    if s.len() == 0 {
        Seq::empty()
    } else {
        spec_insert_pair(spec_sort_pairs(s.drop_last()), s.last())
    }
}

fn insert_pair(res: &mut Vec<(usize, usize)>, x: (usize, usize))
    ensures
        final(res)@ == spec_insert_pair(old(res)@, x),
    decreases old(res)@.len(),
{
    if res.len() == 0 {
        res.push(x);
        proof {
            assert(res@ =~= seq![x]);
        }
        return ;
    }
    let last = res[res.len() - 1];
    if x.0 < last.0 {
        let popped = res.pop();
        proof {
            assert(res@ =~= old(res)@.drop_last());
        }
        insert_pair(res, x);
        res.push(last);
    } else {
        res.push(x);
    }
}

/// Sorts `(key, payload)` pairs by key, keeping the given order of equal
/// keys.
pub fn sort_pairs(v: &Vec<(usize, usize)>) -> (r: Vec<(usize, usize)>)
    ensures
        r@ == spec_sort_pairs(v@),
{
    let mut res: Vec<(usize, usize)> = Vec::new();
    let mut i: usize = 0;
    proof {
        assert(res@ =~= spec_sort_pairs(v@.take(0)));
    }
    while i < v.len()
        invariant
            0 <= i <= v@.len(),
            res@ == spec_sort_pairs(v@.take(i as int)),
        decreases v@.len() - i,
    {
        proof {
            assert(v@.take(i + 1).drop_last() =~= v@.take(i as int));
            assert(v@.take(i + 1).last() == v@[i as int]);
        }
        insert_pair(&mut res, v[i]);
        i += 1;
    }
    proof {
        assert(v@.take(v@.len() as int) =~= v@);
    }
    res
}

/// Law: a variant pattern prints an explicit rest marker exactly when it
/// matches fewer fields than the variant declares; a pattern matching all
/// of them omits it.
pub proof fn lemma_rest_marker_iff_partial(
    u: Unit,
    body: crate::desugar::Body,
    path: Seq<char>,
    variant: VariantDef,
    subs: Seq<FieldPat>,
)
    requires
        variant.ctor != CtorKind::Const,
    ensures
        spec_adt_pat(u, body, path, variant, subs) == path + " { "@ + spec_join(
            spec_field_pat_parts(u, body, variant, subs) + if subs.len() != variant.fields@.len() {
                seq![".."@]
            } else {
                Seq::<Seq<char>>::empty()
            },
            ", "@,
        ) + " }"@,
{
}

/// The binding-mode prefix of a binding pattern.
pub open spec fn spec_binding_prefix(mode: BindingMode) -> Seq<char> {
    match mode.by_ref {
        ByRef::Yes(Mutability::Mut) => "ref mut "@,
        ByRef::Yes(Mutability::Not) => "ref "@,
        ByRef::No => match mode.mutability {
            Mutability::Mut => "mut "@,
            Mutability::Not => Seq::<char>::empty(),
        },
    }
}

/// The surface spelling of one pattern.
pub open spec fn spec_pat(u: Unit, body: crate::desugar::Body, p: Pat) -> Seq<char>
    decreases p, 0int, 0int,
{
    match p.kind {
        PatKind::Missing => "_"@,
        PatKind::Wild => "_"@,
        PatKind::AscribeUserType { subpattern } => spec_pat(u, body, *subpattern),
        PatKind::Binding { mode, var, subpattern, .. } => {
            let base = spec_binding_prefix(mode) + spec_local_name(body, var);
            match subpattern {
                Some(sp) => base + " @ "@ + spec_pat(u, body, *sp),
                None => base,
            }
        },
        PatKind::Variant { adt, args, variant_index, subpatterns } => {
            if adt < u.adts@.len() && variant_index < u.adts@[adt as int].variants@.len() {
                let variant = u.adts@[adt as int].variants@[variant_index as int];
                let path = spec_path_with_args(
                    u,
                    u.adts@[adt as int].def as int,
                    args@,
                    PATH_DEPTH,
                ) + "::"@ + variant.name@;
                spec_adt_pat(u, body, path, variant, subpatterns@)
            } else {
                spec_placeholder()
            }
        },
        PatKind::Leaf { subpatterns } => {
            if p.ty < u.tys@.len() {
                match u.tys@[p.ty as int] {
                    Ty::Tuple { .. } => spec_tuple_pat(u, body, None, subpatterns@),
                    Ty::Adt { adt, args } => {
                        if adt < u.adts@.len() && u.adts@[adt as int].variants@.len() > 0 {
                            let variant = u.adts@[adt as int].variants@[0];
                            let path = spec_path_with_args(
                                u,
                                u.adts@[adt as int].def as int,
                                args@,
                                PATH_DEPTH,
                            );
                            spec_adt_pat(u, body, path, variant, subpatterns@)
                        } else {
                            "_"@
                        }
                    },
                    _ => "_"@,
                }
            } else {
                "_"@
            }
        },
        PatKind::Deref { subpattern } => "&"@ + spec_pat(u, body, *subpattern),
        PatKind::DerefPattern { subpattern, borrow } => {
            let prefix = match borrow {
                ByRef::Yes(Mutability::Mut) => "&mut "@,
                ByRef::Yes(Mutability::Not) => "&"@,
                ByRef::No => Seq::<char>::empty(),
            };
            prefix + spec_pat(u, body, *subpattern)
        },
        PatKind::Constant { text } => text@,
        PatKind::ExpandedConstant { subpattern } => spec_pat(u, body, *subpattern),
        PatKind::Range { lo, hi } => lo@ + ".."@ + hi@,
        PatKind::Slice { prefix, slice, suffix } => {
            let mid = match slice {
                Some(sp) => seq![".."@ + spec_pat(u, body, *sp)],
                None => Seq::<Seq<char>>::empty(),
            };
            "["@ + spec_join(
                spec_pat_parts(u, body, prefix@) + mid + spec_pat_parts(u, body, suffix@),
                ", "@,
            ) + "]"@
        },
        PatKind::Array { prefix, slice, suffix } => {
            let mid = match slice {
                Some(sp) => seq![".."@ + spec_pat(u, body, *sp)],
                None => Seq::<Seq<char>>::empty(),
            };
            "["@ + spec_join(
                spec_pat_parts(u, body, prefix@) + mid + spec_pat_parts(u, body, suffix@),
                ", "@,
            ) + "]"@
        },
        PatKind::Or { pats } => spec_join(spec_pat_parts(u, body, pats@), " | "@),
        PatKind::Never => "!"@,
        PatKind::PatError => "<pat error>"@,
    }
}

/// The renderings of a list of patterns.
pub open spec fn spec_pat_parts(u: Unit, body: crate::desugar::Body, ps: Seq<Pat>) -> Seq<
    Seq<char>,
>
    decreases ps, 0int, 0int,
{
    if ps.len() == 0 {
        Seq::empty()
    } else {
        spec_pat_parts(u, body, ps.drop_last()) + seq![spec_pat(u, body, ps.last())]
    }
}

/// The renderings of the subpatterns selected by a sorted `(field, index)`
/// list, in that order.
pub open spec fn spec_tuple_pat_parts(
    u: Unit,
    body: crate::desugar::Body,
    subs: Seq<FieldPat>,
    sorted: Seq<(usize, usize)>,
) -> Seq<Seq<char>>
    decreases subs, 0int, sorted.len(),
{
    if sorted.len() == 0 {
        Seq::empty()
    } else {
        let prev = spec_tuple_pat_parts(u, body, subs, sorted.drop_last());
        let k = sorted.last().1;
        let one = if k < subs.len() {
            spec_pat(u, body, subs[k as int].pattern)
        } else {
            spec_placeholder()
        };
        prev + seq![one]
    }
}

/// The `(field, index)` key list of a subpattern list.
pub open spec fn spec_field_keys(subs: Seq<FieldPat>) -> Seq<(usize, usize)> {
    Seq::new(subs.len(), |i: int| (subs[i].field, i as usize))
}

/// A tuple-shaped pattern: subpatterns sorted by field index, each followed
/// by a comma, with the constructor path in front when there is one.
pub open spec fn spec_tuple_pat(
    u: Unit,
    body: crate::desugar::Body,
    path: Option<Seq<char>>,
    subs: Seq<FieldPat>,
) -> Seq<char>
    decreases subs, 1int, 0int,
{
    let sorted = spec_sort_pairs(spec_field_keys(subs));
    let inner = spec_concat_comma(spec_tuple_pat_parts(u, body, subs, sorted));
    match path {
        Some(p) => p + "("@ + inner + ")"@,
        None => "("@ + inner + ")"@,
    }
}

/// Each rendering followed by a comma, concatenated.
pub open spec fn spec_concat_comma(parts: Seq<Seq<char>>) -> Seq<char>
    decreases parts.len(),
{
    if parts.len() == 0 {
        Seq::empty()
    } else {
        spec_concat_comma(parts.drop_last()) + parts.last() + ","@
    }
}

/// The `name: subpattern` renderings of a destructuring pattern's fields,
/// using the declared field names from the variant metadata.
pub open spec fn spec_field_pat_parts(
    u: Unit,
    body: crate::desugar::Body,
    variant: VariantDef,
    subs: Seq<FieldPat>,
) -> Seq<Seq<char>>
    decreases subs, 2int, 0int,
{
    if subs.len() == 0 {
        Seq::empty()
    } else {
        let fp = subs.last();
        let name = if fp.field < variant.fields@.len() {
            variant.fields@[fp.field as int].name@
        } else {
            "?"@
        };
        spec_field_pat_parts(u, body, variant, subs.drop_last()) + seq![
            name + ": "@ + spec_pat(u, body, fp.pattern),
        ]
    }
}

/// A variant or struct destructuring pattern: a unit variant prints as its
/// bare path; otherwise a braced field list, with an explicit `..` marker
/// whenever fewer fields are matched than the variant declares.
pub open spec fn spec_adt_pat(
    u: Unit,
    body: crate::desugar::Body,
    path: Seq<char>,
    variant: VariantDef,
    subs: Seq<FieldPat>,
) -> Seq<char>
    decreases subs, 3int, 0int,
{
    match variant.ctor {
        CtorKind::Const => path,
        _ => {
            let ellipsis = if subs.len() != variant.fields@.len() {
                seq![".."@]
            } else {
                Seq::<Seq<char>>::empty()
            };
            let fields = spec_join(spec_field_pat_parts(u, body, variant, subs) + ellipsis, ", "@);
            path + " { "@ + fields + " }"@
        },
    }
}

impl CratePrinter {
    /// Renders one pattern of `body`.
    pub fn pat(&self, body: &crate::desugar::Body, p: &Pat) -> (r: String)
        ensures
            r@ == spec_pat(self.unit, *body, *p),
        decreases *p, 0int, 0int,
    {
        match &p.kind {
            PatKind::Missing => "_".to_owned(),
            PatKind::Wild => "_".to_owned(),
            PatKind::AscribeUserType { subpattern } => self.pat(body, subpattern),
            PatKind::Binding { mode, var, subpattern, .. } => {
                let prefix: &'static str = match mode.by_ref {
                    ByRef::Yes(Mutability::Mut) => "ref mut ",
                    ByRef::Yes(Mutability::Not) => "ref ",
                    ByRef::No => match mode.mutability {
                        Mutability::Mut => "mut ",
                        Mutability::Not => "",
                    },
                };
                let mut s = prefix.to_owned();
                let name = self.local_name(body, *var);
                s.append(name.as_str());
                proof {
                    if mode.by_ref is No && mode.mutability is Not {
                        reveal_strlit("");
                        assert(s@ =~= spec_binding_prefix(*mode) + spec_local_name(*body, *var));
                    }
                }
                match subpattern {
                    Some(sp) => {
                        s.append(" @ ");
                        let sub = self.pat(body, sp);
                        s.append(sub.as_str());
                        s
                    },
                    None => s,
                }
            },
            PatKind::Variant { adt, args, variant_index, subpatterns } => {
                if *adt < self.unit.adts.len() && *variant_index < self.unit.adts[*adt].variants.len() {
                    proof {
                        assert(args@.subrange(0, args@.len() as int) =~= args@);
                    }
                    let mut path = self.path_with_args(
                        self.unit.adts[*adt].def,
                        args,
                        0,
                        args.len(),
                        PATH_DEPTH,
                    );
                    path.append("::");
                    path.append(self.unit.adts[*adt].variants[*variant_index].name.as_str());
                    self.adt_pat(
                        body,
                        path,
                        *adt,
                        *variant_index,
                        subpatterns,
                    )
                } else {
                    placeholder().to_owned()
                }
            },
            PatKind::Leaf { subpatterns } => {
                if p.ty < self.unit.tys.len() {
                    match &self.unit.tys[p.ty] {
                        Ty::Tuple { .. } => self.tuple_pat(body, None, subpatterns),
                        Ty::Adt { adt, args } => {
                            if *adt < self.unit.adts.len() && self.unit.adts[*adt].variants.len()
                                > 0 {
                                proof {
                                    assert(args@.subrange(0, args@.len() as int) =~= args@);
                                }
                                let path = self.path_with_args(
                                    self.unit.adts[*adt].def,
                                    args,
                                    0,
                                    args.len(),
                                    PATH_DEPTH,
                                );
                                self.adt_pat(body, path, *adt, 0, subpatterns)
                            } else {
                                "_".to_owned()
                            }
                        },
                        _ => "_".to_owned(),
                    }
                } else {
                    "_".to_owned()
                }
            },
            PatKind::Deref { subpattern } => {
                let mut s = "&".to_owned();
                let sub = self.pat(body, subpattern);
                s.append(sub.as_str());
                s
            },
            PatKind::DerefPattern { subpattern, borrow } => {
                let prefix: &'static str = match borrow {
                    ByRef::Yes(Mutability::Mut) => "&mut ",
                    ByRef::Yes(Mutability::Not) => "&",
                    ByRef::No => "",
                };
                let mut s = prefix.to_owned();
                let sub = self.pat(body, subpattern);
                s.append(sub.as_str());
                proof {
                    if borrow is No {
                        reveal_strlit("");
                        assert(s@ =~= Seq::<char>::empty() + spec_pat(
                            self.unit,
                            *body,
                            **subpattern,
                        ));
                    }
                }
                s
            },
            PatKind::Constant { text } => text.clone(),
            PatKind::ExpandedConstant { subpattern } => self.pat(body, subpattern),
            PatKind::Range { lo, hi } => {
                let mut s = lo.clone();
                s.append("..");
                s.append(hi.as_str());
                s
            },
            PatKind::Slice { prefix, slice, suffix } | PatKind::Array {
                prefix,
                slice,
                suffix,
            } => {
                let mut all = self.pat_parts(body, prefix);
                let ghost mid: Seq<Seq<char>> = match slice {
                    Some(sp) => seq![".."@ + spec_pat(self.unit, *body, **sp)],
                    None => Seq::<Seq<char>>::empty(),
                };
                match slice {
                    Some(sp) => {
                        let mut m = "..".to_owned();
                        let sub = self.pat(body, sp);
                        m.append(sub.as_str());
                        all.push(m);
                        proof {
                            assert(all.deep_view() =~= spec_pat_parts(self.unit, *body, prefix@)
                                + mid);
                        }
                    },
                    None => {
                        proof {
                            assert(all.deep_view() =~= spec_pat_parts(self.unit, *body, prefix@)
                                + mid);
                        }
                    },
                }
                let ghost before = all.deep_view();
                let tail = self.pat_parts(body, suffix);
                let mut i: usize = 0;
                proof {
                    assert(all.deep_view() =~= before + tail.deep_view().take(0));
                }
                while i < tail.len()
                    invariant
                        0 <= i <= tail@.len(),
                        all.deep_view() == before + tail.deep_view().take(i as int),
                    decreases tail@.len() - i,
                {
                    let ghost pre = all.deep_view();
                    all.push(tail[i].clone());
                    proof {
                        assert(all.deep_view() =~= pre.push(tail.deep_view()[i as int]));
                        assert(pre.push(tail.deep_view()[i as int]) =~= before
                            + tail.deep_view().take(i + 1));
                    }
                    i += 1;
                }
                proof {
                    assert(tail.deep_view().take(tail@.len() as int) =~= tail.deep_view());
                }
                let inner = join_strs(&all, ", ");
                let mut s = "[".to_owned();
                s.append(inner.as_str());
                s.append("]");
                s
            },
            PatKind::Or { pats } => {
                let parts = self.pat_parts(body, pats);
                join_strs(&parts, " | ")
            },
            PatKind::Never => "!".to_owned(),
            PatKind::PatError => "<pat error>".to_owned(),
        }
    }

    /// Renders each pattern of a list.
    fn pat_parts(&self, body: &crate::desugar::Body, ps: &Vec<Pat>) -> (r: Vec<String>)
        ensures
            r.deep_view() == spec_pat_parts(self.unit, *body, ps@),
        decreases *ps, 1int, 0int,
    {
        let mut parts: Vec<String> = Vec::new();
        let mut i: usize = 0;
        proof {
            assert(parts.deep_view() =~= spec_pat_parts(self.unit, *body, ps@.take(0)));
        }
        while i < ps.len()
            invariant
                0 <= i <= ps@.len(),
                parts.deep_view() == spec_pat_parts(self.unit, *body, ps@.take(i as int)),
            decreases ps@.len() - i,
        {
            proof {
                assert(ps@.take(i + 1).drop_last() =~= ps@.take(i as int));
                assert(ps@.take(i + 1).last() == ps@[i as int]);
                assert(decreases_to!(ps@ => ps@[i as int]));
            }
            let ghost pre = parts.deep_view();
            let one = self.pat(body, &ps[i]);
            parts.push(one);
            proof {
                assert(parts.deep_view() =~= pre.push(
                    spec_pat(self.unit, *body, ps@[i as int]),
                ));
            }
            i += 1;
        }
        proof {
            assert(ps@.take(ps@.len() as int) =~= ps@);
        }
        parts
    }

    /// Renders a tuple-shaped pattern: subpatterns sort by field index
    /// before printing, since the typed tree does not guarantee their
    /// order.
    pub fn tuple_pat(
        &self,
        body: &crate::desugar::Body,
        path: Option<String>,
        subs: &Vec<FieldPat>,
    ) -> (r: String)
        ensures
            r@ == spec_tuple_pat(
                self.unit,
                *body,
                match path {
                    Some(p) => Some(p@),
                    None => None,
                },
                subs@,
            ),
        decreases *subs, 2int, 0int,
    {
        let mut keys: Vec<(usize, usize)> = Vec::new();
        let mut i: usize = 0;
        proof {
            assert(keys@ =~= spec_field_keys(subs@).take(0));
        }
        while i < subs.len()
            invariant
                0 <= i <= subs@.len(),
                keys@ == spec_field_keys(subs@).take(i as int),
            decreases subs@.len() - i,
        {
            let ghost pre = keys@;
            keys.push((subs[i].field, i));
            proof {
                assert(keys@ =~= spec_field_keys(subs@).take(i + 1));
            }
            i += 1;
        }
        proof {
            assert(spec_field_keys(subs@).take(subs@.len() as int) =~= spec_field_keys(subs@));
        }
        let sorted = sort_pairs(&keys);
        let parts = self.tuple_pat_parts(body, subs, &sorted);
        let mut inner = String::new();
        let mut k: usize = 0;
        proof {
            assert(inner@ =~= spec_concat_comma(parts.deep_view().take(0)));
        }
        while k < parts.len()
            invariant
                0 <= k <= parts@.len(),
                inner@ == spec_concat_comma(parts.deep_view().take(k as int)),
            decreases parts@.len() - k,
        {
            let ghost pre = inner@;
            inner.append(parts[k].as_str());
            inner.append(",");
            proof {
                assert(parts.deep_view().take(k + 1).drop_last() =~= parts.deep_view().take(
                    k as int,
                ));
                assert(parts.deep_view().take(k + 1).last() == parts.deep_view()[k as int]);
                assert(inner@ =~= spec_concat_comma(parts.deep_view().take(k as int))
                    + parts.deep_view()[k as int] + ","@);
            }
            k += 1;
        }
        proof {
            assert(parts.deep_view().take(parts@.len() as int) =~= parts.deep_view());
        }
        match path {
            Some(p) => {
                let mut s = p;
                s.append("(");
                s.append(inner.as_str());
                s.append(")");
                s
            },
            None => {
                let mut s = "(".to_owned();
                s.append(inner.as_str());
                s.append(")");
                s
            },
        }
    }

    /// Renders the subpatterns selected by a sorted key list, in order.
    fn tuple_pat_parts(
        &self,
        body: &crate::desugar::Body,
        subs: &Vec<FieldPat>,
        sorted: &Vec<(usize, usize)>,
    ) -> (r: Vec<String>)
        ensures
            r.deep_view() == spec_tuple_pat_parts(self.unit, *body, subs@, sorted@),
        decreases *subs, 1int, sorted@.len(),
    {
        let mut parts: Vec<String> = Vec::new();
        let mut i: usize = 0;
        proof {
            assert(parts.deep_view() =~= spec_tuple_pat_parts(
                self.unit,
                *body,
                subs@,
                sorted@.take(0),
            ));
        }
        while i < sorted.len()
            invariant
                0 <= i <= sorted@.len(),
                parts.deep_view() == spec_tuple_pat_parts(
                    self.unit,
                    *body,
                    subs@,
                    sorted@.take(i as int),
                ),
            decreases sorted@.len() - i,
        {
            proof {
                assert(sorted@.take(i + 1).drop_last() =~= sorted@.take(i as int));
                assert(sorted@.take(i + 1).last() == sorted@[i as int]);
            }
            let ghost pre = parts.deep_view();
            let k = sorted[i].1;
            let one: String = if k < subs.len() {
                proof {
                    assert(decreases_to!(subs@ => subs@[k as int]));
                }
                self.pat(body, &subs[k].pattern)
            } else {
                placeholder().to_owned()
            };
            parts.push(one);
            proof {
                assert(parts.deep_view() =~= spec_tuple_pat_parts(
                    self.unit,
                    *body,
                    subs@,
                    sorted@.take(i + 1),
                ));
            }
            i += 1;
        }
        proof {
            assert(sorted@.take(sorted@.len() as int) =~= sorted@);
        }
        parts
    }

    /// Renders a variant or struct destructuring pattern against the
    /// variant's declared fields.
    pub fn adt_pat(
        &self,
        body: &crate::desugar::Body,
        path: String,
        adt: crate::types::AdtId,
        variant_index: usize,
        subs: &Vec<FieldPat>,
    ) -> (r: String)
        requires
            adt < self.unit.adts@.len(),
            variant_index < self.unit.adts@[adt as int].variants@.len(),
        ensures
            r@ == spec_adt_pat(
                self.unit,
                *body,
                path@,
                self.unit.adts@[adt as int].variants@[variant_index as int],
                subs@,
            ),
        decreases *subs, 3int, 0int,
    {
        let variant = &self.unit.adts[adt].variants[variant_index];
        match variant.ctor {
            CtorKind::Const => path,
            _ => {
                let mut parts = self.field_pat_parts(body, adt, variant_index, subs);
                if subs.len() != variant.fields.len() {
                    parts.push("..".to_owned());
                }
                proof {
                    if subs@.len() != variant.fields@.len() {
                        assert(parts.deep_view() =~= spec_field_pat_parts(
                            self.unit,
                            *body,
                            self.unit.adts@[adt as int].variants@[variant_index as int],
                            subs@,
                        ) + seq![".."@]);
                    } else {
                        assert(parts.deep_view() =~= spec_field_pat_parts(
                            self.unit,
                            *body,
                            self.unit.adts@[adt as int].variants@[variant_index as int],
                            subs@,
                        ) + Seq::<Seq<char>>::empty());
                    }
                }
                let fields = join_strs(&parts, ", ");
                let mut s = path;
                s.append(" { ");
                s.append(fields.as_str());
                s.append(" }");
                s
            },
        }
    }

    /// Renders `name: subpattern` for each matched field, looking the
    /// declared name up from the variant metadata.
    fn field_pat_parts(
        &self,
        body: &crate::desugar::Body,
        adt: crate::types::AdtId,
        variant_index: usize,
        subs: &Vec<FieldPat>,
    ) -> (r: Vec<String>)
        requires
            adt < self.unit.adts@.len(),
            variant_index < self.unit.adts@[adt as int].variants@.len(),
        ensures
            r.deep_view() == spec_field_pat_parts(
                self.unit,
                *body,
                self.unit.adts@[adt as int].variants@[variant_index as int],
                subs@,
            ),
        decreases *subs, 2int, 0int,
    {
        let ghost variant = self.unit.adts@[adt as int].variants@[variant_index as int];
        let mut parts: Vec<String> = Vec::new();
        let mut i: usize = 0;
        proof {
            assert(parts.deep_view() =~= spec_field_pat_parts(
                self.unit,
                *body,
                variant,
                subs@.take(0),
            ));
        }
        while i < subs.len()
            invariant
                0 <= i <= subs@.len(),
                adt < self.unit.adts@.len(),
                variant_index < self.unit.adts@[adt as int].variants@.len(),
                variant == self.unit.adts@[adt as int].variants@[variant_index as int],
                parts.deep_view() == spec_field_pat_parts(
                    self.unit,
                    *body,
                    variant,
                    subs@.take(i as int),
                ),
            decreases subs@.len() - i,
        {
            proof {
                assert(subs@.take(i + 1).drop_last() =~= subs@.take(i as int));
                assert(subs@.take(i + 1).last() == subs@[i as int]);
                assert(decreases_to!(subs@ => subs@[i as int]));
            }
            let ghost pre = parts.deep_view();
            let fp = &subs[i];
            let mut one: String = if fp.field < self.unit.adts[adt].variants[variant_index].fields.len() {
                self.unit.adts[adt].variants[variant_index].fields[fp.field].name.clone()
            } else {
                "?".to_owned()
            };
            one.append(": ");
            let sub = self.pat(body, &fp.pattern);
            one.append(sub.as_str());
            parts.push(one);
            proof {
                assert(parts.deep_view() =~= spec_field_pat_parts(
                    self.unit,
                    *body,
                    variant,
                    subs@.take(i + 1),
                ));
            }
            i += 1;
        }
        proof {
            assert(subs@.take(subs@.len() as int) =~= subs@);
        }
        parts
    }
}

/// Saturating addition used to compute recursion budgets.
pub open spec fn spec_add_sat(a: nat, b: nat) -> nat {
    if a + b <= usize::MAX {
        a + b
    } else {
        usize::MAX as nat
    }
}

fn add_sat(a: usize, b: usize) -> (r: usize)
    ensures
        r as nat == spec_add_sat(a as nat, b as nat),
{
    if a <= usize::MAX - b {
        a + b
    } else {
        usize::MAX
    }
}

/// The recursion budget for rendering one body: one step per node of any
/// arena, plus one.
pub open spec fn spec_body_fuel(u: Unit, b: int) -> nat {
    if 0 <= b < u.bodies@.len() {
        match u.bodies@[b] {
            Some(body) => spec_add_sat(
                spec_add_sat(
                    spec_add_sat(
                        spec_add_sat(body.thir.exprs@.len(), body.thir.stmts@.len()),
                        body.thir.blocks@.len(),
                    ),
                    body.thir.arms@.len(),
                ),
                1,
            ),
            None => 0,
        }
    } else {
        0
    }
}

/// The `(field, index)` key list of an ADT literal's field list.
pub open spec fn spec_field_expr_keys(fields: Seq<crate::thir::FieldExpr>) -> Seq<(usize, usize)> {
    Seq::new(fields.len(), |i: int| (fields[i].name, i as usize))
}

/// The rendering of the expression node `id` of body `b`.
pub open spec fn spec_expr(u: Unit, b: int, fuel: nat, id: int) -> Seq<char>
    decreases u.bodies@.len() - b, fuel, 0int,
{
    if fuel == 0 {
        spec_placeholder()
    } else if !(0 <= b < u.bodies@.len()) {
        spec_placeholder()
    } else {
        match u.bodies@[b] {
            None => spec_placeholder(),
            Some(body) => {
                if !(0 <= id < body.thir.exprs@.len()) {
                    spec_placeholder()
                } else {
                    let node = body.thir.exprs@[id];
                    let fm = (fuel - 1) as nat;
                    match node.kind {
                        ExprKind::Scope { value, .. } => spec_expr(u, b, fm, value as int),
                        ExprKind::Boxed { value } => "Box::new("@ + spec_expr(u, b, fm, value as int)
                            + ")"@,
                        ExprKind::If { cond, then, else_opt } => match else_opt {
                            Some(el) => "if "@ + spec_expr(u, b, fm, cond as int) + " "@
                                + spec_expr_in_block(u, b, fm, then as int) + " else "@
                                + spec_expr_in_block(u, b, fm, el as int),
                            None => "if "@ + spec_expr(u, b, fm, cond as int) + " "@
                                + spec_expr_in_block(u, b, fm, then as int),
                        },
                        ExprKind::Call { fun, args } => spec_expr(u, b, fm, fun as int) + "("@
                            + spec_join(spec_expr_list(u, b, fm, args@), ", "@) + ")"@,
                        ExprKind::ByUse { expr } => spec_expr(u, b, fm, expr as int) + ".use"@,
                        ExprKind::Deref { arg } => "*"@ + spec_expr(u, b, fm, arg as int),
                        ExprKind::Binary { op, lhs, rhs } => spec_expr(u, b, fm, lhs as int) + " "@
                            + spec_bin_op(op) + " "@ + spec_expr(u, b, fm, rhs as int),
                        ExprKind::LogicalOp { op, lhs, rhs } => {
                            let sym = match op {
                                LogicalOp::And => "&&"@,
                                LogicalOp::Or => "||"@,
                            };
                            spec_expr(u, b, fm, lhs as int) + " "@ + sym + " "@ + spec_expr(
                                u,
                                b,
                                fm,
                                rhs as int,
                            )
                        },
                        ExprKind::Unary { op, arg } => spec_un_op(op) + spec_expr(
                            u,
                            b,
                            fm,
                            arg as int,
                        ),
                        ExprKind::Cast { source } => "("@ + spec_expr(u, b, fm, source as int)
                            + " as "@ + spec_ty_by_id(u, node.ty as int) + ")"@,
                        ExprKind::Use { source } => spec_expr(u, b, fm, source as int),
                        ExprKind::NeverToAny { source } => spec_expr(u, b, fm, source as int),
                        ExprKind::PointerCoercion { source } => "("@ + spec_expr(
                            u,
                            b,
                            fm,
                            source as int,
                        ) + " as "@ + spec_ty_by_id(u, node.ty as int) + ")"@,
                        ExprKind::Loop { body: lb } => "loop "@ + spec_expr_in_block(
                            u,
                            b,
                            fm,
                            lb as int,
                        ),
                        ExprKind::Let { expr, pat } => "let "@ + spec_pat(u, body, pat) + " = "@
                            + spec_expr(u, b, fm, expr as int),
                        ExprKind::Match { scrutinee, arms } => "match ("@ + spec_expr(
                            u,
                            b,
                            fm,
                            scrutinee as int,
                        ) + ") {\n"@ + spec_arms_concat(u, b, fm, arms@) + "}"@,
                        ExprKind::Block { block } => spec_block(u, b, fm, block as int),
                        ExprKind::Assign { lhs, rhs } => spec_expr(u, b, fm, lhs as int) + " = "@
                            + spec_expr(u, b, fm, rhs as int),
                        ExprKind::AssignOp { op, lhs, rhs } => spec_expr(u, b, fm, lhs as int)
                            + " "@ + spec_assign_op(op) + "= "@ + spec_expr(u, b, fm, rhs as int),
                        ExprKind::Field { lhs, name } => spec_expr(u, b, fm, lhs as int) + "."@
                            + spec_dec(name as nat),
                        ExprKind::Index { lhs, index } => spec_expr(u, b, fm, lhs as int) + "["@
                            + spec_expr(u, b, fm, index as int) + "]"@,
                        ExprKind::VarRef { id: vid } => spec_local_name(body, vid),
                        ExprKind::UpvarRef { var } => spec_local_name(body, var),
                        ExprKind::Borrow { borrow_kind, arg } => {
                            let prefix = match borrow_kind {
                                BorrowKind::Mut => "&mut "@,
                                _ => "&"@,
                            };
                            prefix + spec_expr(u, b, fm, arg as int)
                        },
                        ExprKind::RawBorrow { mutability, arg } => {
                            let prefix = match mutability {
                                Mutability::Mut => "&raw mut "@,
                                Mutability::Not => "&raw const "@,
                            };
                            prefix + spec_expr(u, b, fm, arg as int)
                        },
                        ExprKind::Break { value } => match value {
                            Some(v) => "break "@ + spec_expr(u, b, fm, v as int),
                            None => "break"@,
                        },
                        ExprKind::Continue => "continue"@,
                        ExprKind::Return { value } => match value {
                            Some(v) => "return "@ + spec_expr(u, b, fm, v as int),
                            None => "return"@,
                        },
                        ExprKind::Become { value } => "become "@ + spec_expr(u, b, fm, value as int),
                        ExprKind::ConstBlock => "const { /* ... */ }"@,
                        ExprKind::Repeat { value, count } => "["@ + spec_expr(u, b, fm, value as int)
                            + "; "@ + spec_dec(count as nat) + "]"@,
                        ExprKind::Array { fields } => "["@ + spec_join(
                            spec_expr_list(u, b, fm, fields@),
                            ", "@,
                        ) + "]"@,
                        ExprKind::Tuple { fields } => "("@ + spec_concat_comma(
                            spec_expr_list(u, b, fm, fields@),
                        ) + ")"@,
                        ExprKind::Adt { data } => {
                            if data.adt < u.adts@.len() && data.variant_index < u.adts@[
                                data.adt as int].variants@.len() {
                                let path = spec_path_with_args(
                                    u,
                                    u.adts@[data.adt as int].def as int,
                                    data.args@,
                                    PATH_DEPTH,
                                );
                                let head = if u.adts@[data.adt as int].is_enum {
                                    path + "::"@ + u.adts@[data.adt as int].variants@[
                                        data.variant_index as int].name@
                                } else {
                                    path
                                };
                                if data.fields@.len() == 0 {
                                    head + "{}"@
                                } else {
                                    let sorted = spec_sort_pairs(
                                        spec_field_expr_keys(data.fields@),
                                    );
                                    let parts = spec_adt_field_parts(
                                        u,
                                        b,
                                        fm,
                                        data.fields@,
                                        data.adt as int,
                                        data.variant_index as int,
                                        sorted,
                                    );
                                    let withbase = match data.base {
                                        Some(be) => parts + seq![
                                            ".."@ + spec_expr(u, b, fm, be as int),
                                        ],
                                        None => parts,
                                    };
                                    head + "{ "@ + spec_join(withbase, ", "@) + " }"@
                                }
                            } else {
                                spec_placeholder()
                            }
                        },
                        ExprKind::PlaceTypeAscription { source } => spec_expr(
                            u,
                            b,
                            fm,
                            source as int,
                        ),
                        ExprKind::ValueTypeAscription { source } => spec_expr(
                            u,
                            b,
                            fm,
                            source as int,
                        ),
                        ExprKind::PlaceUnwrapUnsafeBinder { source } => spec_expr(
                            u,
                            b,
                            fm,
                            source as int,
                        ),
                        ExprKind::ValueUnwrapUnsafeBinder { source } => spec_expr(
                            u,
                            b,
                            fm,
                            source as int,
                        ),
                        ExprKind::WrapUnsafeBinder { source } => spec_expr(u, b, fm, source as int),
                        ExprKind::Closure { closure_id } => {
                            if b < closure_id < u.bodies@.len() {
                                match spec_print_body(u, closure_id as int) {
                                    Some(pr) => "|"@ + pr.0 + "| "@ + pr.1,
                                    None => "todo!(\"missing body for closure\")"@,
                                }
                            } else {
                                "todo!(\"missing body for closure\")"@
                            }
                        },
                        ExprKind::Literal { lit, neg } => spec_literal(lit, neg),
                        ExprKind::NonHirLiteral { value } => spec_dec(value as nat),
                        ExprKind::ZstLiteral => {
                            if node.ty < u.tys@.len() {
                                match u.tys@[node.ty as int] {
                                    Ty::FnDef { def, args } => spec_path_with_args(
                                        u,
                                        def as int,
                                        args@,
                                        PATH_DEPTH,
                                    ),
                                    _ => "()"@,
                                }
                            } else {
                                "()"@
                            }
                        },
                        ExprKind::NamedConst { def, args } => spec_path_with_args(
                            u,
                            def as int,
                            args@,
                            PATH_DEPTH,
                        ),
                        ExprKind::ConstParam { name } => name@,
                        ExprKind::StaticRef { def } => {
                            let prefix = if node.ty < u.tys@.len() {
                                match u.tys@[node.ty as int] {
                                    Ty::Ref { mutability: Mutability::Mut, .. } => "&mut "@,
                                    Ty::Ref { mutability: Mutability::Not, .. } => "&"@,
                                    Ty::RawPtr { mutability: Mutability::Mut, .. } => "&raw mut"@,
                                    Ty::RawPtr { mutability: Mutability::Not, .. } => "&raw const"@,
                                    _ => "&"@,
                                }
                            } else {
                                "&"@
                            };
                            prefix + " "@ + crate::print::types::spec_path(u, def as int)
                        },
                        ExprKind::InlineAsm => "asm!(...)"@,
                        ExprKind::ThreadLocalRef { def } => "thread_local!("@
                            + crate::print::types::spec_path(u, def as int) + ")"@,
                        ExprKind::Yield { value } => "yield "@ + spec_expr(u, b, fm, value as int),
                    }
                }
            },
        }
    }
}

/// The renderings of a list of expression operands.
pub open spec fn spec_expr_list(u: Unit, b: int, fuel: nat, ids: Seq<ExprId>) -> Seq<Seq<char>>
    decreases u.bodies@.len() - b, fuel, ids.len(),
{
    if ids.len() == 0 {
        Seq::empty()
    } else {
        spec_expr_list(u, b, fuel, ids.drop_last()) + seq![
            spec_expr(u, b, fuel, ids.last() as int),
        ]
    }
}

/// The `name: value` renderings of an ADT literal's fields in the sorted
/// order, with declared names from the variant metadata.
pub open spec fn spec_adt_field_parts(
    u: Unit,
    b: int,
    fuel: nat,
    fields: Seq<crate::thir::FieldExpr>,
    adt: int,
    vi: int,
    sorted: Seq<(usize, usize)>,
) -> Seq<Seq<char>>
    decreases u.bodies@.len() - b, fuel, sorted.len(),
{
    if sorted.len() == 0 {
        Seq::empty()
    } else {
        let prev = spec_adt_field_parts(u, b, fuel, fields, adt, vi, sorted.drop_last());
        let k = sorted.last().1;
        let one = if k < fields.len() {
            let fe = fields[k as int];
            let name = if 0 <= adt < u.adts@.len() && 0 <= vi < u.adts@[adt].variants@.len()
                && fe.name < u.adts@[adt].variants@[vi].fields@.len() {
                u.adts@[adt].variants@[vi].fields@[fe.name as int].name@
            } else {
                "?"@
            };
            name + ": "@ + spec_expr(u, b, fuel, fe.expr as int)
        } else {
            spec_placeholder()
        };
        prev + seq![one]
    }
}

/// An expression appearing directly as the child of a block: transparent
/// wrappers unwrap, a block renders as itself, and anything else is wrapped
/// in braces to preserve block-expression semantics.
pub open spec fn spec_expr_in_block(u: Unit, b: int, fuel: nat, id: int) -> Seq<char>
    decreases u.bodies@.len() - b, fuel, 0int,
{
    if fuel == 0 {
        spec_placeholder()
    } else if !(0 <= b < u.bodies@.len()) {
        spec_placeholder()
    } else {
        match u.bodies@[b] {
            None => spec_placeholder(),
            Some(body) => {
                if !(0 <= id < body.thir.exprs@.len()) {
                    spec_placeholder()
                } else {
                    let fm = (fuel - 1) as nat;
                    match body.thir.exprs@[id].kind {
                        ExprKind::Block { block } => spec_block(u, b, fm, block as int),
                        ExprKind::Scope { value, .. } => spec_expr_in_block(u, b, fm, value as int),
                        ExprKind::Use { source } => spec_expr_in_block(u, b, fm, source as int),
                        ExprKind::NeverToAny { source } => spec_expr_in_block(
                            u,
                            b,
                            fm,
                            source as int,
                        ),
                        ExprKind::PlaceUnwrapUnsafeBinder { source } => spec_expr_in_block(
                            u,
                            b,
                            fm,
                            source as int,
                        ),
                        ExprKind::ValueUnwrapUnsafeBinder { source } => spec_expr_in_block(
                            u,
                            b,
                            fm,
                            source as int,
                        ),
                        ExprKind::WrapUnsafeBinder { source } => spec_expr_in_block(
                            u,
                            b,
                            fm,
                            source as int,
                        ),
                        ExprKind::PlaceTypeAscription { source } => spec_expr_in_block(
                            u,
                            b,
                            fm,
                            source as int,
                        ),
                        ExprKind::ValueTypeAscription { source } => spec_expr_in_block(
                            u,
                            b,
                            fm,
                            source as int,
                        ),
                        _ => "{ "@ + spec_expr(u, b, fm, id) + " }"@,
                    }
                }
            },
        }
    }
}

/// The rendering of a block: a safety qualifier when the block demands one,
/// the statements in order, and the optional trailing expression.
pub open spec fn spec_block(u: Unit, b: int, fuel: nat, blk: int) -> Seq<char>
    decreases u.bodies@.len() - b, fuel, 0int,
{
    if fuel == 0 {
        spec_placeholder()
    } else if !(0 <= b < u.bodies@.len()) {
        spec_placeholder()
    } else {
        match u.bodies@[b] {
            None => spec_placeholder(),
            Some(body) => {
                if !(0 <= blk < body.thir.blocks@.len()) {
                    spec_placeholder()
                } else {
                    let bl = body.thir.blocks@[blk];
                    let fm = (fuel - 1) as nat;
                    let prefix = match bl.safety_mode {
                        BlockSafety::Safe => Seq::<char>::empty(),
                        BlockSafety::ExplicitUnsafe => "unsafe "@,
                    };
                    match bl.expr {
                        Some(ee) => prefix + "{\n"@ + spec_stmt_concat(u, b, fm, bl.stmts@)
                            + spec_expr(u, b, fm, ee as int) + "\n"@ + "}"@,
                        None => prefix + "{\n"@ + spec_stmt_concat(u, b, fm, bl.stmts@) + "}"@,
                    }
                }
            },
        }
    }
}

/// The concatenated renderings of a statement list.
pub open spec fn spec_stmt_concat(u: Unit, b: int, fuel: nat, sids: Seq<crate::thir::StmtId>) -> Seq<
    char,
>
    decreases u.bodies@.len() - b, fuel, sids.len(),
{
    if sids.len() == 0 {
        Seq::empty()
    } else {
        spec_stmt_concat(u, b, fuel, sids.drop_last()) + spec_stmt(u, b, fuel, sids.last() as int)
    }
}

/// The rendering of one statement.
pub open spec fn spec_stmt(u: Unit, b: int, fuel: nat, sid: int) -> Seq<char>
    decreases u.bodies@.len() - b, fuel, 0int,
{
    if fuel == 0 {
        spec_placeholder()
    } else if !(0 <= b < u.bodies@.len()) {
        spec_placeholder()
    } else {
        match u.bodies@[b] {
            None => spec_placeholder(),
            Some(body) => {
                if !(0 <= sid < body.thir.stmts@.len()) {
                    spec_placeholder()
                } else {
                    let fm = (fuel - 1) as nat;
                    match body.thir.stmts@[sid].kind {
                        StmtKind::Expr { expr } => spec_expr(u, b, fm, expr as int) + ";\n"@,
                        StmtKind::Let { pattern, initializer, else_block, .. } => {
                            let head = "let "@ + spec_pat(u, body, pattern);
                            let with_init = match initializer {
                                Some(init) => head + " = "@ + spec_expr(u, b, fm, init as int),
                                None => head,
                            };
                            let with_else = match else_block {
                                Some(eb) => with_init + " else "@ + spec_block(u, b, fm, eb as int),
                                None => with_init,
                            };
                            with_else + ";\n"@
                        },
                    }
                }
            },
        }
    }
}

/// The concatenated renderings of a match's arms.
pub open spec fn spec_arms_concat(u: Unit, b: int, fuel: nat, aids: Seq<crate::thir::ArmId>) -> Seq<
    char,
>
    decreases u.bodies@.len() - b, fuel, aids.len(),
{
    if aids.len() == 0 {
        Seq::empty()
    } else {
        spec_arms_concat(u, b, fuel, aids.drop_last()) + spec_arm(u, b, fuel, aids.last() as int)
    }
}

/// The rendering of one match arm.
pub open spec fn spec_arm(u: Unit, b: int, fuel: nat, aid: int) -> Seq<char>
    decreases u.bodies@.len() - b, fuel, 0int,
{
    if fuel == 0 {
        spec_placeholder()
    } else if !(0 <= b < u.bodies@.len()) {
        spec_placeholder()
    } else {
        match u.bodies@[b] {
            None => spec_placeholder(),
            Some(body) => {
                if !(0 <= aid < body.thir.arms@.len()) {
                    spec_placeholder()
                } else {
                    let arm = body.thir.arms@[aid];
                    let fm = (fuel - 1) as nat;
                    let head = spec_pat(u, body, arm.pattern) + " "@;
                    let with_guard = match arm.guard {
                        Some(g) => head + "if "@ + spec_expr(u, b, fm, g as int) + " "@,
                        None => head,
                    };
                    with_guard + "=> "@ + spec_expr(u, b, fm, arm.body as int) + ",\n"@
                }
            },
        }
    }
}

/// The renderings of a body's parameter patterns.
pub open spec fn spec_param_parts(u: Unit, body: crate::desugar::Body, params: Seq<
    crate::thir::Param>) -> Seq<Seq<char>>
    decreases params.len(),
{
    if params.len() == 0 {
        Seq::empty()
    } else {
        spec_param_parts(u, body, params.drop_last()) + seq![
            match params.last().pat {
                Some(pt) => spec_pat(u, body, pt),
                None => "_"@,
            },
        ]
    }
}

/// The full rendering of body `b`: its parameter patterns and its block
/// text; `None` when the host never produced the body.
pub open spec fn spec_printed_body(u: Unit, b: int) -> Option<(Seq<Seq<char>>, Seq<char>)>
    decreases u.bodies@.len() - b, spec_body_fuel(u, b) + 2, 0int,
{
    if !(0 <= b < u.bodies@.len()) {
        None
    } else {
        match u.bodies@[b] {
            None => None,
            Some(body) => Some(
                (
                    spec_param_parts(u, body, body.thir.params@),
                    spec_expr_in_block(u, b, spec_body_fuel(u, b), body.root_expr as int),
                ),
            ),
        }
    }
}

/// Like [`spec_printed_body`], with the parameters joined for splicing into
/// a declaration.
pub open spec fn spec_print_body(u: Unit, b: int) -> Option<(Seq<char>, Seq<char>)>
    decreases u.bodies@.len() - b, spec_body_fuel(u, b) + 3, 0int,
{
    match spec_printed_body(u, b) {
        Some(pr) => Some((spec_join(pr.0, ", "@), pr.1)),
        None => None,
    }
}

/// The cache only ever holds what the body renders to.
pub open spec fn cache_inv(u: Unit, c: crate::print::RenderCache) -> bool {
    &&& c.printed@.len() == u.bodies@.len()
    &&& forall|b: int|
        0 <= b < c.printed@.len() ==> match #[trigger] c.printed@[b] {
            Some(pb) => match spec_printed_body(u, b) {
                Some(pr) => pb.params.deep_view() == pr.0 && pb.body@ == pr.1,
                None => false,
            },
            None => true,
        }
}

impl CratePrinter {
    /// The recursion budget for rendering body `b`.
    fn body_fuel(&self, b: BodyId) -> (r: usize)
        ensures
            r as nat == spec_body_fuel(self.unit, b as int),
    {
        if b >= self.unit.bodies.len() {
            return 0;
        }
        match &self.unit.bodies[b] {
            Some(bd) => add_sat(
                add_sat(
                    add_sat(add_sat(bd.thir.exprs.len(), bd.thir.stmts.len()), bd.thir.blocks.len()),
                    bd.thir.arms.len(),
                ),
                1,
            ),
            None => 0,
        }
    }

    /// Renders each parameter pattern of a body.
    fn param_parts(&self, bd: &crate::desugar::Body) -> (r: Vec<String>)
        ensures
            r.deep_view() == spec_param_parts(self.unit, *bd, bd.thir.params@),
    {
        let mut parts: Vec<String> = Vec::new();
        let mut i: usize = 0;
        proof {
            assert(parts.deep_view() =~= spec_param_parts(self.unit, *bd, bd.thir.params@.take(0)));
        }
        while i < bd.thir.params.len()
            invariant
                0 <= i <= bd.thir.params@.len(),
                parts.deep_view() == spec_param_parts(
                    self.unit,
                    *bd,
                    bd.thir.params@.take(i as int),
                ),
            decreases bd.thir.params@.len() - i,
        {
            proof {
                assert(bd.thir.params@.take(i + 1).drop_last() =~= bd.thir.params@.take(i as int));
                assert(bd.thir.params@.take(i + 1).last() == bd.thir.params@[i as int]);
            }
            let ghost pre = parts.deep_view();
            let one: String = match &bd.thir.params[i].pat {
                Some(pt) => self.pat(bd, pt),
                None => "_".to_owned(),
            };
            parts.push(one);
            proof {
                assert(parts.deep_view() =~= spec_param_parts(
                    self.unit,
                    *bd,
                    bd.thir.params@.take(i + 1),
                ));
            }
            i += 1;
        }
        proof {
            assert(bd.thir.params@.take(bd.thir.params@.len() as int) =~= bd.thir.params@);
        }
        parts
    }

    /// Renders body `b` whole: cached bodies are reused, so repeated
    /// references within one unit render identically and once.
    pub fn printed_body(&self, cache: &mut crate::print::RenderCache, b: BodyId) -> (r: Option<
        PrintedBody,
    >)
        requires
            cache_inv(self.unit, *old(cache)),
        ensures
            cache_inv(self.unit, *final(cache)),
            match r {
                Some(pb) => match spec_printed_body(self.unit, b as int) {
                    Some(pr) => pb.params.deep_view() == pr.0 && pb.body@ == pr.1,
                    None => false,
                },
                None => spec_printed_body(self.unit, b as int) is None,
            },
        decreases self.unit.bodies@.len() - b, spec_body_fuel(self.unit, b as int) + 2, 0int,
    {
        if b >= self.unit.bodies.len() {
            return None;
        }
        match &cache.printed[b] {
            Some(pb) => {
                return Some(pb.duplicate());
            },
            None => {},
        }
        let bd = match &self.unit.bodies[b] {
            Some(bd) => bd,
            None => {
                return None;
            },
        };
        let params = self.param_parts(bd);
        let fuel = self.body_fuel(b);
        let body_txt = self.expr_in_block(cache, b, fuel, bd.root_expr);
        let pb = PrintedBody { params, body: body_txt };
        let copy = pb.duplicate();
        let ghost old_cache = cache.printed@;
        cache.printed.set(b, Some(pb));
        proof {
            assert forall|j: int| 0 <= j < cache.printed@.len() implies match #[trigger] cache.printed@[
            j] {
                Some(q) => match spec_printed_body(self.unit, j) {
                    Some(pr) => q.params.deep_view() == pr.0 && q.body@ == pr.1,
                    None => false,
                },
                None => true,
            } by {
                if j != b {
                    assert(cache.printed@[j] == old_cache[j]);
                }
            }
        }
        Some(copy)
    }

    /// Renders body `b` as a joined parameter list and a block text, for
    /// splicing into a declaration.
    pub fn print_body(&self, cache: &mut crate::print::RenderCache, b: BodyId) -> (r: Option<
        (String, String),
    >)
        requires
            cache_inv(self.unit, *old(cache)),
        ensures
            cache_inv(self.unit, *final(cache)),
            match r {
                Some(pair) => spec_print_body(self.unit, b as int) == Some((pair.0@, pair.1@)),
                None => spec_print_body(self.unit, b as int) is None,
            },
        decreases self.unit.bodies@.len() - b, spec_body_fuel(self.unit, b as int) + 3, 0int,
    {
        match self.printed_body(cache, b) {
            Some(pb) => {
                let joined = join_strs(&pb.params, ", ");
                Some((joined, pb.body))
            },
            None => None,
        }
    }

    /// Renders the parameter pattern `index` of the body `b`, when both
    /// exist.
    pub fn body_param_pat(&self, cache: &mut crate::print::RenderCache, b: BodyId, index: usize)
        -> (r: Option<String>)
        requires
            cache_inv(self.unit, *old(cache)),
        ensures
            cache_inv(self.unit, *final(cache)),
            match r {
                Some(s) => match spec_printed_body(self.unit, b as int) {
                    Some(pr) => index < pr.0.len() && s@ == pr.0[index as int],
                    None => false,
                },
                None => match spec_printed_body(self.unit, b as int) {
                    Some(pr) => index >= pr.0.len(),
                    None => true,
                },
            },
    {
        match self.printed_body(cache, b) {
            Some(pb) => {
                if index < pb.params.len() {
                    Some(pb.params[index].clone())
                } else {
                    None
                }
            },
            None => None,
        }
    }

    /// Renders each expression of a list of operands.
    fn expr_list(&self, cache: &mut crate::print::RenderCache, b: BodyId, fuel: usize, ids: &Vec<
        ExprId,
    >) -> (r: Vec<String>)
        requires
            cache_inv(self.unit, *old(cache)),
        ensures
            cache_inv(self.unit, *final(cache)),
            r.deep_view() == spec_expr_list(self.unit, b as int, fuel as nat, ids@),
        decreases self.unit.bodies@.len() - b, fuel, ids@.len(),
    {
        let mut parts: Vec<String> = Vec::new();
        let mut i: usize = 0;
        proof {
            assert(parts.deep_view() =~= spec_expr_list(
                self.unit,
                b as int,
                fuel as nat,
                ids@.take(0),
            ));
        }
        while i < ids.len()
            invariant
                0 <= i <= ids@.len(),
                cache_inv(self.unit, *cache),
                parts.deep_view() == spec_expr_list(
                    self.unit,
                    b as int,
                    fuel as nat,
                    ids@.take(i as int),
                ),
            decreases ids@.len() - i,
        {
            proof {
                assert(ids@.take(i + 1).drop_last() =~= ids@.take(i as int));
                assert(ids@.take(i + 1).last() == ids@[i as int]);
            }
            let ghost pre = parts.deep_view();
            let one = self.expr(cache, b, fuel, ids[i]);
            parts.push(one);
            proof {
                assert(parts.deep_view() =~= spec_expr_list(
                    self.unit,
                    b as int,
                    fuel as nat,
                    ids@.take(i + 1),
                ));
            }
            i += 1;
        }
        proof {
            assert(ids@.take(ids@.len() as int) =~= ids@);
        }
        parts
    }

    /// Renders the sorted fields of an ADT literal.
    fn adt_field_parts(
        &self,
        cache: &mut crate::print::RenderCache,
        b: BodyId,
        fuel: usize,
        fields: &Vec<crate::thir::FieldExpr>,
        adt: crate::types::AdtId,
        vi: usize,
        sorted: &Vec<(usize, usize)>,
    ) -> (r: Vec<String>)
        requires
            cache_inv(self.unit, *old(cache)),
        ensures
            cache_inv(self.unit, *final(cache)),
            r.deep_view() == spec_adt_field_parts(
                self.unit,
                b as int,
                fuel as nat,
                fields@,
                adt as int,
                vi as int,
                sorted@,
            ),
        decreases self.unit.bodies@.len() - b, fuel, sorted@.len(),
    {
        let mut parts: Vec<String> = Vec::new();
        let mut i: usize = 0;
        proof {
            assert(parts.deep_view() =~= spec_adt_field_parts(
                self.unit,
                b as int,
                fuel as nat,
                fields@,
                adt as int,
                vi as int,
                sorted@.take(0),
            ));
        }
        while i < sorted.len()
            invariant
                0 <= i <= sorted@.len(),
                cache_inv(self.unit, *cache),
                parts.deep_view() == spec_adt_field_parts(
                    self.unit,
                    b as int,
                    fuel as nat,
                    fields@,
                    adt as int,
                    vi as int,
                    sorted@.take(i as int),
                ),
            decreases sorted@.len() - i,
        {
            proof {
                assert(sorted@.take(i + 1).drop_last() =~= sorted@.take(i as int));
                assert(sorted@.take(i + 1).last() == sorted@[i as int]);
            }
            let ghost pre = parts.deep_view();
            let k = sorted[i].1;
            let one: String = if k < fields.len() {
                let fe = fields[k];
                let mut nm: String = if adt < self.unit.adts.len() && vi < self.unit.adts[
                    adt].variants.len() && fe.name < self.unit.adts[adt].variants[
                    vi].fields.len() {
                    self.unit.adts[adt].variants[vi].fields[fe.name].name.clone()
                } else {
                    "?".to_owned()
                };
                nm.append(": ");
                let ev = self.expr(cache, b, fuel, fe.expr);
                nm.append(ev.as_str());
                nm
            } else {
                placeholder().to_owned()
            };
            parts.push(one);
            proof {
                assert(parts.deep_view() =~= spec_adt_field_parts(
                    self.unit,
                    b as int,
                    fuel as nat,
                    fields@,
                    adt as int,
                    vi as int,
                    sorted@.take(i + 1),
                ));
            }
            i += 1;
        }
        proof {
            assert(sorted@.take(sorted@.len() as int) =~= sorted@);
        }
        parts
    }

    /// The concatenated renderings of a statement list.
    fn stmt_concat(&self, cache: &mut crate::print::RenderCache, b: BodyId, fuel: usize, sids: &Vec<
        crate::thir::StmtId,
    >) -> (r: String)
        requires
            cache_inv(self.unit, *old(cache)),
        ensures
            cache_inv(self.unit, *final(cache)),
            r@ == spec_stmt_concat(self.unit, b as int, fuel as nat, sids@),
        decreases self.unit.bodies@.len() - b, fuel, sids@.len(),
    {
        let mut s = String::new();
        let mut i: usize = 0;
        proof {
            assert(s@ =~= spec_stmt_concat(self.unit, b as int, fuel as nat, sids@.take(0)));
        }
        while i < sids.len()
            invariant
                0 <= i <= sids@.len(),
                cache_inv(self.unit, *cache),
                s@ == spec_stmt_concat(self.unit, b as int, fuel as nat, sids@.take(i as int)),
            decreases sids@.len() - i,
        {
            proof {
                assert(sids@.take(i + 1).drop_last() =~= sids@.take(i as int));
                assert(sids@.take(i + 1).last() == sids@[i as int]);
            }
            let one = self.stmt(cache, b, fuel, sids[i]);
            s.append(one.as_str());
            i += 1;
        }
        proof {
            assert(sids@.take(sids@.len() as int) =~= sids@);
        }
        s
    }

    /// The concatenated renderings of a match's arms.
    fn arms_concat(&self, cache: &mut crate::print::RenderCache, b: BodyId, fuel: usize, aids: &Vec<
        crate::thir::ArmId,
    >) -> (r: String)
        requires
            cache_inv(self.unit, *old(cache)),
        ensures
            cache_inv(self.unit, *final(cache)),
            r@ == spec_arms_concat(self.unit, b as int, fuel as nat, aids@),
        decreases self.unit.bodies@.len() - b, fuel, aids@.len(),
    {
        let mut s = String::new();
        let mut i: usize = 0;
        proof {
            assert(s@ =~= spec_arms_concat(self.unit, b as int, fuel as nat, aids@.take(0)));
        }
        while i < aids.len()
            invariant
                0 <= i <= aids@.len(),
                cache_inv(self.unit, *cache),
                s@ == spec_arms_concat(self.unit, b as int, fuel as nat, aids@.take(i as int)),
            decreases aids@.len() - i,
        {
            proof {
                assert(aids@.take(i + 1).drop_last() =~= aids@.take(i as int));
                assert(aids@.take(i + 1).last() == aids@[i as int]);
            }
            let one = self.arm(cache, b, fuel, aids[i]);
            s.append(one.as_str());
            i += 1;
        }
        proof {
            assert(aids@.take(aids@.len() as int) =~= aids@);
        }
        s
    }

    /// Renders one statement: a bare expression statement or a let binding
    /// with its optional initializer and else block.
    pub fn stmt(&self, cache: &mut crate::print::RenderCache, b: BodyId, fuel: usize, sid:
        crate::thir::StmtId) -> (r: String)
        requires
            cache_inv(self.unit, *old(cache)),
        ensures
            cache_inv(self.unit, *final(cache)),
            r@ == spec_stmt(self.unit, b as int, fuel as nat, sid as int),
        decreases self.unit.bodies@.len() - b, fuel, 0int,
    {
        if fuel == 0 {
            return placeholder().to_owned();
        }
        if b >= self.unit.bodies.len() {
            return placeholder().to_owned();
        }
        let bd = match &self.unit.bodies[b] {
            Some(bd) => bd,
            None => {
                return placeholder().to_owned();
            },
        };
        if sid >= bd.thir.stmts.len() {
            return placeholder().to_owned();
        }
        let fm = fuel - 1;
        match &bd.thir.stmts[sid].kind {
            StmtKind::Expr { expr } => {
                let mut s = self.expr(cache, b, fm, *expr);
                s.append(";\n");
                s
            },
            StmtKind::Let { pattern, initializer, else_block, .. } => {
                let mut s = "let ".to_owned();
                let p = self.pat(bd, pattern);
                s.append(p.as_str());
                match initializer {
                    Some(init) => {
                        s.append(" = ");
                        let e = self.expr(cache, b, fm, *init);
                        s.append(e.as_str());
                    },
                    None => {},
                }
                match else_block {
                    Some(eb) => {
                        s.append(" else ");
                        let blk = self.block(cache, b, fm, *eb);
                        s.append(blk.as_str());
                    },
                    None => {},
                }
                s.append(";\n");
                s
            },
        }
    }

    /// Renders one match arm.
    pub fn arm(&self, cache: &mut crate::print::RenderCache, b: BodyId, fuel: usize, aid:
        crate::thir::ArmId) -> (r: String)
        requires
            cache_inv(self.unit, *old(cache)),
        ensures
            cache_inv(self.unit, *final(cache)),
            r@ == spec_arm(self.unit, b as int, fuel as nat, aid as int),
        decreases self.unit.bodies@.len() - b, fuel, 0int,
    {
        if fuel == 0 {
            return placeholder().to_owned();
        }
        if b >= self.unit.bodies.len() {
            return placeholder().to_owned();
        }
        let bd = match &self.unit.bodies[b] {
            Some(bd) => bd,
            None => {
                return placeholder().to_owned();
            },
        };
        if aid >= bd.thir.arms.len() {
            return placeholder().to_owned();
        }
        let fm = fuel - 1;
        let mut s = self.pat(bd, &bd.thir.arms[aid].pattern);
        s.append(" ");
        match &bd.thir.arms[aid].guard {
            Some(g) => {
                s.append("if ");
                let e = self.expr(cache, b, fm, *g);
                s.append(e.as_str());
                s.append(" ");
            },
            None => {},
        }
        s.append("=> ");
        let e = self.expr(cache, b, fm, bd.thir.arms[aid].body);
        s.append(e.as_str());
        s.append(",\n");
        s
    }

    /// Renders one block, reproducing its safety qualifier.
    pub fn block(&self, cache: &mut crate::print::RenderCache, b: BodyId, fuel: usize, blk:
        crate::thir::BlockId) -> (r: String)
        requires
            cache_inv(self.unit, *old(cache)),
        ensures
            cache_inv(self.unit, *final(cache)),
            r@ == spec_block(self.unit, b as int, fuel as nat, blk as int),
        decreases self.unit.bodies@.len() - b, fuel, 0int,
    {
        if fuel == 0 {
            return placeholder().to_owned();
        }
        if b >= self.unit.bodies.len() {
            return placeholder().to_owned();
        }
        let bd = match &self.unit.bodies[b] {
            Some(bd) => bd,
            None => {
                return placeholder().to_owned();
            },
        };
        if blk >= bd.thir.blocks.len() {
            return placeholder().to_owned();
        }
        let fm = fuel - 1;
        let mut s: String = match bd.thir.blocks[blk].safety_mode {
            BlockSafety::Safe => String::new(),
            BlockSafety::ExplicitUnsafe => "unsafe ".to_owned(),
        };
        s.append("{\n");
        let stmts_txt = self.stmt_concat(cache, b, fm, &bd.thir.blocks[blk].stmts);
        s.append(stmts_txt.as_str());
        match &bd.thir.blocks[blk].expr {
            Some(ee) => {
                let e = self.expr(cache, b, fm, *ee);
                s.append(e.as_str());
                s.append("\n");
            },
            None => {},
        }
        s.append("}");
        s
    }

    /// Renders an expression appearing directly as the child of a block.
    pub fn expr_in_block(&self, cache: &mut crate::print::RenderCache, b: BodyId, fuel: usize, id:
        ExprId) -> (r: String)
        requires
            cache_inv(self.unit, *old(cache)),
        ensures
            cache_inv(self.unit, *final(cache)),
            r@ == spec_expr_in_block(self.unit, b as int, fuel as nat, id as int),
        decreases self.unit.bodies@.len() - b, fuel, 0int,
    {
        if fuel == 0 {
            return placeholder().to_owned();
        }
        if b >= self.unit.bodies.len() {
            return placeholder().to_owned();
        }
        let bd = match &self.unit.bodies[b] {
            Some(bd) => bd,
            None => {
                return placeholder().to_owned();
            },
        };
        if id >= bd.thir.exprs.len() {
            return placeholder().to_owned();
        }
        let fm = fuel - 1;
        let step: Option<ExprId> = match &bd.thir.exprs[id].kind {
            ExprKind::Scope { value, .. } => Some(*value),
            ExprKind::Use { source } => Some(*source),
            ExprKind::NeverToAny { source } => Some(*source),
            ExprKind::PlaceUnwrapUnsafeBinder { source } => Some(*source),
            ExprKind::ValueUnwrapUnsafeBinder { source } => Some(*source),
            ExprKind::WrapUnsafeBinder { source } => Some(*source),
            ExprKind::PlaceTypeAscription { source } => Some(*source),
            ExprKind::ValueTypeAscription { source } => Some(*source),
            _ => None,
        };
        match step {
            Some(source) => self.expr_in_block(cache, b, fm, source),
            None => {
                let is_block: Option<crate::thir::BlockId> = match &bd.thir.exprs[id].kind {
                    ExprKind::Block { block } => Some(*block),
                    _ => None,
                };
                match is_block {
                    Some(blk) => self.block(cache, b, fm, blk),
                    None => {
                        let mut s = "{ ".to_owned();
                        let e = self.expr(cache, b, fm, id);
                        s.append(e.as_str());
                        s.append(" }");
                        s
                    },
                }
            },
        }
    }
}

impl CratePrinter {
    /// Renders one expression node.
    pub fn expr(&self, cache: &mut crate::print::RenderCache, b: BodyId, fuel: usize, id: ExprId)
        -> (r: String)
        requires
            cache_inv(self.unit, *old(cache)),
        ensures
            cache_inv(self.unit, *final(cache)),
            r@ == spec_expr(self.unit, b as int, fuel as nat, id as int),
        decreases self.unit.bodies@.len() - b, fuel, 0int,
    {
        if fuel == 0 {
            return placeholder().to_owned();
        }
        if b >= self.unit.bodies.len() {
            return placeholder().to_owned();
        }
        let bd = match &self.unit.bodies[b] {
            Some(bd) => bd,
            None => {
                return placeholder().to_owned();
            },
        };
        if id >= bd.thir.exprs.len() {
            return placeholder().to_owned();
        }
        let fm = fuel - 1;
        match &bd.thir.exprs[id].kind {
            ExprKind::Scope { value, .. } => self.expr(cache, b, fm, *value),
            ExprKind::Boxed { value } => {
                let mut s = "Box::new(".to_owned();
                let e = self.expr(cache, b, fm, *value);
                s.append(e.as_str());
                s.append(")");
                s
            },
            ExprKind::If { cond, then, else_opt } => {
                let mut s = "if ".to_owned();
                let c = self.expr(cache, b, fm, *cond);
                s.append(c.as_str());
                s.append(" ");
                let th = self.expr_in_block(cache, b, fm, *then);
                s.append(th.as_str());
                match else_opt {
                    Some(el) => {
                        s.append(" else ");
                        let e = self.expr_in_block(cache, b, fm, *el);
                        s.append(e.as_str());
                    },
                    None => {},
                }
                s
            },
            ExprKind::Call { fun, args } => {
                let mut s = self.expr(cache, b, fm, *fun);
                s.append("(");
                let parts = self.expr_list(cache, b, fm, args);
                let inner = join_strs(&parts, ", ");
                s.append(inner.as_str());
                s.append(")");
                s
            },
            ExprKind::ByUse { expr } => {
                let mut s = self.expr(cache, b, fm, *expr);
                s.append(".use");
                s
            },
            ExprKind::Deref { arg } => {
                let mut s = "*".to_owned();
                let e = self.expr(cache, b, fm, *arg);
                s.append(e.as_str());
                s
            },
            ExprKind::Binary { op, lhs, rhs } => {
                let mut s = self.expr(cache, b, fm, *lhs);
                s.append(" ");
                s.append(self.bin_op(*op));
                s.append(" ");
                let e = self.expr(cache, b, fm, *rhs);
                s.append(e.as_str());
                s
            },
            ExprKind::LogicalOp { op, lhs, rhs } => {
                let mut s = self.expr(cache, b, fm, *lhs);
                s.append(" ");
                match op {
                    LogicalOp::And => s.append("&&"),
                    LogicalOp::Or => s.append("||"),
                }
                s.append(" ");
                let e = self.expr(cache, b, fm, *rhs);
                s.append(e.as_str());
                s
            },
            ExprKind::Unary { op, arg } => {
                let mut s = self.un_op(*op).to_owned();
                let e = self.expr(cache, b, fm, *arg);
                s.append(e.as_str());
                s
            },
            ExprKind::Cast { source } => {
                let mut s = "(".to_owned();
                let e = self.expr(cache, b, fm, *source);
                s.append(e.as_str());
                s.append(" as ");
                let ty = self.ty(bd.thir.exprs[id].ty);
                s.append(ty.as_str());
                s.append(")");
                s
            },
            ExprKind::Use { source } => self.expr(cache, b, fm, *source),
            ExprKind::NeverToAny { source } => self.expr(cache, b, fm, *source),
            ExprKind::PointerCoercion { source } => {
                let mut s = "(".to_owned();
                let e = self.expr(cache, b, fm, *source);
                s.append(e.as_str());
                s.append(" as ");
                let ty = self.ty(bd.thir.exprs[id].ty);
                s.append(ty.as_str());
                s.append(")");
                s
            },
            ExprKind::Loop { body: lb } => {
                let mut s = "loop ".to_owned();
                let e = self.expr_in_block(cache, b, fm, *lb);
                s.append(e.as_str());
                s
            },
            ExprKind::Let { expr, pat } => {
                let mut s = "let ".to_owned();
                let p = self.pat(bd, pat);
                s.append(p.as_str());
                s.append(" = ");
                let e = self.expr(cache, b, fm, *expr);
                s.append(e.as_str());
                s
            },
            ExprKind::Match { scrutinee, arms } => {
                let mut s = "match (".to_owned();
                let e = self.expr(cache, b, fm, *scrutinee);
                s.append(e.as_str());
                s.append(") {\n");
                let body_txt = self.arms_concat(cache, b, fm, arms);
                s.append(body_txt.as_str());
                s.append("}");
                s
            },
            ExprKind::Block { block } => self.block(cache, b, fm, *block),
            ExprKind::Assign { lhs, rhs } => {
                let mut s = self.expr(cache, b, fm, *lhs);
                s.append(" = ");
                let e = self.expr(cache, b, fm, *rhs);
                s.append(e.as_str());
                s
            },
            ExprKind::AssignOp { op, lhs, rhs } => {
                let mut s = self.expr(cache, b, fm, *lhs);
                s.append(" ");
                s.append(self.assign_op(*op));
                s.append("= ");
                let e = self.expr(cache, b, fm, *rhs);
                s.append(e.as_str());
                s
            },
            ExprKind::Field { lhs, name } => {
                let mut s = self.expr(cache, b, fm, *lhs);
                s.append(".");
                let n = u128_to_dec(*name as u128);
                s.append(n.as_str());
                s
            },
            ExprKind::Index { lhs, index } => {
                let mut s = self.expr(cache, b, fm, *lhs);
                s.append("[");
                let e = self.expr(cache, b, fm, *index);
                s.append(e.as_str());
                s.append("]");
                s
            },
            ExprKind::VarRef { id: vid } => self.local_name(bd, *vid),
            ExprKind::UpvarRef { var } => self.local_name(bd, *var),
            ExprKind::Borrow { borrow_kind, arg } => {
                let mut s: String = match borrow_kind {
                    BorrowKind::Mut => "&mut ".to_owned(),
                    _ => "&".to_owned(),
                };
                let e = self.expr(cache, b, fm, *arg);
                s.append(e.as_str());
                s
            },
            ExprKind::RawBorrow { mutability, arg } => {
                let mut s: String = match mutability {
                    Mutability::Mut => "&raw mut ".to_owned(),
                    Mutability::Not => "&raw const ".to_owned(),
                };
                let e = self.expr(cache, b, fm, *arg);
                s.append(e.as_str());
                s
            },
            ExprKind::Break { value } => match value {
                Some(v) => {
                    let mut s = "break ".to_owned();
                    let e = self.expr(cache, b, fm, *v);
                    s.append(e.as_str());
                    s
                },
                None => "break".to_owned(),
            },
            ExprKind::Continue => "continue".to_owned(),
            ExprKind::Return { value } => match value {
                Some(v) => {
                    let mut s = "return ".to_owned();
                    let e = self.expr(cache, b, fm, *v);
                    s.append(e.as_str());
                    s
                },
                None => "return".to_owned(),
            },
            ExprKind::Become { value } => {
                let mut s = "become ".to_owned();
                let e = self.expr(cache, b, fm, *value);
                s.append(e.as_str());
                s
            },
            ExprKind::ConstBlock => "const { /* ... */ }".to_owned(),
            ExprKind::Repeat { value, count } => {
                let mut s = "[".to_owned();
                let e = self.expr(cache, b, fm, *value);
                s.append(e.as_str());
                s.append("; ");
                let n = u128_to_dec(*count);
                s.append(n.as_str());
                s.append("]");
                s
            },
            ExprKind::Array { fields } => {
                let parts = self.expr_list(cache, b, fm, fields);
                let inner = join_strs(&parts, ", ");
                let mut s = "[".to_owned();
                s.append(inner.as_str());
                s.append("]");
                s
            },
            ExprKind::Tuple { fields } => {
                let parts = self.expr_list(cache, b, fm, fields);
                let mut inner = String::new();
                let mut k: usize = 0;
                proof {
                    assert(inner@ =~= spec_concat_comma(parts.deep_view().take(0)));
                }
                while k < parts.len()
                    invariant
                        0 <= k <= parts@.len(),
                        inner@ == spec_concat_comma(parts.deep_view().take(k as int)),
                    decreases parts@.len() - k,
                {
                    proof {
                        assert(parts.deep_view().take(k + 1).drop_last()
                            =~= parts.deep_view().take(k as int));
                        assert(parts.deep_view().take(k + 1).last() == parts.deep_view()[k as int]);
                    }
                    inner.append(parts[k].as_str());
                    inner.append(",");
                    k += 1;
                }
                proof {
                    assert(parts.deep_view().take(parts@.len() as int) =~= parts.deep_view());
                }
                let mut s = "(".to_owned();
                s.append(inner.as_str());
                s.append(")");
                s
            },
            ExprKind::Adt { data } => {
                if data.adt < self.unit.adts.len() && data.variant_index < self.unit.adts[
                    data.adt].variants.len() {
                    proof {
                        assert(data.args@.subrange(0, data.args@.len() as int) =~= data.args@);
                    }
                    let mut s = self.path_with_args(
                        self.unit.adts[data.adt].def,
                        &data.args,
                        0,
                        data.args.len(),
                        PATH_DEPTH,
                    );
                    if self.unit.adts[data.adt].is_enum {
                        s.append("::");
                        s.append(self.unit.adts[data.adt].variants[data.variant_index].name.as_str());
                    }
                    if data.fields.len() == 0 {
                        s.append("{}");
                        s
                    } else {
                        let mut keys: Vec<(usize, usize)> = Vec::new();
                        let mut i: usize = 0;
                        proof {
                            assert(keys@ =~= spec_field_expr_keys(data.fields@).take(0));
                        }
                        while i < data.fields.len()
                            invariant
                                0 <= i <= data.fields@.len(),
                                keys@ == spec_field_expr_keys(data.fields@).take(i as int),
                            decreases data.fields@.len() - i,
                        {
                            keys.push((data.fields[i].name, i));
                            proof {
                                assert(keys@ =~= spec_field_expr_keys(data.fields@).take(i + 1));
                            }
                            i += 1;
                        }
                        proof {
                            assert(spec_field_expr_keys(data.fields@).take(
                                data.fields@.len() as int,
                            ) =~= spec_field_expr_keys(data.fields@));
                        }
                        let sorted = sort_pairs(&keys);
                        let mut parts = self.adt_field_parts(
                            cache,
                            b,
                            fm,
                            &data.fields,
                            data.adt,
                            data.variant_index,
                            &sorted,
                        );
                        let ghost no_base = parts.deep_view();
                        match &data.base {
                            Some(be) => {
                                let mut m = "..".to_owned();
                                let e = self.expr(cache, b, fm, *be);
                                m.append(e.as_str());
                                parts.push(m);
                                proof {
                                    assert(parts.deep_view() =~= no_base + seq![
                                        ".."@ + spec_expr(
                                            self.unit,
                                            b as int,
                                            fm as nat,
                                            *be as int,
                                        ),
                                    ]);
                                }
                            },
                            None => {},
                        }
                        let joined = join_strs(&parts, ", ");
                        s.append("{ ");
                        s.append(joined.as_str());
                        s.append(" }");
                        s
                    }
                } else {
                    placeholder().to_owned()
                }
            },
            ExprKind::PlaceTypeAscription { source } => self.expr(cache, b, fm, *source),
            ExprKind::ValueTypeAscription { source } => self.expr(cache, b, fm, *source),
            ExprKind::PlaceUnwrapUnsafeBinder { source } => self.expr(cache, b, fm, *source),
            ExprKind::ValueUnwrapUnsafeBinder { source } => self.expr(cache, b, fm, *source),
            ExprKind::WrapUnsafeBinder { source } => self.expr(cache, b, fm, *source),
            ExprKind::Closure { closure_id } => {
                let c = *closure_id;
                if b < c && c < self.unit.bodies.len() {
                    match self.print_body(cache, c) {
                        Some(pair) => {
                            let mut s = "|".to_owned();
                            s.append(pair.0.as_str());
                            s.append("| ");
                            s.append(pair.1.as_str());
                            s
                        },
                        None => "todo!(\"missing body for closure\")".to_owned(),
                    }
                } else {
                    "todo!(\"missing body for closure\")".to_owned()
                }
            },
            ExprKind::Literal { lit, neg } => self.literal(lit, *neg),
            ExprKind::NonHirLiteral { value } => u128_to_dec(*value),
            ExprKind::ZstLiteral => {
                let tid = bd.thir.exprs[id].ty;
                if tid < self.unit.tys.len() {
                    match &self.unit.tys[tid] {
                        Ty::FnDef { def, args } => {
                            proof {
                                assert(args@.subrange(0, args@.len() as int) =~= args@);
                            }
                            self.path_with_args(*def, args, 0, args.len(), PATH_DEPTH)
                        },
                        _ => "()".to_owned(),
                    }
                } else {
                    "()".to_owned()
                }
            },
            ExprKind::NamedConst { def, args } => {
                proof {
                    assert(args@.subrange(0, args@.len() as int) =~= args@);
                }
                self.path_with_args(*def, args, 0, args.len(), PATH_DEPTH)
            },
            ExprKind::ConstParam { name } => name.clone(),
            ExprKind::StaticRef { def } => {
                let tid = bd.thir.exprs[id].ty;
                let prefix: &'static str = if tid < self.unit.tys.len() {
                    match &self.unit.tys[tid] {
                        Ty::Ref { mutability: Mutability::Mut, .. } => "&mut ",
                        Ty::Ref { mutability: Mutability::Not, .. } => "&",
                        Ty::RawPtr { mutability: Mutability::Mut, .. } => "&raw mut",
                        Ty::RawPtr { mutability: Mutability::Not, .. } => "&raw const",
                        _ => "&",
                    }
                } else {
                    "&"
                };
                let mut s = prefix.to_owned();
                s.append(" ");
                let p = self.path(*def);
                s.append(p.as_str());
                s
            },
            ExprKind::InlineAsm => "asm!(...)".to_owned(),
            ExprKind::ThreadLocalRef { def } => {
                let mut s = "thread_local!(".to_owned();
                let p = self.path(*def);
                s.append(p.as_str());
                s.append(")");
                s
            },
            ExprKind::Yield { value } => {
                let mut s = "yield ".to_owned();
                let e = self.expr(cache, b, fm, *value);
                s.append(e.as_str());
                s
            },
        }
    }
}

/// The rendering of one top-level item: its visibility, its host-printed
/// header and, when it owns a body, the rendered parameters and block.  An
/// item whose body the host never produced is skipped with an omission.
pub open spec fn spec_item_text(u: Unit, k: int) -> Seq<char> {
    if !(0 <= k < u.items@.len()) {
        Seq::empty()
    } else {
        let item = u.items@[k];
        match item.body {
            None => crate::print::spec_print_visibility(u, item.def as int) + item.header@ + "\n"@,
            Some(bid) => match spec_print_body(u, bid as int) {
                Some(pr) => crate::print::spec_print_visibility(u, item.def as int) + item.header@
                    + "("@ + pr.0 + ") "@ + pr.1 + "\n"@,
                None => Seq::empty(),
            },
        }
    }
}

/// The concatenated renderings of the unit's first `k` items.
pub open spec fn spec_items_text(u: Unit, k: int) -> Seq<char>
    decreases k,
{
    if k <= 0 {
        Seq::empty()
    } else {
        spec_items_text(u, k - 1) + spec_item_text(u, k - 1)
    }
}

/// The whole-unit rendering: the attribute preamble, then every item, then
/// a pass through the external formatter when the result parses.
pub open spec fn spec_print_crate(u: Unit) -> Seq<char> {
    crate::print::spec_finished_unit(
        crate::print::spec_preamble() + spec_items_text(u, u.items@.len() as int),
    )
}

impl CratePrinter {
    /// Renders the whole unit: an attribute preamble enabling what expanded
    /// standard-library macros need, every item with its body replaced by
    /// this renderer's output, and a formatting pass for diff stability.
    pub fn print_crate(&self, cache: &mut crate::print::RenderCache) -> (r: String)
        requires
            cache_inv(self.unit, *old(cache)),
        ensures
            cache_inv(self.unit, *final(cache)),
            r@ == spec_print_crate(self.unit),
    {
        let mut assembled = crate::print::preamble().to_owned();
        let ghost pre0 = assembled@;
        let mut k: usize = 0;
        proof {
            assert(assembled@ =~= crate::print::spec_preamble() + spec_items_text(self.unit, 0));
        }
        while k < self.unit.items.len()
            invariant
                0 <= k <= self.unit.items@.len(),
                cache_inv(self.unit, *cache),
                assembled@ == crate::print::spec_preamble() + spec_items_text(
                    self.unit,
                    k as int,
                ),
            decreases self.unit.items@.len() - k,
        {
            let ghost pre = assembled@;
            let item_body: Option<BodyId> = self.unit.items[k].body;
            match item_body {
                None => {
                    let vis = self.print_visibility(self.unit.items[k].def);
                    assembled.append(vis.as_str());
                    assembled.append(self.unit.items[k].header.as_str());
                    assembled.append("\n");
                },
                Some(bid) => {
                    match self.print_body(cache, bid) {
                        Some(pair) => {
                            let vis = self.print_visibility(self.unit.items[k].def);
                            assembled.append(vis.as_str());
                            assembled.append(self.unit.items[k].header.as_str());
                            assembled.append("(");
                            assembled.append(pair.0.as_str());
                            assembled.append(") ");
                            assembled.append(pair.1.as_str());
                            assembled.append("\n");
                        },
                        None => {},
                    }
                },
            }
            proof {
                assert(assembled@ =~= pre + spec_item_text(self.unit, k as int));
                assert(pre + spec_item_text(self.unit, k as int) =~= crate::print::spec_preamble()
                    + spec_items_text(self.unit, k + 1));
            }
            k += 1;
        }
        crate::print::finish_unit(assembled)
    }
}

/// Law: field-order canonicalization.  The key sequence that drives the
/// rendering of struct-literal fields and of tuple-pattern fields is sorted
/// by declaration index, whatever order the typed tree stored them in, and
/// it keeps exactly the given entries.
pub proof fn lemma_sort_pairs_canonical(s: Seq<(usize, usize)>)
    ensures
        forall|i: int, j: int|
            0 <= i <= j < spec_sort_pairs(s).len() ==> (#[trigger] spec_sort_pairs(s)[i]).0 <= (
            #[trigger] spec_sort_pairs(s)[j]).0,
        spec_sort_pairs(s).to_multiset() == s.to_multiset(),
    decreases s.len(),
{
    broadcast use vstd::seq_lib::group_seq_lib_default;
    broadcast use vstd::multiset::group_multiset_axioms;

    if s.len() == 0 {
        assert(s =~= Seq::<(usize, usize)>::empty());
        assert(spec_sort_pairs(s) == Seq::<(usize, usize)>::empty());
        assert(spec_sort_pairs(s).to_multiset() == s.to_multiset());
    } else {
        let d = s.drop_last();
        let x = s.last();
        lemma_sort_pairs_canonical(d);
        lemma_insert_pair_canonical(spec_sort_pairs(d), x);
        assert(spec_sort_pairs(s).to_multiset() == spec_sort_pairs(d).to_multiset().insert(x));
        assert(spec_sort_pairs(d).to_multiset().insert(x) =~= d.to_multiset().insert(x));
        assert(s =~= d.push(x));
        d.to_multiset_ensures();
        assert(d.push(x).to_multiset() =~= d.to_multiset().insert(x));
        assert(spec_sort_pairs(s).to_multiset() == s.to_multiset());
    }
}

/// Inserting into a sorted run keeps it sorted and adds exactly the entry.
proof fn lemma_insert_pair_canonical(s: Seq<(usize, usize)>, x: (usize, usize))
    requires
        forall|i: int, j: int| 0 <= i <= j < s.len() ==> (#[trigger] s[i]).0 <= (#[trigger] s[j]).0,
    ensures
        forall|i: int, j: int|
            0 <= i <= j < spec_insert_pair(s, x).len() ==> (#[trigger] spec_insert_pair(s, x)[
            i]).0 <= (#[trigger] spec_insert_pair(s, x)[j]).0,
        spec_insert_pair(s, x).to_multiset() == s.to_multiset().insert(x),
    decreases s.len(),
{
    broadcast use vstd::seq_lib::group_seq_lib_default;
    broadcast use vstd::multiset::group_multiset_axioms;

    if s.len() == 0 {
        assert(s =~= Seq::<(usize, usize)>::empty());
        assert(seq![x] =~= Seq::<(usize, usize)>::empty().push(x));
        Seq::<(usize, usize)>::empty().to_multiset_ensures();
        assert(Seq::<(usize, usize)>::empty().push(x).to_multiset() =~= Seq::<
            (usize, usize),
        >::empty().to_multiset().insert(x));
        assert(spec_insert_pair(s, x).to_multiset() == s.to_multiset().insert(x));
    } else if x.0 < s.last().0 {
        assert(forall|i: int, j: int|
            0 <= i <= j < s.drop_last().len() ==> (#[trigger] s.drop_last()[i]).0 <= (
            #[trigger] s.drop_last()[j]).0);
        lemma_insert_pair_canonical(s.drop_last(), x);
        let inner = spec_insert_pair(s.drop_last(), x);
        // every key in the inner run is bounded by the last key
        assert forall|i: int, j: int|
            0 <= i <= j < spec_insert_pair(s, x).len() implies (#[trigger] spec_insert_pair(s, x)[
        i]).0 <= (#[trigger] spec_insert_pair(s, x)[j]).0 by {
            lemma_insert_pair_members(s.drop_last(), x);
            if j == spec_insert_pair(s, x).len() - 1 {
                if i < j {
                    assert(spec_insert_pair(s, x)[i] == inner[i]);
                }
            } else {
                assert(spec_insert_pair(s, x)[i] == inner[i]);
                assert(spec_insert_pair(s, x)[j] == inner[j]);
            }
        }
        inner.to_multiset_ensures();
        s.drop_last().to_multiset_ensures();
        let d = s.drop_last();
        let y = s.last();
        assert(s =~= d.push(y));
        assert(spec_insert_pair(s, x) =~= inner.push(y));
        assert(inner.push(y).to_multiset() =~= inner.to_multiset().insert(y));
        assert(inner.to_multiset() == d.to_multiset().insert(x));
        assert(d.to_multiset().insert(x).insert(y) =~= d.to_multiset().insert(y).insert(x));
        assert(d.push(y).to_multiset() =~= d.to_multiset().insert(y));
        assert(s.to_multiset() == d.to_multiset().insert(y));
        assert(spec_insert_pair(s, x).to_multiset() == s.to_multiset().insert(x));
    } else {
        s.to_multiset_ensures();
        assert forall|i: int, j: int|
            0 <= i <= j < spec_insert_pair(s, x).len() implies (#[trigger] spec_insert_pair(s, x)[
        i]).0 <= (#[trigger] spec_insert_pair(s, x)[j]).0 by {
            if j < s.len() {
            } else if i < s.len() {
                assert(spec_insert_pair(s, x)[i] == s[i]);
                assert(s[i].0 <= s.last().0);
            }
        }
        assert(spec_insert_pair(s, x).to_multiset() =~= s.to_multiset().insert(x));
    }
}

/// Every entry of an insertion result is the inserted entry or one of the
/// run's own: in particular each key bound carries over.
proof fn lemma_insert_pair_members(s: Seq<(usize, usize)>, x: (usize, usize))
    ensures
        forall|i: int|
            0 <= i < spec_insert_pair(s, x).len() ==> (#[trigger] spec_insert_pair(s, x)[i]).0
                <= x.0 || exists|j: int|
                0 <= j < s.len() && spec_insert_pair(s, x)[i] == s[j],
    decreases s.len(),
{
    if s.len() == 0 {
    } else if x.0 < s.last().0 {
        lemma_insert_pair_members(s.drop_last(), x);
        assert forall|i: int|
            0 <= i < spec_insert_pair(s, x).len() implies (#[trigger] spec_insert_pair(s, x)[
        i]).0 <= x.0 || exists|j: int| 0 <= j < s.len() && spec_insert_pair(s, x)[i] == s[j] by {
            let inner = spec_insert_pair(s.drop_last(), x);
            if i < inner.len() {
                assert(spec_insert_pair(s, x)[i] == inner[i]);
                if !(inner[i].0 <= x.0) {
                    let j = choose|j: int| 0 <= j < s.drop_last().len() && inner[i] == s.drop_last()[j];
                    assert(s.drop_last()[j] == s[j]);
                }
            } else {
                assert(spec_insert_pair(s, x)[i] == s.last());
                assert(s.last() == s[s.len() - 1]);
            }
        }
    } else {
        assert forall|i: int|
            0 <= i < spec_insert_pair(s, x).len() implies (#[trigger] spec_insert_pair(s, x)[
        i]).0 <= x.0 || exists|j: int| 0 <= j < s.len() && spec_insert_pair(s, x)[i] == s[j] by {
            if i < s.len() {
                assert(spec_insert_pair(s, x)[i] == s[i]);
            } else {
                assert(spec_insert_pair(s, x)[i] == x);
            }
        }
    }
}

} // verus!
