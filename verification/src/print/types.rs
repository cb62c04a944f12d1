//! The path and type printer.
//!
//! Given a fully resolved item plus its instantiated generic arguments, it
//! produces the shortest textual path available: an item nested in a body
//! prints by its bare name, then a publicly visible path the host computed,
//! then the host's fully qualified fallback.  Trait-associated items print
//! as `<SelfType as Trait<Args>>::item`; types with no nameable spelling
//! print as a placeholder parameter.

use vstd::prelude::*;

use crate::defs::AssocContainer;
use crate::print::{CratePrinter, Unit};
use crate::types::{DefId, GenericArg, IntTy, Mutability, Ty, TyId, UintTy};
use crate::util::{join_strs, spec_dec, spec_join, u128_to_dec};

verus! {

/// How many associated-item and impl-self-type layers the path printer
/// follows before falling back to the host's fully qualified spelling.
pub const PATH_DEPTH: u32 = 8;

pub open spec fn spec_int_ty(t: IntTy) -> Seq<char> {
    match t {
        IntTy::Isize => "isize"@,
        IntTy::I8 => "i8"@,
        IntTy::I16 => "i16"@,
        IntTy::I32 => "i32"@,
        IntTy::I64 => "i64"@,
        IntTy::I128 => "i128"@,
    }
}

pub open spec fn spec_uint_ty(t: UintTy) -> Seq<char> {
    match t {
        UintTy::Usize => "usize"@,
        UintTy::U8 => "u8"@,
        UintTy::U16 => "u16"@,
        UintTy::U32 => "u32"@,
        UintTy::U64 => "u64"@,
        UintTy::U128 => "u128"@,
    }
}

/// The plain path of a definition, without generic arguments: the bare name
/// for an item nested in a body, else a visible path the host computed,
/// else the host's fully qualified fallback.
pub open spec fn spec_path(u: Unit, def: int) -> Seq<char> {
    if !(0 <= def < u.defs.defs@.len()) {
        "_"@
    } else {
        let d = u.defs.defs@[def];
        if d.local && crate::defs::spec_local_parent_is_body(u.defs.defs@, def) {
            d.name@
        } else {
            match d.visible_path {
                Some(p) => p@,
                None => d.canonical_path@,
            }
        }
    }
}

/// The rendering of an interned type by its identity.
pub open spec fn spec_ty_by_id(u: Unit, t: int) -> Seq<char> {
    if 0 <= t < u.tys@.len() {
        spec_print_ty(u, u.tys@[t], PATH_DEPTH)
    } else {
        "_"@
    }
}

pub open spec fn spec_print_ty(u: Unit, t: Ty, depth: u32) -> Seq<char>
    decreases depth, t, 0int,
{
    match t {
        Ty::Bool => "bool"@,
        Ty::Char => "char"@,
        Ty::Str => "str"@,
        Ty::Never => "!"@,
        Ty::Int { ity } => spec_int_ty(ity),
        Ty::Uint { uty } => spec_uint_ty(uty),
        Ty::Adt { adt, args } => {
            if adt < u.adts@.len() {
                spec_path_with_args(u, u.adts@[adt as int].def as int, args@, depth)
            } else {
                "_"@
            }
        },
        Ty::Foreign { def } => spec_path(u, def as int),
        Ty::RawPtr { mutability, pointee } => {
            let q = match mutability {
                Mutability::Mut => "*mut "@,
                Mutability::Not => "*const "@,
            };
            q + spec_print_ty(u, *pointee, depth)
        },
        Ty::Ref { region, mutability, pointee } => {
            let r = match region {
                Some(t) => t@ + " "@,
                None => Seq::<char>::empty(),
            };
            let m = match mutability {
                Mutability::Mut => "mut "@,
                Mutability::Not => Seq::<char>::empty(),
            };
            "&"@ + r + m + spec_print_ty(u, *pointee, depth)
        },
        Ty::Tuple { elems } => {
            let inner = spec_join(spec_ty_list(u, elems@, depth), ", "@);
            let trail = if elems@.len() == 1 {
                ","@
            } else {
                Seq::<char>::empty()
            };
            "("@ + inner + trail + ")"@
        },
        Ty::Array { elem, len } => "["@ + spec_print_ty(u, *elem, depth) + "; "@ + spec_dec(
            len as nat,
        ) + "]"@,
        Ty::Slice { elem } => "["@ + spec_print_ty(u, *elem, depth) + "]"@,
        Ty::FnPtr { inputs, output } => "fn("@ + spec_join(spec_ty_list(u, inputs@, depth), ", "@)
            + ") -> "@ + spec_print_ty(u, *output, depth),
        Ty::FnDef { .. } => "_"@,
        Ty::Dynamic { data, region } => {
            let r = match region {
                Some(t) => " + "@ + t@,
                None => Seq::<char>::empty(),
            };
            "(dyn "@ + data@ + r + ")"@
        },
        Ty::Alias { text } => text@,
        Ty::Param { name, .. } => name@,
        Ty::Closure { .. } => "_"@,
        Ty::Coroutine { .. } => "_"@,
        Ty::CoroutineClosure { .. } => "_"@,
        Ty::CoroutineWitness { .. } => "_"@,
        Ty::Infer => "_"@,
    }
}

pub open spec fn spec_ty_list(u: Unit, elems: Seq<Ty>, depth: u32) -> Seq<Seq<char>>
    decreases depth, elems, 1int,
{
    if elems.len() == 0 {
        Seq::empty()
    } else {
        spec_ty_list(u, elems.drop_last(), depth) + seq![spec_print_ty(u, elems.last(), depth)]
    }
}

pub open spec fn spec_generic_arg(u: Unit, a: GenericArg, depth: u32) -> Seq<char>
    decreases depth, a, 1int,
{
    match a {
        GenericArg::Type { ty } => spec_print_ty(u, *ty, depth),
        GenericArg::Lifetime { text } => text@,
        GenericArg::Const { text } => text@,
    }
}

pub open spec fn spec_arg_list(u: Unit, args: Seq<GenericArg>, depth: u32) -> Seq<Seq<char>>
    decreases depth, args, 2int,
{
    if args.len() == 0 {
        Seq::empty()
    } else {
        spec_arg_list(u, args.drop_last(), depth) + seq![
            spec_generic_arg(u, args.last(), depth),
        ]
    }
}

/// An explicit turbofish argument list, or nothing when there are no
/// arguments to spell.
pub open spec fn spec_generic_args(u: Unit, args: Seq<GenericArg>, depth: u32) -> Seq<char>
    decreases depth, args, 3int,
{
    if args.len() == 0 {
        Seq::empty()
    } else {
        "::<"@ + spec_join(spec_arg_list(u, args, depth), ", "@) + ">"@
    }
}

/// A path with its own generic arguments spelled out; an associated item
/// prints through its container.
pub open spec fn spec_path_with_args(u: Unit, def: int, args: Seq<GenericArg>, depth: u32) -> Seq<
    char,
>
    decreases depth, args, 5int,
{
    if !(0 <= def < u.defs.defs@.len()) {
        "_"@
    } else {
        match spec_associated_item_path(u, def, args, depth) {
            Some(p) => p,
            None => {
                if depth == 0 {
                    spec_path(u, def)
                } else {
                    let d = u.defs.defs@[def];
                    let skip: int = d.parent_count + if d.has_self {
                        1int
                    } else {
                        0int
                    };
                    let own = if 0 <= skip <= args.len() {
                        args.skip(skip)
                    } else {
                        Seq::<GenericArg>::empty()
                    };
                    spec_path(u, def) + spec_generic_args(u, own, (depth - 1) as u32)
                }
            },
        }
    }
}

/// The container-qualified path of an associated item, when `def` is one.
/// With the depth budget exhausted the printer falls back to the host's
/// own spelling for the item.
pub open spec fn spec_associated_item_path(
    u: Unit,
    def: int,
    args: Seq<GenericArg>,
    depth: u32,
) -> Option<Seq<char>>
    decreases depth, args, 4int,
{
    if !(0 <= def < u.defs.defs@.len()) {
        None
    } else {
        let d = u.defs.defs@[def];
        match d.assoc {
            None => None,
            Some(a) => {
                if depth == 0 {
                    Some(
                        match d.visible_path {
                            Some(p) => p@,
                            None => d.canonical_path@,
                        },
                    )
                } else {
                    let pc = if d.parent_count <= args.len() {
                        d.parent_count as int
                    } else {
                        args.len() as int
                    };
                    let assoc_args = spec_generic_args(u, args.skip(pc), (depth - 1) as u32);
                    let container = spec_container_path(
                        u,
                        a.container,
                        a.container_def as int,
                        args.take(pc),
                        (depth - 1) as u32,
                    );
                    Some(container + "::"@ + d.name@ + assoc_args)
                }
            },
        }
    }
}

/// How the container of an associated item is spelled: a trait container as
/// `<SelfType as Trait<Args>>`, an inherent impl by its self type's own
/// path, a trait impl by the trait's path.
pub open spec fn spec_container_path(
    u: Unit,
    container: AssocContainer,
    container_def: int,
    container_args: Seq<GenericArg>,
    depth: u32,
) -> Seq<char>
    decreases depth, container_args, 6int,
{
    match container {
        AssocContainer::Trait => {
            let self_str = if container_args.len() > 0 {
                spec_generic_arg(u, container_args[0], depth)
            } else {
                "_"@
            };
            let trait_args = if container_args.len() > 0 {
                spec_generic_args(u, container_args.drop_first(), depth)
            } else {
                Seq::<char>::empty()
            };
            "<"@ + self_str + " as "@ + spec_path(u, container_def) + trait_args + ">"@
        },
        AssocContainer::InherentImpl => {
            if depth == 0 || !(0 <= container_def < u.defs.defs@.len()) {
                spec_path(u, container_def)
            } else {
                match u.defs.defs@[container_def].self_ty {
                    Some(tid) => {
                        if tid < u.tys@.len() {
                            match u.tys@[tid as int] {
                                Ty::Adt { adt, args } => {
                                    if adt < u.adts@.len() {
                                        spec_path(u, u.adts@[adt as int].def as int)
                                            + spec_generic_args(u, args@, (depth - 1) as u32)
                                    } else {
                                        "_"@
                                    }
                                },
                                Ty::Foreign { def } => spec_path(u, def as int),
                                _ => "<"@ + spec_print_ty(
                                    u,
                                    u.tys@[tid as int],
                                    (depth - 1) as u32,
                                ) + ">"@,
                            }
                        } else {
                            spec_path(u, container_def)
                        }
                    },
                    None => spec_path(u, container_def),
                }
            }
        },
        AssocContainer::TraitImpl => spec_path_with_args(u, container_def, container_args, depth),
    }
}

impl CratePrinter {
    /// Renders the plain path of a definition.
    pub fn path(&self, def: DefId) -> (r: String)
        ensures
            r@ == spec_path(self.unit, def as int),
    {
        if def >= self.unit.defs.defs.len() {
            return "_".to_owned();
        }
        let d = &self.unit.defs.defs[def];
        if d.local && self.unit.defs.local_parent_is_body(def) {
            d.name.clone()
        } else {
            match &d.visible_path {
                Some(p) => p.clone(),
                None => d.canonical_path.clone(),
            }
        }
    }

    /// Renders the interned type `t`.
    pub fn ty(&self, t: TyId) -> (r: String)
        ensures
            r@ == spec_ty_by_id(self.unit, t as int),
    {
        if t < self.unit.tys.len() {
            self.print_ty(&self.unit.tys[t], PATH_DEPTH)
        } else {
            "_".to_owned()
        }
    }

    /// Renders one type.
    pub fn print_ty(&self, t: &Ty, depth: u32) -> (r: String)
        ensures
            r@ == spec_print_ty(self.unit, *t, depth),
        decreases depth, *t, 0int,
    {
        match t {
            Ty::Bool => "bool".to_owned(),
            Ty::Char => "char".to_owned(),
            Ty::Str => "str".to_owned(),
            Ty::Never => "!".to_owned(),
            Ty::Int { ity } => self.int_ty(*ity),
            Ty::Uint { uty } => self.uint_ty(*uty),
            Ty::Adt { adt, args } => {
                if *adt < self.unit.adts.len() {
                    proof {
                        assert(args@.subrange(0, args@.len() as int) =~= args@);
                    }
                    self.path_with_args(self.unit.adts[*adt].def, args, 0, args.len(), depth)
                } else {
                    "_".to_owned()
                }
            },
            Ty::Foreign { def } => self.path(*def),
            Ty::RawPtr { mutability, pointee } => {
                let mut s = match mutability {
                    Mutability::Mut => "*mut ".to_owned(),
                    Mutability::Not => "*const ".to_owned(),
                };
                let inner = self.print_ty(pointee, depth);
                s.append(inner.as_str());
                s
            },
            Ty::Ref { region, mutability, pointee } => {
                let mut s = "&".to_owned();
                match region {
                    Some(t) => {
                        s.append(t.as_str());
                        s.append(" ");
                    },
                    None => {},
                }
                match mutability {
                    Mutability::Mut => {
                        s.append("mut ");
                    },
                    Mutability::Not => {},
                }
                let inner = self.print_ty(pointee, depth);
                s.append(inner.as_str());
                proof {
                    assert(s@ =~= spec_print_ty(self.unit, *t, depth));
                }
                s
            },
            Ty::Tuple { elems } => {
                let parts = self.ty_list(elems, depth);
                let inner = join_strs(&parts, ", ");
                let mut s = "(".to_owned();
                s.append(inner.as_str());
                if elems.len() == 1 {
                    s.append(",");
                }
                s.append(")");
                proof {
                    assert(s@ =~= spec_print_ty(self.unit, *t, depth));
                }
                s
            },
            Ty::Array { elem, len } => {
                let mut s = "[".to_owned();
                let inner = self.print_ty(elem, depth);
                s.append(inner.as_str());
                s.append("; ");
                let n = u128_to_dec(*len);
                s.append(n.as_str());
                s.append("]");
                s
            },
            Ty::Slice { elem } => {
                let mut s = "[".to_owned();
                let inner = self.print_ty(elem, depth);
                s.append(inner.as_str());
                s.append("]");
                s
            },
            Ty::FnPtr { inputs, output } => {
                let parts = self.ty_list(inputs, depth);
                let inner = join_strs(&parts, ", ");
                let mut s = "fn(".to_owned();
                s.append(inner.as_str());
                s.append(") -> ");
                let out = self.print_ty(output, depth);
                s.append(out.as_str());
                s
            },
            Ty::FnDef { .. } => "_".to_owned(),
            Ty::Dynamic { data, region } => {
                let mut s = "(dyn ".to_owned();
                s.append(data.as_str());
                match region {
                    Some(t) => {
                        s.append(" + ");
                        s.append(t.as_str());
                    },
                    None => {},
                }
                s.append(")");
                proof {
                    assert(s@ =~= spec_print_ty(self.unit, *t, depth));
                }
                s
            },
            Ty::Alias { text } => text.clone(),
            Ty::Param { name, .. } => name.clone(),
            Ty::Closure { .. } => "_".to_owned(),
            Ty::Coroutine { .. } => "_".to_owned(),
            Ty::CoroutineClosure { .. } => "_".to_owned(),
            Ty::CoroutineWitness { .. } => "_".to_owned(),
            Ty::Infer => "_".to_owned(),
        }
    }

    fn int_ty(&self, t: IntTy) -> (r: String)
        ensures
            r@ == spec_int_ty(t),
    {
        match t {
            IntTy::Isize => "isize".to_owned(),
            IntTy::I8 => "i8".to_owned(),
            IntTy::I16 => "i16".to_owned(),
            IntTy::I32 => "i32".to_owned(),
            IntTy::I64 => "i64".to_owned(),
            IntTy::I128 => "i128".to_owned(),
        }
    }

    fn uint_ty(&self, t: UintTy) -> (r: String)
        ensures
            r@ == spec_uint_ty(t),
    {
        match t {
            UintTy::Usize => "usize".to_owned(),
            UintTy::U8 => "u8".to_owned(),
            UintTy::U16 => "u16".to_owned(),
            UintTy::U32 => "u32".to_owned(),
            UintTy::U64 => "u64".to_owned(),
            UintTy::U128 => "u128".to_owned(),
        }
    }

    /// Renders each type of a list.
    fn ty_list(&self, elems: &Vec<Ty>, depth: u32) -> (r: Vec<String>)
        ensures
            r.deep_view() == spec_ty_list(self.unit, elems@, depth),
        decreases depth, elems@, 2int,
    {
        let mut parts: Vec<String> = Vec::new();
        let mut i: usize = 0;
        proof {
            assert(elems@.take(0).len() == 0);
            assert(parts.deep_view() =~= spec_ty_list(self.unit, elems@.take(0), depth));
        }
        while i < elems.len()
            invariant
                0 <= i <= elems@.len(),
                parts.deep_view() == spec_ty_list(self.unit, elems@.take(i as int), depth),
            decreases elems@.len() - i,
        {
            proof {
                assert(elems@.take(i + 1).drop_last() =~= elems@.take(i as int));
                assert(elems@.take(i + 1).last() == elems@[i as int]);
                assert(decreases_to!(elems@ => elems@[i as int]));
            }
            let ghost pre = parts.deep_view();
            let one = self.print_ty(&elems[i], depth);
            parts.push(one);
            proof {
                assert(parts.deep_view() =~= pre.push(
                    spec_print_ty(self.unit, elems@[i as int], depth),
                ));
                assert(pre.push(spec_print_ty(self.unit, elems@[i as int], depth)) =~= pre + seq![
                    spec_print_ty(self.unit, elems@[i as int], depth),
                ]);
            }
            i += 1;
        }
        proof {
            assert(elems@.take(elems@.len() as int) =~= elems@);
        }
        parts
    }

    /// Renders one generic argument.
    fn generic_arg(&self, a: &GenericArg, depth: u32) -> (r: String)
        ensures
            r@ == spec_generic_arg(self.unit, *a, depth),
        decreases depth, *a, 1int,
    {
        match a {
            GenericArg::Type { ty } => self.print_ty(ty, depth),
            GenericArg::Lifetime { text } => text.clone(),
            GenericArg::Const { text } => text.clone(),
        }
    }

    /// Renders each generic argument of `args[from..to]`.
    fn arg_list(&self, args: &Vec<GenericArg>, from: usize, to: usize, depth: u32) -> (r: Vec<
        String,
    >)
        requires
            from <= to <= args@.len(),
        ensures
            r.deep_view() == spec_arg_list(self.unit, args@.subrange(from as int, to as int), depth),
        decreases depth, args@.subrange(from as int, to as int), 2int,
    {
        let ghost whole = args@.subrange(from as int, to as int);
        let mut parts: Vec<String> = Vec::new();
        let mut i: usize = from;
        proof {
            assert(whole.take(0).len() == 0);
            assert(parts.deep_view() =~= spec_arg_list(self.unit, whole.take(0), depth));
        }
        while i < to
            invariant
                from <= i <= to <= args@.len(),
                whole == args@.subrange(from as int, to as int),
                parts.deep_view() == spec_arg_list(self.unit, whole.take(i - from), depth),
            decreases to - i,
        {
            proof {
                assert(whole.take(i - from + 1).drop_last() =~= whole.take(i - from));
                assert(whole.take(i - from + 1).last() == whole[i - from]);
                assert(whole[i - from] == args@[i as int]);
                assert(decreases_to!(whole => whole[i - from]));
            }
            let ghost pre = parts.deep_view();
            let one = self.generic_arg(&args[i], depth);
            parts.push(one);
            proof {
                assert(parts.deep_view() =~= pre.push(
                    spec_generic_arg(self.unit, args@[i as int], depth),
                ));
            }
            i += 1;
        }
        proof {
            assert(whole.take(to - from) =~= whole);
        }
        parts
    }

    /// Renders an explicit turbofish list for `args[from..to]`.
    fn generic_args(&self, args: &Vec<GenericArg>, from: usize, to: usize, depth: u32) -> (r:
        String)
        requires
            from <= to <= args@.len(),
        ensures
            r@ == spec_generic_args(self.unit, args@.subrange(from as int, to as int), depth),
        decreases depth, args@.subrange(from as int, to as int), 3int,
    {
        if from >= to {
            proof {
                assert(args@.subrange(from as int, to as int).len() == 0);
            }
            return String::new();
        }
        let parts = self.arg_list(args, from, to, depth);
        let inner = join_strs(&parts, ", ");
        let mut s = "::<".to_owned();
        s.append(inner.as_str());
        s.append(">");
        s
    }

    /// Renders the path of `def` with the generic arguments `args[from..to]`
    /// spelled out.
    pub fn path_with_args(
        &self,
        def: DefId,
        args: &Vec<GenericArg>,
        from: usize,
        to: usize,
        depth: u32,
    ) -> (r: String)
        requires
            from <= to <= args@.len(),
        ensures
            r@ == spec_path_with_args(self.unit, def as int, args@.subrange(from as int, to as int), depth),
        decreases depth, args@.subrange(from as int, to as int), 5int,
    {
        let ghost whole = args@.subrange(from as int, to as int);
        if def >= self.unit.defs.defs.len() {
            return "_".to_owned();
        }
        match self.associated_item_path(def, args, from, to, depth) {
            Some(p) => p,
            None => {
                if depth == 0 {
                    return self.path(def);
                }
                let d = &self.unit.defs.defs[def];
                let pc = d.parent_count;
                let extra: usize = if d.has_self {
                    1
                } else {
                    0
                };
                let avail = to - from;
                let skip: usize = if pc <= avail && extra <= avail - pc {
                    pc + extra
                } else {
                    avail
                };
                let ghost sk: int = d.parent_count + if d.has_self {
                    1int
                } else {
                    0int
                };
                let own = self.generic_args(args, from + skip, to, depth - 1);
                proof {
                    if 0 <= sk <= whole.len() {
                        assert(skip == sk);
                        assert(args@.subrange(from + skip, to as int) =~= whole.skip(sk));
                    } else {
                        assert(skip == avail);
                        assert(args@.subrange(from + skip, to as int) =~= Seq::<
                            GenericArg,
                        >::empty());
                    }
                }
                let mut s = self.path(def);
                s.append(own.as_str());
                s
            },
        }
    }

    /// Renders the container-qualified path of an associated item, when
    /// `def` is one.
    fn associated_item_path(
        &self,
        def: DefId,
        args: &Vec<GenericArg>,
        from: usize,
        to: usize,
        depth: u32,
    ) -> (r: Option<String>)
        requires
            from <= to <= args@.len(),
        ensures
            match r {
                Some(s) => spec_associated_item_path(
                    self.unit,
                    def as int,
                    args@.subrange(from as int, to as int),
                    depth,
                ) == Some(s@),
                None => spec_associated_item_path(
                    self.unit,
                    def as int,
                    args@.subrange(from as int, to as int),
                    depth,
                ) is None,
            },
        decreases depth, args@.subrange(from as int, to as int), 4int,
    {
        let ghost whole = args@.subrange(from as int, to as int);
        if def >= self.unit.defs.defs.len() {
            return None;
        }
        let d = &self.unit.defs.defs[def];
        match &d.assoc {
            None => None,
            Some(a) => {
                if depth == 0 {
                    match &d.visible_path {
                        Some(p) => Some(p.clone()),
                        None => Some(d.canonical_path.clone()),
                    }
                } else {
                    let avail = to - from;
                    let pc: usize = if d.parent_count <= avail {
                        d.parent_count
                    } else {
                        avail
                    };
                    proof {
                        assert(args@.subrange(from + pc, to as int) =~= whole.skip(pc as int));
                        assert(args@.subrange(from as int, from + pc) =~= whole.take(pc as int));
                    }
                    let assoc_args = self.generic_args(args, from + pc, to, depth - 1);
                    let container = self.container_path(
                        a.container,
                        a.container_def,
                        args,
                        from,
                        from + pc,
                        depth - 1,
                    );
                    let mut s = container;
                    s.append("::");
                    s.append(d.name.as_str());
                    s.append(assoc_args.as_str());
                    Some(s)
                }
            },
        }
    }

    /// Renders the container of an associated item.
    fn container_path(
        &self,
        container: AssocContainer,
        container_def: DefId,
        args: &Vec<GenericArg>,
        from: usize,
        to: usize,
        depth: u32,
    ) -> (r: String)
        requires
            from <= to <= args@.len(),
        ensures
            r@ == spec_container_path(
                self.unit,
                container,
                container_def as int,
                args@.subrange(from as int, to as int),
                depth,
            ),
        decreases depth, args@.subrange(from as int, to as int), 6int,
    {
        let ghost whole = args@.subrange(from as int, to as int);
        match container {
            AssocContainer::Trait => {
                let self_str: String = if from < to {
                    proof {
                        assert(whole[0] == args@[from as int]);
                        assert(decreases_to!(whole => whole[0]));
                    }
                    self.generic_arg(&args[from], depth)
                } else {
                    "_".to_owned()
                };
                let trait_args: String = if from < to {
                    proof {
                        assert(args@.subrange(from + 1, to as int) =~= whole.drop_first());
                    }
                    self.generic_args(args, from + 1, to, depth)
                } else {
                    String::new()
                };
                let mut s = "<".to_owned();
                s.append(self_str.as_str());
                s.append(" as ");
                let tp = self.path(container_def);
                s.append(tp.as_str());
                s.append(trait_args.as_str());
                s.append(">");
                s
            },
            AssocContainer::InherentImpl => {
                if depth == 0 || container_def >= self.unit.defs.defs.len() {
                    return self.path(container_def);
                }
                match self.unit.defs.defs[container_def].self_ty {
                    Some(tid) => {
                        if tid < self.unit.tys.len() {
                            match &self.unit.tys[tid] {
                                Ty::Adt { adt, args: adt_args } => {
                                    if *adt < self.unit.adts.len() {
                                        let mut s = self.path(self.unit.adts[*adt].def);
                                        proof {
                                            assert(adt_args@.subrange(
                                                0,
                                                adt_args@.len() as int,
                                            ) =~= adt_args@);
                                        }
                                        let ga = self.generic_args(
                                            adt_args,
                                            0,
                                            adt_args.len(),
                                            depth - 1,
                                        );
                                        s.append(ga.as_str());
                                        s
                                    } else {
                                        "_".to_owned()
                                    }
                                },
                                Ty::Foreign { def } => self.path(*def),
                                other => {
                                    let mut s = "<".to_owned();
                                    let inner = self.print_ty(other, depth - 1);
                                    s.append(inner.as_str());
                                    s.append(">");
                                    s
                                },
                            }
                        } else {
                            self.path(container_def)
                        }
                    },
                    None => self.path(container_def),
                }
            },
            AssocContainer::TraitImpl => self.path_with_args(container_def, args, from, to, depth),
        }
    }
}

} // verus!
