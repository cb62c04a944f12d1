//! Rendering the typed tree back into surface syntax.
//!
//! The renderer is total: a dangling index, an exhausted recursion budget or
//! a missing name never aborts rendering — the affected part comes out as a
//! best-effort placeholder and the rest of the tree still renders, because
//! the output's only obligation is to stay syntactically parseable.

use vstd::prelude::*;

use crate::defs::{AdtDef, DefTable, Visibility, wf_adts, wf_defs};
use crate::desugar::{Body, spec_name_lookup};
use crate::thir::{BodyId, LocalId, wf_thir};
use crate::types::{DefId, Ty, wf_tys};
use crate::util::{spec_dec, str_eq_str, u128_to_dec};

pub mod thir;
pub mod types;

verus! {

/// The rendering of one body: its parameter patterns and its block text.
pub struct PrintedBody {
    pub params: Vec<String>,
    pub body: String,
}

impl PrintedBody {
    /// A copy with the same text.
    pub fn duplicate(&self) -> (r: PrintedBody)
        ensures
            r.body@ == self.body@,
            r.params.deep_view() == self.params.deep_view(),
    {
        let mut params: Vec<String> = Vec::new();
        let mut i: usize = 0;
        proof {
            assert(params.deep_view() =~= self.params.deep_view().take(0));
        }
        while i < self.params.len()
            invariant
                0 <= i <= self.params@.len(),
                params.deep_view() == self.params.deep_view().take(i as int),
            decreases self.params@.len() - i,
        {
            let ghost pre = params.deep_view();
            let c = self.params[i].clone();
            proof {
                assert(c@ == self.params@[i as int]@);
            }
            params.push(c);
            proof {
                assert(params.deep_view() =~= pre.push(self.params@[i as int]@));
                assert(pre.push(self.params@[i as int]@) =~= self.params.deep_view().take(i + 1));
            }
            i += 1;
        }
        proof {
            assert(self.params.deep_view().take(self.params@.len() as int)
                =~= self.params.deep_view());
        }
        PrintedBody { params, body: self.body.clone() }
    }
}

/// One item of the unit: the host-printed declaration header and, for items
/// with a body, which body it owns.
pub struct Item {
    pub def: DefId,
    /// The declaration up to the body, as the host's printer spells it.
    pub header: String,
    pub body: Option<BodyId>,
}

/// One compilation unit: the interner tables the host shares with this
/// library, and the bodies to render.  An entry of `bodies` is `None` when
/// the host could not produce a typed tree for it (it already failed type
/// checking); such an item is skipped with an omission.
pub struct Unit {
    pub tys: Vec<Ty>,
    pub defs: DefTable,
    pub adts: Vec<AdtDef>,
    pub bodies: Vec<Option<Body>>,
    pub items: Vec<Item>,
}

/// Every cross reference in the unit resolves, and nested bodies only point
/// forward, the order in which the host lays out nested definitions.
pub open spec fn wf_unit(u: Unit) -> bool {
    let ndefs = u.defs.defs@.len() as int;
    &&& wf_tys(u.tys@, u.adts@.len() as int, ndefs)
    &&& wf_defs(u.defs.defs@, u.tys@.len() as int)
    &&& wf_adts(u.adts@, ndefs)
    &&& forall|b: int|
        0 <= b < u.bodies@.len() ==> match #[trigger] u.bodies@[b] {
            Some(body) => wf_thir(
                body.thir,
                u.tys@,
                u.adts@,
                ndefs,
                b,
                u.bodies@.len() as int,
            ) && body.root_expr < body.thir.exprs@.len(),
            None => true,
        }
    &&& forall|i: int|
        0 <= i < u.items@.len() ==> (#[trigger] u.items@[i]).def < ndefs && match u.items@[i].body {
            Some(b) => b < u.bodies@.len(),
            None => true,
        }
}

/// Renders a whole unit, one body at a time.  Rendered bodies are memoized
/// in an explicit [`RenderCache`] keyed by body identity, so a closure
/// referenced from several places renders once.
pub struct CratePrinter {
    pub unit: Unit,
}

impl CratePrinter {
    pub fn new(unit: Unit) -> (r: CratePrinter)
        ensures
            r.unit == unit,
    {
        CratePrinter { unit }
    }
}

/// The compute-once cache of rendered bodies, keyed by body identity.
/// Rendering twice is idempotent but wasteful, so a body renders at most
/// once per cache.
pub struct RenderCache {
    pub printed: Vec<Option<PrintedBody>>,
}

impl RenderCache {
    /// An empty cache for a unit of `n` bodies.
    pub fn new(n: usize) -> (r: RenderCache)
        ensures
            r.printed@.len() == n,
            forall|b: int| 0 <= b < n ==> r.printed@[b] is None,
    {
        let mut printed: Vec<Option<PrintedBody>> = Vec::new();
        let mut i: usize = 0;
        while i < n
            invariant
                0 <= i <= n,
                printed@.len() == i,
                forall|b: int| 0 <= b < i ==> printed@[b] is None,
            decreases n - i,
        {
            printed.push(None);
            i += 1;
        }
        RenderCache { printed }
    }
}

/// The display name of a local: a display name this library bound wins,
/// then the host's resolved name, then an unreadable placeholder.  Every
/// name but `self` is mangled with the identity's number, so re-rendered
/// locals cannot collide however the source names were shadowed.
pub open spec fn spec_local_name(body: Body, id: LocalId) -> Seq<char> {
    let base = match spec_name_lookup(body.synthetic_local_names@, id) {
        Some(n) => n,
        None => match spec_name_lookup(body.host_names@, id) {
            Some(n) => n,
            None => "_unnamed"@,
        },
    };
    if base == "self"@ {
        base
    } else {
        base + "_"@ + spec_dec(id as nat)
    }
}

impl CratePrinter {
    /// Renders a reference to the local binding `id` of `body`.
    pub fn local_name(&self, body: &Body, id: LocalId) -> (r: String)
        ensures
            r@ == spec_local_name(*body, id),
    {
        let base: String = match body.synthetic_local_name(id) {
            Some(n) => n,
            None => match body.host_local_name(id) {
                Some(n) => n,
                None => "_unnamed".to_owned(),
            },
        };
        if str_eq_str(base.as_str(), "self") {
            base
        } else {
            let mut s = base;
            s.append("_");
            let digits = u128_to_dec(id as u128);
            s.append(digits.as_str());
            s
        }
    }

    /// Renders the visibility qualifier of an item: `pub` for public items,
    /// the host's restricted spelling when it restricts beyond the item's
    /// own module, nothing otherwise.
    pub fn print_visibility(&self, def: DefId) -> (r: String)
        ensures
            r@ == spec_print_visibility(self.unit, def as int),
    {
        if def >= self.unit.defs.defs.len() {
            return String::new();
        }
        match &self.unit.defs.defs[def].vis {
            Visibility::Public => "pub ".to_owned(),
            Visibility::Restricted { module, text } => {
                if *module != self.unit.defs.defs[def].parent_module {
                    let mut s = text.clone();
                    s.append(" ");
                    s
                } else {
                    String::new()
                }
            },
        }
    }
}

pub open spec fn spec_print_visibility(u: Unit, def: int) -> Seq<char> {
    if !(0 <= def < u.defs.defs@.len()) {
        Seq::empty()
    } else {
        match u.defs.defs@[def].vis {
            Visibility::Public => "pub "@,
            Visibility::Restricted { module, text } => {
                if module != u.defs.defs@[def].parent_module {
                    text@ + " "@
                } else {
                    Seq::empty()
                }
            },
        }
    }
}

/// The attribute preamble of a rendered unit: standard-library macros
/// expand to unstable internals, and rendered output is more explicit than
/// hand-written source, so the lints on redundant grouping are silenced.
pub open spec fn spec_preamble() -> Seq<char> {
    "#![feature(fmt_internals, libstd_sys_internals, panic_internals, print_internals, rt)]\n#![allow(unused_braces, unused_parens, internal_features)]\n"@
}

pub fn preamble() -> (r: &'static str)
    ensures
        r@ == spec_preamble(),
{
    "#![feature(fmt_internals, libstd_sys_internals, panic_internals, print_internals, rt)]\n#![allow(unused_braces, unused_parens, internal_features)]\n"
}

/// What reformatting yields on a given text: the result depends on the text
/// alone.
pub uninterp spec fn reformat_of(s: Seq<char>) -> Option<Seq<char>>;

/// Relies on syn::parse_file and prettyplease::unparse: parses the rendered
/// unit and pretty-prints it for diff stability; text that does not parse
/// as a source file yields `None`.
#[verifier::external_body]
fn reformat(src: &str) -> (r: Option<String>)
    ensures
        match r {
            Some(t) => reformat_of(src@) == Some(t@),
            None => reformat_of(src@) is None,
        },
{
    match syn::parse_file(src) {
        Ok(file) => Some(prettyplease::unparse(&file)),
        Err(_) => None,
    }
}

/// The final text of a unit: the assembled rendering, passed through the
/// external formatter when it parses, verbatim otherwise.
pub open spec fn spec_finished_unit(assembled: Seq<char>) -> Seq<char> {
    match reformat_of(assembled) {
        Some(t) => t,
        None => assembled,
    }
}

/// Formats an assembled rendering for diff stability, falling back to the
/// raw text when the formatter cannot parse it.
pub fn finish_unit(assembled: String) -> (r: String)
    ensures
        r@ == spec_finished_unit(assembled@),
{
    match reformat(assembled.as_str()) {
        Some(t) => t,
        None => assembled,
    }
}

} // verus!
