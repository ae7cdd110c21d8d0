//! A lint rule: every locally exported binding must have a JSDoc block on
//! its declaration or on one of the declaration's enclosing nodes.
use vstd::prelude::*;
use rustc_hash::{FxBuildHasher, FxHashSet};
use crate::module_record::{
    AstNode, AstNodes, Binding, ExportEntry, ExportLocalName, LintContext, Scoping, Span,
};

verus! {

/// rustc_hash's `FxBuildHasher`, the hash builder of `FxHashSet`, carried
/// opaquely.
#[verifier::external_type_specification]
#[verifier::external_body]
pub struct ExFxBuildHasher(FxBuildHasher);

/// Relies on `Default` for rustc_hash's `FxHashSet` (a std `HashSet` with
/// `FxBuildHasher`): the new set is empty.
#[verifier::external_body]
fn new_symbol_set() -> (r: FxHashSet<u32>)
    ensures
        r@ == Set::<u32>::empty(),
{
    FxHashSet::default()
}

/// Relies on std's `HashSet::insert` under rustc_hash's `FxBuildHasher`,
/// which hashes a `u32` the same way each time: adds `id`, and tells
/// whether it was absent.
#[verifier::external_body]
fn insert_symbol(set: &mut FxHashSet<u32>, id: u32) -> (r: bool)
    ensures
        final(set)@ == old(set)@.insert(id),
        r == !old(set)@.contains(id),
{
    set.insert(id)
}

/// A finding of the rule: an export whose binding has no JSDoc.
#[derive(Clone, Copy, Debug, PartialEq, Eq, Structural)]
pub struct Diagnostic {
    /// The export statement.
    pub label: Span,
}

/// Requires that locally exported APIs are documented with a JSDoc block.
/// Re-exports from other modules (`export { foo } from 'mod'`) are ignored.
#[derive(Clone, Copy, Debug, PartialEq, Eq, Structural)]
pub struct RequirePublicDoc;

/// The names that local exports refer to, with the export's span, in the
/// order of the export entries: re-exports and exports without a local
/// binding are left out.
pub open spec fn exported_symbols(entries: Seq<ExportEntry>) -> Seq<(Seq<u8>, Span)>
    decreases entries.len(),
{
    if entries.len() == 0 {
        Seq::empty()
    } else {
        let e = entries.last();
        let rest = exported_symbols(entries.drop_last());
        if e.module_request is Some {
            rest
        } else {
            match e.local_name {
                ExportLocalName::Name(n) => rest.push((n.name@, e.span)),
                ExportLocalName::Default(n) => rest.push((n.name@, e.span)),
                ExportLocalName::Null => rest,
            }
        }
    }
}

/// The symbol that `name` is bound to in the root scope: the first binding
/// of that name.
pub open spec fn root_binding(bindings: Seq<Binding>, name: Seq<u8>) -> Option<u32>
    decreases bindings.len(),
{
    if bindings.len() == 0 {
        None
    } else if bindings[0].name@ == name {
        Some(bindings[0].symbol_id)
    } else {
        root_binding(bindings.drop_first(), name)
    }
}

/// Node `k`, or one of its ancestors below the program, has a JSDoc block.
pub open spec fn documented(nodes: Seq<AstNode>, k: int) -> bool
    decreases k,
{
    if 0 <= k < nodes.len() {
        let p = nodes[k].parent as int;
        nodes[k].has_jsdoc || (p < k && !nodes[p].is_program && documented(nodes, p))
    } else {
        false
    }
}

/// The symbols that the first `n` exported names resolve to.
pub open spec fn seen_symbols(ctx: LintContext, syms: Seq<(Seq<u8>, Span)>, n: int) -> Set<u32>
    decreases n,
{
    if n <= 0 {
        Set::empty()
    } else {
        let prev = seen_symbols(ctx, syms, n - 1);
        match root_binding(ctx.scoping.root_bindings@, syms[n - 1].0) {
            Some(id) => prev.insert(id),
            None => prev,
        }
    }
}

/// The spans reported among the first `n` exported names: a name is
/// reported when it resolves to a symbol that no earlier name resolved to,
/// and whose declaration is not documented.
pub open spec fn reported(ctx: LintContext, syms: Seq<(Seq<u8>, Span)>, n: int) -> Seq<Span>
    decreases n,
{
    if n <= 0 {
        Seq::empty()
    } else {
        let prev = reported(ctx, syms, n - 1);
        match root_binding(ctx.scoping.root_bindings@, syms[n - 1].0) {
            Some(id) => {
                if !seen_symbols(ctx, syms, n - 1).contains(id) && !documented(
                    ctx.nodes.nodes@,
                    ctx.scoping.symbol_declarations@[id as int] as int,
                ) {
                    prev.push(syms[n - 1].1)
                } else {
                    prev
                }
            },
            None => prev,
        }
    }
}

/// What the rule reports on a module: one diagnostic per undocumented
/// exported symbol, at its first export, in the order of the exports.
pub open spec fn missing_docs(ctx: LintContext) -> Seq<Span> {
    let syms = exported_symbols(ctx.module_record.local_export_entries@);
    reported(ctx, syms, syms.len() as int)
}

fn same_bytes(a: &Vec<u8>, b: &Vec<u8>) -> (r: bool)
    ensures
        r == (a@ == b@),
{
    if a.len() != b.len() {
        return false;
    }
    let mut i: usize = 0;
    while i < a.len()
        invariant
            a@.len() == b@.len(),
            i <= a@.len(),
            a@.subrange(0, i as int) == b@.subrange(0, i as int),
        decreases a@.len() - i,
    {
        if a[i] != b[i] {
            assert(a@.subrange(0, i as int + 1)[i as int] != b@.subrange(0, i as int + 1)[i as int]);
            return false;
        }
        assert(a@.subrange(0, i as int + 1) =~= a@.subrange(0, i as int).push(a@[i as int]));
        assert(b@.subrange(0, i as int + 1) =~= b@.subrange(0, i as int).push(b@[i as int]));
        i = i + 1;
    }
    assert(a@ =~= a@.subrange(0, a@.len() as int));
    assert(b@ =~= b@.subrange(0, b@.len() as int));
    true
}

proof fn lemma_root_binding_is_bound(bindings: Seq<Binding>, name: Seq<u8>)
    ensures
        root_binding(bindings, name) is Some ==> exists|k: int|
            0 <= k < bindings.len() && (#[trigger] bindings[k]).symbol_id == root_binding(
                bindings,
                name,
            ).unwrap(),
    decreases bindings.len(),
{
    if bindings.len() > 0 && bindings[0].name@ != name {
        lemma_root_binding_is_bound(bindings.drop_first(), name);
        if root_binding(bindings, name) is Some {
            let k = choose|k: int|
                0 <= k < bindings.drop_first().len() && (#[trigger] bindings.drop_first()[k]).symbol_id
                    == root_binding(bindings, name).unwrap();
            assert(bindings[k + 1] == bindings.drop_first()[k]);
        }
    }
}

impl Scoping {
    /// The symbol bound to `name` in the root scope.
    pub fn get_root_binding(&self, name: &Vec<u8>) -> (r: Option<u32>)
        ensures
            r == root_binding(self.root_bindings@, name@),
    {
        let mut i: usize = 0;
        assert(self.root_bindings@.subrange(0, self.root_bindings@.len() as int)
            =~= self.root_bindings@);
        while i < self.root_bindings.len()
            invariant
                i <= self.root_bindings@.len(),
                root_binding(self.root_bindings@, name@) == root_binding(
                    self.root_bindings@.subrange(i as int, self.root_bindings@.len() as int),
                    name@,
                ),
            decreases self.root_bindings@.len() - i,
        {
            let b = &self.root_bindings[i];
            let ghost rest = self.root_bindings@.subrange(i as int, self.root_bindings@.len() as int);
            assert(rest.drop_first() =~= self.root_bindings@.subrange(
                i as int + 1,
                self.root_bindings@.len() as int,
            ));
            if same_bytes(&b.name, name) {
                return Some(b.symbol_id);
            }
            i = i + 1;
        }
        None
    }
}

/// Whether the node `start`, or an ancestor of it below the program, has a
/// JSDoc block attached. This covers docs attached to a variable
/// declaration, an export declaration, or the function or class itself.
pub fn has_any_attached_jsdoc(start: usize, nodes: &AstNodes) -> (r: bool)
    requires
        nodes.wf(),
        start < nodes.nodes@.len(),
    ensures
        r == documented(nodes.nodes@, start as int),
{
    let mut current = start;
    loop
        invariant
            nodes.wf(),
            current < nodes.nodes@.len(),
            documented(nodes.nodes@, start as int) == documented(nodes.nodes@, current as int),
        decreases current,
    {
        let node = nodes.nodes[current];
        if node.has_jsdoc {
            return true;
        }
        let parent = node.parent;
        if nodes.nodes[parent].is_program {
            return false;
        }
        current = parent;
    }
}

/// The diagnostic for an undocumented export at `span`.
pub fn require_public_doc_diagnostic(span: Span) -> (r: Diagnostic)
    ensures
        r.label == span,
{
    Diagnostic { label: span }
}

/// The names that local exports refer to, with each export's span.
fn collect_exported_symbols(entries: &Vec<ExportEntry>) -> (r: Vec<(Vec<u8>, Span)>)
    ensures
        r@.map_values(|p: (Vec<u8>, Span)| (p.0@, p.1)) == exported_symbols(entries@),
{
    let mut out: Vec<(Vec<u8>, Span)> = Vec::new();
    let mut i: usize = 0;
    while i < entries.len()
        invariant
            i <= entries@.len(),
            out@.map_values(|p: (Vec<u8>, Span)| (p.0@, p.1)) == exported_symbols(
                entries@.subrange(0, i as int),
            ),
        decreases entries@.len() - i,
    {
        let e = &entries[i];
        let ghost pre = entries@.subrange(0, i as int);
        assert(entries@.subrange(0, i as int + 1).drop_last() =~= pre);
        if e.module_request.is_none() {
            match &e.local_name {
                ExportLocalName::Name(n) => {
                    out.push((n.name.clone(), e.span));
                },
                ExportLocalName::Default(n) => {
                    out.push((n.name.clone(), e.span));
                },
                ExportLocalName::Null => {},
            }
        }
        assert(out@.map_values(|p: (Vec<u8>, Span)| (p.0@, p.1)) =~= exported_symbols(
            entries@.subrange(0, i as int + 1),
        ));
        i = i + 1;
    }
    assert(entries@.subrange(0, entries@.len() as int) =~= entries@);
    out
}

impl RequirePublicDoc {
    /// Checks the module once: one diagnostic for each exported symbol
    /// whose declaration has no JSDoc, at the first export of that symbol.
    pub fn run_once(&self, ctx: &LintContext) -> (r: Vec<Diagnostic>)
        requires
            ctx.wf(),
        ensures
            r@.map_values(|d: Diagnostic| d.label) == missing_docs(*ctx),
    {
        let exported = collect_exported_symbols(&ctx.module_record.local_export_entries);
        let ghost syms = exported_symbols(ctx.module_record.local_export_entries@);
        let mut seen = new_symbol_set();
        let mut out: Vec<Diagnostic> = Vec::new();
        let mut i: usize = 0;
        while i < exported.len()
            invariant
                ctx.wf(),
                i <= exported@.len(),
                exported@.map_values(|p: (Vec<u8>, Span)| (p.0@, p.1)) == syms,
                seen@ == seen_symbols(*ctx, syms, i as int),
                out@.map_values(|d: Diagnostic| d.label) == reported(*ctx, syms, i as int),
            decreases exported@.len() - i,
        {
            let (name, export_span) = (&exported[i].0, exported[i].1);
            assert(syms[i as int] == (name@, export_span));
            let found = ctx.scoping.get_root_binding(name);
            match found {
                Some(symbol_id) => {
                    proof { lemma_root_binding_is_bound(ctx.scoping.root_bindings@, name@); }
                    let fresh = insert_symbol(&mut seen, symbol_id);
                    if fresh {
                        let decl_id = ctx.scoping.symbol_declarations[symbol_id as usize];
                        if !has_any_attached_jsdoc(decl_id, &ctx.nodes) {
                            out.push(require_public_doc_diagnostic(export_span));
                        }
                    }
                },
                None => {},
            }
            assert(out@.map_values(|d: Diagnostic| d.label) =~= reported(*ctx, syms, i as int + 1));
            i = i + 1;
        }
        out
    }
}

} // verus!
