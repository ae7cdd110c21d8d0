//! What the documentation rule reads of a parsed module: its local export
//! entries, the root scope's bindings, and the syntax tree's parent links.
use vstd::prelude::*;

verus! {

/// A half-open byte range `[start, end)` in the source.
#[derive(Clone, Copy, Debug, PartialEq, Eq, Structural)]
pub struct Span {
    pub start: u32,
    pub end: u32,
}

/// A name and where it stands.
#[derive(Debug)]
pub struct NameSpan {
    pub name: Vec<u8>,
    pub span: Span,
}

/// The local name an export refers to.
#[derive(Debug)]
pub enum ExportLocalName {
    /// `export { foo }`, `export function foo() {}`
    Name(NameSpan),
    /// `export default foo`, `export default function foo() {}`
    Default(NameSpan),
    /// An export with no local binding to resolve.
    Null,
}

/// One export of the module.
#[derive(Debug)]
pub struct ExportEntry {
    /// The module re-exported from, as in `export { foo } from 'mod'`.
    pub module_request: Option<NameSpan>,
    pub local_name: ExportLocalName,
    /// The export statement.
    pub span: Span,
}

#[derive(Debug)]
pub struct ModuleRecord {
    pub local_export_entries: Vec<ExportEntry>,
}

/// A binding of the root scope: a name and its symbol id.
#[derive(Debug)]
pub struct Binding {
    pub name: Vec<u8>,
    pub symbol_id: u32,
}

/// Symbols: the root scope's bindings, and for each symbol id the node that
/// declares it.
#[derive(Debug)]
pub struct Scoping {
    pub root_bindings: Vec<Binding>,
    pub symbol_declarations: Vec<usize>,
}

/// A node of the syntax tree: its parent and whether a JSDoc block is
/// attached to it.
#[derive(Clone, Copy, Debug, PartialEq, Eq, Structural)]
pub struct AstNode {
    pub parent: usize,
    pub is_program: bool,
    pub has_jsdoc: bool,
}

/// The nodes of a syntax tree, indexed by node id. Node 0 is the program;
/// every other node's parent has a smaller id.
#[derive(Debug)]
pub struct AstNodes {
    pub nodes: Vec<AstNode>,
}

/// What a rule reads of a parsed module.
#[derive(Debug)]
pub struct LintContext {
    pub module_record: ModuleRecord,
    pub scoping: Scoping,
    pub nodes: AstNodes,
}

impl AstNodes {
    pub open spec fn wf(&self) -> bool {
        &&& self.nodes@.len() > 0
        &&& self.nodes@[0].is_program
        &&& self.nodes@[0].parent == 0
        &&& forall|k: int| 0 < k < self.nodes@.len() ==> #[trigger] self.nodes@[k].parent < k
    }
}

impl LintContext {
    /// Every symbol of the root scope has a declaration, and every
    /// declaration is a node of the tree.
    pub open spec fn wf(&self) -> bool {
        &&& self.nodes.wf()
        &&& forall|k: int|
            0 <= k < self.scoping.root_bindings@.len() ==> (
            #[trigger] self.scoping.root_bindings@[k]).symbol_id
                < self.scoping.symbol_declarations@.len()
        &&& forall|k: int|
            0 <= k < self.scoping.symbol_declarations@.len() ==> #[trigger] self.scoping.symbol_declarations@[k]
                < self.nodes.nodes@.len()
    }
}

} // verus!
