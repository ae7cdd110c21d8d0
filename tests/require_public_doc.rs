use angle_relex::module_record::{
    AstNode, AstNodes, Binding, ExportEntry, ExportLocalName, LintContext, ModuleRecord, NameSpan,
    Scoping, Span,
};
use angle_relex::require_public_doc::{has_any_attached_jsdoc, RequirePublicDoc};

fn span(start: u32, end: u32) -> Span {
    Span { start, end }
}

fn name(text: &str, start: u32) -> NameSpan {
    NameSpan { name: text.as_bytes().to_vec(), span: span(start, start + text.len() as u32) }
}

fn node(parent: usize, is_program: bool, has_jsdoc: bool) -> AstNode {
    AstNode { parent, is_program, has_jsdoc }
}

/// A module whose export entries, root bindings (name, declaring node) and
/// nodes (parent, jsdoc) are given; node 0 is the program.
fn module(
    entries: Vec<ExportEntry>,
    bindings: Vec<(&str, usize)>,
    nodes: Vec<(usize, bool)>,
) -> LintContext {
    let mut all = vec![node(0, true, false)];
    all.extend(nodes.into_iter().map(|(p, doc)| node(p, false, doc)));
    LintContext {
        module_record: ModuleRecord { local_export_entries: entries },
        scoping: Scoping {
            root_bindings: bindings
                .iter()
                .enumerate()
                .map(|(i, (n, _))| Binding { name: n.as_bytes().to_vec(), symbol_id: i as u32 })
                .collect(),
            symbol_declarations: bindings.iter().map(|(_, d)| *d).collect(),
        },
        nodes: AstNodes { nodes: all },
    }
}

fn local(n: NameSpan, at: Span) -> ExportEntry {
    ExportEntry { module_request: None, local_name: ExportLocalName::Name(n), span: at }
}

/// The module records of the sources below, as a parser and a semantic
/// pass build them.
fn cases() -> (Vec<(&'static str, LintContext)>, Vec<(&'static str, LintContext)>) {
    let pass = vec![
        (
            // nodes: export declaration (doc), function
            "/** Docs */\nexport function quux() {}",
            module(vec![local(name("quux", 28), span(12, 37))], vec![("quux", 2)], vec![(0, true), (1, false)]),
        ),
        (
            // nodes: export declaration (doc), variable declaration, declarator
            "/** Docs */\nexport const bar = () => {};",
            module(
                vec![local(name("bar", 25), span(12, 40))],
                vec![("bar", 3)],
                vec![(0, true), (1, false), (2, false)],
            ),
        ),
        (
            // nodes: function (doc), export declaration
            "/** Docs */\nfunction foo() {}\nexport { foo };",
            module(vec![local(name("foo", 39), span(30, 45))], vec![("foo", 1)], vec![(0, true), (0, false)]),
        ),
        (
            "export { foo } from 'mod';",
            module(
                vec![ExportEntry {
                    module_request: Some(name("'mod'", 20)),
                    local_name: ExportLocalName::Name(name("foo", 9)),
                    span: span(0, 26),
                }],
                vec![],
                vec![(0, false)],
            ),
        ),
    ];
    let fail = vec![
        (
            "export function quux() {}",
            module(vec![local(name("quux", 16), span(0, 25))], vec![("quux", 2)], vec![(0, false), (1, false)]),
        ),
        (
            "export const bar = () => {};",
            module(
                vec![local(name("bar", 13), span(0, 28))],
                vec![("bar", 3)],
                vec![(0, false), (1, false), (2, false)],
            ),
        ),
        (
            "function foo() {}\nexport { foo };",
            module(vec![local(name("foo", 27), span(18, 33))], vec![("foo", 1)], vec![(0, false), (0, false)]),
        ),
        (
            "export default function quux() {}",
            module(
                vec![ExportEntry {
                    module_request: None,
                    local_name: ExportLocalName::Default(name("quux", 24)),
                    span: span(0, 33),
                }],
                vec![("quux", 2)],
                vec![(0, false), (1, false)],
            ),
        ),
    ];
    (pass, fail)
}

#[test]
fn test() {
    let (pass, fail) = cases();
    for (source, ctx) in &pass {
        assert!(RequirePublicDoc.run_once(ctx).is_empty(), "expected no diagnostic: {source}");
    }
    for (source, ctx) in &fail {
        let found = RequirePublicDoc.run_once(ctx);
        assert_eq!(found.len(), 1, "expected one diagnostic: {source}");
        assert_eq!(found[0].label, ctx.module_record.local_export_entries[0].span);
    }
}

#[test]
fn symbol_exported_twice_is_reported_once() {
    let ctx = module(
        vec![local(name("foo", 27), span(18, 33)), local(name("foo", 43), span(34, 60))],
        vec![("foo", 1)],
        vec![(0, false)],
    );
    let found = RequirePublicDoc.run_once(&ctx);
    assert_eq!(found.len(), 1);
    assert_eq!(found[0].label, span(18, 33));
}

#[test]
fn unresolved_and_anonymous_exports_are_skipped() {
    let ctx = module(
        vec![
            local(name("missing", 9), span(0, 20)),
            ExportEntry { module_request: None, local_name: ExportLocalName::Null, span: span(21, 40) },
        ],
        vec![("other", 1)],
        vec![(0, false)],
    );
    assert!(RequirePublicDoc.run_once(&ctx).is_empty());
}

#[test]
fn reports_follow_export_order() {
    let ctx = module(
        vec![local(name("b", 9), span(50, 60)), local(name("a", 9), span(10, 20))],
        vec![("a", 1), ("b", 2)],
        vec![(0, false), (0, false)],
    );
    let labels: Vec<Span> = RequirePublicDoc.run_once(&ctx).iter().map(|d| d.label).collect();
    assert_eq!(labels, vec![span(50, 60), span(10, 20)]);
}

#[test]
fn jsdoc_found_on_ancestor_only_below_program() {
    let mut nodes = AstNodes { nodes: vec![node(0, true, true), node(0, false, false), node(1, false, false)] };
    assert!(!has_any_attached_jsdoc(2, &nodes));
    nodes.nodes[1].has_jsdoc = true;
    assert!(has_any_attached_jsdoc(2, &nodes));
    assert!(!has_any_attached_jsdoc(0, &AstNodes { nodes: vec![node(0, true, false)] }));
}
