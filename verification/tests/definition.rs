use kome::ast::{Declaration, ImportPath, Module, NamedItem, Span, UseDeclaration, UseImport};
use kome::kome_lsp::definition as sources;
use kome::lsp::definition::{
    definition_at, find_imported_module_given, find_top_level_definition, reference_at_offset,
    span_contains_cursor, standard_symbol_definition, std_import_at, DefinitionAction,
    DefinitionStage,
};
use kome::semantics::{Reference, Resolution, Symbol};
use kome::stdlib::{LoadedModule, StandardLibrary};

fn strings(items: &[&str]) -> Vec<String> {
    items.iter().map(|s| s.to_string()).collect()
}

fn reference(name: &str, start: usize, end: usize, resolved_to: Option<usize>) -> Reference {
    Reference { name: name.to_string(), span: Span::new(start, end), resolved_to, source: None }
}

fn item(name: &str, start: usize, end: usize) -> NamedItem {
    NamedItem { name: name.to_string(), span: Span::new(start, end) }
}

fn module(declarations: Vec<Declaration>) -> Module {
    Module::new(declarations, Span::new(0, 100))
}

fn loaded(path: &str, declarations: Vec<Declaration>) -> LoadedModule {
    LoadedModule { path: path.to_string(), source: String::new(), module: module(declarations) }
}

fn use_std(segments: &[&str], start: usize, end: usize) -> Declaration {
    Declaration::Use(UseDeclaration {
        imports: vec![UseImport::Module(ImportPath { segments: strings(segments), span: Span::new(start, end) })],
    })
}

fn library() -> StandardLibrary {
    StandardLibrary::load("/kome/std".to_string(), String::new(), module(Vec::new()))
}

#[test]
fn cursor_touches_span_inside_and_just_after() {
    let span = Span::new(4, 8);
    assert!(!span_contains_cursor(span, 3));
    assert!(span_contains_cursor(span, 4));
    assert!(span_contains_cursor(span, 7));
    assert!(span_contains_cursor(span, 8));
    assert!(!span_contains_cursor(span, 9));
    assert!(!span_contains_cursor(Span::new(0, 0), 0));
}

#[test]
fn picks_the_shortest_reference_first_among_equals() {
    let references = vec![
        reference("outer", 0, 20, None),
        reference("a", 5, 8, None),
        reference("b", 5, 8, None),
        reference("far", 30, 33, None),
    ];
    assert_eq!(reference_at_offset(&references, 6), Some(1));
    assert_eq!(reference_at_offset(&references, 8), Some(1));
    assert_eq!(reference_at_offset(&references, 12), Some(0));
    assert_eq!(reference_at_offset(&references, 25), None);
    assert_eq!(sources::reference_at_offset(&references, 6), Some(1));
    assert_eq!(sources::reference_at_offset(&references, 33), Some(3));
    assert_eq!(sources::reference_at_offset(&references, 25), None);
}

#[test]
fn finds_the_first_top_level_definition() {
    let m = module(vec![
        Declaration::Other(Span::new(0, 1)),
        Declaration::Enum(item("Color", 2, 9)),
        Declaration::Function(item("print", 10, 20)),
        Declaration::Component(item("print", 21, 30)),
    ]);
    assert_eq!(find_top_level_definition(&m, &"print".to_string()), Some(Span::new(10, 20)));
    assert_eq!(find_top_level_definition(&m, &"Color".to_string()), Some(Span::new(2, 9)));
    assert_eq!(find_top_level_definition(&m, &"missing".to_string()), None);
}

#[test]
fn finds_the_first_module_that_defines_a_symbol() {
    let modules = vec![
        loaded("/kome/std/prelude.kome", vec![Declaration::Function(item("print", 1, 2))]),
        loaded("/kome/std/io.kome", vec![Declaration::Component(item("Reader", 3, 4))]),
        loaded("/kome/std/fmt.kome", vec![Declaration::Function(item("Reader", 5, 6))]),
    ];
    assert_eq!(standard_symbol_definition(&"Reader".to_string(), &modules), Some((1, Span::new(3, 4))));
    assert_eq!(standard_symbol_definition(&"nothing".to_string(), &modules), None);
}

#[test]
fn finds_the_std_import_under_the_cursor() {
    let application = module(vec![
        use_std(&["other", "x"], 0, 7),
        use_std(&["std", "io"], 10, 16),
        Declaration::Function(item("main", 20, 40)),
    ]);
    assert_eq!(std_import_at(&application, 3), None);
    assert_eq!(std_import_at(&application, 12), Some(strings(&["std", "io"])));
    assert_eq!(std_import_at(&application, 16), Some(strings(&["std", "io"])));
    assert_eq!(std_import_at(&application, 30), None);
}

#[test]
fn matches_imported_modules_by_candidate_path() {
    let modules = vec![
        loaded("/kome/std/prelude.kome", Vec::new()),
        loaded("/kome/std/io/mod.kome", Vec::new()),
        loaded("/kome/std/fmt.kome", Vec::new()),
    ];
    let none: Option<Vec<u8>> = None;
    let nothing: Vec<Option<Vec<u8>>> = Vec::new();
    assert_eq!(find_imported_module_given("/kome/std", &modules, &strings(&["std"]), &nothing, &none, &none), Some(0));
    assert_eq!(find_imported_module_given("/kome/std", &modules, &strings(&["std", "io"]), &nothing, &none, &none), Some(1));
    assert_eq!(find_imported_module_given("/kome/std", &modules, &strings(&["std", "fmt"]), &nothing, &none, &none), Some(2));
    assert_eq!(find_imported_module_given("/kome/std", &modules, &strings(&["std", "net"]), &nothing, &none, &none), None);
    assert_eq!(find_imported_module_given("/kome/std", &modules, &Vec::new(), &nothing, &none, &none), None);
    let canonical = vec![None, None, Some(b"/real/net.kome".to_vec())];
    assert_eq!(
        find_imported_module_given(
            "/kome/std",
            &modules,
            &strings(&["std", "net"]),
            &canonical,
            &Some(b"/real/net.kome".to_vec()),
            &none
        ),
        Some(2)
    );
}

#[test]
fn local_definition_needs_no_standard_library() {
    let application = module(vec![Declaration::Function(item("helper", 0, 10))]);
    let resolution = Resolution {
        references: vec![reference("helper", 20, 26, Some(0)), reference("print", 30, 35, None), reference("lost", 40, 44, Some(7))],
        symbols: vec![Symbol { definition_span: Some(Span::new(0, 10)) }],
        symbol_sources: Vec::new(),
    };
    match definition_at(&application, &resolution, 22, None, DefinitionStage::Local) {
        DefinitionAction::Document(span) => assert_eq!(span, Span::new(0, 10)),
        other => panic!("unexpected {:?}", other),
    }
    assert!(matches!(
        definition_at(&application, &resolution, 42, None, DefinitionStage::Local),
        DefinitionAction::NoDefinition
    ));
    assert!(matches!(
        definition_at(&application, &resolution, 32, None, DefinitionStage::Local),
        DefinitionAction::LoadStandardLibrary
    ));
    assert!(matches!(
        definition_at(&application, &resolution, 90, None, DefinitionStage::Local),
        DefinitionAction::LoadStandardLibrary
    ));
}

#[test]
fn standard_library_definitions_go_to_loaded_modules() {
    let library = library();
    let application = module(vec![use_std(&["std", "io"], 4, 10), Declaration::Function(item("main", 11, 50))]);
    let resolution = Resolution {
        references: vec![reference("read_line", 20, 29, None)],
        symbols: Vec::new(),
        symbol_sources: Vec::new(),
    };
    let modules = vec![
        loaded("/kome/std/prelude.kome", vec![Declaration::Function(item("print", 0, 5))]),
        loaded("/kome/std/io.kome", vec![Declaration::Function(item("read_line", 7, 30))]),
    ];
    let standard = Some((&library, &modules));
    match definition_at(&application, &resolution, 6, standard, DefinitionStage::Import) {
        DefinitionAction::Module { index, span, fallback } => {
            assert_eq!(index, 1);
            assert_eq!(span, Span::new(0, 0));
            assert!(matches!(fallback, Some(DefinitionStage::Symbol)));
        }
        other => panic!("unexpected {:?}", other),
    }
    match definition_at(&application, &resolution, 25, standard, DefinitionStage::Import) {
        DefinitionAction::Module { index, span, fallback } => {
            assert_eq!(index, 1);
            assert_eq!(span, Span::new(7, 30));
            assert!(fallback.is_none());
        }
        other => panic!("unexpected {:?}", other),
    }
    assert!(matches!(
        definition_at(&application, &resolution, 6, standard, DefinitionStage::Symbol),
        DefinitionAction::NoDefinition
    ));
    assert!(matches!(
        definition_at(&application, &resolution, 6, None, DefinitionStage::Import),
        DefinitionAction::LoadStandardLibrary
    ));
}

#[test]
fn combined_resolution_finds_module_definitions() {
    let document = Resolution {
        references: vec![
            reference("print", 10, 15, None),
            reference("local", 20, 25, Some(0)),
        ],
        symbols: vec![Symbol { definition_span: Some(Span::new(0, 5)) }],
        symbol_sources: Vec::new(),
    };
    assert!(matches!(
        sources::definition_at(&document, 12, None),
        sources::SourceDefinitionAction::ResolveWithStandardLibrary
    ));
    match sources::definition_at(&document, 22, None) {
        sources::SourceDefinitionAction::Document(span) => assert_eq!(span, Span::new(0, 5)),
        other => panic!("unexpected {:?}", other),
    }
    assert!(matches!(sources::definition_at(&document, 90, None), sources::SourceDefinitionAction::NoDefinition));

    let mut in_module = reference("print", 10, 15, Some(1));
    in_module.source = Some(2);
    let mut in_document = reference("print", 10, 15, Some(0));
    in_document.source = Some(0);
    let combined = Resolution {
        references: vec![in_module, in_document],
        symbols: vec![Symbol { definition_span: Some(Span::new(1, 2)) }, Symbol { definition_span: Some(Span::new(3, 9)) }],
        symbol_sources: vec![Some(2), Some(0)],
    };
    match sources::definition_at(&document, 12, Some((&combined, 2))) {
        sources::SourceDefinitionAction::Module { index, span } => {
            assert_eq!(index, 1);
            assert_eq!(span, Span::new(1, 2));
        }
        other => panic!("unexpected {:?}", other),
    }
    assert!(matches!(
        sources::definition_at(&document, 12, Some((&combined, 1))),
        sources::SourceDefinitionAction::NoDefinition
    ));
}

#[test]
fn matching_reference_prefers_the_document_source() {
    let target = reference("x", 1, 2, None);
    let mut other = reference("x", 1, 2, Some(3));
    other.source = Some(4);
    let mut own = reference("x", 1, 2, Some(5));
    own.source = Some(0);
    let references = vec![reference("y", 1, 2, None), other, own];
    assert_eq!(sources::find_matching_reference(&references, &target), Some(2));
    let references = vec![reference("x", 1, 3, None), reference("x", 1, 2, None)];
    assert_eq!(sources::find_matching_reference(&references, &target), Some(1));
    assert_eq!(sources::find_matching_reference(&Vec::new(), &target), None);
    assert!(sources::span_contains_offset(&target, 1));
    assert!(!sources::span_contains_offset(&target, 2));
}
