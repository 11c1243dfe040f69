use kome::ast::{Declaration, ImportPath, Module, NamedItem, Span, UseDeclaration, UseImport};
use kome::stdlib::{
    DeclarationPosition, DeclarationSource,
    kome_home, prelude_path_for, select_module_path,
    standard_library_imports, toolchain_root, DiscoverPlan, LoadedModule, StandardLibrary,
};

fn strings(items: &[&str]) -> Vec<String> {
    items.iter().map(|s| s.to_string()).collect()
}

fn some(s: &str) -> Option<String> {
    Some(s.to_string())
}

fn use_of(paths: &[&[&str]]) -> Declaration {
    Declaration::Use(UseDeclaration {
        imports: paths
            .iter()
            .map(|p| UseImport::Module(ImportPath { segments: strings(p), span: Span::new(0, 1) }))
            .collect(),
    })
}

fn function(name: &str, start: usize) -> Declaration {
    Declaration::Function(NamedItem { name: name.to_string(), span: Span::new(start, start + 5) })
}

fn names(module: &Module) -> Vec<String> {
    module
        .declarations
        .iter()
        .map(|d| match d {
            Declaration::Use(_) => "use".to_string(),
            Declaration::Function(f) => f.name.clone(),
            Declaration::Component(c) => c.name.clone(),
            Declaration::Enum(e) => e.name.clone(),
            Declaration::Other(_) => "other".to_string(),
        })
        .collect()
}

fn library(prelude: Vec<Declaration>) -> StandardLibrary {
    StandardLibrary::load("/opt/kome/std".to_string(), "prelude source".to_string(), Module::new(prelude, Span::new(0, 50)))
}

#[test]
fn discover_prefers_the_stdlib_variable() {
    match StandardLibrary::discover(some("/custom/std"), some("/komeup"), some("/home/me")) {
        Ok(DiscoverPlan::Load(root)) => assert_eq!(root, "/custom/std"),
        other => panic!("unexpected {:?}", other),
    }
}

#[test]
fn discover_refuses_an_empty_stdlib_variable() {
    match StandardLibrary::discover(some(""), None, some("/home/me")) {
        Err(message) => assert_eq!(message, "KOME_STDLIB_PATH is set, but its value is empty"),
        other => panic!("unexpected {:?}", other),
    }
}

#[test]
fn discover_reads_the_komeup_configuration() {
    match StandardLibrary::discover(None, some("/komeup"), some("/home/me")) {
        Ok(DiscoverPlan::ReadConfig { home, config_path }) => {
            assert_eq!(home, "/komeup");
            assert_eq!(config_path, "/komeup/komeup.toml");
        }
        other => panic!("unexpected {:?}", other),
    }
    match StandardLibrary::discover(None, None, some("/home/me")) {
        Ok(DiscoverPlan::ReadConfig { home, config_path }) => {
            assert_eq!(home, "/home/me/.kome");
            assert_eq!(config_path, "/home/me/.kome/komeup.toml");
        }
        other => panic!("unexpected {:?}", other),
    }
}

#[test]
fn kome_home_errors() {
    assert_eq!(
        kome_home(some(""), some("/home/me")),
        Err("KOMEUP_HOME is set, but its value is empty".to_string())
    );
    assert_eq!(
        kome_home(None, None),
        Err("HOME is not set and KOMEUP_HOME was not provided".to_string())
    );
    match StandardLibrary::discover(None, None, None) {
        Err(message) => assert_eq!(message, "HOME is not set and KOMEUP_HOME was not provided"),
        other => panic!("unexpected {:?}", other),
    }
}

#[test]
fn toolchain_root_is_below_the_home() {
    assert_eq!(toolchain_root("/home/me/.kome", "stable"), "/home/me/.kome/toolchains/stable/lib/std");
}

#[test]
fn load_from_env_needs_the_variable() {
    assert_eq!(
        StandardLibrary::load_from_env(None),
        Err("KOME_STDLIB_PATH is not set; set it to the kome_std directory".to_string())
    );
    assert_eq!(StandardLibrary::load_from_env(some("")), Err("KOME_STDLIB_PATH is set, but its value is empty".to_string()));
    assert_eq!(StandardLibrary::load_from_env(some("/std")), Ok("/std".to_string()));
}

#[test]
fn prelude_path_needs_a_directory() {
    assert_eq!(prelude_path_for("/std", Ok(true)), Ok("/std/prelude.kome".to_string()));
    assert_eq!(
        prelude_path_for("/std", Ok(false)),
        Err("standard library path `/std` is not a directory".to_string())
    );
    assert_eq!(
        prelude_path_for("/std", Err("No such file or directory".to_string())),
        Err("failed to access standard library directory `/std`: No such file or directory".to_string())
    );
}

#[test]
fn library_keeps_its_parts() {
    let library = library(vec![function("print", 0)]);
    assert_eq!(library.root(), "/opt/kome/std");
    assert_eq!(library.prelude_path(), "/opt/kome/std/prelude.kome");
    assert_eq!(library.prelude_source(), "prelude source");
    assert_eq!(names(library.prelude()), vec!["print"]);
}

#[test]
fn collects_only_standard_library_module_imports() {
    let module = Module::new(
        vec![
            use_of(&[&["std", "io"], &["std"], &["other", "x"], &["std", "fmt", "write"]]),
            function("main", 10),
            Declaration::Use(UseDeclaration { imports: vec![UseImport::Other] }),
            use_of(&[&["std", "io"]]),
        ],
        Span::new(0, 100),
    );
    let imports = standard_library_imports(&module);
    assert_eq!(
        imports,
        vec![strings(&["std", "io"]), strings(&["std", "fmt", "write"]), strings(&["std", "io"])]
    );
}

#[test]
fn merge_with_puts_the_prelude_first() {
    let library = library(vec![function("print", 0), use_of(&[&["std", "io"]])]);
    let application = Module::new(vec![function("main", 10)], Span::new(3, 90));
    let merged = library.merge_with(application);
    assert_eq!(names(&merged.module), vec!["print", "use", "main"]);
    assert_eq!(merged.module.span, Span::new(3, 90));
    assert_eq!(
        merged.positions,
        vec![
            DeclarationPosition { source: DeclarationSource::Standard(0), index: 0 },
            DeclarationPosition { source: DeclarationSource::Standard(0), index: 1 },
            DeclarationPosition { source: DeclarationSource::Application, index: 0 },
        ]
    );
}

#[test]
fn merge_with_imports_leaves_out_use_declarations() {
    let library = library(vec![function("print", 0), use_of(&[&["std", "io"]])]);
    let modules = vec![
        LoadedModule {
            path: library.prelude_path().to_string(),
            source: String::new(),
            module: library.prelude().duplicate(),
        },
        LoadedModule {
            path: "/opt/kome/std/io.kome".to_string(),
            source: String::new(),
            module: Module::new(vec![use_of(&[&["std", "fmt"]]), function("read_line", 3)], Span::new(0, 9)),
        },
    ];
    let application = Module::new(vec![use_of(&[&["std", "io"]]), function("main", 10)], Span::new(1, 2));
    let merged = library.merge_with_imports(&modules, application);
    assert_eq!(names(&merged.module), vec!["print", "read_line", "use", "main"]);
    assert_eq!(merged.module.span, Span::new(1, 2));
    assert_eq!(
        merged.positions,
        vec![
            DeclarationPosition { source: DeclarationSource::Standard(0), index: 0 },
            DeclarationPosition { source: DeclarationSource::Standard(1), index: 1 },
            DeclarationPosition { source: DeclarationSource::Application, index: 0 },
            DeclarationPosition { source: DeclarationSource::Application, index: 1 },
        ]
    );
}

#[test]
fn module_candidates_check_the_path() {
    let library = library(Vec::new());
    assert_eq!(
        library.module_candidates(&strings(&["core", "io"])),
        Err("standard library module path must start with `std`: `core.io`".to_string())
    );
    assert_eq!(
        library.module_candidates(&Vec::new()),
        Err("standard library module path must start with `std`: ``".to_string())
    );
    assert_eq!(
        library.module_candidates(&strings(&["std"])),
        Err("`std` must be followed by a module name".to_string())
    );
    assert_eq!(
        library.module_candidates(&strings(&["std", "collections", "map"])),
        Ok((
            "/opt/kome/std/collections/map.kome".to_string(),
            "/opt/kome/std/collections/map/mod.kome".to_string()
        ))
    );
}

#[test]
fn select_module_path_prefers_the_plain_file() {
    let segments = strings(&["std", "io"]);
    let file = "/s/io.kome".to_string();
    let dir = "/s/io/mod.kome".to_string();
    assert_eq!(select_module_path(&segments, file.clone(), dir.clone(), true, true), Ok(file.clone()));
    assert_eq!(select_module_path(&segments, file.clone(), dir.clone(), false, true), Ok(dir.clone()));
    assert_eq!(
        select_module_path(&segments, file, dir, false, false),
        Err("standard library module `std.io` was not found; expected `/s/io.kome` or `/s/io/mod.kome`".to_string())
    );
}

#[test]
fn locate_module_reports_a_missing_module() {
    let library = StandardLibrary::load(
        "/definitely/not/here/kome/std".to_string(),
        String::new(),
        Module::new(Vec::new(), Span::new(0, 0)),
    );
    assert_eq!(
        library.locate_module(&strings(&["std", "io"])),
        Err("standard library module `std.io` was not found; expected `/definitely/not/here/kome/std/io.kome` or `/definitely/not/here/kome/std/io/mod.kome`".to_string())
    );
    assert_eq!(
        library.locate_module(&strings(&["io"])),
        Err("standard library module path must start with `std`: `io`".to_string())
    );
}

#[test]
fn module_walk_loads_each_module_once_breadth_first() {
    let library = library(vec![use_of(&[&["std", "io"]]), function("print", 0)]);
    let application = Module::new(
        vec![use_of(&[&["std", "fmt"], &["std", "io"]]), function("main", 10)],
        Span::new(0, 20),
    );
    let mut walk = library.modules_for(&application);
    assert_eq!(walk.modules().len(), 1);
    assert_eq!(walk.modules()[0].path, "/opt/kome/std/prelude.kome");

    assert_eq!(walk.next_module(), Some(strings(&["std", "io"])));
    walk.add(LoadedModule {
        path: "/opt/kome/std/io.kome".to_string(),
        source: String::new(),
        module: Module::new(vec![use_of(&[&["std", "text"], &["std", "fmt"]])], Span::new(0, 5)),
    });
    assert_eq!(walk.next_module(), Some(strings(&["std", "fmt"])));
    walk.add(LoadedModule {
        path: "/opt/kome/std/fmt.kome".to_string(),
        source: String::new(),
        module: Module::new(Vec::new(), Span::new(0, 5)),
    });
    assert_eq!(walk.next_module(), Some(strings(&["std", "text"])));
    walk.add(LoadedModule {
        path: "/opt/kome/std/text/mod.kome".to_string(),
        source: String::new(),
        module: Module::new(vec![use_of(&[&["std", "io"]])], Span::new(0, 5)),
    });
    assert_eq!(walk.next_module(), None);
    assert_eq!(walk.next_module(), None);
    let modules = walk.finish();
    let paths: Vec<&str> = modules.iter().map(|m| m.path.as_str()).collect();
    assert_eq!(
        paths,
        vec![
            "/opt/kome/std/prelude.kome",
            "/opt/kome/std/io.kome",
            "/opt/kome/std/fmt.kome",
            "/opt/kome/std/text/mod.kome"
        ]
    );
}

#[test]
fn module_walk_dedups_by_dotted_name() {
    let library = library(Vec::new());
    let application = Module::new(vec![use_of(&[&["std", "a.b"], &["std", "a", "b"]])], Span::new(0, 1));
    let mut walk = library.modules_for(&application);
    assert_eq!(walk.next_module(), Some(strings(&["std", "a.b"])));
    assert_eq!(walk.next_module(), None);
}

#[test]
fn merge_with_imports_of_the_prelude_alone_is_merge_with() {
    let library = library(vec![function("print", 0), Declaration::Other(Span::new(6, 9))]);
    let application = || Module::new(vec![function("main", 10)], Span::new(0, 30));
    let mut walk = library.modules_for(&application());
    assert_eq!(walk.next_module(), None);
    let modules = walk.finish();
    let with_imports = library.merge_with_imports(&modules, application());
    let plain = library.merge_with(application());
    assert_eq!(names(&with_imports.module), names(&plain.module));
    assert_eq!(format!("{:?}", with_imports), format!("{:?}", plain));
}
