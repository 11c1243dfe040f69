use kome::ast::{Declaration, ImportPath, Module, NamedItem, Span, UseDeclaration, UseImport};
use kome::paths::{paths_equal, paths_equal_given};
use kome::stdlib::{toolchain_root, StandardLibrary};
use kome::platform::{write_line_argument, WRITE_LINE_NATIVE};
use kome::text::{concat3, is_std, join_segments};

fn strings(items: &[&str]) -> Vec<String> {
    items.iter().map(|s| s.to_string()).collect()
}

#[test]
fn joins_segments_with_dots() {
    assert_eq!(join_segments(&strings(&["std", "io", "fs"]), "."), "std.io.fs");
    assert_eq!(join_segments(&strings(&["std"]), "."), "std");
    assert_eq!(join_segments(&Vec::new(), "."), "");
}

#[test]
fn recognises_std_segment() {
    assert!(is_std(&"std".to_string()));
    assert!(!is_std(&"stdx".to_string()));
    assert!(!is_std(&"".to_string()));
}

#[test]
fn concatenates_three_parts() {
    assert_eq!(concat3("a", "bc", "d"), "abcd");
}

#[test]
fn joins_paths_like_std() {
    assert_eq!(toolchain_root("/opt/kome", "nightly"), "/opt/kome/toolchains/nightly/lib/std");
    assert_eq!(toolchain_root("/opt/kome/", "nightly"), "/opt/kome/toolchains/nightly/lib/std");
    assert_eq!(toolchain_root("/opt/kome", "/etc/kome"), "/etc/kome/lib/std");
}

#[test]
fn replaces_extension_like_std() {
    let library = StandardLibrary::load("/opt/std".to_string(), String::new(), Module::new(Vec::new(), Span::new(0, 0)));
    assert_eq!(
        library.module_candidates(&vec!["std".to_string(), "io".to_string()]),
        Ok(("/opt/std/io.kome".to_string(), "/opt/std/io/mod.kome".to_string()))
    );
    assert_eq!(
        library.module_candidates(&vec!["std".to_string(), "io.txt".to_string()]),
        Ok(("/opt/std/io.kome".to_string(), "/opt/std/io.txt/mod.kome".to_string()))
    );
}

#[test]
fn compares_paths_by_components() {
    assert!(paths_equal_given("/a/./b", "/a/b", &None, &None));
    assert!(paths_equal_given("/a/b/", "/a/b", &None, &None));
    assert!(!paths_equal_given("/a/b", "/a/c", &None, &None));
}

#[test]
fn paths_equal_falls_back_to_written_paths() {
    let missing_left = "/definitely/not/here/kome/left.kome";
    assert!(paths_equal(missing_left, "/definitely/not/here/kome/./left.kome"));
    assert!(!paths_equal(missing_left, "/definitely/not/here/kome/right.kome"));
}

#[test]
fn paths_equal_given_prefers_canonical_forms() {
    let some = |s: &str| Some(s.as_bytes().to_vec());
    assert!(paths_equal_given("a", "b", &some("/x"), &some("/x")));
    assert!(!paths_equal_given("a", "a", &some("/x"), &some("/y")));
    assert!(paths_equal_given("a", "a", &some("/x"), &None));
    assert!(!paths_equal_given("a", "b", &None, &some("/x")));
    assert_eq!(
        paths_equal_given("/a/b", "/a/./b", &None, &some("/x")),
        paths_equal_given("/a/./b", "/a/b", &some("/x"), &None)
    );
}

#[test]
fn write_line_takes_exactly_one_argument() {
    assert_eq!(WRITE_LINE_NATIVE, "core.write_line");
    assert_eq!(write_line_argument(&[7]), Ok(&7));
    let none: [i32; 0] = [];
    assert_eq!(
        write_line_argument(&none),
        Err("core.write_line expects exactly one argument".to_string())
    );
    assert_eq!(
        write_line_argument(&[1, 2]),
        Err("core.write_line expects exactly one argument".to_string())
    );
}

#[test]
fn duplicates_modules_field_by_field() {
    let module = Module::new(
        vec![
            Declaration::Use(UseDeclaration {
                imports: vec![
                    UseImport::Module(ImportPath { segments: strings(&["std", "io"]), span: Span::new(4, 10) }),
                    UseImport::Other,
                ],
            }),
            Declaration::Function(NamedItem { name: "main".to_string(), span: Span::new(11, 30) }),
            Declaration::Other(Span::new(31, 40)),
        ],
        Span::new(0, 40),
    );
    let copy = module.duplicate();
    assert_eq!(format!("{:?}", copy), format!("{:?}", module));
    assert!(copy.declarations[0].is_use());
    assert!(!copy.declarations[1].is_use());
}
