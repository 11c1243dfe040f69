//! Go to definition: from a cursor in the open document to the declaration
//! of the name under it, in the document or in a standard library module.
//!
//! The language server resolves the document, and loads the standard
//! library only when the name is not declared locally.  `definition_at`
//! makes each decision in turn; the server performs what it asks for
//! (loading the standard library, making a location for a module) and
//! calls it again.
use vstd::prelude::*;

use crate::ast::{Declaration, DeclarationModel, ImportModel, Module, ModuleModel, Span, UseImport};
use crate::paths::{
    canonical_form, observed_canonical, bytes_view, path_eq, paths_equal_after, paths_equal_given,
    same_path,
};
use crate::search::{
    first_where, is_first_where, lemma_first_exists, lemma_first_where_found, lemma_first_where_none,
};
use crate::semantics::{definition_of, symbol_definition, Reference, Resolution, Symbol};
use crate::stdlib::{
    directory_candidate, file_candidate, loaded_models, module_file_candidates, spec_prelude_path,
    LoadedModule, LoadedModuleModel, StandardLibrary,
};
use crate::paths::join;
use crate::text::{is_std, std_name};

verus! {

/// The cursor at `offset` touches `span`: it is inside it, or just after
/// its last byte.
pub open spec fn covers_cursor(span: Span, offset: int) -> bool {
    ||| span.start <= offset < span.end
    ||| offset >= 1 && span.start <= offset - 1 < span.end
}

/// Whether the cursor at `byte_offset` touches `span`.
pub fn span_contains_cursor(span: Span, byte_offset: usize) -> (touches: bool)
    ensures
        touches == covers_cursor(span, byte_offset as int),
{
    if span.start <= byte_offset && byte_offset < span.end {
        return true;
    }
    byte_offset >= 1 && span.start <= byte_offset - 1 && byte_offset - 1 < span.end
}

/// The length of a span, zero where it is reversed.
pub open spec fn span_width(span: Span) -> int {
    if span.end >= span.start {
        span.end - span.start
    } else {
        0
    }
}

/// Reference `i` touches the cursor and no reference that touches it is
/// shorter.
pub open spec fn is_innermost(references: Seq<Reference>, offset: int, i: int) -> bool {
    &&& covers_cursor(references[i].span, offset)
    &&& forall|j: int|
        0 <= j < references.len() && covers_cursor(#[trigger] references[j].span, offset)
            ==> span_width(references[i].span) <= span_width(references[j].span)
}

/// The reference under the cursor: the shortest one that touches it, the
/// first of those where several are equally short.
pub open spec fn reference_at(references: Seq<Reference>, offset: int) -> Option<int> {
    first_where(references.len() as int, |i: int| is_innermost(references, offset, i))
}

fn width(span: Span) -> (w: usize)
    ensures
        w == span_width(span),
{
    if span.end >= span.start {
        span.end - span.start
    } else {
        0
    }
}

/// Finds the reference under the cursor (see `reference_at`) and gives its
/// position.
pub fn reference_at_offset(references: &Vec<Reference>, byte_offset: usize) -> (found: Option<
    usize,
>)
    ensures
        match (found, reference_at(references@, byte_offset as int)) {
            (Some(i), Some(j)) => i as int == j,
            (None, None) => true,
            _ => false,
        },
{
    let ghost refs = references@;
    let ghost offset = byte_offset as int;
    let ghost pred = |i: int| is_innermost(refs, offset, i);
    let mut best: Option<usize> = None;
    let mut best_width: usize = 0;
    let mut i: usize = 0;
    while i < references.len()
        invariant
            i <= references.len(),
            refs == references@,
            offset == byte_offset as int,
            match best {
                Some(b) => {
                    &&& b < i
                    &&& covers_cursor(refs[b as int].span, offset)
                    &&& best_width == span_width(refs[b as int].span)
                    &&& forall|j: int|
                        0 <= j < i && covers_cursor(#[trigger] refs[j].span, offset)
                            ==> best_width <= span_width(refs[j].span)
                    &&& forall|j: int|
                        0 <= j < b && covers_cursor(#[trigger] refs[j].span, offset)
                            ==> best_width < span_width(refs[j].span)
                },
                None => forall|j: int| 0 <= j < i ==> !covers_cursor(#[trigger] refs[j].span, offset),
            },
        decreases references.len() - i,
    {
        let span = references[i].span;
        if span_contains_cursor(span, byte_offset) {
            let w = width(span);
            match best {
                Some(b) => {
                    if w < best_width {
                        best = Some(i);
                        best_width = w;
                    }
                },
                None => {
                    best = Some(i);
                    best_width = w;
                },
            }
        }
        i = i + 1;
    }
    proof {
        match best {
            Some(b) => {
                assert(pred(b as int));
                assert forall|j: int| 0 <= j < b implies !#[trigger] pred(j) by {
                    if covers_cursor(refs[j].span, offset) {
                        assert(!(span_width(refs[j].span) <= span_width(refs[b as int].span)));
                    }
                }
                assert(is_first_where(refs.len() as int, pred, b as int));
                lemma_first_where_found(refs.len() as int, pred, b as int);
            },
            None => {
                assert forall|j: int| 0 <= j < refs.len() implies !#[trigger] pred(j) by {}
                lemma_first_where_none(refs.len() as int, pred);
            },
        }
    }
    best
}

/// Declaration `d` defines a function, component or enum called `name`.
pub open spec fn defines(d: DeclarationModel, name: Seq<char>) -> bool {
    match d {
        DeclarationModel::Function(n, _) => n == name,
        DeclarationModel::Component(n, _) => n == name,
        DeclarationModel::Enum(n, _) => n == name,
        _ => false,
    }
}

/// The span of a named declaration.
pub open spec fn declared_span(d: DeclarationModel) -> Span {
    match d {
        DeclarationModel::Function(_, s) => s,
        DeclarationModel::Component(_, s) => s,
        DeclarationModel::Enum(_, s) => s,
        DeclarationModel::Other(s) => s,
        DeclarationModel::Use(_) => Span { start: 0, end: 0 },
    }
}

/// The span of the first top-level function, component or enum called
/// `name`.
pub open spec fn top_level_definition(declarations: Seq<DeclarationModel>, name: Seq<char>) -> Option<
    Span,
> {
    match first_where(declarations.len() as int, |i: int| defines(declarations[i], name)) {
        Some(i) => Some(declared_span(declarations[i])),
        None => None,
    }
}

/// Finds the first top-level function, component or enum of `module`
/// called `name` and gives the span of its declaration.
pub fn find_top_level_definition(module: &Module, name: &String) -> (span: Option<Span>)
    ensures
        span == top_level_definition(module@.declarations, name@),
{
    let ghost decls = module@.declarations;
    let ghost pred = |i: int| defines(decls[i], name@);
    let mut i: usize = 0;
    while i < module.declarations.len()
        invariant
            i <= module.declarations.len(),
            decls == module@.declarations,
            decls.len() == module.declarations@.len(),
            pred == (|i: int| defines(decls[i], name@)),
            forall|j: int| 0 <= j < i ==> !#[trigger] defines(decls[j], name@),
        decreases module.declarations.len() - i,
    {
        assert(decls[i as int] == module.declarations@[i as int]@);
        let found = match &module.declarations[i] {
            Declaration::Function(item) => if item.name == *name {
                Some(item.span)
            } else {
                None
            },
            Declaration::Component(item) => if item.name == *name {
                Some(item.span)
            } else {
                None
            },
            Declaration::Enum(item) => if item.name == *name {
                Some(item.span)
            } else {
                None
            },
            _ => None,
        };
        assert(found is Some <==> defines(decls[i as int], name@));
        assert(found is Some ==> found->0 == declared_span(decls[i as int]));
        if let Some(span) = found {
            proof {
                assert(is_first_where(decls.len() as int, pred, i as int));
                lemma_first_where_found(decls.len() as int, pred, i as int);
            }
            return Some(span);
        }
        i = i + 1;
    }
    proof {
        assert forall|j: int| 0 <= j < decls.len() implies !#[trigger] pred(j) by {}
        lemma_first_where_none(decls.len() as int, pred);
    }
    None
}

/// Module `i` declares `name` at its top level.
pub open spec fn module_defines(modules: Seq<LoadedModuleModel>, name: Seq<char>, i: int) -> bool {
    top_level_definition(modules[i].module.declarations, name) is Some
}

/// The first loaded module that declares `name` at its top level, and the
/// span of that declaration.
pub open spec fn symbol_in_modules(modules: Seq<LoadedModuleModel>, name: Seq<char>) -> Option<
    (int, Span),
> {
    match first_where(modules.len() as int, |i: int| module_defines(modules, name, i)) {
        Some(i) => Some((i, top_level_definition(modules[i].module.declarations, name).unwrap())),
        None => None,
    }
}

/// Finds the first loaded module that declares `name` at its top level and
/// gives its position with the span of the declaration.
pub fn standard_symbol_definition(name: &String, modules: &Vec<LoadedModule>) -> (found: Option<
    (usize, Span),
>)
    ensures
        match (found, symbol_in_modules(loaded_models(modules@), name@)) {
            (Some((i, s)), Some((j, t))) => i as int == j && s == t,
            (None, None) => true,
            _ => false,
        },
{
    let ghost mods = loaded_models(modules@);
    let ghost pred = |i: int| module_defines(mods, name@, i);
    let mut i: usize = 0;
    while i < modules.len()
        invariant
            i <= modules.len(),
            mods == loaded_models(modules@),
            mods.len() == modules@.len(),
            pred == (|i: int| module_defines(mods, name@, i)),
            forall|j: int| 0 <= j < i ==> !#[trigger] module_defines(mods, name@, j),
        decreases modules.len() - i,
    {
        assert(mods[i as int] == modules@[i as int]@);
        if let Some(span) = find_top_level_definition(&modules[i].module, name) {
            proof {
                assert(pred(i as int));
                assert(is_first_where(mods.len() as int, pred, i as int));
                lemma_first_where_found(mods.len() as int, pred, i as int);
            }
            return Some((i, span));
        }
        i = i + 1;
    }
    proof {
        assert forall|j: int| 0 <= j < mods.len() implies !#[trigger] pred(j) by {}
        lemma_first_where_none(mods.len() as int, pred);
    }
    None
}

/// The import is a module import that touches the cursor and whose first
/// segment is `std`.
pub open spec fn is_std_import_at(import: ImportModel, offset: int) -> bool {
    match import {
        ImportModel::Module { segments, span } => covers_cursor(span, offset) && segments.len() > 0
            && segments[0] == std_name(),
        ImportModel::Other => false,
    }
}

/// The segments of the first import among `imports` that is a `std`
/// import under the cursor.
pub open spec fn import_in(imports: Seq<ImportModel>, offset: int) -> Option<Seq<Seq<char>>>
    decreases imports.len(),
{
    if imports.len() == 0 {
        None
    } else if is_std_import_at(imports[0], offset) {
        match imports[0] {
            ImportModel::Module { segments, .. } => Some(segments),
            ImportModel::Other => None,
        }
    } else {
        import_in(imports.drop_first(), offset)
    }
}

/// The segments of the first `std` import under the cursor, in the `use`
/// declarations of `declarations` taken in order.
pub open spec fn import_at(declarations: Seq<DeclarationModel>, offset: int) -> Option<
    Seq<Seq<char>>,
>
    decreases declarations.len(),
{
    if declarations.len() == 0 {
        None
    } else {
        match declarations[0] {
            DeclarationModel::Use(imports) => match import_in(imports, offset) {
                Some(segments) => Some(segments),
                None => import_at(declarations.drop_first(), offset),
            },
            _ => import_at(declarations.drop_first(), offset),
        }
    }
}

/// Finds the first `std` import under the cursor (see `import_at`) and
/// gives a copy of its segments.
pub fn std_import_at(application: &Module, byte_offset: usize) -> (found: Option<Vec<String>>)
    ensures
        match (found, import_at(application@.declarations, byte_offset as int)) {
            (Some(s), Some(t)) => s.deep_view() == t,
            (None, None) => true,
            _ => false,
        },
{
    let ghost decls = application@.declarations;
    let ghost offset = byte_offset as int;
    assert(decls.skip(0) =~= decls);
    let mut i: usize = 0;
    while i < application.declarations.len()
        invariant
            i <= application.declarations.len(),
            decls == application@.declarations,
            decls.len() == application.declarations@.len(),
            offset == byte_offset as int,
            import_at(decls, offset) == import_at(decls.skip(i as int), offset),
        decreases application.declarations.len() - i,
    {
        assert(decls.skip(i as int).drop_first() =~= decls.skip(i + 1));
        assert(decls.skip(i as int)[0] == application.declarations@[i as int]@);
        if let Declaration::Use(use_declaration) = &application.declarations[i] {
            let ghost imps = use_declaration.imports@.map_values(|u: UseImport| u@);
            assert(imps.skip(0) =~= imps);
            assert(decls.skip(i as int)[0] == DeclarationModel::Use(imps));
            let mut j: usize = 0;
            while j < use_declaration.imports.len()
                invariant
                    j <= use_declaration.imports.len(),
                    imps == use_declaration.imports@.map_values(|u: UseImport| u@),
                    imps.len() == use_declaration.imports@.len(),
                    offset == byte_offset as int,
                    import_in(imps, offset) == import_in(imps.skip(j as int), offset),
                    decls == application@.declarations,
                    i < decls.len(),
                    decls.skip(i as int)[0] == DeclarationModel::Use(imps),
                    import_at(decls, offset) == import_at(decls.skip(i as int), offset),
                decreases use_declaration.imports.len() - j,
            {
                assert(imps.skip(j as int).drop_first() =~= imps.skip(j + 1));
                assert(imps.skip(j as int)[0] == use_declaration.imports@[j as int]@);
                if let UseImport::Module(path) = &use_declaration.imports[j] {
                    if span_contains_cursor(path.span, byte_offset) && path.segments.len() > 0
                        && is_std(&path.segments[0]) {
                        let copy = crate::ast::copy_strings(&path.segments);
                        assert(is_std_import_at(imps.skip(j as int)[0], offset));
                        assert(import_in(imps.skip(j as int), offset) == Some(
                            path.segments.deep_view(),
                        ));
                        assert(import_at(decls.skip(i as int), offset) == Some(
                            path.segments.deep_view(),
                        ));
                        return Some(copy);
                    }
                }
                j = j + 1;
            }
            assert(imps.skip(j as int) =~= Seq::<ImportModel>::empty());
        }
        i = i + 1;
    }
    assert(decls.skip(i as int) =~= Seq::<DeclarationModel>::empty());
    None
}

/// The canonical form found for module `i`, if any.
pub open spec fn canonical_at(canonical: Seq<Option<Seq<u8>>>, i: int) -> Option<Seq<u8>> {
    if 0 <= i < canonical.len() {
        canonical[i]
    } else {
        None
    }
}

/// Loaded module `i` is the module that the import `segments` names: the
/// prelude for a bare `std`, else a module at one of the two candidate
/// files (compared after canonicalization, whose outcomes are given).
pub open spec fn module_matches_import(
    root: Seq<char>,
    modules: Seq<LoadedModuleModel>,
    segments: Seq<Seq<char>>,
    module_canonical: Seq<Option<Seq<u8>>>,
    file_canonical: Option<Seq<u8>>,
    directory_canonical: Option<Seq<u8>>,
    i: int,
) -> bool {
    if segments.len() == 1 {
        same_path(modules[i].path, spec_prelude_path(root))
    } else {
        ||| paths_equal_after(
            modules[i].path,
            file_candidate(root, segments),
            canonical_at(module_canonical, i),
            file_canonical,
        )
        ||| paths_equal_after(
            modules[i].path,
            directory_candidate(root, segments),
            canonical_at(module_canonical, i),
            directory_canonical,
        )
    }
}

/// The first loaded module that the import `segments` names.
pub open spec fn imported_module(
    root: Seq<char>,
    modules: Seq<LoadedModuleModel>,
    segments: Seq<Seq<char>>,
    module_canonical: Seq<Option<Seq<u8>>>,
    file_canonical: Option<Seq<u8>>,
    directory_canonical: Option<Seq<u8>>,
) -> Option<int> {
    if segments.len() == 0 {
        None
    } else {
        first_where(
            modules.len() as int,
            |i: int|
                module_matches_import(
                    root,
                    modules,
                    segments,
                    module_canonical,
                    file_canonical,
                    directory_canonical,
                    i,
                ),
        )
    }
}

/// A position as a mathematical integer.
pub open spec fn index_view(index: Option<usize>) -> Option<int> {
    match index {
        Some(i) => Some(i as int),
        None => None,
    }
}

/// The views of a list of optional strings.
pub open spec fn canonical_views(canonical: Seq<Option<Vec<u8>>>) -> Seq<Option<Seq<u8>>> {
    canonical.map_values(|c: Option<Vec<u8>>| bytes_view(c))
}

/// Finds the loaded module that an import names, given what
/// canonicalization gave for each module path and for the two candidate
/// files.
pub fn find_imported_module_given(
    root: &str,
    modules: &Vec<LoadedModule>,
    segments: &Vec<String>,
    module_canonical: &Vec<Option<Vec<u8>>>,
    file_canonical: &Option<Vec<u8>>,
    directory_canonical: &Option<Vec<u8>>,
) -> (found: Option<usize>)
    ensures
        index_view(found) == imported_module(
            root@,
            loaded_models(modules@),
            segments.deep_view(),
            canonical_views(module_canonical@),
            bytes_view(*file_canonical),
            bytes_view(*directory_canonical),
        ),
{
    let ghost mods = loaded_models(modules@);
    let ghost segs = segments.deep_view();
    let ghost mc = canonical_views(module_canonical@);
    let ghost fc = bytes_view(*file_canonical);
    let ghost dc = bytes_view(*directory_canonical);
    let ghost pred = |i: int| module_matches_import(root@, mods, segs, mc, fc, dc, i);
    if segments.len() == 0 {
        return None;
    }
    let none: Option<Vec<u8>> = None;
    let mut candidates: (String, String) = (String::new(), String::new());
    let prelude = join(root, "prelude.kome");
    if segments.len() > 1 {
        candidates = module_file_candidates(root, segments);
    }
    let mut i: usize = 0;
    while i < modules.len()
        invariant
            i <= modules.len(),
            mods == loaded_models(modules@),
            mods.len() == modules@.len(),
            segs == segments.deep_view(),
            segs.len() >= 1,
            mc == canonical_views(module_canonical@),
            mc.len() == module_canonical@.len(),
            fc == bytes_view(*file_canonical),
            dc == bytes_view(*directory_canonical),
            none is None,
            prelude@ == spec_prelude_path(root@),
            segs.len() > 1 ==> candidates.0@ == file_candidate(root@, segs),
            segs.len() > 1 ==> candidates.1@ == directory_candidate(root@, segs),
            pred == (|i: int| module_matches_import(root@, mods, segs, mc, fc, dc, i)),
            forall|j: int| 0 <= j < i ==> !#[trigger] pred(j),
        decreases modules.len() - i,
    {
        assert(mods[i as int] == modules@[i as int]@);
        let path = modules[i].path.as_str();
        let matched = if segments.len() == 1 {
            path_eq(path, prelude.as_str())
        } else {
            let canonical = if i < module_canonical.len() {
                &module_canonical[i]
            } else {
                &none
            };
            assert(bytes_view(*canonical) == canonical_at(mc, i as int));
            paths_equal_given(path, candidates.0.as_str(), canonical, file_canonical)
                || paths_equal_given(path, candidates.1.as_str(), canonical, directory_canonical)
        };
        assert(matched == pred(i as int));
        if matched {
            proof {
                assert(is_first_where(mods.len() as int, pred, i as int));
                lemma_first_where_found(mods.len() as int, pred, i as int);
            }
            return Some(i);
        }
        i = i + 1;
    }
    proof {
        assert forall|j: int| 0 <= j < mods.len() implies !#[trigger] pred(j) by {}
        lemma_first_where_none(mods.len() as int, pred);
    }
    None
}

/// Finds the loaded module that an import names.  Paths are compared after
/// canonicalization, which reads the disk: the result is what
/// `imported_module` gives for some outcome of those reads.
pub fn find_imported_module(root: &str, modules: &Vec<LoadedModule>, segments: &Vec<String>) -> (found:
    Option<usize>)
    ensures
        exists|mc: Seq<Option<Seq<u8>>>, fc: Option<Seq<u8>>, dc: Option<Seq<u8>>|
            index_view(found) == #[trigger] imported_module(
                root@,
                loaded_models(modules@),
                segments.deep_view(),
                mc,
                fc,
                dc,
            ),
        exists|mc: Seq<Option<Vec<u8>>>, fc: Option<Vec<u8>>, dc: Option<Vec<u8>>|
            #[trigger] import_found_by_disk(
                root@,
                loaded_models(modules@),
                segments.deep_view(),
                mc,
                fc,
                dc,
                index_view(found),
            ),
{
    let ghost mods = loaded_models(modules@);
    let mut module_canonical: Vec<Option<Vec<u8>>> = Vec::new();
    let mut file_canonical: Option<Vec<u8>> = None;
    let mut directory_canonical: Option<Vec<u8>> = None;
    if segments.len() > 1 {
        let (file, directory) = module_file_candidates(root, segments);
        let mut i: usize = 0;
        while i < modules.len()
            invariant
                i <= modules.len(),
                mods == loaded_models(modules@),
                module_canonical@.len() == i,
                forall|j: int|
                    0 <= j < i ==> observed_canonical(
                        mods[j].path,
                        #[trigger] module_canonical@[j],
                    ),
            decreases modules.len() - i,
        {
            assert(mods[i as int].path == modules@[i as int].path@);
            module_canonical.push(canonical_form(modules[i].path.as_str()));
            i = i + 1;
        }
        file_canonical = canonical_form(file.as_str());
        directory_canonical = canonical_form(directory.as_str());
    }
    let found = find_imported_module_given(
        root,
        modules,
        segments,
        &module_canonical,
        &file_canonical,
        &directory_canonical,
    );
    assert(index_view(found) == imported_module(
        root@,
        loaded_models(modules@),
        segments.deep_view(),
        canonical_views(module_canonical@),
        bytes_view(file_canonical),
        bytes_view(directory_canonical),
    ));
    assert(import_found_by_disk(
        root@,
        mods,
        segments.deep_view(),
        module_canonical@,
        file_canonical,
        directory_canonical,
        index_view(found),
    ));
    found
}

/// `mc`, `fc` and `dc` are the answers `canonicalize` gave for each loaded
/// module's own path and for the two candidate files of the import (asked
/// only for an import that names a module below `std`).
pub open spec fn canonical_answers(
    root: Seq<char>,
    modules: Seq<LoadedModuleModel>,
    segments: Seq<Seq<char>>,
    module_canonical: Seq<Option<Vec<u8>>>,
    file_canonical: Option<Vec<u8>>,
    directory_canonical: Option<Vec<u8>>,
) -> bool {
    segments.len() > 1 ==> {
        &&& module_canonical.len() == modules.len()
        &&& forall|i: int|
            0 <= i < modules.len() ==> observed_canonical(
                modules[i].path,
                #[trigger] module_canonical[i],
            )
        &&& observed_canonical(file_candidate(root, segments), file_canonical)
        &&& observed_canonical(directory_candidate(root, segments), directory_canonical)
    }
}

/// `found` is the module that the import `segments` names, for the answers
/// `canonicalize` gave on the paths involved.
pub open spec fn import_found_by_disk(
    root: Seq<char>,
    modules: Seq<LoadedModuleModel>,
    segments: Seq<Seq<char>>,
    module_canonical: Seq<Option<Vec<u8>>>,
    file_canonical: Option<Vec<u8>>,
    directory_canonical: Option<Vec<u8>>,
    found: Option<int>,
) -> bool {
    &&& canonical_answers(
        root,
        modules,
        segments,
        module_canonical,
        file_canonical,
        directory_canonical,
    )
    &&& found == imported_module(
        root,
        modules,
        segments,
        canonical_views(module_canonical),
        bytes_view(file_canonical),
        bytes_view(directory_canonical),
    )
}

/// The module found for an import is the first loaded module whose own path
/// names the module's file: for a bare `std` the prelude's path, else the
/// same file as one of the two candidate files, comparing the canonical
/// forms `canonicalize` gave for that module's own path and for the
/// candidate (and the paths as written where one of them has none).  No
/// module before it does.
pub proof fn lemma_found_module_names_the_imported_file(
    root: Seq<char>,
    modules: Seq<LoadedModuleModel>,
    segments: Seq<Seq<char>>,
    module_canonical: Seq<Option<Vec<u8>>>,
    file_canonical: Option<Vec<u8>>,
    directory_canonical: Option<Vec<u8>>,
    found: Option<int>,
)
    requires
        import_found_by_disk(
            root,
            modules,
            segments,
            module_canonical,
            file_canonical,
            directory_canonical,
            found,
        ),
    ensures
        found matches Some(i) ==> 0 <= i < modules.len(),
        found matches Some(i) ==> (segments.len() == 1 ==> same_path(
            modules[i].path,
            spec_prelude_path(root),
        )),
        found matches Some(i) ==> (segments.len() > 1 ==> exists|own: Option<Vec<u8>>|
            #[trigger] observed_canonical(modules[i].path, own) && (paths_equal_after(
                modules[i].path,
                file_candidate(root, segments),
                bytes_view(own),
                bytes_view(file_canonical),
            ) || paths_equal_after(
                modules[i].path,
                directory_candidate(root, segments),
                bytes_view(own),
                bytes_view(directory_canonical),
            ))),
        segments.len() > 1 ==> observed_canonical(file_candidate(root, segments), file_canonical)
            && observed_canonical(directory_candidate(root, segments), directory_canonical),
        found matches Some(i) ==> forall|j: int|
            0 <= j < i ==> !module_matches_import(
                root,
                modules,
                segments,
                canonical_views(module_canonical),
                bytes_view(file_canonical),
                bytes_view(directory_canonical),
                j,
            ),
        segments.len() == 0 ==> found is None,
{
    let mc = canonical_views(module_canonical);
    let fc = bytes_view(file_canonical);
    let dc = bytes_view(directory_canonical);
    let pred = |i: int| module_matches_import(root, modules, segments, mc, fc, dc, i);
    if let Some(i) = found {
        assert(segments.len() > 0);
        let c = choose|c: int| is_first_where(modules.len() as int, pred, c);
        assert(is_first_where(modules.len() as int, pred, c));
        assert(c == i);
        assert forall|j: int| 0 <= j < i implies !module_matches_import(
            root,
            modules,
            segments,
            mc,
            fc,
            dc,
            j,
        ) by {
            assert(!pred(j));
        }
        if segments.len() > 1 {
            let own = module_canonical[i];
            assert(observed_canonical(modules[i].path, own));
            assert(mc[i] == bytes_view(own));
            assert(canonical_at(mc, i) == bytes_view(own));
        }
    }
}

/// Finds the standard library module named by the `std` import under the
/// cursor, if the cursor is on one.  Paths are compared after
/// canonicalization, which reads the disk: the result is what
/// `imported_module` gives for the import under the cursor and some
/// outcome of those reads.
pub fn import_definition_at(
    application: &Module,
    byte_offset: usize,
    standard_library: &StandardLibrary,
    modules: &Vec<LoadedModule>,
) -> (found: Option<usize>)
    ensures
        exists|mc: Seq<Option<Seq<u8>>>, fc: Option<Seq<u8>>, dc: Option<Seq<u8>>|
            index_view(found) == #[trigger] import_target(
                application@,
                byte_offset as int,
                standard_library.root_view(),
                loaded_models(modules@),
                mc,
                fc,
                dc,
            ),
        exists|mc: Seq<Option<Vec<u8>>>, fc: Option<Vec<u8>>, dc: Option<Vec<u8>>|
            #[trigger] import_found_at(
                application@,
                byte_offset as int,
                standard_library.root_view(),
                loaded_models(modules@),
                mc,
                fc,
                dc,
                index_view(found),
            ),
{
    match std_import_at(application, byte_offset) {
        Some(segments) => {
            let found = find_imported_module(standard_library.root(), modules, &segments);
            let ghost root = standard_library.root_view();
            let ghost mods = loaded_models(modules@);
            let ghost segs = segments.deep_view();
            assert(exists|mc: Seq<Option<Seq<u8>>>, fc: Option<Seq<u8>>, dc: Option<Seq<u8>>|
                index_view(found) == #[trigger] imported_module(root, mods, segs, mc, fc, dc));
            let ghost (mc, fc, dc) = choose|mc: Seq<Option<Seq<u8>>>, fc: Option<Seq<u8>>, dc: Option<Seq<u8>>|
                index_view(found) == #[trigger] imported_module(root, mods, segs, mc, fc, dc);
            let ghost (emc, efc, edc) = choose|mc: Seq<Option<Vec<u8>>>, fc: Option<Vec<u8>>, dc: Option<Vec<u8>>|
                #[trigger] import_found_by_disk(root, mods, segs, mc, fc, dc, index_view(found));
            assert(import_found_at(
                application@,
                byte_offset as int,
                root,
                mods,
                emc,
                efc,
                edc,
                index_view(found),
            ));
            assert(index_view(found) == import_target(
                application@,
                byte_offset as int,
                root,
                mods,
                mc,
                fc,
                dc,
            ));
            found
        },
        None => {
            assert(index_view(None) == import_target(
                application@,
                byte_offset as int,
                standard_library.root_view(),
                loaded_models(modules@),
                Seq::empty(),
                None,
                None,
            ));
            assert(import_found_at(
                application@,
                byte_offset as int,
                standard_library.root_view(),
                loaded_models(modules@),
                Seq::empty(),
                None,
                None,
                None,
            ));
            None
        },
    }
}

/// `found` is the module that the `std` import under the cursor names, for
/// the answers `canonicalize` gave on the paths involved; with no such
/// import, nothing is found.
pub open spec fn import_found_at(
    application: ModuleModel,
    offset: int,
    root: Seq<char>,
    modules: Seq<LoadedModuleModel>,
    module_canonical: Seq<Option<Vec<u8>>>,
    file_canonical: Option<Vec<u8>>,
    directory_canonical: Option<Vec<u8>>,
    found: Option<int>,
) -> bool {
    match import_at(application.declarations, offset) {
        Some(segments) => import_found_by_disk(
            root,
            modules,
            segments,
            module_canonical,
            file_canonical,
            directory_canonical,
            found,
        ),
        None => found is None,
    }
}

/// The loaded module that the `std` import under the cursor names.
pub open spec fn import_target(
    application: ModuleModel,
    offset: int,
    root: Seq<char>,
    modules: Seq<LoadedModuleModel>,
    module_canonical: Seq<Option<Seq<u8>>>,
    file_canonical: Option<Seq<u8>>,
    directory_canonical: Option<Seq<u8>>,
) -> Option<int> {
    match import_at(application.declarations, offset) {
        Some(segments) => imported_module(
            root,
            modules,
            segments,
            module_canonical,
            file_canonical,
            directory_canonical,
        ),
        None => None,
    }
}

/// Where `definition_at` carries on.
#[derive(Clone, Copy, Debug)]
pub enum DefinitionStage {
    /// Look for a declaration in the open document.
    Local,
    /// Look for a `std` import under the cursor, then for a standard
    /// library declaration of the name under the cursor.
    Import,
    /// Look for a standard library declaration of the name under the cursor.
    Symbol,
}

/// What `definition_at` asks of the language server.
#[derive(Clone, Copy, Debug)]
pub enum DefinitionAction {
    /// The definition is at this span of the open document.
    Document(Span),
    /// The definition is at this span of loaded module `index`.  Where no
    /// location can be made for that module, carry on at `fallback`, or
    /// give no definition where there is none.
    Module { index: usize, span: Span, fallback: Option<DefinitionStage> },
    /// Load the standard library and the modules the document needs, then
    /// carry on at `DefinitionStage::Import`; give no definition where that
    /// fails.
    LoadStandardLibrary,
    /// There is no definition to go to.
    NoDefinition,
}

/// The decision made in the open document: a reference under the cursor
/// that resolved locally gives its symbol's definition (or nothing, where
/// the symbol has none); anything else needs the standard library.
pub open spec fn local_action(references: Seq<Reference>, symbols: Seq<Symbol>, offset: int) -> DefinitionAction {
    match reference_at(references, offset) {
        Some(i) => match references[i].resolved_to {
            Some(id) => match symbol_definition(symbols, id as int) {
                Some(span) => DefinitionAction::Document(span),
                None => DefinitionAction::NoDefinition,
            },
            None => DefinitionAction::LoadStandardLibrary,
        },
        None => DefinitionAction::LoadStandardLibrary,
    }
}

/// The decision made in the standard library for the name under the
/// cursor: the first loaded module that declares it.
pub open spec fn symbol_action(
    references: Seq<Reference>,
    offset: int,
    modules: Seq<LoadedModuleModel>,
) -> DefinitionAction {
    match reference_at(references, offset) {
        Some(i) => match symbol_in_modules(modules, references[i].name@) {
            Some((m, span)) => DefinitionAction::Module { index: m as usize, span, fallback: None },
            None => DefinitionAction::NoDefinition,
        },
        None => DefinitionAction::NoDefinition,
    }
}

/// The decision made for a `std` import under the cursor: the start of the
/// module it names, and else the standard library declaration of the name
/// under the cursor.
pub open spec fn import_action(
    application: ModuleModel,
    references: Seq<Reference>,
    offset: int,
    root: Seq<char>,
    modules: Seq<LoadedModuleModel>,
    module_canonical: Seq<Option<Seq<u8>>>,
    file_canonical: Option<Seq<u8>>,
    directory_canonical: Option<Seq<u8>>,
) -> DefinitionAction {
    match import_target(
        application,
        offset,
        root,
        modules,
        module_canonical,
        file_canonical,
        directory_canonical,
    ) {
        Some(m) => DefinitionAction::Module {
            index: m as usize,
            span: Span { start: 0, end: 0 },
            fallback: Some(DefinitionStage::Symbol),
        },
        None => symbol_action(references, offset, modules),
    }
}

/// One decision of go to definition for the cursor at `byte_offset` of the
/// open document, whose parse is `application` and whose resolution is
/// `resolution`.  `standard` holds the standard library and the modules
/// loaded for the document once the server has loaded them.
pub fn definition_at(
    application: &Module,
    resolution: &Resolution,
    byte_offset: usize,
    standard: Option<(&StandardLibrary, &Vec<LoadedModule>)>,
    stage: DefinitionStage,
) -> (action: DefinitionAction)
    ensures
        match stage {
            DefinitionStage::Local => action == local_action(
                resolution.references@,
                resolution.symbols@,
                byte_offset as int,
            ),
            DefinitionStage::Symbol => match standard {
                Some((_, modules)) => action == symbol_action(
                    resolution.references@,
                    byte_offset as int,
                    loaded_models(modules@),
                ),
                None => action == DefinitionAction::LoadStandardLibrary,
            },
            DefinitionStage::Import => match standard {
                Some((library, modules)) => exists|
                    mc: Seq<Option<Seq<u8>>>,
                    fc: Option<Seq<u8>>,
                    dc: Option<Seq<u8>>,
                |
                    action == #[trigger] import_action(
                        application@,
                        resolution.references@,
                        byte_offset as int,
                        library.root_view(),
                        loaded_models(modules@),
                        mc,
                        fc,
                        dc,
                    ),
                None => action == DefinitionAction::LoadStandardLibrary,
            },
        },
        stage matches DefinitionStage::Import ==> (standard matches Some((library, modules))
            ==> exists|mc: Seq<Option<Vec<u8>>>, fc: Option<Vec<u8>>, dc: Option<Vec<u8>>|
            #[trigger] import_found_at(
                application@,
                byte_offset as int,
                library.root_view(),
                loaded_models(modules@),
                mc,
                fc,
                dc,
                import_target(
                    application@,
                    byte_offset as int,
                    library.root_view(),
                    loaded_models(modules@),
                    canonical_views(mc),
                    bytes_view(fc),
                    bytes_view(dc),
                ),
            ) && action == import_action(
                application@,
                resolution.references@,
                byte_offset as int,
                library.root_view(),
                loaded_models(modules@),
                canonical_views(mc),
                bytes_view(fc),
                bytes_view(dc),
            )),
{
    match stage {
        DefinitionStage::Local => local_definition(resolution, byte_offset),
        DefinitionStage::Symbol => match standard {
            Some((_, modules)) => symbol_definition_action(resolution, byte_offset, modules),
            None => DefinitionAction::LoadStandardLibrary,
        },
        DefinitionStage::Import => match standard {
            Some((library, modules)) => {
                let found = import_definition_at(application, byte_offset, library, modules);
                let ghost root = library.root_view();
                let ghost mods = loaded_models(modules@);
                let ghost (mc, fc, dc) = choose|
                    mc: Seq<Option<Seq<u8>>>,
                    fc: Option<Seq<u8>>,
                    dc: Option<Seq<u8>>,
                |
                    index_view(found) == #[trigger] import_target(
                        application@,
                        byte_offset as int,
                        root,
                        mods,
                        mc,
                        fc,
                        dc,
                    );
                let action = match found {
                    Some(index) => DefinitionAction::Module {
                        index,
                        span: Span::new(0, 0),
                        fallback: Some(DefinitionStage::Symbol),
                    },
                    None => symbol_definition_action(resolution, byte_offset, modules),
                };
                let ghost (emc, efc, edc) = choose|
                    mc: Seq<Option<Vec<u8>>>,
                    fc: Option<Vec<u8>>,
                    dc: Option<Vec<u8>>,
                |
                    #[trigger] import_found_at(
                        application@,
                        byte_offset as int,
                        root,
                        mods,
                        mc,
                        fc,
                        dc,
                        index_view(found),
                    );
                assert(index_view(found) == import_target(
                    application@,
                    byte_offset as int,
                    root,
                    mods,
                    canonical_views(emc),
                    bytes_view(efc),
                    bytes_view(edc),
                ));
                assert(action == import_action(
                    application@,
                    resolution.references@,
                    byte_offset as int,
                    root,
                    mods,
                    canonical_views(emc),
                    bytes_view(efc),
                    bytes_view(edc),
                ));
                assert(import_found_at(
                    application@,
                    byte_offset as int,
                    root,
                    mods,
                    emc,
                    efc,
                    edc,
                    import_target(
                        application@,
                        byte_offset as int,
                        root,
                        mods,
                        canonical_views(emc),
                        bytes_view(efc),
                        bytes_view(edc),
                    ),
                ));
                assert(action == import_action(
                    application@,
                    resolution.references@,
                    byte_offset as int,
                    root,
                    mods,
                    mc,
                    fc,
                    dc,
                ));
                action
            },
            None => DefinitionAction::LoadStandardLibrary,
        },
    }
}

/// The decision made in the open document (see `local_action`).
fn local_definition(resolution: &Resolution, byte_offset: usize) -> (action: DefinitionAction)
    ensures
        action == local_action(resolution.references@, resolution.symbols@, byte_offset as int),
{
    match reference_at_offset(&resolution.references, byte_offset) {
        Some(i) => match resolution.references[i].resolved_to {
            Some(id) => match definition_of(&resolution.symbols, id) {
                Some(span) => DefinitionAction::Document(span),
                None => DefinitionAction::NoDefinition,
            },
            None => DefinitionAction::LoadStandardLibrary,
        },
        None => DefinitionAction::LoadStandardLibrary,
    }
}

/// The decision made in the standard library (see `symbol_action`).
fn symbol_definition_action(
    resolution: &Resolution,
    byte_offset: usize,
    modules: &Vec<LoadedModule>,
) -> (action: DefinitionAction)
    ensures
        action == symbol_action(resolution.references@, byte_offset as int, loaded_models(modules@)),
{
    match reference_at_offset(&resolution.references, byte_offset) {
        Some(i) => match standard_symbol_definition(&resolution.references[i].name, modules) {
            Some((index, span)) => DefinitionAction::Module { index, span, fallback: None },
            None => DefinitionAction::NoDefinition,
        },
        None => DefinitionAction::NoDefinition,
    }
}

/// A cursor just after the last byte of a non-empty span still touches
/// it, so that the name just typed is the one looked up.
pub proof fn lemma_cursor_after_span_touches(span: Span)
    requires
        span.start < span.end,
    ensures
        covers_cursor(span, span.end as int),
{
}

/// The reference under the cursor touches it, and no reference that
/// touches the cursor is shorter.
pub proof fn lemma_reference_at_is_innermost(references: Seq<Reference>, offset: int)
    ensures
        reference_at(references, offset) matches Some(i) ==> {
            &&& 0 <= i < references.len()
            &&& covers_cursor(references[i].span, offset)
            &&& forall|j: int|
                0 <= j < references.len() && covers_cursor(#[trigger] references[j].span, offset)
                    ==> span_width(references[i].span) <= span_width(references[j].span)
        },
        reference_at(references, offset) is None ==> forall|j: int|
            0 <= j < references.len() ==> !covers_cursor(#[trigger] references[j].span, offset),
{
    let pred = |i: int| is_innermost(references, offset, i);
    if reference_at(references, offset) is None {
        assert forall|j: int|
            0 <= j < references.len() implies !covers_cursor(
            #[trigger] references[j].span,
            offset,
        ) by {
            if covers_cursor(references[j].span, offset) {
                lemma_some_reference_is_innermost(references, offset, j);
            }
        }
    }
}

/// Where some reference touches the cursor, one of the shortest such
/// references is the first position that `reference_at` can pick.
proof fn lemma_some_reference_is_innermost(references: Seq<Reference>, offset: int, j: int)
    requires
        0 <= j < references.len(),
        covers_cursor(references[j].span, offset),
    ensures
        reference_at(references, offset) is Some,
    decreases span_width(references[j].span),
{
    let pred = |i: int| is_innermost(references, offset, i);
    if pred(j) {
        lemma_first_exists(references.len() as int, pred, j);
    } else {
        let k = choose|k: int|
            0 <= k < references.len() && covers_cursor(#[trigger] references[k].span, offset)
                && !(span_width(references[j].span) <= span_width(references[k].span));
        lemma_some_reference_is_innermost(references, offset, k);
    }
}

/// Go to definition ends: a local decision never names a standard library
/// module, the import decision only falls back to the symbol decision, and
/// the symbol decision neither asks for the standard library again nor
/// falls back.  So the server asks for the standard library at most once
/// and makes at most two module locations.
pub proof fn lemma_definition_steps_end(
    application: ModuleModel,
    references: Seq<Reference>,
    symbols: Seq<Symbol>,
    offset: int,
    root: Seq<char>,
    modules: Seq<LoadedModuleModel>,
    module_canonical: Seq<Option<Seq<u8>>>,
    file_canonical: Option<Seq<u8>>,
    directory_canonical: Option<Seq<u8>>,
)
    ensures
        !(local_action(references, symbols, offset) is Module),
        match import_action(
            application,
            references,
            offset,
            root,
            modules,
            module_canonical,
            file_canonical,
            directory_canonical,
        ) {
            DefinitionAction::Module { fallback, .. } => fallback == Some(DefinitionStage::Symbol)
                || fallback is None,
            DefinitionAction::LoadStandardLibrary => false,
            _ => true,
        },
        match symbol_action(references, offset, modules) {
            DefinitionAction::Module { fallback, .. } => fallback is None,
            DefinitionAction::LoadStandardLibrary => false,
            _ => true,
        },
{
}

/// A name under the cursor that resolves in the open document is answered
/// without the standard library.
pub proof fn lemma_local_definition_needs_no_standard_library(
    references: Seq<Reference>,
    symbols: Seq<Symbol>,
    offset: int,
)
    requires
        reference_at(references, offset) matches Some(i) && references[i].resolved_to is Some,
    ensures
        !(local_action(references, symbols, offset) is LoadStandardLibrary),
{
}

} // verus!
