//! Go to definition by resolving the open document together with the
//! standard library modules it needs.
//!
//! The document is resolved alone first, so that the reference under the
//! cursor is taken from the document and not from a standard library file
//! whose byte spans overlap it.  A name that does not resolve there is
//! looked up in a resolution of all sources together, in which the document
//! is source `0` and loaded module `i` is source `i + 1`.
use vstd::prelude::*;

use crate::ast::Span;
use crate::lsp::definition::{covers_cursor, reference_at};
use crate::search::{first_where, is_first_where, lemma_first_where_found, lemma_first_where_none};
use crate::semantics::{definition_of, symbol_definition, Reference, Resolution, Symbol};

verus! {

/// The source id of the open document in a resolution of several sources.
pub const DOCUMENT_SOURCE: usize = 0;

/// The cursor at `offset` is inside `span`.
pub open spec fn inside(span: Span, offset: int) -> bool {
    span.start <= offset < span.end
}

/// Whether the cursor at `byte_offset` is inside the span of `reference`.
pub fn span_contains_offset(reference: &Reference, byte_offset: usize) -> (inside_span: bool)
    ensures
        inside_span == inside(reference.span, byte_offset as int),
{
    reference.span.start <= byte_offset && byte_offset < reference.span.end
}

/// The cursor touches a reference exactly when it is inside its span or
/// the byte before the cursor is.
pub proof fn lemma_touching_is_inside_here_or_before(span: Span, offset: int)
    ensures
        covers_cursor(span, offset) == (inside(span, offset) || (offset >= 1 && inside(
            span,
            offset - 1,
        ))),
{
}

/// Finds the reference under the cursor: the shortest reference whose span
/// holds the cursor or the byte before it (see
/// `lemma_touching_is_inside_here_or_before`), the first of those where
/// several are equally short.
pub fn reference_at_offset(references: &Vec<Reference>, byte_offset: usize) -> (found: Option<
    usize,
>)
    ensures
        match (found, reference_at(references@, byte_offset as int)) {
            (Some(i), Some(j)) => i as int == j,
            (None, None) => true,
            _ => false,
        },
{
    crate::lsp::definition::reference_at_offset(references, byte_offset)
}

/// What `definition_at` asks of the language server.
#[derive(Clone, Copy, Debug)]
pub enum SourceDefinitionAction {
    /// The definition is at this span of the open document.
    Document(Span),
    /// The definition is at this span of loaded module `index`; where no
    /// location can be made for that module, there is no definition.
    Module { index: usize, span: Span },
    /// Load the standard library and the modules the document needs,
    /// resolve them together with the document (the document as source
    /// `0`, loaded module `i` as source `i + 1`), and ask again; give no
    /// definition where loading fails.
    ResolveWithStandardLibrary,
    /// There is no definition to go to.
    NoDefinition,
}

/// Reference `candidate` is written at the same place, with the same name,
/// as `target`.
pub open spec fn same_reference(candidate: Reference, target: Reference) -> bool {
    candidate.span == target.span && candidate.name@ == target.name@
}

/// Reference `i` of the combined resolution is the target, found in the
/// document's own source.
pub open spec fn is_document_match(references: Seq<Reference>, target: Reference, i: int) -> bool {
    references[i].source == Some(DOCUMENT_SOURCE) && same_reference(references[i], target)
}

/// The reference of the combined resolution that corresponds to `target`:
/// the first one in the document's source at the same place with the same
/// name, else the first one at the same place with the same name.
pub open spec fn matching_reference(references: Seq<Reference>, target: Reference) -> Option<int> {
    match first_where(references.len() as int, |i: int| is_document_match(references, target, i)) {
        Some(i) => Some(i),
        None => first_where(
            references.len() as int,
            |i: int| same_reference(references[i], target),
        ),
    }
}

/// The source that declared symbol `id`, where it is known.
pub open spec fn symbol_source(sources: Seq<Option<usize>>, id: int) -> Option<usize> {
    if 0 <= id < sources.len() {
        sources[id]
    } else {
        None
    }
}

/// The decision made from the resolution of the document alone.
pub open spec fn document_action(references: Seq<Reference>, symbols: Seq<Symbol>, offset: int) -> SourceDefinitionAction {
    match reference_at(references, offset) {
        Some(i) => match references[i].resolved_to {
            Some(id) => match symbol_definition(symbols, id as int) {
                Some(span) => SourceDefinitionAction::Document(span),
                None => SourceDefinitionAction::NoDefinition,
            },
            None => SourceDefinitionAction::ResolveWithStandardLibrary,
        },
        None => SourceDefinitionAction::NoDefinition,
    }
}

/// The decision made from the combined resolution for the reference
/// `target` of the document, with `module_count` modules loaded.
pub open spec fn combined_action(
    target: Reference,
    references: Seq<Reference>,
    symbols: Seq<Symbol>,
    sources: Seq<Option<usize>>,
    module_count: int,
) -> SourceDefinitionAction {
    match matching_reference(references, target) {
        None => SourceDefinitionAction::NoDefinition,
        Some(r) => match references[r].resolved_to {
            None => SourceDefinitionAction::NoDefinition,
            Some(id) => match symbol_definition(symbols, id as int) {
                None => SourceDefinitionAction::NoDefinition,
                Some(span) => match symbol_source(sources, id as int) {
                    None => SourceDefinitionAction::NoDefinition,
                    Some(source) => if source == DOCUMENT_SOURCE {
                        SourceDefinitionAction::Document(span)
                    } else if source - 1 < module_count {
                        SourceDefinitionAction::Module { index: (source - 1) as usize, span }
                    } else {
                        SourceDefinitionAction::NoDefinition
                    },
                },
            },
        },
    }
}

/// Finds the reference of the combined resolution that corresponds to
/// `target` (see `matching_reference`).
pub fn find_matching_reference(references: &Vec<Reference>, target: &Reference) -> (found: Option<
    usize,
>)
    ensures
        match (found, matching_reference(references@, *target)) {
            (Some(i), Some(j)) => i as int == j,
            (None, None) => true,
            _ => false,
        },
{
    let ghost refs = references@;
    let ghost in_document = |i: int| is_document_match(refs, *target, i);
    let ghost anywhere = |i: int| same_reference(refs[i], *target);
    let mut i: usize = 0;
    while i < references.len()
        invariant
            i <= references.len(),
            refs == references@,
            in_document == (|i: int| is_document_match(refs, *target, i)),
            forall|j: int| 0 <= j < i ==> !#[trigger] in_document(j),
        decreases references.len() - i,
    {
        let candidate = &references[i];
        let matches = candidate.source == Some(DOCUMENT_SOURCE) && candidate.span == target.span
            && candidate.name == target.name;
        assert(matches == in_document(i as int));
        if matches {
            proof {
                assert(is_first_where(refs.len() as int, in_document, i as int));
                lemma_first_where_found(refs.len() as int, in_document, i as int);
            }
            return Some(i);
        }
        i = i + 1;
    }
    proof {
        assert forall|j: int| 0 <= j < refs.len() implies !#[trigger] in_document(j) by {}
        lemma_first_where_none(refs.len() as int, in_document);
        assert(matching_reference(refs, *target) == first_where(refs.len() as int, anywhere));
    }
    let mut k: usize = 0;
    while k < references.len()
        invariant
            k <= references.len(),
            refs == references@,
            anywhere == (|i: int| same_reference(refs[i], *target)),
            matching_reference(refs, *target) == first_where(refs.len() as int, anywhere),
            forall|j: int| 0 <= j < k ==> !#[trigger] anywhere(j),
        decreases references.len() - k,
    {
        let candidate = &references[k];
        let matches = candidate.span == target.span && candidate.name == target.name;
        assert(matches == anywhere(k as int));
        if matches {
            proof {
                assert(is_first_where(refs.len() as int, anywhere, k as int));
                lemma_first_where_found(refs.len() as int, anywhere, k as int);
            }
            return Some(k);
        }
        k = k + 1;
    }
    proof {
        assert forall|j: int| 0 <= j < refs.len() implies !#[trigger] anywhere(j) by {}
        lemma_first_where_none(refs.len() as int, anywhere);
    }
    None
}

/// One decision of go to definition for the cursor at `byte_offset` of the
/// open document, whose own resolution is `document`.  `combined` holds the
/// resolution of all sources together and the number of modules loaded,
/// once the server has made them.
pub fn definition_at(
    document: &Resolution,
    byte_offset: usize,
    combined: Option<(&Resolution, usize)>,
) -> (action: SourceDefinitionAction)
    ensures
        match document_action(document.references@, document.symbols@, byte_offset as int) {
            SourceDefinitionAction::ResolveWithStandardLibrary => match combined {
                None => action == SourceDefinitionAction::ResolveWithStandardLibrary,
                Some((resolution, module_count)) => action == combined_action(
                    document.references@[reference_at(
                        document.references@,
                        byte_offset as int,
                    ).unwrap()],
                    resolution.references@,
                    resolution.symbols@,
                    resolution.symbol_sources@,
                    module_count as int,
                ),
            },
            other => action == other,
        },
{
    let target_index = match reference_at_offset(&document.references, byte_offset) {
        Some(i) => i,
        None => return SourceDefinitionAction::NoDefinition,
    };
    let target = &document.references[target_index];
    if let Some(id) = target.resolved_to {
        return match definition_of(&document.symbols, id) {
            Some(span) => SourceDefinitionAction::Document(span),
            None => SourceDefinitionAction::NoDefinition,
        };
    }
    let (resolution, module_count) = match combined {
        Some(c) => c,
        None => return SourceDefinitionAction::ResolveWithStandardLibrary,
    };
    let r = match find_matching_reference(&resolution.references, target) {
        Some(r) => r,
        None => return SourceDefinitionAction::NoDefinition,
    };
    let id = match resolution.references[r].resolved_to {
        Some(id) => id,
        None => return SourceDefinitionAction::NoDefinition,
    };
    let span = match definition_of(&resolution.symbols, id) {
        Some(span) => span,
        None => return SourceDefinitionAction::NoDefinition,
    };
    let source = if id < resolution.symbol_sources.len() {
        resolution.symbol_sources[id]
    } else {
        None
    };
    match source {
        None => SourceDefinitionAction::NoDefinition,
        Some(source) => if source == DOCUMENT_SOURCE {
            SourceDefinitionAction::Document(span)
        } else if source - 1 < module_count {
            SourceDefinitionAction::Module { index: source - 1, span }
        } else {
            SourceDefinitionAction::NoDefinition
        },
    }
}

/// A name under the cursor that resolves in the open document is answered
/// without resolving the standard library.
pub proof fn lemma_local_symbol_needs_no_standard_library(
    references: Seq<Reference>,
    symbols: Seq<Symbol>,
    offset: int,
)
    requires
        reference_at(references, offset) matches Some(i) && references[i].resolved_to is Some,
    ensures
        !(document_action(references, symbols, offset) is ResolveWithStandardLibrary),
{
}

/// A definition found in the combined resolution is in the document or in
/// one of the loaded modules.
pub proof fn lemma_combined_module_is_loaded(
    target: Reference,
    references: Seq<Reference>,
    symbols: Seq<Symbol>,
    sources: Seq<Option<usize>>,
    module_count: int,
)
    ensures
        combined_action(target, references, symbols, sources, module_count) matches SourceDefinitionAction::Module { index, .. }
            ==> 0 <= index < module_count,
        !(combined_action(
            target,
            references,
            symbols,
            sources,
            module_count,
        ) is ResolveWithStandardLibrary),
{
}

} // verus!
