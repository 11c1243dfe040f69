//! The parts of a parsed Kome module that the toolchain logic reads.
//!
//! The parser produces much richer trees; the language server and the
//! standard library loader only look at `use` declarations, at the names
//! and spans of top-level items, and at the module span.  Everything else
//! is carried along as `Other`.
use vstd::prelude::*;

verus! {

/// A half-open byte range `start..end` in a source text.
#[derive(Clone, Copy, PartialEq, Eq, Structural, Debug)]
pub struct Span {
    pub start: usize,
    pub end: usize,
}

impl Span {
    pub fn new(start: usize, end: usize) -> (span: Span)
        ensures
            span.start == start,
            span.end == end,
    {
        Span { start, end }
    }
}

/// A dotted module path written in a `use` declaration, such as `std.io`.
#[derive(Debug)]
pub struct ImportPath {
    pub segments: Vec<String>,
    pub span: Span,
}

/// One import of a `use` declaration.
#[derive(Debug)]
pub enum UseImport {
    /// `use a.b.c` imports the module at that path.
    Module(ImportPath),
    /// Any other kind of import.
    Other,
}

/// A `use` declaration with its imports in source order.
#[derive(Debug)]
pub struct UseDeclaration {
    pub imports: Vec<UseImport>,
}

/// A named top-level item with the span of its whole declaration.
#[derive(Debug)]
pub struct NamedItem {
    pub name: String,
    pub span: Span,
}

/// A top-level declaration of a module.
#[derive(Debug)]
pub enum Declaration {
    Use(UseDeclaration),
    Function(NamedItem),
    Component(NamedItem),
    Enum(NamedItem),
    /// A declaration that none of the toolchain logic inspects.
    Other(Span),
}

/// A parsed module: its top-level declarations in source order and its span.
#[derive(Debug)]
pub struct Module {
    pub declarations: Vec<Declaration>,
    pub span: Span,
}

/// Mathematical model of an import.
pub enum ImportModel {
    Module { segments: Seq<Seq<char>>, span: Span },
    Other,
}

/// Mathematical model of a declaration.
pub enum DeclarationModel {
    Use(Seq<ImportModel>),
    Function(Seq<char>, Span),
    Component(Seq<char>, Span),
    Enum(Seq<char>, Span),
    Other(Span),
}

/// Mathematical model of a module.
pub struct ModuleModel {
    pub declarations: Seq<DeclarationModel>,
    pub span: Span,
}

impl View for UseImport {
    type V = ImportModel;

    open spec fn view(&self) -> ImportModel {
        match self {
            UseImport::Module(path) => ImportModel::Module {
                segments: path.segments.deep_view(),
                span: path.span,
            },
            UseImport::Other => ImportModel::Other,
        }
    }
}

impl View for Declaration {
    type V = DeclarationModel;

    open spec fn view(&self) -> DeclarationModel {
        match self {
            Declaration::Use(u) => DeclarationModel::Use(u.imports@.map_values(|i: UseImport| i@)),
            Declaration::Function(f) => DeclarationModel::Function(f.name@, f.span),
            Declaration::Component(c) => DeclarationModel::Component(c.name@, c.span),
            Declaration::Enum(e) => DeclarationModel::Enum(e.name@, e.span),
            Declaration::Other(span) => DeclarationModel::Other(*span),
        }
    }
}

/// The models of a sequence of declarations.
pub open spec fn declarations_model(declarations: Seq<Declaration>) -> Seq<DeclarationModel> {
    declarations.map_values(|d: Declaration| d@)
}

impl View for Module {
    type V = ModuleModel;

    open spec fn view(&self) -> ModuleModel {
        ModuleModel { declarations: declarations_model(self.declarations@), span: self.span }
    }
}

/// Copies a list of strings, keeping each one.
pub fn copy_strings(strings: &Vec<String>) -> (copy: Vec<String>)
    ensures
        copy.deep_view() == strings.deep_view(),
{
    let mut copy: Vec<String> = Vec::new();
    let mut i: usize = 0;
    while i < strings.len()
        invariant
            i <= strings.len(),
            copy@.len() == i,
            forall|j: int| 0 <= j < i ==> copy@[j]@ == strings@[j]@,
        decreases strings.len() - i,
    {
        copy.push(strings[i].clone());
        i = i + 1;
    }
    assert(copy.deep_view() =~= strings.deep_view());
    copy
}

impl UseImport {
    pub fn duplicate(&self) -> (copy: UseImport)
        ensures
            copy@ == self@,
    {
        match self {
            UseImport::Module(path) => UseImport::Module(
                ImportPath { segments: copy_strings(&path.segments), span: path.span },
            ),
            UseImport::Other => UseImport::Other,
        }
    }
}

impl Declaration {
    pub fn duplicate(&self) -> (copy: Declaration)
        ensures
            copy@ == self@,
    {
        match self {
            Declaration::Use(u) => {
                let mut imports: Vec<UseImport> = Vec::new();
                let mut i: usize = 0;
                while i < u.imports.len()
                    invariant
                        i <= u.imports.len(),
                        imports@.len() == i,
                        forall|j: int| 0 <= j < i ==> imports@[j]@ == u.imports@[j]@,
                    decreases u.imports.len() - i,
                {
                    imports.push(u.imports[i].duplicate());
                    i = i + 1;
                }
                let copy = Declaration::Use(UseDeclaration { imports });
                assert(imports@.map_values(|i: UseImport| i@) =~= u.imports@.map_values(
                    |i: UseImport| i@,
                ));
                copy
            },
            Declaration::Function(f) => Declaration::Function(
                NamedItem { name: f.name.clone(), span: f.span },
            ),
            Declaration::Component(c) => Declaration::Component(
                NamedItem { name: c.name.clone(), span: c.span },
            ),
            Declaration::Enum(e) => Declaration::Enum(NamedItem { name: e.name.clone(), span: e.span }),
            Declaration::Other(span) => Declaration::Other(*span),
        }
    }

    /// Whether this is a `use` declaration.
    pub fn is_use(&self) -> (r: bool)
        ensures
            r == (self@ is Use),
    {
        match self {
            Declaration::Use(_) => true,
            _ => false,
        }
    }
}

impl Module {
    pub fn new(declarations: Vec<Declaration>, span: Span) -> (module: Module)
        ensures
            module.declarations@ == declarations@,
            module.span == span,
    {
        Module { declarations, span }
    }

    pub fn duplicate(&self) -> (copy: Module)
        ensures
            copy@ == self@,
    {
        let mut declarations: Vec<Declaration> = Vec::new();
        let mut i: usize = 0;
        while i < self.declarations.len()
            invariant
                i <= self.declarations.len(),
                declarations@.len() == i,
                forall|j: int| 0 <= j < i ==> declarations@[j]@ == self.declarations@[j]@,
            decreases self.declarations.len() - i,
        {
            declarations.push(self.declarations[i].duplicate());
            i = i + 1;
        }
        assert(declarations_model(declarations@) =~= declarations_model(self.declarations@));
        Module { declarations, span: self.span }
    }
}

} // verus!
