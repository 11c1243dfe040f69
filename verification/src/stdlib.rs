//! The Kome standard library: where it is found, which of its modules an
//! application needs, and how they are combined with the application.
//!
//! Reading files, the environment and the disk happens around these
//! functions; each of them makes the decision that follows one such step.
use vstd::prelude::*;

use crate::ast::{
    copy_strings, declarations_model, Declaration, DeclarationModel, ImportModel, Module,
    ModuleModel, UseImport,
};
use crate::paths::{check_file, observed_file, option_view, join, path_join, path_with_extension, with_extension};
use crate::text::{concat3, is_std, join_segments, joined, std_name};

verus! {

/// A standard library module read from disk.
#[derive(Debug)]
pub struct LoadedModule {
    pub path: String,
    pub source: String,
    pub module: Module,
}

/// Mathematical model of a loaded module.
pub struct LoadedModuleModel {
    pub path: Seq<char>,
    pub source: Seq<char>,
    pub module: ModuleModel,
}

impl View for LoadedModule {
    type V = LoadedModuleModel;

    open spec fn view(&self) -> LoadedModuleModel {
        LoadedModuleModel { path: self.path@, source: self.source@, module: self.module@ }
    }
}

/// The models of a sequence of loaded modules.
pub open spec fn loaded_models(modules: Seq<LoadedModule>) -> Seq<LoadedModuleModel> {
    modules.map_values(|m: LoadedModule| m@)
}

impl LoadedModule {
    pub fn duplicate(&self) -> (copy: LoadedModule)
        ensures
            copy@ == self@,
    {
        LoadedModule {
            path: self.path.clone(),
            source: self.source.clone(),
            module: self.module.duplicate(),
        }
    }
}

/// Whether an import path names a standard library module: it starts with
/// `std` and has at least one segment after it.
pub open spec fn is_std_module_path(segments: Seq<Seq<char>>) -> bool {
    segments.len() > 1 && segments[0] == std_name()
}

/// The standard library module paths among some imports, in order.
pub open spec fn std_paths_of_imports(imports: Seq<ImportModel>) -> Seq<Seq<Seq<char>>>
    decreases imports.len(),
{
    if imports.len() == 0 {
        Seq::empty()
    } else {
        std_paths_of_imports(imports.drop_last()) + match imports.last() {
            ImportModel::Module { segments, .. } => if is_std_module_path(segments) {
                seq![segments]
            } else {
                Seq::empty()
            },
            ImportModel::Other => Seq::empty(),
        }
    }
}

/// The standard library module paths imported by some declarations, in
/// order.
pub open spec fn std_imports(declarations: Seq<DeclarationModel>) -> Seq<Seq<Seq<char>>>
    decreases declarations.len(),
{
    if declarations.len() == 0 {
        Seq::empty()
    } else {
        std_imports(declarations.drop_last()) + match declarations.last() {
            DeclarationModel::Use(imports) => std_paths_of_imports(imports),
            _ => Seq::empty(),
        }
    }
}

/// The views of a list of paths.
pub open spec fn paths_view(paths: Seq<Vec<String>>) -> Seq<Seq<Seq<char>>> {
    paths.map_values(|p: Vec<String>| p.deep_view())
}

/// The standard library module paths that `module` imports with `use`, in
/// source order: those whose first segment is `std` and that name a module
/// below it.
pub fn standard_library_imports(module: &Module) -> (imports: Vec<Vec<String>>)
    ensures
        paths_view(imports@) == std_imports(module@.declarations),
{
    let ghost decls = module@.declarations;
    let mut imports: Vec<Vec<String>> = Vec::new();
    let mut i: usize = 0;
    while i < module.declarations.len()
        invariant
            i <= module.declarations.len(),
            decls == module@.declarations,
            decls.len() == module.declarations@.len(),
            paths_view(imports@) == std_imports(decls.take(i as int)),
        decreases module.declarations.len() - i,
    {
        assert(decls.take(i + 1).drop_last() =~= decls.take(i as int));
        assert(decls.take(i + 1).last() == module.declarations@[i as int]@);
        match &module.declarations[i] {
            Declaration::Use(use_declaration) => {
                let ghost imps = use_declaration.imports@.map_values(|u: UseImport| u@);
                let ghost before = paths_view(imports@);
                let mut j: usize = 0;
                while j < use_declaration.imports.len()
                    invariant
                        j <= use_declaration.imports.len(),
                        imps == use_declaration.imports@.map_values(|u: UseImport| u@),
                        imps.len() == use_declaration.imports@.len(),
                        paths_view(imports@) == before + std_paths_of_imports(imps.take(j as int)),
                    decreases use_declaration.imports.len() - j,
                {
                    assert(imps.take(j + 1).drop_last() =~= imps.take(j as int));
                    assert(imps.take(j + 1).last() == use_declaration.imports@[j as int]@);
                    match &use_declaration.imports[j] {
                        UseImport::Module(path) => {
                            if path.segments.len() > 1 && is_std(&path.segments[0]) {
                                let ghost prev = imports@;
                                imports.push(copy_strings(&path.segments));
                                assert(paths_view(imports@) =~= paths_view(prev) + seq![
                                    path.segments.deep_view(),
                                ]);
                            } else {
                                assert(std_paths_of_imports(imps.take(j + 1))
                                    =~= std_paths_of_imports(imps.take(j as int)));
                            }
                        },
                        UseImport::Other => {
                            assert(std_paths_of_imports(imps.take(j + 1))
                                =~= std_paths_of_imports(imps.take(j as int)));
                        },
                    }
                    j = j + 1;
                }
                assert(imps.take(j as int) =~= imps);
            },
            _ => {
                assert(std_imports(decls.take(i + 1)) =~= std_imports(decls.take(i as int)));
            },
        }
        i = i + 1;
    }
    assert(decls.take(i as int) =~= decls);
    imports
}

/// The name of the environment variable that points at the standard
/// library directory.
pub const STDLIB_PATH_ENV: &'static str = "KOME_STDLIB_PATH";

/// The name of the environment variable that points at the komeup home.
pub const KOMEUP_HOME_ENV: &'static str = "KOMEUP_HOME";

/// The message for an environment variable that is set to the empty string.
pub open spec fn empty_variable_message(variable: Seq<char>) -> Seq<char> {
    variable + " is set, but its value is empty"@
}

/// Where `discover` looks next.
#[derive(Debug)]
pub enum DiscoverPlan {
    /// Load the standard library from this directory.
    Load(String),
    /// Read the komeup configuration at `config_path` inside `home`; its
    /// default toolchain then gives the directory (see `toolchain_root`).
    ReadConfig { home: String, config_path: String },
}

/// The message for a variable that is set but empty.
fn empty_variable(variable: &str) -> (message: String)
    ensures
        message@ == empty_variable_message(variable@),
{
    let mut message = String::from_str(variable);
    message.append(" is set, but its value is empty");
    message
}

/// The komeup home: `KOMEUP_HOME` where it is set, else `.kome` in `HOME`.
pub open spec fn spec_kome_home(
    komeup_home: Option<Seq<char>>,
    home: Option<Seq<char>>,
) -> Result<Seq<char>, Seq<char>> {
    match komeup_home {
        Some(path) => if path.len() == 0 {
            Err(empty_variable_message("KOMEUP_HOME"@))
        } else {
            Ok(path)
        },
        None => match home {
            Some(h) => Ok(path_join(h, ".kome"@)),
            None => Err("HOME is not set and KOMEUP_HOME was not provided"@),
        },
    }
}

/// Finds the komeup home from the values of `KOMEUP_HOME` and `HOME`.
pub fn kome_home(komeup_home: Option<String>, home: Option<String>) -> (found: Result<String, String>)
    ensures
        match (found, spec_kome_home(option_view(komeup_home), option_view(home))) {
            (Ok(p), Ok(q)) => p@ == q,
            (Err(e), Err(f)) => e@ == f,
            _ => false,
        },
{
    match komeup_home {
        Some(path) => {
            if path.as_str().is_empty() {
                return Err(empty_variable(KOMEUP_HOME_ENV));
            }
            Ok(path)
        },
        None => match home {
            Some(h) => Ok(join(h.as_str(), ".kome")),
            None => Err(String::from_str("HOME is not set and KOMEUP_HOME was not provided")),
        },
    }
}

/// The standard library directory of a toolchain:
/// `<home>/toolchains/<toolchain>/lib/std`.
pub open spec fn spec_toolchain_root(home: Seq<char>, toolchain: Seq<char>) -> Seq<char> {
    path_join(path_join(path_join(path_join(home, "toolchains"@), toolchain), "lib"@), "std"@)
}

/// The standard library directory of the default toolchain named in the
/// komeup configuration.
pub fn toolchain_root(home: &str, default_toolchain: &str) -> (root: String)
    ensures
        root@ == spec_toolchain_root(home@, default_toolchain@),
{
    let toolchains = join(home, "toolchains");
    let toolchain = join(toolchains.as_str(), default_toolchain);
    let lib = join(toolchain.as_str(), "lib");
    join(lib.as_str(), "std")
}

/// The prelude's path inside a standard library directory.
pub open spec fn spec_prelude_path(root: Seq<char>) -> Seq<char> {
    path_join(root, "prelude.kome"@)
}

/// Checks what the file system reports of the standard library directory
/// (`Ok(is_directory)`, or the text of the error) and gives the path of the
/// prelude to read from it.
pub fn prelude_path_for(root: &str, metadata: Result<bool, String>) -> (prelude: Result<
    String,
    String,
>)
    ensures
        match metadata {
            Err(error) => prelude matches Err(e) && e@
                == "failed to access standard library directory `"@ + root@ + "`: "@ + error@,
            Ok(false) => prelude matches Err(e) && e@ == "standard library path `"@ + root@
                + "` is not a directory"@,
            Ok(true) => prelude matches Ok(p) && p@ == spec_prelude_path(root@),
        },
{
    match metadata {
        Err(error) => {
            let mut message = concat3("failed to access standard library directory `", root, "`: ");
            message.append(error.as_str());
            Err(message)
        },
        Ok(is_directory) => {
            if !is_directory {
                return Err(concat3("standard library path `", root, "` is not a directory"));
            }
            Ok(join(root, "prelude.kome"))
        },
    }
}

/// A standard library directory together with its parsed prelude.
pub struct StandardLibrary {
    root: String,
    prelude_path: String,
    prelude_source: String,
    prelude: Module,
}

impl StandardLibrary {
    /// Decides where to look for the standard library, from the values of
    /// `KOME_STDLIB_PATH`, `KOMEUP_HOME` and `HOME`.  `KOME_STDLIB_PATH` wins
    /// where it is set; otherwise the komeup configuration in the komeup home
    /// names the toolchain (see `toolchain_root`).
    pub fn discover(
        stdlib_path: Option<String>,
        komeup_home: Option<String>,
        home: Option<String>,
    ) -> (plan: Result<DiscoverPlan, String>)
        ensures
            match option_view(stdlib_path) {
                Some(p) => if p.len() == 0 {
                    plan matches Err(e) && e@ == empty_variable_message(STDLIB_PATH_ENV@)
                } else {
                    plan matches Ok(DiscoverPlan::Load(root)) && root@ == p
                },
                None => match spec_kome_home(option_view(komeup_home), option_view(home)) {
                    Ok(h) => plan matches Ok(DiscoverPlan::ReadConfig { home: found, config_path })
                        && found@ == h && config_path@ == path_join(h, "komeup.toml"@),
                    Err(f) => plan matches Err(e) && e@ == f,
                },
            },
    {
        if let Some(raw_path) = stdlib_path {
            if raw_path.as_str().is_empty() {
                return Err(empty_variable(STDLIB_PATH_ENV));
            }
            return Ok(DiscoverPlan::Load(raw_path));
        }
        let home = kome_home(komeup_home, home)?;
        let config_path = join(home.as_str(), "komeup.toml");
        Ok(DiscoverPlan::ReadConfig { home, config_path })
    }

    /// The standard library directory named by `KOME_STDLIB_PATH`, which must
    /// be set and not empty.
    pub fn load_from_env(stdlib_path: Option<String>) -> (root: Result<String, String>)
        ensures
            match option_view(stdlib_path) {
                None => root matches Err(e)
                    && e@ == STDLIB_PATH_ENV@ + " is not set; set it to the kome_std directory"@,
                Some(p) => if p.len() == 0 {
                    root matches Err(e) && e@ == empty_variable_message(STDLIB_PATH_ENV@)
                } else {
                    root matches Ok(r) && r@ == p
                },
            },
    {
        match stdlib_path {
            None => {
                let mut message = String::from_str(STDLIB_PATH_ENV);
                message.append(" is not set; set it to the kome_std directory");
                Err(message)
            },
            Some(raw_path) => {
                if raw_path.as_str().is_empty() {
                    return Err(empty_variable(STDLIB_PATH_ENV));
                }
                Ok(raw_path)
            },
        }
    }

    #[verifier::type_invariant]
    spec fn prelude_inside_root(self) -> bool {
        self.prelude_path@ == spec_prelude_path(self.root@)
    }

    /// The standard library directory.
    pub closed spec fn root_view(&self) -> Seq<char> {
        self.root@
    }

    /// The path of the prelude.
    pub closed spec fn prelude_path_view(&self) -> Seq<char> {
        self.prelude_path@
    }

    /// The text of the prelude.
    pub closed spec fn prelude_source_view(&self) -> Seq<char> {
        self.prelude_source@
    }

    /// The parsed prelude.
    pub closed spec fn prelude_view(&self) -> ModuleModel {
        self.prelude@
    }

    /// A standard library at `root` whose prelude (read from
    /// `prelude_path_for(root, ..)`) has the given text and parses to
    /// `prelude`.
    pub fn load(root: String, prelude_source: String, prelude: Module) -> (library: StandardLibrary)
        ensures
            library.root_view() == root@,
            library.prelude_path_view() == spec_prelude_path(root@),
            library.prelude_source_view() == prelude_source@,
            library.prelude_view() == prelude@,
    {
        let prelude_path = join(root.as_str(), "prelude.kome");
        StandardLibrary { root, prelude_path, prelude_source, prelude }
    }

    pub fn root(&self) -> (root: &str)
        ensures
            root@ == self.root_view(),
    {
        self.root.as_str()
    }

    pub fn prelude_path(&self) -> (path: &str)
        ensures
            path@ == self.prelude_path_view(),
            path@ == spec_prelude_path(self.root_view()),
    {
        proof {
            use_type_invariant(self);
        }
        self.prelude_path.as_str()
    }

    pub fn prelude(&self) -> (prelude: &Module)
        ensures
            prelude@ == self.prelude_view(),
    {
        &self.prelude
    }

    pub fn prelude_source(&self) -> (source: &str)
        ensures
            source@ == self.prelude_source_view(),
    {
        self.prelude_source.as_str()
    }
}

/// The declarations that are not `use` declarations, in order.
pub open spec fn without_uses(declarations: Seq<DeclarationModel>) -> Seq<DeclarationModel>
    decreases declarations.len(),
{
    if declarations.len() == 0 {
        Seq::empty()
    } else {
        without_uses(declarations.drop_last()) + if declarations.last() is Use {
            Seq::empty()
        } else {
            seq![declarations.last()]
        }
    }
}

/// The declarations, other than `use` declarations, of the loaded modules
/// one after the other.
pub open spec fn imported_declarations(modules: Seq<LoadedModuleModel>) -> Seq<DeclarationModel>
    decreases modules.len(),
{
    if modules.len() == 0 {
        Seq::empty()
    } else {
        imported_declarations(modules.drop_last()) + without_uses(
            modules.last().module.declarations,
        )
    }
}

/// Where a declaration of a merged module comes from.
#[derive(Clone, Copy, PartialEq, Eq, Structural, Debug)]
pub enum DeclarationSource {
    /// Loaded standard library module `i` (the prelude is module `0`).
    Standard(usize),
    /// The application.
    Application,
}

/// A declaration of a merged module, named by where it comes from: its
/// source and its position among that source's declarations.  The parsed
/// declaration itself (with its body) is found there.
#[derive(Clone, Copy, PartialEq, Eq, Structural, Debug)]
pub struct DeclarationPosition {
    pub source: DeclarationSource,
    pub index: usize,
}

/// A merged module: its declarations, each with where it comes from, so
/// that the full parsed declarations can be gathered from their sources.
#[derive(Debug)]
pub struct MergedModule {
    pub module: Module,
    pub positions: Vec<DeclarationPosition>,
}

/// The position of declaration `index` of standard library module `m`.
pub open spec fn standard_position(m: int, index: int) -> DeclarationPosition {
    DeclarationPosition { source: DeclarationSource::Standard(m as usize), index: index as usize }
}

/// The positions of the declarations of a module that are not `use`
/// declarations, for standard library module `m`.
pub open spec fn kept_positions(declarations: Seq<DeclarationModel>, m: int) -> Seq<
    DeclarationPosition,
>
    decreases declarations.len(),
{
    if declarations.len() == 0 {
        Seq::empty()
    } else {
        kept_positions(declarations.drop_last(), m) + if declarations.last() is Use {
            Seq::empty()
        } else {
            seq![standard_position(m, declarations.len() - 1)]
        }
    }
}

/// The positions of the declarations, other than `use` declarations, of
/// the loaded modules one after the other.
pub open spec fn imported_positions(modules: Seq<LoadedModuleModel>) -> Seq<DeclarationPosition>
    decreases modules.len(),
{
    if modules.len() == 0 {
        Seq::empty()
    } else {
        imported_positions(modules.drop_last()) + kept_positions(
            modules.last().module.declarations,
            modules.len() - 1,
        )
    }
}

/// The positions of every declaration of a source.
pub open spec fn all_positions(source: DeclarationSource, count: int) -> Seq<DeclarationPosition> {
    Seq::new(count as nat, |i: int| DeclarationPosition { source, index: i as usize })
}

/// The declaration a position names, among the loaded modules and the
/// application's declarations.
pub open spec fn declaration_at(
    position: DeclarationPosition,
    modules: Seq<LoadedModuleModel>,
    application: Seq<DeclarationModel>,
) -> DeclarationModel {
    match position.source {
        DeclarationSource::Standard(m) => modules[m as int].module.declarations[position.index as int],
        DeclarationSource::Application => application[position.index as int],
    }
}

/// The positions name the declarations of the merged module, one for one.
pub open spec fn positions_name(
    positions: Seq<DeclarationPosition>,
    declarations: Seq<DeclarationModel>,
    modules: Seq<LoadedModuleModel>,
    application: Seq<DeclarationModel>,
) -> bool {
    &&& positions.len() == declarations.len()
    &&& forall|k: int|
        0 <= k < positions.len() ==> declaration_at(#[trigger] positions[k], modules, application)
            == declarations[k]
}

/// Appends the application's declarations, with their positions, to a
/// merge in progress.
fn append_application(
    declarations: &mut Vec<Declaration>,
    positions: &mut Vec<DeclarationPosition>,
    application: Module,
    modules: Ghost<Seq<LoadedModuleModel>>,
)
    requires
        positions_name(
            old(positions)@,
            declarations_model(old(declarations)@),
            modules@,
            application@.declarations,
        ),
        forall|k: int|
            0 <= k < old(positions)@.len() ==> (#[trigger] old(positions)@[k]).source
                != DeclarationSource::Application,
    ensures
        declarations_model(final(declarations)@) == declarations_model(old(declarations)@)
            + application@.declarations,
        final(positions)@ == old(positions)@ + all_positions(
            DeclarationSource::Application,
            application@.declarations.len() as int,
        ),
        positions_name(
            final(positions)@,
            declarations_model(final(declarations)@),
            modules@,
            application@.declarations,
        ),
{
    let ghost app = application@.declarations;
    let ghost start = positions@;
    let mut k: usize = 0;
    while k < application.declarations.len()
        invariant
            k <= application.declarations.len(),
            app == application@.declarations,
            app.len() == application.declarations@.len(),
            positions@ == start + all_positions(DeclarationSource::Application, k as int),
        decreases application.declarations.len() - k,
    {
        positions.push(DeclarationPosition { source: DeclarationSource::Application, index: k });
        assert(positions@ =~= start + all_positions(DeclarationSource::Application, k + 1));
        k = k + 1;
    }
    let mut rest = application.declarations;
    let ghost first = declarations@;
    let ghost second = rest@;
    declarations.append(&mut rest);
    assert(declarations_model(declarations@) =~= declarations_model(first) + declarations_model(
        second,
    ));
    assert forall|k: int| 0 <= k < positions@.len() implies declaration_at(
        #[trigger] positions@[k],
        modules@,
        app,
    ) == declarations_model(declarations@)[k] by {
        if k >= start.len() {
            assert(positions@[k] == DeclarationPosition {
                source: DeclarationSource::Application,
                index: (k - start.len()) as usize,
            });
        }
    }
}

impl StandardLibrary {
    /// The application with the prelude's declarations put before its own,
    /// each with where it comes from (the prelude as standard library
    /// module `0`).
    pub fn merge_with(&self, application: Module) -> (merged: MergedModule)
        ensures
            merged.module@.declarations == self.prelude_view().declarations
                + application@.declarations,
            merged.module@.span == application.span,
            merged.positions@ == all_positions(
                DeclarationSource::Standard(0),
                self.prelude_view().declarations.len() as int,
            ) + all_positions(DeclarationSource::Application, application@.declarations.len() as int),
            positions_name(
                merged.positions@,
                merged.module@.declarations,
                seq![prelude_module(*self)],
                application@.declarations,
            ),
    {
        let ghost modules = seq![prelude_module(*self)];
        let ghost prelude = self.prelude@.declarations;
        let mut declarations: Vec<Declaration> = Vec::new();
        let mut positions: Vec<DeclarationPosition> = Vec::new();
        let mut i: usize = 0;
        while i < self.prelude.declarations.len()
            invariant
                i <= self.prelude.declarations.len(),
                modules == seq![prelude_module(*self)],
                prelude == self.prelude@.declarations,
                prelude.len() == self.prelude.declarations@.len(),
                modules[0].module.declarations == prelude,
                declarations@.len() == i,
                forall|j: int| 0 <= j < i ==> declarations@[j]@ == self.prelude.declarations@[j]@,
                positions@ == all_positions(DeclarationSource::Standard(0), i as int),
            decreases self.prelude.declarations.len() - i,
        {
            declarations.push(self.prelude.declarations[i].duplicate());
            positions.push(DeclarationPosition { source: DeclarationSource::Standard(0), index: i });
            assert(positions@ =~= all_positions(DeclarationSource::Standard(0), i + 1));
            i = i + 1;
        }
        assert(declarations_model(declarations@) =~= declarations_model(
            self.prelude.declarations@,
        ));
        let span = application.span;
        let ghost app = application@.declarations;
        append_application(&mut declarations, &mut positions, application, Ghost(modules));
        MergedModule { module: Module::new(declarations, span), positions }
    }

    /// The application with the declarations of the given standard library
    /// modules put before its own, `use` declarations left out, each with
    /// where it comes from.  `modules` is what the walk started by
    /// `modules_for(&application)` loaded.
    pub fn merge_with_imports(&self, modules: &Vec<LoadedModule>, application: Module) -> (merged:
        MergedModule)
        ensures
            merged.module@.declarations == imported_declarations(loaded_models(modules@))
                + application@.declarations,
            merged.module@.span == application.span,
            merged.positions@ == imported_positions(loaded_models(modules@)) + all_positions(
                DeclarationSource::Application,
                application@.declarations.len() as int,
            ),
            positions_name(
                merged.positions@,
                merged.module@.declarations,
                loaded_models(modules@),
                application@.declarations,
            ),
    {
        let ghost mods = loaded_models(modules@);
        let ghost app = application@.declarations;
        let mut declarations: Vec<Declaration> = Vec::new();
        let mut positions: Vec<DeclarationPosition> = Vec::new();
        let mut i: usize = 0;
        while i < modules.len()
            invariant
                i <= modules.len(),
                mods == loaded_models(modules@),
                mods.len() == modules@.len(),
                declarations_model(declarations@) == imported_declarations(mods.take(i as int)),
                positions@ == imported_positions(mods.take(i as int)),
                positions_name(positions@, declarations_model(declarations@), mods, app),
                forall|k: int|
                    0 <= k < positions@.len() ==> (#[trigger] positions@[k]).source
                        != DeclarationSource::Application,
            decreases modules.len() - i,
        {
            assert(mods.take(i + 1).drop_last() =~= mods.take(i as int));
            let module = &modules[i].module;
            let ghost decls = module@.declarations;
            assert(mods[i as int].module.declarations == decls);
            let ghost before = declarations_model(declarations@);
            let ghost before_positions = positions@;
            let mut j: usize = 0;
            while j < module.declarations.len()
                invariant
                    j <= module.declarations.len(),
                    i < mods.len(),
                    mods == loaded_models(modules@),
                    decls == module@.declarations,
                    decls == mods[i as int].module.declarations,
                    decls.len() == module.declarations@.len(),
                    declarations_model(declarations@) == before + without_uses(
                        decls.take(j as int),
                    ),
                    positions@ == before_positions + kept_positions(decls.take(j as int), i as int),
                    positions_name(positions@, declarations_model(declarations@), mods, app),
                    forall|k: int|
                        0 <= k < positions@.len() ==> (#[trigger] positions@[k]).source
                            != DeclarationSource::Application,
                decreases module.declarations.len() - j,
            {
                assert(decls.take(j + 1).drop_last() =~= decls.take(j as int));
                assert(decls.take(j + 1).last() == module.declarations@[j as int]@);
                if !module.declarations[j].is_use() {
                    let ghost prev = declarations@;
                    let ghost prev_positions = positions@;
                    declarations.push(module.declarations[j].duplicate());
                    positions.push(DeclarationPosition { source: DeclarationSource::Standard(i), index: j });
                    assert(declarations_model(declarations@) =~= declarations_model(prev)
                        + seq![module.declarations@[j as int]@]);
                    assert(positions@ =~= prev_positions + seq![standard_position(i as int, j as int)]);
                    assert(kept_positions(decls.take(j + 1), i as int) =~= kept_positions(
                        decls.take(j as int),
                        i as int,
                    ) + seq![standard_position(i as int, j as int)]);
                    assert(declaration_at(positions@[positions@.len() - 1], mods, app)
                        == declarations_model(declarations@)[positions@.len() - 1]);
                    assert forall|k: int| 0 <= k < positions@.len() implies declaration_at(
                        #[trigger] positions@[k],
                        mods,
                        app,
                    ) == declarations_model(declarations@)[k] by {
                        if k < prev_positions.len() {
                            assert(positions@[k] == prev_positions[k]);
                            assert(declarations_model(declarations@)[k] == declarations_model(
                                prev,
                            )[k]);
                        }
                    }
                } else {
                    assert(kept_positions(decls.take(j + 1), i as int) =~= kept_positions(
                        decls.take(j as int),
                        i as int,
                    ));
                }
                j = j + 1;
            }
            assert(decls.take(j as int) =~= decls);
            assert(mods.take(i + 1).last() == modules@[i as int]@);
            i = i + 1;
        }
        assert(mods.take(i as int) =~= mods);
        let span = application.span;
        append_application(&mut declarations, &mut positions, application, Ghost(mods));
        MergedModule { module: Module::new(declarations, span), positions }
    }
}

/// Without `use` declarations to leave out, a list of declarations is kept
/// whole.
pub proof fn lemma_without_uses_keeps_others(declarations: Seq<DeclarationModel>)
    requires
        forall|i: int| 0 <= i < declarations.len() ==> !(#[trigger] declarations[i] is Use),
    ensures
        without_uses(declarations) == declarations,
    decreases declarations.len(),
{
    if declarations.len() > 0 {
        let init = declarations.drop_last();
        assert forall|i: int| 0 <= i < init.len() implies !(#[trigger] init[i] is Use) by {
            assert(init[i] == declarations[i]);
        }
        lemma_without_uses_keeps_others(init);
        assert(init + seq![declarations.last()] =~= declarations);
    }
}

/// The module a walk starts from: the prelude of `library`.
pub open spec fn prelude_module(library: StandardLibrary) -> LoadedModuleModel {
    LoadedModuleModel {
        path: library.prelude_path_view(),
        source: library.prelude_source_view(),
        module: library.prelude_view(),
    }
}

/// Merging with the imports of an application that imports no standard
/// library module (so that only the prelude is loaded), where the prelude
/// itself has no `use` declarations, gives what `merge_with` gives.
pub proof fn lemma_merge_with_imports_extends_merge_with(
    library: StandardLibrary,
    application: Seq<DeclarationModel>,
)
    requires
        forall|i: int|
            0 <= i < library.prelude_view().declarations.len() ==> !(
            #[trigger] library.prelude_view().declarations[i] is Use),
    ensures
        imported_declarations(seq![prelude_module(library)]) + application
            == library.prelude_view().declarations + application,
{
    let prelude = prelude_module(library);
    lemma_without_uses_keeps_others(prelude.module.declarations);
    assert(seq![prelude].drop_last() =~= Seq::<LoadedModuleModel>::empty());
    assert(imported_declarations(Seq::<LoadedModuleModel>::empty()) =~= Seq::<
        DeclarationModel,
    >::empty());
    assert(imported_declarations(seq![prelude]) =~= prelude.module.declarations);
}
/// The path of a module below `root`: each segment joined in turn.
pub open spec fn module_base(root: Seq<char>, segments: Seq<Seq<char>>) -> Seq<char>
    decreases segments.len(),
{
    if segments.len() == 0 {
        root
    } else {
        path_join(module_base(root, segments.drop_last()), segments.last())
    }
}

/// The file that may hold module `std.a.b`: `<root>/a/b.kome`.
pub open spec fn file_candidate(root: Seq<char>, segments: Seq<Seq<char>>) -> Seq<char> {
    path_with_extension(module_base(root, segments.drop_first()), "kome"@)
}

/// The directory module file that may hold module `std.a.b`:
/// `<root>/a/b/mod.kome`.
pub open spec fn directory_candidate(root: Seq<char>, segments: Seq<Seq<char>>) -> Seq<char> {
    path_join(module_base(root, segments.drop_first()), "mod.kome"@)
}

/// The dotted name of a module path, such as `std.io`.
pub open spec fn dotted(segments: Seq<Seq<char>>) -> Seq<char> {
    joined(segments, "."@)
}

/// Where a standard library module may be found, or why its path names
/// none: it must start with `std` and name a module below it.
pub open spec fn spec_module_candidates(root: Seq<char>, segments: Seq<Seq<char>>) -> Result<
    (Seq<char>, Seq<char>),
    Seq<char>,
> {
    if segments.len() == 0 || segments[0] != std_name() {
        Err("standard library module path must start with `std`: `"@ + dotted(segments) + "`"@)
    } else if segments.len() < 2 {
        Err("`std` must be followed by a module name"@)
    } else {
        Ok((file_candidate(root, segments), directory_candidate(root, segments)))
    }
}

/// The message for a module that is in neither place.
pub open spec fn module_not_found_message(
    segments: Seq<Seq<char>>,
    file: Seq<char>,
    directory: Seq<char>,
) -> Seq<char> {
    "standard library module `"@ + dotted(segments) + "` was not found; expected `"@ + file
        + "` or `"@ + directory + "`"@
}

/// Chooses the file of a module from its two candidates: the plain file
/// where it exists, the directory module file otherwise.
pub fn select_module_path(
    segments: &Vec<String>,
    file: String,
    directory: String,
    file_exists: bool,
    directory_exists: bool,
) -> (path: Result<String, String>)
    ensures
        file_exists ==> (path matches Ok(p) && p@ == file@),
        !file_exists && directory_exists ==> (path matches Ok(p) && p@ == directory@),
        !file_exists && !directory_exists ==> (path matches Err(e) && e@
            == module_not_found_message(segments.deep_view(), file@, directory@)),
{
    if file_exists {
        Ok(file)
    } else if directory_exists {
        Ok(directory)
    } else {
        let name = join_segments(segments, ".");
        let mut message = concat3("standard library module `", name.as_str(), "` was not found; expected `");
        message.append(file.as_str());
        message.append("` or `");
        message.append(directory.as_str());
        message.append("`");
        Err(message)
    }
}


/// The two files that may hold the module named by `segments` below
/// `root` (the first segment, `std`, names `root` itself).
pub(crate) fn module_file_candidates(root: &str, segments: &Vec<String>) -> (candidates: (
    String,
    String,
))
    requires
        segments@.len() >= 1,
    ensures
        candidates.0@ == file_candidate(root@, segments.deep_view()),
        candidates.1@ == directory_candidate(root@, segments.deep_view()),
{
    let ghost segs = segments.deep_view();
    let ghost rest = segs.drop_first();
    let mut base = String::from_str(root);
    let mut i: usize = 1;
    while i < segments.len()
        invariant
            1 <= i <= segments.len(),
            segs == segments.deep_view(),
            rest == segs.drop_first(),
            base@ == module_base(root@, rest.take(i - 1)),
        decreases segments.len() - i,
    {
        assert(rest.take(i as int).drop_last() =~= rest.take(i - 1));
        assert(rest.take(i as int).last() == segments@[i as int]@);
        base = join(base.as_str(), segments[i].as_str());
        i = i + 1;
    }
    assert(rest.take(i - 1) =~= rest);
    assert(rest.take(0) =~= Seq::<Seq<char>>::empty());
    proof {
        reveal_strlit("kome");
    }
    let file = with_extension(base.as_str(), "kome");
    let directory = join(base.as_str(), "mod.kome");
    (file, directory)
}

impl StandardLibrary {
    /// The two files that may hold the module at `segments`, or why the
    /// path names no module.
    pub fn module_candidates(&self, segments: &Vec<String>) -> (candidates: Result<
        (String, String),
        String,
    >)
        ensures
            match (candidates, spec_module_candidates(self.root_view(), segments.deep_view())) {
                (Ok((file, directory)), Ok((f, d))) => file@ == f && directory@ == d,
                (Err(e), Err(m)) => e@ == m,
                _ => false,
            },
    {
        let ghost segs = segments.deep_view();
        if segments.len() == 0 || !is_std(&segments[0]) {
            let name = join_segments(segments, ".");
            return Err(concat3(
                "standard library module path must start with `std`: `",
                name.as_str(),
                "`",
            ));
        }
        if segments.len() < 2 {
            return Err(String::from_str("`std` must be followed by a module name"));
        }
        let (file, directory) = module_file_candidates(self.root.as_str(), segments);
        Ok((file, directory))
    }

    /// Finds the file of the standard library module at `segments`: the
    /// plain file where the disk says it is a file, else the directory
    /// module file where the disk says that one is (see `located_by`).
    pub fn locate_module(&self, segments: &Vec<String>) -> (path: Result<String, String>)
        ensures
            located_by(self.root_view(), segments.deep_view(), path),
            match spec_module_candidates(self.root_view(), segments.deep_view()) {
                Err(m) => path matches Err(e) && e@ == m,
                Ok((f, d)) => match path {
                    Ok(p) => (p@ == f || p@ == d) && is_module_file_for(
                        p@,
                        self.root_view(),
                        segments.deep_view(),
                    ),
                    Err(e) => e@ == module_not_found_message(segments.deep_view(), f, d),
                },
            },
    {
        let (file, directory) = self.module_candidates(segments)?;
        let file_exists = check_file(file.as_str());
        let directory_exists = if file_exists {
            false
        } else {
            check_file(directory.as_str())
        };
        let path = select_module_path(segments, file, directory, file_exists, directory_exists);
        proof {
            assert(answered_by_disk(
                segments.deep_view(),
                file@,
                directory@,
                file_exists,
                directory_exists,
                path,
            ));
        }
        path
    }
}

/// What `locate_module` gives when the disk answered `file_exists` for the
/// plain file `file` and, where that is no file, `directory_exists` for the
/// directory module file `directory`.
pub open spec fn answered_by_disk(
    segments: Seq<Seq<char>>,
    file: Seq<char>,
    directory: Seq<char>,
    file_exists: bool,
    directory_exists: bool,
    path: Result<String, String>,
) -> bool {
    &&& observed_file(file, file_exists)
    &&& file_exists || observed_file(directory, directory_exists)
    &&& match path {
        Ok(p) => if file_exists {
            p@ == file
        } else {
            directory_exists && p@ == directory
        },
        Err(e) => !file_exists && !directory_exists && e@ == module_not_found_message(
            segments,
            file,
            directory,
        ),
    }
}

/// What `locate_module` gives for the module at `segments` below `root`,
/// in terms of what the disk answered: a path that names no module gives
/// its error; otherwise the plain file is asked about first, and the
/// directory module file only where the plain file is not a file.
pub open spec fn located_by(
    root: Seq<char>,
    segments: Seq<Seq<char>>,
    path: Result<String, String>,
) -> bool {
    match spec_module_candidates(root, segments) {
        Err(m) => path matches Err(e) && e@ == m,
        Ok((f, d)) => exists|file_exists: bool, directory_exists: bool|
            #[trigger] answered_by_disk(segments, f, d, file_exists, directory_exists, path),
    }
}

/// The file `locate_module` finds exists: the disk said of that very path
/// that it is a file.  The plain file is preferred: the directory module
/// file is found only where the disk said the plain file is not a file.
/// Where no file is found, the disk said neither candidate is a file.
pub proof fn lemma_located_module_is_an_existing_file(
    root: Seq<char>,
    segments: Seq<Seq<char>>,
    path: Result<String, String>,
)
    requires
        located_by(root, segments, path),
        spec_module_candidates(root, segments) is Ok,
    ensures
        path matches Ok(p) ==> observed_file(p@, true),
        path matches Ok(p) ==> p@ == file_candidate(root, segments) || (observed_file(
            file_candidate(root, segments),
            false,
        ) && p@ == directory_candidate(root, segments)),
        path is Err ==> observed_file(file_candidate(root, segments), false) && observed_file(
            directory_candidate(root, segments),
            false,
        ),
{
    let f = file_candidate(root, segments);
    let d = directory_candidate(root, segments);
    let (fe, de) = choose|fe: bool, de: bool|
        #[trigger] answered_by_disk(segments, f, d, fe, de, path);
}

/// The key under which the walk remembers a requested module path: its
/// dotted name.  Two paths with the same dotted name are loaded once.
pub open spec fn module_key(path: Seq<Seq<char>>) -> Seq<char> {
    dotted(path)
}

/// `k` is the first position of `queue` whose key has not been requested.
pub open spec fn is_first_unrequested(
    queue: Seq<Seq<Seq<char>>>,
    requested: Seq<Seq<char>>,
    k: int,
) -> bool {
    &&& 0 <= k < queue.len()
    &&& !requested.contains(module_key(queue[k]))
    &&& forall|j: int| 0 <= j < k ==> requested.contains(#[trigger] module_key(queue[j]))
}

/// Every key of `queue` has been requested.
pub open spec fn all_requested(queue: Seq<Seq<Seq<char>>>, requested: Seq<Seq<char>>) -> bool {
    forall|j: int| 0 <= j < queue.len() ==> requested.contains(#[trigger] module_key(queue[j]))
}

/// Whether `keys` holds `key`.
fn contains_key(keys: &Vec<String>, key: &String) -> (found: bool)
    ensures
        found == keys.deep_view().contains(key@),
{
    let ghost all = keys.deep_view();
    let mut i: usize = 0;
    while i < keys.len()
        invariant
            i <= keys.len(),
            all == keys.deep_view(),
            all.len() == keys@.len(),
            forall|j: int| 0 <= j < i ==> all[j] != key@,
        decreases keys.len() - i,
    {
        assert(all[i as int] == keys@[i as int]@);
        if keys[i] == *key {
            assert(all.contains(key@) == true) by {
                assert(all[i as int] == key@);
            }
            return true;
        }
        i = i + 1;
    }
    false
}

/// The standard library imports of some loaded modules, one module after
/// the other.
pub open spec fn imports_of_modules(modules: Seq<LoadedModuleModel>) -> Seq<Seq<Seq<char>>>
    decreases modules.len(),
{
    if modules.len() == 0 {
        Seq::empty()
    } else {
        imports_of_modules(modules.drop_last()) + std_imports(modules.last().module.declarations)
    }
}

/// Every import path a walk has queued: those of the prelude (the first
/// module), those of the application, then those of each module loaded
/// after the prelude.
pub open spec fn walk_imports(
    modules: Seq<LoadedModuleModel>,
    application_imports: Seq<Seq<Seq<char>>>,
) -> Seq<Seq<Seq<char>>> {
    std_imports(modules[0].module.declarations) + application_imports + imports_of_modules(
        modules.drop_first(),
    )
}

/// Each import of module `i` of `modules` is among the imports of all of
/// them.
proof fn lemma_imports_of_modules_index(modules: Seq<LoadedModuleModel>, i: int, j: int)
    requires
        0 <= i < modules.len(),
        0 <= j < std_imports(modules[i].module.declarations).len(),
    ensures
        exists|k: int|
            0 <= k < imports_of_modules(modules).len() && #[trigger] imports_of_modules(modules)[k]
                == std_imports(modules[i].module.declarations)[j],
    decreases modules.len(),
{
    let init = modules.drop_last();
    if i == modules.len() - 1 {
        let k = imports_of_modules(init).len() + j;
        assert(imports_of_modules(modules)[k] == std_imports(modules[i].module.declarations)[j]);
    } else {
        assert(init[i] == modules[i]);
        lemma_imports_of_modules_index(init, i, j);
        let k = choose|k: int|
            0 <= k < imports_of_modules(init).len() && #[trigger] imports_of_modules(init)[k]
                == std_imports(init[i].module.declarations)[j];
        assert(imports_of_modules(modules)[k] == imports_of_modules(init)[k]);
    }
}

/// `path` is one of the two files that may hold the module at `segments`
/// below `root`.
pub open spec fn is_module_file_for(path: Seq<char>, root: Seq<char>, segments: Seq<Seq<char>>) -> bool {
    path == file_candidate(root, segments) || path == directory_candidate(root, segments)
}

/// The breadth-first walk over the standard library modules that an
/// application needs: the prelude, then every module imported by the
/// prelude, the application or a module already loaded, each dotted module
/// name once, in the order in which the imports are met.
///
/// `next_module` names the next module to load; the caller reads and
/// parses it (`StandardLibrary::locate_module` finds its file) and hands it
/// back with `add` before asking for the next one.
pub struct ModuleWalk {
    modules: Vec<LoadedModule>,
    pending: Vec<Vec<String>>,
    next: usize,
    requested: Vec<String>,
    awaiting: bool,
    application_imports: Ghost<Seq<Seq<Seq<char>>>>,
    requested_paths: Ghost<Seq<Seq<Seq<char>>>>,
    root: Ghost<Seq<char>>,
}

impl ModuleWalk {
    /// The modules loaded so far, the prelude first.
    pub closed spec fn modules_view(&self) -> Seq<LoadedModuleModel> {
        loaded_models(self.modules@)
    }

    /// The module paths still to be looked at, in order.
    pub closed spec fn queue(&self) -> Seq<Seq<Seq<char>>> {
        paths_view(self.pending@).skip(self.next as int)
    }

    /// The keys of the module paths requested so far, in order.
    pub closed spec fn requested_keys(&self) -> Seq<Seq<char>> {
        self.requested.deep_view()
    }

    /// Whether the module last named by `next_module` has yet to be added.
    pub closed spec fn awaiting_module(&self) -> bool {
        self.awaiting
    }

    /// The standard library imports of the application the walk is for.
    pub closed spec fn application_imports(&self) -> Seq<Seq<Seq<char>>> {
        self.application_imports@
    }

    /// The module paths requested so far, in order.
    pub closed spec fn requested_paths(&self) -> Seq<Seq<Seq<char>>> {
        self.requested_paths@
    }

    /// The standard library directory the walk loads from.
    pub closed spec fn root_view(&self) -> Seq<char> {
        self.root@
    }

    /// The module path that `next_module` named last.
    pub closed spec fn awaited_path(&self) -> Seq<Seq<char>> {
        self.requested_paths@.last()
    }

    /// The walk's bookkeeping: every path it has queued comes from the
    /// prelude, the application or a loaded module; every path it has
    /// looked at has a requested key; no key is requested twice; and every
    /// requested module has been added, but for one that is awaited.
    pub closed spec fn wf(&self) -> bool {
        let modules = self.modules_view();
        let all = paths_view(self.pending@);
        &&& self.next <= self.pending@.len()
        &&& self.requested_keys().no_duplicates()
        &&& modules.len() >= 1
        &&& all == walk_imports(modules, self.application_imports@)
        &&& forall|j: int|
            0 <= j < self.next ==> self.requested_keys().contains(#[trigger] module_key(all[j]))
        &&& modules.len() + (if self.awaiting {
            1int
        } else {
            0int
        }) == self.requested_keys().len() + 1
        &&& self.requested_paths@.len() == self.requested_keys().len()
        &&& forall|k: int|
            0 <= k < self.requested_paths@.len() ==> self.requested_keys()[k] == module_key(
                #[trigger] self.requested_paths@[k],
            )
        &&& forall|j: int|
            1 <= j < modules.len() ==> is_module_file_for(
                #[trigger] modules[j].path,
                self.root@,
                self.requested_paths@[j - 1],
            )
    }

    /// Every module after the prelude was loaded, in order, from one of the
    /// two files of the path requested for it, and the requested paths have
    /// the requested dotted names.
    pub proof fn lemma_modules_answer_requests(&self)
        requires
            self.wf(),
        ensures
            self.requested_paths().len() == self.requested_keys().len(),
            forall|k: int|
                0 <= k < self.requested_paths().len() ==> self.requested_keys()[k] == module_key(
                    #[trigger] self.requested_paths()[k],
                ),
            forall|j: int|
                1 <= j < self.modules_view().len() ==> is_module_file_for(
                    #[trigger] self.modules_view()[j].path,
                    self.root_view(),
                    self.requested_paths()[j - 1],
                ),
    {
    }

    /// The walk never names a module whose dotted name it has requested
    /// before: the next module it names has a dotted name that is not among
    /// the requested ones.
    pub proof fn lemma_no_repeated_request(&self, key: Seq<char>, k: int)
        requires
            self.requested_keys().contains(key),
            is_first_unrequested(self.queue(), self.requested_keys(), k),
        ensures
            module_key(self.queue()[k]) != key,
    {
    }

    /// Each module is loaded once: between steps, the modules loaded after
    /// the prelude are as many as the requested dotted names, which are
    /// distinct.
    pub proof fn lemma_each_module_loaded_once(&self)
        requires
            self.wf(),
            !self.awaiting_module(),
        ensures
            self.requested_keys().no_duplicates(),
            self.modules_view().len() == self.requested_keys().len() + 1,
    {
    }

    /// Once the walk is over (the queue is empty and no module is awaited),
    /// the loaded modules are closed under imports: the dotted name of every
    /// standard library import of every loaded module, and of the
    /// application, has been requested, and so loaded.
    pub proof fn lemma_closed_under_imports(&self)
        requires
            self.wf(),
            !self.awaiting_module(),
            self.queue().len() == 0,
        ensures
            forall|i: int, j: int|
                0 <= i < self.modules_view().len() && 0 <= j < std_imports(
                    self.modules_view()[i].module.declarations,
                ).len() ==> self.requested_keys().contains(
                    module_key(#[trigger] std_imports(self.modules_view()[i].module.declarations)[j]),
                ),
            forall|j: int|
                0 <= j < self.application_imports().len() ==> self.requested_keys().contains(
                    module_key(#[trigger] self.application_imports()[j]),
                ),
    {
        let modules = self.modules_view();
        let all = paths_view(self.pending@);
        let app = self.application_imports@;
        let first = std_imports(modules[0].module.declarations);
        let rest = modules.drop_first();
        assert(self.next == all.len());
        assert forall|i: int, j: int|
            0 <= i < modules.len() && 0 <= j < std_imports(
                modules[i].module.declarations,
            ).len() implies self.requested_keys().contains(
            module_key(#[trigger] std_imports(modules[i].module.declarations)[j]),
        ) by {
            if i == 0 {
                assert(all[j] == first[j]);
            } else {
                assert(rest[i - 1] == modules[i]);
                lemma_imports_of_modules_index(rest, i - 1, j);
                let k = choose|k: int|
                    0 <= k < imports_of_modules(rest).len() && #[trigger] imports_of_modules(rest)[k]
                        == std_imports(rest[i - 1].module.declarations)[j];
                assert(all[first.len() + app.len() + k] == imports_of_modules(rest)[k]);
            }
        }
        assert forall|j: int| 0 <= j < app.len() implies self.requested_keys().contains(
            module_key(#[trigger] app[j]),
        ) by {
            assert(all[first.len() + j] == app[j]);
        }
    }

    /// Names the next module to load: the first queued path whose dotted
    /// name has not been requested yet.  The paths before it, and it, leave
    /// the queue, and the module is then awaited.  `None` once every queued
    /// path has been requested.
    pub fn next_module(&mut self) -> (path: Option<Vec<String>>)
        requires
            old(self).wf(),
            !old(self).awaiting_module(),
        ensures
            final(self).wf(),
            final(self).modules_view() == old(self).modules_view(),
            final(self).application_imports() == old(self).application_imports(),
            final(self).root_view() == old(self).root_view(),
            final(self).awaiting_module() == (path is Some),
            match path {
                Some(p) => final(self).requested_paths() == old(self).requested_paths().push(
                    p.deep_view(),
                ) && final(self).awaited_path() == p.deep_view(),
                None => final(self).requested_paths() == old(self).requested_paths(),
            },
            match path {
                Some(p) => exists|k: int|
                    #[trigger] is_first_unrequested(
                        old(self).queue(),
                        old(self).requested_keys(),
                        k,
                    ) && p.deep_view() == old(self).queue()[k] && final(self).queue()
                        == old(self).queue().skip(k + 1) && final(self).requested_keys()
                        == old(self).requested_keys().push(module_key(old(self).queue()[k])),
                None => all_requested(old(self).queue(), old(self).requested_keys())
                    && final(self).queue() == Seq::<Seq<Seq<char>>>::empty()
                    && final(self).requested_keys() == old(self).requested_keys(),
            },
    {
        let ghost start = self.next as int;
        let ghost all = paths_view(self.pending@);
        let ghost queue0 = all.skip(start);
        let ghost keys0 = self.requested.deep_view();
        assert(queue0.len() == all.len() - start);
        while self.next < self.pending.len()
            invariant
                0 <= start <= self.next <= self.pending@.len(),
                start == old(self).next as int,
                old(self).wf(),
                keys0 == old(self).requested_keys(),
                all == paths_view(self.pending@),
                all.len() == self.pending@.len(),
                queue0 == all.skip(start),
                queue0.len() == all.len() - start,
                keys0 == self.requested.deep_view(),
                keys0.no_duplicates(),
                self.modules@ == old(self).modules@,
                self.pending@ == old(self).pending@,
                self.awaiting == old(self).awaiting,
                !self.awaiting,
                self.application_imports == old(self).application_imports,
                self.requested_paths == old(self).requested_paths,
                self.root == old(self).root,
                forall|j: int|
                    0 <= j < self.next ==> keys0.contains(#[trigger] module_key(all[j])),
            decreases self.pending@.len() - self.next,
        {
            let position = self.next;
            assert(all[position as int] == self.pending@[position as int].deep_view());
            assert(queue0[position - start] == all[position as int]);
            let key = join_segments(&self.pending[position], ".");
            self.next = position + 1;
            if !contains_key(&self.requested, &key) {
                let path = copy_strings(&self.pending[position]);
                self.requested.push(key);
                self.awaiting = true;
                proof {
                    self.requested_paths@ = self.requested_paths@.push(path.deep_view());
                    let k = position - start;
                    let ks = self.requested.deep_view();
                    assert(ks =~= keys0.push(module_key(queue0[k])));
                    assert(ks.no_duplicates()) by {
                        assert forall|a: int, b: int|
                            0 <= a < ks.len() && 0 <= b < ks.len() && a != b implies ks[a]
                            != ks[b] by {
                            if a < keys0.len() && b < keys0.len() {
                                assert(ks[a] == keys0[a] && ks[b] == keys0[b]);
                            } else if a == keys0.len() {
                                assert(ks[b] == keys0[b]);
                                assert(keys0.contains(ks[b]));
                            } else {
                                assert(ks[a] == keys0[a]);
                                assert(keys0.contains(ks[a]));
                            }
                        }
                    }
                    assert forall|j: int| 0 <= j < self.next implies ks.contains(
                        #[trigger] module_key(all[j]),
                    ) by {
                        if j < position {
                            let w = choose|w: int|
                                0 <= w < keys0.len() && keys0[w] == module_key(all[j]);
                            assert(ks[w] == keys0[w]);
                        } else {
                            assert(ks[keys0.len() as int] == module_key(all[j]));
                        }
                    }
                    assert forall|j: int| 0 <= j < k implies keys0.contains(
                        #[trigger] module_key(queue0[j]),
                    ) by {
                        assert(queue0[j] == all[start + j]);
                    }
                    assert(is_first_unrequested(queue0, keys0, k));
                    assert(all.skip(self.next as int) =~= queue0.skip(k + 1));
                    assert(old(self).queue() == queue0);
                    assert(old(self).requested_keys() == keys0);
                    assert(is_first_unrequested(old(self).queue(), old(self).requested_keys(), k));
                    assert(path.deep_view() == old(self).queue()[k]);
                    assert(self.queue() == old(self).queue().skip(k + 1));
                    assert(ks[keys0.len() as int] == module_key(path.deep_view()));
                    assert forall|j: int|
                        1 <= j < self.modules_view().len() implies is_module_file_for(
                        #[trigger] self.modules_view()[j].path,
                        self.root@,
                        self.requested_paths@[j - 1],
                    ) by {
                        assert(self.requested_paths@[j - 1] == old(self).requested_paths@[j - 1]);
                    }
                }
                return Some(path);
            }
        }
        proof {
            assert(all.skip(self.next as int) =~= Seq::<Seq<Seq<char>>>::empty());
            assert(queue0.len() == self.next - start);
            assert forall|j: int| 0 <= j < queue0.len() implies keys0.contains(
                #[trigger] module_key(queue0[j]),
            ) by {
                assert(queue0[j] == all[start + j]);
            }
        }
        None
    }

    /// Hands back the module loaded for the path that `next_module` named:
    /// it joins the loaded modules and its own standard library imports join
    /// the end of the queue.
    pub fn add(&mut self, module: LoadedModule)
        requires
            old(self).wf(),
            old(self).awaiting_module(),
            is_module_file_for(module@.path, old(self).root_view(), old(self).awaited_path()),
        ensures
            final(self).wf(),
            !final(self).awaiting_module(),
            final(self).modules_view() == old(self).modules_view().push(module@),
            final(self).queue() == old(self).queue() + std_imports(module@.module.declarations),
            final(self).requested_keys() == old(self).requested_keys(),
            final(self).application_imports() == old(self).application_imports(),
            final(self).requested_paths() == old(self).requested_paths(),
            final(self).root_view() == old(self).root_view(),
    {
        let imports = standard_library_imports(&module.module);
        let ghost old_pending = paths_view(self.pending@);
        let ghost old_modules = loaded_models(self.modules@);
        let ghost model = module@;
        let mut more = imports;
        let ghost added = more@;
        self.pending.append(&mut more);
        assert(paths_view(self.pending@) =~= old_pending + paths_view(added));
        assert(paths_view(self.pending@).skip(self.next as int) =~= old_pending.skip(
            self.next as int,
        ) + paths_view(added));
        self.modules.push(module);
        self.awaiting = false;
        proof {
            let modules = loaded_models(self.modules@);
            assert(modules =~= old_modules.push(model));
            assert(modules[0] == old_modules[0]);
            assert(modules.drop_first().drop_last() =~= old_modules.drop_first());
            assert(modules.drop_first().last() == model);
            assert(paths_view(self.pending@) =~= walk_imports(
                modules,
                self.application_imports@,
            ));
            assert forall|j: int| 0 <= j < self.next implies self.requested_keys().contains(
                #[trigger] module_key(paths_view(self.pending@)[j]),
            ) by {
                assert(paths_view(self.pending@)[j] == old_pending[j]);
            }
            assert forall|j: int|
                1 <= j < modules.len() implies is_module_file_for(
                #[trigger] modules[j].path,
                self.root@,
                self.requested_paths@[j - 1],
            ) by {
                if j < old_modules.len() {
                    assert(modules[j] == old_modules[j]);
                }
            }
        }
    }

    /// The modules loaded so far, the prelude first.
    pub fn modules(&self) -> (modules: &Vec<LoadedModule>)
        ensures
            loaded_models(modules@) == self.modules_view(),
    {
        &self.modules
    }

    /// Ends the walk with the modules loaded, the prelude first.
    pub fn finish(self) -> (modules: Vec<LoadedModule>)
        ensures
            loaded_models(modules@) == self.modules_view(),
    {
        self.modules
    }
}

impl StandardLibrary {
    /// Starts the walk over the standard library modules that `application`
    /// needs: the prelude is loaded, and the standard library imports of the
    /// prelude and then of the application are queued.
    pub fn modules_for(&self, application: &Module) -> (walk: ModuleWalk)
        ensures
            walk.wf(),
            !walk.awaiting_module(),
            walk.modules_view() == seq![prelude_module(*self)],
            prelude_module(*self).path == spec_prelude_path(self.root_view()),
            walk.application_imports() == std_imports(application@.declarations),
            walk.queue() == std_imports(self.prelude_view().declarations) + std_imports(
                application@.declarations,
            ),
            walk.requested_keys() == Seq::<Seq<char>>::empty(),
            walk.requested_paths() == Seq::<Seq<Seq<char>>>::empty(),
            walk.root_view() == self.root_view(),
    {
        proof {
            use_type_invariant(self);
        }
        let prelude = LoadedModule {
            path: self.prelude_path.clone(),
            source: self.prelude_source.clone(),
            module: self.prelude.duplicate(),
        };
        let mut modules: Vec<LoadedModule> = Vec::new();
        modules.push(prelude);
        let mut pending = standard_library_imports(&self.prelude);
        let mut more = standard_library_imports(application);
        let ghost more_paths = more@;
        let ghost pending_paths = pending@;
        pending.append(&mut more);
        assert(paths_view(pending@) =~= paths_view(pending_paths) + paths_view(more_paths));
        let walk = ModuleWalk {
            modules,
            pending,
            next: 0,
            requested: Vec::new(),
            awaiting: false,
            application_imports: Ghost(std_imports(application@.declarations)),
            requested_paths: Ghost(Seq::empty()),
            root: Ghost(self.root@),
        };
        assert(walk.queue() =~= paths_view(pending@));
        assert(walk.modules_view() =~= seq![prelude_module(*self)]);
        assert(walk.requested_keys() =~= Seq::<Seq<char>>::empty());
        assert(walk.modules_view().drop_first() =~= Seq::<LoadedModuleModel>::empty());
        assert(imports_of_modules(Seq::<LoadedModuleModel>::empty()) =~= Seq::<
            Seq<Seq<char>>,
        >::empty());
        assert(paths_view(pending@) =~= walk_imports(
            walk.modules_view(),
            std_imports(application@.declarations),
        ));
        walk
    }
}

} // verus!
