//! Plain data carried through the hook pipeline, with the spec-level view of
//! each type that contracts are stated over.
use vstd::prelude::*;

verus! {

/// An error raised by a plugin hook or a minifier invocation; carried
/// unchanged to the top-level caller.
#[derive(Debug, Clone, PartialEq, Eq)]
pub struct BuildError {
    pub message: String,
}

impl DeepView for BuildError {
    type V = Seq<char>;

    open spec fn deep_view(&self) -> Seq<char> {
        self.message@
    }
}

impl BuildError {
    /// The error text, for callers that want to display it.
    pub fn message_text(&self) -> (r: &str)
        ensures
            r@ == self.message@,
    {
        self.message.as_str()
    }
}

/// Maps a hook result to its spec-level view: the payload's deep view on
/// success, the error text on failure.
pub open spec fn res_view<T: DeepView>(r: Result<T, BuildError>) -> Result<T::V, Seq<char>> {
    match r {
        Ok(v) => Ok(v.deep_view()),
        Err(e) => Err(e.deep_view()),
    }
}

/// Spec-level view of a hook result that carries no payload.
pub open spec fn res_unit_view(r: Result<(), BuildError>) -> Result<(), Seq<char>> {
    match r {
        Ok(_) => Ok(()),
        Err(e) => Err(e.deep_view()),
    }
}

/// The module type a transform chain threads along; plugins may override it.
#[derive(Debug, Clone, Copy, PartialEq, Eq, Structural)]
pub enum ModuleType {
    Js,
    Jsx,
    Ts,
    Tsx,
    Json,
    Css,
    Text,
    Empty,
}

/// A plugin's side-effect classification for a module.
#[derive(Debug, Clone, Copy, PartialEq, Eq, Structural)]
pub enum HookSideEffects {
    True,
    False,
    NoTreeshake,
}

/// One rewrite step's source map: resolved source names, their embedded
/// contents, and the encoded position table.
#[derive(Debug, Clone, PartialEq, Eq)]
pub struct SourceMap {
    pub sources: Vec<String>,
    pub sources_content: Vec<Option<String>>,
    pub mappings: String,
}

/// Spec-level view of a `SourceMap`.
pub struct SourceMapData {
    pub sources: Seq<Seq<char>>,
    pub sources_content: Seq<Option<Seq<char>>>,
    pub mappings: Seq<char>,
}

impl DeepView for SourceMap {
    type V = SourceMapData;

    open spec fn deep_view(&self) -> SourceMapData {
        SourceMapData {
            sources: self.sources.deep_view(),
            sources_content: self.sources_content.deep_view(),
            mappings: self.mappings@,
        }
    }
}

/// One entry of the per-call resolution skip set: the plugin with this index
/// must not be consulted again for this (specifier, importer) request.
#[derive(Debug, Clone, PartialEq, Eq)]
pub struct HookResolveIdSkipped {
    pub specifier: String,
    pub importer: Option<String>,
    pub plugin_idx: usize,
}

/// Spec-level view of a skip-set entry.
pub struct SkipData {
    pub specifier: Seq<char>,
    pub importer: Option<Seq<char>>,
    pub plugin_idx: int,
}

impl DeepView for HookResolveIdSkipped {
    type V = SkipData;

    open spec fn deep_view(&self) -> SkipData {
        SkipData {
            specifier: self.specifier@,
            importer: self.importer.deep_view(),
            plugin_idx: self.plugin_idx as int,
        }
    }
}

/// Arguments of one resolution request.
#[derive(Debug, Clone, PartialEq, Eq)]
pub struct HookResolveIdArgs {
    pub specifier: String,
    pub importer: Option<String>,
}

/// Spec-level view of resolution arguments.
pub struct ResolveArgsData {
    pub specifier: Seq<char>,
    pub importer: Option<Seq<char>>,
}

impl DeepView for HookResolveIdArgs {
    type V = ResolveArgsData;

    open spec fn deep_view(&self) -> ResolveArgsData {
        ResolveArgsData { specifier: self.specifier@, importer: self.importer.deep_view() }
    }
}

/// A winning resolution result.
#[derive(Debug, Clone, PartialEq, Eq)]
pub struct HookResolveIdOutput {
    pub id: String,
    pub external: bool,
}

/// Spec-level view of a resolution result.
pub struct ResolvedIdData {
    pub id: Seq<char>,
    pub external: bool,
}

impl DeepView for HookResolveIdOutput {
    type V = ResolvedIdData;

    open spec fn deep_view(&self) -> ResolvedIdData {
        ResolvedIdData { id: self.id@, external: self.external }
    }
}

/// Arguments of one load request.
#[derive(Debug, Clone, PartialEq, Eq)]
pub struct HookLoadArgs {
    pub id: String,
}

/// Spec-level view of load arguments.
pub struct LoadArgsData {
    pub id: Seq<char>,
}

impl DeepView for HookLoadArgs {
    type V = LoadArgsData;

    open spec fn deep_view(&self) -> LoadArgsData {
        LoadArgsData { id: self.id@ }
    }
}

/// A winning load result.
#[derive(Debug, Clone, PartialEq, Eq)]
pub struct HookLoadOutput {
    pub code: String,
    pub map: Option<SourceMap>,
    pub module_type: Option<ModuleType>,
    pub side_effects: Option<HookSideEffects>,
}

/// Spec-level view of a load result.
pub struct LoadOutputData {
    pub code: Seq<char>,
    pub map: Option<SourceMapData>,
    pub module_type: Option<ModuleType>,
    pub side_effects: Option<HookSideEffects>,
}

impl DeepView for HookLoadOutput {
    type V = LoadOutputData;

    open spec fn deep_view(&self) -> LoadOutputData {
        LoadOutputData {
            code: self.code@,
            map: self.map.deep_view(),
            module_type: self.module_type,
            side_effects: self.side_effects,
        }
    }
}

/// A transform step's result; absent fields mean "leave that part of the
/// threaded state unchanged".
#[derive(Debug, Clone, PartialEq, Eq)]
pub struct HookTransformOutput {
    pub code: Option<String>,
    pub map: Option<SourceMap>,
    pub side_effects: Option<HookSideEffects>,
    pub module_type: Option<ModuleType>,
}

/// Spec-level view of a transform step's result.
pub struct TransformOutputData {
    pub code: Option<Seq<char>>,
    pub map: Option<SourceMapData>,
    pub side_effects: Option<HookSideEffects>,
    pub module_type: Option<ModuleType>,
}

impl DeepView for HookTransformOutput {
    type V = TransformOutputData;

    open spec fn deep_view(&self) -> TransformOutputData {
        TransformOutputData {
            code: self.code.deep_view(),
            map: self.map.deep_view(),
            side_effects: self.side_effects,
            module_type: self.module_type,
        }
    }
}

/// What the `module_parsed` broadcast hands each plugin about a module.
#[derive(Debug, Clone, PartialEq, Eq)]
pub struct ModuleInfo {
    pub id: String,
}

/// Spec-level view of `ModuleInfo`.
pub struct ModuleInfoData {
    pub id: Seq<char>,
}

impl DeepView for ModuleInfo {
    type V = ModuleInfoData;

    open spec fn deep_view(&self) -> ModuleInfoData {
        ModuleInfoData { id: self.id@ }
    }
}

/// What the `build_end` broadcast hands each plugin: the build failure that
/// ended the build, if one did.
#[derive(Debug, Clone, PartialEq, Eq)]
pub struct HookBuildEndArgs {
    pub error: Option<String>,
}

/// Spec-level view of `HookBuildEndArgs`.
pub struct BuildEndArgsData {
    pub error: Option<Seq<char>>,
}

impl DeepView for HookBuildEndArgs {
    type V = BuildEndArgsData;

    open spec fn deep_view(&self) -> BuildEndArgsData {
        BuildEndArgsData { error: self.error.deep_view() }
    }
}

/// Minifier settings used when minification is enabled.
#[derive(Debug, Clone, Copy, PartialEq, Eq, Structural)]
pub struct MinifyOptionsValue {
    pub compress: bool,
    pub mangle: bool,
    pub remove_whitespace: bool,
}

/// Whether minification runs, and with which settings.
#[derive(Debug, Clone, Copy, PartialEq, Eq, Structural)]
pub enum MinifyOptions {
    Disabled,
    Enabled(MinifyOptionsValue),
}

/// The slice of bundler configuration this core reads.
#[derive(Debug, Clone, Copy, PartialEq, Eq, Structural)]
pub struct BundlerOptions {
    pub minify: MinifyOptions,
}

/// What kind of asset an emitted file is; only scripting assets are minified.
#[derive(Debug, Clone, Copy, PartialEq, Eq, Structural)]
pub enum InstantiationKind {
    Ecma,
    Css,
    Plain,
}

/// An emitted output file: its text, its accumulated source map, and its kind.
#[derive(Debug, Clone, PartialEq, Eq)]
pub struct Asset {
    pub filename: String,
    pub content: String,
    pub map: Option<SourceMap>,
    pub kind: InstantiationKind,
}

/// Spec-level view of an `Asset`.
pub struct AssetData {
    pub filename: Seq<char>,
    pub content: Seq<char>,
    pub map: Option<SourceMapData>,
    pub kind: InstantiationKind,
}

impl DeepView for Asset {
    type V = AssetData;

    open spec fn deep_view(&self) -> AssetData {
        AssetData {
            filename: self.filename@,
            content: self.content@,
            map: self.map.deep_view(),
            kind: self.kind,
        }
    }
}

} // verus!
