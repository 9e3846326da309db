//! The capability interface a plugin implements, and the two collaborator
//! ports the minify stage depends on.
//!
//! Implementations of these traits are supplied by the surrounding bundler
//! and its users; they are not verified here. Each executable method carries
//! an `ensures` tying its result to a spec-level companion function, so
//! everything the driver proves holds of any implementation that honours its
//! declared behaviour.
use vstd::prelude::*;

use crate::types::{
    BuildEndArgsData, BuildError, BundlerOptions, HookBuildEndArgs, HookLoadArgs,
    HookLoadOutput, HookResolveIdArgs, HookResolveIdOutput, HookResolveIdSkipped,
    HookTransformOutput, LoadArgsData, LoadOutputData, MinifyOptionsValue, ModuleInfo,
    ModuleInfoData, ModuleType, ResolveArgsData, ResolvedIdData, SkipData, SourceMap,
    SourceMapData, TransformOutputData, res_unit_view, res_view,
};

verus! {

/// The named extension points a plugin may implement.
#[derive(Debug, Clone, Copy, PartialEq, Eq, Structural)]
pub enum HookKind {
    BuildStart,
    ResolveId,
    ResolveDynamicImport,
    Load,
    Transform,
    TransformAst,
    ModuleParsed,
    BuildEnd,
}

/// A plugin's declared relative-ordering hint for one hook kind. `Pre`-tagged
/// plugins run before `Normal`, which run before `Post`; ties are broken by
/// registration order.
#[derive(Debug, Clone, Copy, PartialEq, Eq, Structural)]
pub enum PluginOrder {
    Pre,
    Normal,
    Post,
}

/// Spec-level view of a hook result that threads a value of an arbitrary
/// type, such as an AST handle.
pub open spec fn res_thread_view<A>(r: Result<A, BuildError>) -> Result<A, Seq<char>> {
    match r {
        Ok(a) => Ok(a),
        Err(e) => Err(e.deep_view()),
    }
}

/// An opaque capability bundle registered with the driver.
///
/// Each `call_*` method is one hook handler; its companion `*_spec` function
/// is the declared behaviour the driver's contracts are stated over. A hook's
/// result depends only on what the driver hands it.
pub trait Plugin: Sized {
    /// The AST handle type threaded through `transform_ast`; opaque to the
    /// driver, which only passes it along the chain.
    type Ast;

    /// Which hook kinds this plugin implements.
    spec fn implements_spec(&self, kind: HookKind) -> bool;

    /// The declared ordering hint per hook kind.
    spec fn order_spec(&self, kind: HookKind) -> PluginOrder;

    fn implements_hook(&self, kind: HookKind) -> (r: bool)
        ensures
            r == self.implements_spec(kind),
    ;

    fn hook_order(&self, kind: HookKind) -> (r: PluginOrder)
        ensures
            r == self.order_spec(kind),
    ;

    /// Declared behaviour of the `buildStart` hook.
    spec fn build_start_spec(&self, opts: BundlerOptions) -> Result<(), Seq<char>>;

    fn call_build_start(&self, opts: &BundlerOptions) -> (r: Result<(), BuildError>)
        ensures
            res_unit_view(r) == self.build_start_spec(*opts),
    ;

    /// Declared behaviour of the `resolveId` hook. `skipped` is the skip set
    /// of the enclosing resolution call chain, handed through so a handler
    /// can thread it into nested re-resolution requests.
    spec fn resolve_id_spec(&self, args: ResolveArgsData, skipped: Seq<SkipData>) -> Result<
        Option<ResolvedIdData>,
        Seq<char>,
    >;

    fn call_resolve_id(
        &self,
        args: &HookResolveIdArgs,
        skipped: &Vec<HookResolveIdSkipped>,
    ) -> (r: Result<Option<HookResolveIdOutput>, BuildError>)
        ensures
            res_view(r) == self.resolve_id_spec(args.deep_view(), skipped.deep_view()),
    ;

    /// Declared behaviour of the `resolveDynamicImport` hook.
    spec fn resolve_dynamic_import_spec(
        &self,
        args: ResolveArgsData,
        skipped: Seq<SkipData>,
    ) -> Result<Option<ResolvedIdData>, Seq<char>>;

    fn call_resolve_dynamic_import(
        &self,
        args: &HookResolveIdArgs,
        skipped: &Vec<HookResolveIdSkipped>,
    ) -> (r: Result<Option<HookResolveIdOutput>, BuildError>)
        ensures
            res_view(r) == self.resolve_dynamic_import_spec(
                args.deep_view(),
                skipped.deep_view(),
            ),
    ;

    /// Declared behaviour of the `load` hook.
    spec fn load_spec(&self, args: LoadArgsData) -> Result<Option<LoadOutputData>, Seq<char>>;

    fn call_load(&self, args: &HookLoadArgs) -> (r: Result<Option<HookLoadOutput>, BuildError>)
        ensures
            res_view(r) == self.load_spec(args.deep_view()),
    ;

    /// Declared behaviour of the `transform` hook, as a function of the
    /// module id, the current code, the current module type and read access
    /// to the source-map chain accumulated so far.
    spec fn transform_spec(
        &self,
        id: Seq<char>,
        code: Seq<char>,
        module_type: ModuleType,
        chain: Seq<SourceMapData>,
    ) -> Result<Option<TransformOutputData>, Seq<char>>;

    fn call_transform(
        &self,
        id: &String,
        code: &String,
        module_type: &ModuleType,
        chain: &Vec<SourceMap>,
    ) -> (r: Result<Option<HookTransformOutput>, BuildError>)
        ensures
            res_view(r) == self.transform_spec(id@, code@, *module_type, chain.deep_view()),
    ;

    /// Declared behaviour of the `transformAst` hook: it receives the chain's
    /// current AST handle and must return the (possibly mutated) handle.
    spec fn transform_ast_spec(
        &self,
        cwd: Seq<char>,
        id: Seq<char>,
        is_user_defined_entry: bool,
        ast: Self::Ast,
    ) -> Result<Self::Ast, Seq<char>>;

    fn call_transform_ast(
        &self,
        cwd: &String,
        id: &String,
        is_user_defined_entry: bool,
        ast: Self::Ast,
    ) -> (r: Result<Self::Ast, BuildError>)
        ensures
            res_thread_view(r) == self.transform_ast_spec(cwd@, id@, is_user_defined_entry, ast),
    ;

    /// Declared behaviour of the `moduleParsed` broadcast hook.
    spec fn module_parsed_spec(&self, module_info: ModuleInfoData) -> Result<(), Seq<char>>;

    fn call_module_parsed(&self, module_info: &ModuleInfo) -> (r: Result<(), BuildError>)
        ensures
            res_unit_view(r) == self.module_parsed_spec(module_info.deep_view()),
    ;

    /// Declared behaviour of the `buildEnd` broadcast hook.
    spec fn build_end_spec(&self, args: Option<BuildEndArgsData>) -> Result<(), Seq<char>>;

    fn call_build_end(&self, args: Option<&HookBuildEndArgs>) -> (r: Result<(), BuildError>)
        ensures
            res_unit_view(r) == self.build_end_spec(args.deep_view()),
    ;
}

/// The minifier collaborator: a narrow produce-code / produce-map port. The
/// concrete minifier lives outside this core.
pub trait Minifier {
    /// Declared behaviour of one minifier invocation on one asset's text.
    /// `enable_sourcemap` asks it to also produce a map of its own rewrite.
    spec fn minify_spec(
        &self,
        code: Seq<char>,
        enable_sourcemap: bool,
        filename: Seq<char>,
        options: MinifyOptionsValue,
    ) -> Result<(Seq<char>, Option<SourceMapData>), Seq<char>>;

    fn minify(
        &self,
        code: &String,
        enable_sourcemap: bool,
        filename: &String,
        options: MinifyOptionsValue,
    ) -> (r: Result<(String, Option<SourceMap>), BuildError>)
        ensures
            res_view(r) == self.minify_spec(code@, enable_sourcemap, filename@, options),
    ;
}

/// The map-composition collaborator: collapses an ordered chain of source
/// maps, each mapping into the space of the one before it, into a single
/// equivalent map.
pub trait MapComposer {
    /// Declared result of collapsing an ordered chain of maps.
    spec fn collapse_spec(&self, maps: Seq<SourceMapData>) -> SourceMapData;

    fn collapse(&self, maps: Vec<SourceMap>) -> (r: SourceMap)
        ensures
            r.deep_view() == self.collapse_spec(maps.deep_view()),
    ;
}

} // verus!
