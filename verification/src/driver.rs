//! The plugin driver: builds the per-hook order tables once at registration,
//! then dispatches each hook kind across them — first-match-wins for
//! resolution and load, accumulate-and-thread for transforms, broadcast for
//! lifecycle hooks — failing fast on any plugin error.
use vstd::prelude::*;

use crate::plugin::{HookKind, Plugin, PluginOrder, res_thread_view};
use crate::sourcemap::{normalize_transform_sourcemap, normalize_transform_sourcemap_spec};
use crate::types::{
    BuildEndArgsData, BuildError, BundlerOptions, HookBuildEndArgs, HookLoadArgs,
    HookLoadOutput, HookResolveIdArgs, HookResolveIdOutput, HookResolveIdSkipped,
    HookSideEffects, HookTransformOutput, LoadArgsData, LoadOutputData, ModuleInfo,
    ModuleInfoData, ModuleType, ResolveArgsData, ResolvedIdData, SkipData, SourceMap,
    SourceMapData, TransformOutputData, res_unit_view, res_view,
};

verus! {

/// The registration indices, in registration order, of the plugins that
/// implement `kind` with ordering hint `ord`, among the first `n` plugins.
pub open spec fn plugins_with_order<P: Plugin>(
    plugins: Seq<P>,
    kind: HookKind,
    ord: PluginOrder,
    n: int,
) -> Seq<int>
    decreases n,
{
    if n <= 0 {
        Seq::empty()
    } else {
        let prefix = plugins_with_order(plugins, kind, ord, n - 1);
        if plugins[n - 1].implements_spec(kind) && plugins[n - 1].order_spec(kind) == ord {
            prefix.push(n - 1)
        } else {
            prefix
        }
    }
}

/// The order table for one hook kind: plugins that implement it, `pre`-tagged
/// first, then `normal`, then `post`, ties broken by registration order.
pub open spec fn hook_order_list<P: Plugin>(plugins: Seq<P>, kind: HookKind) -> Seq<int> {
    plugins_with_order(plugins, kind, PluginOrder::Pre, plugins.len() as int)
        + plugins_with_order(plugins, kind, PluginOrder::Normal, plugins.len() as int)
        + plugins_with_order(plugins, kind, PluginOrder::Post, plugins.len() as int)
}

/// An executable order table stands for its spec counterpart.
pub open spec fn order_table_matches<P: Plugin>(
    table: Seq<usize>,
    plugins: Seq<P>,
    kind: HookKind,
) -> bool {
    table.map_values(|u: usize| u as int) == hook_order_list(plugins, kind)
}

/// Everything `plugins_with_order` lists is a valid index below `n`.
pub proof fn lemma_plugins_with_order_in_range<P: Plugin>(
    plugins: Seq<P>,
    kind: HookKind,
    ord: PluginOrder,
    n: int,
)
    ensures
        forall|j: int|
            0 <= j < plugins_with_order(plugins, kind, ord, n).len() ==> 0 <= #[trigger] plugins_with_order(
                plugins,
                kind,
                ord,
                n,
            )[j] < n,
    decreases n,
{
    if n > 0 {
        lemma_plugins_with_order_in_range(plugins, kind, ord, n - 1);
        let prefix = plugins_with_order(plugins, kind, ord, n - 1);
        assert forall|j: int|
            0 <= j < plugins_with_order(plugins, kind, ord, n).len() implies 0 <= #[trigger] plugins_with_order(
            plugins,
            kind,
            ord,
            n,
        )[j] < n by {
            if j < prefix.len() {
                assert(plugins_with_order(plugins, kind, ord, n)[j] == prefix[j]);
            }
        }
    }
}

/// Everything a hook order table lists is a valid plugin index.
pub proof fn lemma_hook_order_list_in_range<P: Plugin>(plugins: Seq<P>, kind: HookKind)
    ensures
        forall|j: int|
            0 <= j < hook_order_list(plugins, kind).len() ==> 0 <= #[trigger] hook_order_list(
                plugins,
                kind,
            )[j] < plugins.len(),
{
    lemma_plugins_with_order_in_range(plugins, kind, PluginOrder::Pre, plugins.len() as int);
    lemma_plugins_with_order_in_range(plugins, kind, PluginOrder::Normal, plugins.len() as int);
    lemma_plugins_with_order_in_range(plugins, kind, PluginOrder::Post, plugins.len() as int);
}

/// Collects the registration indices of plugins implementing `kind` with
/// hint `ord`, in registration order.
fn collect_plugins_with_order<P: Plugin>(
    plugins: &Vec<P>,
    kind: HookKind,
    ord: PluginOrder,
) -> (r: Vec<usize>)
    ensures
        r@.map_values(|u: usize| u as int) == plugins_with_order(
            plugins@,
            kind,
            ord,
            plugins@.len() as int,
        ),
{
    let mut r: Vec<usize> = Vec::new();
    let mut i: usize = 0;
    proof {
        assert(r@.map_values(|u: usize| u as int) =~= plugins_with_order(plugins@, kind, ord, 0));
    }
    while i < plugins.len()
        invariant
            i <= plugins@.len(),
            r@.map_values(|u: usize| u as int) == plugins_with_order(
                plugins@,
                kind,
                ord,
                i as int,
            ),
        decreases plugins@.len() - i,
    {
        let implements = plugins[i].implements_hook(kind);
        let order = plugins[i].hook_order(kind);
        let ghost r_before = r@;
        if implements && order == ord {
            r.push(i);
            proof {
                assert(r@.map_values(|u: usize| u as int) =~= r_before.map_values(
                    |u: usize| u as int,
                ).push(i as int));
            }
        }
        i += 1;
    }
    r
}

/// Builds one hook kind's order table from the registered plugins.
fn build_hook_order_table<P: Plugin>(plugins: &Vec<P>, kind: HookKind) -> (r: Vec<usize>)
    ensures
        order_table_matches(r@, plugins@, kind),
{
    let mut r = collect_plugins_with_order(plugins, kind, PluginOrder::Pre);
    let mut normal = collect_plugins_with_order(plugins, kind, PluginOrder::Normal);
    let mut post = collect_plugins_with_order(plugins, kind, PluginOrder::Post);
    let ghost pre_part = r@;
    let ghost normal_part = normal@;
    let ghost post_part = post@;
    r.append(&mut normal);
    r.append(&mut post);
    proof {
        assert(r@ == pre_part + normal_part + post_part);
        assert(r@.map_values(|u: usize| u as int) =~= pre_part.map_values(|u: usize| u as int)
            + normal_part.map_values(|u: usize| u as int) + post_part.map_values(
            |u: usize| u as int,
        ));
    }
    r
}

/// Orchestrates hook dispatch across the registered plugins. The order
/// tables are computed once at construction and read-only afterward.
pub struct PluginDriver<P: Plugin> {
    pub plugins: Vec<P>,
    pub order_by_build_start_meta: Vec<usize>,
    pub order_by_resolve_id_meta: Vec<usize>,
    pub order_by_resolve_dynamic_import_meta: Vec<usize>,
    pub order_by_load_meta: Vec<usize>,
    pub order_by_transform_meta: Vec<usize>,
    pub order_by_transform_ast_meta: Vec<usize>,
    pub order_by_module_parsed_meta: Vec<usize>,
    pub order_by_build_end_meta: Vec<usize>,
}

/// The registration indices, in entry order, of skip-set entries matching a
/// (specifier, importer) request, among the first `n` entries.
pub open spec fn skipped_plugins_upto(
    skipped: Seq<SkipData>,
    specifier: Seq<char>,
    importer: Option<Seq<char>>,
    n: int,
) -> Seq<int>
    decreases n,
{
    if n <= 0 {
        Seq::empty()
    } else {
        let prefix = skipped_plugins_upto(skipped, specifier, importer, n - 1);
        if skipped[n - 1].specifier == specifier && skipped[n - 1].importer == importer {
            prefix.push(skipped[n - 1].plugin_idx)
        } else {
            prefix
        }
    }
}

/// The plugin indices a resolution call for (specifier, importer) must not
/// consult, read off the call chain's skip set.
pub open spec fn skipped_plugins_spec(
    skipped: Seq<SkipData>,
    specifier: Seq<char>,
    importer: Option<Seq<char>>,
) -> Seq<int> {
    skipped_plugins_upto(skipped, specifier, importer, skipped.len() as int)
}

/// The spec-level skip set of an optional call-chain skip list.
pub open spec fn skip_calls_view(s: Option<&Vec<HookResolveIdSkipped>>) -> Seq<SkipData> {
    match s {
        Some(v) => v.deep_view(),
        None => Seq::empty(),
    }
}

/// One resolution hook invocation's declared result: the `resolveId` or the
/// `resolveDynamicImport` handler, as the call chain asks.
pub open spec fn resolver_spec<P: Plugin>(
    p: P,
    dynamic: bool,
    args: ResolveArgsData,
    skipped: Seq<SkipData>,
) -> Result<Option<ResolvedIdData>, Seq<char>> {
    if dynamic {
        p.resolve_dynamic_import_spec(args, skipped)
    } else {
        p.resolve_id_spec(args, skipped)
    }
}

/// First-match-wins iteration of a resolution hook over an order table:
/// plugins in the skip set are passed over without being consulted; the
/// first consulted plugin to answer non-empty (or to fail) decides; if every
/// plugin answers empty the call resolves to "unresolved".
pub open spec fn resolve_run<P: Plugin>(
    plugins: Seq<P>,
    order: Seq<int>,
    args: ResolveArgsData,
    skipped: Seq<SkipData>,
    skips: Seq<int>,
    dynamic: bool,
) -> Result<Option<ResolvedIdData>, Seq<char>>
    decreases order.len(),
{
    if order.len() == 0 {
        Ok(None)
    } else if skips.contains(order[0]) {
        resolve_run(plugins, order.drop_first(), args, skipped, skips, dynamic)
    } else {
        match resolver_spec(plugins[order[0]], dynamic, args, skipped) {
            Err(e) => Err(e),
            Ok(Some(r)) => Ok(Some(r)),
            Ok(None) => resolve_run(plugins, order.drop_first(), args, skipped, skips, dynamic),
        }
    }
}

/// First-match-wins iteration of the `load` hook over an order table; there
/// is no skip-set concept for loading.
pub open spec fn load_run<P: Plugin>(
    plugins: Seq<P>,
    order: Seq<int>,
    args: LoadArgsData,
) -> Result<Option<LoadOutputData>, Seq<char>>
    decreases order.len(),
{
    if order.len() == 0 {
        Ok(None)
    } else {
        match plugins[order[0]].load_spec(args) {
            Err(e) => Err(e),
            Ok(Some(r)) => Ok(Some(r)),
            Ok(None) => load_run(plugins, order.drop_first(), args),
        }
    }
}

/// Fail-fast broadcast over an ordered sequence of hook results: the first
/// failure aborts the remaining invocations and surfaces unchanged; with no
/// failure the broadcast succeeds.
pub open spec fn broadcast_run(results: Seq<Result<(), Seq<char>>>) -> Result<(), Seq<char>>
    decreases results.len(),
{
    if results.len() == 0 {
        Ok(())
    } else {
        match results[0] {
            Err(e) => Err(e),
            Ok(_) => broadcast_run(results.drop_first()),
        }
    }
}

/// The declared results of the `buildStart` hook along an order table.
pub open spec fn build_start_results<P: Plugin>(
    plugins: Seq<P>,
    order: Seq<int>,
    opts: BundlerOptions,
) -> Seq<Result<(), Seq<char>>> {
    Seq::new(order.len(), |i: int| plugins[order[i]].build_start_spec(opts))
}

/// The declared results of the `moduleParsed` hook along an order table.
pub open spec fn module_parsed_results<P: Plugin>(
    plugins: Seq<P>,
    order: Seq<int>,
    module_info: ModuleInfoData,
) -> Seq<Result<(), Seq<char>>> {
    Seq::new(order.len(), |i: int| plugins[order[i]].module_parsed_spec(module_info))
}

/// The declared results of the `buildEnd` hook along an order table.
pub open spec fn build_end_results<P: Plugin>(
    plugins: Seq<P>,
    order: Seq<int>,
    args: Option<BuildEndArgsData>,
) -> Seq<Result<(), Seq<char>>> {
    Seq::new(order.len(), |i: int| plugins[order[i]].build_end_spec(args))
}

/// The per-module state a transform chain threads from step to step.
pub struct TransformStateData {
    pub code: Seq<char>,
    pub chain: Seq<SourceMapData>,
    pub side_effects: Option<HookSideEffects>,
    pub module_type: ModuleType,
}

/// How one answering transform step rewrites the threaded state: the
/// normalized map entry (if any) is appended to the chain, and only the
/// fields the plugin supplied overwrite the current state.
pub open spec fn transform_step_state(
    st: TransformStateData,
    out: TransformOutputData,
    id: Seq<char>,
) -> TransformStateData {
    TransformStateData {
        code: match out.code {
            Some(c) => c,
            None => st.code,
        },
        chain: match normalize_transform_sourcemap_spec(out.map, id, st.code, out.code) {
            Some(m) => st.chain.push(m),
            None => st.chain,
        },
        side_effects: match out.side_effects {
            Some(v) => Some(v),
            None => st.side_effects,
        },
        module_type: match out.module_type {
            Some(t) => t,
            None => st.module_type,
        },
    }
}

/// Cumulative iteration of the `transform` hook along an order table: each
/// plugin sees the previous plugin's output; a step that answers nothing
/// leaves the state untouched; the first failure stops the chain with the
/// state reached so far.
pub open spec fn transform_run<P: Plugin>(
    plugins: Seq<P>,
    order: Seq<int>,
    id: Seq<char>,
    st: TransformStateData,
) -> (TransformStateData, Option<Seq<char>>)
    decreases order.len(),
{
    if order.len() == 0 {
        (st, None)
    } else {
        match plugins[order[0]].transform_spec(id, st.code, st.module_type, st.chain) {
            Err(e) => (st, Some(e)),
            Ok(None) => transform_run(plugins, order.drop_first(), id, st),
            Ok(Some(out)) => transform_run(
                plugins,
                order.drop_first(),
                id,
                transform_step_state(st, out, id),
            ),
        }
    }
}

/// Cumulative iteration of the `transformAst` hook along an order table:
/// each plugin receives and returns the threaded AST handle; the first
/// failure stops the chain.
pub open spec fn transform_ast_run<P: Plugin>(
    plugins: Seq<P>,
    order: Seq<int>,
    cwd: Seq<char>,
    id: Seq<char>,
    is_user_defined_entry: bool,
    ast: P::Ast,
) -> Result<P::Ast, Seq<char>>
    decreases order.len(),
{
    if order.len() == 0 {
        Ok(ast)
    } else {
        match plugins[order[0]].transform_ast_spec(cwd, id, is_user_defined_entry, ast) {
            Err(e) => Err(e),
            Ok(next) => transform_ast_run(
                plugins,
                order.drop_first(),
                cwd,
                id,
                is_user_defined_entry,
                next,
            ),
        }
    }
}

/// Arguments of one `transformAst` chain, threading an opaque AST handle.
pub struct HookTransformAstArgs<A> {
    pub cwd: String,
    pub id: String,
    pub is_user_defined_entry: bool,
    pub ast: A,
}

/// Whether a table of plugin indices holds `x`.
fn contains_idx(v: &Vec<usize>, x: usize) -> (r: bool)
    ensures
        r == v@.map_values(|u: usize| u as int).contains(x as int),
{
    let ghost mapped = v@.map_values(|u: usize| u as int);
    let mut i: usize = 0;
    while i < v.len()
        invariant
            i <= v@.len(),
            mapped == v@.map_values(|u: usize| u as int),
            forall|j: int| 0 <= j < i ==> mapped[j] != x as int,
        decreases v@.len() - i,
    {
        if v[i] == x {
            proof {
                assert(mapped[i as int] == x as int);
            }
            return true;
        }
        i += 1;
    }
    proof {
        assert(!mapped.contains(x as int));
    }
    false
}

impl<P: Plugin> PluginDriver<P> {
    /// The order tables stand for exactly what `hook_order_list` computes
    /// from the registered plugins.
    pub open spec fn wf(&self) -> bool {
        &&& order_table_matches(self.order_by_build_start_meta@, self.plugins@, HookKind::BuildStart)
        &&& order_table_matches(self.order_by_resolve_id_meta@, self.plugins@, HookKind::ResolveId)
        &&& order_table_matches(
            self.order_by_resolve_dynamic_import_meta@,
            self.plugins@,
            HookKind::ResolveDynamicImport,
        )
        &&& order_table_matches(self.order_by_load_meta@, self.plugins@, HookKind::Load)
        &&& order_table_matches(self.order_by_transform_meta@, self.plugins@, HookKind::Transform)
        &&& order_table_matches(
            self.order_by_transform_ast_meta@,
            self.plugins@,
            HookKind::TransformAst,
        )
        &&& order_table_matches(
            self.order_by_module_parsed_meta@,
            self.plugins@,
            HookKind::ModuleParsed,
        )
        &&& order_table_matches(self.order_by_build_end_meta@, self.plugins@, HookKind::BuildEnd)
    }

    /// Registers the plugins and precomputes every hook kind's order table.
    pub fn new(plugins: Vec<P>) -> (r: Self)
        ensures
            r.plugins@ == plugins@,
            r.wf(),
    {
        let order_by_build_start_meta = build_hook_order_table(&plugins, HookKind::BuildStart);
        let order_by_resolve_id_meta = build_hook_order_table(&plugins, HookKind::ResolveId);
        let order_by_resolve_dynamic_import_meta = build_hook_order_table(
            &plugins,
            HookKind::ResolveDynamicImport,
        );
        let order_by_load_meta = build_hook_order_table(&plugins, HookKind::Load);
        let order_by_transform_meta = build_hook_order_table(&plugins, HookKind::Transform);
        let order_by_transform_ast_meta = build_hook_order_table(&plugins, HookKind::TransformAst);
        let order_by_module_parsed_meta = build_hook_order_table(&plugins, HookKind::ModuleParsed);
        let order_by_build_end_meta = build_hook_order_table(&plugins, HookKind::BuildEnd);
        PluginDriver {
            plugins,
            order_by_build_start_meta,
            order_by_resolve_id_meta,
            order_by_resolve_dynamic_import_meta,
            order_by_load_meta,
            order_by_transform_meta,
            order_by_transform_ast_meta,
            order_by_module_parsed_meta,
            order_by_build_end_meta,
        }
    }

    /// The plugins a resolution call for (specifier, importer) must skip,
    /// read off the call chain's skip set.
    pub fn get_resolve_call_skipped_plugins(
        specifier: &String,
        importer: Option<&String>,
        skipped_resolve_calls: Option<&Vec<HookResolveIdSkipped>>,
    ) -> (r: Vec<usize>)
        ensures
            r@.map_values(|u: usize| u as int) == skipped_plugins_spec(
                skip_calls_view(skipped_resolve_calls),
                specifier@,
                importer.deep_view(),
            ),
    {
        let mut skipped_plugins: Vec<usize> = Vec::new();
        proof {
            assert(skipped_plugins@.map_values(|u: usize| u as int) =~= Seq::<int>::empty());
        }
        match skipped_resolve_calls {
            Some(skip_calls) => {
                let ghost skipped_view = skip_calls.deep_view();
                let mut i: usize = 0;
                while i < skip_calls.len()
                    invariant
                        i <= skip_calls@.len(),
                        skipped_view == skip_calls.deep_view(),
                        skipped_plugins@.map_values(|u: usize| u as int)
                            == skipped_plugins_upto(
                            skipped_view,
                            specifier@,
                            importer.deep_view(),
                            i as int,
                        ),
                    decreases skip_calls@.len() - i,
                {
                    let skip_resolve_call = &skip_calls[i];
                    let specifier_matches = skip_resolve_call.specifier.eq(specifier);
                    let importer_matches = match (&skip_resolve_call.importer, importer) {
                        (Some(a), Some(b)) => a.eq(b),
                        (None, None) => true,
                        _ => false,
                    };
                    let ghost before = skipped_plugins@;
                    proof {
                        assert(skipped_view[i as int] == skip_calls@[i as int].deep_view());
                        assert((specifier_matches && importer_matches) == (skipped_view[
                            i as int
                        ].specifier == specifier@ && skipped_view[i as int].importer
                            == importer.deep_view()));
                    }
                    if specifier_matches && importer_matches {
                        skipped_plugins.push(skip_resolve_call.plugin_idx);
                        proof {
                            assert(skipped_plugins@.map_values(|u: usize| u as int)
                                =~= before.map_values(|u: usize| u as int).push(
                                skipped_view[i as int].plugin_idx,
                            ));
                        }
                    }
                    i += 1;
                }
            },
            None => {},
        }
        skipped_plugins
    }

    /// Shared first-match-wins resolution loop of the two resolution hooks.
    fn run_resolve(
        &self,
        args: &HookResolveIdArgs,
        skipped_resolve_calls: Option<&Vec<HookResolveIdSkipped>>,
        dynamic: bool,
    ) -> (r: Result<Option<HookResolveIdOutput>, BuildError>)
        requires
            self.wf(),
        ensures
            res_view(r) == resolve_run(
                self.plugins@,
                hook_order_list(
                    self.plugins@,
                    if dynamic {
                        HookKind::ResolveDynamicImport
                    } else {
                        HookKind::ResolveId
                    },
                ),
                args.deep_view(),
                skip_calls_view(skipped_resolve_calls),
                skipped_plugins_spec(
                    skip_calls_view(skipped_resolve_calls),
                    args.specifier@,
                    args.importer.deep_view(),
                ),
                dynamic,
            ),
    {
        let importer_ref = args.importer.as_ref();
        proof {
            assert(importer_ref.deep_view() =~= args.importer.deep_view());
        }
        let skipped_plugins = Self::get_resolve_call_skipped_plugins(
            &args.specifier,
            importer_ref,
            skipped_resolve_calls,
        );
        let empty_skips: Vec<HookResolveIdSkipped> = Vec::new();
        let skip_list: &Vec<HookResolveIdSkipped> = match skipped_resolve_calls {
            Some(v) => v,
            None => &empty_skips,
        };
        proof {
            assert(skip_list.deep_view() =~= skip_calls_view(skipped_resolve_calls));
        }
        let table: &Vec<usize> = if dynamic {
            &self.order_by_resolve_dynamic_import_meta
        } else {
            &self.order_by_resolve_id_meta
        };
        let ghost kind = if dynamic {
            HookKind::ResolveDynamicImport
        } else {
            HookKind::ResolveId
        };
        let ghost full = hook_order_list(self.plugins@, kind);
        let ghost skips = skipped_plugins@.map_values(|u: usize| u as int);
        let ghost argsv = args.deep_view();
        let ghost ctxv = skip_list.deep_view();
        proof {
            lemma_hook_order_list_in_range(self.plugins@, kind);
            assert(full.skip(0) =~= full);
            assert(ctxv == skip_calls_view(skipped_resolve_calls));
            assert(skips == skipped_plugins_spec(
                skip_calls_view(skipped_resolve_calls),
                args.specifier@,
                args.importer.deep_view(),
            ));
        }
        let mut i: usize = 0;
        while i < table.len()
            invariant
                self.wf(),
                i <= table@.len(),
                table@.map_values(|u: usize| u as int) == full,
                full == hook_order_list(self.plugins@, kind),
                kind == (if dynamic {
                    HookKind::ResolveDynamicImport
                } else {
                    HookKind::ResolveId
                }),
                skips == skipped_plugins@.map_values(|u: usize| u as int),
                skips == skipped_plugins_spec(
                    skip_calls_view(skipped_resolve_calls),
                    args.specifier@,
                    args.importer.deep_view(),
                ),
                argsv == args.deep_view(),
                ctxv == skip_list.deep_view(),
                ctxv == skip_calls_view(skipped_resolve_calls),
                forall|j: int|
                    0 <= j < full.len() ==> 0 <= #[trigger] full[j] < self.plugins@.len(),
                resolve_run(self.plugins@, full, argsv, ctxv, skips, dynamic) == resolve_run(
                    self.plugins@,
                    full.skip(i as int),
                    argsv,
                    ctxv,
                    skips,
                    dynamic,
                ),
            decreases table@.len() - i,
        {
            let idx = table[i];
            proof {
                assert(full[i as int] == idx as int);
                assert(full.skip(i as int).len() > 0);
                assert(full.skip(i as int)[0] == full[i as int]);
                assert(full.skip(i as int).drop_first() =~= full.skip(i as int + 1));
            }
            let is_skipped = contains_idx(&skipped_plugins, idx);
            if !is_skipped {
                let p = &self.plugins[idx];
                let step = if dynamic {
                    p.call_resolve_dynamic_import(args, skip_list)
                } else {
                    p.call_resolve_id(args, skip_list)
                };
                let ghost stepv = resolver_spec(self.plugins@[idx as int], dynamic, argsv, ctxv);
                proof {
                    assert(res_view(step) == stepv);
                    assert(!skips.contains(full.skip(i as int)[0]));
                    match stepv {
                        Err(e) => {
                            assert(resolve_run(
                                self.plugins@,
                                full.skip(i as int),
                                argsv,
                                ctxv,
                                skips,
                                dynamic,
                            ) == Err::<Option<ResolvedIdData>, Seq<char>>(e));
                        },
                        Ok(Some(r0)) => {
                            assert(resolve_run(
                                self.plugins@,
                                full.skip(i as int),
                                argsv,
                                ctxv,
                                skips,
                                dynamic,
                            ) == Ok::<Option<ResolvedIdData>, Seq<char>>(Some(r0)));
                        },
                        Ok(None) => {
                            assert(resolve_run(
                                self.plugins@,
                                full.skip(i as int),
                                argsv,
                                ctxv,
                                skips,
                                dynamic,
                            ) == resolve_run(
                                self.plugins@,
                                full.skip(i as int + 1),
                                argsv,
                                ctxv,
                                skips,
                                dynamic,
                            ));
                        },
                    }
                }
                match step {
                    Err(e) => {
                        return Err(e);
                    },
                    Ok(Some(resolved)) => {
                        return Ok(Some(resolved));
                    },
                    Ok(None) => {},
                }
            }
            i += 1;
        }
        proof {
            assert(full.skip(table@.len() as int).len() == 0);
        }
        Ok(None)
    }

    /// Resolves a specifier against the ordered `resolveId` hooks:
    /// first-match-wins, honouring the call chain's skip set; empty from
    /// every plugin means "fall back to default resolution".
    pub fn resolve_id(
        &self,
        args: &HookResolveIdArgs,
        skipped_resolve_calls: Option<&Vec<HookResolveIdSkipped>>,
    ) -> (r: Result<Option<HookResolveIdOutput>, BuildError>)
        requires
            self.wf(),
        ensures
            res_view(r) == resolve_run(
                self.plugins@,
                hook_order_list(self.plugins@, HookKind::ResolveId),
                args.deep_view(),
                skip_calls_view(skipped_resolve_calls),
                skipped_plugins_spec(
                    skip_calls_view(skipped_resolve_calls),
                    args.specifier@,
                    args.importer.deep_view(),
                ),
                false,
            ),
    {
        self.run_resolve(args, skipped_resolve_calls, false)
    }

    /// Resolves a dynamic-import specifier against the ordered
    /// `resolveDynamicImport` hooks; kept separate from `resolve_id` for
    /// rollup compatibility.
    pub fn resolve_dynamic_import(
        &self,
        args: &HookResolveIdArgs,
        skipped_resolve_calls: Option<&Vec<HookResolveIdSkipped>>,
    ) -> (r: Result<Option<HookResolveIdOutput>, BuildError>)
        requires
            self.wf(),
        ensures
            res_view(r) == resolve_run(
                self.plugins@,
                hook_order_list(self.plugins@, HookKind::ResolveDynamicImport),
                args.deep_view(),
                skip_calls_view(skipped_resolve_calls),
                skipped_plugins_spec(
                    skip_calls_view(skipped_resolve_calls),
                    args.specifier@,
                    args.importer.deep_view(),
                ),
                true,
            ),
    {
        self.run_resolve(args, skipped_resolve_calls, true)
    }

    /// Asks the ordered `load` hooks for a module's source: first-match-wins;
    /// empty from every plugin means "use the default loader".
    pub fn load(&self, args: &HookLoadArgs) -> (r: Result<Option<HookLoadOutput>, BuildError>)
        requires
            self.wf(),
        ensures
            res_view(r) == load_run(
                self.plugins@,
                hook_order_list(self.plugins@, HookKind::Load),
                args.deep_view(),
            ),
    {
        let table = &self.order_by_load_meta;
        let ghost full = hook_order_list(self.plugins@, HookKind::Load);
        let ghost argsv = args.deep_view();
        proof {
            lemma_hook_order_list_in_range(self.plugins@, HookKind::Load);
            assert(full.skip(0) =~= full);
        }
        let mut i: usize = 0;
        while i < table.len()
            invariant
                self.wf(),
                i <= table@.len(),
                table@.map_values(|u: usize| u as int) == full,
                full == hook_order_list(self.plugins@, HookKind::Load),
                argsv == args.deep_view(),
                forall|j: int|
                    0 <= j < full.len() ==> 0 <= #[trigger] full[j] < self.plugins@.len(),
                load_run(self.plugins@, full, argsv) == load_run(
                    self.plugins@,
                    full.skip(i as int),
                    argsv,
                ),
            decreases table@.len() - i,
        {
            let idx = table[i];
            proof {
                assert(full[i as int] == idx as int);
                assert(full.skip(i as int).len() > 0);
                assert(full.skip(i as int)[0] == full[i as int]);
                assert(full.skip(i as int).drop_first() =~= full.skip(i as int + 1));
            }
            let step = self.plugins[idx].call_load(args);
            let ghost stepv = self.plugins@[idx as int].load_spec(argsv);
            proof {
                assert(res_view(step) == stepv);
                match stepv {
                    Err(e) => {
                        assert(load_run(self.plugins@, full.skip(i as int), argsv) == Err::<
                            Option<LoadOutputData>,
                            Seq<char>,
                        >(e));
                    },
                    Ok(Some(r0)) => {
                        assert(load_run(self.plugins@, full.skip(i as int), argsv) == Ok::<
                            Option<LoadOutputData>,
                            Seq<char>,
                        >(Some(r0)));
                    },
                    Ok(None) => {
                        assert(load_run(self.plugins@, full.skip(i as int), argsv) == load_run(
                            self.plugins@,
                            full.skip(i as int + 1),
                            argsv,
                        ));
                    },
                }
            }
            match step {
                Err(e) => {
                    return Err(e);
                },
                Ok(Some(loaded)) => {
                    return Ok(Some(loaded));
                },
                Ok(None) => {},
            }
            i += 1;
        }
        proof {
            assert(full.skip(table@.len() as int).len() == 0);
        }
        Ok(None)
    }

    /// Broadcasts `buildStart` to every implementing plugin in order; the
    /// first failure aborts the remaining invocations and surfaces unchanged.
    pub fn build_start(&self, opts: &BundlerOptions) -> (r: Result<(), BuildError>)
        requires
            self.wf(),
        ensures
            res_unit_view(r) == broadcast_run(
                build_start_results(
                    self.plugins@,
                    hook_order_list(self.plugins@, HookKind::BuildStart),
                    *opts,
                ),
            ),
    {
        let table = &self.order_by_build_start_meta;
        let ghost full = hook_order_list(self.plugins@, HookKind::BuildStart);
        let ghost results = build_start_results(self.plugins@, full, *opts);
        proof {
            lemma_hook_order_list_in_range(self.plugins@, HookKind::BuildStart);
            assert(results.skip(0) =~= results);
        }
        let mut i: usize = 0;
        while i < table.len()
            invariant
                self.wf(),
                i <= table@.len(),
                table@.map_values(|u: usize| u as int) == full,
                full == hook_order_list(self.plugins@, HookKind::BuildStart),
                results == build_start_results(self.plugins@, full, *opts),
                forall|j: int|
                    0 <= j < full.len() ==> 0 <= #[trigger] full[j] < self.plugins@.len(),
                broadcast_run(results) == broadcast_run(results.skip(i as int)),
            decreases table@.len() - i,
        {
            let idx = table[i];
            proof {
                assert(full[i as int] == idx as int);
                assert(results.skip(i as int).len() > 0);
                assert(results.skip(i as int)[0] == results[i as int]);
                assert(results.skip(i as int).drop_first() =~= results.skip(i as int + 1));
            }
            let step = self.plugins[idx].call_build_start(opts);
            let ghost stepv = self.plugins@[idx as int].build_start_spec(*opts);
            proof {
                assert(res_unit_view(step) == stepv);
                assert(results[i as int] == stepv);
                match stepv {
                    Err(e) => {
                        assert(broadcast_run(results.skip(i as int)) == Err::<(), Seq<char>>(e));
                    },
                    Ok(_) => {
                        assert(broadcast_run(results.skip(i as int)) == broadcast_run(
                            results.skip(i as int + 1),
                        ));
                    },
                }
            }
            match step {
                Err(e) => {
                    return Err(e);
                },
                Ok(_) => {},
            }
            i += 1;
        }
        proof {
            assert(results.skip(table@.len() as int).len() == 0);
        }
        Ok(())
    }

    /// Broadcasts `moduleParsed` to every implementing plugin in order,
    /// failing fast.
    pub fn module_parsed(&self, module_info: &ModuleInfo) -> (r: Result<(), BuildError>)
        requires
            self.wf(),
        ensures
            res_unit_view(r) == broadcast_run(
                module_parsed_results(
                    self.plugins@,
                    hook_order_list(self.plugins@, HookKind::ModuleParsed),
                    module_info.deep_view(),
                ),
            ),
    {
        let table = &self.order_by_module_parsed_meta;
        let ghost full = hook_order_list(self.plugins@, HookKind::ModuleParsed);
        let ghost results = module_parsed_results(self.plugins@, full, module_info.deep_view());
        proof {
            lemma_hook_order_list_in_range(self.plugins@, HookKind::ModuleParsed);
            assert(results.skip(0) =~= results);
        }
        let mut i: usize = 0;
        while i < table.len()
            invariant
                self.wf(),
                i <= table@.len(),
                table@.map_values(|u: usize| u as int) == full,
                full == hook_order_list(self.plugins@, HookKind::ModuleParsed),
                results == module_parsed_results(self.plugins@, full, module_info.deep_view()),
                forall|j: int|
                    0 <= j < full.len() ==> 0 <= #[trigger] full[j] < self.plugins@.len(),
                broadcast_run(results) == broadcast_run(results.skip(i as int)),
            decreases table@.len() - i,
        {
            let idx = table[i];
            proof {
                assert(full[i as int] == idx as int);
                assert(results.skip(i as int).len() > 0);
                assert(results.skip(i as int)[0] == results[i as int]);
                assert(results.skip(i as int).drop_first() =~= results.skip(i as int + 1));
            }
            let step = self.plugins[idx].call_module_parsed(module_info);
            let ghost stepv = self.plugins@[idx as int].module_parsed_spec(
                module_info.deep_view(),
            );
            proof {
                assert(res_unit_view(step) == stepv);
                assert(results[i as int] == stepv);
                match stepv {
                    Err(e) => {
                        assert(broadcast_run(results.skip(i as int)) == Err::<(), Seq<char>>(e));
                    },
                    Ok(_) => {
                        assert(broadcast_run(results.skip(i as int)) == broadcast_run(
                            results.skip(i as int + 1),
                        ));
                    },
                }
            }
            match step {
                Err(e) => {
                    return Err(e);
                },
                Ok(_) => {},
            }
            i += 1;
        }
        proof {
            assert(results.skip(table@.len() as int).len() == 0);
        }
        Ok(())
    }

    /// Broadcasts `buildEnd` to every implementing plugin in order, failing
    /// fast; `args` carries the build failure that ended the build, if any.
    pub fn build_end(&self, args: Option<&HookBuildEndArgs>) -> (r: Result<(), BuildError>)
        requires
            self.wf(),
        ensures
            res_unit_view(r) == broadcast_run(
                build_end_results(
                    self.plugins@,
                    hook_order_list(self.plugins@, HookKind::BuildEnd),
                    args.deep_view(),
                ),
            ),
    {
        let table = &self.order_by_build_end_meta;
        let ghost full = hook_order_list(self.plugins@, HookKind::BuildEnd);
        let ghost results = build_end_results(self.plugins@, full, args.deep_view());
        proof {
            lemma_hook_order_list_in_range(self.plugins@, HookKind::BuildEnd);
            assert(results.skip(0) =~= results);
        }
        let mut i: usize = 0;
        while i < table.len()
            invariant
                self.wf(),
                i <= table@.len(),
                table@.map_values(|u: usize| u as int) == full,
                full == hook_order_list(self.plugins@, HookKind::BuildEnd),
                results == build_end_results(self.plugins@, full, args.deep_view()),
                forall|j: int|
                    0 <= j < full.len() ==> 0 <= #[trigger] full[j] < self.plugins@.len(),
                broadcast_run(results) == broadcast_run(results.skip(i as int)),
            decreases table@.len() - i,
        {
            let idx = table[i];
            proof {
                assert(full[i as int] == idx as int);
                assert(results.skip(i as int).len() > 0);
                assert(results.skip(i as int)[0] == results[i as int]);
                assert(results.skip(i as int).drop_first() =~= results.skip(i as int + 1));
            }
            let step = self.plugins[idx].call_build_end(args);
            let ghost stepv = self.plugins@[idx as int].build_end_spec(args.deep_view());
            proof {
                assert(res_unit_view(step) == stepv);
                assert(results[i as int] == stepv);
                match stepv {
                    Err(e) => {
                        assert(broadcast_run(results.skip(i as int)) == Err::<(), Seq<char>>(e));
                    },
                    Ok(_) => {
                        assert(broadcast_run(results.skip(i as int)) == broadcast_run(
                            results.skip(i as int + 1),
                        ));
                    },
                }
            }
            match step {
                Err(e) => {
                    return Err(e);
                },
                Ok(_) => {},
            }
            i += 1;
        }
        proof {
            assert(results.skip(table@.len() as int).len() == 0);
        }
        Ok(())
    }

    /// Runs the cumulative `transform` chain for one module: every
    /// implementing plugin runs in order over the previous plugin's output;
    /// each answering step's map entry is normalized and appended to the
    /// threaded chain; supplied fields overwrite the threaded state, absent
    /// fields leave it unchanged. A failure stops the chain at once and
    /// leaves the state the failing plugin saw.
    pub fn transform(
        &self,
        id: &String,
        original_code: String,
        sourcemap_chain: &mut Vec<SourceMap>,
        side_effects: &mut Option<HookSideEffects>,
        module_type: &mut ModuleType,
    ) -> (r: Result<String, BuildError>)
        requires
            self.wf(),
        ensures
            ({
                let run = transform_run(
                    self.plugins@,
                    hook_order_list(self.plugins@, HookKind::Transform),
                    id@,
                    TransformStateData {
                        code: original_code@,
                        chain: old(sourcemap_chain).deep_view(),
                        side_effects: *old(side_effects),
                        module_type: *old(module_type),
                    },
                );
                &&& final(sourcemap_chain).deep_view() == run.0.chain
                &&& *final(side_effects) == run.0.side_effects
                &&& *final(module_type) == run.0.module_type
                &&& (match run.1 {
                    None => r matches Ok(c) && c@ == run.0.code,
                    Some(e) => r matches Err(err) && err.deep_view() == e,
                })
            }),
    {
        let mut code = original_code;
        let table = &self.order_by_transform_meta;
        let ghost full = hook_order_list(self.plugins@, HookKind::Transform);
        let ghost init = TransformStateData {
            code: code@,
            chain: (*sourcemap_chain).deep_view(),
            side_effects: *side_effects,
            module_type: *module_type,
        };
        proof {
            lemma_hook_order_list_in_range(self.plugins@, HookKind::Transform);
            assert(full.skip(0) =~= full);
        }
        let mut i: usize = 0;
        while i < table.len()
            invariant
                self.wf(),
                i <= table@.len(),
                table@.map_values(|u: usize| u as int) == full,
                full == hook_order_list(self.plugins@, HookKind::Transform),
                init == (TransformStateData {
                    code: original_code@,
                    chain: old(sourcemap_chain).deep_view(),
                    side_effects: *old(side_effects),
                    module_type: *old(module_type),
                }),
                forall|j: int|
                    0 <= j < full.len() ==> 0 <= #[trigger] full[j] < self.plugins@.len(),
                transform_run(self.plugins@, full, id@, init) == transform_run(
                    self.plugins@,
                    full.skip(i as int),
                    id@,
                    TransformStateData {
                        code: code@,
                        chain: (*sourcemap_chain).deep_view(),
                        side_effects: *side_effects,
                        module_type: *module_type,
                    },
                ),
            decreases table@.len() - i,
        {
            let idx = table[i];
            let ghost st = TransformStateData {
                code: code@,
                chain: (*sourcemap_chain).deep_view(),
                side_effects: *side_effects,
                module_type: *module_type,
            };
            proof {
                assert(full[i as int] == idx as int);
                assert(full.skip(i as int).len() > 0);
                assert(full.skip(i as int)[0] == full[i as int]);
                assert(full.skip(i as int).drop_first() =~= full.skip(i as int + 1));
            }
            let step = self.plugins[idx].call_transform(
                id,
                &code,
                &*module_type,
                &*sourcemap_chain,
            );
            let ghost stepv = self.plugins@[idx as int].transform_spec(
                id@,
                st.code,
                st.module_type,
                st.chain,
            );
            proof {
                assert(res_view(step) == stepv);
            }
            match step {
                Err(e) => {
                    proof {
                        assert(transform_run(self.plugins@, full.skip(i as int), id@, st) == (
                            st,
                            Some(e.deep_view()),
                        ));
                    }
                    return Err(e);
                },
                Ok(None) => {
                    proof {
                        assert(transform_run(self.plugins@, full.skip(i as int), id@, st)
                            == transform_run(self.plugins@, full.skip(i as int + 1), id@, st));
                    }
                },
                Ok(Some(out)) => {
                    let ghost outv = out.deep_view();
                    let HookTransformOutput {
                        code: out_code,
                        map: out_map,
                        side_effects: out_side_effects,
                        module_type: out_module_type,
                    } = out;
                    let out_code_ref = out_code.as_ref();
                    proof {
                        assert(out_code_ref.deep_view() =~= outv.code);
                        assert(out_map.deep_view() == outv.map);
                    }
                    let appended = normalize_transform_sourcemap(out_map, id, &code, out_code_ref);
                    let ghost chain_before = (*sourcemap_chain).deep_view();
                    match appended {
                        Some(m) => {
                            sourcemap_chain.push(m);
                            proof {
                                assert((*sourcemap_chain).deep_view() =~= chain_before.push(
                                    m.deep_view(),
                                ));
                            }
                        },
                        None => {},
                    }
                    match out_side_effects {
                        Some(v) => {
                            *side_effects = Some(v);
                        },
                        None => {},
                    }
                    match out_code {
                        Some(v) => {
                            code = v;
                        },
                        None => {},
                    }
                    match out_module_type {
                        Some(t) => {
                            *module_type = t;
                        },
                        None => {},
                    }
                    proof {
                        let st2 = transform_step_state(st, outv, id@);
                        assert((TransformStateData {
                            code: code@,
                            chain: (*sourcemap_chain).deep_view(),
                            side_effects: *side_effects,
                            module_type: *module_type,
                        }) == st2);
                        assert(transform_run(self.plugins@, full.skip(i as int), id@, st)
                            == transform_run(self.plugins@, full.skip(i as int + 1), id@, st2));
                    }
                },
            }
            i += 1;
        }
        proof {
            assert(full.skip(table@.len() as int).len() == 0);
        }
        Ok(code)
    }

    /// Runs the cumulative `transformAst` chain for one module: each
    /// implementing plugin receives the threaded AST handle and must return
    /// it, possibly mutated; a failure stops the chain at once.
    #[verifier::loop_isolation(false)]
    pub fn transform_ast(&self, args: HookTransformAstArgs<P::Ast>) -> (r: Result<
        P::Ast,
        BuildError,
    >)
        requires
            self.wf(),
        ensures
            res_thread_view(r) == transform_ast_run(
                self.plugins@,
                hook_order_list(self.plugins@, HookKind::TransformAst),
                args.cwd@,
                args.id@,
                args.is_user_defined_entry,
                args.ast,
            ),
    {
        let HookTransformAstArgs { cwd, id, is_user_defined_entry, ast } = args;
        let ghost init_ast = ast;
        let mut current_ast = ast;
        let table = &self.order_by_transform_ast_meta;
        let ghost full = hook_order_list(self.plugins@, HookKind::TransformAst);
        proof {
            lemma_hook_order_list_in_range(self.plugins@, HookKind::TransformAst);
            assert(full.skip(0) =~= full);
        }
        let mut i: usize = 0;
        while i < table.len()
            invariant
                self.wf(),
                i <= table@.len(),
                table@.map_values(|u: usize| u as int) == full,
                full == hook_order_list(self.plugins@, HookKind::TransformAst),
                forall|j: int|
                    0 <= j < full.len() ==> 0 <= #[trigger] full[j] < self.plugins@.len(),
                transform_ast_run(
                    self.plugins@,
                    full,
                    cwd@,
                    id@,
                    is_user_defined_entry,
                    init_ast,
                ) == transform_ast_run(
                    self.plugins@,
                    full.skip(i as int),
                    cwd@,
                    id@,
                    is_user_defined_entry,
                    current_ast,
                ),
            decreases table@.len() - i,
        {
            let idx = table[i];
            proof {
                assert(full[i as int] == idx as int);
                assert(full.skip(i as int).len() > 0);
                assert(full.skip(i as int)[0] == full[i as int]);
                assert(full.skip(i as int).drop_first() =~= full.skip(i as int + 1));
            }
            let ghost ast_before = current_ast;
            let step = self.plugins[idx].call_transform_ast(
                &cwd,
                &id,
                is_user_defined_entry,
                current_ast,
            );
            let ghost stepv = self.plugins@[idx as int].transform_ast_spec(
                cwd@,
                id@,
                is_user_defined_entry,
                ast_before,
            );
            proof {
                assert(res_thread_view(step) == stepv);
            }
            match step {
                Err(e) => {
                    proof {
                        assert(transform_ast_run(
                            self.plugins@,
                            full.skip(i as int),
                            cwd@,
                            id@,
                            is_user_defined_entry,
                            ast_before,
                        ) == Err::<P::Ast, Seq<char>>(e.deep_view()));
                    }
                    return Err(e);
                },
                Ok(next) => {
                    proof {
                        assert(transform_ast_run(
                            self.plugins@,
                            full.skip(i as int),
                            cwd@,
                            id@,
                            is_user_defined_entry,
                            ast_before,
                        ) == transform_ast_run(
                            self.plugins@,
                            full.skip(i as int + 1),
                            cwd@,
                            id@,
                            is_user_defined_entry,
                            next,
                        ));
                    }
                    current_ast = next;
                },
            }
            i += 1;
        }
        proof {
            assert(full.skip(table@.len() as int).len() == 0);
        }
        Ok(current_ast)
    }
}

} // verus!
