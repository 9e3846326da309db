//! The library's stated laws, proved against the dispatch and normalization
//! specs that the public functions' contracts are written over.
use vstd::prelude::*;

use crate::driver::{
    broadcast_run, resolve_run, resolver_spec, skipped_plugins_spec, skipped_plugins_upto,
    transform_run, transform_step_state, TransformStateData,
};
use crate::minify::GenerateStage;
use crate::plugin::{MapComposer, Minifier, Plugin};
use crate::sourcemap::{normalize_transform_sourcemap_spec, SYNTHETIC_SOURCE_LIMIT};
use crate::types::{
    AssetData, InstantiationKind, MinifyOptionsValue, ModuleType, ResolveArgsData,
    ResolvedIdData, SkipData, SourceMapData, TransformOutputData,
};

verus! {

/// Resolution is first-match-wins: if every plugin before position `j` of
/// the order table is either skipped or answers empty, and the plugin at
/// `j` is not skipped and answers `r`, the resolution call returns exactly
/// `r` — the plugins after `j` play no part in the outcome.
pub proof fn lemma_resolution_first_match_wins<P: Plugin>(
    plugins: Seq<P>,
    order: Seq<int>,
    args: ResolveArgsData,
    skipped: Seq<SkipData>,
    skips: Seq<int>,
    dynamic: bool,
    j: int,
    r: ResolvedIdData,
)
    requires
        0 <= j < order.len(),
        forall|k: int|
            0 <= k < j ==> skips.contains(#[trigger] order[k]) || resolver_spec(
                plugins[order[k]],
                dynamic,
                args,
                skipped,
            ) == Ok::<Option<ResolvedIdData>, Seq<char>>(None),
        !skips.contains(order[j]),
        resolver_spec(plugins[order[j]], dynamic, args, skipped) == Ok::<
            Option<ResolvedIdData>,
            Seq<char>,
        >(Some(r)),
    ensures
        resolve_run(plugins, order, args, skipped, skips, dynamic) == Ok::<
            Option<ResolvedIdData>,
            Seq<char>,
        >(Some(r)),
    decreases j,
{
    if j > 0 {
        let rest = order.drop_first();
        assert forall|k: int| 0 <= k < j - 1 implies skips.contains(#[trigger] rest[k])
            || resolver_spec(plugins[rest[k]], dynamic, args, skipped) == Ok::<
            Option<ResolvedIdData>,
            Seq<char>,
        >(None) by {
            assert(rest[k] == order[k + 1]);
        }
        assert(rest[j - 1] == order[j]);
        lemma_resolution_first_match_wins(plugins, rest, args, skipped, skips, dynamic, j - 1, r);
    }
}

/// A skipped plugin is never consulted: two plugin registries that agree on
/// every index outside the skip set give the resolution call the same
/// outcome — what a skipped plugin would have answered is irrelevant.
pub proof fn lemma_skip_set_exclusion<P: Plugin>(
    plugins1: Seq<P>,
    plugins2: Seq<P>,
    order: Seq<int>,
    args: ResolveArgsData,
    skipped: Seq<SkipData>,
    skips: Seq<int>,
    dynamic: bool,
)
    requires
        plugins1.len() == plugins2.len(),
        forall|k: int| 0 <= k < order.len() ==> 0 <= #[trigger] order[k] < plugins1.len(),
        forall|idx: int|
            0 <= idx < plugins1.len() && !skips.contains(idx) ==> #[trigger] plugins1[idx]
                == plugins2[idx],
    ensures
        resolve_run(plugins1, order, args, skipped, skips, dynamic) == resolve_run(
            plugins2,
            order,
            args,
            skipped,
            skips,
            dynamic,
        ),
    decreases order.len(),
{
    if order.len() > 0 {
        let rest = order.drop_first();
        assert forall|k: int| 0 <= k < rest.len() implies 0 <= #[trigger] rest[k]
            < plugins1.len() by {
            assert(rest[k] == order[k + 1]);
        }
        lemma_skip_set_exclusion(plugins1, plugins2, rest, args, skipped, skips, dynamic);
    }
}

/// The skip list computed for (specifier, importer) from the first `n` skip
/// entries holds exactly the plugin indices of the matching entries.
pub proof fn lemma_skipped_plugins_upto_characterization(
    skipped: Seq<SkipData>,
    specifier: Seq<char>,
    importer: Option<Seq<char>>,
    n: int,
)
    requires
        n <= skipped.len(),
    ensures
        forall|idx: int|
            skipped_plugins_upto(skipped, specifier, importer, n).contains(idx) <==> exists|j: int|
                0 <= j < n && (#[trigger] skipped[j]).specifier == specifier && skipped[j].importer
                    == importer && skipped[j].plugin_idx == idx,
    decreases n,
{
    if n > 0 {
        lemma_skipped_plugins_upto_characterization(skipped, specifier, importer, n - 1);
        let prefix = skipped_plugins_upto(skipped, specifier, importer, n - 1);
        let whole = skipped_plugins_upto(skipped, specifier, importer, n);
        assert forall|idx: int| whole.contains(idx) implies exists|j: int|
            0 <= j < n && (#[trigger] skipped[j]).specifier == specifier && skipped[j].importer
                == importer && skipped[j].plugin_idx == idx by {
            if skipped[n - 1].specifier == specifier && skipped[n - 1].importer == importer {
                let w = choose|w: int| 0 <= w < whole.len() && whole[w] == idx;
                if w < prefix.len() {
                    assert(prefix.contains(idx));
                } else {
                    assert(skipped[n - 1].plugin_idx == idx);
                }
            } else {
                assert(prefix.contains(idx));
            }
        }
        assert forall|idx: int|
            (exists|j: int|
                0 <= j < n && (#[trigger] skipped[j]).specifier == specifier && skipped[j].importer
                    == importer && skipped[j].plugin_idx == idx) implies whole.contains(idx) by {
            let j = choose|j: int|
                0 <= j < n && (#[trigger] skipped[j]).specifier == specifier && skipped[j].importer
                    == importer && skipped[j].plugin_idx == idx;
            if j < n - 1 {
                assert(prefix.contains(idx));
                let w = choose|w: int| 0 <= w < prefix.len() && prefix[w] == idx;
                assert(whole[w] == idx);
            } else {
                assert(whole[whole.len() - 1] == idx);
            }
        }
    }
}

/// The full skip list holds exactly the plugin indices of the entries that
/// match (specifier, importer), wherever they stand in the skip set.
pub proof fn lemma_skipped_plugins_characterization(
    skipped: Seq<SkipData>,
    specifier: Seq<char>,
    importer: Option<Seq<char>>,
)
    ensures
        forall|idx: int|
            skipped_plugins_spec(skipped, specifier, importer).contains(idx) <==> exists|j: int|
                0 <= j < skipped.len() && (#[trigger] skipped[j]).specifier == specifier
                    && skipped[j].importer == importer && skipped[j].plugin_idx == idx,
{
    lemma_skipped_plugins_upto_characterization(
        skipped,
        specifier,
        importer,
        skipped.len() as int,
    );
}

/// The code left after appending one marker per step, in order.
pub open spec fn appended_markers(code: Seq<char>, markers: Seq<Seq<char>>) -> Seq<char>
    decreases markers.len(),
{
    if markers.len() == 0 {
        code
    } else {
        appended_markers(code + markers[0], markers.drop_first())
    }
}

/// Transform is cumulative: if the plugin at each order position `k` always
/// answers exactly the current code with `markers[k]` appended — and touches
/// nothing else — the chain never fails and its final code is the starting
/// code with every marker appended in table order.
pub proof fn lemma_transform_cumulativity<P: Plugin>(
    plugins: Seq<P>,
    order: Seq<int>,
    id: Seq<char>,
    st: TransformStateData,
    markers: Seq<Seq<char>>,
)
    requires
        markers.len() == order.len(),
        forall|k: int, c: Seq<char>, mt: ModuleType, ch: Seq<SourceMapData>|
            0 <= k < order.len() ==> #[trigger] plugins[order[k]].transform_spec(id, c, mt, ch)
                == Ok::<Option<TransformOutputData>, Seq<char>>(
                Some(
                    TransformOutputData {
                        code: Some(c + markers[k]),
                        map: None,
                        side_effects: None,
                        module_type: None,
                    },
                ),
            ),
    ensures
        transform_run(plugins, order, id, st).1 is None,
        transform_run(plugins, order, id, st).0.code == appended_markers(st.code, markers),
    decreases order.len(),
{
    if order.len() > 0 {
        let out = TransformOutputData {
            code: Some(st.code + markers[0]),
            map: None,
            side_effects: None,
            module_type: None,
        };
        let st2 = transform_step_state(st, out, id);
        assert(st2.code == st.code + markers[0]);
        let rest = order.drop_first();
        let rest_markers = markers.drop_first();
        assert forall|k: int, c: Seq<char>, mt: ModuleType, ch: Seq<SourceMapData>|
            0 <= k < rest.len() implies #[trigger] plugins[rest[k]].transform_spec(id, c, mt, ch)
            == Ok::<Option<TransformOutputData>, Seq<char>>(
            Some(
                TransformOutputData {
                    code: Some(c + rest_markers[k]),
                    map: None,
                    side_effects: None,
                    module_type: None,
                },
            ),
        ) by {
            assert(rest[k] == order[k + 1]);
            assert(rest_markers[k] == markers[k + 1]);
        }
        lemma_transform_cumulativity(plugins, rest, id, st2, rest_markers);
    }
}

/// A broadcast fails fast: if every hook before position `j` succeeded and
/// the hook at `j` failed with `e`, the broadcast surfaces exactly `e` —
/// whatever the hooks after `j` would have done.
pub proof fn lemma_broadcast_fail_fast(results: Seq<Result<(), Seq<char>>>, j: int, e: Seq<char>)
    requires
        0 <= j < results.len(),
        forall|k: int| 0 <= k < j ==> #[trigger] results[k] is Ok,
        results[j] == Err::<(), Seq<char>>(e),
    ensures
        broadcast_run(results) == Err::<(), Seq<char>>(e),
    decreases j,
{
    if j > 0 {
        let rest = results.drop_first();
        assert forall|k: int| 0 <= k < j - 1 implies #[trigger] rest[k] is Ok by {
            assert(rest[k] == results[k + 1]);
        }
        assert(rest[j - 1] == results[j]);
        lemma_broadcast_fail_fast(rest, j - 1, e);
    }
}

/// A broadcast with no failing hook succeeds.
pub proof fn lemma_broadcast_all_ok(results: Seq<Result<(), Seq<char>>>)
    requires
        forall|k: int| 0 <= k < results.len() ==> #[trigger] results[k] is Ok,
    ensures
        broadcast_run(results) == Ok::<(), Seq<char>>(()),
    decreases results.len(),
{
    if results.len() > 0 {
        let rest = results.drop_first();
        assert forall|k: int| 0 <= k < rest.len() implies #[trigger] rest[k] is Ok by {
            assert(rest[k] == results[k + 1]);
        }
        lemma_broadcast_all_ok(rest);
    }
}

/// Fill-on-missing-source: a plugin map that carries neither sources nor
/// source contents comes back with the module id as its only source and the
/// original code as its only content, its mappings untouched.
pub proof fn lemma_normalize_fills_missing_source(
    m: SourceMapData,
    id: Seq<char>,
    original_code: Seq<char>,
    code: Option<Seq<char>>,
)
    requires
        m.sources.len() == 0,
        m.sources_content.len() == 0,
    ensures
        normalize_transform_sourcemap_spec(Some(m), id, original_code, code) == Some(
            SourceMapData {
                sources: seq![id],
                sources_content: seq![Some(original_code)],
                mappings: m.mappings,
            },
        ),
{
}

/// Synthetic identity map: a step that changed code without supplying a map
/// gets a non-empty map entry whose source is the module id and whose
/// content is the original code. The original text must lie below the
/// synthesizer's size limit; beyond it nothing is appended.
pub proof fn lemma_normalize_synthesizes_identity_map(
    id: Seq<char>,
    original_code: Seq<char>,
    code: Seq<char>,
)
    requires
        code != original_code,
        original_code.len() < SYNTHETIC_SOURCE_LIMIT as nat,
    ensures
        normalize_transform_sourcemap_spec(None, id, original_code, Some(code)) matches Some(r)
            && r.sources == seq![id] && r.sources_content == seq![Some(original_code)],
{
}

/// No-op: a step that supplied no map and did not change the code appends
/// nothing to the chain.
pub proof fn lemma_normalize_no_op(id: Seq<char>, original_code: Seq<char>)
    ensures
        normalize_transform_sourcemap_spec(None, id, original_code, Some(original_code))
            is None,
        normalize_transform_sourcemap_spec(None, id, original_code, None) is None,
{
}

impl<M: Minifier, C: MapComposer> GenerateStage<M, C> {
    /// Minify scoping: whatever the minifier does — succeed everywhere or
    /// fail partway — the pass keeps the asset count and leaves every
    /// non-scripting asset byte-identical to its input.
    pub proof fn lemma_minify_scoping(self, assets: Seq<AssetData>, opts: MinifyOptionsValue)
        ensures
            self.minify_run(assets, opts).0.len() == assets.len(),
            forall|k: int|
                0 <= k < assets.len() && assets[k].kind != InstantiationKind::Ecma
                    ==> #[trigger] self.minify_run(assets, opts).0[k] == assets[k],
        decreases assets.len(),
    {
        if assets.len() > 0 {
            let rest = assets.drop_first();
            self.lemma_minify_scoping(rest, opts);
            assert forall|k: int| 1 <= k < assets.len() implies assets[k] == rest[k - 1] by {}
        }
    }

    /// Minify map composition: a scripting asset that already carried a map,
    /// and for which the minifier produces content and a map, ends with
    /// exactly the collapse of [original map, minifier map] and with the
    /// minifier's content — provided every scripting asset before it
    /// minifies successfully (the stage is fail-fast, so an earlier failure
    /// would leave this asset untouched). Assets after it play no part.
    pub proof fn lemma_minify_map_composition(
        self,
        assets: Seq<AssetData>,
        opts: MinifyOptionsValue,
        k: int,
        origin_map: SourceMapData,
        minified_content: Seq<char>,
        new_map: SourceMapData,
    )
        requires
            0 <= k < assets.len(),
            forall|j: int|
                0 <= j < k && (#[trigger] assets[j]).kind == InstantiationKind::Ecma
                    ==> self.minifier.minify_spec(
                    assets[j].content,
                    assets[j].map is Some,
                    assets[j].filename,
                    opts,
                ) is Ok,
            assets[k].kind == InstantiationKind::Ecma,
            assets[k].map == Some(origin_map),
            self.minifier.minify_spec(
                assets[k].content,
                assets[k].map is Some,
                assets[k].filename,
                opts,
            ) == Ok::<(Seq<char>, Option<SourceMapData>), Seq<char>>(
                (minified_content, Some(new_map)),
            ),
        ensures
            self.minify_run(assets, opts).0[k].content == minified_content,
            self.minify_run(assets, opts).0[k].map == Some(
                self.composer.collapse_spec(seq![origin_map, new_map]),
            ),
        decreases k,
    {
        if k == 0 {
            assert(self.minify_run(assets, opts).0[0] == self.minified_asset(
                assets[0],
                minified_content,
                Some(new_map),
            ));
        } else {
            let rest = assets.drop_first();
            self.lemma_minify_scoping(rest, opts);
            assert forall|j: int|
                0 <= j < k - 1 && (#[trigger] rest[j]).kind == InstantiationKind::Ecma
                implies self.minifier.minify_spec(
                rest[j].content,
                rest[j].map is Some,
                rest[j].filename,
                opts,
            ) is Ok by {
                assert(rest[j] == assets[j + 1]);
            }
            assert(rest[k - 1] == assets[k]);
            self.lemma_minify_map_composition(
                rest,
                opts,
                k - 1,
                origin_map,
                minified_content,
                new_map,
            );
            assert(self.minify_run(assets, opts).0[k] == self.minify_run(rest, opts).0[k - 1]);
        }
    }

    /// Minify scoping and map composition, pointwise: a pass with no failure
    /// leaves every non-scripting asset byte-identical to its input, and
    /// rewrites every scripting asset to exactly `minified_asset` of what
    /// the minifier declared for it.
    pub proof fn lemma_minify_pointwise(
        self,
        assets: Seq<AssetData>,
        opts: MinifyOptionsValue,
    )
        requires
            self.minify_run(assets, opts).1 is None,
        ensures
            self.minify_run(assets, opts).0.len() == assets.len(),
            forall|k: int|
                0 <= k < assets.len() && assets[k].kind != InstantiationKind::Ecma
                    ==> #[trigger] self.minify_run(assets, opts).0[k] == assets[k],
            forall|k: int|
                0 <= k < assets.len() && assets[k].kind == InstantiationKind::Ecma ==> (
                self.minifier.minify_spec(
                    assets[k].content,
                    assets[k].map is Some,
                    assets[k].filename,
                    opts,
                ) matches Ok(pair) && #[trigger] self.minify_run(assets, opts).0[k]
                    == self.minified_asset(assets[k], pair.0, pair.1)),
        decreases assets.len(),
    {
        if assets.len() > 0 {
            let rest = assets.drop_first();
            self.lemma_minify_pointwise(rest, opts);
            assert forall|k: int| 1 <= k < assets.len() implies assets[k] == rest[k - 1] by {}
        }
    }

}

} // verus!
