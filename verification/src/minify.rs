//! The final whole-asset rewrite stage: when minification is enabled, every
//! scripting asset's content is replaced by the minifier's output and its
//! accumulated source map is composed with the minifier's new map.
use vstd::prelude::*;

use crate::plugin::{MapComposer, Minifier};
use crate::types::{
    Asset, AssetData, BuildError, BundlerOptions, InstantiationKind, MinifyOptions,
    MinifyOptionsValue, SourceMap, SourceMapData, res_view,
};

verus! {

/// Drives asset generation; this core only holds its minify stage.
pub struct GenerateStage<M: Minifier, C: MapComposer> {
    pub options: BundlerOptions,
    pub minifier: M,
    pub composer: C,
}

impl<M: Minifier, C: MapComposer> GenerateStage<M, C> {
    /// The declared rewrite of one scripting asset whose minification
    /// succeeded with `code2` and `map2`: content is replaced
    /// unconditionally; the map becomes the collapse of [old map, new map]
    /// when both exist, and is otherwise left as it was.
    pub open spec fn minified_asset(
        self,
        a: AssetData,
        code2: Seq<char>,
        map2: Option<SourceMapData>,
    ) -> AssetData {
        AssetData {
            filename: a.filename,
            content: code2,
            map: match (a.map, map2) {
                (Some(origin_map), Some(new_map)) => Some(
                    self.composer.collapse_spec(seq![origin_map, new_map]),
                ),
                _ => a.map,
            },
            kind: a.kind,
        }
    }

    /// Sequential fail-fast pass over the assets: scripting assets are
    /// rewritten in order until the first minifier failure, which leaves the
    /// failing asset and everything after it untouched; non-scripting assets
    /// pass through untouched.
    pub open spec fn minify_run(self, assets: Seq<AssetData>, opts: MinifyOptionsValue) -> (
        Seq<AssetData>,
        Option<Seq<char>>,
    )
        decreases assets.len(),
    {
        if assets.len() == 0 {
            (assets, None)
        } else {
            let a = assets[0];
            if a.kind == InstantiationKind::Ecma {
                match self.minifier.minify_spec(a.content, a.map is Some, a.filename, opts) {
                    Err(e) => (assets, Some(e)),
                    Ok(pair) => {
                        let rest = self.minify_run(assets.drop_first(), opts);
                        (seq![self.minified_asset(a, pair.0, pair.1)] + rest.0, rest.1)
                    },
                }
            } else {
                let rest = self.minify_run(assets.drop_first(), opts);
                (seq![a] + rest.0, rest.1)
            }
        }
    }

    /// Minifies every scripting asset in place when minification is enabled;
    /// non-scripting assets are passed through untouched. A single minifier
    /// failure aborts the stage, leaving later assets untouched, and
    /// surfaces that asset's error.
    #[verifier::loop_isolation(false)]
    pub fn minify_assets(&self, assets: &mut Vec<Asset>) -> (r: Result<(), BuildError>)
        ensures
            ({
                match self.options.minify {
                    MinifyOptions::Disabled => {
                        &&& final(assets)@ == old(assets)@
                        &&& r matches Ok(_)
                    },
                    MinifyOptions::Enabled(opts) => {
                        let run = self.minify_run(old(assets).deep_view(), opts);
                        &&& final(assets).deep_view() == run.0
                        &&& (match run.1 {
                            None => r matches Ok(_),
                            Some(e) => r matches Err(err) && err.deep_view() == e,
                        })
                    },
                }
            }),
    {
        let opts: MinifyOptionsValue = match self.options.minify {
            MinifyOptions::Disabled => {
                return Ok(());
            },
            MinifyOptions::Enabled(opts) => opts,
        };
        let ghost init = old(assets).deep_view();
        let mut i: usize = 0;
        proof {
            assert(init.skip(0) =~= init);
            assert((*assets).deep_view().take(0) =~= Seq::<AssetData>::empty());
        }
        while i < assets.len()
            invariant
                i <= assets@.len(),
                assets@.len() == init.len(),
                (*assets).deep_view().skip(i as int) =~= init.skip(i as int),
                self.minify_run(init, opts) == (
                    (*assets).deep_view().take(i as int) + self.minify_run(
                        init.skip(i as int),
                        opts,
                    ).0,
                    self.minify_run(init.skip(i as int), opts).1,
                ),
            decreases assets@.len() - i,
        {
            let ghost assets_before = (*assets).deep_view();
            let ghost a = init.skip(i as int)[0];
            proof {
                assert(init.skip(i as int).len() > 0);
                assert(init.skip(i as int).drop_first() =~= init.skip(i as int + 1));
                assert(assets_before[i as int] == init.skip(i as int)[0]);
            }
            let asset = assets.remove(i);
            proof {
                assert(asset.deep_view() == a);
            }
            match asset.kind {
                InstantiationKind::Ecma => {
                    let step = self.minifier.minify(
                        &asset.content,
                        asset.map.is_some(),
                        &asset.filename,
                        opts,
                    );
                    let ghost stepv = self.minifier.minify_spec(
                        a.content,
                        a.map is Some,
                        a.filename,
                        opts,
                    );
                    proof {
                        assert(res_view(step) == stepv);
                    }
                    match step {
                        Err(e) => {
                            assets.insert(i, asset);
                            proof {
                                assert((*assets).deep_view() =~= assets_before);
                                assert(self.minify_run(init.skip(i as int), opts) == (
                                    init.skip(i as int),
                                    Some(e.deep_view()),
                                ));
                                assert((*assets).deep_view() =~= assets_before.take(i as int)
                                    + init.skip(i as int));
                            }
                            return Err(e);
                        },
                        Ok((minified_content, new_map)) => {
                            let ghost pairv = (minified_content@, new_map.deep_view());
                            let Asset { filename, content: _, map, kind } = asset;
                            let composed_map: Option<SourceMap> = match (map, new_map) {
                                (Some(origin_map), Some(new_map)) => {
                                    let ghost mapsv = seq![
                                        origin_map.deep_view(),
                                        new_map.deep_view(),
                                    ];
                                    let maps_vec = vec![origin_map, new_map];
                                    proof {
                                        assert(maps_vec.deep_view() =~= mapsv);
                                    }
                                    let collapsed = self.composer.collapse(maps_vec);
                                    proof {
                                        assert(collapsed.deep_view()
                                            == self.composer.collapse_spec(mapsv));
                                    }
                                    Some(collapsed)
                                },
                                (existing, _) => existing,
                            };
                            let new_asset = Asset {
                                filename,
                                content: minified_content,
                                map: composed_map,
                                kind,
                            };
                            proof {
                                assert(new_asset.deep_view() == self.minified_asset(
                                    a,
                                    pairv.0,
                                    pairv.1,
                                ));
                            }
                            assets.insert(i, new_asset);
                            proof {
                                assert((*assets).deep_view() =~= assets_before.update(
                                    i as int,
                                    new_asset.deep_view(),
                                ));
                                assert((*assets).deep_view().take(i as int + 1)
                                    =~= assets_before.take(i as int).push(
                                    new_asset.deep_view(),
                                ));
                                assert((*assets).deep_view().skip(i as int + 1) =~= init.skip(
                                    i as int + 1,
                                ));
                                assert(self.minify_run(init.skip(i as int), opts) == (
                                    seq![self.minified_asset(a, pairv.0, pairv.1)]
                                        + self.minify_run(init.skip(i as int + 1), opts).0,
                                    self.minify_run(init.skip(i as int + 1), opts).1,
                                ));
                                assert((*assets).deep_view().take(i as int + 1) + self.minify_run(
                                    init.skip(i as int + 1),
                                    opts,
                                ).0 =~= assets_before.take(i as int) + self.minify_run(
                                    init.skip(i as int),
                                    opts,
                                ).0);
                            }
                        },
                    }
                },
                InstantiationKind::Css | InstantiationKind::Plain => {
                    assets.insert(i, asset);
                    proof {
                        assert((*assets).deep_view() =~= assets_before);
                        assert(self.minify_run(init.skip(i as int), opts) == (
                            seq![a] + self.minify_run(init.skip(i as int + 1), opts).0,
                            self.minify_run(init.skip(i as int + 1), opts).1,
                        ));
                        assert((*assets).deep_view().take(i as int + 1) =~= assets_before.take(
                            i as int,
                        ).push(a));
                        assert((*assets).deep_view().take(i as int + 1) + self.minify_run(
                            init.skip(i as int + 1),
                            opts,
                        ).0 =~= assets_before.take(i as int) + self.minify_run(
                            init.skip(i as int),
                            opts,
                        ).0);
                    }
                },
            }
            i += 1;
        }
        proof {
            assert(init.skip(assets@.len() as int).len() == 0);
            assert((*assets).deep_view().take(i as int) =~= (*assets).deep_view());
        }
        Ok(())
    }
}

} // verus!
