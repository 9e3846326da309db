use std::cell::RefCell;
use std::rc::Rc;

use bundler_core::driver::{HookTransformAstArgs, PluginDriver};
use bundler_core::minify::GenerateStage;
use bundler_core::plugin::{HookKind, MapComposer, Minifier, Plugin, PluginOrder};
use bundler_core::sourcemap::normalize_transform_sourcemap;
use bundler_core::types::{
    Asset, BuildEndArgsData, BuildError, BundlerOptions, HookBuildEndArgs, HookLoadArgs,
    HookLoadOutput, HookResolveIdArgs, HookResolveIdOutput, HookResolveIdSkipped,
    HookSideEffects, HookTransformOutput, InstantiationKind, LoadArgsData, LoadOutputData,
    MinifyOptions, MinifyOptionsValue, ModuleInfo, ModuleInfoData, ModuleType, ResolveArgsData,
    ResolvedIdData, SkipData, SourceMap, SourceMapData, TransformOutputData,
};
use vstd::seq::Seq;

type CallLog = Rc<RefCell<Vec<String>>>;

#[derive(Clone)]
struct TestPlugin {
    name: usize,
    order: PluginOrder,
    implements_all: bool,
    resolve: Option<HookResolveIdOutput>,
    resolve_fails: bool,
    resolve_dynamic: Option<HookResolveIdOutput>,
    load: Option<HookLoadOutput>,
    transform_append: Option<String>,
    transform_map: Option<SourceMap>,
    transform_side_effects: Option<HookSideEffects>,
    transform_module_type: Option<ModuleType>,
    transform_fails: bool,
    transform_ast_append: Option<String>,
    transform_ast_fails: bool,
    broadcast_fails: bool,
    log: CallLog,
}

fn plugin(name: usize, order: PluginOrder, log: &CallLog) -> TestPlugin {
    TestPlugin {
        name,
        order,
        implements_all: true,
        resolve: None,
        resolve_fails: false,
        resolve_dynamic: None,
        load: None,
        transform_append: None,
        transform_map: None,
        transform_side_effects: None,
        transform_module_type: None,
        transform_fails: false,
        transform_ast_append: None,
        transform_ast_fails: false,
        broadcast_fails: false,
        log: Rc::clone(log),
    }
}

fn new_log() -> CallLog {
    Rc::new(RefCell::new(Vec::new()))
}

impl TestPlugin {
    fn record(&self, hook: &str) {
        self.log.borrow_mut().push(format!("{}:{}", self.name, hook));
    }
}

// The `*_spec` items below are the trait's ghost companions; they are erased
// from every runtime path and never called, so their bodies are unreachable.
impl Plugin for TestPlugin {
    type Ast = String;

    fn implements_spec(&self, _kind: HookKind) -> bool {
        unreachable!()
    }

    fn order_spec(&self, _kind: HookKind) -> PluginOrder {
        unreachable!()
    }

    fn build_start_spec(&self, _opts: BundlerOptions) -> Result<(), Seq<char>> {
        unreachable!()
    }

    fn resolve_id_spec(
        &self,
        _args: ResolveArgsData,
        _skipped: Seq<SkipData>,
    ) -> Result<Option<ResolvedIdData>, Seq<char>> {
        unreachable!()
    }

    fn resolve_dynamic_import_spec(
        &self,
        _args: ResolveArgsData,
        _skipped: Seq<SkipData>,
    ) -> Result<Option<ResolvedIdData>, Seq<char>> {
        unreachable!()
    }

    fn load_spec(&self, _args: LoadArgsData) -> Result<Option<LoadOutputData>, Seq<char>> {
        unreachable!()
    }

    fn transform_spec(
        &self,
        _id: Seq<char>,
        _code: Seq<char>,
        _module_type: ModuleType,
        _chain: Seq<SourceMapData>,
    ) -> Result<Option<TransformOutputData>, Seq<char>> {
        unreachable!()
    }

    fn transform_ast_spec(
        &self,
        _cwd: Seq<char>,
        _id: Seq<char>,
        _is_user_defined_entry: bool,
        _ast: String,
    ) -> Result<String, Seq<char>> {
        unreachable!()
    }

    fn module_parsed_spec(&self, _module_info: ModuleInfoData) -> Result<(), Seq<char>> {
        unreachable!()
    }

    fn build_end_spec(&self, _args: Option<BuildEndArgsData>) -> Result<(), Seq<char>> {
        unreachable!()
    }

    fn implements_hook(&self, _kind: HookKind) -> bool {
        self.implements_all
    }

    fn hook_order(&self, _kind: HookKind) -> PluginOrder {
        self.order
    }

    fn call_build_start(&self, _opts: &BundlerOptions) -> Result<(), BuildError> {
        self.record("build_start");
        if self.broadcast_fails {
            Err(BuildError { message: format!("build_start failed in {}", self.name) })
        } else {
            Ok(())
        }
    }

    fn call_resolve_id(
        &self,
        _args: &HookResolveIdArgs,
        _skipped: &Vec<HookResolveIdSkipped>,
    ) -> Result<Option<HookResolveIdOutput>, BuildError> {
        self.record("resolve_id");
        if self.resolve_fails {
            Err(BuildError { message: format!("resolve failed in {}", self.name) })
        } else {
            Ok(self.resolve.clone())
        }
    }

    fn call_resolve_dynamic_import(
        &self,
        _args: &HookResolveIdArgs,
        _skipped: &Vec<HookResolveIdSkipped>,
    ) -> Result<Option<HookResolveIdOutput>, BuildError> {
        self.record("resolve_dynamic_import");
        Ok(self.resolve_dynamic.clone())
    }

    fn call_load(&self, _args: &HookLoadArgs) -> Result<Option<HookLoadOutput>, BuildError> {
        self.record("load");
        Ok(self.load.clone())
    }

    fn call_transform(
        &self,
        _id: &String,
        code: &String,
        _module_type: &ModuleType,
        _chain: &Vec<SourceMap>,
    ) -> Result<Option<HookTransformOutput>, BuildError> {
        self.record("transform");
        if self.transform_fails {
            return Err(BuildError { message: format!("transform failed in {}", self.name) });
        }
        if self.transform_append.is_none() && self.transform_map.is_none()
            && self.transform_side_effects.is_none() && self.transform_module_type.is_none()
        {
            return Ok(None);
        }
        let new_code = self.transform_append.as_ref().map(|m| format!("{}{}", code, m));
        Ok(Some(HookTransformOutput {
            code: new_code,
            map: self.transform_map.clone(),
            side_effects: self.transform_side_effects,
            module_type: self.transform_module_type,
        }))
    }

    fn call_transform_ast(
        &self,
        _cwd: &String,
        _id: &String,
        _is_user_defined_entry: bool,
        ast: String,
    ) -> Result<String, BuildError> {
        self.record("transform_ast");
        if self.transform_ast_fails {
            return Err(BuildError { message: format!("transform_ast failed in {}", self.name) });
        }
        match &self.transform_ast_append {
            Some(m) => Ok(format!("{}{}", ast, m)),
            None => Ok(ast),
        }
    }

    fn call_module_parsed(&self, _module_info: &ModuleInfo) -> Result<(), BuildError> {
        self.record("module_parsed");
        if self.broadcast_fails {
            Err(BuildError { message: format!("module_parsed failed in {}", self.name) })
        } else {
            Ok(())
        }
    }

    fn call_build_end(&self, _args: Option<&HookBuildEndArgs>) -> Result<(), BuildError> {
        self.record("build_end");
        if self.broadcast_fails {
            Err(BuildError { message: format!("build_end failed in {}", self.name) })
        } else {
            Ok(())
        }
    }
}

fn resolved(id: &str) -> HookResolveIdOutput {
    HookResolveIdOutput { id: id.to_string(), external: false }
}

fn resolve_args(specifier: &str, importer: Option<&str>) -> HookResolveIdArgs {
    HookResolveIdArgs {
        specifier: specifier.to_string(),
        importer: importer.map(|s| s.to_string()),
    }
}

fn options_disabled() -> BundlerOptions {
    BundlerOptions { minify: MinifyOptions::Disabled }
}

#[test]
fn resolution_first_match_wins() {
    let log = new_log();
    let p0 = plugin(0, PluginOrder::Normal, &log);
    let mut p1 = plugin(1, PluginOrder::Normal, &log);
    p1.resolve = Some(resolved("from-p1"));
    let mut p2 = plugin(2, PluginOrder::Normal, &log);
    p2.resolve = Some(resolved("from-p2"));
    let driver = PluginDriver::new(vec![p0, p1, p2]);
    let result = driver.resolve_id(&resolve_args("./a", None), None).unwrap();
    assert_eq!(result, Some(resolved("from-p1")));
    assert_eq!(*log.borrow(), vec!["0:resolve_id".to_string(), "1:resolve_id".to_string()]);
}

#[test]
fn resolution_unresolved_when_all_pass() {
    let log = new_log();
    let p0 = plugin(0, PluginOrder::Normal, &log);
    let p1 = plugin(1, PluginOrder::Normal, &log);
    let driver = PluginDriver::new(vec![p0, p1]);
    let result = driver.resolve_id(&resolve_args("./a", Some("main.js")), None).unwrap();
    assert_eq!(result, None);
    assert_eq!(log.borrow().len(), 2);
}

#[test]
fn resolution_fail_fast() {
    let log = new_log();
    let p0 = plugin(0, PluginOrder::Normal, &log);
    let mut p1 = plugin(1, PluginOrder::Normal, &log);
    p1.resolve_fails = true;
    let mut p2 = plugin(2, PluginOrder::Normal, &log);
    p2.resolve = Some(resolved("from-p2"));
    let driver = PluginDriver::new(vec![p0, p1, p2]);
    let err = driver.resolve_id(&resolve_args("./a", None), None).unwrap_err();
    assert_eq!(err.message, "resolve failed in 1");
    assert_eq!(*log.borrow(), vec!["0:resolve_id".to_string(), "1:resolve_id".to_string()]);
}

#[test]
fn skip_set_excludes_plugin() {
    let log = new_log();
    let mut p0 = plugin(0, PluginOrder::Normal, &log);
    p0.resolve = Some(resolved("from-p0"));
    let mut p1 = plugin(1, PluginOrder::Normal, &log);
    p1.resolve = Some(resolved("from-p1"));
    let driver = PluginDriver::new(vec![p0, p1]);
    let skips = vec![HookResolveIdSkipped {
        specifier: "./a".to_string(),
        importer: Some("main.js".to_string()),
        plugin_idx: 0,
    }];
    let result = driver
        .resolve_id(&resolve_args("./a", Some("main.js")), Some(&skips))
        .unwrap();
    assert_eq!(result, Some(resolved("from-p1")));
    assert_eq!(*log.borrow(), vec!["1:resolve_id".to_string()]);
}

#[test]
fn skip_set_ignores_other_requests() {
    let log = new_log();
    let mut p0 = plugin(0, PluginOrder::Normal, &log);
    p0.resolve = Some(resolved("from-p0"));
    let driver = PluginDriver::new(vec![p0]);
    let skips = vec![HookResolveIdSkipped {
        specifier: "./a".to_string(),
        importer: Some("other.js".to_string()),
        plugin_idx: 0,
    }];
    let result = driver
        .resolve_id(&resolve_args("./a", Some("main.js")), Some(&skips))
        .unwrap();
    assert_eq!(result, Some(resolved("from-p0")));
}

#[test]
fn skipped_plugins_match_specifier_and_importer() {
    let skips = vec![
        HookResolveIdSkipped {
            specifier: "./a".to_string(),
            importer: Some("main.js".to_string()),
            plugin_idx: 0,
        },
        HookResolveIdSkipped {
            specifier: "./a".to_string(),
            importer: None,
            plugin_idx: 1,
        },
        HookResolveIdSkipped {
            specifier: "./b".to_string(),
            importer: Some("main.js".to_string()),
            plugin_idx: 2,
        },
        HookResolveIdSkipped {
            specifier: "./a".to_string(),
            importer: Some("main.js".to_string()),
            plugin_idx: 3,
        },
    ];
    let importer = "main.js".to_string();
    let found = PluginDriver::<TestPlugin>::get_resolve_call_skipped_plugins(
        &"./a".to_string(),
        Some(&importer),
        Some(&skips),
    );
    assert_eq!(found, vec![0, 3]);
    let found_no_importer = PluginDriver::<TestPlugin>::get_resolve_call_skipped_plugins(
        &"./a".to_string(),
        None,
        Some(&skips),
    );
    assert_eq!(found_no_importer, vec![1]);
    let found_none = PluginDriver::<TestPlugin>::get_resolve_call_skipped_plugins(
        &"./a".to_string(),
        Some(&importer),
        None,
    );
    assert_eq!(found_none, Vec::<usize>::new());
}

#[test]
fn resolve_dynamic_import_first_match() {
    let log = new_log();
    let p0 = plugin(0, PluginOrder::Normal, &log);
    let mut p1 = plugin(1, PluginOrder::Normal, &log);
    p1.resolve_dynamic = Some(resolved("dyn"));
    let driver = PluginDriver::new(vec![p0, p1]);
    let result = driver
        .resolve_dynamic_import(&resolve_args("./d", None), None)
        .unwrap();
    assert_eq!(result, Some(resolved("dyn")));
    assert_eq!(
        *log.borrow(),
        vec!["0:resolve_dynamic_import".to_string(), "1:resolve_dynamic_import".to_string()]
    );
}

#[test]
fn hook_order_pre_normal_post() {
    let log = new_log();
    let p0 = plugin(0, PluginOrder::Post, &log);
    let p1 = plugin(1, PluginOrder::Normal, &log);
    let p2 = plugin(2, PluginOrder::Pre, &log);
    let p3 = plugin(3, PluginOrder::Normal, &log);
    let driver = PluginDriver::new(vec![p0, p1, p2, p3]);
    driver.build_start(&options_disabled()).unwrap();
    assert_eq!(
        *log.borrow(),
        vec![
            "2:build_start".to_string(),
            "1:build_start".to_string(),
            "3:build_start".to_string(),
            "0:build_start".to_string(),
        ]
    );
}

#[test]
fn non_implementing_plugin_is_never_invoked() {
    let log = new_log();
    let mut p0 = plugin(0, PluginOrder::Normal, &log);
    p0.implements_all = false;
    p0.resolve = Some(resolved("from-p0"));
    let mut p1 = plugin(1, PluginOrder::Normal, &log);
    p1.resolve = Some(resolved("from-p1"));
    let driver = PluginDriver::new(vec![p0, p1]);
    let result = driver.resolve_id(&resolve_args("./a", None), None).unwrap();
    assert_eq!(result, Some(resolved("from-p1")));
    driver.build_start(&options_disabled()).unwrap();
    driver.build_end(None).unwrap();
    assert_eq!(
        *log.borrow(),
        vec!["1:resolve_id".to_string(), "1:build_start".to_string(), "1:build_end".to_string()]
    );
}

#[test]
fn load_first_match_wins() {
    let log = new_log();
    let p0 = plugin(0, PluginOrder::Normal, &log);
    let mut p1 = plugin(1, PluginOrder::Normal, &log);
    p1.load = Some(HookLoadOutput {
        code: "loaded".to_string(),
        map: None,
        module_type: Some(ModuleType::Js),
        side_effects: None,
    });
    let mut p2 = plugin(2, PluginOrder::Normal, &log);
    p2.load = Some(HookLoadOutput {
        code: "ignored".to_string(),
        map: None,
        module_type: None,
        side_effects: None,
    });
    let driver = PluginDriver::new(vec![p0, p1, p2]);
    let result = driver
        .load(&HookLoadArgs { id: "mod.js".to_string() })
        .unwrap()
        .unwrap();
    assert_eq!(result.code, "loaded");
    assert_eq!(*log.borrow(), vec!["0:load".to_string(), "1:load".to_string()]);
}

#[test]
fn transform_cumulativity() {
    let log = new_log();
    let mut p0 = plugin(0, PluginOrder::Normal, &log);
    p0.transform_append = Some("b".to_string());
    let mut p1 = plugin(1, PluginOrder::Normal, &log);
    p1.transform_append = Some("c".to_string());
    let mut p2 = plugin(2, PluginOrder::Normal, &log);
    p2.transform_append = Some("d".to_string());
    let driver = PluginDriver::new(vec![p0, p1, p2]);
    let mut chain: Vec<SourceMap> = Vec::new();
    let mut side_effects: Option<HookSideEffects> = None;
    let mut module_type = ModuleType::Js;
    let code = driver
        .transform(
            &"mod.js".to_string(),
            "a".to_string(),
            &mut chain,
            &mut side_effects,
            &mut module_type,
        )
        .unwrap();
    assert_eq!(code, "abcd");
    // Each step changed code without a map, so each appended a synthetic map.
    assert_eq!(chain.len(), 3);
    assert_eq!(chain[0].sources, vec!["mod.js".to_string()]);
    assert_eq!(chain[0].sources_content, vec![Some("a".to_string())]);
    assert_eq!(chain[1].sources_content, vec![Some("ab".to_string())]);
    assert_eq!(chain[2].sources_content, vec![Some("abc".to_string())]);
    assert_eq!(
        *log.borrow(),
        vec!["0:transform".to_string(), "1:transform".to_string(), "2:transform".to_string()]
    );
}

#[test]
fn transform_partial_update_keeps_state() {
    let log = new_log();
    let mut p0 = plugin(0, PluginOrder::Normal, &log);
    p0.transform_module_type = Some(ModuleType::Ts);
    p0.transform_side_effects = Some(HookSideEffects::False);
    let driver = PluginDriver::new(vec![p0]);
    let mut chain: Vec<SourceMap> = Vec::new();
    let mut side_effects: Option<HookSideEffects> = None;
    let mut module_type = ModuleType::Js;
    let code = driver
        .transform(
            &"mod.js".to_string(),
            "original".to_string(),
            &mut chain,
            &mut side_effects,
            &mut module_type,
        )
        .unwrap();
    assert_eq!(code, "original");
    assert_eq!(module_type, ModuleType::Ts);
    assert_eq!(side_effects, Some(HookSideEffects::False));
    // No map and no code change: the step is invisible in the chain.
    assert_eq!(chain.len(), 0);
}

#[test]
fn transform_plugin_map_is_normalized_into_chain() {
    let log = new_log();
    let mut p0 = plugin(0, PluginOrder::Normal, &log);
    p0.transform_append = Some("x".to_string());
    p0.transform_map = Some(SourceMap {
        sources: Vec::new(),
        sources_content: Vec::new(),
        mappings: "AAAA".to_string(),
    });
    let driver = PluginDriver::new(vec![p0]);
    let mut chain: Vec<SourceMap> = Vec::new();
    let mut side_effects: Option<HookSideEffects> = None;
    let mut module_type = ModuleType::Js;
    let code = driver
        .transform(
            &"mod.js".to_string(),
            "orig".to_string(),
            &mut chain,
            &mut side_effects,
            &mut module_type,
        )
        .unwrap();
    assert_eq!(code, "origx");
    assert_eq!(chain.len(), 1);
    assert_eq!(chain[0].sources, vec!["mod.js".to_string()]);
    assert_eq!(chain[0].sources_content, vec![Some("orig".to_string())]);
    assert_eq!(chain[0].mappings, "AAAA");
}

#[test]
fn transform_fail_fast() {
    let log = new_log();
    let mut p0 = plugin(0, PluginOrder::Normal, &log);
    p0.transform_append = Some("b".to_string());
    let mut p1 = plugin(1, PluginOrder::Normal, &log);
    p1.transform_fails = true;
    let mut p2 = plugin(2, PluginOrder::Normal, &log);
    p2.transform_append = Some("c".to_string());
    let driver = PluginDriver::new(vec![p0, p1, p2]);
    let mut chain: Vec<SourceMap> = Vec::new();
    let mut side_effects: Option<HookSideEffects> = None;
    let mut module_type = ModuleType::Js;
    let err = driver
        .transform(
            &"mod.js".to_string(),
            "a".to_string(),
            &mut chain,
            &mut side_effects,
            &mut module_type,
        )
        .unwrap_err();
    assert_eq!(err.message, "transform failed in 1");
    // The first step's entry stays; the chain stops where the failure hit.
    assert_eq!(chain.len(), 1);
    assert_eq!(
        *log.borrow(),
        vec!["0:transform".to_string(), "1:transform".to_string()]
    );
}

#[test]
fn transform_ast_threads_handle() {
    let log = new_log();
    let mut p0 = plugin(0, PluginOrder::Normal, &log);
    p0.transform_ast_append = Some("+0".to_string());
    let mut p1 = plugin(1, PluginOrder::Normal, &log);
    p1.transform_ast_append = Some("+1".to_string());
    let driver = PluginDriver::new(vec![p0, p1]);
    let result = driver
        .transform_ast(HookTransformAstArgs {
            cwd: ".".to_string(),
            id: "mod.js".to_string(),
            is_user_defined_entry: true,
            ast: "ast".to_string(),
        })
        .unwrap();
    assert_eq!(result, "ast+0+1");
}

#[test]
fn transform_ast_fail_fast() {
    let log = new_log();
    let mut p0 = plugin(0, PluginOrder::Normal, &log);
    p0.transform_ast_fails = true;
    let mut p1 = plugin(1, PluginOrder::Normal, &log);
    p1.transform_ast_append = Some("+1".to_string());
    let driver = PluginDriver::new(vec![p0, p1]);
    let err = driver
        .transform_ast(HookTransformAstArgs {
            cwd: ".".to_string(),
            id: "mod.js".to_string(),
            is_user_defined_entry: false,
            ast: "ast".to_string(),
        })
        .unwrap_err();
    assert_eq!(err.message, "transform_ast failed in 0");
    assert_eq!(*log.borrow(), vec!["0:transform_ast".to_string()]);
}

#[test]
fn broadcast_fail_fast() {
    let log = new_log();
    let p0 = plugin(0, PluginOrder::Normal, &log);
    let mut p1 = plugin(1, PluginOrder::Normal, &log);
    p1.broadcast_fails = true;
    let p2 = plugin(2, PluginOrder::Normal, &log);
    let driver = PluginDriver::new(vec![p0, p1, p2]);
    let err = driver.build_start(&options_disabled()).unwrap_err();
    assert_eq!(err.message, "build_start failed in 1");
    assert_eq!(
        *log.borrow(),
        vec!["0:build_start".to_string(), "1:build_start".to_string()]
    );
}

#[test]
fn module_parsed_and_build_end_broadcast() {
    let log = new_log();
    let p0 = plugin(0, PluginOrder::Normal, &log);
    let p1 = plugin(1, PluginOrder::Normal, &log);
    let driver = PluginDriver::new(vec![p0, p1]);
    driver
        .module_parsed(&ModuleInfo { id: "mod.js".to_string() })
        .unwrap();
    driver
        .build_end(Some(&HookBuildEndArgs { error: Some("boom".to_string()) }))
        .unwrap();
    assert_eq!(
        *log.borrow(),
        vec![
            "0:module_parsed".to_string(),
            "1:module_parsed".to_string(),
            "0:build_end".to_string(),
            "1:build_end".to_string(),
        ]
    );
}

#[test]
fn normalize_fills_missing_source_and_content() {
    let map = SourceMap {
        sources: Vec::new(),
        sources_content: Vec::new(),
        mappings: "AACA".to_string(),
    };
    let result = normalize_transform_sourcemap(
        Some(map),
        &"mod.js".to_string(),
        &"let x = 1;".to_string(),
        None,
    )
    .unwrap();
    assert_eq!(result.sources, vec!["mod.js".to_string()]);
    assert_eq!(result.sources_content, vec![Some("let x = 1;".to_string())]);
    assert_eq!(result.mappings, "AACA");
}

#[test]
fn normalize_replaces_single_mismatched_source() {
    let map = SourceMap {
        sources: vec!["unknown".to_string()],
        sources_content: vec![Some("content".to_string())],
        mappings: "AAAA".to_string(),
    };
    let result = normalize_transform_sourcemap(
        Some(map),
        &"mod.js".to_string(),
        &"orig".to_string(),
        None,
    )
    .unwrap();
    assert_eq!(result.sources, vec!["mod.js".to_string()]);
    // The content entry was present and non-empty, so it is kept.
    assert_eq!(result.sources_content, vec![Some("content".to_string())]);
}

#[test]
fn normalize_keeps_well_formed_map() {
    let map = SourceMap {
        sources: vec!["a.js".to_string(), "b.js".to_string()],
        sources_content: vec![Some("aa".to_string()), Some("bb".to_string())],
        mappings: "AAAA".to_string(),
    };
    let result = normalize_transform_sourcemap(
        Some(map.clone()),
        &"mod.js".to_string(),
        &"orig".to_string(),
        None,
    )
    .unwrap();
    assert_eq!(result, map);
}

#[test]
fn normalize_synthesizes_identity_map() {
    let result = normalize_transform_sourcemap(
        None,
        &"mod.js".to_string(),
        &"a".to_string(),
        Some(&"ab".to_string()),
    )
    .unwrap();
    assert_eq!(result.sources, vec!["mod.js".to_string()]);
    assert_eq!(result.sources_content, vec![Some("a".to_string())]);
    // High-resolution identity mapping of the single-character original.
    assert_eq!(result.mappings, "AAAA");
}

#[test]
fn normalize_synthetic_map_spans_lines() {
    let result = normalize_transform_sourcemap(
        None,
        &"mod.js".to_string(),
        &"x\ny".to_string(),
        Some(&"x\nyz".to_string()),
    )
    .unwrap();
    assert_eq!(result.sources, vec!["mod.js".to_string()]);
    assert_eq!(result.sources_content, vec![Some("x\ny".to_string())]);
    assert!(!result.mappings.is_empty());
    assert!(result.mappings.contains(';'));
}

#[test]
fn normalize_no_op() {
    let unchanged = normalize_transform_sourcemap(
        None,
        &"mod.js".to_string(),
        &"same".to_string(),
        Some(&"same".to_string()),
    );
    assert_eq!(unchanged, None);
    let absent = normalize_transform_sourcemap(
        None,
        &"mod.js".to_string(),
        &"same".to_string(),
        None,
    );
    assert_eq!(absent, None);
}

struct StubMinifier {
    fail_on: Option<String>,
    produce_map: Option<SourceMap>,
}

impl Minifier for StubMinifier {
    fn minify_spec(
        &self,
        _code: Seq<char>,
        _enable_sourcemap: bool,
        _filename: Seq<char>,
        _options: MinifyOptionsValue,
    ) -> Result<(Seq<char>, Option<SourceMapData>), Seq<char>> {
        unreachable!()
    }

    fn minify(
        &self,
        code: &String,
        enable_sourcemap: bool,
        filename: &String,
        _options: MinifyOptionsValue,
    ) -> Result<(String, Option<SourceMap>), BuildError> {
        if let Some(bad) = &self.fail_on {
            if bad == filename {
                return Err(BuildError { message: format!("minify failed for {}", filename) });
            }
        }
        let minified = format!("min({},{})", code, enable_sourcemap);
        let map = if enable_sourcemap { self.produce_map.clone() } else { None };
        Ok((minified, map))
    }
}

struct StubComposer;

impl MapComposer for StubComposer {
    fn collapse_spec(&self, _maps: Seq<SourceMapData>) -> SourceMapData {
        unreachable!()
    }

    fn collapse(&self, maps: Vec<SourceMap>) -> SourceMap {
        let mut sources: Vec<String> = Vec::new();
        let mut sources_content: Vec<Option<String>> = Vec::new();
        let mut parts: Vec<String> = Vec::new();
        for m in maps {
            sources.extend(m.sources);
            sources_content.extend(m.sources_content);
            parts.push(m.mappings);
        }
        SourceMap { sources, sources_content, mappings: parts.join("|") }
    }
}

fn asset(filename: &str, content: &str, map: Option<SourceMap>, kind: InstantiationKind) -> Asset {
    Asset {
        filename: filename.to_string(),
        content: content.to_string(),
        map,
        kind,
    }
}

fn simple_map(name: &str, mappings: &str) -> SourceMap {
    SourceMap {
        sources: vec![name.to_string()],
        sources_content: vec![Some(format!("content of {}", name))],
        mappings: mappings.to_string(),
    }
}

fn enabled_options() -> BundlerOptions {
    BundlerOptions {
        minify: MinifyOptions::Enabled(MinifyOptionsValue {
            compress: true,
            mangle: false,
            remove_whitespace: true,
        }),
    }
}

#[test]
fn minify_scoping_touches_only_ecma() {
    let stage = GenerateStage {
        options: enabled_options(),
        minifier: StubMinifier { fail_on: None, produce_map: None },
        composer: StubComposer,
    };
    let mut assets = vec![
        asset("a.js", "let x = 1;", None, InstantiationKind::Ecma),
        asset("b.css", "body {}", None, InstantiationKind::Css),
        asset("c.txt", "hello", None, InstantiationKind::Plain),
    ];
    stage.minify_assets(&mut assets).unwrap();
    assert_eq!(assets[0].content, "min(let x = 1;,false)");
    assert_eq!(assets[1], asset("b.css", "body {}", None, InstantiationKind::Css));
    assert_eq!(assets[2], asset("c.txt", "hello", None, InstantiationKind::Plain));
}

#[test]
fn minify_composes_maps() {
    let origin_map = simple_map("a.js", "AAAA");
    let new_map = simple_map("min", "AACA");
    let stage = GenerateStage {
        options: enabled_options(),
        minifier: StubMinifier { fail_on: None, produce_map: Some(new_map.clone()) },
        composer: StubComposer,
    };
    let mut assets = vec![asset(
        "a.js",
        "code",
        Some(origin_map.clone()),
        InstantiationKind::Ecma,
    )];
    stage.minify_assets(&mut assets).unwrap();
    // The asset had a map, so sourcemap generation was requested.
    assert_eq!(assets[0].content, "min(code,true)");
    let expected = StubComposer.collapse(vec![origin_map, new_map]);
    assert_eq!(assets[0].map, Some(expected));
}

#[test]
fn minify_keeps_stale_map_when_minifier_drops_it() {
    let origin_map = simple_map("a.js", "AAAA");
    let stage = GenerateStage {
        options: enabled_options(),
        minifier: StubMinifier { fail_on: None, produce_map: None },
        composer: StubComposer,
    };
    let mut assets = vec![asset(
        "a.js",
        "code",
        Some(origin_map.clone()),
        InstantiationKind::Ecma,
    )];
    stage.minify_assets(&mut assets).unwrap();
    assert_eq!(assets[0].content, "min(code,true)");
    assert_eq!(assets[0].map, Some(origin_map));
}

#[test]
fn minify_without_map_stays_without_map() {
    let stage = GenerateStage {
        options: enabled_options(),
        minifier: StubMinifier { fail_on: None, produce_map: Some(simple_map("m", "AACA")) },
        composer: StubComposer,
    };
    let mut assets = vec![asset("a.js", "code", None, InstantiationKind::Ecma)];
    stage.minify_assets(&mut assets).unwrap();
    // No pre-existing map: no sourcemap was requested and none is stored.
    assert_eq!(assets[0].content, "min(code,false)");
    assert_eq!(assets[0].map, None);
}

#[test]
fn minify_disabled_is_a_no_op() {
    let stage = GenerateStage {
        options: options_disabled(),
        minifier: StubMinifier { fail_on: None, produce_map: None },
        composer: StubComposer,
    };
    let original = vec![
        asset("a.js", "let x = 1;", None, InstantiationKind::Ecma),
        asset("b.css", "body {}", None, InstantiationKind::Css),
    ];
    let mut assets = original.clone();
    stage.minify_assets(&mut assets).unwrap();
    assert_eq!(assets, original);
}

#[test]
fn minify_fail_fast_aborts_stage() {
    let stage = GenerateStage {
        options: enabled_options(),
        minifier: StubMinifier { fail_on: Some("b.js".to_string()), produce_map: None },
        composer: StubComposer,
    };
    let mut assets = vec![
        asset("a.js", "first", None, InstantiationKind::Ecma),
        asset("b.js", "second", None, InstantiationKind::Ecma),
        asset("c.js", "third", None, InstantiationKind::Ecma),
    ];
    let err = stage.minify_assets(&mut assets).unwrap_err();
    assert_eq!(err.message, "minify failed for b.js");
    assert_eq!(assets[0].content, "min(first,false)");
    assert_eq!(assets[1].content, "second");
    assert_eq!(assets[2].content, "third");
}

#[test]
fn build_error_exposes_message() {
    let err = BuildError { message: "boom".to_string() };
    assert_eq!(err.message_text(), "boom");
}
