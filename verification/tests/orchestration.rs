use asset_pipelines::context::{ProcessCtx, SelectError};
use asset_pipelines::location::SourceLocation;
use asset_pipelines::orchestrator::{
    find_manifests, is_manifest, plan_instances, PipelineCtx, StrategyCall,
};
use asset_pipelines::out_asset::{AssetType, OutAsset, OutAssetContent, OutAssetPreview};
use asset_pipelines::pipeline::{
    MaterialsPipeline, ModelsPipeline, Pipeline, PipelineConfig, PipelineKind,
};
use asset_pipelines::run::{process_pipelines, ManifestDocument, PipelineRun, MAX_IN_FLIGHT};
use asset_pipelines::string_set::StringSet;

fn at(path: &str) -> SourceLocation {
    SourceLocation::parse(path).expect("a path without a backslash")
}

fn strings(items: &[&str]) -> Vec<String> {
    items.iter().map(|s| s.to_string()).collect()
}

fn context(files: &[&str]) -> ProcessCtx {
    ProcessCtx {
        files: files.iter().map(|path| at(path)).collect(),
        input_file_filter: None,
        package_name: "package".to_string(),
        in_root: at("project/"),
        out_root: at("build/"),
    }
}

fn entry(config: PipelineConfig) -> Pipeline {
    Pipeline { pipeline: config, sources: Vec::new(), tags: Vec::new(), categories: Vec::new() }
}

fn audio_asset(name: &str) -> OutAsset {
    OutAsset {
        id: asset_pipelines::out_asset::asset_id_from_url(&at(name)),
        type_: AssetType::Audio,
        hidden: false,
        name: name.to_string(),
        tags: strings(&["own"]),
        categories: vec![StringSet::new()],
        preview: OutAssetPreview::NoPreview,
        content: OutAssetContent::Content(at(name)),
        source: Some(at(name)),
    }
}

fn names(assets: &[OutAsset]) -> Vec<String> {
    assets.iter().map(|a| a.name.clone()).collect()
}

/// Runs the strategy that `dispatch` chose, as a caller would: script
/// bundles are copied below the output root, the audio strategy is played
/// by `audio`.
fn run_instance(ctx: &ProcessCtx, instance: &PipelineCtx, audio: &[&str]) -> Option<Vec<OutAsset>> {
    let produced = match instance.dispatch(ctx) {
        Ok(StrategyCall::ScriptBundles(jobs)) => jobs
            .iter()
            .map(|job| job.finish(at(&format!("build/{}", job.output_path))))
            .collect(),
        Ok(StrategyCall::Audio) => audio.iter().map(|name| audio_asset(name)).collect(),
        Ok(_) => Vec::new(),
        Err(_) => return None,
    };
    Some(instance.pipeline.process(produced))
}

fn run_all(ctx: &ProcessCtx, mut run: PipelineRun, audio: &[&str]) -> Vec<OutAsset> {
    while !run.is_done() {
        let next = run.start_next().expect("nothing is in flight");
        let outcome = run_instance(ctx, &run.instances()[next], audio);
        assert!(run.complete(next, outcome));
    }
    run.into_assets()
}

#[test]
fn manifests_are_found_by_the_end_of_their_path() {
    assert!(is_manifest(&at("project/pipeline.json")));
    assert!(is_manifest(&at("pipeline.json")));
    assert!(is_manifest(&at("project/models.pipeline.json")));
    assert!(!is_manifest(&at("project/pipeline.json.bak")));
    assert!(!is_manifest(&at("project/pipeline.jso")));
    assert!(!is_manifest(&at("")));
}

#[test]
fn find_manifests_lists_their_places_in_order() {
    let ctx = context(&[
        "project/a.png",
        "project/pipeline.json",
        "project/sub/pipeline.json",
        "project/b.script_bundle",
        "project/other/my_pipeline.json",
    ]);
    assert_eq!(find_manifests(&ctx.files), vec![1, 2, 4]);
    assert_eq!(find_manifests(&context(&["project/a.png"]).files), Vec::<usize>::new());
    assert_eq!(find_manifests(&Vec::new()), Vec::<usize>::new());
}

#[test]
fn a_manifest_with_n_entries_gives_n_instances_with_fragments_0_to_n_minus_1() {
    let ctx = context(&["project/sub/pipeline.json"]);
    let manifest = at("project/sub/pipeline.json");
    let instances = plan_instances(
        &ctx,
        &manifest,
        vec![
            entry(PipelineConfig::Audio),
            entry(PipelineConfig::ScriptBundles),
            entry(PipelineConfig::Models(ModelsPipeline { settings: "m".to_string() })),
            entry(PipelineConfig::Materials(MaterialsPipeline { settings: "t".to_string() })),
        ],
    );
    assert_eq!(instances.len(), 4);
    for (i, instance) in instances.iter().enumerate() {
        assert_eq!(instance.pipeline_file.path(), "project/sub/pipeline.json");
        assert_eq!(instance.pipeline_file.fragment(), Some(i));
        assert_eq!(instance.root_path, "sub/");
    }
    assert!(matches!(instances[0].pipeline.pipeline, PipelineConfig::Audio));
    assert!(matches!(instances[1].pipeline.pipeline, PipelineConfig::ScriptBundles));
    match &instances[2].pipeline.pipeline {
        PipelineConfig::Models(config) => assert_eq!(config.settings, "m"),
        other => panic!("expected the models entry, got {:?}", other),
    }
    match &instances[3].pipeline.pipeline {
        PipelineConfig::Materials(config) => assert_eq!(config.settings, "t"),
        other => panic!("expected the materials entry, got {:?}", other),
    }
    for a in 0..instances.len() {
        for b in 0..instances.len() {
            assert_eq!(a == b, instances[a].pipeline_file.same_as(&instances[b].pipeline_file));
        }
    }
}

#[test]
fn an_empty_manifest_gives_no_instance() {
    let ctx = context(&["project/pipeline.json"]);
    assert!(plan_instances(&ctx, &at("project/pipeline.json"), Vec::new()).is_empty());
}

#[test]
fn the_root_path_is_the_manifest_directory_seen_from_the_input_root() {
    let ctx = context(&[]);
    let root = |manifest: &str| {
        plan_instances(&ctx, &at(manifest), vec![entry(PipelineConfig::Audio)])
            .remove(0)
            .root_path
    };
    assert_eq!(root("project/pipeline.json"), "");
    assert_eq!(root("project/a/b/pipeline.json"), "a/b/");
    assert_eq!(root("elsewhere/pipeline.json"), "elsewhere/");
    assert_eq!(root("pipeline.json"), "");
}

#[test]
fn dispatch_goes_by_the_variant() {
    let ctx = context(&["project/a.script_bundle"]);
    let instance = |config: PipelineConfig| {
        plan_instances(&ctx, &at("project/pipeline.json"), vec![entry(config)]).remove(0)
    };
    match instance(PipelineConfig::Models(ModelsPipeline { settings: "m".to_string() }))
        .dispatch(&ctx)
    {
        Ok(StrategyCall::Models(config)) => assert_eq!(config.settings, "m"),
        other => panic!("expected the model conversion, got {:?}", other),
    }
    match instance(PipelineConfig::Materials(MaterialsPipeline { settings: "t".to_string() }))
        .dispatch(&ctx)
    {
        Ok(StrategyCall::Materials(config)) => assert_eq!(config.settings, "t"),
        other => panic!("expected the material conversion, got {:?}", other),
    }
    assert!(matches!(instance(PipelineConfig::Audio).dispatch(&ctx), Ok(StrategyCall::Audio)));
    match instance(PipelineConfig::ScriptBundles).dispatch(&ctx) {
        Ok(StrategyCall::ScriptBundles(jobs)) => assert_eq!(jobs.len(), 1),
        other => panic!("expected the script bundle copies, got {:?}", other),
    }
}

#[test]
fn dispatch_does_not_look_at_patterns_for_outside_strategies() {
    let ctx = context(&["project/a.wav"]);
    let mut bad = entry(PipelineConfig::Audio);
    bad.sources = strings(&["["]);
    let instance = plan_instances(&ctx, &at("project/pipeline.json"), vec![bad]).remove(0);
    assert!(matches!(instance.dispatch(&ctx), Ok(StrategyCall::Audio)));
}

#[test]
fn script_bundle_jobs_mirror_the_input_relative_path() {
    let ctx = context(&[
        "project/pipeline.json",
        "project/foo.script_bundle",
        "project/readme.md",
        "project/sub/bar.script_bundle",
        "project/sub/bar.script_bundle.bak",
    ]);
    let instance = plan_instances(
        &ctx,
        &at("project/pipeline.json"),
        vec![entry(PipelineConfig::ScriptBundles)],
    )
    .remove(0);
    let jobs = instance.script_bundle_jobs(&ctx).expect("no pattern to fail on");
    assert_eq!(jobs.len(), 2);
    assert_eq!(jobs[0].file, 1);
    assert_eq!(jobs[0].source.path(), "project/foo.script_bundle");
    assert_eq!(jobs[0].output_path, "foo.script_bundle");
    assert_eq!(jobs[1].file, 3);
    assert_eq!(jobs[1].source.path(), "project/sub/bar.script_bundle");
    assert_eq!(jobs[1].output_path, "sub/bar.script_bundle");
}

#[test]
fn script_bundle_jobs_obey_the_source_patterns() {
    let ctx = context(&["project/a.script_bundle", "project/sub/b.script_bundle"]);
    let mut only_sub = entry(PipelineConfig::ScriptBundles);
    only_sub.sources = strings(&["project/sub/*"]);
    let instance = plan_instances(&ctx, &at("project/pipeline.json"), vec![only_sub]).remove(0);
    let jobs = instance.script_bundle_jobs(&ctx).expect("the pattern compiles");
    assert_eq!(jobs.len(), 1);
    assert_eq!(jobs[0].output_path, "sub/b.script_bundle");
}

#[test]
fn script_bundle_jobs_fail_on_a_bad_pattern() {
    let ctx = context(&["project/a.script_bundle"]);
    let mut bad = entry(PipelineConfig::ScriptBundles);
    bad.sources = strings(&["*", "**a"]);
    let instance = plan_instances(&ctx, &at("project/pipeline.json"), vec![bad]).remove(0);
    assert_eq!(instance.script_bundle_jobs(&ctx).err(), Some(SelectError::InvalidSource(1)));
    assert!(matches!(instance.dispatch(&ctx), Err(SelectError::InvalidSource(1))));
}

#[test]
fn process_pipelines_plans_every_entry_of_every_manifest() {
    let ctx = context(&["project/pipeline.json", "project/sub/pipeline.json"]);
    let run = process_pipelines(
        &ctx,
        vec![
            ManifestDocument {
                location: at("project/pipeline.json"),
                pipelines: vec![entry(PipelineConfig::Audio), entry(PipelineConfig::ScriptBundles)],
            },
            ManifestDocument { location: at("project/empty/pipeline.json"), pipelines: Vec::new() },
            ManifestDocument {
                location: at("project/sub/pipeline.json"),
                pipelines: vec![entry(PipelineConfig::Audio)],
            },
        ],
    );
    assert_eq!(run.started(), 0);
    assert_eq!(run.in_flight(), 0);
    assert!(!run.is_done());
    let planned: Vec<(String, Option<usize>, String)> = run
        .instances()
        .iter()
        .map(|i| {
            (i.pipeline_file.path().to_string(), i.pipeline_file.fragment(), i.root_path.clone())
        })
        .collect();
    assert_eq!(
        planned,
        vec![
            ("project/pipeline.json".to_string(), Some(0), String::new()),
            ("project/pipeline.json".to_string(), Some(1), String::new()),
            ("project/sub/pipeline.json".to_string(), Some(0), "sub/".to_string()),
        ]
    );
}

#[test]
fn a_run_over_nothing_is_done_at_once() {
    let ctx = context(&[]);
    let mut run = process_pipelines(&ctx, Vec::new());
    assert!(run.is_done());
    assert_eq!(run.start_next(), None);
    assert!(run.into_assets().is_empty());
}

#[test]
fn one_script_bundle_entry_gives_one_asset() {
    let ctx = context(&["project/pipeline.json", "project/foo.script_bundle"]);
    assert_eq!(find_manifests(&ctx.files), vec![0]);
    let run = process_pipelines(
        &ctx,
        vec![ManifestDocument {
            location: at("project/pipeline.json"),
            pipelines: vec![entry(PipelineConfig::ScriptBundles)],
        }],
    );
    let assets = run_all(&ctx, run, &[]);
    assert_eq!(assets.len(), 1);
    let one = &assets[0];
    assert_eq!(one.name, "foo.script_bundle");
    assert_eq!(one.type_, AssetType::ScriptBundle);
    assert!(!one.hidden);
    match &one.content {
        OutAssetContent::Content(url) => assert_eq!(url.path(), "build/foo.script_bundle"),
        other => panic!("expected written content, got {:?}", other),
    }
    assert!(one.id.location.same_as(&at("project/foo.script_bundle")));
}

#[test]
fn two_entries_keep_their_metadata_apart() {
    let ctx = context(&["project/pipeline.json", "project/foo.script_bundle", "project/a.wav"]);
    let mut audio = entry(PipelineConfig::Audio);
    audio.tags = strings(&["sound"]);
    audio.categories = vec![strings(&["Audio"])];
    let mut bundles = entry(PipelineConfig::ScriptBundles);
    bundles.tags = strings(&["script"]);
    bundles.categories = vec![strings(&["Scripts"])];
    let run = process_pipelines(
        &ctx,
        vec![ManifestDocument {
            location: at("project/pipeline.json"),
            pipelines: vec![audio, bundles],
        }],
    );
    let played = ["a.wav", "b.wav", "c.wav"];
    let assets = run_all(&ctx, run, &played);
    assert_eq!(assets.len(), played.len() + 1);
    assert_eq!(names(&assets), strings(&["a.wav", "b.wav", "c.wav", "foo.script_bundle"]));
    for sound in &assets[..3] {
        assert_eq!(sound.tags, strings(&["own", "sound"]));
        assert_eq!(sound.categories.len(), 1);
        assert_eq!(sound.categories[0].to_vec(), strings(&["Audio"]));
    }
    let bundle = &assets[3];
    assert_eq!(bundle.tags, strings(&["script"]));
    assert!(bundle.categories.is_empty());
}

#[test]
fn no_more_than_thirty_instances_are_in_flight() {
    assert_eq!(MAX_IN_FLIGHT, 30);
    let ctx = context(&[]);
    let documents = (0..100)
        .map(|i| ManifestDocument {
            location: at(&format!("project/{}/pipeline.json", i)),
            pipelines: vec![entry(PipelineConfig::Audio)],
        })
        .collect();
    let mut run = process_pipelines(&ctx, documents);
    assert_eq!(run.instances().len(), 100);
    let mut waiting: Vec<usize> = Vec::new();
    let mut peak = 0;
    let mut finished = 0;
    while !run.is_done() {
        // Start as many as the run allows; each blocks until it is signalled.
        while let Some(next) = run.start_next() {
            waiting.push(next);
        }
        assert_eq!(run.in_flight(), waiting.len());
        peak = peak.max(run.in_flight());
        assert!(run.in_flight() <= 30);
        assert_eq!(run.start_next(), None);
        // Signal one of them, not always the oldest.
        let pick = (finished * 7) % waiting.len();
        let index = waiting.remove(pick);
        assert!(run.complete(index, Some(Vec::new())));
        finished += 1;
    }
    assert_eq!(peak, 30);
    assert_eq!(finished, 100);
    assert_eq!(run.started(), 100);
    assert_eq!(run.in_flight(), 0);
}

#[test]
fn instances_start_in_order() {
    let ctx = context(&[]);
    let mut run = process_pipelines(
        &ctx,
        vec![ManifestDocument {
            location: at("project/pipeline.json"),
            pipelines: vec![entry(PipelineConfig::Audio), entry(PipelineConfig::Audio)],
        }],
    );
    assert_eq!(run.start_next(), Some(0));
    assert_eq!(run.start_next(), Some(1));
    assert_eq!(run.start_next(), None);
    assert_eq!(run.started(), 2);
    assert_eq!(run.in_flight(), 2);
}

#[test]
fn a_report_is_taken_once_and_only_for_an_instance_in_flight() {
    let ctx = context(&[]);
    let mut run = process_pipelines(
        &ctx,
        vec![ManifestDocument {
            location: at("project/pipeline.json"),
            pipelines: vec![entry(PipelineConfig::Audio), entry(PipelineConfig::Audio)],
        }],
    );
    assert!(!run.complete(0, Some(vec![audio_asset("early")])));
    assert_eq!(run.start_next(), Some(0));
    assert!(!run.complete(1, Some(vec![audio_asset("not started")])));
    assert!(!run.complete(2, None));
    assert!(run.complete(0, Some(vec![audio_asset("first")])));
    assert!(!run.complete(0, Some(vec![audio_asset("again")])));
    assert_eq!(run.in_flight(), 0);
    assert!(!run.is_done());
    assert_eq!(run.start_next(), Some(1));
    assert!(run.complete(1, None));
    assert!(run.is_done());
    assert_eq!(names(&run.into_assets()), strings(&["first"]));
}

#[test]
fn a_failed_instance_adds_nothing_and_spoils_nothing() {
    let ctx = context(&[]);
    let mut run = process_pipelines(
        &ctx,
        vec![ManifestDocument {
            location: at("project/pipeline.json"),
            pipelines: vec![
                entry(PipelineConfig::Audio),
                entry(PipelineConfig::Audio),
                entry(PipelineConfig::Audio),
            ],
        }],
    );
    while run.start_next().is_some() {}
    assert!(run.complete(2, Some(vec![audio_asset("c1"), audio_asset("c2")])));
    assert!(run.complete(1, None));
    assert!(run.complete(0, Some(vec![audio_asset("a")])));
    assert!(run.is_done());
    // The assets come out in the order of the instances, not of the reports.
    assert_eq!(names(&run.into_assets()), strings(&["a", "c1", "c2"]));
}

#[test]
fn assets_can_be_taken_before_the_run_is_done() {
    let ctx = context(&[]);
    let mut run = process_pipelines(
        &ctx,
        vec![ManifestDocument {
            location: at("project/pipeline.json"),
            pipelines: vec![entry(PipelineConfig::Audio), entry(PipelineConfig::Audio)],
        }],
    );
    while run.start_next().is_some() {}
    assert!(run.complete(1, Some(vec![audio_asset("late")])));
    assert_eq!(names(&run.into_assets()), strings(&["late"]));
}

#[test]
fn a_configuration_knows_its_strategy() {
    assert_eq!(
        PipelineConfig::Models(ModelsPipeline { settings: String::new() }).kind(),
        PipelineKind::Models
    );
    assert_eq!(PipelineConfig::ScriptBundles.kind(), PipelineKind::ScriptBundles);
    assert_eq!(
        PipelineConfig::Materials(MaterialsPipeline { settings: String::new() }).kind(),
        PipelineKind::Materials
    );
    assert_eq!(PipelineConfig::Audio.kind(), PipelineKind::Audio);
}

#[test]
fn a_failure_is_located_by_manifest_entry_and_strategy() {
    let ctx = context(&[]);
    let instances = plan_instances(
        &ctx,
        &at("project/pipeline.json"),
        vec![entry(PipelineConfig::Audio), entry(PipelineConfig::ScriptBundles)],
    );
    let report = instances[1].failure_context();
    assert_eq!(report.pipeline_file.path(), "project/pipeline.json");
    assert_eq!(report.pipeline_file.fragment(), Some(1));
    assert_eq!(report.kind, PipelineKind::ScriptBundles);
}

#[test]
fn a_copy_of_an_instance_holds_the_same() {
    let ctx = context(&[]);
    let mut declared = entry(PipelineConfig::Models(ModelsPipeline { settings: "m".to_string() }));
    declared.sources = strings(&["*.glb"]);
    declared.tags = strings(&["t", "t"]);
    declared.categories = vec![strings(&["a", "b"]), Vec::new()];
    let instance = plan_instances(&ctx, &at("project/x/pipeline.json"), vec![declared]).remove(0);
    let copy = instance.clone();
    assert!(copy.pipeline_file.same_as(&instance.pipeline_file));
    assert_eq!(copy.root_path, "x/");
    assert_eq!(copy.pipeline.sources, strings(&["*.glb"]));
    assert_eq!(copy.pipeline.tags, strings(&["t", "t"]));
    assert_eq!(copy.pipeline.categories, vec![strings(&["a", "b"]), Vec::new()]);
    match &copy.pipeline.pipeline {
        PipelineConfig::Models(config) => assert_eq!(config.settings, "m"),
        other => panic!("expected the models entry, got {:?}", other),
    }
}
