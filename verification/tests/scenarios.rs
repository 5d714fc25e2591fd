use upload_core::assets::AssetInfo;
use upload_core::assets::Batch;
use upload_core::assets::DataType;
use upload_core::assets::UploadOutcome;
use upload_core::config::ConfigData;
use upload_core::config::LocalConfig;
use upload_core::errors::UploadError;
use upload_core::localhost::IoAction;
use upload_core::localhost::LocalMethod;
use upload_core::orchestrator::outcomes_cover;
use upload_core::orchestrator::run_batch;
use upload_core::retry::ErrorClass;
use upload_core::retry::RetryPolicy;

fn asset(id: &str, content: &str, data_type: DataType) -> AssetInfo {
    AssetInfo {
        asset_id: id.to_string(),
        name: id.to_string(),
        content: content.to_string(),
        data_type,
    }
}

fn three_asset_batch() -> Batch {
    Batch::new(vec![
        asset("A", "/tmp/a.png", DataType::Image),
        asset("B", "{\"name\":\"B\"}", DataType::Metadata),
        asset("C", "/tmp/c.glb", DataType::Animation),
    ])
    .unwrap()
}

fn local_method() -> LocalMethod {
    LocalMethod::new(&ConfigData {
        local_config: Some(LocalConfig {
            directory: "My Dir".to_string(),
            domain: Some("http://localhost:8910".to_string()),
        }),
    })
    .unwrap()
}

#[test]
fn batch_rejects_duplicate_identifiers() {
    let r = Batch::new(vec![
        asset("A", "/tmp/a.png", DataType::Image),
        asset("A", "/tmp/b.png", DataType::Image),
    ]);
    assert!(matches!(r, Err(UploadError::Config(_))));
}

#[test]
fn batch_keeps_catalog_order() {
    let b = three_asset_batch();
    assert_eq!(b.len(), 3);
    assert_eq!(b.get(0).asset_id, "A");
    assert_eq!(b.get(1).asset_id, "B");
    assert_eq!(b.get(2).asset_id, "C");
}

#[test]
fn send_plan_resolves_paths_and_urls() {
    let method = local_method();
    let b = three_asset_batch();

    let plan_a = method.send_plan(b.get(0)).unwrap();
    assert_eq!(plan_a.asset_id, "A");
    assert_eq!(plan_a.save_path, "/storage/My_Dir/A");
    assert_eq!(plan_a.url, "http://localhost:8910/My_Dir/A");
    assert!(matches!(plan_a.io, IoAction::CopyFrom(ref p) if p.as_str() == "/tmp/a.png"));

    let plan_b = method.send_plan(b.get(1)).unwrap();
    assert_eq!(plan_b.save_path, "/storage/My_Dir/B");
    assert_eq!(plan_b.url, "http://localhost:8910/My_Dir/B");
    assert!(matches!(plan_b.io, IoAction::WriteContent(ref c) if c.as_str() == "{\"name\":\"B\"}"));

    let plan_c = method.send_plan(b.get(2)).unwrap();
    assert_eq!(plan_c.save_path, "/storage/My_Dir/C");
    assert_eq!(plan_c.url, "http://localhost:8910/My_Dir/C");
    assert!(matches!(plan_c.io, IoAction::CopyFrom(ref p) if p.as_str() == "/tmp/c.glb"));
}

#[test]
fn send_plan_works_with_default_domain() {
    let method = LocalMethod::new(&ConfigData {
        local_config: Some(LocalConfig {
            directory: "My Dir".to_string(),
            domain: None,
        }),
    })
    .unwrap();
    let plan = method.send_plan(&asset("A", "/tmp/a.png", DataType::Image)).unwrap();
    assert_eq!(plan.url, "http://localhost:8910/My_Dir/A");
}

#[test]
fn send_plan_rejects_a_base_that_takes_no_path() {
    let method = LocalMethod {
        directory: "My Dir".to_string(),
        domain: "mailto:someone@example.com".to_string(),
    };
    let r = method.send_plan(&asset("A", "/tmp/a.png", DataType::Image));
    assert!(matches!(r, Err(UploadError::PathEncoding(_))));
}

fn outcomes_for(method: &LocalMethod, batch: &Batch) -> Vec<UploadOutcome> {
    let mut outcomes = Vec::new();
    for i in 0..batch.len() {
        let a = batch.get(i);
        let plan = method.send_plan(a).unwrap();
        outcomes.push(UploadOutcome {
            asset_id: plan.asset_id,
            result: Ok(plan.url),
        });
    }
    outcomes
}

#[test]
fn full_batch_success_maps_every_asset() {
    let method = local_method();
    let batch = three_asset_batch();
    let outcomes = outcomes_for(&method, &batch);

    let result = run_batch(&batch, Ok(()), &outcomes).unwrap();
    assert_eq!(result.failures.len(), 0);
    assert_eq!(result.successes.len(), 3);
    assert_eq!(result.successes[0].0, "A");
    assert_eq!(result.successes[0].1, "http://localhost:8910/My_Dir/A");
    assert_eq!(result.successes[1].0, "B");
    assert_eq!(result.successes[1].1, "http://localhost:8910/My_Dir/B");
    assert_eq!(result.successes[2].0, "C");
    assert_eq!(result.successes[2].1, "http://localhost:8910/My_Dir/C");
}

#[test]
fn permanent_failure_of_one_asset_spares_the_others() {
    let method = local_method();
    let batch = three_asset_batch();
    let mut outcomes = outcomes_for(&method, &batch);
    outcomes[1] = UploadOutcome {
        asset_id: "B".to_string(),
        result: Err(UploadError::Transfer("content write failed".to_string())),
    };

    let result = run_batch(&batch, Ok(()), &outcomes).unwrap();
    assert_eq!(result.successes.len(), 2);
    assert_eq!(result.successes[0].0, "A");
    assert_eq!(result.successes[1].0, "C");
    assert_eq!(result.failures.len(), 1);
    assert_eq!(result.failures[0].0, "B");
    assert!(matches!(result.failures[0].1, UploadError::Transfer(_)));
}

#[test]
fn aggregation_ignores_completion_order() {
    let method = local_method();
    let batch = three_asset_batch();
    let mut outcomes = outcomes_for(&method, &batch);
    outcomes.reverse();

    let result = run_batch(&batch, Ok(()), &outcomes).unwrap();
    assert_eq!(result.failures.len(), 0);
    assert_eq!(result.successes.len(), 3);
    assert_eq!(result.successes[0].0, "A");
    assert_eq!(result.successes[1].0, "B");
    assert_eq!(result.successes[2].0, "C");
    assert_eq!(result.successes[2].1, "http://localhost:8910/My_Dir/C");
}

#[test]
fn failed_prepare_aborts_the_batch_with_no_outcomes() {
    let batch = three_asset_batch();
    let r = run_batch(&batch, Err("prepare failed".to_string()), &Vec::new());
    match r {
        Err(UploadError::Prepare(m)) => assert_eq!(m, "prepare failed"),
        _ => panic!("expected the prepare error to surface"),
    }
}

#[test]
fn coverage_check_notices_a_dropped_outcome() {
    let method = local_method();
    let batch = three_asset_batch();
    let mut outcomes = outcomes_for(&method, &batch);
    assert!(outcomes_cover(&batch, &outcomes));
    outcomes.remove(1);
    assert!(!outcomes_cover(&batch, &outcomes));
}

#[test]
fn empty_batch_yields_empty_result() {
    let batch = Batch::new(Vec::new()).unwrap();
    assert_eq!(batch.len(), 0);
    let result = run_batch(&batch, Ok(()), &Vec::new()).unwrap();
    assert_eq!(result.successes.len(), 0);
    assert_eq!(result.failures.len(), 0);
}

#[test]
fn retry_budget_is_bounded_and_transient_only() {
    let policy = RetryPolicy::standard();
    assert_eq!(policy.max_attempts, 3);
    assert!(policy.should_retry(ErrorClass::Transient, 1));
    assert!(policy.should_retry(ErrorClass::Transient, 2));
    assert!(!policy.should_retry(ErrorClass::Transient, 3));
    assert!(!policy.should_retry(ErrorClass::Permanent, 1));
}
