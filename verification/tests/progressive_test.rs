use stateless_architecture::{restore, restore_at, Blob, Json, JsonNumber, RestoreError, RestoreOrchestrator, RestoreStage};

fn obj(pairs: Vec<(&str, Json)>) -> Json {
    let mut j = Json::new_object();
    for (k, v) in pairs {
        j.insert(k, v);
    }
    j
}

fn has(j: &Json, k: &str) -> bool {
    j.get(k).is_some()
}

#[test]
fn progressive_restore_marks_stages() {
    let blob = Blob::new(
        "test://schema",
        obj(vec![("url", Json::from_str_value("https://example.com"))]),
    );
    let mut orch = RestoreOrchestrator::new(RestoreStage::FullState);
    let (restored, stage) = orch.restore(&blob).unwrap();

    assert_eq!(stage, RestoreStage::FullState);

    assert!(restored.payload.is_object());
    assert!(has(&restored.payload, "_restored_shell"));
    assert!(has(&restored.payload, "_restored_structure"));
    assert!(has(&restored.payload, "_restored_interactivity"));
    assert!(has(&restored.payload, "_restored_full_state"));
}

#[test]
fn partial_restore_stops_at_target() {
    let blob = Blob::new("test://schema", Json::new_object());
    let mut orch = RestoreOrchestrator::new(RestoreStage::Structure);
    let (restored, stage) = orch.restore(&blob).unwrap();

    assert_eq!(stage, RestoreStage::Structure);

    assert!(restored.payload.is_object());
    assert!(has(&restored.payload, "_restored_shell"));
    assert!(has(&restored.payload, "_restored_structure"));
    assert!(!has(&restored.payload, "_restored_interactivity"));
    assert!(!has(&restored.payload, "_restored_full_state"));
}

#[test]
fn restore_convenience_function() {
    let blob = Blob::new("test://schema", Json::new_object());
    let restored = restore(&blob).unwrap();
    assert_eq!(restored.payload.get("_restored_full_state"), Some(&Json::Bool(true)));
}

#[test]
fn restore_stage_ordering() {
    assert!(RestoreStage::Shell < RestoreStage::Structure);
    assert!(RestoreStage::Structure < RestoreStage::Interactivity);
    assert!(RestoreStage::Interactivity < RestoreStage::FullState);
}

#[test]
fn stage_names_and_ranks() {
    let names: Vec<&str> = RestoreStage::ALL.iter().map(|s| s.name()).collect();
    assert_eq!(names, vec!["shell", "structure", "interactivity", "full_state"]);
    for (i, s) in RestoreStage::ALL.iter().enumerate() {
        assert_eq!(s.rank() as usize, i);
        assert_eq!(RestoreStage::at(i as u8), *s);
    }
}

#[test]
fn restore_keeps_schema_and_payload_members() {
    let blob = Blob::new("test://app", obj(vec![("count", Json::Number(stateless_architecture::JsonNumber::PosInt(42)))]));
    let restored = restore(&blob).unwrap();
    assert_eq!(restored.schema, "test://app");
    assert_eq!(restored.payload.get("count").and_then(|c| c.as_i64()), Some(42));
    assert_eq!(restored.seal, None);
    assert_eq!(restored.parent.as_ref().map(|p| p.len()), Some(64));
}

#[test]
fn restore_leaves_a_non_object_payload_alone() {
    let blob = Blob::new("test://schema", Json::Bool(false));
    let restored = restore(&blob).unwrap();
    assert_eq!(restored.payload, Json::Bool(false));
}

#[test]
fn restore_rejects_a_blob_without_version() {
    let mut blob = Blob::new("test://schema", Json::new_object());
    blob.version.clear();
    let mut orch = RestoreOrchestrator::new(RestoreStage::FullState);
    match orch.restore(&blob) {
        Err(RestoreError::Blob(m)) => assert_eq!(m, "validation failed: version is required"),
        other => panic!("expected a blob error, got {:?}", other.map(|(_, s)| s)),
    }
    let mut blob = Blob::new("test://schema", Json::new_object());
    blob.schema.clear();
    match restore(&blob) {
        Err(RestoreError::Blob(m)) => assert_eq!(m, "validation failed: schema is required"),
        _ => panic!("expected a blob error"),
    }
}

#[test]
fn restoring_further_keeps_earlier_marks() {
    let blob = Blob::new("test://schema", Json::new_object());
    for (i, target) in RestoreStage::ALL.iter().enumerate() {
        let mut orch = RestoreOrchestrator::new(*target);
        let (restored, stage) = orch.restore(&blob).unwrap();
        assert_eq!(stage, *target);
        for (j, s) in RestoreStage::ALL.iter().enumerate() {
            let key = format!("_restored_{}", s.name());
            assert_eq!(has(&restored.payload, &key), j <= i);
        }
    }
}

#[test]
fn shell_restore_is_a_child_of_the_input() {
    let blob = Blob::new("test://schema", Json::new_object());
    let mut orch = RestoreOrchestrator::new(RestoreStage::Shell);
    let (restored, stage) = orch.restore(&blob).unwrap();
    assert_eq!(stage, RestoreStage::Shell);
    assert_eq!(restored.parent, Some(blob.hash().unwrap()));
    assert_eq!(restored.payload.to_text(), "{\"_restored_shell\":true}");
}

#[test]
fn full_restore_writes_members_in_key_order() {
    let blob = Blob::new("test://schema", obj(vec![("a", Json::Null)]));
    let restored = restore(&blob).unwrap();
    assert_eq!(
        restored.payload.to_text(),
        "{\"_restored_full_state\":true,\"_restored_interactivity\":true,\"_restored_shell\":true,\"_restored_structure\":true,\"a\":null}"
    );
}

#[test]
fn restore_matches_the_full_orchestrator_at_one_clock_reading() {
    let blob = Blob::new_at("test://schema", obj(vec![("count", Json::Number(JsonNumber::PosInt(42)))]), 7);
    let restored = restore_at(&blob, 1785960000).unwrap();
    let mut orch = RestoreOrchestrator::new(RestoreStage::FullState);
    let (by_orch, stage) = orch.restore_at(&blob, 1785960000).unwrap();
    assert_eq!(stage, RestoreStage::FullState);
    assert_eq!(restored, by_orch);
    assert_eq!(restored.timestamp, "2026-08-05T20:00:00Z");
    assert_eq!(restored.payload.get("count"), Some(&Json::Number(JsonNumber::PosInt(42))));
    let mut bad = blob.clone();
    bad.version.clear();
    assert_eq!(restore_at(&bad, 0), Err(RestoreError::Blob("validation failed: version is required".into())));
    let mut orch = RestoreOrchestrator::new(RestoreStage::Structure);
    assert_eq!(
        orch.restore_at(&bad, 0).map(|(_, s)| s),
        Err(RestoreError::Blob("validation failed: version is required".into()))
    );
}
