use liveness::models::{
    catalog_entry, pick_best, select_best_models, sort_versions, ModelCandidate, ModelMetadata,
};

fn meta(accuracy_micro: Option<u64>) -> ModelMetadata {
    ModelMetadata {
        name: "det".to_owned(),
        version: "v".to_owned(),
        url: "file:model".to_owned(),
        sha256: "0".to_owned(),
        inputs: Vec::new(),
        license: "mit".to_owned(),
        accuracy_micro,
    }
}

fn candidate(version: &str, accuracy_micro: Option<u64>) -> ModelCandidate {
    ModelCandidate {
        version: version.to_owned(),
        metadata: meta(accuracy_micro),
        path: format!("models/x/{}/model.onnx", version),
    }
}

#[test]
fn sort_versions_orders_lexicographically() {
    let sorted = sort_versions(vec![
        "0010".to_owned(),
        "0002".to_owned(),
        "0001".to_owned(),
        "0002".to_owned(),
    ]);
    assert_eq!(sorted, vec!["0001", "0002", "0002", "0010"]);
}

#[test]
fn catalog_entry_keeps_only_flagged_names() {
    let listing = vec![
        ("0003".to_owned(), true),
        ("junk".to_owned(), false),
        ("0001".to_owned(), true),
    ];
    let entry = catalog_entry("face_detection".to_owned(), &listing);
    assert_eq!(entry.kind, "face_detection");
    assert_eq!(entry.versions, vec!["0001", "0003"]);
}

#[test]
fn pick_best_prefers_higher_accuracy() {
    let best = pick_best(vec![
        candidate("0001", Some(900_000)),
        candidate("0002", Some(950_000)),
        candidate("0003", Some(800_000)),
    ])
    .unwrap();
    assert_eq!(best.version, "0002");
}

#[test]
fn pick_best_breaks_ties_by_descending_version() {
    let best = pick_best(vec![
        candidate("0001", Some(900_000)),
        candidate("0003", Some(900_000)),
        candidate("0002", Some(900_000)),
    ])
    .unwrap();
    assert_eq!(best.version, "0003");
}

#[test]
fn pick_best_ranks_missing_accuracy_last() {
    let best = pick_best(vec![
        candidate("0009", None),
        candidate("0001", Some(100)),
    ])
    .unwrap();
    assert_eq!(best.version, "0001");
}

#[test]
fn pick_best_of_nothing_is_none() {
    assert!(pick_best(Vec::new()).is_none());
}

#[test]
fn select_best_models_labels_kinds() {
    let selected = select_best_models(
        vec![candidate("0001", Some(500_000))],
        Vec::new(),
    );
    let fd = selected.face_detection.unwrap();
    assert_eq!(fd.kind, "face_detection");
    assert_eq!(fd.version, "0001");
    assert!(selected.liveness.is_none());
}
