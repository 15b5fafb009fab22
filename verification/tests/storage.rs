use legend::codec::{
    decode_state, encode_state, feature_from_record, feature_to_record, state_from_record,
    state_to_record, status_from_index, status_index,
};
use legend::error::{DecodeStage, EncodeStage, LegendError};
use legend::storage::{is_initialized, load_state, read_failed, save_state, step_failed, FileStep, Store};
use legend::types::{Feature, FeatureStatus, LegendState};

fn corrupt_at(error: &LegendError) -> Option<DecodeStage> {
    match error {
        LegendError::CorruptState { stage, .. } => Some(*stage),
        _ => None,
    }
}

fn written_bytes(steps: &[FileStep]) -> Vec<u8> {
    match &steps[0] {
        FileStep::Write { bytes, .. } => bytes.clone(),
        FileStep::Rename { .. } => panic!("a save starts with a write"),
    }
}

fn sample_state() -> LegendState {
    let mut state = LegendState::new_at("Projet \u{1F680} \u{00E9}t\u{00E9}".to_string(), 1_700_000_000);
    let mut first = Feature::new_at(
        "auth-login".to_string(),
        "Login \u{2713}".to_string(),
        "security".to_string(),
        "\u{65E5}\u{672C}\u{8A9E} description".to_string(),
        1_700_000_100,
    );
    first.tags = vec!["backend".to_string(), "backend".to_string(), "".to_string()];
    first.status = FeatureStatus::Blocked;
    first.context = Some(String::new());
    first.files_involved = vec!["src/auth.rs".to_string()];
    first.last_updated = 1_700_000_200;
    first.recency_score = 0.37f64.to_bits();
    state.features.push(first);
    state.features.push(Feature::new_at(
        "plain".to_string(),
        "Plain".to_string(),
        "misc".to_string(),
        "nothing optional".to_string(),
        1_700_000_300,
    ));
    state.last_updated = 1_700_000_400;
    state
}

fn assert_same_state(left: &LegendState, right: &LegendState) {
    assert_eq!(left.project_name, right.project_name);
    assert_eq!(left.created_at, right.created_at);
    assert_eq!(left.last_updated, right.last_updated);
    assert_eq!(left.features.len(), right.features.len());
    for (a, b) in left.features.iter().zip(right.features.iter()) {
        assert_eq!(a.id, b.id);
        assert_eq!(a.name, b.name);
        assert_eq!(a.domain, b.domain);
        assert_eq!(a.tags, b.tags);
        assert_eq!(a.status, b.status);
        assert_eq!(a.description, b.description);
        assert_eq!(a.context, b.context);
        assert_eq!(a.files_involved, b.files_involved);
        assert_eq!(a.created_at, b.created_at);
        assert_eq!(a.last_updated, b.last_updated);
        assert_eq!(a.recency_score, b.recency_score);
    }
}

#[test]
fn test_save_load_roundtrip() {
    let mut state = LegendState::new("Test Project".to_string());

    let feature = Feature::new(
        "test-feature".to_string(),
        "Test Feature".to_string(),
        "testing".to_string(),
        "A test feature for serialization".to_string(),
    );

    state.add_feature(feature);

    let store = Store::at_default_path();
    let steps = save_state(&store, &state).expect("Failed to save state");
    let stored = written_bytes(&steps);

    let loaded = load_state(Some(&stored)).expect("Failed to load state");

    assert_eq!(loaded.project_name, "Test Project");
    assert_eq!(loaded.features.len(), 1);
    assert_eq!(loaded.features[0].id, "test-feature");
    assert_eq!(loaded.features[0].domain, "testing");
}

#[test]
fn test_load_nonexistent() {
    let result = load_state(None);
    assert!(result.is_err());
    let error = result.unwrap_err();
    assert_eq!(error, LegendError::NotInitialized);
    assert!(error.message().contains("not initialized"));
    assert_eq!(error.message(), "Legend not initialized. Run 'legend init' first.");
}

#[test]
fn round_trip_keeps_unicode_and_absent_and_empty_fields() {
    let state = sample_state();
    let bytes = encode_state(&state).unwrap();
    let loaded = decode_state(&bytes).unwrap();
    assert_same_state(&loaded, &state);
    assert_eq!(loaded.features[0].context, Some(String::new()));
    assert_eq!(loaded.features[1].context, None);
    assert!(loaded.features[1].tags.is_empty());
    assert!(loaded.features[1].files_involved.is_empty());
}

#[test]
fn round_trip_of_a_state_without_features() {
    let state = LegendState::new_at(String::new(), -5);
    let loaded = decode_state(&encode_state(&state).unwrap()).unwrap();
    assert_same_state(&loaded, &state);
    assert!(loaded.features.is_empty());
}

#[test]
fn encoded_bytes_are_the_compressed_binary_form() {
    let mut state = LegendState::new_at("T".to_string(), 1);
    state.last_updated = 2;
    let bytes = encode_state(&state).unwrap();

    let mut serialized: Vec<u8> = Vec::new();
    serialized.extend_from_slice(&1u64.to_le_bytes());
    serialized.push(b'T');
    serialized.extend_from_slice(&0u64.to_le_bytes());
    serialized.extend_from_slice(&1i64.to_le_bytes());
    serialized.extend_from_slice(&2i64.to_le_bytes());
    assert_eq!(serialized.len(), 33);

    assert_eq!(&bytes[..4], &33u32.to_le_bytes());
    assert!(bytes.len() > 4);
    assert_ne!(bytes, serialized);
    assert_eq!(lz4::block::decompress(&bytes, None).unwrap(), serialized);
    assert_eq!(bytes, lz4::block::compress(&serialized, None, true).unwrap());
}

#[test]
fn serialized_form_is_that_of_the_fields_in_order() {
    let state = sample_state();
    let serialized = lz4::block::decompress(&encode_state(&state).unwrap(), None).unwrap();
    let features: Vec<_> = state
        .features
        .iter()
        .map(|f| {
            (
                f.id.as_str(),
                f.name.as_str(),
                f.domain.as_str(),
                &f.tags,
                status_index(f.status),
                f.description.as_str(),
                &f.context,
                &f.files_involved,
                f.created_at,
                f.last_updated,
                f64::from_bits(f.recency_score),
            )
        })
        .collect();
    let expected =
        bincode::serialize(&(state.project_name.as_str(), features, state.created_at, state.last_updated)).unwrap();
    assert_eq!(serialized, expected);
}

#[test]
fn state_written_with_a_float_score_loads() {
    let features = vec![(
        "id", "Name", "dom", vec!["t"], 3u32, "desc", Some("ctx"), Vec::<String>::new(), 10i64, 20i64, 0.5f64,
    )];
    let serialized = bincode::serialize(&("Proj", features, 1i64, 30i64)).unwrap();
    let stored = lz4::block::compress(&serialized, None, true).unwrap();
    let state = load_state(Some(&stored)).unwrap();
    assert_eq!(state.project_name, "Proj");
    assert_eq!(state.created_at, 1);
    assert_eq!(state.last_updated, 30);
    assert_eq!(state.features.len(), 1);
    let feature = &state.features[0];
    assert_eq!(feature.id, "id");
    assert_eq!(feature.name, "Name");
    assert_eq!(feature.domain, "dom");
    assert_eq!(feature.tags, vec!["t".to_string()]);
    assert_eq!(feature.status, FeatureStatus::Complete);
    assert_eq!(feature.description, "desc");
    assert_eq!(feature.context, Some("ctx".to_string()));
    assert!(feature.files_involved.is_empty());
    assert_eq!(feature.created_at, 10);
    assert_eq!(feature.last_updated, 20);
    assert_eq!(f64::from_bits(feature.recency_score), 0.5);
}

#[test]
fn short_or_garbled_bytes_are_corrupt() {
    assert_eq!(corrupt_at(&load_state(Some(&[])).unwrap_err()), Some(DecodeStage::Decompress));
    assert_eq!(corrupt_at(&load_state(Some(&[1, 2, 3])).unwrap_err()), Some(DecodeStage::Decompress));
    assert_eq!(
        corrupt_at(&decode_state(&[0xFF, 0xFF, 0xFF, 0xFF, 1, 2, 3]).unwrap_err()),
        Some(DecodeStage::Decompress)
    );
    assert_eq!(
        corrupt_at(&decode_state(&[16, 0, 0, 0, 0xF0, 0xFF, 0xFF]).unwrap_err()),
        Some(DecodeStage::Decompress)
    );
}

#[test]
fn corrupt_errors_carry_what_the_failed_step_said() {
    let said = lz4::block::decompress(&[], None).unwrap_err().to_string();
    assert!(!said.is_empty());
    let error = decode_state(&[]).unwrap_err();
    assert_eq!(error, LegendError::CorruptState { stage: DecodeStage::Decompress, detail: said.clone() });
    assert_eq!(error.message(), format!("Failed to decompress state: {}", said));

    let stored = lz4::block::compress(&[1, 2, 3], None, true).unwrap();
    let said = bincode::deserialize::<(String, Vec<u8>, i64, i64)>(&[1, 2, 3]).unwrap_err().to_string();
    let error = load_state(Some(&stored)).unwrap_err();
    assert_eq!(error, LegendError::CorruptState { stage: DecodeStage::Deserialize, detail: said.clone() });
    assert_eq!(error.message(), format!("Failed to deserialize state: {}", said));
}

#[test]
fn truncated_file_is_corrupt() {
    let bytes = encode_state(&sample_state()).unwrap();
    for keep in [0, 3, 4, bytes.len() / 2, bytes.len() - 1] {
        let result = decode_state(&bytes[..keep]);
        assert!(matches!(result, Err(LegendError::CorruptState { .. })), "kept {} bytes", keep);
    }
}

#[test]
fn payload_that_is_no_state_is_corrupt() {
    let stored = lz4::block::compress(&[1, 2, 3], None, true).unwrap();
    let error = load_state(Some(&stored)).unwrap_err();
    assert_eq!(corrupt_at(&error), Some(DecodeStage::Deserialize));
    assert!(error.message().starts_with("Failed to deserialize state: "));
}

#[test]
fn unknown_status_index_is_corrupt() {
    let features = vec![(
        "id", "Name", "dom", Vec::<String>::new(), 4u32, "desc", None::<String>, Vec::<String>::new(), 1i64, 1i64, 1u64,
    )];
    let serialized = bincode::serialize(&("P", features, 1i64, 1i64)).unwrap();
    let stored = lz4::block::compress(&serialized, None, true).unwrap();
    let error = load_state(Some(&stored)).unwrap_err();
    assert_eq!(
        error,
        LegendError::CorruptState { stage: DecodeStage::Deserialize, detail: "unknown status index".to_string() }
    );
    assert_eq!(error.message(), "Failed to deserialize state: unknown status index");
}

#[test]
fn status_indices_follow_the_order_of_the_statuses() {
    assert_eq!(status_index(FeatureStatus::Pending), 0);
    assert_eq!(status_index(FeatureStatus::InProgress), 1);
    assert_eq!(status_index(FeatureStatus::Blocked), 2);
    assert_eq!(status_index(FeatureStatus::Complete), 3);
    assert_eq!(status_from_index(0), Some(FeatureStatus::Pending));
    assert_eq!(status_from_index(1), Some(FeatureStatus::InProgress));
    assert_eq!(status_from_index(2), Some(FeatureStatus::Blocked));
    assert_eq!(status_from_index(3), Some(FeatureStatus::Complete));
    assert_eq!(status_from_index(4), None);
    assert_eq!(status_from_index(u32::MAX), None);
}

#[test]
fn records_hold_the_fields_in_order() {
    let state = sample_state();
    let record = feature_to_record(&state.features[0]);
    assert_eq!(record.0, "auth-login");
    assert_eq!(record.1, "Login \u{2713}");
    assert_eq!(record.2, "security");
    assert_eq!(record.3, vec!["backend".to_string(), "backend".to_string(), "".to_string()]);
    assert_eq!(record.4, 2);
    assert_eq!(record.6, Some(String::new()));
    assert_eq!(record.7, vec!["src/auth.rs".to_string()]);
    assert_eq!(record.8, 1_700_000_100);
    assert_eq!(record.9, 1_700_000_200);
    assert_eq!(record.10, 0.37f64.to_bits());
    let back = feature_from_record(record).unwrap();
    assert_eq!(back.status, FeatureStatus::Blocked);
    assert_eq!(back.id, "auth-login");

    let whole = state_to_record(&state);
    assert_eq!(whole.0, state.project_name);
    assert_eq!(whole.1.len(), 2);
    assert_eq!(whole.2, 1_700_000_000);
    assert_eq!(whole.3, 1_700_000_400);
    assert_same_state(&state_from_record(whole).unwrap(), &state);
}

#[test]
fn record_with_unknown_status_holds_no_state() {
    let mut record = state_to_record(&sample_state());
    record.1[1].4 = 9;
    assert!(state_from_record(record).is_none());
    let mut feature = feature_to_record(&sample_state().features[0]);
    feature.4 = 4;
    assert!(feature_from_record(feature).is_none());
}

#[test]
fn save_asks_for_a_write_to_the_temp_path_and_a_rename() {
    let store = Store::new("some/dir/state.lz4".to_string());
    assert_eq!(store.temp_path(), "some/dir/state.lz4.tmp");
    let state = sample_state();
    let steps = save_state(&store, &state).unwrap();
    assert_eq!(
        steps,
        vec![
            FileStep::Write { path: "some/dir/state.lz4.tmp".to_string(), bytes: encode_state(&state).unwrap() },
            FileStep::Rename { from: "some/dir/state.lz4.tmp".to_string(), to: "some/dir/state.lz4".to_string() },
        ]
    );
    assert_eq!(Store::at_default_path().path, ".legend/state.lz4");
    assert_eq!(Store::at_default_path().temp_path(), ".legend/state.lz4.tmp");
}

#[test]
fn is_initialized_looks_at_presence_only() {
    assert!(!is_initialized(None));
    assert!(is_initialized(Some(&[])));
    assert!(is_initialized(Some(&[0xde, 0xad])));
    assert!(is_initialized(Some(&encode_state(&sample_state()).unwrap())));
}

#[test]
fn file_failures_become_io_errors_with_the_detail() {
    let write = FileStep::Write { path: "p.tmp".to_string(), bytes: vec![1] };
    let rename = FileStep::Rename { from: "p.tmp".to_string(), to: "p".to_string() };
    assert_eq!(
        step_failed(&write, "disk full"),
        LegendError::IOError("Failed to write temp file: disk full".to_string())
    );
    assert_eq!(
        step_failed(&rename, "permission denied").message(),
        "Failed to rename temp file: permission denied"
    );
    assert_eq!(read_failed("denied"), LegendError::IOError("Failed to read state file: denied".to_string()));
}

#[test]
fn encoding_errors_have_their_messages() {
    let serialize = LegendError::SerializationError { stage: EncodeStage::Serialize, detail: "too long".to_string() };
    let compress = LegendError::SerializationError { stage: EncodeStage::Compress, detail: "no room".to_string() };
    assert_eq!(serialize.message(), "Failed to serialize state: too long");
    assert_eq!(compress.message(), "Failed to compress state: no room");
}
