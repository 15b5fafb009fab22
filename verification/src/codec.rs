use crate::error::{DecodeStage, EncodeStage, Failure, LegendError};
use crate::types::{
    feature_views, texts, Feature, FeatureStatus, FeatureView, LegendState, LegendStateView,
};
use vstd::prelude::*;
use vstd::string::StringExecFns;

verus! {

/// The error type of `bincode`, carried through and never looked into.
#[verifier::external_type_specification]
#[verifier::external_body]
pub struct ExBincodeErrorKind(bincode::ErrorKind);

/// The error type of `lz4`'s block functions, carried through and never
/// looked into.
#[verifier::external_type_specification]
#[verifier::external_body]
pub struct ExIoError(std::io::Error);

/// One feature as it is serialized: its fields in their order, the status by
/// its index.
pub type FeatureRecord = (
    String,
    String,
    String,
    Vec<String>,
    u32,
    String,
    Option<String>,
    Vec<String>,
    i64,
    i64,
    u64,
);

/// A state as it is serialized: its fields in their order.
pub type StateRecord = (String, Vec<FeatureRecord>, i64, i64);

/// The mathematical content of a [`FeatureRecord`].
pub type FeatureRecordView = (
    Seq<char>,
    Seq<char>,
    Seq<char>,
    Seq<Seq<char>>,
    u32,
    Seq<char>,
    Option<Seq<char>>,
    Seq<Seq<char>>,
    i64,
    i64,
    u64,
);

/// The mathematical content of a [`StateRecord`].
pub type StateRecordView = (Seq<char>, Seq<FeatureRecordView>, i64, i64);

/// The bytes that `bincode::serialize` gives for a state record, or `None`
/// where it fails.
pub uninterp spec fn bincode_encoding(record: StateRecordView) -> Option<Seq<u8>>;

/// The state record that `bincode::deserialize` reads from `bytes`, or
/// `None` where it fails.
pub uninterp spec fn bincode_decoding(bytes: Seq<u8>) -> Option<StateRecordView>;

/// The bytes that `lz4::block::compress` gives for `data` in its default
/// mode with the size prepended, or `None` where it fails.
pub uninterp spec fn lz4_compressed(data: Seq<u8>) -> Option<Seq<u8>>;

/// The bytes that `lz4::block::decompress` recovers from `bytes`, reading
/// the size from their start, or `None` where it fails.
pub uninterp spec fn lz4_decompressed(bytes: Seq<u8>) -> Option<Seq<u8>>;

/// The number that the first four bytes hold, lowest byte first.
pub open spec fn size_prefix(bytes: Seq<u8>) -> int
    recommends
        bytes.len() >= 4,
{
    bytes[0] + 256 * bytes[1] + 65536 * bytes[2] + 16777216 * bytes[3]
}

/// Calls `bincode::serialize` on a state record. The contract only names
/// what comes back: the bytes are `bincode_encoding` of the record.
#[verifier::external_body]
fn bincode_serialize(record: &StateRecord) -> (result: Result<Vec<u8>, Box<bincode::ErrorKind>>)
    ensures
        match result {
            Ok(bytes) => bincode_encoding(record.deep_view()) == Some(bytes@),
            Err(_) => bincode_encoding(record.deep_view()) is None,
        },
{
    bincode::serialize(record)
}

/// Calls `bincode::deserialize` for a state record. The contract names what
/// comes back as `bincode_decoding` of the bytes, and claims that bytes
/// which `bincode::serialize` gave for a record read back as that record.
#[verifier::external_body]
fn bincode_deserialize(bytes: &[u8]) -> (result: Result<StateRecord, Box<bincode::ErrorKind>>)
    ensures
        match result {
            Ok(read) => {
                &&& bincode_decoding(bytes@) == Some(read.deep_view())
                &&& forall|record: StateRecordView| #[trigger]
                    bincode_encoding(record) == Some(bytes@) ==> read.deep_view() == record
            },
            Err(_) => {
                &&& bincode_decoding(bytes@) is None
                &&& forall|record: StateRecordView| #[trigger]
                    bincode_encoding(record) != Some(bytes@)
            },
        },
{
    bincode::deserialize(bytes)
}

/// Calls `lz4::block::compress` in its default mode with the size
/// prepended. The contract names what comes back as `lz4_compressed` of the
/// data, and claims that on success the data is at most `i32::MAX` bytes
/// long and the output starts with that length in four bytes, lowest first,
/// followed by at least one byte.
#[verifier::external_body]
fn lz4_compress(data: &[u8]) -> (result: Result<Vec<u8>, std::io::Error>)
    ensures
        match result {
            Ok(packed) => {
                &&& lz4_compressed(data@) == Some(packed@)
                &&& data@.len() <= 0x7FFF_FFFF
                &&& packed@.len() > 4
                &&& size_prefix(packed@) == data@.len()
            },
            Err(_) => lz4_compressed(data@) is None,
        },
{
    lz4::block::compress(data, None, true)
}

/// Calls `lz4::block::decompress`, which reads the size from the start of
/// the input. The contract names what comes back as `lz4_decompressed` of
/// the bytes, and claims that on success the input holds at least the four
/// bytes of the size, that the size is at most `i32::MAX` and bounds the
/// length of the output, and that bytes which `lz4::block::compress` gave
/// for some data decompress to that data.
#[verifier::external_body]
fn lz4_decompress(bytes: &[u8]) -> (result: Result<Vec<u8>, std::io::Error>)
    ensures
        match result {
            Ok(data) => {
                &&& lz4_decompressed(bytes@) == Some(data@)
                &&& bytes@.len() >= 4
                &&& size_prefix(bytes@) <= 0x7FFF_FFFF
                &&& data@.len() <= size_prefix(bytes@)
                &&& forall|source: Seq<u8>| #[trigger]
                    lz4_compressed(source) == Some(bytes@) ==> data@ == source
            },
            Err(_) => {
                &&& lz4_decompressed(bytes@) is None
                &&& forall|data: Seq<u8>| #[trigger] lz4_compressed(data) != Some(bytes@)
            },
        },
{
    lz4::block::decompress(bytes, None)
}

/// Renders an error of `bincode` as text with its `to_string`. Nothing is
/// claimed about the text.
#[verifier::external_body]
fn bincode_error_text(error: &bincode::ErrorKind) -> (text: String) {
    error.to_string()
}

/// Renders an error of `lz4`'s block functions as text with its
/// `to_string`. Nothing is claimed about the text.
#[verifier::external_body]
fn io_error_text(error: &std::io::Error) -> (text: String) {
    error.to_string()
}

/// The index under which a status is serialized: its place among the
/// statuses.
pub open spec fn status_index_of(status: FeatureStatus) -> u32 {
    match status {
        FeatureStatus::Pending => 0,
        FeatureStatus::InProgress => 1,
        FeatureStatus::Blocked => 2,
        FeatureStatus::Complete => 3,
    }
}

/// The status that is serialized under `index`, if there is one.
pub open spec fn status_at(index: u32) -> Option<FeatureStatus> {
    if index == 0 {
        Some(FeatureStatus::Pending)
    } else if index == 1 {
        Some(FeatureStatus::InProgress)
    } else if index == 2 {
        Some(FeatureStatus::Blocked)
    } else if index == 3 {
        Some(FeatureStatus::Complete)
    } else {
        None
    }
}

/// The index under which `status` is serialized.
pub fn status_index(status: FeatureStatus) -> (index: u32)
    ensures
        index == status_index_of(status),
        status_at(index) == Some(status),
{
    match status {
        FeatureStatus::Pending => 0,
        FeatureStatus::InProgress => 1,
        FeatureStatus::Blocked => 2,
        FeatureStatus::Complete => 3,
    }
}

/// The status that is serialized under `index`, if there is one.
pub fn status_from_index(index: u32) -> (status: Option<FeatureStatus>)
    ensures
        status == status_at(index),
{
    if index == 0 {
        Some(FeatureStatus::Pending)
    } else if index == 1 {
        Some(FeatureStatus::InProgress)
    } else if index == 2 {
        Some(FeatureStatus::Blocked)
    } else if index == 3 {
        Some(FeatureStatus::Complete)
    } else {
        None
    }
}

/// The record of a feature.
pub open spec fn feature_record(feature: FeatureView) -> FeatureRecordView {
    (
        feature.id,
        feature.name,
        feature.domain,
        feature.tags,
        status_index_of(feature.status),
        feature.description,
        feature.context,
        feature.files_involved,
        feature.created_at,
        feature.last_updated,
        feature.recency_score,
    )
}

/// The feature that a record holds, if its status index names a status.
pub open spec fn feature_of_record(record: FeatureRecordView) -> Option<FeatureView> {
    match status_at(record.4) {
        Some(status) => Some(
            FeatureView {
                id: record.0,
                name: record.1,
                domain: record.2,
                tags: record.3,
                status,
                description: record.5,
                context: record.6,
                files_involved: record.7,
                created_at: record.8,
                last_updated: record.9,
                recency_score: record.10,
            },
        ),
        None => None,
    }
}

/// The record of a state.
pub open spec fn state_record(state: LegendStateView) -> StateRecordView {
    (
        state.project_name,
        state.features.map_values(|f: FeatureView| feature_record(f)),
        state.created_at,
        state.last_updated,
    )
}

/// Whether every feature record of `records` holds a feature.
pub open spec fn all_hold_features(records: Seq<FeatureRecordView>) -> bool {
    forall|i: int| 0 <= i < records.len() ==> (#[trigger] feature_of_record(records[i])) is Some
}

/// The state that a record holds, if every status index in it names a
/// status.
pub open spec fn state_of_record(record: StateRecordView) -> Option<LegendStateView> {
    if all_hold_features(record.1) {
        Some(
            LegendStateView {
                project_name: record.0,
                features: record.1.map_values(|r: FeatureRecordView| feature_of_record(r)->0),
                created_at: record.2,
                last_updated: record.3,
            },
        )
    } else {
        None
    }
}

/// A state's record holds that state again.
pub proof fn lemma_record_round_trip(state: LegendStateView)
    ensures
        state_of_record(state_record(state)) == Some(state),
{
    let record = state_record(state);
    assert forall|i: int| 0 <= i < record.1.len() implies (#[trigger] feature_of_record(
        record.1[i],
    )) == Some(state.features[i]) by {}
    assert(record.1.map_values(|r: FeatureRecordView| feature_of_record(r)->0) =~= state.features);
}

/// The record under which `feature` is serialized.
pub fn feature_to_record(feature: &Feature) -> (record: FeatureRecord)
    ensures
        record.deep_view() == feature_record(feature@),
{
    let tags = feature.tags.clone();
    let files = feature.files_involved.clone();
    let context = feature.context.clone();
    let record = (
        feature.id.clone(),
        feature.name.clone(),
        feature.domain.clone(),
        tags,
        status_index(feature.status),
        feature.description.clone(),
        context,
        files,
        feature.created_at,
        feature.last_updated,
        feature.recency_score,
    );
    proof {
        assert(record.3.deep_view() =~= texts(feature.tags@));
        assert(record.7.deep_view() =~= texts(feature.files_involved@));
    }
    record
}

/// The feature that `record` holds, unless its status index names no
/// status.
pub fn feature_from_record(record: FeatureRecord) -> (feature: Option<Feature>)
    ensures
        match feature {
            Some(held) => feature_of_record(record.deep_view()) == Some(held@),
            None => feature_of_record(record.deep_view()) is None,
        },
{
    let (
        id,
        name,
        domain,
        tags,
        index,
        description,
        context,
        files_involved,
        created_at,
        last_updated,
        recency_score,
    ) = record;
    match status_from_index(index) {
        Some(status) => {
            let held = Feature {
                id,
                name,
                domain,
                tags,
                status,
                description,
                context,
                files_involved,
                created_at,
                last_updated,
                recency_score,
            };
            proof {
                assert(record.3.deep_view() =~= texts(held.tags@));
                assert(record.7.deep_view() =~= texts(held.files_involved@));
            }
            Some(held)
        },
        None => None,
    }
}

/// The record under which `state` is serialized.
pub fn state_to_record(state: &LegendState) -> (record: StateRecord)
    ensures
        record.deep_view() == state_record(state@),
{
    let mut records: Vec<FeatureRecord> = Vec::new();
    let mut i: usize = 0;
    while i < state.features.len()
        invariant
            i <= state.features.len(),
            records@.len() == i,
            forall|j: int|
                0 <= j < i ==> (#[trigger] records@[j]).deep_view() == feature_record(
                    state.features@[j]@,
                ),
        decreases state.features.len() - i,
    {
        records.push(feature_to_record(&state.features[i]));
        i += 1;
    }
    let record = (state.project_name.clone(), records, state.created_at, state.last_updated);
    proof {
        assert(record.1.deep_view() =~= state_record(state@).1);
    }
    record
}

/// The state that `record` holds, unless a status index in it names no
/// status.
pub fn state_from_record(record: StateRecord) -> (state: Option<LegendState>)
    ensures
        match state {
            Some(held) => state_of_record(record.deep_view()) == Some(held@),
            None => state_of_record(record.deep_view()) is None,
        },
{
    let ghost view = record.deep_view();
    let (project_name, records, created_at, last_updated) = record;
    let mut features: Vec<Feature> = Vec::new();
    for feature_record in iter: records
        invariant
            iter.seq() == records@,
            view == record.deep_view(),
            view.1 == records.deep_view(),
            features@.len() == iter.index(),
            forall|j: int|
                0 <= j < iter.index() ==> feature_of_record(#[trigger] view.1[j]) == Some(
                    features@[j]@,
                ),
    {
        assert(view.1[iter.index() as int] == feature_record.deep_view());
        match feature_from_record(feature_record) {
            Some(feature) => {
                features.push(feature);
            },
            None => {
                assert(feature_of_record(view.1[iter.index() as int]) is None);
                return None;
            },
        }
    }
    let held = LegendState { project_name, features, created_at, last_updated };
    proof {
        assert(feature_views(held.features@) =~= view.1.map_values(
            |r: FeatureRecordView| feature_of_record(r)->0,
        ));
    }
    Some(held)
}

/// What encoding a state gives: its record serialized, then compressed; or
/// the step that failed.
pub open spec fn encoded(state: LegendStateView) -> Result<Seq<u8>, Failure> {
    match bincode_encoding(state_record(state)) {
        None => Err(Failure::SerializationError(EncodeStage::Serialize)),
        Some(payload) => match lz4_compressed(payload) {
            None => Err(Failure::SerializationError(EncodeStage::Compress)),
            Some(bytes) => Ok(bytes),
        },
    }
}

/// What decoding stored bytes gives: the bytes decompressed, then read as a
/// record that holds a state; or the step that failed. A status index that
/// names no status fails the reading.
pub open spec fn decoded(bytes: Seq<u8>) -> Result<LegendStateView, Failure> {
    match lz4_decompressed(bytes) {
        None => Err(Failure::CorruptState(DecodeStage::Decompress)),
        Some(payload) => match bincode_decoding(payload) {
            None => Err(Failure::CorruptState(DecodeStage::Deserialize)),
            Some(record) => match state_of_record(record) {
                None => Err(Failure::CorruptState(DecodeStage::Deserialize)),
                Some(state) => Ok(state),
            },
        },
    }
}

/// The content of what an encoding returns: the bytes, or what failed.
pub open spec fn encoding_view(result: Result<Vec<u8>, LegendError>) -> Result<
    Seq<u8>,
    Failure,
> {
    match result {
        Ok(bytes) => Ok(bytes@),
        Err(error) => Err(error@.failure()),
    }
}

/// The content of what a decoding returns: the state, or what failed.
pub open spec fn decoding_view(result: Result<LegendState, LegendError>) -> Result<
    LegendStateView,
    Failure,
> {
    match result {
        Ok(state) => Ok(state@),
        Err(error) => Err(error@.failure()),
    }
}

/// Encodes the whole state: serialized in the compact binary form, then
/// compressed. The bytes start with the length of the serialized form in
/// four bytes, lowest first. An error carries what the step that failed
/// said; the contract speaks of the step only.
pub fn encode_state(state: &LegendState) -> (result: Result<Vec<u8>, LegendError>)
    ensures
        encoding_view(result) == encoded(state@),
        result matches Ok(bytes) ==> bytes@.len() > 4 && size_prefix(bytes@) == bincode_encoding(
            state_record(state@),
        )->0.len(),
{
    let record = state_to_record(state);
    let payload = match bincode_serialize(&record) {
        Ok(payload) => payload,
        Err(error) => {
            return Err(
                LegendError::SerializationError {
                    stage: EncodeStage::Serialize,
                    detail: bincode_error_text(&*error),
                },
            );
        },
    };
    match lz4_compress(payload.as_slice()) {
        Ok(bytes) => Ok(bytes),
        Err(error) => Err(
            LegendError::SerializationError {
                stage: EncodeStage::Compress,
                detail: io_error_text(&error),
            },
        ),
    }
}

/// Decodes stored bytes into a state, or says which step failed and what
/// it said; the contract speaks of the step only.
///
/// Bytes that [`encode_state`] gave for a state decode to that state.
/// Fewer than four bytes never decode: they cannot hold the length that
/// the stored form starts with.
pub fn decode_state(bytes: &[u8]) -> (result: Result<LegendState, LegendError>)
    ensures
        decoding_view(result) == decoded(bytes@),
        forall|state: LegendStateView| #[trigger]
            encoded(state) == Ok::<Seq<u8>, Failure>(bytes@) ==> decoding_view(result)
                == Ok::<LegendStateView, Failure>(state),
        bytes@.len() < 4 ==> decoding_view(result) == Err::<LegendStateView, Failure>(
            Failure::CorruptState(DecodeStage::Decompress),
        ),
{
    let payload = match lz4_decompress(bytes) {
        Ok(payload) => payload,
        Err(error) => {
            return Err(
                LegendError::CorruptState {
                    stage: DecodeStage::Decompress,
                    detail: io_error_text(&error),
                },
            );
        },
    };
    let record = match bincode_deserialize(payload.as_slice()) {
        Ok(record) => record,
        Err(error) => {
            return Err(
                LegendError::CorruptState {
                    stage: DecodeStage::Deserialize,
                    detail: bincode_error_text(&*error),
                },
            );
        },
    };
    let ghost read = record.deep_view();
    let result = match state_from_record(record) {
        Some(state) => Ok(state),
        None => Err(
            LegendError::CorruptState {
                stage: DecodeStage::Deserialize,
                detail: String::from_str("unknown status index"),
            },
        ),
    };
    proof {
        assert forall|state: LegendStateView| #[trigger]
            encoded(state) == Ok::<Seq<u8>, Failure>(bytes@) implies decoding_view(result)
            == Ok::<LegendStateView, Failure>(state) by {
            let serialized = bincode_encoding(state_record(state))->0;
            assert(lz4_compressed(serialized) == Some(bytes@));
            assert(payload@ == serialized);
            assert(bincode_encoding(state_record(state)) == Some(payload@));
            assert(read == state_record(state));
            lemma_record_round_trip(state);
        }
    }
    result
}

} // verus!
