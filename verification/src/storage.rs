use crate::codec::{decode_state, decoded, decoding_view, encode_state, encoded};
use crate::error::{Failure, LegendError, LegendErrorView};
use crate::types::{LegendState, LegendStateView};
use vstd::prelude::*;
use vstd::string::StringExecFns;

verus! {

/// The store at one path: the canonical path of the state file. It is
/// handed to every operation that needs the path, so that a store can stand
/// anywhere.
#[derive(Debug, Clone, PartialEq, Eq)]
pub struct Store {
    pub path: String,
}

/// One step on the file system that the library asks for.
#[derive(Debug, Clone, PartialEq, Eq)]
pub enum FileStep {
    /// Write `bytes` to `path`, replacing what is there.
    Write { path: String, bytes: Vec<u8> },
    /// Rename `from` to `to`, replacing what is there, in one move.
    Rename { from: String, to: String },
}

/// The mathematical content of a [`FileStep`].
pub enum FileStepView {
    Write { path: Seq<char>, bytes: Seq<u8> },
    Rename { from: Seq<char>, to: Seq<char> },
}

impl View for FileStep {
    type V = FileStepView;

    open spec fn view(&self) -> FileStepView {
        match *self {
            FileStep::Write { path, bytes } => FileStepView::Write { path: path@, bytes: bytes@ },
            FileStep::Rename { from, to } => FileStepView::Rename { from: from@, to: to@ },
        }
    }
}

/// The contents of a list of steps, in order.
pub open spec fn step_views(steps: Seq<FileStep>) -> Seq<FileStepView> {
    steps.map_values(|s: FileStep| s@)
}

/// The temporary path beside a canonical path: the path with `.tmp` behind
/// it.
pub open spec fn temp_path_of(path: Seq<char>) -> Seq<char> {
    path + ".tmp"@
}

/// The steps that save `bytes` at `path`: write them whole to the temporary
/// path, then rename that to the canonical path.
pub open spec fn save_steps(path: Seq<char>, bytes: Seq<u8>) -> Seq<FileStepView> {
    seq![
        FileStepView::Write { path: temp_path_of(path), bytes },
        FileStepView::Rename { from: temp_path_of(path), to: path },
    ]
}

/// What loading gives for what the canonical path holds: `NotInitialized`
/// where it holds nothing, else what the bytes decode to.
pub open spec fn loaded(stored: Option<Seq<u8>>) -> Result<LegendStateView, Failure> {
    match stored {
        None => Err(Failure::NotInitialized),
        Some(bytes) => decoded(bytes),
    }
}

/// The content of what was read at a path.
pub open spec fn stored_view(stored: Option<&[u8]>) -> Option<Seq<u8>> {
    match stored {
        Some(bytes) => Some(bytes@),
        None => None,
    }
}

impl Store {
    /// The store at `path`.
    pub fn new(path: String) -> (store: Store)
        ensures
            store.path == path,
    {
        Store { path }
    }

    /// The store at `.legend/state.lz4`, below the working directory.
    pub fn at_default_path() -> (store: Store)
        ensures
            store.path@ == ".legend/state.lz4"@,
    {
        Store { path: ".legend/state.lz4".to_owned() }
    }

    /// The temporary path that a save writes to before it renames.
    pub fn temp_path(&self) -> (temp: String)
        ensures
            temp@ == temp_path_of(self.path@),
    {
        let mut temp = self.path.clone();
        temp.append(".tmp");
        temp
    }
}

/// Plans the save of `state` in `store`: encodes the whole state and asks
/// for two steps, the write of all the bytes to the temporary path and the
/// rename of that path to the canonical one. Where encoding fails no step
/// is asked for, so nothing on disk changes.
pub fn save_state(store: &Store, state: &LegendState) -> (result: Result<Vec<FileStep>, LegendError>)
    ensures
        match encoded(state@) {
            Ok(bytes) => result matches Ok(steps) && step_views(steps@) == save_steps(
                store.path@,
                bytes,
            ),
            Err(failure) => result matches Err(reported) && reported@.failure() == failure,
        },
{
    let bytes = encode_state(state)?;
    let mut steps: Vec<FileStep> = Vec::new();
    steps.push(FileStep::Write { path: store.temp_path(), bytes });
    steps.push(FileStep::Rename { from: store.temp_path(), to: store.path.clone() });
    proof {
        assert(step_views(steps@) =~= save_steps(store.path@, bytes@));
    }
    Ok(steps)
}

/// Loads the state from what the canonical path holds: `NotInitialized`
/// where it holds nothing, `CorruptState` where the bytes do not decompress
/// or do not read as a state, else the state.
///
/// What a save wrote loads as the state that was saved.
pub fn load_state(stored: Option<&[u8]>) -> (result: Result<LegendState, LegendError>)
    ensures
        decoding_view(result) == loaded(stored_view(stored)),
        forall|state: LegendStateView| #[trigger]
            encoded(state) == Ok::<Seq<u8>, Failure>(stored_view(stored)->0) && stored
                is Some ==> decoding_view(result) == Ok::<LegendStateView, Failure>(state),
{
    match stored {
        None => Err(LegendError::NotInitialized),
        Some(bytes) => decode_state(bytes),
    }
}

/// Whether a state was ever saved: whether the canonical path holds
/// anything, whatever it is.
pub fn is_initialized(stored: Option<&[u8]>) -> (initialized: bool)
    ensures
        initialized == (stored is Some),
        initialized <==> loaded(stored_view(stored)) != Err::<LegendStateView, Failure>(
            Failure::NotInitialized,
        ),
{
    stored.is_some()
}

/// The sentence that reports a step that failed, ending in what the file
/// system said.
pub open spec fn step_failure_text(step: FileStepView, detail: Seq<char>) -> Seq<char> {
    match step {
        FileStepView::Write { .. } => "Failed to write temp file: "@ + detail,
        FileStepView::Rename { .. } => "Failed to rename temp file: "@ + detail,
    }
}

/// The error for a step that the file system turned down with `detail`.
/// The steps after it are not to be taken.
pub fn step_failed(step: &FileStep, detail: &str) -> (error: LegendError)
    ensures
        error@ == LegendErrorView::IOError(step_failure_text(step@, detail@)),
{
    let mut text = match step {
        FileStep::Write { .. } => String::from_str("Failed to write temp file: "),
        FileStep::Rename { .. } => String::from_str("Failed to rename temp file: "),
    };
    text.append(detail);
    LegendError::IOError(text)
}

/// The error for a canonical path that is there but cannot be read, with
/// what the file system said.
pub fn read_failed(detail: &str) -> (error: LegendError)
    ensures
        error@ == LegendErrorView::IOError("Failed to read state file: "@ + detail@),
{
    let mut text = String::from_str("Failed to read state file: ");
    text.append(detail);
    LegendError::IOError(text)
}

/// A file system as far as the store sees it: what each path holds. A path
/// outside the domain does not exist.
pub type DiskView = Map<Seq<char>, Seq<u8>>;

/// What `path` holds on `disk`, or `None` where it does not exist.
pub open spec fn stored_at(disk: DiskView, path: Seq<char>) -> Option<Seq<u8>> {
    if disk.contains_key(path) {
        Some(disk[path])
    } else {
        None
    }
}

/// The disk after one step was taken whole. A rename of a path that does
/// not exist changes nothing.
pub open spec fn after_step(disk: DiskView, step: FileStepView) -> DiskView {
    match step {
        FileStepView::Write { path, bytes } => disk.insert(path, bytes),
        FileStepView::Rename { from, to } => if disk.contains_key(from) {
            disk.remove(from).insert(to, disk[from])
        } else {
            disk
        },
    }
}

/// The disk after the first `count` of `steps` were taken whole, in order.
pub open spec fn after_steps(disk: DiskView, steps: Seq<FileStepView>, count: nat) -> DiskView
    decreases count,
{
    if count == 0 || count > steps.len() {
        disk
    } else {
        after_step(after_steps(disk, steps, (count - 1) as nat), steps[count - 1])
    }
}

/// A temporary path is never the canonical path it stands beside.
pub proof fn lemma_temp_path_differs(path: Seq<char>)
    ensures
        temp_path_of(path) != path,
{
    reveal_strlit(".tmp");
    assert(temp_path_of(path).len() == path.len() + 4);
}

/// A save is atomic. Until its last step is taken the canonical path holds
/// what it held before: while the temporary file is being written,
/// whatever part of it is there, and once it is written whole. After the
/// rename the canonical path holds all the new bytes and the temporary path
/// is gone. No third path is touched at any point.
pub proof fn lemma_save_is_atomic(disk: DiskView, path: Seq<char>, bytes: Seq<u8>, partial: Seq<u8>)
    ensures
        stored_at(disk.insert(temp_path_of(path), partial), path) == stored_at(disk, path),
        stored_at(after_steps(disk, save_steps(path, bytes), 1), path) == stored_at(disk, path),
        stored_at(after_steps(disk, save_steps(path, bytes), 1), temp_path_of(path)) == Some(bytes),
        stored_at(after_steps(disk, save_steps(path, bytes), 2), path) == Some(bytes),
        stored_at(after_steps(disk, save_steps(path, bytes), 2), temp_path_of(path)) is None,
        forall|other: Seq<char>, count: nat|
            other != path && other != temp_path_of(path) ==> #[trigger] stored_at(
                after_steps(disk, save_steps(path, bytes), count),
                other,
            ) == stored_at(disk, other),
{
    lemma_temp_path_differs(path);
    let steps = save_steps(path, bytes);
    let temp = temp_path_of(path);
    reveal_with_fuel(after_steps, 3);
    assert(after_steps(disk, steps, 0) == disk);
    assert(after_steps(disk, steps, 1) == disk.insert(temp, bytes));
    assert(after_steps(disk, steps, 2) == disk.insert(temp, bytes).remove(temp).insert(path, bytes));
    assert forall|other: Seq<char>, count: nat| other != path && other != temp implies #[trigger] stored_at(
        after_steps(disk, steps, count),
        other,
    ) == stored_at(disk, other) by {
        if count > 2 {
            assert(after_steps(disk, steps, count) == disk);
        } else if count == 2 {
        } else if count == 1 {
        } else {
        }
    }
}

} // verus!
