use vstd::prelude::*;
use vstd::string::StringExecFns;

verus! {

/// A field that a change must carry to create a feature.
#[derive(Debug, Clone, Copy, PartialEq, Eq, Structural)]
pub enum RequiredField {
    Name,
    Domain,
    Description,
}

/// The step of decoding a stored snapshot that failed.
#[derive(Debug, Clone, Copy, PartialEq, Eq, Structural)]
pub enum DecodeStage {
    Decompress,
    Deserialize,
}

/// The step of encoding a snapshot that failed.
#[derive(Debug, Clone, Copy, PartialEq, Eq, Structural)]
pub enum EncodeStage {
    Serialize,
    Compress,
}

/// What can go wrong when a snapshot is loaded, merged or saved.
#[derive(Debug, Clone, PartialEq, Eq)]
pub enum LegendError {
    /// Nothing is stored at the canonical path yet.
    NotInitialized,
    /// What is stored at the canonical path does not decode; `detail` is
    /// what the step that failed said of it.
    CorruptState { stage: DecodeStage, detail: String },
    /// Reading, writing or renaming a file failed; the text says how.
    IOError(String),
    /// A change would create the feature `id` but lacks `field`.
    MissingRequiredField { id: String, field: RequiredField },
    /// The snapshot in memory does not encode; `detail` is what the step
    /// that failed said of it.
    SerializationError { stage: EncodeStage, detail: String },
}

/// The mathematical content of a [`LegendError`].
pub enum LegendErrorView {
    NotInitialized,
    CorruptState { stage: DecodeStage, detail: Seq<char> },
    IOError(Seq<char>),
    MissingRequiredField { id: Seq<char>, field: RequiredField },
    SerializationError { stage: EncodeStage, detail: Seq<char> },
}

/// What failed: an error without what the step that failed said of it,
/// which is for people to read and which no contract speaks of.
pub enum Failure {
    NotInitialized,
    CorruptState(DecodeStage),
    IOError(Seq<char>),
    MissingRequiredField { id: Seq<char>, field: RequiredField },
    SerializationError(EncodeStage),
}

impl View for LegendError {
    type V = LegendErrorView;

    open spec fn view(&self) -> LegendErrorView {
        match *self {
            LegendError::NotInitialized => LegendErrorView::NotInitialized,
            LegendError::CorruptState { stage, detail } => LegendErrorView::CorruptState {
                stage,
                detail: detail@,
            },
            LegendError::IOError(text) => LegendErrorView::IOError(text@),
            LegendError::MissingRequiredField { id, field } => LegendErrorView::MissingRequiredField {
                id: id@,
                field,
            },
            LegendError::SerializationError { stage, detail } => LegendErrorView::SerializationError {
                stage,
                detail: detail@,
            },
        }
    }
}

impl RequiredField {
    /// The field's name as it is written in an update batch.
    pub open spec fn label_text(self) -> Seq<char> {
        match self {
            RequiredField::Name => "name"@,
            RequiredField::Domain => "domain"@,
            RequiredField::Description => "description"@,
        }
    }

    /// The field's name as it is written in an update batch.
    pub fn label(&self) -> (label: &'static str)
        ensures
            label@ == self.label_text(),
    {
        match self {
            RequiredField::Name => "name",
            RequiredField::Domain => "domain",
            RequiredField::Description => "description",
        }
    }
}

impl DecodeStage {
    /// The words that report a failure of this step.
    pub open spec fn failure_text(self) -> Seq<char> {
        match self {
            DecodeStage::Decompress => "Failed to decompress state: "@,
            DecodeStage::Deserialize => "Failed to deserialize state: "@,
        }
    }
}

impl EncodeStage {
    /// The words that report a failure of this step.
    pub open spec fn failure_text(self) -> Seq<char> {
        match self {
            EncodeStage::Serialize => "Failed to serialize state: "@,
            EncodeStage::Compress => "Failed to compress state: "@,
        }
    }
}

impl LegendErrorView {
    /// What failed, without the detail.
    pub open spec fn failure(self) -> Failure {
        match self {
            LegendErrorView::NotInitialized => Failure::NotInitialized,
            LegendErrorView::CorruptState { stage, .. } => Failure::CorruptState(stage),
            LegendErrorView::IOError(text) => Failure::IOError(text),
            LegendErrorView::MissingRequiredField { id, field } => Failure::MissingRequiredField {
                id,
                field,
            },
            LegendErrorView::SerializationError { stage, .. } => Failure::SerializationError(stage),
        }
    }

    /// The sentence that reports the error.
    pub open spec fn message_text(self) -> Seq<char> {
        match self {
            LegendErrorView::NotInitialized => "Legend not initialized. Run 'legend init' first."@,
            LegendErrorView::CorruptState { stage, detail } => stage.failure_text() + detail,
            LegendErrorView::IOError(text) => text,
            LegendErrorView::MissingRequiredField { id, field } => "New feature '"@ + id
                + "' requires '"@ + field.label_text() + "' field"@,
            LegendErrorView::SerializationError { stage, detail } => stage.failure_text() + detail,
        }
    }
}

impl LegendError {
    /// The sentence that reports the error, naming the feature and the field
    /// or carrying what the step that failed said.
    pub fn message(&self) -> (message: String)
        ensures
            message@ == self@.message_text(),
    {
        match self {
            LegendError::NotInitialized => String::from_str(
                "Legend not initialized. Run 'legend init' first.",
            ),
            LegendError::CorruptState { stage, detail } => {
                let mut message = match stage {
                    DecodeStage::Decompress => String::from_str("Failed to decompress state: "),
                    DecodeStage::Deserialize => String::from_str("Failed to deserialize state: "),
                };
                message.append(detail.as_str());
                message
            },
            LegendError::IOError(text) => text.clone(),
            LegendError::MissingRequiredField { id, field } => {
                let mut message = String::from_str("New feature '");
                message.append(id.as_str());
                message.append("' requires '");
                message.append(field.label());
                message.append("' field");
                message
            },
            LegendError::SerializationError { stage, detail } => {
                let mut message = match stage {
                    EncodeStage::Serialize => String::from_str("Failed to serialize state: "),
                    EncodeStage::Compress => String::from_str("Failed to compress state: "),
                };
                message.append(detail.as_str());
                message
            },
        }
    }
}

} // verus!
