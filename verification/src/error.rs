//! The one error value that every stage of the analysis reports.

use vstd::prelude::*;

verus! {

/// Why a buffer could not be analysed. No stage recovers from any of these:
/// the caller gets the error and no partial result.
#[derive(Clone, Copy, Debug, PartialEq, Eq, Structural)]
pub enum SaveError {
    /// A required marker is absent, or a record that a marker announces does
    /// not fit into the buffer.
    StructureMismatch,
    /// The skill section holds no base skill.
    NoSkillValidated,
    /// The marker in front of the unlockable items is absent.
    UnlockablesStartMissing,
    /// No unlockable item follows the marker.
    NoUnlockables,
    /// There is no unlockable item from which the inventory could be reached.
    InventoryStartMissing,
    /// A scan was asked to start behind the end of the buffer.
    StartIndexOutOfRange,
    /// No run of inventory chunks starts at the given offset.
    NoChunksFound,
    /// The input that was to be decompressed is not a gzip stream.
    NotCompressed,
    /// A search pattern was rejected by the pattern engine.
    PatternRejected,
    /// The compressor did not finish its stream.
    CompressionFailed,
}

/// The families of failure that a user is shown.
#[derive(Clone, Copy, Debug, PartialEq, Eq, Structural)]
pub enum ErrorKind {
    /// The buffer is not a save file of the expected layout.
    StructuralMismatch,
    /// A section was found and held nothing.
    EmptyExtraction,
    /// The input was not compressed although it was taken to be.
    DecompressionFailure,
    /// The output could not be compressed.
    CompressionFailure,
}

impl SaveError {
    /// The family that the error belongs to.
    pub open spec fn spec_kind(self) -> ErrorKind {
        match self {
            SaveError::NoSkillValidated => ErrorKind::EmptyExtraction,
            SaveError::NoUnlockables => ErrorKind::EmptyExtraction,
            SaveError::NoChunksFound => ErrorKind::EmptyExtraction,
            SaveError::NotCompressed => ErrorKind::DecompressionFailure,
            SaveError::CompressionFailed => ErrorKind::CompressionFailure,
            _ => ErrorKind::StructuralMismatch,
        }
    }

    /// The family that the error belongs to.
    pub fn kind(&self) -> (kind: ErrorKind)
        ensures
            kind == self.spec_kind(),
    {
        match self {
            SaveError::NoSkillValidated => ErrorKind::EmptyExtraction,
            SaveError::NoUnlockables => ErrorKind::EmptyExtraction,
            SaveError::NoChunksFound => ErrorKind::EmptyExtraction,
            SaveError::NotCompressed => ErrorKind::DecompressionFailure,
            SaveError::CompressionFailed => ErrorKind::CompressionFailure,
            _ => ErrorKind::StructuralMismatch,
        }
    }

    /// The text of the message that `message` returns.
    pub open spec fn spec_message(self) -> Seq<char> {
        match self {
            SaveError::StructureMismatch => "It appears the file provided does not fit the save file structure. Please check if the path is set to a valid save file."@,
            SaveError::NoSkillValidated => "In the skill section, the editor could not validate a single skill."@,
            SaveError::UnlockablesStartMissing => "Start pattern(s) for unlockables not found in save"@,
            SaveError::NoUnlockables => "No matching unlockable item strings found. in save"@,
            SaveError::InventoryStartMissing => "There was no match regarding the start index of the inventory."@,
            SaveError::StartIndexOutOfRange => "The start_index must not be greater than the content length."@,
            SaveError::NoChunksFound => "No matches found from the start index."@,
            SaveError::NotCompressed => "Make sure that the file you want to decompress is actually compressed."@,
            SaveError::PatternRejected => "A search pattern of the editor was rejected."@,
            SaveError::CompressionFailed => "The save could not be compressed."@,
        }
    }

    /// The message shown to the user.
    pub fn message(&self) -> (text: String)
        ensures
            text@ == self.spec_message(),
    {
        match self {
            SaveError::StructureMismatch => "It appears the file provided does not fit the save file structure. Please check if the path is set to a valid save file.".to_owned(),
            SaveError::NoSkillValidated => "In the skill section, the editor could not validate a single skill.".to_owned(),
            SaveError::UnlockablesStartMissing => "Start pattern(s) for unlockables not found in save".to_owned(),
            SaveError::NoUnlockables => "No matching unlockable item strings found. in save".to_owned(),
            SaveError::InventoryStartMissing => "There was no match regarding the start index of the inventory.".to_owned(),
            SaveError::StartIndexOutOfRange => "The start_index must not be greater than the content length.".to_owned(),
            SaveError::NoChunksFound => "No matches found from the start index.".to_owned(),
            SaveError::NotCompressed => "Make sure that the file you want to decompress is actually compressed.".to_owned(),
            SaveError::PatternRejected => "A search pattern of the editor was rejected.".to_owned(),
            SaveError::CompressionFailed => "The save could not be compressed.".to_owned(),
        }
    }
}

} // verus!
