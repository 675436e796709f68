//! Writing a configuration file that was not there: a hidden file first, which then takes its
//! place.

use crate::path::{path_text, parts, PathBuf, PathRules};
use crate::state_store::is_renamed;
use crate::text::{concat, concat3, decimal, decimal_text, decode, lossy_text, owned};
use vstd::prelude::*;
use vstd::string::*;
use vstd::utf8::{decode_utf8, valid_utf8};

verus! {

/// The name of a file for use in the name of another one: `config` where it has no name that
/// is text.
pub open spec fn config_file_name(path: Seq<u8>, rules: PathRules) -> Seq<char> {
    let all = parts(path, rules);
    if all.len() > 0 && all.last() is Named && valid_utf8(all.last()->Named_0) {
        decode_utf8(all.last()->Named_0)
    } else {
        "config"@
    }
}

/// The hidden file that is written first.
pub fn temporary_path(path: &PathBuf, process: u64, nonce: &str, rules: PathRules) -> (temporary: PathBuf)
    ensures
        is_renamed(
            path@,
            "."@ + config_file_name(path@, rules) + "."@ + decimal(process as nat) + "."@ + nonce@
                + ".tmp"@,
            temporary@,
            rules,
        ),
{
    let name = match path.file_name(rules) {
        Some(bytes) => match decode(bytes.as_slice()) {
            Some(text) => text,
            None => owned("config"),
        },
        None => owned("config"),
    };
    let mut text = concat3(".", name.as_str(), ".");
    text.push_str(decimal_text(process).as_str());
    text.push_str(".");
    text.push_str(nonce);
    text.push_str(".tmp");
    path.with_file_name(&PathBuf::new(text.as_str()), rules)
}

/// How far the writing got.
#[derive(Debug, PartialEq, Eq)]
pub enum WriteStage {
    CheckTarget,
    CreateParents,
    WriteTemporary,
    CheckTargetAgain,
    Install,
    /// The hidden file is being removed after a failure.
    CleanUp(String),
}

#[verifier::ext_equal]
pub enum WriteStageV {
    CheckTarget,
    CreateParents,
    WriteTemporary,
    CheckTargetAgain,
    Install,
    CleanUp(Seq<char>),
}

impl DeepView for WriteStage {
    type V = WriteStageV;

    open spec fn deep_view(&self) -> WriteStageV {
        match self {
            WriteStage::CheckTarget => WriteStageV::CheckTarget,
            WriteStage::CreateParents => WriteStageV::CreateParents,
            WriteStage::WriteTemporary => WriteStageV::WriteTemporary,
            WriteStage::CheckTargetAgain => WriteStageV::CheckTargetAgain,
            WriteStage::Install => WriteStageV::Install,
            WriteStage::CleanUp(message) => WriteStageV::CleanUp(message@),
        }
    }
}

/// What the file system is asked for at a stage.
#[derive(Debug, Clone, Copy, PartialEq, Eq, Structural)]
pub enum FileCall {
    /// Whether the target exists.
    Exists,
    CreateParents,
    /// The hidden file is to be written; it must not exist.
    WriteTemporary,
    /// The hidden file is to take the place of the target, which must not exist.
    Install,
    RemoveTemporary,
}

/// What the file system said.
#[derive(Debug, PartialEq, Eq)]
pub enum FileReply {
    Exists(bool),
    Done,
    Failed(String),
}

pub open spec fn file_call(stage: WriteStageV) -> FileCall {
    match stage {
        WriteStageV::CheckTarget => FileCall::Exists,
        WriteStageV::CreateParents => FileCall::CreateParents,
        WriteStageV::WriteTemporary => FileCall::WriteTemporary,
        WriteStageV::CheckTargetAgain => FileCall::Exists,
        WriteStageV::Install => FileCall::Install,
        WriteStageV::CleanUp(_) => FileCall::RemoveTemporary,
    }
}

/// Whether a stage can take a reply: whether a file exists is always known.
pub open spec fn takes_reply(stage: WriteStageV, reply: FileReply) -> bool {
    (file_call(stage) == FileCall::Exists) == (reply is Exists)
}

/// What comes next: another stage, or the end, which is an error or success.
#[derive(Debug, PartialEq, Eq)]
pub enum WriteNext {
    Stage(WriteStage),
    Written,
    Failed(String),
}

#[verifier::ext_equal]
pub enum WriteNextV {
    Stage(WriteStageV),
    Written,
    Failed(Seq<char>),
}

impl DeepView for WriteNext {
    type V = WriteNextV;

    open spec fn deep_view(&self) -> WriteNextV {
        match self {
            WriteNext::Stage(stage) => WriteNextV::Stage(stage.deep_view()),
            WriteNext::Written => WriteNextV::Written,
            WriteNext::Failed(message) => WriteNextV::Failed(message@),
        }
    }
}

/// A failure with what was attempted.
pub open spec fn failure(what: Seq<char>, path: Seq<u8>, error: Seq<char>) -> Seq<char> {
    what + lossy_text(path) + ": "@ + error
}

fn describe_failure(what: &str, path: &PathBuf, error: &str) -> (message: String)
    ensures
        message@ == failure(what@, path@, error@),
{
    let head = concat3(what, path_text(path).as_str(), ": ");
    concat(head.as_str(), error)
}

/// What comes after a reply: the target is left alone wherever it exists, and a hidden file
/// that was written is removed after a failure.
pub open spec fn after_reply(
    path: Seq<u8>,
    temporary: Seq<u8>,
    stage: WriteStageV,
    reply: FileReply,
) -> WriteNextV {
    match (stage, reply) {
        (WriteStageV::CheckTarget, FileReply::Exists(exists)) => if exists {
            WriteNextV::Failed("refusing to overwrite existing config "@ + lossy_text(path))
        } else {
            WriteNextV::Stage(WriteStageV::CreateParents)
        },
        (WriteStageV::CreateParents, FileReply::Failed(error)) => WriteNextV::Failed(
            failure("failed to create parent directory for "@, path, error@),
        ),
        (WriteStageV::CreateParents, _) => WriteNextV::Stage(WriteStageV::WriteTemporary),
        (WriteStageV::WriteTemporary, FileReply::Failed(error)) => WriteNextV::Failed(
            failure("failed to write temporary config "@, temporary, error@),
        ),
        (WriteStageV::WriteTemporary, _) => WriteNextV::Stage(WriteStageV::CheckTargetAgain),
        (WriteStageV::CheckTargetAgain, FileReply::Exists(exists)) => if exists {
            WriteNextV::Stage(
                WriteStageV::CleanUp(
                    "refusing to overwrite config created during setup: "@ + lossy_text(path),
                ),
            )
        } else {
            WriteNextV::Stage(WriteStageV::Install)
        },
        (WriteStageV::Install, FileReply::Failed(error)) => WriteNextV::Stage(
            WriteStageV::CleanUp(failure("failed to install config "@, path, error@)),
        ),
        (WriteStageV::Install, _) => WriteNextV::Written,
        (WriteStageV::CleanUp(message), _) => WriteNextV::Failed(message),
        _ => arbitrary(),
    }
}

/// What the file system is asked for at a stage.
pub fn call_at(stage: &WriteStage) -> (call: FileCall)
    ensures
        call == file_call(stage.deep_view()),
{
    match stage {
        WriteStage::CheckTarget => FileCall::Exists,
        WriteStage::CreateParents => FileCall::CreateParents,
        WriteStage::WriteTemporary => FileCall::WriteTemporary,
        WriteStage::CheckTargetAgain => FileCall::Exists,
        WriteStage::Install => FileCall::Install,
        WriteStage::CleanUp(_) => FileCall::RemoveTemporary,
    }
}

/// Goes on with a reply.
pub fn next_stage(path: &PathBuf, temporary: &PathBuf, stage: WriteStage, reply: FileReply) -> (next:
    WriteNext)
    requires
        takes_reply(stage.deep_view(), reply),
    ensures
        next.deep_view() == after_reply(path@, temporary@, stage.deep_view(), reply),
{
    match (stage, reply) {
        (WriteStage::CheckTarget, FileReply::Exists(exists)) => if exists {
            WriteNext::Failed(
                concat("refusing to overwrite existing config ", path_text(path).as_str()),
            )
        } else {
            WriteNext::Stage(WriteStage::CreateParents)
        },
        (WriteStage::CreateParents, FileReply::Failed(error)) => WriteNext::Failed(
            describe_failure("failed to create parent directory for ", path, error.as_str()),
        ),
        (WriteStage::CreateParents, _) => WriteNext::Stage(WriteStage::WriteTemporary),
        (WriteStage::WriteTemporary, FileReply::Failed(error)) => WriteNext::Failed(
            describe_failure("failed to write temporary config ", temporary, error.as_str()),
        ),
        (WriteStage::WriteTemporary, _) => WriteNext::Stage(WriteStage::CheckTargetAgain),
        (WriteStage::CheckTargetAgain, FileReply::Exists(exists)) => if exists {
            WriteNext::Stage(
                WriteStage::CleanUp(
                    concat(
                        "refusing to overwrite config created during setup: ",
                        path_text(path).as_str(),
                    ),
                ),
            )
        } else {
            WriteNext::Stage(WriteStage::Install)
        },
        (WriteStage::Install, FileReply::Failed(error)) => WriteNext::Stage(
            WriteStage::CleanUp(
                describe_failure("failed to install config ", path, error.as_str()),
            ),
        ),
        (WriteStage::Install, _) => WriteNext::Written,
        (WriteStage::CleanUp(message), _) => WriteNext::Failed(message),
        _ => WriteNext::Written,
    }
}

/// The target is only taken where it was found missing just before, and nothing else leads to
/// success.
pub proof fn lemma_target_is_never_overwritten(
    path: Seq<u8>,
    temporary: Seq<u8>,
    stage: WriteStageV,
    reply: FileReply,
)
    requires
        takes_reply(stage, reply),
    ensures
        after_reply(path, temporary, stage, reply) == WriteNextV::Stage(WriteStageV::Install)
            ==> stage == WriteStageV::CheckTargetAgain && reply == FileReply::Exists(false),
        after_reply(path, temporary, stage, reply) is Written ==> stage == WriteStageV::Install
            && !(reply is Failed),
{
}

/// A hidden file that was written does not stay behind: from then on, every way to a failure
/// leads through its removal.
pub proof fn lemma_hidden_file_is_cleaned_up(
    path: Seq<u8>,
    temporary: Seq<u8>,
    stage: WriteStageV,
    reply: FileReply,
)
    requires
        takes_reply(stage, reply),
        stage is CheckTargetAgain || stage is Install,
    ensures
        !(after_reply(path, temporary, stage, reply) is Failed),
{
}

} // verus!
