//! Where the user was when the picker was opened.

use crate::herdr::{read_text, text_in, JsonField, JsonFieldV};
use crate::path::PathBuf;
use vstd::prelude::*;
use vstd::string::*;
use vstd::utf8::encode_utf8;

verus! {

/// What herdr tells a plugin about the place it was started from.
#[derive(Debug, PartialEq, Eq)]
pub struct PluginContext {
    pub focused_pane_cwd: Option<PathBuf>,
    pub workspace_cwd: Option<PathBuf>,
}

pub struct PluginContextV {
    pub focused_pane_cwd: Option<Seq<u8>>,
    pub workspace_cwd: Option<Seq<u8>>,
}

impl DeepView for PluginContext {
    type V = PluginContextV;

    open spec fn deep_view(&self) -> PluginContextV {
        PluginContextV {
            focused_pane_cwd: self.focused_pane_cwd.deep_view(),
            workspace_cwd: self.workspace_cwd.deep_view(),
        }
    }
}

impl Default for PluginContext {
    fn default() -> (context: Self)
        ensures
            context.deep_view() == (PluginContextV {
                focused_pane_cwd: None,
                workspace_cwd: None,
            }),
    {
        PluginContext { focused_pane_cwd: None, workspace_cwd: None }
    }
}

/// A context that is no JSON record, holds something else than text where a path belongs, or
/// holds a path twice.
#[derive(Debug, Clone, Copy, PartialEq, Eq, Structural)]
pub struct InvalidContext;

/// The path in a field that may be missing, or that the field holds no text.
pub open spec fn optional_path(field: JsonFieldV) -> Result<Option<Seq<u8>>, InvalidContext> {
    match field {
        JsonFieldV::Missing | JsonFieldV::Null => Ok(None),
        JsonFieldV::Text(text) => Ok(Some(encode_utf8(text))),
        _ => Err(InvalidContext),
    }
}

/// The context that its two fields stand for.
pub open spec fn context_of_fields(focused: JsonFieldV, workspace: JsonFieldV) -> Result<
    PluginContextV,
    InvalidContext,
> {
    match (optional_path(focused), optional_path(workspace)) {
        (Ok(focused_pane_cwd), Ok(workspace_cwd)) => Ok(
            PluginContextV { focused_pane_cwd, workspace_cwd },
        ),
        _ => Err(InvalidContext),
    }
}

/// The context in a document: a record of two members, either of which an object may leave
/// out.
pub open spec fn context_in(document: Seq<u8>) -> Result<PluginContextV, InvalidContext> {
    context_of_fields(
        text_in(document, "focused_pane_cwd"@, 0, 2),
        text_in(document, "workspace_cwd"@, 1, 2),
    )
}

fn read_path(field: JsonField) -> (path: Result<Option<PathBuf>, InvalidContext>)
    ensures
        match optional_path(field.deep_view()) {
            Ok(found) => path is Ok && path->Ok_0.deep_view() == found,
            Err(_) => path is Err,
        },
{
    match field {
        JsonField::Missing => Ok(None),
        JsonField::Null => Ok(None),
        JsonField::Text(text) => Ok(Some(PathBuf::new(text.as_str()))),
        _ => Err(InvalidContext),
    }
}

impl PluginContext {
    /// Reads the fields of a context.
    pub fn from_fields(focused: JsonField, workspace: JsonField) -> (result: Result<
        PluginContext,
        InvalidContext,
    >)
        ensures
            match context_of_fields(focused.deep_view(), workspace.deep_view()) {
                Ok(context) => result is Ok && result->Ok_0.deep_view() == context,
                Err(_) => result is Err,
            },
    {
        match (read_path(focused), read_path(workspace)) {
            (Ok(focused_pane_cwd), Ok(workspace_cwd)) => Ok(
                PluginContext { focused_pane_cwd, workspace_cwd },
            ),
            _ => Err(InvalidContext),
        }
    }

    /// Reads a context from JSON; fields that are not known are ignored.
    pub fn from_json(json: &str) -> (result: Result<PluginContext, InvalidContext>)
        ensures
            match context_in(json.spec_bytes()) {
                Ok(context) => result is Ok && result->Ok_0.deep_view() == context,
                Err(_) => result is Err,
            },
    {
        let bytes = json.as_bytes();
        PluginContext::from_fields(
            read_text(bytes, "focused_pane_cwd", 0, 2),
            read_text(bytes, "workspace_cwd", 1, 2),
        )
    }

    /// The directory to start from: that of the focused pane, else that of the workspace;
    /// an empty path counts as none.
    pub fn current_cwd(&self) -> (cwd: Option<&PathBuf>)
        ensures
            cwd.deep_view() == match (
                self.deep_view().focused_pane_cwd,
                self.deep_view().workspace_cwd,
            ) {
                (Some(path), _) if path.len() > 0 => Some(path),
                (_, Some(path)) if path.len() > 0 => Some(path),
                _ => None::<Seq<u8>>,
            },
    {
        match &self.focused_pane_cwd {
            Some(path) => {
                if !path.is_empty() {
                    return Some(path);
                }
            },
            None => {},
        }
        match &self.workspace_cwd {
            Some(path) => {
                if !path.is_empty() {
                    return Some(path);
                }
            },
            None => {},
        }
        None
    }
}

} // verus!
