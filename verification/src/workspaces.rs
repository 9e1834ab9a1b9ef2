//! Workspace model types, project update payloads, and name
//! normalization.

use vstd::prelude::*;
use crate::errors::AppError;
use crate::models::LatexEngine;
use crate::text::spec_trim;
use crate::text::trim_ws;

verus! {

/// Workspace creation payload.
#[derive(Clone, Debug)]
pub struct NewWorkspace {
    pub name: String,
    pub description: Option<String>,
}

/// Workspace-level project creation payload.
#[derive(Clone, Debug)]
pub struct NewWorkspaceProject {
    pub name: Option<String>,
    pub description: Option<String>,
}

/// File upsert payload used by workspace endpoints.
#[derive(Clone, Debug)]
pub struct FileUpsert {
    pub path: String,
    pub content: String,
}

/// Request body for changing a project's main file.
#[derive(Clone, Debug)]
pub struct MainFileUpdate {
    pub path: String,
}

/// Response payload naming a file path.
#[derive(Clone, Debug)]
pub struct FileResponsePayload {
    pub path: String,
}

/// Update request for a project.
#[derive(Clone, Debug)]
pub struct UpdateProject {
    pub name: Option<String>,
    pub description: Option<String>,
    pub is_public: Option<bool>,
    pub main_file_path: Option<String>,
    pub latex_engine: Option<LatexEngine>,
    pub output_format: Option<String>,
    pub custom_args: Option<Vec<String>>,
    pub bibliography_path: Option<String>,
    pub tags: Option<Vec<String>>,
}

/// Trims surrounding whitespace from a name and rejects a name that
/// is empty after trimming.
pub fn normalize_name(name: &str) -> (r: Result<String, AppError>)
    ensures
        match r {
            Ok(t) => t@ == spec_trim(name@) && t@.len() > 0,
            Err(e) => spec_trim(name@).len() == 0 && (e matches AppError::Validation(m) && m@
                == "Name cannot be empty"@),
        },
{
    let trimmed = trim_ws(name);
    if trimmed.as_str().is_empty() {
        Err(AppError::Validation("Name cannot be empty".to_owned()))
    } else {
        Ok(trimmed)
    }
}

} // verus!
