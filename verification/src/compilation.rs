//! Compilation job model types: queue priorities, worker status and
//! artifact kinds, with the request payloads of the compilation
//! endpoints.

use vstd::prelude::*;
use crate::models::CompilationStatus;
use crate::models::LatexEngine;

verus! {

/// Queue priority of a compilation job.
#[derive(Clone, Copy, Debug, PartialEq, Eq, Structural)]
pub enum QueuePriority {
    Low,
    Normal,
    High,
    Urgent,
}

impl Default for QueuePriority {
    fn default() -> (r: Self)
        ensures
            r == QueuePriority::Normal,
    {
        QueuePriority::Normal
    }
}

/// Status of a compilation worker.
#[derive(Clone, Copy, Debug, PartialEq, Eq, Structural)]
pub enum WorkerStatus {
    Idle,
    Busy,
    Maintenance,
    Offline,
}

impl Default for WorkerStatus {
    fn default() -> (r: Self)
        ensures
            r == WorkerStatus::Idle,
    {
        WorkerStatus::Idle
    }
}

/// Kind of a compilation artifact.
#[derive(Clone, Copy, Debug, PartialEq, Eq, Structural)]
pub enum ArtifactType {
    Pdf,
    Dvi,
    Ps,
    Log,
    Aux,
    Bbl,
    Other,
}

impl ArtifactType {
    /// The wire name of the artifact kind.
    pub fn as_str(&self) -> (r: &'static str)
        ensures
            r@ == match *self {
                ArtifactType::Pdf => "pdf"@,
                ArtifactType::Dvi => "dvi"@,
                ArtifactType::Ps => "ps"@,
                ArtifactType::Log => "log"@,
                ArtifactType::Aux => "aux"@,
                ArtifactType::Bbl => "bbl"@,
                ArtifactType::Other => "other"@,
            },
    {
        match self {
            ArtifactType::Pdf => "pdf",
            ArtifactType::Dvi => "dvi",
            ArtifactType::Ps => "ps",
            ArtifactType::Log => "log",
            ArtifactType::Aux => "aux",
            ArtifactType::Bbl => "bbl",
            ArtifactType::Other => "other",
        }
    }
}

/// Per-status job counts.
#[derive(Clone, Copy, Debug)]
pub struct StatusStats {
    pub status: CompilationStatus,
    pub count: i64,
}

/// Creation request for a compilation template.
#[derive(Clone, Debug)]
pub struct CreateCompilationTemplate {
    pub name: String,
    pub description: Option<String>,
    pub engine: LatexEngine,
    pub command_template: String,
    pub default_args: Option<Vec<String>>,
    pub required_files: Option<Vec<String>>,
    pub output_patterns: Option<Vec<String>>,
    pub is_public: Option<bool>,
}

/// Cancellation request for a compilation job.
#[derive(Clone, Debug)]
pub struct CancelJobRequest {
    pub reason: Option<String>,
}

/// An in-memory LaTeX compile request: file contents by path.
#[derive(Clone, Debug)]
pub struct LatexCompileRequest {
    pub files: std::collections::HashMap<String, String>,
    pub main_file: String,
}

/// Query parameters for compilation statistics.
#[derive(Clone, Copy, Debug)]
pub struct CompilationStatsParams {
    pub days: Option<i64>,
}

} // verus!
