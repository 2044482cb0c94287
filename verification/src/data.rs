//! Stage definitions and templates, and the stages the storage creates for a
//! job.
use vstd::prelude::*;

verus! {

/// A stage: a container image run with some environment in a directory.
#[derive(Debug, Clone)]
pub struct StageDefinition {
    pub name: String,
    pub image: String,
    pub environment: Vec<EnvironmentVariable>,
    pub working_dir: String,
}

/// One environment variable of a stage.
#[derive(Debug, Clone)]
pub struct EnvironmentVariable {
    pub name: String,
    pub value: String,
}

/// A reusable stage definition.
#[derive(Debug, Clone)]
pub struct Template {
    pub name: String,
    pub image: String,
    pub environment: Vec<EnvironmentVariable>,
}

} // verus!
