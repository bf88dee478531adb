//! Configuration data: named prompt templates with optional headers.
//!
//! Loading a configuration file (I/O and deserialization) is the caller's
//! concern; this module only defines the plain data the rest of the system
//! works with.

use std::collections::HashMap;
use vstd::prelude::*;

verus! {

/// The set of named prompt templates an operator has configured.
pub struct Config {
    pub prompts: HashMap<String, Prompt>,
}

/// One prompt template, with optional model and mode headers.
pub struct Prompt {
    pub model: Option<String>,
    pub mode: Option<String>,
    pub template: String,
}

} // verus!
