//! Safer, higher-level git verbs: the decisions behind each verb, the stash
//! bookkeeping that carries local changes across branches, and the parsers of
//! git's output, as verified functions.
pub mod repo_url;
pub mod stash;
pub mod text;
pub mod workflow;
