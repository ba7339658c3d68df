//! The rules of a delivery control plane, with their proofs.
//!
//! Releases are described by manifests (`manifest`), promoted in channels and
//! planned for environments (`plan`). Plans are approved by signed statements
//! (`plan_approval`), executed inside maintenance windows (`maintenance`) and
//! carried to isolated environments in signed bundles (`offline_bundle`).
//! Package migrations move an environment through checkpoints that can be
//! resumed and undone (`package_migration`). Fleets are observed and compared
//! (`fleet`), model runtimes are started and probed (`model_runtime`), and
//! content is pulled and verified by digest (`oci_artifact`).
//!
//! Every function takes what was read and returns what is to be done: files,
//! processes, clocks and stores are the caller's. A function that can refuse
//! states in `refusal(result) == ..` exactly when it does, and with which text.
pub mod auth_context;
pub mod crypto;
pub mod environment;
pub mod error;
pub mod federated_identity;
pub mod fenced_mutation;
pub mod fleet;
pub mod fleet_budget;
pub mod fleet_fairness;
pub mod fleet_workload;
pub mod framing;
pub mod graph;
pub mod inventory;
pub mod maintenance;
pub mod management_lifecycle;
pub mod management_operations;
pub mod manifest;
pub mod metrics;
pub mod model_runtime;
pub mod oci_artifact;
pub mod offline_bundle;
pub mod offline_fleet_drill;
pub mod ontology;
pub mod ordering;
pub mod package_migration;
pub mod paths;
pub mod plan;
pub mod plan_approval;
pub mod plan_priors;
pub mod reconciler;
pub mod signature_verification;
pub mod storage;
pub mod text;
pub mod text_map;
pub mod trust;
pub mod version;
