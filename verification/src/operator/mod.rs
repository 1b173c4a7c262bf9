//! Kubernetes custom resource model and the reconciliation decisions.

pub mod crd;
pub mod log_source;
pub mod reconciler;
