//! Verified core logic of the m64prs tools: the TAS-input bridge's socket
//! identity and request bookkeeping, the video-extension list copies, the
//! native build's rerun directives and target mapping, and the encode
//! session plan.

pub mod socket_id;
pub mod requests;
pub mod vidext;
pub mod native_build;
pub mod session;
