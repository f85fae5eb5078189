//! Installer core for a tunnel client: platform resolution, download caching
//! decisions, zip extraction planning, install-directory normalization and the
//! request URLs of the tunnel service.
pub mod text;
pub mod platform;
pub mod fetch;
pub mod normalize;
pub mod extract;
pub mod api;
pub mod install;
