//! Resolver for container environment definition documents: it expands
//! shell-style variable references, compiles compact mount specifications
//! into normalized mount records, and merges chains of base environments
//! into one fully resolved environment.

pub mod common;
pub mod config;
pub mod error;
mod fsinfo;
pub mod mount;
pub mod resolve;
pub mod smap;
pub mod strutil;

pub use config::Config;
pub use config::RawConfig;
pub use error::SarusError;
pub use error::SarusResult;
pub use mount::SarusMount;
pub use mount::SarusMounts;
pub use resolve::BaseEnvironment;
pub use resolve::DocStore;
pub use resolve::RawEDF;
pub use resolve::ResolveHalt;
pub use resolve::EDF;
pub use smap::StrMap;
