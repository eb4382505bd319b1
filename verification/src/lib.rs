//! A minimal on-chain counter program, modeled against an explicit host
//! ledger: installation publishes a versioned package whose named-key
//! registry points at a fresh storage cell holding 0, and the increment
//! operation resolves that cell through the registry and atomically adds 1.

mod counter;
mod entry_point;
mod error;
mod host;
mod registry;

pub use counter::call;
pub use counter::count_addr;
pub use counter::counter_installed;
pub use counter::counter_value;
pub use counter::current_keys;
pub use counter::increment_count;
pub use counter::increment_step;
pub use counter::install_step;
pub use counter::installed_hash;
pub use counter::lemma_installations_independent;
pub use counter::lemma_sequential_increments_count;

pub use entry_point::EntryPoint;
pub use entry_point::EntryPointAccess;
pub use entry_point::EntryPointContext;
pub use entry_point::EntryPoints;
pub use entry_point::ValueType;
pub use error::error_code;
pub use error::Error;
pub use host::namespace_after_publish;
pub use host::Host;
pub use host::Package;
pub use host::ProgramVersion;
pub use registry::entries_map;
pub use registry::KeyRef;
pub use registry::NamedKeys;
