//! Backend selection parameters, as a plain configuration structure.

use vstd::prelude::*;

verus! {

/// Connection parameters of the local storage backend: the storage
/// directory and an optional base-URL override.
pub struct LocalConfig {
    pub directory: String,
    pub domain: Option<String>,
}

/// The configuration section relevant to this crate: the optional local
/// backend parameters.
pub struct ConfigData {
    pub local_config: Option<LocalConfig>,
}

} // verus!
