//! A verified core for a completion-based I/O ring driver.

pub mod token;
pub mod slab;
pub mod slab_laws;
pub mod error;
pub mod error_laws;
pub mod buf;
pub mod registry;
pub mod registry_laws;
pub mod request_laws;
pub mod driver;
pub mod teardown;
pub mod pass;
pub mod handle;
pub mod sequential;
pub mod driver_laws;
pub mod outcome_laws;
pub mod future;
pub mod event;
pub mod park;
pub mod wait_laws;
pub mod oneshot;
pub mod rt;
pub mod rt_laws;
pub mod join;
pub mod io_ring;
