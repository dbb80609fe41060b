//! Execution host core for untrusted guest programs.
//!
//! The crate models one guest invocation's execution environment: a tagged
//! value representation ([`val::Val`]) backed by a frame-scoped host-object
//! store ([`host::Host`]), a dual resource meter ([`budget::Budget`]) that
//! gates every host operation, a bidirectional conversion layer between
//! host values and the external wire-format value tree ([`scval::ScVal`]),
//! and bounds-checked marshaling between host objects and guest linear
//! memory.

pub mod budget;
pub mod convert;
pub mod corrupt;
pub mod errors;
pub mod gen;
pub mod host;
pub mod lm;
pub mod mem;
pub mod scenario;
pub mod scval;
pub mod val;

pub use budget::Budget;
pub use errors::{Error, HostError, ScErrorCode, ScErrorType};
pub use gen::{ValidScSymbol, ValidScVal};
pub use host::{Frame, Host, HostObject, MapPair};
pub use mem::VmMemory;
pub use scenario::{as_u16, Contract, StorageType, TestCase};
pub use scval::{ScAddress, ScMapEntry, ScVal};
pub use val::Val;
