//! A lease coordinator: hands out numeric worker identifiers for a limited
//! time, and takes back those whose holders did not renew in time.

pub mod laws;
pub mod lease;
pub mod model;
pub mod table;

pub use laws::within_lease_window;
pub use lease::{ErrorKind, LeaseSlot, Response, Status, Timestamp, WorkerId};
pub use model::TableModel;
pub use table::{
    LeaseTable, DEFAULT_IDENTIFIER_SPACE_SIZE, DEFAULT_LEASE_DURATION, MAX_IDENTIFIER_SPACE_SIZE,
};
