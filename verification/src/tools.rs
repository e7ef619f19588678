//! The tools a session calls: argument checks and the handlers of the
//! presence, lock and inbox tools.

pub mod inbox;
pub mod locks;
pub mod presence;
pub mod validate;
