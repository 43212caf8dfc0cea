//! An exclusive-access primitive for a growable buffer shared between
//! host-side consumers and a device-side producer, together with the
//! bookkeeping half of a compute-kernel argument binder.
//!
//! The lock core hands out access to the buffer strictly in request order,
//! lets a requester defer the hand-off until an external completion event
//! has fired, and releases access when the holder gives its guard back.

pub mod kernel;
pub mod rw_vec;
