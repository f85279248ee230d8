//! Acquisition, aggregation and publishing logic for a two-channel
//! rapid scan: a position-keyed running mean over raw samples, the scan
//! lifecycle, and the decisions taken by the controller, the acquisition
//! worker and the publisher.
pub mod aggregate;
pub mod device;
pub mod lifecycle;
pub mod sim;
pub mod voltage;
pub mod worker;
