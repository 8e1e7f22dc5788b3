//! Packet-handling core of a source-routing forwarding drone.
//!
//! The library decides, for every packet and command that reaches a drone,
//! which events go to the controller and which packets go to which neighbour.
//! Channels, threads, the random drop coin and the web page that shows the
//! drones live around it, in the application.
use vstd::prelude::*;

pub mod network;
pub mod packet;
pub mod drone;
pub mod theorems;
pub mod page;

verus! {

} // verus!
