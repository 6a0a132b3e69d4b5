//! The verified core of a fleet monitor: what the collector remembers of the
//! hosts that report to it, what the dashboard shows of that, and how the
//! dashboard answers to keys and clicks.
//!
//! Readings are numbers that the library carries and never computes with: `F`
//! stands for the type of a reading as an agent sends it, `G` for the type of
//! a mean over the cores of a host.

pub mod agent;
pub mod bar;
pub mod collector;
pub mod echo;
pub mod history;
pub mod hosts;
pub mod layout;
pub mod local;
pub mod metrics;
pub mod minute;
pub mod panels;
pub mod render;
pub mod tabs;
pub mod text;
pub mod worker;
