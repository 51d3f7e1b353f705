//! The monitors, one module for each kernel statistics source.

pub mod diskstat;
pub mod interrupts;
pub mod memstat;
pub mod netdev_stat;
pub mod proc;
pub mod queues;
pub mod snmp;
pub mod softirqs;
pub mod softnet_stat;
