//! Resource usage of Docker containers, read from the control-group
//! filesystem and laid out in the Prometheus text exposition format.
//!
//! The library works on what its caller has read: the entries of the
//! control-group directories with the contents of their metric files, and
//! the container descriptors of the Docker runtime. From these it detects
//! the layout (`cgroup`), reads each container's memory, CPU time and block
//! I/O (`readings`), keeps what is known of each container (`containers`),
//! chooses the labels (`labels`) and renders the metric families
//! (`metrics`, with `exporter` and `exposition`). `server` holds the
//! decisions around a request, and `laws` what holds of the whole.

pub mod cgroup;
pub mod containers;
pub mod exporter;
pub mod exposition;
pub mod labels;
pub mod laws;
pub mod metrics;
pub mod readings;
pub mod server;
pub mod text;
