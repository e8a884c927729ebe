//! Northcloud Oculus core library: the data-handling logic behind the VR
//! observability cockpit (live article feed, log health analysis, Grafana/Loki/
//! Prometheus response handling, interaction state machines), with contracts.

pub mod health;
pub mod text;
pub mod feed;
pub mod errors;
pub mod labels;
pub mod grafana;
pub mod loki;
pub mod prometheus;
pub mod interaction;
pub mod panels;
pub mod markers;
pub mod publisher;
pub mod status;
