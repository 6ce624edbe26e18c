pub mod config;
pub mod demux;
pub mod dispatch;
pub mod graph;
pub mod process;
pub mod stdin;
pub mod text;
