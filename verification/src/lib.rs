//! Verified core of a micro-VM sandbox: the wire protocol between host and
//! guest, the image store's index, disk-image sizing, and the VM registry.

pub mod agent;
pub mod cli;
pub mod client;
pub mod codec;
pub mod counts;
pub mod disk;
pub mod ext4;
pub mod image;
pub mod invariants;
pub mod jail;
pub mod message;
pub mod pull;
pub mod registry;
pub mod run;
pub mod seqs;
pub mod store;
pub mod text;
pub mod vm;
pub mod world;
