//! The authoritative half of a client–server voxel game: the server that
//! owns the world, takes the clients' messages in, and keeps every client's
//! view of the world up to date.
//!
//! The library is the server's logic, verified with Verus. It never touches
//! the network, the disk, a clock or a thread: a host lays what arrived
//! into the mailboxes of the sessions, calls [`server::Server::tick`], and
//! carries out the events that come back. The values of the entities that
//! are floating-point numbers stay with the host too; the library keeps of
//! each entity what its decisions rest on.
//!
//! Every data type has a view, a mathematical value that the contracts
//! speak of. The modules [`messages`], [`sync`], [`tick`] and
//! [`orchestrator`] define, as functions on those views, what the phases of
//! a tick do; the executable functions are proved to compute exactly that.

pub mod auth_provider;
pub mod client;
pub mod collections;
pub mod comp;
pub mod connect;
pub mod event;
pub mod handle;
pub mod interest;
pub mod laws;
pub mod menu;
pub mod messages;
pub mod msg;
pub mod orchestrator;
pub mod protocol;
pub mod provider;
pub mod server;
pub mod settings;
pub mod spawn;
pub mod state;
pub mod stats;
pub mod sync;
pub mod terrain;
pub mod tick;
pub mod world;
