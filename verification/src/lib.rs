//! The integer and text logic of a Call of Duty 1.1 dedicated server: the
//! item registry and its configstring bitstring, the weapon list, the
//! placed-entity classname tables, the event ring a playerstate carries,
//! the connection front door (rate limiter, challenge table, connect
//! admission, timeouts), the per-client session gates and reliable command
//! ring, the move replay schedule and the weapon events it raises, the
//! decisions of a level restart and a level spawn, the animation choices of
//! a tick, the reliable traffic a frame ends with, the scoreboard and the
//! client-command parsers.

pub mod anim;
pub mod challenge;
pub mod clients;
pub mod combat;
pub mod configstrings;
pub mod cvars;
pub mod feedback;
pub mod frame;
pub mod hud;
pub mod items;
pub mod level;
pub mod ratelimit;
pub mod reliable;
pub mod replay;
pub mod scoreboard;
pub mod script;
pub mod search;
pub mod server;
pub mod session;
pub mod spawn;
pub mod spectate;
pub mod temp_entity;
pub mod text;
pub mod trigger;
pub mod turret;
pub mod weapons;
pub mod world;
