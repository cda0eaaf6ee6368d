//! Dynamic room provisioning for a group-chat platform.
//!
//! An operator marks a room as a *template room*. When somebody joins it, a
//! numbered sibling room is opened for them; when a sibling empties, it is
//! closed and its number becomes free again. Every room of such a family is
//! named from a small pattern with placeholders.
//!
//! The library decides; it does not act. It never talks to the platform or
//! to the database. Whoever uses it does that work and hands the results
//! in as plain values.
//!
//! The modules, leaves first:
//!
//! * [`text`], [`seqs`]: characters, strings, decimal numerals, and facts
//!   about sequences.
//! * [`template`]: compiles a naming pattern into tokens.
//! * [`render`]: turns tokens and numbers into a room name.
//! * [`numbering`]: hands out the numbers of sibling rooms and takes them
//!   back.
//! * [`events`]: names what a presence transition means.
//! * [`fx`], [`family`], [`cache`]: the families of a group, as the process
//!   remembers them.
//! * [`topology`]: the families as they are persisted.
//! * [`request`]: the request that opens a room.
//! * [`orchestrator`]: what has to be done for one presence transition,
//!   step by step.
//! * [`removal`]: what follows when a room disappears.
//! * [`listing`], [`reports`], [`command_parser`]: what the command layer
//!   needs.

pub mod text;
pub mod seqs;
pub mod template;
pub mod render;
pub mod numbering;
pub mod events;
pub mod fx;
pub mod family;
pub mod cache;
pub mod topology;
pub mod request;
pub mod orchestrator;
pub mod removal;
pub mod listing;
pub mod reports;
pub mod command_parser;
