//! What the operations of the library are for, as laws over their inputs and
//! results: stated on the bytes, tables and registers themselves.
pub mod commits;
pub mod functions;
pub mod hooks;
pub mod images;
pub mod inline;
pub mod installs;
pub mod jumps;
pub mod memory;
pub mod registers;
pub mod registers_x86;
pub mod scanning;
pub mod sequences;
pub mod signatures;
pub mod texts;
pub mod threads;
pub mod transactions;
pub mod writes;
