//! What holds of every file that the reader takes, and of the ways in which
//! it reads one.
pub mod index;
pub mod links;
pub mod nodes;
pub mod reads;
pub mod rows;
pub mod strings;
pub mod tree;
