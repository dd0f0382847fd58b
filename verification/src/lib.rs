//! Two small owning containers with verified contracts: a growable array
//! that doubles its capacity on demand, and a singly linked stack.

pub mod laws;
pub mod linked_list;
pub mod model;
pub mod vector;
