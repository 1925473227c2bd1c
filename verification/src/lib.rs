//! A last-in-first-out container built on a singly-linked chain of owned
//! nodes, with positional access, index-based removal, and a family of
//! traversal cursors, together with a small demonstration of ordered
//! polymorphic records kept in such a container.

pub mod animals;
pub mod stack;

pub use crate::stack::IntoIter;
pub use crate::stack::Iter;
pub use crate::stack::IterMut;
pub use crate::stack::Node;
pub use crate::stack::Stack;
