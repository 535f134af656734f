//! Singly linked LIFO stacks with value semantics.
//!
//! Two variants share one design: [`first::List`] stores `i32` elements,
//! [`second::List`] is generic over the element type and adds peeking and
//! three iteration modes. Both own their chain of nodes exclusively and
//! tear it down iteratively, so dropping a long list uses constant
//! call-stack depth.

pub mod first;
pub mod second;
