//! A stack of `i32` values stored as a singly linked chain of owned nodes.
//!
//! The handle [`List`] owns the whole chain through its head link: each node
//! is owned by exactly one predecessor, pushing and popping splice nodes in
//! and out at the front in constant time, and the destructor walks the chain
//! iteratively so that dropping a long list cannot exhaust the call stack.
//!
//! The LIFO laws proved in [`crate::second`] for the generic variant state
//! the same contracts as this one, instantiated at `i32`.

use vstd::prelude::*;

verus! {

/// Either nothing, or exclusive ownership of one node.
enum Link {
    Empty,
    More(Box<Node>),
}

/// One stored element plus the link to the remainder of the chain.
struct Node {
    elem: i32,
    next: Link,
}

/// The elements reachable from a link, top of the stack first.
spec fn link_view(link: Link) -> Seq<i32>
    decreases link,
{
    match link {
        Link::Empty => Seq::empty(),
        Link::More(node) => seq![node.elem] + link_view(node.next),
    }
}

/// A LIFO stack of `i32` values; `self@` is the stored sequence, top first.
pub struct List {
    head: Link,
}

impl View for List {
    type V = Seq<i32>;

    closed spec fn view(&self) -> Seq<i32> {
        link_view(self.head)
    }
}

/// Detaches a link from its slot, leaving the slot empty, so the caller
/// takes over sole ownership of the chain hanging off it.
fn take_link(link: &mut Link) -> (taken: Link)
    ensures
        taken == *old(link),
        *final(link) == Link::Empty,
    opens_invariants none
    no_unwind
{
    let mut slot = Link::Empty;
    core::mem::swap(link, &mut slot);
    slot
}

impl List {
    /// Returns an empty stack.
    pub fn new() -> (list: List)
        ensures
            list@ == Seq::<i32>::empty(),
    {
        List { head: Link::Empty }
    }

    /// Pushes an element on top of the stack.
    pub fn push(&mut self, elem: i32)
        ensures
            final(self)@ == seq![elem] + old(self)@,
    {
        let next = take_link(&mut self.head);
        let new_node = Box::new(Node { elem, next });
        self.head = Link::More(new_node);
    }

    /// Removes and returns the top element, or `None` on an empty stack.
    pub fn pop(&mut self) -> (popped: Option<i32>)
        ensures
            old(self)@.len() == 0 ==> popped is None && final(self)@ == old(self)@,
            old(self)@.len() > 0 ==> popped == Some(old(self)@[0])
                && final(self)@ == old(self)@.drop_first(),
    {
        match take_link(&mut self.head) {
            Link::More(boxed_node) => {
                let node = *boxed_node;
                proof {
                    assert((seq![node.elem] + link_view(node.next)).drop_first()
                        =~= link_view(node.next));
                }
                self.head = node.next;
                Some(node.elem)
            }
            Link::Empty => None,
        }
    }
}

impl Drop for List {
    /// Tears the chain down iteratively: repeatedly detach the top node and
    /// promote its outgoing link, so the drop of a long list uses constant
    /// auxiliary call-stack depth instead of recursing once per node.
    fn drop(&mut self)
        opens_invariants none
        no_unwind
    {
        let mut cur_link = take_link(&mut self.head);
        loop
            decreases link_view(cur_link).len(),
        {
            match cur_link {
                Link::More(mut boxed_node) => {
                    cur_link = take_link(&mut boxed_node.next);
                }
                Link::Empty => {
                    break;
                }
            }
        }
    }
}

} // verus!
