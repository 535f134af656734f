//! A generic LIFO stack stored as a singly linked chain of owned nodes.
//!
//! The handle [`List`] owns the whole chain through its head link. Beyond
//! pushing and popping it offers peeking at the top element (shared or
//! mutable) and three iteration modes: borrowing ([`Iter`]), mutably
//! borrowing ([`IterMut`]) and consuming ([`IntoIter`]). The destructor
//! walks the chain iteratively so that dropping a long list cannot exhaust
//! the call stack.

use vstd::prelude::*;

verus! {

/// One stored element plus the link to the remainder of the chain. The
/// type is public only so that the contracts of the mutably borrowing
/// iterator can speak about the tail of the chain it still holds; its
/// fields and its construction stay private to this module.
pub struct Node<T> {
    elem: T,
    next: Link<T>,
}

/// Either nothing, or exclusive ownership of one node.
type Link<T> = Option<Box<Node<T>>>;

/// The elements reachable from a link, top of the stack first.
spec fn link_view<T>(link: Link<T>) -> Seq<T>
    decreases link,
{
    match link {
        None => Seq::empty(),
        Some(node) => seq![node.elem] + link_view(node.next),
    }
}

/// A LIFO stack; `self@` is the stored sequence, top first.
pub struct List<T> {
    head: Link<T>,
}

impl<T> View for List<T> {
    type V = Seq<T>;

    closed spec fn view(&self) -> Seq<T> {
        link_view(self.head)
    }
}

/// Detaches a link from its slot, leaving the slot empty, so the caller
/// takes over sole ownership of the chain hanging off it.
fn take_link<T>(link: &mut Link<T>) -> (taken: Link<T>)
    ensures
        taken == *old(link),
        *final(link) is None,
    opens_invariants none
    no_unwind
{
    let mut slot = None;
    core::mem::swap(link, &mut slot);
    slot
}

impl<T> List<T> {
    /// Returns an empty stack.
    pub fn new() -> (list: List<T>)
        ensures
            list@ == Seq::<T>::empty(),
    {
        List { head: None }
    }

    /// Pushes an element on top of the stack.
    pub fn push(&mut self, elem: T)
        ensures
            final(self)@ == seq![elem] + old(self)@,
    {
        let next = take_link(&mut self.head);
        let new_node = Box::new(Node { elem, next });
        self.head = Some(new_node);
    }

    /// Borrows the top element, or returns `None` on an empty stack.
    pub fn peek(&self) -> (top: Option<&T>)
        ensures
            self@.len() == 0 ==> top is None,
            self@.len() > 0 ==> (top matches Some(elem) && *elem == self@[0]),
    {
        match &self.head {
            Some(node) => Some(&node.elem),
            None => None,
        }
    }

    /// Mutably borrows the top element, or returns `None` on an empty
    /// stack; a write through the borrow replaces the top element.
    pub fn peek_mut(&mut self) -> (top: Option<&mut T>)
        ensures
            old(self)@.len() == 0 ==> top is None && final(self)@ == old(self)@,
            old(self)@.len() > 0 ==> top is Some
                && *top.unwrap() == old(self)@[0]
                && final(self)@ == old(self)@.update(0, *final(top.unwrap())),
    {
        match &mut self.head {
            Some(node) => {
                proof {
                    let e = node.elem;
                    let rest = link_view(node.next);
                    assert forall|x: T| #[trigger] (seq![e] + rest).update(0, x) =~= seq![x] + rest by {}
                }
                Some(&mut node.elem)
            }
            None => None,
        }
    }

    /// Removes and returns the top element, or `None` on an empty stack.
    pub fn pop(&mut self) -> (popped: Option<T>)
        ensures
            old(self)@.len() == 0 ==> popped is None && final(self)@ == old(self)@,
            old(self)@.len() > 0 ==> popped == Some(old(self)@[0])
                && final(self)@ == old(self)@.drop_first(),
    {
        match take_link(&mut self.head) {
            Some(boxed_node) => {
                let node = *boxed_node;
                proof {
                    assert((seq![node.elem] + link_view(node.next)).drop_first()
                        =~= link_view(node.next));
                }
                self.head = node.next;
                Some(node.elem)
            }
            None => None,
        }
    }
}

/// A borrowing iterator over a stack; yields shared borrows of the
/// elements, top first, without touching the stack's structure.
pub struct Iter<'a, T> {
    next: Option<&'a Node<T>>,
}

impl<'a, T> Iter<'a, T> {
    /// The elements the iterator has yet to yield, in order.
    pub closed spec fn remaining(&self) -> Seq<T> {
        match self.next {
            Some(node) => seq![node.elem] + link_view(node.next),
            None => Seq::empty(),
        }
    }

    /// Yields a borrow of the next element, or `None` when exhausted.
    pub fn next(&mut self) -> (item: Option<&'a T>)
        ensures
            old(self).remaining().len() == 0 ==> item is None
                && final(self).remaining() == old(self).remaining(),
            old(self).remaining().len() > 0 ==> (item matches Some(elem)
                && *elem == old(self).remaining()[0]
                && final(self).remaining() == old(self).remaining().drop_first()),
    {
        match self.next {
            Some(node) => {
                proof {
                    assert((seq![node.elem] + link_view(node.next)).drop_first()
                        =~= link_view(node.next));
                }
                self.next = match &node.next {
                    Some(next_node) => Some(&**next_node),
                    None => None,
                };
                Some(&node.elem)
            }
            None => None,
        }
    }
}

impl<T> Node<T> {
    /// The element of this node followed by every element reachable
    /// behind it, in chain order.
    pub closed spec fn elems(self) -> Seq<T> {
        seq![self.elem] + link_view(self.next)
    }
}

/// A mutably borrowing iterator over a stack; yields exclusive borrows
/// of the elements, top first. At any instant exactly one mutable path
/// into the chain exists: stepping hands the reference on, never
/// duplicates it.
pub struct IterMut<'a, T> {
    next: Option<&'a mut Node<T>>,
}

impl<'a, T> IterMut<'a, T> {
    /// Whether the iterator still has elements to yield.
    pub closed spec fn has_next(self) -> bool {
        self.next is Some
    }

    /// The borrowed node the iterator stands on.
    pub closed spec fn cursor(self) -> &'a mut Node<T>
        recommends
            self.has_next(),
    {
        self.next.unwrap()
    }

    /// The elements the iterator has yet to yield, in order, as they
    /// stand now.
    pub closed spec fn remaining(self) -> Seq<T> {
        if self.has_next() {
            (*self.cursor()).elems()
        } else {
            Seq::empty()
        }
    }

    /// Yields an exclusive borrow of the next element, or `None` when
    /// exhausted; a write through the borrow replaces that element. Once
    /// every borrow has expired, the tail the iterator stood on holds the
    /// written element followed by whatever the tail it moved to holds.
    pub fn next(&mut self) -> (item: Option<&'a mut T>)
        ensures
            old(self).has_next() <==> old(self).remaining().len() > 0,
            final(self).has_next() <==> final(self).remaining().len() > 0,
            !old(self).has_next() ==> item is None && !final(self).has_next(),
            old(self).has_next() ==> item is Some
                && *item.unwrap() == old(self).remaining()[0]
                && final(self).remaining() == old(self).remaining().drop_first()
                && (*final(old(self).cursor())).elems() == seq![*final(item.unwrap())]
                    + (if final(self).has_next() {
                        (*final(final(self).cursor())).elems()
                    } else {
                        Seq::<T>::empty()
                    }),
    {
        match self.next.take() {
            Some(node) => {
                proof {
                    assert((seq![(*node).elem] + link_view((*node).next)).drop_first()
                        =~= link_view((*node).next));
                }
                let elem = &mut node.elem;
                let next = &mut node.next;
                self.next = match next.as_mut() {
                    Some(boxed) => Some(&mut **boxed),
                    None => None,
                };
                Some(elem)
            }
            None => None,
        }
    }
}

impl<T> List<T> {
    /// Returns a mutably borrowing iterator over the stack, top first;
    /// once every borrow handed out through the iterator has expired, the
    /// stack holds what was written through them.
    pub fn iter_mut<'a>(&'a mut self) -> (it: IterMut<'a, T>)
        ensures
            it.remaining() == old(self)@,
            it.has_next() <==> old(self)@.len() > 0,
            final(self)@ == (if it.has_next() {
                (*final(it.cursor())).elems()
            } else {
                Seq::<T>::empty()
            }),
    {
        match self.head.as_mut() {
            Some(boxed) => IterMut { next: Some(&mut **boxed) },
            None => IterMut { next: None },
        }
    }
}

/// A consuming iterator: owns the stack and yields its elements, top
/// first, by popping one per step.
pub struct IntoIter<T>(List<T>);

impl<T> IntoIter<T> {
    /// The elements the iterator has yet to yield, in order.
    pub closed spec fn remaining(&self) -> Seq<T> {
        self.0@
    }

    /// Yields ownership of the next element, or `None` when exhausted.
    pub fn next(&mut self) -> (item: Option<T>)
        ensures
            old(self).remaining().len() == 0 ==> item is None
                && final(self).remaining() == old(self).remaining(),
            old(self).remaining().len() > 0 ==> item == Some(old(self).remaining()[0])
                && final(self).remaining() == old(self).remaining().drop_first(),
    {
        self.0.pop()
    }
}

impl<T> List<T> {
    /// Returns a borrowing iterator over the stack, top first.
    pub fn iter<'a>(&'a self) -> (it: Iter<'a, T>)
        ensures
            it.remaining() == self@,
    {
        match &self.head {
            Some(node) => Iter { next: Some(&**node) },
            None => Iter { next: None },
        }
    }

    /// Consumes the stack, returning an iterator that owns it and yields
    /// its elements, top first.
    pub fn into_iter(self) -> (it: IntoIter<T>)
        ensures
            it.remaining() == self@,
    {
        IntoIter(self)
    }
}

/// The view a stack reaches after pushing the elements of `elems`, in
/// order, onto a stack whose view is `start`: each push puts its element
/// in front, exactly as the contract of [`List::push`] states.
pub open spec fn after_pushes<T>(start: Seq<T>, elems: Seq<T>) -> Seq<T>
    decreases elems.len(),
{
    if elems.len() == 0 {
        start
    } else {
        after_pushes(seq![elems[0]] + start, elems.drop_first())
    }
}

/// Pushes followed by pops return elements in strict reverse (LIFO)
/// order: after pushing `elems` in order the stack's view is `elems`
/// reversed, in front of whatever was below, and each pop returns the
/// front of the view. In particular, pushing `n` elements onto an empty
/// stack and popping `n` times returns exactly those elements in reverse
/// order and leaves the stack empty.
pub proof fn lemma_pushes_reverse<T>(start: Seq<T>, elems: Seq<T>)
    ensures
        after_pushes(start, elems) == elems.reverse() + start,
    decreases elems.len(),
{
    if elems.len() == 0 {
        assert(elems.reverse() + start =~= start);
    } else {
        lemma_pushes_reverse(seq![elems[0]] + start, elems.drop_first());
        assert(elems.drop_first().reverse() + (seq![elems[0]] + start)
            =~= elems.reverse() + start);
    }
}

/// Pushing one element and then popping yields that element back and
/// restores the stack below it: the pushed view is non-empty, its front
/// is the pushed element, and dropping the front recovers the old view.
pub proof fn lemma_push_then_pop<T>(below: Seq<T>, elem: T)
    ensures
        (seq![elem] + below).len() > 0,
        (seq![elem] + below)[0] == elem,
        (seq![elem] + below).drop_first() == below,
{
    assert((seq![elem] + below).drop_first() =~= below);
}

/// A write through `peek_mut` replaces the top element and nothing else:
/// the next pop returns the written value, and the stack below the top
/// is untouched.
pub proof fn lemma_peek_mut_write_then_pop<T>(view: Seq<T>, written: T)
    requires
        view.len() > 0,
    ensures
        view.update(0, written).len() == view.len(),
        view.update(0, written)[0] == written,
        view.update(0, written).drop_first() == view.drop_first(),
{
    assert(view.update(0, written).drop_first() =~= view.drop_first());
}

impl<T> Drop for List<T> {
    /// Tears the chain down iteratively: repeatedly detach the top node and
    /// promote its outgoing link, so the drop of a long list uses constant
    /// auxiliary call-stack depth instead of recursing once per node.
    fn drop(&mut self)
        opens_invariants none
        no_unwind
    {
        let mut cur_link = take_link(&mut self.head);
        loop
            decreases link_view(cur_link).len(),
        {
            match cur_link {
                Some(mut boxed_node) => {
                    cur_link = take_link(&mut boxed_node.next);
                }
                None => {
                    break;
                }
            }
        }
    }
}

} // verus!
