//! A LIFO stack stored as a singly-linked chain of heap-allocated nodes.
//!
//! The abstract value of a stack is a sequence of its elements in
//! top-to-bottom order: index 0 is the most recently pushed element.

use vstd::prelude::*;

verus! {

use vstd::std_specs::cmp::PartialEqSpec;

broadcast use vstd::seq_lib::group_seq_properties, vstd::seq::Seq::add_empty_left, vstd::seq::Seq::add_empty_right;

/// An optional ownership edge to the next node; absence means the chain ends.
pub type Link<T> = Option<Box<Node<T>>>;

/// One element of the chain: the data it carries and the link onward.
pub struct Node<T> {
    pub lower_node: Link<T>,
    pub data: T,
}

/// The elements reachable from a link, in top-to-bottom order.
pub open spec fn link_view<T>(link: Link<T>) -> Seq<T>
    decreases link,
{
    match link {
        None => Seq::empty(),
        Some(node) => seq![node.data] + link_view(node.lower_node),
    }
}

impl<T> Node<T> {
    /// Wraps `data` in a fresh node that owns `lower_node` as its successor.
    pub fn make_link(data: T, lower_node: Link<T>) -> (link: Link<T>)
        ensures
            link_view(link) == seq![data] + link_view(lower_node),
    {
        Some(Box::new(Self { lower_node, data }))
    }
}

/// A stack: owns the topmost node of the chain, and through it the rest.
pub struct Stack<T> {
    top_node: Link<T>,
}

impl<T> View for Stack<T> {
    type V = Seq<T>;

    /// The elements of the stack, index 0 being the top.
    closed spec fn view(&self) -> Seq<T> {
        link_view(self.top_node)
    }
}

impl<T> Stack<T> {
    /// Produces a stack with no elements.
    pub fn new() -> (s: Self)
        ensures
            s@ == Seq::<T>::empty(),
    {
        Self { top_node: None }
    }

    /// Places `data` on top of the stack. Always succeeds.
    pub fn push(&mut self, data: T)
        ensures
            final(self)@ == seq![data] + old(self)@,
    {
        self.top_node = Node::make_link(data, self.top_node.take());
    }

    /// Detaches the top node and returns its data; `None` on an empty stack.
    pub fn pop(&mut self) -> (r: Option<T>)
        ensures
            old(self)@.len() == 0 ==> r is None && final(self)@ == old(self)@,
            old(self)@.len() > 0 ==> r == Some(old(self)@[0]) && final(self)@
                == old(self)@.drop_first(),
    {
        match self.top_node.take() {
            None => None,
            Some(node) => {
                let node = *node;
                self.top_node = node.lower_node;
                Some(node.data)
            },
        }
    }
}

impl<T> Drop for Stack<T> {
    /// Releases the chain iteratively: repeatedly detaches the current top
    /// node and drops it once its onward link has been moved out, so that
    /// tearing down a long chain does not recurse to its depth.
    fn drop(&mut self)
        opens_invariants none
        no_unwind
    {
        let mut link: Link<T> = None;
        core::mem::swap(&mut link, &mut self.top_node);
        loop
            decreases link_view(link).len(),
        {
            match link {
                None => {
                    break;
                },
                Some(boxed) => {
                    link = (*boxed).lower_node;
                },
            }
        }
    }
}

impl<T> Default for Stack<T> {
    /// Same as `Stack::new`: a stack with no elements.
    fn default() -> (s: Self)
        ensures
            s@ == Seq::<T>::empty(),
    {
        Self::new()
    }
}

/// A read-only cursor over the chain: it stands on the node it is about to
/// yield. Several may traverse the same stack at once.
pub struct Iter<'a, T> {
    node: Option<&'a Node<T>>,
}

impl<'a, T> Iter<'a, T> {
    /// The elements the cursor has not yet yielded, in traversal order.
    pub closed spec fn remaining(&self) -> Seq<T> {
        match self.node {
            None => Seq::empty(),
            Some(node) => seq![node.data] + link_view(node.lower_node),
        }
    }

    /// Starts a cursor at the given link.
    pub(crate) fn from_link(link: &'a Link<T>) -> (it: Self)
        ensures
            it.remaining() == link_view(*link),
    {
        match link {
            None => Self { node: None },
            Some(boxed) => Self { node: Some(&**boxed) },
        }
    }

    /// Yields a borrow of the next element's data, or `None` if the
    /// traversal is exhausted.
    pub fn next(&mut self) -> (r: Option<&'a T>)
        ensures
            old(self).remaining().len() == 0 ==> r is None
                && final(self).remaining() == Seq::<T>::empty(),
            old(self).remaining().len() > 0 ==> (r matches Some(d)
                && *d == old(self).remaining()[0]
                && final(self).remaining() == old(self).remaining().drop_first()),
    {
        match self.node {
            None => None,
            Some(node) => {
                self.node = match &node.lower_node {
                    None => None,
                    Some(boxed) => Some(&**boxed),
                };
                Some(&node.data)
            },
        }
    }

    /// Advances the cursor past `idx` elements and yields a borrow of the
    /// next one's data; `None` if fewer than `idx + 1` elements remain.
    pub fn nth(&mut self, idx: usize) -> (r: Option<&'a T>)
        ensures
            idx < old(self).remaining().len() ==> (r matches Some(d)
                && *d == old(self).remaining()[idx as int]
                && final(self).remaining() == old(self).remaining().skip(idx + 1)),
            idx >= old(self).remaining().len() ==> r is None
                && final(self).remaining() == Seq::<T>::empty(),
    {
        let ghost all = old(self).remaining();
        let mut i: usize = 0;
        while i < idx
            invariant
                all == old(self).remaining(),
                i <= idx,
                i <= all.len(),
                self.remaining() == all.skip(i as int),
            decreases idx - i,
        {
            if self.next().is_none() {
                return None;
            }
            proof {
                assert(all.skip(i as int).drop_first() =~= all.skip(i + 1));
            }
            i += 1;
        }
        self.next()
    }
}

/// A mutable cursor over the chain. It holds a borrow of the link it is
/// about to examine (not of a node), so a removal can rewrite that link in
/// place and splice the chain without a second pass.
pub struct IterMut<'a, T> {
    link: Option<&'a mut Link<T>>,
}

impl<'a, T> IterMut<'a, T> {
    /// The borrow of the link the cursor is about to examine, if any.
    pub closed spec fn cursor(&self) -> Option<&'a mut Link<T>> {
        self.link
    }

    /// The elements the cursor has not yet yielded, in traversal order,
    /// as they stand now.
    pub closed spec fn remaining(&self) -> Seq<T> {
        match self.link {
            None => Seq::empty(),
            Some(l) => link_view(*l),
        }
    }

    /// Starts a cursor at the given link.
    pub(crate) fn from_link(link: &'a mut Link<T>) -> (it: Self)
        ensures
            it.remaining() == link_view(*old(link)),
            it.cursor() matches Some(l) && *final(l) == *final(link),
    {
        Self { link: Some(link) }
    }

    /// Yields an exclusive borrow of the next element's data, or `None` if
    /// the traversal is exhausted.
    ///
    /// The last clause ties the chain's eventual contents to whatever the
    /// caller writes through the yielded borrow: the part of the chain the
    /// cursor entered this call with will finally hold the yielded element's
    /// final value followed by whatever the rest finally holds.
    pub fn next(&mut self) -> (r: Option<&'a mut T>)
        ensures
            old(self).remaining().len() == 0 ==> (r is None
                && final(self).cursor() is None
                && (old(self).cursor() matches Some(l0) ==> *final(l0) is None)),
            old(self).remaining().len() > 0 ==> (r matches Some(d)
                && *d == old(self).remaining()[0]
                && final(self).remaining() == old(self).remaining().drop_first()
                && (old(self).cursor() matches Some(l0) && (final(self).cursor() matches Some(l1)
                    && link_view(*final(l0)) == seq![*final(d)] + link_view(*final(l1))))),
    {
        match self.link.take() {
            None => None,
            Some(l) => match l.as_mut() {
                None => None,
                Some(boxed) => {
                    let node: &mut Node<T> = &mut **boxed;
                    self.link = Some(&mut node.lower_node);
                    Some(&mut node.data)
                },
            },
        }
    }

    /// Splices out the element the cursor is about to yield and returns its
    /// data; the cursor then stands on the spliced link. `None` if the
    /// traversal is exhausted. The chain's eventual contents from the
    /// entered link onward are unchanged by the splice itself: the removed
    /// node is gone and the rest follows.
    pub fn remove_next(&mut self) -> (r: Option<T>)
        ensures
            old(self).remaining().len() == 0 ==> (r is None
                && final(self).cursor() is None
                && (old(self).cursor() matches Some(l0) ==> *final(l0) is None)),
            old(self).remaining().len() > 0 ==> (r == Some(old(self).remaining()[0])
                && final(self).remaining() == old(self).remaining().drop_first()
                && (old(self).cursor() matches Some(l0) && (final(self).cursor() matches Some(l1)
                    && link_view(*final(l0)) == link_view(*final(l1))))),
    {
        match self.link.take() {
            None => None,
            Some(l) => match l.take() {
                None => None,
                Some(node) => {
                    let node = *node;
                    *l = node.lower_node;
                    self.link = Some(l);
                    Some(node.data)
                },
            },
        }
    }

    /// Advances the cursor past `idx` elements (discarding them from this
    /// traversal, not from the chain) and then splices out the next one.
    /// `None` if fewer than `idx + 1` elements remain. The discarded
    /// elements are left in the chain as they stand.
    pub fn remove_nth(&mut self, idx: usize) -> (r: Option<T>)
        ensures
            idx < old(self).remaining().len() ==> (r == Some(old(self).remaining()[idx as int])
                && final(self).remaining() == old(self).remaining().skip(idx + 1)
                && (old(self).cursor() matches Some(l0) && (final(self).cursor() matches Some(l1)
                    && link_view(*final(l0)) == old(self).remaining().take(idx as int)
                        + link_view(*final(l1))))),
            idx >= old(self).remaining().len() ==> (r is None
                && final(self).cursor() is None
                && (old(self).cursor() matches Some(l0)
                    ==> link_view(*final(l0)) == old(self).remaining())),
    {
        let ghost all = old(self).remaining();
        let mut i: usize = 0;
        while i < idx
            invariant
                all == old(self).remaining(),
                i <= idx,
                i <= all.len(),
                self.remaining() == all.skip(i as int),
                old(self).cursor() matches Some(l0) ==> (self.cursor() matches Some(l)
                    && link_view(*final(l0)) == all.take(i as int) + link_view(*final(l))),
                old(self).cursor() is None ==> self.cursor() is None,
            decreases idx - i,
        {
            if self.next().is_none() {
                proof {
                    assert(all =~= all.take(i as int));
                }
                return None;
            }
            proof {
                assert(all.take(i as int) + seq![all[i as int]] =~= all.take(i + 1));
                assert(all.skip(i as int).drop_first() =~= all.skip(i + 1));
            }
            i += 1;
        }
        let r = self.remove_next();
        proof {
            if idx < all.len() {
                assert(all.skip(idx as int).drop_first() =~= all.skip(idx + 1));
            } else {
                assert(all =~= all.take(idx as int));
            }
        }
        r
    }

    /// Advances the cursor past `idx` elements and yields an exclusive
    /// borrow of the next one's data; `None` if fewer than `idx + 1`
    /// elements remain.
    pub fn nth(&mut self, idx: usize) -> (r: Option<&'a mut T>)
        ensures
            idx < old(self).remaining().len() ==> (r matches Some(d)
                && *d == old(self).remaining()[idx as int]
                && final(self).remaining() == old(self).remaining().skip(idx + 1)
                && (old(self).cursor() matches Some(l0) && (final(self).cursor() matches Some(l1)
                    && link_view(*final(l0)) == old(self).remaining().take(idx as int)
                        + seq![*final(d)] + link_view(*final(l1))))),
            idx >= old(self).remaining().len() ==> (r is None
                && final(self).cursor() is None
                && (old(self).cursor() matches Some(l0)
                    ==> link_view(*final(l0)) == old(self).remaining())),
    {
        let ghost all = old(self).remaining();
        let mut i: usize = 0;
        while i < idx
            invariant
                all == old(self).remaining(),
                i <= idx,
                i <= all.len(),
                self.remaining() == all.skip(i as int),
                old(self).cursor() matches Some(l0) ==> (self.cursor() matches Some(l)
                    && link_view(*final(l0)) == all.take(i as int) + link_view(*final(l))),
                old(self).cursor() is None ==> self.cursor() is None,
            decreases idx - i,
        {
            if self.next().is_none() {
                proof {
                    assert(all =~= all.take(i as int));
                }
                return None;
            }
            proof {
                assert(all.take(i as int) + seq![all[i as int]] =~= all.take(i + 1));
                assert(all.skip(i as int).drop_first() =~= all.skip(i + 1));
            }
            i += 1;
        }
        let r = self.next();
        proof {
            if idx < all.len() {
                assert(all.skip(idx as int).drop_first() =~= all.skip(idx + 1));
            } else {
                assert(all =~= all.take(idx as int));
            }
        }
        r
    }
}

impl<T> Stack<T> {
    /// Starts a mutable cursor at the top of the stack. What the stack holds
    /// when the cursor is done is exactly what the chain behind the cursor's
    /// borrow will finally hold.
    pub fn iter_mut<'a>(&'a mut self) -> (it: IterMut<'a, T>)
        ensures
            it.remaining() == old(self)@,
            it.cursor() matches Some(l) && link_view(*final(l)) == final(self)@,
    {
        IterMut::from_link(&mut self.top_node)
    }

    /// Borrows the top element's data without altering the structure;
    /// `None` on an empty stack.
    pub fn peek(&self) -> (r: Option<&T>)
        ensures
            self@.len() == 0 ==> r is None,
            self@.len() > 0 ==> (r matches Some(d) && *d == self@[0]),
    {
        match &self.top_node {
            None => None,
            Some(node) => Some(&node.data),
        }
    }

    /// Exclusively borrows the top element's data; what the caller writes
    /// through the borrow replaces the top element, the rest is untouched.
    /// `None` on an empty stack.
    pub fn peek_mut(&mut self) -> (r: Option<&mut T>)
        ensures
            old(self)@.len() == 0 ==> r is None && final(self)@ == old(self)@,
            old(self)@.len() > 0 ==> (r matches Some(d) && *d == old(self)@[0]
                && final(self)@ == old(self)@.update(0, *final(d))),
    {
        let ghost all = self@;
        let r = match &mut self.top_node {
            None => None,
            Some(node) => Some(&mut node.data),
        };
        proof {
            if all.len() > 0 {
                assert(r matches Some(d) ==> all.update(0, *final(d)) =~= seq![*final(d)]
                    + all.drop_first());
            }
        }
        r
    }

    /// Starts a read-only cursor at the top of the stack.
    pub fn iter(&self) -> (it: Iter<'_, T>)
        ensures
            it.remaining() == self@,
    {
        Iter::from_link(&self.top_node)
    }

    /// Borrows the element at position `idx`, zero-indexed from the top;
    /// `None` if `idx` is out of range.
    pub fn nth(&self, idx: usize) -> (r: Option<&T>)
        ensures
            idx < self@.len() ==> (r matches Some(d) && *d == self@[idx as int]),
            idx >= self@.len() ==> r is None,
    {
        let mut it = self.iter();
        it.nth(idx)
    }

    /// Exclusively borrows the element at position `idx`, zero-indexed from
    /// the top; what the caller writes through the borrow replaces that
    /// element, the rest is untouched. `None` if `idx` is out of range.
    pub fn nth_mut(&mut self, idx: usize) -> (r: Option<&mut T>)
        ensures
            idx >= old(self)@.len() ==> r is None && final(self)@ == old(self)@,
            idx < old(self)@.len() ==> (r matches Some(d) && *d == old(self)@[idx as int]
                && final(self)@ == old(self)@.update(idx as int, *final(d))),
    {
        let ghost all = self@;
        let mut it = self.iter_mut();
        let r = it.nth(idx);
        proof {
            if idx < all.len() {
                assert(r matches Some(d) ==> all.take(idx as int) + seq![*final(d)]
                    + all.skip(idx + 1) =~= all.update(idx as int, *final(d)));
            }
        }
        r
    }

    /// Moves the whole chain into a consuming iterator; the stack handle is
    /// no longer usable afterwards.
    pub fn into_iter(self) -> (it: IntoIter<T>)
        ensures
            it.remaining() == self@,
    {
        let mut this = self;
        IntoIter::from_link(this.top_node.take())
    }

    /// Detaches and returns the element at position `idx` (0 = top),
    /// re-linking its predecessor directly to its successor and preserving
    /// the order of all other elements; `None` if `idx` is out of range.
    pub fn remove(&mut self, idx: usize) -> (r: Option<T>)
        ensures
            idx < old(self)@.len() ==> r == Some(old(self)@[idx as int])
                && final(self)@ == old(self)@.remove(idx as int),
            idx >= old(self)@.len() ==> r is None && final(self)@ == old(self)@,
    {
        let ghost all = self@;
        let mut it = self.iter_mut();
        let r = it.remove_nth(idx);
        proof {
            if idx < all.len() {
                assert(all.take(idx as int) + all.skip(idx + 1) =~= all.remove(idx as int));
            }
        }
        r
    }
}

impl<T: PartialEq> Stack<T> {
    /// True iff some element of the chain compares equal to `data`. Linear
    /// scan from the top, stopping at the first match. The guarantee is
    /// conditional on `T`'s equality agreeing with its specification, as it
    /// does for the standard types.
    pub fn contains(&self, data: &T) -> (r: bool)
        ensures
            T::obeys_eq_spec() ==> (r <==> exists|i: int|
                0 <= i < self@.len() && self@[i].eq_spec(data)),
    {
        let ghost all = self@;
        let ghost mut seen: int = 0;
        let mut it = self.iter();
        loop
            invariant
                all == self@,
                0 <= seen <= all.len(),
                it.remaining() == all.skip(seen),
                T::obeys_eq_spec() ==> forall|i: int| 0 <= i < seen ==> !all[i].eq_spec(data),
            decreases all.len() - seen,
        {
            match it.next() {
                None => {
                    return false;
                },
                Some(d) => {
                    if d == data {
                        return true;
                    }
                },
            }
            proof {
                assert(all.skip(seen).drop_first() =~= all.skip(seen + 1));
                seen = seen + 1;
            }
        }
    }
}

/// A consuming iterator: it owns what is left of the chain and releases
/// each node as it yields the node's data.
pub struct IntoIter<T> {
    link: Link<T>,
}

impl<T> IntoIter<T> {
    /// The elements not yet yielded, in traversal order.
    pub closed spec fn remaining(&self) -> Seq<T> {
        link_view(self.link)
    }

    /// Takes ownership of a chain and prepares to drain it.
    pub(crate) fn from_link(link: Link<T>) -> (it: Self)
        ensures
            it.remaining() == link_view(link),
    {
        Self { link }
    }

    /// Detaches the next node and returns its data, or `None` once the
    /// chain is drained.
    pub fn next(&mut self) -> (r: Option<T>)
        ensures
            old(self).remaining().len() == 0 ==> r is None
                && final(self).remaining() == old(self).remaining(),
            old(self).remaining().len() > 0 ==> r == Some(old(self).remaining()[0])
                && final(self).remaining() == old(self).remaining().drop_first(),
    {
        match self.link.take() {
            None => None,
            Some(node) => {
                let node = *node;
                self.link = node.lower_node;
                Some(node.data)
            },
        }
    }
}

/// The view of a stack holding `v` after the elements of `s` are pushed
/// onto it in order: each push places its element on top, exactly as
/// `Stack::push` ensures.
pub open spec fn after_pushes<T>(v: Seq<T>, s: Seq<T>) -> Seq<T>
    decreases s.len(),
{
    if s.len() == 0 {
        v
    } else {
        after_pushes(seq![s[0]] + v, s.drop_first())
    }
}

/// What repeated `pop` calls return from a stack holding `v` until it is
/// empty — and equally what the consuming iterator yields until the chain
/// is drained: both contracts return the element at index 0 of the view and
/// drop it.
pub open spec fn drained<T>(v: Seq<T>) -> Seq<T>
    decreases v.len(),
{
    if v.len() == 0 {
        Seq::empty()
    } else {
        seq![v[0]] + drained(v.drop_first())
    }
}

/// Law: pushing the elements of `s` in order turns a stack holding `v` into
/// one holding the reverse of `s` on top of `v`. Starting from the empty
/// stack, the following `s.len()` pops therefore return the pushed elements
/// in exactly reversed order (`pop` returns index 0 of the view and drops
/// it), and one pop more finds the stack empty and returns `None`.
pub proof fn lemma_push_pop_reverse<T>(v: Seq<T>, s: Seq<T>)
    ensures
        after_pushes(v, s) == s.reverse() + v,
    decreases s.len(),
{
    if s.len() == 0 {
        assert(after_pushes(v, s) =~= s.reverse() + v);
    } else {
        lemma_push_pop_reverse(seq![s[0]] + v, s.drop_first());
        assert(s.drop_first().reverse() + (seq![s[0]] + v) =~= s.reverse() + v);
    }
}

/// Law: draining a stack yields its view exactly — every element once, in
/// order, nothing duplicated and nothing dropped — whether through repeated
/// `pop` calls or through the consuming iterator, element for element.
pub proof fn lemma_drained_exact<T>(v: Seq<T>)
    ensures
        drained(v) == v,
    decreases v.len(),
{
    if v.len() == 0 {
        assert(drained(v) =~= v);
    } else {
        lemma_drained_exact(v.drop_first());
        assert(drained(v) =~= v);
    }
}

/// Law: pushing the elements of `s` onto an empty stack and then draining
/// it — by the consuming iterator or by repeated `pop` — gives back exactly
/// the reverse of `s`.
pub proof fn lemma_push_drain_round_trip<T>(s: Seq<T>)
    ensures
        drained(after_pushes(Seq::empty(), s)) == s.reverse(),
{
    lemma_push_pop_reverse(Seq::empty(), s);
    lemma_drained_exact(s.reverse());
    assert(s.reverse() + Seq::<T>::empty() =~= s.reverse());
}

/// Law: `remove(0)` is equivalent to `pop` on every non-empty stack. Both
/// contracts return the top element `Some(v[0])`, and the views they leave
/// behind — `v.remove(0)` and `v.drop_first()` — are one and the same.
pub proof fn lemma_remove_zero_is_pop<T>(v: Seq<T>)
    requires
        v.len() > 0,
    ensures
        v.remove(0) == v.drop_first(),
{
    assert(v.remove(0) =~= v.drop_first());
}

/// Law: a write through `peek_mut` or `nth_mut` — whose contracts give the
/// stack the view `v.update(i, x)` — is visible to a subsequent `peek` or
/// `nth` at the same position, and alters neither the length nor any other
/// element.
pub proof fn lemma_write_in_place<T>(v: Seq<T>, i: int, x: T)
    requires
        0 <= i < v.len(),
    ensures
        v.update(i, x).len() == v.len(),
        v.update(i, x)[i] == x,
        forall|j: int| 0 <= j < v.len() && j != i ==> v.update(i, x)[j] == v[j],
{
}

} // verus!
