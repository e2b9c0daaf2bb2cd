use vstd::prelude::*;
use vstd::cell::invcell::InvCell;
use vstd::predicate::Predicate;
use std::rc::Rc;

verus! {

/// The rule that admits every value.
pub struct Any;

impl<T> Predicate<T> for Any {
    open spec fn predicate(&self, v: T) -> bool {
        true
    }
}

/// `rule` admits every copy of a value that it admits.
pub open spec fn admits_copies<T: Clone, P: Predicate<T>>(rule: P) -> bool {
    forall|v: T, copy: T| rule.predicate(v) && #[trigger] cloned(v, copy) ==> rule.predicate(copy)
}

/// A slot for one value, shared by all handles cloned from the first.
///
/// The slot always holds a value. A handle gives access to the value by
/// taking it out of the slot and putting it back; while one holder has the
/// value out, the slot holds a copy in its place, so that every other holder
/// finds a value as well. What the slot holds at a given moment is not part
/// of a handle's value: two handles are equal when they reach the same slot
/// and keep equal copies.
///
/// What is known of the value at every moment is the rule `P` that the slot
/// was made with: only values that the rule admits are put into the slot, so
/// only such values are taken out of it.
pub struct Cell<T: Clone, P: Predicate<T> = Any> {
    slot: Rc<InvCell<T, P>>,
    spare: T,
}

impl<T: Clone, P: Predicate<T>> Cell<T, P> {
    #[verifier::type_invariant]
    spec fn sound(self) -> bool {
        self.slot.predicate().predicate(self.spare) && admits_copies::<T, P>(self.slot.predicate())
    }

    /// The rule that the slot was made with.
    pub closed spec fn rule(self) -> P {
        self.slot.predicate()
    }

    /// The value that this handle keeps to stand in for the one it takes
    /// out.
    pub closed spec fn spare(self) -> T {
        self.spare
    }

    /// Whether the slot may hold `value`.
    pub open spec fn admits(self, value: T) -> bool {
        self.rule().predicate(value)
    }

    /// Whether this handle and `other` reach the same slot.
    pub closed spec fn reaches(self, other: Self) -> bool {
        self.slot == other.slot
    }

    /// Handles that reach the same slot know the same rule.
    pub proof fn lemma_one_rule(self, other: Self)
        requires
            self.reaches(other),
        ensures
            self.rule() == other.rule(),
    {
    }

    /// A new slot that holds `value` and keeps to `rule`.
    pub fn keeping(value: T, Ghost(rule): Ghost<P>) -> (cell: Self)
        requires
            rule.predicate(value),
            admits_copies::<T, P>(rule),
        ensures
            cell.rule() == rule,
            cloned(value, cell.spare()),
    {
        let spare = value.clone();
        assert(cloned(value, spare));
        let slot = Rc::new(InvCell::new(value, Ghost(rule)));
        assert(slot.predicate() == rule);
        Cell { slot, spare }
    }

    /// Takes the value out of the slot and leaves a copy of the spare in its
    /// place. What is taken out was put in, so the slot's rule admits it.
    pub fn take(&self) -> (value: T)
        ensures
            self.admits(value),
    {
        proof {
            use_type_invariant(self);
        }
        let copy = self.spare.clone();
        assert(cloned(self.spare, copy));
        self.slot.replace(copy)
    }

    /// Puts `value` into the slot and hands back what it held, which was put
    /// in before, so the slot's rule admits it.
    pub fn put(&self, value: T) -> (held: T)
        requires
            self.admits(value),
        ensures
            self.admits(held),
    {
        self.slot.replace(value)
    }

    /// Another handle to the same slot, with a copy of the spare.
    pub fn share(&self) -> (other: Self)
        ensures
            other.reaches(*self),
            other.rule() == self.rule(),
            cloned(self.spare(), other.spare()),
    {
        proof {
            use_type_invariant(self);
        }
        let spare = self.spare.clone();
        assert(cloned(self.spare, spare));
        let slot = self.slot.clone();
        assert(slot.predicate() == self.slot.predicate());
        Cell { slot, spare }
    }
}

impl<T: Clone> Cell<T, Any> {
    /// A new slot that holds `value` and may hold any other.
    pub fn new(value: T) -> (cell: Self)
        ensures
            cloned(value, cell.spare()),
    {
        Cell::keeping(value, Ghost(Any))
    }
}

impl<T: Clone, P: Predicate<T>> Clone for Cell<T, P> {
    /// Another handle to the same slot.
    fn clone(&self) -> (other: Self)
        ensures
            other.reaches(*self),
            other.rule() == self.rule(),
            cloned(self.spare(), other.spare()),
    {
        self.share()
    }
}

/// The rule of a shelf: the shelf is vacant, or it holds a value that the
/// rule `keeps` admits.
pub struct Kept<P> {
    pub keeps: P,
}

impl<T, P: Predicate<T>> Predicate<Option<T>> for Kept<P> {
    open spec fn predicate(&self, v: Option<T>) -> bool {
        v matches Some(held) ==> self.keeps.predicate(held)
    }
}

/// A shared place for a value that is not there from the start, or not all
/// the time: vacant until a holder puts a value there, and vacant again
/// while a holder has the value out.
pub struct Shelf<T, P = Any> {
    slot: Rc<InvCell<Option<T>, Kept<P>>>,
}

impl<T, P: Predicate<T>> Shelf<T, P> {
    /// The rule that the shelf was made with.
    pub closed spec fn rule(self) -> P {
        self.slot.predicate().keeps
    }

    /// Whether the shelf may hold `value`.
    pub open spec fn admits(self, value: T) -> bool {
        self.rule().predicate(value)
    }

    /// A new shelf, vacant, that keeps to `rule`.
    pub fn keeping(Ghost(rule): Ghost<P>) -> (shelf: Self)
        ensures
            shelf.rule() == rule,
    {
        Shelf { slot: Rc::new(InvCell::new(None, Ghost(Kept { keeps: rule }))) }
    }

    /// Takes the value off the shelf, which is left vacant; `None` when the
    /// shelf is vacant already. What is taken was put there, so the shelf's
    /// rule admits it.
    pub fn take(&self) -> (value: Option<T>)
        ensures
            value matches Some(held) ==> self.admits(held),
    {
        self.slot.replace(None)
    }

    /// Puts `value` on the shelf and hands back what it held.
    pub fn put(&self, value: T) -> (held: Option<T>)
        requires
            self.admits(value),
        ensures
            held matches Some(before) ==> self.admits(before),
    {
        self.slot.replace(Some(value))
    }
}

impl<T> Shelf<T, Any> {
    /// A new shelf, vacant, that may hold any value.
    pub fn new() -> (shelf: Self) {
        Shelf::keeping(Ghost(Any))
    }
}

impl<T, P> Clone for Shelf<T, P> {
    /// Another handle to the same shelf.
    fn clone(&self) -> (other: Self)
        ensures
            other == *self,
    {
        Shelf { slot: self.slot.clone() }
    }
}

} // verus!
