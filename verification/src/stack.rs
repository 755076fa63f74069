//! The stack of states: only its top is ever reached.

use vstd::prelude::*;

verus! {

/// The top of a stack given bottom first: its last item, if it has one.
pub open spec fn top_of<T>(items: Seq<T>) -> Option<T> {
    if items.len() == 0 {
        None
    } else {
        Some(items.last())
    }
}

/// A sequence used as a stack, the top at its end.
pub trait Stack<T> {
    /// The items, bottom first.
    spec fn items(&self) -> Seq<T>;

    /// The top item, to be changed in place; `None` on an empty stack.
    /// Whatever the caller writes through the reference replaces the top, and
    /// nothing below it moves.
    fn top(&mut self) -> (r: Option<&mut T>)
        ensures
            r.is_none() ==> top_of(old(self).items()).is_none()
                && final(self).items() == old(self).items(),
            r.is_some() ==> top_of(old(self).items()) == Some(*r.unwrap())
                && final(self).items() == old(self).items().update(
                    old(self).items().len() - 1,
                    *final(r.unwrap()),
                ),
    ;
}

impl<T> Stack<T> for Vec<T> {
    open spec fn items(&self) -> Seq<T> {
        self@
    }

    fn top(&mut self) -> (r: Option<&mut T>) {
        if self.is_empty() {
            None
        } else {
            let last: usize = self.len() - 1;
            Some(&mut self[last])
        }
    }
}

/// The states of a game, owned by the stack. The top state is the active one:
/// the only one that is handed events, updated and rendered.
pub struct StateStack<S> {
    states: Vec<S>,
}

impl<S> View for StateStack<S> {
    type V = Seq<S>;

    /// The states, bottom first.
    closed spec fn view(&self) -> Seq<S> {
        self.states@
    }
}

impl<S> StateStack<S> {
    /// A stack without states.
    pub fn new() -> (stack: Self)
        ensures
            stack@ == Seq::<S>::empty(),
    {
        StateStack { states: Vec::new() }
    }

    /// Whether the stack holds no state.
    pub fn is_empty(&self) -> (empty: bool)
        ensures
            empty == (self@.len() == 0),
    {
        self.states.is_empty()
    }

    /// The number of states.
    pub fn len(&self) -> (n: usize)
        ensures
            n == self@.len(),
    {
        self.states.len()
    }

    /// Puts `state` on top; the states below stay as they are.
    pub fn push(&mut self, state: S)
        ensures
            final(self)@ == old(self)@.push(state),
    {
        self.states.push(state);
    }

    /// The active state, to be changed in place; `None` on an empty stack.
    /// What the caller does to it is done to the top of the stack, and no
    /// state below is touched.
    pub fn peek_top(&mut self) -> (r: Option<&mut S>)
        ensures
            r.is_none() ==> top_of(old(self)@).is_none() && final(self)@ == old(self)@,
            r.is_some() ==> top_of(old(self)@) == Some(*r.unwrap())
                && final(self)@ == old(self)@.update(old(self)@.len() - 1, *final(r.unwrap())),
    {
        self.states.top()
    }

    /// Takes the active state off the stack and hands it to the caller, who
    /// releases it; the state below, if any, becomes the active one. `None`
    /// on an empty stack, which stays empty.
    pub fn pop(&mut self) -> (r: Option<S>)
        ensures
            r == top_of(old(self)@),
            old(self)@.len() == 0 ==> final(self)@ == old(self)@,
            old(self)@.len() != 0 ==> final(self)@ == old(self)@.drop_last(),
    {
        self.states.pop()
    }
}

/// Last in, first out: after a push the top is the state just pushed.
pub proof fn lemma_push_then_top<S>(states: Seq<S>, state: S)
    ensures
        top_of(states.push(state)) == Some(state),
{
}

/// After any run of pushes, and no pop, the top is the state pushed last.
pub proof fn lemma_pushes_then_top<S>(states: Seq<S>, pushed: Seq<S>)
    requires
        pushed.len() > 0,
    ensures
        top_of(states + pushed) == Some(pushed.last()),
{
}

/// A pop undoes a push: it hands back the state pushed and leaves the stack
/// as it was.
pub proof fn lemma_push_then_pop<S>(states: Seq<S>, state: S)
    ensures
        top_of(states.push(state)) == Some(state),
        states.push(state).drop_last() == states,
{
    assert(states.push(state).drop_last() =~= states);
}

} // verus!
