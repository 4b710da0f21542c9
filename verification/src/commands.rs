//! Undo/redo history of editor commands.
//!
//! A command changes a world (and the editor's selection) when applied and
//! reverts that change when undone; it updates its own stored state as it
//! goes, so it can be applied again after an undo.
use vstd::prelude::*;

verus! {

/// An undoable edit of a world `W` with a selection `S`.
pub trait EditCommand<W, S>: Sized {
    /// Applying this command to `world` and `selection` may leave the command
    /// as `next`, the world as `world1` and the selection as `selection1`.
    spec fn applied(&self, world: W, selection: S, next: Self, world1: W, selection1: S) -> bool;

    /// Undoing this command on `world` and `selection` may leave the command
    /// as `next`, the world as `world1` and the selection as `selection1`.
    spec fn undone(&self, world: W, selection: S, next: Self, world1: W, selection1: S) -> bool;

    fn apply(&mut self, world: &mut W, selection: &mut S)
        ensures
            old(self).applied(*old(world), *old(selection), *final(self), *final(world), *final(selection)),
    ;

    fn undo(&mut self, world: &mut W, selection: &mut S)
        ensures
            old(self).undone(*old(world), *old(selection), *final(self), *final(world), *final(selection)),
    ;
}

/// Undo and redo stacks of commands; the last element is the top.
pub struct UndoStack<C> {
    undo: Vec<C>,
    redo: Vec<C>,
}

impl<C> View for UndoStack<C> {
    /// `(undo stack, redo stack)`.
    type V = (Seq<C>, Seq<C>);

    closed spec fn view(&self) -> (Seq<C>, Seq<C>) {
        (self.undo@, self.redo@)
    }
}

impl<C> Default for UndoStack<C> {
    fn default() -> (s: Self)
        ensures
            s@.0 == Seq::<C>::empty(),
            s@.1 == Seq::<C>::empty(),
    {
        UndoStack { undo: Vec::new(), redo: Vec::new() }
    }
}

impl<C> UndoStack<C> {
    pub fn new() -> (s: Self)
        ensures
            s@.0 == Seq::<C>::empty(),
            s@.1 == Seq::<C>::empty(),
    {
        UndoStack { undo: Vec::new(), redo: Vec::new() }
    }

    /// Apply `cmd` and push it on the undo stack; a new edit discards the redo
    /// history.
    pub fn run<W, S>(&mut self, world: &mut W, selection: &mut S, cmd: C) where C: EditCommand<W, S>
        ensures
            final(self)@.0.len() == old(self)@.0.len() + 1,
            final(self)@.0.drop_last() == old(self)@.0,
            final(self)@.1 == Seq::<C>::empty(),
            cmd.applied(*old(world), *old(selection), final(self)@.0.last(), *final(world), *final(selection)),
    {
        let mut cmd = cmd;
        cmd.apply(world, selection);
        self.undo.push(cmd);
        self.redo.clear();
        proof {
            assert(self@.0.drop_last() =~= old(self)@.0);
        }
    }

    /// Undo the most recent command, moving it to the redo stack. Does
    /// nothing when there is nothing to undo.
    pub fn undo<W, S>(&mut self, world: &mut W, selection: &mut S) where C: EditCommand<W, S>
        ensures
            old(self)@.0.len() > 0 ==> {
                &&& final(self)@.0 == old(self)@.0.drop_last()
                &&& final(self)@.1.len() == old(self)@.1.len() + 1
                &&& final(self)@.1.drop_last() == old(self)@.1
                &&& old(self)@.0.last().undone(*old(world), *old(selection), final(self)@.1.last(),
                    *final(world), *final(selection))
            },
            old(self)@.0.len() == 0 ==> final(self)@ == old(self)@ && *final(world) == *old(world)
                && *final(selection) == *old(selection),
    {
        if let Some(mut cmd) = self.undo.pop() {
            cmd.undo(world, selection);
            self.redo.push(cmd);
            proof {
                assert(self@.1.drop_last() =~= old(self)@.1);
            }
        }
    }

    /// Re-apply the most recently undone command, moving it back to the undo
    /// stack. Does nothing when there is nothing to redo.
    pub fn redo<W, S>(&mut self, world: &mut W, selection: &mut S) where C: EditCommand<W, S>
        ensures
            old(self)@.1.len() > 0 ==> {
                &&& final(self)@.1 == old(self)@.1.drop_last()
                &&& final(self)@.0.len() == old(self)@.0.len() + 1
                &&& final(self)@.0.drop_last() == old(self)@.0
                &&& old(self)@.1.last().applied(*old(world), *old(selection), final(self)@.0.last(),
                    *final(world), *final(selection))
            },
            old(self)@.1.len() == 0 ==> final(self)@ == old(self)@ && *final(world) == *old(world)
                && *final(selection) == *old(selection),
    {
        if let Some(mut cmd) = self.redo.pop() {
            cmd.apply(world, selection);
            self.undo.push(cmd);
            proof {
                assert(self@.0.drop_last() =~= old(self)@.0);
            }
        }
    }

    pub fn can_undo(&self) -> (b: bool)
        ensures
            b == (self@.0.len() > 0),
    {
        self.undo.len() > 0
    }

    pub fn can_redo(&self) -> (b: bool)
        ensures
            b == (self@.1.len() > 0),
    {
        self.redo.len() > 0
    }
}

/// Undo followed by redo restores the shape of both stacks, and leaves every
/// command below the top untouched.
pub proof fn lemma_undo_redo_roundtrip<C>(s0: (Seq<C>, Seq<C>), s1: (Seq<C>, Seq<C>), s2: (Seq<C>, Seq<C>))
    requires
        s0.0.len() > 0,
        s1.0 == s0.0.drop_last(),
        s1.1.len() == s0.1.len() + 1,
        s1.1.drop_last() == s0.1,
        s2.1 == s1.1.drop_last(),
        s2.0.len() == s1.0.len() + 1,
        s2.0.drop_last() == s1.0,
    ensures
        s2.0.len() == s0.0.len(),
        s2.0.drop_last() == s0.0.drop_last(),
        s2.1 == s0.1,
{
}

} // verus!
