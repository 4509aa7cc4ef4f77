//! Undo/redo history.
//!
//! Two stacks of recorded edits with a size bound, a save point for
//! modified-state tracking, and grouping of consecutive edits into one
//! undo step.

use crate::buffer::TextBuffer;
use crate::command::CompositeCommand;
use crate::command::EditCommand;
use crate::command::SimpleCommand;
use crate::command::seq_revert;
use crate::command::seq_wf;
use crate::command::state_of;
use core::mem::swap;
use vstd::prelude::*;

verus! {

/// The commands a recorded edit contributes to an open group: a simple
/// command joins as itself, a composite is flattened into its parts.
pub open spec fn group_parts_of(c: EditCommand) -> Seq<SimpleCommand> {
    match c {
        EditCommand::Simple(sc) => seq![sc],
        EditCommand::Composite(cc) => cc.commands@,
    }
}

/// A save point after the oldest history entry was evicted: it moves
/// down one step, or is lost when it pointed at the evicted entry.
pub open spec fn save_after_evict(sp: Option<usize>) -> Option<usize> {
    match sp {
        Some(k) => if k > 0 {
            Some((k - 1) as usize)
        } else {
            None
        },
        None => None,
    }
}

/// How many undoable entries one plain push leaves: one more, except
/// that at or above the bound the oldest entry is evicted in exchange.
pub open spec fn spec_push_len(len: int, cap: int) -> int {
    if len + 1 > cap {
        len
    } else {
        len + 1
    }
}

/// How many undoable entries `n` plain pushes leave.
pub open spec fn spec_pushes_len(n: nat, len0: int, cap: int) -> int
    decreases n,
{
    if n == 0 {
        len0
    } else {
        spec_push_len(spec_pushes_len((n - 1) as nat, len0, cap), cap)
    }
}

/// Pushing `n` commands into an empty history bounded by `cap` leaves
/// exactly `min(n, cap)` undoable entries.
pub proof fn lemma_history_size_bound(n: nat, cap: int)
    requires
        cap >= 0,
    ensures
        spec_pushes_len(n, 0, cap) == if n <= cap {
            n as int
        } else {
            cap
        },
    decreases n,
{
    if n > 0 {
        lemma_history_size_bound((n - 1) as nat, cap);
    }
}

/// Manages command history for undo/redo operations.
pub struct CommandHistory {
    undo_stack: Vec<EditCommand>,
    redo_stack: Vec<EditCommand>,
    max_size: usize,
    save_point: Option<usize>,
    current_group: Option<CompositeCommand>,
}

impl CommandHistory {
    /// The recorded edits that can be undone, oldest first.
    pub closed spec fn undo_cmds(&self) -> Seq<EditCommand> {
        self.undo_stack@
    }

    /// The undone edits that can be redone, oldest first.
    pub closed spec fn redo_cmds(&self) -> Seq<EditCommand> {
        self.redo_stack@
    }

    /// The size bound on the undo stack.
    pub closed spec fn cap(&self) -> int {
        self.max_size as int
    }

    /// The undo-stack length recorded at the last save, if any.
    pub closed spec fn save_mark(&self) -> Option<usize> {
        self.save_point
    }

    /// The commands of the group being built, if grouping is active.
    pub closed spec fn group_cmds(&self) -> Option<Seq<SimpleCommand>> {
        match self.current_group {
            Some(g) => Some(g.commands@),
            None => None,
        }
    }

    /// Every recorded edit is executable.
    pub open spec fn wf(&self) -> bool {
        &&& forall|i: int|
            0 <= i < self.undo_cmds().len() ==> (#[trigger] self.undo_cmds()[i]).wf()
        &&& forall|i: int|
            0 <= i < self.redo_cmds().len() ==> (#[trigger] self.redo_cmds()[i]).wf()
        &&& match self.group_cmds() {
            Some(g) => seq_wf(g),
            None => true,
        }
    }

    /// Whether the document counts as modified: a group is open, or the
    /// undo-stack length differs from the save point, or there is no
    /// save point and the stack is not empty.
    pub open spec fn spec_is_modified(&self) -> bool {
        ||| self.group_cmds() is Some
        ||| match self.save_mark() {
            None => self.undo_cmds().len() > 0,
            Some(sp) => sp != self.undo_cmds().len(),
        }
    }

    /// Creates an empty history with the given size bound.
    pub fn new(max_size: usize) -> (r: CommandHistory)
        ensures
            r.undo_cmds().len() == 0,
            r.redo_cmds().len() == 0,
            r.cap() == max_size,
            r.save_mark() is None,
            r.group_cmds() is None,
            r.wf(),
    {
        CommandHistory {
            undo_stack: Vec::new(),
            redo_stack: Vec::new(),
            max_size,
            save_point: None,
            current_group: None,
        }
    }

    /// Adds a recorded edit. While grouping is active the edit joins
    /// the open group; otherwise it clears the redo stack, goes on the
    /// undo stack, and evicts the oldest entry beyond the size bound,
    /// moving the save point with it.
    pub fn push(&mut self, command: EditCommand)
        requires
            old(self).wf(),
            command.wf(),
        ensures
            final(self).wf(),
            spec_push_rel(*old(self), *final(self), command),
    {
        let ghost parts = group_parts_of(command);
        let mut taken: Option<CompositeCommand> = None;
        swap(&mut taken, &mut self.current_group);
        if let Some(mut group) = taken {
            let ghost g = group.commands@;
            proof {
                assert(old(self).group_cmds() == Some(g));
                assert(seq_wf(g));
                assert(seq_wf(parts));
            }
            match command {
                EditCommand::Simple(sc) => {
                    group.add(sc);
                },
                EditCommand::Composite(mut cc) => {
                    group.commands.append(&mut cc.commands);
                },
            }
            proof {
                assert(group.commands@ =~= g + parts);
                let g2 = group.commands@;
                assert forall|i: int| 0 <= i < g2.len() implies (#[trigger] g2[i]).wf() by {
                    if i < g.len() {
                        assert(g2[i] == g[i]);
                    } else {
                        assert(g2[i] == parts[i - g.len()]);
                    }
                }
            }
            self.current_group = Some(group);
            proof {
                assert forall|i: int|
                    0 <= i < self.undo_cmds().len() implies (#[trigger] self.undo_cmds()[i]).wf() by {
                    assert(self.undo_cmds()[i] == old(self).undo_cmds()[i]);
                    assert(old(self).undo_cmds()[i].wf());
                }
                assert forall|i: int|
                    0 <= i < self.redo_cmds().len() implies (#[trigger] self.redo_cmds()[i]).wf() by {
                    assert(self.redo_cmds()[i] == old(self).redo_cmds()[i]);
                    assert(old(self).redo_cmds()[i].wf());
                }
            }
            return ;
        }
        self.redo_stack.clear();
        self.undo_stack.push(command);
        proof {
            let u1 = self.undo_stack@;
            assert(u1 == old(self).undo_cmds().push(command));
            assert forall|i: int| 0 <= i < u1.len() implies (#[trigger] u1[i]).wf() by {
                if i < old(self).undo_cmds().len() {
                    assert(u1[i] == old(self).undo_cmds()[i]);
                    assert(old(self).undo_cmds()[i].wf());
                }
            }
        }
        if self.undo_stack.len() > self.max_size {
            self.undo_stack.remove(0);
            proof {
                assert(self.undo_stack@ =~= old(self).undo_cmds().push(command).drop_first());
                let u2 = self.undo_stack@;
                let u1 = old(self).undo_cmds().push(command);
                assert forall|i: int| 0 <= i < u2.len() implies (#[trigger] u2[i]).wf() by {
                    assert(u2[i] == u1[i + 1]);
                }
            }
            match self.save_point {
                Some(sp) => {
                    if sp > 0 {
                        self.save_point = Some(sp - 1);
                    } else {
                        self.save_point = None;
                    }
                },
                None => {},
            }
        }
    }

    /// Undoes the most recent edit, closing any open group first, and
    /// moves it to the redo stack. Returns whether an edit was undone;
    /// buffer and cursor are restored exactly to the state before that
    /// edit was executed.
    pub fn undo(&mut self, buffer: &mut TextBuffer, cursor: &mut (usize, usize)) -> (r: bool)
        requires
            old(self).wf(),
            old(buffer).wf(),
        ensures
            final(self).wf(),
            final(buffer).wf(),
            final(self).cap() == old(self).cap(),
            final(self).group_cmds() is None,
            match old(self).group_cmds() {
                Some(g) => if g.len() > 0 {
                    if old(self).undo_cmds().len() + 1 > old(self).cap() && old(
                        self,
                    ).undo_cmds().len() == 0 {
                        // the flushed group was evicted at once: nothing to undo
                        &&& r == false
                        &&& final(self).undo_cmds().len() == 0
                        &&& final(self).redo_cmds().len() == 0
                        &&& final(buffer)@ == old(buffer)@
                        &&& *final(cursor) == *old(cursor)
                        &&& final(self).save_mark() == save_after_evict(old(self).save_mark())
                    } else {
                        &&& r == true
                        &&& final(self).undo_cmds() == if old(self).undo_cmds().len() + 1 > old(
                            self,
                        ).cap() {
                            old(self).undo_cmds().drop_first()
                        } else {
                            old(self).undo_cmds()
                        }
                        &&& final(self).save_mark() == if old(self).undo_cmds().len() + 1 > old(
                            self,
                        ).cap() {
                            save_after_evict(old(self).save_mark())
                        } else {
                            old(self).save_mark()
                        }
                        &&& final(self).redo_cmds().len() == 1
                        &&& (final(self).redo_cmds()[0] matches EditCommand::Composite(cc)
                            && cc.commands@ == g)
                        &&& state_of(final(buffer)@, *final(cursor)) == seq_revert(
                            g,
                            state_of(old(buffer)@, *old(cursor)),
                        )
                    }
                } else {
                    // an empty group is discarded and the stacks stand as they are
                    &&& final(self).save_mark() == old(self).save_mark()
                    &&& if old(self).undo_cmds().len() == 0 {
                        &&& r == false
                        &&& final(self).undo_cmds() == old(self).undo_cmds()
                        &&& final(self).redo_cmds() == old(self).redo_cmds()
                        &&& final(buffer)@ == old(buffer)@
                        &&& *final(cursor) == *old(cursor)
                    } else {
                        &&& r == true
                        &&& final(self).undo_cmds() == old(self).undo_cmds().drop_last()
                        &&& final(self).redo_cmds() == old(self).redo_cmds().push(
                            old(self).undo_cmds().last(),
                        )
                        &&& state_of(final(buffer)@, *final(cursor)) == old(
                            self,
                        ).undo_cmds().last().revert(state_of(old(buffer)@, *old(cursor)))
                    }
                },
                None => {
                    &&& final(self).save_mark() == old(self).save_mark()
                    &&& if old(self).undo_cmds().len() == 0 {
                        &&& r == false
                        &&& final(self).undo_cmds() == old(self).undo_cmds()
                        &&& final(self).redo_cmds() == old(self).redo_cmds()
                        &&& final(buffer)@ == old(buffer)@
                        &&& *final(cursor) == *old(cursor)
                    } else {
                        &&& r == true
                        &&& final(self).undo_cmds() == old(self).undo_cmds().drop_last()
                        &&& final(self).redo_cmds() == old(self).redo_cmds().push(
                            old(self).undo_cmds().last(),
                        )
                        &&& state_of(final(buffer)@, *final(cursor)) == old(
                            self,
                        ).undo_cmds().last().revert(state_of(old(buffer)@, *old(cursor)))
                    }
                },
            },
    {
        self.end_group_internal();
        let ghost u0 = self.undo_stack@;
        let popped = self.undo_stack.pop();
        match popped {
            Some(command) => {
                proof {
                    assert(self.undo_stack@ =~= u0.drop_last());
                }
                command.undo(buffer, cursor);
                let ghost r0 = self.redo_stack@;
                self.redo_stack.push(command);
                proof {
                    let r1 = self.redo_stack@;
                    assert forall|i: int| 0 <= i < r1.len() implies (#[trigger] r1[i]).wf() by {
                        if i < r0.len() {
                            assert(r1[i] == r0[i]);
                        } else {
                            assert(r1[i] == command);
                            assert(u0[u0.len() - 1] == command);
                        }
                    }
                }
                true
            },
            None => false,
        }
    }

    /// Redoes the most recently undone edit and moves it back to the
    /// undo stack. Returns whether an edit was redone.
    pub fn redo(&mut self, buffer: &mut TextBuffer, cursor: &mut (usize, usize)) -> (r: bool)
        requires
            old(self).wf(),
            old(buffer).wf(),
        ensures
            final(self).wf(),
            final(buffer).wf(),
            final(self).cap() == old(self).cap(),
            final(self).group_cmds() == old(self).group_cmds(),
            final(self).save_mark() == old(self).save_mark(),
            if old(self).redo_cmds().len() == 0 {
                &&& r == false
                &&& final(self).undo_cmds() == old(self).undo_cmds()
                &&& final(self).redo_cmds() == old(self).redo_cmds()
                &&& final(buffer)@ == old(buffer)@
                &&& *final(cursor) == *old(cursor)
            } else {
                &&& r == true
                &&& final(self).redo_cmds() == old(self).redo_cmds().drop_last()
                &&& final(self).undo_cmds() == old(self).undo_cmds().push(old(self).redo_cmds().last())
                &&& state_of(final(buffer)@, *final(cursor)) == old(
                    self,
                ).redo_cmds().last().apply(state_of(old(buffer)@, *old(cursor)))
            },
    {
        let ghost r0 = self.redo_stack@;
        let popped = self.redo_stack.pop();
        match popped {
            Some(command) => {
                proof {
                    assert(old(self).redo_cmds()[old(self).redo_cmds().len() - 1].wf());
                    assert(self.redo_stack@ =~= r0.drop_last());
                }
                command.execute(buffer, cursor);
                self.undo_stack.push(command);
                proof {
                    let u1 = self.undo_stack@;
                    assert(u1 == old(self).undo_cmds().push(command));
                    assert forall|i: int| 0 <= i < u1.len() implies (#[trigger] u1[i]).wf() by {
                        if i < old(self).undo_cmds().len() {
                            assert(u1[i] == old(self).undo_cmds()[i]);
                            assert(old(self).undo_cmds()[i].wf());
                        } else {
                            assert(u1[i] == command);
                            assert(old(self).redo_cmds()[old(self).redo_cmds().len() - 1].wf());
                        }
                    }
                }
                true
            },
            None => false,
        }
    }

    /// Returns whether there is anything to undo.
    pub fn can_undo(&self) -> (r: bool)
        ensures
            r == (self.undo_cmds().len() > 0 || self.group_cmds() is Some),
    {
        !self.undo_stack.is_empty() || self.current_group.is_some()
    }

    /// Returns whether there is anything to redo.
    pub fn can_redo(&self) -> (r: bool)
        ensures
            r == (self.redo_cmds().len() > 0),
    {
        !self.redo_stack.is_empty()
    }

    /// Marks the current undo-stack length as the save point.
    pub fn mark_saved(&mut self)
        ensures
            final(self).undo_cmds() == old(self).undo_cmds(),
            final(self).redo_cmds() == old(self).redo_cmds(),
            final(self).cap() == old(self).cap(),
            final(self).group_cmds() == old(self).group_cmds(),
            final(self).save_mark() == Some(old(self).undo_cmds().len() as usize),
            old(self).wf() ==> final(self).wf(),
    {
        self.save_point = Some(self.undo_stack.len());
        proof {
            if old(self).wf() {
                assert forall|i: int|
                    0 <= i < self.undo_cmds().len() implies (#[trigger] self.undo_cmds()[i]).wf() by {
                    assert(old(self).undo_cmds()[i].wf());
                }
                assert forall|i: int|
                    0 <= i < self.redo_cmds().len() implies (#[trigger] self.redo_cmds()[i]).wf() by {
                    assert(old(self).redo_cmds()[i].wf());
                }
            }
        }
    }

    /// Returns whether the document has been modified since the last
    /// save.
    pub fn is_modified(&self) -> (r: bool)
        ensures
            r == self.spec_is_modified(),
    {
        if self.current_group.is_some() {
            return true;
        }
        match self.save_point {
            None => !self.undo_stack.is_empty(),
            Some(sp) => sp != self.undo_stack.len(),
        }
    }

    /// Clears all history: both stacks, the save point, and any open
    /// group.
    pub fn clear(&mut self)
        ensures
            final(self).undo_cmds().len() == 0,
            final(self).redo_cmds().len() == 0,
            final(self).cap() == old(self).cap(),
            final(self).save_mark() is None,
            final(self).group_cmds() is None,
            final(self).wf(),
    {
        self.undo_stack.clear();
        self.redo_stack.clear();
        self.save_point = None;
        self.current_group = None;
    }

    /// Begins grouping subsequent pushes into one undo step; without
    /// effect when a group is already open.
    pub fn begin_group(&mut self, description: &str)
        ensures
            final(self).undo_cmds() == old(self).undo_cmds(),
            final(self).redo_cmds() == old(self).redo_cmds(),
            final(self).cap() == old(self).cap(),
            final(self).save_mark() == old(self).save_mark(),
            final(self).group_cmds() == match old(self).group_cmds() {
                Some(g) => Some(g),
                None => Some(Seq::<SimpleCommand>::empty()),
            },
            old(self).wf() ==> final(self).wf(),
    {
        if self.current_group.is_none() {
            self.current_group = Some(CompositeCommand::new(description.to_owned()));
        }
    }

    /// Ends the current grouping: the grouped commands join the undo
    /// stack as a single composite edit, an empty group is discarded.
    pub fn end_group(&mut self)
        requires
            old(self).wf(),
        ensures
            final(self).wf(),
            final(self).cap() == old(self).cap(),
            final(self).group_cmds() is None,
            match old(self).group_cmds() {
                Some(g) => if g.len() > 0 {
                    &&& final(self).redo_cmds().len() == 0
                    &&& if old(self).undo_cmds().len() + 1 > old(self).cap() {
                        &&& final(self).undo_cmds() == old(self).undo_cmds().push(
                            EditCommand::Composite(old(self).group_value()),
                        ).drop_first()
                        &&& final(self).save_mark() == save_after_evict(old(self).save_mark())
                    } else {
                        &&& final(self).undo_cmds() == old(self).undo_cmds().push(
                            EditCommand::Composite(old(self).group_value()),
                        )
                        &&& final(self).save_mark() == old(self).save_mark()
                    }
                } else {
                    &&& final(self).undo_cmds() == old(self).undo_cmds()
                    &&& final(self).redo_cmds() == old(self).redo_cmds()
                    &&& final(self).save_mark() == old(self).save_mark()
                },
                None => {
                    &&& final(self).undo_cmds() == old(self).undo_cmds()
                    &&& final(self).redo_cmds() == old(self).redo_cmds()
                    &&& final(self).save_mark() == old(self).save_mark()
                },
            },
    {
        self.end_group_internal();
    }

    /// Closes an open group, pushing it as one composite edit when it
    /// holds any commands.
    fn end_group_internal(&mut self)
        requires
            old(self).wf(),
        ensures
            final(self).wf(),
            final(self).cap() == old(self).cap(),
            final(self).group_cmds() is None,
            match old(self).group_cmds() {
                Some(g) => if g.len() > 0 {
                    &&& final(self).redo_cmds().len() == 0
                    &&& if old(self).undo_cmds().len() + 1 > old(self).cap() {
                        &&& final(self).undo_cmds() == old(self).undo_cmds().push(
                            EditCommand::Composite(old(self).group_value()),
                        ).drop_first()
                        &&& final(self).save_mark() == save_after_evict(old(self).save_mark())
                    } else {
                        &&& final(self).undo_cmds() == old(self).undo_cmds().push(
                            EditCommand::Composite(old(self).group_value()),
                        )
                        &&& final(self).save_mark() == old(self).save_mark()
                    }
                } else {
                    &&& final(self).undo_cmds() == old(self).undo_cmds()
                    &&& final(self).redo_cmds() == old(self).redo_cmds()
                    &&& final(self).save_mark() == old(self).save_mark()
                },
                None => {
                    &&& final(self).undo_cmds() == old(self).undo_cmds()
                    &&& final(self).redo_cmds() == old(self).redo_cmds()
                    &&& final(self).save_mark() == old(self).save_mark()
                },
            },
    {
        let mut taken: Option<CompositeCommand> = None;
        swap(&mut taken, &mut self.current_group);
        if taken.is_none() || taken.as_ref().unwrap().is_empty() {
            proof {
                assert forall|i: int|
                    0 <= i < self.undo_cmds().len() implies (#[trigger] self.undo_cmds()[i]).wf() by {
                    assert(self.undo_cmds()[i] == old(self).undo_cmds()[i]);
                    assert(old(self).undo_cmds()[i].wf());
                }
                assert forall|i: int|
                    0 <= i < self.redo_cmds().len() implies (#[trigger] self.redo_cmds()[i]).wf() by {
                    assert(self.redo_cmds()[i] == old(self).redo_cmds()[i]);
                    assert(old(self).redo_cmds()[i].wf());
                }
            }
            return ;
        }
        if let Some(group) = taken {
            proof {
                assert(group == old(self).group_value());
            }
            if !group.is_empty() {
                self.redo_stack.clear();
                let ghost pre_undo = self.undo_stack@;
                self.undo_stack.push(EditCommand::Composite(group));
                proof {
                    let u1 = self.undo_stack@;
                    assert(u1 == pre_undo.push(EditCommand::Composite(old(self).group_value())));
                    assert(EditCommand::Composite(old(self).group_value()).wf());
                    assert forall|i: int| 0 <= i < u1.len() implies (#[trigger] u1[i]).wf() by {
                        if i < pre_undo.len() {
                            assert(u1[i] == pre_undo[i]);
                            assert(old(self).undo_cmds()[i].wf());
                        }
                    }
                }
                if self.undo_stack.len() > self.max_size {
                    let ghost u1 = self.undo_stack@;
                    self.undo_stack.remove(0);
                    proof {
                        assert(self.undo_stack@ =~= pre_undo.push(
                            EditCommand::Composite(old(self).group_value()),
                        ).drop_first());
                        let u2 = self.undo_stack@;
                        assert forall|i: int| 0 <= i < u2.len() implies (#[trigger] u2[i]).wf() by {
                            assert(u2[i] == u1[i + 1]);
                            if i + 1 < pre_undo.len() {
                                assert(u1[i + 1] == old(self).undo_cmds()[i + 1]);
                                assert(old(self).undo_cmds()[i + 1].wf());
                            }
                        }
                    }
                    match self.save_point {
                        Some(sp) => {
                            if sp > 0 {
                                self.save_point = Some(sp - 1);
                            } else {
                                self.save_point = None;
                            }
                        },
                        None => {},
                    }
                }
            }
        }
    }

    /// The composite being built, for contracts that push it whole.
    pub closed spec fn group_value(&self) -> CompositeCommand {
        self.current_group->Some_0
    }

    /// Returns the size bound.
    pub fn max_size(&self) -> (r: usize)
        ensures
            r == self.cap(),
    {
        self.max_size
    }

    /// Sets the size bound, evicting the oldest entries beyond it and
    /// moving the save point with them.
    pub fn set_max_size(&mut self, max_size: usize)
        requires
            old(self).wf(),
        ensures
            final(self).wf(),
            final(self).cap() == max_size,
            final(self).redo_cmds() == old(self).redo_cmds(),
            final(self).group_cmds() == old(self).group_cmds(),
            ({
                let k = if old(self).undo_cmds().len() > max_size {
                    old(self).undo_cmds().len() - max_size
                } else {
                    0
                };
                &&& final(self).undo_cmds() == old(self).undo_cmds().skip(k as int)
                &&& final(self).save_mark() == if k == 0 {
                    old(self).save_mark()
                } else {
                    match old(self).save_mark() {
                        Some(sp) => if sp >= k {
                            Some((sp - k) as usize)
                        } else {
                            None
                        },
                        None => None,
                    }
                }
            }),
    {
        self.max_size = max_size;
        let ghost u0 = self.undo_stack@;
        let ghost sp0 = self.save_point;
        let ghost n0 = u0.len();
        proof {
            assert(u0.skip(0) =~= u0);
        }
        while self.undo_stack.len() > max_size
            invariant
                self.max_size == max_size,
                self.redo_stack@ == old(self).redo_cmds(),
                self.current_group == old(self).current_group,
                u0 == old(self).undo_cmds(),
                sp0 == old(self).save_mark(),
                n0 == u0.len(),
                self.undo_stack@.len() <= n0,
                self.undo_stack@ == u0.skip(n0 - self.undo_stack@.len()),
                ({
                    let k = n0 - self.undo_stack@.len();
                    self.save_point == if k == 0 {
                        sp0
                    } else {
                        match sp0 {
                            Some(sp) => if sp >= k {
                                Some((sp - k) as usize)
                            } else {
                                None
                            },
                            None => None,
                        }
                    }
                }),
                n0 > max_size ==> self.undo_stack@.len() >= max_size,
                n0 <= max_size ==> self.undo_stack@.len() == n0,
                forall|i: int|
                    0 <= i < self.undo_stack@.len() ==> (#[trigger] self.undo_stack@[i]).wf(),
            decreases self.undo_stack@.len(),
        {
            let ghost upre = self.undo_stack@;
            self.undo_stack.remove(0);
            proof {
                assert(self.undo_stack@ =~= upre.drop_first());
                assert(self.undo_stack@ =~= u0.skip(n0 - self.undo_stack@.len()));
            }
            match self.save_point {
                Some(sp) => {
                    if sp > 0 {
                        self.save_point = Some(sp - 1);
                    } else {
                        self.save_point = None;
                    }
                },
                None => {},
            }
        }
        proof {
            assert(u0.skip(0) =~= u0);
        }
    }

    /// Returns the number of edits that can be undone.
    pub fn undo_count(&self) -> (r: usize)
        ensures
            r == self.undo_cmds().len(),
    {
        self.undo_stack.len()
    }

    /// Returns the number of edits that can be redone.
    pub fn redo_count(&self) -> (r: usize)
        ensures
            r == self.redo_cmds().len(),
    {
        self.redo_stack.len()
    }
}

impl Default for CommandHistory {
    /// An empty history bounded at one hundred entries.
    fn default() -> (r: CommandHistory)
        ensures
            r.undo_cmds().len() == 0,
            r.redo_cmds().len() == 0,
            r.cap() == 100,
            r.save_mark() is None,
            r.group_cmds() is None,
            r.wf(),
    {
        CommandHistory::new(100)
    }
}

/// What one push leaves behind: while grouping is active the edit
/// joins the open group; otherwise it clears the redo stack, goes on
/// the undo stack, and evicts the oldest entry beyond the size bound,
/// moving the save point with it.
pub open spec fn spec_push_rel(h0: CommandHistory, h1: CommandHistory, command: EditCommand) -> bool {
    &&& h1.cap() == h0.cap()
    &&& match h0.group_cmds() {
        Some(g) => {
            &&& h1.group_cmds() == Some(g + group_parts_of(command))
            &&& h1.undo_cmds() == h0.undo_cmds()
            &&& h1.redo_cmds() == h0.redo_cmds()
            &&& h1.save_mark() == h0.save_mark()
        },
        None => {
            &&& h1.group_cmds() is None
            &&& h1.redo_cmds().len() == 0
            &&& if h0.undo_cmds().len() + 1 > h0.cap() {
                &&& h1.undo_cmds() == h0.undo_cmds().push(command).drop_first()
                &&& h1.save_mark() == save_after_evict(h0.save_mark())
            } else {
                &&& h1.undo_cmds() == h0.undo_cmds().push(command)
                &&& h1.save_mark() == h0.save_mark()
            }
            &&& h1.undo_cmds().len() == spec_push_len(h0.undo_cmds().len() as int, h0.cap())
        },
    }
}

} // verus!
