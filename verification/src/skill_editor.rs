use vstd::prelude::*;

use crate::skill_graph::{edge_count, toggled, EditField, SkillGraph};
use crate::text::{chars_of, string_from_chars};

verus! {

/// What the skill-tree editor is doing with the mouse and the selection.
pub struct EditorState {
    pub dragging: Option<usize>,
    pub drag_moved: bool,
    pub selected: Option<usize>,
    pub edge_start: Option<usize>,
    pub last_node_count: usize,
    pub last_edge_count: usize,
}

/// How a mouse release ended a node drag.
#[derive(Clone, Copy, PartialEq, Eq, Debug)]
pub enum DragRelease {
    /// No node was being dragged.
    Idle,
    /// The node moved and is to be snapped to the grid.
    Moved(usize),
    /// The node did not move: it is now the selected node.
    Selected(usize),
}

impl EditorState {
    /// The state the editor starts in: nothing dragged, selected or started.
    pub fn new() -> (s: EditorState)
        ensures
            s.dragging is None,
            !s.drag_moved,
            s.selected is None,
            s.edge_start is None,
            s.last_node_count == 0,
            s.last_edge_count == 0,
    {
        EditorState {
            dragging: None,
            drag_moved: false,
            selected: None,
            edge_start: None,
            last_node_count: 0,
            last_edge_count: 0,
        }
    }

    /// Every node index the editor holds names a node of `g`.
    pub open spec fn fits<P, V>(&self, g: &SkillGraph<P, V>) -> bool {
        &&& (self.dragging matches Some(i) ==> i < g.nodes.len())
        &&& (self.selected matches Some(i) ==> i < g.nodes.len())
        &&& (self.edge_start matches Some(i) ==> i < g.nodes.len())
    }

    /// A shift-click on node `clicked` (or on empty space, `None`): the first
    /// click remembers the node, the second toggles the edge between the two
    /// (unless it is the same node); empty space forgets the first click.
    pub fn edge_click<P, V>(&mut self, g: &mut SkillGraph<P, V>, clicked: Option<usize>)
        requires
            old(g).wf(),
            old(self).fits(&*old(g)),
            clicked matches Some(c) ==> c < old(g).nodes.len(),
        ensures
            final(g).wf(),
            final(self).fits(&*final(g)),
            final(g).nodes@ == old(g).nodes@,
            final(g).start_node == old(g).start_node,
            final(self).dragging == old(self).dragging,
            final(self).selected == old(self).selected,
            final(self).edge_start == (match (old(self).edge_start, clicked) {
                (None, Some(c)) => Some(c),
                _ => None::<usize>,
            }),
            final(g).edges@ == (match (old(self).edge_start, clicked) {
                (Some(s), Some(c)) => if s != c { toggled(old(g).edges@, s, c) } else { old(g).edges@ },
                _ => old(g).edges@,
            }),
    {
        match clicked {
            None => {
                self.edge_start = None;
            },
            Some(c) => {
                match self.edge_start {
                    Some(s) => {
                        if s != c {
                            g.toggle_edge(s, c);
                        }
                        self.edge_start = None;
                    },
                    None => {
                        self.edge_start = Some(c);
                    },
                }
            },
        }
    }

    /// The delete key: removes the selected node unless it is the start node
    /// (or nothing is selected); on removal the selection is cleared. Tells
    /// whether a node was removed.
    pub fn delete_selected<P, V>(&mut self, g: &mut SkillGraph<P, V>) -> (removed: bool)
        requires
            old(g).wf(),
            old(self).fits(&*old(g)),
        ensures
            final(g).wf(),
            removed == (old(self).selected matches Some(i) && i != old(g).start_node),
            removed ==> final(self).selected is None,
            removed ==> final(g).nodes@ == old(g).nodes@.remove(old(self).selected->0 as int),
            removed ==> final(g).edges@ == crate::skill_graph::edges_after_removal(old(g).edges@, old(self).selected->0 as int),
            removed ==> final(g).start_node == crate::skill_graph::down(old(g).start_node, old(self).selected->0 as int),
            !removed ==> *final(g) == *old(g) && *final(self) == *old(self),
    {
        match self.selected {
            None => false,
            Some(idx) => {
                if idx == g.start_node {
                    false
                } else {
                    g.remove_node(idx);
                    self.selected = None;
                    true
                }
            },
        }
    }

    /// Confirms the create-node popup: a new node at `position` / `grid_cell`
    /// is added and selected.
    pub fn confirm_create<P, V>(&mut self, g: &mut SkillGraph<P, V>, position: P, grid_cell: (i32, i32))
        requires
            old(g).wf(),
            old(self).fits(&*old(g)),
            old(g).nodes.len() < usize::MAX,
        ensures
            final(g).wf(),
            final(self).fits(&*final(g)),
            final(g).nodes.len() == old(g).nodes.len() + 1,
            final(g).edges@ == old(g).edges@,
            final(self).selected == Some(old(g).nodes.len()),
    {
        let idx = g.create_node(position, grid_cell);
        self.selected = Some(idx);
    }

    /// A left press: starts dragging the node under the cursor, if any and if
    /// no drag is going on.
    pub fn press(&mut self, hit: Option<usize>)
        ensures
            final(self).dragging == (if old(self).dragging is None && hit is Some { hit } else { old(self).dragging }),
            final(self).drag_moved == (if old(self).dragging is None && hit is Some { false } else { old(self).drag_moved }),
            final(self).selected == old(self).selected,
            final(self).edge_start == old(self).edge_start,
    {
        if self.dragging.is_none() {
            if let Some(idx) = hit {
                self.dragging = Some(idx);
                self.drag_moved = false;
            }
        }
    }

    /// The dragged node followed the cursor by more than the move threshold.
    pub fn moved(&mut self)
        ensures
            final(self).drag_moved == old(self).dragging is Some || old(self).drag_moved,
            final(self).dragging == old(self).dragging,
            final(self).selected == old(self).selected,
            final(self).edge_start == old(self).edge_start,
    {
        if self.dragging.is_some() {
            self.drag_moved = true;
        }
    }

    /// A left release: ends the drag. A node that did not move becomes the selected node.
    pub fn release(&mut self) -> (r: DragRelease)
        ensures
            final(self).dragging is None,
            final(self).drag_moved == (old(self).dragging is None && old(self).drag_moved),
            final(self).edge_start == old(self).edge_start,
            r == (match old(self).dragging {
                None => DragRelease::Idle,
                Some(i) => if old(self).drag_moved { DragRelease::Moved(i) } else { DragRelease::Selected(i) },
            }),
            final(self).selected == (match r {
                DragRelease::Selected(i) => Some(i),
                _ => old(self).selected,
            }),
    {
        match self.dragging {
            None => DragRelease::Idle,
            Some(idx) => {
                let r = if self.drag_moved {
                    DragRelease::Moved(idx)
                } else {
                    self.selected = Some(idx);
                    DragRelease::Selected(idx)
                };
                self.dragging = None;
                self.drag_moved = false;
                r
            },
        }
    }

    /// Tells whether the drawn tree is stale (its node or edge count changed
    /// since the last call), and remembers the new counts.
    pub fn needs_rebuild(&mut self, node_count: usize, edge_count: usize) -> (r: bool)
        ensures
            r == !(node_count == old(self).last_node_count && edge_count == old(self).last_edge_count),
            final(self).last_node_count == node_count,
            final(self).last_edge_count == edge_count,
            final(self).dragging == old(self).dragging,
            final(self).selected == old(self).selected,
            final(self).edge_start == old(self).edge_start,
    {
        if node_count == self.last_node_count && edge_count == self.last_edge_count {
            false
        } else {
            self.last_node_count = node_count;
            self.last_edge_count = edge_count;
            true
        }
    }
}

/// The editor key: switches the editor on or off and starts it afresh.
/// Returns whether the editor is now on.
pub fn toggle_editor(mode: &mut bool, state: &mut EditorState) -> (on: bool)
    ensures
        *final(mode) == !*old(mode),
        on == *final(mode),
        final(state).dragging is None,
        final(state).selected is None,
        final(state).edge_start is None,
        !final(state).drag_moved,
        final(state).last_node_count == 0,
        final(state).last_edge_count == 0,
{
    *mode = !*mode;
    *state = EditorState::new();
    *mode
}

impl<P, V> SkillGraph<P, V> {
    /// Commits a text edit of `field`: a node name takes `text`, a max level
    /// the `u32` in `text` (at least 1), a stat value the number `parsed`
    /// that the caller read from `text`. Edits of missing nodes, missing
    /// stats, or unreadable text change nothing.
    pub fn apply_edit(&mut self, field: EditField, text: &str, parsed: Option<V>)
        requires
            old(self).wf(),
        ensures
            final(self).wf(),
            final(self).edges == old(self).edges,
            final(self).start_node == old(self).start_node,
            final(self).nodes.len() == old(self).nodes.len(),
            field matches EditField::NodeName(i) ==> (if i < old(self).nodes.len() {
                final(self).nodes@[i as int].name@ == text@
                    && final(self).nodes@[i as int].position == old(self).nodes@[i as int].position
                    && final(self).nodes@[i as int].grid_cell == old(self).nodes@[i as int].grid_cell
                    && final(self).nodes@[i as int].rarity == old(self).nodes@[i as int].rarity
                    && final(self).nodes@[i as int].rolled_values == old(self).nodes@[i as int].rolled_values
                    && final(self).nodes@[i as int].level == old(self).nodes@[i as int].level
                    && final(self).nodes@[i as int].max_level == old(self).nodes@[i as int].max_level
                    && forall|k: int| 0 <= k < old(self).nodes.len() && k != i ==> #[trigger] final(self).nodes@[k] == old(self).nodes@[k]
            } else {
                final(self).nodes@ == old(self).nodes@
            }),
            field matches EditField::MaxLevel(i) ==> final(self).nodes@ == crate::skill_graph::with_max_level(
                old(self).nodes@,
                i as int,
                text@,
            ),
            field matches EditField::StatValue(i, j) ==> (match parsed {
                None => final(self).nodes@ == old(self).nodes@,
                Some(v) => forall|k: int| 0 <= k < old(self).nodes.len() && k != i ==> #[trigger] final(self).nodes@[k] == old(self).nodes@[k],
            }),
            field matches EditField::StatValue(i, j) ==> (parsed is Some && i < old(self).nodes.len()
                ==> crate::skill_graph::same_but_values(final(self).nodes@[i as int], old(self).nodes@[i as int])),
            field matches EditField::StatValue(i, j) ==> (parsed is Some && i < old(self).nodes.len()
                ==> final(self).nodes@[i as int].rolled_values@ == (if j < old(self).nodes@[i as int].rolled_values.len() {
                    old(self).nodes@[i as int].rolled_values@.update(
                        j as int,
                        (old(self).nodes@[i as int].rolled_values@[j as int].0, parsed->0),
                    )
                } else {
                    old(self).nodes@[i as int].rolled_values@
                })),
    {
        match field {
            EditField::NodeName(i) => {
                let name = string_from_chars(&chars_of(text));
                self.rename_node(i, name);
            },
            EditField::MaxLevel(i) => {
                self.set_max_level_text(i, text);
            },
            EditField::StatValue(i, j) => {
                match parsed {
                    Some(v) => self.set_stat_value(i, j, v),
                    None => {},
                }
            },
        }
    }
}

/// A key press while a field is being edited.
#[derive(PartialEq, Eq, Debug)]
pub enum EditKey {
    /// Typed text.
    Character(String),
    Backspace,
    Enter,
    Escape,
    Space,
    /// Any other key; ignored.
    Other,
}

/// The text field being edited, and what has been typed so far.
pub struct ActiveEdit {
    pub field: Option<EditField>,
    pub buffer: Vec<char>,
}

/// What a key press asks of the editor.
#[derive(PartialEq, Eq, Debug)]
pub enum EditOutcome {
    /// The edit goes on (or nothing was being edited).
    Editing,
    /// Enter: apply `text` to the field.
    Commit(EditField, String),
    /// Escape: the edit was dropped.
    Cancelled,
}

impl ActiveEdit {
    /// No field is being edited.
    pub fn new() -> (e: ActiveEdit)
        ensures
            e.field is None,
            e.buffer@.len() == 0,
    {
        ActiveEdit { field: None, buffer: Vec::new() }
    }

    /// A click on an editable field: edit it, starting from its current text.
    pub fn begin(&mut self, field: EditField, current: &str)
        ensures
            final(self).field == Some(field),
            final(self).buffer@ == current@,
    {
        self.field = Some(field);
        self.buffer = chars_of(current);
    }

    /// Handles one key press: characters and spaces are typed, Backspace
    /// erases the last character, Enter hands back the field and its text and
    /// ends the edit, Escape ends it without a change. Keys are ignored while
    /// nothing is being edited.
    pub fn key(&mut self, key: &EditKey) -> (out: EditOutcome)
        ensures
            old(self).field is None ==> out == EditOutcome::Editing && final(self).field is None
                && final(self).buffer@ == old(self).buffer@,
            old(self).field is Some ==> match *key {
                EditKey::Character(c) => out == EditOutcome::Editing && final(self).field == old(self).field
                    && final(self).buffer@ == old(self).buffer@ + c@,
                EditKey::Space => out == EditOutcome::Editing && final(self).field == old(self).field
                    && final(self).buffer@ == old(self).buffer@.push(' '),
                EditKey::Backspace => out == EditOutcome::Editing && final(self).field == old(self).field
                    && final(self).buffer@ == (if old(self).buffer@.len() > 0 {
                        old(self).buffer@.drop_last()
                    } else {
                        old(self).buffer@
                    }),
                EditKey::Enter => final(self).field is None && final(self).buffer@.len() == 0
                    && (out matches EditOutcome::Commit(f, t) && f == old(self).field->0 && t@ == old(self).buffer@),
                EditKey::Escape => out == EditOutcome::Cancelled && final(self).field is None
                    && final(self).buffer@.len() == 0,
                EditKey::Other => out == EditOutcome::Editing && final(self).field == old(self).field
                    && final(self).buffer@ == old(self).buffer@,
            },
    {
        let field = match self.field {
            None => {
                return EditOutcome::Editing;
            },
            Some(f) => f,
        };
        match key {
            EditKey::Character(c) => {
                let cs = chars_of(c.as_str());
                let mut i: usize = 0;
                while i < cs.len()
                    invariant
                        0 <= i <= cs.len(),
                        self.field == old(self).field,
                        self.buffer@ == old(self).buffer@ + cs@.take(i as int),
                    decreases cs.len() - i,
                {
                    self.buffer.push(cs[i]);
                    i = i + 1;
                    assert(self.buffer@ =~= old(self).buffer@ + cs@.take(i as int));
                }
                assert(cs@.take(cs.len() as int) =~= cs@);
                EditOutcome::Editing
            },
            EditKey::Space => {
                self.buffer.push(' ');
                EditOutcome::Editing
            },
            EditKey::Backspace => {
                let _ = self.buffer.pop();
                EditOutcome::Editing
            },
            EditKey::Enter => {
                let text = string_from_chars(&self.buffer);
                self.field = None;
                self.buffer = Vec::new();
                EditOutcome::Commit(field, text)
            },
            EditKey::Escape => {
                self.field = None;
                self.buffer = Vec::new();
                EditOutcome::Cancelled
            },
            EditKey::Other => EditOutcome::Editing,
        }
    }
}

} // verus!
