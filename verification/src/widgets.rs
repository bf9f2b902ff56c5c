use vstd::prelude::*;

verus! {

/// The pointer state of a button.
#[derive(Clone, Copy, PartialEq, Eq, Structural, Debug)]
pub enum Interaction {
    Pressed,
    Hovered,
    /// Neither pressed nor hovered.
    Idle,
}

/// Whether a button that was `last` and is now `current` was clicked: it was
/// pressed, and the pointer is released over it. On touch screens, where
/// there is no hover, a release anywhere counts; elsewhere sliding off the
/// button while pressed cancels the click.
pub fn just_released(last: Interaction, current: Interaction, touch: bool) -> (clicked: bool)
    ensures
        clicked == (last == Interaction::Pressed && (current == Interaction::Hovered
            || (touch && current == Interaction::Idle))),
{
    if last != Interaction::Pressed {
        return false;
    }
    if touch {
        current == Interaction::Hovered || current == Interaction::Idle
    } else {
        current == Interaction::Hovered
    }
}

/// Index of the first target under the pointer (hovered or pressed) among
/// `states`, starting at `from`.
pub open spec fn first_pointed_from(states: Seq<Interaction>, from: int) -> Option<int>
    decreases states.len() - from,
{
    if from >= states.len() || from < 0 {
        None
    } else if states[from] != Interaction::Idle {
        Some(from)
    } else {
        first_pointed_from(states, from + 1)
    }
}

/// The tooltip target under the pointer: the first of `targets` (an item id
/// and the entity showing it) whose state is hovered or pressed.
pub fn pointed_target(targets: &Vec<(usize, u64, Interaction)>) -> (r: Option<(usize, u64)>)
    ensures
        r == (match first_pointed_from(targets@.map_values(|t: (usize, u64, Interaction)| t.2), 0) {
            Some(i) => Some((targets@[i].0, targets@[i].1)),
            None => None::<(usize, u64)>,
        }),
{
    let ghost states = targets@.map_values(|t: (usize, u64, Interaction)| t.2);
    let mut i: usize = 0;
    while i < targets.len()
        invariant
            0 <= i <= targets.len(),
            states == targets@.map_values(|t: (usize, u64, Interaction)| t.2),
            first_pointed_from(states, 0) == first_pointed_from(states, i as int),
        decreases targets.len() - i,
    {
        let (id, entity, state) = targets[i];
        if state != Interaction::Idle {
            assert(states[i as int] == state);
            return Some((id, entity));
        }
        assert(states[i as int] == Interaction::Idle);
        i = i + 1;
    }
    None
}

/// Remembers the tooltip target now under the pointer and tells whether it
/// changed since the last frame (the tooltip is rebuilt only then).
pub fn hover_changed(last: &mut Option<(usize, u64)>, now: Option<(usize, u64)>) -> (changed: bool)
    ensures
        changed == (now != *old(last)),
        *final(last) == now,
{
    if now == *last {
        false
    } else {
        *last = now;
        true
    }
}

/// Whether a slider follows the pointer: it is pressed, or hovered while the
/// left mouse button is held.
pub fn slider_active(i: Interaction, left_held: bool) -> (r: bool)
    ensures
        r == (i == Interaction::Pressed || (i == Interaction::Hovered && left_held)),
{
    match i {
        Interaction::Pressed => true,
        Interaction::Hovered => left_held,
        Interaction::Idle => false,
    }
}

/// Which way a button moves under the pointer.
#[derive(Clone, Copy, PartialEq, Eq, Structural, Debug)]
pub enum ButtonLift {
    /// Pushed down while pressed.
    Down,
    /// Raised while hovered.
    Up,
    Rest,
}

/// How a button moves for its pointer state.
pub fn button_lift(i: Interaction) -> (l: ButtonLift)
    ensures
        l == (match i {
            Interaction::Pressed => ButtonLift::Down,
            Interaction::Hovered => ButtonLift::Up,
            Interaction::Idle => ButtonLift::Rest,
        }),
{
    match i {
        Interaction::Pressed => ButtonLift::Down,
        Interaction::Hovered => ButtonLift::Up,
        Interaction::Idle => ButtonLift::Rest,
    }
}

/// The background of a choice button (a hero or a spell).
#[derive(Clone, Copy, PartialEq, Eq, Structural, Debug)]
pub enum ChoiceLook {
    Normal,
    Hovered,
    Selected,
    SelectedHovered,
}

/// The look of a choice button from its pointer state and whether its choice is the selected one.
pub fn choice_look(i: Interaction, selected: bool) -> (l: ChoiceLook)
    ensures
        l == (match (i, selected) {
            (Interaction::Pressed, _) => ChoiceLook::Selected,
            (Interaction::Hovered, true) => ChoiceLook::SelectedHovered,
            (Interaction::Hovered, false) => ChoiceLook::Hovered,
            (Interaction::Idle, true) => ChoiceLook::Selected,
            (Interaction::Idle, false) => ChoiceLook::Normal,
        }),
{
    match (i, selected) {
        (Interaction::Pressed, _) => ChoiceLook::Selected,
        (Interaction::Hovered, true) => ChoiceLook::SelectedHovered,
        (Interaction::Hovered, false) => ChoiceLook::Hovered,
        (Interaction::Idle, true) => ChoiceLook::Selected,
        (Interaction::Idle, false) => ChoiceLook::Normal,
    }
}

/// The background of a plain button.
#[derive(Clone, Copy, PartialEq, Eq, Structural, Debug)]
pub enum PlainLook {
    Normal,
    Hovered,
    Pressed,
}

/// The look of a plain button: hovered and idle states set it; a press leaves
/// it as it is (`None`).
pub fn hover_look(i: Interaction) -> (l: Option<PlainLook>)
    ensures
        l == (match i {
            Interaction::Hovered => Some(PlainLook::Hovered),
            Interaction::Idle => Some(PlainLook::Normal),
            Interaction::Pressed => None::<PlainLook>,
        }),
{
    match i {
        Interaction::Hovered => Some(PlainLook::Hovered),
        Interaction::Idle => Some(PlainLook::Normal),
        Interaction::Pressed => None,
    }
}

/// Where a skill-tree node stands for the player.
#[derive(Clone, Copy, PartialEq, Eq, Structural, Debug)]
pub enum NodeStatus {
    Start,
    Allocated,
    Available,
    Locked,
}

/// The status of a node: the start node, learned, learnable, or locked.
pub fn node_status(is_start: bool, allocated: bool, allocatable: bool) -> (s: NodeStatus)
    ensures
        s == (if is_start {
            NodeStatus::Start
        } else if allocated {
            NodeStatus::Allocated
        } else if allocatable {
            NodeStatus::Available
        } else {
            NodeStatus::Locked
        }),
{
    if is_start {
        NodeStatus::Start
    } else if allocated {
        NodeStatus::Allocated
    } else if allocatable {
        NodeStatus::Available
    } else {
        NodeStatus::Locked
    }
}

/// The tooltip suffix of a node: ` (Learned)`, ` (Available)` or nothing.
pub fn node_status_suffix(allocated: bool, allocatable: bool) -> (s: &'static str)
    ensures
        s@ == (if allocated { " (Learned)"@ } else if allocatable { " (Available)"@ } else { ""@ }),
{
    if allocated {
        " (Learned)"
    } else if allocatable {
        " (Available)"
    } else {
        ""
    }
}

/// How strongly a skill-tree edge is drawn.
#[derive(Clone, Copy, PartialEq, Eq, Structural, Debug)]
pub enum EdgeBrightness {
    Dim,
    Medium,
    Bright,
}

/// An edge between two learned nodes is bright; one from a learned node to a
/// learnable one is medium; any other is dim.
pub fn edge_brightness(a_allocated: bool, b_allocated: bool, a_available: bool, b_available: bool) -> (e: EdgeBrightness)
    ensures
        e == (if a_allocated && b_allocated {
            EdgeBrightness::Bright
        } else if (a_allocated && b_available) || (b_allocated && a_available) {
            EdgeBrightness::Medium
        } else {
            EdgeBrightness::Dim
        }),
{
    if a_allocated && b_allocated {
        EdgeBrightness::Bright
    } else if (a_allocated && b_available) || (b_allocated && a_available) {
        EdgeBrightness::Medium
    } else {
        EdgeBrightness::Dim
    }
}

/// The rarity classes of skill-tree nodes.
#[derive(Clone, Copy, PartialEq, Eq, Structural, Debug)]
pub enum RarityClass {
    Common,
    Uncommon,
    Rare,
    Epic,
}

/// The class of rarity level `r`: 0 common, 1 uncommon, 2 rare, 3 epic,
/// anything higher common.
pub fn rarity_class(r: u8) -> (c: RarityClass)
    ensures
        c == (if r == 1 {
            RarityClass::Uncommon
        } else if r == 2 {
            RarityClass::Rare
        } else if r == 3 {
            RarityClass::Epic
        } else {
            RarityClass::Common
        }),
{
    if r == 1 {
        RarityClass::Uncommon
    } else if r == 2 {
        RarityClass::Rare
    } else if r == 3 {
        RarityClass::Epic
    } else {
        RarityClass::Common
    }
}

/// Who was hit.
#[derive(Clone, Copy, PartialEq, Eq, Structural, Debug)]
pub enum Faction {
    Player,
    Enemy,
}

/// The colour of a damage number.
#[derive(Clone, Copy, PartialEq, Eq, Structural, Debug)]
pub enum DamageColor {
    /// A critical hit on an enemy.
    Yellow,
    /// Damage taken by the player.
    Red,
    White,
}

/// The colour of a damage number: yellow for critical hits on enemies, red
/// for the player's damage, white otherwise.
pub fn damage_color(target: Faction, is_crit: bool) -> (c: DamageColor)
    ensures
        c == (match (target, is_crit) {
            (Faction::Enemy, true) => DamageColor::Yellow,
            (Faction::Player, _) => DamageColor::Red,
            (Faction::Enemy, false) => DamageColor::White,
        }),
{
    match (target, is_crit) {
        (Faction::Enemy, true) => DamageColor::Yellow,
        (Faction::Player, _) => DamageColor::Red,
        (Faction::Enemy, false) => DamageColor::White,
    }
}

} // verus!
