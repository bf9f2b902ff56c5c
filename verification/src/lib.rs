//! Game rules of a wave-based arena: waves and spawning, the rune shop board,
//! the orb crafting flow, the skill-tree editor graph, and the text shown in
//! the interface.

pub mod wave;
pub mod text;
pub mod skill_graph;
pub mod skill_editor;
pub mod economy;
pub mod runes;
pub mod orbs;
pub mod chance;
pub mod phases;
pub mod names;
pub mod stat_text;
pub mod widgets;
pub mod validation;
pub mod tree_export;
pub mod labels;
