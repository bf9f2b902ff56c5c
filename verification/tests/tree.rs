use arena_core::skill_editor::{toggle_editor, ActiveEdit, DragRelease, EditKey, EditOutcome, EditorState};
use arena_core::skill_graph::{EditField, GraphEdge, GraphNode, SkillGraph};
use arena_core::tree_export::graph_to_raw;
use arena_core::validation::{find_ron_files, find_ron_files_recursive, validate_modifier_stats, DirEntry, ModifierDefRaw, StatNameSet, StatRangeRaw};

type Graph = SkillGraph<(f32, f32), f32>;

fn start_graph() -> Graph {
    SkillGraph {
        nodes: vec![GraphNode {
            position: (0.0, 0.0),
            grid_cell: (0, 0),
            rarity: 0,
            rolled_values: vec![],
            level: 1,
            max_level: 1,
            name: "Start".to_string(),
        }],
        edges: vec![],
        adjacency: vec![vec![]],
        start_node: 0,
    }
}

fn graph_with(n: usize) -> Graph {
    let mut g = start_graph();
    for i in 1..n {
        g.create_node((i as f32, 0.0), (i as i32, 0));
    }
    g
}

fn edge(a: usize, b: usize) -> GraphEdge {
    GraphEdge { a, b }
}

#[test]
fn created_nodes_are_named_by_index() {
    let mut g = start_graph();
    assert_eq!(g.create_node((1.0, 2.0), (3, 4)), 1);
    assert_eq!(g.create_node((0.0, 0.0), (0, 1)), 2);
    assert_eq!(g.nodes[1].name, "Node 1");
    assert_eq!(g.nodes[2].name, "Node 2");
    assert_eq!(g.nodes[1].grid_cell, (3, 4));
    assert_eq!(g.nodes[1].max_level, 1);
    assert_eq!(g.nodes[1].level, 0);
    assert!(g.nodes[1].rolled_values.is_empty());
    assert_eq!(g.adjacency.len(), 3);
    assert!(g.edges.is_empty());
}

#[test]
fn toggling_an_edge_twice_restores_it() {
    let mut g = graph_with(3);
    g.toggle_edge(0, 2);
    assert_eq!(g.edges, vec![edge(0, 2)]);
    assert!(g.has_edge(2, 0));
    assert_eq!(g.adjacency[0], vec![2]);
    assert_eq!(g.adjacency[2], vec![0]);
    g.toggle_edge(2, 0);
    assert!(g.edges.is_empty());
    assert!(!g.has_edge(0, 2));
    assert!(g.adjacency[0].is_empty() && g.adjacency[2].is_empty());
}

#[test]
fn removing_a_node_renumbers_edges() {
    let mut g = graph_with(4);
    g.toggle_edge(0, 1);
    g.toggle_edge(1, 2);
    g.toggle_edge(2, 3);
    g.toggle_edge(0, 3);
    g.remove_node(1);
    assert_eq!(g.nodes.len(), 3);
    assert_eq!(g.nodes[1].name, "Node 2");
    assert_eq!(g.edges, vec![edge(1, 2), edge(0, 2)]);
    assert_eq!(g.adjacency, vec![vec![2], vec![2], vec![1, 0]]);
    assert_eq!(g.start_node, 0);
}

#[test]
fn edge_mode_clicks() {
    let mut g = graph_with(3);
    let mut s = EditorState::new();
    s.edge_click(&mut g, Some(1));
    assert_eq!(s.edge_start, Some(1));
    s.edge_click(&mut g, Some(2));
    assert_eq!(s.edge_start, None);
    assert_eq!(g.edges, vec![edge(1, 2)]);
    s.edge_click(&mut g, Some(2));
    s.edge_click(&mut g, Some(2));
    assert_eq!(g.edges, vec![edge(1, 2)]);
    s.edge_click(&mut g, Some(0));
    s.edge_click(&mut g, None);
    assert_eq!(s.edge_start, None);
    assert_eq!(g.edges.len(), 1);
}

#[test]
fn delete_and_create_from_the_editor() {
    let mut g = graph_with(3);
    let mut s = EditorState::new();
    assert!(!s.delete_selected(&mut g));
    s.selected = Some(0);
    assert!(!s.delete_selected(&mut g));
    assert_eq!(g.nodes.len(), 3);
    s.selected = Some(2);
    assert!(s.delete_selected(&mut g));
    assert_eq!(s.selected, None);
    assert_eq!(g.nodes.len(), 2);
    s.confirm_create(&mut g, (5.0, 5.0), (5, 5));
    assert_eq!(s.selected, Some(2));
    assert_eq!(g.nodes[2].name, "Node 2");
}

#[test]
fn dragging_selects_or_moves() {
    let mut s = EditorState::new();
    assert_eq!(s.release(), DragRelease::Idle);
    s.press(Some(3));
    s.press(Some(4));
    assert_eq!(s.dragging, Some(3));
    assert_eq!(s.release(), DragRelease::Selected(3));
    assert_eq!(s.selected, Some(3));
    s.press(Some(1));
    s.moved();
    assert_eq!(s.release(), DragRelease::Moved(1));
    assert_eq!(s.selected, Some(3));
    assert_eq!(s.dragging, None);
    s.moved();
    assert!(!s.drag_moved);
    assert!(s.needs_rebuild(2, 1));
    assert!(!s.needs_rebuild(2, 1));
    assert!(s.needs_rebuild(2, 0));
}

#[test]
fn editor_key_resets_state() {
    let mut on = false;
    let mut s = EditorState::new();
    s.selected = Some(1);
    s.edge_start = Some(0);
    assert!(toggle_editor(&mut on, &mut s));
    assert!(on);
    assert_eq!(s.selected, None);
    assert_eq!(s.edge_start, None);
    assert!(!toggle_editor(&mut on, &mut s));
    assert!(!on);
}

#[test]
fn text_edits_commit_on_enter() {
    let mut e = ActiveEdit::new();
    assert_eq!(e.key(&EditKey::Character("a".to_string())), EditOutcome::Editing);
    assert!(e.buffer.is_empty());
    e.begin(EditField::NodeName(1), "Nod");
    e.key(&EditKey::Character("e".to_string()));
    e.key(&EditKey::Space);
    e.key(&EditKey::Character("xy".to_string()));
    e.key(&EditKey::Backspace);
    e.key(&EditKey::Other);
    assert_eq!(e.key(&EditKey::Enter), EditOutcome::Commit(EditField::NodeName(1), "Node x".to_string()));
    assert_eq!(e.field, None);
    e.begin(EditField::MaxLevel(0), "");
    e.key(&EditKey::Backspace);
    assert!(e.buffer.is_empty());
    assert_eq!(e.key(&EditKey::Escape), EditOutcome::Cancelled);
    assert_eq!(e.field, None);
}

#[test]
fn committed_edits_change_nodes() {
    let mut g = graph_with(2);
    g.apply_edit(EditField::NodeName(1), "Spark", None);
    assert_eq!(g.nodes[1].name, "Spark");
    g.apply_edit(EditField::NodeName(7), "Lost", None);
    assert_eq!(g.nodes[0].name, "Start");
    g.apply_edit(EditField::MaxLevel(1), "5", None);
    assert_eq!(g.nodes[1].max_level, 5);
    g.apply_edit(EditField::MaxLevel(1), "0", None);
    assert_eq!(g.nodes[1].max_level, 1);
    g.apply_edit(EditField::MaxLevel(1), "+7", None);
    assert_eq!(g.nodes[1].max_level, 7);
    g.apply_edit(EditField::MaxLevel(1), "seven", None);
    assert_eq!(g.nodes[1].max_level, 7);
    g.apply_edit(EditField::MaxLevel(1), "4294967296", None);
    assert_eq!(g.nodes[1].max_level, 7);
    g.add_stat(1, 3, 1.5);
    g.apply_edit(EditField::StatValue(1, 0), "2.5", Some(2.5));
    assert_eq!(g.nodes[1].rolled_values, vec![(3, 2.5)]);
    g.apply_edit(EditField::StatValue(1, 0), "abc", None);
    assert_eq!(g.nodes[1].rolled_values, vec![(3, 2.5)]);
    g.apply_edit(EditField::StatValue(1, 4), "1", Some(1.0));
    assert_eq!(g.nodes[1].rolled_values, vec![(3, 2.5)]);
}

#[test]
fn stat_list_edits() {
    let mut g = graph_with(2);
    g.add_stat(1, 3, 1.0);
    g.add_stat(1, 4, 2.0);
    g.add_stat(9, 4, 2.0);
    g.set_stat(1, 0, 8);
    g.set_stat_value(1, 1, 6.0);
    assert_eq!(g.nodes[1].rolled_values, vec![(8, 1.0), (4, 6.0)]);
    g.remove_stat(1, 0);
    assert_eq!(g.nodes[1].rolled_values, vec![(4, 6.0)]);
    g.remove_stat(1, 5);
    assert_eq!(g.nodes[1].rolled_values.len(), 1);
    g.rename_node(0, "Origin".to_string());
    assert_eq!(g.nodes[0].name, "Origin");
    g.set_max_level_text(0, "12");
    assert_eq!(g.nodes[0].max_level, 12);
}

#[test]
fn tree_file_of_a_graph() {
    let mut g = graph_with(3);
    g.toggle_edge(0, 2);
    g.add_stat(2, 1, 0.5);
    g.add_stat(2, 9, 3.0);
    let names = vec!["life".to_string(), "speed".to_string()];
    let raw = graph_to_raw(&g, &names, (10u32, 8u32));
    assert_eq!(raw.grid_size, (10, 8));
    assert_eq!(raw.edges, vec![(0, 2)]);
    assert_eq!(raw.nodes.len(), 3);
    assert_eq!(raw.nodes[2].name, "Node 2");
    assert_eq!(raw.nodes[2].position, (2, 0));
    assert_eq!(raw.nodes[2].max_level, 1);
    assert!(raw.nodes[0].modifiers.is_empty());
    assert_eq!(raw.nodes[2].modifiers.len(), 1);
    let stats = &raw.nodes[2].modifiers[0].stats;
    assert_eq!(stats.len(), 2);
    match &stats[0] {
        StatRangeRaw::Fixed { stat, value } => {
            assert_eq!(stat, "speed");
            assert_eq!(*value, 0.5);
        }
        StatRangeRaw::Range { .. } => panic!("expected a fixed stat"),
    }
    match &stats[1] {
        StatRangeRaw::Fixed { stat, value } => {
            assert_eq!(stat, "unknown");
            assert_eq!(*value, 3.0);
        }
        StatRangeRaw::Range { .. } => panic!("expected a fixed stat"),
    }
}

fn fixed(stat: &str) -> StatRangeRaw<f32> {
    StatRangeRaw::Fixed { stat: stat.to_string(), value: 1.0 }
}

#[test]
fn unknown_stats_are_reported() {
    let known = StatNameSet::from_names(vec!["life".to_string(), "armor".to_string()]);
    assert!(known.contains(&"armor".to_string()));
    assert!(!known.contains(&"mana".to_string()));
    let modifiers = vec![
        ModifierDefRaw { stats: vec![fixed("life"), fixed("mana")] },
        ModifierDefRaw {
            stats: vec![StatRangeRaw::Range { stat: "speed".to_string(), min: 0.0, max: 1.0 }, fixed("armor")],
        },
    ];
    let mut errors = vec!["earlier".to_string()];
    validate_modifier_stats("affix 'Swift'", &modifiers, &known, &mut errors);
    assert_eq!(errors, vec![
        "earlier".to_string(),
        "affix 'Swift': unknown stat 'mana'".to_string(),
        "affix 'Swift': unknown stat 'speed'".to_string(),
    ]);
    let mut none: Vec<String> = vec![];
    validate_modifier_stats("hero", &modifiers[..0], &known, &mut none);
    assert!(none.is_empty());
}

fn file(path: &str) -> DirEntry {
    let name = path.rsplit('/').next().unwrap().to_string();
    DirEntry::File { path: path.to_string(), name }
}

#[test]
fn ron_files_found_at_any_depth() {
    let listing = vec![
        file("assets/a.ron"),
        DirEntry::Dir(vec![file("assets/sub/b.ron"), file("assets/sub/readme.md"), DirEntry::Dir(vec![file("assets/sub/deep/c.ron")])]),
        file("assets/d.ron.bak"),
        file("assets/e.ron"),
    ];
    assert_eq!(
        find_ron_files(&listing, ".ron"),
        vec!["assets/a.ron", "assets/sub/b.ron", "assets/sub/deep/c.ron", "assets/e.ron"]
    );
    let mut out = vec!["x".to_string()];
    find_ron_files_recursive(&vec![], ".ron", &mut out);
    assert_eq!(out, vec!["x"]);
    assert!(find_ron_files(&vec![file("ron")], ".ron").is_empty());
}


#[test]
fn delete_renumbers_edges_and_start() {
    let mut g = graph_with(4);
    g.toggle_edge(0, 1);
    g.toggle_edge(2, 3);
    g.toggle_edge(1, 3);
    g.start_node = 3;
    let mut s = EditorState::new();
    s.selected = Some(1);
    assert!(s.delete_selected(&mut g));
    assert_eq!(g.edges, vec![edge(1, 2)]);
    assert_eq!(g.start_node, 2);
    assert_eq!(g.adjacency, vec![vec![], vec![2], vec![1]]);
}

#[test]
fn edits_keep_the_rest_of_the_node() {
    let mut g = graph_with(2);
    g.add_stat(1, 3, 1.5);
    g.apply_edit(EditField::MaxLevel(1), "4", None);
    g.apply_edit(EditField::NodeName(1), "Renamed", None);
    assert_eq!(g.nodes[1].max_level, 4);
    assert_eq!(g.nodes[1].rolled_values, vec![(3, 1.5)]);
    assert_eq!(g.nodes[1].grid_cell, (1, 0));
    g.apply_edit(EditField::StatValue(1, 0), "9", Some(9.0));
    assert_eq!(g.nodes[1].name, "Renamed");
    assert_eq!(g.nodes[1].max_level, 4);
}

#[test]
fn longer_suffix_finds_fewer_files() {
    let listing = vec![file("a/x.stats.ron"), file("a/y.ron"), DirEntry::Dir(vec![file("a/b/z.stats.ron"), file("a/b/w.txt")])];
    assert_eq!(find_ron_files(&listing, ".stats.ron"), vec!["a/x.stats.ron", "a/b/z.stats.ron"]);
    assert_eq!(find_ron_files(&listing, ".ron"), vec!["a/x.stats.ron", "a/y.ron", "a/b/z.stats.ron"]);
    assert_eq!(find_ron_files(&listing, ""), vec!["a/x.stats.ron", "a/y.ron", "a/b/z.stats.ron", "a/b/w.txt"]);
}
