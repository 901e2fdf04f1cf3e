use reratui::fiber::FiberId;
use reratui::fiber_tree::{clear_fiber_tree, set_fiber_tree, with_current_fiber, with_fiber_tree, FiberTree};
use reratui::string_map::{str_eq, FlagMap, StringMap};
use reratui::text::{blank, float_text};

#[test]
fn component_ids_map_to_stable_fibers() {
    let mut tree = FiberTree::new();
    let a = tree.get_or_create_fiber_by_component_id(77);
    let b = tree.get_or_create_fiber_by_component_id(77);
    assert_eq!(a, b);
    let c = tree.get_or_create_fiber_by_component_id(78);
    assert_ne!(a, c);
    assert!(tree.contains(a));
}

#[test]
fn unseen_components_unmount() {
    let mut tree = FiberTree::new();
    let a = tree.get_or_create_fiber_by_component_id(1);
    let b = tree.get_or_create_fiber_by_component_id(2);
    tree.mark_unseen_for_unmount();
    assert!(!tree.has_pending_unmounts());
    let _ = tree.get_or_create_fiber_by_component_id(1);
    tree.mark_unseen_for_unmount();
    assert_eq!(tree.pending_unmount_count(), 1);
    let gone = tree.process_unmounts();
    assert_eq!(gone, vec![b]);
    assert!(tree.contains(a));
    assert!(!tree.contains(b));
}

#[test]
fn render_stack_nests() {
    let mut tree = FiberTree::new();
    let outer = tree.mount(None, None);
    let inner = tree.mount(Some(outer), None);
    tree.begin_render(outer);
    tree.begin_render(inner);
    assert_eq!(tree.current_fiber(), Some(inner));
    tree.end_render();
    assert_eq!(tree.current_fiber(), Some(outer));
    tree.end_render();
    assert_eq!(tree.current_fiber(), None);
}

#[test]
fn dirty_fibers_in_mount_order() {
    let mut tree = FiberTree::new();
    let a = tree.mount(None, None);
    let b = tree.mount(None, None);
    tree.mark_clean(a);
    tree.mark_clean(b);
    assert!(tree.dirty_fibers().is_empty());
    tree.mark_dirty(b);
    tree.mark_dirty(a);
    assert_eq!(tree.dirty_fibers(), vec![a, b]);
}

#[test]
fn tree_holder_functions() {
    let mut holder: Option<FiberTree> = None;
    assert_eq!(with_fiber_tree(&holder, |t: &FiberTree| t.fibers.len()), None);
    let mut tree = FiberTree::new();
    let id = tree.mount(None, None);
    tree.begin_render(id);
    set_fiber_tree(&mut holder, tree);
    assert_eq!(with_current_fiber(&mut holder, |f| f.id), Some(id));
    clear_fiber_tree(&mut holder);
    assert!(holder.is_none());
    let _ = FiberId(0);
}

#[test]
fn string_maps_keep_last_value() {
    let mut m = StringMap::new();
    m.insert("a".to_string(), "1".to_string());
    m.insert("b".to_string(), "2".to_string());
    m.insert("a".to_string(), "3".to_string());
    assert_eq!(m.len(), 2);
    assert_eq!(m.get("a"), Some(&"3".to_string()));
    m.remove("a");
    assert_eq!(m.get("a"), None);
    assert_eq!(m.duplicate().get("b"), Some(&"2".to_string()));
    let mut f = FlagMap::new();
    f.insert("x".to_string(), true);
    assert_eq!(f.get("x"), Some(true));
    assert_eq!(f.get("y"), None);
    assert!(str_eq("é", "é"));
    assert!(!str_eq("ab", "abc"));
}

#[test]
fn text_classes() {
    assert!(blank(" \t\u{3000}"));
    assert!(!blank(" x "));
    assert!(float_text("6.02e23"));
    assert!(!float_text("6.02e"));
}
