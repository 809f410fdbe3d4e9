use maven_gateway::storage::layers::Layer;

#[test]
fn new_layer_knows_nothing() {
    let layer = Layer::new();
    assert!(layer.packages().is_empty());
    assert!(layer.files().is_empty());
    assert!(!layer.has_children(&vec![], 0));
    assert!(!layer.has_children(&vec!["com"], 0));
}

#[test]
fn populate_registers_each_segment_below_the_one_before() {
    let mut root = Layer::new();
    root.populate(&vec!["com", "acme", "lib"], 0);
    assert_eq!(root.packages(), &vec!["com".to_string()]);
    assert_eq!(root.descend(&vec!["com"], 0).packages(), &vec!["acme".to_string()]);
    assert_eq!(root.descend(&vec!["com", "acme"], 0).packages(), &vec!["lib".to_string()]);
    let leaf = root.descend(&vec!["com", "acme", "lib"], 0);
    assert!(leaf.packages().is_empty());
    assert!(leaf.files().is_empty());
}

#[test]
fn populate_hands_out_the_last_node() {
    let mut root = Layer::new();
    let node = root.populate(&vec!["com", "acme"], 0);
    node.add_file("lib.jar");
    assert_eq!(root.descend(&vec!["com", "acme"], 0).files(), &vec!["lib.jar".to_string()]);
    assert!(root.files().is_empty());
    assert!(root.descend(&vec!["com"], 0).files().is_empty());
}

#[test]
fn populate_without_segments_hands_out_the_node_itself() {
    let mut root = Layer::new();
    root.populate(&vec![], 0).add_file("top.pom");
    assert_eq!(root.files(), &vec!["top.pom".to_string()]);
    assert!(root.packages().is_empty());
}

#[test]
fn populate_starts_at_the_given_position() {
    let mut root = Layer::new();
    root.populate(&vec!["skipped", "com", "acme"], 1);
    assert_eq!(root.packages(), &vec!["com".to_string()]);
    assert!(root.has_children(&vec!["com"], 0));
    assert!(!root.has_children(&vec!["skipped"], 0));
    root.populate(&vec!["a", "b"], 2);
    root.populate(&vec!["a", "b"], 7);
    assert_eq!(root.packages(), &vec!["com".to_string()]);
}

#[test]
fn populating_twice_duplicates_nothing() {
    let ids = vec!["com", "acme", "lib"];
    let mut root = Layer::new();
    root.populate(&ids, 0).add_file("lib.jar");
    root.populate(&ids, 0).add_file("lib.jar");
    assert_eq!(root.packages(), &vec!["com".to_string()]);
    assert_eq!(root.descend(&vec!["com"], 0).packages(), &vec!["acme".to_string()]);
    assert_eq!(root.descend(&vec!["com", "acme"], 0).packages(), &vec!["lib".to_string()]);
    assert_eq!(root.descend(&ids, 0).files(), &vec!["lib.jar".to_string()]);
}

#[test]
fn packages_stay_unique_when_others_come_between() {
    let mut root = Layer::new();
    root.populate(&vec!["a"], 0);
    root.populate(&vec!["b"], 0);
    root.populate(&vec!["a"], 0);
    root.populate(&vec!["c", "x"], 0);
    root.populate(&vec!["b", "y"], 0);
    assert_eq!(root.packages(), &vec!["a".to_string(), "b".to_string(), "c".to_string()]);
    assert_eq!(root.descend(&vec!["b"], 0).packages(), &vec!["y".to_string()]);
}

#[test]
fn files_stay_unique_and_in_order_of_discovery() {
    let mut node = Layer::new();
    node.add_file("b.jar");
    node.add_file("a.jar");
    node.add_file("b.jar");
    node.add_file("c.pom");
    node.add_file("a.jar");
    assert_eq!(node.files(), &vec!["b.jar".to_string(), "a.jar".to_string(), "c.pom".to_string()]);
}

#[test]
fn populate_keeps_what_was_there() {
    let mut root = Layer::new();
    root.populate(&vec!["com", "acme"], 0).add_file("one.jar");
    root.populate(&vec!["com", "other"], 0).add_file("two.jar");
    root.populate(&vec!["com", "acme", "deep"], 0);
    assert_eq!(root.descend(&vec!["com"], 0).packages(), &vec!["acme".to_string(), "other".to_string()]);
    assert_eq!(root.descend(&vec!["com", "acme"], 0).files(), &vec!["one.jar".to_string()]);
    assert_eq!(root.descend(&vec!["com", "acme"], 0).packages(), &vec!["deep".to_string()]);
    assert_eq!(root.descend(&vec!["com", "other"], 0).files(), &vec!["two.jar".to_string()]);
}

#[test]
fn has_children_needs_every_segment_and_some_content() {
    let mut root = Layer::new();
    root.populate(&vec!["com", "acme"], 0);
    assert!(root.has_children(&vec![], 0));
    assert!(root.has_children(&vec!["com"], 0));
    assert!(!root.has_children(&vec!["com", "acme"], 0));
    assert!(!root.has_children(&vec!["com", "acme", "lib"], 0));
    assert!(!root.has_children(&vec!["org"], 0));
    root.populate(&vec!["com", "acme"], 0).add_file("lib.jar");
    assert!(root.has_children(&vec!["com", "acme"], 0));
}

#[test]
fn has_children_starts_at_the_given_position() {
    let mut root = Layer::new();
    root.populate(&vec!["com", "acme"], 0);
    assert!(root.has_children(&vec!["org", "com"], 1));
    assert!(!root.has_children(&vec!["org", "com"], 0));
    assert!(root.has_children(&vec!["org", "com"], 2));
    assert!(root.has_children(&vec!["org", "com"], 9));
}

#[test]
fn descend_without_segments_is_the_node_itself() {
    let mut root = Layer::new();
    root.populate(&vec!["com"], 0);
    assert_eq!(root.descend(&vec![], 0).packages(), &vec!["com".to_string()]);
    assert_eq!(root.descend(&vec!["com"], 1).packages(), &vec!["com".to_string()]);
}

#[test]
fn clone_copies_packages_and_files_but_no_children() {
    let mut root = Layer::new();
    root.populate(&vec!["com", "acme"], 0);
    root.add_file("top.pom");
    let copy = root.clone();
    assert_eq!(copy.packages(), &vec!["com".to_string()]);
    assert_eq!(copy.files(), &vec!["top.pom".to_string()]);
    assert!(copy.has_children(&vec![], 0));
    assert!(!copy.has_children(&vec!["com"], 0));
    assert!(root.has_children(&vec!["com"], 0));
}
