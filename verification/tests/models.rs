use network_grapher::models::{Node, Position};

#[test]
fn default_node_is_blank() {
    let node = Node::default();
    assert_eq!(node, Node { id: 0, label: String::new(), image_src: None, position: None });
}

#[test]
fn clone_keeps_every_field() {
    let node = Node {
        id: 12,
        label: "Aunt".to_string(),
        image_src: Some("aunt.png".to_string()),
        position: Some(Position { x_bits: 7, y_bits: 9 }),
    };
    let copy = node.clone();
    assert_eq!(copy, node);
    assert_eq!(copy.label, "Aunt");
    assert_eq!(copy.image_src, Some("aunt.png".to_string()));
    assert_eq!(copy.position, Some(Position { x_bits: 7, y_bits: 9 }));
}

#[test]
fn clone_of_a_bare_node() {
    let node = Node { id: i32::MAX, label: String::new(), image_src: None, position: None };
    assert_eq!(node.clone(), node);
}
