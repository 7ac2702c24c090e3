use node_connectors::nodes::connector_manager::edge::ConnectorEdge;

#[test]
fn a_new_edge_holds_what_it_was_given() {
    let edge = ConnectorEdge::new(vec![3, 1, 2], 7);
    assert_eq!(edge.get_input(), vec![3, 1, 2]);
    assert_eq!(edge.get_output(), 7);
}

#[test]
fn has_connection_knows_the_output_and_the_inputs() {
    let edge = ConnectorEdge::new(vec![3, 1], 7);
    assert!(edge.has_connection(7));
    assert!(edge.has_connection(3));
    assert!(edge.has_connection(1));
    assert!(!edge.has_connection(2));
    assert!(!ConnectorEdge::new(vec![], 0).has_connection(1));
}

#[test]
fn add_input_adds_once() {
    let mut edge = ConnectorEdge::new(vec![4], 0);
    edge.add_input(5);
    assert_eq!(edge.get_input(), vec![4, 5]);
    edge.add_input(5);
    edge.add_input(4);
    assert_eq!(edge.get_input(), vec![4, 5]);
    assert_eq!(edge.get_output(), 0);
}

#[test]
fn remove_input_takes_every_occurrence_and_keeps_the_order() {
    let mut edge = ConnectorEdge::new(vec![4, 5, 6, 5, 7], 0);
    edge.remove_input(5);
    assert_eq!(edge.get_input(), vec![4, 6, 7]);
    edge.remove_input(5);
    assert_eq!(edge.get_input(), vec![4, 6, 7]);
    edge.remove_input(4);
    edge.remove_input(7);
    edge.remove_input(6);
    assert_eq!(edge.get_input(), Vec::<usize>::new());
    assert_eq!(edge.get_output(), 0);
}

#[test]
fn a_copy_of_an_edge_is_its_own() {
    let edge = ConnectorEdge::new(vec![1, 2], 0);
    let mut copy = edge.clone();
    copy.add_input(3);
    assert_eq!(edge.get_input(), vec![1, 2]);
    assert_eq!(copy.get_input(), vec![1, 2, 3]);
    assert_eq!(format!("{:?}", edge), "ConnectorEdge { input: [1, 2], output: 0 }");
}
