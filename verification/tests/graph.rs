use markov_generator::action::Action;
use markov_generator::chain::MarkovChain;
use markov_generator::edge::Edge;
use markov_generator::error::MarkovChainError;
use markov_generator::node::Node;
use markov_generator::weight::Weight;
use serde_json::Value;

fn weighing(x: f32) -> Weight {
    Weight::from_bits(x.to_bits())
}

fn sample_chain() -> MarkovChain {
    let mut mc = MarkovChain::new(None, None);
    let n1 = Node::new(1, None);
    let n2 = Node::new(2, None);
    let n3 = Node::new(3, None);
    mc.add_nodes(&[n1, n2, n3]);

    let a1 = Action::new(100, Some(Value::from(100.5)));
    let a2 = Action::new(200, Some(Value::from(200.5)));
    let a3 = Action::new(300, Some(Value::from(300.5)));

    mc.add_node_actions(1, &[a1]);
    mc.add_node_actions(2, &[a2, a3]);

    mc.add_edge(Edge::new(1, 2, weighing(0.2)));
    mc.add_edge(Edge::new(2, 3, weighing(0.4)));
    mc.add_edge(Edge::new(3, 1, weighing(0.8)));
    mc.add_edge(Edge::new(3, 2, weighing(0.4)));
    mc
}

#[test]
fn new_chain_is_empty_and_has_no_current_node() {
    let mc = MarkovChain::new(None, None);
    assert!(mc.nodes().is_empty());
    assert!(mc.edges().is_empty());
    assert_eq!(mc.get_current_node(), None);

    let mc = MarkovChain::new(Some(vec![Node::new(5, None)]), None);
    assert_eq!(mc.nodes().len(), 1);
    assert_eq!(mc.nodes()[0].id, 5);
    assert!(mc.edges().is_empty());
    assert_eq!(mc.get_current_node(), None);

    let mc = MarkovChain::new(None, Some(vec![Edge::new(5, 6, weighing(1.0))]));
    assert!(mc.nodes().is_empty());
    assert_eq!(mc.edges(), &vec![Edge::new(5, 6, weighing(1.0))]);
}

#[test]
fn restore_keeps_the_current_node_as_given() {
    let mc = MarkovChain::restore(vec![Node::new(1, None)], Vec::new(), Some(9));
    assert_eq!(mc.get_current_node(), Some(9));
    assert_eq!(mc.nodes().len(), 1);
    assert!(!mc.node_exists(9));
    let mc = MarkovChain::restore(Vec::new(), vec![Edge::new(1, 2, weighing(0.5))], None);
    assert_eq!(mc.get_current_node(), None);
    assert_eq!(mc.edges().len(), 1);
}

#[test]
fn node_new_defaults_to_no_actions() {
    let node = Node::new(4, None);
    assert_eq!(node.id, 4);
    assert!(node.actions.is_empty());
    let node = Node::new(4, Some(vec![Action::new(1, None), Action::new(2, None)]));
    assert_eq!(node.actions.len(), 2);
    assert_eq!(node.actions[0].id, 1);
    assert_eq!(node.actions[1].id, 2);
}

#[test]
fn action_new_keeps_a_given_value() {
    let action = Action::new(100, Some(Value::from(100.5)));
    assert_eq!(action.id, 100);
    assert_eq!(action.value, Value::from(100.5));
    let text = Action::new(1, Some(Value::from("go")));
    assert_eq!(text.value.as_str(), Some("go"));
    let flag = Action::new(2, Some(Value::Bool(false)));
    assert!(!flag.value.is_null());
}

#[test]
fn clones_are_equal_to_what_they_copy() {
    let list = Value::Array(vec![Value::from(1), Value::from("two"), Value::Null]);
    let action = Action::new(3, Some(list.clone()));
    let copy = action.clone();
    assert_eq!(copy, action);
    assert_eq!(copy.id, 3);
    assert_eq!(copy.value, list);

    let node = Node::new(8, Some(vec![action, Action::new(4, None)]));
    let twin = node.clone();
    assert_eq!(twin, node);
    assert_eq!(twin.id, 8);
    assert_eq!(twin.actions.len(), 2);
    assert_eq!(twin.actions[0].value, list);
    assert_eq!(twin.actions[1].value, Value::Null);
}

#[test]
fn added_node_is_found_by_its_id() {
    let mut mc = sample_chain();
    let node = Node::new(7, Some(vec![Action::new(1, Some(Value::from("x")))]));
    mc.add_node(node.clone());
    assert_eq!(mc.get_node(7), Some(&node));
    assert!(mc.node_exists(7));
    assert_eq!(mc.nodes().len(), 4);
    assert_eq!(mc.nodes()[3], node);
}

#[test]
fn lookup_finds_the_first_of_two_nodes_with_one_id() {
    let mut mc = MarkovChain::new(None, None);
    let first = Node::new(1, Some(vec![Action::new(10, None)]));
    let second = Node::new(1, None);
    mc.add_node(first.clone());
    mc.add_node(second.clone());
    assert_eq!(mc.get_node(1), Some(&first));
    assert_eq!(mc.get_node_actions(1).map(|a| a.len()), Some(1));

    mc.add_node_actions(1, &[Action::new(11, None)]);
    assert_eq!(mc.nodes()[0].actions.len(), 2);
    assert_eq!(mc.nodes()[1].actions.len(), 0);

    mc.remove_node(1);
    assert!(mc.nodes().is_empty());
    assert_eq!(mc.get_node(1), None);
}

#[test]
fn add_nodes_keeps_the_order() {
    let mut mc = MarkovChain::new(Some(vec![Node::new(9, None)]), None);
    mc.add_nodes(&[Node::new(3, None), Node::new(1, None), Node::new(2, None)]);
    let ids: Vec<u32> = mc.nodes().iter().map(|n| n.id).collect();
    assert_eq!(ids, vec![9, 3, 1, 2]);
    mc.add_nodes(&[]);
    assert_eq!(mc.nodes().len(), 4);
}

#[test]
fn removed_node_is_not_found() {
    let mut mc = sample_chain();
    mc.remove_node(2);
    assert_eq!(mc.get_node(2), None);
    assert!(!mc.node_exists(2));
    assert_eq!(mc.get_node_actions(2), None);
    let ids: Vec<u32> = mc.nodes().iter().map(|n| n.id).collect();
    assert_eq!(ids, vec![1, 3]);
    assert_eq!(mc.edges().len(), 4);
}

#[test]
fn removing_an_absent_node_changes_nothing() {
    let mut mc = sample_chain();
    mc.remove_node(42);
    let ids: Vec<u32> = mc.nodes().iter().map(|n| n.id).collect();
    assert_eq!(ids, vec![1, 2, 3]);
    assert_eq!(mc.get_node_actions(2).map(|a| a.len()), Some(2));
}

#[test]
fn added_edge_is_found_by_its_ends() {
    let mut mc = sample_chain();
    let edge = Edge::new(2, 1, weighing(0.25));
    mc.add_edge(edge);
    assert_eq!(mc.get_edge(2, 1), Some(&edge));
    assert!(mc.edge_exists(2, 1));
    assert_eq!(mc.edges().len(), 5);
    assert_eq!(mc.edges()[4].weight.to_bits(), 0.25f32.to_bits());
}

#[test]
fn lookup_finds_the_first_of_two_edges_with_the_same_ends() {
    let mut mc = MarkovChain::new(None, None);
    mc.add_edge(Edge::new(1, 2, weighing(0.5)));
    mc.add_edge(Edge::new(1, 2, weighing(0.75)));
    mc.add_edge(Edge::new(2, 1, weighing(1.0)));
    assert_eq!(mc.get_edge(1, 2).map(|e| e.weight.to_bits()), Some(0.5f32.to_bits()));
    mc.remove_edge(1, 2);
    assert_eq!(mc.get_edge(1, 2), None);
    assert!(!mc.edge_exists(1, 2));
    assert_eq!(mc.edges(), &vec![Edge::new(2, 1, weighing(1.0))]);
}

#[test]
fn removed_edge_is_not_found() {
    let mut mc = sample_chain();
    mc.remove_edge(3, 1);
    assert_eq!(mc.get_edge(3, 1), None);
    assert!(!mc.edge_exists(3, 1));
    assert!(mc.edge_exists(3, 2));
    let ends: Vec<(u32, u32)> = mc.edges().iter().map(|e| (e.from, e.to)).collect();
    assert_eq!(ends, vec![(1, 2), (2, 3), (3, 2)]);
    mc.remove_edge(1, 3);
    assert_eq!(mc.edges().len(), 3);
}

#[test]
fn edge_ends_are_looked_up() {
    let mc = sample_chain();
    assert_eq!(mc.get_edge_from(3), Some(&3));
    assert_eq!(mc.get_edge_to(3), Some(&3));
    assert_eq!(mc.get_edge_from(4), None);
    assert_eq!(mc.get_edge_to(4), None);
    assert!(mc.edge_exists(1, 2));
    assert!(!mc.edge_exists(2, 1));
    assert_eq!(mc.get_edge(2, 1), None);
    let mut one_way = MarkovChain::new(None, None);
    one_way.add_edge(Edge::new(5, 6, weighing(1.0)));
    assert_eq!(one_way.get_edge_from(5), Some(&5));
    assert_eq!(one_way.get_edge_from(6), None);
    assert_eq!(one_way.get_edge_to(6), Some(&6));
    assert_eq!(one_way.get_edge_to(5), None);
}

#[test]
fn setting_an_absent_current_node_fails_and_keeps_the_old_one() {
    let mut mc = sample_chain();
    assert_eq!(
        mc.set_current_node(4),
        Err(MarkovChainError::NodeDoesNotExistError)
    );
    assert_eq!(mc.get_current_node(), None);
    assert_eq!(mc.set_current_node(2), Ok(()));
    assert_eq!(
        mc.set_current_node(0),
        Err(MarkovChainError::NodeDoesNotExistError)
    );
    assert_eq!(mc.get_current_node(), Some(2));
    assert_eq!(mc.set_current_node(3), Ok(()));
    assert_eq!(mc.get_current_node(), Some(3));
}

#[test]
fn removing_the_current_node_keeps_the_position() {
    let mut mc = sample_chain();
    mc.set_current_node(2).unwrap();
    mc.remove_node(2);
    assert_eq!(mc.get_current_node(), Some(2));
}

#[test]
fn edges_of_an_absent_node_are_an_error() {
    let mc = sample_chain();
    assert_eq!(
        mc.get_node_edges(4),
        Err(MarkovChainError::NodeDoesNotExistError)
    );
    let mut lone = MarkovChain::new(None, None);
    lone.add_edge(Edge::new(4, 5, weighing(1.0)));
    assert_eq!(
        lone.get_node_edges(4),
        Err(MarkovChainError::NodeDoesNotExistError)
    );
    lone.add_node(Node::new(4, None));
    assert_eq!(lone.get_node_edges(4), Ok(vec![Edge::new(4, 5, weighing(1.0))]));
    lone.add_node(Node::new(5, None));
    assert_eq!(lone.get_node_edges(5), Ok(Vec::new()));
}

#[test]
fn sample_chain_edges_and_actions_come_in_insertion_order() {
    let mc = sample_chain();
    let edges = mc.get_node_edges(3).unwrap();
    assert_eq!(
        edges,
        vec![
            Edge::new(3, 1, weighing(0.8)),
            Edge::new(3, 2, weighing(0.4)),
        ]
    );
    assert_eq!(edges[0].weight.to_bits(), 0.8f32.to_bits());
    assert_eq!(edges[1].weight.to_bits(), 0.4f32.to_bits());

    let actions = mc.get_node_actions(2).unwrap();
    assert_eq!(
        actions,
        &vec![
            Action::new(200, Some(Value::from(200.5))),
            Action::new(300, Some(Value::from(300.5))),
        ]
    );
    assert_eq!(mc.get_node_actions(1).map(|a| a.len()), Some(1));
    assert_eq!(mc.get_node_actions(3).map(|a| a.len()), Some(0));
    assert_eq!(mc.get_current_node(), None);
}

#[test]
fn node_actions_are_looked_up() {
    let mc = sample_chain();
    assert_eq!(
        mc.get_node_action(2, 300),
        Some(&Action::new(300, Some(Value::from(300.5))))
    );
    assert_eq!(mc.get_node_action(2, 100), None);
    assert_eq!(mc.get_node_action(4, 100), None);
    assert_eq!(mc.get_node_actions(4), None);
}

#[test]
fn first_action_with_an_id_is_found() {
    let mut mc = MarkovChain::new(Some(vec![Node::new(1, None)]), None);
    mc.add_node_actions(
        1,
        &[
            Action::new(5, Some(Value::from("first"))),
            Action::new(5, Some(Value::from("second"))),
        ],
    );
    assert_eq!(
        mc.get_node_action(1, 5).map(|a| a.value.clone()),
        Some(Value::from("first"))
    );
}

#[test]
fn adding_actions_to_an_absent_node_does_nothing() {
    let mut mc = sample_chain();
    mc.add_node_actions(9, &[Action::new(1, None)]);
    assert_eq!(mc.nodes().len(), 3);
    assert_eq!(mc.get_node_actions(1).map(|a| a.len()), Some(1));
    assert_eq!(mc.get_node_actions(2).map(|a| a.len()), Some(2));
    assert_eq!(mc.get_node_actions(3).map(|a| a.len()), Some(0));
    assert_eq!(mc.get_node_actions(9), None);
}

#[test]
fn added_actions_follow_the_earlier_ones() {
    let mut mc = sample_chain();
    mc.add_node_actions(2, &[Action::new(400, None)]);
    let ids: Vec<u32> = mc.get_node_actions(2).unwrap().iter().map(|a| a.id).collect();
    assert_eq!(ids, vec![200, 300, 400]);
    assert_eq!(mc.get_node_action(2, 400).map(|a| a.value.clone()), Some(Value::Null));
}
