use langchain_core::graph::{graph_ascii, graph_mermaid, RunnableGraph};

fn chain(names: &[(&str, &str)]) -> RunnableGraph {
    let mut g = RunnableGraph::new();
    for (id, name) in names {
        g.add_node(*id, *name).unwrap();
    }
    g
}

#[test]
fn test_add_nodes_and_edges() {
    let mut graph = RunnableGraph::new();
    graph.add_node("a", "A").unwrap();
    graph.add_node("b", "B").unwrap();
    graph.add_edge("a", "b").unwrap();
    assert_eq!(graph.nodes().len(), 2);
    assert_eq!(graph.edges().len(), 1);
}

#[test]
fn test_duplicate_node() {
    let mut graph = RunnableGraph::new();
    graph.add_node("a", "A").unwrap();
    let result = graph.add_node("a", "A2");
    assert!(result.is_err());
}

#[test]
fn test_missing_edge_node() {
    let mut graph = RunnableGraph::new();
    graph.add_node("a", "A").unwrap();
    let result = graph.add_edge("a", "b");
    assert!(result.is_err());
}

#[test]
fn test_validate_no_cycle() {
    let mut graph = RunnableGraph::new();
    graph.add_node("a", "A").unwrap();
    graph.add_node("b", "B").unwrap();
    graph.add_edge("a", "b").unwrap();
    assert!(graph.validate().is_ok());
}

#[test]
fn test_validate_detects_cycle() {
    let mut graph = RunnableGraph::new();
    graph.add_node("a", "A").unwrap();
    graph.add_node("b", "B").unwrap();
    graph.add_node("c", "C").unwrap();
    graph.add_edge("a", "b").unwrap();
    graph.add_edge("b", "c").unwrap();
    graph.add_edge("c", "a").unwrap();
    assert!(graph.validate().is_err());
}

#[test]
fn test_validate_detects_orphans() {
    let mut graph = RunnableGraph::new();
    graph.add_node("a", "A").unwrap();
    graph.add_node("b", "B").unwrap();
    graph.add_node("c", "C").unwrap();
    graph.add_edge("a", "b").unwrap();
    assert!(graph.validate().is_err());
}

#[test]
fn test_graph_ascii() {
    let mut graph = RunnableGraph::new();
    graph.add_node("a", "Start").unwrap();
    graph.add_node("b", "Process").unwrap();
    graph.add_node("c", "End").unwrap();
    graph.add_edge("a", "b").unwrap();
    graph.add_edge("b", "c").unwrap();
    let ascii = graph_ascii(&graph);
    assert!(ascii.contains("Start"));
    assert!(ascii.contains("Process"));
    assert!(ascii.contains("End"));
}

#[test]
fn test_graph_mermaid() {
    let mut graph = RunnableGraph::new();
    graph.add_node("a", "Start").unwrap();
    graph.add_node("b", "End").unwrap();
    graph.add_conditional_edge("a", "b", "ok").unwrap();
    let mermaid = graph_mermaid(&graph);
    assert!(mermaid.starts_with("graph TD;"));
    assert!(mermaid.contains("Start"));
    assert!(mermaid.contains("End"));
    assert!(mermaid.contains("-. \"ok\" .->"));
}

#[test]
fn test_graph_mermaid_empty() {
    let graph = RunnableGraph::new();
    let mermaid = graph_mermaid(&graph);
    assert_eq!(mermaid, "graph TD;\n");
}

#[test]
fn test_first_and_last_node() {
    let mut graph = RunnableGraph::new();
    graph.add_node("a", "Start").unwrap();
    graph.add_node("b", "Middle").unwrap();
    graph.add_node("c", "End").unwrap();
    graph.add_edge("a", "b").unwrap();
    graph.add_edge("b", "c").unwrap();
    assert_eq!(graph.first_node().map(|n| n.id.as_str()), Some("a"));
    assert_eq!(graph.last_node().map(|n| n.id.as_str()), Some("c"));
}

#[test]
fn test_conditional_edge_add() {
    let mut graph = RunnableGraph::new();
    graph.add_node("a", "A").unwrap();
    graph.add_node("b", "B").unwrap();
    graph.add_conditional_edge("a", "b", "if_ok").unwrap();
    assert_eq!(graph.edges().len(), 1);
    assert_eq!(graph.edges()[0].condition.as_deref(), Some("if_ok"));
}

#[test]
fn test_conditional_edge_missing_source() {
    let mut graph = RunnableGraph::new();
    graph.add_node("b", "B").unwrap();
    let result = graph.add_conditional_edge("a", "b", "cond");
    assert!(result.is_err());
}

#[test]
fn test_conditional_edge_missing_target() {
    let mut graph = RunnableGraph::new();
    graph.add_node("a", "A").unwrap();
    let result = graph.add_conditional_edge("a", "b", "cond");
    assert!(result.is_err());
}

#[test]
fn test_empty_graph_validate() {
    let graph = RunnableGraph::new();
    assert!(graph.validate().is_ok());
}

#[test]
fn test_single_node_graph_validate() {
    let mut graph = RunnableGraph::new();
    graph.add_node("a", "A").unwrap();
    assert!(graph.validate().is_ok());
}

#[test]
fn test_first_node_ambiguous() {
    let mut graph = RunnableGraph::new();
    graph.add_node("a", "A").unwrap();
    graph.add_node("b", "B").unwrap();
    assert!(graph.first_node().is_none());
}

#[test]
fn test_last_node_ambiguous() {
    let mut graph = RunnableGraph::new();
    graph.add_node("a", "A").unwrap();
    graph.add_node("b", "B").unwrap();
    assert!(graph.last_node().is_none());
}

#[test]
fn test_graph_ascii_empty() {
    let graph = RunnableGraph::new();
    let ascii = graph_ascii(&graph);
    assert!(ascii.is_empty());
}

#[test]
fn test_graph_mermaid_with_conditional() {
    let mut graph = RunnableGraph::new();
    graph.add_node("start", "Start").unwrap();
    graph.add_node("end", "End").unwrap();
    graph.add_conditional_edge("start", "end", "ok").unwrap();
    let mermaid = graph_mermaid(&graph);
    assert!(mermaid.contains("-. \"ok\" .->"));
}

#[test]
fn test_graph_node_clone() {
    let mut graph = RunnableGraph::new();
    graph.add_node("a", "A").unwrap();
    let cloned = graph.clone();
    assert_eq!(cloned.nodes().len(), 1);
}

#[test]
fn graph_errors_carry_exact_messages() {
    let mut g = chain(&[("a", "A")]);
    match g.add_node("a", "again") {
        Err(e) => assert_eq!(e.to_string(), "Validation error: Node with id 'a' already exists"),
        Ok(_) => panic!("duplicate accepted"),
    }
    match g.add_edge("x", "a") {
        Err(e) => assert_eq!(e.to_string(), "Validation error: Source node 'x' not in graph"),
        Ok(_) => panic!("missing source accepted"),
    }
    match g.add_edge("a", "y") {
        Err(e) => assert_eq!(e.to_string(), "Validation error: Target node 'y' not in graph"),
        Ok(_) => panic!("missing target accepted"),
    }
}

#[test]
fn topological_order_respects_edges() {
    let mut g = chain(&[("c", "C"), ("b", "B"), ("a", "A"), ("d", "D")]);
    g.add_edge("a", "b").unwrap();
    g.add_edge("b", "c").unwrap();
    g.add_edge("a", "d").unwrap();
    g.add_edge("d", "c").unwrap();
    let order = g.topological_order().unwrap();
    let pos = |x: &str| order.iter().position(|o| o == x).unwrap();
    assert_eq!(order.len(), 4);
    assert!(pos("a") < pos("b") && pos("b") < pos("c") && pos("a") < pos("d") && pos("d") < pos("c"));
    g.add_edge("c", "a").unwrap();
    assert!(g.topological_order().is_err());
}

#[test]
fn self_loop_is_a_cycle() {
    let mut g = chain(&[("a", "A")]);
    g.add_edge("a", "a").unwrap();
    match g.validate() {
        Err(e) => assert_eq!(e.to_string(), "Validation error: Graph contains a cycle"),
        Ok(_) => panic!("cycle accepted"),
    }
    assert_eq!(graph_ascii(&g), "<graph contains cycle>");
}

#[test]
fn orphan_message_lists_orphans() {
    let mut g = chain(&[("a", "A"), ("b", "B"), ("c", "C"), ("d", "D")]);
    g.add_edge("a", "b").unwrap();
    assert_eq!(g.orphan_nodes(), vec!["c".to_string(), "d".to_string()]);
    match g.validate() {
        Err(e) => assert_eq!(e.to_string(), "Validation error: Orphan nodes found: c, d"),
        Ok(_) => panic!("orphans accepted"),
    }
}

#[test]
fn ascii_drawing_exact() {
    let mut g = chain(&[("a", "Start"), ("b", "X")]);
    g.add_edge("a", "b").unwrap();
    let expected = "+-------+\n| Start |\n+-------+\n    ***\n    ***\n+-----+\n| X |\n+-----+";
    assert_eq!(graph_ascii(&g), expected);
    let mut h = chain(&[("a", "Start"), ("b", "End")]);
    h.add_conditional_edge("a", "b", "ok").unwrap();
    assert!(graph_ascii(&h).contains("    ...\n    ...\n"));
}

#[test]
fn mermaid_exact() {
    let mut g = chain(&[("a.b", "First"), ("c", "Second")]);
    g.add_edge("a.b", "c").unwrap();
    assert_eq!(
        graph_mermaid(&g),
        "graph TD;\n    a_2eb[\"First\"]\n    c[\"Second\"]\n    a_2eb --> c\n"
    );
}

#[test]
fn incoming_sources_in_edge_order() {
    let mut g = chain(&[("a", "A"), ("b", "B"), ("c", "C")]);
    g.add_edge("b", "c").unwrap();
    g.add_edge("a", "c").unwrap();
    assert_eq!(g.incoming_sources("c"), vec!["b".to_string(), "a".to_string()]);
    assert!(g.incoming_sources("a").is_empty());
}

fn fields(pairs: &[(&str, i64)]) -> Vec<(String, serde_json::Value)> {
    pairs.iter().map(|(k, v)| (k.to_string(), serde_json::Value::from(*v))).collect()
}

#[test]
fn upstream_outputs_merge_in_source_order() {
    let outs: langchain_core::graph::NodeOutputs =
        vec![("a".to_string(), fields(&[("x", 1), ("y", 2)])), ("b".to_string(), fields(&[("y", 3), ("z", 4)]))];
    let merged = langchain_core::graph::merge_upstream(&vec!["a".to_string(), "b".to_string(), "missing".to_string()], &outs);
    let mut m: Vec<(String, serde_json::Value)> = merged;
    m.sort_by(|p, q| p.0.cmp(&q.0));
    assert_eq!(m, fields(&[("x", 1), ("y", 3), ("z", 4)]));
}

#[test]
fn graph_result_picks_end_or_last_node() {
    let outs: langchain_core::graph::NodeOutputs = vec![("a".to_string(), fields(&[("x", 1)]))];
    let order = vec!["a".to_string()];
    assert_eq!(langchain_core::graph::graph_result(Some("a"), &order, &outs).unwrap(), fields(&[("x", 1)]));
    assert!(langchain_core::graph::graph_result(Some("b"), &order, &outs).unwrap().is_empty());
    assert_eq!(langchain_core::graph::graph_result(None, &order, &outs).unwrap(), fields(&[("x", 1)]));
    match langchain_core::graph::graph_result(None, &vec![], &outs) {
        Err(langchain_core::errors::ChainError::ValidationError(m)) => assert_eq!(m, "Graph has no nodes"),
        _ => panic!("expected a validation error"),
    }
}
