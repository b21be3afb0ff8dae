use dagoba::{
    copy_value, properties_filter, values_equal, EdgeFilter, Graph, GraphError, Properties, Query,
    QueryResult, Value, Vertex, VertexFilter,
};

fn text(s: &str) -> Value {
    Value::String(s.to_string())
}

fn named(n: &str) -> Properties {
    vec![("name".to_string(), text(n))]
}

fn vertices(rs: &[u64]) -> Vec<QueryResult> {
    rs.iter().map(|v| QueryResult::Vertex(*v)).collect()
}

/// v1 -> v2, then v2 -> v3, v4, v5, v6; the last edge labelled "daughter".
fn family() -> Graph {
    let mut g = Graph::new();
    for n in ["v1", "v2", "v3", "v4", "v5", "v6"] {
        g.add_vertex(named(n)).unwrap();
    }
    g.add_edge(1, 2, "son".into(), vec![]).unwrap();
    g.add_edge(2, 3, "son".into(), vec![]).unwrap();
    g.add_edge(2, 4, "son".into(), vec![]).unwrap();
    g.add_edge(2, 5, "son".into(), vec![]).unwrap();
    g.add_edge(2, 6, "daughter".into(), vec![]).unwrap();
    g
}

/// a -> b, a -> c, d -> b, d -> c.
fn shared() -> Graph {
    let mut g = Graph::new();
    for n in ["a", "b", "c", "d"] {
        g.add_vertex(named(n)).unwrap();
    }
    g.add_edge(1, 2, "x".into(), vec![]).unwrap();
    g.add_edge(1, 3, "x".into(), vec![]).unwrap();
    g.add_edge(4, 2, "x".into(), vec![]).unwrap();
    g.add_edge(4, 3, "x".into(), vec![]).unwrap();
    g
}

#[test]
fn scenario_a_out_edge() {
    let mut g = Graph::new();
    let a = g.add_vertex(named("A")).unwrap();
    let b = g.add_vertex(named("B")).unwrap();
    g.add_edge(a, b, "fruitier".into(), vec![]).unwrap();
    assert_eq!((a, b), (1, 2));
    let mut q = Query::new(&g, VertexFilter::Id(1));
    assert_eq!(q.out(EdgeFilter::All).run(), vertices(&[2]));
    let mut q = Query::new(&g, VertexFilter::Id(2));
    assert_eq!(q.out(EdgeFilter::All).run(), vec![]);
}

#[test]
fn scenario_c_grandchildren_come_last_first() {
    let g = family();
    let mut q = Query::new(&g, VertexFilter::Id(1));
    assert_eq!(q.out(EdgeFilter::All).out(EdgeFilter::All).run(), vertices(&[6, 5, 4, 3]));
}

#[test]
fn scenario_d_label_filter() {
    let g = family();
    let mut q = Query::new(&g, VertexFilter::Id(1));
    let out = q.out(EdgeFilter::All).out(EdgeFilter::Label("daughter".into())).run();
    assert_eq!(out, vertices(&[6]));
}

#[test]
fn labels_filter_keeps_listed_labels() {
    let g = family();
    let mut q = Query::new(&g, VertexFilter::Id(2));
    let out = q.out(EdgeFilter::Labels(vec!["daughter".into(), "none".into()])).run();
    assert_eq!(out, vertices(&[6]));
    let mut q = Query::new(&g, VertexFilter::Id(2));
    let out = q.out(EdgeFilter::Labels(vec![])).run();
    assert_eq!(out, vec![]);
}

#[test]
fn edge_props_filter_is_a_superset_match() {
    let mut g = Graph::new();
    for n in ["a", "b", "c"] {
        g.add_vertex(named(n)).unwrap();
    }
    g.add_edge(1, 2, "x".into(), vec![("w".into(), Value::Int(1)), ("k".into(), text("y"))])
        .unwrap();
    g.add_edge(1, 3, "x".into(), vec![("w".into(), Value::Int(2))]).unwrap();
    let mut q = Query::new(&g, VertexFilter::Id(1));
    let out = q.out(EdgeFilter::Props(vec![("w".into(), Value::Int(1))])).run();
    assert_eq!(out, vertices(&[2]));
    let mut q = Query::new(&g, VertexFilter::Id(1));
    let out = q.out(EdgeFilter::Props(vec![])).run();
    assert_eq!(out, vertices(&[3, 2]));
}

#[test]
fn scenario_e_unique_collapses_duplicates() {
    let g = shared();
    let mut q = Query::new(&g, VertexFilter::Id(2));
    let all = q.in_(EdgeFilter::All).out(EdgeFilter::All).run();
    assert_eq!(all, vertices(&[3, 2, 3, 2]));
    let mut q = Query::new(&g, VertexFilter::Id(2));
    let once = q.in_(EdgeFilter::All).out(EdgeFilter::All).unique().run();
    assert_eq!(once, vertices(&[3, 2]));
    for r in &once {
        assert!(all.contains(r));
    }
}

#[test]
fn unique_twice_equals_unique_once() {
    let g = shared();
    let mut q = Query::new(&g, VertexFilter::Id(2));
    let once = q.in_(EdgeFilter::All).out(EdgeFilter::All).unique().run();
    let mut q = Query::new(&g, VertexFilter::Id(2));
    let twice = q.in_(EdgeFilter::All).out(EdgeFilter::All).unique().unique().run();
    assert_eq!(once, twice);
}

#[test]
fn take_bounds_the_results() {
    let g = family();
    let mut q = Query::new(&g, VertexFilter::All);
    assert_eq!(q.take(2).run(), vertices(&[6, 5]));
    let mut q = Query::new(&g, VertexFilter::All);
    assert_eq!(q.take(0).run(), vec![]);
    let mut q = Query::new(&g, VertexFilter::Id(2));
    assert_eq!(q.out(EdgeFilter::All).take(10).run(), vertices(&[6, 5, 4, 3]));
    let mut q = Query::new(&g, VertexFilter::Id(1));
    assert_eq!(q.out(EdgeFilter::All).out(EdgeFilter::All).take(3).run(), vertices(&[6, 5, 4]));
}

#[test]
fn back_returns_to_the_labelled_vertex() {
    let g = family();
    let mut q = Query::new(&g, VertexFilter::Id(2));
    let out = q.as_(7).out(EdgeFilter::All).back(7).run();
    assert_eq!(out, vertices(&[2, 2, 2, 2]));
    let mut q = Query::new(&g, VertexFilter::Id(2));
    let out = q.out(EdgeFilter::All).back(7).run();
    let empty: Vec<QueryResult> = (0..4).map(|_| QueryResult::Empty).collect();
    assert_eq!(out, empty);
}

#[test]
fn absent_vertex_has_no_neighbours() {
    let g = family();
    let mut q = Query::new(&g, VertexFilter::Id(99));
    assert_eq!(q.run(), vertices(&[99]));
    let mut q = Query::new(&g, VertexFilter::Id(99));
    assert_eq!(q.out(EdgeFilter::All).run(), vec![]);
    let mut q = Query::new(&g, VertexFilter::Ids(vec![99, 98]));
    assert_eq!(q.both(EdgeFilter::All).run(), vec![]);
    let mut q = Query::new(&g, VertexFilter::Id(99));
    assert_eq!(q.property("name".into()).run(), vec![]);
}

#[test]
fn ids_source_pops_last_first() {
    let g = family();
    let mut q = Query::new(&g, VertexFilter::Ids(vec![3, 1, 3]));
    assert_eq!(q.run(), vertices(&[3, 1, 3]));
}

#[test]
fn both_lists_in_neighbours_before_out_neighbours() {
    let mut g = Graph::new();
    for n in ["a", "b", "c"] {
        g.add_vertex(named(n)).unwrap();
    }
    g.add_edge(1, 2, "x".into(), vec![]).unwrap();
    g.add_edge(3, 1, "x".into(), vec![]).unwrap();
    let mut q = Query::new(&g, VertexFilter::Id(1));
    assert_eq!(q.both(EdgeFilter::All).run(), vertices(&[2, 3]));
}

#[test]
fn property_extracts_a_copy_of_the_value() {
    let g = family();
    let mut q = Query::new(&g, VertexFilter::Id(3));
    assert_eq!(q.property("name".into()).run(), vec![QueryResult::Value(text("v3"))]);
    let mut q = Query::new(&g, VertexFilter::Id(3));
    assert_eq!(q.property("age".into()).run(), vec![]);
}

#[test]
fn filter_by_id_ids_and_props() {
    let g = family();
    let mut q = Query::new(&g, VertexFilter::Id(2));
    assert_eq!(q.out(EdgeFilter::All).filter(VertexFilter::Id(4)).run(), vertices(&[4]));
    let mut q = Query::new(&g, VertexFilter::Id(2));
    let out = q.out(EdgeFilter::All).filter(VertexFilter::Ids(vec![3, 5])).run();
    assert_eq!(out, vertices(&[5, 3]));
    let mut q = Query::new(&g, VertexFilter::Id(2));
    let out = q.out(EdgeFilter::All).filter(VertexFilter::Props(named("v6"))).run();
    assert_eq!(out, vertices(&[6]));
    let mut q = Query::new(&g, VertexFilter::Id(2));
    let out = q
        .out(EdgeFilter::All)
        .filter(VertexFilter::Fn(Box::new(|v: &Vertex| v.id % 2 == 1)))
        .run();
    assert_eq!(out, vertices(&[5, 3]));
}

#[test]
fn except_drops_the_labelled_vertex() {
    let g = shared();
    let mut q = Query::new(&g, VertexFilter::Id(2));
    let out = q.as_(1).in_(EdgeFilter::All).out(EdgeFilter::All).except(1).run();
    assert_eq!(out, vertices(&[3, 3]));
    let mut q = Query::new(&g, VertexFilter::Id(2));
    let out = q.in_(EdgeFilter::All).except(1).run();
    assert_eq!(out, vertices(&[4, 1]));
}

#[test]
fn merge_maps_labels_through_the_trail() {
    let g = family();
    let mut q = Query::new(&g, VertexFilter::Id(1));
    let out = q.as_(5).out(EdgeFilter::All).merge(vec![5, 6]).run();
    assert_eq!(out, vertices(&[1]));
    let mut q = Query::new(&g, VertexFilter::Id(2));
    let out = q.as_(5).out(EdgeFilter::All).merge(vec![6]).run();
    assert_eq!(out, vec![]);
}

#[test]
fn vertex_step_reached_by_pull_has_no_trail() {
    let g = family();
    let mut q = Query::new(&g, VertexFilter::Id(1));
    let out = q.as_(3).vertex(VertexFilter::Ids(vec![4, 5])).back(3).run();
    // The engine starts at the last step, so the vertex step is first
    // reached by a pull, with no upstream token and so no trail.
    assert_eq!(out, vec![QueryResult::Empty, QueryResult::Empty]);
}

#[test]
fn add_edge_to_absent_vertex_changes_nothing() {
    let mut g = Graph::new();
    g.add_vertex(named("a")).unwrap();
    assert_eq!(g.add_edge(1, 9, "x".into(), vec![]), Err(GraphError::VertexNotFound));
    assert_eq!(g.add_edge(9, 1, "x".into(), vec![]), Err(GraphError::VertexNotFound));
    assert_eq!(g.edges.len(), 0);
    assert_eq!(g.autoid, 1);
    assert_eq!(g.get_vertex(&1).unwrap().e_out.len(), 0);
    assert_eq!(g.add_vertex(named("b")), Ok(2));
}

#[test]
fn add_edge_lists_the_edge_at_both_ends() {
    let mut g = Graph::new();
    g.add_vertex(named("a")).unwrap();
    g.add_vertex(named("b")).unwrap();
    let e = g.add_edge(1, 2, "x".into(), vec![]).unwrap();
    assert_eq!(e, 3);
    assert_eq!(g.get_vertex(&1).unwrap().e_out, vec![3]);
    assert_eq!(g.get_vertex(&2).unwrap().e_in, vec![3]);
    let edge = g.edges.get(&3).unwrap();
    assert_eq!((edge.v_out, edge.v_in, edge.id), (1, 2, 3));
    assert_eq!(edge.label, "x");
    assert_eq!(g.get_out_edges(&1).len(), 1);
    assert_eq!(g.get_in_edges(&1).len(), 0);
    assert_eq!(g.get_in_edges(&42).len(), 0);
}

#[test]
fn remove_edge_takes_it_out_of_both_lists() {
    let mut g = shared();
    assert_eq!(g.remove_edge(6), Ok(()));
    assert_eq!(g.edges.len(), 3);
    assert_eq!(g.get_vertex(&1).unwrap().e_out, vec![5]);
    assert_eq!(g.get_vertex(&3).unwrap().e_in, vec![8]);
    assert_eq!(g.get_vertex(&2).unwrap().e_in, vec![5, 7]);
    assert_eq!(g.remove_edge(6), Err(GraphError::EdgeNotFound));
    assert_eq!(g.remove_edge(1), Err(GraphError::EdgeNotFound));
}

#[test]
fn remove_vertex_removes_incident_edges_and_self_loops() {
    let mut g = shared();
    g.add_edge(2, 2, "self".into(), vec![]).unwrap();
    assert_eq!(g.remove_vertex(2), Ok(()));
    assert_eq!(g.vertices.len(), 3);
    assert_eq!(g.edges.len(), 2);
    for e in g.edges.values() {
        assert!(e.v_in != 2 && e.v_out != 2);
    }
    for v in g.vertices.values() {
        for e in v.e_in.iter().chain(v.e_out.iter()) {
            assert!(g.edges.contains_key(e));
        }
    }
    assert_eq!(g.remove_vertex(2), Err(GraphError::VertexNotFound));
    assert!(g.get_vertex(&2).is_none());
}

#[test]
fn ids_are_never_reused() {
    let mut g = Graph::new();
    let a = g.add_vertex(named("a")).unwrap();
    g.remove_vertex(a).unwrap();
    assert_eq!(g.add_vertex(named("b")), Ok(2));
}

#[test]
fn search_by_props() {
    let mut g = Graph::new();
    g.add_vertex(vec![("k".into(), Value::Int(1)), ("j".into(), Value::Bool(true))]).unwrap();
    g.add_vertex(vec![("k".into(), Value::Int(1))]).unwrap();
    g.add_vertex(vec![("k".into(), Value::Int(2))]).unwrap();
    let mut all = g.search_verticies(&VertexFilter::Props(vec![]));
    all.sort();
    assert_eq!(all, vec![1, 2, 3]);
    let mut one = g.search_verticies(&VertexFilter::Props(vec![("k".into(), Value::Int(1))]));
    one.sort();
    assert_eq!(one, vec![1, 2]);
    let two = g.search_verticies(&VertexFilter::Props(vec![
        ("k".into(), Value::Int(1)),
        ("j".into(), Value::Bool(true)),
    ]));
    assert_eq!(two, vec![1]);
    assert_eq!(g.search_verticies(&VertexFilter::Id(9)), vec![9]);
    assert_eq!(g.search_verticies(&VertexFilter::Ids(vec![9, 9, 1])), vec![9, 9, 1]);
    let mut every = g.search_verticies(&VertexFilter::All);
    every.sort();
    assert_eq!(every, vec![1, 2, 3]);
}

#[test]
fn get_verticies_skips_absent_ids() {
    let g = family();
    let vs = g.get_verticies(&vec![2, 40, 5]);
    assert_eq!(vs.iter().map(|v| v.id).collect::<Vec<u64>>(), vec![2, 5]);
}

#[test]
fn value_equality_is_structural() {
    let a = Value::Object(vec![("x".into(), Value::Int(1)), ("y".into(), text("z"))]);
    let b = Value::Object(vec![("y".into(), text("z")), ("x".into(), Value::Int(1))]);
    let c = Value::Object(vec![("x".into(), Value::Int(1))]);
    assert_eq!(a, b);
    assert_ne!(a, c);
    assert_ne!(c, a);
    assert!(values_equal(&a, &copy_value(&a)));
    let n = 0.5f64.to_bits();
    assert_eq!(Value::Float(n), Value::Float(0.5f64.to_bits()));
    assert_ne!(Value::Float(0.0f64.to_bits()), Value::Float((-0.0f64).to_bits()));
    let arr = Value::Array(vec![Value::Null, Value::Bool(false), Value::Array(vec![])]);
    assert_eq!(arr, copy_value(&arr));
    assert_ne!(arr, Value::Array(vec![Value::Null, Value::Bool(true), Value::Array(vec![])]));
    assert_ne!(Value::Null, Value::Bool(false));
    assert_ne!(Value::Int(1), Value::Int(2));
}

#[test]
fn properties_filter_needs_every_entry() {
    let p: Properties = vec![("a".into(), Value::Int(1)), ("b".into(), text("x"))];
    assert!(properties_filter(&p, &vec![]));
    assert!(properties_filter(&p, &vec![("b".into(), text("x"))]));
    assert!(!properties_filter(&p, &vec![("b".into(), text("y"))]));
    assert!(!properties_filter(&p, &vec![("c".into(), Value::Null)]));
}

#[test]
fn negative_take_never_stops() {
    let g = family();
    let mut q = Query::new(&g, VertexFilter::All);
    assert_eq!(q.take(-1).run(), vertices(&[6, 5, 4, 3, 2, 1]));
}

#[test]
fn merge_with_several_labels_pops_last_first() {
    let g = family();
    let mut q = Query::new(&g, VertexFilter::Id(1));
    let out = q.as_(1).merge(vec![1, 1, 2]).run();
    assert_eq!(out, vertices(&[1, 1]));
}

#[test]
fn second_unique_lets_every_token_through() {
    let g = shared();
    let mut q = Query::new(&g, VertexFilter::All);
    let out = q.out(EdgeFilter::All).unique().unique().run();
    assert_eq!(out, vertices(&[3, 2]));
    match &q.program[q.program.len() - 2] {
        dagoba::Pipe::Unique(u) => assert_eq!(u.seen.len(), out.len()),
        _ => panic!("expected a unique step"),
    }
}

#[test]
fn objects_compare_as_maps_by_first_entry() {
    let one = Value::Object(vec![("k".into(), Value::Int(1))]);
    let two = Value::Object(vec![("k".into(), Value::Int(1)), ("k".into(), Value::Int(2))]);
    assert_eq!(one, two);
    assert_eq!(two, one);
    let other = Value::Object(vec![("k".into(), Value::Int(2)), ("k".into(), Value::Int(1))]);
    assert_ne!(one, other);
    assert_ne!(other, one);
}
