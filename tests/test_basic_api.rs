use dagoba::{EdgeFilter, Graph, Properties, Query, QueryResult, Value, VertexFilter};

fn props(entries: &[(&str, &str)]) -> Properties {
    entries.iter().map(|(k, v)| (k.to_string(), Value::String(v.to_string()))).collect()
}

#[test]
fn simple_graph() {
    // should build an empty graph
    let mut graph = Graph::new();
    assert_eq!(graph.vertices.len(), 0);
    assert_eq!(graph.edges.len(), 0);

    // should add a vertex v1
    let v1 = graph.add_vertex(props(&[("name", "foo"), ("type", "banana")])).unwrap();

    assert_eq!(graph.vertices.len(), 1);
    assert_eq!(graph.edges.len(), 0);

    // should add another vertex v2
    let v2 = graph.add_vertex(props(&[("name", "bar"), ("type", "orange")])).unwrap();

    assert_eq!(graph.vertices.len(), 2);
    assert_eq!(graph.edges.len(), 0);

    // should add an edge v1->v2
    let _ = graph.add_edge(v1, v2, "fruitier".into(), vec![]);

    assert_eq!(graph.vertices.len(), 2);
    assert_eq!(graph.edges.len(), 1);

    // g.v(1) should return v1
    let mut q = Query::new(&graph, VertexFilter::Id(v1));
    let out = q.run();

    assert_eq!(out, vec![QueryResult::Vertex(v1)]);

    // g.v(1).out() should follow out edge v1->v2 and return v2
    let mut q = Query::new(&graph, VertexFilter::Id(v1));
    let out = q.out(EdgeFilter::All).run();

    assert_eq!(out, vec![QueryResult::Vertex(v2)]);

    // g.v(2).in() should follow in edge v2<-v1 and return v1
    let mut q = Query::new(&graph, VertexFilter::Id(v2));
    let out = q.in_(EdgeFilter::All).run();

    assert_eq!(out, vec![QueryResult::Vertex(v1)]);

    // g.v(2).out() should follow no edge and return nothing
    let mut q = Query::new(&graph, VertexFilter::Id(v2));
    let out = q.out(EdgeFilter::All).run();

    assert_eq!(out, vec![]);
}

#[test]
fn bigger_graph() {
    // should build the graph
    let mut graph = Graph::new();

    let names = vec!["Fred", "Bob", "Tom", "Dick", "Harry", "Lucy"];

    let v_ids: Vec<u64> =
        names.iter().map(|n| graph.add_vertex(props(&[("name", n)])).unwrap()).collect();

    let edges = vec![
        (0, 1, "son"),
        (1, 2, "son"),
        (1, 3, "son"),
        (1, 4, "son"),
        (1, 5, "daughter"),
        (2, 3, "brother"),
        (3, 4, "brother"),
        (4, 2, "brother"),
        (2, 4, "brother"),
        (3, 2, "brother"),
        (4, 3, "brother"),
        (2, 5, "sister"),
        (3, 5, "sister"),
        (4, 5, "sister"),
        (5, 2, "brother"),
        (5, 3, "brother"),
        (5, 4, "brother"),
    ];
    for (a, b, l) in &edges {
        let _ = graph.add_edge(v_ids[*a], v_ids[*b], l.to_string(), vec![]);
    }

    assert_eq!(graph.vertices.len(), 6);
    assert_eq!(graph.edges.len(), 17);

    // g.v(1).out().out() should get all grandkids
    let mut q = Query::new(&graph, VertexFilter::Id(v_ids[0]));
    let out = q.out(EdgeFilter::All).out(EdgeFilter::All).run();

    assert_eq!(
        out,
        vec![
            QueryResult::Vertex(v_ids[5]),
            QueryResult::Vertex(v_ids[4]),
            QueryResult::Vertex(v_ids[3]),
            QueryResult::Vertex(v_ids[2]),
        ]
    );

    // g.v(1).out().in().out() means 'fred is his son's father'
    let mut q = Query::new(&graph, VertexFilter::Id(v_ids[0]));
    let out = q.out(EdgeFilter::All).in_(EdgeFilter::All).out(EdgeFilter::All).run();

    assert_eq!(out, vec![QueryResult::Vertex(v_ids[1])]);

    // g.v(1).out().out('daughter') should get the granddaughters
    let mut q = Query::new(&graph, VertexFilter::Id(v_ids[0]));
    let out = q.out(EdgeFilter::All).out(EdgeFilter::Label("daughter".into())).run();

    assert_eq!(out, vec![QueryResult::Vertex(v_ids[5])]);

    // g.v(3).out('sister') means 'who is tom's sister?'
    let mut q = Query::new(&graph, VertexFilter::Id(v_ids[2]));
    let out = q.out(EdgeFilter::Label("sister".into())).run();

    assert_eq!(out, vec![QueryResult::Vertex(v_ids[5])]);

    // g.v(3).out().in('son').in('son') means 'who is tom's brother's grandfather?'
    let mut q = Query::new(&graph, VertexFilter::Id(v_ids[2]));
    let out = q
        .out(EdgeFilter::All)
        .in_(EdgeFilter::Label("son".into()))
        .in_(EdgeFilter::Label("son".into()))
        .run();

    assert_eq!(out, vec![QueryResult::Vertex(v_ids[0]), QueryResult::Vertex(v_ids[0])]);

    // g.v(3).out().in('son').in('son').unique() should return the unique grandfather
    let mut q = Query::new(&graph, VertexFilter::Id(v_ids[2]));
    let out = q
        .out(EdgeFilter::All)
        .in_(EdgeFilter::Label("son".into()))
        .in_(EdgeFilter::Label("son".into()))
        .unique()
        .run();

    assert_eq!(out, vec![QueryResult::Vertex(v_ids[0])]);
}
