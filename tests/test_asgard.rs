use std::collections::HashMap;

use dagoba::{
    get_property, EdgeFilter, Graph, Properties, Query, QueryResult, Value, Vertex, VertexFilter,
};

fn text(s: &str) -> Value {
    Value::String(s.to_string())
}

#[test]
fn asgard() {
    /////////////////////////////
    // 'Construct a graph'
    /////////////////////////////

    // should build an empty graph
    let mut graph = Graph::new();
    assert_eq!(graph.vertices.len(), 0);
    assert_eq!(graph.edges.len(), 0);

    // should add the Aesir
    let aesir = vec![
        ["Auðumbla", "F"], ["Ymir", "M"], ["Þrúðgelmir", "M"], ["Bergelmir", "M"], ["Búri", "M"],
        ["Borr", "M"], ["Bölþorn", "M"], ["Bestla", "F"], ["Odin", "M"], ["Vili", "M"], ["Vé", "M"],
        ["Hœnir", "M"], ["Fjörgynn", "M"], ["Frigg", "F"], ["Annar", "M"], ["Jörð", "F"],
        ["Nepr", "M"], ["Gríðr", "F"], ["Forseti", "M"], ["Rindr", "F"], ["Dellingr", "M"],
        ["Nótt", "F"], ["Nanna", "F"], ["Baldr", "M"], ["Höðr", "M"], ["Hermóðr", "M"],
        ["Bragi", "M"], ["Iðunn", "F"], ["Víðarr", "M"], ["Váli", "M"], ["Gefjon", "F"],
        ["Ullr", "M"], ["Týr", "M"], ["Dagr", "M"], ["Thor", "M"], ["Sif", "F"],
        ["Járnsaxa", "F"], ["Nörfi", "M"], ["Móði", "M"], ["Þrúðr", "F"], ["Magni", "M"],
        ["Ægir", "M"], ["Rán", "F"], ["Nine sisters", "F"], ["Heimdallr", "M"],
    ];

    let mut name_idx: HashMap<&str, u64> = HashMap::new();

    for x in &aesir {
        let p: Properties = vec![
            ("species".to_string(), text("Aesir")),
            ("name".to_string(), text(x[0])),
            ("gender".to_string(), text(if x[1] == "M" { "male" } else { "female" })),
        ];
        let id = graph.add_vertex(p).unwrap();
        name_idx.insert(x[0], id);
    }

    assert_eq!(graph.vertices.len(), aesir.len());
    assert_eq!(graph.edges.len(), 0);

    // should add the Vanir
    let vanir = vec![
        "Alvaldi", "Þjazi", "Iði", "Gangr", "Fárbauti", "Nál", "Gymir", "Aurboða", "Njörðr",
        "Skaði", "Sigyn", "Loki", "Angrboða", "Býleistr", "Helblindi", "Beli", "Gerðr", "Freyr",
        "Freyja", "Óðr", "Vali", "Narfi", "Hyrrokkin", "Fenrir", "Jörmungandr", "Hel", "Fjölnir",
        "Hnoss", "Gersemi", "Hati Hróðvitnisson", "Sköll", "Mánagarmr",
    ];

    for x in &vanir {
        let p: Properties =
            vec![("species".to_string(), text("Vanir")), ("name".to_string(), text(x))];
        let id = graph.add_vertex(p).unwrap();
        name_idx.insert(x, id);
    }

    assert_eq!(graph.vertices.len(), vanir.len() + aesir.len());
    assert_eq!(graph.edges.len(), 0);

    // should add some edges
    let relationships = vec![
        ["Ymir", "Þrúðgelmir"],
        ["Þrúðgelmir", "Bergelmir"],
        ["Bergelmir", "Bölþorn"],
        ["Bölþorn", "Bestla"],
        ["Bestla", "Odin"],
        ["Bestla", "Vili"],
        ["Bestla", "Vé"],
        ["Auðumbla", "Búri"],
        ["Búri", "Borr"],
        ["Borr", "Odin"],
        ["Borr", "Vili"],
        ["Borr", "Vé"],
        ["Ægir", "Nine sisters"],
        ["Rán", "Nine sisters"],
        ["Nine sisters", "Heimdallr"],
        ["Fjörgynn", "Frigg"],
        ["Frigg", "Baldr"],
        ["Odin", "Baldr"],
        ["Nepr", "Nanna"],
        ["Nanna", "Forseti"],
        ["Baldr", "Forseti"],
        ["Nörfi", "Nótt"],
        ["Nótt", "Dagr"],
        ["Nótt", "Jörð"],
        ["Annar", "Jörð"],
        ["Jörð", "Thor"],
        ["Odin", "Thor"],
        ["Thor", "Móði"],
        ["Thor", "Þrúðr"],
        ["Sif", "Móði"],
        ["Sif", "Þrúðr"],
        ["Thor", "Magni"],
        ["Járnsaxa", "Magni"],
    ];

    for x in &relationships {
        let _ = graph.add_edge(
            *name_idx.get(x[1]).unwrap(),
            *name_idx.get(x[0]).unwrap(),
            "parent".into(),
            vec![],
        );
    }

    assert_eq!(graph.vertices.len(), vanir.len() + aesir.len());
    assert_eq!(graph.edges.len(), relationships.len());

    /////////////////////////////
    // Queries from the chapter
    /////////////////////////////

    let thor = *name_idx.get("Thor").unwrap();
    let name = "name".to_string();

    // g.v('Thor') should be Thor
    let mut q = Query::new(&graph, VertexFilter::Id(thor));
    let out = q.run();

    let result: Vec<&Vertex> = out
        .iter()
        .filter_map(|r| {
            graph.get_vertex(match r {
                QueryResult::Vertex(id) => id,
                _ => &0u64,
            })
        })
        .collect();

    assert_eq!(get_property(&result[0].properties, &name), Some(&text("Thor")));
    assert_eq!(
        get_property(&result[0].properties, &"species".to_string()),
        Some(&text("Aesir"))
    );

    // g.v('Thor', 'Odin') should be Thor and Odin
    let odin = *name_idx.get("Odin").unwrap();
    let mut q = Query::new(&graph, VertexFilter::Ids(vec![thor, odin]));
    let out = q.run();

    assert_eq!(out.len(), 2);
    assert!(out.contains(&QueryResult::Vertex(thor)));
    assert!(out.contains(&QueryResult::Vertex(odin)));

    // g.v({species: 'Aesir'}) should be all Aesir
    let mut q =
        Query::new(&graph, VertexFilter::Props(vec![("species".to_string(), text("Aesir"))]));
    let out = q.run();

    assert_eq!(out.len(), aesir.len());

    // g.v() should be all Aesir and Vanir
    let mut q = Query::new(&graph, VertexFilter::All);
    let out = q.run();

    assert_eq!(out.len(), aesir.len() + vanir.len());

    // g.v('Thor').in().out() should contain several copies of Thor, and his wives
    let mut q = Query::new(&graph, VertexFilter::Id(thor));
    let out1 = q.in_(EdgeFilter::All).out(EdgeFilter::All).run();

    assert!(out1.contains(&QueryResult::Vertex(*name_idx.get("Járnsaxa").unwrap())));
    assert!(out1.contains(&QueryResult::Vertex(*name_idx.get("Sif").unwrap())));
    assert!(out1.contains(&QueryResult::Vertex(thor)));

    let mut q = Query::new(&graph, VertexFilter::Id(thor));
    let out2 = q.in_(EdgeFilter::All).out(EdgeFilter::All).unique().run();

    assert!(out2.contains(&QueryResult::Vertex(thor)));

    assert!((out1.len() - out2.len()) > 0);

    // g.v('Thor').in().in().out().out() should be the empty array,
    // because we don't know Thor's grandchildren
    let mut q = Query::new(&graph, VertexFilter::Id(thor));
    let out = q
        .in_(EdgeFilter::All)
        .in_(EdgeFilter::All)
        .out(EdgeFilter::All)
        .out(EdgeFilter::All)
        .run();

    assert_eq!(out.len(), 0);

    // g.v('Thor').out().in() should contain several copies of Thor, and his sibling
    let mut q = Query::new(&graph, VertexFilter::Id(thor));
    let out1 = q.out(EdgeFilter::All).in_(EdgeFilter::All).run();

    assert!(out1.contains(&QueryResult::Vertex(*name_idx.get("Baldr").unwrap())));
    assert!(out1.contains(&QueryResult::Vertex(thor)));

    let mut q = Query::new(&graph, VertexFilter::Id(thor));
    let out2 = q.out(EdgeFilter::All).in_(EdgeFilter::All).unique().run();

    assert!((out1.len() - out2.len()) > 0);

    // filter functions should filter
    let mut q = Query::new(&graph, VertexFilter::Id(thor));
    let out = q
        .out(EdgeFilter::All)
        .in_(EdgeFilter::All)
        .unique()
        .filter(VertexFilter::Fn(Box::new(|v: &Vertex| {
            get_property(&v.properties, &"name".to_string()) != Some(&text("Thor"))
        })))
        .run();

    assert!(out.contains(&QueryResult::Vertex(*name_idx.get("Baldr").unwrap())));
    assert!(!out.contains(&QueryResult::Vertex(thor)));
    assert_eq!(out.len(), 1);
}
