use dust::data_sources::node::{Node, NodeType, ProviderVisibility, UnknownVisibility};
use dust::search_stores::search_store::{
    core_content_nodes, delete_node_outcome, filter_clause, search_page, ChildrenBucket,
    DatasourceViewFilter, NodesSearchOptions, SearchError, TitleHit, DEFAULT_PAGE_SIZE,
    MAX_PAGE_SIZE, NODES_INDEX_NAME,
};

fn node(id: &str, parent: Option<&str>) -> Node {
    Node::new(
        "ds",
        "internal",
        id,
        NodeType::Document,
        17,
        "a title",
        "text/plain",
        Some(ProviderVisibility::Public),
        parent.map(|p| p.to_string()),
        vec![id.to_string(), "root".to_string()],
        Some("https://example.org".to_string()),
    )
}

#[test]
fn a_node_gives_back_what_it_was_made_of() {
    let n = node("n1", Some("up"));
    assert_eq!(n.data_source_id(), "ds");
    assert_eq!(n.data_source_internal_id(), "internal");
    assert_eq!(n.node_id(), "n1");
    assert_eq!(n.node_type(), NodeType::Document);
    assert_eq!(n.timestamp(), 17);
    assert_eq!(n.title(), "a title");
    assert_eq!(n.mime_type(), "text/plain");
    assert_eq!(n.parents(), &vec!["n1".to_string(), "root".to_string()]);
    assert_eq!(n.provider_visibility, Some(ProviderVisibility::Public));
    assert_eq!(n.parent_id, Some("up".to_string()));
    assert_eq!(n.source_url, Some("https://example.org".to_string()));
}

#[test]
fn the_unique_id_joins_the_internal_id_and_the_node_id() {
    assert_eq!(node("n1", None).unique_id(), "internal__n1");
    let empty = Node::new("", "", "", NodeType::Table, 0, "", "", None, None, vec![], None);
    assert_eq!(empty.unique_id(), "__");
}

#[test]
fn a_node_becomes_a_folder_with_its_id() {
    let folder = node("n1", Some("up")).into_folder();
    assert_eq!(folder.data_source_id(), "ds");
    assert_eq!(folder.data_source_internal_id, "internal");
    assert_eq!(folder.folder_id(), "n1");
    assert_eq!(folder.timestamp(), 17);
    assert_eq!(folder.title(), "a title");
    assert_eq!(folder.parent_id, Some("up".to_string()));
    assert_eq!(folder.parents(), &vec!["n1".to_string(), "root".to_string()]);
    assert_eq!(folder.mime_type, "text/plain");
    assert_eq!(folder.source_url, Some("https://example.org".to_string()));
    assert_eq!(folder.provider_visibility, Some(ProviderVisibility::Public));
}

#[test]
fn node_types_and_visibilities_have_names() {
    assert_eq!(NodeType::Document.to_string(), "Document");
    assert_eq!(NodeType::Table.to_string(), "Table");
    assert_eq!(NodeType::Folder.to_string(), "Folder");
    assert_eq!(ProviderVisibility::Private.to_string(), "private");
    assert_eq!(ProviderVisibility::Public.to_string(), "public");
    assert_eq!(ProviderVisibility::from_str("private"), Ok(ProviderVisibility::Private));
    assert_eq!(ProviderVisibility::from_str("public"), Ok(ProviderVisibility::Public));
    assert_eq!(ProviderVisibility::from_str("Public"), Err(UnknownVisibility));
    assert_eq!(ProviderVisibility::from_str(""), Err(UnknownVisibility));
}

#[test]
fn a_search_without_options_takes_ten_nodes_from_the_start() {
    assert_eq!(NodesSearchOptions::default(), NodesSearchOptions { limit: Some(10), offset: Some(0) });
    assert_eq!(search_page(None), Ok((0, 10)));
    assert_eq!(MAX_PAGE_SIZE, 250);
    assert_eq!(DEFAULT_PAGE_SIZE, 100);
    assert_eq!(NODES_INDEX_NAME, "core.data_sources_nodes");
}

#[test]
fn options_without_a_limit_take_a_hundred_nodes() {
    let options = NodesSearchOptions { limit: None, offset: None };
    assert_eq!(search_page(Some(options)), Ok((0, 100)));
    let options = NodesSearchOptions { limit: None, offset: Some(40) };
    assert_eq!(search_page(Some(options)), Ok((40, 100)));
}

#[test]
fn a_page_above_the_largest_is_refused() {
    let options = NodesSearchOptions { limit: Some(250), offset: Some(3) };
    assert_eq!(search_page(Some(options)), Ok((3, 250)));
    let options = NodesSearchOptions { limit: Some(251), offset: Some(3) };
    assert_eq!(search_page(Some(options)), Err(SearchError::LimitTooLarge(251)));
}

#[test]
fn a_node_that_the_index_does_not_have_counts_as_deleted() {
    assert_eq!(delete_node_outcome(true, false), Ok(()));
    assert_eq!(delete_node_outcome(false, true), Ok(()));
    assert_eq!(delete_node_outcome(false, false), Err(SearchError::Refused));
}

#[test]
fn a_filter_without_parents_asks_for_the_data_source_alone() {
    let clause = filter_clause(DatasourceViewFilter {
        data_source_id: "ds".to_string(),
        view_filter: vec![],
    });
    assert_eq!(clause.data_source_id, "ds");
    assert_eq!(clause.parents, None);
    let clause = filter_clause(DatasourceViewFilter {
        data_source_id: "ds".to_string(),
        view_filter: vec!["a".to_string(), "b".to_string()],
    });
    assert_eq!(clause.parents, Some(vec!["a".to_string(), "b".to_string()]));
}

fn bucket(parent: Option<&str>, count: Option<u64>) -> ChildrenBucket {
    ChildrenBucket { parent_id: parent.map(|p| p.to_string()), doc_count: count }
}

fn hit(id: Option<&str>, title: Option<&str>) -> TitleHit {
    TitleHit { node_id: id.map(|p| p.to_string()), title: title.map(|p| p.to_string()) }
}

#[test]
fn found_nodes_get_their_children_and_the_title_of_their_parent() {
    let nodes = vec![node("a", Some("p")), node("b", None), node("c", Some("unknown")), node("d", Some("q"))];
    let buckets = vec![
        bucket(Some("a"), Some(3)),
        bucket(Some("b"), Some(0)),
        bucket(None, Some(9)),
        bucket(Some("c"), None),
        bucket(Some("d"), Some(1)),
        bucket(Some("d"), Some(0)),
    ];
    let hits = vec![
        hit(Some("p"), Some("the parent")),
        hit(Some("q"), None),
        hit(None, Some("nobody")),
        hit(Some("q"), Some("first")),
        hit(Some("q"), Some("second")),
    ];
    let found = core_content_nodes(nodes, &buckets, &hits).unwrap();
    let seen: Vec<(String, bool, String)> = found
        .iter()
        .map(|n| (n.base_info.node_id().to_string(), n.has_children, n.parent_title.clone()))
        .collect();
    assert_eq!(
        seen,
        vec![
            ("a".to_string(), true, "the parent".to_string()),
            ("b".to_string(), false, "".to_string()),
            ("c".to_string(), false, "".to_string()),
            ("d".to_string(), false, "second".to_string()),
        ]
    );
}

#[test]
fn more_nodes_than_a_page_holds_are_refused() {
    let exactly: Vec<Node> = (0..250).map(|i| node(&i.to_string(), None)).collect();
    let found = core_content_nodes(exactly, &vec![], &vec![]).unwrap();
    assert_eq!(found.len(), 250);
    assert_eq!(found[0].base_info.node_id(), "0");
    assert_eq!(found[249].base_info.node_id(), "249");
    let too_many: Vec<Node> = (0..251).map(|i| node(&i.to_string(), None)).collect();
    assert_eq!(
        core_content_nodes(too_many, &vec![], &vec![]).err(),
        Some(SearchError::TooManyNodes(251))
    );
    assert!(core_content_nodes(vec![], &vec![], &vec![]).unwrap().is_empty());
}
