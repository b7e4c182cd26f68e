//! The search over nodes: how a request is paged and filtered, and how the
//! nodes that were found are completed with what the index says of their
//! children and parents.

use crate::data_sources::node::Node;
use vstd::prelude::*;

verus! {

/// The largest page of a search.
pub const MAX_PAGE_SIZE: u64 = 250;

/// The page size of a search that names none.
pub const DEFAULT_PAGE_SIZE: u64 = 100;

/// The index of the nodes.
pub const NODES_INDEX_NAME: &'static str = "core.data_sources_nodes";

#[derive(Clone, Copy, PartialEq, Eq, Structural, Debug)]
pub struct NodesSearchOptions {
    pub limit: Option<u64>,
    pub offset: Option<u64>,
}

impl Default for NodesSearchOptions {
    fn default() -> (options: Self)
        ensures
            options == (NodesSearchOptions { limit: Some(10), offset: Some(0) }),
    {
        NodesSearchOptions { limit: Some(10), offset: Some(0) }
    }
}

/// A data source with the parents under which to look; without parents, all
/// of it.
#[derive(Debug)]
pub struct DatasourceViewFilter {
    pub data_source_id: String,
    pub view_filter: Vec<String>,
}

/// A node with what the index says around it.
#[derive(Debug)]
pub struct CoreContentNode {
    pub base_info: Node,
    pub has_children: bool,
    pub parent_title: String,
}

impl CoreContentNode {
    pub fn new(base_info: Node, has_children: bool, parent_title: String) -> (node: Self)
        ensures
            node.base_info == base_info,
            node.has_children == has_children,
            node.parent_title == parent_title,
    {
        CoreContentNode { base_info, has_children, parent_title }
    }
}

#[derive(Clone, Copy, PartialEq, Eq, Structural, Debug)]
pub enum SearchError {
    /// The search asks for a page of this size, above `MAX_PAGE_SIZE`.
    LimitTooLarge(u64),
    /// So many nodes were found, above `MAX_PAGE_SIZE`.
    TooManyNodes(usize),
    /// The index refused the request.
    Refused,
}

/// A store that searches nodes. What its methods do is up to the store.
pub trait SearchStore {
    fn search_nodes(
        &self,
        query: String,
        filter: Vec<DatasourceViewFilter>,
        options: Option<NodesSearchOptions>,
    ) -> Result<Vec<CoreContentNode>, SearchError>;

    fn index_node(&self, node: Node) -> Result<(), SearchError>;

    fn delete_node(&self, node: Node) -> Result<(), SearchError>;

    fn delete_data_source_nodes(&self, data_source_id: &str) -> Result<(), SearchError>;
}

/// The options of a search that gives none.
pub open spec fn options_or_default(options: Option<NodesSearchOptions>) -> NodesSearchOptions {
    match options {
        Some(given) => given,
        None => NodesSearchOptions { limit: Some(10), offset: Some(0) },
    }
}

/// The size of the page that the options ask for.
pub open spec fn page_size(options: NodesSearchOptions) -> u64 {
    match options.limit {
        Some(limit) => limit,
        None => DEFAULT_PAGE_SIZE,
    }
}

/// The position at which the page starts.
pub open spec fn page_start(options: NodesSearchOptions) -> u64 {
    match options.offset {
        Some(offset) => offset,
        None => 0,
    }
}

/// The page of a search: where it starts and how many nodes it holds. A
/// page above `MAX_PAGE_SIZE` is refused.
pub fn search_page(options: Option<NodesSearchOptions>) -> (result: Result<(u64, u64), SearchError>)
    ensures
        result == if page_size(options_or_default(options)) > MAX_PAGE_SIZE {
            Err::<(u64, u64), SearchError>(
                SearchError::LimitTooLarge(page_size(options_or_default(options))),
            )
        } else {
            Ok::<(u64, u64), SearchError>(
                (page_start(options_or_default(options)), page_size(options_or_default(options))),
            )
        },
{
    let options = match options {
        Some(given) => given,
        None => NodesSearchOptions::default(),
    };
    let size = match options.limit {
        Some(limit) => limit,
        None => DEFAULT_PAGE_SIZE,
    };
    if size > MAX_PAGE_SIZE {
        return Err(SearchError::LimitTooLarge(size));
    }
    let start = match options.offset {
        Some(offset) => offset,
        None => 0,
    };
    Ok((start, size))
}

/// What the index answered to the deletion of a node: a node that the index
/// does not have counts as deleted.
pub fn delete_node_outcome(success: bool, not_found: bool) -> (result: Result<(), SearchError>)
    ensures
        result == if success || not_found {
            Ok::<(), SearchError>(())
        } else {
            Err::<(), SearchError>(SearchError::Refused)
        },
{
    if success || not_found {
        Ok(())
    } else {
        Err(SearchError::Refused)
    }
}

/// How many nodes the index counts under a parent. Either field may be
/// missing from what the index sent.
#[derive(Debug)]
pub struct ChildrenBucket {
    pub parent_id: Option<String>,
    pub doc_count: Option<u64>,
}

/// The title of a node that is the parent of a found node. Either field may
/// be missing from what the index sent.
#[derive(Debug)]
pub struct TitleHit {
    pub node_id: Option<String>,
    pub title: Option<String>,
}

/// Whether the buckets count children under `node_id`. Buckets that miss a
/// field say nothing; of several buckets for one node the last one counts.
pub open spec fn has_children_in(buckets: Seq<ChildrenBucket>, node_id: Seq<char>) -> bool
    decreases buckets.len(),
{
    if buckets.len() == 0 {
        false
    } else {
        let bucket = buckets.last();
        if bucket.parent_id is Some && bucket.doc_count is Some && bucket.parent_id->Some_0@
            == node_id {
            bucket.doc_count->Some_0 > 0
        } else {
            has_children_in(buckets.drop_last(), node_id)
        }
    }
}

/// The title that the hits give for `node_id`, if any. Hits that miss a
/// field say nothing; of several hits for one node the last one counts.
pub open spec fn title_in(hits: Seq<TitleHit>, node_id: Seq<char>) -> Option<Seq<char>>
    decreases hits.len(),
{
    if hits.len() == 0 {
        None
    } else {
        let hit = hits.last();
        if hit.node_id is Some && hit.title is Some && hit.node_id->Some_0@ == node_id {
            Some(hit.title->Some_0@)
        } else {
            title_in(hits.drop_last(), node_id)
        }
    }
}

/// The title of the parent of a node: empty for a node without a parent and
/// for a parent of which the hits say nothing.
pub open spec fn parent_title_of(hits: Seq<TitleHit>, parent_id: Option<String>) -> Seq<char> {
    match parent_id {
        Some(id) => match title_in(hits, id@) {
            Some(title) => title,
            None => Seq::empty(),
        },
        None => Seq::empty(),
    }
}

fn has_children(buckets: &Vec<ChildrenBucket>, node_id: &String) -> (found: bool)
    ensures
        found == has_children_in(buckets@, node_id@),
{
    let mut found = false;
    let mut i: usize = 0;
    assert(buckets@.take(0) =~= Seq::<ChildrenBucket>::empty());
    while i < buckets.len()
        invariant
            i <= buckets@.len(),
            found == has_children_in(buckets@.take(i as int), node_id@),
        decreases buckets@.len() - i,
    {
        proof {
            assert(buckets@.take(i + 1).drop_last() =~= buckets@.take(i as int));
            assert(buckets@.take(i + 1).last() == buckets@[i as int]);
        }
        match (&buckets[i].parent_id, buckets[i].doc_count) {
            (Some(parent_id), Some(doc_count)) => {
                if *parent_id == *node_id {
                    found = doc_count > 0;
                }
            },
            _ => {},
        }
        i += 1;
    }
    assert(buckets@.take(i as int) =~= buckets@);
    found
}

fn parent_title(hits: &Vec<TitleHit>, parent_id: &Option<String>) -> (title: String)
    ensures
        title@ == parent_title_of(hits@, *parent_id),
{
    let wanted = match parent_id {
        Some(id) => id,
        None => {
            return String::new();
        },
    };
    let mut title = String::new();
    let ghost mut found: Option<Seq<char>> = None;
    let mut i: usize = 0;
    assert(hits@.take(0) =~= Seq::<TitleHit>::empty());
    while i < hits.len()
        invariant
            i <= hits@.len(),
            found == title_in(hits@.take(i as int), wanted@),
            title@ == match found {
                Some(t) => t,
                None => Seq::empty(),
            },
        decreases hits@.len() - i,
    {
        proof {
            assert(hits@.take(i + 1).drop_last() =~= hits@.take(i as int));
            assert(hits@.take(i + 1).last() == hits@[i as int]);
        }
        match (&hits[i].node_id, &hits[i].title) {
            (Some(node_id), Some(hit_title)) => {
                if *node_id == *wanted {
                    title = hit_title.clone();
                    proof {
                        found = Some(hit_title@);
                    }
                }
            },
            _ => {},
        }
        i += 1;
    }
    assert(hits@.take(i as int) =~= hits@);
    title
}

/// The found nodes, each with whether the index counts children under it
/// and with the title of its parent. More than `MAX_PAGE_SIZE` nodes are
/// refused.
pub fn core_content_nodes(nodes: Vec<Node>, buckets: &Vec<ChildrenBucket>, hits: &Vec<TitleHit>) -> (result:
    Result<Vec<CoreContentNode>, SearchError>)
    ensures
        nodes@.len() > MAX_PAGE_SIZE ==> result == Err::<Vec<CoreContentNode>, SearchError>(
            SearchError::TooManyNodes(nodes@.len() as usize),
        ),
        nodes@.len() <= MAX_PAGE_SIZE ==> result is Ok && result->Ok_0@.len() == nodes@.len()
            && forall|i: int|
            0 <= i < nodes@.len() ==> {
                &&& (#[trigger] result->Ok_0@[i]).base_info == nodes@[i]
                &&& result->Ok_0@[i].has_children == has_children_in(buckets@, nodes@[i].node_id@)
                &&& result->Ok_0@[i].parent_title@ == parent_title_of(hits@, nodes@[i].parent_id)
            },
{
    let count = nodes.len();
    if count > 250 {
        return Err(SearchError::TooManyNodes(count));
    }
    let ghost all = nodes@;
    let mut rest = nodes;
    let mut reversed: Vec<CoreContentNode> = Vec::new();
    while rest.len() > 0
        invariant
            all.len() == count,
            rest@.len() + reversed@.len() == count,
            rest@ == all.take(rest@.len() as int),
            forall|k: int|
                0 <= k < reversed@.len() ==> {
                    &&& (#[trigger] reversed@[k]).base_info == all[count - 1 - k]
                    &&& reversed@[k].has_children == has_children_in(
                        buckets@,
                        all[count - 1 - k].node_id@,
                    )
                    &&& reversed@[k].parent_title@ == parent_title_of(
                        hits@,
                        all[count - 1 - k].parent_id,
                    )
                },
        decreases rest@.len(),
    {
        let ghost before = rest@;
        let node = rest.pop().unwrap();
        assert(node == all[before.len() - 1]);
        assert(rest@ =~= all.take(rest@.len() as int));
        let children = has_children(buckets, &node.node_id);
        let title = parent_title(hits, &node.parent_id);
        reversed.push(CoreContentNode::new(node, children, title));
    }
    let ghost backwards = reversed@;
    let mut out: Vec<CoreContentNode> = Vec::new();
    while reversed.len() > 0
        invariant
            backwards.len() == count,
            reversed@.len() + out@.len() == count,
            reversed@ == backwards.take(reversed@.len() as int),
            forall|k: int| 0 <= k < out@.len() ==> (#[trigger] out@[k]) == backwards[count - 1 - k],
        decreases reversed@.len(),
    {
        let ghost before = reversed@;
        let node = reversed.pop().unwrap();
        assert(node == backwards[before.len() - 1]);
        assert(reversed@ =~= backwards.take(reversed@.len() as int));
        out.push(node);
    }
    Ok(out)
}

/// What a search asks of the nodes of one data source: to belong to it,
/// and, where parents are given, to lie under one of them.
#[derive(Debug)]
pub struct FilterClause {
    pub data_source_id: String,
    pub parents: Option<Vec<String>>,
}

/// The clause for a filter.
pub fn filter_clause(filter: DatasourceViewFilter) -> (clause: FilterClause)
    ensures
        clause.data_source_id == filter.data_source_id,
        clause.parents == if filter.view_filter@.len() == 0 {
            None::<Vec<String>>
        } else {
            Some(filter.view_filter)
        },
{
    let parents = if filter.view_filter.len() == 0 {
        None
    } else {
        Some(filter.view_filter)
    };
    FilterClause { data_source_id: filter.data_source_id, parents }
}

} // verus!
