//! Building the graphs that ranking and community detection walk: which
//! records become nodes, which relations become edges between them, and the
//! text an entity is embedded from.
use vstd::prelude::*;

use crate::types::str_eq;

verus! {

/// Ids of the records that become nodes: those that have an id, in order.
pub open spec fn node_ids(ids: Seq<Option<String>>) -> Seq<Seq<char>>
    decreases ids.len(),
{
    if ids.len() == 0 {
        seq![]
    } else {
        let rest = node_ids(ids.drop_last());
        match ids.last() {
            Some(id) => rest.push(id@),
            None => rest,
        }
    }
}

/// The node an id names: the last node with that id, as a map from ids to
/// nodes keeps the last insertion.
pub open spec fn last_node(nodes: Seq<Seq<char>>, id: Seq<char>) -> Option<int>
    decreases nodes.len(),
{
    if nodes.len() == 0 {
        None
    } else if nodes.last() == id {
        Some(nodes.len() - 1)
    } else {
        last_node(nodes.drop_last(), id)
    }
}

/// One edge per relation whose two ends both name nodes, in the order of
/// the relations.
pub open spec fn graph_edges(nodes: Seq<Seq<char>>, rels: Seq<(String, String)>) -> Seq<(usize, usize)>
    decreases rels.len(),
{
    if rels.len() == 0 {
        seq![]
    } else {
        let rest = graph_edges(nodes, rels.drop_last());
        let (from, to) = rels.last();
        match (last_node(nodes, from@), last_node(nodes, to@)) {
            (Some(a), Some(b)) => rest.push((a as usize, b as usize)),
            _ => rest,
        }
    }
}

proof fn lemma_last_node_bounded(nodes: Seq<Seq<char>>, id: Seq<char>)
    ensures
        last_node(nodes, id) matches Some(k) ==> 0 <= k < nodes.len() && nodes[k] == id,
    decreases nodes.len(),
{
    if nodes.len() > 0 {
        lemma_last_node_bounded(nodes.drop_last(), id);
    }
}

proof fn lemma_last_node_prefix(nodes: Seq<Seq<char>>, id: Seq<char>, j: int)
    requires
        0 <= j <= nodes.len(),
        forall|k: int| j <= k < nodes.len() ==> nodes[k] != id,
    ensures
        last_node(nodes, id) == last_node(nodes.take(j), id),
    decreases nodes.len(),
{
    if nodes.len() == j {
        assert(nodes.take(j) =~= nodes);
    } else {
        let p = nodes.drop_last();
        assert(nodes.last() == nodes[nodes.len() - 1]);
        assert forall|k: int| j <= k < p.len() implies p[k] != id by {
            assert(p[k] == nodes[k]);
        }
        lemma_last_node_prefix(p, id, j);
        assert(p.take(j) =~= nodes.take(j));
    }
}

/// The node an id names among `nodes`, searched from the end.
fn find_last_node(nodes: &Vec<String>, id: &str) -> (r: Option<usize>)
    ensures
        match last_node(nodes@.map_values(|s: String| s@), id@) {
            Some(k) => r == Some(k as usize),
            None => r is None,
        },
{
    let ghost nv = nodes@.map_values(|s: String| s@);
    let mut j = nodes.len();
    while j > 0
        invariant
            j <= nodes@.len(),
            nv == nodes@.map_values(|s: String| s@),
            forall|k: int| j <= k < nv.len() ==> nv[k] != id@,
        decreases j,
    {
        if str_eq(nodes[j - 1].as_str(), id) {
            proof {
                lemma_last_node_prefix(nv, id@, j as int);
                let t = nv.take(j as int);
                assert(t.last() == id@);
            }
            return Some(j - 1);
        }
        j = j - 1;
    }
    proof {
        lemma_last_node_prefix(nv, id@, 0);
        assert(nv.take(0).len() == 0);
    }
    None
}

/// The graph over records with these ids and relations between ids: the
/// records that have an id become nodes, in order; each relation whose two
/// ends name nodes becomes an edge from the last node with the first id to
/// the last node with the second.
pub fn build_graph(ids: &Vec<Option<String>>, rels: &Vec<(String, String)>) -> (r: (Vec<String>, Vec<(usize, usize)>))
    ensures
        r.0@.map_values(|s: String| s@) == node_ids(ids@),
        r.1@ == graph_edges(node_ids(ids@), rels@),
        forall|e: int| 0 <= e < r.1@.len() ==> (#[trigger] r.1@[e]).0 < r.0@.len() && r.1@[e].1 < r.0@.len(),
{
    let mut nodes: Vec<String> = Vec::new();
    for k in 0..ids.len()
        invariant
            nodes@.map_values(|s: String| s@) == node_ids(ids@.take(k as int)),
    {
        let ghost before = nodes@;
        proof {
            assert(ids@.take(k + 1).drop_last() =~= ids@.take(k as int));
            assert(ids@.take(k + 1).last() == ids@[k as int]);
        }
        match &ids[k] {
            Some(id) => {
                nodes.push(id.clone());
                proof {
                    assert(nodes@.map_values(|s: String| s@) =~= before.map_values(|s: String| s@).push(id@));
                }
            },
            None => {},
        }
    }
    proof {
        assert(ids@.take(ids@.len() as int) =~= ids@);
    }
    let ghost nv = nodes@.map_values(|s: String| s@);
    let mut edges: Vec<(usize, usize)> = Vec::new();
    for i in 0..rels.len()
        invariant
            nv == nodes@.map_values(|s: String| s@),
            edges@ == graph_edges(nv, rels@.take(i as int)),
            forall|e: int| 0 <= e < edges@.len() ==> (#[trigger] edges@[e]).0 < nv.len() && edges@[e].1 < nv.len(),
    {
        proof {
            assert(rels@.take(i + 1).drop_last() =~= rels@.take(i as int));
            assert(rels@.take(i + 1).last() == rels@[i as int]);
        }
        let from = find_last_node(&nodes, rels[i].0.as_str());
        let to = find_last_node(&nodes, rels[i].1.as_str());
        proof {
            lemma_last_node_bounded(nv, rels@[i as int].0@);
            lemma_last_node_bounded(nv, rels@[i as int].1@);
        }
        match (from, to) {
            (Some(a), Some(b)) => {
                edges.push((a, b));
            },
            _ => {},
        }
    }
    proof {
        assert(rels@.take(rels@.len() as int) =~= rels@);
    }
    (nodes, edges)
}

/// The text an entity is embedded and fingerprinted from: its name, a colon
/// and a space, and its description (empty when absent).
pub fn entity_embed_text(name: &str, description: Option<&str>) -> (r: String)
    ensures
        r@ == name@ + ": "@ + match description {
            Some(d) => d@,
            None => Seq::<char>::empty(),
        },
{
    let d = match description {
        Some(d) => d,
        None => "",
    };
    proof {
        reveal_strlit("");
    }
    String::from_str(name).concat(": ").concat(d)
}

/// An entity's type, `unknown` when none is given.
pub fn entity_type_or_unknown(entity_type: Option<String>) -> (r: String)
    ensures
        r@ == match entity_type {
            Some(t) => t@,
            None => "unknown"@,
        },
{
    match entity_type {
        Some(t) => t,
        None => String::from_str("unknown"),
    }
}

} // verus!
