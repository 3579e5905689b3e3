//! Observations of a detected project: its dependency graph, the layers of
//! its reality, and where those layers drift apart.
use vstd::prelude::*;

use crate::cargo::{cargo_view, CargoView};
use crate::model::{
    components_view, deps_view, CargoObservation, CargoPackage, Component, ComponentView, DepView, Ecosystem,
    NativeDependency, RepositoryDetection,
};
use crate::order::{dedup_by, lex_lt, sort_by};
use crate::text::{concat, concat3, copy_str, str_eq, views};

verus! {

pub fn copy_cargo(c: &CargoObservation) -> (r: CargoObservation)
    ensures
        cargo_view(r) == cargo_view(*c),
{
    let mut packages: Vec<CargoPackage> = Vec::new();
    let mut i: usize = 0;
    while i < c.packages.len()
        invariant
            i <= c.packages.len(),
            packages@ == c.packages@.take(i as int),
        decreases c.packages.len() - i,
    {
        packages.push(
            CargoPackage {
                name: c.packages[i].name.clone(),
                manifest_path: c.packages[i].manifest_path.clone(),
                workspace_member: c.packages[i].workspace_member,
            },
        );
        assert(packages@ =~= c.packages@.take(i + 1));
        i += 1;
    }
    assert(c.packages@.take(c.packages.len() as int) =~= c.packages@);
    let r = CargoObservation {
        manifest: c.manifest.clone(),
        lockfile: match &c.lockfile {
            Some(l) => Some(l.clone()),
            None => None,
        },
        workspace: c.workspace,
        workspace_root: c.workspace_root.clone(),
        workspace_members: crate::plan::clone_strings(&c.workspace_members),
        packages,
        dependencies: crate::output::copy_dependencies(&c.dependencies),
        source: c.source.clone(),
    };
    assert(deps_view(r.dependencies@) =~= deps_view(c.dependencies@));
    r
}

pub open spec fn opt_cargo_view(c: Option<CargoObservation>) -> Option<CargoView> {
    match c {
        Some(x) => Some(cargo_view(x)),
        None => None,
    }
}

fn copy_opt_cargo(c: &Option<CargoObservation>) -> (r: Option<CargoObservation>)
    ensures
        opt_cargo_view(r) == opt_cargo_view(*c),
{
    match c {
        Some(x) => Some(copy_cargo(x)),
        None => None,
    }
}

// ---------------------------------------------------------------------------
// The graph
// ---------------------------------------------------------------------------
#[derive(Debug)]
pub struct GraphNode {
    pub id: String,
    pub kind: String,
    pub ecosystem: Ecosystem,
}

#[derive(Debug)]
pub struct GraphEdge {
    pub from: String,
    pub to: String,
    pub kind: String,
}

#[derive(Debug)]
pub struct GraphEvidence {
    pub edge: String,
    pub evidence: Vec<String>,
}

#[derive(Debug)]
pub struct GraphOutput {
    pub schema_version: String,
    pub command: String,
    pub nodes: Vec<GraphNode>,
    pub edges: Vec<GraphEdge>,
    pub evidence: Vec<GraphEvidence>,
    pub cargo: Option<CargoObservation>,
}

pub type NodeView = (Seq<char>, Seq<char>, Ecosystem);

pub type EdgeView = (Seq<char>, Seq<char>, Seq<char>);

pub type LinkView = (Seq<char>, Seq<Seq<char>>);

pub open spec fn node_view(n: GraphNode) -> NodeView {
    (n.id@, n.kind@, n.ecosystem)
}

pub open spec fn edge_view(e: GraphEdge) -> EdgeView {
    (e.from@, e.to@, e.kind@)
}

pub open spec fn link_view(e: GraphEvidence) -> LinkView {
    (e.edge@, views(e.evidence@))
}

pub open spec fn nodes_view(v: Seq<GraphNode>) -> Seq<NodeView> {
    v.map_values(|n: GraphNode| node_view(n))
}

pub open spec fn edges_view(v: Seq<GraphEdge>) -> Seq<EdgeView> {
    v.map_values(|e: GraphEdge| edge_view(e))
}

pub open spec fn links_view(v: Seq<GraphEvidence>) -> Seq<LinkView> {
    v.map_values(|e: GraphEvidence| link_view(e))
}

/// The graph's three lists before they are ordered.
#[verifier::ext_equal]
pub struct GraphParts {
    pub nodes: Seq<NodeView>,
    pub edges: Seq<EdgeView>,
    pub links: Seq<LinkView>,
}

pub open spec fn no_parts() -> GraphParts {
    GraphParts { nodes: seq![], edges: seq![], links: seq![] }
}

pub open spec fn join_parts(a: GraphParts, b: GraphParts) -> GraphParts {
    GraphParts { nodes: a.nodes + b.nodes, edges: a.edges + b.edges, links: a.links + b.links }
}

pub open spec fn arrow(from: Seq<char>, to: Seq<char>) -> Seq<char> {
    from + " -> "@ + to
}

/// What one declared JavaScript dependency adds.
pub open spec fn js_dependency_parts(names: Seq<Seq<char>>, kind: Seq<char>) -> GraphParts
    decreases names.len(),
{
    if names.len() == 0 {
        no_parts()
    } else {
        let n = names.last();
        join_parts(
            js_dependency_parts(names.drop_last(), kind),
            GraphParts {
                nodes: seq![(n, "dependency"@, Ecosystem::JavaScript)],
                edges: seq![("."@, n, kind)],
                links: seq![(arrow("."@, n), seq!["package.json"@])],
            },
        )
    }
}

pub open spec fn keys_of(m: crate::model::NameMap) -> Seq<Seq<char>> {
    m@.map_values(|e: (String, String)| e.0@)
}

pub open spec fn package_json_parts(d: RepositoryDetection) -> GraphParts {
    match d.package_json_data {
        Some(data) => join_parts(
            join_parts(
                join_parts(
                    js_dependency_parts(keys_of(data.dependencies), "runtime-dependency"@),
                    js_dependency_parts(keys_of(data.dev_dependencies), "development-dependency"@),
                ),
                js_dependency_parts(keys_of(data.optional_dependencies), "optional-dependency"@),
            ),
            js_dependency_parts(keys_of(data.peer_dependencies), "peer-dependency"@),
        ),
        None => no_parts(),
    }
}

/// The kind of edge a native dependency's kind gives.
pub open spec fn edge_kind(kind: Seq<char>) -> Seq<char> {
    if kind == "development"@ || kind == "dev"@ {
        "development-dependency"@
    } else if kind == "build"@ {
        "build-dependency"@
    } else if kind == "optional"@ {
        "optional-dependency"@
    } else if kind == "peer"@ {
        "peer-dependency"@
    } else {
        "runtime-dependency"@
    }
}

/// A file of a component, as a path from the project root.
pub open spec fn in_component(path: Seq<char>, file: Seq<char>) -> Seq<char> {
    if path == "."@ {
        file
    } else {
        path + "/"@ + file
    }
}

/// What the native dependencies of `c`'s ecosystem add to the graph.
pub open spec fn native_parts(c: ComponentView, ds: Seq<DepView>) -> GraphParts
    decreases ds.len(),
{
    if ds.len() == 0 {
        no_parts()
    } else {
        let d = ds.last();
        join_parts(
            native_parts(c, ds.drop_last()),
            if d.3 == c.ecosystem {
                GraphParts {
                    nodes: seq![(d.0, "dependency"@, d.3)],
                    edges: seq![(c.path, d.0, edge_kind(d.2))],
                    links: seq![
                        (
                            arrow(c.path, d.0),
                            if c.manifests.len() > 0 {
                                seq![in_component(c.path, c.manifests[0])]
                            } else {
                                seq![]
                            },
                        ),
                    ],
                }
            } else {
                no_parts()
            },
        )
    }
}

pub open spec fn component_parts(cs: Seq<ComponentView>, ds: Seq<DepView>) -> GraphParts
    decreases cs.len(),
{
    if cs.len() == 0 {
        no_parts()
    } else {
        let c = cs.last();
        join_parts(
            component_parts(cs.drop_last(), ds),
            join_parts(GraphParts { nodes: seq![(c.path, "component"@, c.ecosystem)], edges: seq![], links: seq![] }, native_parts(c, ds)),
        )
    }
}

pub open spec fn member_parts(root: Seq<char>, manifest: Seq<char>, ms: Seq<Seq<char>>) -> GraphParts
    decreases ms.len(),
{
    if ms.len() == 0 {
        no_parts()
    } else {
        let m = ms.last();
        join_parts(
            member_parts(root, manifest, ms.drop_last()),
            GraphParts {
                nodes: seq![(m, "workspace-member"@, Ecosystem::Rust)],
                edges: seq![(root, m, "workspace-member"@)],
                links: seq![(arrow(root, m), seq![manifest])],
            },
        )
    }
}

pub open spec fn cargo_parts(c: Option<CargoObservation>) -> GraphParts {
    match c {
        Some(x) => member_parts(x.workspace_root@, x.manifest@, views(x.workspace_members@)),
        None => no_parts(),
    }
}

pub open spec fn graph_parts(d: RepositoryDetection) -> GraphParts {
    join_parts(
        join_parts(package_json_parts(d), component_parts(components_view(d.components@), deps_view(d.native_dependencies@))),
        cargo_parts(d.cargo),
    )
}

/// Nodes are ordered by id, then kind.
pub open spec fn node_lt(a: NodeView, b: NodeView) -> bool {
    lex_lt(a.0, b.0) || (a.0 == b.0 && lex_lt(a.1, b.1))
}

pub open spec fn node_same(a: NodeView, b: NodeView) -> bool {
    a.0 == b.0 && a.1 == b.1
}

/// Edges are ordered by their ends.
pub open spec fn edge_lt(a: EdgeView, b: EdgeView) -> bool {
    lex_lt(a.0, b.0) || (a.0 == b.0 && lex_lt(a.1, b.1))
}

pub open spec fn edge_same(a: EdgeView, b: EdgeView) -> bool {
    a.0 == b.0 && a.1 == b.1 && a.2 == b.2
}

pub open spec fn link_lt(a: LinkView, b: LinkView) -> bool {
    lex_lt(a.0, b.0)
}

pub open spec fn spec_graph_nodes(d: RepositoryDetection) -> Seq<NodeView> {
    dedup_by(sort_by(graph_parts(d).nodes, |a: NodeView, b: NodeView| node_lt(a, b)), |a: NodeView, b: NodeView| node_same(a, b))
}

pub open spec fn spec_graph_edges(d: RepositoryDetection) -> Seq<EdgeView> {
    dedup_by(sort_by(graph_parts(d).edges, |a: EdgeView, b: EdgeView| edge_lt(a, b)), |a: EdgeView, b: EdgeView| edge_same(a, b))
}

pub open spec fn spec_graph_links(d: RepositoryDetection) -> Seq<LinkView> {
    sort_by(graph_parts(d).links, |a: LinkView, b: LinkView| link_lt(a, b))
}

pub open spec fn graph_matches(g: GraphOutput, d: RepositoryDetection) -> bool {
    &&& g.schema_version@ == "1"@
    &&& g.command@ == "graph"@
    &&& nodes_view(g.nodes@) == spec_graph_nodes(d)
    &&& edges_view(g.edges@) == spec_graph_edges(d)
    &&& links_view(g.evidence@) == spec_graph_links(d)
    &&& opt_cargo_view(g.cargo) == opt_cargo_view(d.cargo)
}

struct PartsBuf {
    nodes: Vec<GraphNode>,
    edges: Vec<GraphEdge>,
    links: Vec<GraphEvidence>,
}

spec fn buf_view(b: PartsBuf) -> GraphParts {
    GraphParts { nodes: nodes_view(b.nodes@), edges: edges_view(b.edges@), links: links_view(b.links@) }
}

fn add_link(b: &mut PartsBuf, node: GraphNode, edge: GraphEdge, link: GraphEvidence)
    ensures
        buf_view(*final(b)) == join_parts(
            buf_view(*old(b)),
            GraphParts { nodes: seq![node_view(node)], edges: seq![edge_view(edge)], links: seq![link_view(link)] },
        ),
{
    let ghost pre = buf_view(*b);
    b.nodes.push(node);
    b.edges.push(edge);
    b.links.push(link);
    assert(nodes_view(b.nodes@) =~= pre.nodes + seq![node_view(node)]);
    assert(edges_view(b.edges@) =~= pre.edges + seq![edge_view(edge)]);
    assert(links_view(b.links@) =~= pre.links + seq![link_view(link)]);
}

fn one(s: String) -> (r: Vec<String>)
    ensures
        views(r@) == seq![s@],
{
    let mut r: Vec<String> = Vec::new();
    r.push(s);
    assert(views(r@) =~= seq![s@]);
    r
}

fn add_js_dependencies(b: &mut PartsBuf, m: &crate::model::NameMap, kind: &str)
    ensures
        buf_view(*final(b)) == join_parts(buf_view(*old(b)), js_dependency_parts(keys_of(*m), kind@)),
{
    let ghost start = buf_view(*b);
    let ghost ks = keys_of(*m);
    let mut i: usize = 0;
    assert(join_parts(start, js_dependency_parts(ks.take(0), kind@)) =~= start);
    while i < m.len()
        invariant
            i <= m.len(),
            ks == keys_of(*m),
            buf_view(*b) == join_parts(start, js_dependency_parts(ks.take(i as int), kind@)),
        decreases m.len() - i,
    {
        assert(ks.take(i + 1).drop_last() =~= ks.take(i as int));
        assert(ks.take(i + 1).last() == m@[i as int].0@);
        let name = &m[i].0;
        let edge_text = concat(". -> ", name.as_str());
        proof {
            reveal_strlit(". -> ");
            reveal_strlit(".");
            reveal_strlit(" -> ");
            assert(edge_text@ =~= arrow("."@, name@));
        }
        add_link(
            b,
            GraphNode { id: name.clone(), kind: copy_str("dependency"), ecosystem: Ecosystem::JavaScript },
            GraphEdge { from: copy_str("."), to: name.clone(), kind: copy_str(kind) },
            GraphEvidence { edge: edge_text, evidence: one(copy_str("package.json")) },
        );
        assert(buf_view(*b) =~= join_parts(start, js_dependency_parts(ks.take(i + 1), kind@)));
        i += 1;
    }
    assert(ks.take(m.len() as int) =~= ks);
}

fn edge_kind_of(kind: &str) -> (r: &'static str)
    ensures
        r@ == edge_kind(kind@),
{
    if str_eq(kind, "development") || str_eq(kind, "dev") {
        "development-dependency"
    } else if str_eq(kind, "build") {
        "build-dependency"
    } else if str_eq(kind, "optional") {
        "optional-dependency"
    } else if str_eq(kind, "peer") {
        "peer-dependency"
    } else {
        "runtime-dependency"
    }
}

pub fn in_component_path(path: &str, file: &str) -> (r: String)
    ensures
        r@ == in_component(path@, file@),
{
    if str_eq(path, ".") {
        copy_str(file)
    } else {
        concat3(path, "/", file)
    }
}

fn add_natives(b: &mut PartsBuf, c: &Component, ds: &Vec<NativeDependency>)
    ensures
        buf_view(*final(b)) == join_parts(buf_view(*old(b)), native_parts(c@, deps_view(ds@))),
{
    let ghost start = buf_view(*b);
    let ghost dv = deps_view(ds@);
    let mut i: usize = 0;
    assert(join_parts(start, native_parts(c@, dv.take(0))) =~= start);
    while i < ds.len()
        invariant
            i <= ds.len(),
            dv == deps_view(ds@),
            buf_view(*b) == join_parts(start, native_parts(c@, dv.take(i as int))),
        decreases ds.len() - i,
    {
        assert(dv.take(i + 1).drop_last() =~= dv.take(i as int));
        assert(dv.take(i + 1).last() == dv[i as int]);
        let d = &ds[i];
        if d.ecosystem == c.ecosystem {
            let evidence: Vec<String> = if c.manifests.len() > 0 {
                one(in_component_path(c.path.as_str(), c.manifests[0].as_str()))
            } else {
                let v: Vec<String> = Vec::new();
                assert(views(v@) =~= seq![]);
                v
            };
            add_link(
                b,
                GraphNode { id: d.name.clone(), kind: copy_str("dependency"), ecosystem: d.ecosystem },
                GraphEdge { from: c.path.clone(), to: d.name.clone(), kind: copy_str(edge_kind_of(d.kind.as_str())) },
                GraphEvidence { edge: concat3(c.path.as_str(), " -> ", d.name.as_str()), evidence },
            );
        }
        assert(buf_view(*b) =~= join_parts(start, native_parts(c@, dv.take(i + 1))));
        i += 1;
    }
    assert(dv.take(ds.len() as int) =~= dv);
}

fn add_components(b: &mut PartsBuf, cs: &Vec<Component>, ds: &Vec<NativeDependency>)
    ensures
        buf_view(*final(b)) == join_parts(buf_view(*old(b)), component_parts(components_view(cs@), deps_view(ds@))),
{
    let ghost start = buf_view(*b);
    let ghost cv = components_view(cs@);
    let mut i: usize = 0;
    assert(join_parts(start, component_parts(cv.take(0), deps_view(ds@))) =~= start);
    while i < cs.len()
        invariant
            i <= cs.len(),
            cv == components_view(cs@),
            buf_view(*b) == join_parts(start, component_parts(cv.take(i as int), deps_view(ds@))),
        decreases cs.len() - i,
    {
        assert(cv.take(i + 1).drop_last() =~= cv.take(i as int));
        assert(cv.take(i + 1).last() == cs@[i as int]@);
        let c = &cs[i];
        let ghost pre = buf_view(*b);
        let node = GraphNode { id: c.path.clone(), kind: copy_str("component"), ecosystem: c.ecosystem };
        b.nodes.push(node);
        assert(nodes_view(b.nodes@) =~= pre.nodes + seq![node_view(node)]);
        let ghost mid = buf_view(*b);
        add_natives(b, c, ds);
        assert(buf_view(*b) =~= join_parts(start, component_parts(cv.take(i + 1), deps_view(ds@))));
        i += 1;
    }
    assert(cv.take(cs.len() as int) =~= cv);
}

fn add_members(b: &mut PartsBuf, c: &CargoObservation)
    ensures
        buf_view(*final(b)) == join_parts(buf_view(*old(b)), member_parts(c.workspace_root@, c.manifest@, views(c.workspace_members@))),
{
    let ghost start = buf_view(*b);
    let ghost ms = views(c.workspace_members@);
    let mut i: usize = 0;
    assert(join_parts(start, member_parts(c.workspace_root@, c.manifest@, ms.take(0))) =~= start);
    while i < c.workspace_members.len()
        invariant
            i <= c.workspace_members.len(),
            ms == views(c.workspace_members@),
            buf_view(*b) == join_parts(start, member_parts(c.workspace_root@, c.manifest@, ms.take(i as int))),
        decreases c.workspace_members.len() - i,
    {
        assert(ms.take(i + 1).drop_last() =~= ms.take(i as int));
        let m = &c.workspace_members[i];
        add_link(
            b,
            GraphNode { id: m.clone(), kind: copy_str("workspace-member"), ecosystem: Ecosystem::Rust },
            GraphEdge { from: c.workspace_root.clone(), to: m.clone(), kind: copy_str("workspace-member") },
            GraphEvidence {
                edge: concat3(c.workspace_root.as_str(), " -> ", m.as_str()),
                evidence: one(c.manifest.clone()),
            },
        );
        assert(buf_view(*b) =~= join_parts(start, member_parts(c.workspace_root@, c.manifest@, ms.take(i + 1))));
        i += 1;
    }
    assert(ms.take(c.workspace_members.len() as int) =~= ms);
}

pub open spec fn exec_node_lt() -> spec_fn(GraphNode, GraphNode) -> bool {
    |a: GraphNode, b: GraphNode| node_lt(node_view(a), node_view(b))
}

pub open spec fn exec_node_same() -> spec_fn(GraphNode, GraphNode) -> bool {
    |a: GraphNode, b: GraphNode| node_same(node_view(a), node_view(b))
}

pub open spec fn exec_edge_lt() -> spec_fn(GraphEdge, GraphEdge) -> bool {
    |a: GraphEdge, b: GraphEdge| edge_lt(edge_view(a), edge_view(b))
}

pub open spec fn exec_edge_same() -> spec_fn(GraphEdge, GraphEdge) -> bool {
    |a: GraphEdge, b: GraphEdge| edge_same(edge_view(a), edge_view(b))
}

pub open spec fn exec_link_lt() -> spec_fn(GraphEvidence, GraphEvidence) -> bool {
    |a: GraphEvidence, b: GraphEvidence| link_lt(link_view(a), link_view(b))
}

/// The dependency graph of a detected project: declared JavaScript
/// dependencies, components with the native dependencies of their
/// ecosystem, and Cargo workspace members; nodes ordered by id and kind
/// without repeats, edges ordered by their ends without repeats, evidence
/// ordered by edge.
pub fn build_graph(detection: &RepositoryDetection) -> (g: GraphOutput)
    ensures
        graph_matches(g, *detection),
{
    let mut b = PartsBuf { nodes: Vec::new(), edges: Vec::new(), links: Vec::new() };
    assert(buf_view(b) =~= no_parts());
    match &detection.package_json_data {
        Some(data) => {
            add_js_dependencies(&mut b, &data.dependencies, "runtime-dependency");
            add_js_dependencies(&mut b, &data.dev_dependencies, "development-dependency");
            add_js_dependencies(&mut b, &data.optional_dependencies, "optional-dependency");
            add_js_dependencies(&mut b, &data.peer_dependencies, "peer-dependency");
        },
        None => {},
    }
    assert(buf_view(b) =~= package_json_parts(*detection));
    add_components(&mut b, &detection.components, &detection.native_dependencies);
    match &detection.cargo {
        Some(c) => add_members(&mut b, c),
        None => {},
    }
    assert(buf_view(b) =~= graph_parts(*detection));
    let ghost parts = buf_view(b);
    let PartsBuf { nodes, edges, links } = b;
    let ghost n0 = nodes@;
    let ghost e0 = edges@;
    let ghost l0 = links@;
    let nlt = |a: &GraphNode, b: &GraphNode| -> (res: bool)
        ensures
            res == node_lt(node_view(*a), node_view(*b)),
        {
            crate::order::str_lt(a.id.as_str(), b.id.as_str()) || (str_eq(a.id.as_str(), b.id.as_str())
                && crate::order::str_lt(a.kind.as_str(), b.kind.as_str()))
        };
    let nsame = |a: &GraphNode, b: &GraphNode| -> (res: bool)
        ensures
            res == node_same(node_view(*a), node_view(*b)),
        { str_eq(a.id.as_str(), b.id.as_str()) && str_eq(a.kind.as_str(), b.kind.as_str()) };
    let sorted_nodes = crate::order::sort_vec_by(nodes, nlt, Ghost(exec_node_lt()));
    let ghost n1 = sorted_nodes@;
    let nodes = crate::order::dedup_vec_by(sorted_nodes, nsame, Ghost(exec_node_same()));
    let elt = |a: &GraphEdge, b: &GraphEdge| -> (res: bool)
        ensures
            res == edge_lt(edge_view(*a), edge_view(*b)),
        {
            crate::order::str_lt(a.from.as_str(), b.from.as_str()) || (str_eq(a.from.as_str(), b.from.as_str())
                && crate::order::str_lt(a.to.as_str(), b.to.as_str()))
        };
    let esame = |a: &GraphEdge, b: &GraphEdge| -> (res: bool)
        ensures
            res == edge_same(edge_view(*a), edge_view(*b)),
        {
            str_eq(a.from.as_str(), b.from.as_str()) && str_eq(a.to.as_str(), b.to.as_str()) && str_eq(
                a.kind.as_str(),
                b.kind.as_str(),
            )
        };
    let sorted_edges = crate::order::sort_vec_by(edges, elt, Ghost(exec_edge_lt()));
    let ghost e1 = sorted_edges@;
    let edges = crate::order::dedup_vec_by(sorted_edges, esame, Ghost(exec_edge_same()));
    let llt = |a: &GraphEvidence, b: &GraphEvidence| -> (res: bool)
        ensures
            res == link_lt(link_view(*a), link_view(*b)),
        { crate::order::str_lt(a.edge.as_str(), b.edge.as_str()) };
    let links = crate::order::sort_vec_by(links, llt, Ghost(exec_link_lt()));
    proof {
        crate::order::lemma_sort_by_map(n0, |n: GraphNode| node_view(n), exec_node_lt(), |a: NodeView, b: NodeView| node_lt(a, b));
        crate::order::lemma_dedup_by_map(n1, |n: GraphNode| node_view(n), exec_node_same(), |a: NodeView, b: NodeView| node_same(a, b));
        crate::order::lemma_sort_by_map(e0, |e: GraphEdge| edge_view(e), exec_edge_lt(), |a: EdgeView, b: EdgeView| edge_lt(a, b));
        crate::order::lemma_dedup_by_map(e1, |e: GraphEdge| edge_view(e), exec_edge_same(), |a: EdgeView, b: EdgeView| edge_same(a, b));
        crate::order::lemma_sort_by_map(l0, |e: GraphEvidence| link_view(e), exec_link_lt(), |a: LinkView, b: LinkView| link_lt(a, b));
        assert(n0.map_values(|n: GraphNode| node_view(n)) =~= parts.nodes);
        assert(nodes@.map_values(|n: GraphNode| node_view(n)) =~= nodes_view(nodes@));
        assert(e0.map_values(|e: GraphEdge| edge_view(e)) =~= parts.edges);
        assert(edges@.map_values(|e: GraphEdge| edge_view(e)) =~= edges_view(edges@));
        assert(l0.map_values(|e: GraphEvidence| link_view(e)) =~= parts.links);
        assert(links@.map_values(|e: GraphEvidence| link_view(e)) =~= links_view(links@));
    }
    let g = GraphOutput {
        schema_version: copy_str("1"),
        command: copy_str("graph"),
        nodes,
        edges,
        evidence: links,
        cargo: copy_opt_cargo(&detection.cargo),
    };
    g
}

// ---------------------------------------------------------------------------
// Reality
// ---------------------------------------------------------------------------
#[derive(Debug)]
pub struct RealityObservation {
    pub subject: String,
    pub status: String,
    pub source: String,
    pub evidence: Vec<String>,
}

#[derive(Debug)]
pub struct RealityLayer {
    pub observations: Vec<RealityObservation>,
}

#[derive(Debug)]
pub struct RealityOutput {
    pub schema_version: String,
    pub command: String,
    pub live: bool,
    pub declared: RealityLayer,
    pub resolved: RealityLayer,
    pub installed: RealityLayer,
    pub runtime: RealityLayer,
    pub cargo: Option<CargoObservation>,
}

/// The directories found inside components: (component path, directory
/// name) for each of `node_modules`, `target`, `.venv`, `venv` and `.env`
/// that is a directory under the component.
#[derive(Debug)]
pub struct InstalledDirs {
    pub found: Vec<(String, String)>,
}

pub open spec fn has_dir(f: InstalledDirs, path: Seq<char>, name: Seq<char>) -> bool {
    exists|i: int| 0 <= i < f.found@.len() && (#[trigger] f.found@[i]).0@ == path && f.found@[i].1@ == name
}

pub type ObservationView = (Seq<char>, Seq<char>, Seq<char>, Seq<Seq<char>>);

pub open spec fn observation_view(o: RealityObservation) -> ObservationView {
    (o.subject@, o.status@, o.source@, views(o.evidence@))
}

pub open spec fn layer_view(l: RealityLayer) -> Seq<ObservationView> {
    l.observations@.map_values(|o: RealityObservation| observation_view(o))
}

pub open spec fn declared_layer(cs: Seq<ComponentView>) -> Seq<ObservationView> {
    cs.map_values(
        |c: ComponentView|
            (c.path, "present"@, "filesystem"@, c.manifests.map_values(|m: Seq<char>| in_component(c.path, m))),
    )
}

pub open spec fn resolved_layer(cs: Seq<ComponentView>) -> Seq<ObservationView>
    decreases cs.len(),
{
    if cs.len() == 0 {
        seq![]
    } else {
        let c = cs.last();
        resolved_layer(cs.drop_last()) + c.lockfiles.map_values(
            |l: Seq<char>| (c.path, "present"@, "filesystem"@, seq![in_component(c.path, l)]),
        )
    }
}

/// What is installed for a component: its status and the evidence.
pub open spec fn installed_state(c: ComponentView, f: InstalledDirs) -> (Seq<char>, Seq<Seq<char>>) {
    match c.ecosystem {
        Ecosystem::JavaScript => (
            if has_dir(f, c.path, "node_modules"@) {
                "present"@
            } else {
                "absent"@
            },
            seq!["node_modules/"@],
        ),
        Ecosystem::Rust => if has_dir(f, c.path, "target"@) {
            ("present"@, seq!["target/"@])
        } else {
            ("unknown"@, seq![])
        },
        Ecosystem::Python => if has_dir(f, c.path, ".venv"@) {
            ("present"@, seq![".venv/"@])
        } else if has_dir(f, c.path, "venv"@) {
            ("present"@, seq!["venv/"@])
        } else if has_dir(f, c.path, ".env"@) {
            ("present"@, seq![".env/"@])
        } else {
            ("unknown"@, seq![])
        },
        Ecosystem::Container => ("unknown"@, seq![]),
    }
}

/// The directories that installation leaves inside a component of an
/// ecosystem, which the installed layer looks for.
pub open spec fn spec_probed_dirs(e: Ecosystem) -> Seq<Seq<char>> {
    match e {
        Ecosystem::JavaScript => seq!["node_modules"@],
        Ecosystem::Rust => seq!["target"@],
        Ecosystem::Python => seq![".venv"@, "venv"@, ".env"@],
        Ecosystem::Container => seq![],
    }
}

/// The directory names to look for inside a component of ecosystem `e`.
pub fn probed_dirs(e: Ecosystem) -> (r: Vec<&'static str>)
    ensures
        r@.map_values(|s: &str| s@) == spec_probed_dirs(e),
{
    let r: Vec<&'static str> = match e {
        Ecosystem::JavaScript => vec!["node_modules"],
        Ecosystem::Rust => vec!["target"],
        Ecosystem::Python => vec![".venv", "venv", ".env"],
        Ecosystem::Container => vec![],
    };
    assert(r@.map_values(|s: &str| s@) =~= spec_probed_dirs(e));
    r
}

/// What is installed for a component depends on nothing but which of its
/// ecosystem's probed directories were found in it.
pub proof fn law_installed_needs_only_probed_dirs(c: ComponentView, f: InstalledDirs, g: InstalledDirs)
    requires
        forall|n: Seq<char>| #[trigger] spec_probed_dirs(c.ecosystem).contains(n) ==> has_dir(f, c.path, n) == has_dir(
            g,
            c.path,
            n,
        ),
    ensures
        installed_state(c, f) == installed_state(c, g),
{
    let p = spec_probed_dirs(c.ecosystem);
    match c.ecosystem {
        Ecosystem::JavaScript => {
            assert(p[0] == "node_modules"@);
            assert(p.contains("node_modules"@));
        },
        Ecosystem::Rust => {
            assert(p[0] == "target"@);
            assert(p.contains("target"@));
        },
        Ecosystem::Python => {
            assert(p[0] == ".venv"@ && p[1] == "venv"@ && p[2] == ".env"@);
            assert(p.contains(".venv"@) && p.contains("venv"@) && p.contains(".env"@));
        },
        Ecosystem::Container => {},
    }
}

pub open spec fn installed_layer(cs: Seq<ComponentView>, f: InstalledDirs) -> Seq<ObservationView> {
    cs.map_values(
        |c: ComponentView| (c.path, installed_state(c, f).0, "filesystem"@, installed_state(c, f).1),
    )
}

pub open spec fn runtime_layer(cs: Seq<ComponentView>) -> Seq<ObservationView>
    decreases cs.len(),
{
    if cs.len() == 0 {
        seq![]
    } else {
        runtime_layer(cs.drop_last()) + if cs.last().ecosystem == Ecosystem::Container {
            seq![(cs.last().path, "unknown"@, "docker"@, seq!["docker compose ps"@])]
        } else {
            seq![]
        }
    }
}

pub open spec fn reality_matches(o: RealityOutput, d: RepositoryDetection, live: bool, f: InstalledDirs) -> bool {
    let cs = components_view(d.components@);
    &&& o.schema_version@ == "1"@
    &&& o.command@ == "reality"@
    &&& o.live == live
    &&& layer_view(o.declared) == declared_layer(cs)
    &&& layer_view(o.resolved) == resolved_layer(cs)
    &&& layer_view(o.installed) == installed_layer(cs, f)
    &&& layer_view(o.runtime) == if live {
        runtime_layer(cs)
    } else {
        seq![]
    }
    &&& opt_cargo_view(o.cargo) == opt_cargo_view(d.cargo)
}

/// How many lockfiles the components hold in all.
pub open spec fn lockfile_total(cs: Seq<ComponentView>) -> nat
    decreases cs.len(),
{
    if cs.len() == 0 {
        0
    } else {
        lockfile_total(cs.drop_last()) + cs.last().lockfiles.len()
    }
}

proof fn lemma_resolved_len(cs: Seq<ComponentView>)
    ensures
        resolved_layer(cs).len() == lockfile_total(cs),
    decreases cs.len(),
{
    if cs.len() > 0 {
        lemma_resolved_len(cs.drop_last());
    }
}

/// The reality report has one declared observation per component, present
/// on the filesystem with the component's manifests as evidence (as paths
/// from the project root); one resolved observation per lockfile of each
/// component; one installed observation per component; runtime observations
/// only when asked for; and the detection's Cargo report.
pub proof fn law_reality_layers(o: RealityOutput, d: RepositoryDetection, live: bool, f: InstalledDirs)
    requires
        reality_matches(o, d, live, f),
    ensures
        o.live == live,
        opt_cargo_view(o.cargo) == opt_cargo_view(d.cargo),
        o.declared.observations@.len() == d.components@.len(),
        forall|i: int| 0 <= i < d.components@.len() ==> observation_view(#[trigger] o.declared.observations@[i]) == (
            d.components@[i].path@,
            "present"@,
            "filesystem"@,
            views(d.components@[i].manifests@).map_values(|m: Seq<char>| in_component(d.components@[i].path@, m)),
        ),
        o.resolved.observations@.len() == lockfile_total(components_view(d.components@)),
        o.installed.observations@.len() == d.components@.len(),
        !live ==> o.runtime.observations@.len() == 0,
{
    let cs = components_view(d.components@);
    assert(layer_view(o.declared).len() == o.declared.observations@.len());
    assert(layer_view(o.resolved).len() == o.resolved.observations@.len());
    assert(layer_view(o.installed).len() == o.installed.observations@.len());
    assert(layer_view(o.runtime).len() == o.runtime.observations@.len());
    lemma_resolved_len(cs);
    assert forall|i: int| 0 <= i < d.components@.len() implies observation_view(
        #[trigger] o.declared.observations@[i],
    ) == (
        d.components@[i].path@,
        "present"@,
        "filesystem"@,
        views(d.components@[i].manifests@).map_values(|m: Seq<char>| in_component(d.components@[i].path@, m)),
    ) by {
        assert(layer_view(o.declared)[i] == observation_view(o.declared.observations@[i]));
        assert(cs[i] == d.components@[i]@);
    }
}

pub fn has_installed_dir(f: &InstalledDirs, path: &str, name: &str) -> (r: bool)
    ensures
        r == has_dir(*f, path@, name@),
{
    let mut i: usize = 0;
    while i < f.found.len()
        invariant
            i <= f.found.len(),
            forall|k: int| 0 <= k < i ==> !((#[trigger] f.found@[k]).0@ == path@ && f.found@[k].1@ == name@),
        decreases f.found.len() - i,
    {
        if str_eq(f.found[i].0.as_str(), path) && str_eq(f.found[i].1.as_str(), name) {
            return true;
        }
        i += 1;
    }
    false
}

fn strings_in_component(path: &str, files: &Vec<String>) -> (r: Vec<String>)
    ensures
        views(r@) == views(files@).map_values(|m: Seq<char>| in_component(path@, m)),
{
    let mut r: Vec<String> = Vec::new();
    let mut i: usize = 0;
    while i < files.len()
        invariant
            i <= files.len(),
            views(r@) == views(files@.take(i as int)).map_values(|m: Seq<char>| in_component(path@, m)),
        decreases files.len() - i,
    {
        let ghost pre = views(r@);
        let x = in_component_path(path, files[i].as_str());
        r.push(x);
        assert(views(files@.take(i + 1)) =~= views(files@.take(i as int)).push(files@[i as int]@));
        assert(views(r@) =~= pre.push(x@));
        assert(views(files@.take(i + 1)).map_values(|m: Seq<char>| in_component(path@, m)) =~= views(files@.take(i as int)).map_values(|m: Seq<char>| in_component(path@, m)).push(in_component(path@, files@[i as int]@)));
        i += 1;
    }
    assert(files@.take(files.len() as int) =~= files@);
    r
}

fn observation(subject: &str, status: &str, source: &str, evidence: Vec<String>) -> (o: RealityObservation)
    ensures
        observation_view(o) == (subject@, status@, source@, views(evidence@)),
{
    RealityObservation { subject: copy_str(subject), status: copy_str(status), source: copy_str(source), evidence }
}

fn installed_of(c: &Component, f: &InstalledDirs) -> (r: (&'static str, Vec<String>))
    ensures
        (r.0@, views(r.1@)) == installed_state(c@, *f),
{
    let p = c.path.as_str();
    let empty: Vec<String> = Vec::new();
    assert(views(empty@) =~= seq![]);
    match c.ecosystem {
        Ecosystem::JavaScript => {
            let status = if has_installed_dir(f, p, "node_modules") {
                "present"
            } else {
                "absent"
            };
            (status, one(copy_str("node_modules/")))
        },
        Ecosystem::Rust => if has_installed_dir(f, p, "target") {
            ("present", one(copy_str("target/")))
        } else {
            ("unknown", empty)
        },
        Ecosystem::Python => if has_installed_dir(f, p, ".venv") {
            ("present", one(copy_str(".venv/")))
        } else if has_installed_dir(f, p, "venv") {
            ("present", one(copy_str("venv/")))
        } else if has_installed_dir(f, p, ".env") {
            ("present", one(copy_str(".env/")))
        } else {
            ("unknown", empty)
        },
        Ecosystem::Container => ("unknown", empty),
    }
}

/// The layers of a project's reality: what is declared, resolved, installed
/// and (when `live`) running, for each component.
pub fn build_reality(detection: &RepositoryDetection, live: bool, installed: &InstalledDirs) -> (o: RealityOutput)
    ensures
        reality_matches(o, *detection, live, *installed),
{
    let cs = &detection.components;
    let ghost cv = components_view(cs@);
    let mut declared: Vec<RealityObservation> = Vec::new();
    let mut resolved: Vec<RealityObservation> = Vec::new();
    let mut inst: Vec<RealityObservation> = Vec::new();
    let mut runtime: Vec<RealityObservation> = Vec::new();
    let mut i: usize = 0;
    while i < cs.len()
        invariant
            i <= cs.len(),
            cv == components_view(cs@),
            declared@.map_values(|o: RealityObservation| observation_view(o)) == declared_layer(cv.take(i as int)),
            resolved@.map_values(|o: RealityObservation| observation_view(o)) == resolved_layer(cv.take(i as int)),
            inst@.map_values(|o: RealityObservation| observation_view(o)) == installed_layer(cv.take(i as int), *installed),
            runtime@.map_values(|o: RealityObservation| observation_view(o)) == runtime_layer(cv.take(i as int)),
        decreases cs.len() - i,
    {
        let c = &cs[i];
        assert(cv.take(i + 1).drop_last() =~= cv.take(i as int));
        assert(cv.take(i + 1).last() == c@);
        let ghost d0 = declared@.map_values(|o: RealityObservation| observation_view(o));
        let ghost r0 = resolved@.map_values(|o: RealityObservation| observation_view(o));
        let ghost i0 = inst@.map_values(|o: RealityObservation| observation_view(o));
        let ghost t0 = runtime@.map_values(|o: RealityObservation| observation_view(o));
        let p = c.path.as_str();
        let od = observation(p, "present", "filesystem", strings_in_component(p, &c.manifests));
        declared.push(od);
        assert(cv.take(i + 1) =~= cv.take(i as int).push(c@));
        assert(declared@.map_values(|o: RealityObservation| observation_view(o)) =~= d0.push(observation_view(od)));
        assert(declared_layer(cv.take(i + 1)) =~= declared_layer(cv.take(i as int)).push(observation_view(od)));
        let mut j: usize = 0;
        while j < c.lockfiles.len()
            invariant
                j <= c.lockfiles.len(),
                p@ == c.path@,
                resolved@.map_values(|o: RealityObservation| observation_view(o)) == r0 + views(c.lockfiles@.take(j as int)).map_values(
                    |l: Seq<char>| (c.path@, "present"@, "filesystem"@, seq![in_component(c.path@, l)]),
                ),
            decreases c.lockfiles.len() - j,
        {
            let ghost rj = resolved@.map_values(|o: RealityObservation| observation_view(o));
            let lp = in_component_path(p, c.lockfiles[j].as_str());
            let o = observation(p, "present", "filesystem", one(lp));
            assert(observation_view(o) == (c.path@, "present"@, "filesystem"@, seq![in_component(c.path@, c.lockfiles@[j as int]@)]));
            resolved.push(o);
            assert(resolved@.map_values(|o: RealityObservation| observation_view(o)) =~= rj.push(observation_view(o)));
            assert(views(c.lockfiles@.take(j + 1)) =~= views(c.lockfiles@.take(j as int)).push(c.lockfiles@[j as int]@));
            assert(views(c.lockfiles@.take(j + 1)).map_values(
                |l: Seq<char>| (c.path@, "present"@, "filesystem"@, seq![in_component(c.path@, l)]),
            ) =~= views(c.lockfiles@.take(j as int)).map_values(
                |l: Seq<char>| (c.path@, "present"@, "filesystem"@, seq![in_component(c.path@, l)]),
            ).push(observation_view(o)));
            assert(resolved@.map_values(|o: RealityObservation| observation_view(o)) =~= r0 + views(c.lockfiles@.take(j + 1)).map_values(
                |l: Seq<char>| (c.path@, "present"@, "filesystem"@, seq![in_component(c.path@, l)]),
            ));
            j += 1;
        }
        assert(c.lockfiles@.take(c.lockfiles.len() as int) =~= c.lockfiles@);
        let (status, evidence) = installed_of(c, installed);
        let oi = observation(p, status, "filesystem", evidence);
        inst.push(oi);
        assert(inst@.map_values(|o: RealityObservation| observation_view(o)) =~= i0.push(observation_view(oi)));
        assert(installed_layer(cv.take(i + 1), *installed) =~= installed_layer(cv.take(i as int), *installed).push(observation_view(oi)));
        assert(inst@.map_values(|o: RealityObservation| observation_view(o)) =~= installed_layer(cv.take(i + 1), *installed));
        let container = match c.ecosystem {
            Ecosystem::Container => true,
            _ => false,
        };
        if container {
            runtime.push(observation(p, "unknown", "docker", one(copy_str("docker compose ps"))));
        }
        assert(runtime@.map_values(|o: RealityObservation| observation_view(o)) =~= runtime_layer(cv.take(i + 1)));
        i += 1;
    }
    assert(cv.take(cs.len() as int) =~= cv);
    if !live {
        runtime = Vec::new();
        assert(runtime@.map_values(|o: RealityObservation| observation_view(o)) =~= seq![]);
    }
    RealityOutput {
        schema_version: copy_str("1"),
        command: copy_str("reality"),
        live,
        declared: RealityLayer { observations: declared },
        resolved: RealityLayer { observations: resolved },
        installed: RealityLayer { observations: inst },
        runtime: RealityLayer { observations: runtime },
        cargo: copy_opt_cargo(&detection.cargo),
    }
}

// ---------------------------------------------------------------------------
// Drift
// ---------------------------------------------------------------------------
#[derive(Debug)]
pub struct DriftEvidence {
    pub source: String,
    pub kind: String,
}

#[derive(Debug)]
pub struct DriftItem {
    pub subject: String,
    pub status: String,
    pub expected: String,
    pub actual: String,
    pub evidence: Vec<DriftEvidence>,
}

#[derive(Debug)]
pub struct DriftOutput {
    pub schema_version: String,
    pub command: String,
    pub live: bool,
    pub status: String,
    pub issues: Vec<DriftItem>,
    pub cargo: Option<CargoObservation>,
}

pub type IssueView = (Seq<char>, Seq<char>, Seq<char>, Seq<char>, Seq<(Seq<char>, Seq<char>)>);

pub open spec fn issue_view(i: DriftItem) -> IssueView {
    (i.subject@, i.status@, i.expected@, i.actual@, i.evidence@.map_values(|e: DriftEvidence| (e.source@, e.kind@)))
}

pub open spec fn issues_view(v: Seq<DriftItem>) -> Seq<IssueView> {
    v.map_values(|i: DriftItem| issue_view(i))
}

/// The JavaScript lockfiles, each with the manager it stands for.
pub open spec fn js_locks(ls: Seq<Seq<char>>) -> Seq<(crate::model::PackageManager, Seq<char>)>
    decreases ls.len(),
{
    if ls.len() == 0 {
        seq![]
    } else {
        js_locks(ls.drop_last()) + match crate::manager::spec_manager_from_lockfile(ls.last()) {
            Some(m) => seq![(m, ls.last())],
            None => seq![],
        }
    }
}

pub open spec fn lock_names_of(ls: Seq<(crate::model::PackageManager, Seq<char>)>) -> Seq<Seq<char>> {
    ls.map_values(|e: (crate::model::PackageManager, Seq<char>)| e.1)
}

pub open spec fn resolved_sources(files: Seq<Seq<char>>) -> Seq<(Seq<char>, Seq<char>)> {
    files.map_values(|f: Seq<char>| (f, "resolved"@))
}

/// The manager `packageManager` declares, when it is a recognized one.
pub open spec fn declared_manager(d: RepositoryDetection) -> Option<crate::model::PackageManager> {
    match d.package_json_data {
        Some(data) => match data.package_manager_field {
            Some(f) => match crate::manager::spec_parse_package_manager_field(f@) {
                Some((m, _)) => Some(m),
                None => None,
            },
            None => None,
        },
        None => None,
    }
}

/// Where the package manager and the lockfiles disagree, or several
/// lockfiles stand for different managers with none declared.
pub open spec fn manager_issues(d: RepositoryDetection) -> Seq<IssueView> {
    let locks = js_locks(views(d.lockfiles@));
    let files = lock_names_of(locks);
    match declared_manager(d) {
        Some(m) => if exists|i: int| 0 <= i < locks.len() && (#[trigger] locks[i]).0 != m {
            seq![
                (
                    "."@,
                    "drift"@,
                    crate::manager::spec_manager_name(m),
                    crate::text::join(files, ", "@),
                    resolved_sources(files) + seq![("package.json"@, "declared"@)],
                ),
            ]
        } else {
            seq![]
        },
        None => if exists|i: int, j: int|
            0 <= i < locks.len() && 0 <= j < locks.len() && (#[trigger] locks[i]).0 != (#[trigger] locks[j]).0 {
            seq![
                (
                    "."@,
                    "ambiguous"@,
                    "one JavaScript package-manager authority"@,
                    crate::text::join(files, ", "@),
                    resolved_sources(files),
                ),
            ]
        } else {
            seq![]
        },
    }
}

pub open spec fn missing_issues(names: Seq<Seq<char>>, lock_text: Seq<char>, lockfile: Seq<char>) -> Seq<IssueView>
    decreases names.len(),
{
    if names.len() == 0 {
        seq![]
    } else {
        let n = names.last();
        missing_issues(names.drop_last(), lock_text, lockfile) + if !crate::text::contains(lock_text, n) {
            seq![
                (
                    "./"@ + n,
                    "drift"@,
                    "declared dependency in resolved lockfile"@,
                    n + " missing from "@ + lockfile,
                    seq![("package.json"@, "declared"@), (lockfile, "resolved"@)],
                ),
            ]
        } else {
            seq![]
        }
    }
}

/// Declared dependencies that the selected lockfile does not mention.
pub open spec fn lock_issues(d: RepositoryDetection, lock_text: Seq<char>) -> Seq<IssueView> {
    match (d.package_json_data, d.manager) {
        (Some(data), Some(m)) => match m.lockfile {
            Some(l) => missing_issues(keys_of(data.dependencies), lock_text, l@),
            None => seq![],
        },
        _ => seq![],
    }
}

pub open spec fn component_issues(cs: Seq<ComponentView>, f: InstalledDirs) -> Seq<IssueView>
    decreases cs.len(),
{
    if cs.len() == 0 {
        seq![]
    } else {
        let c = cs.last();
        component_issues(cs.drop_last(), f) + (if c.ecosystem == Ecosystem::Python && c.lockfiles.len() > 1 {
            seq![
                (
                    c.path,
                    "ambiguous"@,
                    "one Python resolution authority"@,
                    crate::text::join(c.lockfiles, ", "@),
                    c.lockfiles.map_values(|l: Seq<char>| (c.path + "/"@ + l, "resolved"@)),
                ),
            ]
        } else {
            seq![]
        }) + if c.ecosystem == Ecosystem::JavaScript && !has_dir(f, c.path, "node_modules"@) {
            seq![
                (
                    c.path,
                    "drift"@,
                    "installed dependencies"@,
                    "node_modules/ absent"@,
                    seq![("package.json"@, "declared"@), ("node_modules/"@, "installed"@)],
                ),
            ]
        } else {
            seq![]
        }
    }
}

pub open spec fn live_issues(cs: Seq<ComponentView>) -> Seq<IssueView>
    decreases cs.len(),
{
    if cs.len() == 0 {
        seq![]
    } else {
        live_issues(cs.drop_last()) + if cs.last().ecosystem == Ecosystem::Container {
            seq![
                (
                    cs.last().path,
                    "unknown"@,
                    "declared runtime services"@,
                    "runtime not established"@,
                    seq![("docker compose ps"@, "runtime"@)],
                ),
            ]
        } else {
            seq![]
        }
    }
}

/// Issues are ordered by subject, then status.
pub open spec fn issue_lt(a: IssueView, b: IssueView) -> bool {
    lex_lt(a.0, b.0) || (a.0 == b.0 && lex_lt(a.1, b.1))
}

pub open spec fn spec_drift_issues(d: RepositoryDetection, live: bool, lock_text: Seq<char>, f: InstalledDirs) -> Seq<IssueView> {
    let cs = components_view(d.components@);
    sort_by(
        manager_issues(d) + lock_issues(d, lock_text) + component_issues(cs, f) + if live {
            live_issues(cs)
        } else {
            seq![]
        },
        |a: IssueView, b: IssueView| issue_lt(a, b),
    )
}

/// The overall status: `drift` if any issue is a drift, `match` when there
/// is no issue, else `ambiguous`.
pub open spec fn drift_status(issues: Seq<IssueView>) -> Seq<char> {
    if exists|i: int| 0 <= i < issues.len() && (#[trigger] issues[i]).1 == "drift"@ {
        "drift"@
    } else if issues.len() == 0 {
        "match"@
    } else {
        "ambiguous"@
    }
}

pub open spec fn drift_matches(o: DriftOutput, d: RepositoryDetection, live: bool, lock_text: Seq<char>, f: InstalledDirs) -> bool {
    &&& o.schema_version@ == "1"@
    &&& o.command@ == "drift"@
    &&& o.live == live
    &&& issues_view(o.issues@) == spec_drift_issues(d, live, lock_text, f)
    &&& o.status@ == drift_status(issues_view(o.issues@))
    &&& opt_cargo_view(o.cargo) == opt_cargo_view(d.cargo)
}

fn evidence_pair(source: &str, kind: &str) -> (e: DriftEvidence)
    ensures
        (e.source@, e.kind@) == (source@, kind@),
{
    DriftEvidence { source: copy_str(source), kind: copy_str(kind) }
}

fn push_issue(out: &mut Vec<DriftItem>, item: DriftItem)
    ensures
        issues_view(final(out)@) == issues_view(old(out)@).push(issue_view(item)),
{
    out.push(item);
    assert(issues_view(out@) =~= issues_view(old(out)@).push(issue_view(item)));
}

pub fn js_locks_of(lockfiles: &Vec<String>) -> (r: (Vec<crate::model::PackageManager>, Vec<String>))
    ensures
        r.0@.len() == r.1@.len(),
        js_locks(views(lockfiles@)) == r.0@.zip_with(views(r.1@)),
{
    let mut ms: Vec<crate::model::PackageManager> = Vec::new();
    let mut fs: Vec<String> = Vec::new();
    let mut i: usize = 0;
    while i < lockfiles.len()
        invariant
            i <= lockfiles.len(),
            ms@.len() == fs@.len(),
            js_locks(views(lockfiles@.take(i as int))) == ms@.zip_with(views(fs@)),
        decreases lockfiles.len() - i,
    {
        assert(views(lockfiles@.take(i + 1)).drop_last() =~= views(lockfiles@.take(i as int)));
        let ghost pre = ms@.zip_with(views(fs@));
        match crate::manager::manager_from_lockfile(lockfiles[i].as_str()) {
            Some(m) => {
                ms.push(m);
                fs.push(lockfiles[i].clone());
                assert(ms@.zip_with(views(fs@)) =~= pre.push((m, lockfiles@[i as int]@)));
            },
            None => {},
        }
        assert(js_locks(views(lockfiles@.take(i + 1))) =~= ms@.zip_with(views(fs@)));
        i += 1;
    }
    assert(lockfiles@.take(lockfiles.len() as int) =~= lockfiles@);
    (ms, fs)
}

fn resolved_evidence(files: &Vec<String>) -> (r: Vec<DriftEvidence>)
    ensures
        r@.map_values(|e: DriftEvidence| (e.source@, e.kind@)) == resolved_sources(views(files@)),
{
    let mut r: Vec<DriftEvidence> = Vec::new();
    let mut i: usize = 0;
    while i < files.len()
        invariant
            i <= files.len(),
            r@.map_values(|e: DriftEvidence| (e.source@, e.kind@)) == resolved_sources(views(files@.take(i as int))),
        decreases files.len() - i,
    {
        let ghost pre = r@.map_values(|e: DriftEvidence| (e.source@, e.kind@));
        let e = evidence_pair(files[i].as_str(), "resolved");
        r.push(e);
        assert(r@.map_values(|e: DriftEvidence| (e.source@, e.kind@)) =~= pre.push((files@[i as int]@, "resolved"@)));
        assert(views(files@.take(i + 1)) =~= views(files@.take(i as int)).push(files@[i as int]@));
        assert(resolved_sources(views(files@.take(i + 1))) =~= resolved_sources(views(files@.take(i as int))).push((files@[i as int]@, "resolved"@)));
        i += 1;
    }
    assert(files@.take(files.len() as int) =~= files@);
    r
}

fn declared_manager_of(d: &RepositoryDetection) -> (r: Option<crate::model::PackageManager>)
    ensures
        r == declared_manager(*d),
{
    match &d.package_json_data {
        Some(data) => match &data.package_manager_field {
            Some(f) => match crate::manager::parse_package_manager_field(f.as_str()) {
                Some((m, _)) => Some(m),
                None => None,
            },
            None => None,
        },
        None => None,
    }
}

fn manager_issues_of(d: &RepositoryDetection, out: &mut Vec<DriftItem>)
    ensures
        issues_view(final(out)@) == issues_view(old(out)@) + manager_issues(*d),
{
    let (ms, fs) = js_locks_of(&d.lockfiles);
    let ghost locks = js_locks(views(d.lockfiles@));
    assert(lock_names_of(locks) =~= views(fs@));
    let actual = crate::text::join_strings(fs.as_slice(), ", ");
    match declared_manager_of(d) {
        Some(m) => {
            let mut i: usize = 0;
            let mut differs = false;
            while i < ms.len()
                invariant
                    i <= ms.len(),
                    ms@.len() == fs@.len(),
                    locks == ms@.zip_with(views(fs@)),
                    differs == exists|k: int| 0 <= k < i && (#[trigger] locks[k]).0 != m,
                decreases ms.len() - i,
            {
                if ms[i] != m {
                    differs = true;
                }
                assert(locks[i as int].0 == ms@[i as int]);
                i += 1;
            }
            if differs {
                let mut evidence = resolved_evidence(&fs);
                let ghost e0 = evidence@.map_values(|e: DriftEvidence| (e.source@, e.kind@));
                evidence.push(evidence_pair("package.json", "declared"));
                assert(evidence@.map_values(|e: DriftEvidence| (e.source@, e.kind@)) =~= e0 + seq![("package.json"@, "declared"@)]);
                push_issue(
                    out,
                    DriftItem {
                        subject: copy_str("."),
                        status: copy_str("drift"),
                        expected: copy_str(m.display_name()),
                        actual,
                        evidence,
                    },
                );
            } else {
                assert(issues_view(out@) =~= issues_view(out@) + Seq::<IssueView>::empty());
            }
        },
        None => {
            let mut differs = false;
            if ms.len() > 0 {
                let first = ms[0];
                let mut i: usize = 0;
                while i < ms.len()
                    invariant
                        i <= ms.len(),
                        ms@.len() > 0,
                        first == ms@[0],
                        ms@.len() == fs@.len(),
                        locks == ms@.zip_with(views(fs@)),
                        differs == exists|k: int| 0 <= k < i && (#[trigger] locks[k]).0 != first,
                    decreases ms.len() - i,
                {
                    if ms[i] != first {
                        differs = true;
                    }
                    assert(locks[i as int].0 == ms@[i as int]);
                    i += 1;
                }
                assert(locks[0].0 == first);
                if !differs {
                    assert forall|a: int, b: int| 0 <= a < locks.len() && 0 <= b < locks.len() implies !((
                    #[trigger] locks[a]).0 != (#[trigger] locks[b]).0) by {
                        assert(!(locks[a].0 != first));
                        assert(!(locks[b].0 != first));
                    }
                }
            }
            if differs {
                let evidence = resolved_evidence(&fs);
                push_issue(
                    out,
                    DriftItem {
                        subject: copy_str("."),
                        status: copy_str("ambiguous"),
                        expected: copy_str("one JavaScript package-manager authority"),
                        actual,
                        evidence,
                    },
                );
            } else {
                assert(issues_view(out@) =~= issues_view(out@) + Seq::<IssueView>::empty());
            }
        },
    }
}

fn lock_issues_of(d: &RepositoryDetection, lock_text: &str, out: &mut Vec<DriftItem>)
    ensures
        issues_view(final(out)@) == issues_view(old(out)@) + lock_issues(*d, lock_text@),
{
    let ghost start = issues_view(out@);
    match (&d.package_json_data, &d.manager) {
        (Some(data), Some(m)) => match &m.lockfile {
            Some(l) => {
                let ks = &data.dependencies;
                let ghost names = keys_of(*ks);
                let mut i: usize = 0;
                while i < ks.len()
                    invariant
                        i <= ks.len(),
                        names == keys_of(*ks),
                        issues_view(out@) == start + missing_issues(names.take(i as int), lock_text@, l@),
                    decreases ks.len() - i,
                {
                    assert(names.take(i + 1).drop_last() =~= names.take(i as int));
                    assert(names.take(i + 1).last() == ks@[i as int].0@);
                    let name = ks[i].0.as_str();
                    if !crate::text::contains_str(lock_text, name) {
                        let mut evidence: Vec<DriftEvidence> = Vec::new();
                        evidence.push(evidence_pair("package.json", "declared"));
                        evidence.push(evidence_pair(l.as_str(), "resolved"));
                        assert(evidence@.map_values(|e: DriftEvidence| (e.source@, e.kind@)) =~= seq![("package.json"@, "declared"@), (l@, "resolved"@)]);
                        push_issue(
                            out,
                            DriftItem {
                                subject: concat("./", name),
                                status: copy_str("drift"),
                                expected: copy_str("declared dependency in resolved lockfile"),
                                actual: concat3(name, " missing from ", l.as_str()),
                                evidence,
                            },
                        );
                    }
                    assert(issues_view(out@) =~= start + missing_issues(names.take(i + 1), lock_text@, l@));
                    i += 1;
                }
                assert(names.take(ks.len() as int) =~= names);
            },
            None => {
                assert(issues_view(out@) =~= start + Seq::<IssueView>::empty());
            },
        },
        _ => {
            assert(issues_view(out@) =~= start + Seq::<IssueView>::empty());
        },
    }
}

fn component_issues_of(cs: &Vec<Component>, f: &InstalledDirs, live: bool, out: &mut Vec<DriftItem>)
    ensures
        issues_view(final(out)@) == issues_view(old(out)@) + component_issues(components_view(cs@), *f) + if live {
            live_issues(components_view(cs@))
        } else {
            seq![]
        },
{
    let ghost start = issues_view(out@);
    let ghost cv = components_view(cs@);
    let mut i: usize = 0;
    while i < cs.len()
        invariant
            i <= cs.len(),
            cv == components_view(cs@),
            issues_view(out@) == start + component_issues(cv.take(i as int), *f),
        decreases cs.len() - i,
    {
        assert(cv.take(i + 1).drop_last() =~= cv.take(i as int));
        assert(cv.take(i + 1).last() == cs@[i as int]@);
        let c = &cs[i];
        let ghost pre = issues_view(out@);
        let python = match c.ecosystem {
            Ecosystem::Python => true,
            _ => false,
        };
        let js = match c.ecosystem {
            Ecosystem::JavaScript => true,
            _ => false,
        };
        if python && c.lockfiles.len() > 1 {
            let mut evidence: Vec<DriftEvidence> = Vec::new();
            let mut j: usize = 0;
            while j < c.lockfiles.len()
                invariant
                    j <= c.lockfiles.len(),
                    evidence@.map_values(|e: DriftEvidence| (e.source@, e.kind@)) == views(c.lockfiles@.take(j as int)).map_values(
                        |l: Seq<char>| (c.path@ + "/"@ + l, "resolved"@),
                    ),
                decreases c.lockfiles.len() - j,
            {
                let ghost e0 = evidence@.map_values(|e: DriftEvidence| (e.source@, e.kind@));
                let src = concat3(c.path.as_str(), "/", c.lockfiles[j].as_str());
                let e = DriftEvidence { source: src, kind: copy_str("resolved") };
                evidence.push(e);
                assert(evidence@.map_values(|e: DriftEvidence| (e.source@, e.kind@)) =~= e0.push((e.source@, e.kind@)));
                assert(views(c.lockfiles@.take(j + 1)) =~= views(c.lockfiles@.take(j as int)).push(c.lockfiles@[j as int]@));
                assert(views(c.lockfiles@.take(j + 1)).map_values(|l: Seq<char>| (c.path@ + "/"@ + l, "resolved"@)) =~= views(
                    c.lockfiles@.take(j as int),
                ).map_values(|l: Seq<char>| (c.path@ + "/"@ + l, "resolved"@)).push((e.source@, e.kind@)));
                j += 1;
            }
            assert(c.lockfiles@.take(c.lockfiles.len() as int) =~= c.lockfiles@);
            push_issue(
                out,
                DriftItem {
                    subject: c.path.clone(),
                    status: copy_str("ambiguous"),
                    expected: copy_str("one Python resolution authority"),
                    actual: crate::text::join_strings(c.lockfiles.as_slice(), ", "),
                    evidence,
                },
            );
        }
        let ghost mid = issues_view(out@);
        if js && !has_installed_dir(f, c.path.as_str(), "node_modules") {
            let mut evidence: Vec<DriftEvidence> = Vec::new();
            evidence.push(evidence_pair("package.json", "declared"));
            evidence.push(evidence_pair("node_modules/", "installed"));
            assert(evidence@.map_values(|e: DriftEvidence| (e.source@, e.kind@)) =~= seq![("package.json"@, "declared"@), ("node_modules/"@, "installed"@)]);
            push_issue(
                out,
                DriftItem {
                    subject: c.path.clone(),
                    status: copy_str("drift"),
                    expected: copy_str("installed dependencies"),
                    actual: copy_str("node_modules/ absent"),
                    evidence,
                },
            );
        }
        assert(issues_view(out@) =~= start + component_issues(cv.take(i + 1), *f));
        i += 1;
    }
    assert(cv.take(cs.len() as int) =~= cv);
    let ghost after = issues_view(out@);
    if live {
        let mut i: usize = 0;
        while i < cs.len()
            invariant
                i <= cs.len(),
                cv == components_view(cs@),
                issues_view(out@) == after + live_issues(cv.take(i as int)),
            decreases cs.len() - i,
        {
            assert(cv.take(i + 1).drop_last() =~= cv.take(i as int));
            assert(cv.take(i + 1).last() == cs@[i as int]@);
            let c = &cs[i];
            let container = match c.ecosystem {
                Ecosystem::Container => true,
                _ => false,
            };
            if container {
                let mut evidence: Vec<DriftEvidence> = Vec::new();
                evidence.push(evidence_pair("docker compose ps", "runtime"));
                assert(evidence@.map_values(|e: DriftEvidence| (e.source@, e.kind@)) =~= seq![("docker compose ps"@, "runtime"@)]);
                push_issue(
                    out,
                    DriftItem {
                        subject: c.path.clone(),
                        status: copy_str("unknown"),
                        expected: copy_str("declared runtime services"),
                        actual: copy_str("runtime not established"),
                        evidence,
                    },
                );
            }
            assert(issues_view(out@) =~= after + live_issues(cv.take(i + 1)));
            i += 1;
        }
        assert(cv.take(cs.len() as int) =~= cv);
    } else {
        assert(issues_view(out@) =~= after + Seq::<IssueView>::empty());
    }
}

pub open spec fn exec_issue_lt() -> spec_fn(DriftItem, DriftItem) -> bool {
    |a: DriftItem, b: DriftItem| issue_lt(issue_view(a), issue_view(b))
}

/// Where a project's layers disagree: the declared package manager and the
/// lockfiles, declared dependencies and the selected lockfile's text
/// (`lock_text`), Python lockfiles, installed JavaScript dependencies, and
/// (when `live`) container runtimes. Issues are ordered by subject, then
/// status; the status is `match` exactly when there is no issue.
pub fn build_drift(detection: &RepositoryDetection, live: bool, lock_text: &str, installed: &InstalledDirs) -> (o: DriftOutput)
    ensures
        drift_matches(o, *detection, live, lock_text@, *installed),
        o.status@ == "match"@ <==> o.issues@.len() == 0,
{
    let mut issues: Vec<DriftItem> = Vec::new();
    assert(issues_view(issues@) =~= seq![]);
    manager_issues_of(detection, &mut issues);
    lock_issues_of(detection, lock_text, &mut issues);
    component_issues_of(&detection.components, installed, live, &mut issues);
    let ghost unsorted = issues@;
    assert(issues_view(unsorted) =~= manager_issues(*detection) + lock_issues(*detection, lock_text@) + component_issues(
        components_view(detection.components@),
        *installed,
    ) + if live {
        live_issues(components_view(detection.components@))
    } else {
        seq![]
    });
    let lt = |a: &DriftItem, b: &DriftItem| -> (res: bool)
        ensures
            res == issue_lt(issue_view(*a), issue_view(*b)),
        {
            crate::order::str_lt(a.subject.as_str(), b.subject.as_str()) || (str_eq(a.subject.as_str(), b.subject.as_str())
                && crate::order::str_lt(a.status.as_str(), b.status.as_str()))
        };
    let issues = crate::order::sort_vec_by(issues, lt, Ghost(exec_issue_lt()));
    proof {
        crate::order::lemma_sort_by_map(unsorted, |i: DriftItem| issue_view(i), exec_issue_lt(), |a: IssueView, b: IssueView| issue_lt(a, b));
        assert(unsorted.map_values(|i: DriftItem| issue_view(i)) =~= issues_view(unsorted));
        assert(issues@.map_values(|i: DriftItem| issue_view(i)) =~= issues_view(issues@));
    }
    let ghost iv = issues_view(issues@);
    let mut any_drift = false;
    let mut i: usize = 0;
    while i < issues.len()
        invariant
            i <= issues.len(),
            iv == issues_view(issues@),
            any_drift == exists|k: int| 0 <= k < i && (#[trigger] iv[k]).1 == "drift"@,
        decreases issues.len() - i,
    {
        if str_eq(issues[i].status.as_str(), "drift") {
            any_drift = true;
        }
        assert(iv[i as int].1 == issues@[i as int].status@);
        i += 1;
    }
    let status = if any_drift {
        copy_str("drift")
    } else if issues.len() == 0 {
        copy_str("match")
    } else {
        copy_str("ambiguous")
    };
    proof {
        reveal_strlit("match");
        reveal_strlit("drift");
        reveal_strlit("ambiguous");
        assert("drift"@[0] != "match"@[0]);
        assert("ambiguous"@[0] != "match"@[0]);
    }
    DriftOutput {
        schema_version: copy_str("1"),
        command: copy_str("drift"),
        live,
        status,
        issues,
        cargo: copy_opt_cargo(&detection.cargo),
    }
}

// ---------------------------------------------------------------------------
// Text reports
// ---------------------------------------------------------------------------
/// The line a component node gives: its id and its ecosystem as JSON.
pub open spec fn component_line(n: NodeView) -> Seq<char> {
    n.0 + " ("@ + seq!['"'] + crate::output::spec_ecosystem_name(n.2) + seq!['"'] + ")"@
}

pub open spec fn component_lines(ns: Seq<NodeView>) -> Seq<Seq<char>>
    decreases ns.len(),
{
    if ns.len() == 0 {
        seq![]
    } else {
        component_lines(ns.drop_last()) + if ns.last().1 == "component"@ {
            seq![component_line(ns.last())]
        } else {
            seq![]
        }
    }
}

pub open spec fn spec_render_graph(g: GraphOutput) -> Seq<char> {
    crate::text::join(seq!["PROJECT GRAPH"@] + component_lines(nodes_view(g.nodes@)), "\n"@)
}

fn ecosystem_json(e: Ecosystem) -> (r: String)
    ensures
        r@ == seq!['"'] + crate::output::spec_ecosystem_name(e) + seq!['"'],
{
    let name = crate::output::ecosystem_name(e);
    proof {
        reveal_strlit("javascript");
        reveal_strlit("python");
        reveal_strlit("rust");
        reveal_strlit("container");
        let s = crate::output::spec_ecosystem_name(e);
        assert forall|i: int| 0 <= i < s.len() implies s[i] != '"' && s[i] != '\\' && (s[i] as u32) >= 0x20 by {
            assert('a' <= s[i] <= 'z');
        }
    }
    crate::json::json_string_literal(name)
}

/// The text report of a graph: a heading and one line per component.
pub fn render_graph(g: &GraphOutput) -> (r: String)
    ensures
        r@ == spec_render_graph(*g),
{
    let mut lines: Vec<String> = Vec::new();
    lines.push(copy_str("PROJECT GRAPH"));
    let ghost nv = nodes_view(g.nodes@);
    let mut i: usize = 0;
    while i < g.nodes.len()
        invariant
            i <= g.nodes.len(),
            nv == nodes_view(g.nodes@),
            views(lines@) == seq!["PROJECT GRAPH"@] + component_lines(nv.take(i as int)),
        decreases g.nodes.len() - i,
    {
        assert(nv.take(i + 1).drop_last() =~= nv.take(i as int));
        assert(nv.take(i + 1).last() == node_view(g.nodes@[i as int]));
        let ghost pre = views(lines@);
        let n = &g.nodes[i];
        if str_eq(n.kind.as_str(), "component") {
            let head = concat(n.id.as_str(), " (");
            let eco = ecosystem_json(n.ecosystem);
            let line = concat3(head.as_str(), eco.as_str(), ")");
            assert(line@ =~= component_line(node_view(*n)));
            lines.push(line);
            assert(views(lines@) =~= pre.push(line@));
        }
        assert(views(lines@) =~= seq!["PROJECT GRAPH"@] + component_lines(nv.take(i + 1)));
        i += 1;
    }
    assert(nv.take(g.nodes.len() as int) =~= nv);
    crate::text::join_strings(lines.as_slice(), "\n")
}

pub open spec fn spec_render_reality(o: RealityOutput) -> Seq<char> {
    let declared = crate::text::decimal(o.declared.observations@.len());
    "PROJECT\n  "@ + declared + " components\nDECLARED\n  "@ + declared + "\nRESOLVED\n  "@ + crate::text::decimal(
        o.resolved.observations@.len(),
    ) + "\nINSTALLED\n  "@ + crate::text::decimal(o.installed.observations@.len()) + "\nRUNTIME\n  "@ + if o.live {
        "inspected"@
    } else {
        "not inspected"@
    }
}

/// The text report of reality: the number of observations in each layer.
pub fn render_reality(o: &RealityOutput) -> (r: String)
    ensures
        r@ == spec_render_reality(*o),
{
    let declared = crate::text::decimal_string(o.declared.observations.len() as u128);
    let resolved = crate::text::decimal_string(o.resolved.observations.len() as u128);
    let installed = crate::text::decimal_string(o.installed.observations.len() as u128);
    let a = concat3("PROJECT\n  ", declared.as_str(), " components\nDECLARED\n  ");
    let b = concat3(a.as_str(), declared.as_str(), "\nRESOLVED\n  ");
    let c = concat3(b.as_str(), resolved.as_str(), "\nINSTALLED\n  ");
    let d = concat3(c.as_str(), installed.as_str(), "\nRUNTIME\n  ");
    let runtime = if o.live {
        "inspected"
    } else {
        "not inspected"
    };
    concat(d.as_str(), runtime)
}

pub open spec fn issue_line(i: IssueView) -> Seq<char> {
    "  "@ + i.0 + "\n    "@ + i.3
}

pub open spec fn spec_render_drift(o: DriftOutput) -> Seq<char> {
    let is = issues_view(o.issues@);
    if is.len() == 0 {
        "NO DRIFT"@
    } else {
        crate::text::join(
            seq![crate::text::decimal(is.len()) + " issues"@] + is.map_values(|i: IssueView| issue_line(i)),
            "\n"@,
        )
    }
}

/// The text report of drift: `NO DRIFT`, or the number of issues and each
/// issue's subject and what was found.
pub fn render_drift(o: &DriftOutput) -> (r: String)
    ensures
        r@ == spec_render_drift(*o),
{
    if o.issues.len() == 0 {
        return copy_str("NO DRIFT");
    }
    let count = crate::text::decimal_string(o.issues.len() as u128);
    let mut lines: Vec<String> = Vec::new();
    lines.push(concat(count.as_str(), " issues"));
    let ghost iv = issues_view(o.issues@);
    let ghost head = crate::text::decimal(iv.len()) + " issues"@;
    let mut i: usize = 0;
    while i < o.issues.len()
        invariant
            i <= o.issues.len(),
            iv == issues_view(o.issues@),
            views(lines@) == seq![head] + iv.take(i as int).map_values(|x: IssueView| issue_line(x)),
        decreases o.issues.len() - i,
    {
        let ghost pre = views(lines@);
        let line = concat3(concat("  ", o.issues[i].subject.as_str()).as_str(), "\n    ", o.issues[i].actual.as_str());
        lines.push(line);
        assert(views(lines@) =~= pre.push(line@));
        assert(iv.take(i + 1) =~= iv.take(i as int).push(iv[i as int]));
        assert(iv.take(i + 1).map_values(|x: IssueView| issue_line(x)) =~= iv.take(i as int).map_values(|x: IssueView| issue_line(x)).push(line@));
        i += 1;
    }
    assert(iv.take(o.issues.len() as int) =~= iv);
    crate::text::join_strings(lines.as_slice(), "\n")
}

// ---------------------------------------------------------------------------
// The graph's order
// ---------------------------------------------------------------------------
pub open spec fn pair_lt(a0: Seq<char>, a1: Seq<char>, b0: Seq<char>, b1: Seq<char>) -> bool {
    lex_lt(a0, b0) || (a0 == b0 && lex_lt(a1, b1))
}

proof fn lemma_pair_order(a0: Seq<char>, a1: Seq<char>, b0: Seq<char>, b1: Seq<char>, c0: Seq<char>, c1: Seq<char>)
    ensures
        !pair_lt(a0, a1, a0, a1),
        pair_lt(a0, a1, b0, b1) && pair_lt(b0, b1, c0, c1) ==> pair_lt(a0, a1, c0, c1),
        pair_lt(a0, a1, c0, c1) ==> pair_lt(a0, a1, b0, b1) || pair_lt(b0, b1, c0, c1),
        !pair_lt(a0, a1, b0, b1) && !pair_lt(b0, b1, a0, a1) ==> a0 == b0 && a1 == b1,
{
    crate::order::lemma_lex_irreflexive(a0);
    crate::order::lemma_lex_irreflexive(a1);
    crate::order::lemma_lex_total(a0, b0);
    crate::order::lemma_lex_total(a1, b1);
    crate::order::lemma_lex_total(b0, c0);
    crate::order::lemma_lex_total(b1, c1);
    crate::order::lemma_lex_total(a0, c0);
    crate::order::lemma_lex_total(a1, c1);
    if lex_lt(a0, b0) && lex_lt(b0, c0) {
        crate::order::lemma_lex_transitive(a0, b0, c0);
    }
    if lex_lt(a1, b1) && lex_lt(b1, c1) {
        crate::order::lemma_lex_transitive(a1, b1, c1);
    }
    if lex_lt(b0, a0) && lex_lt(a0, c0) {
        crate::order::lemma_lex_transitive(b0, a0, c0);
    }
    if lex_lt(a0, c0) && lex_lt(c0, b0) {
        crate::order::lemma_lex_transitive(a0, c0, b0);
    }
    if lex_lt(b1, a1) && lex_lt(a1, c1) {
        crate::order::lemma_lex_transitive(b1, a1, c1);
    }
    if lex_lt(a1, c1) && lex_lt(c1, b1) {
        crate::order::lemma_lex_transitive(a1, c1, b1);
    }
}

proof fn lemma_node_order()
    ensures
        crate::order::strict_weak(|a: NodeView, b: NodeView| node_lt(a, b)),
        forall|a: NodeView, b: NodeView| #[trigger] node_same(a, b) <== !node_lt(a, b) && !node_lt(b, a),
{
    let lt = |a: NodeView, b: NodeView| node_lt(a, b);
    assert forall|a: NodeView| !#[trigger] lt(a, a) by {
        lemma_pair_order(a.0, a.1, a.0, a.1, a.0, a.1);
    }
    assert forall|a: NodeView, b: NodeView, c: NodeView| #![trigger lt(a, b), lt(b, c)] lt(a, b) && lt(b, c) implies lt(a, c) by {
        lemma_pair_order(a.0, a.1, b.0, b.1, c.0, c.1);
    }
    assert forall|a: NodeView, b: NodeView, c: NodeView| #![trigger lt(a, c), lt(a, b)] #![trigger lt(a, c), lt(b, c)] lt(a, c) implies lt(a, b) || lt(b, c) by {
        lemma_pair_order(a.0, a.1, b.0, b.1, c.0, c.1);
    }
    assert forall|a: NodeView, b: NodeView| !node_lt(a, b) && !node_lt(b, a) implies #[trigger] node_same(a, b) by {
        lemma_pair_order(a.0, a.1, b.0, b.1, b.0, b.1);
    }
}

proof fn lemma_edge_order()
    ensures
        crate::order::strict_weak(|a: EdgeView, b: EdgeView| edge_lt(a, b)),
{
    let lt = |a: EdgeView, b: EdgeView| edge_lt(a, b);
    assert forall|a: EdgeView| !#[trigger] lt(a, a) by {
        lemma_pair_order(a.0, a.1, a.0, a.1, a.0, a.1);
    }
    assert forall|a: EdgeView, b: EdgeView, c: EdgeView| #![trigger lt(a, b), lt(b, c)] lt(a, b) && lt(b, c) implies lt(a, c) by {
        lemma_pair_order(a.0, a.1, b.0, b.1, c.0, c.1);
    }
    assert forall|a: EdgeView, b: EdgeView, c: EdgeView| #![trigger lt(a, c), lt(a, b)] #![trigger lt(a, c), lt(b, c)] lt(a, c) implies lt(a, b) || lt(b, c) by {
        lemma_pair_order(a.0, a.1, b.0, b.1, c.0, c.1);
    }
}

proof fn lemma_link_order()
    ensures
        crate::order::strict_weak(|a: LinkView, b: LinkView| link_lt(a, b)),
{
    let lt = |a: LinkView, b: LinkView| link_lt(a, b);
    let e: Seq<char> = seq![];
    assert forall|a: LinkView| !#[trigger] lt(a, a) by {
        lemma_pair_order(a.0, e, a.0, e, a.0, e);
    }
    assert forall|a: LinkView, b: LinkView, c: LinkView| #![trigger lt(a, b), lt(b, c)] lt(a, b) && lt(b, c) implies lt(a, c) by {
        lemma_pair_order(a.0, e, b.0, e, c.0, e);
        crate::order::lemma_lex_irreflexive(e);
    }
    assert forall|a: LinkView, b: LinkView, c: LinkView| #![trigger lt(a, c), lt(a, b)] #![trigger lt(a, c), lt(b, c)] lt(a, c) implies lt(a, b) || lt(b, c) by {
        lemma_pair_order(a.0, e, b.0, e, c.0, e);
        crate::order::lemma_lex_irreflexive(e);
    }
}

/// The graph comes in a fixed order: each node strictly after the one
/// before it by id, then kind (so no node is listed twice); edges ordered
/// by their ends; evidence ordered by edge.
pub proof fn law_graph_is_ordered(d: RepositoryDetection)
    ensures
        crate::order::is_increasing_by(spec_graph_nodes(d), |a: NodeView, b: NodeView| node_lt(a, b)),
        crate::order::is_sorted_by(spec_graph_edges(d), |a: EdgeView, b: EdgeView| edge_lt(a, b)),
        crate::order::is_sorted_by(spec_graph_links(d), |a: LinkView, b: LinkView| link_lt(a, b)),
{
    let parts = graph_parts(d);
    lemma_node_order();
    lemma_edge_order();
    lemma_link_order();
    crate::order::lemma_sort_by_sorted(parts.nodes, |a: NodeView, b: NodeView| node_lt(a, b));
    crate::order::lemma_dedup_sorted(
        sort_by(parts.nodes, |a: NodeView, b: NodeView| node_lt(a, b)),
        |a: NodeView, b: NodeView| node_lt(a, b),
        |a: NodeView, b: NodeView| node_same(a, b),
    );
    crate::order::lemma_sort_by_sorted(parts.edges, |a: EdgeView, b: EdgeView| edge_lt(a, b));
    crate::order::lemma_dedup_sorted(
        sort_by(parts.edges, |a: EdgeView, b: EdgeView| edge_lt(a, b)),
        |a: EdgeView, b: EdgeView| edge_lt(a, b),
        |a: EdgeView, b: EdgeView| edge_same(a, b),
    );
    crate::order::lemma_sort_by_sorted(parts.links, |a: LinkView, b: LinkView| link_lt(a, b));
}


/// The graph report: schema `1`, command `graph`, the detection's Cargo
/// report; nodes strictly ordered by id, then kind, so that no two share
/// both; edges ordered by their ends; evidence ordered by edge.
pub proof fn law_graph_report(g: GraphOutput, d: RepositoryDetection)
    requires
        graph_matches(g, d),
    ensures
        g.schema_version@ == "1"@,
        g.command@ == "graph"@,
        opt_cargo_view(g.cargo) == opt_cargo_view(d.cargo),
        crate::order::is_increasing_by(nodes_view(g.nodes@), |a: NodeView, b: NodeView| node_lt(a, b)),
        forall|i: int, j: int| 0 <= i < j < g.nodes@.len() ==> !((#[trigger] g.nodes@[i]).id@ == (#[trigger] g.nodes@[j]).id@
            && g.nodes@[i].kind@ == g.nodes@[j].kind@),
        crate::order::is_sorted_by(edges_view(g.edges@), |a: EdgeView, b: EdgeView| edge_lt(a, b)),
        crate::order::is_sorted_by(links_view(g.evidence@), |a: LinkView, b: LinkView| link_lt(a, b)),
{
    law_graph_is_ordered(d);
    let ns = nodes_view(g.nodes@);
    assert forall|i: int, j: int| 0 <= i < j < g.nodes@.len() implies !((#[trigger] g.nodes@[i]).id@ == (
    #[trigger] g.nodes@[j]).id@ && g.nodes@[i].kind@ == g.nodes@[j].kind@) by {
        assert(node_lt(ns[i], ns[j]));
        assert(ns[i] == node_view(g.nodes@[i]) && ns[j] == node_view(g.nodes@[j]));
        if g.nodes@[i].id@ == g.nodes@[j].id@ && g.nodes@[i].kind@ == g.nodes@[j].kind@ {
            crate::order::lemma_lex_irreflexive(ns[i].0);
            crate::order::lemma_lex_irreflexive(ns[i].1);
        }
    }
}

// ---------------------------------------------------------------------------
// The drift report
// ---------------------------------------------------------------------------
proof fn lemma_issue_order()
    ensures
        crate::order::strict_weak(|a: IssueView, b: IssueView| issue_lt(a, b)),
{
    let lt = |a: IssueView, b: IssueView| issue_lt(a, b);
    assert forall|a: IssueView| !#[trigger] lt(a, a) by {
        lemma_pair_order(a.0, a.1, a.0, a.1, a.0, a.1);
    }
    assert forall|a: IssueView, b: IssueView, c: IssueView| #![trigger lt(a, b), lt(b, c)] lt(a, b) && lt(b, c) implies lt(a, c) by {
        lemma_pair_order(a.0, a.1, b.0, b.1, c.0, c.1);
    }
    assert forall|a: IssueView, b: IssueView, c: IssueView| #![trigger lt(a, c), lt(a, b)] #![trigger lt(a, c), lt(b, c)] lt(a, c) implies lt(a, b) || lt(b, c) by {
        lemma_pair_order(a.0, a.1, b.0, b.1, c.0, c.1);
    }
}

proof fn lemma_missing_status(names: Seq<Seq<char>>, lock_text: Seq<char>, lockfile: Seq<char>)
    ensures
        forall|i: int| 0 <= i < missing_issues(names, lock_text, lockfile).len() ==> (#[trigger] missing_issues(
            names,
            lock_text,
            lockfile,
        )[i]).1 == "drift"@,
    decreases names.len(),
{
    if names.len() > 0 {
        let t = names.drop_last();
        lemma_missing_status(t, lock_text, lockfile);
        let prev = missing_issues(t, lock_text, lockfile);
        let r = missing_issues(names, lock_text, lockfile);
        assert forall|i: int| 0 <= i < r.len() implies (#[trigger] r[i]).1 == "drift"@ by {
            if i < prev.len() {
                assert(r[i] == prev[i]);
            }
        }
    }
}

proof fn lemma_component_status(cs: Seq<ComponentView>, f: InstalledDirs)
    ensures
        forall|i: int| 0 <= i < component_issues(cs, f).len() ==> (#[trigger] component_issues(cs, f)[i]).1 == "drift"@
            || component_issues(cs, f)[i].1 == "ambiguous"@,
    decreases cs.len(),
{
    if cs.len() > 0 {
        let t = cs.drop_last();
        lemma_component_status(t, f);
        let prev = component_issues(t, f);
        let r = component_issues(cs, f);
        assert forall|i: int| 0 <= i < r.len() implies (#[trigger] r[i]).1 == "drift"@ || r[i].1 == "ambiguous"@ by {
            if i < prev.len() {
                assert(r[i] == prev[i]);
            }
        }
    }
}

proof fn lemma_live_status(cs: Seq<ComponentView>)
    ensures
        forall|i: int| 0 <= i < live_issues(cs).len() ==> (#[trigger] live_issues(cs)[i]).1 == "unknown"@,
        live_issues(cs).len() > 0 <==> exists|j: int| 0 <= j < cs.len() && (#[trigger] cs[j]).ecosystem == Ecosystem::Container,
    decreases cs.len(),
{
    if cs.len() > 0 {
        let t = cs.drop_last();
        lemma_live_status(t);
        if exists|j: int| 0 <= j < t.len() && (#[trigger] t[j]).ecosystem == Ecosystem::Container {
            let j = choose|j: int| 0 <= j < t.len() && (#[trigger] t[j]).ecosystem == Ecosystem::Container;
            assert(cs[j] == t[j]);
        }
        if exists|j: int| 0 <= j < cs.len() && (#[trigger] cs[j]).ecosystem == Ecosystem::Container {
            let j = choose|j: int| 0 <= j < cs.len() && (#[trigger] cs[j]).ecosystem == Ecosystem::Container;
            if j < t.len() {
                assert(t[j] == cs[j]);
            }
        }
    }
}

/// What the drift report says, for every project: `live` as asked; the
/// issues ordered by subject, then status; the status `drift` exactly when
/// some issue drifts, `match` exactly when there is no issue, `ambiguous`
/// otherwise; and an issue of unknown status exactly when the runtime was
/// asked about and the project has a container component.
pub proof fn law_drift_report(o: DriftOutput, d: RepositoryDetection, live: bool, lock_text: Seq<char>, f: InstalledDirs)
    requires
        drift_matches(o, d, live, lock_text, f),
    ensures
        o.live == live,
        crate::order::is_sorted_by(issues_view(o.issues@), |a: IssueView, b: IssueView| issue_lt(a, b)),
        o.status@ == "drift"@ <==> exists|i: int| 0 <= i < o.issues@.len() && (#[trigger] o.issues@[i]).status@ == "drift"@,
        o.status@ == "match"@ <==> o.issues@.len() == 0,
        o.status@ == "ambiguous"@ <==> o.issues@.len() > 0 && !exists|i: int|
            0 <= i < o.issues@.len() && (#[trigger] o.issues@[i]).status@ == "drift"@,
        (exists|i: int| 0 <= i < o.issues@.len() && (#[trigger] o.issues@[i]).status@ == "unknown"@) <==> (live
            && exists|j: int|
            0 <= j < d.components@.len() && (#[trigger] d.components@[j]).ecosystem == Ecosystem::Container),
{
    broadcast use vstd::seq_lib::group_seq_properties;

    let cs = components_view(d.components@);
    let iv = issues_view(o.issues@);
    let lt = |a: IssueView, b: IssueView| issue_lt(a, b);
    let m = manager_issues(d);
    let l = lock_issues(d, lock_text);
    let c = component_issues(cs, f);
    let r = if live {
        live_issues(cs)
    } else {
        seq![]
    };
    let unsorted = m + l + c + r;
    lemma_issue_order();
    crate::order::lemma_sort_by_sorted(unsorted, lt);
    crate::order::lemma_sort_by_permutes(unsorted, lt);
    assert(iv == sort_by(unsorted, lt));
    reveal_strlit("drift");
    reveal_strlit("match");
    reveal_strlit("ambiguous");
    reveal_strlit("unknown");
    assert("drift"@[0] != "match"@[0] && "drift"@[0] != "ambiguous"@[0] && "match"@[0] != "ambiguous"@[0]);
    assert("unknown"@[0] != "drift"@[0] && "unknown"@[0] != "ambiguous"@[0]);
    // statuses, read through the view
    assert forall|i: int| 0 <= i < o.issues@.len() implies #[trigger] o.issues@[i].status@ == iv[i].1 by {}
    assert((exists|i: int| 0 <= i < o.issues@.len() && (#[trigger] o.issues@[i]).status@ == "drift"@) <==> exists|i: int|
        0 <= i < iv.len() && (#[trigger] iv[i]).1 == "drift"@) by {
        if exists|i: int| 0 <= i < iv.len() && (#[trigger] iv[i]).1 == "drift"@ {
            let i = choose|i: int| 0 <= i < iv.len() && (#[trigger] iv[i]).1 == "drift"@;
            assert(o.issues@[i].status@ == iv[i].1);
        }
    }
    // where an unknown issue can come from
    lemma_live_status(cs);
    lemma_component_status(cs, f);
    match (d.package_json_data, d.manager) {
        (Some(data), Some(mg)) => match mg.lockfile {
            Some(lf) => lemma_missing_status(keys_of(data.dependencies), lock_text, lf@),
            None => {},
        },
        _ => {},
    }
    assert forall|x: IssueView| #[trigger] unsorted.contains(x) && x.1 == "unknown"@ implies r.contains(x) by {
        if m.contains(x) {
            let i = choose|i: int| 0 <= i < m.len() && m[i] == x;
            assert(m[i].1 == "drift"@ || m[i].1 == "ambiguous"@);
        }
        if l.contains(x) {
            let i = choose|i: int| 0 <= i < l.len() && l[i] == x;
            assert(l[i].1 == "drift"@);
        }
        if c.contains(x) {
            let i = choose|i: int| 0 <= i < c.len() && c[i] == x;
            assert(c[i].1 == "drift"@ || c[i].1 == "ambiguous"@);
        }
    }
    let has_container = exists|j: int| 0 <= j < cs.len() && (#[trigger] cs[j]).ecosystem == Ecosystem::Container;
    assert(has_container <==> exists|j: int|
        0 <= j < d.components@.len() && (#[trigger] d.components@[j]).ecosystem == Ecosystem::Container) by {
        if has_container {
            let j = choose|j: int| 0 <= j < cs.len() && (#[trigger] cs[j]).ecosystem == Ecosystem::Container;
            assert(cs[j] == d.components@[j]@);
        }
        if exists|j: int| 0 <= j < d.components@.len() && (#[trigger] d.components@[j]).ecosystem == Ecosystem::Container {
            let j = choose|j: int| 0 <= j < d.components@.len() && (#[trigger] d.components@[j]).ecosystem == Ecosystem::Container;
            assert(cs[j] == d.components@[j]@);
        }
    }
    if exists|i: int| 0 <= i < o.issues@.len() && (#[trigger] o.issues@[i]).status@ == "unknown"@ {
        let i = choose|i: int| 0 <= i < o.issues@.len() && (#[trigger] o.issues@[i]).status@ == "unknown"@;
        assert(iv.contains(iv[i]));
        assert(unsorted.contains(iv[i]));
        assert(r.contains(iv[i]));
        assert(r.len() > 0);
    }
    if live && has_container {
        let x = r[0];
        assert(r.contains(x));
        assert(unsorted.contains(x));
        assert(iv.contains(x));
        let i = choose|i: int| 0 <= i < iv.len() && iv[i] == x;
        assert(o.issues@[i].status@ == "unknown"@);
    }
}

// ---------------------------------------------------------------------------
// The drift text
// ---------------------------------------------------------------------------
/// The text drift reports of one issue: a line with its subject, then one
/// with what was found.
pub open spec fn issue_text(i: IssueView) -> Seq<char> {
    "\n  "@ + i.0 + "\n    "@ + i.3
}

/// The drift text is `NO DRIFT` when there is no issue; else the number of
/// issues, then each issue's subject and what was found, in order.
pub proof fn law_drift_text(o: DriftOutput)
    ensures
        spec_render_drift(o) == if o.issues@.len() == 0 {
            "NO DRIFT"@
        } else {
            crate::text::decimal(o.issues@.len()) + " issues"@ + crate::text::concat_all(
                issues_view(o.issues@).map_values(|i: IssueView| issue_text(i)),
            )
        },
{
    let is = issues_view(o.issues@);
    if is.len() > 0 {
        let ls = is.map_values(|i: IssueView| issue_line(i));
        crate::text::lemma_join_head(crate::text::decimal(is.len()) + " issues"@, ls, "\n"@);
        reveal_strlit("\n");
        reveal_strlit("  ");
        reveal_strlit("\n  ");
        assert(ls.map_values(|x: Seq<char>| "\n"@ + x) =~= is.map_values(|i: IssueView| issue_text(i))) by {
            assert forall|k: int| 0 <= k < is.len() implies "\n"@ + ls[k] =~= issue_text(is[k]) by {
                assert("\n"@ + ("  "@ + is[k].0 + "\n    "@ + is[k].3) =~= "\n  "@ + is[k].0 + "\n    "@ + is[k].3);
            }
        }
    }
}

// ---------------------------------------------------------------------------
// The graph's contents
// ---------------------------------------------------------------------------
/// Some node of `ns` has this id and kind.
pub open spec fn has_node(ns: Seq<NodeView>, id: Seq<char>, kind: Seq<char>) -> bool {
    exists|i: int| 0 <= i < ns.len() && (#[trigger] ns[i]).0 == id && ns[i].1 == kind
}

/// What the graph shows of each declared JavaScript dependency of one map:
/// a dependency node and an edge of `kind` from the root.
pub open spec fn shows_js_dependencies(d: RepositoryDetection, names: Seq<Seq<char>>, kind: Seq<char>) -> bool {
    forall|n: Seq<char>| #[trigger] names.contains(n) ==> has_node(spec_graph_nodes(d), n, "dependency"@)
        && spec_graph_edges(d).contains(("."@, n, kind))
}

proof fn lemma_js_parts_contain(names: Seq<Seq<char>>, kind: Seq<char>, n: Seq<char>)
    requires
        names.contains(n),
    ensures
        js_dependency_parts(names, kind).nodes.contains((n, "dependency"@, Ecosystem::JavaScript)),
        js_dependency_parts(names, kind).edges.contains(("."@, n, kind)),
    decreases names.len(),
{
    broadcast use vstd::seq_lib::group_seq_properties;

    let t = names.drop_last();
    let prev = js_dependency_parts(t, kind);
    let p = js_dependency_parts(names, kind);
    if names.last() == n {
        assert(p.nodes[prev.nodes.len() as int] == (n, "dependency"@, Ecosystem::JavaScript));
        assert(p.edges[prev.edges.len() as int] == ("."@, n, kind));
    } else {
        let i = choose|i: int| 0 <= i < names.len() && names[i] == n;
        assert(t[i] == n);
        lemma_js_parts_contain(t, kind, n);
    }
}

proof fn lemma_component_parts_contain(cs: Seq<ComponentView>, ds: Seq<DepView>, c: ComponentView)
    requires
        cs.contains(c),
    ensures
        component_parts(cs, ds).nodes.contains((c.path, "component"@, c.ecosystem)),
    decreases cs.len(),
{
    broadcast use vstd::seq_lib::group_seq_properties;

    let t = cs.drop_last();
    let prev = component_parts(t, ds);
    let p = component_parts(cs, ds);
    if cs.last() == c {
        assert(p.nodes[prev.nodes.len() as int] == (c.path, "component"@, c.ecosystem));
    } else {
        let i = choose|i: int| 0 <= i < cs.len() && cs[i] == c;
        assert(t[i] == c);
        lemma_component_parts_contain(t, ds, c);
    }
}

proof fn lemma_member_parts_contain(root: Seq<char>, manifest: Seq<char>, ms: Seq<Seq<char>>, m: Seq<char>)
    requires
        ms.contains(m),
    ensures
        member_parts(root, manifest, ms).edges.contains((root, m, "workspace-member"@)),
    decreases ms.len(),
{
    broadcast use vstd::seq_lib::group_seq_properties;

    let t = ms.drop_last();
    let prev = member_parts(root, manifest, t);
    let p = member_parts(root, manifest, ms);
    if ms.last() == m {
        assert(p.edges[prev.edges.len() as int] == (root, m, "workspace-member"@));
    } else {
        let i = choose|i: int| 0 <= i < ms.len() && ms[i] == m;
        assert(t[i] == m);
        lemma_member_parts_contain(root, manifest, t, m);
    }
}

/// A node among the graph's parts is in the graph, up to its ecosystem.
proof fn lemma_node_kept(d: RepositoryDetection, x: NodeView)
    requires
        graph_parts(d).nodes.contains(x),
    ensures
        has_node(spec_graph_nodes(d), x.0, x.1),
{
    let lt = |a: NodeView, b: NodeView| node_lt(a, b);
    let same = |a: NodeView, b: NodeView| node_same(a, b);
    let sorted = sort_by(graph_parts(d).nodes, lt);
    crate::order::lemma_sort_by_permutes(graph_parts(d).nodes, lt);
    assert(sorted.contains(x));
    let k = choose|k: int| 0 <= k < sorted.len() && sorted[k] == x;
    crate::order::lemma_dedup_by_keeps(sorted, same);
    let r = dedup_by(sorted, same);
    let m = choose|m: int| 0 <= m < r.len() && (#[trigger] r[m] == #[trigger] sorted[k] || same(sorted[k], r[m]));
    assert(r[m].0 == x.0 && r[m].1 == x.1);
}

/// An edge among the graph's parts is in the graph.
proof fn lemma_edge_kept(d: RepositoryDetection, x: EdgeView)
    requires
        graph_parts(d).edges.contains(x),
    ensures
        spec_graph_edges(d).contains(x),
{
    let lt = |a: EdgeView, b: EdgeView| edge_lt(a, b);
    let same = |a: EdgeView, b: EdgeView| edge_same(a, b);
    let sorted = sort_by(graph_parts(d).edges, lt);
    crate::order::lemma_sort_by_permutes(graph_parts(d).edges, lt);
    assert(sorted.contains(x));
    let k = choose|k: int| 0 <= k < sorted.len() && sorted[k] == x;
    crate::order::lemma_dedup_by_keeps(sorted, same);
    let r = dedup_by(sorted, same);
    let m = choose|m: int| 0 <= m < r.len() && (#[trigger] r[m] == #[trigger] sorted[k] || same(sorted[k], r[m]));
    assert(r[m] == x);
}

/// The graph shows everything the project declares: each dependency of
/// `package.json` (runtime, development, optional and peer) as a dependency
/// node with an edge of that kind from the root; each component as a
/// component node; and each Cargo workspace member as an edge from the
/// workspace root.
pub proof fn law_graph_shows_declarations(d: RepositoryDetection)
    ensures
        match d.package_json_data {
            Some(data) => {
                &&& shows_js_dependencies(d, keys_of(data.dependencies), "runtime-dependency"@)
                &&& shows_js_dependencies(d, keys_of(data.dev_dependencies), "development-dependency"@)
                &&& shows_js_dependencies(d, keys_of(data.optional_dependencies), "optional-dependency"@)
                &&& shows_js_dependencies(d, keys_of(data.peer_dependencies), "peer-dependency"@)
            },
            None => true,
        },
        forall|c: ComponentView| #[trigger] components_view(d.components@).contains(c) ==> has_node(
            spec_graph_nodes(d),
            c.path,
            "component"@,
        ),
        match d.cargo {
            Some(x) => forall|m: Seq<char>| #[trigger] views(x.workspace_members@).contains(m)
                ==> spec_graph_edges(d).contains((x.workspace_root@, m, "workspace-member"@)),
            None => true,
        },
{
    broadcast use vstd::seq_lib::group_seq_properties;

    let parts = graph_parts(d);
    let cs = components_view(d.components@);
    let ds = deps_view(d.native_dependencies@);
    match d.package_json_data {
        Some(data) => {
            let a = js_dependency_parts(keys_of(data.dependencies), "runtime-dependency"@);
            let b = js_dependency_parts(keys_of(data.dev_dependencies), "development-dependency"@);
            let c = js_dependency_parts(keys_of(data.optional_dependencies), "optional-dependency"@);
            let e = js_dependency_parts(keys_of(data.peer_dependencies), "peer-dependency"@);
            assert(parts.nodes == a.nodes + b.nodes + c.nodes + e.nodes + component_parts(cs, ds).nodes + cargo_parts(
                d.cargo,
            ).nodes);
            assert(parts.edges == a.edges + b.edges + c.edges + e.edges + component_parts(cs, ds).edges + cargo_parts(
                d.cargo,
            ).edges);
            assert forall|n: Seq<char>| #[trigger] keys_of(data.dependencies).contains(n) implies has_node(
                spec_graph_nodes(d),
                n,
                "dependency"@,
            ) && spec_graph_edges(d).contains(("."@, n, "runtime-dependency"@)) by {
                lemma_js_parts_contain(keys_of(data.dependencies), "runtime-dependency"@, n);
                lemma_node_kept(d, (n, "dependency"@, Ecosystem::JavaScript));
                lemma_edge_kept(d, ("."@, n, "runtime-dependency"@));
            }
            assert forall|n: Seq<char>| #[trigger] keys_of(data.dev_dependencies).contains(n) implies has_node(
                spec_graph_nodes(d),
                n,
                "dependency"@,
            ) && spec_graph_edges(d).contains(("."@, n, "development-dependency"@)) by {
                lemma_js_parts_contain(keys_of(data.dev_dependencies), "development-dependency"@, n);
                lemma_node_kept(d, (n, "dependency"@, Ecosystem::JavaScript));
                lemma_edge_kept(d, ("."@, n, "development-dependency"@));
            }
            assert forall|n: Seq<char>| #[trigger] keys_of(data.optional_dependencies).contains(n) implies has_node(
                spec_graph_nodes(d),
                n,
                "dependency"@,
            ) && spec_graph_edges(d).contains(("."@, n, "optional-dependency"@)) by {
                lemma_js_parts_contain(keys_of(data.optional_dependencies), "optional-dependency"@, n);
                lemma_node_kept(d, (n, "dependency"@, Ecosystem::JavaScript));
                lemma_edge_kept(d, ("."@, n, "optional-dependency"@));
            }
            assert forall|n: Seq<char>| #[trigger] keys_of(data.peer_dependencies).contains(n) implies has_node(
                spec_graph_nodes(d),
                n,
                "dependency"@,
            ) && spec_graph_edges(d).contains(("."@, n, "peer-dependency"@)) by {
                lemma_js_parts_contain(keys_of(data.peer_dependencies), "peer-dependency"@, n);
                lemma_node_kept(d, (n, "dependency"@, Ecosystem::JavaScript));
                lemma_edge_kept(d, ("."@, n, "peer-dependency"@));
            }
        },
        None => {},
    }
    assert forall|c: ComponentView| #[trigger] cs.contains(c) implies has_node(spec_graph_nodes(d), c.path, "component"@) by {
        lemma_component_parts_contain(cs, ds, c);
        lemma_node_kept(d, (c.path, "component"@, c.ecosystem));
    }
    match d.cargo {
        Some(x) => {
            assert forall|m: Seq<char>| #[trigger] views(x.workspace_members@).contains(m) implies spec_graph_edges(
                d,
            ).contains((x.workspace_root@, m, "workspace-member"@)) by {
                lemma_member_parts_contain(x.workspace_root@, x.manifest@, views(x.workspace_members@), m);
                lemma_edge_kept(d, (x.workspace_root@, m, "workspace-member"@));
            }
        },
        None => {},
    }
}

} // verus!
