//! The textual program description: an ordered list of node descriptions,
//! turned into the program graph.
//!
//! Each description carries a stable numeric identity, the identities of its
//! inputs, a node-kind tag and a bag of textual formula properties.  A
//! description may only reference inputs declared earlier in the list, every
//! identity must be unique, and an unrecognized kind is a construction
//! error — never a silent default.

use vstd::prelude::*;
use vstd::string::StringExecFns;

use crate::filter::FilterNode;
use crate::graph::ProgGraph;
use crate::label::LabelNode;
use crate::nodes::{Node, NodeProperties};
use crate::parser::{FormulaError, SpecExpr, SpecFormulaErr, parse_formula, spec_formula_result};
use crate::text::str_eq;
use crate::uprobe::UProbe;

verus! {

/// The stable numeric identity a description assigns to a node.
pub type NodeId = usize;

/// One element of a program description.
#[derive(Debug)]
pub enum Elem {
    Node {
        id: NodeId,
        inputs: Vec<NodeId>,
        name: Option<String>,
        node_type: String,
        properties: Vec<(String, String)>,
    },
}

impl Elem {
    /// The description's identity.
    pub open spec fn spec_id(&self) -> NodeId {
        match self {
            Elem::Node { id, .. } => *id,
        }
    }

    /// The identities of the description's inputs, in order.
    pub open spec fn spec_inputs(&self) -> Seq<NodeId> {
        match self {
            Elem::Node { inputs, .. } => inputs@,
        }
    }

    /// The description's node-kind tag.
    pub open spec fn spec_node_type(&self) -> Seq<char> {
        match self {
            Elem::Node { node_type, .. } => node_type@,
        }
    }

    /// The description's property bag, as name/formula-text pairs.
    pub open spec fn spec_properties(&self) -> Seq<(Seq<char>, Seq<char>)> {
        match self {
            Elem::Node { properties, .. } => properties@.map_values(
                |p: (String, String)| (p.0@, p.1@),
            ),
        }
    }

    /// The description's identity.
    pub fn node_id(&self) -> (r: Option<NodeId>)
        ensures
            r == Some(self.spec_id()),
    {
        match self {
            Elem::Node { id, .. } => Some(*id),
        }
    }

    /// The identities of the description's inputs.
    pub fn inputs(&self) -> (r: Option<&Vec<NodeId>>)
        ensures
            (r matches Some(v) && v@ == self.spec_inputs()),
    {
        match self {
            Elem::Node { inputs, .. } => Some(inputs),
        }
    }
}

/// The property bag a list of name/formula-text pairs denotes, each formula
/// parsed; the first text that does not parse is the error.
pub open spec fn spec_build_props(s: Seq<(Seq<char>, Seq<char>)>) -> Result<
    Map<Seq<char>, SpecExpr>,
    SpecFormulaErr,
>
    decreases s.len(),
{
    if s.len() == 0 {
        Ok(Map::empty())
    } else {
        match spec_build_props(s.drop_last()) {
            Err(e) => Err(e),
            Ok(m) => match spec_formula_result(s.last().1) {
                Ok(f) => Ok(m.insert(s.last().0, f)),
                Err(e) => Err(e),
            },
        }
    }
}

proof fn lemma_build_props_err_extends(s: Seq<(Seq<char>, Seq<char>)>, k: int)
    requires
        0 <= k <= s.len(),
        spec_build_props(s.subrange(0, k)) is Err,
    ensures
        spec_build_props(s) == spec_build_props(s.subrange(0, k)),
    decreases s.len(),
{
    if k == s.len() {
        assert(s.subrange(0, k) =~= s);
    } else {
        assert(s.drop_last().subrange(0, k) =~= s.subrange(0, k));
        lemma_build_props_err_extends(s.drop_last(), k);
    }
}

/// A description's node-kind tag names one of the three node kinds.
pub open spec fn spec_known_node_type(t: Seq<char>) -> bool {
    t == "UProbe"@ || t == "Filter"@ || t == "Label"@
}

/// `node` is the node that a description with properties `m` builds: the
/// kind the tag names, carrying the description's identity and `m`.
pub open spec fn spec_node_built(e: Elem, m: Map<Seq<char>, SpecExpr>, node: Node) -> bool {
    if e.spec_node_type() == "UProbe"@ {
        node matches Node::UProbe(u) && u.spec_id() == e.spec_id() && u.spec_props() == m
    } else if e.spec_node_type() == "Filter"@ {
        node matches Node::Filter(f) && f.spec_id() == e.spec_id() && f.spec_props() == m
    } else {
        e.spec_node_type() == "Label"@ && (node matches Node::Label(l) && l.spec_id()
            == e.spec_id() && l.spec_props() == m)
    }
}

/// `node` is what constructing the description must yield.
pub open spec fn spec_node_ok(e: Elem, node: Node) -> bool {
    spec_build_props(e.spec_properties()) matches Ok(m) && spec_node_built(e, m, node)
}

impl Elem {
    /// Parses every property of the bag into a formula.
    fn construct_properties(props: &Vec<(String, String)>) -> (r: Result<
        NodeProperties,
        FormulaError,
    >)
        ensures
            match r {
                Ok(np) => spec_build_props(props@.map_values(|p: (String, String)| (p.0@, p.1@)))
                    == Ok::<Map<Seq<char>, SpecExpr>, SpecFormulaErr>(np@),
                Err(e) => spec_build_props(props@.map_values(|p: (String, String)| (p.0@, p.1@)))
                    == Err::<Map<Seq<char>, SpecExpr>, SpecFormulaErr>(e@),
            },
    {
        let ghost pv = props@.map_values(|p: (String, String)| (p.0@, p.1@));
        let mut node_props = NodeProperties::new();
        let n = props.len();
        let mut i: usize = 0;
        while i < n
            invariant
                n == props@.len(),
                0 <= i <= n,
                pv == props@.map_values(|p: (String, String)| (p.0@, p.1@)),
                spec_build_props(pv.subrange(0, i as int)) == Ok::<
                    Map<Seq<char>, SpecExpr>,
                    SpecFormulaErr,
                >(node_props@),
            decreases n - i,
        {
            proof {
                assert(pv.subrange(0, i + 1).drop_last() =~= pv.subrange(0, i as int));
                assert(pv.subrange(0, i + 1).last() == pv[i as int]);
                assert(pv[i as int] == (props@[i as int].0@, props@[i as int].1@));
            }
            let (key, val) = &props[i];
            match parse_formula(val.as_str()) {
                Ok(formula) => {
                    node_props.insert(key.as_str(), formula);
                },
                Err(e) => {
                    proof {
                        lemma_build_props_err_extends(pv, i + 1);
                    }
                    return Err(e);
                },
            }
            i = i + 1;
        }
        proof {
            assert(pv.subrange(0, n as int) =~= pv);
        }
        Ok(node_props)
    }

    /// Turns the description into a concrete node: its properties are
    /// parsed and validated, and its kind tag picks the node kind; an
    /// unrecognized kind is an error.
    pub fn construct_node(&self) -> (r: Result<Node, FormulaError>)
        ensures
            match r {
                Ok(node) => spec_known_node_type(self.spec_node_type()) && spec_node_ok(
                    *self,
                    node,
                ),
                Err(e) => match spec_build_props(self.spec_properties()) {
                    Err(k) => e@ == k,
                    Ok(_) => !spec_known_node_type(self.spec_node_type()) && e@
                        == SpecFormulaErr::Other("unknown node type: "@ + self.spec_node_type()),
                },
            },
    {
        match self {
            Elem::Node { node_type, properties, id, .. } => {
                let props = match Self::construct_properties(properties) {
                    Ok(p) => p,
                    Err(e) => {
                        return Err(e);
                    },
                };
                if str_eq(node_type.as_str(), "UProbe") {
                    Ok(Node::UProbe(UProbe::new(*id, props)))
                } else if str_eq(node_type.as_str(), "Filter") {
                    Ok(Node::Filter(FilterNode::new(*id, props)))
                } else if str_eq(node_type.as_str(), "Label") {
                    Ok(Node::Label(LabelNode::new(*id, props)))
                } else {
                    Err(
                        FormulaError::Other(
                            String::from_str("unknown node type: ").concat(node_type.as_str()),
                        ),
                    )
                }
            },
        }
    }
}

/// The first position before `upto` whose description has identity `id`.
pub open spec fn spec_find_id(elems: Seq<Elem>, upto: int, id: NodeId) -> Option<int>
    decreases upto,
{
    if upto <= 0 {
        None
    } else {
        match spec_find_id(elems, upto - 1, id) {
            Some(i) => Some(i),
            None => if elems[upto - 1].spec_id() == id {
                Some(upto - 1)
            } else {
                None
            },
        }
    }
}

proof fn lemma_find_id_extends(elems: Seq<Elem>, a: int, b: int, id: NodeId)
    requires
        0 <= a <= b,
        spec_find_id(elems, a, id) is Some,
    ensures
        spec_find_id(elems, b, id) == spec_find_id(elems, a, id),
    decreases b - a,
{
    if b > a {
        lemma_find_id_extends(elems, a, b - 1, id);
    }
}

/// The edges one description contributes: one per input, from the declaring
/// position of that input's identity.
pub open spec fn spec_edge_row(elems: Seq<Elem>, p: int) -> Seq<(usize, usize)> {
    Seq::new(
        elems[p].spec_inputs().len(),
        |k: int|
            (
                (spec_find_id(elems, p, elems[p].spec_inputs()[k])->Some_0) as usize,
                p as usize,
            ),
    )
}

/// The edges the first `upto` descriptions contribute, in order.
pub open spec fn spec_edges_built(elems: Seq<Elem>, upto: int) -> Seq<(usize, usize)>
    decreases upto,
{
    if upto <= 0 {
        Seq::empty()
    } else {
        spec_edges_built(elems, upto - 1) + spec_edge_row(elems, upto - 1)
    }
}

/// Why a program description is rejected.
pub enum SpecProgErr {
    /// A property's formula does not parse.
    Formula(SpecFormulaErr),
    /// The node-kind tag is not recognized.
    UnknownType,
    /// The identity repeats an earlier description's identity.
    DuplicateId,
    /// An input identity was not declared by an earlier description.
    InputNotFound,
}

/// The first fault of the description at `p`, if any, in the order the
/// faults are checked: the properties, then the kind tag, then the
/// identity, then the inputs.
pub open spec fn spec_elem_check(elems: Seq<Elem>, p: int) -> Option<SpecProgErr> {
    let e = elems[p];
    match spec_build_props(e.spec_properties()) {
        Err(f) => Some(SpecProgErr::Formula(f)),
        Ok(_) => if !spec_known_node_type(e.spec_node_type()) {
            Some(SpecProgErr::UnknownType)
        } else if spec_find_id(elems, p, e.spec_id()) is Some {
            Some(SpecProgErr::DuplicateId)
        } else if exists|k: int|
            0 <= k < e.spec_inputs().len() && spec_find_id(
                elems,
                p,
                #[trigger] e.spec_inputs()[k],
            ) is None {
            Some(SpecProgErr::InputNotFound)
        } else {
            None
        },
    }
}

/// `g` is the graph that a fault-free description list builds: one node per
/// description, in order, each carrying its parsed properties, and one edge
/// per declared input, from the input's declaring position.
pub open spec fn spec_built_graph(elems: Seq<Elem>, g: crate::graph::ProgGraph) -> bool {
    &&& g.wf()
    &&& g.nodes@.len() == elems.len()
    &&& forall|q: int| 0 <= q < elems.len() ==> spec_node_ok(elems[q], #[trigger] g.nodes@[q])
    &&& g.edges@ == spec_edges_built(elems, elems.len() as int)
}

/// The first fault of the first `upto` descriptions, if any.
pub open spec fn spec_prog_check(elems: Seq<Elem>, upto: int) -> Option<SpecProgErr>
    decreases upto,
{
    if upto <= 0 {
        None
    } else {
        match spec_prog_check(elems, upto - 1) {
            Some(e) => Some(e),
            None => spec_elem_check(elems, upto - 1),
        }
    }
}

proof fn lemma_prog_check_extends(elems: Seq<Elem>, a: int, b: int)
    requires
        0 <= a <= b,
        spec_prog_check(elems, a) is Some,
    ensures
        spec_prog_check(elems, b) == spec_prog_check(elems, a),
    decreases b - a,
{
    if b > a {
        lemma_prog_check_extends(elems, a, b - 1);
    }
}

/// The first position before `upto` whose description has identity `id`.
fn find_id(elems: &Vec<Elem>, upto: usize, id: NodeId) -> (r: Option<usize>)
    requires
        upto <= elems@.len(),
    ensures
        match r {
            Some(i) => spec_find_id(elems@, upto as int, id) == Some(i as int) && i < upto,
            None => spec_find_id(elems@, upto as int, id) is None,
        },
{
    let mut i: usize = 0;
    while i < upto
        invariant
            0 <= i <= upto <= elems@.len(),
            spec_find_id(elems@, i as int, id) is None,
        decreases upto - i,
    {
        if nodes_id_eq(&elems[i], id) {
            proof {
                assert(spec_find_id(elems@, i + 1, id) == Some(i as int));
                lemma_find_id_extends(elems@, i + 1, upto as int, id);
            }
            return Some(i);
        }
        proof {
            assert(spec_find_id(elems@, i + 1, id) is None);
        }
        i = i + 1;
    }
    None
}

/// Whether a description carries the identity.
fn nodes_id_eq(e: &Elem, id: NodeId) -> (b: bool)
    ensures
        b == (e.spec_id() == id),
{
    match e {
        Elem::Node { id: own, .. } => *own == id,
    }
}

/// Builds the program graph out of an ordered list of node descriptions.
///
/// Descriptions are consumed in order; each must construct, carry a fresh
/// identity, and reference only inputs declared earlier in the list.  The
/// resulting graph holds one node per description, in order, and one edge
/// per declared input, from the input's declaring position.
pub fn construct_prog(nodes: Vec<Elem>) -> (r: Result<ProgGraph, FormulaError>)
    ensures
        match r {
            Ok(g) => {
                &&& spec_prog_check(nodes@, nodes@.len() as int) is None
                &&& spec_built_graph(nodes@, g)
            },
            Err(e) => (spec_prog_check(nodes@, nodes@.len() as int) matches Some(k) && match k {
                SpecProgErr::Formula(f) => e@ == f,
                _ => e@ is Other,
            }),
        },
{
    let mut prog = ProgGraph::new();
    let n = nodes.len();
    let mut p: usize = 0;
    while p < n
        invariant
            n == nodes@.len(),
            0 <= p <= n,
            prog.wf(),
            prog.nodes@.len() == p,
            spec_prog_check(nodes@, p as int) is None,
            forall|q: int| 0 <= q < p ==> spec_node_ok(nodes@[q], #[trigger] prog.nodes@[q]),
            prog.edges@ == spec_edges_built(nodes@, p as int),
        decreases n - p,
    {
        let node = match nodes[p].construct_node() {
            Ok(nd) => nd,
            Err(e) => {
                proof {
                    assert(spec_elem_check(nodes@, p as int) matches Some(k) && match k {
                        SpecProgErr::Formula(f) => e@ == f,
                        _ => e@ is Other,
                    });
                    assert(spec_prog_check(nodes@, p + 1) is Some);
                    lemma_prog_check_extends(nodes@, p + 1, n as int);
                }
                return Err(e);
            },
        };
        if find_id(&nodes, p, node_id_of(&nodes[p])).is_some() {
            proof {
                assert(spec_elem_check(nodes@, p as int) == Some(SpecProgErr::DuplicateId));
                assert(spec_prog_check(nodes@, p + 1) is Some);
                lemma_prog_check_extends(nodes@, p + 1, n as int);
            }
            return Err(FormulaError::Other(String::from_str("duplicate node id")));
        }
        let node_idx = prog.add_node(node);
        let input_list = match &nodes[p] {
            Elem::Node { inputs, .. } => inputs,
        };
        let m = input_list.len();
        let mut k: usize = 0;
        while k < m
            invariant
                n == nodes@.len(),
                0 <= p < n,
                0 <= k <= m,
                m == nodes@[p as int].spec_inputs().len(),
                input_list@ == nodes@[p as int].spec_inputs(),
                node_idx == p,
                prog.wf(),
                prog.nodes@.len() == p + 1,
                forall|q: int| 0 <= q < p + 1 ==> spec_node_ok(nodes@[q], #[trigger] prog.nodes@[q]),
                forall|k2: int|
                    0 <= k2 < k ==> spec_find_id(
                        nodes@,
                        p as int,
                        #[trigger] nodes@[p as int].spec_inputs()[k2],
                    ) is Some,
                prog.edges@ == spec_edges_built(nodes@, p as int) + spec_edge_row(
                    nodes@,
                    p as int,
                ).subrange(0, k as int),
                spec_prog_check(nodes@, p as int) is None,
                spec_build_props(nodes@[p as int].spec_properties()) is Ok,
                spec_known_node_type(nodes@[p as int].spec_node_type()),
                spec_find_id(nodes@, p as int, nodes@[p as int].spec_id()) is None,
            decreases m - k,
        {
            let input = input_list[k];
            match find_id(&nodes, p, input) {
                Some(src) => {
                    proof {
                        assert(spec_edge_row(nodes@, p as int).subrange(0, k + 1).drop_last()
                            =~= spec_edge_row(nodes@, p as int).subrange(0, k as int));
                        assert(spec_edge_row(nodes@, p as int)[k as int] == (src, node_idx));
                    }
                    prog.add_edge(src, node_idx);
                    proof {
                        assert(prog.edges@ =~= spec_edges_built(nodes@, p as int) + spec_edge_row(
                            nodes@,
                            p as int,
                        ).subrange(0, k + 1));
                    }
                },
                None => {
                    proof {
                        assert(spec_elem_check(nodes@, p as int) == Some(
                            SpecProgErr::InputNotFound,
                        ));
                        assert(spec_prog_check(nodes@, p + 1) is Some);
                        lemma_prog_check_extends(nodes@, p + 1, n as int);
                    }
                    return Err(FormulaError::Other(String::from_str("node ID not found")));
                },
            }
            k = k + 1;
        }
        proof {
            assert(spec_elem_check(nodes@, p as int) is None);
            assert(spec_edge_row(nodes@, p as int).subrange(0, m as int) =~= spec_edge_row(
                nodes@,
                p as int,
            ));
            assert(prog.edges@ =~= spec_edges_built(nodes@, p + 1));
        }
        p = p + 1;
    }
    Ok(prog)
}

/// The identity a description carries.
fn node_id_of(e: &Elem) -> (r: NodeId)
    ensures
        r == e.spec_id(),
{
    match e {
        Elem::Node { id, .. } => *id,
    }
}

} // verus!
