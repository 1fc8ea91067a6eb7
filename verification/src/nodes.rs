//! Shared node types: output descriptions, compiled values and property bags.

use vstd::prelude::*;
use vstd::string::StringExecFns;

use crate::formulas::ExprType;
use crate::text::str_eq;
use crate::ir::IrValue;
use crate::parser::{FormulaExpr, SpecExpr};
use crate::uprobe::UProbeResult;

verus! {

/// The shape of a node's output to downstream consumers: either a structured
/// record whose fields can be resolved by name, or nothing.
#[derive(Debug, PartialEq, Eq, Structural, Clone, Copy)]
pub enum OutputType {
    Struct(UProbeResult),
    Void,
}

/// The value returned by compiling a formula: an operand plus its type.
#[derive(Debug, PartialEq, Eq, Structural, Clone, Copy)]
pub struct ExprValue {
    pub value: IrValue,
    pub ty: ExprType,
}

/// One stage of the probe graph: a probe source, a filter, or a sink.
#[derive(Debug)]
pub enum Node {
    Label(crate::label::LabelNode),
    UProbe(crate::uprobe::UProbe),
    Filter(crate::filter::FilterNode),
}

/// The fault this node's code generation reports for the given input
/// output types, if any: nothing for a probe source; for a filter, the
/// arity, the `value` property and its formula against the single input;
/// for a sink, the `value` property and its formula against the built-in
/// probe record.
pub open spec fn spec_node_outcome(n: Node, inputs: Seq<OutputType>) -> Option<
    crate::codegen::SpecCgErr,
> {
    match n {
        Node::UProbe(_) => None,
        Node::Filter(f) => if inputs.len() != 1 {
            Some(crate::codegen::SpecCgErr::UnsupportedInputArity)
        } else if !f.spec_props().contains_key("value"@) {
            Some(crate::codegen::SpecCgErr::ExpectedProperty("value"@))
        } else {
            match crate::formulas::spec_compile(f.spec_props()["value"@], Some(inputs[0])) {
                Ok(_) => None,
                Err(k) => Some(k),
            }
        },
        Node::Label(l) => if !l.spec_props().contains_key("value"@) {
            Some(crate::codegen::SpecCgErr::ExpectedProperty("value"@))
        } else {
            match crate::formulas::spec_compile(
                l.spec_props()["value"@],
                Some(OutputType::Struct(crate::uprobe::UProbeResult {  })),
            ) {
                Ok(_) => None,
                Err(k) => Some(k),
            }
        },
    }
}

impl Node {
    /// The output this node presents to downstream consumers.
    pub open spec fn spec_output_type(&self) -> OutputType {
        match self {
            Node::UProbe(_) => OutputType::Struct(crate::uprobe::UProbeResult {  }),
            Node::Label(_) => OutputType::Void,
            Node::Filter(_) => OutputType::Void,
        }
    }

    /// Emits this node's code into the shared context, given the output
    /// types of its direct inputs in scheduled order.  It succeeds exactly
    /// when the node kind's own rules find no fault, and emits what the
    /// kind's own contract promises: nothing for a probe source, the
    /// predicate's code for a filter, one of the two sink strategies for a
    /// sink.
    pub fn codegen(&self, ctx: &mut crate::ir::CodegenCtx, inputs: &Vec<OutputType>) -> (r: Result<
        (),
        crate::codegen::CodegenError,
    >)
        requires
            old(ctx)@.wf(),
        ensures
            final(ctx)@.wf(),
            crate::ir::keeps_layout(old(ctx)@, final(ctx)@),
            final(ctx)@.cond_branches() - final(ctx)@.exit_branches() == old(
                ctx,
            )@.cond_branches() - old(ctx)@.exit_branches(),
            match r {
                Ok(_) => spec_node_outcome(*self, inputs@) is None,
                Err(e) => spec_node_outcome(*self, inputs@) == Some(e@),
            },
            match self {
                Node::UProbe(_) => final(ctx)@ == old(ctx)@,
                Node::Filter(f) => {
                    &&& crate::ir::keeps_sink_counts(old(ctx)@, final(ctx)@)
                    &&& final(ctx)@.globals == old(ctx)@.globals
                    &&& (r is Ok ==> final(ctx)@.exit_branches() == old(ctx)@.exit_branches()
                        + crate::formulas::spec_cmp_points(
                        f.spec_props()["value"@],
                        Some(inputs@[0]),
                    ))
                },
                Node::Label(l) => {
                    let outcome = crate::formulas::spec_compile(
                        l.spec_props()["value"@],
                        Some(OutputType::Struct(crate::uprobe::UProbeResult {  })),
                    );
                    &&& (r is Ok ==> (if outcome->Ok_0.0 == ExprType::Counter {
                        &&& final(ctx)@.globals == old(ctx)@.globals.push(
                            crate::label::counters_global(),
                        )
                        &&& final(ctx)@.atomic_adds() == old(ctx)@.atomic_adds() + 1
                        &&& final(ctx)@.helper_calls(131) == old(ctx)@.helper_calls(131)
                        &&& final(ctx)@.helper_calls(132) == old(ctx)@.helper_calls(132)
                    } else {
                        &&& final(ctx)@.globals == old(ctx)@.globals.push(
                            crate::label::ringbuf_global(),
                        )
                        &&& final(ctx)@.atomic_adds() == old(ctx)@.atomic_adds()
                        &&& final(ctx)@.helper_calls(131) == old(ctx)@.helper_calls(131) + 1
                        &&& final(ctx)@.helper_calls(132) == old(ctx)@.helper_calls(132) + 1
                    }))
                    &&& (r is Err ==> final(ctx)@.globals == old(ctx)@.globals)
                },
            },
    {
        match self {
            Node::Label(n) => n.codegen(ctx, inputs),
            Node::Filter(n) => n.codegen(ctx, inputs),
            Node::UProbe(n) => n.codegen(ctx, inputs),
        }
    }

    /// The output this node presents to downstream consumers.
    pub fn output_type(&self) -> (r: OutputType)
        ensures
            r == self.spec_output_type(),
    {
        match self {
            Node::Label(n) => n.output_type(),
            Node::Filter(n) => n.output_type(),
            Node::UProbe(n) => n.output_type(),
        }
    }
}

/// A node's property bag: a mapping from property names to parsed formulas.
#[derive(Debug)]
pub struct NodeProperties {
    props: Vec<(String, FormulaExpr)>,
}

/// The mapping that a list of name/formula entries denotes; a later entry
/// with the same name wins.
pub open spec fn entries_map(s: Seq<(String, FormulaExpr)>) -> Map<Seq<char>, SpecExpr>
    decreases s.len(),
{
    if s.len() == 0 {
        Map::empty()
    } else {
        entries_map(s.drop_last()).insert(s.last().0@, s.last().1@)
    }
}

impl View for NodeProperties {
    type V = Map<Seq<char>, SpecExpr>;

    closed spec fn view(&self) -> Map<Seq<char>, SpecExpr> {
        entries_map(self.props@)
    }
}

proof fn lemma_entries_map_found(s: Seq<(String, FormulaExpr)>, name: Seq<char>, j: int)
    requires
        0 <= j < s.len(),
        s[j].0@ == name,
        forall|k: int| j < k < s.len() ==> s[k].0@ != name,
    ensures
        entries_map(s).contains_key(name),
        entries_map(s)[name] == s[j].1@,
    decreases s.len(),
{
    if j == s.len() - 1 {
    } else {
        lemma_entries_map_found(s.drop_last(), name, j);
    }
}

proof fn lemma_entries_map_absent(s: Seq<(String, FormulaExpr)>, name: Seq<char>)
    requires
        forall|k: int| 0 <= k < s.len() ==> s[k].0@ != name,
    ensures
        !entries_map(s).contains_key(name),
    decreases s.len(),
{
    if s.len() > 0 {
        lemma_entries_map_absent(s.drop_last(), name);
    }
}

impl NodeProperties {
    /// An empty property bag.
    pub fn new() -> (r: NodeProperties)
        ensures
            r@ == Map::<Seq<char>, SpecExpr>::empty(),
    {
        NodeProperties { props: Vec::new() }
    }

    /// Binds `name` to a parsed formula, replacing any earlier binding.
    pub fn insert(&mut self, name: &str, formula: FormulaExpr)
        ensures
            final(self)@ == old(self)@.insert(name@, formula@),
    {
        let owned = String::from_str(name);
        self.props.push((owned, formula));
        proof {
            assert(self.props@.drop_last() =~= old(self).props@);
            assert(entries_map(self.props@) == entries_map(self.props@.drop_last()).insert(
                self.props@.last().0@,
                self.props@.last().1@,
            ));
        }
    }

    /// The formula bound to `name`, if any.
    pub fn get(&self, name: &str) -> (r: Option<&FormulaExpr>)
        ensures
            match r {
                Some(f) => self@.contains_key(name@) && f@ == self@[name@],
                None => !self@.contains_key(name@),
            },
    {
        let n = self.props.len();
        let mut i: usize = n;
        while i > 0
            invariant
                0 <= i <= n,
                n == self.props@.len(),
                forall|k: int| i <= k < n ==> self.props@[k].0@ != name@,
            decreases i,
    {
            i = i - 1;
            if str_eq(self.props[i].0.as_str(), name) {
                proof {
                    lemma_entries_map_found(self.props@, name@, i as int);
                }
                return Some(&self.props[i].1);
            }
        }
        proof {
            lemma_entries_map_absent(self.props@, name@);
        }
        None
    }
}

} // verus!
