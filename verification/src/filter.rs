//! The filter node: compiles its predicate against its input's output.
//!
//! A filter compiles the `value` formula it carries against the output type
//! of its single input.  It does not yet gate downstream execution on the
//! predicate's result: only the predicate's code is emitted.

use vstd::prelude::*;

use crate::codegen::{CodegenError, SpecCgErr};
use crate::dsl::NodeId;
use crate::formulas::{generate_expr_code, spec_cmp_points, spec_compile};
use crate::ir::{CodegenCtx, keeps_layout, keeps_sink_counts};
use crate::nodes::{NodeProperties, OutputType};
use crate::parser::SpecExpr;

verus! {

/// A filter node.
#[derive(Debug)]
pub struct FilterNode {
    id: NodeId,
    props: NodeProperties,
}

impl FilterNode {
    /// A filter node with the given identity and properties.
    pub fn new(id: NodeId, props: NodeProperties) -> (r: FilterNode)
        ensures
            r.spec_props() == props@,
            r.spec_id() == id,
    {
        FilterNode { id, props }
    }

    /// The node's property bag.
    pub closed spec fn spec_props(&self) -> Map<Seq<char>, SpecExpr> {
        self.props@
    }

    /// The node's identity.
    pub closed spec fn spec_id(&self) -> NodeId {
        self.id
    }

    /// Compiles the filter's `value` formula against its single input's
    /// output type.  A filter with any other number of inputs is a
    /// structural error, and a missing `value` property or a formula the
    /// type rules reject is reported as such.
    pub fn codegen(&self, ctx: &mut CodegenCtx, inputs: &Vec<OutputType>) -> (r: Result<
        (),
        CodegenError,
    >)
        requires
            old(ctx)@.wf(),
        ensures
            final(ctx)@.wf(),
            keeps_layout(old(ctx)@, final(ctx)@),
            keeps_sink_counts(old(ctx)@, final(ctx)@),
            final(ctx)@.globals == old(ctx)@.globals,
            final(ctx)@.cond_branches() - final(ctx)@.exit_branches() == old(ctx)@.cond_branches()
                - old(ctx)@.exit_branches(),
            match r {
                Ok(_) => {
                    &&& inputs@.len() == 1
                    &&& self.spec_props().contains_key("value"@)
                    &&& spec_compile(self.spec_props()["value"@], Some(inputs@[0])) is Ok
                    &&& final(ctx)@.exit_branches() == old(ctx)@.exit_branches()
                        + spec_cmp_points(self.spec_props()["value"@], Some(inputs@[0]))
                },
                Err(e) => if inputs@.len() != 1 {
                    e@ == SpecCgErr::UnsupportedInputArity && final(ctx)@ == old(ctx)@
                } else if !self.spec_props().contains_key("value"@) {
                    (e@ matches SpecCgErr::ExpectedProperty(n) && n == "value"@) && final(ctx)@
                        == old(ctx)@
                } else {
                    (spec_compile(self.spec_props()["value"@], Some(inputs@[0])) matches Err(k)
                        && e@ == k)
                },
            },
    {
        if inputs.len() != 1 {
            return Err(CodegenError::UnsupportedInputArity);
        }
        let filter_formula = match self.props.get("value") {
            Some(f) => f,
            None => {
                return Err(CodegenError::ExpectedProperty("value"));
            },
        };
        let input_output = inputs[0];
        match generate_expr_code(ctx, filter_formula, Some(&input_output)) {
            Ok(_) => Ok(()),
            Err(e) => Err(e),
        }
    }

    /// A filter does not yet propagate its input's output shape.
    pub fn output_type(&self) -> (r: OutputType)
        ensures
            r == OutputType::Void,
    {
        OutputType::Void
    }
}

} // verus!
