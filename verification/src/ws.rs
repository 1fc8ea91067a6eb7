//! The control-channel message shape and the compile entry point.
//!
//! The network transport and the JSON decoding of inbound descriptions are
//! outside collaborators; the library receives plain node descriptions and
//! hands back the generated module and the program graph.

use vstd::prelude::*;

use crate::codegen::{CodegenError, ModuleIr, SpecCgErr, generate};
use crate::dsl::{Elem, SpecProgErr, construct_prog, spec_built_graph, spec_prog_check};
use crate::graph::{ProgGraph, has_cycle, spec_input_types};
use crate::nodes::spec_node_outcome;

verus! {

/// One control-protocol message: an action name and its payload.
#[derive(Debug, PartialEq)]
pub struct Message {
    pub action: String,
    pub payload: String,
}

/// Compiles an ordered list of node descriptions into a generated module
/// and the program graph behind it.
///
/// The descriptions must construct (parsed properties, known kinds, unique
/// identities, inputs declared earlier) and the resulting graph must be
/// acyclic; every failure is reported to the caller, never fatal to the
/// process.
pub fn compile(nodes: Vec<Elem>) -> (r: Result<(ModuleIr, ProgGraph), CodegenError>)
    ensures
        match r {
            Ok(pair) => {
                &&& spec_prog_check(nodes@, nodes@.len() as int) is None
                &&& spec_built_graph(nodes@, pair.1)
                &&& !has_cycle(pair.1)
                &&& (forall|k: int|
                    0 <= k < pair.1.nodes@.len() ==> spec_node_outcome(
                        #[trigger] pair.1.nodes@[k],
                        spec_input_types(pair.1, k),
                    ) is None)
                &&& pair.0.func_section@ == "uprobe/mlens"@
                &&& pair.0.globals@.len() >= 1
            },
            Err(e) => match spec_prog_check(nodes@, nodes@.len() as int) {
                Some(k) => match k {
                    SpecProgErr::Formula(f) => e@ == SpecCgErr::Formula(f),
                    _ => (e@ matches SpecCgErr::Formula(x) && x is Other),
                },
                None => exists|g: ProgGraph|
                    #[trigger] spec_built_graph(nodes@, g) && (if has_cycle(g) {
                        e@ is Other
                    } else {
                        exists|k: int|
                            0 <= k < g.nodes@.len() && spec_node_outcome(
                                #[trigger] g.nodes@[k],
                                spec_input_types(g, k),
                            ) == Some(e@)
                    }),
            },
        },
{
    let prog = match construct_prog(nodes) {
        Ok(g) => g,
        Err(e) => {
            return Err(CodegenError::from(e));
        },
    };
    match generate(&prog) {
        Ok(m) => Ok((m, prog)),
        Err(e) => Err(e),
    }
}

} // verus!
