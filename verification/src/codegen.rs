//! Code generation: errors, results and shared emission utilities.

use vstd::prelude::*;
use vstd::string::StrSliceExecFns;
use vstd::string::StringSliceAdditionalSpecFns;
use vstd::string::StringExecFns;

use crate::ir::{ArgList, CodegenCtx, GlobalDef, Instr, IrValue, SpecGlobal};
use crate::parser::{FormulaError, SpecFormulaErr};

verus! {

/// An error from the code generator.
#[derive(Debug)]
pub enum CodegenError {
    /// A required property has not been found.
    ExpectedProperty(&'static str),
    /// A formula error bubbled up.
    FormulaError(FormulaError),
    /// A comparison involves an aggregate-count expression.
    InvalidCounterComparison,
    /// A string is compared against a number or a boolean.
    TypeMismatch,
    /// Strings admit only equality and inequality comparisons.
    InvalidStringOperation,
    /// A declared but unimplemented lowering was requested.
    UnsupportedOperation,
    /// A property reference names a field the producer does not offer.
    UnknownProperty(String),
    /// A property reference names a scope other than `input`.
    InvalidPropertyScope(String),
    /// A property reference was compiled against a producer with no output.
    VoidInput,
    /// A node received a number of inputs it does not support.
    UnsupportedInputArity,
    /// Any other failure, described in prose.
    Other(String),
}

/// Mathematical model of a code generation error.
pub enum SpecCgErr {
    ExpectedProperty(Seq<char>),
    Formula(SpecFormulaErr),
    InvalidCounterComparison,
    TypeMismatch,
    InvalidStringOperation,
    UnsupportedOperation,
    UnknownProperty(Seq<char>),
    InvalidPropertyScope(Seq<char>),
    VoidInput,
    UnsupportedInputArity,
    Other(Seq<char>),
}

impl View for CodegenError {
    type V = SpecCgErr;

    open spec fn view(&self) -> SpecCgErr {
        match self {
            CodegenError::ExpectedProperty(s) => SpecCgErr::ExpectedProperty(s@),
            CodegenError::FormulaError(e) => SpecCgErr::Formula(e@),
            CodegenError::InvalidCounterComparison => SpecCgErr::InvalidCounterComparison,
            CodegenError::TypeMismatch => SpecCgErr::TypeMismatch,
            CodegenError::InvalidStringOperation => SpecCgErr::InvalidStringOperation,
            CodegenError::UnsupportedOperation => SpecCgErr::UnsupportedOperation,
            CodegenError::UnknownProperty(s) => SpecCgErr::UnknownProperty(s@),
            CodegenError::InvalidPropertyScope(s) => SpecCgErr::InvalidPropertyScope(s@),
            CodegenError::VoidInput => SpecCgErr::VoidInput,
            CodegenError::UnsupportedInputArity => SpecCgErr::UnsupportedInputArity,
            CodegenError::Other(s) => SpecCgErr::Other(s@),
        }
    }
}

/// The result of a successful compile: the object bytes and a human-readable
/// assembly listing, both produced by the backend from the generated module.
pub struct CodegenResult {
    pub bpf: Vec<u8>,
    pub listing: String,
}

impl From<crate::parser::FormulaError> for CodegenError {
    /// Wraps a formula error.
    fn from(e: crate::parser::FormulaError) -> (r: CodegenError) {
        CodegenError::FormulaError(e)
    }
}

impl vstd::std_specs::convert::FromSpecImpl<crate::parser::FormulaError> for CodegenError {
    open spec fn obeys_from_spec() -> bool {
        true
    }

    open spec fn from_spec(e: crate::parser::FormulaError) -> CodegenError {
        CodegenError::FormulaError(e)
    }
}

/// The generated module: the function's basic blocks, the global
/// definitions, the literal pool, and the section the loader attaches by.
pub struct ModuleIr {
    pub blocks: Vec<crate::ir::Block>,
    pub globals: Vec<GlobalDef>,
    pub literals: Vec<Vec<u8>>,
    pub allocs_block: usize,
    pub entry_block: usize,
    /// The block that ends the entry chain.
    pub entry_tail: usize,
    pub exit_block: usize,
    pub func_section: String,
}

/// The mandatory license metadata: a NUL-terminated license string.
pub open spec fn license_bytes() -> Seq<u8> {
    seq![71u8, 80u8, 76u8, 0u8]
}

/// Generates target bytecode structure out of a program graph.
///
/// The nodes are visited in scheduled order; a graph with a cycle cannot be
/// compiled, and a fault in any node's code generation is reported as that
/// fault.  On success the module holds one function whose allocation block
/// falls through to the entry chain, whose entry chain falls through to the
/// single exit block, and in which every conditional branch's failure edge
/// is that exit block; the function sits in the loader-recognized attach
/// section, every map global is one of the two sink descriptors in its
/// `maps/` section, and a mandatory license global closes the globals.
pub fn generate(prog: &crate::graph::ProgGraph) -> (r: Result<ModuleIr, CodegenError>)
    requires
        prog.wf(),
    ensures
        match r {
            Ok(m) => {
                &&& !crate::graph::has_cycle(*prog)
                &&& forall|k: int|
                    0 <= k < prog.nodes@.len() ==> crate::nodes::spec_node_outcome(
                        #[trigger] prog.nodes@[k],
                        crate::graph::spec_input_types(*prog, k),
                    ) is None
                &&& m.func_section@ == "uprobe/mlens"@
                &&& m.globals@.len() >= 1
                &&& m.globals@.last()@ == (SpecGlobal::BytesGlobal {
                    name: "LICENSE"@,
                    section: "license"@,
                    bytes: license_bytes(),
                })
                &&& forall|gi: int|
                    0 <= gi < m.globals@.len() && (#[trigger] m.globals@[gi]@) is MapGlobal ==> (
                    m.globals@[gi]@ == crate::label::counters_global() || m.globals@[gi]@
                        == crate::label::ringbuf_global())
                &&& m.allocs_block < m.blocks@.len()
                &&& m.entry_block < m.blocks@.len()
                &&& m.entry_tail < m.blocks@.len()
                &&& m.exit_block < m.blocks@.len()
                &&& m.blocks@[m.exit_block as int].instrs@.last() == (Instr::Return { value: 0 })
                &&& m.blocks@[m.allocs_block as int].instrs@.last() == (Instr::Branch {
                    target: m.entry_block,
                })
                &&& m.blocks@[m.entry_tail as int].instrs@.last() == (Instr::Branch {
                    target: m.exit_block,
                })
                &&& forall|bi: int, ii: int|
                    0 <= bi < m.blocks@.len() && 0 <= ii < m.blocks@[bi].instrs@.len() ==> ((
                    #[trigger] m.blocks@[bi].instrs@[ii]) matches Instr::CondBranch {
                        else_block,
                        ..
                    } ==> else_block == m.exit_block)
            },
            Err(e) => if crate::graph::has_cycle(*prog) {
                e@ matches SpecCgErr::Other(_)
            } else {
                exists|k: int|
                    0 <= k < prog.nodes@.len() && crate::nodes::spec_node_outcome(
                        #[trigger] prog.nodes@[k],
                        crate::graph::spec_input_types(*prog, k),
                    ) == Some(e@)
            },
        },
{
    let order = match crate::graph::schedule(prog) {
        Ok(o) => o,
        Err(_) => {
            return Err(
                CodegenError::Other(String::from_str("could not sort, cycles in the graph")),
            );
        },
    };
    let mut ctx = CodegenCtx {
        blocks: Vec::new(),
        func_exit: 0,
        allocs_block: 0,
        current_block: 0,
        globals: Vec::new(),
        literals: Vec::new(),
        next_value: 0,
    };
    proof {
        assert(ctx@.cond_branches() == 0);
        assert(ctx@.exit_branches() == 0);
    }
    let allocs_block = ctx.append_basic_block();
    let entry_block = ctx.append_basic_block();
    let func_exit = ctx.append_basic_block();
    ctx.allocs_block = allocs_block;
    ctx.current_block = entry_block;
    ctx.func_exit = func_exit;
    proof {
        assert(ctx@.wf());
        assert(ctx@.cond_branches() == ctx@.exit_branches());
        assert(ctx@.globals.len() == 0);
    }
    let n = order.len();
    let mut p: usize = 0;
    while p < n
        invariant
            n == order@.len(),
            prog.wf(),
            !crate::graph::has_cycle(*prog),
            crate::graph::is_topo_order(*prog, order@),
            ctx@.wf(),
            ctx@.func_exit == 2,
            ctx@.allocs_block == 0,
            ctx@.cond_branches() == ctx@.exit_branches(),
            forall|k: int| 0 <= k < order@.len() ==> (#[trigger] order@[k]) < prog.nodes@.len(),
            forall|q: int|
                0 <= q < p ==> crate::nodes::spec_node_outcome(
                    prog.nodes@[#[trigger] order@[q] as int],
                    crate::graph::spec_input_types(*prog, order@[q] as int),
                ) is None,
            forall|gi: int|
                0 <= gi < ctx@.globals.len() && (#[trigger] ctx@.globals[gi]) is MapGlobal ==> (
                ctx@.globals[gi] == crate::label::counters_global() || ctx@.globals[gi]
                    == crate::label::ringbuf_global()),
        decreases n - p,
    {
        let next_node_idx = order[p];
        let mut input_types: Vec<crate::nodes::OutputType> = Vec::new();
        let m = prog.edges.len();
        let mut e: usize = 0;
        while e < m
            invariant
                0 <= e <= m,
                m == prog.edges@.len(),
                prog.wf(),
                next_node_idx < prog.nodes@.len(),
                input_types@ == crate::graph::spec_input_types_upto(
                    *prog,
                    next_node_idx as int,
                    e as int,
                ),
            decreases m - e,
        {
            let (src, dst) = prog.edges[e];
            if dst == next_node_idx {
                let ot = prog.nodes[src].output_type();
                input_types.push(ot);
            }
            e = e + 1;
        }
        proof {
            assert(input_types@ == crate::graph::spec_input_types(*prog, next_node_idx as int));
        }
        let ghost pre = ctx@;
        match prog.nodes[next_node_idx].codegen(&mut ctx, &input_types) {
            Ok(_) => (),
            Err(err) => {
                proof {
                    assert(crate::nodes::spec_node_outcome(
                        prog.nodes@[next_node_idx as int],
                        crate::graph::spec_input_types(*prog, next_node_idx as int),
                    ) == Some(err@));
                }
                return Err(err);
            },
        }
        proof {
            assert forall|gi: int|
                0 <= gi < ctx@.globals.len() && (#[trigger] ctx@.globals[gi]) is MapGlobal implies (
            ctx@.globals[gi] == crate::label::counters_global() || ctx@.globals[gi]
                == crate::label::ringbuf_global()) by {
                if gi < pre.globals.len() {
                    assert(pre.globals[gi] is MapGlobal ==> (pre.globals[gi]
                        == crate::label::counters_global() || pre.globals[gi]
                        == crate::label::ringbuf_global()));
                }
            }
        }
        p = p + 1;
    }
    let exit = ctx.func_exit;
    let entry_tail = ctx.current_block;
    ctx.emit(Instr::Branch { target: exit });
    let entry = entry_block;
    ctx.emit_in_allocs(Instr::Branch { target: entry });
    let license: Vec<u8> = vec![71u8, 80u8, 76u8, 0u8];
    proof {
        assert(license@ =~= license_bytes());
    }
    let ghost pre_license = ctx@;
    ctx.add_global(
        GlobalDef::BytesGlobal {
            name: String::from_str("LICENSE"),
            section: String::from_str("license"),
            bytes: license,
        },
    );
    proof {
        assert(ctx.globals@.len() == ctx@.globals.len());
        assert(ctx.globals@.last()@ == ctx@.globals.last());
        assert(ctx@.globals.last() == (SpecGlobal::BytesGlobal {
            name: "LICENSE"@,
            section: "license"@,
            bytes: license_bytes(),
        }));
        assert forall|gi: int|
            0 <= gi < ctx@.globals.len() && (#[trigger] ctx@.globals[gi]) is MapGlobal implies (
        ctx@.globals[gi] == crate::label::counters_global() || ctx@.globals[gi]
            == crate::label::ringbuf_global()) by {
            if gi < pre_license.globals.len() {
                assert(pre_license.globals[gi] is MapGlobal ==> (pre_license.globals[gi]
                    == crate::label::counters_global() || pre_license.globals[gi]
                    == crate::label::ringbuf_global()));
            }
        }
    }
    let exit2 = ctx.func_exit;
    ctx.emit_in_exit(Instr::Return { value: 0 });
    proof {
        crate::ir::lemma_single_exit(ctx@);
        assert(ctx@.blocks[entry_tail as int].last() == (Instr::Branch { target: exit2 }));
        assert(ctx@.blocks[0int].last() == (Instr::Branch { target: entry_block }));
        assert(ctx@.blocks[2int].last() == (Instr::Return { value: 0 }));
        assert(ctx@.blocks[entry_tail as int] == ctx.blocks@[entry_tail as int].instrs@);
        assert(ctx@.blocks[0int] == ctx.blocks@[0int].instrs@);
        assert(ctx@.blocks[2int] == ctx.blocks@[2int].instrs@);
        assert forall|gi: int|
            0 <= gi < ctx.globals@.len() && (#[trigger] ctx.globals@[gi]@) is MapGlobal implies (
        ctx.globals@[gi]@ == crate::label::counters_global() || ctx.globals@[gi]@
            == crate::label::ringbuf_global()) by {
            assert(ctx@.globals[gi] == ctx.globals@[gi]@);
        }
        assert forall|bi: int, ii: int|
            0 <= bi < ctx.blocks@.len() && 0 <= ii < ctx.blocks@[bi].instrs@.len() implies ((
        #[trigger] ctx.blocks@[bi].instrs@[ii]) matches Instr::CondBranch { else_block, .. }
            ==> else_block == exit2) by {
            assert(ctx@.blocks[bi] == ctx.blocks@[bi].instrs@);
        }
        assert forall|k: int| 0 <= k < prog.nodes@.len() implies crate::nodes::spec_node_outcome(
            #[trigger] prog.nodes@[k],
            crate::graph::spec_input_types(*prog, k),
        ) is None by {
            assert(order@.contains(k as usize));
            let q = choose|q: int| 0 <= q < order@.len() && order@[q] == k as usize;
            assert(crate::nodes::spec_node_outcome(
                prog.nodes@[order@[q] as int],
                crate::graph::spec_input_types(*prog, order@[q] as int),
            ) is None);
        }
    }
    let done = ctx;
    let module = ModuleIr {
        blocks: done.blocks,
        globals: done.globals,
        literals: done.literals,
        allocs_block,
        entry_block,
        entry_tail,
        exit_block: exit2,
        func_section: String::from_str("uprobe/mlens"),
    };
    Ok(module)
}

/// Materializes a compile-time string constant: the literal pool gains the
/// string's bytes and the value names that pool entry.
pub fn generate_string_literal(ctx: &mut CodegenCtx, s: &str) -> (r: IrValue)
    ensures
        (final(ctx)@ == crate::ir::SpecCtx {
            literals: old(ctx)@.literals.push(s.spec_bytes()),
            ..old(ctx)@
        }),
        (r matches IrValue::LitString(id) && id == old(ctx)@.literals.len()),
{
    let bytes = s.as_bytes_vec();
    let id = ctx.add_literal(bytes);
    IrValue::LitString(id)
}

/// Emits a call of the print helper of the target's ABI: the format bytes
/// become a global and the call takes its address and length.
pub fn bpf_printk(ctx: &mut CodegenCtx, strk: Vec<u8>)
    requires
        old(ctx)@.wf(),
        strk@.len() <= u32::MAX,
    ensures
        final(ctx)@.wf(),
        final(ctx)@.globals == old(ctx)@.globals.push(
            SpecGlobal::BytesGlobal { name: "format"@, section: ""@, bytes: strk@ },
        ),
        final(ctx)@.func_exit == old(ctx)@.func_exit,
        final(ctx)@.allocs_block == old(ctx)@.allocs_block,
        final(ctx)@.current_block == old(ctx)@.current_block,
        final(ctx)@.literals == old(ctx)@.literals,
        final(ctx)@.exit_branches() == old(ctx)@.exit_branches(),
        final(ctx)@.atomic_adds() == old(ctx)@.atomic_adds(),
        forall|h: int| final(ctx)@.helper_calls(h) == old(ctx)@.helper_calls(h) + if h == 6 {
            1int
        } else {
            0int
        },
{
    let len = strk.len() as u64;
    let gid = ctx.add_global(
        GlobalDef::BytesGlobal {
            name: String::from_str("format"),
            section: String::from_str(""),
            bytes: strk,
        },
    );
    let dst = ctx.fresh_value();
    ctx.emit(
        Instr::HelperCall {
            dst,
            helper: 6,
            args: ArgList::Two(IrValue::GlobalPtr(gid), IrValue::ConstInt(len)),
        },
    );
}

} // verus!
