//! The sink node: emits observed values out of the generated program and
//! plans the live readers that stream them back.
//!
//! A sink compiles its `value` formula and branches on the result type: an
//! aggregate count routes to a fixed-size keyed map with an atomic
//! increment; any other result routes to a ring-buffer reserve, populate and
//! submit sequence.  The two code paths are mutually exclusive per compile.

use vstd::prelude::*;
use vstd::string::StringExecFns;

use crate::codegen::{CodegenError, SpecCgErr};
use crate::dsl::NodeId;
use crate::formulas::{ExprType, generate_expr_code, spec_compile};
use crate::ir::{
    ArgList, CodegenCtx, GlobalDef, Instr, IrValue, MapDef, SpecGlobal, keeps_layout,
};
use crate::nodes::{NodeProperties, OutputType};
use crate::parser::SpecExpr;
use crate::runtime::le_u64;
use crate::uprobe::UProbeResult;

verus! {

/// One observed value on its way out: the node that produced it and the
/// value's textual form.
#[derive(Debug)]
pub struct NodeValue {
    pub id: NodeId,
    pub value: String,
}

/// The map descriptor of the counting path: a four-byte-keyed array of
/// four-byte counters with sixteen slots.
pub open spec fn counters_global() -> SpecGlobal {
    SpecGlobal::MapGlobal {
        name: "counters"@,
        section: "maps/counters"@,
        def: MapDef {
            kind: 2,
            key_size: 4,
            value_size: 4,
            max_entries: 16,
            flags: 0,
            inner_map_idx: 0,
            numa: 0,
        },
    }
}

/// The map descriptor of the emission path: a ring buffer of 64 * 4096
/// bytes.
pub open spec fn ringbuf_global() -> SpecGlobal {
    SpecGlobal::MapGlobal {
        name: "ringbuf"@,
        section: "maps/ringbuf"@,
        def: MapDef {
            kind: 27,
            key_size: 0,
            value_size: 0,
            max_entries: 262144,
            flags: 0,
            inner_map_idx: 0,
            numa: 0,
        },
    }
}

/// Which live readers a sink starts once the program is loaded: a counter
/// poller when the counters map exists, a ring-buffer drainer when the ring
/// buffer exists.
#[derive(Debug, PartialEq, Eq, Structural, Clone, Copy)]
pub struct LabelLoadPlan {
    pub node_id: NodeId,
    pub poll_counters: bool,
    pub drain_ringbuf: bool,
}

/// One tick of the counter poller: emit only a changed value
/// (edge-triggered), remember it, and keep running only until the teardown
/// flag is observed.
pub fn counter_poll_step(prev_value: u32, counter_value: u32, torn_down: bool) -> (r: (
    Option<u32>,
    u32,
    bool,
))
    ensures
        r.0 == if counter_value != prev_value {
            Some(counter_value)
        } else {
            None::<u32>
        },
        r.1 == if counter_value != prev_value {
            counter_value
        } else {
            prev_value
        },
        r.2 == !torn_down,
{
    if counter_value != prev_value {
        (Some(counter_value), counter_value, !torn_down)
    } else {
        (None, prev_value, !torn_down)
    }
}

/// One record of the ring-buffer drainer: decode the eight-byte record if it
/// is well formed, and keep running only until the teardown flag is
/// observed.
pub fn ringbuf_drain_step(data: &Vec<u8>, torn_down: bool) -> (r: (Option<u64>, bool))
    ensures
        match r.0 {
            Some(v) => data@.len() == 8 && v == le_u64(data@),
            None => data@.len() != 8,
        },
        r.1 == !torn_down,
{
    (crate::runtime::decode_record(data), !torn_down)
}

/// A sink node.
#[derive(Debug)]
pub struct LabelNode {
    id: NodeId,
    props: NodeProperties,
}

impl LabelNode {
    /// A sink node with the given identity and properties.
    pub fn new(id: NodeId, props: NodeProperties) -> (r: LabelNode)
        ensures
            r.spec_props() == props@,
            r.spec_id() == id,
    {
        LabelNode { id, props }
    }

    /// The node's property bag.
    pub closed spec fn spec_props(&self) -> Map<Seq<char>, SpecExpr> {
        self.props@
    }

    /// The node's identity.
    pub closed spec fn spec_id(&self) -> NodeId {
        self.id
    }

    /// Which live readers to start for this sink, given which maps the
    /// loaded program exposes.
    pub fn load(&self, has_counters_map: bool, has_ringbuf: bool) -> (r: LabelLoadPlan)
        ensures
            r.node_id == self.spec_id(),
            r.poll_counters == has_counters_map,
            r.drain_ringbuf == has_ringbuf,
    {
        LabelLoadPlan {
            node_id: self.id,
            poll_counters: has_counters_map,
            drain_ringbuf: has_ringbuf,
        }
    }

    /// Emits the counting path: the counters map, a null-checked lookup of
    /// slot zero, and an atomic increment.
    fn codegen_counter(&self, ctx: &mut CodegenCtx)
        requires
            old(ctx)@.wf(),
        ensures
            final(ctx)@.wf(),
            keeps_layout(old(ctx)@, final(ctx)@),
            final(ctx)@.globals == old(ctx)@.globals.push(counters_global()),
            final(ctx)@.literals == old(ctx)@.literals,
            final(ctx)@.atomic_adds() == old(ctx)@.atomic_adds() + 1,
            final(ctx)@.helper_calls(131) == old(ctx)@.helper_calls(131),
            final(ctx)@.helper_calls(132) == old(ctx)@.helper_calls(132),
            final(ctx)@.exit_branches() == old(ctx)@.exit_branches() + 1,
            final(ctx)@.cond_branches() == old(ctx)@.cond_branches() + 1,
    {
        let array = ctx.add_global(
            GlobalDef::MapGlobal {
                name: String::from_str("counters"),
                section: String::from_str("maps/counters"),
                def: MapDef {
                    kind: 2,
                    key_size: 4,
                    value_size: 4,
                    max_entries: 16,
                    flags: 0,
                    inner_map_idx: 0,
                    numa: 0,
                },
            },
        );
        let zeroth_idx = ctx.fresh_value();
        ctx.emit_in_allocs(Instr::Alloca { dst: zeroth_idx, size: 4 });
        ctx.emit(Instr::StoreConst { ptr: zeroth_idx, value: 0 });
        let slot = self.bpf_map_lookup_elem(ctx, array, zeroth_idx);
        let ok = ctx.fresh_value();
        ctx.emit(Instr::PtrIsNotNull { dst: ok, ptr: slot });
        let then_block = ctx.append_basic_block();
        let exit = ctx.func_exit;
        ctx.emit(Instr::CondBranch { cond: ok, then_block, else_block: exit });
        ctx.set_current_block(then_block);
        ctx.emit(Instr::AtomicAdd { ptr: slot, value: 1 });
    }

    /// Compiles the sink's `value` formula and emits one of the two
    /// emission strategies.
    ///
    /// A `Counter`-typed formula generates the counting path: the counters
    /// map and an atomic increment, and no ring buffer.  Any other type
    /// generates the emission path: the ring buffer with a null-checked
    /// reserve, populate and submit, and no atomic increment.  The two
    /// paths exclude each other.
    pub fn codegen(&self, ctx: &mut CodegenCtx, inputs: &Vec<OutputType>) -> (r: Result<
        (),
        CodegenError,
    >)
        requires
            old(ctx)@.wf(),
        ensures
            final(ctx)@.wf(),
            keeps_layout(old(ctx)@, final(ctx)@),
            final(ctx)@.cond_branches() - final(ctx)@.exit_branches() == old(ctx)@.cond_branches()
                - old(ctx)@.exit_branches(),
            match r {
                Ok(_) => {
                    &&& self.spec_props().contains_key("value"@)
                    &&& spec_compile(
                        self.spec_props()["value"@],
                        Some(OutputType::Struct(UProbeResult {  })),
                    ) matches Ok((ty, _))
                    &&& {
                        let ty = spec_compile(
                            self.spec_props()["value"@],
                            Some(OutputType::Struct(UProbeResult {  })),
                        )->Ok_0.0;
                        if ty == ExprType::Counter {
                            &&& final(ctx)@.globals == old(ctx)@.globals.push(counters_global())
                            &&& final(ctx)@.atomic_adds() == old(ctx)@.atomic_adds() + 1
                            &&& final(ctx)@.helper_calls(131) == old(ctx)@.helper_calls(131)
                            &&& final(ctx)@.helper_calls(132) == old(ctx)@.helper_calls(132)
                        } else {
                            &&& final(ctx)@.globals == old(ctx)@.globals.push(ringbuf_global())
                            &&& final(ctx)@.atomic_adds() == old(ctx)@.atomic_adds()
                            &&& final(ctx)@.helper_calls(131) == old(ctx)@.helper_calls(131) + 1
                            &&& final(ctx)@.helper_calls(132) == old(ctx)@.helper_calls(132) + 1
                        }
                    }
                },
                Err(e) => if !self.spec_props().contains_key("value"@) {
                    &&& (e@ matches SpecCgErr::ExpectedProperty(n) && n == "value"@)
                    &&& final(ctx)@ == old(ctx)@
                } else {
                    &&& spec_compile(
                        self.spec_props()["value"@],
                        Some(OutputType::Struct(UProbeResult {  })),
                    ) matches Err(k)
                    &&& e@ == spec_compile(
                        self.spec_props()["value"@],
                        Some(OutputType::Struct(UProbeResult {  })),
                    )->Err_0
                    &&& final(ctx)@.globals == old(ctx)@.globals
                },
            },
    {
        let _ = inputs;
        let output_formula = match self.props.get("value") {
            Some(f) => f,
            None => {
                return Err(CodegenError::ExpectedProperty("value"));
            },
        };
        let prev_node_output_type = OutputType::Struct(UProbeResult {  });
        let output_expr = match generate_expr_code(ctx, output_formula, Some(&prev_node_output_type))
             {
            Ok(v) => v,
            Err(e) => {
                return Err(e);
            },
        };
        if output_expr.ty == ExprType::Counter {
            self.codegen_counter(ctx);
            return Ok(());
        }
        let ringbuf = ctx.add_global(
            GlobalDef::MapGlobal {
                name: String::from_str("ringbuf"),
                section: String::from_str("maps/ringbuf"),
                def: MapDef {
                    kind: 27,
                    key_size: 0,
                    value_size: 0,
                    max_entries: 262144,
                    flags: 0,
                    inner_map_idx: 0,
                    numa: 0,
                },
            },
        );
        let event = self.bpf_ring_reserve(ctx, ringbuf, 8);
        let ok = ctx.fresh_value();
        ctx.emit(Instr::PtrIsNotNull { dst: ok, ptr: event });
        let then_block = ctx.append_basic_block();
        let exit = ctx.func_exit;
        ctx.emit(Instr::CondBranch { cond: ok, then_block, else_block: exit });
        ctx.set_current_block(then_block);
        let field = ctx.fresh_value();
        ctx.emit(Instr::FieldPtr { dst: field, base: event, index: 0 });
        ctx.emit(Instr::StoreValue { ptr: field, value: output_expr.value });
        self.bpf_ring_submit(ctx, event);
        Ok(())
    }

    /// A sink produces no structured output of its own.
    pub fn output_type(&self) -> (r: OutputType)
        ensures
            r == OutputType::Void,
    {
        OutputType::Void
    }

    /// Emits a null-checkable reserve call against a ring-buffer map: the
    /// reserve helper of the target's ABI, with the requested size and no
    /// flags.
    pub fn bpf_ring_reserve(&self, ctx: &mut CodegenCtx, ringbuf: usize, size: u64) -> (r: usize)
        requires
            old(ctx)@.wf(),
        ensures
            final(ctx)@.wf(),
            keeps_layout(old(ctx)@, final(ctx)@),
            final(ctx)@.globals == old(ctx)@.globals,
            final(ctx)@.literals == old(ctx)@.literals,
            final(ctx)@.current_block == old(ctx)@.current_block,
            final(ctx)@.exit_branches() == old(ctx)@.exit_branches(),
            final(ctx)@.cond_branches() == old(ctx)@.cond_branches(),
            final(ctx)@.atomic_adds() == old(ctx)@.atomic_adds(),
            final(ctx)@.helper_calls(131) == old(ctx)@.helper_calls(131) + 1,
            final(ctx)@.helper_calls(132) == old(ctx)@.helper_calls(132),
    {
        let dst = ctx.fresh_value();
        ctx.emit(
            Instr::HelperCall {
                dst,
                helper: 131,
                args: ArgList::Three(
                    IrValue::GlobalPtr(ringbuf),
                    IrValue::ConstInt(size),
                    IrValue::ConstInt(0),
                ),
            },
        );
        dst
    }

    /// Emits a lookup of one slot of an array map: the map-lookup helper of
    /// the target's ABI, whose result must be null-checked before use.
    pub fn bpf_map_lookup_elem(&self, ctx: &mut CodegenCtx, array_map: usize, index: usize) -> (r:
        usize)
        requires
            old(ctx)@.wf(),
        ensures
            final(ctx)@.wf(),
            keeps_layout(old(ctx)@, final(ctx)@),
            final(ctx)@.globals == old(ctx)@.globals,
            final(ctx)@.literals == old(ctx)@.literals,
            final(ctx)@.current_block == old(ctx)@.current_block,
            final(ctx)@.exit_branches() == old(ctx)@.exit_branches(),
            final(ctx)@.cond_branches() == old(ctx)@.cond_branches(),
            final(ctx)@.atomic_adds() == old(ctx)@.atomic_adds(),
            final(ctx)@.helper_calls(131) == old(ctx)@.helper_calls(131),
            final(ctx)@.helper_calls(132) == old(ctx)@.helper_calls(132),
            final(ctx)@.helper_calls(1) == old(ctx)@.helper_calls(1) + 1,
    {
        let dst = ctx.fresh_value();
        ctx.emit(
            Instr::HelperCall {
                dst,
                helper: 1,
                args: ArgList::Three(
                    IrValue::GlobalPtr(array_map),
                    IrValue::Ptr(index),
                    IrValue::ConstInt(0),
                ),
            },
        );
        dst
    }

    /// Emits the submit call that hands a reserved ring-buffer record to
    /// the kernel: the submit helper of the target's ABI, with no flags.
    pub fn bpf_ring_submit(&self, ctx: &mut CodegenCtx, value: usize)
        requires
            old(ctx)@.wf(),
        ensures
            final(ctx)@.wf(),
            keeps_layout(old(ctx)@, final(ctx)@),
            final(ctx)@.globals == old(ctx)@.globals,
            final(ctx)@.literals == old(ctx)@.literals,
            final(ctx)@.current_block == old(ctx)@.current_block,
            final(ctx)@.exit_branches() == old(ctx)@.exit_branches(),
            final(ctx)@.cond_branches() == old(ctx)@.cond_branches(),
            final(ctx)@.atomic_adds() == old(ctx)@.atomic_adds(),
            final(ctx)@.helper_calls(131) == old(ctx)@.helper_calls(131),
            final(ctx)@.helper_calls(132) == old(ctx)@.helper_calls(132) + 1,
    {
        let dst = ctx.fresh_value();
        ctx.emit(
            Instr::HelperCall {
                dst,
                helper: 132,
                args: ArgList::Two(IrValue::Ptr(value), IrValue::ConstInt(0)),
            },
        );
    }
}

} // verus!
