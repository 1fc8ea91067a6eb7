//! A compiler and supervision runtime for a small graph-based probe
//! description language.
//!
//! A program is a directed acyclic graph of probe nodes.  Each node carries
//! properties written in a small formula language; the compiler schedules the
//! graph, type-checks every formula and lowers the nodes into a basic-block
//! intermediate representation for a restricted bytecode target.  The runtime
//! half resolves attach points, plans the live readers and supervises the
//! cooperative teardown of a loaded program.

pub mod codegen;
pub mod dsl;
pub mod filter;
pub mod formulas;
pub mod graph;
pub mod ir;
pub mod label;
pub mod nodes;
pub mod parser;
pub mod runtime;
mod text;
pub mod uprobe;
pub mod ws;

pub use codegen::{CodegenError, CodegenResult, ModuleIr, bpf_printk, generate, generate_string_literal};
pub use dsl::{Elem, NodeId, construct_prog};
pub use filter::FilterNode;
pub use formulas::{ExprType, generate_expr_code};
pub use graph::{ProgGraph, schedule};
pub use ir::{ArgList, Block, CodegenCtx, GlobalDef, Instr, IrValue, MapDef};
pub use label::{LabelLoadPlan, LabelNode, NodeValue, counter_poll_step, ringbuf_drain_step};
pub use nodes::{ExprValue, Node, NodeProperties, OutputType};
pub use parser::{FormulaError, FormulaExpr, FormulaOp, FormulaTerm, FormulasParser, parse_formula};
pub use runtime::{LoadedState, RuntimeError, Session, decode_record};
pub use uprobe::{AttachSpec, ProbeRecord, UProbe, UProbePoint, UProbeResult};
pub use ws::{Message, compile};
