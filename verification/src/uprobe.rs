//! The probe-source node: attach-point resolution and the built-in output
//! record of an attached probe.

use vstd::prelude::*;
use vstd::string::StrSliceExecFns;
use vstd::string::StringExecFns;

use crate::codegen::CodegenError;
use crate::dsl::NodeId;
use crate::formulas::ExprType;
use crate::ir::{ArgList, CodegenCtx, Instr, IrValue, keeps_layout, keeps_sink_counts};
use crate::nodes::{ExprValue, NodeProperties, OutputType};
use crate::parser::{SpecExpr, SpecTerm};
use crate::runtime::{RuntimeError, SpecRtErr};
use crate::text::str_eq;

verus! {

/// One static trace marker read from a target binary's probe metadata.
#[derive(Debug, Clone)]
pub struct ProbeRecord {
    pub probe_name: String,
    pub sh_addr: u64,
    pub semaphore_offset: u64,
}

/// Mathematical model of a probe record.
pub struct SpecProbeRecord {
    pub probe_name: Seq<char>,
    pub sh_addr: u64,
    pub semaphore_offset: u64,
}

impl View for ProbeRecord {
    type V = SpecProbeRecord;

    open spec fn view(&self) -> SpecProbeRecord {
        SpecProbeRecord {
            probe_name: self.probe_name@,
            sh_addr: self.sh_addr,
            semaphore_offset: self.semaphore_offset,
        }
    }
}

/// One resolved attach point: a function symbol, or an offset with an
/// optional semaphore offset.
#[derive(Debug, Clone)]
pub struct UProbePoint {
    pub fn_name: Option<String>,
    pub offset: u64,
    pub semaphore_offset: u64,
}

/// Mathematical model of an attach point.
pub struct SpecUProbePoint {
    pub fn_name: Option<Seq<char>>,
    pub offset: u64,
    pub semaphore_offset: u64,
}

impl View for UProbePoint {
    type V = SpecUProbePoint;

    open spec fn view(&self) -> SpecUProbePoint {
        SpecUProbePoint {
            fn_name: match &self.fn_name {
                Some(s) => Some(s@),
                None => None,
            },
            offset: self.offset,
            semaphore_offset: self.semaphore_offset,
        }
    }
}

/// How a probe-source node wants to be attached: to every match of a static
/// trace marker, or to one function symbol.
#[derive(Debug)]
pub enum AttachSpec {
    StaticProbe { program: String, probe: String },
    FunctionSymbol { program: String, function: String },
}

/// Mathematical model of an attach specification.
pub enum SpecAttach {
    StaticProbe { program: Seq<char>, probe: Seq<char> },
    FunctionSymbol { program: Seq<char>, function: Seq<char> },
}

impl View for AttachSpec {
    type V = SpecAttach;

    open spec fn view(&self) -> SpecAttach {
        match self {
            AttachSpec::StaticProbe { program, probe } => SpecAttach::StaticProbe {
                program: program@,
                probe: probe@,
            },
            AttachSpec::FunctionSymbol { program, function } => SpecAttach::FunctionSymbol {
                program: program@,
                function: function@,
            },
        }
    }
}

/// Why a property does not hold usable text.
pub enum SpecStrPropErr {
    /// The property is absent.
    Missing,
    /// The property holds something other than a string literal.
    NotText,
}

/// Reads property `name` as the text of a string-literal term.
pub open spec fn spec_str_prop(props: Map<Seq<char>, SpecExpr>, name: Seq<char>) -> Result<
    Seq<char>,
    SpecStrPropErr,
> {
    if !props.contains_key(name) {
        Err(SpecStrPropErr::Missing)
    } else {
        match props[name] {
            SpecExpr::Term(SpecTerm::StrLit(w)) => Ok(w),
            _ => Err(SpecStrPropErr::NotText),
        }
    }
}

/// The attach specification a property bag denotes: `program` is always
/// required; `probe` names a static marker when present, else `function`
/// names a symbol.  An error names the property at fault.
pub open spec fn spec_attach_spec(props: Map<Seq<char>, SpecExpr>) -> Result<
    SpecAttach,
    (Seq<char>, SpecStrPropErr),
> {
    match spec_str_prop(props, "program"@) {
        Err(e) => Err(("program"@, e)),
        Ok(program) => if props.contains_key("probe"@) {
            match spec_str_prop(props, "probe"@) {
                Err(e) => Err(("probe"@, e)),
                Ok(probe) => Ok(SpecAttach::StaticProbe { program, probe }),
            }
        } else {
            match spec_str_prop(props, "function"@) {
                Err(e) => Err(("function"@, e)),
                Ok(function) => Ok(SpecAttach::FunctionSymbol { program, function }),
            }
        },
    }
}

/// The attach points of a static marker: one per record whose name matches.
pub open spec fn spec_probe_points(records: Seq<SpecProbeRecord>, probe: Seq<char>) -> Seq<
    SpecUProbePoint,
>
    decreases records.len(),
{
    if records.len() == 0 {
        Seq::empty()
    } else {
        let init = spec_probe_points(records.drop_last(), probe);
        if records.last().probe_name == probe {
            init.push(
                SpecUProbePoint {
                    fn_name: None,
                    offset: records.last().sh_addr,
                    semaphore_offset: records.last().semaphore_offset,
                },
            )
        } else {
            init
        }
    }
}

/// The error a failed string-property read maps to: a missing property is
/// reported as such; anything else is an unclassified description.
pub open spec fn is_str_prop_err(e: SpecRtErr, name: Seq<char>, kind: SpecStrPropErr) -> bool {
    match kind {
        SpecStrPropErr::Missing => e matches SpecRtErr::ExpectedProperty(n) && n == name,
        SpecStrPropErr::NotText => e is Other,
    }
}

/// Reads a property as the text of a string-literal term.
fn str_prop(props: &NodeProperties, name: &'static str) -> (r: Result<String, RuntimeError>)
    ensures
        match r {
            Ok(s) => spec_str_prop(props@, name@) == Ok::<Seq<char>, SpecStrPropErr>(s@),
            Err(e) => (spec_str_prop(props@, name@) matches Err(k) && is_str_prop_err(e@, name@, k)),
        },
{
    match props.get(name) {
        None => Err(RuntimeError::ExpectedProperty(name)),
        Some(formula) => match formula.term() {
            None => Err(
                RuntimeError::Other(
                    String::from_str("non-term value used for the `").concat(name).concat(
                        "` property",
                    ),
                ),
            ),
            Some(term) => match term.str_value() {
                None => Err(
                    RuntimeError::Other(
                        String::from_str("expected a string value for `").concat(name).concat("`"),
                    ),
                ),
                Some(text) => Ok(String::from_str(text)),
            },
        },
    }
}

/// A probe-source node: attaches the generated program to a target binary
/// and introduces the built-in output record.
#[derive(Debug)]
pub struct UProbe {
    id: NodeId,
    props: NodeProperties,
}

impl UProbe {
    /// A probe-source node with the given identity and properties.
    pub fn new(id: NodeId, props: NodeProperties) -> (r: UProbe)
        ensures
            r.spec_props() == props@,
            r.spec_id() == id,
    {
        UProbe { id, props }
    }

    /// The node's property bag.
    pub closed spec fn spec_props(&self) -> Map<Seq<char>, SpecExpr> {
        self.props@
    }

    /// The node's identity.
    pub closed spec fn spec_id(&self) -> NodeId {
        self.id
    }

    /// How this node wants to be attached, read from its properties.
    pub fn attach_spec(&self) -> (r: Result<AttachSpec, RuntimeError>)
        ensures
            match r {
                Ok(a) => spec_attach_spec(self.spec_props()) == Ok::<SpecAttach, (
                    Seq<char>,
                    SpecStrPropErr,
                )>(a@),
                Err(e) => (spec_attach_spec(self.spec_props()) matches Err((n, k))
                    && is_str_prop_err(e@, n, k)),
            },
    {
        let program = match str_prop(&self.props, "program") {
            Ok(p) => p,
            Err(e) => {
                return Err(e);
            },
        };
        if self.props.get("probe").is_some() {
            match str_prop(&self.props, "probe") {
                Ok(probe) => Ok(AttachSpec::StaticProbe { program, probe }),
                Err(e) => Err(e),
            }
        } else {
            match str_prop(&self.props, "function") {
                Ok(function) => Ok(AttachSpec::FunctionSymbol { program, function }),
                Err(e) => Err(e),
            }
        }
    }

    /// Resolves the node's attach points.
    ///
    /// A static marker is resolved against the probe records read from the
    /// target binary: one attach point per record whose name matches, and
    /// zero matches is a probe-not-found error.  A function symbol needs no
    /// records: exactly one attach point at offset zero, with no semaphore.
    pub fn generate_trace_points(&self, probe_records: &Vec<ProbeRecord>) -> (r: Result<
        Vec<UProbePoint>,
        RuntimeError,
    >)
        ensures
            match r {
                Ok(pts) => match spec_attach_spec(self.spec_props()) {
                    Ok(SpecAttach::StaticProbe { probe, .. }) => {
                        let expected = spec_probe_points(
                            probe_records@.map_values(|p: ProbeRecord| p@),
                            probe,
                        );
                        expected.len() > 0 && pts@.map_values(|p: UProbePoint| p@) == expected
                    },
                    Ok(SpecAttach::FunctionSymbol { function, .. }) => pts@.len() == 1 && pts@[0]@
                        == (SpecUProbePoint {
                        fn_name: Some(function),
                        offset: 0,
                        semaphore_offset: 0,
                    }),
                    Err(_) => false,
                },
                Err(e) => match spec_attach_spec(self.spec_props()) {
                    Ok(SpecAttach::StaticProbe { probe, .. }) => spec_probe_points(
                        probe_records@.map_values(|p: ProbeRecord| p@),
                        probe,
                    ).len() == 0 && (e@ matches SpecRtErr::ProbeNotFound(n) && n == probe),
                    Ok(SpecAttach::FunctionSymbol { .. }) => false,
                    Err((n, k)) => is_str_prop_err(e@, n, k),
                },
            },
    {
        let spec = match self.attach_spec() {
            Ok(a) => a,
            Err(e) => {
                return Err(e);
            },
        };
        match spec {
            AttachSpec::StaticProbe { program: _, probe } => {
                let mut pts: Vec<UProbePoint> = Vec::new();
                let n = probe_records.len();
                let mut i: usize = 0;
                while i < n
                    invariant
                        0 <= i <= n,
                        n == probe_records@.len(),
                        pts@.map_values(|p: UProbePoint| p@) == spec_probe_points(
                            probe_records@.map_values(|p: ProbeRecord| p@).subrange(0, i as int),
                            probe@,
                        ),
                    decreases n - i,
                {
                    let ghost views = probe_records@.map_values(|p: ProbeRecord| p@);
                    proof {
                        assert(views.subrange(0, i + 1).drop_last() =~= views.subrange(0, i as int));
                        assert(views.subrange(0, i + 1).last() == probe_records@[i as int]@);
                    }
                    let ghost prev_pts = pts@;
                    let rec = &probe_records[i];
                    if str_eq(rec.probe_name.as_str(), probe.as_str()) {
                        pts.push(
                            UProbePoint {
                                fn_name: None,
                                offset: rec.sh_addr,
                                semaphore_offset: rec.semaphore_offset,
                            },
                        );
                        proof {
                            assert(pts@.map_values(|p: UProbePoint| p@) =~= prev_pts.map_values(
                                |p: UProbePoint| p@,
                            ).push(pts@.last()@));
                        }
                    }
                    i = i + 1;
                }
                proof {
                    assert(probe_records@.map_values(|p: ProbeRecord| p@).subrange(
                        0,
                        probe_records@.len() as int,
                    ) =~= probe_records@.map_values(|p: ProbeRecord| p@));
                }
                if pts.len() == 0 {
                    Err(RuntimeError::ProbeNotFound(probe))
                } else {
                    Ok(pts)
                }
            },
            AttachSpec::FunctionSymbol { program: _, function } => {
                let mut pts: Vec<UProbePoint> = Vec::new();
                pts.push(UProbePoint { fn_name: Some(function), offset: 0, semaphore_offset: 0 });
                Ok(pts)
            },
        }
    }

    /// A probe source emits no instructions of its own.
    pub fn codegen(&self, ctx: &mut CodegenCtx, inputs: &Vec<OutputType>) -> (r: Result<
        (),
        CodegenError,
    >)
        ensures
            final(ctx)@ == old(ctx)@,
            r is Ok,
    {
        let _ = inputs;
        Ok(())
    }

    /// The node's output: the fixed built-in record of an attached probe.
    pub fn output_type(&self) -> (r: OutputType)
        ensures
            r == OutputType::Struct(UProbeResult {  }),
    {
        OutputType::Struct(UProbeResult {  })
    }
}

/// The built-in output record of an attached probe: the process id and the
/// process name of the process that hit the probe.
#[derive(Debug, PartialEq, Eq, Structural, Clone, Copy)]
pub struct UProbeResult {}

impl UProbeResult {
    /// Emits the code that materializes the current process name: a stack
    /// buffer filled by the process-name helper of the target's ABI.
    pub fn codegen_proc_name(&self, ctx: &mut CodegenCtx) -> (r: ExprValue)
        requires
            old(ctx)@.wf(),
        ensures
            final(ctx)@.wf(),
            keeps_layout(old(ctx)@, final(ctx)@),
            keeps_sink_counts(old(ctx)@, final(ctx)@),
            final(ctx)@.globals == old(ctx)@.globals,
            final(ctx)@.literals == old(ctx)@.literals,
            final(ctx)@.current_block == old(ctx)@.current_block,
            final(ctx)@.exit_branches() == old(ctx)@.exit_branches(),
            final(ctx)@.cond_branches() == old(ctx)@.cond_branches(),
            r.ty == ExprType::String,
            r.value is Ptr,
            (exists|buf: usize, call_dst: usize|
                r.value == IrValue::Ptr(buf) && final(ctx)@.blocks == old(ctx)@.blocks.update(
                    old(ctx)@.allocs_block,
                    old(ctx)@.blocks[old(ctx)@.allocs_block].push(
                        Instr::Alloca { dst: buf, size: 16 },
                    ),
                ).update(
                    old(ctx)@.current_block,
                    old(ctx)@.blocks[old(ctx)@.current_block].push(
                        Instr::HelperCall {
                            dst: call_dst,
                            helper: 16,
                            args: ArgList::Two(IrValue::Ptr(buf), IrValue::ConstInt(16)),
                        },
                    ),
                )),
    {
        let buf = ctx.fresh_value();
        ctx.emit_in_allocs(Instr::Alloca { dst: buf, size: 16 });
        let dst = ctx.fresh_value();
        ctx.emit(
            Instr::HelperCall {
                dst,
                helper: 16,
                args: ArgList::Two(IrValue::Ptr(buf), IrValue::ConstInt(16)),
            },
        );
        proof {
            assert(final(ctx)@.blocks =~= old(ctx)@.blocks.update(
                old(ctx)@.allocs_block,
                old(ctx)@.blocks[old(ctx)@.allocs_block].push(Instr::Alloca { dst: buf, size: 16 }),
            ).update(
                old(ctx)@.current_block,
                old(ctx)@.blocks[old(ctx)@.current_block].push(
                    Instr::HelperCall {
                        dst,
                        helper: 16,
                        args: ArgList::Two(IrValue::Ptr(buf), IrValue::ConstInt(16)),
                    },
                ),
            ));
        }
        ExprValue { value: IrValue::Ptr(buf), ty: ExprType::String }
    }

    /// Emits the code that materializes the current process id: the
    /// pid/tgid helper of the target's ABI, shifted down to the pid.
    pub fn codegen_pid(&self, ctx: &mut CodegenCtx) -> (r: ExprValue)
        requires
            old(ctx)@.wf(),
        ensures
            final(ctx)@.wf(),
            keeps_layout(old(ctx)@, final(ctx)@),
            keeps_sink_counts(old(ctx)@, final(ctx)@),
            final(ctx)@.globals == old(ctx)@.globals,
            final(ctx)@.literals == old(ctx)@.literals,
            final(ctx)@.current_block == old(ctx)@.current_block,
            final(ctx)@.exit_branches() == old(ctx)@.exit_branches(),
            final(ctx)@.cond_branches() == old(ctx)@.cond_branches(),
            r.ty == ExprType::Number,
            r.value is Reg,
            (exists|raw: usize, pid: usize|
                r.value == IrValue::Reg(pid) && final(ctx)@.blocks == old(ctx)@.blocks.update(
                    old(ctx)@.current_block,
                    old(ctx)@.blocks[old(ctx)@.current_block].push(
                        Instr::HelperCall { dst: raw, helper: 14, args: ArgList::Zero },
                    ).push(Instr::ShrConst { dst: pid, src: raw, amount: 32 }),
                )),
    {
        let raw = ctx.fresh_value();
        ctx.emit(Instr::HelperCall { dst: raw, helper: 14, args: ArgList::Zero });
        let pid = ctx.fresh_value();
        ctx.emit(Instr::ShrConst { dst: pid, src: raw, amount: 32 });
        proof {
            assert(final(ctx)@.blocks =~= old(ctx)@.blocks.update(
                old(ctx)@.current_block,
                old(ctx)@.blocks[old(ctx)@.current_block].push(
                    Instr::HelperCall { dst: raw, helper: 14, args: ArgList::Zero },
                ).push(Instr::ShrConst { dst: pid, src: raw, amount: 32 }),
            ));
        }
        ExprValue { value: IrValue::Reg(pid), ty: ExprType::Number }
    }

    /// Resolves a field of the built-in record by name and emits the code
    /// that materializes it.
    pub fn codegen_lookup(&self, prop_name: &str, ctx: &mut CodegenCtx) -> (r: Result<
        ExprValue,
        CodegenError,
    >)
        requires
            old(ctx)@.wf(),
        ensures
            final(ctx)@.wf(),
            keeps_layout(old(ctx)@, final(ctx)@),
            keeps_sink_counts(old(ctx)@, final(ctx)@),
            final(ctx)@.globals == old(ctx)@.globals,
            final(ctx)@.literals == old(ctx)@.literals,
            final(ctx)@.current_block == old(ctx)@.current_block,
            final(ctx)@.exit_branches() == old(ctx)@.exit_branches(),
            final(ctx)@.cond_branches() == old(ctx)@.cond_branches(),
            match r {
                Ok(v) => if prop_name@ == "process_name"@ {
                    v.ty == ExprType::String && v.value is Ptr
                } else {
                    prop_name@ == "pid"@ && v.ty == ExprType::Number && v.value is Reg
                },
                Err(e) => prop_name@ != "process_name"@ && prop_name@ != "pid"@ && (e@ matches
                    crate::codegen::SpecCgErr::UnknownProperty(n) && n == prop_name@),
            },
    {
        if str_eq(prop_name, "process_name") {
            Ok(self.codegen_proc_name(ctx))
        } else if str_eq(prop_name, "pid") {
            Ok(self.codegen_pid(ctx))
        } else {
            Err(CodegenError::UnknownProperty(String::from_str(prop_name)))
        }
    }
}

} // verus!
