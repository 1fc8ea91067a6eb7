//! The intermediate representation that the code generator emits.
//!
//! The generated program is one synthetic function made of basic blocks: an
//! allocation block for stack slots, an entry chain that grows as each node
//! emits code, and one shared exit block; every early-out branch (for
//! instance after a helper call that may return null) goes straight to the
//! exit block.  Beside the blocks the module collects global definitions: map
//! descriptors in their own named sections and raw byte globals such as the
//! license string.

use vstd::prelude::*;

use crate::parser::FormulaOp;

verus! {

/// An operand of an instruction.
///
/// `LitString` names an entry of the literal pool: a compile-time byte-array
/// constant.  `Reg` and `Ptr` are runtime values produced by earlier
/// instructions: an integer and a pointer.
#[derive(Debug, PartialEq, Eq, Structural, Clone, Copy)]
pub enum IrValue {
    ConstInt(u64),
    LitString(usize),
    Reg(usize),
    Ptr(usize),
    /// The address of the numbered global definition.
    GlobalPtr(usize),
}

/// The arguments of a helper call; the target's helpers take at most three.
#[derive(Debug, PartialEq, Eq, Structural, Clone, Copy)]
pub enum ArgList {
    Zero,
    One(IrValue),
    Two(IrValue, IrValue),
    Three(IrValue, IrValue, IrValue),
}

/// One instruction of the generated function.
#[allow(inconsistent_fields)]
#[derive(Debug, PartialEq, Eq, Structural, Clone, Copy)]
pub enum Instr {
    /// Reserve `size` bytes of stack; `dst` is a pointer to them.
    Alloca { dst: usize, size: u32 },
    /// Store a constant through a pointer.
    StoreConst { ptr: usize, value: u64 },
    /// Store an operand through a pointer.
    StoreValue { ptr: usize, value: IrValue },
    /// Load the byte at `index` behind a runtime pointer.
    LoadChar { dst: usize, ptr: usize, index: u64 },
    /// Materialize one byte of a compile-time literal.
    ConstByte { dst: usize, value: u8 },
    /// Compare two runtime values with a relational operator.
    Compare { dst: usize, op: FormulaOp, lhs: usize, rhs: usize },
    /// Test a runtime pointer against null; `dst` is true when it is not null.
    PtrIsNotNull { dst: usize, ptr: usize },
    /// Call the numbered helper of the target's ABI.
    HelperCall { dst: usize, helper: u64, args: ArgList },
    /// Atomically add a constant to the value behind a pointer.
    AtomicAdd { ptr: usize, value: u64 },
    /// Point `dst` at field `index` of the record behind `base`.
    FieldPtr { dst: usize, base: usize, index: u64 },
    /// Shift a runtime value right by a constant.
    ShrConst { dst: usize, src: usize, amount: u32 },
    /// Conditional branch: `then_block` when `cond` holds, `else_block` otherwise.
    CondBranch { cond: usize, then_block: usize, else_block: usize },
    /// Unconditional branch.
    Branch { target: usize },
    /// Return a constant from the function.
    Return { value: u64 },
}

/// The fixed seven-field map descriptor layout the loader recognizes.
#[derive(Debug, PartialEq, Eq, Structural, Clone, Copy)]
pub struct MapDef {
    pub kind: u32,
    pub key_size: u32,
    pub value_size: u32,
    pub max_entries: u32,
    pub flags: u32,
    pub inner_map_idx: u32,
    pub numa: u32,
}

/// A global definition of the generated object.
#[derive(Debug)]
pub enum GlobalDef {
    /// A map descriptor in its own named section.
    MapGlobal { name: String, section: String, def: MapDef },
    /// A raw byte constant, such as the license string.
    BytesGlobal { name: String, section: String, bytes: Vec<u8> },
}

/// Mathematical model of a global definition.
pub enum SpecGlobal {
    MapGlobal { name: Seq<char>, section: Seq<char>, def: MapDef },
    BytesGlobal { name: Seq<char>, section: Seq<char>, bytes: Seq<u8> },
}

impl View for GlobalDef {
    type V = SpecGlobal;

    open spec fn view(&self) -> SpecGlobal {
        match self {
            GlobalDef::MapGlobal { name, section, def } => SpecGlobal::MapGlobal {
                name: name@,
                section: section@,
                def: *def,
            },
            GlobalDef::BytesGlobal { name, section, bytes } => SpecGlobal::BytesGlobal {
                name: name@,
                section: section@,
                bytes: bytes@,
            },
        }
    }
}

/// One basic block.
#[derive(Debug)]
pub struct Block {
    pub instrs: Vec<Instr>,
}

/// Everything the code generator carries while it walks the graph.
#[derive(Debug)]
pub struct CodegenCtx {
    /// The basic blocks; a block is named by its index.
    pub blocks: Vec<Block>,
    /// The shared exit block.
    pub func_exit: usize,
    /// The block that holds every stack allocation.
    pub allocs_block: usize,
    /// The block that currently receives emitted instructions.
    pub current_block: usize,
    /// The global definitions emitted so far.
    pub globals: Vec<GlobalDef>,
    /// The pool of compile-time byte-array literals.
    pub literals: Vec<Vec<u8>>,
    /// The next fresh value name.
    pub next_value: usize,
}

/// Mathematical model of the code generator state.
pub struct SpecCtx {
    pub blocks: Seq<Seq<Instr>>,
    pub func_exit: int,
    pub allocs_block: int,
    pub current_block: int,
    pub globals: Seq<SpecGlobal>,
    pub literals: Seq<Seq<u8>>,
    pub next_value: int,
}

impl View for CodegenCtx {
    type V = SpecCtx;

    open spec fn view(&self) -> SpecCtx {
        SpecCtx {
            blocks: self.blocks@.map_values(|b: Block| b.instrs@),
            func_exit: self.func_exit as int,
            allocs_block: self.allocs_block as int,
            current_block: self.current_block as int,
            globals: self.globals@.map_values(|g: GlobalDef| g@),
            literals: self.literals@.map_values(|l: Vec<u8>| l@),
            next_value: self.next_value as int,
        }
    }
}

impl SpecCtx {
    /// The block indices a context must keep inside its block list.
    pub open spec fn wf(self) -> bool {
        &&& 0 <= self.func_exit < self.blocks.len()
        &&& 0 <= self.allocs_block < self.blocks.len()
        &&& 0 <= self.current_block < self.blocks.len()
        &&& self.current_block != self.func_exit
        &&& self.allocs_block != self.func_exit
        &&& self.current_block != self.allocs_block
    }
}

/// How many instructions of `instrs` satisfy `p`.
pub open spec fn count_in(instrs: Seq<Instr>, p: spec_fn(Instr) -> bool) -> int
    decreases instrs.len(),
{
    if instrs.len() == 0 {
        0
    } else {
        count_in(instrs.drop_last(), p) + if p(instrs.last()) {
            1int
        } else {
            0int
        }
    }
}

/// How many instructions of all of `blocks` satisfy `p`.
pub open spec fn count_blocks(blocks: Seq<Seq<Instr>>, p: spec_fn(Instr) -> bool) -> int
    decreases blocks.len(),
{
    if blocks.len() == 0 {
        0
    } else {
        count_blocks(blocks.drop_last(), p) + count_in(blocks.last(), p)
    }
}

/// A conditional branch whose failure edge goes to the exit block: one
/// decision point of the generated control flow.
pub open spec fn is_exit_branch(ins: Instr, exit: int) -> bool {
    ins matches Instr::CondBranch { else_block, .. } && else_block == exit
}

impl SpecCtx {
    /// The number of decision points whose failure edge reaches the shared
    /// exit block.
    pub open spec fn exit_branches(self) -> int {
        count_blocks(self.blocks, |ins: Instr| is_exit_branch(ins, self.func_exit))
    }

    /// The number of atomic-increment instructions.
    pub open spec fn atomic_adds(self) -> int {
        count_blocks(self.blocks, |ins: Instr| ins is AtomicAdd)
    }

    /// The number of calls of the numbered helper.
    pub open spec fn helper_calls(self, h: int) -> int {
        count_blocks(self.blocks, |ins: Instr| ins matches Instr::HelperCall { helper, .. } && helper == h)
    }

    /// The number of conditional branches, wherever their edges go.
    pub open spec fn cond_branches(self) -> int {
        count_blocks(self.blocks, |ins: Instr| ins is CondBranch)
    }
}

/// The emission kept the function layout: the same exit and allocation
/// blocks.
pub open spec fn keeps_layout(a: SpecCtx, b: SpecCtx) -> bool {
    &&& b.func_exit == a.func_exit
    &&& b.allocs_block == a.allocs_block
}

/// The emission added no counting-path or ring-path instruction: no atomic
/// increment and no reserve or submit helper call.
pub open spec fn keeps_sink_counts(a: SpecCtx, b: SpecCtx) -> bool {
    &&& b.atomic_adds() == a.atomic_adds()
    &&& b.helper_calls(131) == a.helper_calls(131)
    &&& b.helper_calls(132) == a.helper_calls(132)
}

proof fn lemma_count_in_push(instrs: Seq<Instr>, ins: Instr, p: spec_fn(Instr) -> bool)
    ensures
        count_in(instrs.push(ins), p) == count_in(instrs, p) + if p(ins) {
            1int
        } else {
            0int
        },
{
    assert(instrs.push(ins).drop_last() =~= instrs);
    assert(instrs.push(ins).last() == ins);
}

proof fn lemma_count_blocks_update(
    blocks: Seq<Seq<Instr>>,
    bi: int,
    b2: Seq<Instr>,
    p: spec_fn(Instr) -> bool,
)
    requires
        0 <= bi < blocks.len(),
    ensures
        count_blocks(blocks.update(bi, b2), p) == count_blocks(blocks, p) - count_in(
            blocks[bi],
            p,
        ) + count_in(b2, p),
    decreases blocks.len(),
{
    let upd = blocks.update(bi, b2);
    if bi == blocks.len() - 1 {
        assert(upd.drop_last() =~= blocks.drop_last());
        assert(upd.last() == b2);
    } else {
        assert(upd.drop_last() =~= blocks.drop_last().update(bi, b2));
        assert(upd.last() == blocks.last());
        lemma_count_blocks_update(blocks.drop_last(), bi, b2, p);
    }
}

proof fn lemma_count_blocks_push(blocks: Seq<Seq<Instr>>, b: Seq<Instr>, p: spec_fn(Instr) -> bool)
    ensures
        count_blocks(blocks.push(b), p) == count_blocks(blocks, p) + count_in(b, p),
{
    assert(blocks.push(b).drop_last() =~= blocks);
    assert(blocks.push(b).last() == b);
}

impl CodegenCtx {
    /// A fresh value name.
    pub fn fresh_value(&mut self) -> (r: usize)
        ensures
            r == old(self)@.next_value,
            final(self)@.blocks == old(self)@.blocks,
            final(self)@.globals == old(self)@.globals,
            final(self)@.literals == old(self)@.literals,
            final(self)@.func_exit == old(self)@.func_exit,
            final(self)@.allocs_block == old(self)@.allocs_block,
            final(self)@.current_block == old(self)@.current_block,
    {
        let r = self.next_value;
        if self.next_value < usize::MAX {
            self.next_value = self.next_value + 1;
        }
        r
    }

    /// Appends a fresh, empty basic block and returns its name.
    pub fn append_basic_block(&mut self) -> (b: usize)
        ensures
            b == old(self)@.blocks.len(),
            final(self)@.blocks == old(self)@.blocks.push(Seq::empty()),
            final(self)@.globals == old(self)@.globals,
            final(self)@.literals == old(self)@.literals,
            final(self)@.func_exit == old(self)@.func_exit,
            final(self)@.allocs_block == old(self)@.allocs_block,
            final(self)@.current_block == old(self)@.current_block,
            final(self)@.next_value == old(self)@.next_value,
            forall|p: spec_fn(Instr) -> bool| #[trigger] count_blocks(final(self)@.blocks, p)
                == count_blocks(old(self)@.blocks, p),
    {
        let b = self.blocks.len();
        self.blocks.push(Block { instrs: Vec::new() });
        proof {
            assert(final(self)@.blocks =~= old(self)@.blocks.push(Seq::empty()));
            assert forall|p: spec_fn(Instr) -> bool| #[trigger] count_blocks(final(self)@.blocks, p)
                == count_blocks(old(self)@.blocks, p) by {
                lemma_count_blocks_push(old(self)@.blocks, Seq::empty(), p);
            }
        }
        b
    }

    /// Moves the emission point to block `b`.
    pub fn set_current_block(&mut self, b: usize)
        requires
            b < old(self)@.blocks.len(),
            b != old(self)@.func_exit,
            b != old(self)@.allocs_block,
        ensures
            (final(self)@ == SpecCtx { current_block: b as int, ..old(self)@ }),
    {
        self.current_block = b;
    }

    /// Emits one instruction into the current block.
    pub fn emit(&mut self, ins: Instr)
        requires
            old(self)@.wf(),
        ensures
            final(self)@.blocks == old(self)@.blocks.update(
                old(self)@.current_block,
                old(self)@.blocks[old(self)@.current_block].push(ins),
            ),
            final(self)@.globals == old(self)@.globals,
            final(self)@.literals == old(self)@.literals,
            final(self)@.func_exit == old(self)@.func_exit,
            final(self)@.allocs_block == old(self)@.allocs_block,
            final(self)@.current_block == old(self)@.current_block,
            final(self)@.next_value == old(self)@.next_value,
            final(self)@.wf(),
            forall|p: spec_fn(Instr) -> bool| #[trigger] count_blocks(final(self)@.blocks, p)
                == count_blocks(old(self)@.blocks, p) + if p(ins) {
                    1int
                } else {
                    0int
                },
    {
        let cb = self.current_block;
        let b = &mut self.blocks[cb];
        b.instrs.push(ins);
        proof {
            assert(final(self)@.blocks =~= old(self)@.blocks.update(
                old(self)@.current_block,
                old(self)@.blocks[old(self)@.current_block].push(ins),
            ));
            assert forall|p: spec_fn(Instr) -> bool| #[trigger] count_blocks(final(self)@.blocks, p)
                == count_blocks(old(self)@.blocks, p) + if p(ins) {
                    1int
                } else {
                    0int
                } by {
                lemma_count_blocks_update(
                    old(self)@.blocks,
                    old(self)@.current_block,
                    old(self)@.blocks[old(self)@.current_block].push(ins),
                    p,
                );
                lemma_count_in_push(old(self)@.blocks[old(self)@.current_block], ins, p);
            }
        }
    }

    /// Emits one instruction into the allocation block, leaving the emission
    /// point unchanged.
    pub fn emit_in_allocs(&mut self, ins: Instr)
        requires
            old(self)@.wf(),
        ensures
            final(self)@.blocks == old(self)@.blocks.update(
                old(self)@.allocs_block,
                old(self)@.blocks[old(self)@.allocs_block].push(ins),
            ),
            final(self)@.globals == old(self)@.globals,
            final(self)@.literals == old(self)@.literals,
            final(self)@.func_exit == old(self)@.func_exit,
            final(self)@.allocs_block == old(self)@.allocs_block,
            final(self)@.current_block == old(self)@.current_block,
            final(self)@.next_value == old(self)@.next_value,
            final(self)@.wf(),
            forall|p: spec_fn(Instr) -> bool| #[trigger] count_blocks(final(self)@.blocks, p)
                == count_blocks(old(self)@.blocks, p) + if p(ins) {
                    1int
                } else {
                    0int
                },
    {
        let ab = self.allocs_block;
        let b = &mut self.blocks[ab];
        b.instrs.push(ins);
        proof {
            assert(final(self)@.blocks =~= old(self)@.blocks.update(
                old(self)@.allocs_block,
                old(self)@.blocks[old(self)@.allocs_block].push(ins),
            ));
            assert forall|p: spec_fn(Instr) -> bool| #[trigger] count_blocks(final(self)@.blocks, p)
                == count_blocks(old(self)@.blocks, p) + if p(ins) {
                    1int
                } else {
                    0int
                } by {
                lemma_count_blocks_update(
                    old(self)@.blocks,
                    old(self)@.allocs_block,
                    old(self)@.blocks[old(self)@.allocs_block].push(ins),
                    p,
                );
                lemma_count_in_push(old(self)@.blocks[old(self)@.allocs_block], ins, p);
            }
        }
    }

    /// Emits one instruction into the shared exit block, leaving the
    /// emission point unchanged.
    pub fn emit_in_exit(&mut self, ins: Instr)
        requires
            old(self)@.wf(),
        ensures
            final(self)@.blocks == old(self)@.blocks.update(
                old(self)@.func_exit,
                old(self)@.blocks[old(self)@.func_exit].push(ins),
            ),
            final(self)@.globals == old(self)@.globals,
            final(self)@.literals == old(self)@.literals,
            final(self)@.func_exit == old(self)@.func_exit,
            final(self)@.allocs_block == old(self)@.allocs_block,
            final(self)@.current_block == old(self)@.current_block,
            final(self)@.next_value == old(self)@.next_value,
            final(self)@.wf(),
            forall|p: spec_fn(Instr) -> bool| #[trigger] count_blocks(final(self)@.blocks, p)
                == count_blocks(old(self)@.blocks, p) + if p(ins) {
                    1int
                } else {
                    0int
                },
    {
        let xb = self.func_exit;
        let b = &mut self.blocks[xb];
        b.instrs.push(ins);
        proof {
            assert(final(self)@.blocks =~= old(self)@.blocks.update(
                old(self)@.func_exit,
                old(self)@.blocks[old(self)@.func_exit].push(ins),
            ));
            assert forall|p: spec_fn(Instr) -> bool| #[trigger] count_blocks(final(self)@.blocks, p)
                == count_blocks(old(self)@.blocks, p) + if p(ins) {
                    1int
                } else {
                    0int
                } by {
                lemma_count_blocks_update(
                    old(self)@.blocks,
                    old(self)@.func_exit,
                    old(self)@.blocks[old(self)@.func_exit].push(ins),
                    p,
                );
                lemma_count_in_push(old(self)@.blocks[old(self)@.func_exit], ins, p);
            }
        }
    }

    /// Records a global definition and names it.
    pub fn add_global(&mut self, g: GlobalDef) -> (r: usize)
        ensures
            r == old(self)@.globals.len(),
            (final(self)@ == SpecCtx { globals: old(self)@.globals.push(g@), ..old(self)@ }),
    {
        let r = self.globals.len();
        self.globals.push(g);
        proof {
            assert(final(self)@.globals =~= old(self)@.globals.push(g@));
            assert(final(self)@ == SpecCtx { globals: old(self)@.globals.push(g@), ..old(self)@ });
        }
        r
    }

    /// Adds a compile-time byte-array literal to the pool and names it.
    pub fn add_literal(&mut self, bytes: Vec<u8>) -> (r: usize)
        ensures
            r == old(self)@.literals.len(),
            (final(self)@ == SpecCtx { literals: old(self)@.literals.push(bytes@), ..old(self)@ }),
    {
        let r = self.literals.len();
        self.literals.push(bytes);
        proof {
            assert(final(self)@.literals =~= old(self)@.literals.push(bytes@));
            assert(final(self)@ == SpecCtx {
                literals: old(self)@.literals.push(bytes@),
                ..old(self)@
            });
        }
        r
    }
}

proof fn lemma_count_in_subset(instrs: Seq<Instr>, p: spec_fn(Instr) -> bool, q: spec_fn(
    Instr,
) -> bool)
    requires
        forall|ins: Instr| #[trigger] q(ins) ==> p(ins),
    ensures
        count_in(instrs, q) <= count_in(instrs, p),
    decreases instrs.len(),
{
    if instrs.len() > 0 {
        lemma_count_in_subset(instrs.drop_last(), p, q);
    }
}

proof fn lemma_count_in_eq_pointwise(
    instrs: Seq<Instr>,
    p: spec_fn(Instr) -> bool,
    q: spec_fn(Instr) -> bool,
)
    requires
        forall|ins: Instr| #[trigger] q(ins) ==> p(ins),
        count_in(instrs, p) == count_in(instrs, q),
    ensures
        forall|ii: int| 0 <= ii < instrs.len() && p(#[trigger] instrs[ii]) ==> q(instrs[ii]),
    decreases instrs.len(),
{
    if instrs.len() > 0 {
        lemma_count_in_subset(instrs.drop_last(), p, q);
        if p(instrs.last()) && !q(instrs.last()) {
            assert(false);
        }
        lemma_count_in_eq_pointwise(instrs.drop_last(), p, q);
        assert forall|ii: int| 0 <= ii < instrs.len() && p(#[trigger] instrs[ii]) implies q(
            instrs[ii],
        ) by {
            if ii < instrs.len() - 1 {
                assert(instrs.drop_last()[ii] == instrs[ii]);
            }
        }
    }
}

proof fn lemma_count_blocks_subset(
    blocks: Seq<Seq<Instr>>,
    p: spec_fn(Instr) -> bool,
    q: spec_fn(Instr) -> bool,
)
    requires
        forall|ins: Instr| #[trigger] q(ins) ==> p(ins),
    ensures
        count_blocks(blocks, q) <= count_blocks(blocks, p),
    decreases blocks.len(),
{
    if blocks.len() > 0 {
        lemma_count_blocks_subset(blocks.drop_last(), p, q);
        lemma_count_in_subset(blocks.last(), p, q);
    }
}

/// When a narrower instruction class is as numerous as a wider one, every
/// instruction of the wider class belongs to the narrower.
pub proof fn lemma_count_blocks_eq_pointwise(
    blocks: Seq<Seq<Instr>>,
    p: spec_fn(Instr) -> bool,
    q: spec_fn(Instr) -> bool,
)
    requires
        forall|ins: Instr| #[trigger] q(ins) ==> p(ins),
        count_blocks(blocks, p) == count_blocks(blocks, q),
    ensures
        forall|bi: int, ii: int|
            0 <= bi < blocks.len() && 0 <= ii < blocks[bi].len() && p(#[trigger] blocks[bi][ii])
                ==> q(blocks[bi][ii]),
    decreases blocks.len(),
{
    if blocks.len() > 0 {
        lemma_count_blocks_subset(blocks.drop_last(), p, q);
        lemma_count_in_subset(blocks.last(), p, q);
        lemma_count_blocks_eq_pointwise(blocks.drop_last(), p, q);
        lemma_count_in_eq_pointwise(blocks.last(), p, q);
        assert forall|bi: int, ii: int|
            0 <= bi < blocks.len() && 0 <= ii < blocks[bi].len() && p(
                #[trigger] blocks[bi][ii],
            ) implies q(blocks[bi][ii]) by {
            if bi < blocks.len() - 1 {
                assert(blocks.drop_last()[bi] == blocks[bi]);
            } else {
                assert(blocks.last() == blocks[bi]);
            }
        }
    }
}

/// In a context where the conditional branches are exactly as many as the
/// exit-edged ones, every conditional branch fails to the exit block.
pub proof fn lemma_single_exit(c: SpecCtx)
    requires
        c.cond_branches() == c.exit_branches(),
    ensures
        forall|bi: int, ii: int|
            0 <= bi < c.blocks.len() && 0 <= ii < c.blocks[bi].len() ==> ((#[trigger] c.blocks[
                bi
            ][ii]) matches Instr::CondBranch { else_block, .. } ==> else_block == c.func_exit),
{
    let pc = |ins: Instr| ins is CondBranch;
    let pe = |ins: Instr| is_exit_branch(ins, c.func_exit);
    assert(count_blocks(c.blocks, pc) == c.cond_branches());
    assert(count_blocks(c.blocks, pe) == c.exit_branches());
    lemma_count_blocks_eq_pointwise(c.blocks, pc, pe);
    assert forall|bi: int, ii: int|
        0 <= bi < c.blocks.len() && 0 <= ii < c.blocks[bi].len() implies ((#[trigger] c.blocks[
        bi
    ][ii]) matches Instr::CondBranch { else_block, .. } ==> else_block == c.func_exit) by {
        if c.blocks[bi][ii] is CondBranch {
            assert(pc(c.blocks[bi][ii]));
            assert(pe(c.blocks[bi][ii]));
        }
    }
}

} // verus!
