//! The code generator: lowers a module of stack-machine functions to a
//! textual Z80 assembly listing. `spec_compile` pins the emitted text,
//! character for character; `Module::compile` is proved to return exactly
//! that text (or exactly the specified error).
//!
//! Operand convention: every 32-bit operand occupies four bytes of the
//! hardware stack as two 16-bit words, the low word pushed first, so the
//! high word sits on top (at the lower address). Parameter slots mirror
//! this: for parameter `i` of a function with `P` parameters, the slot
//! starts `4*(P - i)` bytes above the frame pointer, high word first.

use vstd::prelude::*;

use crate::label::spec_label_text;
use crate::label::Label;
use crate::label::Labeler;
use crate::text::dec_str;
use crate::text::spec_dec;
use vstd::string::StringExecFns;

verus! {

/// An operator of the source instruction set. Operators outside the
/// supported subset appear as `Unsupported`; a body whose operator stream
/// could not be decoded carries `Malformed` at the point of failure.
#[derive(Clone, Copy)]
pub enum Op {
    LocalGet { local_index: u32 },
    LocalTee { local_index: u32 },
    I32Const { value: i32 },
    I32Store8 { offset: u64 },
    I32Load8U { offset: u64 },
    I32Eqz,
    I32Add,
    I32And,
    I32GtU,
    Select,
    Br { relative_depth: u32 },
    BrIf { relative_depth: u32 },
    Loop { empty_block_type: bool },
    Call { function_index: u32 },
    End,
    Unsupported,
    Malformed,
}

/// One function: its signature as plain counts, its declared local count,
/// and its body as a sequence of operators.
pub struct FunctionDef {
    pub param_count: usize,
    pub result_count: usize,
    pub local_count: u32,
    pub body: Vec<Op>,
}

/// A module: an ordered sequence of functions plus the index of the entry
/// function. Functions are referenced by position in this sequence.
pub struct Module {
    pub entry: usize,
    pub functions: Vec<FunctionDef>,
}

/// Why a compilation was aborted. All errors are fatal to the whole
/// module: no partial output is returned.
#[derive(Clone, Copy, Debug, PartialEq, Eq, Structural)]
pub enum CompileError {
    /// An operator outside the supported subset.
    UnsupportedOperator,
    /// A branch with non-zero relative depth, or a loop with a non-empty
    /// block type.
    UnsupportedControl,
    /// A function with more than one result.
    UnsupportedArity,
    /// The operator stream could not be decoded.
    MalformedBody,
}

/// The error an operator raises, if any. The first erroneous operator of
/// the first erroneous function aborts the compilation.
pub open spec fn op_err(op: Op) -> Option<CompileError> {
    match op {
        Op::Br { relative_depth } => if relative_depth == 0 {
            None
        } else {
            Some(CompileError::UnsupportedControl)
        },
        Op::BrIf { relative_depth } => if relative_depth == 0 {
            None
        } else {
            Some(CompileError::UnsupportedControl)
        },
        Op::Loop { empty_block_type } => if empty_block_type {
            None
        } else {
            Some(CompileError::UnsupportedControl)
        },
        Op::Unsupported => Some(CompileError::UnsupportedOperator),
        Op::Malformed => Some(CompileError::MalformedBody),
        _ => None,
    }
}

/// How many fresh labels the operator's lowering allocates.
pub open spec fn labels_for(op: Op) -> nat {
    match op {
        Op::I32Eqz => 2,
        Op::I32GtU => 2,
        Op::Select => 2,
        _ => 0,
    }
}

/// Total labels a body allocates beyond the function's loop label.
pub open spec fn body_labels(body: Seq<Op>) -> nat
    decreases body.len(),
{
    if body.len() == 0 {
        0
    } else {
        labels_for(body[0]) + body_labels(body.drop_first())
    }
}

/// Total labels a run of functions allocates (one loop label each, plus
/// the labels of the body).
pub open spec fn funcs_labels(rest: Seq<FunctionDef>) -> nat
    decreases rest.len(),
{
    if rest.len() == 0 {
        0
    } else {
        1 + body_labels(rest[0].body@) + funcs_labels(rest.drop_first())
    }
}

/// `s` repeated `n` times.
pub open spec fn repeat_text(s: Seq<char>, n: nat) -> Seq<char>
    decreases n,
{
    if n == 0 {
        Seq::empty()
    } else {
        s + repeat_text(s, (n - 1) as nat)
    }
}

/// The low 16 bits of a constant, as printed.
pub open spec fn const_lower(value: i32) -> nat {
    (value as u32 as nat) % 0x10000
}

/// The high 16 bits of a constant, as printed.
pub open spec fn const_upper(value: i32) -> nat {
    (value as u32 as nat) / 0x10000
}

/// `local.get i`: reads the parameter slot and pushes it, low word first,
/// so the high word ends on top.
pub open spec fn local_get_text(param_count: nat, local_index: nat) -> Seq<char>
    recommends
        local_index < param_count,
{
    let d = 4 * (param_count - local_index);
    "  ; local.get "@ + spec_dec(local_index) + "\n  LD E,(IY+"@ + spec_dec((d + 2) as nat)
        + ")\n  LD D,(IY+"@ + spec_dec((d + 3) as nat) + ")\n  PUSH DE\n  LD E,(IY+"@
        + spec_dec(d as nat) + ")\n  LD D,(IY+"@ + spec_dec((d + 1) as nat) + ")\n  PUSH DE\n"@
}

/// `local.tee i`: stores the top operand byte-wise into the parameter
/// slot without popping it.
pub open spec fn local_tee_text(param_count: nat, local_index: nat) -> Seq<char>
    recommends
        local_index < param_count,
{
    let d = 4 * (param_count - local_index);
    "  ; local.tee "@ + spec_dec(local_index)
        + "\n  LD IX,0\n  ADD IX,SP\n  LD A,(IX+0)\n  LD (IY+"@ + spec_dec(d as nat)
        + "),A\n  LD A,(IX+1)\n  LD (IY+"@ + spec_dec((d + 1) as nat)
        + "),A\n  LD A,(IX+2)\n  LD (IY+"@ + spec_dec((d + 2) as nat)
        + "),A\n  LD A,(IX+3)\n  LD (IY+"@ + spec_dec((d + 3) as nat) + "),A\n"@
}

/// `i32.const k`: pushes the low 16 bits, then the high 16 bits.
pub open spec fn i32_const_text(value: i32) -> Seq<char> {
    "  ; i32.const\n  LD DE,"@ + spec_dec(const_lower(value)) + "\n  PUSH DE\n  LD DE,"@
        + spec_dec(const_upper(value)) + "\n  PUSH DE\n"@
}

/// `i32.store8`: pops a value, then an address; writes the value's low
/// byte at the address plus the static offset (16-bit address arithmetic).
pub open spec fn i32_store8_text(offset: nat) -> Seq<char> {
    "  ; i32.store8\n  POP DE\n  POP DE\n  POP IX\n  POP IX\n  LD BC,"@ + spec_dec(offset)
        + "\n  ADD IX,BC\n  LD (IX+0),E\n"@
}

/// `i32.load8_u`: pops an address; pushes the byte at address plus offset,
/// zero-extended to 32 bits.
pub open spec fn i32_load8u_text(offset: nat) -> Seq<char> {
    "  ; i32.load8_u\n  POP IX\n  POP IX\n  LD BC,"@ + spec_dec(offset)
        + "\n  ADD IX,BC\n  LD E,(IX+0)\n  LD D,0\n  PUSH DE\n  LD E,0\n  PUSH DE\n"@
}

/// `i32.eqz`: ors all four bytes of the operand; pushes 1 if zero else 0.
/// Allocates two labels, `fresh` and `fresh + 1`, and defines both.
pub open spec fn i32_eqz_text(fresh: nat) -> Seq<char> {
    "  ; i32.eqz\n  POP DE\n  LD A,D\n  OR E\n  POP DE\n  OR D\n  OR E\n  JR Z,"@
        + spec_label_text(fresh) + "\n  LD DE,0\n  PUSH DE\n  JR "@ + spec_label_text(fresh + 1)
        + "\n"@ + spec_label_text(fresh) + ":\n  LD DE,1\n  PUSH DE\n"@
        + spec_label_text(fresh + 1) + ":\n  LD E,0\n  PUSH DE\n"@
}

/// `i32.add`: adds the low words (carry cleared first), then the high
/// words with the carry out of the low addition.
pub open spec fn i32_add_text() -> Seq<char> {
    "  ; i32.add\n  POP DE\n  POP BC\n  POP IX\n  POP HL\n  AND A\n  ADD HL,BC\n  PUSH HL\n  EX DE,HL\n  PUSH IX\n  POP DE\n  ADC HL,DE\n  PUSH HL\n"@
}

/// `i32.and`: bitwise and, word by word and byte by byte.
pub open spec fn i32_and_text() -> Seq<char> {
    "  ; i32.and\n  POP DE\n  POP BC\n  POP IX\n  POP HL\n  LD A,L\n  AND C\n  LD L,A\n  LD A,H\n  AND B\n  LD H,A\n  PUSH HL\n  PUSH IX\n  POP HL\n  LD A,L\n  AND E\n  LD L,A\n  LD A,H\n  AND D\n  LD H,A\n  PUSH HL\n"@
}

/// `i32.gt_u`: computes `rhs - lhs` over both words; the final borrow
/// means `lhs > rhs`. Pushes a 32-bit boolean. Allocates and defines two
/// labels, `fresh` and `fresh + 1`.
pub open spec fn i32_gtu_text(fresh: nat) -> Seq<char> {
    "  ; i32.gt_u\n  POP IX\n  POP HL\n  POP DE\n  POP BC\n  AND A\n  SBC HL,BC\n  LD B,H\n  LD C,L\n  PUSH IX\n  POP HL\n  SBC HL,DE\n  JR C,"@
        + spec_label_text(fresh) + "\n  LD HL,0\n  PUSH HL\n  JR "@ + spec_label_text(fresh + 1)
        + "\n"@ + spec_label_text(fresh) + ":\n  LD HL,1\n  PUSH HL\n"@
        + spec_label_text(fresh + 1) + ":\n  LD HL,0\n  PUSH HL\n"@
}

/// `select`: pops the condition, then keeps the first-pushed of the two
/// remaining operands when the condition is non-zero, else the other.
/// Allocates and defines two labels, `fresh` and `fresh + 1`.
pub open spec fn select_text(fresh: nat) -> Seq<char> {
    "  ; select\n  POP DE\n  LD A,D\n  OR E\n  POP DE\n  OR D\n  OR E\n  JR Z,"@
        + spec_label_text(fresh)
        + "\n  POP DE\n  POP DE\n  POP DE\n  POP BC\n  JR "@ + spec_label_text(fresh + 1) + "\n"@
        + spec_label_text(fresh) + ":\n  POP DE\n  POP BC\n  POP IX\n  POP IX\n"@
        + spec_label_text(fresh + 1) + ":\n  PUSH BC\n  PUSH DE\n"@
}

/// `br 0`: an unconditional jump to the function's loop label.
pub open spec fn br_text(loop_label: nat) -> Seq<char> {
    "  ; br\n  JP "@ + spec_label_text(loop_label) + "\n"@
}

/// `br_if 0`: pops the condition; jumps to the loop label if non-zero.
pub open spec fn br_if_text(loop_label: nat) -> Seq<char> {
    "  ; br_if\n  POP DE\n  LD A,D\n  OR E\n  POP DE\n  OR D\n  OR E\n  JP NZ,"@
        + spec_label_text(loop_label) + "\n"@
}

/// `loop`: defines the function's loop label at the current point.
pub open spec fn loop_text(loop_label: nat) -> Seq<char> {
    spec_label_text(loop_label) + ":\n"@
}

/// `call g`: allocates the callee's zeroed local slots, saves the frame
/// pointer, calls, then unwinds arguments and locals, leaving the result
/// (if any) on top of the caller's operand stack.
pub open spec fn call_text(callee: FunctionDef, function_index: nat) -> Seq<char> {
    "  ; call\n  LD BC,0\n"@ + repeat_text("  PUSH BC\n  PUSH BC\n"@, callee.local_count as nat)
        + "  PUSH IY\n  CALL func_"@ + spec_dec(function_index) + "\n"@ + (
    if callee.result_count > 0 {
        "  POP DE\n  POP BC\n"@
    } else {
        Seq::<char>::empty()
    }) + "  POP IY\n"@ + repeat_text(
        "  POP HL\n  POP HL\n"@,
        callee.param_count as nat + callee.local_count as nat,
    ) + (
    if callee.result_count > 0 {
        "  PUSH BC\n  PUSH DE\n"@
    } else {
        Seq::<char>::empty()
    })
}

/// The text an operator's lowering emits. `fresh` is the number of the
/// next unallocated label; `loop_label` the function's loop label.
pub open spec fn op_text(
    funcs: Seq<FunctionDef>,
    param_count: nat,
    loop_label: nat,
    fresh: nat,
    op: Op,
) -> Seq<char>
    recommends
        op_err(op) is None,
{
    match op {
        Op::LocalGet { local_index } => local_get_text(param_count, local_index as nat),
        Op::LocalTee { local_index } => local_tee_text(param_count, local_index as nat),
        Op::I32Const { value } => i32_const_text(value),
        Op::I32Store8 { offset } => i32_store8_text(offset as nat),
        Op::I32Load8U { offset } => i32_load8u_text(offset as nat),
        Op::I32Eqz => i32_eqz_text(fresh),
        Op::I32Add => i32_add_text(),
        Op::I32And => i32_and_text(),
        Op::I32GtU => i32_gtu_text(fresh),
        Op::Select => select_text(fresh),
        Op::Br { .. } => br_text(loop_label),
        Op::BrIf { .. } => br_if_text(loop_label),
        Op::Loop { .. } => loop_text(loop_label),
        Op::Call { function_index } => call_text(funcs[function_index as int], function_index as nat),
        Op::End => Seq::empty(),
        Op::Unsupported => Seq::empty(),
        Op::Malformed => Seq::empty(),
    }
}

/// The text of a whole body, together with the label counter after it,
/// or the first error raised by an operator.
pub open spec fn body_text(
    funcs: Seq<FunctionDef>,
    param_count: nat,
    loop_label: nat,
    fresh: nat,
    body: Seq<Op>,
) -> Result<(Seq<char>, nat), CompileError>
    decreases body.len(),
{
    if body.len() == 0 {
        Ok((Seq::empty(), fresh))
    } else {
        let op = body[0];
        match op_err(op) {
            Some(e) => Err(e),
            None => {
                let t = op_text(funcs, param_count, loop_label, fresh, op);
                match body_text(
                    funcs,
                    param_count,
                    loop_label,
                    fresh + labels_for(op),
                    body.drop_first(),
                ) {
                    Ok(p) => Ok((t + p.0, p.1)),
                    Err(e) => Err(e),
                }
            },
        }
    }
}

/// The prologue: establishes the frame pointer from the stack pointer.
pub open spec fn prologue_text() -> Seq<char> {
    "  LD IY,0\n  ADD IY,SP\n"@
}

/// The epilogue: if the function has a result, rotates the return address
/// past the 4-byte result so `RET` consumes the right word and the result
/// stays on top; then returns.
pub open spec fn epilogue_text(result_count: nat) -> Seq<char> {
    (if result_count > 0 {
        "  POP DE\n  POP BC\n  POP HL\n  PUSH BC\n  PUSH DE\n  PUSH HL\n"@
    } else {
        Seq::<char>::empty()
    }) + "  RET\n"@
}

/// The text of one translated function (prologue, body, epilogue), with
/// the label counter after it. The loop label is `fresh`; body labels
/// start at `fresh + 1`.
pub open spec fn func_text(funcs: Seq<FunctionDef>, f: FunctionDef, fresh: nat) -> Result<
    (Seq<char>, nat),
    CompileError,
> {
    if f.result_count > 1 {
        Err(CompileError::UnsupportedArity)
    } else {
        match body_text(funcs, f.param_count as nat, fresh, fresh + 1, f.body@) {
            Ok(p) => Ok(
                (prologue_text() + p.0 + epilogue_text(f.result_count as nat), p.1),
            ),
            Err(e) => Err(e),
        }
    }
}

/// The text of the functions from position `index` on, each preceded by
/// its `func_<index>:` label.
pub open spec fn funcs_text(
    funcs: Seq<FunctionDef>,
    index: nat,
    rest: Seq<FunctionDef>,
    fresh: nat,
) -> Result<(Seq<char>, nat), CompileError>
    decreases rest.len(),
{
    if rest.len() == 0 {
        Ok((Seq::empty(), fresh))
    } else {
        match func_text(funcs, rest[0], fresh) {
            Ok(p) => match funcs_text(funcs, index + 1, rest.drop_first(), p.1) {
                Ok(q) => Ok(("func_"@ + spec_dec(index) + ":\n"@ + p.0 + q.0, q.1)),
                Err(e) => Err(e),
            },
            Err(e) => Err(e),
        }
    }
}

/// The whole emitted listing: stack initialisation, a call to the entry
/// function, a halt, then every function in declaration order. Labels are
/// numbered from zero, so the output is a function of the module alone.
pub open spec fn spec_compile(m: Module) -> Result<Seq<char>, CompileError> {
    match funcs_text(m.functions@, 0, m.functions@, 0) {
        Ok(p) => Ok(
            "LD SP,0xFFFB\nCALL func_"@ + spec_dec(m.entry as nat) + "\nHALT\n"@ + p.0,
        ),
        Err(e) => Err(e),
    }
}

/// Indices an operator mentions are in range: local indices address a
/// parameter slot, call targets name a function of the module.
pub open spec fn op_wf(funcs: Seq<FunctionDef>, param_count: nat, op: Op) -> bool {
    match op {
        Op::LocalGet { local_index } => (local_index as nat) < param_count,
        Op::LocalTee { local_index } => (local_index as nat) < param_count,
        Op::Call { function_index } => (function_index as nat) < funcs.len(),
        _ => true,
    }
}

/// A function fits the machine: parameter offsets fit the offset
/// arithmetic, argument and local counts fit an address space, and every
/// operator's indices are in range.
pub open spec fn func_wf(funcs: Seq<FunctionDef>, f: FunctionDef) -> bool {
    &&& 4 * f.param_count + 3 <= u32::MAX
    &&& f.param_count + f.local_count <= usize::MAX
    &&& forall|i: int|
        0 <= i < f.body@.len() ==> op_wf(funcs, f.param_count as nat, #[trigger] f.body@[i])
}

impl Module {
    /// The input is well typed and fits the machine: every function is
    /// well formed and the module's total label demand fits the counter.
    pub open spec fn wf(self) -> bool {
        &&& forall|i: int|
            0 <= i < self.functions@.len() ==> func_wf(
                self.functions@,
                #[trigger] self.functions@[i],
            )
        &&& funcs_labels(self.functions@) <= usize::MAX
    }
}

/// Repeating once more appends one copy at the end.
proof fn lemma_repeat_snoc(s: Seq<char>, n: nat)
    ensures
        repeat_text(s, n + 1) == repeat_text(s, n) + s,
    decreases n,
{
    if n == 0 {
        assert(repeat_text(s, 1) =~= repeat_text(s, 0) + s);
    } else {
        lemma_repeat_snoc(s, (n - 1) as nat);
        assert(repeat_text(s, n + 1) =~= repeat_text(s, n) + s);
    }
}


/// Emits the `local.get` lowering.
fn emit_local_get(out: &mut String, param_count: usize, local_index: u32)
    requires
        (local_index as nat) < param_count,
        4 * param_count + 3 <= u32::MAX,
    ensures
        final(out)@ == old(out)@ + local_get_text(param_count as nat, local_index as nat),
{
    let d: u32 = param_count as u32 * 4 - local_index * 4;
    out.append("  ; local.get ");
    out.append(dec_str(local_index as u64).as_str());
    out.append("\n  LD E,(IY+");
    out.append(dec_str((d + 2) as u64).as_str());
    out.append(")\n  LD D,(IY+");
    out.append(dec_str((d + 3) as u64).as_str());
    out.append(")\n  PUSH DE\n  LD E,(IY+");
    out.append(dec_str(d as u64).as_str());
    out.append(")\n  LD D,(IY+");
    out.append(dec_str((d + 1) as u64).as_str());
    out.append(")\n  PUSH DE\n");
    proof {
        assert(out@ =~= old(out)@ + local_get_text(param_count as nat, local_index as nat));
    }
}

/// Emits the `local.tee` lowering.
fn emit_local_tee(out: &mut String, param_count: usize, local_index: u32)
    requires
        (local_index as nat) < param_count,
        4 * param_count + 3 <= u32::MAX,
    ensures
        final(out)@ == old(out)@ + local_tee_text(param_count as nat, local_index as nat),
{
    let d: u32 = param_count as u32 * 4 - local_index * 4;
    out.append("  ; local.tee ");
    out.append(dec_str(local_index as u64).as_str());
    out.append("\n  LD IX,0\n  ADD IX,SP\n  LD A,(IX+0)\n  LD (IY+");
    out.append(dec_str(d as u64).as_str());
    out.append("),A\n  LD A,(IX+1)\n  LD (IY+");
    out.append(dec_str((d + 1) as u64).as_str());
    out.append("),A\n  LD A,(IX+2)\n  LD (IY+");
    out.append(dec_str((d + 2) as u64).as_str());
    out.append("),A\n  LD A,(IX+3)\n  LD (IY+");
    out.append(dec_str((d + 3) as u64).as_str());
    out.append("),A\n");
    proof {
        assert(out@ =~= old(out)@ + local_tee_text(param_count as nat, local_index as nat));
    }
}

/// Emits the `i32.const` lowering: the constant split into its 16-bit
/// halves, printed in decimal.
fn emit_i32_const(out: &mut String, value: i32)
    ensures
        final(out)@ == old(out)@ + i32_const_text(value),
{
    let bits: u32 = #[verifier::truncate] (value as u32);
    let lower: u32 = bits & 0xFFFF;
    let upper: u32 = bits >> 16;
    proof {
        assert(bits & 0xFFFF == bits % 0x10000) by (bit_vector);
        assert(bits >> 16u32 == bits / 0x10000) by (bit_vector);
    }
    out.append("  ; i32.const\n  LD DE,");
    out.append(dec_str(lower as u64).as_str());
    out.append("\n  PUSH DE\n  LD DE,");
    out.append(dec_str(upper as u64).as_str());
    out.append("\n  PUSH DE\n");
    proof {
        assert(out@ =~= old(out)@ + i32_const_text(value));
    }
}

/// Emits the `i32.store8` lowering.
fn emit_i32_store8(out: &mut String, offset: u64)
    ensures
        final(out)@ == old(out)@ + i32_store8_text(offset as nat),
{
    out.append("  ; i32.store8\n  POP DE\n  POP DE\n  POP IX\n  POP IX\n  LD BC,");
    out.append(dec_str(offset).as_str());
    out.append("\n  ADD IX,BC\n  LD (IX+0),E\n");
    proof {
        assert(out@ =~= old(out)@ + i32_store8_text(offset as nat));
    }
}

/// Emits the `i32.load8_u` lowering.
fn emit_i32_load8u(out: &mut String, offset: u64)
    ensures
        final(out)@ == old(out)@ + i32_load8u_text(offset as nat),
{
    out.append("  ; i32.load8_u\n  POP IX\n  POP IX\n  LD BC,");
    out.append(dec_str(offset).as_str());
    out.append("\n  ADD IX,BC\n  LD E,(IX+0)\n  LD D,0\n  PUSH DE\n  LD E,0\n  PUSH DE\n");
    proof {
        assert(out@ =~= old(out)@ + i32_load8u_text(offset as nat));
    }
}

/// Emits the `i32.eqz` lowering; allocates its two branch labels.
fn emit_i32_eqz(out: &mut String, labeler: &mut Labeler)
    requires
        old(labeler).index + 2 <= usize::MAX,
    ensures
        final(out)@ == old(out)@ + i32_eqz_text(old(labeler).index as nat),
        final(labeler).index == old(labeler).index + 2,
{
    let zero = labeler.next();
    let nonzero = labeler.next();
    out.append("  ; i32.eqz\n  POP DE\n  LD A,D\n  OR E\n  POP DE\n  OR D\n  OR E\n  JR Z,");
    out.append(zero.render().as_str());
    out.append("\n  LD DE,0\n  PUSH DE\n  JR ");
    out.append(nonzero.render().as_str());
    out.append("\n");
    out.append(zero.render().as_str());
    out.append(":\n  LD DE,1\n  PUSH DE\n");
    out.append(nonzero.render().as_str());
    out.append(":\n  LD E,0\n  PUSH DE\n");
    proof {
        assert(out@ =~= old(out)@ + i32_eqz_text(old(labeler).index as nat));
    }
}

/// Emits the `i32.add` lowering.
fn emit_i32_add(out: &mut String)
    ensures
        final(out)@ == old(out)@ + i32_add_text(),
{
    out.append(
        "  ; i32.add\n  POP DE\n  POP BC\n  POP IX\n  POP HL\n  AND A\n  ADD HL,BC\n  PUSH HL\n  EX DE,HL\n  PUSH IX\n  POP DE\n  ADC HL,DE\n  PUSH HL\n",
    );
    proof {
        assert(out@ =~= old(out)@ + i32_add_text());
    }
}

/// Emits the `i32.and` lowering.
fn emit_i32_and(out: &mut String)
    ensures
        final(out)@ == old(out)@ + i32_and_text(),
{
    out.append(
        "  ; i32.and\n  POP DE\n  POP BC\n  POP IX\n  POP HL\n  LD A,L\n  AND C\n  LD L,A\n  LD A,H\n  AND B\n  LD H,A\n  PUSH HL\n  PUSH IX\n  POP HL\n  LD A,L\n  AND E\n  LD L,A\n  LD A,H\n  AND D\n  LD H,A\n  PUSH HL\n",
    );
    proof {
        assert(out@ =~= old(out)@ + i32_and_text());
    }
}

/// Emits the `i32.gt_u` lowering; allocates its two branch labels.
fn emit_i32_gtu(out: &mut String, labeler: &mut Labeler)
    requires
        old(labeler).index + 2 <= usize::MAX,
    ensures
        final(out)@ == old(out)@ + i32_gtu_text(old(labeler).index as nat),
        final(labeler).index == old(labeler).index + 2,
{
    let gt = labeler.next();
    let after = labeler.next();
    out.append(
        "  ; i32.gt_u\n  POP IX\n  POP HL\n  POP DE\n  POP BC\n  AND A\n  SBC HL,BC\n  LD B,H\n  LD C,L\n  PUSH IX\n  POP HL\n  SBC HL,DE\n  JR C,",
    );
    out.append(gt.render().as_str());
    out.append("\n  LD HL,0\n  PUSH HL\n  JR ");
    out.append(after.render().as_str());
    out.append("\n");
    out.append(gt.render().as_str());
    out.append(":\n  LD HL,1\n  PUSH HL\n");
    out.append(after.render().as_str());
    out.append(":\n  LD HL,0\n  PUSH HL\n");
    proof {
        assert(out@ =~= old(out)@ + i32_gtu_text(old(labeler).index as nat));
    }
}

/// Emits the `select` lowering; allocates its two branch labels.
fn emit_select(out: &mut String, labeler: &mut Labeler)
    requires
        old(labeler).index + 2 <= usize::MAX,
    ensures
        final(out)@ == old(out)@ + select_text(old(labeler).index as nat),
        final(labeler).index == old(labeler).index + 2,
{
    let zero = labeler.next();
    let after = labeler.next();
    out.append("  ; select\n  POP DE\n  LD A,D\n  OR E\n  POP DE\n  OR D\n  OR E\n  JR Z,");
    out.append(zero.render().as_str());
    out.append("\n  POP DE\n  POP DE\n  POP DE\n  POP BC\n  JR ");
    out.append(after.render().as_str());
    out.append("\n");
    out.append(zero.render().as_str());
    out.append(":\n  POP DE\n  POP BC\n  POP IX\n  POP IX\n");
    out.append(after.render().as_str());
    out.append(":\n  PUSH BC\n  PUSH DE\n");
    proof {
        assert(out@ =~= old(out)@ + select_text(old(labeler).index as nat));
    }
}

/// Emits the caller-side call sequence for `callee`.
fn emit_call(out: &mut String, callee: &FunctionDef, function_index: u32)
    requires
        callee.param_count + callee.local_count <= usize::MAX,
    ensures
        final(out)@ == old(out)@ + call_text(*callee, function_index as nat),
{
    out.append("  ; call\n  LD BC,0\n");
    let ghost locals_base = out@;
    let num_locals: u32 = callee.local_count;
    let mut k: u32 = 0;
    while k < num_locals
        invariant
            k <= num_locals,
            out@ == locals_base + repeat_text("  PUSH BC\n  PUSH BC\n"@, k as nat),
        decreases num_locals - k,
    {
        proof {
            lemma_repeat_snoc("  PUSH BC\n  PUSH BC\n"@, k as nat);
        }
        out.append("  PUSH BC\n  PUSH BC\n");
        proof {
            assert(out@ =~= locals_base + repeat_text("  PUSH BC\n  PUSH BC\n"@, (k + 1) as nat));
        }
        k = k + 1;
    }
    out.append("  PUSH IY\n  CALL func_");
    out.append(dec_str(function_index as u64).as_str());
    out.append("\n");
    let has_result = callee.result_count > 0;
    if has_result {
        out.append("  POP DE\n  POP BC\n");
    }
    out.append("  POP IY\n");
    let ghost pops_base = out@;
    let pops: usize = callee.param_count + callee.local_count as usize;
    let mut j: usize = 0;
    while j < pops
        invariant
            j <= pops,
            out@ == pops_base + repeat_text("  POP HL\n  POP HL\n"@, j as nat),
        decreases pops - j,
    {
        proof {
            lemma_repeat_snoc("  POP HL\n  POP HL\n"@, j as nat);
        }
        out.append("  POP HL\n  POP HL\n");
        proof {
            assert(out@ =~= pops_base + repeat_text("  POP HL\n  POP HL\n"@, (j + 1) as nat));
        }
        j = j + 1;
    }
    if has_result {
        out.append("  PUSH BC\n  PUSH DE\n");
    }
    proof {
        assert(out@ =~= old(out)@ + call_text(*callee, function_index as nat));
    }
}

impl Module {
    /// Emits the lowering of one operator, or reports why it cannot be
    /// lowered. On success the output grows by exactly `op_text` and the
    /// label counter by exactly `labels_for(op)`.
    fn emit_op(
        &self,
        out: &mut String,
        labeler: &mut Labeler,
        param_count: usize,
        loop_label: &Label,
        op: Op,
    ) -> (r: Result<(), CompileError>)
        requires
            self.wf(),
            op_wf(self.functions@, param_count as nat, op),
            4 * param_count + 3 <= u32::MAX,
            old(labeler).index + labels_for(op) <= usize::MAX,
        ensures
            match op_err(op) {
                None => {
                    &&& r is Ok
                    &&& final(out)@ == old(out)@ + op_text(
                        self.functions@,
                        param_count as nat,
                        loop_label.number as nat,
                        old(labeler).index as nat,
                        op,
                    )
                    &&& final(labeler).index == old(labeler).index + labels_for(op)
                },
                Some(e) => r == Err::<(), CompileError>(e) && final(labeler).index == old(
                    labeler,
                ).index,
            },
    {
        match op {
            Op::LocalGet { local_index } => {
                emit_local_get(out, param_count, local_index);
                Ok(())
            },
            Op::LocalTee { local_index } => {
                emit_local_tee(out, param_count, local_index);
                Ok(())
            },
            Op::I32Const { value } => {
                emit_i32_const(out, value);
                Ok(())
            },
            Op::I32Store8 { offset } => {
                emit_i32_store8(out, offset);
                Ok(())
            },
            Op::I32Load8U { offset } => {
                emit_i32_load8u(out, offset);
                Ok(())
            },
            Op::I32Eqz => {
                emit_i32_eqz(out, labeler);
                Ok(())
            },
            Op::I32Add => {
                emit_i32_add(out);
                Ok(())
            },
            Op::I32And => {
                emit_i32_and(out);
                Ok(())
            },
            Op::I32GtU => {
                emit_i32_gtu(out, labeler);
                Ok(())
            },
            Op::Select => {
                emit_select(out, labeler);
                Ok(())
            },
            Op::Br { relative_depth } => {
                if relative_depth != 0 {
                    return Err(CompileError::UnsupportedControl);
                }
                out.append("  ; br\n  JP ");
                out.append(loop_label.render().as_str());
                out.append("\n");
                proof {
                    assert(out@ =~= old(out)@ + br_text(loop_label.number as nat));
                }
                Ok(())
            },
            Op::BrIf { relative_depth } => {
                if relative_depth != 0 {
                    return Err(CompileError::UnsupportedControl);
                }
                out.append("  ; br_if\n  POP DE\n  LD A,D\n  OR E\n  POP DE\n  OR D\n  OR E\n  JP NZ,");
                out.append(loop_label.render().as_str());
                out.append("\n");
                proof {
                    assert(out@ =~= old(out)@ + br_if_text(loop_label.number as nat));
                }
                Ok(())
            },
            Op::Loop { empty_block_type } => {
                if !empty_block_type {
                    return Err(CompileError::UnsupportedControl);
                }
                out.append(loop_label.render().as_str());
                out.append(":\n");
                proof {
                    assert(out@ =~= old(out)@ + loop_text(loop_label.number as nat));
                }
                Ok(())
            },
            Op::Call { function_index } => {
                let callee = &self.functions[function_index as usize];
                emit_call(out, callee, function_index);
                Ok(())
            },
            Op::End => {
                proof {
                    assert(out@ =~= old(out)@ + Seq::<char>::empty());
                }
                Ok(())
            },
            Op::Unsupported => Err(CompileError::UnsupportedOperator),
            Op::Malformed => Err(CompileError::MalformedBody),
        }
    }
}


/// A body that lowers without error consumes exactly `body_labels(body)`
/// fresh labels.
proof fn lemma_body_text_labels(
    funcs: Seq<FunctionDef>,
    param_count: nat,
    loop_label: nat,
    fresh: nat,
    body: Seq<Op>,
)
    ensures
        body_text(funcs, param_count, loop_label, fresh, body) is Ok ==> body_text(
            funcs,
            param_count,
            loop_label,
            fresh,
            body,
        )->Ok_0.1 == fresh + body_labels(body),
    decreases body.len(),
{
    if body.len() > 0 && op_err(body[0]) is None {
        lemma_body_text_labels(
            funcs,
            param_count,
            loop_label,
            fresh + labels_for(body[0]),
            body.drop_first(),
        );
    }
}

impl Module {
    /// Translates one function: prologue, the lowering of every operator
    /// of the body, epilogue. On success the output grows by exactly the
    /// function's `func_text`; the first failing operator (or an arity
    /// over one result) aborts with its error.
    fn compile_function(
        &self,
        out: &mut String,
        labeler: &mut Labeler,
        index: usize,
    ) -> (r: Result<(), CompileError>)
        requires
            self.wf(),
            (index as int) < self.functions@.len(),
            old(labeler).index + 1 + body_labels(self.functions@[index as int].body@)
                <= usize::MAX,
        ensures
            match func_text(
                self.functions@,
                self.functions@[index as int],
                old(labeler).index as nat,
            ) {
                Ok(p) => {
                    &&& r is Ok
                    &&& final(out)@ == old(out)@ + p.0
                    &&& final(labeler).index as nat == p.1
                },
                Err(e) => r == Err::<(), CompileError>(e),
            },
    {
        let f = &self.functions[index];
        if f.result_count > 1 {
            return Err(CompileError::UnsupportedArity);
        }
        let loop_label = labeler.next();
        out.append("  LD IY,0\n  ADD IY,SP\n");
        let ghost funcs = self.functions@;
        let ghost whole = f.body@;
        let ghost pc = f.param_count as nat;
        let ghost ll = loop_label.number as nat;
        let ghost fresh0 = labeler.index as nat;
        let ghost base = out@;
        proof {
            assert(whole.skip(0) =~= whole);
            assert(out@.skip(base.len() as int) =~= Seq::<char>::empty());
            assert(out@.subrange(0, base.len() as int) =~= base);
        }
        let n = f.body.len();
        let mut i: usize = 0;
        while i < n
            invariant
                self.wf(),
                i <= n,
                (index as int) < funcs.len(),
                funcs == self.functions@,
                *f == funcs[index as int],
                n == whole.len(),
                whole == f.body@,
                pc == f.param_count as nat,
                ll == loop_label.number as nat,
                ll == old(labeler).index as nat,
                fresh0 == old(labeler).index + 1,
                f.result_count <= 1,
                base == old(out)@ + prologue_text(),
                4 * f.param_count + 3 <= u32::MAX,
                labeler.index as nat + body_labels(whole.skip(i as int)) == fresh0 + body_labels(
                    whole,
                ),
                fresh0 + body_labels(whole) <= usize::MAX,
                out@.len() >= base.len(),
                out@.subrange(0, base.len() as int) == base,
                ({
                    let cur = body_text(funcs, pc, ll, labeler.index as nat, whole.skip(i as int));
                    let tgt = body_text(funcs, pc, ll, fresh0, whole);
                    &&& (cur is Ok ==> tgt is Ok && tgt->Ok_0.0 == out@.skip(base.len() as int)
                        + cur->Ok_0.0 && tgt->Ok_0.1 == cur->Ok_0.1)
                    &&& (cur is Err ==> tgt == cur)
                }),
            decreases n - i,
        {
            let op = f.body[i];
            proof {
                assert(whole.skip(i as int)[0] == whole[i as int]);
                assert(whole.skip(i as int).drop_first() =~= whole.skip(i as int + 1));
                assert(op_wf(funcs, pc, op));
            }
            let ghost emitted_pre = out@.skip(base.len() as int);
            let ghost fresh_pre = labeler.index as nat;
            match self.emit_op(out, labeler, f.param_count, &loop_label, op) {
                Ok(()) => {},
                Err(e) => {
                    proof {
                        assert(body_text(funcs, pc, ll, fresh_pre, whole.skip(i as int))
                            == Err::<(Seq<char>, nat), CompileError>(e));
                    }
                    return Err(e);
                },
            }
            proof {
                assert(out@.subrange(0, base.len() as int) =~= base);
                assert(out@.skip(base.len() as int) =~= emitted_pre + op_text(
                    funcs,
                    pc,
                    ll,
                    fresh_pre,
                    op,
                ));
                let cur = body_text(funcs, pc, ll, labeler.index as nat, whole.skip(i as int + 1));
                if cur is Ok {
                    assert(out@.skip(base.len() as int) + cur->Ok_0.0 =~= emitted_pre + (op_text(
                        funcs,
                        pc,
                        ll,
                        fresh_pre,
                        op,
                    ) + cur->Ok_0.0));
                }
            }
            i = i + 1;
        }
        proof {
            assert(whole.skip(n as int) =~= Seq::<Op>::empty());
            let tgt = body_text(funcs, pc, ll, fresh0, whole);
            assert(tgt is Ok);
            assert(tgt->Ok_0.0 =~= out@.skip(base.len() as int));
        }
        let ghost body_out = out@;
        if f.result_count > 0 {
            out.append("  POP DE\n  POP BC\n  POP HL\n  PUSH BC\n  PUSH DE\n  PUSH HL\n");
        }
        out.append("  RET\n");
        proof {
            let tgt = body_text(funcs, pc, ll, fresh0, whole);
            assert(base =~= old(out)@ + prologue_text());
            assert(body_out =~= base + tgt->Ok_0.0);
            assert(out@ =~= old(out)@ + (prologue_text() + tgt->Ok_0.0 + epilogue_text(
                f.result_count as nat,
            )));
        }
        Ok(())
    }

    /// Compiles the module: emits the program entry (stack initialisation,
    /// a call to the entry function, a halt), then every function in
    /// declaration order. Returns exactly the text `spec_compile` gives,
    /// or exactly its error; on error no output is returned at all.
    pub fn compile(&self) -> (r: Result<String, CompileError>)
        requires
            self.wf(),
        ensures
            r is Ok <==> spec_compile(*self) is Ok,
            r is Ok ==> r->Ok_0@ == spec_compile(*self)->Ok_0,
            r is Err ==> r->Err_0 == spec_compile(*self)->Err_0,
    {
        let mut labeler = Labeler::new();
        let mut out = String::from_str("LD SP,0xFFFB\nCALL func_");
        out.append(dec_str(self.entry as u64).as_str());
        out.append("\nHALT\n");
        let ghost funcs = self.functions@;
        let ghost header = out@;
        proof {
            assert(funcs.skip(0) =~= funcs);
            assert(out@.skip(header.len() as int) =~= Seq::<char>::empty());
            assert(out@.subrange(0, header.len() as int) =~= header);
        }
        let n = self.functions.len();
        let mut index: usize = 0;
        while index < n
            invariant
                self.wf(),
                index <= n,
                n == funcs.len(),
                funcs == self.functions@,
                header == "LD SP,0xFFFB\nCALL func_"@ + spec_dec(self.entry as nat) + "\nHALT\n"@,
                labeler.index as nat + funcs_labels(funcs.skip(index as int)) == funcs_labels(
                    funcs,
                ),
                funcs_labels(funcs) <= usize::MAX,
                out@.len() >= header.len(),
                out@.subrange(0, header.len() as int) == header,
                ({
                    let cur = funcs_text(
                        funcs,
                        index as nat,
                        funcs.skip(index as int),
                        labeler.index as nat,
                    );
                    let tgt = funcs_text(funcs, 0, funcs, 0);
                    &&& (cur is Ok ==> tgt is Ok && tgt->Ok_0.0 == out@.skip(header.len() as int)
                        + cur->Ok_0.0 && tgt->Ok_0.1 == cur->Ok_0.1)
                    &&& (cur is Err ==> tgt == cur)
                }),
            decreases n - index,
        {
            proof {
                assert(funcs.skip(index as int)[0] == funcs[index as int]);
                assert(funcs.skip(index as int).drop_first() =~= funcs.skip(index as int + 1));
            }
            out.append("func_");
            out.append(dec_str(index as u64).as_str());
            out.append(":\n");
            let ghost emitted_pre = out@.skip(header.len() as int);
            let ghost fresh_pre = labeler.index as nat;
            match self.compile_function(&mut out, &mut labeler, index) {
                Ok(()) => {},
                Err(e) => {
                    proof {
                        assert(funcs_text(funcs, index as nat, funcs.skip(index as int), fresh_pre)
                            == Err::<(Seq<char>, nat), CompileError>(e));
                    }
                    return Err(e);
                },
            }
            proof {
                lemma_body_text_labels(
                    funcs,
                    funcs[index as int].param_count as nat,
                    fresh_pre,
                    fresh_pre + 1,
                    funcs[index as int].body@,
                );
                assert(out@.subrange(0, header.len() as int) =~= header);
                let p = func_text(funcs, funcs[index as int], fresh_pre)->Ok_0;
                assert(out@.skip(header.len() as int) =~= emitted_pre.subrange(
                    0,
                    emitted_pre.len() as int - ("func_"@ + spec_dec(index as nat) + ":\n"@).len(),
                ) + ("func_"@ + spec_dec(index as nat) + ":\n"@) + p.0);
                let cur = funcs_text(
                    funcs,
                    index as nat + 1,
                    funcs.skip(index as int + 1),
                    labeler.index as nat,
                );
                if cur is Ok {
                    assert(out@.skip(header.len() as int) + cur->Ok_0.0 =~= emitted_pre.subrange(
                        0,
                        emitted_pre.len() as int - ("func_"@ + spec_dec(index as nat) + ":\n"@).len(),
                    ) + ("func_"@ + spec_dec(index as nat) + ":\n"@ + p.0 + cur->Ok_0.0));
                }
            }
            index = index + 1;
        }
        proof {
            assert(funcs.skip(n as int) =~= Seq::<FunctionDef>::empty());
            let tgt = funcs_text(funcs, 0, funcs, 0);
            assert(tgt is Ok);
            assert(tgt->Ok_0.0 =~= out@.skip(header.len() as int));
            assert(out@ =~= header + out@.skip(header.len() as int));
        }
        Ok(out)
    }
}

} // verus!
