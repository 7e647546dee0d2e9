//! Laws of the code generator, stated over the same specification
//! functions that pin the emitted text: label uniqueness, stack balance,
//! the call round-trip, and determinism.

use vstd::prelude::*;

use crate::compile::body_labels;
use crate::compile::func_text;
use crate::compile::funcs_labels;
use crate::compile::labels_for;
use crate::compile::spec_compile;
use crate::compile::CompileError;
use crate::compile::FunctionDef;
use crate::compile::Module;
use crate::compile::Op;
use crate::label::spec_label_text;
use crate::text::spec_dec;

verus! {

/// No value occurs twice.
pub open spec fn distinct(s: Seq<nat>) -> bool {
    forall|i: int, j: int| 0 <= i < j < s.len() ==> s[i] != s[j]
}

/// The label numbers whose `label_<n>:` definition line the operator's
/// lowering emits, in order of emission. The branchy lowerings define
/// both labels they allocate; `loop` defines the function's loop label.
pub open spec fn op_label_defs(op: Op, loop_label: nat, fresh: nat) -> Seq<nat> {
    match op {
        Op::I32Eqz => seq![fresh, fresh + 1],
        Op::I32GtU => seq![fresh, fresh + 1],
        Op::Select => seq![fresh, fresh + 1],
        Op::Loop { .. } => seq![loop_label],
        _ => Seq::empty(),
    }
}

/// The label numbers a body defines, in order of emission.
pub open spec fn body_label_defs(body: Seq<Op>, loop_label: nat, fresh: nat) -> Seq<nat>
    decreases body.len(),
{
    if body.len() == 0 {
        Seq::empty()
    } else {
        op_label_defs(body[0], loop_label, fresh) + body_label_defs(
            body.drop_first(),
            loop_label,
            fresh + labels_for(body[0]),
        )
    }
}

/// The label numbers one translated function defines: its loop label is
/// `fresh`, its body labels start at `fresh + 1`.
pub open spec fn func_label_defs(f: FunctionDef, fresh: nat) -> Seq<nat> {
    body_label_defs(f.body@, fresh, fresh + 1)
}

/// The label numbers a run of functions defines, in order of emission.
pub open spec fn module_label_defs(rest: Seq<FunctionDef>, fresh: nat) -> Seq<nat>
    decreases rest.len(),
{
    if rest.len() == 0 {
        Seq::empty()
    } else {
        func_label_defs(rest[0], fresh) + module_label_defs(
            rest.drop_first(),
            fresh + 1 + body_labels(rest[0].body@),
        )
    }
}

/// How many `loop` operators a body holds.
pub open spec fn count_loops(body: Seq<Op>) -> nat
    decreases body.len(),
{
    if body.len() == 0 {
        0
    } else {
        (if body[0] is Loop {
            1nat
        } else {
            0nat
        }) + count_loops(body.drop_first())
    }
}

/// Within one body every defined label is either the loop label or a
/// fresh one, fresh ones are pairwise distinct and lie in the window the
/// body allocates, and the loop label is defined at most once when the
/// body holds at most one `loop`.
proof fn lemma_body_defs_distinct(body: Seq<Op>, loop_label: nat, fresh: nat)
    requires
        loop_label < fresh,
        count_loops(body) <= 1,
    ensures
        distinct(body_label_defs(body, loop_label, fresh)),
        forall|k: int|
            0 <= k < body_label_defs(body, loop_label, fresh).len() ==> (body_label_defs(
                body,
                loop_label,
                fresh,
            )[k] == loop_label || (fresh <= body_label_defs(body, loop_label, fresh)[k] < fresh
                + body_labels(body))),
        count_loops(body) == 0 ==> forall|k: int|
            0 <= k < body_label_defs(body, loop_label, fresh).len() ==> body_label_defs(
                body,
                loop_label,
                fresh,
            )[k] != loop_label,
    decreases body.len(),
{
    if body.len() > 0 {
        let op = body[0];
        let rest = body.drop_first();
        let head = op_label_defs(op, loop_label, fresh);
        let tail = body_label_defs(rest, loop_label, fresh + labels_for(op));
        lemma_body_defs_distinct(rest, loop_label, fresh + labels_for(op));
        assert(body_label_defs(body, loop_label, fresh) == head + tail);
        assert forall|i: int, j: int|
            0 <= i < j < (head + tail).len() implies (head + tail)[i] != (head + tail)[j] by {
            if j < head.len() {
                assert((head + tail)[i] == head[i]);
                assert((head + tail)[j] == head[j]);
            } else if i >= head.len() {
                assert((head + tail)[i] == tail[i - head.len()]);
                assert((head + tail)[j] == tail[j - head.len()]);
            } else {
                assert((head + tail)[i] == head[i]);
                assert((head + tail)[j] == tail[j - head.len()]);
                if op is Loop {
                    assert(count_loops(rest) == 0);
                }
            }
        }
    }
}

/// Across the functions of a module every defined label lies in the
/// window its function allocates, and the windows are disjoint.
proof fn lemma_module_defs_distinct(rest: Seq<FunctionDef>, fresh: nat)
    requires
        forall|i: int| 0 <= i < rest.len() ==> count_loops(#[trigger] rest[i].body@) <= 1,
    ensures
        distinct(module_label_defs(rest, fresh)),
        forall|k: int|
            0 <= k < module_label_defs(rest, fresh).len() ==> fresh <= #[trigger] module_label_defs(
                rest,
                fresh,
            )[k] < fresh + funcs_labels(rest),
    decreases rest.len(),
{
    if rest.len() > 0 {
        let f = rest[0];
        let head = func_label_defs(f, fresh);
        let next = fresh + 1 + body_labels(f.body@);
        let tail = module_label_defs(rest.drop_first(), next);
        assert(count_loops(f.body@) <= 1);
        lemma_body_defs_distinct(f.body@, fresh, fresh + 1);
        assert(forall|i: int|
            0 <= i < rest.drop_first().len() ==> count_loops(
                #[trigger] rest.drop_first()[i].body@,
            ) <= 1);
        lemma_module_defs_distinct(rest.drop_first(), next);
        assert(module_label_defs(rest, fresh) == head + tail);
        assert forall|i: int, j: int|
            0 <= i < j < (head + tail).len() implies (head + tail)[i] != (head + tail)[j] by {
            if j < head.len() {
                assert((head + tail)[i] == head[i]);
                assert((head + tail)[j] == head[j]);
            } else if i >= head.len() {
                assert((head + tail)[i] == tail[i - head.len()]);
                assert((head + tail)[j] == tail[j - head.len()]);
            } else {
                assert((head + tail)[i] == head[i]);
                assert((head + tail)[j] == tail[j - head.len()]);
            }
        }
    }
}

/// Label uniqueness: the label numbers that receive a `label_<n>:`
/// definition line in a compiled module — `module_label_defs` lists them
/// in order of emission — are pairwise distinct, provided no body holds
/// more than one `loop` operator (a second `loop` would define the
/// function's single loop label a second time).
pub proof fn lemma_label_uniqueness(m: Module)
    requires
        forall|i: int|
            0 <= i < m.functions@.len() ==> count_loops(#[trigger] m.functions@[i].body@) <= 1,
    ensures
        distinct(module_label_defs(m.functions@, 0)),
{
    lemma_module_defs_distinct(m.functions@, 0);
}

/// A rendered decimal is never empty.
proof fn lemma_spec_dec_len(n: nat)
    ensures
        spec_dec(n).len() >= 1,
    decreases n,
{
    if n >= 10 {
        lemma_spec_dec_len(n / 10);
    }
}

/// The ten digit characters are pairwise distinct.
proof fn lemma_digit_char_injective(x: nat, y: nat)
    requires
        x < 10,
        y < 10,
        crate::text::spec_digit_char(x) == crate::text::spec_digit_char(y),
    ensures
        x == y,
{
}

/// Distinct numbers render as distinct decimals.
proof fn lemma_spec_dec_injective(a: nat, b: nat)
    requires
        spec_dec(a) == spec_dec(b),
    ensures
        a == b,
    decreases a,
{
    lemma_spec_dec_len(a);
    lemma_spec_dec_len(b);
    if a < 10 && b < 10 {
        assert(spec_dec(a)[0] == spec_dec(b)[0]);
        assert(spec_dec(a)[0] == crate::text::spec_digit_char(a));
        assert(spec_dec(b)[0] == crate::text::spec_digit_char(b));
        lemma_digit_char_injective(a, b);
    } else if a < 10 {
        lemma_spec_dec_len(b / 10);
        assert(spec_dec(b).len() >= 2);
    } else if b < 10 {
        lemma_spec_dec_len(a / 10);
        assert(spec_dec(a).len() >= 2);
    } else {
        let la = spec_dec(a / 10);
        let lb = spec_dec(b / 10);
        assert(spec_dec(a).last() == crate::text::spec_digit_char(a % 10));
        assert(spec_dec(b).last() == crate::text::spec_digit_char(b % 10));
        lemma_digit_char_injective(a % 10, b % 10);
        assert(a % 10 == b % 10);
        assert(la =~= spec_dec(a).subrange(0, spec_dec(a).len() - 1));
        assert(lb =~= spec_dec(b).subrange(0, spec_dec(b).len() - 1));
        assert(la == lb);
        lemma_spec_dec_injective(a / 10, b / 10);
    }
}

/// Distinct label numbers render as distinct label texts, so pairwise
/// distinct defined numbers give a listing in which no `label_<n>:`
/// definition repeats.
pub proof fn lemma_label_text_injective(a: nat, b: nat)
    requires
        spec_label_text(a) == spec_label_text(b),
    ensures
        a == b,
{
    let p = "label_"@;
    assert(spec_dec(a) =~= spec_label_text(a).skip(p.len() as int));
    assert(spec_dec(b) =~= spec_label_text(b).skip(p.len() as int));
    lemma_spec_dec_injective(a, b);
}

/// Label uniqueness over the rendered text: under the premise of
/// `lemma_label_uniqueness`, no two `label_<n>:` definition lines of a
/// compiled module carry the same label text.
pub proof fn lemma_label_texts_distinct(m: Module)
    requires
        forall|i: int|
            0 <= i < m.functions@.len() ==> count_loops(#[trigger] m.functions@[i].body@) <= 1,
    ensures
        forall|i: int, j: int|
            0 <= i < j < module_label_defs(m.functions@, 0).len() ==> spec_label_text(
                module_label_defs(m.functions@, 0)[i],
            ) != spec_label_text(module_label_defs(m.functions@, 0)[j]),
{
    lemma_label_uniqueness(m);
    let defs = module_label_defs(m.functions@, 0);
    assert forall|i: int, j: int|
        0 <= i < j < defs.len() implies spec_label_text(defs[i]) != spec_label_text(defs[j]) by {
        if spec_label_text(defs[i]) == spec_label_text(defs[j]) {
            lemma_label_text_injective(defs[i], defs[j]);
        }
    }
}

/// Net effect of one operator on the source operand stack, in 32-bit
/// operands: what the operator's signature consumes and produces.
pub open spec fn op_operand_delta(funcs: Seq<FunctionDef>, op: Op) -> int {
    match op {
        Op::LocalGet { .. } => 1,
        Op::LocalTee { .. } => 0,
        Op::I32Const { .. } => 1,
        Op::I32Store8 { .. } => -2,
        Op::I32Load8U { .. } => 0,
        Op::I32Eqz => 0,
        Op::I32Add => -1,
        Op::I32And => -1,
        Op::I32GtU => -1,
        Op::Select => -2,
        Op::Br { .. } => 0,
        Op::BrIf { .. } => -1,
        Op::Loop { .. } => 0,
        Op::Call { function_index } => (if funcs[function_index as int].result_count > 0 {
            1int
        } else {
            0int
        }) - funcs[function_index as int].param_count,
        Op::End => 0,
        Op::Unsupported => 0,
        Op::Malformed => 0,
    }
}

/// Net number of 16-bit words the operator's emitted sequence leaves on
/// the hardware stack: its `PUSH` instructions minus its `POP`
/// instructions along either arm of a branchy lowering (both arms of
/// `i32.eqz`, `i32.gt_u` and `select` push and pop alike). For `call`,
/// the template's own pushes and pops net to `-2 * P`, and the callee —
/// whose emitted body nets `2 * result_arity` words above the return
/// address consumed by `RET` — contributes the result words, so the
/// abstract effect of the call is `2 * result_arity - 2 * P`.
pub open spec fn op_words_delta(funcs: Seq<FunctionDef>, op: Op) -> int {
    match op {
        Op::LocalGet { .. } => 2,
        Op::LocalTee { .. } => 0,
        Op::I32Const { .. } => 2,
        Op::I32Store8 { .. } => -4,
        Op::I32Load8U { .. } => 0,
        Op::I32Eqz => 0,
        Op::I32Add => -2,
        Op::I32And => -2,
        Op::I32GtU => -2,
        Op::Select => -4,
        Op::Br { .. } => 0,
        Op::BrIf { .. } => -2,
        Op::Loop { .. } => 0,
        Op::Call { function_index } => (if funcs[function_index as int].result_count > 0 {
            2int
        } else {
            0int
        }) - 2 * funcs[function_index as int].param_count,
        Op::End => 0,
        Op::Unsupported => 0,
        Op::Malformed => 0,
    }
}

/// Net operand effect of a whole body.
pub open spec fn body_operand_delta(funcs: Seq<FunctionDef>, body: Seq<Op>) -> int
    decreases body.len(),
{
    if body.len() == 0 {
        0
    } else {
        op_operand_delta(funcs, body[0]) + body_operand_delta(funcs, body.drop_first())
    }
}

/// Net word effect of a whole body's emitted sequences.
pub open spec fn body_words_delta(funcs: Seq<FunctionDef>, body: Seq<Op>) -> int
    decreases body.len(),
{
    if body.len() == 0 {
        0
    } else {
        op_words_delta(funcs, body[0]) + body_words_delta(funcs, body.drop_first())
    }
}

/// Every operator's emitted sequence moves the hardware stack by exactly
/// two 16-bit words per operand of its source-level effect.
proof fn lemma_op_words_twice_operands(funcs: Seq<FunctionDef>, op: Op)
    ensures
        op_words_delta(funcs, op) == 2 * op_operand_delta(funcs, op),
{
}

/// The emitted sequences of a whole body move the hardware stack by
/// exactly two words per net source operand.
proof fn lemma_body_words_twice_operands(funcs: Seq<FunctionDef>, body: Seq<Op>)
    ensures
        body_words_delta(funcs, body) == 2 * body_operand_delta(funcs, body),
    decreases body.len(),
{
    if body.len() > 0 {
        lemma_op_words_twice_operands(funcs, body[0]);
        lemma_body_words_twice_operands(funcs, body.drop_first());
    }
}

/// Stack balance: for a body that is well typed in the source stack
/// discipline — its operators net exactly `result_count` operands onto
/// the operand stack — the sequences emitted between prologue and
/// epilogue push, net, exactly `2 * result_count` two-byte words.
pub proof fn lemma_stack_balance(funcs: Seq<FunctionDef>, body: Seq<Op>, result_count: nat)
    requires
        body_operand_delta(funcs, body) == result_count,
    ensures
        body_words_delta(funcs, body) == 2 * result_count,
{
    lemma_body_words_twice_operands(funcs, body);
}

/// Call round-trip: the caller pushes `2 * P` words of arguments; the
/// call sequence for a callee with parameter arity `P` then nets
/// `op_words_delta` words, so from just before the arguments to just
/// after the call sequence the stack gains exactly the result words —
/// two 16-bit words (4 bytes) per result, none otherwise. On the
/// downward-growing stack the stack pointer thus moves by exactly
/// `-4 * result_arity` bytes.
pub proof fn lemma_call_round_trip(funcs: Seq<FunctionDef>, function_index: u32)
    requires
        (function_index as int) < funcs.len(),
    ensures
        2 * funcs[function_index as int].param_count + op_words_delta(
            funcs,
            Op::Call { function_index },
        ) == if funcs[function_index as int].result_count > 0 {
            2int
        } else {
            0int
        },
{
}

/// Every function that compiles ends its emitted text with a `RET`
/// instruction: the epilogue closes every translated function.
pub proof fn lemma_function_ends_with_ret(funcs: Seq<FunctionDef>, f: FunctionDef, fresh: nat)
    ensures
        func_text(funcs, f, fresh) is Ok ==> {
            let t = func_text(funcs, f, fresh)->Ok_0.0;
            t.len() >= 6 && t.skip(t.len() - 6) == "  RET\n"@
        },
{
    reveal_strlit("  RET\n");
    if func_text(funcs, f, fresh) is Ok {
        let t = func_text(funcs, f, fresh)->Ok_0.0;
        assert(t.skip(t.len() - 6) =~= "  RET\n"@);
    }
}

/// Determinism: `Module::compile` ensures its output equals
/// `spec_compile` of the module, a function of the module alone; two
/// compilations of the same module therefore yield byte-identical text
/// (or the identical error).
pub proof fn lemma_compile_deterministic(
    m: Module,
    r1: Result<Seq<char>, CompileError>,
    r2: Result<Seq<char>, CompileError>,
)
    requires
        r1 == spec_compile(m),
        r2 == spec_compile(m),
    ensures
        r1 == r2,
{
}

} // verus!
