//! The abstract machine and the meaning of every operation on it.
//!
//! `MachineV` is what a `Machine` holds, as mathematical values; the spec
//! functions here say what each primitive, each compiled op, each token and
//! each public entry point does to it. The executable code is proved to
//! agree with them exactly.
use vstd::prelude::*;
use crate::text::{join};
use crate::number::{dec, format_int};
use crate::order::sorted_list;
use crate::dict::{xt_index, xt_interned};
use crate::types::{OpV, OpKindV, PendingV, WordV, NextTokenConsumer, PrimitiveId};

verus! {

pub struct MachineV {
    pub stack: Seq<i32>,
    pub return_stack: Seq<i32>,
    pub memory: Seq<i32>,
    pub xt_table: Seq<Seq<char>>,
    pub output: Seq<Seq<char>>,
    pub output_line: Seq<char>,
    pub history: Seq<Seq<char>>,
    pub trace: Seq<Seq<char>>,
    pub dictionary: Map<Seq<char>, WordV>,
    pub immediate_words: Set<Seq<char>>,
    pub latest: Option<Seq<char>>,
    pub compiling: Option<PendingV>,
    pub paused_compile: Option<PendingV>,
    pub next_consumer: Option<NextTokenConsumer>,
    pub pending_does: Option<Seq<OpV>>,
    pub anon_counter: u32,
}

/// Steps the VM may take for one token before it gives up; far more than
/// any run can reach, so in practice a run ends only when its words do.
pub const STEP_LIMIT: u64 = 0xffff_ffff_ffff_ffff;

// ------------------------------------------------------------------
// Small state updates
// ------------------------------------------------------------------

pub open spec fn out(m: MachineV, msg: Seq<char>) -> MachineV {
    MachineV { output: m.output.push(msg), ..m }
}

pub open spec fn push(m: MachineV, v: i32) -> MachineV {
    MachineV { stack: m.stack.push(v), ..m }
}

/// `pop_int`: the top of the data stack, removed.
pub open spec fn pop(m: MachineV) -> (Option<i32>, MachineV) {
    if m.stack.len() == 0 {
        (None, m)
    } else {
        (Some(m.stack.last()), MachineV { stack: m.stack.drop_last(), ..m })
    }
}

pub open spec fn rpush(m: MachineV, v: i32) -> MachineV {
    MachineV { return_stack: m.return_stack.push(v), ..m }
}

pub open spec fn with_line(m: MachineV, line: Seq<char>) -> MachineV {
    MachineV { output_line: line, ..m }
}

pub open spec fn with_compiling(m: MachineV, p: Option<PendingV>) -> MachineV {
    MachineV { compiling: p, ..m }
}

pub open spec fn with_consumer(m: MachineV, c: Option<NextTokenConsumer>) -> MachineV {
    MachineV { next_consumer: c, ..m }
}

/// The radix: `BASE` (cell 0) when it holds 2..=36, else 10.
pub open spec fn current_base(m: MachineV) -> u32 {
    if m.memory.len() > 0 && 2 <= m.memory[0] <= 36 {
        m.memory[0] as u32
    } else {
        10
    }
}

pub open spec fn addr_ok(m: MachineV, addr: i32) -> bool {
    0 <= addr < m.memory.len()
}

/// Binds `name` and makes it the latest definition.
pub open spec fn define(m: MachineV, name: Seq<char>, w: WordV) -> MachineV {
    MachineV { dictionary: m.dictionary.insert(name, w), latest: Some(name), ..m }
}

/// The execution token of `name`, interning it.
pub open spec fn intern(m: MachineV, name: Seq<char>) -> (i32, MachineV) {
    (
        xt_index(m.xt_table, name) as i32,
        MachineV { xt_table: xt_interned(m.xt_table, name), ..m },
    )
}

pub open spec fn op(label: Seq<char>, kind: OpKindV) -> OpV {
    OpV { label, kind }
}

pub open spec fn body_push(p: PendingV, o: OpV) -> PendingV {
    PendingV { body: p.body.push(o), ..p }
}

/// Appends `o` to the definition being compiled (which must exist).
pub open spec fn compile_op(m: MachineV, o: OpV) -> MachineV {
    with_compiling(m, Some(body_push(m.compiling->0, o)))
}

pub open spec fn dec_list(s: Seq<i32>) -> Seq<Seq<char>> {
    s.map_values(|n: i32| dec(n as int))
}

pub open spec fn fmt_list(s: Seq<i32>, base: u32) -> Seq<Seq<char>> {
    s.map_values(|n: i32| format_int(n, base))
}

/// The trace line for `token`: mode, token and the stack after it ran.
pub open spec fn trace_line(m: MachineV, token: Seq<char>) -> Seq<char> {
    (if m.compiling is Some {
        "C"@
    } else {
        "I"@
    }) + " "@ + token + " | ["@ + join(dec_list(m.stack), " "@) + "]"@
}

pub open spec fn emit_trace(m: MachineV, token: Seq<char>) -> MachineV {
    MachineV { trace: m.trace.push(trace_line(m, token)), ..m }
}

/// Moves a partial output line, if any, into the output.
pub open spec fn flush_line(m: MachineV) -> MachineV {
    if m.output_line.len() > 0 {
        MachineV { output: m.output.push(m.output_line), output_line: Seq::empty(), ..m }
    } else {
        m
    }
}

// ------------------------------------------------------------------
// Primitives that do not run other words
// ------------------------------------------------------------------

/// The result of a two-operand primitive on `a` (second) and `b` (top).
pub open spec fn binary_result(p: PrimitiveId, a: i32, b: i32) -> i32 {
    match p {
        PrimitiveId::Add => a.wrapping_add(b),
        PrimitiveId::Sub => a.wrapping_sub(b),
        PrimitiveId::Mul => a.wrapping_mul(b),
        PrimitiveId::Eq => if a == b {
            -1i32
        } else {
            0i32
        },
        PrimitiveId::Lt => if a < b {
            -1i32
        } else {
            0i32
        },
        PrimitiveId::Gt => if a > b {
            -1i32
        } else {
            0i32
        },
        PrimitiveId::And => a & b,
        PrimitiveId::Or => a | b,
        PrimitiveId::Xor => a ^ b,
        PrimitiveId::LShift => ((a as u32).wrapping_shl(b as u32)) as i32,
        PrimitiveId::RShift => ((a as u32).wrapping_shr(b as u32)) as i32,
        _ => 0i32,
    }
}

pub open spec fn is_binary(p: PrimitiveId) -> bool {
    p == PrimitiveId::Add || p == PrimitiveId::Sub || p == PrimitiveId::Mul || p
        == PrimitiveId::Eq || p == PrimitiveId::Lt || p == PrimitiveId::Gt || p
        == PrimitiveId::And || p == PrimitiveId::Or || p == PrimitiveId::Xor || p
        == PrimitiveId::LShift || p == PrimitiveId::RShift
}

pub open spec fn binary_error(p: PrimitiveId) -> Seq<char> {
    match p {
        PrimitiveId::Add => "+: need two ints"@,
        PrimitiveId::Sub => "-: need two ints"@,
        PrimitiveId::Mul => "*: need two ints"@,
        PrimitiveId::Eq => "=: need two ints"@,
        PrimitiveId::Lt => "<: need two ints"@,
        PrimitiveId::Gt => ">: need two ints"@,
        PrimitiveId::And => "AND: need two ints"@,
        PrimitiveId::Or => "OR: need two ints"@,
        PrimitiveId::Xor => "XOR: need two ints"@,
        PrimitiveId::LShift => "LSHIFT: need two ints"@,
        _ => "RSHIFT: need two ints"@,
    }
}

/// Pops `b` then `a`, pushes `binary_result(p, a, b)`.
pub open spec fn binary_step(m: MachineV, p: PrimitiveId) -> MachineV {
    let (b, m1) = pop(m);
    let (a, m2) = pop(m1);
    match (a, b) {
        (Some(a), Some(b)) => push(m2, binary_result(p, a, b)),
        _ => out(m2, binary_error(p)),
    }
}

pub open spec fn div_step(m: MachineV) -> MachineV {
    let (b, m1) = pop(m);
    let (a, m2) = pop(m1);
    match (a, b) {
        (Some(a), Some(b)) => match a.checked_div(b) {
            Some(r) => push(m2, r),
            None => out(m2, "/: divide by zero"@),
        },
        _ => out(m2, "/: need two ints"@),
    }
}

pub open spec fn mod_step(m: MachineV) -> MachineV {
    let (b, m1) = pop(m);
    let (a, m2) = pop(m1);
    match (a, b) {
        (Some(a), Some(b)) => match a.checked_rem(b) {
            Some(r) => push(m2, r),
            None => out(m2, "MOD: divide by zero"@),
        },
        _ => out(m2, "MOD: need two ints"@),
    }
}

/// `/MOD` ( a b -- rem quot ).
pub open spec fn slash_mod_step(m: MachineV) -> MachineV {
    let (b, m1) = pop(m);
    let (a, m2) = pop(m1);
    match (a, b) {
        (Some(a), Some(b)) => match (a.checked_rem(b), a.checked_div(b)) {
            (Some(r), Some(q)) => push(push(m2, r), q),
            _ => out(m2, "/MOD: divide by zero"@),
        },
        _ => out(m2, "/MOD: need two ints"@),
    }
}

/// `*/MOD` ( a b c -- rem quot ): the scaled divide. The product `a*b` is
/// formed at double width, where it is exact, then divided by `c`,
/// truncating toward zero (the remainder takes the product's sign). The
/// quotient is wrapped to a cell, as cell arithmetic wraps; a zero divisor
/// is reported and leaves nothing.
pub open spec fn star_slash_mod_step(m: MachineV) -> MachineV {
    let (c, m1) = pop(m);
    let (b, m2) = pop(m1);
    let (a, m3) = pop(m2);
    match (a, b, c) {
        (Some(a), Some(b), Some(c)) => {
            let prod = (a * b) as i64;
            match (prod.checked_rem(c as i64), prod.checked_div(c as i64)) {
                (Some(r), Some(q)) => push(push(m3, r as i32), q as i32),
                _ => out(m3, "*/MOD: divide by zero"@),
            }
        },
        _ => out(m3, "*/MOD: need three ints"@),
    }
}

pub open spec fn dup_step(m: MachineV) -> MachineV {
    if m.stack.len() > 0 {
        push(m, m.stack.last())
    } else {
        out(m, "dup: stack empty"@)
    }
}

pub open spec fn swap_step(m: MachineV) -> MachineV {
    let (b, m1) = pop(m);
    let (a, m2) = pop(m1);
    match (a, b) {
        (Some(a), Some(b)) => push(push(m2, b), a),
        _ => out(m2, "swap: need two values"@),
    }
}

pub open spec fn drop_step(m: MachineV) -> MachineV {
    if m.stack.len() == 0 {
        out(m, "drop: stack empty"@)
    } else {
        pop(m).1
    }
}

pub open spec fn over_step(m: MachineV) -> MachineV {
    if m.stack.len() < 2 {
        out(m, "over: need two values"@)
    } else {
        push(m, m.stack[m.stack.len() - 2])
    }
}

pub open spec fn rot_step(m: MachineV) -> MachineV {
    if m.stack.len() < 3 {
        out(m, "rot: need three values"@)
    } else {
        let k = m.stack.len() - 3;
        MachineV { stack: m.stack.remove(k).push(m.stack[k]), ..m }
    }
}

pub open spec fn invert_step(m: MachineV) -> MachineV {
    let (n, m1) = pop(m);
    match n {
        Some(n) => push(m1, !n),
        None => out(m1, "INVERT: stack empty"@),
    }
}

pub open spec fn dot_step(m: MachineV) -> MachineV {
    let (n, m1) = pop(m);
    match n {
        Some(n) => with_line(m1, m1.output_line + format_int(n, current_base(m1)) + " "@),
        None => out(m1, ".: stack empty"@),
    }
}

pub open spec fn dot_s_step(m: MachineV) -> MachineV {
    out(m, "STACK: "@ + join(fmt_list(m.stack, current_base(m)), " "@))
}

pub open spec fn clear_step(m: MachineV) -> MachineV {
    out(MachineV { stack: Seq::empty(), ..m }, "stack cleared"@)
}

pub open spec fn to_r_step(m: MachineV) -> MachineV {
    let (v, m1) = pop(m);
    match v {
        Some(v) => rpush(m1, v),
        None => out(m1, ">R: stack empty"@),
    }
}

pub open spec fn r_from_step(m: MachineV) -> MachineV {
    if m.return_stack.len() == 0 {
        out(m, "R>: return stack empty"@)
    } else {
        push(MachineV { return_stack: m.return_stack.drop_last(), ..m }, m.return_stack.last())
    }
}

/// `R@` and `I`: copy the top of the return stack.
pub open spec fn r_top_step(m: MachineV, err: Seq<char>) -> MachineV {
    if m.return_stack.len() == 0 {
        out(m, err)
    } else {
        push(m, m.return_stack.last())
    }
}

pub open spec fn j_step(m: MachineV) -> MachineV {
    if m.return_stack.len() < 3 {
        out(m, "J: return stack too shallow"@)
    } else {
        push(m, m.return_stack[m.return_stack.len() - 3])
    }
}

pub open spec fn fetch_step(m: MachineV) -> MachineV {
    let (a, m1) = pop(m);
    match a {
        Some(addr) => if addr_ok(m1, addr) {
            push(m1, m1.memory[addr as int])
        } else {
            out(m1, "@: bad address "@ + dec(addr as int))
        },
        None => out(m1, "@: stack empty"@),
    }
}

pub open spec fn store_step(m: MachineV) -> MachineV {
    let (a, m1) = pop(m);
    let (v, m2) = pop(m1);
    match (v, a) {
        (Some(val), Some(addr)) => if addr_ok(m2, addr) {
            MachineV { memory: m2.memory.update(addr as int, val), ..m2 }
        } else {
            out(m2, "!: bad address "@ + dec(addr as int))
        },
        _ => out(m2, "!: need value and addr"@),
    }
}

pub open spec fn plus_store_step(m: MachineV) -> MachineV {
    let (a, m1) = pop(m);
    let (d, m2) = pop(m1);
    match (d, a) {
        (Some(delta), Some(addr)) => if addr_ok(m2, addr) {
            MachineV {
                memory: m2.memory.update(addr as int, m2.memory[addr as int].wrapping_add(delta)),
                ..m2
            }
        } else {
            out(m2, "+!: bad address "@ + dec(addr as int))
        },
        _ => out(m2, "+!: need delta and addr"@),
    }
}

pub open spec fn words_step(m: MachineV) -> MachineV {
    out(m, "WORDS: "@ + join(sorted_list(m.dictionary.dom()), " "@))
}

pub open spec fn cr_step(m: MachineV) -> MachineV {
    MachineV { output: m.output.push(m.output_line), output_line: Seq::empty(), ..m }
}

/// A Unicode scalar value: what `char::from_u32` accepts.
pub open spec fn is_scalar(u: u32) -> bool {
    u <= 0x10ffff && !(0xd800 <= u <= 0xdfff)
}

/// The character `EMIT` prints for `n`.
pub open spec fn emit_char(n: i32) -> char {
    if is_scalar(n as u32) {
        (n as u32) as char
    } else {
        '?'
    }
}

pub open spec fn emit_step(m: MachineV) -> MachineV {
    let (n, m1) = pop(m);
    match n {
        Some(n) => with_line(m1, m1.output_line.push(emit_char(n))),
        None => out(m1, "EMIT: stack empty"@),
    }
}

pub open spec fn allot_step(m: MachineV) -> MachineV {
    let (n, m1) = pop(m);
    match n {
        Some(n) => if n >= 0 {
            let mem = m1.memory + Seq::new(n as nat, |i: int| 0i32);
            out(
                MachineV { memory: mem, ..m1 },
                "ALLOT "@ + dec(n as int) + " cells (memory now "@ + dec(mem.len() as int) + ")"@,
            )
        } else {
            out(m1, "ALLOT: negative count "@ + dec(n as int))
        },
        None => out(m1, "ALLOT: stack empty"@),
    }
}

pub open spec fn here_step(m: MachineV) -> MachineV {
    push(m, m.memory.len() as i32)
}

pub open spec fn comma_step(m: MachineV) -> MachineV {
    let (n, m1) = pop(m);
    match n {
        Some(n) => MachineV { memory: m1.memory.push(n), ..m1 },
        None => out(m1, ",: stack empty"@),
    }
}

pub open spec fn latest_step(m: MachineV) -> MachineV {
    match m.latest {
        Some(name) => {
            let (xt, m1) = intern(m, name);
            push(m1, xt)
        },
        None => out(m, "LATEST: no words defined"@),
    }
}

pub open spec fn immediate_step(m: MachineV) -> MachineV {
    match m.latest {
        Some(name) => MachineV { immediate_words: m.immediate_words.insert(name), ..m },
        None => out(m, "IMMEDIATE: no words defined"@),
    }
}

pub open spec fn create_step(m: MachineV) -> MachineV {
    with_consumer(m, Some(NextTokenConsumer::Create(m.memory.len() as i32)))
}

// ------------------------------------------------------------------
// Compile-time primitives
// ------------------------------------------------------------------

pub open spec fn set_branch0(o: OpV, t: usize) -> OpV {
    match o.kind {
        OpKindV::Branch0(_) => OpV { kind: OpKindV::Branch0(t), ..o },
        _ => o,
    }
}

pub open spec fn set_forward(o: OpV, t: usize) -> OpV {
    match o.kind {
        OpKindV::Branch0(_) => OpV { kind: OpKindV::Branch0(t), ..o },
        OpKindV::Jump(_) => OpV { kind: OpKindV::Jump(t), ..o },
        _ => o,
    }
}

pub open spec fn set_leave(o: OpV, t: usize) -> OpV {
    match o.kind {
        OpKindV::LeaveLoop(_) => OpV { kind: OpKindV::LeaveLoop(t), ..o },
        _ => o,
    }
}

/// Pushes an op and records its position on the control-flow stack.
pub open spec fn open_structure(p: PendingV, o: OpV) -> PendingV {
    PendingV { body: p.body.push(o), cf_stack: p.cf_stack.push(p.body.len() as usize), ..p }
}

pub open spec fn if_step(m: MachineV) -> MachineV {
    match m.compiling {
        Some(p) => with_compiling(m, Some(open_structure(p, op("IF"@, OpKindV::Branch0(0))))),
        None => out(m, "IF: not compiling"@),
    }
}

pub open spec fn else_step(m: MachineV) -> MachineV {
    match m.compiling {
        Some(p) => if p.cf_stack.len() == 0 {
            out(m, "ELSE: not in IF"@)
        } else {
            let b = p.cf_stack.last();
            let jump_idx = p.body.len();
            let body1 = p.body.push(op("ELSE"@, OpKindV::Jump(0)));
            let body2 = body1.update(b as int, set_branch0(body1[b as int], body1.len() as usize));
            with_compiling(
                m,
                Some(
                    PendingV {
                        body: body2,
                        cf_stack: p.cf_stack.drop_last().push(jump_idx as usize),
                        ..p
                    },
                ),
            )
        },
        None => out(m, "ELSE: not compiling"@),
    }
}

pub open spec fn then_step(m: MachineV) -> MachineV {
    match m.compiling {
        Some(p) => if p.cf_stack.len() == 0 {
            out(m, "THEN: not in IF/ELSE"@)
        } else {
            let i = p.cf_stack.last();
            let target = p.body.len() as usize;
            let body1 = p.body.push(op("THEN"@, OpKindV::Noop));
            let body2 = body1.update(i as int, set_forward(body1[i as int], target));
            with_compiling(
                m,
                Some(PendingV { body: body2, cf_stack: p.cf_stack.drop_last(), ..p }),
            )
        },
        None => out(m, "THEN: not compiling"@),
    }
}

pub open spec fn begin_step(m: MachineV) -> MachineV {
    match m.compiling {
        Some(p) => with_compiling(m, Some(open_structure(p, op("BEGIN"@, OpKindV::Noop)))),
        None => out(m, "BEGIN: not compiling"@),
    }
}

pub open spec fn until_step(m: MachineV) -> MachineV {
    match m.compiling {
        Some(p) => if p.cf_stack.len() == 0 {
            out(m, "UNTIL: not in BEGIN"@)
        } else {
            let target = p.cf_stack.last();
            with_compiling(
                m,
                Some(
                    PendingV {
                        body: p.body.push(op("UNTIL"@, OpKindV::Branch0(target))),
                        cf_stack: p.cf_stack.drop_last(),
                        ..p
                    },
                ),
            )
        },
        None => out(m, "UNTIL: not compiling"@),
    }
}

pub open spec fn while_step(m: MachineV) -> MachineV {
    match m.compiling {
        Some(p) => with_compiling(m, Some(open_structure(p, op("WHILE"@, OpKindV::Branch0(0))))),
        None => out(m, "WHILE: not compiling"@),
    }
}

pub open spec fn repeat_step(m: MachineV) -> MachineV {
    match m.compiling {
        Some(p) => if p.cf_stack.len() == 0 {
            out(m, "REPEAT: not in WHILE"@)
        } else if p.cf_stack.len() == 1 {
            out(m, "REPEAT: not in BEGIN"@)
        } else {
            let w = p.cf_stack.last();
            let b = p.cf_stack[p.cf_stack.len() - 2];
            let body1 = p.body.push(op("REPEAT"@, OpKindV::Jump(b)));
            let body2 = body1.update(w as int, set_branch0(body1[w as int], body1.len() as usize));
            with_compiling(
                m,
                Some(
                    PendingV {
                        body: body2,
                        cf_stack: p.cf_stack.drop_last().drop_last(),
                        ..p
                    },
                ),
            )
        },
        None => out(m, "REPEAT: not compiling"@),
    }
}

pub open spec fn do_step(m: MachineV) -> MachineV {
    match m.compiling {
        Some(p) => {
            let p1 = open_structure(p, op("DO"@, OpKindV::LoopEnter));
            with_compiling(
                m,
                Some(PendingV { leave_stack: p1.leave_stack.push(Seq::empty()), ..p1 }),
            )
        },
        None => out(m, "DO: not compiling"@),
    }
}

/// Points every listed `LEAVE` op at `t`.
pub open spec fn patch_leaves(body: Seq<OpV>, leaves: Seq<usize>, t: usize) -> Seq<OpV>
    decreases leaves.len(),
{
    if leaves.len() == 0 {
        body
    } else {
        let b = patch_leaves(body, leaves.drop_last(), t);
        let i = leaves.last() as int;
        if i < b.len() {
            b.update(i, set_leave(b[i], t))
        } else {
            b
        }
    }
}

/// `LOOP` and `+LOOP` in a definition: close the innermost `DO`.
pub open spec fn close_do_loop(m: MachineV, label: Seq<char>, plus: bool) -> MachineV {
    let p = m.compiling->0;
    if p.cf_stack.len() == 0 {
        out(m, "compile: "@ + label + " without DO"@)
    } else {
        let idx_do = p.cf_stack.last();
        let leaves: Seq<usize> = if p.leave_stack.len() == 0 {
            Seq::empty()
        } else {
            p.leave_stack.last()
        };
        let target = (idx_do + 1) as usize;
        let kind = if plus {
            OpKindV::LoopNextStep(target)
        } else {
            OpKindV::LoopNext(target)
        };
        let body1 = p.body.push(op(label, kind));
        with_compiling(
            m,
            Some(
                PendingV {
                    body: patch_leaves(body1, leaves, body1.len() as usize),
                    cf_stack: p.cf_stack.drop_last(),
                    leave_stack: if p.leave_stack.len() == 0 {
                        p.leave_stack
                    } else {
                        p.leave_stack.drop_last()
                    },
                    ..p
                },
            ),
        )
    }
}

pub open spec fn loop_step(m: MachineV, plus: bool) -> MachineV {
    if m.compiling is None {
        out(
            m,
            if plus {
                "+LOOP: not compiling"@
            } else {
                "LOOP: not compiling"@
            },
        )
    } else {
        close_do_loop(
            m,
            if plus {
                "+LOOP"@
            } else {
                "LOOP"@
            },
            plus,
        )
    }
}

pub open spec fn leave_step(m: MachineV) -> MachineV {
    match m.compiling {
        Some(p) => if p.leave_stack.len() == 0 {
            out(m, "LEAVE: not in DO"@)
        } else {
            let idx = p.body.len() as usize;
            let d = p.leave_stack.len() - 1;
            with_compiling(
                m,
                Some(
                    PendingV {
                        body: p.body.push(op("LEAVE"@, OpKindV::LeaveLoop(0))),
                        leave_stack: p.leave_stack.update(d, p.leave_stack[d].push(idx)),
                        ..p
                    },
                ),
            )
        },
        None => out(m, "LEAVE: not compiling"@),
    }
}

pub open spec fn l_bracket_step(m: MachineV) -> MachineV {
    MachineV { paused_compile: m.compiling, compiling: None, ..m }
}

pub open spec fn r_bracket_step(m: MachineV) -> MachineV {
    match m.paused_compile {
        Some(p) => MachineV { compiling: Some(p), paused_compile: None, ..m },
        None => out(m, "]: not paused"@),
    }
}

pub open spec fn literal_step(m: MachineV) -> MachineV {
    if m.compiling is None {
        out(m, "LITERAL: not compiling"@)
    } else {
        let (n, m1) = pop(m);
        match n {
            Some(n) => compile_op(m1, op(dec(n as int), OpKindV::PushInt(n))),
            None => out(m1, "LITERAL: stack empty"@),
        }
    }
}

pub open spec fn does_arrow_step(m: MachineV) -> MachineV {
    if m.compiling is None {
        out(m, "DOES>: not compiling"@)
    } else {
        compile_op(m, op("DOES>"@, OpKindV::Does))
    }
}

pub open spec fn postpone_step(m: MachineV) -> MachineV {
    match m.compiling {
        Some(p) => with_compiling(m, Some(PendingV { pending_postpone: true, ..p })),
        None => out(m, "POSTPONE: not compiling"@),
    }
}

pub open spec fn compile_comma_step(m: MachineV) -> MachineV {
    let (x, m1) = pop(m);
    match x {
        Some(xt) => if xt < 0 || xt >= m1.xt_table.len() {
            out(m1, "COMPILE,: bad xt "@ + dec(xt as int))
        } else {
            let name = m1.xt_table[xt as int];
            if m1.compiling is Some {
                compile_op(m1, op(name, OpKindV::CallByName(name)))
            } else {
                out(m1, "COMPILE,: not compiling"@)
            }
        },
        None => out(m1, "COMPILE,: stack empty"@),
    }
}

/// Every primitive but `EXECUTE`, which runs other words.
pub open spec fn prim_step(m: MachineV, p: PrimitiveId) -> MachineV {
    if is_binary(p) {
        binary_step(m, p)
    } else {
        match p {
            PrimitiveId::Dup => dup_step(m),
            PrimitiveId::Swap => swap_step(m),
            PrimitiveId::Drop => drop_step(m),
            PrimitiveId::Over => over_step(m),
            PrimitiveId::Rot => rot_step(m),
            PrimitiveId::Div => div_step(m),
            PrimitiveId::Mod => mod_step(m),
            PrimitiveId::SlashMod => slash_mod_step(m),
            PrimitiveId::StarSlashMod => star_slash_mod_step(m),
            PrimitiveId::Invert => invert_step(m),
            PrimitiveId::CompileComma => compile_comma_step(m),
            PrimitiveId::Dot => dot_step(m),
            PrimitiveId::DotS => dot_s_step(m),
            PrimitiveId::Clear => clear_step(m),
            PrimitiveId::ToR => to_r_step(m),
            PrimitiveId::FromR => r_from_step(m),
            PrimitiveId::RFetch => r_top_step(m, "R@: return stack empty"@),
            PrimitiveId::Fetch => fetch_step(m),
            PrimitiveId::Store => store_step(m),
            PrimitiveId::PlusStore => plus_store_step(m),
            PrimitiveId::Words => words_step(m),
            PrimitiveId::Cr => cr_step(m),
            PrimitiveId::Emit => emit_step(m),
            PrimitiveId::Space => with_line(m, m.output_line.push(' ')),
            PrimitiveId::I => r_top_step(m, "I: return stack empty"@),
            PrimitiveId::J => j_step(m),
            PrimitiveId::Allot => allot_step(m),
            PrimitiveId::Here => here_step(m),
            PrimitiveId::Comma => comma_step(m),
            PrimitiveId::Latest => latest_step(m),
            PrimitiveId::Immediate => immediate_step(m),
            PrimitiveId::Create => create_step(m),
            PrimitiveId::If => if_step(m),
            PrimitiveId::Else => else_step(m),
            PrimitiveId::Then => then_step(m),
            PrimitiveId::Begin => begin_step(m),
            PrimitiveId::Until => until_step(m),
            PrimitiveId::While => while_step(m),
            PrimitiveId::Repeat => repeat_step(m),
            PrimitiveId::Do => do_step(m),
            PrimitiveId::LoopPrim => loop_step(m, false),
            PrimitiveId::PlusLoop => loop_step(m, true),
            PrimitiveId::LeavePrim => leave_step(m),
            PrimitiveId::LBracket => l_bracket_step(m),
            PrimitiveId::RBracket => r_bracket_step(m),
            PrimitiveId::Literal => literal_step(m),
            PrimitiveId::DoesArrow => does_arrow_step(m),
            PrimitiveId::Postpone => postpone_step(m),
            _ => m,
        }
    }
}

} // verus!
