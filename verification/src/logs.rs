//! What every operation keeps: token processing never touches the
//! history, only appends to the output, the trace and the table of
//! execution tokens, and never shrinks memory.
use vstd::prelude::*;
use crate::model::{MachineV, prim_step, emit_trace, out, STEP_LIMIT, binary_step};
use crate::semantics::{vm, exec_op, run_word, execute_primitive, execute_xt, handle_consumer, dispatch_compile, do_dispatch, dispatch_token, print_string, run_from, token_end, find_char, lemma_token_end, lemma_find_char, set_pc};
use crate::text::{skip_ws, lemma_skip_ws_bounds};
use crate::types::{OpV, OpKindV, FrameV, WordV, PrimitiveId, NextTokenConsumer};

verus! {

/// `a` is an initial part of `b`.
pub open spec fn prefix<T>(a: Seq<T>, b: Seq<T>) -> bool {
    a.len() <= b.len() && forall|i: int| 0 <= i < a.len() ==> #[trigger] b[i] == a[i]
}

/// `b` follows from `a` by appending only: the history is the same; the
/// output, the trace and the execution tokens of `a` begin those of `b`;
/// memory did not shrink.
pub open spec fn grows(a: MachineV, b: MachineV) -> bool {
    &&& b.history == a.history
    &&& prefix(a.output, b.output)
    &&& prefix(a.trace, b.trace)
    &&& prefix(a.xt_table, b.xt_table)
    &&& a.memory.len() <= b.memory.len()
}

pub proof fn lemma_grows_trans(a: MachineV, b: MachineV, c: MachineV)
    requires
        grows(a, b),
        grows(b, c),
    ensures
        grows(a, c),
{
}

proof fn lemma_stack_steps_grow(m: MachineV, p: PrimitiveId)
    ensures
        grows(m, binary_step(m, p)),
        grows(m, crate::model::div_step(m)),
        grows(m, crate::model::mod_step(m)),
        grows(m, crate::model::slash_mod_step(m)),
        grows(m, crate::model::star_slash_mod_step(m)),
        grows(m, crate::model::dup_step(m)),
        grows(m, crate::model::swap_step(m)),
        grows(m, crate::model::drop_step(m)),
        grows(m, crate::model::over_step(m)),
        grows(m, crate::model::rot_step(m)),
        grows(m, crate::model::invert_step(m)),
{
}

proof fn lemma_io_steps_grow(m: MachineV, e: Seq<char>)
    ensures
        grows(m, crate::model::dot_step(m)),
        grows(m, crate::model::dot_s_step(m)),
        grows(m, crate::model::clear_step(m)),
        grows(m, crate::model::to_r_step(m)),
        grows(m, crate::model::r_from_step(m)),
        grows(m, crate::model::r_top_step(m, e)),
        grows(m, crate::model::j_step(m)),
        grows(m, crate::model::words_step(m)),
        grows(m, crate::model::cr_step(m)),
        grows(m, crate::model::emit_step(m)),
{
}

proof fn lemma_memory_steps_grow(m: MachineV)
    ensures
        grows(m, crate::model::fetch_step(m)),
        grows(m, crate::model::store_step(m)),
        grows(m, crate::model::plus_store_step(m)),
        grows(m, crate::model::allot_step(m)),
        grows(m, crate::model::here_step(m)),
        grows(m, crate::model::comma_step(m)),
        grows(m, crate::model::latest_step(m)),
        grows(m, crate::model::immediate_step(m)),
        grows(m, crate::model::create_step(m)),
{
}

proof fn lemma_control_steps_grow(m: MachineV, b: bool)
    ensures
        grows(m, crate::model::if_step(m)),
        grows(m, crate::model::else_step(m)),
        grows(m, crate::model::then_step(m)),
        grows(m, crate::model::begin_step(m)),
        grows(m, crate::model::until_step(m)),
        grows(m, crate::model::while_step(m)),
        grows(m, crate::model::repeat_step(m)),
        grows(m, crate::model::do_step(m)),
        grows(m, crate::model::loop_step(m, b)),
        grows(m, crate::model::leave_step(m)),
{
}

proof fn lemma_compile_steps_grow(m: MachineV)
    ensures
        grows(m, crate::model::l_bracket_step(m)),
        grows(m, crate::model::r_bracket_step(m)),
        grows(m, crate::model::literal_step(m)),
        grows(m, crate::model::does_arrow_step(m)),
        grows(m, crate::model::postpone_step(m)),
        grows(m, crate::model::compile_comma_step(m)),
{
}

pub proof fn lemma_prim_step_grows(m: MachineV, p: PrimitiveId)
    ensures
        grows(m, prim_step(m, p)),
{
    lemma_stack_steps_grow(m, p);
    lemma_io_steps_grow(m, "R@: return stack empty"@);
    lemma_io_steps_grow(m, "I: return stack empty"@);
    lemma_memory_steps_grow(m);
    lemma_control_steps_grow(m, true);
    lemma_control_steps_grow(m, false);
    lemma_compile_steps_grow(m);
}

pub proof fn lemma_vm_grows(m: MachineV, frames: Seq<FrameV>, fuel: nat)
    ensures
        grows(m, vm(m, frames, fuel).0),
    decreases fuel, 0nat, 0nat,
{
    if frames.len() == 0 || fuel == 0 {
    } else {
        let f = frames.last();
        if f.pc >= f.ops.len() {
            let m1 = match f.return_label {
                Some(l) => emit_trace(m, l),
                None => m,
            };
            lemma_vm_grows(m1, frames.drop_last(), (fuel - 1) as nat);
            lemma_grows_trans(m, m1, vm(m1, frames.drop_last(), (fuel - 1) as nat).0);
        } else {
            let o = f.ops[f.pc as int];
            let frames1 = set_pc(frames, (f.pc + 1) as usize);
            let r = exec_op(m, o, frames1, (fuel - 1) as nat);
            lemma_exec_op_grows(m, o, frames1, (fuel - 1) as nat);
            let f2: nat = if r.2 < fuel {
                r.2
            } else {
                0
            };
            lemma_vm_grows(r.0, r.1, f2);
            lemma_grows_trans(m, r.0, vm(r.0, r.1, f2).0);
        }
    }
}

pub proof fn lemma_exec_op_grows(m: MachineV, o: OpV, frames: Seq<FrameV>, fuel: nat)
    ensures
        grows(m, exec_op(m, o, frames, fuel).0),
    decreases fuel, m.stack.len(), 4nat,
{
    match o.kind {
        OpKindV::CallPrim(p) => {
            lemma_execute_primitive_grows(m, p, fuel);
        },
        OpKindV::CallByName(name) => {
            if m.dictionary.contains_key(name) {
                match m.dictionary[name] {
                    WordV::Primitive(p) => {
                        lemma_execute_primitive_grows(m, p, fuel);
                    },
                    _ => {},
                }
            }
        },
        OpKindV::PostponeCall(name) => {
            if m.compiling is Some && m.immediate_words.contains(name)
                && m.dictionary.contains_key(name) {
                lemma_run_word_grows(m, m.dictionary[name], fuel);
            }
        },
        _ => {},
    }
}

pub proof fn lemma_run_word_grows(m: MachineV, w: WordV, fuel: nat)
    ensures
        grows(m, run_word(m, w, fuel).0),
    decreases fuel, m.stack.len(), 3nat,
{
    match w {
        WordV::Primitive(p) => lemma_execute_primitive_grows(m, p, fuel),
        WordV::User(ops) => lemma_vm_grows(m, seq![crate::semantics::frame(ops, None)], fuel),
        WordV::Created { data_addr, does_ops } => match does_ops {
            Some(ops) => {
                let m1 = crate::model::push(m, data_addr);
                lemma_vm_grows(m1, seq![crate::semantics::frame(ops, None)], fuel);
            },
            None => {},
        },
        _ => {},
    }
}

pub proof fn lemma_execute_primitive_grows(m: MachineV, p: PrimitiveId, fuel: nat)
    ensures
        grows(m, execute_primitive(m, p, fuel).0),
    decreases fuel, m.stack.len(), 2nat,
{
    if p == PrimitiveId::Execute {
        lemma_execute_xt_grows(m, fuel);
    } else {
        lemma_prim_step_grows(m, p);
    }
}

pub proof fn lemma_execute_xt_grows(m: MachineV, fuel: nat)
    ensures
        grows(m, execute_xt(m, fuel).0),
    decreases fuel, m.stack.len(), 1nat,
{
    if m.stack.len() > 0 {
        let xt = m.stack.last();
        let m1 = MachineV { stack: m.stack.drop_last(), ..m };
        if !(xt < 0 || xt >= m1.xt_table.len()) {
            let name = m1.xt_table[xt as int];
            if m1.dictionary.contains_key(name) {
                lemma_run_word_grows(m1, m1.dictionary[name], fuel);
            }
        }
    }
}

pub proof fn lemma_handle_consumer_grows(m: MachineV, c: NextTokenConsumer, token: Seq<char>)
    ensures
        grows(m, handle_consumer(m, c, token)),
{
}

pub proof fn lemma_dispatch_compile_grows(m: MachineV, token: Seq<char>, up: Seq<char>, fuel: nat)
    requires
        m.compiling is Some,
    ensures
        grows(m, dispatch_compile(m, token, up, fuel).0),
{
    let p = m.compiling->0;
    if p.name is Some && !p.pending_postpone && up != ";"@ && up != ":"@
        && m.immediate_words.contains(up) && m.dictionary.contains_key(up) {
        lemma_run_word_grows(m, m.dictionary[up], fuel);
    }
}

pub proof fn lemma_do_dispatch_grows(m: MachineV, token: Seq<char>, fuel: nat)
    ensures
        grows(m, do_dispatch(m, token, fuel).0),
{
    match m.next_consumer {
        Some(c) => lemma_handle_consumer_grows(
            MachineV { next_consumer: None, ..m },
            c,
            token,
        ),
        None => {
            let up = crate::text::upper(token);
            if up != "'"@ && m.compiling is Some {
                lemma_dispatch_compile_grows(m, token, up, fuel);
            } else if m.dictionary.contains_key(up) {
                lemma_run_word_grows(m, m.dictionary[up], fuel);
            }
        },
    }
}

pub proof fn lemma_dispatch_token_grows(m: MachineV, token: Seq<char>)
    ensures
        grows(m, dispatch_token(m, token)),
{
    lemma_do_dispatch_grows(m, token, STEP_LIMIT as nat);
}

pub proof fn lemma_run_from_grows(m: MachineV, s: Seq<char>, i: int, depth: nat)
    ensures
        grows(m, run_from(m, s, i, depth)),
    decreases s.len() - i,
{
    if i < 0 || i > s.len() || skip_ws(s, i) >= s.len() {
    } else {
        let j = skip_ws(s, i);
        lemma_skip_ws_bounds(s, i);
        lemma_token_end(s, j);
        let k = token_end(s, j);
        let tok = s.subrange(j, k);
        if tok == "\\"@ {
            lemma_find_char(s, k, '\n');
            lemma_run_from_grows(m, s, find_char(s, k, '\n'), depth);
        } else if tok == "("@ {
            lemma_run_from_grows(m, s, k, depth + 1);
        } else if tok == ")"@ {
            if depth > 0 {
                lemma_run_from_grows(m, s, k, (depth - 1) as nat);
            } else {
                let m1 = out(m, "): unmatched"@);
                lemma_run_from_grows(m1, s, k, 0);
            }
        } else if depth > 0 {
            lemma_run_from_grows(m, s, k, depth);
        } else if tok == ".\""@ {
            lemma_skip_ws_bounds(s, k);
            lemma_find_char(s, skip_ws(s, k), '"');
            let a = skip_ws(s, k);
            let e = find_char(s, a, '"');
            let closed = e < s.len();
            let m1 = if closed {
                m
            } else {
                out(m, ".\": missing closing quote"@)
            };
            let m2 = print_string(m1, s.subrange(a, e));
            let next = if closed {
                e + 1
            } else {
                e
            };
            lemma_run_from_grows(m2, s, next, depth);
            lemma_grows_trans(m, m2, run_from(m2, s, next, depth));
        } else {
            let m1 = dispatch_token(m, tok);
            lemma_dispatch_token_grows(m, tok);
            lemma_run_from_grows(m1, s, k, depth);
            lemma_grows_trans(m, m1, run_from(m1, s, k, depth));
        }
    }
}

} // verus!
