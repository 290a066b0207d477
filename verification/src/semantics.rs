//! The meaning of running words: the VM over frames of compiled ops,
//! `EXECUTE`, token dispatch in both modes, the words that read the next
//! token, the tokenizer, and the public entry points.
use vstd::prelude::*;
use crate::text::{join, upper, trim, utf8_len, is_ws, skip_ws};
use crate::number::{dec, parse_int};
use crate::model::{
    MachineV, STEP_LIMIT, out, push, pop, rpush, with_line, with_compiling, with_consumer,
    current_base, addr_ok, define, intern, op, body_push, compile_op, emit_trace, flush_line,
    prim_step,
};
use crate::text::lemma_skip_ws_bounds;
use crate::types::{OpV, OpKindV, PendingV, WordV, FrameV, NextTokenConsumer, PrimitiveId};

verus! {

/// Sets the program counter of the innermost frame.
pub open spec fn set_pc(frames: Seq<FrameV>, t: usize) -> Seq<FrameV> {
    frames.update(frames.len() - 1, FrameV { pc: t, ..frames.last() })
}

pub open spec fn frame(ops: Seq<OpV>, label: Option<Seq<char>>) -> FrameV {
    FrameV { ops, pc: 0, return_label: label }
}

/// The VM: runs frames until none is left, or the steps run out. Each
/// step either finishes the innermost frame or runs its next op.
pub open spec fn vm(m: MachineV, frames: Seq<FrameV>, fuel: nat) -> (MachineV, nat)
    decreases fuel, 0nat, 0nat,
{
    if frames.len() == 0 {
        (m, fuel)
    } else if fuel == 0 {
        (m, 0)
    } else {
        let f = frames.last();
        if f.pc >= f.ops.len() {
            let m1 = match f.return_label {
                Some(l) => emit_trace(m, l),
                None => m,
            };
            vm(m1, frames.drop_last(), (fuel - 1) as nat)
        } else {
            let o = f.ops[f.pc as int];
            let frames1 = set_pc(frames, (f.pc + 1) as usize);
            let r = exec_op(m, o, frames1, (fuel - 1) as nat);
            vm(
                r.0,
                r.1,
                if r.2 < fuel {
                    r.2
                } else {
                    0
                },
            )
        }
    }
}

/// Runs one compiled op against the machine and the frames.
pub open spec fn exec_op(m: MachineV, o: OpV, frames: Seq<FrameV>, fuel: nat) -> (
    MachineV,
    Seq<FrameV>,
    nat,
)
    decreases fuel, m.stack.len(), 4nat,
{
    let label = o.label;
    match o.kind {
        OpKindV::PushInt(n) => (emit_trace(push(m, n), label), frames, fuel),
        OpKindV::CallPrim(p) => {
            let r = execute_primitive(m, p, fuel);
            (emit_trace(r.0, label), frames, r.1)
        },
        OpKindV::CallByName(name) => if m.dictionary.contains_key(name) {
            match m.dictionary[name] {
                WordV::Primitive(p) => {
                    let r = execute_primitive(m, p, fuel);
                    (emit_trace(r.0, label), frames, r.1)
                },
                WordV::User(inner) => (m, frames.push(frame(inner, Some(label))), fuel),
                WordV::Variable(a) => (emit_trace(push(m, a), label), frames, fuel),
                WordV::Constant(v) => (emit_trace(push(m, v), label), frames, fuel),
                WordV::Created { data_addr, does_ops } => (
                    emit_trace(push(m, data_addr), label),
                    match does_ops {
                        Some(inner) => frames.push(frame(inner, None)),
                        None => frames,
                    },
                    fuel,
                ),
            }
        } else {
            (emit_trace(out(m, "unknown token: "@ + name), label), frames, fuel)
        },
        OpKindV::Branch0(t) => {
            let (flag, m1) = pop(m);
            if flag == Some(0i32) {
                (emit_trace(m1, label), set_pc(frames, t), fuel)
            } else if flag is None {
                (emit_trace(out(m1, "IF: stack empty"@), label), frames, fuel)
            } else {
                (emit_trace(m1, label), frames, fuel)
            }
        },
        OpKindV::Jump(t) => (emit_trace(m, label), set_pc(frames, t), fuel),
        OpKindV::Noop => (emit_trace(m, label), frames, fuel),
        OpKindV::LoopEnter => {
            let (start, m1) = pop(m);
            let (limit, m2) = pop(m1);
            let m3 = match (limit, start) {
                (Some(l), Some(s)) => rpush(rpush(m2, l), s),
                _ => out(m2, "DO: need limit and start"@),
            };
            (emit_trace(m3, label), frames, fuel)
        },
        OpKindV::LoopNext(t) => {
            let r = m.return_stack;
            if r.len() < 2 {
                (emit_trace(out(m, "LOOP: return stack underflow"@), label), frames, fuel)
            } else {
                let limit = r[r.len() - 2];
                let ni = r.last().wrapping_add(1);
                if ni < limit {
                    (
                        emit_trace(
                            MachineV { return_stack: r.update(r.len() - 1, ni), ..m },
                            label,
                        ),
                        set_pc(frames, t),
                        fuel,
                    )
                } else {
                    (
                        emit_trace(
                            MachineV { return_stack: r.drop_last().drop_last(), ..m },
                            label,
                        ),
                        frames,
                        fuel,
                    )
                }
            }
        },
        OpKindV::LoopNextStep(t) => {
            let (step, m1) = pop(m);
            match step {
                None => (emit_trace(out(m1, "+LOOP: stack empty"@), label), frames, fuel),
                Some(step) => {
                    let r = m1.return_stack;
                    if r.len() < 2 {
                        (
                            emit_trace(out(m1, "+LOOP: return stack underflow"@), label),
                            frames,
                            fuel,
                        )
                    } else {
                        let limit = r[r.len() - 2];
                        let ni = r.last().wrapping_add(step);
                        let exit = if step >= 0 {
                            ni >= limit
                        } else {
                            ni < limit
                        };
                        if exit {
                            (
                                emit_trace(
                                    MachineV { return_stack: r.drop_last().drop_last(), ..m1 },
                                    label,
                                ),
                                frames,
                                fuel,
                            )
                        } else {
                            (
                                emit_trace(
                                    MachineV { return_stack: r.update(r.len() - 1, ni), ..m1 },
                                    label,
                                ),
                                set_pc(frames, t),
                                fuel,
                            )
                        }
                    }
                },
            }
        },
        OpKindV::LeaveLoop(t) => {
            let r = m.return_stack;
            let m1 = if r.len() >= 2 {
                MachineV { return_stack: r.drop_last().drop_last(), ..m }
            } else {
                m
            };
            (emit_trace(m1, label), set_pc(frames, t), fuel)
        },
        OpKindV::Does => {
            let f = frames.last();
            let rest = f.ops.subrange(f.pc as int, f.ops.len() as int);
            (
                emit_trace(MachineV { pending_does: Some(rest), ..m }, label),
                set_pc(frames, f.ops.len() as usize),
                fuel,
            )
        },
        OpKindV::PostponeCall(name) => if m.compiling is None {
            (
                emit_trace(out(m, "POSTPONE: not compiling, cannot postpone "@ + name), label),
                frames,
                fuel,
            )
        } else if m.immediate_words.contains(name) {
            if m.dictionary.contains_key(name) {
                let r = run_word(m, m.dictionary[name], fuel);
                (emit_trace(r.0, label), frames, r.1)
            } else {
                (
                    emit_trace(out(m, "POSTPONE: word "@ + name + " no longer defined"@), label),
                    frames,
                    fuel,
                )
            }
        } else {
            (emit_trace(compile_op(m, op(name, OpKindV::CallByName(name))), label), frames, fuel)
        },
        OpKindV::PrintStr(s) => (
            emit_trace(with_line(m, m.output_line + s), label),
            frames,
            fuel,
        ),
    }
}

/// Runs a dictionary word.
pub open spec fn run_word(m: MachineV, w: WordV, fuel: nat) -> (MachineV, nat)
    decreases fuel, m.stack.len(), 3nat,
{
    match w {
        WordV::Primitive(p) => execute_primitive(m, p, fuel),
        WordV::User(ops) => vm(m, seq![frame(ops, None)], fuel),
        WordV::Variable(a) => (push(m, a), fuel),
        WordV::Constant(v) => (push(m, v), fuel),
        WordV::Created { data_addr, does_ops } => match does_ops {
            Some(ops) => vm(push(m, data_addr), seq![frame(ops, None)], fuel),
            None => (push(m, data_addr), fuel),
        },
    }
}

pub open spec fn execute_primitive(m: MachineV, p: PrimitiveId, fuel: nat) -> (MachineV, nat)
    decreases fuel, m.stack.len(), 2nat,
{
    if p == PrimitiveId::Execute {
        execute_xt(m, fuel)
    } else {
        (prim_step(m, p), fuel)
    }
}

/// `EXECUTE`: pops an execution token and runs its word.
pub open spec fn execute_xt(m: MachineV, fuel: nat) -> (MachineV, nat)
    decreases fuel, m.stack.len(), 1nat,
{
    if m.stack.len() == 0 {
        (out(m, "EXECUTE: stack empty"@), fuel)
    } else {
        let xt = m.stack.last();
        let m1 = MachineV { stack: m.stack.drop_last(), ..m };
        if xt < 0 || xt >= m1.xt_table.len() {
            (out(m1, "EXECUTE: bad xt "@ + dec(xt as int)), fuel)
        } else {
            let name = m1.xt_table[xt as int];
            if m1.dictionary.contains_key(name) {
                run_word(m1, m1.dictionary[name], fuel)
            } else {
                (out(m1, "EXECUTE: word "@ + name + " no longer defined"@), fuel)
            }
        }
    }
}

// ------------------------------------------------------------------
// Tokens
// ------------------------------------------------------------------

pub open spec fn new_pending(name: Option<Seq<char>>, anonymous: bool) -> PendingV {
    PendingV {
        name,
        body: Seq::empty(),
        cf_stack: Seq::empty(),
        leave_stack: Seq::empty(),
        pending_postpone: false,
        anonymous,
    }
}

/// What `SEE` prints for a word.
pub open spec fn see_text(m: MachineV, up: Seq<char>, token: Seq<char>) -> Seq<char> {
    let tag = if m.immediate_words.contains(up) {
        " IMMEDIATE"@
    } else {
        ""@
    };
    if !m.dictionary.contains_key(up) {
        "SEE: unknown word "@ + token
    } else {
        match m.dictionary[up] {
            WordV::Primitive(p) => "SEE "@ + up + ": primitive "@ + prim_debug_name(p) + tag,
            WordV::User(ops) => ": "@ + up + " "@ + join(labels(ops), " "@) + " ;"@ + tag,
            WordV::Variable(addr) => "SEE "@ + up + ": variable @ addr "@ + dec(addr as int)
                + " = "@ + (if addr_ok(m, addr) {
                dec(m.memory[addr as int] as int)
            } else {
                "?"@
            }) + tag,
            WordV::Constant(v) => "SEE "@ + up + ": constant = "@ + dec(v as int) + tag,
            WordV::Created { data_addr, does_ops } => match does_ops {
                Some(ops) => "SEE "@ + up + ": created @ addr "@ + dec(data_addr as int)
                    + ", does [ "@ + join(labels(ops), " "@) + " ]"@ + tag,
                None => "SEE "@ + up + ": created @ addr "@ + dec(data_addr as int) + tag,
            },
        }
    }
}

pub open spec fn labels(ops: Seq<OpV>) -> Seq<Seq<char>> {
    ops.map_values(|o: OpV| o.label)
}

/// The words that take the next token as a name.
pub open spec fn handle_consumer(m: MachineV, c: NextTokenConsumer, token: Seq<char>) -> MachineV {
    let up = upper(token);
    match c {
        NextTokenConsumer::See => out(m, see_text(m, up, token)),
        NextTokenConsumer::Variable => {
            let addr = m.memory.len() as i32;
            let m1 = MachineV { memory: m.memory.push(0i32), ..m };
            out(
                define(m1, up, WordV::Variable(addr)),
                "VARIABLE "@ + up + " at addr "@ + dec(addr as int),
            )
        },
        NextTokenConsumer::Constant(v) => out(
            define(m, up, WordV::Constant(v)),
            "CONSTANT "@ + up + " = "@ + dec(v as int),
        ),
        NextTokenConsumer::Create(addr) => {
            let does = m.pending_does;
            let m1 = define(
                MachineV { pending_does: None, ..m },
                up,
                WordV::Created { data_addr: addr, does_ops: does },
            );
            out(
                m1,
                "CREATE "@ + up + " at addr "@ + dec(addr as int) + if does is Some {
                    " (with DOES>)"@
                } else {
                    ""@
                },
            )
        },
        NextTokenConsumer::Tick => if !m.dictionary.contains_key(up) {
            out(m, "': unknown word "@ + token)
        } else {
            let (xt, m1) = intern(m, up);
            if m1.compiling is Some {
                compile_op(m1, op("' "@ + up, OpKindV::PushInt(xt)))
            } else {
                push(m1, xt)
            }
        },
    }
}

/// The op that a non-immediate token compiles to.
pub open spec fn compile_token(m: MachineV, token: Seq<char>, up: Seq<char>) -> OpV {
    match parse_int(token, current_base(m) as nat) {
        Some(n) => op(token, OpKindV::PushInt(n)),
        None => if m.dictionary.contains_key(up) && m.dictionary[up] is Primitive {
            op(up, OpKindV::CallPrim(m.dictionary[up]->Primitive_0))
        } else {
            op(up, OpKindV::CallByName(up))
        },
    }
}

/// `;`: ends the definition being compiled.
pub open spec fn finish_definition(m: MachineV) -> MachineV {
    let p = m.compiling->0;
    let m0 = with_compiling(m, None);
    if p.cf_stack.len() > 0 {
        out(
            m0,
            "compile: "@ + (match p.name {
                Some(n) => n,
                None => "<unnamed>"@,
            }) + " dropped; "@ + dec(p.cf_stack.len() as int) + " unclosed IF/ELSE/BEGIN"@,
        )
    } else {
        let name = p.name->0;
        let n = p.body.len() as int;
        let m1 = define(m0, name, WordV::User(p.body));
        if p.anonymous {
            let (xt, m2) = intern(m1, name);
            out(push(m2, xt), ":NONAME -> xt "@ + dec(xt as int) + " ("@ + dec(n) + " ops)"@)
        } else {
            out(m1, "defined "@ + name + " ("@ + dec(n) + " tokens)"@)
        }
    }
}

/// A token while a definition is being compiled.
pub open spec fn dispatch_compile(m: MachineV, token: Seq<char>, up: Seq<char>, fuel: nat) -> (
    MachineV,
    nat,
) {
    let p = m.compiling->0;
    if p.name is None {
        if up == ":"@ || up == ";"@ {
            (with_compiling(out(m, "compile: expected word name, got "@ + token), None), fuel)
        } else {
            (
                MachineV { compiling: Some(PendingV { name: Some(up), ..p }), latest: Some(up), ..m },
                fuel,
            )
        }
    } else if p.pending_postpone {
        let p1 = PendingV { pending_postpone: false, ..p };
        if !m.dictionary.contains_key(up) {
            (with_compiling(out(m, "POSTPONE: unknown word "@ + token), Some(p1)), fuel)
        } else {
            (
                with_compiling(
                    m,
                    Some(body_push(p1, op("POSTPONE "@ + up, OpKindV::PostponeCall(up)))),
                ),
                fuel,
            )
        }
    } else if up == ";"@ {
        (finish_definition(m), fuel)
    } else if up == ":"@ {
        (out(m, "compile: nested : not allowed"@), fuel)
    } else if m.immediate_words.contains(up) && m.dictionary.contains_key(up) {
        run_word(m, m.dictionary[up], fuel)
    } else {
        (compile_op(m, compile_token(m, token, up)), fuel)
    }
}

/// A token, with `fuel` steps for the words it runs.
pub open spec fn do_dispatch(m: MachineV, token: Seq<char>, fuel: nat) -> (MachineV, nat) {
    match m.next_consumer {
        Some(c) => (handle_consumer(with_consumer(m, None), c, token), fuel),
        None => {
            let up = upper(token);
            if up == "'"@ {
                (with_consumer(m, Some(NextTokenConsumer::Tick)), fuel)
            } else if m.compiling is Some {
                dispatch_compile(m, token, up, fuel)
            } else if up == "SEE"@ {
                (with_consumer(m, Some(NextTokenConsumer::See)), fuel)
            } else if up == "VARIABLE"@ {
                (with_consumer(m, Some(NextTokenConsumer::Variable)), fuel)
            } else if up == "CONSTANT"@ {
                let (v, m1) = pop(m);
                match v {
                    Some(v) => (with_consumer(m1, Some(NextTokenConsumer::Constant(v))), fuel),
                    None => (out(m1, "CONSTANT: stack empty"@), fuel),
                }
            } else if up == ":"@ {
                (with_compiling(m, Some(new_pending(None, false))), fuel)
            } else if up == ":NONAME"@ {
                let n = m.anon_counter;
                (
                    MachineV {
                        anon_counter: n.wrapping_add(1),
                        compiling: Some(new_pending(Some("<anon-"@ + dec(n as int) + ">"@), true)),
                        ..m
                    },
                    fuel,
                )
            } else if up == ";"@ {
                (out(m, ";: not compiling"@), fuel)
            } else {
                match parse_int(token, current_base(m) as nat) {
                    Some(n) => (push(m, n), fuel),
                    None => if m.dictionary.contains_key(up) {
                        run_word(m, m.dictionary[up], fuel)
                    } else {
                        (out(m, "unknown token: "@ + token), fuel)
                    },
                }
            }
        },
    }
}

/// One whitespace-delimited token: run it, then trace it.
pub open spec fn dispatch_token(m: MachineV, token: Seq<char>) -> MachineV {
    let r = do_dispatch(m, token, STEP_LIMIT as nat);
    let m1 = if r.1 == 0 {
        out(r.0, "VM: step limit reached"@)
    } else {
        r.0
    };
    emit_trace(m1, token)
}

/// `."` text: printed now, or compiled into the definition.
pub open spec fn print_string(m: MachineV, s: Seq<char>) -> MachineV {
    if m.compiling is Some {
        compile_op(m, op(".\" "@ + s + "\""@, OpKindV::PrintStr(s)))
    } else {
        with_line(m, m.output_line + s)
    }
}

/// End of the token that starts at `i`.
pub open spec fn token_end(s: Seq<char>, i: int) -> int
    decreases s.len() - i,
{
    if i >= s.len() || is_ws(s[i]) {
        i
    } else {
        token_end(s, i + 1)
    }
}

/// First position at or after `i` holding `c` (or the length).
pub open spec fn find_char(s: Seq<char>, i: int, c: char) -> int
    decreases s.len() - i,
{
    if i >= s.len() || s[i] == c {
        i
    } else {
        find_char(s, i + 1, c)
    }
}

pub proof fn lemma_token_end(s: Seq<char>, i: int)
    requires
        0 <= i <= s.len(),
    ensures
        i <= token_end(s, i) <= s.len(),
        token_end(s, i) < s.len() ==> is_ws(s[token_end(s, i)]),
        forall|k: int| i <= k < token_end(s, i) ==> !is_ws(#[trigger] s[k]),
    decreases s.len() - i,
{
    if i < s.len() && !is_ws(s[i]) {
        lemma_token_end(s, i + 1);
    }
}

pub proof fn lemma_find_char(s: Seq<char>, i: int, c: char)
    requires
        0 <= i <= s.len(),
    ensures
        i <= find_char(s, i, c) <= s.len(),
        find_char(s, i, c) < s.len() ==> s[find_char(s, i, c)] == c,
        forall|k: int| i <= k < find_char(s, i, c) ==> #[trigger] s[k] != c,
    decreases s.len() - i,
{
    if i < s.len() && s[i] != c {
        lemma_find_char(s, i + 1, c);
    }
}

/// The end-of-input message for `depth` unclosed `(` comments.
pub open spec fn finish_comments(m: MachineV, depth: nat) -> MachineV {
    if depth > 0 {
        out(m, "(: unclosed ("@ + dec(depth as int) + " open)"@)
    } else {
        m
    }
}

/// Runs the tokens of `s` from position `i`, inside `depth` open `(`
/// comments.
pub open spec fn run_from(m: MachineV, s: Seq<char>, i: int, depth: nat) -> MachineV
    decreases s.len() - i,
{
    if i < 0 || i > s.len() || skip_ws(s, i) >= s.len() {
        finish_comments(m, depth)
    } else {
        let j = skip_ws(s, i);
        proof {
            lemma_skip_ws_bounds(s, i);
            lemma_token_end(s, j);
        }
        let k = token_end(s, j);
        let tok = s.subrange(j, k);
        if tok == "\\"@ {
            proof {
                lemma_find_char(s, k, '\n');
            }
            run_from(m, s, find_char(s, k, '\n'), depth)
        } else if tok == "("@ {
            run_from(m, s, k, depth + 1)
        } else if tok == ")"@ {
            if depth > 0 {
                run_from(m, s, k, (depth - 1) as nat)
            } else {
                run_from(out(m, "): unmatched"@), s, k, 0)
            }
        } else if depth > 0 {
            run_from(m, s, k, depth)
        } else if tok == ".\""@ {
            proof {
                lemma_skip_ws_bounds(s, k);
                lemma_find_char(s, skip_ws(s, k), '"');
            }
            let a = skip_ws(s, k);
            let e = find_char(s, a, '"');
            let closed = e < s.len();
            let m1 = if closed {
                m
            } else {
                out(m, ".\": missing closing quote"@)
            };
            run_from(
                print_string(m1, s.subrange(a, e)),
                s,
                if closed {
                    e + 1
                } else {
                    e
                },
                depth,
            )
        } else {
            run_from(dispatch_token(m, tok), s, k, depth)
        }
    }
}

/// All tokens of `s`.
pub open spec fn run_tokens(m: MachineV, s: Seq<char>) -> MachineV {
    run_from(m, s, 0, 0)
}

/// `eval_repl`: one REPL line.
pub open spec fn eval_repl(m: MachineV, line: Seq<char>) -> MachineV {
    let t = trim(line);
    if t.len() == 0 {
        m
    } else {
        flush_line(run_tokens(MachineV { history: m.history.push("> "@ + t), ..m }, t))
    }
}

/// `load_source`: a whole source text.
pub open spec fn load_source(m: MachineV, src: Seq<char>) -> MachineV {
    let t = trim(src);
    if t.len() == 0 {
        m
    } else {
        out(
            flush_line(
                run_tokens(MachineV { history: m.history.push("> [load source]"@), ..m }, t),
            ),
            "Loaded source ("@ + dec(utf8_len(t) as int) + " chars)."@,
        )
    }
}

/// `reset`: empties the stacks and drops any compilation in progress;
/// the dictionary and memory stay.
pub open spec fn reset(m: MachineV) -> MachineV {
    MachineV {
        stack: Seq::empty(),
        return_stack: Seq::empty(),
        compiling: None,
        paused_compile: None,
        next_consumer: None,
        pending_does: None,
        output_line: Seq::empty(),
        output: m.output.push("VM reset."@),
        history: m.history.push("--- reset ---"@),
        trace: m.trace.push("--- reset ---"@),
        ..m
    }
}

/// `{:?}` of a primitive: its variant name.
pub open spec fn prim_debug_name(p: PrimitiveId) -> Seq<char> {
    match p {
        PrimitiveId::Dup => "Dup"@,
        PrimitiveId::Swap => "Swap"@,
        PrimitiveId::Drop => "Drop"@,
        PrimitiveId::Over => "Over"@,
        PrimitiveId::Rot => "Rot"@,
        PrimitiveId::Add => "Add"@,
        PrimitiveId::Sub => "Sub"@,
        PrimitiveId::Mul => "Mul"@,
        PrimitiveId::Div => "Div"@,
        PrimitiveId::Mod => "Mod"@,
        PrimitiveId::SlashMod => "SlashMod"@,
        PrimitiveId::StarSlashMod => "StarSlashMod"@,
        PrimitiveId::Eq => "Eq"@,
        PrimitiveId::Lt => "Lt"@,
        PrimitiveId::Gt => "Gt"@,
        PrimitiveId::And => "And"@,
        PrimitiveId::Or => "Or"@,
        PrimitiveId::Xor => "Xor"@,
        PrimitiveId::Invert => "Invert"@,
        PrimitiveId::LShift => "LShift"@,
        PrimitiveId::RShift => "RShift"@,
        PrimitiveId::CompileComma => "CompileComma"@,
        PrimitiveId::Dot => "Dot"@,
        PrimitiveId::DotS => "DotS"@,
        PrimitiveId::Clear => "Clear"@,
        PrimitiveId::ToR => "ToR"@,
        PrimitiveId::FromR => "FromR"@,
        PrimitiveId::RFetch => "RFetch"@,
        PrimitiveId::Fetch => "Fetch"@,
        PrimitiveId::Store => "Store"@,
        PrimitiveId::PlusStore => "PlusStore"@,
        PrimitiveId::Words => "Words"@,
        PrimitiveId::Cr => "Cr"@,
        PrimitiveId::Emit => "Emit"@,
        PrimitiveId::Space => "Space"@,
        PrimitiveId::I => "I"@,
        PrimitiveId::J => "J"@,
        PrimitiveId::Allot => "Allot"@,
        PrimitiveId::Execute => "Execute"@,
        PrimitiveId::Here => "Here"@,
        PrimitiveId::Comma => "Comma"@,
        PrimitiveId::Latest => "Latest"@,
        PrimitiveId::Immediate => "Immediate"@,
        PrimitiveId::Create => "Create"@,
        PrimitiveId::If => "If"@,
        PrimitiveId::Else => "Else"@,
        PrimitiveId::Then => "Then"@,
        PrimitiveId::Begin => "Begin"@,
        PrimitiveId::Until => "Until"@,
        PrimitiveId::While => "While"@,
        PrimitiveId::Repeat => "Repeat"@,
        PrimitiveId::Do => "Do"@,
        PrimitiveId::LoopPrim => "LoopPrim"@,
        PrimitiveId::PlusLoop => "PlusLoop"@,
        PrimitiveId::LeavePrim => "LeavePrim"@,
        PrimitiveId::LBracket => "LBracket"@,
        PrimitiveId::RBracket => "RBracket"@,
        PrimitiveId::Literal => "Literal"@,
        PrimitiveId::DoesArrow => "DoesArrow"@,
        PrimitiveId::Postpone => "Postpone"@,
    }
}


// ------------------------------------------------------------------
// A fresh machine
// ------------------------------------------------------------------

/// The dictionary name of each primitive.
pub open spec fn primitive_name(p: PrimitiveId) -> Seq<char> {
    match p {
        PrimitiveId::Dup => "DUP"@,
        PrimitiveId::Swap => "SWAP"@,
        PrimitiveId::Drop => "DROP"@,
        PrimitiveId::Over => "OVER"@,
        PrimitiveId::Rot => "ROT"@,
        PrimitiveId::Add => "+"@,
        PrimitiveId::Sub => "-"@,
        PrimitiveId::Mul => "*"@,
        PrimitiveId::Div => "/"@,
        PrimitiveId::Mod => "MOD"@,
        PrimitiveId::SlashMod => "/MOD"@,
        PrimitiveId::StarSlashMod => "*/MOD"@,
        PrimitiveId::Eq => "="@,
        PrimitiveId::Lt => "<"@,
        PrimitiveId::Gt => ">"@,
        PrimitiveId::And => "AND"@,
        PrimitiveId::Or => "OR"@,
        PrimitiveId::Xor => "XOR"@,
        PrimitiveId::Invert => "INVERT"@,
        PrimitiveId::LShift => "LSHIFT"@,
        PrimitiveId::RShift => "RSHIFT"@,
        PrimitiveId::CompileComma => "COMPILE,"@,
        PrimitiveId::If => "IF"@,
        PrimitiveId::Else => "ELSE"@,
        PrimitiveId::Then => "THEN"@,
        PrimitiveId::Begin => "BEGIN"@,
        PrimitiveId::Until => "UNTIL"@,
        PrimitiveId::While => "WHILE"@,
        PrimitiveId::Repeat => "REPEAT"@,
        PrimitiveId::Do => "DO"@,
        PrimitiveId::LoopPrim => "LOOP"@,
        PrimitiveId::PlusLoop => "+LOOP"@,
        PrimitiveId::LeavePrim => "LEAVE"@,
        PrimitiveId::LBracket => "["@,
        PrimitiveId::RBracket => "]"@,
        PrimitiveId::Literal => "LITERAL"@,
        PrimitiveId::DoesArrow => "DOES>"@,
        PrimitiveId::Postpone => "POSTPONE"@,
        PrimitiveId::Dot => "."@,
        PrimitiveId::DotS => ".S"@,
        PrimitiveId::Clear => "CLEAR"@,
        PrimitiveId::ToR => ">R"@,
        PrimitiveId::FromR => "R>"@,
        PrimitiveId::RFetch => "R@"@,
        PrimitiveId::Fetch => "@"@,
        PrimitiveId::Store => "!"@,
        PrimitiveId::PlusStore => "+!"@,
        PrimitiveId::Words => "WORDS"@,
        PrimitiveId::Cr => "CR"@,
        PrimitiveId::Emit => "EMIT"@,
        PrimitiveId::Space => "SPACE"@,
        PrimitiveId::I => "I"@,
        PrimitiveId::J => "J"@,
        PrimitiveId::Allot => "ALLOT"@,
        PrimitiveId::Execute => "EXECUTE"@,
        PrimitiveId::Here => "HERE"@,
        PrimitiveId::Comma => ","@,
        PrimitiveId::Latest => "LATEST"@,
        PrimitiveId::Immediate => "IMMEDIATE"@,
        PrimitiveId::Create => "CREATE"@,
    }
}

/// The order in which a fresh machine defines the primitives.
pub open spec fn install_order() -> Seq<PrimitiveId> {
    seq![
        PrimitiveId::Dup,
        PrimitiveId::Swap,
        PrimitiveId::Drop,
        PrimitiveId::Over,
        PrimitiveId::Rot,
        PrimitiveId::Add,
        PrimitiveId::Sub,
        PrimitiveId::Mul,
        PrimitiveId::Div,
        PrimitiveId::Mod,
        PrimitiveId::SlashMod,
        PrimitiveId::StarSlashMod,
        PrimitiveId::Eq,
        PrimitiveId::Lt,
        PrimitiveId::Gt,
        PrimitiveId::And,
        PrimitiveId::Or,
        PrimitiveId::Xor,
        PrimitiveId::Invert,
        PrimitiveId::LShift,
        PrimitiveId::RShift,
        PrimitiveId::CompileComma,
        PrimitiveId::If,
        PrimitiveId::Else,
        PrimitiveId::Then,
        PrimitiveId::Begin,
        PrimitiveId::Until,
        PrimitiveId::While,
        PrimitiveId::Repeat,
        PrimitiveId::Do,
        PrimitiveId::LoopPrim,
        PrimitiveId::PlusLoop,
        PrimitiveId::LeavePrim,
        PrimitiveId::LBracket,
        PrimitiveId::RBracket,
        PrimitiveId::Literal,
        PrimitiveId::DoesArrow,
        PrimitiveId::Postpone,
        PrimitiveId::Dot,
        PrimitiveId::DotS,
        PrimitiveId::Clear,
        PrimitiveId::ToR,
        PrimitiveId::FromR,
        PrimitiveId::RFetch,
        PrimitiveId::Fetch,
        PrimitiveId::Store,
        PrimitiveId::PlusStore,
        PrimitiveId::Words,
        PrimitiveId::Cr,
        PrimitiveId::Emit,
        PrimitiveId::Space,
        PrimitiveId::I,
        PrimitiveId::J,
        PrimitiveId::Allot,
        PrimitiveId::Execute,
        PrimitiveId::Here,
        PrimitiveId::Comma,
        PrimitiveId::Immediate,
        PrimitiveId::Create,
        PrimitiveId::Latest,
    ]
}

/// Defines each primitive of `ps` under its name, in order.
pub open spec fn install(m: MachineV, ps: Seq<PrimitiveId>) -> MachineV
    decreases ps.len(),
{
    if ps.len() == 0 {
        m
    } else {
        define(
            install(m, ps.drop_last()),
            primitive_name(ps.last()),
            WordV::Primitive(ps.last()),
        )
    }
}

/// The words that run while a definition is being compiled.
pub open spec fn immediate_names() -> Seq<Seq<char>> {
    seq![
        "IF"@,
        "ELSE"@,
        "THEN"@,
        "BEGIN"@,
        "UNTIL"@,
        "WHILE"@,
        "REPEAT"@,
        "DO"@,
        "LOOP"@,
        "+LOOP"@,
        "LEAVE"@,
        "["@,
        "LITERAL"@,
        "DOES>"@,
        "POSTPONE"@,
    ]
}

pub open spec fn banner() -> Seq<Seq<char>> {
    seq![
        "Machine created."@,
        "Primitives: DUP SWAP DROP OVER ROT + - * / MOD /MOD */MOD = < > AND OR XOR INVERT LSHIFT RSHIFT . .S CLEAR >R R> R@ @ ! +! WORDS CR EMIT SPACE I J ALLOT EXECUTE HERE , COMPILE, LATEST IMMEDIATE CREATE BASE"@,
        "Compile: : ; :NONAME IF ELSE THEN BEGIN UNTIL WHILE REPEAT DO LOOP +LOOP LEAVE [ ] LITERAL DOES> POSTPONE .\""@,
        "Interactive: SEE <word> | VARIABLE <name> | <val> CONSTANT <name> | ' <word>"@,
    ]
}

/// The machine before any primitive is defined.
pub open spec fn empty_machine() -> MachineV {
    MachineV {
        stack: Seq::empty(),
        return_stack: Seq::empty(),
        memory: Seq::empty(),
        xt_table: Seq::empty(),
        output: banner(),
        output_line: Seq::empty(),
        history: Seq::empty(),
        trace: Seq::empty(),
        dictionary: Map::empty(),
        immediate_words: Set::empty(),
        latest: None,
        compiling: None,
        paused_compile: None,
        next_consumer: None,
        pending_does: None,
        anon_counter: 0,
    }
}

/// `BASE` (holding 10) in the next free cell, then every primitive, and the
/// immediate words. `LATEST` is defined last, so it names itself until a
/// word is defined.
pub open spec fn install_primitives(m: MachineV) -> MachineV {
    let addr = m.memory.len() as i32;
    let m0 = define(MachineV { memory: m.memory.push(10i32), ..m }, "BASE"@, WordV::Variable(addr));
    let m1 = install(m0, install_order());
    MachineV { immediate_words: m1.immediate_words.union(immediate_names().to_set()), ..m1 }
}

/// `Machine::new`: the banner, every primitive, the immediate words, and
/// `BASE` at cell 0 holding 10.
pub open spec fn fresh() -> MachineV {
    install_primitives(empty_machine())
}

// ------------------------------------------------------------------
// The panes
// ------------------------------------------------------------------

pub open spec fn stack_text(m: MachineV) -> Seq<char> {
    join(crate::model::dec_list(m.stack), "\n"@)
}

pub open spec fn output_text(m: MachineV) -> Seq<char> {
    let t = join(m.output, "\n"@);
    if m.output_line.len() > 0 {
        (if t.len() > 0 {
            t + "\n"@
        } else {
            t
        }) + m.output_line
    } else {
        t
    }
}

pub open spec fn history_text(m: MachineV) -> Seq<char> {
    join(m.history, "\n"@)
}

pub open spec fn trace_text(m: MachineV) -> Seq<char> {
    join(m.trace, "\n"@)
}

pub open spec fn dictionary_text(m: MachineV) -> Seq<char> {
    join(crate::order::sorted_list(m.dictionary.dom()), "\n"@)
}

/// One memory cell as the memory pane shows it.
pub open spec fn cell_line(i: int, v: i32) -> Seq<char> {
    "["@ + dec(i) + "] "@ + dec(v as int)
}

pub open spec fn memory_text(m: MachineV) -> Seq<char> {
    join(Seq::new(m.memory.len(), |i: int| cell_line(i, m.memory[i])), "\n"@)
}

} // verus!
