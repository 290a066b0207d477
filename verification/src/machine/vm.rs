//! Running words: the VM over frames of compiled ops, `EXECUTE`, and the
//! dispatch of primitives.
use vstd::prelude::*;
use super::Machine;
use crate::text::{chars_of, append, append_str, text_clone};
use crate::number::fmt_i32;
use crate::model::{prim_step};
use crate::semantics::{vm, exec_op, run_word, execute_primitive, execute_xt, set_pc, frame};
use crate::dict::names_contain;
use crate::types::{Op, OpKind, Word, Frame, PrimitiveId, frames_view, clone_op, clone_ops_from, ops_view};

verus! {

fn set_top_pc(frames: &mut Vec<Frame>, t: usize)
    requires
        old(frames).len() > 0,
    ensures
        final(frames).len() == old(frames).len(),
        frames_view(final(frames)@) == set_pc(frames_view(old(frames)@), t),
{
    let mut f = frames.pop().unwrap();
    f.pc = t;
    let ghost fv = f@;
    frames.push(f);
    assert(frames_view(frames@) =~= set_pc(frames_view(old(frames)@), t));
}

fn push_frame(frames: &mut Vec<Frame>, f: Frame)
    ensures
        final(frames).len() == old(frames).len() + 1,
        frames_view(final(frames)@) == frames_view(old(frames)@).push(f@),
{
    let ghost fv = f@;
    frames.push(f);
    assert(frames_view(frames@) =~= frames_view(old(frames)@).push(fv));
}

impl Machine {
    /// Every primitive but `EXECUTE`.
    pub(crate) fn prim_basic(&mut self, p: PrimitiveId)
        requires
            old(self).wf(),
            p != PrimitiveId::Execute,
        ensures
            final(self).wf(),
            final(self)@ == prim_step(old(self)@, p),
    {
        match p {
            PrimitiveId::Add | PrimitiveId::Sub | PrimitiveId::Mul | PrimitiveId::Eq
            | PrimitiveId::Lt | PrimitiveId::Gt | PrimitiveId::And | PrimitiveId::Or
            | PrimitiveId::Xor | PrimitiveId::LShift | PrimitiveId::RShift => self.prim_binary(p),
            PrimitiveId::Dup => self.prim_dup(),
            PrimitiveId::Swap => self.prim_swap(),
            PrimitiveId::Drop => self.prim_drop(),
            PrimitiveId::Over => self.prim_over(),
            PrimitiveId::Rot => self.prim_rot(),
            PrimitiveId::Div => self.prim_div(),
            PrimitiveId::Mod => self.prim_mod(),
            PrimitiveId::SlashMod => self.prim_slash_mod(),
            PrimitiveId::StarSlashMod => self.prim_star_slash_mod(),
            PrimitiveId::Invert => self.prim_invert(),
            PrimitiveId::CompileComma => self.prim_compile_comma(),
            PrimitiveId::Dot => self.prim_dot(),
            PrimitiveId::DotS => self.prim_dot_s(),
            PrimitiveId::Clear => self.prim_clear(),
            PrimitiveId::ToR => self.prim_to_r(),
            PrimitiveId::FromR => self.prim_r_from(),
            PrimitiveId::RFetch => self.prim_r_top("R@: return stack empty"),
            PrimitiveId::Fetch => self.prim_fetch(),
            PrimitiveId::Store => self.prim_store(),
            PrimitiveId::PlusStore => self.prim_plus_store(),
            PrimitiveId::Words => self.prim_words(),
            PrimitiveId::Cr => self.prim_cr(),
            PrimitiveId::Emit => self.prim_emit(),
            PrimitiveId::Space => self.prim_space(),
            PrimitiveId::I => self.prim_r_top("I: return stack empty"),
            PrimitiveId::J => self.prim_j(),
            PrimitiveId::Allot => self.prim_allot(),
            PrimitiveId::Here => self.prim_here(),
            PrimitiveId::Comma => self.prim_comma(),
            PrimitiveId::Latest => self.prim_latest(),
            PrimitiveId::Immediate => self.prim_immediate(),
            PrimitiveId::Create => self.prim_create(),
            PrimitiveId::If => self.prim_if(),
            PrimitiveId::Else => self.prim_else(),
            PrimitiveId::Then => self.prim_then(),
            PrimitiveId::Begin => self.prim_begin(),
            PrimitiveId::Until => self.prim_until(),
            PrimitiveId::While => self.prim_while(),
            PrimitiveId::Repeat => self.prim_repeat(),
            PrimitiveId::Do => self.prim_do(),
            PrimitiveId::LoopPrim => self.prim_loop(false),
            PrimitiveId::PlusLoop => self.prim_loop(true),
            PrimitiveId::LeavePrim => self.prim_leave(),
            PrimitiveId::LBracket => self.prim_l_bracket(),
            PrimitiveId::RBracket => self.prim_r_bracket(),
            PrimitiveId::Literal => self.prim_literal(),
            PrimitiveId::DoesArrow => self.prim_does_arrow(),
            PrimitiveId::Postpone => self.prim_postpone(),
            PrimitiveId::Execute => {},
        }
    }

    pub(crate) fn execute_primitive(&mut self, p: PrimitiveId, fuel: &mut u64)
        requires
            old(self).wf(),
        ensures
            final(self).wf(),
            *final(fuel) <= *old(fuel),
            (final(self)@, *final(fuel) as nat) == execute_primitive(
                old(self)@,
                p,
                *old(fuel) as nat,
            ),
        decreases *old(fuel), old(self)@.stack.len(), 2nat,
    {
        if p == PrimitiveId::Execute {
            self.execute_xt(fuel);
        } else {
            self.prim_basic(p);
        }
    }

    fn execute_xt(&mut self, fuel: &mut u64)
        requires
            old(self).wf(),
        ensures
            final(self).wf(),
            *final(fuel) <= *old(fuel),
            (final(self)@, *final(fuel) as nat) == execute_xt(old(self)@, *old(fuel) as nat),
        decreases *old(fuel), old(self)@.stack.len(), 1nat,
    {
        let xt = match self.pop_int() {
            Some(n) => n,
            None => {
                self.out_lit("EXECUTE: stack empty");
                return;
            },
        };
        if xt < 0 || xt as usize >= self.xt_table.len() {
            let t = fmt_i32(xt);
            self.out_lit_text("EXECUTE: bad xt ", &t);
            return;
        }
        let name = text_clone(&self.xt_table[xt as usize]);
        match self.dictionary.get(&name) {
            Some(w) => self.run_word(w, fuel),
            None => {
                let mut msg = chars_of("EXECUTE: word ");
                append(&mut msg, &name);
                append_str(&mut msg, " no longer defined");
                self.out_text(msg);
            },
        }
    }

    /// Runs a dictionary word.
    pub(crate) fn run_word(&mut self, w: Word, fuel: &mut u64)
        requires
            old(self).wf(),
        ensures
            final(self).wf(),
            *final(fuel) <= *old(fuel),
            (final(self)@, *final(fuel) as nat) == run_word(old(self)@, w@, *old(fuel) as nat),
        decreases *old(fuel), old(self)@.stack.len(), 3nat,
    {
        match w {
            Word::Primitive(p) => self.execute_primitive(p, fuel),
            Word::User(ops) => {
                let f = Frame { ops, pc: 0, return_label: None };
                let frames = vec![f];
                assert(frames_view(frames@) =~= seq![frame(ops_view(ops@), None)]);
                self.run_frames(frames, fuel);
            },
            Word::Variable(a) => self.push_int(a),
            Word::Constant(v) => self.push_int(v),
            Word::Created { data_addr, does_ops } => {
                self.push_int(data_addr);
                match does_ops {
                    Some(ops) => {
                        let f = Frame { ops, pc: 0, return_label: None };
                        let frames = vec![f];
                        assert(frames_view(frames@) =~= seq![frame(ops_view(ops@), None)]);
                        self.run_frames(frames, fuel);
                    },
                    None => {},
                }
            },
        }
    }

    /// The VM loop: runs frames until none is left or the steps run out.
    #[verifier::rlimit(30)]
    fn run_frames(&mut self, start: Vec<Frame>, fuel: &mut u64)
        requires
            old(self).wf(),
        ensures
            final(self).wf(),
            *final(fuel) <= *old(fuel),
            (final(self)@, *final(fuel) as nat) == vm(
                old(self)@,
                frames_view(start@),
                *old(fuel) as nat,
            ),
        decreases *old(fuel), 0nat, 0nat,
    {
        let mut frames = start;
        let ghost init = frames_view(frames@);
        while frames.len() > 0 && *fuel > 0
            invariant
                self.wf(),
                *fuel <= *old(fuel),
                vm(self@, frames_view(frames@), *fuel as nat) == vm(
                    old(self)@,
                    init,
                    *old(fuel) as nat,
                ),
            decreases *fuel,
        {
            let n = frames.len();
            let ghost fv = frames_view(frames@);
            let ghost m0 = self@;
            let ghost f0 = *fuel as nat;
            if frames[n - 1].pc >= frames[n - 1].ops.len() {
                let f = frames.pop().unwrap();
                assert(frames_view(frames@) =~= fv.drop_last());
                *fuel = *fuel - 1;
                match f.return_label {
                    Some(l) => self.emit_trace(&l),
                    None => {},
                }
            } else {
                let pc = frames[n - 1].pc;
                assert(fv.last().ops.len() == frames@[n - 1].ops@.len());
                let o = clone_op(&frames[n - 1].ops[pc]);
                set_top_pc(&mut frames, pc + 1);
                *fuel = *fuel - 1;
                self.exec_op(&o, &mut frames, fuel);
            }
        }
    }

    /// Runs one compiled op.
    #[verifier::rlimit(30)]
    fn exec_op(&mut self, o: &Op, frames: &mut Vec<Frame>, fuel: &mut u64)
        requires
            old(self).wf(),
            old(frames).len() > 0,
            frames_view(old(frames)@).last().pc <= frames_view(old(frames)@).last().ops.len(),
        ensures
            final(self).wf(),
            *final(fuel) <= *old(fuel),
            (final(self)@, frames_view(final(frames)@), *final(fuel) as nat) == exec_op(
                old(self)@,
                o@,
                frames_view(old(frames)@),
                *old(fuel) as nat,
            ),
        decreases *old(fuel), old(self)@.stack.len(), 4nat,
    {
        let label = &o.label;
        match &o.kind {
            OpKind::PushInt(n) => {
                self.push_int(*n);
                self.emit_trace(label);
            },
            OpKind::CallPrim(p) => {
                self.execute_primitive(*p, fuel);
                self.emit_trace(label);
            },
            OpKind::CallByName(name) => match self.dictionary.get(name) {
                Some(Word::Primitive(p)) => {
                    self.execute_primitive(p, fuel);
                    self.emit_trace(label);
                },
                Some(Word::User(inner)) => {
                    push_frame(frames, Frame { ops: inner, pc: 0, return_label: Some(text_clone(label)) });
                },
                Some(Word::Variable(a)) => {
                    self.push_int(a);
                    self.emit_trace(label);
                },
                Some(Word::Constant(v)) => {
                    self.push_int(v);
                    self.emit_trace(label);
                },
                Some(Word::Created { data_addr, does_ops }) => {
                    self.push_int(data_addr);
                    self.emit_trace(label);
                    match does_ops {
                        Some(inner) => push_frame(frames, Frame { ops: inner, pc: 0, return_label: None }),
                        None => {},
                    }
                },
                None => {
                    self.out_lit_text("unknown token: ", name);
                    self.emit_trace(label);
                },
            },
            OpKind::Branch0(t) => {
                let flag = self.pop_int();
                match flag {
                    Some(0) => set_top_pc(frames, *t),
                    None => self.out_lit("IF: stack empty"),
                    _ => {},
                }
                self.emit_trace(label);
            },
            OpKind::Jump(t) => {
                set_top_pc(frames, *t);
                self.emit_trace(label);
            },
            OpKind::Noop => {
                self.emit_trace(label);
            },
            OpKind::LoopEnter => {
                let start = self.pop_int();
                let limit = self.pop_int();
                match (limit, start) {
                    (Some(l), Some(s)) => {
                        self.return_stack.push(l);
                        self.return_stack.push(s);
                    },
                    _ => self.out_lit("DO: need limit and start"),
                }
                self.emit_trace(label);
            },
            OpKind::LoopNext(t) => {
                let len = self.return_stack.len();
                if len < 2 {
                    self.out_lit("LOOP: return stack underflow");
                    self.emit_trace(label);
                    return;
                }
                let limit = self.return_stack[len - 2];
                let ni = self.return_stack[len - 1].wrapping_add(1);
                if ni < limit {
                    self.return_stack.set(len - 1, ni);
                    set_top_pc(frames, *t);
                } else {
                    self.return_stack.pop();
                    self.return_stack.pop();
                }
                self.emit_trace(label);
            },
            OpKind::LoopNextStep(t) => {
                let step = match self.pop_int() {
                    Some(n) => n,
                    None => {
                        self.out_lit("+LOOP: stack empty");
                        self.emit_trace(label);
                        return;
                    },
                };
                let len = self.return_stack.len();
                if len < 2 {
                    self.out_lit("+LOOP: return stack underflow");
                    self.emit_trace(label);
                    return;
                }
                let limit = self.return_stack[len - 2];
                let ni = self.return_stack[len - 1].wrapping_add(step);
                let exit = if step >= 0 {
                    ni >= limit
                } else {
                    ni < limit
                };
                if exit {
                    self.return_stack.pop();
                    self.return_stack.pop();
                } else {
                    self.return_stack.set(len - 1, ni);
                    set_top_pc(frames, *t);
                }
                self.emit_trace(label);
            },
            OpKind::LeaveLoop(t) => {
                if self.return_stack.len() >= 2 {
                    self.return_stack.pop();
                    self.return_stack.pop();
                }
                set_top_pc(frames, *t);
                self.emit_trace(label);
            },
            OpKind::Does => {
                let n = frames.len();
                let pc = frames[n - 1].pc;
                assert(frames_view(frames@).last().ops.len() == frames@[n - 1].ops@.len());
                let rest = clone_ops_from(&frames[n - 1].ops, pc);
                let end = frames[n - 1].ops.len();
                set_top_pc(frames, end);
                self.pending_does = Some(rest);
                self.emit_trace(label);
            },
            OpKind::PostponeCall(name) => {
                if self.compiling.is_none() {
                    self.out_lit_text("POSTPONE: not compiling, cannot postpone ", name);
                    self.emit_trace(label);
                    return;
                }
                if names_contain(&self.immediate_words, name) {
                    match self.dictionary.get(name) {
                        Some(w) => self.run_word(w, fuel),
                        None => {
                            let mut msg = chars_of("POSTPONE: word ");
                            append(&mut msg, name);
                            append_str(&mut msg, " no longer defined");
                            self.out_text(msg);
                        },
                    }
                } else {
                    self.compile_push(Op { label: text_clone(name), kind: OpKind::CallByName(text_clone(name)) });
                }
                self.emit_trace(label);
            },
            OpKind::PrintStr(s) => {
                append(&mut self.output_line, s);
                self.emit_trace(label);
            },
        }
    }
}

} // verus!
