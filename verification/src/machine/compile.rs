//! Compile-time primitives: control structures, `LITERAL`, `DOES>`,
//! `POSTPONE`, `COMPILE,`, `[` and `]`.
use vstd::prelude::*;
use super::Machine;
use crate::text::{chars_of, append_str, text_clone};
use crate::number::fmt_i32;
use crate::model::{op, set_branch0, set_forward, set_leave, patch_leaves, if_step, else_step, then_step, begin_step, until_step, while_step, repeat_step, do_step, close_do_loop, loop_step, leave_step, l_bracket_step, r_bracket_step, literal_step, does_arrow_step, postpone_step, compile_comma_step};
use crate::types::{Op, OpKind, OpV, PendingV, ops_view, lemma_ops_push, nested_view};

verus! {

pub fn lit_op(label: &str, kind: OpKind) -> (o: Op)
    ensures
        o@ == op(label@, kind@),
{
    Op { label: chars_of(label), kind }
}

fn op_set_branch0(o: &Op, t: usize) -> (r: Op)
    ensures
        r@ == set_branch0(o@, t),
{
    let kind = match o.kind {
        OpKind::Branch0(_) => OpKind::Branch0(t),
        _ => crate::types::clone_op_kind(&o.kind),
    };
    Op { label: text_clone(&o.label), kind }
}

fn op_set_forward(o: &Op, t: usize) -> (r: Op)
    ensures
        r@ == set_forward(o@, t),
{
    let kind = match o.kind {
        OpKind::Branch0(_) => OpKind::Branch0(t),
        OpKind::Jump(_) => OpKind::Jump(t),
        _ => crate::types::clone_op_kind(&o.kind),
    };
    Op { label: text_clone(&o.label), kind }
}

fn op_set_leave(o: &Op, t: usize) -> (r: Op)
    ensures
        r@ == set_leave(o@, t),
{
    let kind = match o.kind {
        OpKind::LeaveLoop(_) => OpKind::LeaveLoop(t),
        _ => crate::types::clone_op_kind(&o.kind),
    };
    Op { label: text_clone(&o.label), kind }
}

fn set_op(body: &mut Vec<Op>, i: usize, o: Op)
    requires
        i < old(body).len(),
    ensures
        final(body)@.len() == old(body)@.len(),
        ops_view(final(body)@) == ops_view(old(body)@).update(i as int, o@),
{
    let ghost ov = o@;
    body.set(i, o);
    assert(ops_view(body@) =~= ops_view(old(body)@).update(i as int, ov));
}

fn push_op(body: &mut Vec<Op>, o: Op)
    ensures
        final(body)@.len() == old(body)@.len() + 1,
        ops_view(final(body)@) == ops_view(old(body)@).push(o@),
{
    proof {
        lemma_ops_push(body@, o);
    }
    body.push(o);
}

pub proof fn lemma_patch_leaves_len(body: Seq<OpV>, leaves: Seq<usize>, t: usize)
    ensures
        patch_leaves(body, leaves, t).len() == body.len(),
    decreases leaves.len(),
{
    if leaves.len() > 0 {
        lemma_patch_leaves_len(body, leaves.drop_last(), t);
    }
}

impl Machine {
    pub(crate) fn prim_if(&mut self)
        requires
            old(self).wf(),
        ensures
            final(self).wf(),
            final(self)@ == if_step(old(self)@),
    {
        match self.compiling.take() {
            Some(mut p) => {
                let idx = p.body.len();
                push_op(&mut p.body, lit_op("IF", OpKind::Branch0(0)));
                p.cf_stack.push(idx);
                self.compiling = Some(p);
            },
            None => self.out_lit("IF: not compiling"),
        }
    }

    pub(crate) fn prim_begin(&mut self)
        requires
            old(self).wf(),
        ensures
            final(self).wf(),
            final(self)@ == begin_step(old(self)@),
    {
        match self.compiling.take() {
            Some(mut p) => {
                let idx = p.body.len();
                push_op(&mut p.body, lit_op("BEGIN", OpKind::Noop));
                p.cf_stack.push(idx);
                self.compiling = Some(p);
            },
            None => self.out_lit("BEGIN: not compiling"),
        }
    }

    pub(crate) fn prim_while(&mut self)
        requires
            old(self).wf(),
        ensures
            final(self).wf(),
            final(self)@ == while_step(old(self)@),
    {
        match self.compiling.take() {
            Some(mut p) => {
                let idx = p.body.len();
                push_op(&mut p.body, lit_op("WHILE", OpKind::Branch0(0)));
                p.cf_stack.push(idx);
                self.compiling = Some(p);
            },
            None => self.out_lit("WHILE: not compiling"),
        }
    }

    pub(crate) fn prim_do(&mut self)
        requires
            old(self).wf(),
        ensures
            final(self).wf(),
            final(self)@ == do_step(old(self)@),
    {
        match self.compiling.take() {
            Some(mut p) => {
                let idx = p.body.len();
                push_op(&mut p.body, lit_op("DO", OpKind::LoopEnter));
                p.cf_stack.push(idx);
                let ghost ls = p.leave_stack@;
                p.leave_stack.push(Vec::new());
                assert(nested_view(p.leave_stack@) =~= nested_view(ls).push(Seq::empty()));
                self.compiling = Some(p);
            },
            None => self.out_lit("DO: not compiling"),
        }
    }

    pub(crate) fn prim_else(&mut self)
        requires
            old(self).wf(),
        ensures
            final(self).wf(),
            final(self)@ == else_step(old(self)@),
    {
        match self.compiling.take() {
            Some(mut p) => match p.cf_stack.pop() {
                Some(b) => {
                    let jump_idx = p.body.len();
                    push_op(&mut p.body, lit_op("ELSE", OpKind::Jump(0)));
                    let target = p.body.len();
                    let patched = op_set_branch0(&p.body[b], target);
                    set_op(&mut p.body, b, patched);
                    p.cf_stack.push(jump_idx);
                    self.compiling = Some(p);
                },
                None => {
                    self.compiling = Some(p);
                    self.out_lit("ELSE: not in IF");
                },
            },
            None => self.out_lit("ELSE: not compiling"),
        }
    }

    pub(crate) fn prim_then(&mut self)
        requires
            old(self).wf(),
        ensures
            final(self).wf(),
            final(self)@ == then_step(old(self)@),
    {
        match self.compiling.take() {
            Some(mut p) => match p.cf_stack.pop() {
                Some(i) => {
                    assert(old(self)@.compiling->0.cf_stack.last() == i);
                    assert(i < old(self)@.compiling->0.body.len());
                    let target = p.body.len();
                    push_op(&mut p.body, lit_op("THEN", OpKind::Noop));
                    let patched = op_set_forward(&p.body[i], target);
                    set_op(&mut p.body, i, patched);
                    self.compiling = Some(p);
                },
                None => {
                    self.compiling = Some(p);
                    self.out_lit("THEN: not in IF/ELSE");
                },
            },
            None => self.out_lit("THEN: not compiling"),
        }
    }

    pub(crate) fn prim_until(&mut self)
        requires
            old(self).wf(),
        ensures
            final(self).wf(),
            final(self)@ == until_step(old(self)@),
    {
        match self.compiling.take() {
            Some(mut p) => match p.cf_stack.pop() {
                Some(target) => {
                    push_op(&mut p.body, lit_op("UNTIL", OpKind::Branch0(target)));
                    self.compiling = Some(p);
                },
                None => {
                    self.compiling = Some(p);
                    self.out_lit("UNTIL: not in BEGIN");
                },
            },
            None => self.out_lit("UNTIL: not compiling"),
        }
    }

    pub(crate) fn prim_repeat(&mut self)
        requires
            old(self).wf(),
        ensures
            final(self).wf(),
            final(self)@ == repeat_step(old(self)@),
    {
        match self.compiling.take() {
            Some(mut p) => match p.cf_stack.pop() {
                Some(w) => match p.cf_stack.pop() {
                    Some(b) => {
                        let ghost cf = old(self)@.compiling->0.cf_stack;
                        assert(cf.last() == w);
                        assert(w < old(self)@.compiling->0.body.len());
                        assert(cf[cf.len() - 2] == b);
                        assert(cf.drop_last().drop_last() =~= p.cf_stack@);
                        push_op(&mut p.body, lit_op("REPEAT", OpKind::Jump(b)));
                        let target = p.body.len();
                        let patched = op_set_branch0(&p.body[w], target);
                        set_op(&mut p.body, w, patched);
                        self.compiling = Some(p);
                    },
                    None => {
                        p.cf_stack.push(w);
                        assert(p.cf_stack@ =~= old(self)@.compiling->0.cf_stack);
                        self.compiling = Some(p);
                        self.out_lit("REPEAT: not in BEGIN");
                    },
                },
                None => {
                    self.compiling = Some(p);
                    self.out_lit("REPEAT: not in WHILE");
                },
            },
            None => self.out_lit("REPEAT: not compiling"),
        }
    }

    fn close_do_loop(&mut self, label: &str, plus: bool)
        requires
            old(self).wf(),
            old(self)@.compiling is Some,
        ensures
            final(self).wf(),
            final(self)@ == close_do_loop(old(self)@, label@, plus),
    {
        let mut p = self.compiling.take().unwrap();
        match p.cf_stack.pop() {
            Some(idx_do) => {
                let ghost pv = old(self)@.compiling->0;
                assert(pv.cf_stack.last() == idx_do);
                assert(idx_do < pv.body.len());
                let ghost ls = nested_view(p.leave_stack@);
                let leaves = match p.leave_stack.pop() {
                    Some(l) => l,
                    None => Vec::new(),
                };
                proof {
                    if ls.len() > 0 {
                        assert(nested_view(p.leave_stack@) =~= ls.drop_last());
                        assert(leaves@ == ls.last());
                    } else {
                        assert(leaves@ =~= Seq::<usize>::empty());
                    }
                }
                let blen = p.body.len();
                assert(ops_view(p.body@).len() == p.body@.len());
                assert(idx_do < blen);
                let target = idx_do + 1;
                let kind = if plus {
                    OpKind::LoopNextStep(target)
                } else {
                    OpKind::LoopNext(target)
                };
                push_op(&mut p.body, Op { label: chars_of(label), kind });
                let after = p.body.len();
                let ghost body1 = ops_view(p.body@);
                let ghost pre = p@;
                assert forall|j: int| 0 <= j < leaves@.len() implies #[trigger] leaves@[j]
                    < after by {
                    if ls.len() > 0 {
                        assert(pv.leave_stack[ls.len() - 1][j] < pv.body.len());
                    }
                }
                let mut k: usize = 0;
                while k < leaves.len()
                    invariant
                        k <= leaves.len(),
                        after == body1.len(),
                        ops_view(p.body@) == patch_leaves(body1, leaves@.take(k as int), after),
                        p@ == (PendingV { body: ops_view(p.body@), ..pre }),
                        p.body@.len() == after,
                        forall|j: int| 0 <= j < leaves@.len() ==> #[trigger] leaves@[j] < after,
                    decreases leaves.len() - k,
                {
                    proof {
                        lemma_patch_leaves_len(body1, leaves@.take(k as int), after);
                        assert(leaves@.take(k + 1).drop_last() =~= leaves@.take(k as int));
                    }
                    let li = leaves[k];
                    let patched = op_set_leave(&p.body[li], after);
                    set_op(&mut p.body, li, patched);
                    k += 1;
                }
                assert(leaves@.take(k as int) =~= leaves@);
                proof {
                    lemma_patch_leaves_len(body1, leaves@, after);
                    let np = p@;
                    assert(np.body.len() == after);
                    assert forall|i: int| 0 <= i < np.cf_stack.len() implies #[trigger] np.cf_stack[i]
                        < np.body.len() by {
                        assert(np.cf_stack[i] == pv.cf_stack[i]);
                    }
                    assert forall|i: int, j: int|
                        0 <= i < np.leave_stack.len() && 0 <= j < np.leave_stack[i].len()
                        implies #[trigger] np.leave_stack[i][j] < np.body.len() by {
                        assert(np.leave_stack[i] == pv.leave_stack[i]);
                        assert(pv.leave_stack[i][j] < pv.body.len());
                    }
                }
                self.compiling = Some(p);
            },
            None => {
                self.compiling = Some(p);
                let mut msg = chars_of("compile: ");
                append_str(&mut msg, label);
                append_str(&mut msg, " without DO");
                self.out_text(msg);
            },
        }
    }

    pub(crate) fn prim_loop(&mut self, plus: bool)
        requires
            old(self).wf(),
        ensures
            final(self).wf(),
            final(self)@ == loop_step(old(self)@, plus),
    {
        if self.compiling.is_none() {
            if plus {
                self.out_lit("+LOOP: not compiling");
            } else {
                self.out_lit("LOOP: not compiling");
            }
            return;
        }
        if plus {
            self.close_do_loop("+LOOP", true);
        } else {
            self.close_do_loop("LOOP", false);
        }
    }

    pub(crate) fn prim_leave(&mut self)
        requires
            old(self).wf(),
        ensures
            final(self).wf(),
            final(self)@ == leave_step(old(self)@),
    {
        match self.compiling.take() {
            Some(mut p) => {
                if p.leave_stack.len() == 0 {
                    self.compiling = Some(p);
                    self.out_lit("LEAVE: not in DO");
                    return;
                }
                let idx = p.body.len();
                push_op(&mut p.body, lit_op("LEAVE", OpKind::LeaveLoop(0)));
                let ghost ls = nested_view(p.leave_stack@);
                let mut last = p.leave_stack.pop().unwrap();
                last.push(idx);
                p.leave_stack.push(last);
                assert(nested_view(p.leave_stack@) =~= ls.update(
                    ls.len() - 1,
                    ls[ls.len() - 1].push(idx),
                ));
                self.compiling = Some(p);
            },
            None => self.out_lit("LEAVE: not compiling"),
        }
    }

    pub(crate) fn prim_l_bracket(&mut self)
        requires
            old(self).wf(),
        ensures
            final(self).wf(),
            final(self)@ == l_bracket_step(old(self)@),
    {
        self.paused_compile = self.compiling.take();
    }

    pub(crate) fn prim_r_bracket(&mut self)
        requires
            old(self).wf(),
        ensures
            final(self).wf(),
            final(self)@ == r_bracket_step(old(self)@),
    {
        match self.paused_compile.take() {
            Some(p) => self.compiling = Some(p),
            None => self.out_lit("]: not paused"),
        }
    }

    pub(crate) fn prim_literal(&mut self)
        requires
            old(self).wf(),
        ensures
            final(self).wf(),
            final(self)@ == literal_step(old(self)@),
    {
        if self.compiling.is_none() {
            self.out_lit("LITERAL: not compiling");
            return;
        }
        match self.pop_int() {
            Some(n) => {
                let o = Op { label: fmt_i32(n), kind: OpKind::PushInt(n) };
                self.compile_push(o);
            },
            None => self.out_lit("LITERAL: stack empty"),
        }
    }

    pub(crate) fn prim_does_arrow(&mut self)
        requires
            old(self).wf(),
        ensures
            final(self).wf(),
            final(self)@ == does_arrow_step(old(self)@),
    {
        if self.compiling.is_none() {
            self.out_lit("DOES>: not compiling");
            return;
        }
        self.compile_push(lit_op("DOES>", OpKind::Does));
    }

    pub(crate) fn prim_postpone(&mut self)
        requires
            old(self).wf(),
        ensures
            final(self).wf(),
            final(self)@ == postpone_step(old(self)@),
    {
        match self.compiling.take() {
            Some(mut p) => {
                p.pending_postpone = true;
                self.compiling = Some(p);
            },
            None => self.out_lit("POSTPONE: not compiling"),
        }
    }

    pub(crate) fn prim_compile_comma(&mut self)
        requires
            old(self).wf(),
        ensures
            final(self).wf(),
            final(self)@ == compile_comma_step(old(self)@),
    {
        let xt = match self.pop_int() {
            Some(n) => n,
            None => {
                self.out_lit("COMPILE,: stack empty");
                return;
            },
        };
        if xt < 0 || xt as usize >= self.xt_table.len() {
            let t = fmt_i32(xt);
            self.out_lit_text("COMPILE,: bad xt ", &t);
            return;
        }
        let idx = xt as usize;
        let name = text_clone(&self.xt_table[idx]);
        if self.compiling.is_some() {
            let label = text_clone(&name);
            self.compile_push(Op { label, kind: OpKind::CallByName(name) });
        } else {
            self.out_lit("COMPILE,: not compiling");
        }
    }
}

} // verus!
