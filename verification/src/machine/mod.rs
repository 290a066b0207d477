//! The executable engine.
use vstd::prelude::*;
use crate::text::{texts, chars_of, lemma_texts_push, text_clone, append, join, join_texts};
use crate::dict::{Dict, name_set};
use crate::model::{
    MachineV, out, push, pop, emit_trace, trace_line, dec_list, fmt_list, current_base, addr_ok,
    define, intern, compile_op, flush_line,
};
use crate::number::fmt_int;
use crate::dict::intern as intern_name;
use crate::types::{Pending, PendingV, Op, Word, NextTokenConsumer, ops_view, lemma_ops_push};

mod prims;
mod compile;
mod vm;
mod dispatch;
mod api;

verus! {

/// A Forth machine: stacks, cell memory, the dictionary, the compiler's
/// state, and the logs that the panes show (output, history, trace).
pub struct Machine {
    stack: Vec<i32>,
    return_stack: Vec<i32>,
    memory: Vec<i32>,
    xt_table: Vec<Vec<char>>,
    output: Vec<Vec<char>>,
    output_line: Vec<char>,
    history: Vec<Vec<char>>,
    trace: Vec<Vec<char>>,
    dictionary: Dict,
    immediate_words: Vec<Vec<char>>,
    latest: Option<Vec<char>>,
    compiling: Option<Pending>,
    paused_compile: Option<Pending>,
    next_consumer: Option<NextTokenConsumer>,
    pending_does: Option<Vec<Op>>,
    anon_counter: u32,
}

pub open spec fn opt_pending(p: Option<Pending>) -> Option<PendingV> {
    match p {
        Some(x) => Some(x@),
        None => None,
    }
}

pub open spec fn opt_ops(p: Option<Vec<Op>>) -> Option<Seq<crate::types::OpV>> {
    match p {
        Some(x) => Some(ops_view(x@)),
        None => None,
    }
}

impl View for Machine {
    type V = MachineV;

    closed spec fn view(&self) -> MachineV {
        MachineV {
            stack: self.stack@,
            return_stack: self.return_stack@,
            memory: self.memory@,
            xt_table: texts(self.xt_table@),
            output: texts(self.output@),
            output_line: self.output_line@,
            history: texts(self.history@),
            trace: texts(self.trace@),
            dictionary: self.dictionary@,
            immediate_words: name_set(self.immediate_words@),
            latest: crate::types::opt_text(self.latest),
            compiling: opt_pending(self.compiling),
            paused_compile: opt_pending(self.paused_compile),
            next_consumer: self.next_consumer,
            pending_does: opt_ops(self.pending_does),
            anon_counter: self.anon_counter,
        }
    }
}


pub open spec fn pending_ok(p: Option<Pending>) -> bool {
    match p {
        Some(x) => x@.wf(),
        None => true,
    }
}

/// Texts of a list of integers, each in `base`.
pub fn join_ints(v: &Vec<i32>, base: u32, sep: &str) -> (r: Vec<char>)
    ensures
        r@ == join(fmt_list(v@, base), sep@),
{
    let mut items: Vec<Vec<char>> = Vec::new();
    let mut i: usize = 0;
    while i < v.len()
        invariant
            i <= v.len(),
            texts(items@) == fmt_list(v@.take(i as int), base),
        decreases v.len() - i,
    {
        let t = fmt_int(v[i], base);
        proof {
            lemma_texts_push(items@, t);
        }
        items.push(t);
        i += 1;
        assert(texts(items@) =~= fmt_list(v@.take(i as int), base));
    }
    assert(v@.take(i as int) =~= v@);
    join_texts(&items, sep)
}

pub proof fn lemma_dec_list(s: Seq<i32>)
    ensures
        dec_list(s) == fmt_list(s, 10),
{
    assert(dec_list(s) =~= fmt_list(s, 10));
}

impl Machine {
    /// The dictionary of a machine is finite.
    pub proof fn lemma_dictionary_finite(&self)
        requires
            self.wf(),
        ensures
            self@.dictionary.dom().finite(),
    {
        self.dictionary.lemma_dom();
    }

    pub closed spec fn wf(&self) -> bool {
        &&& self.dictionary.wf()
        &&& pending_ok(self.compiling)
        &&& pending_ok(self.paused_compile)
    }

    pub(crate) fn out_text(&mut self, msg: Vec<char>)
        requires
            old(self).wf(),
        ensures
            final(self).wf(),
            final(self)@ == out(old(self)@, msg@),
    {
        proof {
            lemma_texts_push(self.output@, msg);
        }
        self.output.push(msg);
    }

    pub(crate) fn out_lit(&mut self, s: &str)
        requires
            old(self).wf(),
        ensures
            final(self).wf(),
            final(self)@ == out(old(self)@, s@),
    {
        let t = chars_of(s);
        self.out_text(t);
    }

    /// Outputs `s` followed by `t`.
    pub(crate) fn out_lit_text(&mut self, s: &str, t: &Vec<char>)
        requires
            old(self).wf(),
        ensures
            final(self).wf(),
            final(self)@ == out(old(self)@, s@ + t@),
    {
        let mut m = chars_of(s);
        append(&mut m, t);
        self.out_text(m);
    }

    pub(crate) fn push_int(&mut self, v: i32)
        requires
            old(self).wf(),
        ensures
            final(self).wf(),
            final(self)@ == push(old(self)@, v),
    {
        self.stack.push(v);
    }

    pub(crate) fn pop_int(&mut self) -> (r: Option<i32>)
        requires
            old(self).wf(),
        ensures
            final(self).wf(),
            (r, final(self)@) == pop(old(self)@),
    {
        self.stack.pop()
    }

    pub(crate) fn emit_trace(&mut self, token: &Vec<char>)
        requires
            old(self).wf(),
        ensures
            final(self).wf(),
            final(self)@ == emit_trace(old(self)@, token@),
    {
        let mut line = if self.compiling.is_some() {
            chars_of("C")
        } else {
            chars_of("I")
        };
        let sp = chars_of(" ");
        append(&mut line, &sp);
        append(&mut line, token);
        let open = chars_of(" | [");
        append(&mut line, &open);
        let st = join_ints(&self.stack, 10, " ");
        proof {
            lemma_dec_list(self.stack@);
        }
        append(&mut line, &st);
        let close = chars_of("]");
        append(&mut line, &close);
        assert(line@ == trace_line(self@, token@));
        proof {
            lemma_texts_push(self.trace@, line);
        }
        self.trace.push(line);
    }

    pub(crate) fn flush_output_line(&mut self)
        requires
            old(self).wf(),
        ensures
            final(self).wf(),
            final(self)@ == flush_line(old(self)@),
    {
        if self.output_line.len() > 0 {
            let line = text_clone(&self.output_line);
            self.output_line = Vec::new();
            self.out_text(line);
        }
    }

    pub(crate) fn current_base(&self) -> (b: u32)
        ensures
            b == current_base(self@),
    {
        if self.memory.len() > 0 && 2 <= self.memory[0] && self.memory[0] <= 36 {
            self.memory[0] as u32
        } else {
            10
        }
    }

    pub(crate) fn addr_to_index(&self, addr: i32) -> (r: Option<usize>)
        ensures
            match r {
                Some(i) => addr_ok(self@, addr) && i == addr,
                None => !addr_ok(self@, addr),
            },
    {
        if addr < 0 {
            return None;
        }
        let idx = addr as usize;
        if idx >= self.memory.len() {
            return None;
        }
        Some(idx)
    }

    pub(crate) fn define_word(&mut self, name: Vec<char>, word: Word)
        requires
            old(self).wf(),
        ensures
            final(self).wf(),
            final(self)@ == define(old(self)@, name@, word@),
    {
        let latest = text_clone(&name);
        self.dictionary.insert(name, word);
        self.latest = Some(latest);
    }

    pub(crate) fn intern_xt(&mut self, name: &Vec<char>) -> (xt: i32)
        requires
            old(self).wf(),
        ensures
            final(self).wf(),
            (xt, final(self)@) == intern(old(self)@, name@),
    {
        intern_name(&mut self.xt_table, name)
    }

    /// Appends an op to the definition being compiled.
    pub(crate) fn compile_push(&mut self, o: Op)
        requires
            old(self).wf(),
            old(self)@.compiling is Some,
        ensures
            final(self).wf(),
            final(self)@ == compile_op(old(self)@, o@),
    {
        let mut p = self.compiling.take().unwrap();
        proof {
            lemma_ops_push(p.body@, o);
        }
        p.body.push(o);
        self.compiling = Some(p);
    }
}

} // verus!
