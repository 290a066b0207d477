//! Primitives on the stacks, memory and output.
use vstd::prelude::*;
use super::{Machine, join_ints};
use crate::text::{chars_of, append, append_str, join_texts};
use crate::number::{fmt_int, fmt_i32, fmt_count};
use crate::model::{
    MachineV, is_binary, binary_result, binary_error, binary_step, div_step, mod_step,
    slash_mod_step, star_slash_mod_step, dup_step, swap_step, drop_step, over_step, rot_step,
    invert_step, dot_step, dot_s_step, clear_step, to_r_step, r_from_step, r_top_step, j_step,
    fetch_step, store_step, plus_store_step, words_step, cr_step, emit_char, emit_step, is_scalar,
    allot_step, here_step, comma_step, latest_step, immediate_step, create_step,
};
use crate::dict::names_insert;
use crate::types::{PrimitiveId, NextTokenConsumer};

verus! {

/// `char::from_u32`: the character whose code is `u` when `u` is a Unicode
/// scalar value (at most 0x10FFFF and no surrogate), `None` otherwise.
#[verifier::external_body]
fn char_from_u32(u: u32) -> (r: Option<char>)
    ensures
        r == (if is_scalar(u) {
            Some(u as char)
        } else {
            None
        }),
{
    char::from_u32(u)
}

/// The product of two cells is exact in 64 bits.
proof fn lemma_wide_product(a: i32, b: i32)
    ensures
        -0x4000_0000_0000_0000 <= a * b <= 0x4000_0000_0000_0000,
{
    assert(-0x4000_0000_0000_0000 <= a * b <= 0x4000_0000_0000_0000) by (nonlinear_arith)
        requires
            -0x8000_0000 <= a <= 0x7fff_ffff,
            -0x8000_0000 <= b <= 0x7fff_ffff,
    ;
}

/// A remainder by a cell-sized divisor fits in a cell.
proof fn lemma_rem_within_divisor(p: i64, c: i64)
    requires
        i32::MIN <= c <= i32::MAX,
    ensures
        match p.checked_rem(c) {
            Some(r) => i32::MIN <= r <= i32::MAX,
            None => true,
        },
{
    if c > 0 {
        vstd::arithmetic::div_mod::lemma_mod_bound(p as int, c as int);
        vstd::arithmetic::div_mod::lemma_mod_bound(-(p as int), c as int);
    } else if c < 0 {
        vstd::arithmetic::div_mod::lemma_mod_bound(p as int, -(c as int));
        vstd::arithmetic::div_mod::lemma_mod_bound(-(p as int), -(c as int));
    }
}

fn binary_error_text(p: PrimitiveId) -> (t: Vec<char>)
    requires
        is_binary(p),
    ensures
        t@ == binary_error(p),
{
    match p {
        PrimitiveId::Add => chars_of("+: need two ints"),
        PrimitiveId::Sub => chars_of("-: need two ints"),
        PrimitiveId::Mul => chars_of("*: need two ints"),
        PrimitiveId::Eq => chars_of("=: need two ints"),
        PrimitiveId::Lt => chars_of("<: need two ints"),
        PrimitiveId::Gt => chars_of(">: need two ints"),
        PrimitiveId::And => chars_of("AND: need two ints"),
        PrimitiveId::Or => chars_of("OR: need two ints"),
        PrimitiveId::Xor => chars_of("XOR: need two ints"),
        PrimitiveId::LShift => chars_of("LSHIFT: need two ints"),
        _ => chars_of("RSHIFT: need two ints"),
    }
}

fn binary_value(p: PrimitiveId, a: i32, b: i32) -> (r: i32)
    requires
        is_binary(p),
    ensures
        r == binary_result(p, a, b),
{
    match p {
        PrimitiveId::Add => a.wrapping_add(b),
        PrimitiveId::Sub => a.wrapping_sub(b),
        PrimitiveId::Mul => a.wrapping_mul(b),
        PrimitiveId::Eq => if a == b {
            -1
        } else {
            0
        },
        PrimitiveId::Lt => if a < b {
            -1
        } else {
            0
        },
        PrimitiveId::Gt => if a > b {
            -1
        } else {
            0
        },
        PrimitiveId::And => a & b,
        PrimitiveId::Or => a | b,
        PrimitiveId::Xor => a ^ b,
        PrimitiveId::LShift => ((a as u32).wrapping_shl(b as u32)) as i32,
        _ => ((a as u32).wrapping_shr(b as u32)) as i32,
    }
}

impl Machine {
    pub(crate) fn prim_binary(&mut self, p: PrimitiveId)
        requires
            old(self).wf(),
            is_binary(p),
        ensures
            final(self).wf(),
            final(self)@ == binary_step(old(self)@, p),
    {
        let b = self.pop_int();
        let a = self.pop_int();
        match (a, b) {
            (Some(a), Some(b)) => {
                let r = binary_value(p, a, b);
                self.push_int(r);
            },
            _ => {
                let t = binary_error_text(p);
                self.out_text(t);
            },
        }
    }

    pub(crate) fn prim_div(&mut self)
        requires
            old(self).wf(),
        ensures
            final(self).wf(),
            final(self)@ == div_step(old(self)@),
    {
        let b = self.pop_int();
        let a = self.pop_int();
        match (a, b) {
            (Some(a), Some(b)) => match a.checked_div(b) {
                Some(r) => self.push_int(r),
                None => self.out_lit("/: divide by zero"),
            },
            _ => self.out_lit("/: need two ints"),
        }
    }

    pub(crate) fn prim_mod(&mut self)
        requires
            old(self).wf(),
        ensures
            final(self).wf(),
            final(self)@ == mod_step(old(self)@),
    {
        let b = self.pop_int();
        let a = self.pop_int();
        match (a, b) {
            (Some(a), Some(b)) => match a.checked_rem(b) {
                Some(r) => self.push_int(r),
                None => self.out_lit("MOD: divide by zero"),
            },
            _ => self.out_lit("MOD: need two ints"),
        }
    }

    pub(crate) fn prim_slash_mod(&mut self)
        requires
            old(self).wf(),
        ensures
            final(self).wf(),
            final(self)@ == slash_mod_step(old(self)@),
    {
        let b = self.pop_int();
        let a = self.pop_int();
        match (a, b) {
            (Some(a), Some(b)) => {
                let r = a.checked_rem(b);
                let q = a.checked_div(b);
                match (r, q) {
                    (Some(r), Some(q)) => {
                        self.push_int(r);
                        self.push_int(q);
                    },
                    _ => self.out_lit("/MOD: divide by zero"),
                }
            },
            _ => self.out_lit("/MOD: need two ints"),
        }
    }

    pub(crate) fn prim_star_slash_mod(&mut self)
        requires
            old(self).wf(),
        ensures
            final(self).wf(),
            final(self)@ == star_slash_mod_step(old(self)@),
    {
        let c = self.pop_int();
        let b = self.pop_int();
        let a = self.pop_int();
        match (a, b, c) {
            (Some(a), Some(b), Some(c)) => {
                proof {
                    lemma_wide_product(a, b);
                }
                let prod: i64 = (a as i64) * (b as i64);
                let r = prod.checked_rem(c as i64);
                let q = prod.checked_div(c as i64);
                match (r, q) {
                    (Some(r), Some(q)) => {
                        proof {
                            lemma_rem_within_divisor(prod, c as i64);
                        }
                        self.push_int(r as i32);
                        self.push_int(q as i32);
                    },
                    _ => self.out_lit("*/MOD: divide by zero"),
                }
            },
            _ => self.out_lit("*/MOD: need three ints"),
        }
    }

    pub(crate) fn prim_dup(&mut self)
        requires
            old(self).wf(),
        ensures
            final(self).wf(),
            final(self)@ == dup_step(old(self)@),
    {
        if self.stack.len() > 0 {
            let top = self.stack[self.stack.len() - 1];
            self.push_int(top);
        } else {
            self.out_lit("dup: stack empty");
        }
    }

    pub(crate) fn prim_swap(&mut self)
        requires
            old(self).wf(),
        ensures
            final(self).wf(),
            final(self)@ == swap_step(old(self)@),
    {
        let b = self.pop_int();
        let a = self.pop_int();
        match (a, b) {
            (Some(a), Some(b)) => {
                self.push_int(b);
                self.push_int(a);
            },
            _ => self.out_lit("swap: need two values"),
        }
    }

    pub(crate) fn prim_drop(&mut self)
        requires
            old(self).wf(),
        ensures
            final(self).wf(),
            final(self)@ == drop_step(old(self)@),
    {
        if self.pop_int().is_none() {
            self.out_lit("drop: stack empty");
        }
    }

    pub(crate) fn prim_over(&mut self)
        requires
            old(self).wf(),
        ensures
            final(self).wf(),
            final(self)@ == over_step(old(self)@),
    {
        if self.stack.len() < 2 {
            self.out_lit("over: need two values");
            return;
        }
        let a = self.stack[self.stack.len() - 2];
        self.push_int(a);
    }

    pub(crate) fn prim_rot(&mut self)
        requires
            old(self).wf(),
        ensures
            final(self).wf(),
            final(self)@ == rot_step(old(self)@),
    {
        if self.stack.len() < 3 {
            self.out_lit("rot: need three values");
            return;
        }
        let len = self.stack.len();
        let a = self.stack.remove(len - 3);
        self.stack.push(a);
    }

    pub(crate) fn prim_invert(&mut self)
        requires
            old(self).wf(),
        ensures
            final(self).wf(),
            final(self)@ == invert_step(old(self)@),
    {
        match self.pop_int() {
            Some(n) => self.push_int(!n),
            None => self.out_lit("INVERT: stack empty"),
        }
    }

    pub(crate) fn prim_dot(&mut self)
        requires
            old(self).wf(),
        ensures
            final(self).wf(),
            final(self)@ == dot_step(old(self)@),
    {
        match self.pop_int() {
            Some(n) => {
                let base = self.current_base();
                let t = fmt_int(n, base);
                append(&mut self.output_line, &t);
                self.output_line.push(' ');
                proof {
                    reveal_strlit(" ");
                }
                assert(self.output_line@ =~= old(self)@.output_line + t@ + " "@);
            },
            None => self.out_lit(".: stack empty"),
        }
    }

    pub(crate) fn prim_dot_s(&mut self)
        requires
            old(self).wf(),
        ensures
            final(self).wf(),
            final(self)@ == dot_s_step(old(self)@),
    {
        let base = self.current_base();
        let rendered = join_ints(&self.stack, base, " ");
        self.out_lit_text("STACK: ", &rendered);
    }

    pub(crate) fn prim_clear(&mut self)
        requires
            old(self).wf(),
        ensures
            final(self).wf(),
            final(self)@ == clear_step(old(self)@),
    {
        self.stack = Vec::new();
        self.out_lit("stack cleared");
    }

    pub(crate) fn prim_to_r(&mut self)
        requires
            old(self).wf(),
        ensures
            final(self).wf(),
            final(self)@ == to_r_step(old(self)@),
    {
        match self.pop_int() {
            Some(v) => self.return_stack.push(v),
            None => self.out_lit(">R: stack empty"),
        }
    }

    pub(crate) fn prim_r_from(&mut self)
        requires
            old(self).wf(),
        ensures
            final(self).wf(),
            final(self)@ == r_from_step(old(self)@),
    {
        match self.return_stack.pop() {
            Some(v) => self.push_int(v),
            None => self.out_lit("R>: return stack empty"),
        }
    }

    /// `R@` and `I`.
    pub(crate) fn prim_r_top(&mut self, err: &str)
        requires
            old(self).wf(),
        ensures
            final(self).wf(),
            final(self)@ == r_top_step(old(self)@, err@),
    {
        if self.return_stack.len() == 0 {
            self.out_lit(err);
        } else {
            let v = self.return_stack[self.return_stack.len() - 1];
            self.push_int(v);
        }
    }

    pub(crate) fn prim_j(&mut self)
        requires
            old(self).wf(),
        ensures
            final(self).wf(),
            final(self)@ == j_step(old(self)@),
    {
        let len = self.return_stack.len();
        if len < 3 {
            self.out_lit("J: return stack too shallow");
            return;
        }
        let v = self.return_stack[len - 3];
        self.push_int(v);
    }

    pub(crate) fn prim_fetch(&mut self)
        requires
            old(self).wf(),
        ensures
            final(self).wf(),
            final(self)@ == fetch_step(old(self)@),
    {
        match self.pop_int() {
            Some(addr) => match self.addr_to_index(addr) {
                Some(idx) => {
                    let v = self.memory[idx];
                    self.push_int(v);
                },
                None => {
                    let t = fmt_i32(addr);
                    self.out_lit_text("@: bad address ", &t);
                },
            },
            None => self.out_lit("@: stack empty"),
        }
    }

    pub(crate) fn prim_store(&mut self)
        requires
            old(self).wf(),
        ensures
            final(self).wf(),
            final(self)@ == store_step(old(self)@),
    {
        let a = self.pop_int();
        let v = self.pop_int();
        match (v, a) {
            (Some(val), Some(addr)) => match self.addr_to_index(addr) {
                Some(idx) => self.memory.set(idx, val),
                None => {
                    let t = fmt_i32(addr);
                    self.out_lit_text("!: bad address ", &t);
                },
            },
            _ => self.out_lit("!: need value and addr"),
        }
    }

    pub(crate) fn prim_plus_store(&mut self)
        requires
            old(self).wf(),
        ensures
            final(self).wf(),
            final(self)@ == plus_store_step(old(self)@),
    {
        let a = self.pop_int();
        let d = self.pop_int();
        match (d, a) {
            (Some(delta), Some(addr)) => match self.addr_to_index(addr) {
                Some(idx) => {
                    let n = self.memory[idx].wrapping_add(delta);
                    self.memory.set(idx, n);
                },
                None => {
                    let t = fmt_i32(addr);
                    self.out_lit_text("+!: bad address ", &t);
                },
            },
            _ => self.out_lit("+!: need delta and addr"),
        }
    }

    pub(crate) fn prim_words(&mut self)
        requires
            old(self).wf(),
        ensures
            final(self).wf(),
            final(self)@ == words_step(old(self)@),
    {
        let names = self.dictionary.sorted_names();
        let joined = join_texts(&names, " ");
        self.out_lit_text("WORDS: ", &joined);
    }

    pub(crate) fn prim_cr(&mut self)
        requires
            old(self).wf(),
        ensures
            final(self).wf(),
            final(self)@ == cr_step(old(self)@),
    {
        let mut line: Vec<char> = Vec::new();
        std::mem::swap(&mut line, &mut self.output_line);
        self.out_text(line);
    }

    pub(crate) fn prim_emit(&mut self)
        requires
            old(self).wf(),
        ensures
            final(self).wf(),
            final(self)@ == emit_step(old(self)@),
    {
        match self.pop_int() {
            Some(n) => {
                let c = match char_from_u32(n as u32) {
                    Some(c) => c,
                    None => '?',
                };
                assert(c == emit_char(n));
                self.output_line.push(c);
            },
            None => self.out_lit("EMIT: stack empty"),
        }
    }

    pub(crate) fn prim_space(&mut self)
        requires
            old(self).wf(),
        ensures
            final(self).wf(),
            final(self)@ == (MachineV {
                output_line: old(self)@.output_line.push(' '),
                ..old(self)@
            }),
    {
        self.output_line.push(' ');
    }

    pub(crate) fn prim_allot(&mut self)
        requires
            old(self).wf(),
        ensures
            final(self).wf(),
            final(self)@ == allot_step(old(self)@),
    {
        match self.pop_int() {
            Some(n) => {
                if n >= 0 {
                    let ghost m1 = self@;
                    let mut k: i32 = 0;
                    while k < n
                        invariant
                            0 <= k <= n,
                            self.wf(),
                            self@ == (MachineV {
                                memory: m1.memory + Seq::new(k as nat, |i: int| 0i32),
                                ..m1
                            }),
                        decreases n - k,
                    {
                        self.memory.push(0);
                        k += 1;
                        assert(self.memory@ =~= m1.memory + Seq::new(k as nat, |i: int| 0i32));
                    }
                    let mut msg = chars_of("ALLOT ");
                    let t1 = fmt_i32(n);
                    append(&mut msg, &t1);
                    append_str(&mut msg, " cells (memory now ");
                    let t2 = fmt_count(self.memory.len() as u128);
                    append(&mut msg, &t2);
                    append_str(&mut msg, ")");
                    self.out_text(msg);
                } else {
                    let t = fmt_i32(n);
                    self.out_lit_text("ALLOT: negative count ", &t);
                }
            },
            None => self.out_lit("ALLOT: stack empty"),
        }
    }

    pub(crate) fn prim_here(&mut self)
        requires
            old(self).wf(),
        ensures
            final(self).wf(),
            final(self)@ == here_step(old(self)@),
    {
        let n = self.memory.len() as i32;
        self.push_int(n);
    }

    pub(crate) fn prim_comma(&mut self)
        requires
            old(self).wf(),
        ensures
            final(self).wf(),
            final(self)@ == comma_step(old(self)@),
    {
        match self.pop_int() {
            Some(n) => self.memory.push(n),
            None => self.out_lit(",: stack empty"),
        }
    }

    pub(crate) fn prim_latest(&mut self)
        requires
            old(self).wf(),
        ensures
            final(self).wf(),
            final(self)@ == latest_step(old(self)@),
    {
        match &self.latest {
            Some(n) => {
                let name = crate::text::text_clone(n);
                let xt = self.intern_xt(&name);
                self.push_int(xt);
            },
            None => self.out_lit("LATEST: no words defined"),
        }
    }

    pub(crate) fn prim_immediate(&mut self)
        requires
            old(self).wf(),
        ensures
            final(self).wf(),
            final(self)@ == immediate_step(old(self)@),
    {
        match &self.latest {
            Some(n) => {
                let name = crate::text::text_clone(n);
                names_insert(&mut self.immediate_words, name);
            },
            None => self.out_lit("IMMEDIATE: no words defined"),
        }
    }

    pub(crate) fn prim_create(&mut self)
        requires
            old(self).wf(),
        ensures
            final(self).wf(),
            final(self)@ == create_step(old(self)@),
    {
        let addr = self.memory.len() as i32;
        self.next_consumer = Some(NextTokenConsumer::Create(addr));
    }
}

} // verus!
