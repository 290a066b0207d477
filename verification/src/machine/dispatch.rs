//! Tokens: the tokenizer, dispatch in interpret and compile mode, the words
//! that read the next token, `SEE`, and ending a definition.
use vstd::prelude::*;
use super::Machine;
use crate::text::{
    chars_of, append, append_str, text_clone, text_is, to_upper, join_texts, lemma_texts_push,
    skip_whitespace, is_whitespace, texts, join, upper,
};
use crate::number::{fmt_i32, fmt_count, parse_i32};
use crate::model::{STEP_LIMIT, out};
use crate::semantics::{see_text, labels, prim_debug_name, handle_consumer, compile_token, finish_definition, dispatch_compile, do_dispatch, dispatch_token, print_string, token_end, find_char, run_from, lemma_token_end, lemma_find_char};
use crate::dict::{names_contain};
use crate::types::{Op, OpKind, Word, PrimitiveId, NextTokenConsumer, ops_view, lemma_ops_push};

verus! {

fn prim_name_text(p: PrimitiveId) -> (t: Vec<char>)
    ensures
        t@ == prim_debug_name(p),
{
    let s: &str = match p {
        PrimitiveId::Dup => "Dup",
        PrimitiveId::Swap => "Swap",
        PrimitiveId::Drop => "Drop",
        PrimitiveId::Over => "Over",
        PrimitiveId::Rot => "Rot",
        PrimitiveId::Add => "Add",
        PrimitiveId::Sub => "Sub",
        PrimitiveId::Mul => "Mul",
        PrimitiveId::Div => "Div",
        PrimitiveId::Mod => "Mod",
        PrimitiveId::SlashMod => "SlashMod",
        PrimitiveId::StarSlashMod => "StarSlashMod",
        PrimitiveId::Eq => "Eq",
        PrimitiveId::Lt => "Lt",
        PrimitiveId::Gt => "Gt",
        PrimitiveId::And => "And",
        PrimitiveId::Or => "Or",
        PrimitiveId::Xor => "Xor",
        PrimitiveId::Invert => "Invert",
        PrimitiveId::LShift => "LShift",
        PrimitiveId::RShift => "RShift",
        PrimitiveId::CompileComma => "CompileComma",
        PrimitiveId::Dot => "Dot",
        PrimitiveId::DotS => "DotS",
        PrimitiveId::Clear => "Clear",
        PrimitiveId::ToR => "ToR",
        PrimitiveId::FromR => "FromR",
        PrimitiveId::RFetch => "RFetch",
        PrimitiveId::Fetch => "Fetch",
        PrimitiveId::Store => "Store",
        PrimitiveId::PlusStore => "PlusStore",
        PrimitiveId::Words => "Words",
        PrimitiveId::Cr => "Cr",
        PrimitiveId::Emit => "Emit",
        PrimitiveId::Space => "Space",
        PrimitiveId::I => "I",
        PrimitiveId::J => "J",
        PrimitiveId::Allot => "Allot",
        PrimitiveId::Execute => "Execute",
        PrimitiveId::Here => "Here",
        PrimitiveId::Comma => "Comma",
        PrimitiveId::Latest => "Latest",
        PrimitiveId::Immediate => "Immediate",
        PrimitiveId::Create => "Create",
        PrimitiveId::If => "If",
        PrimitiveId::Else => "Else",
        PrimitiveId::Then => "Then",
        PrimitiveId::Begin => "Begin",
        PrimitiveId::Until => "Until",
        PrimitiveId::While => "While",
        PrimitiveId::Repeat => "Repeat",
        PrimitiveId::Do => "Do",
        PrimitiveId::LoopPrim => "LoopPrim",
        PrimitiveId::PlusLoop => "PlusLoop",
        PrimitiveId::LeavePrim => "LeavePrim",
        PrimitiveId::LBracket => "LBracket",
        PrimitiveId::RBracket => "RBracket",
        PrimitiveId::Literal => "Literal",
        PrimitiveId::DoesArrow => "DoesArrow",
        PrimitiveId::Postpone => "Postpone",
    };
    chars_of(s)
}

/// The labels of `ops`, space-separated.
fn labels_text(ops: &Vec<Op>) -> (t: Vec<char>)
    ensures
        t@ == join(labels(ops_view(ops@)), " "@),
{
    let mut items: Vec<Vec<char>> = Vec::new();
    let mut i: usize = 0;
    while i < ops.len()
        invariant
            i <= ops.len(),
            texts(items@) == labels(ops_view(ops@).take(i as int)),
        decreases ops.len() - i,
    {
        let l = text_clone(&ops[i].label);
        proof {
            lemma_texts_push(items@, l);
        }
        items.push(l);
        i += 1;
        assert(texts(items@) =~= labels(ops_view(ops@).take(i as int)));
    }
    assert(ops_view(ops@).take(i as int) =~= ops_view(ops@));
    join_texts(&items, " ")
}

fn token_end_at(s: &Vec<char>, i: usize) -> (k: usize)
    requires
        i <= s.len(),
    ensures
        k as int == token_end(s@, i as int),
{
    let mut k: usize = i;
    while k < s.len() && !is_whitespace(s[k])
        invariant
            i <= k <= s.len(),
            token_end(s@, i as int) == token_end(s@, k as int),
        decreases s.len() - k,
    {
        k += 1;
    }
    k
}

fn find_char_at(s: &Vec<char>, i: usize, c: char) -> (k: usize)
    requires
        i <= s.len(),
    ensures
        k as int == find_char(s@, i as int, c),
{
    let mut k: usize = i;
    while k < s.len() && s[k] != c
        invariant
            i <= k <= s.len(),
            find_char(s@, i as int, c) == find_char(s@, k as int, c),
        decreases s.len() - k,
    {
        k += 1;
    }
    k
}

fn slice_text(s: &Vec<char>, a: usize, b: usize) -> (r: Vec<char>)
    requires
        a <= b <= s.len(),
    ensures
        r@ == s@.subrange(a as int, b as int),
{
    let mut r: Vec<char> = Vec::new();
    let mut k: usize = a;
    while k < b
        invariant
            a <= k <= b,
            b <= s.len(),
            r@ == s@.subrange(a as int, k as int),
        decreases b - k,
    {
        r.push(s[k]);
        k += 1;
        assert(r@ =~= s@.subrange(a as int, k as int));
    }
    r
}

impl Machine {
    #[verifier::rlimit(30)]
    fn handle_see(&mut self, token: &Vec<char>)
        requires
            old(self).wf(),
        ensures
            final(self).wf(),
            final(self)@ == out(old(self)@, see_text(old(self)@, upper(token@), token@)),
    {
        let up = to_upper(token);
        let tag = if names_contain(&self.immediate_words, &up) {
            chars_of(" IMMEDIATE")
        } else {
            chars_of("")
        };
        let msg = match self.dictionary.get(&up) {
            None => {
                let mut m = chars_of("SEE: unknown word ");
                append(&mut m, token);
                m
            },
            Some(Word::Primitive(p)) => {
                let mut m = chars_of("SEE ");
                append(&mut m, &up);
                append_str(&mut m, ": primitive ");
                let n = prim_name_text(p);
                append(&mut m, &n);
                append(&mut m, &tag);
                m
            },
            Some(Word::User(ops)) => {
                let mut m = chars_of(": ");
                append(&mut m, &up);
                append_str(&mut m, " ");
                let b = labels_text(&ops);
                append(&mut m, &b);
                append_str(&mut m, " ;");
                append(&mut m, &tag);
                m
            },
            Some(Word::Variable(addr)) => {
                let mut m = chars_of("SEE ");
                append(&mut m, &up);
                append_str(&mut m, ": variable @ addr ");
                let a = fmt_i32(addr);
                append(&mut m, &a);
                append_str(&mut m, " = ");
                let cell = match self.addr_to_index(addr) {
                    Some(i) => fmt_i32(self.memory[i]),
                    None => chars_of("?"),
                };
                append(&mut m, &cell);
                append(&mut m, &tag);
                m
            },
            Some(Word::Constant(v)) => {
                let mut m = chars_of("SEE ");
                append(&mut m, &up);
                append_str(&mut m, ": constant = ");
                let a = fmt_i32(v);
                append(&mut m, &a);
                append(&mut m, &tag);
                m
            },
            Some(Word::Created { data_addr, does_ops }) => {
                let mut m = chars_of("SEE ");
                append(&mut m, &up);
                append_str(&mut m, ": created @ addr ");
                let a = fmt_i32(data_addr);
                append(&mut m, &a);
                match does_ops {
                    Some(ops) => {
                        append_str(&mut m, ", does [ ");
                        let b = labels_text(&ops);
                        append(&mut m, &b);
                        append_str(&mut m, " ]");
                    },
                    None => {},
                }
                append(&mut m, &tag);
                m
            },
        };
        self.out_text(msg);
    }

    /// The word that consumes this token as a name.
    #[verifier::rlimit(30)]
    fn handle_consumer(&mut self, c: NextTokenConsumer, token: &Vec<char>)
        requires
            old(self).wf(),
        ensures
            final(self).wf(),
            final(self)@ == handle_consumer(old(self)@, c, token@),
    {
        match c {
            NextTokenConsumer::See => self.handle_see(token),
            NextTokenConsumer::Variable => {
                let name = to_upper(token);
                let addr = self.memory.len() as i32;
                self.memory.push(0);
                self.define_word(text_clone(&name), Word::Variable(addr));
                let mut m = chars_of("VARIABLE ");
                append(&mut m, &name);
                append_str(&mut m, " at addr ");
                let a = fmt_i32(addr);
                append(&mut m, &a);
                self.out_text(m);
            },
            NextTokenConsumer::Constant(v) => {
                let name = to_upper(token);
                self.define_word(text_clone(&name), Word::Constant(v));
                let mut m = chars_of("CONSTANT ");
                append(&mut m, &name);
                append_str(&mut m, " = ");
                let a = fmt_i32(v);
                append(&mut m, &a);
                self.out_text(m);
            },
            NextTokenConsumer::Create(data_addr) => {
                let name = to_upper(token);
                let does_ops = self.pending_does.take();
                let has_does = does_ops.is_some();
                self.define_word(text_clone(&name), Word::Created { data_addr, does_ops });
                let mut m = chars_of("CREATE ");
                append(&mut m, &name);
                append_str(&mut m, " at addr ");
                let a = fmt_i32(data_addr);
                append(&mut m, &a);
                if has_does {
                    append_str(&mut m, " (with DOES>)");
                } else {
                    append_str(&mut m, "");
                }
                self.out_text(m);
            },
            NextTokenConsumer::Tick => {
                let up = to_upper(token);
                if !self.dictionary.contains(&up) {
                    self.out_lit_text("': unknown word ", token);
                    return;
                }
                let xt = self.intern_xt(&up);
                if self.compiling.is_some() {
                    let mut label = chars_of("' ");
                    append(&mut label, &up);
                    self.compile_push(Op { label, kind: OpKind::PushInt(xt) });
                } else {
                    self.push_int(xt);
                }
            },
        }
    }

    fn compile_token(&self, token: &Vec<char>, up: &Vec<char>) -> (o: Op)
        requires
            self.wf(),
            up@ == upper(token@),
        ensures
            o@ == compile_token(self@, token@, up@),
    {
        let base = self.current_base();
        if let Some(n) = parse_i32(token, base) {
            return Op { label: text_clone(token), kind: OpKind::PushInt(n) };
        }
        match self.dictionary.get(up) {
            Some(Word::Primitive(p)) => Op { label: text_clone(up), kind: OpKind::CallPrim(p) },
            _ => Op { label: text_clone(up), kind: OpKind::CallByName(text_clone(up)) },
        }
    }

    /// `;`.
    fn finish_definition(&mut self)
        requires
            old(self).wf(),
            old(self)@.compiling is Some,
            old(self)@.compiling->0.name is Some,
        ensures
            final(self).wf(),
            final(self)@ == finish_definition(old(self)@),
    {
        let p = self.compiling.take().unwrap();
        if p.cf_stack.len() > 0 {
            let mut m = chars_of("compile: ");
            match &p.name {
                Some(n) => append(&mut m, n),
                None => append_str(&mut m, "<unnamed>"),
            }
            append_str(&mut m, " dropped; ");
            let c = fmt_count(p.cf_stack.len() as u128);
            append(&mut m, &c);
            append_str(&mut m, " unclosed IF/ELSE/BEGIN");
            self.out_text(m);
            return;
        }
        let is_anon = p.anonymous;
        let name = p.name.unwrap();
        let body_len = p.body.len();
        self.define_word(text_clone(&name), Word::User(p.body));
        if is_anon {
            let xt = self.intern_xt(&name);
            self.push_int(xt);
            let mut m = chars_of(":NONAME -> xt ");
            let a = fmt_i32(xt);
            append(&mut m, &a);
            append_str(&mut m, " (");
            let c = fmt_count(body_len as u128);
            append(&mut m, &c);
            append_str(&mut m, " ops)");
            self.out_text(m);
        } else {
            let mut m = chars_of("defined ");
            append(&mut m, &name);
            append_str(&mut m, " (");
            let c = fmt_count(body_len as u128);
            append(&mut m, &c);
            append_str(&mut m, " tokens)");
            self.out_text(m);
        }
    }

    /// A token while compiling.
    #[verifier::rlimit(30)]
    fn dispatch_compile(&mut self, token: &Vec<char>, up: &Vec<char>, fuel: &mut u64)
        requires
            old(self).wf(),
            old(self)@.compiling is Some,
            up@ == upper(token@),
        ensures
            final(self).wf(),
            (final(self)@, *final(fuel) as nat) == dispatch_compile(
                old(self)@,
                token@,
                up@,
                *old(fuel) as nat,
            ),
    {
        let mut p = self.compiling.take().unwrap();
        if p.name.is_none() {
            if text_is(up, ":") || text_is(up, ";") {
                self.out_lit_text("compile: expected word name, got ", token);
                return;
            }
            p.name = Some(text_clone(up));
            self.compiling = Some(p);
            self.latest = Some(text_clone(up));
            return;
        }
        if p.pending_postpone {
            p.pending_postpone = false;
            if !self.dictionary.contains(up) {
                self.compiling = Some(p);
                self.out_lit_text("POSTPONE: unknown word ", token);
                return;
            }
            let mut label = chars_of("POSTPONE ");
            append(&mut label, up);
            let o = Op { label, kind: OpKind::PostponeCall(text_clone(up)) };
            proof {
                lemma_ops_push(p.body@, o);
            }
            p.body.push(o);
            self.compiling = Some(p);
            return;
        }
        self.compiling = Some(p);
        if text_is(up, ";") {
            self.finish_definition();
            return;
        }
        if text_is(up, ":") {
            self.out_lit("compile: nested : not allowed");
            return;
        }
        if names_contain(&self.immediate_words, up) {
            match self.dictionary.get(up) {
                Some(w) => {
                    self.run_word(w, fuel);
                    return;
                },
                None => {},
            }
        }
        let o = self.compile_token(token, up);
        self.compile_push(o);
    }

    /// A token, with `fuel` VM steps for the words it runs.
    #[verifier::rlimit(30)]
    fn do_dispatch(&mut self, token: &Vec<char>, fuel: &mut u64)
        requires
            old(self).wf(),
        ensures
            final(self).wf(),
            (final(self)@, *final(fuel) as nat) == do_dispatch(
                old(self)@,
                token@,
                *old(fuel) as nat,
            ),
    {
        if let Some(c) = self.next_consumer.take() {
            self.handle_consumer(c, token);
            return;
        }
        let up = to_upper(token);
        if text_is(&up, "'") {
            self.next_consumer = Some(NextTokenConsumer::Tick);
            return;
        }
        if self.compiling.is_some() {
            self.dispatch_compile(token, &up, fuel);
            return;
        }
        if text_is(&up, "SEE") {
            self.next_consumer = Some(NextTokenConsumer::See);
            return;
        }
        if text_is(&up, "VARIABLE") {
            self.next_consumer = Some(NextTokenConsumer::Variable);
            return;
        }
        if text_is(&up, "CONSTANT") {
            match self.pop_int() {
                Some(v) => self.next_consumer = Some(NextTokenConsumer::Constant(v)),
                None => self.out_lit("CONSTANT: stack empty"),
            }
            return;
        }
        if text_is(&up, ":") {
            self.compiling = Some(
                crate::types::Pending {
                    name: None,
                    body: Vec::new(),
                    cf_stack: Vec::new(),
                    leave_stack: Vec::new(),
                    pending_postpone: false,
                    anonymous: false,
                },
            );
            assert(self@.compiling->0.body =~= Seq::<crate::types::OpV>::empty());
            assert(self@.compiling->0.leave_stack =~= Seq::<Seq<usize>>::empty());
            return;
        }
        if text_is(&up, ":NONAME") {
            let n = self.anon_counter;
            self.anon_counter = n.wrapping_add(1);
            let mut name = chars_of("<anon-");
            let d = fmt_count(n as u128);
            append(&mut name, &d);
            append_str(&mut name, ">");
            self.compiling = Some(
                crate::types::Pending {
                    name: Some(name),
                    body: Vec::new(),
                    cf_stack: Vec::new(),
                    leave_stack: Vec::new(),
                    pending_postpone: false,
                    anonymous: true,
                },
            );
            assert(self@.compiling->0.body =~= Seq::<crate::types::OpV>::empty());
            assert(self@.compiling->0.leave_stack =~= Seq::<Seq<usize>>::empty());
            return;
        }
        if text_is(&up, ";") {
            self.out_lit(";: not compiling");
            return;
        }
        let base = self.current_base();
        match parse_i32(token, base) {
            Some(n) => self.push_int(n),
            None => match self.dictionary.get(&up) {
                Some(w) => self.run_word(w, fuel),
                None => self.out_lit_text("unknown token: ", token),
            },
        }
    }

    /// Runs one token and traces it.
    fn dispatch_token(&mut self, token: &Vec<char>)
        requires
            old(self).wf(),
        ensures
            final(self).wf(),
            final(self)@ == dispatch_token(old(self)@, token@),
    {
        let mut fuel: u64 = STEP_LIMIT;
        self.do_dispatch(token, &mut fuel);
        if fuel == 0 {
            self.out_lit("VM: step limit reached");
        }
        self.emit_trace(token);
    }

    /// `."` text.
    fn handle_print_string(&mut self, s: Vec<char>)
        requires
            old(self).wf(),
        ensures
            final(self).wf(),
            final(self)@ == print_string(old(self)@, s@),
    {
        if self.compiling.is_some() {
            let mut label = chars_of(".\" ");
            append(&mut label, &s);
            append_str(&mut label, "\"");
            self.compile_push(Op { label, kind: OpKind::PrintStr(s) });
        } else {
            append(&mut self.output_line, &s);
        }
    }

    /// Runs every token of `src`.
    #[verifier::rlimit(30)]
    pub(crate) fn run_tokens(&mut self, src: &Vec<char>)
        requires
            old(self).wf(),
        ensures
            final(self).wf(),
            final(self)@ == run_from(old(self)@, src@, 0, 0),
    {
        let len = src.len();
        let mut i: usize = 0;
        let mut depth: u64 = 0;
        while i < len
            invariant
                len == src@.len(),
                i <= len,
                depth <= i,
                self.wf(),
                run_from(self@, src@, i as int, depth as nat) == run_from(
                    old(self)@,
                    src@,
                    0,
                    0,
                ),
            decreases len - i,
        {
            let j = skip_whitespace(src, i);
            proof {
                crate::text::lemma_skip_ws_bounds(src@, i as int);
            }
            if j >= len {
                i = len;
            } else {
                proof {
                    lemma_token_end(src@, j as int);
                }
                let k = token_end_at(src, j);
                let tok = slice_text(src, j, k);
                if text_is(&tok, "\\") {
                    proof {
                        lemma_find_char(src@, k as int, '\n');
                    }
                    i = find_char_at(src, k, '\n');
                } else if text_is(&tok, "(") {
                    depth = depth + 1;
                    i = k;
                } else if text_is(&tok, ")") {
                    if depth > 0 {
                        depth = depth - 1;
                    } else {
                        self.out_lit("): unmatched");
                    }
                    i = k;
                } else if depth > 0 {
                    i = k;
                } else if text_is(&tok, ".\"") {
                    let a = skip_whitespace(src, k);
                    proof {
                        crate::text::lemma_skip_ws_bounds(src@, k as int);
                        lemma_find_char(src@, a as int, '"');
                    }
                    let e = find_char_at(src, a, '"');
                    let s = slice_text(src, a, e);
                    if e < len {
                        i = e + 1;
                    } else {
                        self.out_lit(".\": missing closing quote");
                        i = e;
                    }
                    self.handle_print_string(s);
                } else {
                    self.dispatch_token(&tok);
                    i = k;
                }
            }
        }
        if depth > 0 {
            let mut m = chars_of("(: unclosed (");
            let d = fmt_count(depth as u128);
            append(&mut m, &d);
            append_str(&mut m, " open)");
            self.out_text(m);
        }
    }
}

} // verus!
