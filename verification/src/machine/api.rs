//! The public interface: creating a machine, evaluating input, resetting,
//! and the text of each pane.
use vstd::prelude::*;
use super::{Machine, join_ints, lemma_dec_list};
use crate::text::{chars_of, append, append_str, trim_text, join_texts, to_std_string, lemma_texts_push, utf8_length, texts};
use crate::number::{fmt_i32, fmt_count};
use crate::model::{MachineV};
use crate::semantics::{
    primitive_name, install_order, install, immediate_names, banner, empty_machine,
    install_primitives, fresh, reset, eval_repl, load_source, run_tokens, stack_text,
    output_text, history_text, trace_text, dictionary_text, memory_text, cell_line,
};
use crate::dict::{Dict, names_insert};
use crate::types::{Word, PrimitiveId};

verus! {

fn primitive_name_str(p: PrimitiveId) -> (s: &'static str)
    ensures
        s@ == primitive_name(p),
{
    match p {
        PrimitiveId::Dup => "DUP",
        PrimitiveId::Swap => "SWAP",
        PrimitiveId::Drop => "DROP",
        PrimitiveId::Over => "OVER",
        PrimitiveId::Rot => "ROT",
        PrimitiveId::Add => "+",
        PrimitiveId::Sub => "-",
        PrimitiveId::Mul => "*",
        PrimitiveId::Div => "/",
        PrimitiveId::Mod => "MOD",
        PrimitiveId::SlashMod => "/MOD",
        PrimitiveId::StarSlashMod => "*/MOD",
        PrimitiveId::Eq => "=",
        PrimitiveId::Lt => "<",
        PrimitiveId::Gt => ">",
        PrimitiveId::And => "AND",
        PrimitiveId::Or => "OR",
        PrimitiveId::Xor => "XOR",
        PrimitiveId::Invert => "INVERT",
        PrimitiveId::LShift => "LSHIFT",
        PrimitiveId::RShift => "RSHIFT",
        PrimitiveId::CompileComma => "COMPILE,",
        PrimitiveId::If => "IF",
        PrimitiveId::Else => "ELSE",
        PrimitiveId::Then => "THEN",
        PrimitiveId::Begin => "BEGIN",
        PrimitiveId::Until => "UNTIL",
        PrimitiveId::While => "WHILE",
        PrimitiveId::Repeat => "REPEAT",
        PrimitiveId::Do => "DO",
        PrimitiveId::LoopPrim => "LOOP",
        PrimitiveId::PlusLoop => "+LOOP",
        PrimitiveId::LeavePrim => "LEAVE",
        PrimitiveId::LBracket => "[",
        PrimitiveId::RBracket => "]",
        PrimitiveId::Literal => "LITERAL",
        PrimitiveId::DoesArrow => "DOES>",
        PrimitiveId::Postpone => "POSTPONE",
        PrimitiveId::Dot => ".",
        PrimitiveId::DotS => ".S",
        PrimitiveId::Clear => "CLEAR",
        PrimitiveId::ToR => ">R",
        PrimitiveId::FromR => "R>",
        PrimitiveId::RFetch => "R@",
        PrimitiveId::Fetch => "@",
        PrimitiveId::Store => "!",
        PrimitiveId::PlusStore => "+!",
        PrimitiveId::Words => "WORDS",
        PrimitiveId::Cr => "CR",
        PrimitiveId::Emit => "EMIT",
        PrimitiveId::Space => "SPACE",
        PrimitiveId::I => "I",
        PrimitiveId::J => "J",
        PrimitiveId::Allot => "ALLOT",
        PrimitiveId::Execute => "EXECUTE",
        PrimitiveId::Here => "HERE",
        PrimitiveId::Comma => ",",
        PrimitiveId::Latest => "LATEST",
        PrimitiveId::Immediate => "IMMEDIATE",
        PrimitiveId::Create => "CREATE",
    }
}

impl Machine {
    /// A machine holding the banner, the primitives and `BASE`.
    pub fn new() -> (m: Machine)
        ensures
            m.wf(),
            m@ == fresh(),
    {
        let mut output: Vec<Vec<char>> = Vec::new();
        output.push(chars_of("Machine created."));
        output.push(chars_of("Primitives: DUP SWAP DROP OVER ROT + - * / MOD /MOD */MOD = < > AND OR XOR INVERT LSHIFT RSHIFT . .S CLEAR >R R> R@ @ ! +! WORDS CR EMIT SPACE I J ALLOT EXECUTE HERE , COMPILE, LATEST IMMEDIATE CREATE BASE"));
        output.push(chars_of("Compile: : ; :NONAME IF ELSE THEN BEGIN UNTIL WHILE REPEAT DO LOOP +LOOP LEAVE [ ] LITERAL DOES> POSTPONE .\""));
        output.push(chars_of("Interactive: SEE <word> | VARIABLE <name> | <val> CONSTANT <name> | ' <word>"));
        let mut m = Machine {
            stack: Vec::new(),
            return_stack: Vec::new(),
            memory: Vec::new(),
            xt_table: Vec::new(),
            output,
            output_line: Vec::new(),
            history: Vec::new(),
            trace: Vec::new(),
            dictionary: Dict::new(),
            immediate_words: Vec::new(),
            latest: None,
            compiling: None,
            paused_compile: None,
            next_consumer: None,
            pending_does: None,
            anon_counter: 0,
        };
        assert(m@.output =~= banner());
        assert(m@.immediate_words =~= Set::<Seq<char>>::empty());
        assert(m@.xt_table =~= Seq::<Seq<char>>::empty());
        assert(m@.history =~= Seq::<Seq<char>>::empty());
        assert(m@.trace =~= Seq::<Seq<char>>::empty());
        assert(m@ == empty_machine());
        m.install_primitives();
        m
    }

    fn install_primitives(&mut self)
        requires
            old(self).wf(),
        ensures
            final(self).wf(),
            final(self)@ == install_primitives(old(self)@),
    {
        let order: Vec<PrimitiveId> = vec![
            PrimitiveId::Dup,
            PrimitiveId::Swap,
            PrimitiveId::Drop,
            PrimitiveId::Over,
            PrimitiveId::Rot,
            PrimitiveId::Add,
            PrimitiveId::Sub,
            PrimitiveId::Mul,
            PrimitiveId::Div,
            PrimitiveId::Mod,
            PrimitiveId::SlashMod,
            PrimitiveId::StarSlashMod,
            PrimitiveId::Eq,
            PrimitiveId::Lt,
            PrimitiveId::Gt,
            PrimitiveId::And,
            PrimitiveId::Or,
            PrimitiveId::Xor,
            PrimitiveId::Invert,
            PrimitiveId::LShift,
            PrimitiveId::RShift,
            PrimitiveId::CompileComma,
            PrimitiveId::If,
            PrimitiveId::Else,
            PrimitiveId::Then,
            PrimitiveId::Begin,
            PrimitiveId::Until,
            PrimitiveId::While,
            PrimitiveId::Repeat,
            PrimitiveId::Do,
            PrimitiveId::LoopPrim,
            PrimitiveId::PlusLoop,
            PrimitiveId::LeavePrim,
            PrimitiveId::LBracket,
            PrimitiveId::RBracket,
            PrimitiveId::Literal,
            PrimitiveId::DoesArrow,
            PrimitiveId::Postpone,
            PrimitiveId::Dot,
            PrimitiveId::DotS,
            PrimitiveId::Clear,
            PrimitiveId::ToR,
            PrimitiveId::FromR,
            PrimitiveId::RFetch,
            PrimitiveId::Fetch,
            PrimitiveId::Store,
            PrimitiveId::PlusStore,
            PrimitiveId::Words,
            PrimitiveId::Cr,
            PrimitiveId::Emit,
            PrimitiveId::Space,
            PrimitiveId::I,
            PrimitiveId::J,
            PrimitiveId::Allot,
            PrimitiveId::Execute,
            PrimitiveId::Here,
            PrimitiveId::Comma,
            PrimitiveId::Immediate,
            PrimitiveId::Create,
            PrimitiveId::Latest,
        ];
        assert(order@ =~= install_order());
        let base_addr = self.memory.len() as i32;
        self.memory.push(10);
        self.define_word(chars_of("BASE"), Word::Variable(base_addr));
        let ghost m0 = self@;
        let mut i: usize = 0;
        while i < order.len()
            invariant
                i <= order@.len(),
                order@ == install_order(),
                self.wf(),
                self@ == install(m0, install_order().take(i as int)),
            decreases order.len() - i,
        {
            let p = order[i];
            assert(install_order().take(i + 1).drop_last() =~= install_order().take(i as int));
            self.define_word(chars_of(primitive_name_str(p)), Word::Primitive(p));
            i += 1;
        }
        assert(install_order().take(i as int) =~= install_order());
        let imm: Vec<&str> = vec![
            "IF",
            "ELSE",
            "THEN",
            "BEGIN",
            "UNTIL",
            "WHILE",
            "REPEAT",
            "DO",
            "LOOP",
            "+LOOP",
            "LEAVE",
            "[",
            "LITERAL",
            "DOES>",
            "POSTPONE",
        ];
        assert(imm@.map_values(|s: &str| s@) =~= immediate_names());
        let ghost m1 = self@;
        assert(immediate_names().take(0).to_set() =~= Set::<Seq<char>>::empty());
        assert(m1.immediate_words.union(Set::<Seq<char>>::empty()) =~= m1.immediate_words);
        let mut k: usize = 0;
        while k < imm.len()
            invariant
                k <= imm@.len(),
                imm@.map_values(|s: &str| s@) == immediate_names(),
                self.wf(),
                self@ == (MachineV {
                    immediate_words: m1.immediate_words.union(
                        immediate_names().take(k as int).to_set(),
                    ),
                    ..m1
                }),
            decreases imm.len() - k,
        {
            let name = chars_of(imm[k]);
            assert(name@ == immediate_names()[k as int]);
            names_insert(&mut self.immediate_words, name);
            assert(immediate_names().take(k + 1).to_set() =~= immediate_names().take(
                k as int,
            ).to_set().insert(immediate_names()[k as int])) by {
                assert(immediate_names().take(k + 1) =~= immediate_names().take(k as int).push(
                    immediate_names()[k as int],
                ));
                immediate_names().take(k as int).lemma_push_to_set_commute(immediate_names()[k as int]);
            }
            k += 1;
            assert(self@.immediate_words =~= m1.immediate_words.union(
                immediate_names().take(k as int).to_set(),
            ));
        }
        assert(immediate_names().take(k as int) =~= immediate_names());
    }

    /// Empties both stacks and drops any compilation in progress; the
    /// dictionary and memory are kept.
    pub fn reset(&mut self)
        requires
            old(self).wf(),
        ensures
            final(self).wf(),
            final(self)@ == reset(old(self)@),
    {
        self.stack = Vec::new();
        self.return_stack = Vec::new();
        self.compiling = None;
        self.paused_compile = None;
        self.next_consumer = None;
        self.pending_does = None;
        self.output_line = Vec::new();
        self.out_lit("VM reset.");
        let h = chars_of("--- reset ---");
        proof {
            lemma_texts_push(self.history@, h);
        }
        self.history.push(h);
        let t = chars_of("--- reset ---");
        proof {
            lemma_texts_push(self.trace@, t);
        }
        self.trace.push(t);
    }

    /// Evaluates one REPL line.
    pub fn eval_repl(&mut self, line: &str)
        requires
            old(self).wf(),
        ensures
            final(self).wf(),
            final(self)@ == eval_repl(old(self)@, line@),
    {
        let all = chars_of(line);
        let t = trim_text(&all);
        if t.len() == 0 {
            return;
        }
        let mut h = chars_of("> ");
        append(&mut h, &t);
        proof {
            lemma_texts_push(self.history@, h);
        }
        self.history.push(h);
        self.run_tokens(&t);
        self.flush_output_line();
    }

    /// Evaluates a whole source text.
    pub fn load_source(&mut self, src: &str)
        requires
            old(self).wf(),
        ensures
            final(self).wf(),
            final(self)@ == load_source(old(self)@, src@),
    {
        let all = chars_of(src);
        let t = trim_text(&all);
        if t.len() == 0 {
            return;
        }
        let h = chars_of("> [load source]");
        proof {
            lemma_texts_push(self.history@, h);
        }
        self.history.push(h);
        self.run_tokens(&t);
        self.flush_output_line();
        let mut m = chars_of("Loaded source (");
        let n = fmt_count(utf8_length(&t));
        append(&mut m, &n);
        append_str(&mut m, " chars).");
        self.out_text(m);
    }

    /// The data stack, one cell per line, bottom first.
    pub fn get_stack_text(&self) -> (s: String)
        ensures
            s@ == stack_text(self@),
    {
        let t = join_ints(&self.stack, 10, "\n");
        proof {
            lemma_dec_list(self.stack@);
        }
        to_std_string(&t)
    }

    /// The output lines, then the line in progress if it is not empty.
    pub fn get_output_text(&self) -> (s: String)
        ensures
            s@ == output_text(self@),
    {
        let mut text = join_texts(&self.output, "\n");
        if self.output_line.len() > 0 {
            if text.len() > 0 {
                append_str(&mut text, "\n");
            }
            append(&mut text, &self.output_line);
        }
        to_std_string(&text)
    }

    /// The REPL history, one entry per line.
    pub fn get_history_text(&self) -> (s: String)
        ensures
            s@ == history_text(self@),
    {
        to_std_string(&join_texts(&self.history, "\n"))
    }

    /// The dictionary's names in increasing order, one per line.
    pub fn get_dictionary_text(&self) -> (s: String)
        requires
            self.wf(),
        ensures
            s@ == dictionary_text(self@),
    {
        let names = self.dictionary.sorted_names();
        to_std_string(&join_texts(&names, "\n"))
    }

    /// The trace, one line per token and per op run.
    pub fn get_trace_text(&self) -> (s: String)
        ensures
            s@ == trace_text(self@),
    {
        to_std_string(&join_texts(&self.trace, "\n"))
    }

    /// One line per memory cell: `[addr] value`.
    pub fn get_memory_text(&self) -> (s: String)
        ensures
            s@ == memory_text(self@),
    {
        let mut items: Vec<Vec<char>> = Vec::new();
        let mut i: usize = 0;
        while i < self.memory.len()
            invariant
                i <= self.memory@.len(),
                texts(items@) == Seq::new(i as nat, |j: int| cell_line(j, self.memory@[j])),
            decreases self.memory.len() - i,
        {
            let mut line = chars_of("[");
            let a = fmt_count(i as u128);
            append(&mut line, &a);
            append_str(&mut line, "] ");
            let v = fmt_i32(self.memory[i]);
            append(&mut line, &v);
            proof {
                lemma_texts_push(items@, line);
            }
            items.push(line);
            i += 1;
            assert(texts(items@) =~= Seq::new(i as nat, |j: int| cell_line(j, self.memory@[j])));
        }
        assert(self@.memory.len() == i);
        assert(Seq::new(i as nat, |j: int| cell_line(j, self.memory@[j])) =~= Seq::new(
            self@.memory.len(),
            |j: int| cell_line(j, self@.memory[j]),
        ));
        to_std_string(&join_texts(&items, "\n"))
    }
}

} // verus!
