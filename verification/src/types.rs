//! The engine's data: primitive identities, compiled ops, dictionary
//! words, in-progress definitions and VM frames, each with its view.
use vstd::prelude::*;
use crate::text::{text_clone};

verus! {

/// The built-in words.
#[derive(Clone, Copy, PartialEq, Eq, Structural, Debug)]
pub enum PrimitiveId {
    Dup,
    Swap,
    Drop,
    Over,
    Rot,
    Add,
    Sub,
    Mul,
    Div,
    Mod,
    SlashMod,
    StarSlashMod,
    Eq,
    Lt,
    Gt,
    And,
    Or,
    Xor,
    Invert,
    LShift,
    RShift,
    CompileComma,
    Dot,
    DotS,
    Clear,
    ToR,
    FromR,
    RFetch,
    Fetch,
    Store,
    PlusStore,
    Words,
    Cr,
    Emit,
    Space,
    I,
    J,
    Allot,
    Execute,
    Here,
    Comma,
    Latest,
    Immediate,
    Create,
    If,
    Else,
    Then,
    Begin,
    Until,
    While,
    Repeat,
    Do,
    LoopPrim,
    PlusLoop,
    LeavePrim,
    LBracket,
    RBracket,
    Literal,
    DoesArrow,
    Postpone,
}

/// What a compiled op does.
pub enum OpKind {
    PushInt(i32),
    CallPrim(PrimitiveId),
    CallByName(Vec<char>),
    Branch0(usize),
    Jump(usize),
    Noop,
    LoopEnter,
    LoopNext(usize),
    LoopNextStep(usize),
    LeaveLoop(usize),
    Does,
    PostponeCall(Vec<char>),
    PrintStr(Vec<char>),
}

pub enum OpKindV {
    PushInt(i32),
    CallPrim(PrimitiveId),
    CallByName(Seq<char>),
    Branch0(usize),
    Jump(usize),
    Noop,
    LoopEnter,
    LoopNext(usize),
    LoopNextStep(usize),
    LeaveLoop(usize),
    Does,
    PostponeCall(Seq<char>),
    PrintStr(Seq<char>),
}

impl View for OpKind {
    type V = OpKindV;

    open spec fn view(&self) -> OpKindV {
        match self {
            OpKind::PushInt(n) => OpKindV::PushInt(*n),
            OpKind::CallPrim(p) => OpKindV::CallPrim(*p),
            OpKind::CallByName(t) => OpKindV::CallByName(t@),
            OpKind::Branch0(t) => OpKindV::Branch0(*t),
            OpKind::Jump(t) => OpKindV::Jump(*t),
            OpKind::Noop => OpKindV::Noop,
            OpKind::LoopEnter => OpKindV::LoopEnter,
            OpKind::LoopNext(t) => OpKindV::LoopNext(*t),
            OpKind::LoopNextStep(t) => OpKindV::LoopNextStep(*t),
            OpKind::LeaveLoop(t) => OpKindV::LeaveLoop(*t),
            OpKind::Does => OpKindV::Does,
            OpKind::PostponeCall(t) => OpKindV::PostponeCall(t@),
            OpKind::PrintStr(t) => OpKindV::PrintStr(t@),
        }
    }
}

/// A compiled op with the text that `SEE` and the trace show for it.
pub struct Op {
    pub label: Vec<char>,
    pub kind: OpKind,
}

pub struct OpV {
    pub label: Seq<char>,
    pub kind: OpKindV,
}

impl View for Op {
    type V = OpV;

    open spec fn view(&self) -> OpV {
        OpV { label: self.label@, kind: self.kind@ }
    }
}

pub open spec fn ops_view(v: Seq<Op>) -> Seq<OpV> {
    v.map_values(|o: Op| o@)
}

pub proof fn lemma_ops_push(v: Seq<Op>, o: Op)
    ensures
        ops_view(v.push(o)) == ops_view(v).push(o@),
{
    assert(ops_view(v.push(o)) =~= ops_view(v).push(o@));
}

/// A dictionary entry.
pub enum Word {
    Primitive(PrimitiveId),
    User(Vec<Op>),
    Variable(i32),
    Constant(i32),
    Created { data_addr: i32, does_ops: Option<Vec<Op>> },
}

pub enum WordV {
    Primitive(PrimitiveId),
    User(Seq<OpV>),
    Variable(i32),
    Constant(i32),
    Created { data_addr: i32, does_ops: Option<Seq<OpV>> },
}

impl View for Word {
    type V = WordV;

    open spec fn view(&self) -> WordV {
        match self {
            Word::Primitive(p) => WordV::Primitive(*p),
            Word::User(ops) => WordV::User(ops_view(ops@)),
            Word::Variable(a) => WordV::Variable(*a),
            Word::Constant(v) => WordV::Constant(*v),
            Word::Created { data_addr, does_ops } => WordV::Created {
                data_addr: *data_addr,
                does_ops: match does_ops {
                    Some(ops) => Some(ops_view(ops@)),
                    None => None,
                },
            },
        }
    }
}

/// Which word the next token names, for the words that read one.
#[derive(Clone, Copy, PartialEq, Eq, Structural, Debug)]
pub enum NextTokenConsumer {
    See,
    Variable,
    Constant(i32),
    Tick,
    Create(i32),
}

/// A colon definition being compiled.
pub struct Pending {
    pub name: Option<Vec<char>>,
    pub body: Vec<Op>,
    /// Positions of open `IF`/`ELSE`/`BEGIN`/`WHILE`/`DO` ops.
    pub cf_stack: Vec<usize>,
    /// For each open `DO`, the positions of its `LEAVE` ops.
    pub leave_stack: Vec<Vec<usize>>,
    pub pending_postpone: bool,
    pub anonymous: bool,
}

pub struct PendingV {
    pub name: Option<Seq<char>>,
    pub body: Seq<OpV>,
    pub cf_stack: Seq<usize>,
    pub leave_stack: Seq<Seq<usize>>,
    pub pending_postpone: bool,
    pub anonymous: bool,
}

pub open spec fn opt_text(t: Option<Vec<char>>) -> Option<Seq<char>> {
    match t {
        Some(x) => Some(x@),
        None => None,
    }
}

pub open spec fn nested_view(v: Seq<Vec<usize>>) -> Seq<Seq<usize>> {
    v.map_values(|x: Vec<usize>| x@)
}

impl View for Pending {
    type V = PendingV;

    open spec fn view(&self) -> PendingV {
        PendingV {
            name: opt_text(self.name),
            body: ops_view(self.body@),
            cf_stack: self.cf_stack@,
            leave_stack: nested_view(self.leave_stack@),
            pending_postpone: self.pending_postpone,
            anonymous: self.anonymous,
        }
    }
}

impl PendingV {
    /// Every recorded control-flow and `LEAVE` position lies in the body.
    pub open spec fn wf(self) -> bool {
        &&& forall|i: int| 0 <= i < self.cf_stack.len() ==> #[trigger] self.cf_stack[i]
            < self.body.len()
        &&& forall|i: int, j: int|
            0 <= i < self.leave_stack.len() && 0 <= j < self.leave_stack[i].len()
                ==> #[trigger] self.leave_stack[i][j] < self.body.len()
    }
}

/// An activation of a word body in the VM.
pub struct Frame {
    pub ops: Vec<Op>,
    pub pc: usize,
    pub return_label: Option<Vec<char>>,
}

pub struct FrameV {
    pub ops: Seq<OpV>,
    pub pc: usize,
    pub return_label: Option<Seq<char>>,
}

impl View for Frame {
    type V = FrameV;

    open spec fn view(&self) -> FrameV {
        FrameV { ops: ops_view(self.ops@), pc: self.pc, return_label: opt_text(self.return_label) }
    }
}

pub open spec fn frames_view(v: Seq<Frame>) -> Seq<FrameV> {
    v.map_values(|f: Frame| f@)
}

pub fn clone_op_kind(k: &OpKind) -> (r: OpKind)
    ensures
        r@ == k@,
{
    match k {
        OpKind::PushInt(n) => OpKind::PushInt(*n),
        OpKind::CallPrim(p) => OpKind::CallPrim(*p),
        OpKind::CallByName(t) => OpKind::CallByName(text_clone(t)),
        OpKind::Branch0(t) => OpKind::Branch0(*t),
        OpKind::Jump(t) => OpKind::Jump(*t),
        OpKind::Noop => OpKind::Noop,
        OpKind::LoopEnter => OpKind::LoopEnter,
        OpKind::LoopNext(t) => OpKind::LoopNext(*t),
        OpKind::LoopNextStep(t) => OpKind::LoopNextStep(*t),
        OpKind::LeaveLoop(t) => OpKind::LeaveLoop(*t),
        OpKind::Does => OpKind::Does,
        OpKind::PostponeCall(t) => OpKind::PostponeCall(text_clone(t)),
        OpKind::PrintStr(t) => OpKind::PrintStr(text_clone(t)),
    }
}

pub fn clone_op(o: &Op) -> (r: Op)
    ensures
        r@ == o@,
{
    Op { label: text_clone(&o.label), kind: clone_op_kind(&o.kind) }
}

/// Copies `v[from..]`.
pub fn clone_ops_from(v: &Vec<Op>, from: usize) -> (r: Vec<Op>)
    requires
        from <= v.len(),
    ensures
        ops_view(r@) == ops_view(v@).subrange(from as int, v@.len() as int),
{
    let mut r: Vec<Op> = Vec::new();
    let mut i: usize = from;
    while i < v.len()
        invariant
            from <= i <= v.len(),
            ops_view(r@) == ops_view(v@).subrange(from as int, i as int),
        decreases v.len() - i,
    {
        let o = clone_op(&v[i]);
        proof {
            lemma_ops_push(r@, o);
        }
        r.push(o);
        i += 1;
        assert(ops_view(r@) =~= ops_view(v@).subrange(from as int, i as int));
    }
    r
}

pub fn clone_ops(v: &Vec<Op>) -> (r: Vec<Op>)
    ensures
        ops_view(r@) == ops_view(v@),
{
    let r = clone_ops_from(v, 0);
    assert(ops_view(v@).subrange(0, v@.len() as int) =~= ops_view(v@));
    r
}

pub fn clone_opt_ops(v: &Option<Vec<Op>>) -> (r: Option<Vec<Op>>)
    ensures
        match (r, *v) {
            (Some(a), Some(b)) => ops_view(a@) == ops_view(b@),
            (None, None) => true,
            _ => false,
        },
{
    match v {
        Some(ops) => Some(clone_ops(ops)),
        None => None,
    }
}

pub fn clone_word(w: &Word) -> (r: Word)
    ensures
        r@ == w@,
{
    match w {
        Word::Primitive(p) => Word::Primitive(*p),
        Word::User(ops) => Word::User(clone_ops(ops)),
        Word::Variable(a) => Word::Variable(*a),
        Word::Constant(c) => Word::Constant(*c),
        Word::Created { data_addr, does_ops } => Word::Created {
            data_addr: *data_addr,
            does_ops: clone_opt_ops(does_ops),
        },
    }
}

} // verus!
