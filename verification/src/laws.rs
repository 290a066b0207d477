//! Properties of the engine as a whole, proved over the model.
use vstd::prelude::*;
use crate::text::trim;
use crate::model::{
    MachineV, push, pop, swap_step, dup_step, drop_step, store_step, fetch_step, here_step,
    comma_step, binary_result, slash_mod_step, star_slash_mod_step, addr_ok, define, intern,
};
use crate::semantics::{
    eval_repl, load_source, reset, finish_definition, run_tokens, fresh, install, install_order,
    empty_machine, primitive_name, immediate_names,
};
use crate::logs::{grows, prefix, lemma_run_from_grows};
use crate::number::{format_int, parse_int, lemma_int_text_roundtrip, dec};
use crate::model::{current_base};
use crate::text::{utf8_len, join};
use crate::order::{sorted, sorted_list, lemma_sorted_exists, lemma_sorted_no_duplicates};
use crate::model::{words_step, to_r_step, r_from_step, l_bracket_step, r_bracket_step, immediate_step};
use crate::semantics::{execute_xt, run_word};
use crate::semantics::{dictionary_text, output_text};
use crate::types::{PrimitiveId, WordV, OpV, PendingV};
use crate::text::{upper, upper_char};
use crate::number::{digit_value, digits_val, digits_valid, digits, int_text, is_upper_digit, lemma_digits_shape};
use crate::semantics::{do_dispatch, run_from, token_end, find_char, lemma_token_end, lemma_find_char, print_string, dispatch_token};
use crate::text::{skip_ws, lemma_skip_ws_bounds, is_ws};
use crate::model::{out, prim_step, op, set_branch0, set_forward, set_leave, patch_leaves};
use crate::types::OpKindV;
use crate::semantics::{labels, compile_token, execute_primitive, new_pending, handle_consumer, see_text};
use crate::types::NextTokenConsumer;
use crate::text::trail_end;
use crate::model::{
    compile_op, if_step, begin_step, while_step, do_step, does_arrow_step, until_step, leave_step,
    else_step, then_step, repeat_step, loop_step, close_do_loop,
};
use crate::logs::lemma_do_dispatch_grows;
use crate::model::STEP_LIMIT;
use crate::model::{rot_step, dot_step, dot_s_step};

verus! {

/// `SWAP SWAP` changes nothing when the stack holds two values.
pub proof fn law_swap_twice(m: MachineV)
    requires
        m.stack.len() >= 2,
    ensures
        swap_step(swap_step(m)) == m,
{
    let s = m.stack;
    assert(swap_step(swap_step(m)).stack =~= s);
}

/// `DUP DROP` changes nothing when the stack is not empty.
pub proof fn law_dup_drop(m: MachineV)
    requires
        m.stack.len() >= 1,
    ensures
        drop_step(dup_step(m)) == m,
{
    assert(drop_step(dup_step(m)).stack =~= m.stack);
}

/// Reading a cell gives back what `!` last wrote there: after
/// `v addr !`, `addr @` pushes `v`.
pub proof fn law_store_fetch(m: MachineV, v: i32, addr: i32)
    requires
        addr_ok(m, addr),
    ensures
        ({
            let stored = store_step(push(push(m, v), addr));
            &&& stored.memory == m.memory.update(addr as int, v)
            &&& stored.stack == m.stack
            &&& fetch_step(push(stored, addr)) == push(stored, v)
        }),
{
    let stored = store_step(push(push(m, v), addr));
    assert(stored.stack =~= m.stack);
    assert(push(stored, addr).stack.drop_last() =~= stored.stack);
}

/// `HERE` names the cell that `,` fills next: after `v ,` that cell holds
/// `v`, and memory grew by exactly that cell.
pub proof fn law_here_comma(m: MachineV, v: i32)
    requires
        m.memory.len() < i32::MAX,
    ensures
        ({
            let h = here_step(m).stack.last();
            let c = comma_step(push(m, v));
            &&& h == m.memory.len()
            &&& c.memory == m.memory.push(v)
            &&& c.memory[h as int] == v
            &&& c.stack == m.stack
        }),
{
    assert(comma_step(push(m, v)).stack =~= m.stack);
}

/// `=`, `<` and `>` leave a Forth flag: -1 when the relation holds, else 0.
pub proof fn law_comparison_flags(a: i32, b: i32)
    ensures
        binary_result(PrimitiveId::Eq, a, b) == (if a == b {
            -1i32
        } else {
            0i32
        }),
        binary_result(PrimitiveId::Lt, a, b) == (if a < b {
            -1i32
        } else {
            0i32
        }),
        binary_result(PrimitiveId::Gt, a, b) == (if a > b {
            -1i32
        } else {
            0i32
        }),
{
}

/// `/MOD` leaves a remainder and a quotient with `quot * b + rem == a`,
/// the remainder smaller than the divisor and of the dividend's sign,
/// whenever the division is defined.
pub proof fn law_slash_mod(m: MachineV, a: i32, b: i32)
    requires
        b != 0,
        !(a == i32::MIN && b == -1),
    ensures
        ({
            let r = slash_mod_step(push(push(m, a), b));
            &&& r.stack.len() == m.stack.len() + 2
            &&& r.stack.subrange(0, m.stack.len() as int) == m.stack
            &&& r.stack[m.stack.len() as int + 1] * b + r.stack[m.stack.len() as int] == a
            &&& (if b > 0 {
                -b < r.stack[m.stack.len() as int] < b
            } else {
                b < r.stack[m.stack.len() as int] < -b
            })
            &&& (a >= 0 ==> r.stack[m.stack.len() as int] >= 0)
            &&& (a <= 0 ==> r.stack[m.stack.len() as int] <= 0)
        }),
{
    let x = a as int;
    let d = b as int;
    let mm = push(push(m, a), b);
    assert(pop(mm).1.stack =~= m.stack.push(a));
    assert(pop(pop(mm).1).1.stack =~= m.stack);
    if x > 0 && d > 0 {
        assert(0 <= x / d <= x && 0 <= x % d < d && (x / d) * d + x % d == x)
            by (nonlinear_arith)
            requires
                x > 0,
                d > 0,
        ;
    } else if x < 0 && d < 0 {
        let nx = x * -1;
        let nd = d * -1;
        assert(0 <= nx / nd <= nx && 0 <= nx % nd < nd && (nx / nd) * nd + nx % nd == nx)
            by (nonlinear_arith)
            requires
                nx > 0,
                nd > 0,
        ;
        if nd >= 2 {
            assert(nx / nd <= nx / 2) by (nonlinear_arith)
                requires
                    nx > 0,
                    nd >= 2,
            ;
        }
    } else if x < 0 {
        let nx = x * -1;
        assert(0 <= nx / d <= nx && 0 <= nx % d < d && (nx / d) * d + nx % d == nx)
            by (nonlinear_arith)
            requires
                nx > 0,
                d > 0,
        ;
    } else if x > 0 {
        let nd = d * -1;
        assert(0 <= x / nd <= x && 0 <= x % nd < nd && (x / nd) * nd + x % nd == x)
            by (nonlinear_arith)
            requires
                x > 0,
                nd > 0,
        ;
    }
    assert(a.checked_rem(b) is Some);
    assert(a.checked_div(b) is Some);
    let r = slash_mod_step(mm);
    let rem = a.checked_rem(b).unwrap();
    let quo = a.checked_div(b).unwrap();
    assert(r.stack =~= m.stack.push(rem).push(quo));
    assert(r.stack.subrange(0, m.stack.len() as int) =~= m.stack);
    assert(quo * d + rem == x) by (nonlinear_arith)
        requires
            (x == 0 && quo == 0 && rem == 0) || (x > 0 && d > 0 && quo == x / d && rem == x % d
                && (x / d) * d + x % d == x) || (x < 0 && d < 0 && quo == (x * -1) / (d * -1)
                && rem == ((x * -1) % (d * -1)) * -1 && ((x * -1) / (d * -1)) * (d * -1) + (x
                * -1) % (d * -1) == x * -1) || (x < 0 && d > 0 && quo == ((x * -1) / d) * -1
                && rem == ((x * -1) % d) * -1 && ((x * -1) / d) * d + (x * -1) % d == x * -1)
                || (x > 0 && d < 0 && quo == (x / (d * -1)) * -1 && rem == x % (d * -1) && (x
                / (d * -1)) * (d * -1) + x % (d * -1) == x),
    ;
}

/// `|x|`.
pub open spec fn abs(x: int) -> int {
    if x < 0 {
        -x
    } else {
        x
    }
}

/// The quotient of `x` by `d`, truncated toward zero.
pub open spec fn trunc_quot(x: int, d: int) -> int {
    if (x < 0) == (d < 0) {
        abs(x) / abs(d)
    } else {
        -(abs(x) / abs(d))
    }
}

/// Truncated division, written out case by case as the fixed-width
/// `checked_div` and `checked_rem` compute it.
proof fn lemma_trunc(x: int, d: int)
    requires
        d != 0,
    ensures
        abs(trunc_quot(x, d)) <= abs(x),
        -abs(d) < x - trunc_quot(x, d) * d < abs(d),
        x > 0 ==> x - trunc_quot(x, d) * d >= 0,
        x < 0 ==> x - trunc_quot(x, d) * d <= 0,
        trunc_quot(x, d) == (if x == 0 {
            0
        } else if x > 0 && d > 0 {
            x / d
        } else if x < 0 && d < 0 {
            (x * -1) / (d * -1)
        } else if x < 0 {
            ((x * -1) / d) * -1
        } else {
            (x / (d * -1)) * -1
        }),
        x - trunc_quot(x, d) * d == (if x == 0 {
            0
        } else if x > 0 && d > 0 {
            x % d
        } else if x < 0 && d < 0 {
            ((x * -1) % (d * -1)) * -1
        } else if x < 0 {
            ((x * -1) % d) * -1
        } else {
            x % (d * -1)
        }),
{
    let nx = abs(x);
    let nd = abs(d);
    assert(0 <= nx / nd <= nx && 0 <= nx % nd < nd && (nx / nd) * nd + nx % nd == nx)
        by (nonlinear_arith)
        requires
            nx >= 0,
            nd > 0,
    ;
    let q = trunc_quot(x, d);
    assert(x - q * d == (if x < 0 { -(nx % nd) } else { nx % nd })) by (nonlinear_arith)
        requires
            nx == abs(x),
            nd == abs(d),
            q == trunc_quot(x, d),
            (nx / nd) * nd + nx % nd == nx,
    ;
    if x == 0 {
        assert(0int / nd == 0) by (nonlinear_arith)
            requires
                nd > 0,
        ;
    }
}

/// `*/MOD` is the scaled divide: the exact product `a*b` divided by `c`,
/// truncating toward zero. It leaves the remainder (smaller than the
/// divisor, of the product's sign) and then the quotient, wrapped to a cell
/// (the quotient itself whenever it fits).
pub proof fn law_scaled_divide(m: MachineV, a: i32, b: i32, c: i32)
    requires
        c != 0,
    ensures
        ({
            let p = a * b;
            let q = trunc_quot(p, c as int);
            let r = star_slash_mod_step(push(push(push(m, a), b), c));
            &&& r.stack == m.stack.push((p - q * c) as i32).push(q as i32)
            &&& r.output == m.output
        }),
        i32::MIN <= trunc_quot(a * b, c as int) <= i32::MAX ==> (trunc_quot(a * b, c as int) as i32)
            == trunc_quot(a * b, c as int),
        -abs(c as int) < a * b - trunc_quot(a * b, c as int) * c < abs(c as int),
        a * b > 0 ==> a * b - trunc_quot(a * b, c as int) * c >= 0,
        a * b < 0 ==> a * b - trunc_quot(a * b, c as int) * c <= 0,
{
    let x = a * b;
    let d = c as int;
    assert(-0x4000_0000_0000_0000 <= x <= 0x4000_0000_0000_0000) by (nonlinear_arith)
        requires
            x == a * b,
            -0x8000_0000 <= a <= 0x7fff_ffff,
            -0x8000_0000 <= b <= 0x7fff_ffff,
    ;
    lemma_trunc(x, d);
    let mm = push(push(push(m, a), b), c);
    assert(pop(mm).1.stack =~= m.stack.push(a).push(b));
    assert(pop(pop(mm).1).1.stack =~= m.stack.push(a));
    assert(pop(pop(pop(mm).1).1).1.stack =~= m.stack);
    let prod = x as i64;
    assert(prod as int == x);
}

/// A line of nothing but whitespace changes nothing.
pub proof fn law_blank_line(m: MachineV, line: Seq<char>)
    requires
        trim(line).len() == 0,
    ensures
        eval_repl(m, line) == m,
{
}

/// `reset` empties both stacks, the partial output line and any
/// compilation in progress, and keeps the dictionary, memory, immediate
/// words and execution tokens.
pub proof fn law_reset(m: MachineV)
    ensures
        reset(m).stack.len() == 0,
        reset(m).return_stack.len() == 0,
        reset(m).output_line.len() == 0,
        reset(m).compiling is None,
        reset(m).paused_compile is None,
        reset(m).next_consumer is None,
        reset(m).dictionary == m.dictionary,
        reset(m).memory == m.memory,
        reset(m).immediate_words == m.immediate_words,
        reset(m).xt_table == m.xt_table,
        reset(m).latest == m.latest,
{
}

/// An execution token, once given, is the same every time it is asked
/// for, and asking again does not grow the table.
pub proof fn law_xt_stable(m: MachineV, name: Seq<char>)
    ensures
        intern(intern(m, name).1, name) == (intern(m, name).0, intern(m, name).1),
{
    let s = m.xt_table;
    let m1 = intern(m, name).1;
    if s.contains(name) {
    } else {
        let t = s.push(name);
        assert(t[s.len() as int] == name);
        assert(t.contains(name));
        let c = crate::dict::xt_index(t, name);
        assert(0 <= c < t.len() && t[c] == name);
        if c < s.len() {
            assert(s[c] == name);
        }
        assert(c == s.len());
    }
}

/// A definition reads back as written: after defining `name` as `w`,
/// looking `name` up gives `w`, and every other name is unchanged.
pub proof fn law_define_lookup(m: MachineV, name: Seq<char>, w: WordV, other: Seq<char>)
    requires
        other != name,
    ensures
        define(m, name, w).dictionary[name] == w,
        define(m, name, w).dictionary.contains_key(other) == m.dictionary.contains_key(other),
        define(m, name, w).dictionary[other] == m.dictionary[other],
        define(m, name, w).latest == Some(name),
{
}

/// `;` on a balanced named definition binds the name to the compiled
/// body and leaves compile mode; on an unbalanced one it leaves the
/// dictionary as it was.
pub proof fn law_semicolon(m: MachineV)
    requires
        m.compiling is Some,
        m.compiling->0.name is Some,
    ensures
        ({
            let p = m.compiling->0;
            let r = finish_definition(m);
            &&& r.compiling is None
            &&& (p.cf_stack.len() == 0 ==> r.dictionary == m.dictionary.insert(
                p.name->0,
                WordV::User(p.body),
            ))
            &&& (p.cf_stack.len() > 0 ==> r.dictionary == m.dictionary)
        }),
{
}


/// Running tokens never touches the history, only appends to the
/// output, the trace and the execution tokens, and never shrinks memory.
pub proof fn law_tokens_append_only(m: MachineV, s: Seq<char>)
    ensures
        grows(m, run_tokens(m, s)),
{
    lemma_run_from_grows(m, s, 0, 0);
}

/// A non-blank REPL line adds exactly one history entry, `> ` and the
/// trimmed line, and only appends to the output and the trace.
pub proof fn law_eval_repl_history(m: MachineV, line: Seq<char>)
    requires
        trim(line).len() > 0,
    ensures
        eval_repl(m, line).history == m.history.push("> "@ + trim(line)),
        prefix(m.output, eval_repl(m, line).output),
        prefix(m.trace, eval_repl(m, line).trace),
{
    let t = trim(line);
    let m1 = MachineV { history: m.history.push("> "@ + t), ..m };
    lemma_run_from_grows(m1, t, 0, 0);
}

/// Loading a non-blank source adds the history entry `> [load source]`
/// and ends the output with the count of its bytes.
pub proof fn law_load_source_report(m: MachineV, src: Seq<char>)
    requires
        trim(src).len() > 0,
    ensures
        load_source(m, src).history == m.history.push("> [load source]"@),
        load_source(m, src).output.last() == "Loaded source ("@ + dec(utf8_len(trim(src)) as int)
            + " chars)."@,
        prefix(m.output, load_source(m, src).output),
{
    let t = trim(src);
    let m1 = MachineV { history: m.history.push("> [load source]"@), ..m };
    lemma_run_from_grows(m1, t, 0, 0);
}

/// What `.` prints for a number (before its trailing space) reads back,
/// as a literal in the same `BASE`, as that number.
pub proof fn law_print_read(m: MachineV, n: i32)
    ensures
        parse_int(format_int(n, current_base(m)), current_base(m) as nat) == Some(n),
{
    lemma_int_text_roundtrip(n, current_base(m) as nat);
}

proof fn lemma_install_keeps(m: MachineV, ps: Seq<crate::types::PrimitiveId>)
    ensures
        install(m, ps).stack == m.stack,
        install(m, ps).memory == m.memory,
        install(m, ps).output == m.output,
        install(m, ps).compiling == m.compiling,
        install(m, ps).return_stack == m.return_stack,
    decreases ps.len(),
{
    if ps.len() > 0 {
        lemma_install_keeps(m, ps.drop_last());
    }
}

/// No primitive is called `BASE`.
proof fn lemma_base_not_primitive(p: crate::types::PrimitiveId)
    ensures
        primitive_name(p) != "BASE"@,
{
    reveal_strlit("BASE");
    match p {
        PrimitiveId::Dup => reveal_strlit("DUP"),
        PrimitiveId::Swap => reveal_strlit("SWAP"),
        PrimitiveId::Drop => reveal_strlit("DROP"),
        PrimitiveId::Over => reveal_strlit("OVER"),
        PrimitiveId::Rot => reveal_strlit("ROT"),
        PrimitiveId::Add => reveal_strlit("+"),
        PrimitiveId::Sub => reveal_strlit("-"),
        PrimitiveId::Mul => reveal_strlit("*"),
        PrimitiveId::Div => reveal_strlit("/"),
        PrimitiveId::Mod => reveal_strlit("MOD"),
        PrimitiveId::SlashMod => reveal_strlit("/MOD"),
        PrimitiveId::StarSlashMod => reveal_strlit("*/MOD"),
        PrimitiveId::Eq => reveal_strlit("="),
        PrimitiveId::Lt => reveal_strlit("<"),
        PrimitiveId::Gt => reveal_strlit(">"),
        PrimitiveId::And => reveal_strlit("AND"),
        PrimitiveId::Or => reveal_strlit("OR"),
        PrimitiveId::Xor => reveal_strlit("XOR"),
        PrimitiveId::Invert => reveal_strlit("INVERT"),
        PrimitiveId::LShift => reveal_strlit("LSHIFT"),
        PrimitiveId::RShift => reveal_strlit("RSHIFT"),
        PrimitiveId::CompileComma => reveal_strlit("COMPILE,"),
        PrimitiveId::If => reveal_strlit("IF"),
        PrimitiveId::Else => reveal_strlit("ELSE"),
        PrimitiveId::Then => reveal_strlit("THEN"),
        PrimitiveId::Begin => reveal_strlit("BEGIN"),
        PrimitiveId::Until => reveal_strlit("UNTIL"),
        PrimitiveId::While => reveal_strlit("WHILE"),
        PrimitiveId::Repeat => reveal_strlit("REPEAT"),
        PrimitiveId::Do => reveal_strlit("DO"),
        PrimitiveId::LoopPrim => reveal_strlit("LOOP"),
        PrimitiveId::PlusLoop => reveal_strlit("+LOOP"),
        PrimitiveId::LeavePrim => reveal_strlit("LEAVE"),
        PrimitiveId::LBracket => reveal_strlit("["),
        PrimitiveId::RBracket => reveal_strlit("]"),
        PrimitiveId::Literal => reveal_strlit("LITERAL"),
        PrimitiveId::DoesArrow => reveal_strlit("DOES>"),
        PrimitiveId::Postpone => reveal_strlit("POSTPONE"),
        PrimitiveId::Dot => reveal_strlit("."),
        PrimitiveId::DotS => reveal_strlit(".S"),
        PrimitiveId::Clear => reveal_strlit("CLEAR"),
        PrimitiveId::ToR => reveal_strlit(">R"),
        PrimitiveId::FromR => reveal_strlit("R>"),
        PrimitiveId::RFetch => reveal_strlit("R@"),
        PrimitiveId::Fetch => reveal_strlit("@"),
        PrimitiveId::Store => reveal_strlit("!"),
        PrimitiveId::PlusStore => reveal_strlit("+!"),
        PrimitiveId::Words => reveal_strlit("WORDS"),
        PrimitiveId::Cr => reveal_strlit("CR"),
        PrimitiveId::Emit => reveal_strlit("EMIT"),
        PrimitiveId::Space => reveal_strlit("SPACE"),
        PrimitiveId::I => reveal_strlit("I"),
        PrimitiveId::J => reveal_strlit("J"),
        PrimitiveId::Allot => reveal_strlit("ALLOT"),
        PrimitiveId::Execute => reveal_strlit("EXECUTE"),
        PrimitiveId::Here => reveal_strlit("HERE"),
        PrimitiveId::Comma => reveal_strlit(","),
        PrimitiveId::Latest => reveal_strlit("LATEST"),
        PrimitiveId::Immediate => reveal_strlit("IMMEDIATE"),
        PrimitiveId::Create => reveal_strlit("CREATE"),
    }
    assert(primitive_name(p).len() != 4 || primitive_name(p)[0] != 'B' || primitive_name(p)[1] != 'A');
}

proof fn lemma_install_keeps_other(m: MachineV, ps: Seq<crate::types::PrimitiveId>, k: Seq<char>)
    requires
        forall|i: int| 0 <= i < ps.len() ==> primitive_name(#[trigger] ps[i]) != k,
    ensures
        install(m, ps).dictionary.contains_key(k) == m.dictionary.contains_key(k),
        install(m, ps).dictionary[k] == m.dictionary[k],
    decreases ps.len(),
{
    if ps.len() > 0 {
        assert(primitive_name(ps[ps.len() - 1]) != k);
        lemma_install_keeps_other(m, ps.drop_last(), k);
    }
}

/// A fresh machine has empty stacks, is not compiling, holds `BASE` at
/// cell 0 with the radix 10, and names `LATEST` as its latest word, so
/// `LATEST` on a fresh machine yields the token of `LATEST` itself.
pub proof fn law_fresh_machine()
    ensures
        fresh().stack.len() == 0,
        fresh().return_stack.len() == 0,
        fresh().compiling is None,
        fresh().memory == seq![10i32],
        current_base(fresh()) == 10,
        fresh().dictionary["BASE"@] == WordV::Variable(0),
        fresh().latest == Some("LATEST"@),
{
    let m = empty_machine();
    let m0 = define(MachineV { memory: m.memory.push(10i32), ..m }, "BASE"@, WordV::Variable(0));
    lemma_install_keeps(m0, install_order());
    assert forall|i: int| 0 <= i < install_order().len() implies primitive_name(
        #[trigger] install_order()[i],
    ) != "BASE"@ by {
        lemma_base_not_primitive(install_order()[i]);
    }
    lemma_install_keeps_other(m0, install_order(), "BASE"@);
    assert(fresh().memory =~= seq![10i32]);
}

/// `WORDS` and the dictionary pane list every defined name exactly once,
/// in increasing order.
pub proof fn law_words_listing(m: MachineV)
    requires
        m.dictionary.dom().finite(),
    ensures
        ({
            let l = sorted_list(m.dictionary.dom());
            &&& sorted(l)
            &&& l.no_duplicates()
            &&& l.to_set() == m.dictionary.dom()
            &&& words_step(m).output.last() == "WORDS: "@ + join(l, " "@)
            &&& dictionary_text(m) == join(l, "\n"@)
        }),
{
    lemma_sorted_exists(m.dictionary.dom());
    lemma_sorted_no_duplicates(sorted_list(m.dictionary.dom()));
}


/// `>R R>` changes nothing when the data stack is not empty.
pub proof fn law_to_r_from_r(m: MachineV)
    requires
        m.stack.len() >= 1,
    ensures
        r_from_step(to_r_step(m)) == m,
{
    assert(r_from_step(to_r_step(m)).stack =~= m.stack);
    assert(r_from_step(to_r_step(m)).return_stack =~= m.return_stack);
}

/// `[` followed by `]` resumes the definition that `[` paused.
pub proof fn law_brackets(m: MachineV)
    requires
        m.compiling is Some,
        m.paused_compile is None,
    ensures
        r_bracket_step(l_bracket_step(m)) == m,
{
}

/// `IMMEDIATE` marks the latest definition as immediate.
pub proof fn law_immediate(m: MachineV)
    requires
        m.latest is Some,
    ensures
        immediate_step(m).immediate_words.contains(m.latest->0),
        immediate_step(m).dictionary == m.dictionary,
{
}

/// `' name EXECUTE` runs the word `name`: the token that tick leaves,
/// once executed, runs the word it was taken from.
pub proof fn law_tick_execute(m: MachineV, name: Seq<char>, fuel: nat)
    requires
        m.dictionary.contains_key(name),
        m.xt_table.len() < i32::MAX,
    ensures
        ({
            let (xt, m1) = intern(m, name);
            execute_xt(push(m1, xt), fuel) == run_word(m1, m1.dictionary[name], fuel)
        }),
{
    let s = m.xt_table;
    let (xt, m1) = intern(m, name);
    if s.contains(name) {
        crate::dict::lemma_xt_index(s, name);
    } else {
        assert(m1.xt_table[s.len() as int] == name);
    }
    let m2 = push(m1, xt);
    assert(m2.stack.drop_last() =~= m1.stack);
    assert((MachineV { stack: m2.stack.drop_last(), ..m2 }) == m1);
}


proof fn lemma_install_dom(m: MachineV, ps: Seq<crate::types::PrimitiveId>)
    ensures
        install(m, ps).dictionary.dom() == m.dictionary.dom().union(
            ps.map_values(|p: crate::types::PrimitiveId| primitive_name(p)).to_set(),
        ),
        install(m, ps).immediate_words == m.immediate_words,
    decreases ps.len(),
{
    let names = ps.map_values(|p: crate::types::PrimitiveId| primitive_name(p));
    if ps.len() == 0 {
        assert(names.to_set() =~= Set::<Seq<char>>::empty());
        assert(m.dictionary.dom().union(names.to_set()) =~= m.dictionary.dom());
    } else {
        lemma_install_dom(m, ps.drop_last());
        let prev = ps.drop_last().map_values(|p: crate::types::PrimitiveId| primitive_name(p));
        assert(names =~= prev.push(primitive_name(ps.last())));
        prev.lemma_push_to_set_commute(primitive_name(ps.last()));
        assert(install(m, ps).dictionary.dom() =~= m.dictionary.dom().union(names.to_set()));
    }
}

/// A fresh machine defines exactly the primitives and `BASE`, and its
/// immediate words are the compile-time helpers.
pub proof fn law_fresh_dictionary()
    ensures
        fresh().dictionary.dom() == install_order().map_values(
            |p: crate::types::PrimitiveId| primitive_name(p),
        ).to_set().insert("BASE"@),
        fresh().immediate_words == immediate_names().to_set(),
{
    let m = empty_machine();
    let m0 = define(MachineV { memory: m.memory.push(10i32), ..m }, "BASE"@, WordV::Variable(0));
    lemma_install_dom(m0, install_order());
    let names = install_order().map_values(|p: crate::types::PrimitiveId| primitive_name(p));
    assert(m0.dictionary.dom() =~= set!["BASE"@]);
    assert(fresh().dictionary.dom() =~= names.to_set().insert("BASE"@));
    assert(Set::<Seq<char>>::empty().union(immediate_names().to_set()) =~= immediate_names().to_set());
}

/// Upper-casing a character twice is upper-casing it once, and a letter
/// has the same digit value in either case.
proof fn lemma_upper_char(c: char)
    ensures
        upper_char(upper_char(c)) == upper_char(c),
        digit_value(upper_char(c)) == digit_value(c),
        (upper_char(c) == '-') == (c == '-'),
        (upper_char(c) == '+') == (c == '+'),
{
    if 'a' <= c && c <= 'z' {
        assert((c as u32) == (c as u8) as u32);
        let u = (((c as u8) - 32) as u8) as char;
        assert(u as u32 == c as u32 - 32);
        assert('A' <= u && u <= 'Z');
    }
}

proof fn lemma_upper_idem(s: Seq<char>)
    ensures
        upper(upper(s)) == upper(s),
{
    assert forall|i: int| 0 <= i < s.len() implies #[trigger] upper(upper(s))[i] == upper(s)[i] by {
        lemma_upper_char(s[i]);
    }
    assert(upper(upper(s)) =~= upper(s));
}

proof fn lemma_digits_upper(s: Seq<char>, base: nat)
    ensures
        digits_val(upper(s), base) == digits_val(s, base),
        digits_valid(upper(s), base) == digits_valid(s, base),
    decreases s.len(),
{
    assert forall|i: int| 0 <= i < s.len() implies digit_value(#[trigger] upper(s)[i]) == digit_value(s[i]) by {
        lemma_upper_char(s[i]);
    }
    if digits_valid(upper(s), base) {
        assert forall|i: int| 0 <= i < s.len() implies digit_value(#[trigger] s[i]) < base by {
            assert(digit_value(upper(s)[i]) < base);
        }
    }
    if s.len() > 0 {
        assert(upper(s).drop_last() =~= upper(s.drop_last()));
        lemma_digits_upper(s.drop_last(), base);
    }
}

/// A literal reads the same in either case.
proof fn lemma_parse_upper(t: Seq<char>, base: nat)
    ensures
        parse_int(upper(t), base) == parse_int(t, base),
{
    if t.len() > 0 {
        lemma_upper_char(t[0]);
        assert(upper(t).drop_first() =~= upper(t.drop_first()));
        lemma_digits_upper(t, base);
        lemma_digits_upper(t.drop_first(), base);
    }
}

/// Two machines that differ at most in the text of their messages and in
/// the labels of the ops being compiled.
pub open spec fn alike(a: MachineV, b: MachineV) -> bool {
    &&& (MachineV { output: b.output, compiling: b.compiling, ..a }) == b
    &&& a.output.len() == b.output.len()
    &&& match (a.compiling, b.compiling) {
        (None, None) => true,
        (Some(p), Some(q)) => {
            &&& (PendingV { body: q.body, ..p }) == q
            &&& p.body.map_values(|o: OpV| o.kind) == q.body.map_values(|o: OpV| o.kind)
        },
        _ => false,
    }
}

/// A token and its upper-cased form act alike: word names and numeric
/// literals are case-insensitive. The two runs leave the same stacks,
/// memory, dictionary, execution tokens, modes and step budget; only the
/// wording of a message, and the label under which a literal is compiled,
/// may keep the token as it was typed.
#[verifier::spinoff_prover]
pub proof fn law_case_insensitive(m: MachineV, t: Seq<char>, fuel: nat)
    ensures
        do_dispatch(m, t, fuel).1 == do_dispatch(m, upper(t), fuel).1,
        alike(do_dispatch(m, t, fuel).0, do_dispatch(m, upper(t), fuel).0),
{
    lemma_upper_idem(t);
    lemma_parse_upper(t, current_base(m) as nat);
    let r1 = do_dispatch(m, t, fuel).0;
    let r2 = do_dispatch(m, upper(t), fuel).0;
    match (r1.compiling, r2.compiling) {
        (Some(p), Some(q)) => {
            assert(p.body.map_values(|o: OpV| o.kind) =~= q.body.map_values(|o: OpV| o.kind));
        },
        _ => {},
    }
}

/// Reading `s` from `i`, inside `depth` open `(` comments, closes every
/// `(` comment and finds the closing quote of every `."` string.
pub open spec fn closes_all(s: Seq<char>, i: int, depth: nat) -> bool
    decreases s.len() - i,
{
    if i < 0 || i > s.len() || skip_ws(s, i) >= s.len() {
        depth == 0
    } else {
        let j = skip_ws(s, i);
        proof {
            lemma_skip_ws_bounds(s, i);
            lemma_token_end(s, j);
        }
        let k = token_end(s, j);
        let tok = s.subrange(j, k);
        if tok == "\\"@ {
            proof {
                lemma_find_char(s, k, '\n');
            }
            closes_all(s, find_char(s, k, '\n'), depth)
        } else if tok == "("@ {
            closes_all(s, k, depth + 1)
        } else if tok == ")"@ {
            closes_all(
                s,
                k,
                if depth > 0 {
                    (depth - 1) as nat
                } else {
                    0
                },
            )
        } else if depth > 0 {
            closes_all(s, k, depth)
        } else if tok == ".\""@ {
            proof {
                lemma_skip_ws_bounds(s, k);
                lemma_find_char(s, skip_ws(s, k), '"');
            }
            let a = skip_ws(s, k);
            let e = find_char(s, a, '"');
            e < s.len() && closes_all(s, e + 1, depth)
        } else {
            closes_all(s, k, depth)
        }
    }
}

proof fn lemma_shift_scan(p: Seq<char>, s: Seq<char>, j: int, c: char)
    requires
        0 <= j <= s.len(),
    ensures
        skip_ws(p + s, p.len() + j) == p.len() + skip_ws(s, j),
        token_end(p + s, p.len() + j) == p.len() + token_end(s, j),
        find_char(p + s, p.len() + j, c) == p.len() + find_char(s, j, c),
    decreases s.len() - j,
{
    if j < s.len() {
        assert((p + s)[p.len() + j] == s[j]);
        lemma_shift_scan(p, s, j + 1, c);
    }
}

/// One step of reading `s` from `i` inside `depth` comments: the machine,
/// position and depth after the next token.
pub open spec fn scan_step(m: MachineV, s: Seq<char>, i: int, depth: nat) -> (MachineV, int, nat) {
    let j = skip_ws(s, i);
    let k = token_end(s, j);
    let tok = s.subrange(j, k);
    if tok == "\\"@ {
        (m, find_char(s, k, '\n'), depth)
    } else if tok == "("@ {
        (m, k, depth + 1)
    } else if tok == ")"@ {
        if depth > 0 {
            (m, k, (depth - 1) as nat)
        } else {
            (out(m, "): unmatched"@), k, 0)
        }
    } else if depth > 0 {
        (m, k, depth)
    } else if tok == ".\""@ {
        let a = skip_ws(s, k);
        let e = find_char(s, a, '"');
        let m1 = if e < s.len() {
            m
        } else {
            out(m, ".\": missing closing quote"@)
        };
        (
            print_string(m1, s.subrange(a, e)),
            if e < s.len() {
                e + 1
            } else {
                e
            },
            depth,
        )
    } else {
        (dispatch_token(m, tok), k, depth)
    }
}

proof fn lemma_scan_step(m: MachineV, s: Seq<char>, i: int, d: nat)
    requires
        0 <= i <= s.len(),
        skip_ws(s, i) < s.len(),
    ensures
        i < scan_step(m, s, i, d).1 <= s.len(),
        run_from(m, s, i, d) == run_from(
            scan_step(m, s, i, d).0,
            s,
            scan_step(m, s, i, d).1,
            scan_step(m, s, i, d).2,
        ),
{
    lemma_skip_ws_bounds(s, i);
    let j = skip_ws(s, i);
    lemma_token_end(s, j);
    let k = token_end(s, j);
    lemma_find_char(s, k, '\n');
    lemma_skip_ws_bounds(s, k);
    lemma_find_char(s, skip_ws(s, k), '"');
}

proof fn lemma_scan_step_shift(m: MachineV, p: Seq<char>, s: Seq<char>, j: int, d: nat)
    requires
        0 <= j <= s.len(),
        skip_ws(s, j) < s.len(),
    ensures
        scan_step(m, p + s, p.len() + j, d) == (
            scan_step(m, s, j, d).0,
            p.len() + scan_step(m, s, j, d).1,
            scan_step(m, s, j, d).2,
        ),
{
    let c = p + s;
    let n = p.len() as int;
    lemma_skip_ws_bounds(s, j);
    let jj = skip_ws(s, j);
    lemma_shift_scan(p, s, j, '\n');
    lemma_token_end(s, jj);
    lemma_shift_scan(p, s, jj, '\n');
    let k = token_end(s, jj);
    assert(c.subrange(n + jj, n + k) =~= s.subrange(jj, k));
    lemma_shift_scan(p, s, k, '\n');
    lemma_skip_ws_bounds(s, k);
    let a = skip_ws(s, k);
    lemma_shift_scan(p, s, a, '"');
    lemma_find_char(s, a, '"');
    let e = find_char(s, a, '"');
    assert(c.subrange(n + a, n + e) =~= s.subrange(a, e));
}

/// Running the text after a prefix is running that text alone.
proof fn lemma_shift_run(m: MachineV, p: Seq<char>, s: Seq<char>, j: int, d: nat)
    requires
        0 <= j <= s.len(),
    ensures
        run_from(m, p + s, p.len() + j, d) == run_from(m, s, j, d),
    decreases s.len() - j,
{
    let c = p + s;
    lemma_shift_scan(p, s, j, '\n');
    lemma_skip_ws_bounds(s, j);
    if skip_ws(s, j) < s.len() {
        lemma_scan_step(m, s, j, d);
        lemma_scan_step_shift(m, p, s, j, d);
        lemma_scan_step(m, c, p.len() + j, d);
        let r = scan_step(m, s, j, d);
        lemma_shift_run(r.0, p, s, r.1, r.2);
    }
}

/// Scanning `a + "\n" + b` from inside `a` sees what scanning `a` sees,
/// the newline ending whatever `a` left open.
proof fn lemma_prefix_scan(a: Seq<char>, b: Seq<char>, i: int, ch: char)
    requires
        0 <= i <= a.len(),
    ensures
        token_end(a + seq!['\n'] + b, i) == token_end(a, i),
        find_char(a + seq!['\n'] + b, i, '\n') == find_char(a, i, '\n'),
        find_char(a, i, ch) < a.len() ==> find_char(a + seq!['\n'] + b, i, ch) == find_char(a, i, ch),
        skip_ws(a, i) < a.len() ==> skip_ws(a + seq!['\n'] + b, i) == skip_ws(a, i),
        skip_ws(a, i) >= a.len() ==> skip_ws(a + seq!['\n'] + b, i) == skip_ws(
            a + seq!['\n'] + b,
            a.len() + 1int,
        ),
    decreases a.len() - i,
{
    let c = a + seq!['\n'] + b;
    assert(c[a.len() as int] == '\n');
    assert(is_ws('\n'));
    if i < a.len() {
        assert(c[i] == a[i]);
        lemma_prefix_scan(a, b, i + 1, ch);
    }
}

#[verifier::spinoff_prover]
proof fn lemma_run_concat(m: MachineV, a: Seq<char>, b: Seq<char>, i: int, d: nat)
    requires
        0 <= i <= a.len(),
        closes_all(a, i, d),
    ensures
        run_from(m, a + seq!['\n'] + b, i, d) == run_from(run_from(m, a, i, d), b, 0, 0),
    decreases a.len() - i,
{
    let c = a + seq!['\n'] + b;
    let nl = a + seq!['\n'];
    lemma_prefix_scan(a, b, i, '"');
    lemma_skip_ws_bounds(a, i);
    lemma_skip_ws_bounds(c, i);
    if skip_ws(a, i) >= a.len() {
        assert(c =~= nl + b);
        lemma_shift_run(m, nl, b, 0, 0);
        lemma_prefix_scan(a, b, a.len() as int, '"');
        assert(skip_ws(c, a.len() + 1int) == skip_ws(nl + b, nl.len() + 0int));
    } else {
        let j = skip_ws(a, i);
        lemma_token_end(a, j);
        lemma_prefix_scan(a, b, j, '"');
        let k = token_end(a, j);
        assert(c.subrange(j, k) =~= a.subrange(j, k));
        let tok = a.subrange(j, k);
        lemma_prefix_scan(a, b, k, '"');
        lemma_find_char(a, k, '\n');
        lemma_skip_ws_bounds(a, k);
        if tok == "\\"@ {
            lemma_run_concat(m, a, b, find_char(a, k, '\n'), d);
        } else if tok == "("@ {
            lemma_run_concat(m, a, b, k, d + 1);
        } else if tok == ")"@ {
            if d > 0 {
                lemma_run_concat(m, a, b, k, (d - 1) as nat);
            } else {
                lemma_run_concat(out(m, "): unmatched"@), a, b, k, 0);
            }
        } else if d > 0 {
            lemma_run_concat(m, a, b, k, d);
        } else if tok == ".\""@ {
            let q = skip_ws(a, k);
            lemma_find_char(a, q, '"');
            let e = find_char(a, q, '"');
            lemma_prefix_scan(a, b, q, '"');
            assert(c.subrange(q, e) =~= a.subrange(q, e));
            lemma_run_concat(print_string(m, a.subrange(q, e)), a, b, e + 1, d);
        } else {
            lemma_run_concat(dispatch_token(m, tok), a, b, k, d);
        }
    }
}

/// Running a text, a newline and a second text is running the first text
/// and then the second, when the first closes its `(` comments and its
/// `."` strings.
pub proof fn law_run_concat(m: MachineV, a: Seq<char>, b: Seq<char>)
    requires
        closes_all(a, 0, 0),
    ensures
        run_tokens(m, a + seq!['\n'] + b) == run_tokens(run_tokens(m, a), b),
{
    lemma_run_concat(m, a, b, 0, 0);
}

/// The radix that `.` prints in for a `BASE` value.
pub open spec fn radix(base: u32) -> nat {
    if 2 <= base <= 36 {
        base as nat
    } else {
        10
    }
}

/// `|n|` as a natural number.
pub open spec fn magnitude(n: i32) -> nat {
    if n < 0 {
        (-n) as nat
    } else {
        n as nat
    }
}

/// What `.` prints for a number: a `-` exactly when it is negative, then
/// the digits of its magnitude, which are upper-case digits below the radix
/// with no leading zero (zero itself is `0`); in radix ten it is the
/// number's decimal text.
pub proof fn law_format_shape(n: i32, base: u32)
    ensures
        format_int(n, base) == (if n < 0 {
            seq!['-'] + digits(magnitude(n), radix(base))
        } else {
            digits(magnitude(n), radix(base))
        }),
        format_int(n, base).len() > 0,
        (format_int(n, base)[0] == '-') == (n < 0),
        digits(magnitude(n), radix(base)).len() > 0,
        forall|i: int|
            0 <= i < digits(magnitude(n), radix(base)).len() ==> is_upper_digit(
                #[trigger] digits(magnitude(n), radix(base))[i],
            ) && digit_value(digits(magnitude(n), radix(base))[i]) < radix(base),
        digits(magnitude(n), radix(base))[0] == '0' ==> n == 0 && format_int(n, base) == seq!['0'],
        format_int(n, 10) == dec(n as int),
{
    let b = radix(base);
    lemma_digits_shape(magnitude(n), b);
    let ds = digits(magnitude(n), b);
    assert(is_upper_digit(ds[0]));
    if n < 0 {
        assert((seq!['-'] + ds)[0] == '-');
    }
}

/// The partial output line is empty on a fresh machine and after every
/// `reset`, `eval_repl` and `load_source` that starts from an empty one:
/// printed text always reaches the output before a call returns, so the
/// output pane shows exactly the finished lines.
pub proof fn law_line_flushed(m: MachineV, line: Seq<char>, src: Seq<char>)
    requires
        m.output_line.len() == 0,
    ensures
        fresh().output_line.len() == 0,
        reset(m).output_line.len() == 0,
        eval_repl(m, line).output_line.len() == 0,
        load_source(m, src).output_line.len() == 0,
        output_text(m) == join(m.output, "\n"@),
{
    let m0 = empty_machine();
    let mb = define(MachineV { memory: m0.memory.push(10i32), ..m0 }, "BASE"@, WordV::Variable(0));
    lemma_install_line(mb, install_order());
}

/// A call of the public interface that changes the machine (the getters
/// only read it).
pub enum ApiCall {
    Reset,
    EvalRepl(Seq<char>),
    LoadSource(Seq<char>),
}

/// The machine after `m` receives one call.
#[verifier::opaque]
pub open spec fn apply_call(m: MachineV, c: ApiCall) -> MachineV {
    match c {
        ApiCall::Reset => reset(m),
        ApiCall::EvalRepl(line) => eval_repl(m, line),
        ApiCall::LoadSource(src) => load_source(m, src),
    }
}

/// The machine after `m` receives `calls` in order.
pub open spec fn after_calls(m: MachineV, calls: Seq<ApiCall>) -> MachineV
    decreases calls.len(),
{
    if calls.len() == 0 {
        m
    } else {
        apply_call(after_calls(m, calls.drop_last()), calls.last())
    }
}

#[verifier::spinoff_prover]
proof fn lemma_call_flush(m: MachineV, c: ApiCall)
    requires
        m.output_line.len() == 0,
    ensures
        apply_call(m, c).output_line.len() == 0,
{
    reveal(apply_call);
    match c {
        ApiCall::Reset => law_line_flushed(m, Seq::empty(), Seq::empty()),
        ApiCall::EvalRepl(line) => law_line_flushed(m, line, Seq::empty()),
        ApiCall::LoadSource(src) => law_line_flushed(m, Seq::empty(), src),
    }
}

/// After any sequence of calls on a fresh machine, no partial output line
/// is pending, so the output pane shows exactly the output lines.
pub proof fn law_calls_leave_no_partial_line(calls: Seq<ApiCall>)
    ensures
        after_calls(fresh(), calls).output_line.len() == 0,
        output_text(after_calls(fresh(), calls)) == join(after_calls(fresh(), calls).output, "\n"@),
    decreases calls.len(),
{
    if calls.len() == 0 {
        law_line_flushed(empty_machine(), Seq::empty(), Seq::empty());
        law_line_flushed(fresh(), Seq::empty(), Seq::empty());
    } else {
        law_calls_leave_no_partial_line(calls.drop_last());
        lemma_call_flush(after_calls(fresh(), calls.drop_last()), calls.last());
        law_line_flushed(after_calls(fresh(), calls), Seq::empty(), Seq::empty());
    }
}

proof fn lemma_install_line(m: MachineV, ps: Seq<crate::types::PrimitiveId>)
    ensures
        install(m, ps).output_line == m.output_line,
    decreases ps.len(),
{
    if ps.len() > 0 {
        lemma_install_line(m, ps.drop_last());
    }
}

/// The control words whose compile-time action records one op under the
/// word's own name.
pub open spec fn is_structure(p: PrimitiveId) -> bool {
    ||| p == PrimitiveId::If
    ||| p == PrimitiveId::Else
    ||| p == PrimitiveId::Then
    ||| p == PrimitiveId::Begin
    ||| p == PrimitiveId::Until
    ||| p == PrimitiveId::While
    ||| p == PrimitiveId::Repeat
    ||| p == PrimitiveId::Do
    ||| p == PrimitiveId::LoopPrim
    ||| p == PrimitiveId::PlusLoop
    ||| p == PrimitiveId::LeavePrim
    ||| p == PrimitiveId::DoesArrow
}

/// A whitespace-free token that the reader hands to the dispatcher as it
/// is (no comment or string opener).
pub open spec fn bare_token(t: Seq<char>) -> bool {
    &&& t.len() > 0
    &&& forall|i: int| 0 <= i < t.len() ==> !is_ws(#[trigger] t[i])
    &&& t != "\\"@
    &&& t != "("@
    &&& t != ")"@
    &&& t != ".\""@
}

/// An upper-case token that a definition records under its own text: a
/// literal, a word that is not immediate, or one of the control words.
pub open spec fn source_token(m: MachineV, t: Seq<char>) -> bool {
    &&& bare_token(t)
    &&& upper(t) == t
    &&& t != "'"@
    &&& t != ":"@
    &&& t != ";"@
    &&& (m.immediate_words.contains(t) && m.dictionary.contains_key(t) ==> {
        &&& m.dictionary[t] is Primitive
        &&& is_structure(m.dictionary[t]->Primitive_0)
        &&& primitive_name(m.dictionary[t]->Primitive_0) == t
    })
}

proof fn lemma_labels_patch(body: Seq<OpV>, leaves: Seq<usize>, t: usize)
    ensures
        labels(patch_leaves(body, leaves, t)) == labels(body),
    decreases leaves.len(),
{
    if leaves.len() > 0 {
        lemma_labels_patch(body, leaves.drop_last(), t);
        let b = patch_leaves(body, leaves.drop_last(), t);
        let i = leaves.last() as int;
        if i < b.len() {
            assert(labels(b.update(i, set_leave(b[i], t))) =~= labels(b));
        }
    }
}

/// Every open control-flow position lies inside the body compiled so far.
pub open spec fn cf_ok(p: PendingV) -> bool {
    forall|i: int| 0 <= i < p.cf_stack.len() ==> #[trigger] p.cf_stack[i] < p.body.len()
}

/// A control word's compile-time action either reports an error or
/// records one op under the word's name; nothing else but the definition
/// and the output changes.
#[verifier::spinoff_prover]
proof fn lemma_structure_step(m: MachineV, q: PrimitiveId)
    requires
        m.compiling is Some,
        cf_ok(m.compiling->0),
        is_structure(q),
    ensures
        ({
            let r = prim_step(m, q);
            &&& r == (MachineV { output: r.output, compiling: r.compiling, ..m })
            &&& r.compiling is Some
            &&& cf_ok(r.compiling->0)
            &&& r.compiling->0.name == m.compiling->0.name
            &&& r.compiling->0.anonymous == m.compiling->0.anonymous
            &&& r.compiling->0.pending_postpone == m.compiling->0.pending_postpone
            &&& (r.output == m.output ==> labels(r.compiling->0.body) == labels(
                m.compiling->0.body,
            ).push(primitive_name(q)))
        }),
{
    let p = m.compiling->0;
    let lb = labels(p.body);
    let r = prim_step(m, q);
    let n = p.body.len();
    if q == PrimitiveId::If {
        assert(r == if_step(m));
        assert(labels(p.body.push(op("IF"@, OpKindV::Branch0(0)))) =~= lb.push("IF"@));
    } else if q == PrimitiveId::Begin {
        assert(r == begin_step(m));
        assert(labels(p.body.push(op("BEGIN"@, OpKindV::Noop))) =~= lb.push("BEGIN"@));
    } else if q == PrimitiveId::While {
        assert(r == while_step(m));
        assert(labels(p.body.push(op("WHILE"@, OpKindV::Branch0(0)))) =~= lb.push("WHILE"@));
    } else if q == PrimitiveId::Do {
        assert(r == do_step(m));
        assert(labels(p.body.push(op("DO"@, OpKindV::LoopEnter))) =~= lb.push("DO"@));
    } else if q == PrimitiveId::DoesArrow {
        assert(r == does_arrow_step(m));
        assert(labels(p.body.push(op("DOES>"@, OpKindV::Does))) =~= lb.push("DOES>"@));
    } else if q == PrimitiveId::Until {
        assert(r == until_step(m));
        if p.cf_stack.len() == 0 {
            assert(r.output.len() == m.output.len() + 1);
        } else {
            let o = op("UNTIL"@, OpKindV::Branch0(p.cf_stack.last()));
            assert(r.compiling->0.body == p.body.push(o));
            assert(labels(p.body.push(o)) =~= lb.push("UNTIL"@));
        }
    } else if q == PrimitiveId::LeavePrim {
        assert(r == leave_step(m));
        if p.leave_stack.len() == 0 {
            assert(r.output.len() == m.output.len() + 1);
        } else {
            let o = op("LEAVE"@, OpKindV::LeaveLoop(0));
            assert(r.compiling->0.body == p.body.push(o));
            assert(labels(p.body.push(o)) =~= lb.push("LEAVE"@));
        }
    } else if q == PrimitiveId::Else {
        assert(r == else_step(m));
        if p.cf_stack.len() == 0 {
            assert(r.output.len() == m.output.len() + 1);
        } else {
            let b = p.cf_stack.last();
            assert(b < n);
            let body1 = p.body.push(op("ELSE"@, OpKindV::Jump(0)));
            let body2 = body1.update(b as int, set_branch0(body1[b as int], body1.len() as usize));
            assert(r.compiling->0.body == body2);
            assert(labels(body2) =~= lb.push("ELSE"@));
            assert(r.compiling->0.cf_stack == p.cf_stack.drop_last().push(n as usize));
        }
    } else if q == PrimitiveId::Then {
        assert(r == then_step(m));
        if p.cf_stack.len() == 0 {
            assert(r.output.len() == m.output.len() + 1);
        } else {
            let i = p.cf_stack.last();
            assert(i < n);
            let body1 = p.body.push(op("THEN"@, OpKindV::Noop));
            let body2 = body1.update(i as int, set_forward(body1[i as int], n as usize));
            assert(r.compiling->0.body == body2);
            assert(labels(body2) =~= lb.push("THEN"@));
        }
    } else if q == PrimitiveId::Repeat {
        assert(r == repeat_step(m));
        if p.cf_stack.len() <= 1 {
            assert(r.output.len() == m.output.len() + 1);
        } else {
            let w = p.cf_stack.last();
            let b = p.cf_stack[p.cf_stack.len() - 2];
            assert(w < n);
            let body1 = p.body.push(op("REPEAT"@, OpKindV::Jump(b)));
            let body2 = body1.update(w as int, set_branch0(body1[w as int], body1.len() as usize));
            assert(r.compiling->0.body == body2);
            assert(labels(body2) =~= lb.push("REPEAT"@));
        }
    } else {
        let plus = q == PrimitiveId::PlusLoop;
        let name = primitive_name(q);
        assert(r == loop_step(m, plus));
        assert(name == if plus {
            "+LOOP"@
        } else {
            "LOOP"@
        });
        assert(r == close_do_loop(m, name, plus));
        if p.cf_stack.len() == 0 {
            assert(r.output.len() == m.output.len() + 1);
        } else {
            let leaves: Seq<usize> = if p.leave_stack.len() == 0 {
                Seq::empty()
            } else {
                p.leave_stack.last()
            };
            let target = (p.cf_stack.last() + 1) as usize;
            let kind = if plus {
                OpKindV::LoopNextStep(target)
            } else {
                OpKindV::LoopNext(target)
            };
            let body1 = p.body.push(op(name, kind));
            lemma_labels_patch(body1, leaves, body1.len() as usize);
            assert(r.compiling->0.body == patch_leaves(body1, leaves, body1.len() as usize));
            assert(labels(body1) =~= lb.push(name));
            assert(patch_leaves(body1, leaves, body1.len() as usize).len() == body1.len()) by {
                assert(labels(patch_leaves(body1, leaves, body1.len() as usize)).len() == labels(
                    body1,
                ).len());
            }
        }
    }
}

/// How a source token is handled inside a named definition.
#[verifier::spinoff_prover]
proof fn lemma_dispatch_source(m: MachineV, t: Seq<char>, fuel: nat)
    requires
        m.next_consumer is None,
        m.compiling is Some,
        m.compiling->0.name is Some,
        !m.compiling->0.pending_postpone,
        source_token(m, t),
    ensures
        do_dispatch(m, t, fuel) == (if m.immediate_words.contains(t) && m.dictionary.contains_key(
            t,
        ) {
            (prim_step(m, m.dictionary[t]->Primitive_0), fuel)
        } else {
            (compile_op(m, compile_token(m, t, t)), fuel)
        }),
{
    reveal_strlit("'");
    reveal_strlit(":");
    reveal_strlit(";");
    assert(t != "'"@);
    if m.immediate_words.contains(t) && m.dictionary.contains_key(t) {
        let q = m.dictionary[t]->Primitive_0;
        assert(q != PrimitiveId::Execute);
        assert(execute_primitive(m, q, fuel) == (prim_step(m, q), fuel));
    }
}

/// In a named definition being compiled, a source token either reports an
/// error or records one op labelled with the token; it uses no steps and
/// leaves the dictionary, the immediate words and memory alone.
proof fn lemma_compile_source_token(m: MachineV, t: Seq<char>, fuel: nat)
    requires
        m.next_consumer is None,
        m.compiling is Some,
        m.compiling->0.name is Some,
        !m.compiling->0.pending_postpone,
        cf_ok(m.compiling->0),
        source_token(m, t),
    ensures
        ({
            let (r, f) = do_dispatch(m, t, fuel);
            &&& f == fuel
            &&& r == (MachineV { output: r.output, compiling: r.compiling, ..m })
            &&& r.compiling is Some
            &&& cf_ok(r.compiling->0)
            &&& r.compiling->0.name == m.compiling->0.name
            &&& r.compiling->0.anonymous == m.compiling->0.anonymous
            &&& !r.compiling->0.pending_postpone
            &&& prefix(m.output, r.output)
            &&& (r.output == m.output ==> labels(r.compiling->0.body) == labels(
                m.compiling->0.body,
            ).push(t))
        }),
{
    lemma_dispatch_source(m, t, fuel);
    lemma_do_dispatch_grows(m, t, fuel);
    if m.immediate_words.contains(t) && m.dictionary.contains_key(t) {
        lemma_structure_step(m, m.dictionary[t]->Primitive_0);
    } else {
        let p = m.compiling->0;
        let o = compile_token(m, t, t);
        assert(o.label == t);
        assert(labels(p.body.push(o)) =~= labels(p.body).push(t));
    }
}

/// One token handed to the dispatcher, as a unit.
#[verifier::opaque]
pub open spec fn tok_step(m: MachineV, t: Seq<char>) -> MachineV {
    dispatch_token(m, t)
}

/// A whole text read from its start, as a unit.
#[verifier::opaque]
pub open spec fn run_text(m: MachineV, s: Seq<char>) -> MachineV {
    run_from(m, s, 0, 0)
}

proof fn lemma_join_front(x: Seq<char>, rest: Seq<Seq<char>>, sep: Seq<char>)
    requires
        rest.len() > 0,
    ensures
        join(seq![x] + rest, sep) == x + sep + join(rest, sep),
    decreases rest.len(),
{
    let all = seq![x] + rest;
    assert(all.drop_last() =~= seq![x] + rest.drop_last());
    assert(all.last() == rest.last());
    assert(all.len() >= 2);
    assert(join(all, sep) == join(all.drop_last(), sep) + sep + rest.last());
    if rest.len() == 1 {
        assert(seq![x] + rest.drop_last() =~= seq![x]);
        assert(join(seq![x], sep) == x);
        assert(join(rest, sep) == rest[0]);
    } else {
        lemma_join_front(x, rest.drop_last(), sep);
        assert(join(rest, sep) == join(rest.drop_last(), sep) + sep + rest.last());
        assert(x + sep + join(rest, sep) =~= x + sep + join(rest.drop_last(), sep) + sep + rest.last());
    }
}

/// From inside a whitespace-free stretch, a token ends at its end.
proof fn lemma_token_end_at(s: Seq<char>, i: int, e: int)
    requires
        0 <= i <= e <= s.len(),
        forall|k: int| i <= k < e ==> !is_ws(#[trigger] s[k]),
        e == s.len() || is_ws(s[e]),
    ensures
        token_end(s, i) == e,
    decreases e - i,
{
    if i < e {
        lemma_token_end_at(s, i + 1, e);
    }
}

/// A whitespace character before the rest changes nothing.
proof fn lemma_run_skip(m: MachineV, s: Seq<char>, i: int, d: nat)
    requires
        0 <= i < s.len(),
        is_ws(s[i]),
    ensures
        run_from(m, s, i, d) == run_from(m, s, i + 1, d),
{
    assert(skip_ws(s, i) == skip_ws(s, i + 1));
}

/// A bare token followed by a space: it is dispatched, then the rest runs.
proof fn lemma_run_first(m: MachineV, x: Seq<char>, y: Seq<char>)
    requires
        bare_token(x),
    ensures
        run_text(m, x + seq![' '] + y) == run_text(tok_step(m, x), y),
{
    reveal(run_text);
    reveal(tok_step);
    let p = x + seq![' '];
    let s = x + seq![' '] + y;
    assert(s =~= p + y);
    assert(s[x.len() as int] == ' ');
    assert(is_ws(' '));
    assert(forall|k: int| 0 <= k < x.len() ==> s[k] == x[k]);
    assert(skip_ws(s, 0) == 0);
    lemma_token_end_at(s, 0, x.len() as int);
    assert(s.subrange(0, x.len() as int) =~= x);
    lemma_run_skip(dispatch_token(m, x), s, x.len() as int, 0);
    lemma_shift_run(dispatch_token(m, x), p, y, 0, 0);
}

/// A bare token alone is dispatched.
proof fn lemma_run_last(m: MachineV, x: Seq<char>)
    requires
        bare_token(x),
    ensures
        run_text(m, x) == tok_step(m, x),
{
    reveal(run_text);
    reveal(tok_step);
    assert(skip_ws(x, 0) == 0);
    lemma_token_end_at(x, 0, x.len() as int);
    assert(x.subrange(0, x.len() as int) =~= x);
    assert(skip_ws(x, x.len() as int) == x.len());
    assert(run_from(dispatch_token(m, x), x, x.len() as int, 0) == dispatch_token(m, x));
}

/// The rest of a definition's source from its `k`-th body token on:
/// the remaining tokens, then ` ;`.
pub open spec fn def_tail(toks: Seq<Seq<char>>, k: int) -> Seq<char> {
    if k >= toks.len() {
        ";"@
    } else {
        join(toks.skip(k), " "@) + " ;"@
    }
}

/// The line that confirms a definition of `n` with `k` tokens.
pub open spec fn defined_line(n: Seq<char>, k: int) -> Seq<char> {
    "defined "@ + n + " ("@ + dec(k) + " tokens)"@
}

proof fn lemma_tail_step(toks: Seq<Seq<char>>, k: int)
    requires
        0 <= k < toks.len(),
    ensures
        def_tail(toks, k) == toks[k] + seq![' '] + def_tail(toks, k + 1),
{
    reveal_strlit(" ");
    reveal_strlit(" ;");
    reveal_strlit(";");
    if k + 1 == toks.len() {
        assert(toks.skip(k) =~= seq![toks[k]]);
        assert(join(seq![toks[k]], " "@) == toks[k]);
    } else {
        assert(toks.skip(k) =~= seq![toks[k]] + toks.skip(k + 1));
        lemma_join_front(toks[k], toks.skip(k + 1), " "@);
    }
    assert(def_tail(toks, k) =~= toks[k] + seq![' '] + def_tail(toks, k + 1));
}

/// `;` closing a named definition with no open control structure defines
/// the word; anything else reports a line that is not the confirmation.
#[verifier::spinoff_prover]
proof fn lemma_semicolon(mk: MachineV)
    requires
        mk.next_consumer is None,
        mk.compiling is Some,
        mk.compiling->0.name is Some,
        !mk.compiling->0.pending_postpone,
        !mk.compiling->0.anonymous,
    ensures
        ({
            let p = mk.compiling->0;
            let r = tok_step(mk, ";"@);
            &&& r.dictionary == (if r.output == mk.output.push(
                defined_line(p.name->0, p.body.len() as int),
            ) {
                mk.dictionary.insert(p.name->0, WordV::User(p.body))
            } else {
                r.dictionary
            })
            &&& r.immediate_words == mk.immediate_words
            &&& r.output.len() == mk.output.len() + 1
            &&& prefix(mk.output, r.output)
            &&& (r.output == mk.output.push(defined_line(p.name->0, p.body.len() as int))
                ==> p.cf_stack.len() == 0)
        }),
{
    reveal(tok_step);
    reveal_strlit(";");
    reveal_strlit("'");
    reveal_strlit(":");
    reveal_strlit("defined ");
    reveal_strlit("compile: ");
    let p = mk.compiling->0;
    assert(upper(";"@) =~= ";"@);
    let (r0, f) = do_dispatch(mk, ";"@, STEP_LIMIT as nat);
    assert(r0 == finish_definition(mk));
    assert(f == STEP_LIMIT as nat);
    let msg = defined_line(p.name->0, p.body.len() as int);
    assert(msg[0] == 'd');
    if p.cf_stack.len() > 0 {
        let e = "compile: "@ + p.name->0 + " dropped; "@ + dec(p.cf_stack.len() as int)
            + " unclosed IF/ELSE/BEGIN"@;
        assert(e[0] == 'c');
        assert(r0.output == mk.output.push(e));
        assert(r0.output.last() != msg);
    }
}

/// One source token inside a named definition, as the reader hands it on.
proof fn lemma_tok_source(mk: MachineV, t: Seq<char>)
    requires
        mk.next_consumer is None,
        mk.compiling is Some,
        mk.compiling->0.name is Some,
        !mk.compiling->0.pending_postpone,
        cf_ok(mk.compiling->0),
        source_token(mk, t),
    ensures
        ({
            let r = tok_step(mk, t);
            &&& r.next_consumer is None
            &&& r.compiling is Some
            &&& r.compiling->0.name == mk.compiling->0.name
            &&& r.compiling->0.anonymous == mk.compiling->0.anonymous
            &&& !r.compiling->0.pending_postpone
            &&& cf_ok(r.compiling->0)
            &&& r.dictionary == mk.dictionary
            &&& r.immediate_words == mk.immediate_words
            &&& prefix(mk.output, r.output)
            &&& (r.output == mk.output ==> labels(r.compiling->0.body) == labels(
                mk.compiling->0.body,
            ).push(t))
        }),
{
    reveal(tok_step);
    lemma_compile_source_token(mk, t, STEP_LIMIT as nat);
}

/// Compiling the rest of a definition: if the run prints nothing but the
/// confirmation, the word is defined with one op per token, each labelled
/// with its token.
#[verifier::spinoff_prover]
#[verifier::rlimit(60)]
proof fn lemma_compile_tail(m0: MachineV, mk: MachineV, n: Seq<char>, toks: Seq<Seq<char>>, k: int)
    requires
        0 <= k <= toks.len(),
        forall|i: int| 0 <= i < toks.len() ==> source_token(m0, #[trigger] toks[i]),
        mk.next_consumer is None,
        mk.compiling is Some,
        mk.compiling->0.name == Some(n),
        !mk.compiling->0.pending_postpone,
        !mk.compiling->0.anonymous,
        cf_ok(mk.compiling->0),
        mk.dictionary == m0.dictionary,
        mk.immediate_words == m0.immediate_words,
        prefix(m0.output, mk.output),
        mk.output == m0.output ==> labels(mk.compiling->0.body) == toks.take(k),
    ensures
        ({
            let r = run_text(mk, def_tail(toks, k));
            &&& r.immediate_words == m0.immediate_words
            &&& prefix(m0.output, r.output)
            &&& r.output.len() > m0.output.len()
            &&& (r.output == m0.output.push(defined_line(n, toks.len() as int)) ==> {
                &&& r.dictionary.contains_key(n)
                &&& r.dictionary[n] is User
                &&& labels(r.dictionary[n]->User_0) == toks
            })
        }),
    decreases toks.len() - k,
{
    let p = mk.compiling->0;
    if k == toks.len() {
        reveal_strlit(";");
        assert(bare_token(";"@)) by {
            reveal_strlit("\\");
            reveal_strlit("(");
            reveal_strlit(")");
            reveal_strlit(".\"");
            assert(";"@[0] != "\\"@[0] && ";"@[0] != "("@[0] && ";"@[0] != ")"@[0]);
            assert(";"@.len() != ".\""@.len());
        }
        lemma_run_last(mk, ";"@);
        lemma_semicolon(mk);
        let r = tok_step(mk, ";"@);
        if r.output == m0.output.push(defined_line(n, toks.len() as int)) {
            assert(mk.output.len() == m0.output.len());
            assert(mk.output =~= m0.output);
            assert(labels(p.body) == toks.take(k));
            assert(toks.take(k) =~= toks);
            assert(p.body.len() == toks.len());
            assert(r.output == mk.output.push(defined_line(p.name->0, p.body.len() as int)));
        }
    } else {
        let t = toks[k];
        lemma_tail_step(toks, k);
        assert(source_token(m0, t));
        lemma_run_first(mk, t, def_tail(toks, k + 1));
        lemma_tok_source(mk, t);
        let m1 = tok_step(mk, t);
        if m1.output == m0.output {
            assert(mk.output.len() == m0.output.len());
            assert(mk.output =~= m0.output);
            assert(toks.take(k + 1) =~= toks.take(k).push(t));
        }
        lemma_compile_tail(m0, m1, n, toks, k + 1);
    }
}

/// `:` outside a definition opens an unnamed one and prints nothing.
#[verifier::spinoff_prover]
proof fn lemma_colon_step(m: MachineV)
    requires
        m.next_consumer is None,
        m.compiling is None,
    ensures
        tok_step(m, ":"@) == (MachineV {
            trace: tok_step(m, ":"@).trace,
            compiling: Some(new_pending(None, false)),
            ..m
        }),
{
    reveal(tok_step);
    reveal_strlit(":");
    reveal_strlit("'");
    reveal_strlit("SEE");
    reveal_strlit("VARIABLE");
    reveal_strlit("CONSTANT");
    assert(upper(":"@) =~= ":"@);
    assert(":"@ != "'"@ && ":"@ != "SEE"@ && ":"@ != "VARIABLE"@ && ":"@ != "CONSTANT"@) by {
        assert(":"@[0] != "'"@[0]);
        assert(":"@.len() != "SEE"@.len());
        assert(":"@.len() != "VARIABLE"@.len());
        assert(":"@.len() != "CONSTANT"@.len());
    }
}

/// The token after `:` names the definition and prints nothing.
#[verifier::spinoff_prover]
proof fn lemma_name_step(m: MachineV, n: Seq<char>)
    requires
        m.next_consumer is None,
        m.compiling == Some(new_pending(None, false)),
        upper(n) == n,
        n != "'"@,
        n != ":"@,
        n != ";"@,
    ensures
        tok_step(m, n) == (MachineV {
            trace: tok_step(m, n).trace,
            compiling: Some(new_pending(Some(n), false)),
            latest: Some(n),
            ..m
        }),
{
    reveal(tok_step);
    assert(new_pending(Some(n), false) == PendingV { name: Some(n), ..new_pending(None, false) });
}

/// A space before the rest of a text changes nothing.
proof fn lemma_run_space(m: MachineV, y: Seq<char>)
    ensures
        run_text(m, seq![' '] + y) == run_text(m, y),
{
    reveal(run_text);
    assert(is_ws(' '));
    lemma_run_skip(m, seq![' '] + y, 0, 0);
    lemma_shift_run(m, seq![' '], y, 0, 0);
}

proof fn lemma_run_tokens_text(m: MachineV, s: Seq<char>)
    ensures
        run_tokens(m, s) == run_text(m, s),
{
    reveal(run_text);
}

/// `SEE` gives back a colon definition as it was typed. When the line
/// `: N t1 ... tk ;` (upper-case name and tokens, each token a literal, a
/// word that is not immediate, or a control word) prints nothing but its
/// confirmation, the word `N` is defined with one op per token, and `SEE N`
/// prints that very line.
#[verifier::spinoff_prover]
pub proof fn law_see_roundtrip(m: MachineV, n: Seq<char>, toks: Seq<Seq<char>>)
    requires
        m.next_consumer is None,
        m.compiling is None,
        bare_token(n),
        upper(n) == n,
        n != "'"@,
        n != ":"@,
        n != ";"@,
        !m.immediate_words.contains(n),
        forall|i: int| 0 <= i < toks.len() ==> source_token(m, #[trigger] toks[i]),
    ensures
        ({
            let line = ": "@ + n + " "@ + join(toks, " "@) + " ;"@;
            let r = eval_repl(m, line);
            r.output == m.output.push(defined_line(n, toks.len() as int)) ==> {
                &&& r.dictionary.contains_key(n)
                &&& r.dictionary[n] is User
                &&& labels(r.dictionary[n]->User_0) == toks
                &&& handle_consumer(r, NextTokenConsumer::See, n) == out(r, line)
            }
        }),
{
    reveal_strlit(": ");
    reveal_strlit(" ");
    reveal_strlit(" ;");
    reveal_strlit(";");
    reveal_strlit(":");
    reveal_strlit("");
    let line = ": "@ + n + " "@ + join(toks, " "@) + " ;"@;
    let b = if toks.len() > 0 {
        def_tail(toks, 0)
    } else {
        seq![' '] + ";"@
    };
    if toks.len() > 0 {
        assert(toks.skip(0) =~= toks);
    } else {
        assert(join(toks, " "@) =~= Seq::<char>::empty());
    }
    assert(line =~= ":"@ + seq![' '] + (n + seq![' '] + b));
    // The line is already trimmed.
    assert(skip_ws(line, 0) == 0);
    assert(line[line.len() - 1] == ';');
    assert(trail_end(line, line.len() as int) == line.len());
    assert(trim(line) =~= line);
    let mh = MachineV { history: m.history.push("> "@ + line), ..m };
    assert(bare_token(":"@)) by {
        reveal_strlit("\\");
        reveal_strlit("(");
        reveal_strlit(")");
        reveal_strlit(".\"");
        assert(":"@[0] != "\\"@[0] && ":"@[0] != "("@[0] && ":"@[0] != ")"@[0]);
        assert(":"@.len() != ".\""@.len());
    }
    lemma_run_tokens_text(mh, line);
    lemma_run_first(mh, ":"@, n + seq![' '] + b);
    lemma_colon_step(mh);
    let m1 = tok_step(mh, ":"@);
    lemma_run_first(m1, n, b);
    lemma_name_step(m1, n);
    let m2 = tok_step(m1, n);
    if toks.len() == 0 {
        lemma_run_space(m2, ";"@);
    }
    assert(run_text(m2, b) == run_text(m2, def_tail(toks, 0)));
    assert(labels(Seq::<OpV>::empty()) =~= toks.take(0));
    assert(forall|i: int| 0 <= i < toks.len() ==> source_token(m2, #[trigger] toks[i])) by {
        assert forall|i: int| 0 <= i < toks.len() implies source_token(m2, #[trigger] toks[i]) by {
            assert(source_token(m, toks[i]));
        }
    }
    assert(prefix(m2.output, m2.output));
    lemma_compile_tail(m2, m2, n, toks, 0);
    let r = run_text(m2, def_tail(toks, 0));
    assert(m2.output == m.output);
    let e = eval_repl(m, line);
    if e.output == m.output.push(defined_line(n, toks.len() as int)) {
        assert(run_tokens(mh, line) == r);
        assert(r.output.len() > m.output.len());
        if r.output_line.len() > 0 {
            assert(e.output == r.output.push(r.output_line));
            assert(e.output.len() == r.output.len() + 1);
            assert(e.output.len() == m.output.len() + 1);
        }
        assert(e == r);
        let ops = r.dictionary[n]->User_0;
        assert(see_text(r, n, n) =~= line);
    }
}

/// `ROT` on a stack of three or more moves the third cell from the top to
/// the top; the cells below the top three stay where they are.
pub proof fn law_rot(m: MachineV)
    requires
        m.stack.len() >= 3,
    ensures
        ({
            let s = m.stack;
            let r = rot_step(m);
            let n = s.len() as int;
            &&& r.stack.len() == n
            &&& forall|i: int| 0 <= i < n - 3 ==> #[trigger] r.stack[i] == s[i]
            &&& r.stack[n - 3] == s[n - 2]
            &&& r.stack[n - 2] == s[n - 1]
            &&& r.stack[n - 1] == s[n - 3]
            &&& r == (MachineV { stack: r.stack, ..m })
        }),
{
}

/// Three `ROT`s bring the stack back.
pub proof fn law_rot_thrice(m: MachineV)
    requires
        m.stack.len() >= 3,
    ensures
        rot_step(rot_step(rot_step(m))) == m,
{
    law_rot(m);
    law_rot(rot_step(m));
    law_rot(rot_step(rot_step(m)));
    assert(rot_step(rot_step(rot_step(m))).stack =~= m.stack);
}

/// The text `.` prints for `x` on machine `m`, without its trailing space.
pub open spec fn dot_word(m: MachineV, x: i32) -> Seq<char> {
    dot_step(MachineV { stack: seq![x], output_line: Seq::empty(), ..m }).output_line.drop_last()
}

/// `.S` writes every cell, bottom first, as `.` writes it, and each of those
/// words reads back, in the current `BASE`, as the cell it shows.
pub proof fn law_dot_s(m: MachineV)
    ensures
        dot_s_step(m) == out(
            m,
            "STACK: "@ + join(Seq::new(m.stack.len(), |i: int| dot_word(m, m.stack[i])), " "@),
        ),
        forall|x: i32|
            #![trigger dot_word(m, x)]
            dot_step(MachineV { stack: seq![x], output_line: Seq::empty(), ..m }).output_line
                == dot_word(m, x) + " "@,
        forall|i: int|
            0 <= i < m.stack.len() ==> parse_int(
                #[trigger] dot_word(m, m.stack[i]),
                current_base(m) as nat,
            ) == Some(m.stack[i]),
{
    reveal_strlit(" ");
    let b = current_base(m);
    assert forall|x: i32| #![trigger dot_word(m, x)]
        dot_step(MachineV { stack: seq![x], output_line: Seq::empty(), ..m }).output_line
            == dot_word(m, x) + " "@ && dot_word(m, x) == format_int(x, b) by {
        let m1 = MachineV { stack: seq![x], output_line: Seq::empty(), ..m };
        assert(pop(m1).1.stack =~= Seq::<i32>::empty());
        assert(current_base(pop(m1).1) == b);
        let l = Seq::<char>::empty() + format_int(x, b) + " "@;
        assert(l.drop_last() =~= format_int(x, b));
        assert(l =~= format_int(x, b) + " "@);
    }
    assert(Seq::new(m.stack.len(), |i: int| dot_word(m, m.stack[i])) =~= crate::model::fmt_list(
        m.stack,
        b,
    ));
    assert forall|i: int| 0 <= i < m.stack.len() implies parse_int(
        #[trigger] dot_word(m, m.stack[i]),
        current_base(m) as nat,
    ) == Some(m.stack[i]) by {
        let x = m.stack[i];
        assert(dot_word(m, x) == format_int(x, b));
        if 2 <= b <= 36 {
            lemma_int_text_roundtrip(x, b as nat);
        } else {
            lemma_int_text_roundtrip(x, 10);
            assert(b == 10) by {
                assert(current_base(m) == 10 || 2 <= current_base(m) <= 36);
            }
        }
    }
}

/// `ELSE` keeps every control-flow entry but the top one, which becomes
/// the position of the jump it records.
pub proof fn law_else_keeps_outer(m: MachineV)
    requires
        m.compiling is Some,
        m.compiling->0.body.len() + 3 <= usize::MAX,
        m.compiling->0.cf_stack.len() > 0,
        cf_ok(m.compiling->0),
    ensures
        ({
            let p = m.compiling->0;
            let q = else_step(m).compiling->0;
            &&& else_step(m).compiling is Some
            &&& q.cf_stack.len() == p.cf_stack.len()
            &&& forall|i: int| 0 <= i < p.cf_stack.len() - 1 ==> #[trigger] q.cf_stack[i] == p.cf_stack[i]
            &&& q.cf_stack.last() == p.body.len()
            &&& q.body.len() == p.body.len() + 1
            &&& q.leave_stack == p.leave_stack
        }),
{
    let p = m.compiling->0;
    assert(p.cf_stack.last() < p.body.len());
}

/// `IF ELSE THEN` is balanced: it records three ops whose branches meet at
/// `THEN`, and leaves the control-flow and `LEAVE` lists as they were, so
/// structures opened before it (an enclosing `DO`, `BEGIN` or `IF`) stay
/// open and can still be closed.
pub proof fn law_if_else_then(m: MachineV)
    requires
        m.compiling is Some,
        m.compiling->0.body.len() + 3 <= usize::MAX,
        cf_ok(m.compiling->0),
    ensures
        ({
            let p = m.compiling->0;
            let r = then_step(else_step(if_step(m)));
            let n = p.body.len() as int;
            &&& r.output == m.output
            &&& r.compiling is Some
            &&& r.compiling->0.cf_stack == p.cf_stack
            &&& r.compiling->0.leave_stack == p.leave_stack
            &&& r.compiling->0.body.len() == n + 3
            &&& r.compiling->0.body.subrange(0, n) == p.body
            &&& r.compiling->0.body[n].kind == OpKindV::Branch0((n + 2) as usize)
            &&& r.compiling->0.body[n + 1].kind == OpKindV::Jump((n + 2) as usize)
            &&& r.compiling->0.body[n + 2].kind == OpKindV::Noop
        }),
{
    let p = m.compiling->0;
    let n = p.body.len() as int;
    let m1 = if_step(m);
    let p1 = m1.compiling->0;
    assert(p1.cf_stack.last() == n);
    let m2 = else_step(m1);
    let p2 = m2.compiling->0;
    assert(p2.cf_stack =~= p.cf_stack.push((n + 1) as usize));
    let r = then_step(m2);
    let q = r.compiling->0;
    assert(q.cf_stack =~= p.cf_stack);
    assert(q.body.subrange(0, n) =~= p.body);
}

/// `LEAVE` files its op with the innermost open `DO` only.
pub proof fn law_leave_innermost(m: MachineV)
    requires
        m.compiling is Some,
        m.compiling->0.body.len() + 3 <= usize::MAX,
        m.compiling->0.leave_stack.len() > 0,
    ensures
        ({
            let p = m.compiling->0;
            let q = leave_step(m).compiling->0;
            let d = p.leave_stack.len() - 1;
            &&& leave_step(m).compiling is Some
            &&& q.leave_stack.len() == p.leave_stack.len()
            &&& forall|i: int| 0 <= i < d ==> #[trigger] q.leave_stack[i] == p.leave_stack[i]
            &&& q.leave_stack[d] == p.leave_stack[d].push(p.body.len() as usize)
            &&& q.cf_stack == p.cf_stack
            &&& q.body.len() == p.body.len() + 1
        }),
{
}

/// `DO LEAVE LOOP` is balanced: the `LEAVE` points just past this `LOOP`,
/// the `LOOP` jumps back just after its `DO`, and the control-flow and
/// `LEAVE` lists are as before, so an enclosing loop is untouched.
pub proof fn law_do_leave_loop(m: MachineV)
    requires
        m.compiling is Some,
        m.compiling->0.body.len() + 3 <= usize::MAX,
    ensures
        ({
            let p = m.compiling->0;
            let r = loop_step(leave_step(do_step(m)), false);
            let n = p.body.len() as int;
            &&& r.output == m.output
            &&& r.compiling is Some
            &&& r.compiling->0.cf_stack == p.cf_stack
            &&& r.compiling->0.leave_stack == p.leave_stack
            &&& r.compiling->0.body.len() == n + 3
            &&& r.compiling->0.body.subrange(0, n) == p.body
            &&& r.compiling->0.body[n].kind == OpKindV::LoopEnter
            &&& r.compiling->0.body[n + 1].kind == OpKindV::LeaveLoop((n + 3) as usize)
            &&& r.compiling->0.body[n + 2].kind == OpKindV::LoopNext((n + 1) as usize)
        }),
{
    let p = m.compiling->0;
    let n = p.body.len() as int;
    let m1 = do_step(m);
    let p1 = m1.compiling->0;
    let m2 = leave_step(m1);
    let p2 = m2.compiling->0;
    assert(p2.leave_stack.last() =~= seq![(n + 1) as usize]);
    assert(p2.leave_stack.drop_last() =~= p.leave_stack);
    assert(p2.cf_stack.drop_last() =~= p.cf_stack);
    let label = "LOOP"@;
    let body1 = p2.body.push(op(label, OpKindV::LoopNext((n + 1) as usize)));
    let leaves = seq![(n + 1) as usize];
    assert(leaves.drop_last() =~= Seq::<usize>::empty());
    assert(patch_leaves(body1, Seq::<usize>::empty(), (n + 3) as usize) == body1);
    let body2 = patch_leaves(body1, leaves, (n + 3) as usize);
    assert(body2 == body1.update(n + 1, set_leave(body1[n + 1], (n + 3) as usize)));
    let r = loop_step(m2, false);
    assert(r == close_do_loop(m2, label, false));
    assert(r.compiling->0.body == body2);
    assert(body2.subrange(0, n) =~= p.body);
}

} // verus!
