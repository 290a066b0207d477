use proto_forth::Machine;

fn run(lines: &[&str]) -> Machine {
    let mut m = Machine::new();
    for l in lines {
        m.eval_repl(l);
    }
    m
}

fn output_lines(m: &Machine) -> Vec<String> {
    m.get_output_text().split('\n').map(|s| s.to_string()).collect()
}

fn last_output(m: &Machine) -> String {
    output_lines(m).last().cloned().unwrap_or_default()
}

#[test]
fn square_word() {
    let m = run(&[": SQUARE DUP * ;", "5 SQUARE ."]);
    assert_eq!(last_output(&m), "25 ");
    assert!(output_lines(&m).contains(&"defined SQUARE (2 tokens)".to_string()));
}

#[test]
fn dot_prints_on_one_line() {
    let m = run(&["5 . 6 . 7 ."]);
    assert_eq!(last_output(&m), "5 6 7 ");
}

#[test]
fn create_does_constant() {
    let m = run(&[": MY-CONST CREATE , DOES> @ ;", "7 MY-CONST SEVEN", "SEVEN ."]);
    assert_eq!(last_output(&m), "7 ");
    assert!(output_lines(&m).contains(&"CREATE SEVEN at addr 1 (with DOES>)".to_string()));
}

#[test]
fn create_without_does_pushes_its_address() {
    let m = run(&["CREATE BUF", "BUF ."]);
    assert_eq!(last_output(&m), "1 ");
    assert!(output_lines(&m).contains(&"CREATE BUF at addr 1".to_string()));
}

#[test]
fn bracket_literal() {
    let m = run(&[": FIVE [ 2 3 + ] LITERAL ;", "FIVE ."]);
    assert_eq!(last_output(&m), "5 ");
}

#[test]
fn if_else_then() {
    let m = run(&[": SIGN 0 < IF -1 ELSE 1 THEN ;", "-5 SIGN . 5 SIGN ."]);
    assert_eq!(last_output(&m), "-1 1 ");
}

#[test]
fn begin_until() {
    let m = run(&[": CD BEGIN DUP . 1 - DUP 0 = UNTIL DROP ;", "3 CD"]);
    assert_eq!(last_output(&m), "3 2 1 ");
}

#[test]
fn begin_while_repeat() {
    let m = run(&[": CU BEGIN DUP 3 < WHILE DUP . 1 + REPEAT DROP ;", "0 CU"]);
    assert_eq!(last_output(&m), "0 1 2 ");
}

#[test]
fn do_loop_with_i() {
    let m = run(&[": L 5 0 DO I . LOOP ;", "L"]);
    assert_eq!(last_output(&m), "0 1 2 3 4 ");
}

#[test]
fn plus_loop_steps() {
    let m = run(&[": L 10 0 DO I . 3 +LOOP ;", "L"]);
    assert_eq!(last_output(&m), "0 3 6 9 ");
}

#[test]
fn plus_loop_counts_down() {
    let m = run(&[": L 0 3 DO I . -1 +LOOP ;", "L"]);
    assert_eq!(last_output(&m), "3 2 1 0 ");
}

#[test]
fn leave_exits_loop() {
    let m = run(&[": L 10 0 DO I DUP . 2 = IF LEAVE THEN LOOP ;", "L 99 ."]);
    assert_eq!(last_output(&m), "0 1 2 99 ");
    assert_eq!(m.get_stack_text(), "");
}

#[test]
fn j_reads_outer_index() {
    let m = run(&[": L 2 0 DO 2 0 DO J . LOOP LOOP ;", "L"]);
    assert_eq!(last_output(&m), "0 0 1 1 ");
}

#[test]
fn variable_store_fetch() {
    let m = run(&["VARIABLE X", "42 X !", "X @ ."]);
    assert_eq!(last_output(&m), "42 ");
    assert!(output_lines(&m).contains(&"VARIABLE X at addr 1".to_string()));
}

#[test]
fn plus_store_adds() {
    let m = run(&["VARIABLE X", "5 X ! 3 X +! X @ ."]);
    assert_eq!(last_output(&m), "8 ");
}

#[test]
fn constant_pushes_value() {
    let m = run(&["7 CONSTANT SEVEN", "SEVEN SEVEN + ."]);
    assert_eq!(last_output(&m), "14 ");
    assert!(output_lines(&m).contains(&"CONSTANT SEVEN = 7".to_string()));
}

#[test]
fn constant_on_empty_stack() {
    let m = run(&["CONSTANT"]);
    assert_eq!(last_output(&m), "CONSTANT: stack empty");
}

#[test]
fn allot_reports_growth() {
    let m = run(&["VARIABLE A", "3 ALLOT"]);
    assert_eq!(last_output(&m), "ALLOT 3 cells (memory now 5)");
    let m = run(&["-1 ALLOT"]);
    assert_eq!(last_output(&m), "ALLOT: negative count -1");
    let m = run(&["ALLOT"]);
    assert_eq!(last_output(&m), "ALLOT: stack empty");
}

#[test]
fn tick_and_execute() {
    let m = run(&["3 ' DUP EXECUTE * ."]);
    assert_eq!(last_output(&m), "9 ");
    let m = run(&[": APPLY-DUP ' DUP EXECUTE ;", "4 APPLY-DUP + ."]);
    assert_eq!(last_output(&m), "8 ");
}

#[test]
fn tick_unknown_word() {
    let m = run(&["' NOPE"]);
    assert_eq!(last_output(&m), "': unknown word NOPE");
}

#[test]
fn execute_errors() {
    let m = run(&["EXECUTE"]);
    assert_eq!(last_output(&m), "EXECUTE: stack empty");
    let m = run(&["99 EXECUTE"]);
    assert_eq!(last_output(&m), "EXECUTE: bad xt 99");
}

#[test]
fn noname_definition() {
    let m = run(&[":NONAME 2 * ;", "5 SWAP EXECUTE ."]);
    assert_eq!(last_output(&m), "10 ");
    assert!(output_lines(&m).contains(&":NONAME -> xt 0 (2 ops)".to_string()));
}

#[test]
fn postpone_builds_macro() {
    let m = run(&[
        ": DUP+ POSTPONE DUP POSTPONE + ; IMMEDIATE",
        ": TWICE DUP+ ;",
        "4 TWICE .",
        "SEE TWICE",
    ]);
    assert!(output_lines(&m).contains(&"8 ".to_string()));
    assert_eq!(last_output(&m), ": TWICE DUP + ;");
}

#[test]
fn see_forms() {
    let m = run(&[": SQUARE DUP * ;", "SEE SQUARE"]);
    assert_eq!(last_output(&m), ": SQUARE DUP * ;");
    let m = run(&["SEE DUP"]);
    assert_eq!(last_output(&m), "SEE DUP: primitive Dup");
    let m = run(&["SEE IF"]);
    assert_eq!(last_output(&m), "SEE IF: primitive If IMMEDIATE");
    let m = run(&["SEE BASE"]);
    assert_eq!(last_output(&m), "SEE BASE: variable @ addr 0 = 10");
    let m = run(&["9 CONSTANT N", "SEE N"]);
    assert_eq!(last_output(&m), "SEE N: constant = 9");
    let m = run(&["SEE nope"]);
    assert_eq!(last_output(&m), "SEE: unknown word nope");
    let m = run(&[": C CREATE , DOES> @ ;", "1 C K", "SEE K"]);
    assert_eq!(last_output(&m), "SEE K: created @ addr 1, does [ @ ]");
    let m = run(&[": T 1 IF 2 ELSE 3 THEN ;", "SEE T"]);
    assert_eq!(last_output(&m), ": T 1 IF 2 ELSE 3 THEN ;");
}

#[test]
fn comments() {
    let m = run(&["( a comment ) 1 ."]);
    assert_eq!(last_output(&m), "1 ");
    let m = run(&["2 . \\ rest ignored 3 ."]);
    assert_eq!(last_output(&m), "2 ");
    let m = run(&[")"]);
    assert_eq!(last_output(&m), "): unmatched");
    let m = run(&["( ( nested )"]);
    assert_eq!(last_output(&m), "(: unclosed (1 open)");
}

#[test]
fn print_string() {
    let m = run(&[": HELLO .\" Hello, world!\" CR ;", "HELLO"]);
    assert_eq!(last_output(&m), "Hello, world!");
    let m = run(&[".\" hi there\""]);
    assert_eq!(last_output(&m), "hi there");
    let m = run(&[".\" open"]);
    assert_eq!(output_lines(&m)[output_lines(&m).len() - 2], ".\": missing closing quote");
    assert_eq!(last_output(&m), "open");
    let m = run(&[": HELLO .\" Hi\" ;", "SEE HELLO"]);
    assert_eq!(last_output(&m), ": HELLO .\" Hi\" ;");
}

#[test]
fn base_changes_radix() {
    let m = run(&["16 BASE !", "FF .", "255 ."]);
    assert_eq!(last_output(&m), "255 ");
    assert!(output_lines(&m).contains(&"FF ".to_string()));
    let m = run(&["16 BASE !", "FF A BASE ! ."]);
    assert_eq!(last_output(&m), "255 ");
    let m = run(&["2 BASE !", "101 ."]);
    assert_eq!(last_output(&m), "101 ");
    let m = run(&["40 BASE !", "12 ."]);
    assert_eq!(last_output(&m), "12 ");
}

#[test]
fn division_family() {
    let m = run(&["7 2 / . 7 2 MOD ."]);
    assert_eq!(last_output(&m), "3 1 ");
    let m = run(&["7 2 /MOD . ."]);
    assert_eq!(last_output(&m), "3 1 ");
    let m = run(&["-7 2 /MOD . ."]);
    assert_eq!(last_output(&m), "-3 -1 ");
    let m = run(&["2 3 4 */MOD . ."]);
    assert_eq!(last_output(&m), "1 2 ");
    let m = run(&["1 0 /"]);
    assert_eq!(last_output(&m), "/: divide by zero");
    let m = run(&["1 0 MOD"]);
    assert_eq!(last_output(&m), "MOD: divide by zero");
    let m = run(&["1 0 /MOD"]);
    assert_eq!(last_output(&m), "/MOD: divide by zero");
    let m = run(&["1 2 0 */MOD"]);
    assert_eq!(last_output(&m), "*/MOD: divide by zero");
    let m = run(&["100000 100000 1000 */MOD . ."]);
    assert_eq!(last_output(&m), "10000000 0 ");
    let m = run(&["-7 2 3 */MOD . ."]);
    assert_eq!(last_output(&m), "-4 -2 ");
    let m = run(&["2147483647 2 1 */MOD . ."]);
    assert_eq!(last_output(&m), "-2 0 ");
    let m = run(&["-2147483648 1 -1 */MOD . ."]);
    assert_eq!(last_output(&m), "-2147483648 0 ");
    let m = run(&["-2147483648 -2147483648 -2147483648 */MOD . ."]);
    assert_eq!(last_output(&m), "-2147483648 0 ");
    let m = run(&["-2147483648 -1 /"]);
    assert_eq!(last_output(&m), "/: divide by zero");
    let m = run(&["1 /"]);
    assert_eq!(last_output(&m), "/: need two ints");
    let m = run(&["1 2 */MOD"]);
    assert_eq!(last_output(&m), "*/MOD: need three ints");
}

#[test]
fn arithmetic_wraps() {
    let m = run(&["2147483647 1 + ."]);
    assert_eq!(last_output(&m), "-2147483648 ");
    let m = run(&["-2147483648 1 - ."]);
    assert_eq!(last_output(&m), "2147483647 ");
    let m = run(&["65536 65536 * ."]);
    assert_eq!(last_output(&m), "0 ");
}

#[test]
fn bitwise_words() {
    let m = run(&["12 10 AND . 12 10 OR . 12 10 XOR . 0 INVERT ."]);
    assert_eq!(last_output(&m), "8 14 6 -1 ");
    let m = run(&["1 4 LSHIFT . -1 28 RSHIFT . 1 33 LSHIFT ."]);
    assert_eq!(last_output(&m), "16 15 2 ");
}

#[test]
fn comparisons_give_flags() {
    let m = run(&["3 3 = . 3 4 = . 3 4 < . 4 3 < . 4 3 > . 3 4 > ."]);
    assert_eq!(last_output(&m), "-1 0 -1 0 -1 0 ");
}

#[test]
fn stack_words() {
    let m = run(&["1 2 SWAP"]);
    assert_eq!(m.get_stack_text(), "2\n1");
    let m = run(&["1 2 OVER"]);
    assert_eq!(m.get_stack_text(), "1\n2\n1");
    let m = run(&["1 2 3 ROT"]);
    assert_eq!(m.get_stack_text(), "2\n3\n1");
    let m = run(&["1 2 DROP"]);
    assert_eq!(m.get_stack_text(), "1");
    let m = run(&["1 2 CLEAR"]);
    assert_eq!(m.get_stack_text(), "");
    assert_eq!(last_output(&m), "stack cleared");
}

#[test]
fn underflow_messages() {
    for (src, msg) in [
        ("DUP", "dup: stack empty"),
        ("DROP", "drop: stack empty"),
        ("SWAP", "swap: need two values"),
        ("1 OVER", "over: need two values"),
        ("1 2 ROT", "rot: need three values"),
        ("+", "+: need two ints"),
        ("1 =", "=: need two ints"),
        (".", ".: stack empty"),
        ("INVERT", "INVERT: stack empty"),
        (">R", ">R: stack empty"),
        ("R>", "R>: return stack empty"),
        ("R@", "R@: return stack empty"),
        ("I", "I: return stack empty"),
        ("J", "J: return stack too shallow"),
        ("@", "@: stack empty"),
        ("5 @", "@: bad address 5"),
        ("1 !", "!: need value and addr"),
        ("1 -1 !", "!: bad address -1"),
        ("1 +!", "+!: need delta and addr"),
        ("1 9 +!", "+!: bad address 9"),
        ("EMIT", "EMIT: stack empty"),
        (",", ",: stack empty"),
        ("COMPILE,", "COMPILE,: stack empty"),
        ("7 COMPILE,", "COMPILE,: bad xt 7"),
        ("' DUP COMPILE,", "COMPILE,: not compiling"),
    ] {
        let m = run(&[src]);
        assert_eq!(last_output(&m), msg, "for {}", src);
    }
}

#[test]
fn compile_only_words_outside_definitions() {
    for (src, msg) in [
        ("IF", "IF: not compiling"),
        ("ELSE", "ELSE: not compiling"),
        ("THEN", "THEN: not compiling"),
        ("BEGIN", "BEGIN: not compiling"),
        ("UNTIL", "UNTIL: not compiling"),
        ("WHILE", "WHILE: not compiling"),
        ("REPEAT", "REPEAT: not compiling"),
        ("DO", "DO: not compiling"),
        ("LOOP", "LOOP: not compiling"),
        ("+LOOP", "+LOOP: not compiling"),
        ("LEAVE", "LEAVE: not compiling"),
        ("LITERAL", "LITERAL: not compiling"),
        ("DOES>", "DOES>: not compiling"),
        ("POSTPONE", "POSTPONE: not compiling"),
        ("]", "]: not paused"),
        (";", ";: not compiling"),
    ] {
        let m = run(&[src]);
        assert_eq!(last_output(&m), msg, "for {}", src);
    }
}

#[test]
fn compile_errors() {
    let m = run(&[": BAD IF ;"]);
    assert_eq!(last_output(&m), "compile: BAD dropped; 1 unclosed IF/ELSE/BEGIN");
    let m = run(&[": BAD IF ;", "SEE BAD"]);
    assert_eq!(last_output(&m), "SEE: unknown word BAD");
    let m = run(&[": ;"]);
    assert_eq!(last_output(&m), "compile: expected word name, got ;");
    let m = run(&[": A : ;"]);
    assert!(output_lines(&m).contains(&"compile: nested : not allowed".to_string()));
    let m = run(&[": A LOOP ;"]);
    assert!(output_lines(&m).contains(&"compile: LOOP without DO".to_string()));
    let m = run(&[": A ELSE ;"]);
    assert!(output_lines(&m).contains(&"ELSE: not in IF".to_string()));
    let m = run(&[": A THEN ;"]);
    assert!(output_lines(&m).contains(&"THEN: not in IF/ELSE".to_string()));
    let m = run(&[": A UNTIL ;"]);
    assert!(output_lines(&m).contains(&"UNTIL: not in BEGIN".to_string()));
    let m = run(&[": A REPEAT ;"]);
    assert!(output_lines(&m).contains(&"REPEAT: not in WHILE".to_string()));
    let m = run(&[": A WHILE REPEAT ;"]);
    assert!(output_lines(&m).contains(&"REPEAT: not in BEGIN".to_string()));
    let m = run(&[": A LEAVE ;"]);
    assert!(output_lines(&m).contains(&"LEAVE: not in DO".to_string()));
    let m = run(&[": A POSTPONE NOPE ;"]);
    assert!(output_lines(&m).contains(&"POSTPONE: unknown word NOPE".to_string()));
    let m = run(&[": A LITERAL ;"]);
    assert!(output_lines(&m).contains(&"LITERAL: stack empty".to_string()));
}

#[test]
fn unknown_token() {
    let m = run(&["frobnicate"]);
    assert_eq!(last_output(&m), "unknown token: frobnicate");
    let m = run(&[": T NOPE ;", "T"]);
    assert_eq!(last_output(&m), "unknown token: NOPE");
}

#[test]
fn words_are_case_insensitive() {
    let m = run(&[": sq dup * ;", "3 SQ ."]);
    assert_eq!(last_output(&m), "9 ");
}

#[test]
fn emit_space_cr() {
    let m = run(&["72 EMIT 105 EMIT SPACE 33 EMIT"]);
    assert_eq!(last_output(&m), "Hi !");
    let m = run(&["-1 EMIT 55296 EMIT"]);
    assert_eq!(last_output(&m), "??");
    let m = run(&["1 . CR 2 ."]);
    let lines = output_lines(&m);
    assert_eq!(lines[lines.len() - 2], "1 ");
    assert_eq!(lines[lines.len() - 1], "2 ");
}

#[test]
fn return_stack_words() {
    let m = run(&["5 >R R@ R> + ."]);
    assert_eq!(last_output(&m), "10 ");
}

#[test]
fn dot_s_and_words() {
    let m = run(&["1 2 .S"]);
    assert_eq!(last_output(&m), "STACK: 1 2");
    let m = run(&["WORDS"]);
    assert!(last_output(&m).starts_with("WORDS: ! * */MOD + +! +LOOP , - . .S / /MOD"));
}

#[test]
fn latest_and_immediate() {
    let m = run(&["LATEST . LATEST EXECUTE ."]);
    assert_eq!(last_output(&m), "0 0 ");
    let m = run(&["LATEST ' LATEST = ."]);
    assert_eq!(last_output(&m), "-1 ");
    let m = run(&["' BASE LATEST = ."]);
    assert_eq!(last_output(&m), "0 ");
    let m = run(&[": X 1 ;", "LATEST ' X = ."]);
    assert_eq!(last_output(&m), "-1 ");
    let m = run(&[": X 1 ; IMMEDIATE", "SEE X"]);
    assert_eq!(last_output(&m), ": X 1 ; IMMEDIATE");
}

#[test]
fn here_and_comma() {
    let m = run(&["HERE . 42 , HERE . 1 @ ."]);
    assert_eq!(last_output(&m), "1 2 42 ");
}

#[test]
fn compile_comma_inside_definition() {
    let m = run(&[": DUPS [ ' DUP ] LITERAL COMPILE, ; IMMEDIATE", ": T DUPS * ;", "6 T ."]);
    assert_eq!(last_output(&m), "36 ");
}

#[test]
fn calls_between_user_words_are_late_bound() {
    let m = run(&[": A 1 ;", ": B A ;", ": A 2 ;", "B ."]);
    assert_eq!(last_output(&m), "2 ");
}

#[test]
fn nested_block_comments() {
    let m = run(&["( a ( b ) c ) 5 ."]);
    assert_eq!(last_output(&m), "5 ");
}

#[test]
fn see_text_compiles_back_to_the_same_definition() {
    let m = run(&[": T 1 IF 2 ELSE 3 THEN BEGIN DUP WHILE 1 - REPEAT ;", "SEE T"]);
    let shown = last_output(&m);
    let m2 = run(&[&shown, "SEE T"]);
    assert_eq!(last_output(&m2), shown);
}

#[test]
fn step_counting_does_not_disturb_long_runs() {
    let m = run(&[": L 100000 0 DO LOOP ;", "L 1 ."]);
    assert_eq!(last_output(&m), "1 ");
}
