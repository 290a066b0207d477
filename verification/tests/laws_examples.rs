use proto_forth::Machine;

fn run(lines: &[&str]) -> Machine {
    let mut m = Machine::new();
    for l in lines {
        m.eval_repl(l);
    }
    m
}

fn last_output(m: &Machine) -> String {
    m.get_output_text().split('\n').last().unwrap_or("").to_string()
}

#[test]
fn swap_twice_restores() {
    let m = run(&["1 2 SWAP SWAP"]);
    assert_eq!(m.get_stack_text(), "1\n2");
}

#[test]
fn dup_drop_restores() {
    let m = run(&["5 DUP DROP"]);
    assert_eq!(m.get_stack_text(), "5");
}

#[test]
fn to_r_from_r_restores() {
    let m = run(&["9 >R R>"]);
    assert_eq!(m.get_stack_text(), "9");
}

#[test]
fn store_then_fetch() {
    let m = run(&["HERE 0 , 123 OVER ! @ ."]);
    assert_eq!(last_output(&m), "123 ");
}

#[test]
fn slash_mod_identity() {
    for (a, b) in [(7, 2), (-7, 2), (7, -2), (-7, -2), (0, 5), (2147483647, -1)] {
        let m = run(&[&format!("{} {} /MOD", a, b)]);
        let s = m.get_stack_text();
        let v: Vec<i64> = s.split('\n').map(|x| x.parse().unwrap()).collect();
        let (r, q) = (v[0], v[1]);
        assert_eq!(q * b + r, a);
        assert!(r.abs() < (b as i64).abs());
        assert!(r == 0 || (r < 0) == (a < 0));
    }
}

#[test]
fn xt_is_stable() {
    let m = run(&["' DUP . ' SWAP . ' DUP ."]);
    assert_eq!(last_output(&m), "0 1 0 ");
}

#[test]
fn redefinition_reads_back() {
    let m = run(&[": A 1 ;", ": A 2 ;", "A ."]);
    assert_eq!(last_output(&m), "2 ");
}

#[test]
fn printed_number_reads_back() {
    let m = run(&["16 BASE !", "-1A .", "-1A -1A = ."]);
    let out = m.get_output_text();
    let lines: Vec<&str> = out.split('\n').collect();
    assert_eq!(lines[lines.len() - 2], "-1A ");
    assert_eq!(lines[lines.len() - 1], "-1 ");
    let m = run(&["-2147483648 .", "-2147483648 -2147483648 = ."]);
    let out = m.get_output_text();
    assert!(out.ends_with("-2147483648 \n-1 "));
}

#[test]
fn brackets_resume_definition() {
    let m = run(&[": T [ ] 1 ;", "T ."]);
    assert_eq!(last_output(&m), "1 ");
}

#[test]
fn tick_execute_runs_the_word() {
    let m = run(&[": SQ DUP * ;", "5 ' SQ EXECUTE ."]);
    assert_eq!(last_output(&m), "25 ");
}

#[test]
fn history_grows_one_entry_per_line() {
    let m = run(&[": W 1 . ;", "W W", ""]);
    assert_eq!(m.get_history_text(), "> : W 1 . ;\n> W W");
}

#[test]
fn fresh_base_is_ten() {
    let m = run(&["BASE @ ."]);
    assert_eq!(last_output(&m), "10 ");
}

#[test]
fn scaled_divide_uses_the_exact_product() {
    let m = run(&["46341 46341 7 */MOD . ."]);
    assert_eq!(last_output(&m), "306784040 1 ");
}

#[test]
fn fresh_latest_names_latest() {
    let m = run(&["LATEST ' LATEST = ."]);
    assert_eq!(last_output(&m), "-1 ");
    let m = run(&["LATEST EXECUTE LATEST = ."]);
    assert_eq!(last_output(&m), "-1 ");
}

#[test]
fn lower_case_tokens_act_like_upper_case() {
    let a = run(&[": sq dup * ;", "16 base !", "ff sq ."]);
    let b = run(&[": SQ DUP * ;", "16 BASE !", "FF SQ ."]);
    assert_eq!(a.get_stack_text(), b.get_stack_text());
    assert_eq!(a.get_memory_text(), b.get_memory_text());
    assert_eq!(a.get_dictionary_text(), b.get_dictionary_text());
    assert_eq!(last_output(&a), "FE01 ");
}

#[test]
fn a_newline_splits_a_text_into_two_runs() {
    let mut a = Machine::new();
    a.load_source("1 2 ( two numbers )\n+ . \\ add them");
    let mut b = Machine::new();
    b.load_source("1 2 ( two numbers )");
    b.load_source("+ . \\ add them");
    assert_eq!(a.get_stack_text(), b.get_stack_text());
    assert!(a.get_output_text().contains("3 "));
    assert!(b.get_output_text().contains("3 "));
}

#[test]
fn see_gives_back_the_definition() {
    let m = run(&[": CUBE DUP DUP * * ;", "SEE CUBE"]);
    assert_eq!(last_output(&m), ": CUBE DUP DUP * * ;");
    let m = run(&[": E ;", "SEE E"]);
    assert_eq!(last_output(&m), ": E  ;");
    let m = run(&[": C 3 0 DO I . LOOP BEGIN 1 UNTIL ;", "SEE C"]);
    assert_eq!(last_output(&m), ": C 3 0 DO I . LOOP BEGIN 1 UNTIL ;");
}

#[test]
fn printed_numbers_have_their_canonical_form() {
    let m = run(&["16 BASE !", "-FF . 0 . 10 ."]);
    assert_eq!(last_output(&m), "-FF 0 10 ");
    let m = run(&["-45 . 7 ."]);
    assert_eq!(last_output(&m), "-45 7 ");
}

#[test]
fn no_partial_line_survives_a_call() {
    let m = run(&["5 . 6 ."]);
    assert_eq!(m.get_output_text().split('\n').last().unwrap(), "5 6 ");
    let mut m = Machine::new();
    m.eval_repl("1 .");
    m.eval_repl("2 .");
    let lines: Vec<String> = m.get_output_text().split('\n').map(|s| s.to_string()).collect();
    assert_eq!(&lines[lines.len() - 2..], &["1 ".to_string(), "2 ".to_string()]);
}
