use proto_forth::Machine;

fn run(lines: &[&str]) -> Machine {
    let mut m = Machine::new();
    for l in lines {
        m.eval_repl(l);
    }
    m
}

fn last_line(s: &str) -> String {
    s.split('\n').last().unwrap_or("").to_string()
}

#[test]
fn fresh_machine_panes() {
    let m = Machine::new();
    assert_eq!(m.get_stack_text(), "");
    assert_eq!(m.get_history_text(), "");
    assert_eq!(m.get_trace_text(), "");
    assert_eq!(m.get_memory_text(), "[0] 10");
    let out = m.get_output_text();
    let lines: Vec<&str> = out.split('\n').collect();
    assert_eq!(lines.len(), 4);
    assert_eq!(lines[0], "Machine created.");
    assert!(lines[1].starts_with("Primitives: DUP SWAP DROP"));
    assert!(lines[2].ends_with("POSTPONE .\""));
    assert_eq!(lines[3], "Interactive: SEE <word> | VARIABLE <name> | <val> CONSTANT <name> | ' <word>");
}

#[test]
fn dictionary_pane_is_sorted_and_complete() {
    let m = Machine::new();
    let text = m.get_dictionary_text();
    let names: Vec<&str> = text.split('\n').collect();
    assert_eq!(names.len(), 61);
    assert_eq!(&names[..6], &["!", "*", "*/MOD", "+", "+!", "+LOOP"]);
    assert!(names.contains(&"BASE"));
    assert!(names.contains(&"POSTPONE"));
    for w in names.windows(2) {
        assert!(w[0] < w[1]);
    }
    let m = run(&[": ZZZ ;", ": AAA ;"]);
    let text = m.get_dictionary_text();
    let names: Vec<&str> = text.split('\n').collect();
    assert_eq!(names.len(), 63);
    assert_eq!(*names.last().unwrap(), "]");
    assert!(names.contains(&"ZZZ"));
    assert!(names.contains(&"AAA"));
}

#[test]
fn stack_pane() {
    let m = run(&["1 2 3", "-4"]);
    assert_eq!(m.get_stack_text(), "1\n2\n3\n-4");
}

#[test]
fn history_pane() {
    let m = run(&["1 2 +", "   ", "  .  "]);
    assert_eq!(m.get_history_text(), "> 1 2 +\n> .");
}

#[test]
fn memory_pane() {
    let m = run(&["VARIABLE X", "7 X !", "2 ALLOT"]);
    assert_eq!(m.get_memory_text(), "[0] 10\n[1] 7\n[2] 0\n[3] 0");
}

#[test]
fn trace_pane_interpret() {
    let m = run(&["1 2 +"]);
    assert_eq!(m.get_trace_text(), "I 1 | [1]\nI 2 | [1 2]\nI + | [3]");
}

#[test]
fn trace_pane_compile_and_run() {
    let m = run(&[": SQ DUP * ;", "3 SQ"]);
    assert_eq!(
        m.get_trace_text(),
        "C : | []\nC SQ | []\nC DUP | []\nC * | []\nI ; | []\nI 3 | [3]\nI DUP | [3 3]\nI * | [9]\nI SQ | [9]"
    );
}

#[test]
fn trace_pane_nested_call() {
    let m = run(&[": SQ DUP * ;", ": A SQ ;", "2 A"]);
    let t = m.get_trace_text();
    assert!(t.ends_with("I 2 | [2]\nI DUP | [2 2]\nI * | [4]\nI SQ | [4]\nI A | [4]"));
}

#[test]
fn output_pane_flushes_partial_line() {
    let m = run(&["1 .", "2 ."]);
    let out = m.get_output_text();
    assert!(out.ends_with("\n1 \n2 "));
}

#[test]
fn load_source_reports_bytes() {
    let mut m = Machine::new();
    m.load_source("  1 2 +  ");
    assert_eq!(m.get_stack_text(), "3");
    assert_eq!(m.get_history_text(), "> [load source]");
    assert_eq!(last_line(&m.get_output_text()), "Loaded source (5 chars).");
    let mut m = Machine::new();
    m.load_source("( \u{e9} ) 7");
    assert_eq!(last_line(&m.get_output_text()), "Loaded source (8 chars).");
    assert_eq!(m.get_stack_text(), "7");
}

#[test]
fn load_source_multiline() {
    let mut m = Machine::new();
    m.load_source(": SQ DUP * ; \\ square\n: CUBE DUP SQ * ;\n3 CUBE .");
    let out = m.get_output_text();
    let lines: Vec<&str> = out.split('\n').collect();
    assert_eq!(lines[lines.len() - 2], "27 ");
    assert_eq!(lines[lines.len() - 1], "Loaded source (48 chars).");
}

#[test]
fn blank_input_changes_nothing() {
    let mut m = Machine::new();
    m.eval_repl(" \t\n ");
    m.load_source("   ");
    assert_eq!(m.get_history_text(), "");
    assert_eq!(m.get_output_text().split('\n').count(), 4);
}

#[test]
fn reset_clears_stacks_keeps_words() {
    let mut m = run(&[": SQ DUP * ;", "1 2 : X 3"]);
    m.reset();
    assert_eq!(m.get_stack_text(), "");
    assert_eq!(last_line(&m.get_output_text()), "VM reset.");
    assert_eq!(last_line(&m.get_history_text()), "--- reset ---");
    assert_eq!(last_line(&m.get_trace_text()), "--- reset ---");
    m.eval_repl("4 SQ .");
    assert_eq!(last_line(&m.get_output_text()), "16 ");
    m.eval_repl("SEE X");
    assert_eq!(last_line(&m.get_output_text()), "SEE: unknown word X");
}
