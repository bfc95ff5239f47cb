use lc3_language_server::ast::{Node, NodeError};
use lc3_language_server::lexer::analyze;
use lc3_language_server::parser::parse_ast;
use lc3_language_server::passes::{verify_labels, verify_number_literals_within_range};

fn analyzed(text: &str) -> Vec<Node> {
    let mut nodes = parse_ast(&analyze(text));
    verify_labels(&mut nodes);
    verify_number_literals_within_range(&mut nodes);
    nodes
}

fn all_errors(nodes: &[Node]) -> Vec<String> {
    let mut out = Vec::new();
    for node in nodes {
        for err in &node.errors {
            match err {
                NodeError::Error(msg) => out.push(format!("error: {}", msg)),
                NodeError::Warning(msg) => out.push(format!("warning: {}", msg)),
            }
        }
    }
    out
}

#[test]
fn declared_label_resolves_everywhere() {
    let nodes = analyzed("LOOP\nADD R0,R0,#1\nBRnz LOOP\nJSR LOOP\nLD R1, LOOP");
    assert_eq!(all_errors(&nodes), Vec::<String>::new());
}

#[test]
fn undefined_branch_target_yields_one_error() {
    let nodes = analyzed("BR NOWHERE");
    let errors = all_errors(&nodes);
    assert_eq!(errors, vec!["error: Undefined label `NOWHERE`".to_string()]);
}

#[test]
fn label_comparison_is_case_sensitive() {
    let nodes = analyzed("FOO\nBR foo");
    assert_eq!(all_errors(&nodes), vec!["error: Undefined label `foo`".to_string()]);
}

#[test]
fn duplicate_label_declarations_are_not_diagnosed() {
    let nodes = analyzed("A\nA\nBR A");
    assert_eq!(all_errors(&nodes), Vec::<String>::new());
}

#[test]
fn literal_operands_are_ignored_by_label_pass() {
    let mut nodes = parse_ast(&analyze("BR #5"));
    verify_labels(&mut nodes);
    assert!(nodes[0].errors.is_empty());
}

#[test]
fn running_label_pass_twice_duplicates_diagnostics() {
    // Each pass is designed to run exactly once per parse; a second run over
    // the same nodes appends its diagnostics again.
    let mut nodes = parse_ast(&analyze("BR NOWHERE"));
    verify_labels(&mut nodes);
    verify_labels(&mut nodes);
    let errors = all_errors(&nodes);
    assert_eq!(
        errors,
        vec![
            "error: Undefined label `NOWHERE`".to_string(),
            "error: Undefined label `NOWHERE`".to_string(),
        ]
    );
}

#[test]
fn trap_vector_in_range_draws_no_warning() {
    let nodes = analyzed("TRAP x25");
    assert_eq!(all_errors(&nodes), Vec::<String>::new());
}

#[test]
fn trap_vector_out_of_range_cites_hex_bounds() {
    let nodes = analyzed("TRAP x1FF");
    assert_eq!(
        all_errors(&nodes),
        vec![
            "warning: Number literal `x1FF` is out of range. Must be within [x0, xFF] (8 bits zero extended)"
                .to_string(),
        ]
    );
}

#[test]
fn trap_vector_may_not_be_negative() {
    let nodes = analyzed("TRAP x-1");
    assert_eq!(all_errors(&nodes).len(), 1);
}

#[test]
fn imm5_boundaries_sign_extended() {
    assert_eq!(all_errors(&analyzed("ADD R0,R1,#15")), Vec::<String>::new());
    assert_eq!(all_errors(&analyzed("ADD R0,R1,#-16")), Vec::<String>::new());
    assert_eq!(
        all_errors(&analyzed("ADD R0,R1,#16")),
        vec![
            "warning: Number literal `#16` is out of range. Must be within [#-16, #15] (5 bits sign extended)"
                .to_string(),
        ]
    );
    assert_eq!(
        all_errors(&analyzed("ADD R0,R1,#-17")),
        vec![
            "warning: Number literal `#-17` is out of range. Must be within [#-16, #15] (5 bits sign extended)"
                .to_string(),
        ]
    );
}

#[test]
fn offset9_boundaries_sign_extended() {
    assert_eq!(all_errors(&analyzed("LD R0, #255")), Vec::<String>::new());
    assert_eq!(all_errors(&analyzed("LD R0, #-256")), Vec::<String>::new());
    assert_eq!(all_errors(&analyzed("LD R0, #256")).len(), 1);
    assert_eq!(all_errors(&analyzed("LD R0, #-257")).len(), 1);
}

#[test]
fn offset6_boundaries_sign_extended() {
    assert_eq!(all_errors(&analyzed("LDR R0,R1,#31")), Vec::<String>::new());
    assert_eq!(all_errors(&analyzed("STR R0,R1,#-32")), Vec::<String>::new());
    assert_eq!(all_errors(&analyzed("LDR R0,R1,#32")).len(), 1);
    assert_eq!(all_errors(&analyzed("STR R0,R1,#-33")).len(), 1);
}

#[test]
fn offset11_boundaries_sign_extended() {
    assert_eq!(all_errors(&analyzed("JSR #1023")), Vec::<String>::new());
    assert_eq!(all_errors(&analyzed("JSR #-1024")), Vec::<String>::new());
    let errors = all_errors(&analyzed("JSR #1024"));
    assert_eq!(
        errors,
        vec![
            "warning: Number literal `#1024` is out of range. Must be within [#-1024, #1023] (11 bits sign extended)"
                .to_string(),
        ]
    );
}

#[test]
fn hex_bounds_are_cited_in_hex_notation() {
    let errors = all_errors(&analyzed("ADD R0,R1,x7F"));
    assert_eq!(
        errors,
        vec![
            "warning: Number literal `x7F` is out of range. Must be within [x-10, xF] (5 bits sign extended)"
                .to_string(),
        ]
    );
}

#[test]
fn unparseable_literal_digits_draw_no_warning() {
    // The range pass checks values; digit text that does not parse in its
    // radix is left alone, and the pass never aborts the analysis.
    let nodes = analyzed("TRAP xZZ\nTRAP x");
    assert_eq!(all_errors(&nodes), Vec::<String>::new());
}

#[test]
fn label_targets_are_not_range_checked() {
    let nodes = analyzed("FAR\nBR FAR");
    assert_eq!(all_errors(&nodes), Vec::<String>::new());
}

#[test]
fn full_program_reports_in_order() {
    let text = ".ORIG x3000\nSTART\n  ADD R1, R1, #99\n  BR MISSING\n  HALT\n.END";
    let nodes = analyzed(text);
    let errors = all_errors(&nodes);
    assert_eq!(errors.len(), 2);
    assert!(errors[0].starts_with("warning: Number literal `#99`"));
    assert_eq!(errors[1], "error: Undefined label `MISSING`");
}
