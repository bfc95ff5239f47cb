use lc3_language_server::ast::{
    AddAndOpcodeInstructionNodeValue, DirectiveNodeValue, InstructionNodeValue, LiteralOrLabel,
    NodeError, NodeValue,
};
use lc3_language_server::lexer::analyze;
use lc3_language_server::parser::parse_ast;
use lc3_language_server::tokens::RegisterTokenValue;

fn first_error(errors: &[NodeError]) -> &str {
    match &errors[0] {
        NodeError::Error(msg) => msg,
        NodeError::Warning(msg) => panic!("expected an error, got warning {:?}", msg),
    }
}

#[test]
fn add_with_three_registers_is_register_form() {
    let nodes = parse_ast(&analyze("ADD R0,R1,R2"));
    assert_eq!(nodes.len(), 1);
    match &nodes[0].value {
        NodeValue::Instruction(InstructionNodeValue::ADD(
            AddAndOpcodeInstructionNodeValue::SR2 { dr, sr1, sr2 },
        )) => {
            assert!(matches!(dr, RegisterTokenValue::R0));
            assert!(matches!(sr1, RegisterTokenValue::R1));
            assert!(matches!(sr2, RegisterTokenValue::R2));
        }
        other => panic!("expected register-register form, got {:?}", other),
    }
    assert!(nodes[0].errors.is_empty());
}

#[test]
fn add_with_immediate_is_immediate_form() {
    let nodes = parse_ast(&analyze("ADD R0,R1,#5"));
    match &nodes[0].value {
        NodeValue::Instruction(InstructionNodeValue::ADD(
            AddAndOpcodeInstructionNodeValue::IMM { imm5, .. },
        )) => assert_eq!(imm5.value, "5"),
        other => panic!("expected immediate form, got {:?}", other),
    }
}

#[test]
fn add_with_two_operands_reports_expected_3() {
    let nodes = parse_ast(&analyze("ADD R0,R1"));
    assert_eq!(nodes.len(), 1);
    assert_eq!(nodes[0].errors.len(), 1);
    assert_eq!(first_error(&nodes[0].errors), "Incorrect number of arguments (expected 3)");
    assert!(matches!(
        nodes[0].value,
        NodeValue::Instruction(InstructionNodeValue::Error { .. })
    ));
}

#[test]
fn add_with_bad_operand_kind_reports_types() {
    let nodes = parse_ast(&analyze("ADD R0,R1,\"x\""));
    assert_eq!(
        first_error(&nodes[0].errors),
        "Incorrect argument types (expected register, register, register/literal)"
    );
}

#[test]
fn branch_takes_label_target() {
    let nodes = parse_ast(&analyze("BRnz LOOP"));
    match &nodes[0].value {
        NodeValue::Instruction(InstructionNodeValue::BR { n, z, p, pc_offset9 }) => {
            assert!(*n && *z && !*p);
            match pc_offset9 {
                LiteralOrLabel::Label(name) => assert_eq!(name, "LOOP"),
                other => panic!("expected label target, got {:?}", other),
            }
        }
        other => panic!("expected branch, got {:?}", other),
    }
}

#[test]
fn jmp_requires_a_register() {
    let nodes = parse_ast(&analyze("JMP #1"));
    assert_eq!(first_error(&nodes[0].errors), "Incorrect argument type (expected register)");
    let ok = parse_ast(&analyze("JMP R3"));
    assert!(matches!(
        ok[0].value,
        NodeValue::Instruction(InstructionNodeValue::JMP { base_r: RegisterTokenValue::R3 })
    ));
}

#[test]
fn jsr_takes_literal_or_label() {
    let nodes = parse_ast(&analyze("JSR SUB"));
    assert!(nodes[0].errors.is_empty());
    let bad = parse_ast(&analyze("JSR R0"));
    assert_eq!(first_error(&bad[0].errors), "Expected literal or label");
}

#[test]
fn ldr_takes_two_registers_and_offset() {
    let nodes = parse_ast(&analyze("LDR R0,R1,#2"));
    match &nodes[0].value {
        NodeValue::Instruction(InstructionNodeValue::LDR { dr, base_r, offset6 }) => {
            assert!(matches!(dr, RegisterTokenValue::R0));
            assert!(matches!(base_r, RegisterTokenValue::R1));
            assert!(matches!(offset6, LiteralOrLabel::Literal(_)));
        }
        other => panic!("expected LDR, got {:?}", other),
    }
}

#[test]
fn str_parses_to_its_own_shape() {
    let nodes = parse_ast(&analyze("STR R0,R1,#2"));
    match &nodes[0].value {
        NodeValue::Instruction(InstructionNodeValue::STR { sr, base_r, offset6 }) => {
            assert!(matches!(sr, RegisterTokenValue::R0));
            assert!(matches!(base_r, RegisterTokenValue::R1));
            assert!(matches!(offset6, LiteralOrLabel::Literal(_)));
        }
        other => panic!("expected STR, got {:?}", other),
    }
}

#[test]
fn not_takes_two_registers() {
    let nodes = parse_ast(&analyze("NOT R0,R1"));
    assert!(nodes[0].errors.is_empty());
    let bad = parse_ast(&analyze("NOT R0,#1"));
    assert_eq!(
        first_error(&bad[0].errors),
        "Incorrect argument types (expected register, register)"
    );
}

#[test]
fn ret_takes_no_arguments() {
    let nodes = parse_ast(&analyze("RET"));
    assert!(matches!(nodes[0].value, NodeValue::Instruction(InstructionNodeValue::RET)));
    let bad = parse_ast(&analyze("RET R0"));
    assert_eq!(first_error(&bad[0].errors), "Incorrect number of arguments (expected 0)");
}

#[test]
fn trap_requires_a_literal() {
    let nodes = parse_ast(&analyze("TRAP x25"));
    match &nodes[0].value {
        NodeValue::Instruction(InstructionNodeValue::TRAP { trapvect8 }) => {
            assert_eq!(trapvect8.value, "25");
        }
        other => panic!("expected TRAP, got {:?}", other),
    }
    let bad = parse_ast(&analyze("TRAP LOOP"));
    assert_eq!(first_error(&bad[0].errors), "Incorrect argument type (expected literal)");
}

#[test]
fn directives_parse_with_their_arguments() {
    let nodes = parse_ast(&analyze(".ORIG x3000\n.FILL #5\n.BLKW #3\n.STRINGZ \"hi\"\n.END"));
    let shapes: Vec<&NodeValue> = nodes.iter().map(|n| &n.value).collect();
    assert!(matches!(shapes[0], NodeValue::Directive(DirectiveNodeValue::ORIG(_))));
    assert!(matches!(shapes[2], NodeValue::Directive(DirectiveNodeValue::FILL(_))));
    assert!(matches!(shapes[4], NodeValue::Directive(DirectiveNodeValue::BLKW(_))));
    match shapes[6] {
        NodeValue::Directive(DirectiveNodeValue::STRINGZ(text)) => assert_eq!(text, "hi"),
        other => panic!("expected STRINGZ, got {:?}", other),
    }
    assert!(matches!(shapes[8], NodeValue::Directive(DirectiveNodeValue::END)));
}

#[test]
fn orig_without_argument_reports_expected_1() {
    let nodes = parse_ast(&analyze(".ORIG"));
    assert_eq!(first_error(&nodes[0].errors), "Incorrect number of arguments (expected 1)");
}

#[test]
fn stringz_rejects_a_number() {
    let nodes = parse_ast(&analyze(".STRINGZ #5"));
    assert_eq!(first_error(&nodes[0].errors), "Incorrect argument type (expected literal)");
}

#[test]
fn unknown_directive_is_named_in_the_error() {
    let nodes = parse_ast(&analyze(".WAT x1"));
    assert_eq!(first_error(&nodes[0].errors), "Unknown directive WAT");
    assert!(matches!(
        nodes[0].value,
        NodeValue::Directive(DirectiveNodeValue::Error { .. })
    ));
}

#[test]
fn leading_comma_is_an_unexpected_token() {
    let nodes = parse_ast(&analyze(", RET"));
    assert_eq!(first_error(&nodes[0].errors), "Unexpected token");
    assert!(matches!(nodes[0].value, NodeValue::UnexpectedToken(_)));
    assert!(matches!(nodes[1].value, NodeValue::Instruction(InstructionNodeValue::RET)));
}

#[test]
fn trailing_comma_is_consumed_with_the_arguments() {
    let nodes = parse_ast(&analyze("ADD R0,R1,R2,\nRET"));
    assert_eq!(nodes.len(), 3);
    assert!(nodes[0].errors.is_empty());
    assert!(matches!(nodes[1].value, NodeValue::NewLine));
    assert!(matches!(nodes[2].value, NodeValue::Instruction(InstructionNodeValue::RET)));
}

#[test]
fn argument_at_end_of_input_is_handled() {
    let nodes = parse_ast(&analyze("ADD R0"));
    assert_eq!(nodes.len(), 1);
    assert_eq!(first_error(&nodes[0].errors), "Incorrect number of arguments (expected 3)");
}

#[test]
fn ld_with_one_operand_reports_expected_2() {
    let nodes = parse_ast(&analyze("LD R0"));
    assert_eq!(first_error(&nodes[0].errors), "Incorrect number of arguments (expected 2)");
}

#[test]
fn ld_with_register_offset_reports_types() {
    let nodes = parse_ast(&analyze("LD R0,R1"));
    assert_eq!(
        first_error(&nodes[0].errors),
        "Incorrect argument types (expected register, literal/label)"
    );
}

#[test]
fn ldr_with_register_offset_reports_types() {
    let nodes = parse_ast(&analyze("LDR R0,R1,R2"));
    assert_eq!(
        first_error(&nodes[0].errors),
        "Incorrect argument types (expected register, register, literal/label)"
    );
}

#[test]
fn br_with_no_target_reports_expected_1() {
    let nodes = parse_ast(&analyze("BRn"));
    assert_eq!(first_error(&nodes[0].errors), "Incorrect number of arguments (expected 1)");
}

#[test]
fn end_with_argument_reports_expected_0() {
    let nodes = parse_ast(&analyze(".END #1"));
    assert_eq!(first_error(&nodes[0].errors), "Incorrect number of arguments (expected 0)");
}

#[test]
fn successful_nodes_end_at_their_last_argument() {
    // "LDI R0, TARGET": mnemonic at columns 1-3, TARGET at columns 9-14.
    let nodes = parse_ast(&analyze("LDI R0, TARGET"));
    assert_eq!((nodes[0].start_loc.col, nodes[0].end_loc.col), (1, 14));
    // ".ORIG x3000": directive at columns 1-5, literal at columns 7-11.
    let nodes = parse_ast(&analyze(".ORIG x3000"));
    assert_eq!((nodes[0].start_loc.col, nodes[0].end_loc.col), (1, 11));
    // ".STRINGZ "hi"": the string ends at its last content character.
    let nodes = parse_ast(&analyze(".STRINGZ \"hi\""));
    assert_eq!((nodes[0].start_loc.col, nodes[0].end_loc.col), (1, 12));
    // ".END" collects no argument and ends at the directive itself.
    let nodes = parse_ast(&analyze(".END"));
    assert_eq!((nodes[0].start_loc.col, nodes[0].end_loc.col), (1, 4));
}

#[test]
fn simple_projections_make_error_free_nodes() {
    let nodes = parse_ast(&analyze("LOOP\n; note\nHALT"));
    assert!(matches!(nodes[0].value, NodeValue::Label(_)));
    assert!(matches!(nodes[1].value, NodeValue::NewLine));
    assert!(matches!(nodes[2].value, NodeValue::Comment(_)));
    assert!(matches!(nodes[3].value, NodeValue::NewLine));
    assert!(matches!(nodes[4].value, NodeValue::TrapRoutine(_)));
    assert!(nodes.iter().all(|n| n.errors.is_empty()));
}
