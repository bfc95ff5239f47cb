use lc3_language_server::lexer::analyze;
use lc3_language_server::tokens::{
    DirectiveTokenValue, NumberLiteralFormat, OpcodeTokenValue, RegisterTokenValue, TokenValue,
    TrapRoutineTokenValue,
};

#[test]
fn empty_input_has_no_tokens() {
    assert_eq!(analyze("").len(), 0);
}

#[test]
fn whitespace_only_has_no_tokens() {
    assert_eq!(analyze("   \t  ").len(), 0);
}

#[test]
fn add_line_token_kinds() {
    let toks = analyze("ADD R0, R1, #5");
    assert_eq!(toks.len(), 6);
    assert!(matches!(toks[0].value, TokenValue::Opcode(OpcodeTokenValue::ADD)));
    assert!(matches!(toks[1].value, TokenValue::Register(RegisterTokenValue::R0)));
    assert!(matches!(toks[2].value, TokenValue::Comma));
    assert!(matches!(toks[3].value, TokenValue::Register(RegisterTokenValue::R1)));
    assert!(matches!(toks[4].value, TokenValue::Comma));
    match &toks[5].value {
        TokenValue::NumberLiteral(lit) => {
            assert!(matches!(lit.format, NumberLiteralFormat::Decimal));
            assert_eq!(lit.value, "5");
        }
        other => panic!("expected number literal, got {:?}", other),
    }
}

#[test]
fn keyword_matching_is_case_insensitive() {
    let toks = analyze("add r1 halt .orig");
    assert!(matches!(toks[0].value, TokenValue::Opcode(OpcodeTokenValue::ADD)));
    assert!(matches!(toks[1].value, TokenValue::Register(RegisterTokenValue::R1)));
    assert!(matches!(toks[2].value, TokenValue::TrapRoutine(TrapRoutineTokenValue::HALT)));
    assert!(matches!(toks[3].value, TokenValue::Directive(DirectiveTokenValue::ORIG)));
}

#[test]
fn label_preserves_original_case() {
    let toks = analyze("MyLoop");
    match &toks[0].value {
        TokenValue::Label(name) => assert_eq!(name, "MyLoop"),
        other => panic!("expected label, got {:?}", other),
    }
}

#[test]
fn hex_literal_keeps_raw_digits() {
    let toks = analyze("x1F #-42");
    match &toks[0].value {
        TokenValue::NumberLiteral(lit) => {
            assert!(matches!(lit.format, NumberLiteralFormat::Hex));
            assert_eq!(lit.value, "1F");
        }
        other => panic!("expected hex literal, got {:?}", other),
    }
    match &toks[1].value {
        TokenValue::NumberLiteral(lit) => {
            assert!(matches!(lit.format, NumberLiteralFormat::Decimal));
            assert_eq!(lit.value, "-42");
        }
        other => panic!("expected decimal literal, got {:?}", other),
    }
}

#[test]
fn uppercase_x_is_a_label_not_a_literal() {
    let toks = analyze("X1F");
    match &toks[0].value {
        TokenValue::Label(name) => assert_eq!(name, "X1F"),
        other => panic!("expected label, got {:?}", other),
    }
}

#[test]
fn string_literal_drops_quotes() {
    let toks = analyze("\"hello world\"");
    match &toks[0].value {
        TokenValue::StringLiteral(text) => assert_eq!(text, "hello world"),
        other => panic!("expected string literal, got {:?}", other),
    }
}

#[test]
fn unterminated_string_runs_to_end() {
    let toks = analyze("\"abc");
    match &toks[0].value {
        TokenValue::StringLiteral(text) => assert_eq!(text, "abc"),
        other => panic!("expected string literal, got {:?}", other),
    }
}

#[test]
fn comment_runs_to_end_of_line() {
    let toks = analyze("; a note\nRET");
    match &toks[0].value {
        TokenValue::Comment(text) => assert_eq!(text, " a note"),
        other => panic!("expected comment, got {:?}", other),
    }
    assert!(matches!(toks[1].value, TokenValue::NewLine));
    assert!(matches!(toks[2].value, TokenValue::Opcode(OpcodeTokenValue::RET)));
}

#[test]
fn unknown_directive_keeps_folded_text() {
    let toks = analyze(".wat");
    match &toks[0].value {
        TokenValue::Directive(DirectiveTokenValue::Error(text)) => assert_eq!(text, "WAT"),
        other => panic!("expected unknown directive, got {:?}", other),
    }
}

#[test]
fn bare_br_is_unconditional_all_flags_set() {
    let toks = analyze("BR");
    match &toks[0].value {
        TokenValue::Opcode(OpcodeTokenValue::BR { n, z, p }) => {
            assert!(*n && *z && *p);
        }
        other => panic!("expected branch opcode, got {:?}", other),
    }
}

#[test]
fn br_suffix_sets_only_named_flags() {
    let toks = analyze("brNz");
    match &toks[0].value {
        TokenValue::Opcode(OpcodeTokenValue::BR { n, z, p }) => {
            assert!(*n && *z && !*p);
        }
        other => panic!("expected branch opcode, got {:?}", other),
    }
}

#[test]
fn br_word_with_bad_suffix_is_dropped() {
    // Regression pin for the documented tokenizer edge case: a word with the
    // branch prefix and a suffix outside {N, Z, P} produces no token at all.
    let toks = analyze("BREAK");
    assert_eq!(toks.len(), 0);
}

#[test]
fn dropped_br_word_skews_following_columns() {
    // The second half of the same edge case: after a dropped word the cursor
    // stays on its final character, so the next token's column is one low.
    let toks = analyze("BRQ ADD");
    assert_eq!(toks.len(), 1);
    assert!(matches!(toks[0].value, TokenValue::Opcode(OpcodeTokenValue::ADD)));
    assert_eq!(toks[0].start_loc.col, 4);
}

#[test]
fn token_spans_cover_a_line() {
    let toks = analyze("  LD R1, x10");
    // LD at columns 3-4, R1 at 6-7, comma at 8, x10 at 10-12.
    assert_eq!((toks[0].start_loc.line, toks[0].start_loc.col, toks[0].end_loc.col), (1, 3, 4));
    assert_eq!((toks[1].start_loc.col, toks[1].end_loc.col), (6, 7));
    assert_eq!((toks[2].start_loc.col, toks[2].end_loc.col), (8, 8));
    assert_eq!((toks[3].start_loc.col, toks[3].end_loc.col), (10, 12));
}

#[test]
fn newline_advances_line_numbers() {
    let toks = analyze("RET\nRET");
    assert_eq!(toks[0].start_loc.line, 1);
    assert!(matches!(toks[1].value, TokenValue::NewLine));
    assert_eq!(toks[2].start_loc.line, 2);
    assert_eq!(toks[2].start_loc.col, 1);
}

#[test]
fn string_spanning_lines_tracks_the_cursor() {
    let toks = analyze("\"a\nb\" RET");
    match &toks[0].value {
        TokenValue::StringLiteral(text) => assert_eq!(text, "a\nb"),
        other => panic!("expected string literal, got {:?}", other),
    }
    assert_eq!((toks[0].start_loc.line, toks[0].start_loc.col), (1, 1));
    // The cursor steps once per content character, so after an embedded
    // newline the recorded end (and what follows on that line) sits one
    // column past the characters themselves.
    assert_eq!((toks[0].end_loc.line, toks[0].end_loc.col), (2, 2));
    assert_eq!((toks[1].start_loc.line, toks[1].start_loc.col), (2, 5));
}

#[test]
fn number_at_end_of_input_is_tokenized() {
    let toks = analyze("TRAP x25");
    assert_eq!(toks.len(), 2);
    match &toks[1].value {
        TokenValue::NumberLiteral(lit) => assert_eq!(lit.value, "25"),
        other => panic!("expected number literal, got {:?}", other),
    }
}

#[test]
fn directive_run_swallows_commas() {
    // A directive word stops only at whitespace, so a comma stays inside it.
    let toks = analyze(".orig,x");
    match &toks[0].value {
        TokenValue::Directive(DirectiveTokenValue::Error(text)) => assert_eq!(text, "ORIG,X"),
        other => panic!("expected unknown directive, got {:?}", other),
    }
}
