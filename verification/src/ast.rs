//! Data types for the nodes in the LC3 abstract syntax tree: one structural
//! node per source construct, each carrying a classified payload, a source
//! span, and the diagnostics the parser and the semantic passes attached.

use vstd::prelude::*;

use crate::lexer::token_views;
use crate::tokens::{
    DirectiveTokenValue, DirectiveTokenValueView, FileLoc, LocView, NumberLiteralTokenValue,
    NumberLiteralView, OpcodeTokenValue, RegisterTokenValue, Token, TokenView,
    TrapRoutineTokenValue,
};

verus! {

/// One structural node: its payload, the inclusive source span it covers, and
/// its diagnostics.
#[derive(Debug)]
pub struct Node {
    pub value: NodeValue,
    pub start_loc: FileLoc,
    pub end_loc: FileLoc,
    pub errors: Vec<NodeError>,
}

#[verifier::ext_equal]
pub struct NodeView {
    pub value: NodeValueView,
    pub start_loc: LocView,
    pub end_loc: LocView,
    pub errors: Seq<NodeErrorView>,
}

impl View for Node {
    type V = NodeView;

    open spec fn view(&self) -> NodeView {
        NodeView {
            value: self.value@,
            start_loc: self.start_loc@,
            end_loc: self.end_loc@,
            errors: self.errors@.map_values(|e: NodeError| e@),
        }
    }
}

/// One diagnostic: an error blocks correctness, a warning is advisory.
#[derive(Debug)]
pub enum NodeError {
    Error(String),
    Warning(String),
}

#[verifier::ext_equal]
pub enum NodeErrorView {
    Error(Seq<char>),
    Warning(Seq<char>),
}

impl View for NodeError {
    type V = NodeErrorView;

    open spec fn view(&self) -> NodeErrorView {
        match self {
            NodeError::Error(text) => NodeErrorView::Error(text@),
            NodeError::Warning(text) => NodeErrorView::Warning(text@),
        }
    }
}

impl Clone for NodeError {
    /// Clones preserve the view.
    fn clone(&self) -> (r: Self)
        ensures
            r@ == self@,
    {
        match self {
            NodeError::Error(text) => NodeError::Error(text.clone()),
            NodeError::Warning(text) => NodeError::Warning(text.clone()),
        }
    }
}

/// The payload of a node: one variant per kind of source construct.
#[derive(Debug)]
pub enum NodeValue {
    NewLine,
    Comment(String),
    Label(String),
    Instruction(InstructionNodeValue),
    Directive(DirectiveNodeValue),
    TrapRoutine(TrapRoutineTokenValue),
    UnexpectedToken(Token),
}

#[verifier::ext_equal]
pub enum NodeValueView {
    NewLine,
    Comment(Seq<char>),
    Label(Seq<char>),
    Instruction(InstructionNodeValueView),
    Directive(DirectiveNodeValueView),
    TrapRoutine(TrapRoutineTokenValue),
    UnexpectedToken(TokenView),
}

impl View for NodeValue {
    type V = NodeValueView;

    open spec fn view(&self) -> NodeValueView {
        match self {
            NodeValue::NewLine => NodeValueView::NewLine,
            NodeValue::Comment(text) => NodeValueView::Comment(text@),
            NodeValue::Label(text) => NodeValueView::Label(text@),
            NodeValue::Instruction(v) => NodeValueView::Instruction(v@),
            NodeValue::Directive(v) => NodeValueView::Directive(v@),
            NodeValue::TrapRoutine(t) => NodeValueView::TrapRoutine(*t),
            NodeValue::UnexpectedToken(t) => NodeValueView::UnexpectedToken(t@),
        }
    }
}

/// An instruction operand that is either a numeric literal kept as written or
/// a symbolic label reference to be resolved later.
#[derive(Debug)]
pub enum LiteralOrLabel {
    Literal(NumberLiteralTokenValue),
    Label(String),
}

#[verifier::ext_equal]
pub enum LiteralOrLabelView {
    Literal(NumberLiteralView),
    Label(Seq<char>),
}

impl View for LiteralOrLabel {
    type V = LiteralOrLabelView;

    open spec fn view(&self) -> LiteralOrLabelView {
        match self {
            LiteralOrLabel::Literal(lit) => LiteralOrLabelView::Literal(lit@),
            LiteralOrLabel::Label(name) => LiteralOrLabelView::Label(name@),
        }
    }
}

/// The fifteen instruction shapes, plus the error shape that keeps the
/// mnemonic and the raw collected argument tokens for diagnostic replay.
#[derive(Debug)]
pub enum InstructionNodeValue {
    ADD(AddAndOpcodeInstructionNodeValue),
    AND(AddAndOpcodeInstructionNodeValue),
    BR { n: bool, z: bool, p: bool, pc_offset9: LiteralOrLabel },
    JMP { base_r: RegisterTokenValue },
    JSR { pc_offset11: LiteralOrLabel },
    LD { dr: RegisterTokenValue, pc_offset9: LiteralOrLabel },
    LDI { dr: RegisterTokenValue, pc_offset9: LiteralOrLabel },
    LDR { dr: RegisterTokenValue, base_r: RegisterTokenValue, offset6: LiteralOrLabel },
    LEA { dr: RegisterTokenValue, pc_offset9: LiteralOrLabel },
    NOT { dr: RegisterTokenValue, sr: RegisterTokenValue },
    RET,
    ST { sr: RegisterTokenValue, pc_offset9: LiteralOrLabel },
    STI { sr: RegisterTokenValue, pc_offset9: LiteralOrLabel },
    STR { sr: RegisterTokenValue, base_r: RegisterTokenValue, offset6: LiteralOrLabel },
    TRAP { trapvect8: NumberLiteralTokenValue },
    Error { opcode: OpcodeTokenValue, args: Option<Vec<Token>> },
}

#[verifier::ext_equal]
pub enum InstructionNodeValueView {
    ADD(AddAndView),
    AND(AddAndView),
    BR { n: bool, z: bool, p: bool, pc_offset9: LiteralOrLabelView },
    JMP { base_r: RegisterTokenValue },
    JSR { pc_offset11: LiteralOrLabelView },
    LD { dr: RegisterTokenValue, pc_offset9: LiteralOrLabelView },
    LDI { dr: RegisterTokenValue, pc_offset9: LiteralOrLabelView },
    LDR { dr: RegisterTokenValue, base_r: RegisterTokenValue, offset6: LiteralOrLabelView },
    LEA { dr: RegisterTokenValue, pc_offset9: LiteralOrLabelView },
    NOT { dr: RegisterTokenValue, sr: RegisterTokenValue },
    RET,
    ST { sr: RegisterTokenValue, pc_offset9: LiteralOrLabelView },
    STI { sr: RegisterTokenValue, pc_offset9: LiteralOrLabelView },
    STR { sr: RegisterTokenValue, base_r: RegisterTokenValue, offset6: LiteralOrLabelView },
    TRAP { trapvect8: NumberLiteralView },
    Error { opcode: OpcodeTokenValue, args: Option<Seq<TokenView>> },
}

impl View for InstructionNodeValue {
    type V = InstructionNodeValueView;

    open spec fn view(&self) -> InstructionNodeValueView {
        match self {
            InstructionNodeValue::ADD(v) => InstructionNodeValueView::ADD(v@),
            InstructionNodeValue::AND(v) => InstructionNodeValueView::AND(v@),
            InstructionNodeValue::BR { n, z, p, pc_offset9 } => InstructionNodeValueView::BR {
                n: *n,
                z: *z,
                p: *p,
                pc_offset9: pc_offset9@,
            },
            InstructionNodeValue::JMP { base_r } => InstructionNodeValueView::JMP {
                base_r: *base_r,
            },
            InstructionNodeValue::JSR { pc_offset11 } => InstructionNodeValueView::JSR {
                pc_offset11: pc_offset11@,
            },
            InstructionNodeValue::LD { dr, pc_offset9 } => InstructionNodeValueView::LD {
                dr: *dr,
                pc_offset9: pc_offset9@,
            },
            InstructionNodeValue::LDI { dr, pc_offset9 } => InstructionNodeValueView::LDI {
                dr: *dr,
                pc_offset9: pc_offset9@,
            },
            InstructionNodeValue::LDR { dr, base_r, offset6 } => InstructionNodeValueView::LDR {
                dr: *dr,
                base_r: *base_r,
                offset6: offset6@,
            },
            InstructionNodeValue::LEA { dr, pc_offset9 } => InstructionNodeValueView::LEA {
                dr: *dr,
                pc_offset9: pc_offset9@,
            },
            InstructionNodeValue::NOT { dr, sr } => InstructionNodeValueView::NOT {
                dr: *dr,
                sr: *sr,
            },
            InstructionNodeValue::RET => InstructionNodeValueView::RET,
            InstructionNodeValue::ST { sr, pc_offset9 } => InstructionNodeValueView::ST {
                sr: *sr,
                pc_offset9: pc_offset9@,
            },
            InstructionNodeValue::STI { sr, pc_offset9 } => InstructionNodeValueView::STI {
                sr: *sr,
                pc_offset9: pc_offset9@,
            },
            InstructionNodeValue::STR { sr, base_r, offset6 } => InstructionNodeValueView::STR {
                sr: *sr,
                base_r: *base_r,
                offset6: offset6@,
            },
            InstructionNodeValue::TRAP { trapvect8 } => InstructionNodeValueView::TRAP {
                trapvect8: trapvect8@,
            },
            InstructionNodeValue::Error { opcode, args } => InstructionNodeValueView::Error {
                opcode: *opcode,
                args: match args {
                    Some(v) => Some(token_views(v@)),
                    None => None,
                },
            },
        }
    }
}

/// The two sub-shapes of `ADD` and `AND`: third operand a register, or an
/// immediate literal.
#[derive(Debug)]
pub enum AddAndOpcodeInstructionNodeValue {
    SR2 { dr: RegisterTokenValue, sr1: RegisterTokenValue, sr2: RegisterTokenValue },
    IMM { dr: RegisterTokenValue, sr1: RegisterTokenValue, imm5: NumberLiteralTokenValue },
}

#[verifier::ext_equal]
pub enum AddAndView {
    SR2 { dr: RegisterTokenValue, sr1: RegisterTokenValue, sr2: RegisterTokenValue },
    IMM { dr: RegisterTokenValue, sr1: RegisterTokenValue, imm5: NumberLiteralView },
}

impl View for AddAndOpcodeInstructionNodeValue {
    type V = AddAndView;

    open spec fn view(&self) -> AddAndView {
        match self {
            AddAndOpcodeInstructionNodeValue::SR2 { dr, sr1, sr2 } => AddAndView::SR2 {
                dr: *dr,
                sr1: *sr1,
                sr2: *sr2,
            },
            AddAndOpcodeInstructionNodeValue::IMM { dr, sr1, imm5 } => AddAndView::IMM {
                dr: *dr,
                sr1: *sr1,
                imm5: imm5@,
            },
        }
    }
}

/// The five directive shapes, plus the error shape that keeps the directive
/// and the raw collected argument tokens.
#[derive(Debug)]
pub enum DirectiveNodeValue {
    ORIG(NumberLiteralTokenValue),
    FILL(NumberLiteralTokenValue),
    BLKW(NumberLiteralTokenValue),
    STRINGZ(String),
    END,
    Error { directive: DirectiveTokenValue, args: Option<Vec<Token>> },
}

#[verifier::ext_equal]
pub enum DirectiveNodeValueView {
    ORIG(NumberLiteralView),
    FILL(NumberLiteralView),
    BLKW(NumberLiteralView),
    STRINGZ(Seq<char>),
    END,
    Error { directive: DirectiveTokenValueView, args: Option<Seq<TokenView>> },
}

impl View for DirectiveNodeValue {
    type V = DirectiveNodeValueView;

    open spec fn view(&self) -> DirectiveNodeValueView {
        match self {
            DirectiveNodeValue::ORIG(lit) => DirectiveNodeValueView::ORIG(lit@),
            DirectiveNodeValue::FILL(lit) => DirectiveNodeValueView::FILL(lit@),
            DirectiveNodeValue::BLKW(lit) => DirectiveNodeValueView::BLKW(lit@),
            DirectiveNodeValue::STRINGZ(text) => DirectiveNodeValueView::STRINGZ(text@),
            DirectiveNodeValue::END => DirectiveNodeValueView::END,
            DirectiveNodeValue::Error { directive, args } => DirectiveNodeValueView::Error {
                directive: directive@,
                args: match args {
                    Some(v) => Some(token_views(v@)),
                    None => None,
                },
            },
        }
    }
}

/// The views of a list of nodes.
pub open spec fn node_views(ns: Seq<Node>) -> Seq<NodeView> {
    ns.map_values(|n: Node| n@)
}

/// The views of a list of diagnostics.
pub open spec fn error_views(es: Seq<NodeError>) -> Seq<NodeErrorView> {
    es.map_values(|e: NodeError| e@)
}

} // verus!
