//! Lexical token data model: every token carries an inclusive start/end
//! source location, and numeric literals keep their raw digit text together
//! with the radix they were written in.

use vstd::prelude::*;

verus! {

/// A (line, column) cursor into the source text; both components are 1-based.
#[derive(Clone, Copy, Debug)]
pub struct FileLoc {
    pub line: usize,
    pub col: usize,
}

/// Spec-level mirror of `FileLoc` over unbounded integers.
pub struct LocView {
    pub line: int,
    pub col: int,
}

impl View for FileLoc {
    type V = LocView;

    open spec fn view(&self) -> LocView {
        LocView { line: self.line as int, col: self.col as int }
    }
}

impl FileLoc {
    /// The cursor at the very start of a text: line 1, column 1.
    pub fn new() -> (loc: Self)
        ensures
            loc.line == 1,
            loc.col == 1,
    {
        FileLoc { line: 1, col: 1 }
    }

    /// Moves the cursor to the first column of the following line.
    pub fn next_line(&mut self)
        requires
            old(self).line < usize::MAX,
        ensures
            final(self).line == old(self).line + 1,
            final(self).col == 1,
    {
        self.line = self.line + 1;
        self.col = 1;
    }
}

/// One lexical token: its category plus the inclusive source span it covers.
#[derive(Debug)]
pub struct Token {
    pub value: TokenValue,
    pub start_loc: FileLoc,
    pub end_loc: FileLoc,
}

#[verifier::ext_equal]
pub struct TokenView {
    pub value: TokenValueView,
    pub start_loc: LocView,
    pub end_loc: LocView,
}

impl View for Token {
    type V = TokenView;

    open spec fn view(&self) -> TokenView {
        TokenView { value: self.value@, start_loc: self.start_loc@, end_loc: self.end_loc@ }
    }
}

/// The tagged set of lexical categories.
#[derive(Debug)]
pub enum TokenValue {
    NewLine,
    Comma,
    Comment(String),
    NumberLiteral(NumberLiteralTokenValue),
    StringLiteral(String),
    Directive(DirectiveTokenValue),
    Opcode(OpcodeTokenValue),
    TrapRoutine(TrapRoutineTokenValue),
    Register(RegisterTokenValue),
    Label(String),
}

#[verifier::ext_equal]
pub enum TokenValueView {
    NewLine,
    Comma,
    Comment(Seq<char>),
    NumberLiteral(NumberLiteralView),
    StringLiteral(Seq<char>),
    Directive(DirectiveTokenValueView),
    Opcode(OpcodeTokenValue),
    TrapRoutine(TrapRoutineTokenValue),
    Register(RegisterTokenValue),
    Label(Seq<char>),
}

impl View for TokenValue {
    type V = TokenValueView;

    open spec fn view(&self) -> TokenValueView {
        match self {
            TokenValue::NewLine => TokenValueView::NewLine,
            TokenValue::Comma => TokenValueView::Comma,
            TokenValue::Comment(text) => TokenValueView::Comment(text@),
            TokenValue::NumberLiteral(lit) => TokenValueView::NumberLiteral(lit@),
            TokenValue::StringLiteral(text) => TokenValueView::StringLiteral(text@),
            TokenValue::Directive(d) => TokenValueView::Directive(d@),
            TokenValue::Opcode(op) => TokenValueView::Opcode(*op),
            TokenValue::TrapRoutine(t) => TokenValueView::TrapRoutine(*t),
            TokenValue::Register(r) => TokenValueView::Register(*r),
            TokenValue::Label(text) => TokenValueView::Label(text@),
        }
    }
}

/// A numeric literal as written: the radix marker it used and the raw digit
/// text after the marker, not yet converted to an integer.
#[derive(Debug)]
pub struct NumberLiteralTokenValue {
    pub format: NumberLiteralFormat,
    pub value: String,
}

#[verifier::ext_equal]
pub struct NumberLiteralView {
    pub format: NumberLiteralFormat,
    pub value: Seq<char>,
}

impl View for NumberLiteralTokenValue {
    type V = NumberLiteralView;

    open spec fn view(&self) -> NumberLiteralView {
        NumberLiteralView { format: self.format, value: self.value@ }
    }
}

/// The radix a numeric literal was written in: `x` for hex, `#` for decimal.
#[derive(Clone, Copy, Debug, PartialEq, Eq, Structural)]
pub enum NumberLiteralFormat {
    Hex,
    Decimal,
}

/// An assembler directive keyword; unrecognized directive text is kept, case
/// folded to upper case, in the `Error` variant.
#[derive(Debug)]
pub enum DirectiveTokenValue {
    ORIG,
    FILL,
    BLKW,
    STRINGZ,
    END,
    Error(String),
}

#[verifier::ext_equal]
pub enum DirectiveTokenValueView {
    ORIG,
    FILL,
    BLKW,
    STRINGZ,
    END,
    Error(Seq<char>),
}

impl View for DirectiveTokenValue {
    type V = DirectiveTokenValueView;

    open spec fn view(&self) -> DirectiveTokenValueView {
        match self {
            DirectiveTokenValue::ORIG => DirectiveTokenValueView::ORIG,
            DirectiveTokenValue::FILL => DirectiveTokenValueView::FILL,
            DirectiveTokenValue::BLKW => DirectiveTokenValueView::BLKW,
            DirectiveTokenValue::STRINGZ => DirectiveTokenValueView::STRINGZ,
            DirectiveTokenValue::END => DirectiveTokenValueView::END,
            DirectiveTokenValue::Error(text) => DirectiveTokenValueView::Error(text@),
        }
    }
}

/// A machine-instruction mnemonic; branches carry their three condition
/// flags.
#[derive(Clone, Copy, Debug, PartialEq, Eq, Structural)]
pub enum OpcodeTokenValue {
    ADD,
    AND,
    BR { n: bool, z: bool, p: bool },
    JMP,
    JSR,
    LD,
    LDI,
    LDR,
    LEA,
    NOT,
    RET,
    ST,
    STI,
    STR,
    TRAP,
}

/// One of the six fixed system-call mnemonics.
#[derive(Clone, Copy, Debug, PartialEq, Eq, Structural)]
pub enum TrapRoutineTokenValue {
    GETC,
    OUT,
    PUTS,
    IN,
    PUTSP,
    HALT,
}

/// One of the eight general-purpose registers.
#[derive(Clone, Copy, Debug, PartialEq, Eq, Structural)]
pub enum RegisterTokenValue {
    R0,
    R1,
    R2,
    R3,
    R4,
    R5,
    R6,
    R7,
}

impl Clone for NumberLiteralTokenValue {
    /// Clones preserve the view.
    fn clone(&self) -> (r: Self)
        ensures
            r@ == self@,
    {
        NumberLiteralTokenValue { format: self.format, value: self.value.clone() }
    }
}

impl Clone for DirectiveTokenValue {
    /// Clones preserve the view.
    fn clone(&self) -> (r: Self)
        ensures
            r@ == self@,
    {
        match self {
            DirectiveTokenValue::ORIG => DirectiveTokenValue::ORIG,
            DirectiveTokenValue::FILL => DirectiveTokenValue::FILL,
            DirectiveTokenValue::BLKW => DirectiveTokenValue::BLKW,
            DirectiveTokenValue::STRINGZ => DirectiveTokenValue::STRINGZ,
            DirectiveTokenValue::END => DirectiveTokenValue::END,
            DirectiveTokenValue::Error(text) => DirectiveTokenValue::Error(text.clone()),
        }
    }
}

impl Clone for TokenValue {
    /// Clones preserve the view.
    fn clone(&self) -> (r: Self)
        ensures
            r@ == self@,
    {
        match self {
            TokenValue::NewLine => TokenValue::NewLine,
            TokenValue::Comma => TokenValue::Comma,
            TokenValue::Comment(text) => TokenValue::Comment(text.clone()),
            TokenValue::NumberLiteral(lit) => TokenValue::NumberLiteral(lit.clone()),
            TokenValue::StringLiteral(text) => TokenValue::StringLiteral(text.clone()),
            TokenValue::Directive(d) => TokenValue::Directive(d.clone()),
            TokenValue::Opcode(op) => TokenValue::Opcode(*op),
            TokenValue::TrapRoutine(t) => TokenValue::TrapRoutine(*t),
            TokenValue::Register(r) => TokenValue::Register(*r),
            TokenValue::Label(text) => TokenValue::Label(text.clone()),
        }
    }
}

impl Clone for Token {
    /// Clones preserve the view.
    fn clone(&self) -> (r: Self)
        ensures
            r@ == self@,
    {
        Token { value: self.value.clone(), start_loc: self.start_loc, end_loc: self.end_loc }
    }
}

} // verus!
