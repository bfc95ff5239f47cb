//! Parser: consumes the token sequence once, producing exactly one
//! structural node per leading token that is not itself consumed as an
//! argument, and applying the per-opcode/per-directive argument shape rules.
//!
//! The grammar is written down once, as the specification [`parse_from`];
//! the executable [`parse_ast`] is proved to produce exactly its nodes.

use vstd::prelude::*;

use crate::ast::{
    AddAndOpcodeInstructionNodeValue, AddAndView, DirectiveNodeValue, DirectiveNodeValueView,
    InstructionNodeValue, InstructionNodeValueView, LiteralOrLabel, LiteralOrLabelView, Node,
    NodeError, NodeErrorView, NodeValue, NodeValueView, NodeView, node_views,
};
use crate::lexer::token_views;
use crate::tokens::{
    DirectiveTokenValue, DirectiveTokenValueView, FileLoc, LocView, OpcodeTokenValue,
    RegisterTokenValue, Token, TokenValue, TokenValueView, TokenView,
};

verus! {

/// Whether a token can be consumed as an instruction or directive argument.
pub open spec fn is_arg_token(v: TokenValueView) -> bool {
    ||| v is Register
    ||| v is Label
    ||| v is NumberLiteral
    ||| v is StringLiteral
}

/// Argument collection, starting at the token after a mnemonic: repeatedly
/// accept an argument-kind token, and after one a comma to continue; the
/// result is the collected arguments and the position of the first token not
/// consumed.
pub open spec fn collect_args(toks: Seq<TokenView>, i: int) -> (Seq<TokenView>, int)
    decreases toks.len() - i,
{
    if i >= toks.len() || !is_arg_token(toks[i].value) {
        (Seq::empty(), i)
    } else if i + 1 >= toks.len() {
        (seq![toks[i]], i + 1)
    } else if toks[i + 1].value is Comma {
        let rest = collect_args(toks, i + 2);
        (seq![toks[i]] + rest.0, rest.1)
    } else {
        (seq![toks[i]], i + 1)
    }
}

pub proof fn lemma_collect_args_bounds(toks: Seq<TokenView>, i: int)
    requires
        0 <= i <= toks.len(),
    ensures
        i <= collect_args(toks, i).1 <= toks.len(),
        collect_args(toks, i).0.len() == 0 ==> collect_args(toks, i).1 == i,
    decreases toks.len() - i,
{
    if i < toks.len() && is_arg_token(toks[i].value) {
        if i + 1 < toks.len() && toks[i + 1].value is Comma {
            lemma_collect_args_bounds(toks, i + 2);
        }
    }
}

/// The `ADD`/`AND` argument rule: three arguments, register, register, and
/// then either a register or an immediate numeric literal.
pub open spec fn add_and_args(args: Seq<TokenView>) -> Result<AddAndView, Seq<char>> {
    if args.len() != 3 {
        Err("Incorrect number of arguments (expected 3)"@)
    } else {
        match (args[0].value, args[1].value, args[2].value) {
            (
                TokenValueView::Register(dr),
                TokenValueView::Register(sr1),
                TokenValueView::Register(sr2),
            ) => Ok(AddAndView::SR2 { dr, sr1, sr2 }),
            (
                TokenValueView::Register(dr),
                TokenValueView::Register(sr1),
                TokenValueView::NumberLiteral(imm5),
            ) => Ok(AddAndView::IMM { dr, sr1, imm5 }),
            _ => Err("Incorrect argument types (expected register, register, register/literal)"@),
        }
    }
}

/// The `BR`/`JSR` argument rule: one argument, a numeric literal or a label.
pub open spec fn br_jsr_args(args: Seq<TokenView>) -> Result<LiteralOrLabelView, Seq<char>> {
    if args.len() != 1 {
        Err("Incorrect number of arguments (expected 1)"@)
    } else {
        match args[0].value {
            TokenValueView::NumberLiteral(lit) => Ok(LiteralOrLabelView::Literal(lit)),
            TokenValueView::Label(name) => Ok(LiteralOrLabelView::Label(name)),
            _ => Err("Expected literal or label"@),
        }
    }
}

/// The `LD`/`LDI`/`LEA`/`ST`/`STI` argument rule: a register, then a numeric
/// literal or a label.
pub open spec fn ld_st_args(args: Seq<TokenView>) -> Result<
    (RegisterTokenValue, LiteralOrLabelView),
    Seq<char>,
> {
    if args.len() != 2 {
        Err("Incorrect number of arguments (expected 2)"@)
    } else {
        match (args[0].value, args[1].value) {
            (TokenValueView::Register(r), TokenValueView::NumberLiteral(lit)) => Ok(
                (r, LiteralOrLabelView::Literal(lit)),
            ),
            (TokenValueView::Register(r), TokenValueView::Label(name)) => Ok(
                (r, LiteralOrLabelView::Label(name)),
            ),
            _ => Err("Incorrect argument types (expected register, literal/label)"@),
        }
    }
}

/// The `LDR`/`STR` argument rule: two registers, then a numeric literal or a
/// label.
pub open spec fn ldr_str_args(args: Seq<TokenView>) -> Result<
    (RegisterTokenValue, RegisterTokenValue, LiteralOrLabelView),
    Seq<char>,
> {
    if args.len() != 3 {
        Err("Incorrect number of arguments (expected 3)"@)
    } else {
        match (args[0].value, args[1].value, args[2].value) {
            (
                TokenValueView::Register(r1),
                TokenValueView::Register(r2),
                TokenValueView::NumberLiteral(lit),
            ) => Ok((r1, r2, LiteralOrLabelView::Literal(lit))),
            (
                TokenValueView::Register(r1),
                TokenValueView::Register(r2),
                TokenValueView::Label(name),
            ) => Ok((r1, r2, LiteralOrLabelView::Label(name))),
            _ => Err("Incorrect argument types (expected register, register, literal/label)"@),
        }
    }
}

/// The node payload and end location an instruction mnemonic yields from its
/// collected arguments, or the diagnostic message when the argument rule is
/// violated.
pub open spec fn instr_parsed(
    op: OpcodeTokenValue,
    args: Seq<TokenView>,
    tok_end: LocView,
) -> Result<(NodeValueView, LocView), Seq<char>> {
    match op {
        OpcodeTokenValue::ADD => match add_and_args(args) {
            Ok(v) => Ok(
                (
                    NodeValueView::Instruction(InstructionNodeValueView::ADD(v)),
                    args[2].end_loc,
                ),
            ),
            Err(m) => Err(m),
        },
        OpcodeTokenValue::AND => match add_and_args(args) {
            Ok(v) => Ok(
                (
                    NodeValueView::Instruction(InstructionNodeValueView::AND(v)),
                    args[2].end_loc,
                ),
            ),
            Err(m) => Err(m),
        },
        OpcodeTokenValue::BR { n, z, p } => match br_jsr_args(args) {
            Ok(v) => Ok(
                (
                    NodeValueView::Instruction(
                        InstructionNodeValueView::BR { n, z, p, pc_offset9: v },
                    ),
                    args.last().end_loc,
                ),
            ),
            Err(m) => Err(m),
        },
        OpcodeTokenValue::JMP => {
            if args.len() != 1 {
                Err("Incorrect number of arguments (expected 1)"@)
            } else {
                match args[0].value {
                    TokenValueView::Register(r) => Ok(
                        (
                            NodeValueView::Instruction(
                                InstructionNodeValueView::JMP { base_r: r },
                            ),
                            args.last().end_loc,
                        ),
                    ),
                    _ => Err("Incorrect argument type (expected register)"@),
                }
            }
        },
        OpcodeTokenValue::JSR => match br_jsr_args(args) {
            Ok(v) => Ok(
                (
                    NodeValueView::Instruction(InstructionNodeValueView::JSR { pc_offset11: v }),
                    args.last().end_loc,
                ),
            ),
            Err(m) => Err(m),
        },
        OpcodeTokenValue::LD => match ld_st_args(args) {
            Ok(v) => Ok(
                (
                    NodeValueView::Instruction(
                        InstructionNodeValueView::LD { dr: v.0, pc_offset9: v.1 },
                    ),
                    args.last().end_loc,
                ),
            ),
            Err(m) => Err(m),
        },
        OpcodeTokenValue::LDI => match ld_st_args(args) {
            Ok(v) => Ok(
                (
                    NodeValueView::Instruction(
                        InstructionNodeValueView::LDI { dr: v.0, pc_offset9: v.1 },
                    ),
                    args.last().end_loc,
                ),
            ),
            Err(m) => Err(m),
        },
        OpcodeTokenValue::LDR => match ldr_str_args(args) {
            Ok(v) => Ok(
                (
                    NodeValueView::Instruction(
                        InstructionNodeValueView::LDR { dr: v.0, base_r: v.1, offset6: v.2 },
                    ),
                    args.last().end_loc,
                ),
            ),
            Err(m) => Err(m),
        },
        OpcodeTokenValue::LEA => match ld_st_args(args) {
            Ok(v) => Ok(
                (
                    NodeValueView::Instruction(
                        InstructionNodeValueView::LEA { dr: v.0, pc_offset9: v.1 },
                    ),
                    args.last().end_loc,
                ),
            ),
            Err(m) => Err(m),
        },
        OpcodeTokenValue::NOT => {
            if args.len() != 2 {
                Err("Incorrect number of arguments (expected 2)"@)
            } else {
                match (args[0].value, args[1].value) {
                    (TokenValueView::Register(dr), TokenValueView::Register(sr)) => Ok(
                        (
                            NodeValueView::Instruction(InstructionNodeValueView::NOT { dr, sr }),
                            args.last().end_loc,
                        ),
                    ),
                    _ => Err("Incorrect argument types (expected register, register)"@),
                }
            }
        },
        OpcodeTokenValue::RET => {
            if args.len() != 0 {
                Err("Incorrect number of arguments (expected 0)"@)
            } else {
                Ok((NodeValueView::Instruction(InstructionNodeValueView::RET), tok_end))
            }
        },
        OpcodeTokenValue::ST => match ld_st_args(args) {
            Ok(v) => Ok(
                (
                    NodeValueView::Instruction(
                        InstructionNodeValueView::ST { sr: v.0, pc_offset9: v.1 },
                    ),
                    args.last().end_loc,
                ),
            ),
            Err(m) => Err(m),
        },
        OpcodeTokenValue::STI => match ld_st_args(args) {
            Ok(v) => Ok(
                (
                    NodeValueView::Instruction(
                        InstructionNodeValueView::STI { sr: v.0, pc_offset9: v.1 },
                    ),
                    args.last().end_loc,
                ),
            ),
            Err(m) => Err(m),
        },
        OpcodeTokenValue::STR => match ldr_str_args(args) {
            Ok(v) => Ok(
                (
                    NodeValueView::Instruction(
                        InstructionNodeValueView::STR { sr: v.0, base_r: v.1, offset6: v.2 },
                    ),
                    args.last().end_loc,
                ),
            ),
            Err(m) => Err(m),
        },
        OpcodeTokenValue::TRAP => {
            if args.len() != 1 {
                Err("Incorrect number of arguments (expected 1)"@)
            } else {
                match args[0].value {
                    TokenValueView::NumberLiteral(lit) => Ok(
                        (
                            NodeValueView::Instruction(
                                InstructionNodeValueView::TRAP { trapvect8: lit },
                            ),
                            args.last().end_loc,
                        ),
                    ),
                    _ => Err("Incorrect argument type (expected literal)"@),
                }
            }
        },
    }
}

/// The node payload a directive yields from its collected arguments, or the
/// diagnostic message when its argument rule is violated. A successful node
/// ends at its last accepted argument; `END`, which takes none, ends at the
/// directive token itself.
pub open spec fn dir_parsed(
    d: DirectiveTokenValueView,
    args: Seq<TokenView>,
    tok_end: LocView,
) -> Result<(NodeValueView, LocView), Seq<char>> {
    match d {
        DirectiveTokenValueView::ORIG => {
            if args.len() != 1 {
                Err("Incorrect number of arguments (expected 1)"@)
            } else {
                match args[0].value {
                    TokenValueView::NumberLiteral(lit) => Ok(
                        (
                            NodeValueView::Directive(DirectiveNodeValueView::ORIG(lit)),
                            args.last().end_loc,
                        ),
                    ),
                    _ => Err("Incorrect argument type (expected literal)"@),
                }
            }
        },
        DirectiveTokenValueView::FILL => {
            if args.len() != 1 {
                Err("Incorrect number of arguments (expected 1)"@)
            } else {
                match args[0].value {
                    TokenValueView::NumberLiteral(lit) => Ok(
                        (
                            NodeValueView::Directive(DirectiveNodeValueView::FILL(lit)),
                            args.last().end_loc,
                        ),
                    ),
                    _ => Err("Incorrect argument type (expected literal)"@),
                }
            }
        },
        DirectiveTokenValueView::BLKW => {
            if args.len() != 1 {
                Err("Incorrect number of arguments (expected 1)"@)
            } else {
                match args[0].value {
                    TokenValueView::NumberLiteral(lit) => Ok(
                        (
                            NodeValueView::Directive(DirectiveNodeValueView::BLKW(lit)),
                            args.last().end_loc,
                        ),
                    ),
                    _ => Err("Incorrect argument type (expected literal)"@),
                }
            }
        },
        DirectiveTokenValueView::STRINGZ => {
            if args.len() != 1 {
                Err("Incorrect number of arguments (expected 1)"@)
            } else {
                match args[0].value {
                    TokenValueView::StringLiteral(text) => Ok(
                        (
                            NodeValueView::Directive(DirectiveNodeValueView::STRINGZ(text)),
                            args.last().end_loc,
                        ),
                    ),
                    _ => Err("Incorrect argument type (expected literal)"@),
                }
            }
        },
        DirectiveTokenValueView::END => {
            if args.len() != 0 {
                Err("Incorrect number of arguments (expected 0)"@)
            } else {
                Ok((NodeValueView::Directive(DirectiveNodeValueView::END), tok_end))
            }
        },
        DirectiveTokenValueView::Error(text) => Err("Unknown directive "@ + text),
    }
}

/// One parse step at leading token `i`: the node produced and the position
/// of the next leading token.
pub open spec fn parse_step(toks: Seq<TokenView>, i: int) -> (NodeView, int)
    recommends
        0 <= i < toks.len(),
{
    let t = toks[i];
    match t.value {
        TokenValueView::NewLine => (
            NodeView {
                value: NodeValueView::NewLine,
                start_loc: t.start_loc,
                end_loc: t.end_loc,
                errors: Seq::empty(),
            },
            i + 1,
        ),
        TokenValueView::Label(name) => (
            NodeView {
                value: NodeValueView::Label(name),
                start_loc: t.start_loc,
                end_loc: t.end_loc,
                errors: Seq::empty(),
            },
            i + 1,
        ),
        TokenValueView::Comment(text) => (
            NodeView {
                value: NodeValueView::Comment(text),
                start_loc: t.start_loc,
                end_loc: t.end_loc,
                errors: Seq::empty(),
            },
            i + 1,
        ),
        TokenValueView::Opcode(op) => {
            let ca = collect_args(toks, i + 1);
            let coll_end = if ca.0.len() > 0 {
                ca.0.last().end_loc
            } else {
                t.end_loc
            };
            match instr_parsed(op, ca.0, t.end_loc) {
                Ok(ve) => (
                    NodeView {
                        value: ve.0,
                        start_loc: t.start_loc,
                        end_loc: ve.1,
                        errors: Seq::empty(),
                    },
                    ca.1,
                ),
                Err(msg) => (
                    NodeView {
                        value: NodeValueView::Instruction(
                            InstructionNodeValueView::Error { opcode: op, args: Some(ca.0) },
                        ),
                        start_loc: t.start_loc,
                        end_loc: coll_end,
                        errors: seq![NodeErrorView::Error(msg)],
                    },
                    ca.1,
                ),
            }
        },
        TokenValueView::Directive(d) => {
            let ca = collect_args(toks, i + 1);
            let coll_end = if ca.0.len() > 0 {
                ca.0.last().end_loc
            } else {
                t.end_loc
            };
            match dir_parsed(d, ca.0, t.end_loc) {
                Ok(ve) => (
                    NodeView {
                        value: ve.0,
                        start_loc: t.start_loc,
                        end_loc: ve.1,
                        errors: Seq::empty(),
                    },
                    ca.1,
                ),
                Err(msg) => (
                    NodeView {
                        value: NodeValueView::Directive(
                            DirectiveNodeValueView::Error { directive: d, args: Some(ca.0) },
                        ),
                        start_loc: t.start_loc,
                        end_loc: coll_end,
                        errors: seq![NodeErrorView::Error(msg)],
                    },
                    ca.1,
                ),
            }
        },
        TokenValueView::TrapRoutine(tr) => (
            NodeView {
                value: NodeValueView::TrapRoutine(tr),
                start_loc: t.start_loc,
                end_loc: t.end_loc,
                errors: Seq::empty(),
            },
            i + 1,
        ),
        _ => (
            NodeView {
                value: NodeValueView::UnexpectedToken(t),
                start_loc: t.start_loc,
                end_loc: t.end_loc,
                errors: seq![NodeErrorView::Error("Unexpected token"@)],
            },
            i + 1,
        ),
    }
}

/// The node sequence the parser produces from leading token `i` onward.
pub open spec fn parse_from(toks: Seq<TokenView>, i: int) -> Seq<NodeView>
    decreases toks.len() - i,
    when 0 <= i <= toks.len()
    via parse_from_decreases
{
    if i >= toks.len() {
        Seq::empty()
    } else {
        let st = parse_step(toks, i);
        seq![st.0] + parse_from(toks, st.1)
    }
}

#[via_fn]
proof fn parse_from_decreases(toks: Seq<TokenView>, i: int) {
    if 0 <= i < toks.len() {
        lemma_collect_args_bounds(toks, i + 1);
    }
}

/// The node sequence of a whole token stream.
pub open spec fn parsed_nodes(toks: Seq<TokenView>) -> Seq<NodeView> {
    parse_from(toks, 0)
}

/// A node with no diagnostics.
fn ok_node(value: NodeValue, start_loc: FileLoc, end_loc: FileLoc) -> (n: Node)
    ensures
        n@ == (NodeView {
            value: value@,
            start_loc: start_loc@,
            end_loc: end_loc@,
            errors: Seq::empty(),
        }),
{
    let n = Node { value, start_loc, end_loc, errors: Vec::new() };
    proof {
        assert(n@.errors =~= Seq::<NodeErrorView>::empty());
    }
    n
}

/// A node carrying exactly one diagnostic.
fn err_node(value: NodeValue, start_loc: FileLoc, end_loc: FileLoc, err: NodeError) -> (n: Node)
    ensures
        n@ == (NodeView {
            value: value@,
            start_loc: start_loc@,
            end_loc: end_loc@,
            errors: seq![err@],
        }),
{
    let ghost ev = err@;
    let mut errors: Vec<NodeError> = Vec::new();
    errors.push(err);
    let n = Node { value, start_loc, end_loc, errors };
    proof {
        assert(n@.errors =~= seq![ev]);
    }
    n
}

/// Collects the arguments after a mnemonic, advancing `idx` past everything
/// consumed; yields the argument tokens and the last one's end location, or
/// nothing when no argument was collected.
fn get_args(tokens: &[Token], idx: &mut usize) -> (r: Option<(Vec<Token>, FileLoc)>)
    requires
        *old(idx) <= tokens@.len(),
    ensures
        ({
            let ca = collect_args(token_views(tokens@), *old(idx) as int);
            &&& *final(idx) == ca.1
            &&& match r {
                Some(p) => token_views(p.0@) == ca.0 && ca.0.len() > 0 && p.1@
                    == ca.0.last().end_loc,
                None => ca.0.len() == 0,
            }
        }),
{
    let ghost ts = token_views(tokens@);
    let ghost i0 = *idx as int;
    let ghost ca = collect_args(ts, i0);
    proof {
        lemma_collect_args_bounds(ts, i0);
    }
    let mut args: Vec<Token> = Vec::new();
    loop
        invariant_except_break
            ca.0 == token_views(args@) + collect_args(ts, *idx as int).0,
            ca.1 == collect_args(ts, *idx as int).1,
        invariant
            *idx <= tokens@.len(),
            ts == token_views(tokens@),
            ca == collect_args(ts, i0),
        ensures
            *idx <= tokens@.len(),
            ca.0 == token_views(args@),
            ca.1 == *idx,
        decreases tokens@.len() - *idx,
    {
        let i = *idx;
        if i >= tokens.len() {
            proof {
                assert(collect_args(ts, i as int).0 =~= Seq::<TokenView>::empty());
                assert(ca.0 =~= token_views(args@));
            }
            break ;
        }
        let accept = match &tokens[i].value {
            TokenValue::Register(_) => true,
            TokenValue::Label(_) => true,
            TokenValue::NumberLiteral(_) => true,
            TokenValue::StringLiteral(_) => true,
            _ => false,
        };
        if !accept {
            proof {
                assert(!is_arg_token(ts[i as int].value));
                assert(collect_args(ts, i as int).0 =~= Seq::<TokenView>::empty());
                assert(ca.0 =~= token_views(args@));
            }
            break ;
        }
        args.push(tokens[i].clone());
        *idx = i + 1;
        proof {
            assert(token_views(args@) =~= token_views(args@.drop_last()).push(
                tokens@[i as int]@,
            ));
        }
        let j = *idx;
        if j >= tokens.len() {
            proof {
                assert(collect_args(ts, i as int) == (seq![ts[i as int]], i + 1));
                assert(ca.0 =~= token_views(args@));
            }
            break ;
        }
        let comma = match &tokens[j].value {
            TokenValue::Comma => true,
            _ => false,
        };
        if !comma {
            proof {
                assert(collect_args(ts, i as int) == (seq![ts[i as int]], i + 1));
                assert(ca.0 =~= token_views(args@));
            }
            break ;
        }
        *idx = j + 1;
        proof {
            lemma_collect_args_bounds(ts, *idx as int);
            assert(collect_args(ts, i as int).0 == seq![ts[i as int]] + collect_args(
                ts,
                *idx as int,
            ).0);
            assert(ca.0 =~= token_views(args@) + collect_args(ts, *idx as int).0);
        }
    }
    if args.len() > 0 {
        let end_loc = args[args.len() - 1].end_loc;
        proof {
            assert(token_views(args@).last() == args@.last()@);
        }
        Some((args, end_loc))
    } else {
        proof {
            assert(token_views(args@).len() == 0);
        }
        None
    }
}

/// The `ADD`/`AND` argument rule, on tokens.
fn parse_and_add_args(args: &[Token]) -> (r: Result<AddAndOpcodeInstructionNodeValue, &'static str>)
    ensures
        ({
            let sp = add_and_args(token_views(args@));
            match r {
                Ok(v) => sp is Ok && v@ == sp->Ok_0,
                Err(m) => sp is Err && m@ == sp->Err_0,
            }
        }),
{
    if args.len() != 3 {
        return Err("Incorrect number of arguments (expected 3)");
    }
    if let TokenValue::Register(dr) = &args[0].value {
        if let TokenValue::Register(sr1) = &args[1].value {
            match &args[2].value {
                TokenValue::Register(sr2) => {
                    return Ok(
                        AddAndOpcodeInstructionNodeValue::SR2 { dr: *dr, sr1: *sr1, sr2: *sr2 },
                    );
                },
                TokenValue::NumberLiteral(imm5) => {
                    return Ok(
                        AddAndOpcodeInstructionNodeValue::IMM {
                            dr: *dr,
                            sr1: *sr1,
                            imm5: imm5.clone(),
                        },
                    );
                },
                _ => {},
            }
        }
    }
    Err("Incorrect argument types (expected register, register, register/literal)")
}

/// The `BR`/`JSR` argument rule, on tokens.
fn parse_br_jsr_args(args: &[Token]) -> (r: Result<LiteralOrLabel, &'static str>)
    ensures
        ({
            let sp = br_jsr_args(token_views(args@));
            match r {
                Ok(v) => sp is Ok && v@ == sp->Ok_0,
                Err(m) => sp is Err && m@ == sp->Err_0,
            }
        }),
{
    if args.len() != 1 {
        return Err("Incorrect number of arguments (expected 1)");
    }
    match &args[0].value {
        TokenValue::NumberLiteral(lit) => Ok(LiteralOrLabel::Literal(lit.clone())),
        TokenValue::Label(name) => Ok(LiteralOrLabel::Label(name.clone())),
        _ => Err("Expected literal or label"),
    }
}

/// The `LD`/`LDI`/`LEA`/`ST`/`STI` argument rule, on tokens.
fn parse_ld_ldi_lea_st_sti_args(args: &[Token]) -> (r: Result<
    (RegisterTokenValue, LiteralOrLabel),
    &'static str,
>)
    ensures
        ({
            let sp = ld_st_args(token_views(args@));
            match r {
                Ok(v) => sp is Ok && v.0 == sp->Ok_0.0 && v.1@ == sp->Ok_0.1,
                Err(m) => sp is Err && m@ == sp->Err_0,
            }
        }),
{
    if args.len() != 2 {
        return Err("Incorrect number of arguments (expected 2)");
    }
    if let TokenValue::Register(r1) = &args[0].value {
        match &args[1].value {
            TokenValue::NumberLiteral(lit) => {
                return Ok((*r1, LiteralOrLabel::Literal(lit.clone())));
            },
            TokenValue::Label(name) => {
                return Ok((*r1, LiteralOrLabel::Label(name.clone())));
            },
            _ => {},
        }
    }
    Err("Incorrect argument types (expected register, literal/label)")
}

/// The `LDR`/`STR` argument rule, on tokens.
fn parse_ldr_str_args(args: &[Token]) -> (r: Result<
    (RegisterTokenValue, RegisterTokenValue, LiteralOrLabel),
    &'static str,
>)
    ensures
        ({
            let sp = ldr_str_args(token_views(args@));
            match r {
                Ok(v) => sp is Ok && v.0 == sp->Ok_0.0 && v.1 == sp->Ok_0.1 && v.2@ == sp->Ok_0.2,
                Err(m) => sp is Err && m@ == sp->Err_0,
            }
        }),
{
    if args.len() != 3 {
        return Err("Incorrect number of arguments (expected 3)");
    }
    if let TokenValue::Register(r1) = &args[0].value {
        if let TokenValue::Register(r2) = &args[1].value {
            match &args[2].value {
                TokenValue::NumberLiteral(lit) => {
                    return Ok((*r1, *r2, LiteralOrLabel::Literal(lit.clone())));
                },
                TokenValue::Label(name) => {
                    return Ok((*r1, *r2, LiteralOrLabel::Label(name.clone())));
                },
                _ => {},
            }
        }
    }
    Err("Incorrect argument types (expected register, register, literal/label)")
}

/// Applies an instruction mnemonic's arity and type rule to its collected
/// arguments, yielding the finished node or the diagnostic message.
fn parse_instruction_node(
    opcode: OpcodeTokenValue,
    args: &[Token],
    token_start_loc: FileLoc,
    token_end_loc: FileLoc,
) -> (r: Result<Node, &'static str>)
    ensures
        ({
            let ip = instr_parsed(opcode, token_views(args@), token_end_loc@);
            match r {
                Ok(n) => ip is Ok && n@ == (NodeView {
                    value: ip->Ok_0.0,
                    start_loc: token_start_loc@,
                    end_loc: ip->Ok_0.1,
                    errors: Seq::empty(),
                }),
                Err(m) => ip is Err && m@ == ip->Err_0,
            }
        }),
{
    match opcode {
        OpcodeTokenValue::ADD => {
            match parse_and_add_args(args) {
                Ok(v) => Ok(
                    ok_node(
                        NodeValue::Instruction(InstructionNodeValue::ADD(v)),
                        token_start_loc,
                        args[2].end_loc,
                    ),
                ),
                Err(m) => Err(m),
            }
        },
        OpcodeTokenValue::AND => {
            match parse_and_add_args(args) {
                Ok(v) => Ok(
                    ok_node(
                        NodeValue::Instruction(InstructionNodeValue::AND(v)),
                        token_start_loc,
                        args[2].end_loc,
                    ),
                ),
                Err(m) => Err(m),
            }
        },
        OpcodeTokenValue::BR { n, z, p } => {
            match parse_br_jsr_args(args) {
                Ok(v) => Ok(
                    ok_node(
                        NodeValue::Instruction(
                            InstructionNodeValue::BR { n, z, p, pc_offset9: v },
                        ),
                        token_start_loc,
                        args[args.len() - 1].end_loc,
                    ),
                ),
                Err(m) => Err(m),
            }
        },
        OpcodeTokenValue::JMP => {
            if args.len() != 1 {
                Err("Incorrect number of arguments (expected 1)")
            } else {
                match &args[0].value {
                    TokenValue::Register(register) => Ok(
                        ok_node(
                            NodeValue::Instruction(
                                InstructionNodeValue::JMP { base_r: *register },
                            ),
                            token_start_loc,
                            args[args.len() - 1].end_loc,
                        ),
                    ),
                    _ => Err("Incorrect argument type (expected register)"),
                }
            }
        },
        OpcodeTokenValue::JSR => {
            match parse_br_jsr_args(args) {
                Ok(v) => Ok(
                    ok_node(
                        NodeValue::Instruction(InstructionNodeValue::JSR { pc_offset11: v }),
                        token_start_loc,
                        args[args.len() - 1].end_loc,
                    ),
                ),
                Err(m) => Err(m),
            }
        },
        OpcodeTokenValue::LD => {
            match parse_ld_ldi_lea_st_sti_args(args) {
                Ok(v) => Ok(
                    ok_node(
                        NodeValue::Instruction(
                            InstructionNodeValue::LD { dr: v.0, pc_offset9: v.1 },
                        ),
                        token_start_loc,
                        args[args.len() - 1].end_loc,
                    ),
                ),
                Err(m) => Err(m),
            }
        },
        OpcodeTokenValue::LDI => {
            match parse_ld_ldi_lea_st_sti_args(args) {
                Ok(v) => Ok(
                    ok_node(
                        NodeValue::Instruction(
                            InstructionNodeValue::LDI { dr: v.0, pc_offset9: v.1 },
                        ),
                        token_start_loc,
                        args[args.len() - 1].end_loc,
                    ),
                ),
                Err(m) => Err(m),
            }
        },
        OpcodeTokenValue::LDR => {
            match parse_ldr_str_args(args) {
                Ok(v) => Ok(
                    ok_node(
                        NodeValue::Instruction(
                            InstructionNodeValue::LDR { dr: v.0, base_r: v.1, offset6: v.2 },
                        ),
                        token_start_loc,
                        args[args.len() - 1].end_loc,
                    ),
                ),
                Err(m) => Err(m),
            }
        },
        OpcodeTokenValue::LEA => {
            match parse_ld_ldi_lea_st_sti_args(args) {
                Ok(v) => Ok(
                    ok_node(
                        NodeValue::Instruction(
                            InstructionNodeValue::LEA { dr: v.0, pc_offset9: v.1 },
                        ),
                        token_start_loc,
                        args[args.len() - 1].end_loc,
                    ),
                ),
                Err(m) => Err(m),
            }
        },
        OpcodeTokenValue::NOT => {
            if args.len() != 2 {
                return Err("Incorrect number of arguments (expected 2)");
            }
            if let TokenValue::Register(dr) = &args[0].value {
                if let TokenValue::Register(sr) = &args[1].value {
                    return Ok(
                        ok_node(
                            NodeValue::Instruction(
                                InstructionNodeValue::NOT { dr: *dr, sr: *sr },
                            ),
                            token_start_loc,
                            args[args.len() - 1].end_loc,
                        ),
                    );
                }
            }
            Err("Incorrect argument types (expected register, register)")
        },
        OpcodeTokenValue::RET => {
            if args.len() != 0 {
                Err("Incorrect number of arguments (expected 0)")
            } else {
                Ok(
                    ok_node(
                        NodeValue::Instruction(InstructionNodeValue::RET),
                        token_start_loc,
                        token_end_loc,
                    ),
                )
            }
        },
        OpcodeTokenValue::ST => {
            match parse_ld_ldi_lea_st_sti_args(args) {
                Ok(v) => Ok(
                    ok_node(
                        NodeValue::Instruction(
                            InstructionNodeValue::ST { sr: v.0, pc_offset9: v.1 },
                        ),
                        token_start_loc,
                        args[args.len() - 1].end_loc,
                    ),
                ),
                Err(m) => Err(m),
            }
        },
        OpcodeTokenValue::STI => {
            match parse_ld_ldi_lea_st_sti_args(args) {
                Ok(v) => Ok(
                    ok_node(
                        NodeValue::Instruction(
                            InstructionNodeValue::STI { sr: v.0, pc_offset9: v.1 },
                        ),
                        token_start_loc,
                        args[args.len() - 1].end_loc,
                    ),
                ),
                Err(m) => Err(m),
            }
        },
        OpcodeTokenValue::STR => {
            match parse_ldr_str_args(args) {
                Ok(v) => Ok(
                    ok_node(
                        NodeValue::Instruction(
                            InstructionNodeValue::STR { sr: v.0, base_r: v.1, offset6: v.2 },
                        ),
                        token_start_loc,
                        args[args.len() - 1].end_loc,
                    ),
                ),
                Err(m) => Err(m),
            }
        },
        OpcodeTokenValue::TRAP => {
            if args.len() != 1 {
                Err("Incorrect number of arguments (expected 1)")
            } else {
                match &args[0].value {
                    TokenValue::NumberLiteral(literal) => Ok(
                        ok_node(
                            NodeValue::Instruction(
                                InstructionNodeValue::TRAP { trapvect8: literal.clone() },
                            ),
                            token_start_loc,
                            args[args.len() - 1].end_loc,
                        ),
                    ),
                    _ => Err("Incorrect argument type (expected literal)"),
                }
            }
        },
    }
}

/// Applies a directive's arity and type rule to its collected arguments,
/// yielding the finished node or the diagnostic message.
fn parse_directive_node(
    directive: DirectiveTokenValue,
    args: &[Token],
    token_start_loc: FileLoc,
    token_end_loc: FileLoc,
) -> (r: Result<Node, String>)
    ensures
        ({
            let dp = dir_parsed(directive@, token_views(args@), token_end_loc@);
            match r {
                Ok(n) => dp is Ok && n@ == (NodeView {
                    value: dp->Ok_0.0,
                    start_loc: token_start_loc@,
                    end_loc: dp->Ok_0.1,
                    errors: Seq::empty(),
                }),
                Err(m) => dp is Err && m@ == dp->Err_0,
            }
        }),
{
    match directive {
        DirectiveTokenValue::ORIG => {
            if args.len() != 1 {
                Err(String::from_str("Incorrect number of arguments (expected 1)"))
            } else {
                match &args[0].value {
                    TokenValue::NumberLiteral(literal) => Ok(
                        ok_node(
                            NodeValue::Directive(DirectiveNodeValue::ORIG(literal.clone())),
                            token_start_loc,
                            args[args.len() - 1].end_loc,
                        ),
                    ),
                    _ => Err(String::from_str("Incorrect argument type (expected literal)")),
                }
            }
        },
        DirectiveTokenValue::FILL => {
            if args.len() != 1 {
                Err(String::from_str("Incorrect number of arguments (expected 1)"))
            } else {
                match &args[0].value {
                    TokenValue::NumberLiteral(literal) => Ok(
                        ok_node(
                            NodeValue::Directive(DirectiveNodeValue::FILL(literal.clone())),
                            token_start_loc,
                            args[args.len() - 1].end_loc,
                        ),
                    ),
                    _ => Err(String::from_str("Incorrect argument type (expected literal)")),
                }
            }
        },
        DirectiveTokenValue::BLKW => {
            if args.len() != 1 {
                Err(String::from_str("Incorrect number of arguments (expected 1)"))
            } else {
                match &args[0].value {
                    TokenValue::NumberLiteral(literal) => Ok(
                        ok_node(
                            NodeValue::Directive(DirectiveNodeValue::BLKW(literal.clone())),
                            token_start_loc,
                            args[args.len() - 1].end_loc,
                        ),
                    ),
                    _ => Err(String::from_str("Incorrect argument type (expected literal)")),
                }
            }
        },
        DirectiveTokenValue::STRINGZ => {
            if args.len() != 1 {
                Err(String::from_str("Incorrect number of arguments (expected 1)"))
            } else {
                match &args[0].value {
                    TokenValue::StringLiteral(literal) => Ok(
                        ok_node(
                            NodeValue::Directive(DirectiveNodeValue::STRINGZ(literal.clone())),
                            token_start_loc,
                            args[args.len() - 1].end_loc,
                        ),
                    ),
                    _ => Err(String::from_str("Incorrect argument type (expected literal)")),
                }
            }
        },
        DirectiveTokenValue::END => {
            if args.len() != 0 {
                Err(String::from_str("Incorrect number of arguments (expected 0)"))
            } else {
                Ok(
                    ok_node(
                        NodeValue::Directive(DirectiveNodeValue::END),
                        token_start_loc,
                        token_end_loc,
                    ),
                )
            }
        },
        DirectiveTokenValue::Error(error) => {
            Err(String::from_str("Unknown directive ").concat(error.as_str()))
        },
    }
}

/// Groups the token sequence into structural nodes, one per leading token,
/// applying the per-opcode and per-directive argument shape rules; parsing
/// always continues at the next leading token after an error.
pub fn parse_ast(tokens: &[Token]) -> (nodes: Vec<Node>)
    ensures
        node_views(nodes@) == parsed_nodes(token_views(tokens@)),
{
    let ghost ts = token_views(tokens@);
    let mut idx: usize = 0;
    let mut nodes: Vec<Node> = Vec::new();

    while idx < tokens.len()
        invariant
            ts == token_views(tokens@),
            idx <= tokens@.len(),
            parse_from(ts, 0) == node_views(nodes@) + parse_from(ts, idx as int),
        decreases tokens@.len() - idx,
    {
        let ghost i0 = idx as int;
        let ghost st = parse_step(ts, i0);
        proof {
            lemma_collect_args_bounds(ts, i0 + 1);
        }
        let token = &tokens[idx];
        idx = idx + 1;

        let node: Node = match &token.value {
            TokenValue::NewLine => ok_node(NodeValue::NewLine, token.start_loc, token.end_loc),
            TokenValue::Label(label) => ok_node(
                NodeValue::Label(label.clone()),
                token.start_loc,
                token.end_loc,
            ),
            TokenValue::Comment(comment) => ok_node(
                NodeValue::Comment(comment.clone()),
                token.start_loc,
                token.end_loc,
            ),
            TokenValue::Opcode(opcode) => {
                let opcode = *opcode;
                let ga = get_args(tokens, &mut idx);
                let (args, end_loc) = match ga {
                    Some(p) => p,
                    None => (Vec::new(), token.end_loc),
                };
                proof {
                    assert(token_views(Seq::<Token>::empty()) =~= Seq::<TokenView>::empty());
                }
                match parse_instruction_node(
                    opcode,
                    args.as_slice(),
                    token.start_loc,
                    token.end_loc,
                ) {
                    Ok(n) => n,
                    Err(msg) => err_node(
                        NodeValue::Instruction(
                            InstructionNodeValue::Error { opcode, args: Some(args) },
                        ),
                        token.start_loc,
                        end_loc,
                        NodeError::Error(String::from_str(msg)),
                    ),
                }
            },
            TokenValue::Directive(directive) => {
                let directive = directive.clone();
                let ga = get_args(tokens, &mut idx);
                let (args, end_loc) = match ga {
                    Some(p) => p,
                    None => (Vec::new(), token.end_loc),
                };
                proof {
                    assert(token_views(Seq::<Token>::empty()) =~= Seq::<TokenView>::empty());
                }
                match parse_directive_node(
                    directive.clone(),
                    args.as_slice(),
                    token.start_loc,
                    token.end_loc,
                ) {
                    Ok(n) => n,
                    Err(msg) => err_node(
                        NodeValue::Directive(
                            DirectiveNodeValue::Error { directive, args: Some(args) },
                        ),
                        token.start_loc,
                        end_loc,
                        NodeError::Error(msg),
                    ),
                }
            },
            TokenValue::TrapRoutine(routine) => ok_node(
                NodeValue::TrapRoutine(*routine),
                token.start_loc,
                token.end_loc,
            ),
            _ => err_node(
                NodeValue::UnexpectedToken(token.clone()),
                token.start_loc,
                token.end_loc,
                NodeError::Error(String::from_str("Unexpected token")),
            ),
        };
        nodes.push(node);
        proof {
            assert(node_views(nodes@) =~= node_views(nodes@.drop_last()).push(
                nodes@.last()@,
            ));
            assert(nodes@.last()@ == st.0);
            assert(idx as int == st.1);
            assert(parse_from(ts, i0) == seq![st.0] + parse_from(ts, st.1));
            assert(parse_from(ts, 0) =~= node_views(nodes@) + parse_from(ts, idx as int));
        }
    }
    proof {
        assert(parse_from(ts, idx as int) =~= Seq::<NodeView>::empty());
        assert(node_views(nodes@) =~= parse_from(ts, 0));
    }
    nodes
}

} // verus!
