//! Semantic verification passes over the finished node sequence: label
//! reference resolution and numeric literal range checking. Each pass scans
//! the sequence once and appends diagnostics in place; neither removes,
//! reorders, or rewrites nodes. Each pass is designed to run exactly once
//! per parse: running one a second time over the same nodes appends its
//! diagnostics again (see [`lemma_labels_pass_twice`] and
//! [`lemma_range_pass_twice`]).

use vstd::prelude::*;

use crate::ast::{
    AddAndOpcodeInstructionNodeValue, AddAndView, InstructionNodeValue, InstructionNodeValueView,
    LiteralOrLabel, LiteralOrLabelView, Node, NodeError, NodeErrorView, NodeValue, NodeValueView,
    NodeView, node_views,
};
use crate::numlit::{
    bound_string, bound_text, dec_digits, field_max, field_min, literal_outside_interval,
    parse_radix, pow2_i64, radix_of, to_dec_string,
};
use crate::tokens::{NumberLiteralFormat, NumberLiteralTokenValue, NumberLiteralView};

verus! {

/// The views of a list of label strings.
pub open spec fn string_views(ss: Seq<String>) -> Seq<Seq<char>> {
    ss.map_values(|s: String| s@)
}

/// The names of the labels a node sequence declares, in order.
pub open spec fn label_names(ns: Seq<NodeView>) -> Seq<Seq<char>>
    decreases ns.len(),
{
    if ns.len() == 0 {
        Seq::empty()
    } else {
        label_names(ns.drop_last()) + (match ns.last().value {
            NodeValueView::Label(name) => seq![name],
            _ => Seq::empty(),
        })
    }
}

/// The label name a node's symbolic operand references, for the nine
/// instruction shapes whose operand may be a label; anything else has none.
pub open spec fn label_operand_name(v: NodeValueView) -> Option<Seq<char>> {
    match v {
        NodeValueView::Instruction(iv) => match iv {
            InstructionNodeValueView::BR { pc_offset9: LiteralOrLabelView::Label(n), .. } => Some(
                n,
            ),
            InstructionNodeValueView::JSR { pc_offset11: LiteralOrLabelView::Label(n) } => Some(n),
            InstructionNodeValueView::LD { pc_offset9: LiteralOrLabelView::Label(n), .. } => Some(
                n,
            ),
            InstructionNodeValueView::LDI { pc_offset9: LiteralOrLabelView::Label(n), .. } => Some(
                n,
            ),
            InstructionNodeValueView::LDR { offset6: LiteralOrLabelView::Label(n), .. } => Some(n),
            InstructionNodeValueView::LEA { pc_offset9: LiteralOrLabelView::Label(n), .. } => Some(
                n,
            ),
            InstructionNodeValueView::ST { pc_offset9: LiteralOrLabelView::Label(n), .. } => Some(
                n,
            ),
            InstructionNodeValueView::STI { pc_offset9: LiteralOrLabelView::Label(n), .. } => Some(
                n,
            ),
            InstructionNodeValueView::STR { offset6: LiteralOrLabelView::Label(n), .. } => Some(n),
            _ => None,
        },
        _ => None,
    }
}

/// The text of the diagnostic for an unresolved label reference.
pub open spec fn undefined_label_msg(name: Seq<char>) -> Seq<char> {
    "Undefined label `"@ + name + "`"@
}

/// What the label pass appends to one node: one error when its operand
/// references a label outside the declared set, nothing otherwise.
pub open spec fn label_diag(v: NodeValueView, names: Seq<Seq<char>>) -> Seq<NodeErrorView> {
    match label_operand_name(v) {
        Some(name) => if !names.contains(name) {
            seq![NodeErrorView::Error(undefined_label_msg(name))]
        } else {
            Seq::empty()
        },
        None => Seq::empty(),
    }
}

/// A node with extra diagnostics appended; everything else is kept.
pub open spec fn with_errors(n: NodeView, extra: Seq<NodeErrorView>) -> NodeView {
    NodeView {
        value: n.value,
        start_loc: n.start_loc,
        end_loc: n.end_loc,
        errors: n.errors + extra,
    }
}

/// The label-resolution pass over a whole node sequence.
pub open spec fn labels_pass(ns: Seq<NodeView>) -> Seq<NodeView> {
    Seq::new(ns.len(), |k: int| with_errors(ns[k], label_diag(ns[k].value, label_names(ns))))
}

/// The literal-kind operand a node's instruction checks against an n-bit
/// field, with the field's width and extension rule.
pub open spec fn checked_literal(v: NodeValueView) -> Option<(NumberLiteralView, bool, nat)> {
    match v {
        NodeValueView::Instruction(iv) => match iv {
            InstructionNodeValueView::ADD(AddAndView::IMM { imm5, .. }) => Some((imm5, true, 5)),
            InstructionNodeValueView::AND(AddAndView::IMM { imm5, .. }) => Some((imm5, true, 5)),
            InstructionNodeValueView::BR {
                pc_offset9: LiteralOrLabelView::Literal(l),
                ..
            } => Some((l, true, 9)),
            InstructionNodeValueView::JSR { pc_offset11: LiteralOrLabelView::Literal(l) } => Some(
                (l, true, 11),
            ),
            InstructionNodeValueView::LD {
                pc_offset9: LiteralOrLabelView::Literal(l),
                ..
            } => Some((l, true, 9)),
            InstructionNodeValueView::LDI {
                pc_offset9: LiteralOrLabelView::Literal(l),
                ..
            } => Some((l, true, 9)),
            InstructionNodeValueView::LDR { offset6: LiteralOrLabelView::Literal(l), .. } => Some(
                (l, true, 6),
            ),
            InstructionNodeValueView::LEA {
                pc_offset9: LiteralOrLabelView::Literal(l),
                ..
            } => Some((l, true, 9)),
            InstructionNodeValueView::ST {
                pc_offset9: LiteralOrLabelView::Literal(l),
                ..
            } => Some((l, true, 9)),
            InstructionNodeValueView::STI {
                pc_offset9: LiteralOrLabelView::Literal(l),
                ..
            } => Some((l, true, 9)),
            InstructionNodeValueView::STR { offset6: LiteralOrLabelView::Literal(l), .. } => Some(
                (l, true, 6),
            ),
            InstructionNodeValueView::TRAP { trapvect8 } => Some((trapvect8, false, 8)),
            _ => None,
        },
        _ => None,
    }
}

/// The marker character a literal format writes before its digits.
pub open spec fn marker_text(format: NumberLiteralFormat) -> Seq<char> {
    match format {
        NumberLiteralFormat::Hex => "x"@,
        NumberLiteralFormat::Decimal => "#"@,
    }
}

/// The text of the out-of-range warning: it echoes the literal in its
/// original notation and restates the field's bounds in the same notation.
pub open spec fn range_warning_text(lit: NumberLiteralView, sign_extend: bool, bits: nat) -> Seq<
    char,
> {
    "Number literal `"@ + marker_text(lit.format) + lit.value
        + "` is out of range. Must be within ["@ + bound_text(
        lit.format,
        field_min(sign_extend, bits),
    ) + ", "@ + bound_text(lit.format, field_max(sign_extend, bits)) + "] ("@ + dec_digits(bits)
        + " bits "@ + (if sign_extend {
        "sign extended"@
    } else {
        "zero extended"@
    }) + ")"@
}

/// What the range pass appends for one checked literal: one warning when the
/// digit text parses in its radix to a value outside the field's interval,
/// nothing when it is in range or does not parse.
pub open spec fn range_diag(lit: NumberLiteralView, sign_extend: bool, bits: nat) -> Seq<
    NodeErrorView,
> {
    match parse_radix(lit.value, radix_of(lit.format)) {
        Some(v) => if v < field_min(sign_extend, bits) || v > field_max(sign_extend, bits) {
            seq![NodeErrorView::Warning(range_warning_text(lit, sign_extend, bits))]
        } else {
            Seq::empty()
        },
        None => Seq::empty(),
    }
}

/// What the range pass appends to one node.
pub open spec fn node_range_diag(v: NodeValueView) -> Seq<NodeErrorView> {
    match checked_literal(v) {
        Some(c) => range_diag(c.0, c.1, c.2),
        None => Seq::empty(),
    }
}

/// The literal-range pass over a whole node sequence.
pub open spec fn range_pass(ns: Seq<NodeView>) -> Seq<NodeView> {
    Seq::new(ns.len(), |k: int| with_errors(ns[k], node_range_diag(ns[k].value)))
}

/// The label name a symbolic operand references, copied out.
fn operand_label_name(l: &LiteralOrLabel) -> (r: Option<String>)
    ensures
        match r {
            Some(s) => l@ == LiteralOrLabelView::Label(s@),
            None => l@ is Literal,
        },
{
    match l {
        LiteralOrLabel::Label(name) => Some(name.clone()),
        LiteralOrLabel::Literal(_) => None,
    }
}

/// The label name a node's operand references, copied out.
fn symbolic_name(v: &NodeValue) -> (r: Option<String>)
    ensures
        match r {
            Some(s) => label_operand_name(v@) == Some(s@),
            None => label_operand_name(v@) is None,
        },
{
    match v {
        NodeValue::Instruction(iv) => match iv {
            InstructionNodeValue::BR { pc_offset9, .. } => operand_label_name(pc_offset9),
            InstructionNodeValue::JSR { pc_offset11 } => operand_label_name(pc_offset11),
            InstructionNodeValue::LD { pc_offset9, .. } => operand_label_name(pc_offset9),
            InstructionNodeValue::LDI { pc_offset9, .. } => operand_label_name(pc_offset9),
            InstructionNodeValue::LDR { offset6, .. } => operand_label_name(offset6),
            InstructionNodeValue::LEA { pc_offset9, .. } => operand_label_name(pc_offset9),
            InstructionNodeValue::ST { pc_offset9, .. } => operand_label_name(pc_offset9),
            InstructionNodeValue::STI { pc_offset9, .. } => operand_label_name(pc_offset9),
            InstructionNodeValue::STR { offset6, .. } => operand_label_name(offset6),
            _ => None,
        },
        _ => None,
    }
}

/// Whether the collected label set contains the given name, by exact,
/// case-sensitive comparison.
fn contains_string(labels: &Vec<String>, name: &String) -> (b: bool)
    ensures
        b == string_views(labels@).contains(name@),
{
    let n = labels.len();
    let mut i: usize = 0;
    while i < n
        invariant
            i <= n == labels@.len(),
            forall|q: int| 0 <= q < i ==> string_views(labels@)[q] != name@,
        decreases n - i,
    {
        if *name == labels[i] {
            proof {
                assert(string_views(labels@)[i as int] == name@);
            }
            return true;
        }
        i = i + 1;
    }
    false
}

/// Label-resolution pass: collects every declared label name (duplicates
/// kept, no duplicate-declaration diagnosis), then appends one "Undefined
/// label" error to each node whose symbolic operand references a name
/// outside that set. Literal-kind operands are untouched.
pub fn verify_labels(ast: &mut Vec<Node>)
    ensures
        node_views(final(ast)@) == labels_pass(node_views(old(ast)@)),
{
    let ghost orig = node_views(old(ast)@);
    let mut labels: Vec<String> = Vec::new();
    let n = ast.len();
    let mut i: usize = 0;
    while i < n
        invariant
            i <= n == ast@.len(),
            ast@ == old(ast)@,
            orig == node_views(old(ast)@),
            string_views(labels@) == label_names(orig.take(i as int)),
        decreases n - i,
    {
        proof {
            assert(orig.take((i + 1) as int).drop_last() =~= orig.take(i as int));
            assert(orig.take((i + 1) as int).last() == orig[i as int]);
        }
        match &ast.as_slice()[i].value {
            NodeValue::Label(label) => {
                labels.push(label.clone());
                proof {
                    assert(string_views(labels@) =~= string_views(labels@.drop_last()).push(
                        labels@.last()@,
                    ));
                    assert(string_views(labels@) =~= label_names(orig.take((i + 1) as int)));
                }
            },
            _ => {
                proof {
                    assert(string_views(labels@) =~= label_names(orig.take((i + 1) as int)));
                }
            },
        }
        i = i + 1;
    }
    let ghost names = label_names(orig);
    proof {
        assert(orig.take(n as int) =~= orig);
    }

    let mut out: Vec<Node> = Vec::new();
    while ast.len() > 0
        invariant
            orig == node_views(old(ast)@),
            names == label_names(orig),
            string_views(labels@) == names,
            out@.len() + ast@.len() == orig.len(),
            node_views(ast@) == orig.skip(out@.len() as int),
            node_views(out@) == labels_pass(orig).subrange(0, out@.len() as int),
        decreases ast@.len(),
    {
        let ghost k = out@.len() as int;
        let ghost pre = ast@;
        let mut node = ast.remove(0);
        proof {
            assert(node_views(pre)[0] == orig.skip(k)[0]);
            assert(orig.skip(k)[0] == orig[k]);
            assert(node@ == orig[k]);
            assert(ast@ =~= pre.remove(0));
            assert forall|q: int| 0 <= q < ast@.len() implies node_views(ast@)[q]
                == orig.skip(k + 1)[q] by {
                assert(ast@[q] == pre[q + 1]);
                assert(node_views(pre)[q + 1] == orig.skip(k)[q + 1]);
            }
            assert(node_views(ast@) =~= orig.skip(k + 1));
        }
        match symbolic_name(&node.value) {
            Some(name) => {
                if !contains_string(&labels, &name) {
                    let msg = String::from_str("Undefined label `").concat(name.as_str()).concat(
                        "`",
                    );
                    proof {
                        assert(msg@ == undefined_label_msg(name@));
                    }
                    node.errors.push(NodeError::Error(msg));
                    proof {
                        assert(node@.errors =~= orig[k].errors + label_diag(
                            orig[k].value,
                            names,
                        ));
                    }
                } else {
                    proof {
                        assert(node@.errors =~= orig[k].errors + label_diag(
                            orig[k].value,
                            names,
                        ));
                    }
                }
            },
            None => {
                proof {
                    assert(node@.errors =~= orig[k].errors + label_diag(orig[k].value, names));
                }
            },
        }
        proof {
            assert(node@ =~= labels_pass(orig)[k]);
        }
        out.push(node);
        proof {
            assert(node_views(out@) =~= labels_pass(orig).subrange(0, k + 1));
        }
    }
    *ast = out;
    proof {
        assert(node_views(ast@) =~= labels_pass(orig));
    }
}

/// Checks one literal against its field's interval and appends the warning
/// when it parses to a value outside it.
fn verify_literal_within_range(
    node: &mut Node,
    literal: NumberLiteralTokenValue,
    sign_extend: bool,
    bits: u32,
)
    requires
        1 <= bits <= 62,
    ensures
        final(node)@ == with_errors(old(node)@, range_diag(literal@, sign_extend, bits as nat)),
{
    let radix: u32 = match literal.format {
        NumberLiteralFormat::Hex => 16,
        NumberLiteralFormat::Decimal => 10,
    };
    let (lo, hi): (i64, i64) = if sign_extend {
        let p = pow2_i64(bits - 1);
        (-p, p - 1)
    } else {
        let p = pow2_i64(bits);
        (0, p - 1)
    };
    proof {
        vstd::arithmetic::power2::lemma_pow2_pos((bits - 1) as nat);
        vstd::arithmetic::power2::lemma_pow2_pos(bits as nat);
        if (bits as nat) < 62 {
            vstd::arithmetic::power2::lemma_pow2_strictly_increases(bits as nat, 62);
        }
        vstd::arithmetic::power2::lemma2_to64();
        vstd::arithmetic::power2::lemma2_to64_rest();
        assert(lo as int == field_min(sign_extend, bits as nat));
        assert(hi as int == field_max(sign_extend, bits as nat));
    }
    match literal_outside_interval(literal.value.as_str(), radix, lo, hi) {
        Some(outside) => {
            if outside {
                let marker: &str = match literal.format {
                    NumberLiteralFormat::Hex => "x",
                    NumberLiteralFormat::Decimal => "#",
                };
                let ext: &str = if sign_extend {
                    "sign extended"
                } else {
                    "zero extended"
                };
                let msg = String::from_str("Number literal `").concat(marker).concat(
                    literal.value.as_str(),
                ).concat("` is out of range. Must be within [").concat(
                    bound_string(literal.format, lo).as_str(),
                ).concat(", ").concat(bound_string(literal.format, hi).as_str()).concat(
                    "] (",
                ).concat(to_dec_string(bits as u64).as_str()).concat(" bits ").concat(ext).concat(
                    ")",
                );
                proof {
                    assert(msg@ =~= range_warning_text(literal@, sign_extend, bits as nat));
                }
                node.errors.push(NodeError::Warning(msg));
                proof {
                    assert(node@ =~= with_errors(
                        old(node)@,
                        range_diag(literal@, sign_extend, bits as nat),
                    ));
                }
            } else {
                proof {
                    assert(node@ =~= with_errors(
                        old(node)@,
                        range_diag(literal@, sign_extend, bits as nat),
                    ));
                }
            }
        },
        None => {
            // The digit text does not parse in its radix: the pass leaves the
            // node alone.
            proof {
                assert(node@ =~= with_errors(
                    old(node)@,
                    range_diag(literal@, sign_extend, bits as nat),
                ));
            }
        },
    }
}

/// The literal operand a node checks, copied out with its field shape.
fn node_checked_literal(v: &NodeValue) -> (r: Option<(NumberLiteralTokenValue, bool, u32)>)
    ensures
        match r {
            Some(c) => checked_literal(v@) == Some((c.0@, c.1, c.2 as nat)) && 1 <= c.2 <= 62,
            None => checked_literal(v@) is None,
        },
{
    match v {
        NodeValue::Instruction(iv) => match iv {
            InstructionNodeValue::ADD(AddAndOpcodeInstructionNodeValue::IMM { imm5, .. }) => Some(
                (imm5.clone(), true, 5),
            ),
            InstructionNodeValue::AND(AddAndOpcodeInstructionNodeValue::IMM { imm5, .. }) => Some(
                (imm5.clone(), true, 5),
            ),
            InstructionNodeValue::BR { pc_offset9: LiteralOrLabel::Literal(l), .. } => Some(
                (l.clone(), true, 9),
            ),
            InstructionNodeValue::JSR { pc_offset11: LiteralOrLabel::Literal(l) } => Some(
                (l.clone(), true, 11),
            ),
            InstructionNodeValue::LD { pc_offset9: LiteralOrLabel::Literal(l), .. } => Some(
                (l.clone(), true, 9),
            ),
            InstructionNodeValue::LDI { pc_offset9: LiteralOrLabel::Literal(l), .. } => Some(
                (l.clone(), true, 9),
            ),
            InstructionNodeValue::LDR { offset6: LiteralOrLabel::Literal(l), .. } => Some(
                (l.clone(), true, 6),
            ),
            InstructionNodeValue::LEA { pc_offset9: LiteralOrLabel::Literal(l), .. } => Some(
                (l.clone(), true, 9),
            ),
            InstructionNodeValue::ST { pc_offset9: LiteralOrLabel::Literal(l), .. } => Some(
                (l.clone(), true, 9),
            ),
            InstructionNodeValue::STI { pc_offset9: LiteralOrLabel::Literal(l), .. } => Some(
                (l.clone(), true, 9),
            ),
            InstructionNodeValue::STR { offset6: LiteralOrLabel::Literal(l), .. } => Some(
                (l.clone(), true, 6),
            ),
            InstructionNodeValue::TRAP { trapvect8 } => Some((trapvect8.clone(), false, 8)),
            _ => None,
        },
        _ => None,
    }
}

/// Literal-range pass: visits every literal-kind numeric operand and appends
/// one warning per literal whose value falls outside its field's admissible
/// interval. It never blocks or alters parsing of other nodes.
pub fn verify_number_literals_within_range(ast: &mut Vec<Node>)
    ensures
        node_views(final(ast)@) == range_pass(node_views(old(ast)@)),
{
    let ghost orig = node_views(old(ast)@);
    let mut out: Vec<Node> = Vec::new();
    while ast.len() > 0
        invariant
            orig == node_views(old(ast)@),
            out@.len() + ast@.len() == orig.len(),
            node_views(ast@) == orig.skip(out@.len() as int),
            node_views(out@) == range_pass(orig).subrange(0, out@.len() as int),
        decreases ast@.len(),
    {
        let ghost k = out@.len() as int;
        let ghost pre = ast@;
        let mut node = ast.remove(0);
        proof {
            assert(node_views(pre)[0] == orig.skip(k)[0]);
            assert(orig.skip(k)[0] == orig[k]);
            assert(node@ == orig[k]);
            assert(ast@ =~= pre.remove(0));
            assert forall|q: int| 0 <= q < ast@.len() implies node_views(ast@)[q]
                == orig.skip(k + 1)[q] by {
                assert(ast@[q] == pre[q + 1]);
                assert(node_views(pre)[q + 1] == orig.skip(k)[q + 1]);
            }
            assert(node_views(ast@) =~= orig.skip(k + 1));
        }
        match node_checked_literal(&node.value) {
            Some(c) => {
                let (lit, sign_extend, bits) = c;
                verify_literal_within_range(&mut node, lit, sign_extend, bits);
            },
            None => {
                proof {
                    assert(node@.errors =~= orig[k].errors + node_range_diag(orig[k].value));
                }
            },
        }
        proof {
            assert(node@ =~= range_pass(orig)[k]);
        }
        out.push(node);
        proof {
            assert(node_views(out@) =~= range_pass(orig).subrange(0, k + 1));
        }
    }
    *ast = out;
    proof {
        assert(node_views(ast@) =~= range_pass(orig));
    }
}

/// A declared label's name is in the collected name list.
proof fn lemma_label_names_complete(ns: Seq<NodeView>, j: int, name: Seq<char>)
    requires
        0 <= j < ns.len(),
        ns[j].value == NodeValueView::Label(name),
    ensures
        label_names(ns).contains(name),
    decreases ns.len(),
{
    if j == ns.len() - 1 {
        let pre = label_names(ns.drop_last());
        assert(label_names(ns) == pre + seq![name]);
        assert(label_names(ns)[pre.len() as int] == name);
    } else {
        assert(ns.drop_last()[j] == ns[j]);
        lemma_label_names_complete(ns.drop_last(), j, name);
        let pre = label_names(ns.drop_last());
        let q = choose|q: int| 0 <= q < pre.len() && pre[q] == name;
        assert(label_names(ns)[q] == name);
    }
}

/// Every collected name comes from a declared label node.
proof fn lemma_label_names_sound(ns: Seq<NodeView>, name: Seq<char>)
    requires
        label_names(ns).contains(name),
    ensures
        exists|j: int| 0 <= j < ns.len() && ns[j].value == NodeValueView::Label(name),
    decreases ns.len(),
{
    let pre = label_names(ns.drop_last());
    let q = choose|q: int| 0 <= q < label_names(ns).len() && label_names(ns)[q] == name;
    if q < pre.len() {
        assert(pre[q] == name);
        lemma_label_names_sound(ns.drop_last(), name);
        let j = choose|j: int|
            0 <= j < ns.drop_last().len() && ns.drop_last()[j].value == NodeValueView::Label(name);
        assert(ns[j].value == NodeValueView::Label(name));
    } else {
        assert(ns.last().value == NodeValueView::Label(name));
        assert(ns[ns.len() - 1].value == NodeValueView::Label(name));
    }
}

/// Resolution completeness: when the node sequence declares a label, the
/// label pass appends no diagnostic to any node whose symbolic operand
/// references that label — every such node comes out unchanged.
pub proof fn lemma_resolution_completeness(ns: Seq<NodeView>, name: Seq<char>, j: int)
    requires
        0 <= j < ns.len(),
        ns[j].value == NodeValueView::Label(name),
    ensures
        forall|k: int|
            0 <= k < ns.len() && label_operand_name(ns[k].value) == Some(name)
                ==> labels_pass(ns)[k] == ns[k],
{
    lemma_label_names_complete(ns, j, name);
    assert forall|k: int|
        0 <= k < ns.len() && label_operand_name(ns[k].value) == Some(name) implies labels_pass(
        ns,
    )[k] == ns[k] by {
        assert(label_diag(ns[k].value, label_names(ns)) =~= Seq::<NodeErrorView>::empty());
        assert(labels_pass(ns)[k].errors =~= ns[k].errors);
        assert(labels_pass(ns)[k] =~= ns[k]);
    }
}

/// Undefined reference: a node whose symbolic operand references a name no
/// node declares gets exactly one error diagnostic, of the form
/// "Undefined label `<name>`", and nothing else about it changes.
pub proof fn lemma_undefined_reference(ns: Seq<NodeView>, name: Seq<char>, k: int)
    requires
        0 <= k < ns.len(),
        label_operand_name(ns[k].value) == Some(name),
        forall|j: int| 0 <= j < ns.len() ==> ns[j].value != NodeValueView::Label(name),
    ensures
        labels_pass(ns)[k].errors == ns[k].errors + seq![
            NodeErrorView::Error(undefined_label_msg(name)),
        ],
        labels_pass(ns)[k].value == ns[k].value,
        labels_pass(ns)[k].start_loc == ns[k].start_loc,
        labels_pass(ns)[k].end_loc == ns[k].end_loc,
{
    if label_names(ns).contains(name) {
        lemma_label_names_sound(ns, name);
    }
    assert(!label_names(ns).contains(name));
}

/// The collected label names depend only on the node values.
proof fn lemma_label_names_values(a: Seq<NodeView>, b: Seq<NodeView>)
    requires
        a.len() == b.len(),
        forall|k: int| 0 <= k < a.len() ==> a[k].value == b[k].value,
    ensures
        label_names(a) == label_names(b),
    decreases a.len(),
{
    if a.len() > 0 {
        assert(forall|k: int|
            0 <= k < a.drop_last().len() ==> a.drop_last()[k].value == b.drop_last()[k].value);
        lemma_label_names_values(a.drop_last(), b.drop_last());
        assert(a.last().value == b.last().value);
    }
}

/// Idempotence caution: the label pass is designed to run exactly once per
/// parse. Run twice over the same nodes without resetting diagnostics, it
/// appends each node's diagnostic a second time.
pub proof fn lemma_labels_pass_twice(ns: Seq<NodeView>, k: int)
    requires
        0 <= k < ns.len(),
    ensures
        labels_pass(labels_pass(ns))[k].errors == ns[k].errors + label_diag(
            ns[k].value,
            label_names(ns),
        ) + label_diag(ns[k].value, label_names(ns)),
{
    let p = labels_pass(ns);
    assert(forall|q: int| 0 <= q < p.len() ==> p[q].value == ns[q].value);
    lemma_label_names_values(p, ns);
    assert(labels_pass(p)[k].errors == p[k].errors + label_diag(p[k].value, label_names(p)));
}

/// Idempotence caution for the range pass: run twice, it appends each
/// node's warning a second time.
pub proof fn lemma_range_pass_twice(ns: Seq<NodeView>, k: int)
    requires
        0 <= k < ns.len(),
    ensures
        range_pass(range_pass(ns))[k].errors == ns[k].errors + node_range_diag(ns[k].value)
            + node_range_diag(ns[k].value),
{
    let p = range_pass(ns);
    assert(range_pass(p)[k].errors == p[k].errors + node_range_diag(p[k].value));
}

/// The two passes can run in either order: each node ends up with its label
/// diagnostic and its range diagnostic appended exactly once either way,
/// only the order of the two appended groups differs.
pub proof fn lemma_pass_order_independent(ns: Seq<NodeView>, k: int)
    requires
        0 <= k < ns.len(),
    ensures
        range_pass(labels_pass(ns))[k].errors == ns[k].errors + label_diag(
            ns[k].value,
            label_names(ns),
        ) + node_range_diag(ns[k].value),
        labels_pass(range_pass(ns))[k].errors == ns[k].errors + node_range_diag(ns[k].value)
            + label_diag(ns[k].value, label_names(ns)),
{
    let lp = labels_pass(ns);
    let rp = range_pass(ns);
    assert(forall|q: int| 0 <= q < ns.len() ==> lp[q].value == ns[q].value);
    assert(forall|q: int| 0 <= q < ns.len() ==> rp[q].value == ns[q].value);
    lemma_label_names_values(rp, ns);
    assert(range_pass(lp)[k].errors == lp[k].errors + node_range_diag(lp[k].value));
    assert(labels_pass(rp)[k].errors == rp[k].errors + label_diag(rp[k].value, label_names(rp)));
}

/// Range boundary: a literal parsing exactly to either end of its field's
/// admissible interval draws no warning; one unit beyond either end draws
/// exactly one warning.
pub proof fn lemma_range_boundary(lit: NumberLiteralView, sign_extend: bool, bits: nat, v: int)
    requires
        bits >= 1,
        parse_radix(lit.value, radix_of(lit.format)) == Some(v),
    ensures
        v == field_min(sign_extend, bits) ==> range_diag(lit, sign_extend, bits) == Seq::<
            NodeErrorView,
        >::empty(),
        v == field_max(sign_extend, bits) ==> range_diag(lit, sign_extend, bits) == Seq::<
            NodeErrorView,
        >::empty(),
        v == field_min(sign_extend, bits) - 1 ==> range_diag(lit, sign_extend, bits) == seq![
            NodeErrorView::Warning(range_warning_text(lit, sign_extend, bits)),
        ],
        v == field_max(sign_extend, bits) + 1 ==> range_diag(lit, sign_extend, bits) == seq![
            NodeErrorView::Warning(range_warning_text(lit, sign_extend, bits)),
        ],
{
    vstd::arithmetic::power2::lemma_pow2_pos((bits - 1) as nat);
    vstd::arithmetic::power2::lemma_pow2_pos(bits as nat);
    assert(field_min(sign_extend, bits) <= field_max(sign_extend, bits));
}

} // verus!
