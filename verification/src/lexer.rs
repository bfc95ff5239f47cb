//! Lexical analyzer that splits the program text into tokens.
//!
//! The language of the tokenizer is written down once, as the recursive
//! specification [`lex_from`]: starting from a position and a cursor it skips
//! non-newline whitespace, consumes one token (or, for one documented edge
//! case, a dropped word) and recurses. The executable [`analyze`] is proved
//! to produce exactly the tokens of that specification.

use vstd::prelude::*;

use crate::chars::{
    chars_of_str, is_lex_whitespace, is_whitespace_char, string_from_range, to_upper_char,
    upper_char, upper_text, vec_eq_str,
};
use crate::tokens::{
    DirectiveTokenValue, DirectiveTokenValueView, FileLoc, LocView, NumberLiteralFormat,
    NumberLiteralTokenValue, NumberLiteralView, OpcodeTokenValue, RegisterTokenValue, Token,
    TokenValue, TokenValueView, TokenView, TrapRoutineTokenValue,
};

verus! {

/// The cursor the tokenizer starts from: line 1, column 1.
pub open spec fn initial_loc() -> LocView {
    LocView { line: 1, col: 1 }
}

/// The cursor after one character: a newline opens the next line, anything
/// else advances the column.
pub open spec fn step_loc(loc: LocView, c: char) -> LocView {
    if c == '\n' {
        LocView { line: loc.line + 1, col: 1 }
    } else {
        LocView { line: loc.line, col: loc.col + 1 }
    }
}

/// The cursor after a whole character string.
pub open spec fn advance_loc(loc: LocView, s: Seq<char>) -> LocView
    decreases s.len(),
{
    if s.len() == 0 {
        loc
    } else {
        step_loc(advance_loc(loc, s.drop_last()), s.last())
    }
}

/// The first position at or after `i` where the whitespace skip stops: a
/// newline, a non-whitespace character, or the end of the text.
pub open spec fn ws_end(s: Seq<char>, i: int) -> int
    decreases s.len() - i,
{
    if i >= s.len() {
        s.len() as int
    } else if s[i] == '\n' || !is_lex_whitespace(s[i]) {
        i
    } else {
        ws_end(s, i + 1)
    }
}

/// What ends each kind of maximal character run the tokenizer consumes.
#[derive(Clone, Copy)]
pub enum RunStop {
    /// Whitespace or a comma: number literals and identifier words.
    WsOrComma,
    /// Whitespace only: directive words.
    Ws,
    /// A double quote: string literal contents.
    Quote,
    /// A newline: comment contents.
    Newline,
}

pub open spec fn run_stops(k: RunStop, c: char) -> bool {
    match k {
        RunStop::WsOrComma => is_lex_whitespace(c) || c == ',',
        RunStop::Ws => is_lex_whitespace(c),
        RunStop::Quote => c == '"',
        RunStop::Newline => c == '\n',
    }
}

/// The first position at or after `i` whose character ends a run of kind `k`,
/// or the end of the text.
pub open spec fn run_end(s: Seq<char>, i: int, k: RunStop) -> int
    decreases s.len() - i,
{
    if i >= s.len() {
        s.len() as int
    } else if run_stops(k, s[i]) {
        i
    } else {
        run_end(s, i + 1, k)
    }
}

pub proof fn lemma_ws_end_bounds(s: Seq<char>, i: int)
    requires
        i <= s.len(),
    ensures
        i <= ws_end(s, i) <= s.len(),
    decreases s.len() - i,
{
    if i < s.len() && !(s[i] == '\n' || !is_lex_whitespace(s[i])) {
        lemma_ws_end_bounds(s, i + 1);
    }
}

pub proof fn lemma_run_end_bounds(s: Seq<char>, i: int, k: RunStop)
    requires
        i <= s.len(),
    ensures
        i <= run_end(s, i, k) <= s.len(),
    decreases s.len() - i,
{
    if i < s.len() && !run_stops(k, s[i]) {
        lemma_run_end_bounds(s, i + 1, k);
    }
}

/// Everything the whitespace skip walked over really is skippable: non-newline
/// whitespace.
pub proof fn lemma_ws_end_chars(s: Seq<char>, i: int)
    requires
        0 <= i <= s.len(),
    ensures
        forall|m: int| i <= m < ws_end(s, i) ==> is_lex_whitespace(s[m]) && s[m] != '\n',
        ws_end(s, i) < s.len() ==> (s[ws_end(s, i)] == '\n' || !is_lex_whitespace(
            s[ws_end(s, i)],
        )),
    decreases s.len() - i,
{
    if i < s.len() && !(s[i] == '\n' || !is_lex_whitespace(s[i])) {
        lemma_ws_end_chars(s, i + 1);
    }
}

/// The ASCII-folded word keyword table for non-branch opcodes.
pub open spec fn opcode_of_word(uw: Seq<char>) -> Option<OpcodeTokenValue> {
    if uw == "ADD"@ {
        Some(OpcodeTokenValue::ADD)
    } else if uw == "AND"@ {
        Some(OpcodeTokenValue::AND)
    } else if uw == "JMP"@ {
        Some(OpcodeTokenValue::JMP)
    } else if uw == "JSR"@ {
        Some(OpcodeTokenValue::JSR)
    } else if uw == "LD"@ {
        Some(OpcodeTokenValue::LD)
    } else if uw == "LDI"@ {
        Some(OpcodeTokenValue::LDI)
    } else if uw == "LDR"@ {
        Some(OpcodeTokenValue::LDR)
    } else if uw == "LEA"@ {
        Some(OpcodeTokenValue::LEA)
    } else if uw == "NOT"@ {
        Some(OpcodeTokenValue::NOT)
    } else if uw == "RET"@ {
        Some(OpcodeTokenValue::RET)
    } else if uw == "ST"@ {
        Some(OpcodeTokenValue::ST)
    } else if uw == "STI"@ {
        Some(OpcodeTokenValue::STI)
    } else if uw == "STR"@ {
        Some(OpcodeTokenValue::STR)
    } else if uw == "TRAP"@ {
        Some(OpcodeTokenValue::TRAP)
    } else {
        None
    }
}

/// The trap-routine keyword table.
pub open spec fn trap_of_word(uw: Seq<char>) -> Option<TrapRoutineTokenValue> {
    if uw == "GETC"@ {
        Some(TrapRoutineTokenValue::GETC)
    } else if uw == "OUT"@ {
        Some(TrapRoutineTokenValue::OUT)
    } else if uw == "PUTS"@ {
        Some(TrapRoutineTokenValue::PUTS)
    } else if uw == "IN"@ {
        Some(TrapRoutineTokenValue::IN)
    } else if uw == "PUTSP"@ {
        Some(TrapRoutineTokenValue::PUTSP)
    } else if uw == "HALT"@ {
        Some(TrapRoutineTokenValue::HALT)
    } else {
        None
    }
}

/// The register keyword table.
pub open spec fn register_of_word(uw: Seq<char>) -> Option<RegisterTokenValue> {
    if uw == "R0"@ {
        Some(RegisterTokenValue::R0)
    } else if uw == "R1"@ {
        Some(RegisterTokenValue::R1)
    } else if uw == "R2"@ {
        Some(RegisterTokenValue::R2)
    } else if uw == "R3"@ {
        Some(RegisterTokenValue::R3)
    } else if uw == "R4"@ {
        Some(RegisterTokenValue::R4)
    } else if uw == "R5"@ {
        Some(RegisterTokenValue::R5)
    } else if uw == "R6"@ {
        Some(RegisterTokenValue::R6)
    } else if uw == "R7"@ {
        Some(RegisterTokenValue::R7)
    } else {
        None
    }
}

/// The directive keyword table; unmatched text keeps its folded form.
pub open spec fn directive_of_word(uw: Seq<char>) -> DirectiveTokenValueView {
    if uw == "ORIG"@ {
        DirectiveTokenValueView::ORIG
    } else if uw == "FILL"@ {
        DirectiveTokenValueView::FILL
    } else if uw == "BLKW"@ {
        DirectiveTokenValueView::BLKW
    } else if uw == "STRINGZ"@ {
        DirectiveTokenValueView::STRINGZ
    } else if uw == "END"@ {
        DirectiveTokenValueView::END
    } else {
        DirectiveTokenValueView::Error(uw)
    }
}

/// The classification of an identifier word that does not begin with the
/// branch prefix: opcode, trap routine, register, or plain label keeping its
/// original case.
pub open spec fn word_value(word: Seq<char>, uw: Seq<char>) -> TokenValueView {
    if opcode_of_word(uw) is Some {
        TokenValueView::Opcode(opcode_of_word(uw)->Some_0)
    } else if trap_of_word(uw) is Some {
        TokenValueView::TrapRoutine(trap_of_word(uw)->Some_0)
    } else if register_of_word(uw) is Some {
        TokenValueView::Register(register_of_word(uw)->Some_0)
    } else {
        TokenValueView::Label(word)
    }
}

/// Whether a folded word begins with the branch prefix `BR`.
pub open spec fn has_branch_prefix(uw: Seq<char>) -> bool {
    uw.len() >= 2 && uw[0] == 'B' && uw[1] == 'R'
}

/// Whether every character of a branch suffix is one of the three condition
/// letters.
pub open spec fn nzp_only(suffix: Seq<char>) -> bool {
    forall|m: int| 0 <= m < suffix.len() ==> suffix[m] == 'N' || suffix[m] == 'Z' || suffix[m] == 'P'
}

/// The three condition flags a branch suffix names; the empty suffix is the
/// unconditional branch, all flags set.
pub open spec fn branch_flags(suffix: Seq<char>) -> (bool, bool, bool) {
    if suffix.len() == 0 {
        (true, true, true)
    } else {
        (suffix.contains('N'), suffix.contains('Z'), suffix.contains('P'))
    }
}

/// What one dispatch of the tokenizer produces: possibly a token, the
/// position after everything it consumed, and the cursor for what follows.
pub struct DispatchResult {
    pub tok: Option<TokenView>,
    pub hi: int,
    pub next: LocView,
}

/// One token dispatch at position `j` (a non-whitespace position or a
/// newline), with the cursor `loc` pointing at `s[j]`.
pub open spec fn lex_dispatch(s: Seq<char>, j: int, loc: LocView) -> DispatchResult
    recommends
        0 <= j < s.len(),
{
    let c = s[j];
    if c == '\n' {
        DispatchResult {
            tok: Some(TokenView { value: TokenValueView::NewLine, start_loc: loc, end_loc: loc }),
            hi: j + 1,
            next: LocView { line: loc.line + 1, col: 1 },
        }
    } else if c == ',' {
        DispatchResult {
            tok: Some(TokenView { value: TokenValueView::Comma, start_loc: loc, end_loc: loc }),
            hi: j + 1,
            next: LocView { line: loc.line, col: loc.col + 1 },
        }
    } else if c == '"' {
        let k = run_end(s, j + 1, RunStop::Quote);
        let content = s.subrange(j + 1, k);
        let e = advance_loc(loc, content);
        DispatchResult {
            tok: Some(
                TokenView {
                    value: TokenValueView::StringLiteral(content),
                    start_loc: loc,
                    end_loc: e,
                },
            ),
            hi: if k < s.len() {
                k + 1
            } else {
                k
            },
            next: LocView { line: e.line, col: e.col + 2 },
        }
    } else if c == ';' {
        let k = run_end(s, j + 1, RunStop::Newline);
        let content = s.subrange(j + 1, k);
        let e = LocView { line: loc.line, col: loc.col + (k - (j + 1)) };
        DispatchResult {
            tok: Some(
                TokenView { value: TokenValueView::Comment(content), start_loc: loc, end_loc: e },
            ),
            hi: k,
            next: LocView { line: e.line, col: e.col + 1 },
        }
    } else if c == '#' || c == 'x' {
        let k = run_end(s, j + 1, RunStop::WsOrComma);
        let digits = s.subrange(j + 1, k);
        let e = LocView { line: loc.line, col: loc.col + (k - (j + 1)) };
        let format = if c == '#' {
            NumberLiteralFormat::Decimal
        } else {
            NumberLiteralFormat::Hex
        };
        DispatchResult {
            tok: Some(
                TokenView {
                    value: TokenValueView::NumberLiteral(
                        NumberLiteralView { format, value: digits },
                    ),
                    start_loc: loc,
                    end_loc: e,
                },
            ),
            hi: k,
            next: LocView { line: e.line, col: e.col + 1 },
        }
    } else if c == '.' {
        let k = run_end(s, j + 1, RunStop::Ws);
        let raw = upper_text(s.subrange(j + 1, k));
        let e = LocView { line: loc.line, col: loc.col + (k - (j + 1)) };
        DispatchResult {
            tok: Some(
                TokenView {
                    value: TokenValueView::Directive(directive_of_word(raw)),
                    start_loc: loc,
                    end_loc: e,
                },
            ),
            hi: k,
            next: LocView { line: e.line, col: e.col + 1 },
        }
    } else {
        let k = run_end(s, j + 1, RunStop::WsOrComma);
        let word = s.subrange(j, k);
        let uw = upper_text(word);
        let e = LocView { line: loc.line, col: loc.col + (k - j - 1) };
        if has_branch_prefix(uw) {
            let suffix = uw.subrange(2, uw.len() as int);
            if nzp_only(suffix) {
                let flags = branch_flags(suffix);
                DispatchResult {
                    tok: Some(
                        TokenView {
                            value: TokenValueView::Opcode(
                                OpcodeTokenValue::BR { n: flags.0, z: flags.1, p: flags.2 },
                            ),
                            start_loc: loc,
                            end_loc: e,
                        },
                    ),
                    hi: k,
                    next: LocView { line: e.line, col: e.col + 1 },
                }
            } else {
                // The documented edge case: a word with the branch prefix but a
                // bad suffix yields no token, and the cursor is not advanced
                // past its final character.
                DispatchResult { tok: None, hi: k, next: e }
            }
        } else {
            DispatchResult {
                tok: Some(
                    TokenView { value: word_value(word, uw), start_loc: loc, end_loc: e },
                ),
                hi: k,
                next: LocView { line: e.line, col: e.col + 1 },
            }
        }
    }
}

/// One step of the tokenizer with the half-open span `[lo, hi)` of characters
/// it consumed; `tok` is `None` exactly for dropped branch-prefixed words.
pub struct LexStep {
    pub tok: Option<TokenView>,
    pub lo: int,
    pub hi: int,
}

/// The full run of the tokenizer from position `i` with cursor `loc`: the
/// list of steps it takes until the end of the text.
pub open spec fn lex_from(s: Seq<char>, i: int, loc: LocView) -> Seq<LexStep>
    decreases s.len() - i,
    when 0 <= i <= s.len()
    via lex_from_decreases
{
    let j = ws_end(s, i);
    if j >= s.len() {
        Seq::empty()
    } else {
        let ws_loc = LocView { line: loc.line, col: loc.col + (j - i) };
        let d = lex_dispatch(s, j, ws_loc);
        seq![LexStep { tok: d.tok, lo: j, hi: d.hi }] + lex_from(s, d.hi, d.next)
    }
}

#[via_fn]
proof fn lex_from_decreases(s: Seq<char>, i: int, loc: LocView) {
    lemma_ws_end_bounds(s, i);
    let j = ws_end(s, i);
    if j < s.len() {
        lemma_run_end_bounds(s, j + 1, RunStop::Quote);
        lemma_run_end_bounds(s, j + 1, RunStop::Newline);
        lemma_run_end_bounds(s, j + 1, RunStop::WsOrComma);
        lemma_run_end_bounds(s, j + 1, RunStop::Ws);
    }
}

/// The tokens a list of steps emits, dropped words left out.
pub open spec fn emitted(steps: Seq<LexStep>) -> Seq<TokenView>
    decreases steps.len(),
{
    if steps.len() == 0 {
        Seq::empty()
    } else {
        (match steps[0].tok {
            Some(t) => seq![t],
            None => Seq::empty(),
        }) + emitted(steps.drop_first())
    }
}

/// The token stream of a whole text: what the tokenizer emits from the start.
pub open spec fn lex_tokens(s: Seq<char>) -> Seq<TokenView> {
    emitted(lex_from(s, 0, initial_loc()))
}

/// The views of a list of tokens.
pub open spec fn token_views(ts: Seq<Token>) -> Seq<TokenView> {
    ts.map_values(|t: Token| t@)
}

/// The tokens a single step emits: one or none.
pub open spec fn step_tokens(st: LexStep) -> Seq<TokenView> {
    match st.tok {
        Some(t) => seq![t],
        None => Seq::empty(),
    }
}

pub proof fn lemma_emitted_push(steps: Seq<LexStep>, st: LexStep)
    ensures
        emitted(steps.push(st)) == emitted(steps) + step_tokens(st),
    decreases steps.len(),
{
    if steps.len() == 0 {
        assert(steps.push(st)[0] == st);
        assert(steps.push(st).drop_first() =~= Seq::<LexStep>::empty());
        assert(emitted(Seq::<LexStep>::empty()) == Seq::<TokenView>::empty());
        assert(emitted(steps.push(st)) == step_tokens(st) + emitted(
            steps.push(st).drop_first(),
        ));
        assert(emitted(steps.push(st)) =~= emitted(steps) + step_tokens(st));
    } else {
        assert(steps.push(st).drop_first() =~= steps.drop_first().push(st));
        lemma_emitted_push(steps.drop_first(), st);
        assert(steps.push(st)[0] == steps[0]);
        assert(emitted(steps.push(st)) == step_tokens(steps[0]) + emitted(
            steps.drop_first().push(st),
        ));
        assert(emitted(steps) == step_tokens(steps[0]) + emitted(steps.drop_first()));
        assert(emitted(steps.push(st)) =~= emitted(steps) + step_tokens(st));
    }
}

/// The tiling property of a list of steps: each consumed span `[lo, hi)` lies
/// beyond the previous one, and every character between two spans (and before
/// the first, and after the last) is non-newline whitespace.
pub open spec fn steps_cover(s: Seq<char>, i: int, steps: Seq<LexStep>) -> bool
    decreases steps.len(),
{
    if steps.len() == 0 {
        forall|m: int| i <= m < s.len() ==> is_lex_whitespace(s[m]) && s[m] != '\n'
    } else {
        &&& i <= steps[0].lo <= steps[0].hi <= s.len()
        &&& forall|m: int| i <= m < steps[0].lo ==> is_lex_whitespace(s[m]) && s[m] != '\n'
        &&& steps_cover(s, steps[0].hi, steps.drop_first())
    }
}

/// Stitches a suffix of the text back together out of the whitespace gaps and
/// the consumed spans of a list of steps.
pub open spec fn rebuild(s: Seq<char>, i: int, steps: Seq<LexStep>) -> Seq<char>
    decreases steps.len(),
{
    if steps.len() == 0 {
        s.subrange(i, s.len() as int)
    } else {
        s.subrange(i, steps[0].lo) + s.subrange(steps[0].lo, steps[0].hi) + rebuild(
            s,
            steps[0].hi,
            steps.drop_first(),
        )
    }
}

proof fn lemma_span_coverage_from(s: Seq<char>, i: int, loc: LocView)
    requires
        0 <= i <= s.len(),
    ensures
        steps_cover(s, i, lex_from(s, i, loc)),
        rebuild(s, i, lex_from(s, i, loc)) == s.subrange(i, s.len() as int),
    decreases s.len() - i,
{
    let j = ws_end(s, i);
    lemma_ws_end_bounds(s, i);
    lemma_ws_end_chars(s, i);
    if j >= s.len() {
        assert(lex_from(s, i, loc) =~= Seq::<LexStep>::empty());
    } else {
        let wloc = LocView { line: loc.line, col: loc.col + (j - i) };
        let d = lex_dispatch(s, j, wloc);
        lemma_run_end_bounds(s, j + 1, RunStop::Quote);
        lemma_run_end_bounds(s, j + 1, RunStop::Newline);
        lemma_run_end_bounds(s, j + 1, RunStop::WsOrComma);
        lemma_run_end_bounds(s, j + 1, RunStop::Ws);
        lemma_span_coverage_from(s, d.hi, d.next);
        let steps = lex_from(s, i, loc);
        assert(steps[0] == LexStep { tok: d.tok, lo: j, hi: d.hi });
        assert(steps.drop_first() =~= lex_from(s, d.hi, d.next));
        assert(steps_cover(s, i, steps));
        assert(rebuild(s, i, steps) =~= s.subrange(i, s.len() as int));
    }
}

/// Span coverage: the tokenizer's steps tile the whole text, left to right,
/// with nothing but non-newline whitespace between consecutive consumed
/// spans, and stitching the gaps and the spans back together reproduces the
/// text exactly. A step carries the token made from its span, or no token for
/// a dropped word with the branch prefix and a bad suffix.
pub proof fn lemma_span_coverage(s: Seq<char>)
    ensures
        steps_cover(s, 0, lex_from(s, 0, initial_loc())),
        rebuild(s, 0, lex_from(s, 0, initial_loc())) == s,
{
    lemma_span_coverage_from(s, 0, initial_loc());
    assert(s.subrange(0, s.len() as int) =~= s);
}

/// The shape of a consumed span that yields no token: its characters fold to
/// the branch prefix `BR` followed by a letter outside the three condition
/// letters.
pub open spec fn dropped_word_shape(s: Seq<char>, st: LexStep) -> bool {
    let uw = upper_text(s.subrange(st.lo, st.hi));
    has_branch_prefix(uw) && !nzp_only(uw.subrange(2, uw.len() as int))
}

proof fn lemma_dropped_steps_from(s: Seq<char>, i: int, loc: LocView)
    requires
        0 <= i <= s.len(),
    ensures
        forall|q: int|
            0 <= q < lex_from(s, i, loc).len() && (#[trigger] lex_from(s, i, loc)[q]).tok is None
                ==> dropped_word_shape(s, lex_from(s, i, loc)[q]),
    decreases s.len() - i,
{
    let j = ws_end(s, i);
    lemma_ws_end_bounds(s, i);
    if j < s.len() {
        let wloc = LocView { line: loc.line, col: loc.col + (j - i) };
        let d = lex_dispatch(s, j, wloc);
        lemma_run_end_bounds(s, j + 1, RunStop::Quote);
        lemma_run_end_bounds(s, j + 1, RunStop::Newline);
        lemma_run_end_bounds(s, j + 1, RunStop::WsOrComma);
        lemma_run_end_bounds(s, j + 1, RunStop::Ws);
        lemma_dropped_steps_from(s, d.hi, d.next);
        let steps = lex_from(s, i, loc);
        assert(steps[0] == LexStep { tok: d.tok, lo: j, hi: d.hi });
        assert forall|q: int|
            0 <= q < steps.len() && (#[trigger] steps[q]).tok is None implies dropped_word_shape(
            s,
            steps[q],
        ) by {
            if q == 0 {
                assert(d.tok is None ==> dropped_word_shape(s, steps[0]));
            } else {
                assert(steps[q] == lex_from(s, d.hi, d.next)[q - 1]);
            }
        }
    }
}

/// Every step of the tokenizer that emits no token consumed a word whose
/// folded text begins with the branch prefix and carries a bad suffix — the
/// one lexical shape the tokenizer drops.
pub proof fn lemma_dropped_steps(s: Seq<char>)
    ensures
        forall|q: int|
            0 <= q < lex_from(s, 0, initial_loc()).len() && (#[trigger] lex_from(
                s,
                0,
                initial_loc(),
            )[q]).tok is None ==> dropped_word_shape(s, lex_from(s, 0, initial_loc())[q]),
{
    lemma_dropped_steps_from(s, 0, initial_loc());
}

/// Executable form of [`run_stops`].
fn stops_run(kind: RunStop, c: char) -> (b: bool)
    ensures
        b == run_stops(kind, c),
{
    match kind {
        RunStop::WsOrComma => {
            let w = is_whitespace_char(c);
            w || c == ','
        },
        RunStop::Ws => is_whitespace_char(c),
        RunStop::Quote => c == '"',
        RunStop::Newline => c == '\n',
    }
}

/// Finds the end of the whitespace skip starting at `from`.
fn skip_ws(input: &Vec<char>, from: usize) -> (j: usize)
    requires
        from <= input@.len(),
    ensures
        j == ws_end(input@, from as int),
        from <= j <= input@.len(),
{
    let n = input.len();
    let mut j = from;
    loop
        invariant
            from <= j <= n,
            n == input@.len(),
            ws_end(input@, from as int) == ws_end(input@, j as int),
        ensures
            from <= j <= n && j == ws_end(input@, from as int),
        decreases n - j,
    {
        if j == n {
            break ;
        }
        let c = input[j];
        if c == '\n' {
            break ;
        }
        if !is_whitespace_char(c) {
            break ;
        }
        j = j + 1;
    }
    j
}

/// Finds the end of a maximal run of kind `kind` starting at `from`.
fn scan_run(input: &Vec<char>, from: usize, kind: RunStop) -> (k: usize)
    requires
        from <= input@.len(),
    ensures
        k == run_end(input@, from as int, kind),
        from <= k <= input@.len(),
{
    let n = input.len();
    let mut j = from;
    loop
        invariant
            from <= j <= n,
            n == input@.len(),
            run_end(input@, from as int, kind) == run_end(input@, j as int, kind),
        ensures
            from <= j <= n && j == run_end(input@, from as int, kind),
        decreases n - j,
    {
        if j == n {
            break ;
        }
        if stops_run(kind, input[j]) {
            break ;
        }
        j = j + 1;
    }
    j
}

/// The upper-cased copy of the characters `input[from..to]`.
fn upper_range(input: &Vec<char>, from: usize, to: usize) -> (uw: Vec<char>)
    requires
        from <= to <= input@.len(),
    ensures
        uw@ == upper_text(input@.subrange(from as int, to as int)),
{
    let mut uw: Vec<char> = Vec::new();
    let mut m = from;
    while m < to
        invariant
            from <= m <= to <= input@.len(),
            uw@ == upper_text(input@.subrange(from as int, m as int)),
        decreases to - m,
    {
        uw.push(to_upper_char(input[m]));
        proof {
            assert(input@.subrange(from as int, (m + 1) as int) =~= input@.subrange(
                from as int,
                m as int,
            ).push(input@[m as int]));
            assert(uw@ =~= upper_text(input@.subrange(from as int, (m + 1) as int)));
        }
        m = m + 1;
    }
    uw
}

/// Splits the program text into its ordered token sequence, in one linear
/// left-to-right pass. It never fails: malformed constructs become tokens
/// tagged as unknown rather than stopping the scan.
/// Consumes a string literal whose opening quote stands at `input[i]`, the
/// cursor standing on it: yields the token, the position after everything
/// consumed, and the cursor line and column for what follows.
fn lex_string(input: &Vec<char>, i: usize, line: usize, col: usize) -> (r: (
    Token,
    usize,
    usize,
    usize,
))
    requires
        input@.len() <= usize::MAX - 3,
        i < input@.len(),
        input@[i as int] == '"',
        1 <= line <= i + 1,
        1 <= col <= i + 1,
    ensures
        ({
            let d = lex_dispatch(input@, i as int, LocView { line: line as int, col: col as int });
            &&& d.tok == Some(r.0@)
            &&& r.1 as int == d.hi
            &&& (LocView { line: r.2 as int, col: r.3 as int }) == d.next
            &&& i < r.1 <= input@.len()
            &&& 1 <= r.2 <= r.1
            &&& 1 <= r.3
            &&& (r.3 <= r.1 + 1 || (r.1 == input@.len() && r.3 <= input@.len() + 2))
        }),
{
    let ghost s = input@;
    let ghost wloc = LocView { line: line as int, col: col as int };
    let n = input.len();
    let k = scan_run(input, i + 1, RunStop::Quote);
    let content = string_from_range(input, i + 1, k);
    let mut cur_line = line;
    let mut cur_col = col;
    let mut m = i + 1;
    while m < k
        invariant
            i + 1 <= m <= k <= n,
            n == s.len(),
            n <= usize::MAX - 3,
            input@ == s,
            1 <= cur_line,
            1 <= cur_col,
            cur_line <= m,
            cur_col <= m,
            (LocView { line: cur_line as int, col: cur_col as int }) == advance_loc(
                wloc,
                s.subrange(i + 1, m as int),
            ),
        decreases k - m,
    {
        proof {
            assert(s.subrange(i + 1, (m + 1) as int) =~= s.subrange(i + 1, m as int).push(
                s[m as int],
            ));
            assert(s.subrange(i + 1, (m + 1) as int).drop_last() =~= s.subrange(
                i + 1,
                m as int,
            ));
        }
        if input[m] == '\n' {
            cur_line = cur_line + 1;
            cur_col = 1;
        } else {
            cur_col = cur_col + 1;
        }
        m = m + 1;
    }
    let tok = Token {
        value: TokenValue::StringLiteral(content),
        start_loc: FileLoc { line, col },
        end_loc: FileLoc { line: cur_line, col: cur_col },
    };
    let next_i = if k < n {
        k + 1
    } else {
        k
    };
    (tok, next_i, cur_line, cur_col + 2)
}

/// Consumes a directive word whose dot stands at `input[i]`, the cursor
/// standing on it: yields the token, the position after the word, and the
/// cursor line and column for what follows.
fn lex_directive(input: &Vec<char>, i: usize, line: usize, col: usize) -> (r: (
    Token,
    usize,
    usize,
    usize,
))
    requires
        input@.len() <= usize::MAX - 3,
        i < input@.len(),
        input@[i as int] == '.',
        1 <= line <= i + 1,
        1 <= col <= i + 1,
    ensures
        ({
            let d = lex_dispatch(input@, i as int, LocView { line: line as int, col: col as int });
            &&& d.tok == Some(r.0@)
            &&& r.1 as int == d.hi
            &&& (LocView { line: r.2 as int, col: r.3 as int }) == d.next
            &&& i < r.1 <= input@.len()
            &&& r.2 == line
            &&& 1 <= r.3 <= r.1 + 1
        }),
{
    let k = scan_run(input, i + 1, RunStop::Ws);
    let uw = upper_range(input, i + 1, k);
    let dval: DirectiveTokenValue = if vec_eq_str(&uw, "ORIG") {
        DirectiveTokenValue::ORIG
    } else if vec_eq_str(&uw, "FILL") {
        DirectiveTokenValue::FILL
    } else if vec_eq_str(&uw, "BLKW") {
        DirectiveTokenValue::BLKW
    } else if vec_eq_str(&uw, "STRINGZ") {
        DirectiveTokenValue::STRINGZ
    } else if vec_eq_str(&uw, "END") {
        DirectiveTokenValue::END
    } else {
        let raw = string_from_range(&uw, 0, uw.len());
        proof {
            assert(raw@ =~= uw@);
        }
        DirectiveTokenValue::Error(raw)
    };
    let end_col = col + (k - (i + 1));
    let tok = Token {
        value: TokenValue::Directive(dval),
        start_loc: FileLoc { line, col },
        end_loc: FileLoc { line, col: end_col },
    };
    (tok, k, line, end_col + 1)
}

/// Consumes an identifier word whose first character stands at `input[i]`,
/// the cursor standing on it: yields the token it makes — or none, for a
/// dropped word with the branch prefix and a bad suffix — the position after
/// the word, and the cursor line and column for what follows.
fn lex_word(input: &Vec<char>, i: usize, line: usize, col: usize) -> (r: (
    Option<Token>,
    usize,
    usize,
    usize,
))
    requires
        input@.len() <= usize::MAX - 3,
        i < input@.len(),
        input@[i as int] != '\n',
        input@[i as int] != ',',
        input@[i as int] != '"',
        input@[i as int] != ';',
        input@[i as int] != '#',
        input@[i as int] != 'x',
        input@[i as int] != '.',
        1 <= line <= i + 1,
        1 <= col <= i + 1,
    ensures
        ({
            let d = lex_dispatch(input@, i as int, LocView { line: line as int, col: col as int });
            &&& (match r.0 {
                Some(t) => d.tok == Some(t@),
                None => d.tok is None,
            })
            &&& r.1 as int == d.hi
            &&& (LocView { line: r.2 as int, col: r.3 as int }) == d.next
            &&& i < r.1 <= input@.len()
            &&& r.2 == line
            &&& 1 <= r.3 <= r.1 + 1
        }),
{
    let ghost s = input@;
    let k = scan_run(input, i + 1, RunStop::WsOrComma);
    let uw = upper_range(input, i, k);
    let ghost word = s.subrange(i as int, k as int);
    let ghost uws = upper_text(word);
    let end_col = col + (k - i - 1);
    if uw.len() >= 2 && uw[0] == 'B' && uw[1] == 'R' {
        let mut good = true;
        let mut has_n = false;
        let mut has_z = false;
        let mut has_p = false;
        let mut m: usize = 2;
        while m < uw.len()
            invariant
                2 <= m <= uw@.len(),
                uw@ == uws,
                good == nzp_only(uws.subrange(2, m as int)),
                has_n == uws.subrange(2, m as int).contains('N'),
                has_z == uws.subrange(2, m as int).contains('Z'),
                has_p == uws.subrange(2, m as int).contains('P'),
            decreases uw@.len() - m,
        {
            proof {
                assert(uws.subrange(2, (m + 1) as int) =~= uws.subrange(2, m as int).push(
                    uws[m as int],
                ));
            }
            let cm = uw[m];
            if cm == 'N' {
                has_n = true;
            } else if cm == 'Z' {
                has_z = true;
            } else if cm == 'P' {
                has_p = true;
            } else {
                good = false;
            }
            proof {
                let pre = uws.subrange(2, m as int);
                let sub1 = uws.subrange(2, (m + 1) as int);
                assert(sub1.last() == uws[m as int]);
                assert(forall|q: int| 0 <= q < sub1.len() - 1 ==> sub1[q] == pre[q]);
                assert forall|c: char| pre.contains(c) implies sub1.contains(c) by {
                    let q = choose|q: int| 0 <= q < pre.len() && pre[q] == c;
                    assert(sub1[q] == c);
                }
            }
            m = m + 1;
        }
        proof {
            assert(uws.subrange(2, uws.len() as int) =~= uws.subrange(2, uw@.len() as int));
        }
        if good {
            let (bn, bz, bp) = if uw.len() == 2 {
                (true, true, true)
            } else {
                (has_n, has_z, has_p)
            };
            proof {
                assert(uws.subrange(2, uws.len() as int).len() == 0 <==> uws.len() == 2);
            }
            let tok = Token {
                value: TokenValue::Opcode(OpcodeTokenValue::BR { n: bn, z: bz, p: bp }),
                start_loc: FileLoc { line, col },
                end_loc: FileLoc { line, col: end_col },
            };
            (Some(tok), k, line, end_col + 1)
        } else {
            // Dropped word: no token, and the cursor stays on the word's
            // final character.
            (None, k, line, end_col)
        }
    } else {
        let word_string = string_from_range(input, i, k);
        let value: TokenValue = if vec_eq_str(&uw, "ADD") {
            TokenValue::Opcode(OpcodeTokenValue::ADD)
        } else if vec_eq_str(&uw, "AND") {
            TokenValue::Opcode(OpcodeTokenValue::AND)
        } else if vec_eq_str(&uw, "JMP") {
            TokenValue::Opcode(OpcodeTokenValue::JMP)
        } else if vec_eq_str(&uw, "JSR") {
            TokenValue::Opcode(OpcodeTokenValue::JSR)
        } else if vec_eq_str(&uw, "LD") {
            TokenValue::Opcode(OpcodeTokenValue::LD)
        } else if vec_eq_str(&uw, "LDI") {
            TokenValue::Opcode(OpcodeTokenValue::LDI)
        } else if vec_eq_str(&uw, "LDR") {
            TokenValue::Opcode(OpcodeTokenValue::LDR)
        } else if vec_eq_str(&uw, "LEA") {
            TokenValue::Opcode(OpcodeTokenValue::LEA)
        } else if vec_eq_str(&uw, "NOT") {
            TokenValue::Opcode(OpcodeTokenValue::NOT)
        } else if vec_eq_str(&uw, "RET") {
            TokenValue::Opcode(OpcodeTokenValue::RET)
        } else if vec_eq_str(&uw, "ST") {
            TokenValue::Opcode(OpcodeTokenValue::ST)
        } else if vec_eq_str(&uw, "STI") {
            TokenValue::Opcode(OpcodeTokenValue::STI)
        } else if vec_eq_str(&uw, "STR") {
            TokenValue::Opcode(OpcodeTokenValue::STR)
        } else if vec_eq_str(&uw, "TRAP") {
            TokenValue::Opcode(OpcodeTokenValue::TRAP)
        } else if vec_eq_str(&uw, "GETC") {
            TokenValue::TrapRoutine(TrapRoutineTokenValue::GETC)
        } else if vec_eq_str(&uw, "OUT") {
            TokenValue::TrapRoutine(TrapRoutineTokenValue::OUT)
        } else if vec_eq_str(&uw, "PUTS") {
            TokenValue::TrapRoutine(TrapRoutineTokenValue::PUTS)
        } else if vec_eq_str(&uw, "IN") {
            TokenValue::TrapRoutine(TrapRoutineTokenValue::IN)
        } else if vec_eq_str(&uw, "PUTSP") {
            TokenValue::TrapRoutine(TrapRoutineTokenValue::PUTSP)
        } else if vec_eq_str(&uw, "HALT") {
            TokenValue::TrapRoutine(TrapRoutineTokenValue::HALT)
        } else if vec_eq_str(&uw, "R0") {
            TokenValue::Register(RegisterTokenValue::R0)
        } else if vec_eq_str(&uw, "R1") {
            TokenValue::Register(RegisterTokenValue::R1)
        } else if vec_eq_str(&uw, "R2") {
            TokenValue::Register(RegisterTokenValue::R2)
        } else if vec_eq_str(&uw, "R3") {
            TokenValue::Register(RegisterTokenValue::R3)
        } else if vec_eq_str(&uw, "R4") {
            TokenValue::Register(RegisterTokenValue::R4)
        } else if vec_eq_str(&uw, "R5") {
            TokenValue::Register(RegisterTokenValue::R5)
        } else if vec_eq_str(&uw, "R6") {
            TokenValue::Register(RegisterTokenValue::R6)
        } else if vec_eq_str(&uw, "R7") {
            TokenValue::Register(RegisterTokenValue::R7)
        } else {
            TokenValue::Label(word_string)
        };
        proof {
            assert(!has_branch_prefix(uws));
            assert(value@ == word_value(word, uws));
        }
        let tok = Token {
            value,
            start_loc: FileLoc { line, col },
            end_loc: FileLoc { line, col: end_col },
        };
        (Some(tok), k, line, end_col + 1)
    }
}

/// Splits the program text into its ordered token sequence, in one linear
/// left-to-right pass. It never fails: malformed constructs become tokens
/// tagged as unknown rather than stopping the scan.
pub fn analyze(text: &str) -> (tokens: Vec<Token>)
    requires
        text@.len() <= usize::MAX - 3,
    ensures
        token_views(tokens@) == lex_tokens(text@),
{
    let ghost s = text@;
    let input = chars_of_str(text);
    let n = input.len();
    let mut i: usize = 0;
    let mut line: usize = 1;
    let mut col: usize = 1;
    let mut tokens: Vec<Token> = Vec::new();
    let ghost mut done: Seq<LexStep> = Seq::empty();

    loop
        invariant
            input@ == s,
            n == s.len(),
            n <= usize::MAX - 3,
            i <= n,
            1 <= line,
            1 <= col,
            line <= i + 1,
            col <= i + 1 || (i == n && col <= n + 2),
            lex_from(s, 0, initial_loc()) == done + lex_from(
                s,
                i as int,
                LocView { line: line as int, col: col as int },
            ),
            token_views(tokens@) == emitted(done),
        ensures
            token_views(tokens@) == lex_tokens(s),
        decreases n - i,
    {
        let ghost i0 = i as int;
        let ghost loc0 = LocView { line: line as int, col: col as int };
        let j = skip_ws(&input, i);
        proof {
            lemma_ws_end_bounds(s, i0);
        }
        col = col + (j - i);
        i = j;
        let ghost wloc = LocView { line: line as int, col: col as int };
        if i == n {
            proof {
                assert(lex_from(s, i0, loc0) =~= Seq::<LexStep>::empty());
                assert(lex_from(s, 0, initial_loc()) =~= done);
                assert(token_views(tokens@) == lex_tokens(s));
            }
            break ;
        }
        proof {
            lemma_ws_end_chars(s, i0);
            assert(s[i as int] == '\n' || !is_lex_whitespace(s[i as int]));
            assert(ws_end(s, i as int) == i as int);
        }
        let ghost d = lex_dispatch(s, i as int, wloc);
        let ghost step = LexStep { tok: d.tok, lo: i as int, hi: d.hi };
        proof {
            lemma_run_end_bounds(s, i + 1, RunStop::Quote);
            lemma_run_end_bounds(s, i + 1, RunStop::Newline);
            lemma_run_end_bounds(s, i + 1, RunStop::WsOrComma);
            lemma_run_end_bounds(s, i + 1, RunStop::Ws);
            assert(0 <= d.hi <= s.len());
            assert(lex_from(s, i0, loc0) =~= seq![step] + lex_from(s, d.hi, d.next));
        }
        let c = input[i];
        if c == '\n' {
            tokens.push(
                Token {
                    value: TokenValue::NewLine,
                    start_loc: FileLoc { line, col },
                    end_loc: FileLoc { line, col },
                },
            );
            line = line + 1;
            col = 1;
            i = i + 1;
        } else if c == ',' {
            tokens.push(
                Token {
                    value: TokenValue::Comma,
                    start_loc: FileLoc { line, col },
                    end_loc: FileLoc { line, col },
                },
            );
            col = col + 1;
            i = i + 1;
        } else if c == '"' {
            let (tok, ni, nl, nc) = lex_string(&input, i, line, col);
            tokens.push(tok);
            i = ni;
            line = nl;
            col = nc;
        } else if c == ';' {
            let k = scan_run(&input, i + 1, RunStop::Newline);
            let content = string_from_range(&input, i + 1, k);
            let end_col = col + (k - (i + 1));
            tokens.push(
                Token {
                    value: TokenValue::Comment(content),
                    start_loc: FileLoc { line, col },
                    end_loc: FileLoc { line, col: end_col },
                },
            );
            col = end_col + 1;
            i = k;
        } else if c == '#' || c == 'x' {
            let k = scan_run(&input, i + 1, RunStop::WsOrComma);
            let value = string_from_range(&input, i + 1, k);
            let format = if c == '#' {
                NumberLiteralFormat::Decimal
            } else {
                NumberLiteralFormat::Hex
            };
            let end_col = col + (k - (i + 1));
            tokens.push(
                Token {
                    value: TokenValue::NumberLiteral(NumberLiteralTokenValue { format, value }),
                    start_loc: FileLoc { line, col },
                    end_loc: FileLoc { line, col: end_col },
                },
            );
            col = end_col + 1;
            i = k;
        } else if c == '.' {
            let (tok, ni, nl, nc) = lex_directive(&input, i, line, col);
            tokens.push(tok);
            i = ni;
            line = nl;
            col = nc;
        } else {
            let (tok, ni, nl, nc) = lex_word(&input, i, line, col);
            match tok {
                Some(t) => tokens.push(t),
                None => {},
            }
            i = ni;
            line = nl;
            col = nc;
        }
        proof {
            assert(i as int == d.hi);
            assert(LocView { line: line as int, col: col as int } == d.next);
            lemma_emitted_push(done, step);
            assert(token_views(tokens@) =~= emitted(done) + step_tokens(step));
            done = done.push(step);
            assert(lex_from(s, 0, initial_loc()) =~= done + lex_from(s, d.hi, d.next));
        }
    }
    tokens
}

} // verus!
