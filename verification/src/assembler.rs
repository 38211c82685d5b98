//! The assembler: splits source lines into tokens and emits the binary
//! instruction encoding, resolving function names and patching the
//! program entry slot.

use vstd::prelude::*;
use vstd::string::StrSliceExecFns;
use crate::bytes::{be_bytes, reverse_bytes};
use crate::text::{lower_seq, lower_token, chars_eq_str, chars_eq, clone_chars, spec_parse_u64,
    parse_u64_chars};
use crate::isa::{OP_NOP, OP_SET, OP_ADD, OP_SUB, OP_LD, OP_STO, OP_LDR, OP_STR, OP_LSL, OP_LSR,
    OP_JMP, OP_JLT, OP_JLE, OP_JGT, OP_JGE, OP_JEQ, OP_JNE, OP_JPR, OP_PUSH, OP_POP, OP_CALL,
    OP_RET, OP_TX, OP_RX, OP_HLT};

verus! {

/// The tokens of one line, scanned from position `i` with the current
/// token starting at `start`, appended to `acc`. A space ends the
/// current token (empty tokens are dropped); a `#` abandons the rest
/// of the line, losing any token segment built since `start`; the end
/// of the line flushes the segment.
pub open spec fn line_tokens_from(s: Seq<char>, i: int, start: int, acc: Seq<Seq<char>>) -> Seq<
    Seq<char>,
>
    decreases s.len() - i,
{
    if i < 0 || i >= s.len() {
        if start < s.len() {
            acc.push(s.subrange(start, s.len() as int))
        } else {
            acc
        }
    } else if s[i] == '#' {
        acc
    } else if s[i] == ' ' {
        let acc2 = if start < i {
            acc.push(s.subrange(start, i))
        } else {
            acc
        };
        line_tokens_from(s, i + 1, i + 1, acc2)
    } else {
        line_tokens_from(s, i + 1, start, acc)
    }
}

/// The tokens of one source line.
pub open spec fn line_tokens(s: Seq<char>) -> Seq<Seq<char>> {
    line_tokens_from(s, 0, 0, Seq::empty())
}

/// The tokens of a sequence of source lines, in order.
pub open spec fn tokens_of(lines: Seq<Seq<char>>) -> Seq<Seq<char>>
    decreases lines.len(),
{
    if lines.len() == 0 {
        Seq::empty()
    } else {
        tokens_of(lines.drop_last()) + line_tokens(lines.last())
    }
}

/// The views of a list of token strings.
pub open spec fn strs_view(ts: Seq<String>) -> Seq<Seq<char>> {
    ts.map_values(|t: String| t@)
}

/// Scanning from any accumulator appends exactly the tokens that
/// scanning from an empty one yields.
proof fn lemma_line_tokens_acc(s: Seq<char>, i: int, start: int, acc: Seq<Seq<char>>)
    ensures
        line_tokens_from(s, i, start, acc) =~= acc + line_tokens_from(s, i, start, Seq::empty()),
    decreases s.len() - i,
{
    if i < 0 || i >= s.len() {
        if start < s.len() {
            assert(acc.push(s.subrange(start, s.len() as int)) =~= acc + Seq::empty().push(
                s.subrange(start, s.len() as int),
            ));
        } else {
            assert(acc =~= acc + Seq::<Seq<char>>::empty());
        }
    } else if s[i] == '#' {
        assert(acc =~= acc + Seq::<Seq<char>>::empty());
    } else if s[i] == ' ' {
        if start < i {
            let tok = s.subrange(start, i);
            lemma_line_tokens_acc(s, i + 1, i + 1, acc.push(tok));
            lemma_line_tokens_acc(s, i + 1, i + 1, Seq::empty().push(tok));
            assert(acc.push(tok) + line_tokens_from(s, i + 1, i + 1, Seq::empty()) =~= acc + (
            Seq::empty().push(tok) + line_tokens_from(s, i + 1, i + 1, Seq::empty())));
        } else {
            lemma_line_tokens_acc(s, i + 1, i + 1, acc);
        }
    } else {
        lemma_line_tokens_acc(s, i + 1, start, acc);
    }
}

/// Whether every token in a list is nonempty.
pub open spec fn all_nonempty(ts: Seq<Seq<char>>) -> bool {
    forall|k: int| 0 <= k < ts.len() ==> (#[trigger] ts[k]).len() > 0
}

/// Every token a line scan yields on top of nonempty tokens is nonempty.
proof fn lemma_line_tokens_nonempty(s: Seq<char>, i: int, start: int, acc: Seq<Seq<char>>)
    requires
        0 <= start <= i <= s.len(),
        all_nonempty(acc),
    ensures
        all_nonempty(line_tokens_from(s, i, start, acc)),
    decreases s.len() - i,
{
    if i >= s.len() {
        if start < s.len() {
            let tok = s.subrange(start, s.len() as int);
            assert forall|k: int| 0 <= k < acc.push(tok).len() implies (#[trigger] acc.push(
                tok,
            )[k]).len() > 0 by {
                if k < acc.len() {
                    assert(acc[k].len() > 0);
                }
            }
        }
    } else if s[i] == '#' {
    } else if s[i] == ' ' {
        if start < i {
            let tok = s.subrange(start, i);
            assert forall|k: int| 0 <= k < acc.push(tok).len() implies (#[trigger] acc.push(
                tok,
            )[k]).len() > 0 by {
                if k < acc.len() {
                    assert(acc[k].len() > 0);
                }
            }
            lemma_line_tokens_nonempty(s, i + 1, i + 1, acc.push(tok));
        } else {
            lemma_line_tokens_nonempty(s, i + 1, i + 1, acc);
        }
    } else {
        lemma_line_tokens_nonempty(s, i + 1, start, acc);
    }
}

/// Every token the tokenizer yields is a nonempty string.
pub proof fn lemma_tokens_of_nonempty(lines: Seq<Seq<char>>)
    ensures
        all_nonempty(tokens_of(lines)),
    decreases lines.len(),
{
    if lines.len() > 0 {
        lemma_tokens_of_nonempty(lines.drop_last());
        lemma_line_tokens_nonempty(lines.last(), 0, 0, Seq::empty());
        let a = tokens_of(lines.drop_last());
        let b = line_tokens(lines.last());
        assert forall|k: int| 0 <= k < (a + b).len() implies (#[trigger] (a + b)[k]).len() > 0 by {
            if k < a.len() {
                assert(a[k].len() > 0);
            } else {
                assert(b[k - a.len()].len() > 0);
            }
        }
    }
}

/// Splits source lines into the whitespace-delimited tokens the
/// assembler consumes: spaces separate tokens, `#` abandons the rest
/// of its line (losing any token segment built before it), and no
/// token is ever empty.
pub fn tokenize(program: Vec<&str>) -> (r: Vec<String>)
    ensures
        strs_view(r@) == tokens_of(program@.map_values(|l: &str| l@)),
{
    let ghost lines = program@.map_values(|l: &str| l@);
    let mut tokens: Vec<String> = Vec::new();
    let n = program.len();
    let mut j: usize = 0;
    while j < n
        invariant
            j <= n == program.len(),
            lines == program@.map_values(|l: &str| l@),
            strs_view(tokens@) == tokens_of(lines.take(j as int)),
        decreases n - j,
    {
        let ghost base = strs_view(tokens@);
        let line: &str = program[j];
        proof {
            assert(line@ == lines[j as int]);
        }
        let linelen = line.unicode_len();
        let mut start: usize = 0;
        let mut i: usize = 0;
        let mut commented = false;
        while i < linelen && !commented
            invariant
                0 <= start as int <= i as int <= linelen == line@.len(),
                commented ==> line_tokens_from(line@, 0, 0, base) == strs_view(tokens@),
                !commented ==> line_tokens_from(line@, i as int, start as int, strs_view(tokens@))
                    == line_tokens_from(line@, 0, 0, base),
            decreases linelen - i + (if commented { 0int } else { 1int }),
        {
            let c = line.get_char(i);
            if c == '#' {
                commented = true;
            } else if c == ' ' {
                if start < i {
                    let tok = line.substring_char(start, i).to_owned();
                    proof {
                        assert(strs_view(tokens@.push(tok)) =~= strs_view(tokens@).push(
                            line@.subrange(start as int, i as int),
                        ));
                    }
                    tokens.push(tok);
                }
                i += 1;
                start = i;
            } else {
                i += 1;
            }
        }
        if !commented {
            if start < linelen {
                let tok = line.substring_char(start, linelen).to_owned();
                proof {
                    assert(strs_view(tokens@.push(tok)) =~= strs_view(tokens@).push(
                        line@.subrange(start as int, linelen as int),
                    ));
                }
                tokens.push(tok);
            }
        }
        proof {
            assert(line_tokens_from(line@, 0, 0, base) == strs_view(tokens@));
            assert(lines.take(j + 1).drop_last() =~= lines.take(j as int));
            assert(lines.take(j + 1).last() == line@);
            lemma_line_tokens_acc(line@, 0, 0, base);
            assert(line_tokens(line@) == line_tokens_from(line@, 0, 0, Seq::empty()));
            assert(strs_view(tokens@) =~= tokens_of(lines.take(j + 1)));
        }
        j += 1;
    }
    proof {
        assert(lines.take(n as int) =~= lines);
    }
    tokens
}

/// A fatal assembly error: no byte buffer is produced.
#[derive(Clone, Copy, Debug, PartialEq, Eq, Structural)]
pub enum AsmError {
    /// A register token's numeral would not parse as a byte-sized index.
    MalformedRegister,
    /// A call named a function that no declaration had recorded.
    UndeclaredFunction,
}

/// Assembler state while tokens are consumed: the bytecode emitted so
/// far and the function table recorded so far.
#[verifier::ext_equal]
pub ghost struct AsmSt {
    pub code: Seq<u8>,
    pub funcs: Seq<(Seq<char>, u64)>,
}

/// Looks a function name up in the table; the most recent record of
/// the name wins.
pub open spec fn tbl_lookup(funcs: Seq<(Seq<char>, u64)>, name: Seq<char>) -> Option<u64>
    decreases funcs.len(),
{
    if funcs.len() == 0 {
        None
    } else if funcs.last().0 == name {
        Some(funcs.last().1)
    } else {
        tbl_lookup(funcs.drop_last(), name)
    }
}

/// The opcode a lowercased token names, if it is a plain mnemonic.
pub open spec fn mnemonic_opcode(lt: Seq<char>) -> Option<u8> {
    if lt == "nop"@ {
        Some(OP_NOP)
    } else if lt == "set"@ {
        Some(OP_SET)
    } else if lt == "add"@ {
        Some(OP_ADD)
    } else if lt == "sub"@ {
        Some(OP_SUB)
    } else if lt == "ld"@ {
        Some(OP_LD)
    } else if lt == "sto"@ {
        Some(OP_STO)
    } else if lt == "ldr"@ {
        Some(OP_LDR)
    } else if lt == "str"@ {
        Some(OP_STR)
    } else if lt == "lsl"@ {
        Some(OP_LSL)
    } else if lt == "lsr"@ {
        Some(OP_LSR)
    } else if lt == "jmp"@ {
        Some(OP_JMP)
    } else if lt == "jlt"@ {
        Some(OP_JLT)
    } else if lt == "jle"@ {
        Some(OP_JLE)
    } else if lt == "jgt"@ {
        Some(OP_JGT)
    } else if lt == "jge"@ {
        Some(OP_JGE)
    } else if lt == "jeq"@ {
        Some(OP_JEQ)
    } else if lt == "jne"@ {
        Some(OP_JNE)
    } else if lt == "jpr"@ {
        Some(OP_JPR)
    } else if lt == "push"@ {
        Some(OP_PUSH)
    } else if lt == "pop"@ {
        Some(OP_POP)
    } else if lt == "return"@ {
        Some(OP_RET)
    } else if lt == "tx"@ {
        Some(OP_TX)
    } else if lt == "rx"@ {
        Some(OP_RX)
    } else if lt == "halt"@ {
        Some(OP_HLT)
    } else {
        None
    }
}

/// One token's effect on the assembler state. `lt` is the lowercased
/// token, `lp` the lowercased peek token (empty when the token is the
/// last). A plain mnemonic emits its opcode; `start` overwrites the
/// 9-byte entry slot with a jump to the current buffer length; `name`
/// records the peek token at the current buffer length; `call` emits
/// the call opcode and the named function's recorded address; an
/// `r`-sigil token emits its index as one byte; a `.`-sigil token
/// emits nothing; anything else is tried as an unsigned 64-bit decimal
/// literal and silently skipped if it does not parse.
pub open spec fn asm_step(st: AsmSt, lt: Seq<char>, lp: Seq<char>) -> Result<AsmSt, AsmError> {
    if mnemonic_opcode(lt) is Some {
        Ok(AsmSt { code: st.code.push(mnemonic_opcode(lt)->Some_0), ..st })
    } else if lt == "start"@ {
        Ok(AsmSt { code: seq![OP_JMP] + be_bytes(st.code.len(), 8) + st.code.skip(9), ..st })
    } else if lt == "name"@ {
        Ok(AsmSt { funcs: st.funcs.push((lp, st.code.len() as u64)), ..st })
    } else if lt == "call"@ {
        match tbl_lookup(st.funcs, lp) {
            Some(a) => Ok(AsmSt { code: st.code.push(OP_CALL) + be_bytes(a as nat, 8), ..st }),
            None => Err(AsmError::UndeclaredFunction),
        }
    } else if lt.len() > 0 && lt[0] == 'r' {
        match spec_parse_u64(lt.skip(1)) {
            Some(v) => if v <= 255 {
                Ok(AsmSt { code: st.code.push(v as u8), ..st })
            } else {
                Err(AsmError::MalformedRegister)
            },
            None => Err(AsmError::MalformedRegister),
        }
    } else if lt.len() > 0 && lt[0] == '.' {
        Ok(st)
    } else {
        match spec_parse_u64(lt) {
            Some(v) => Ok(AsmSt { code: st.code + be_bytes(v as nat, 8), ..st }),
            None => Ok(st),
        }
    }
}

/// Folds `asm_step` over the lowercased tokens from position `i` on.
pub open spec fn asm_from(lts: Seq<Seq<char>>, i: int, st: AsmSt) -> Result<AsmSt, AsmError>
    decreases lts.len() - i,
{
    if i < 0 || i >= lts.len() {
        Ok(st)
    } else {
        let lp = if i + 1 < lts.len() {
            lts[i + 1]
        } else {
            Seq::empty()
        };
        match asm_step(st, lts[i], lp) {
            Ok(st2) => asm_from(lts, i + 1, st2),
            Err(e) => Err(e),
        }
    }
}

/// Each token with its ASCII uppercase letters lowercased.
pub open spec fn lowered(tokens: Seq<Seq<char>>) -> Seq<Seq<char>> {
    tokens.map_values(|t: Seq<char>| lower_seq(t))
}

/// The assembler state before any token: a 9-byte zeroed entry slot
/// and an empty function table.
pub open spec fn asm_init() -> AsmSt {
    AsmSt { code: Seq::new(9, |i: int| 0u8), funcs: Seq::empty() }
}

/// What assembling a token sequence yields: the fold of `asm_step`
/// over the lowercased tokens, with one halt opcode appended, or the
/// first fatal error.
pub open spec fn spec_assemble(tokens: Seq<Seq<char>>) -> Result<Seq<u8>, AsmError> {
    match asm_from(lowered(tokens), 0, asm_init()) {
        Ok(st) => Ok(st.code.push(OP_HLT)),
        Err(e) => Err(e),
    }
}

/// An assembly result seen at the level of byte sequences.
pub open spec fn res_view(r: Result<Vec<u8>, AsmError>) -> Result<Seq<u8>, AsmError> {
    match r {
        Ok(v) => Ok(v@),
        Err(e) => Err(e),
    }
}

/// The views of the entries of an executable function table.
pub open spec fn funcs_view(fs: Seq<(Vec<char>, u64)>) -> Seq<(Seq<char>, u64)> {
    fs.map_values(|e: (Vec<char>, u64)| (e.0@, e.1))
}

/// Tokens other than `start` only ever append bytes: the 9-byte entry
/// slot is never touched again.
proof fn lemma_asm_preserves_entry(lts: Seq<Seq<char>>, i: int, st: AsmSt)
    requires
        st.code.len() >= 9,
        forall|j: int| i <= j < lts.len() ==> #[trigger] lts[j] != "start"@,
    ensures
        asm_from(lts, i, st) matches Ok(st2) ==> st2.code.len() >= 9 && st2.code.subrange(0, 9)
            == st.code.subrange(0, 9),
    decreases lts.len() - i,
{
    if 0 <= i < lts.len() {
        let lp = if i + 1 < lts.len() {
            lts[i + 1]
        } else {
            Seq::empty()
        };
        assert(lts[i] != "start"@);
        match asm_step(st, lts[i], lp) {
            Ok(stx) => {
                assert(stx.code.len() >= 9 && stx.code.subrange(0, 9) =~= st.code.subrange(0, 9));
                lemma_asm_preserves_entry(lts, i + 1, stx);
            },
            Err(e) => {},
        }
    }
}

/// A program with no entry directive keeps its 9-byte entry slot
/// zeroed: it decodes as 9 consecutive no-op instructions.
pub proof fn lemma_no_start_zero_entry(tokens: Seq<Seq<char>>)
    requires
        forall|j: int| 0 <= j < tokens.len() ==> lower_seq(#[trigger] tokens[j]) != "start"@,
    ensures
        spec_assemble(tokens) matches Ok(code) ==> code.len() >= 9 && code.subrange(0, 9)
            == Seq::new(9, |x: int| 0u8),
{
    let big = lowered(tokens);
    assert(forall|j: int| 0 <= j < big.len() ==> #[trigger] big[j] != "start"@);
    lemma_asm_preserves_entry(big, 0, asm_init());
    match asm_from(big, 0, asm_init()) {
        Ok(st2) => {
            assert(asm_init().code.subrange(0, 9) =~= Seq::new(9, |x: int| 0u8));
            assert(st2.code.push(OP_HLT).subrange(0, 9) =~= st2.code.subrange(0, 9));
        },
        Err(e) => {},
    }
}

/// An entry directive at buffer length `k` — with none after it —
/// leaves the entry slot holding one unconditional jump to `k`: the
/// jump opcode followed by `k` as an 8-byte big-endian literal.
pub proof fn lemma_start_patches_entry(lts: Seq<Seq<char>>, i: int, st: AsmSt)
    requires
        0 <= i < lts.len(),
        lts[i] == "start"@,
        forall|j: int| i < j < lts.len() ==> #[trigger] lts[j] != "start"@,
        st.code.len() >= 9,
    ensures
        asm_from(lts, i, st) matches Ok(st2) ==> st2.code.len() >= 9 && st2.code.subrange(0, 9)
            == seq![OP_JMP] + be_bytes(st.code.len(), 8),
{
    let lp = if i + 1 < lts.len() {
        lts[i + 1]
    } else {
        Seq::empty()
    };
    broadcast use vstd::string::group_string_axioms;

    reveal_strlit("start");
    reveal_strlit("nop");
    reveal_strlit("set");
    reveal_strlit("add");
    reveal_strlit("sub");
    reveal_strlit("ld");
    reveal_strlit("sto");
    reveal_strlit("ldr");
    reveal_strlit("str");
    reveal_strlit("lsl");
    reveal_strlit("lsr");
    reveal_strlit("jmp");
    reveal_strlit("jlt");
    reveal_strlit("jle");
    reveal_strlit("jgt");
    reveal_strlit("jge");
    reveal_strlit("jeq");
    reveal_strlit("jne");
    reveal_strlit("jpr");
    reveal_strlit("push");
    reveal_strlit("pop");
    reveal_strlit("return");
    reveal_strlit("tx");
    reveal_strlit("rx");
    reveal_strlit("halt");
    assert("start"@.len() == 5);
    assert(mnemonic_opcode(lts[i]) is None);
    let patched = AsmSt { code: seq![OP_JMP] + be_bytes(st.code.len(), 8) + st.code.skip(9), ..st };
    assert(asm_step(st, lts[i], lp) == Ok::<AsmSt, AsmError>(patched));
    crate::bytes::lemma_be_bytes_len(st.code.len(), 8);
    assert(patched.code.len() >= 9);
    assert(patched.code.subrange(0, 9) =~= seq![OP_JMP] + be_bytes(st.code.len(), 8));
    lemma_asm_preserves_entry(lts, i + 1, patched);
}

/// Looks a name up in the function table, most recent record first.
fn tbl_find(funcs: &Vec<(Vec<char>, u64)>, name: &Vec<char>) -> (r: Option<u64>)
    ensures
        r == tbl_lookup(funcs_view(funcs@), name@),
{
    let ghost fv = funcs_view(funcs@);
    let mut j = funcs.len();
    proof {
        assert(fv.take(funcs@.len() as int) =~= fv);
    }
    while j > 0
        invariant
            j <= funcs.len(),
            fv == funcs_view(funcs@),
            tbl_lookup(fv, name@) == tbl_lookup(fv.take(j as int), name@),
        decreases j,
    {
        j -= 1;
        proof {
            assert(fv.take(j + 1).last() == fv[j as int]);
            assert(fv.take(j + 1).drop_last() =~= fv.take(j as int));
        }
        if chars_eq(&funcs[j].0, name) {
            return Some(funcs[j].1);
        }
    }
    None
}

/// Assembles source lines into a program image: tokenizes, emits each
/// token's bytes, resolves calls against declared function names, and
/// appends a final halt opcode so every program terminates. A
/// malformed register operand or a call to an undeclared function is a
/// fatal error, and no byte buffer is produced.
pub fn assemble(program: Vec<&str>) -> (r: Result<Vec<u8>, AsmError>)
    ensures
        res_view(r) == spec_assemble(tokens_of(program@.map_values(|l: &str| l@))),
{
    let ghost lines = program@.map_values(|l: &str| l@);
    let tokens = tokenize(program);
    let ghost toks = strs_view(tokens@);
    proof {
        lemma_tokens_of_nonempty(lines);
        assert(lines =~= program@.map_values(|l: &str| l@));
        assert(toks == tokens_of(lines));
    }
    let nt = tokens.len();
    let mut lts: Vec<Vec<char>> = Vec::new();
    let mut k: usize = 0;
    while k < nt
        invariant
            k <= nt == tokens@.len(),
            toks == strs_view(tokens@),
            lts@.len() == k,
            forall|x: int| 0 <= x < k ==> (#[trigger] lts@[x])@ == lower_seq(toks[x]),
        decreases nt - k,
    {
        let lt = lower_token(tokens[k].as_str());
        lts.push(lt);
        k += 1;
    }
    let ghost big = lowered(toks);
    proof {
        assert(big.len() == nt);
        assert(forall|x: int| 0 <= x < nt ==> (#[trigger] lts@[x])@ == big[x]);
        assert(forall|x: int|
            0 <= x < nt ==> (#[trigger] big[x]).len() == toks[x].len());
    }
    let mut bytecode: Vec<u8> = vec![0u8; 9];
    proof {
        assert(bytecode@ =~= asm_init().code);
    }
    let mut funcs: Vec<(Vec<char>, u64)> = Vec::new();
    proof {
        assert(funcs_view(funcs@) =~= Seq::<(Seq<char>, u64)>::empty());
        assert(AsmSt { code: bytecode@, funcs: funcs_view(funcs@) } =~= asm_init());
    }
    let mut i: usize = 0;
    while i < nt
        invariant
            i <= nt == lts@.len() == toks.len(),
            toks == tokens_of(program@.map_values(|l: &str| l@)),
            big == lowered(toks),
            forall|x: int| 0 <= x < nt ==> (#[trigger] lts@[x])@ == big[x],
            forall|x: int| 0 <= x < nt ==> (#[trigger] big[x]).len() == toks[x].len(),
            all_nonempty(toks),
            bytecode@.len() >= 9,
            asm_from(big, 0, asm_init()) == asm_from(
                big,
                i as int,
                AsmSt { code: bytecode@, funcs: funcs_view(funcs@) },
            ),
        decreases nt - i,
    {
        let ghost cur = AsmSt { code: bytecode@, funcs: funcs_view(funcs@) };
        let ghost lt_g = big[i as int];
        let ghost lp_g = if i + 1 < nt {
            big[i + 1]
        } else {
            Seq::<char>::empty()
        };
        proof {
            assert(toks[i as int].len() > 0);
            assert(lt_g.len() > 0);
        }
        let t = &lts[i];
        proof {
            assert(t@ == lt_g);
        }
        if chars_eq_str(t, "nop") {
            bytecode.push(OP_NOP);
        } else if chars_eq_str(t, "set") {
            bytecode.push(OP_SET);
        } else if chars_eq_str(t, "add") {
            bytecode.push(OP_ADD);
        } else if chars_eq_str(t, "sub") {
            bytecode.push(OP_SUB);
        } else if chars_eq_str(t, "ld") {
            bytecode.push(OP_LD);
        } else if chars_eq_str(t, "sto") {
            bytecode.push(OP_STO);
        } else if chars_eq_str(t, "ldr") {
            bytecode.push(OP_LDR);
        } else if chars_eq_str(t, "str") {
            bytecode.push(OP_STR);
        } else if chars_eq_str(t, "lsl") {
            bytecode.push(OP_LSL);
        } else if chars_eq_str(t, "lsr") {
            bytecode.push(OP_LSR);
        } else if chars_eq_str(t, "jmp") {
            bytecode.push(OP_JMP);
        } else if chars_eq_str(t, "jlt") {
            bytecode.push(OP_JLT);
        } else if chars_eq_str(t, "jle") {
            bytecode.push(OP_JLE);
        } else if chars_eq_str(t, "jgt") {
            bytecode.push(OP_JGT);
        } else if chars_eq_str(t, "jge") {
            bytecode.push(OP_JGE);
        } else if chars_eq_str(t, "jeq") {
            bytecode.push(OP_JEQ);
        } else if chars_eq_str(t, "jne") {
            bytecode.push(OP_JNE);
        } else if chars_eq_str(t, "jpr") {
            bytecode.push(OP_JPR);
        } else if chars_eq_str(t, "push") {
            bytecode.push(OP_PUSH);
        } else if chars_eq_str(t, "pop") {
            bytecode.push(OP_POP);
        } else if chars_eq_str(t, "return") {
            bytecode.push(OP_RET);
        } else if chars_eq_str(t, "tx") {
            bytecode.push(OP_TX);
        } else if chars_eq_str(t, "rx") {
            bytecode.push(OP_RX);
        } else if chars_eq_str(t, "halt") {
            bytecode.push(OP_HLT);
        } else if chars_eq_str(t, "start") {
            let ghost code0 = bytecode@;
            let target: u64 = bytecode.len() as u64;
            let patch = reverse_bytes(target);
            let ghost expected = seq![OP_JMP] + be_bytes(target as nat, 8) + code0.skip(9);
            bytecode.set(0, OP_JMP);
            proof {
                assert(bytecode@ =~= expected.take(1) + code0.skip(1));
            }
            let mut w: usize = 0;
            while w < 8
                invariant
                    w <= 8,
                    patch@ == be_bytes(target as nat, 8),
                    patch@.len() == 8,
                    code0.len() >= 9,
                    bytecode@.len() == code0.len(),
                    expected == seq![OP_JMP] + be_bytes(target as nat, 8) + code0.skip(9),
                    expected.len() == code0.len(),
                    bytecode@ =~= expected.take(w + 1) + code0.skip(w + 1),
                decreases 8 - w,
            {
                bytecode.set(w + 1, patch[w]);
                proof {
                    let l = bytecode@;
                    let r2 = expected.take(w + 2) + code0.skip(w + 2);
                    assert(expected[w + 1] == patch@[w as int]);
                    assert forall|x: int| 0 <= x < l.len() implies l[x] == r2[x] by {
                        if x < w + 1 {
                        } else if x == w + 1 {
                        } else {
                        }
                    }
                    assert(l =~= r2);
                }
                w += 1;
            }
            proof {
                assert(expected.take(9) + code0.skip(9) =~= expected);
                assert(bytecode@ == expected);
            }
        } else if chars_eq_str(t, "name") {
            let entry_name: Vec<char> = if i + 1 < nt {
                clone_chars(&lts[i + 1])
            } else {
                Vec::new()
            };
            let here: u64 = bytecode.len() as u64;
            funcs.push((entry_name, here));
            proof {
                assert(funcs_view(funcs@) =~= cur.funcs.push((lp_g, cur.code.len() as u64)));
            }
        } else if chars_eq_str(t, "call") {
            bytecode.push(OP_CALL);
            let found: Option<u64> = if i + 1 < nt {
                tbl_find(&funcs, &lts[i + 1])
            } else {
                let empty_name: Vec<char> = Vec::new();
                proof {
                    assert(empty_name@ =~= Seq::<char>::empty());
                }
                tbl_find(&funcs, &empty_name)
            };
            match found {
                Some(a) => {
                    let mut ab = reverse_bytes(a);
                    bytecode.append(&mut ab);
                },
                None => {
                    proof {
                        assert(asm_step(cur, lt_g, lp_g) == Err::<AsmSt, AsmError>(
                            AsmError::UndeclaredFunction,
                        ));
                        assert(asm_from(big, i as int, cur) == Err::<AsmSt, AsmError>(
                            AsmError::UndeclaredFunction,
                        ));
                    }
                    return Err(AsmError::UndeclaredFunction);
                },
            }
        } else if t[0] == 'r' {
            match parse_u64_chars(t, 1) {
                Some(v) => {
                    if v <= 255 {
                        bytecode.push(v as u8);
                    } else {
                        proof {
                            assert(asm_from(big, i as int, cur) == Err::<AsmSt, AsmError>(
                                AsmError::MalformedRegister,
                            ));
                        }
                        return Err(AsmError::MalformedRegister);
                    }
                },
                None => {
                    proof {
                        assert(asm_from(big, i as int, cur) == Err::<AsmSt, AsmError>(
                            AsmError::MalformedRegister,
                        ));
                    }
                    return Err(AsmError::MalformedRegister);
                },
            }
        } else if t[0] == '.' {
        } else {
            proof {
                assert(t@.skip(0) =~= t@);
            }
            match parse_u64_chars(t, 0) {
                Some(v) => {
                    let mut vb = reverse_bytes(v);
                    bytecode.append(&mut vb);
                },
                None => {},
            }
        }
        proof {
            let cur2 = AsmSt { code: bytecode@, funcs: funcs_view(funcs@) };
            assert(asm_step(cur, lt_g, lp_g) == Ok::<AsmSt, AsmError>(cur2));
        }
        i += 1;
    }
    proof {
        assert(asm_from(big, nt as int, AsmSt { code: bytecode@, funcs: funcs_view(funcs@) })
            == Ok::<AsmSt, AsmError>(AsmSt { code: bytecode@, funcs: funcs_view(funcs@) }));
    }
    bytecode.push(OP_HLT);
    Ok(bytecode)
}

} // verus!
