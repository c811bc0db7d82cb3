use vstd::prelude::*;
use vstd::string::StringSliceAdditionalSpecFns;

use crate::structs::{
    byte_opcode, instr_view, lemma_byte_opcode_round_trip, lemma_opcode_byte_round_trip, opcode_byte, Instruction,
    Opcode,
};

verus! {

/// The mnemonic of an opcode, as ASCII bytes.
pub open spec fn mnemonic(op: Opcode) -> Seq<u8> {
    match op {
        Opcode::ADD => seq![65u8, 68u8, 68u8],
        Opcode::SUB => seq![83u8, 85u8, 66u8],
        Opcode::MUL => seq![77u8, 85u8, 76u8],
        Opcode::DIV => seq![68u8, 73u8, 86u8],
        Opcode::MOD => seq![77u8, 79u8, 68u8],
        Opcode::INC => seq![73u8, 78u8, 67u8],
        Opcode::DEC => seq![68u8, 69u8, 67u8],
        Opcode::AND => seq![65u8, 78u8, 68u8],
        Opcode::OR => seq![79u8, 82u8],
        Opcode::XOR => seq![88u8, 79u8, 82u8],
        Opcode::NOT => seq![78u8, 79u8, 84u8],
        Opcode::SHL => seq![83u8, 72u8, 76u8],
        Opcode::SHR => seq![83u8, 72u8, 82u8],
        Opcode::EQ => seq![69u8, 81u8],
        Opcode::NEQ => seq![78u8, 69u8, 81u8],
        Opcode::LT => seq![76u8, 84u8],
        Opcode::GT => seq![71u8, 84u8],
        Opcode::LTE => seq![76u8, 84u8, 69u8],
        Opcode::GTE => seq![71u8, 84u8, 69u8],
        Opcode::PUSH => seq![80u8, 85u8, 83u8, 72u8],
        Opcode::POP => seq![80u8, 79u8, 80u8],
        Opcode::DUP => seq![68u8, 85u8, 80u8],
        Opcode::SWAP => seq![83u8, 87u8, 65u8, 80u8],
        Opcode::JMP => seq![74u8, 77u8, 80u8],
        Opcode::JMPT => seq![74u8, 77u8, 80u8, 84u8],
        Opcode::JMPF => seq![74u8, 77u8, 80u8, 70u8],
        Opcode::JZ => seq![74u8, 90u8],
        Opcode::CALL => seq![67u8, 65u8, 76u8, 76u8],
        Opcode::RET => seq![82u8, 69u8, 84u8],
        Opcode::LOAD => seq![76u8, 79u8, 65u8, 68u8],
        Opcode::STORE => seq![83u8, 84u8, 79u8, 82u8, 69u8],
        Opcode::MOV => seq![77u8, 79u8, 86u8],
        Opcode::IN => seq![73u8, 78u8],
        Opcode::OUT => seq![79u8, 85u8, 84u8],
        Opcode::LAB => seq![76u8, 65u8, 66u8],
        Opcode::SYS => seq![83u8, 89u8, 83u8],
        Opcode::NOP => seq![78u8, 79u8, 80u8],
        Opcode::HALT => seq![72u8, 65u8, 76u8, 84u8],
    }
}

/// No two opcodes share a mnemonic.
pub proof fn lemma_mnemonic_injective(a: Opcode, b: Opcode)
    ensures
        mnemonic(a) == mnemonic(b) ==> a == b,
{
    if mnemonic(a) == mnemonic(b) {
        let s = mnemonic(a);
        assert(s.len() == mnemonic(b).len());
        assert(s[0] == mnemonic(b)[0]);
        assert(s.len() > 1 ==> s[1] == mnemonic(b)[1]);
        assert(s.len() > 2 ==> s[2] == mnemonic(b)[2]);
        assert(s.len() > 3 ==> s[3] == mnemonic(b)[3]);
        assert(s.len() > 4 ==> s[4] == mnemonic(b)[4]);
    }
}

/// What can be wrong with a line of assembly text; lines count from 1.
#[derive(Debug, Clone, Copy, PartialEq, Eq, Structural)]
pub enum AsmError {
    UnknownMnemonic { line: usize },
    BadOperand { line: usize },
    TooManyOperands { line: usize },
}

/// The opcode whose mnemonic is `name`, if any.
pub open spec fn mnemonic_opcode(name: Seq<u8>) -> Option<Opcode> {
    if exists|op: Opcode| mnemonic(op) == name {
        Some(choose|op: Opcode| mnemonic(op) == name)
    } else {
        None
    }
}

/// Space, tab, vertical tab, form feed and carriage return separate tokens.
pub open spec fn is_space(b: u8) -> bool {
    b == 32 || b == 9 || b == 11 || b == 12 || b == 13
}

pub open spec fn is_digit(b: u8) -> bool {
    48 <= b <= 57
}

/// Reading `s` left to right: the tokens finished so far and the token
/// being read.
pub open spec fn split_tokens(s: Seq<u8>) -> (Seq<Seq<u8>>, Seq<u8>)
    decreases s.len(),
{
    if s.len() == 0 {
        (seq![], seq![])
    } else {
        let prev = split_tokens(s.drop_last());
        if is_space(s.last()) {
            if prev.1.len() > 0 {
                (prev.0.push(prev.1), seq![])
            } else {
                prev
            }
        } else {
            (prev.0, prev.1.push(s.last()))
        }
    }
}

/// The maximal runs of non-space bytes of `s`.
pub open spec fn tokens(s: Seq<u8>) -> Seq<Seq<u8>> {
    let p = split_tokens(s);
    if p.1.len() > 0 {
        p.0.push(p.1)
    } else {
        p.0
    }
}

/// Reading `s` left to right: the lines finished by a newline so far and
/// the line being read.
pub open spec fn split_lines(s: Seq<u8>) -> (Seq<Seq<u8>>, Seq<u8>)
    decreases s.len(),
{
    if s.len() == 0 {
        (seq![], seq![])
    } else {
        let prev = split_lines(s.drop_last());
        if s.last() == 10 {
            (prev.0.push(prev.1), seq![])
        } else {
            (prev.0, prev.1.push(s.last()))
        }
    }
}

/// The lines of `s`; a last line without a newline counts when it is not empty.
pub open spec fn lines(s: Seq<u8>) -> Seq<Seq<u8>> {
    let p = split_lines(s);
    if p.1.len() > 0 {
        p.0.push(p.1)
    } else {
        p.0
    }
}

/// The value of a run of decimal digits.
pub open spec fn digits_value(s: Seq<u8>) -> nat
    decreases s.len(),
{
    if s.len() == 0 {
        0
    } else {
        digits_value(s.drop_last()) * 10 + (s.last() - 48) as nat
    }
}

/// A byte written in decimal: one or more digits, with a value below 256.
pub open spec fn parse_byte_spec(s: Seq<u8>) -> Option<u8> {
    if s.len() > 0 && (forall|k: int| 0 <= k < s.len() ==> is_digit(#[trigger] s[k]))
        && digits_value(s) <= 255 {
        Some(digits_value(s) as u8)
    } else {
        None
    }
}

/// Operand `k` (1 to 3) of a line's tokens; a missing operand is zero.
pub open spec fn operand_at(toks: Seq<Seq<u8>>, k: int) -> Option<u8> {
    if k < toks.len() {
        parse_byte_spec(toks[k])
    } else {
        Some(0u8)
    }
}

/// The instruction that the tokens of line `line` spell: a mnemonic and at
/// most three decimal operands.
pub open spec fn parse_tokens(toks: Seq<Seq<u8>>, line: int) -> Result<(Opcode, Seq<u8>), AsmError> {
    match mnemonic_opcode(toks[0]) {
        None => Err(AsmError::UnknownMnemonic { line: line as usize }),
        Some(op) => if toks.len() > 4 {
            Err(AsmError::TooManyOperands { line: line as usize })
        } else if operand_at(toks, 1) is None || operand_at(toks, 2) is None || operand_at(
            toks,
            3,
        ) is None {
            Err(AsmError::BadOperand { line: line as usize })
        } else {
            Ok(
                (
                    op,
                    seq![
                        operand_at(toks, 1)->Some_0,
                        operand_at(toks, 2)->Some_0,
                        operand_at(toks, 3)->Some_0,
                    ],
                ),
            )
        },
    }
}

/// The instructions of a sequence of lines; blank lines are skipped and the
/// first bad line is the error.
pub open spec fn parse_lines(ls: Seq<Seq<u8>>) -> Result<Seq<(Opcode, Seq<u8>)>, AsmError>
    decreases ls.len(),
{
    if ls.len() == 0 {
        Ok(seq![])
    } else {
        match parse_lines(ls.drop_last()) {
            Err(e) => Err(e),
            Ok(v) => {
                let t = tokens(ls.last());
                if t.len() == 0 {
                    Ok(v)
                } else {
                    match parse_tokens(t, ls.len() as int) {
                        Ok(i) => Ok(v.push(i)),
                        Err(e) => Err(e),
                    }
                }
            },
        }
    }
}

/// The instructions of an assembly text.
pub open spec fn parse_text(s: Seq<u8>) -> Result<Seq<(Opcode, Seq<u8>)>, AsmError> {
    parse_lines(lines(s))
}

/// `n` in decimal without leading zeros.
pub open spec fn decimal(n: u8) -> Seq<u8> {
    if n < 10 {
        seq![(48 + n) as u8]
    } else if n < 100 {
        seq![(48 + n / 10) as u8, (48 + n % 10) as u8]
    } else {
        seq![(48 + n / 100) as u8, (48 + (n / 10) % 10) as u8, (48 + n % 10) as u8]
    }
}

/// The text line of an instruction: mnemonic and the three operands in
/// decimal, separated by single spaces.
pub open spec fn line_text(op: Opcode, operands: Seq<u8>) -> Seq<u8> {
    mnemonic(op) + seq![32u8] + decimal(operands[0]) + seq![32u8] + decimal(operands[1])
        + seq![32u8] + decimal(operands[2])
}

/// The text of a program: each instruction's line followed by a newline.
pub open spec fn program_text(instrs: Seq<(Opcode, Seq<u8>)>) -> Seq<u8>
    decreases instrs.len(),
{
    if instrs.len() == 0 {
        seq![]
    } else {
        program_text(instrs.drop_last()) + line_text(instrs.last().0, instrs.last().1) + seq![10u8]
    }
}

/// The characters of ASCII bytes.
pub open spec fn ascii_chars(s: Seq<u8>) -> Seq<char> {
    Seq::new(s.len(), |i: int| s[i] as char)
}

pub open spec fn all_ascii(s: Seq<u8>) -> bool {
    forall|k: int| 0 <= k < s.len() ==> #[trigger] s[k] < 128
}

/// Relies on `String::from_utf8`: bytes that are valid UTF-8 become the
/// string they encode, and an ASCII byte encodes the character of its code.
#[verifier::external_body]
fn ascii_to_string(bytes: Vec<u8>) -> (r: String)
    requires
        all_ascii(bytes@),
    ensures
        r@ == ascii_chars(bytes@),
{
    String::from_utf8(bytes).unwrap()
}

/// The mnemonic of `op`.
fn mnemonic_bytes(op: Opcode) -> (r: Vec<u8>)
    ensures
        r@ == mnemonic(op),
{
    let mut v: Vec<u8> = Vec::new();
    match op {
            Opcode::ADD => {
                v.push(65); v.push(68); v.push(68);
            },
            Opcode::SUB => {
                v.push(83); v.push(85); v.push(66);
            },
            Opcode::MUL => {
                v.push(77); v.push(85); v.push(76);
            },
            Opcode::DIV => {
                v.push(68); v.push(73); v.push(86);
            },
            Opcode::MOD => {
                v.push(77); v.push(79); v.push(68);
            },
            Opcode::INC => {
                v.push(73); v.push(78); v.push(67);
            },
            Opcode::DEC => {
                v.push(68); v.push(69); v.push(67);
            },
            Opcode::AND => {
                v.push(65); v.push(78); v.push(68);
            },
            Opcode::OR => {
                v.push(79); v.push(82);
            },
            Opcode::XOR => {
                v.push(88); v.push(79); v.push(82);
            },
            Opcode::NOT => {
                v.push(78); v.push(79); v.push(84);
            },
            Opcode::SHL => {
                v.push(83); v.push(72); v.push(76);
            },
            Opcode::SHR => {
                v.push(83); v.push(72); v.push(82);
            },
            Opcode::EQ => {
                v.push(69); v.push(81);
            },
            Opcode::NEQ => {
                v.push(78); v.push(69); v.push(81);
            },
            Opcode::LT => {
                v.push(76); v.push(84);
            },
            Opcode::GT => {
                v.push(71); v.push(84);
            },
            Opcode::LTE => {
                v.push(76); v.push(84); v.push(69);
            },
            Opcode::GTE => {
                v.push(71); v.push(84); v.push(69);
            },
            Opcode::PUSH => {
                v.push(80); v.push(85); v.push(83); v.push(72);
            },
            Opcode::POP => {
                v.push(80); v.push(79); v.push(80);
            },
            Opcode::DUP => {
                v.push(68); v.push(85); v.push(80);
            },
            Opcode::SWAP => {
                v.push(83); v.push(87); v.push(65); v.push(80);
            },
            Opcode::JMP => {
                v.push(74); v.push(77); v.push(80);
            },
            Opcode::JMPT => {
                v.push(74); v.push(77); v.push(80); v.push(84);
            },
            Opcode::JMPF => {
                v.push(74); v.push(77); v.push(80); v.push(70);
            },
            Opcode::JZ => {
                v.push(74); v.push(90);
            },
            Opcode::CALL => {
                v.push(67); v.push(65); v.push(76); v.push(76);
            },
            Opcode::RET => {
                v.push(82); v.push(69); v.push(84);
            },
            Opcode::LOAD => {
                v.push(76); v.push(79); v.push(65); v.push(68);
            },
            Opcode::STORE => {
                v.push(83); v.push(84); v.push(79); v.push(82); v.push(69);
            },
            Opcode::MOV => {
                v.push(77); v.push(79); v.push(86);
            },
            Opcode::IN => {
                v.push(73); v.push(78);
            },
            Opcode::OUT => {
                v.push(79); v.push(85); v.push(84);
            },
            Opcode::LAB => {
                v.push(76); v.push(65); v.push(66);
            },
            Opcode::SYS => {
                v.push(83); v.push(89); v.push(83);
            },
            Opcode::NOP => {
                v.push(78); v.push(79); v.push(80);
            },
            Opcode::HALT => {
                v.push(72); v.push(65); v.push(76); v.push(84);
            },
    }
    v
}

/// Whether `text[start..end]` holds exactly the bytes of `v`.
fn range_equals(text: &[u8], start: usize, end: usize, v: &Vec<u8>) -> (r: bool)
    requires
        start <= end <= text@.len(),
    ensures
        r == (text@.subrange(start as int, end as int) == v@),
{
    if end - start != v.len() {
        return false;
    }
    let mut k: usize = 0;
    while k < v.len()
        invariant
            start <= end <= text@.len(),
            end - start == v@.len(),
            k <= v@.len(),
            forall|j: int| 0 <= j < k ==> text@[start + j] == v@[j],
        decreases v@.len() - k,
    {
        if text[start + k] != v[k] {
            assert(text@.subrange(start as int, end as int)[k as int] != v@[k as int]);
            return false;
        }
        k = k + 1;
    }
    assert(text@.subrange(start as int, end as int) =~= v@);
    true
}

/// The opcode whose mnemonic is `text[start..end]`.
fn lookup_mnemonic(text: &[u8], start: usize, end: usize) -> (r: Option<Opcode>)
    requires
        start <= end <= text@.len(),
    ensures
        r == mnemonic_opcode(text@.subrange(start as int, end as int)),
{
    let ghost name = text@.subrange(start as int, end as int);
    let mut b: u8 = 0;
    while b < 38
        invariant
            b <= 38,
            start <= end <= text@.len(),
            name == text@.subrange(start as int, end as int),
            forall|op: Opcode| opcode_byte(op) < b ==> mnemonic(op) != name,
        decreases 38 - b,
    {
        let op = match Opcode::from_byte(b) {
            Ok(op) => op,
            Err(_) => return None,
        };
        proof {
            lemma_byte_opcode_round_trip(b);
        }
        if range_equals(text, start, end, &mnemonic_bytes(op)) {
            proof {
                let c = choose|o: Opcode| mnemonic(o) == name;
                lemma_mnemonic_injective(c, op);
            }
            return Some(op);
        }
        proof {
            assert forall|o: Opcode| opcode_byte(o) < b + 1 implies mnemonic(o) != name by {
                lemma_opcode_byte_round_trip(o);
            }
        }
        b = b + 1;
    }
    proof {
        assert forall|o: Opcode| mnemonic(o) != name by {
            assert(opcode_byte(o) < 38);
        }
    }
    None
}

/// A run of digits is worth at least as much as any of its prefixes.
proof fn lemma_digits_value_monotone(s: Seq<u8>, n: int)
    requires
        0 <= n <= s.len(),
        forall|k: int| 0 <= k < s.len() ==> is_digit(#[trigger] s[k]),
    ensures
        digits_value(s.take(n)) <= digits_value(s),
    decreases s.len(),
{
    if n < s.len() {
        let p = s.drop_last();
        assert forall|k: int| 0 <= k < p.len() implies is_digit(#[trigger] p[k]) by {
            assert(p[k] == s[k]);
        }
        lemma_digits_value_monotone(p, n);
        assert(p.take(n) =~= s.take(n));
    } else {
        assert(s.take(n) =~= s);
    }
}

/// The byte written in decimal in `text[start..end]`.
fn parse_byte(text: &[u8], start: usize, end: usize) -> (r: Option<u8>)
    requires
        start <= end <= text@.len(),
    ensures
        r == parse_byte_spec(text@.subrange(start as int, end as int)),
{
    let ghost s = text@.subrange(start as int, end as int);
    if start == end {
        return None;
    }
    let mut acc: u32 = 0;
    let mut k: usize = start;
    while k < end
        invariant
            start <= k <= end <= text@.len(),
            s == text@.subrange(start as int, end as int),
            forall|j: int| start <= j < k ==> is_digit(#[trigger] text@[j]),
            acc == digits_value(text@.subrange(start as int, k as int)),
            acc <= 255,
        decreases end - k,
    {
        let c = text[k];
        if c < 48 || c > 57 {
            assert(s[k - start] == c);
            return None;
        }
        proof {
            let t = text@.subrange(start as int, k + 1);
            assert(t.drop_last() =~= text@.subrange(start as int, k as int));
            assert(t.last() == c);
        }
        let next = acc * 10 + (c - 48) as u32;
        if next > 255 {
            proof {
                assert(s.take(k + 1 - start) =~= text@.subrange(start as int, k + 1));
                if forall|j: int| 0 <= j < s.len() ==> is_digit(#[trigger] s[j]) {
                    lemma_digits_value_monotone(s, k + 1 - start);
                }
            }
            return None;
        }
        acc = next;
        k = k + 1;
    }
    proof {
        assert(s =~= text@.subrange(start as int, k as int));
        assert forall|j: int| 0 <= j < s.len() implies is_digit(#[trigger] s[j]) by {
            assert(s[j] == text@[start + j]);
        }
    }
    Some(acc as u8)
}

/// The tokens of `text[start..end]`, each as the range it occupies.
fn line_tokens(text: &[u8], start: usize, end: usize) -> (r: Vec<(usize, usize)>)
    requires
        start <= end <= text@.len(),
    ensures
        r@.len() == tokens(text@.subrange(start as int, end as int)).len(),
        forall|k: int|
            0 <= k < r@.len() ==> start <= (#[trigger] r@[k]).0 <= r@[k].1 <= end
                && text@.subrange(r@[k].0 as int, r@[k].1 as int) == tokens(
                text@.subrange(start as int, end as int),
            )[k],
{
    let mut out: Vec<(usize, usize)> = Vec::new();
    let mut tok_start: usize = start;
    let mut j: usize = start;
    while j < end
        invariant
            start <= tok_start <= j <= end <= text@.len(),
            split_tokens(text@.subrange(start as int, j as int)).1 == text@.subrange(
                tok_start as int,
                j as int,
            ),
            out@.len() == split_tokens(text@.subrange(start as int, j as int)).0.len(),
            forall|k: int|
                0 <= k < out@.len() ==> start <= (#[trigger] out@[k]).0 <= out@[k].1 <= end
                    && text@.subrange(out@[k].0 as int, out@[k].1 as int) == split_tokens(
                    text@.subrange(start as int, j as int),
                ).0[k],
        decreases end - j,
    {
        let ghost prev = split_tokens(text@.subrange(start as int, j as int));
        proof {
            let s1 = text@.subrange(start as int, j + 1);
            assert(s1.drop_last() =~= text@.subrange(start as int, j as int));
            assert(s1.last() == text@[j as int]);
        }
        let c = text[j];
        if c == 32 || c == 9 || c == 11 || c == 12 || c == 13 {
            if tok_start < j {
                out.push((tok_start, j));
            }
            tok_start = j + 1;
            proof {
                assert(text@.subrange(tok_start as int, j + 1) =~= Seq::<u8>::empty());
            }
        } else {
            proof {
                assert(text@.subrange(tok_start as int, j + 1) =~= text@.subrange(
                    tok_start as int,
                    j as int,
                ).push(c));
            }
        }
        j = j + 1;
    }
    if tok_start < end {
        out.push((tok_start, end));
    }
    out
}

/// The instruction on the line `text[start..end]`, numbered `line`; `None`
/// for a blank line.
fn parse_line(text: &[u8], start: usize, end: usize, line: usize) -> (r: Result<
    Option<Instruction>,
    AsmError,
>)
    requires
        start <= end <= text@.len(),
    ensures
        tokens(text@.subrange(start as int, end as int)).len() == 0 ==> r == Ok::<
            Option<Instruction>,
            AsmError,
        >(None),
        tokens(text@.subrange(start as int, end as int)).len() > 0 ==> match parse_tokens(
            tokens(text@.subrange(start as int, end as int)),
            line as int,
        ) {
            Ok(p) => r is Ok && r->Ok_0 is Some && instr_view(r->Ok_0->Some_0) == p,
            Err(e) => r == Err::<Option<Instruction>, AsmError>(e),
        },
{
    let toks = line_tokens(text, start, end);
    let ghost ts = tokens(text@.subrange(start as int, end as int));
    if toks.len() == 0 {
        return Ok(None);
    }
    let op = match lookup_mnemonic(text, toks[0].0, toks[0].1) {
        Some(op) => op,
        None => return Err(AsmError::UnknownMnemonic { line }),
    };
    if toks.len() > 4 {
        return Err(AsmError::TooManyOperands { line });
    }
    let a = if toks.len() > 1 {
        match parse_byte(text, toks[1].0, toks[1].1) {
            Some(v) => v,
            None => return Err(AsmError::BadOperand { line }),
        }
    } else {
        0
    };
    let b = if toks.len() > 2 {
        match parse_byte(text, toks[2].0, toks[2].1) {
            Some(v) => v,
            None => return Err(AsmError::BadOperand { line }),
        }
    } else {
        0
    };
    let c = if toks.len() > 3 {
        match parse_byte(text, toks[3].0, toks[3].1) {
            Some(v) => v,
            None => return Err(AsmError::BadOperand { line }),
        }
    } else {
        0
    };
    let ins = Instruction::new(op, [a, b, c]);
    assert(ins.operands@ =~= seq![a, b, c]);
    Ok(Some(ins))
}

/// The instructions of an assembly text given as bytes.
pub fn parse_program(text: &[u8]) -> (r: Result<Vec<Instruction>, AsmError>)
    ensures
        match parse_text(text@) {
            Ok(v) => r is Ok && r->Ok_0@.map_values(|i: Instruction| instr_view(i)) == v,
            Err(e) => r == Err::<Vec<Instruction>, AsmError>(e),
        },
{
    let mut out: Vec<Instruction> = Vec::new();
    let mut err: Option<AsmError> = None;
    let mut line_start: usize = 0;
    let mut line_no: usize = 0;
    let mut i: usize = 0;
    proof {
        assert(text@.take(0) =~= Seq::<u8>::empty());
        assert(out@.map_values(|x: Instruction| instr_view(x)) =~= Seq::<(Opcode, Seq<u8>)>::empty());
    }
    while i < text.len()
        invariant
            line_no <= line_start <= i <= text@.len(),
            split_lines(text@.take(i as int)).1 == text@.subrange(line_start as int, i as int),
            split_lines(text@.take(i as int)).0.len() == line_no,
            match err {
                None => parse_lines(split_lines(text@.take(i as int)).0) == Ok::<
                    Seq<(Opcode, Seq<u8>)>,
                    AsmError,
                >(out@.map_values(|x: Instruction| instr_view(x))),
                Some(e) => parse_lines(split_lines(text@.take(i as int)).0) == Err::<
                    Seq<(Opcode, Seq<u8>)>,
                    AsmError,
                >(e),
            },
        decreases text@.len() - i,
    {
        let ghost before = split_lines(text@.take(i as int));
        proof {
            assert(text@.take(i + 1).drop_last() =~= text@.take(i as int));
            assert(text@.take(i + 1).last() == text@[i as int]);
        }
        if text[i] == 10 {
            line_no = line_no + 1;
            let ghost ls = before.0.push(before.1);
            proof {
                assert(ls.drop_last() =~= before.0);
            }
            match err {
                None => {
                    let ghost prev = out@;
                    match parse_line(text, line_start, i, line_no) {
                        Ok(Some(ins)) => {
                            out.push(ins);
                            assert(out@.map_values(|x: Instruction| instr_view(x)) =~= prev.map_values(
                                |x: Instruction| instr_view(x),
                            ).push(instr_view(ins)));
                        },
                        Ok(None) => {},
                        Err(e) => {
                            err = Some(e);
                        },
                    }
                },
                Some(_) => {},
            }
            line_start = i + 1;
            proof {
                assert(text@.subrange(line_start as int, i + 1) =~= Seq::<u8>::empty());
            }
        } else {
            proof {
                assert(text@.subrange(line_start as int, i + 1) =~= text@.subrange(
                    line_start as int,
                    i as int,
                ).push(text@[i as int]));
            }
        }
        i = i + 1;
    }
    proof {
        assert(text@.take(i as int) =~= text@);
    }
    let ghost before = split_lines(text@);
    if line_start < text.len() {
        line_no = line_no + 1;
        let ghost ls = before.0.push(before.1);
        proof {
            assert(ls.drop_last() =~= before.0);
        }
        match err {
            None => {
                let ghost prev = out@;
                match parse_line(text, line_start, text.len(), line_no) {
                    Ok(Some(ins)) => {
                        out.push(ins);
                        assert(out@.map_values(|x: Instruction| instr_view(x)) =~= prev.map_values(
                            |x: Instruction| instr_view(x),
                        ).push(instr_view(ins)));
                    },
                    Ok(None) => {},
                    Err(e) => {
                        err = Some(e);
                    },
                }
            },
            Some(_) => {},
        }
    }
    match err {
        Some(e) => Err(e),
        None => Ok(out),
    }
}

/// The instructions of an assembly text: one instruction per line, a
/// mnemonic followed by up to three decimal operands, missing ones zero.
pub fn cb_from_asm(source: &str) -> (r: Result<Vec<Instruction>, AsmError>)
    ensures
        match parse_text(source.spec_bytes()) {
            Ok(v) => r is Ok && r->Ok_0@.map_values(|i: Instruction| instr_view(i)) == v,
            Err(e) => r == Err::<Vec<Instruction>, AsmError>(e),
        },
{
    parse_program(source.as_bytes())
}

/// The opcode whose mnemonic is `opcode`.
pub fn opcode_from_string(opcode: &str) -> (r: Option<Opcode>)
    ensures
        r == mnemonic_opcode(opcode.spec_bytes()),
{
    let bytes = opcode.as_bytes();
    assert(bytes@.subrange(0, bytes@.len() as int) =~= bytes@);
    lookup_mnemonic(bytes, 0, bytes.len())
}

/// Appends `n` in decimal.
fn push_decimal(out: &mut Vec<u8>, n: u8)
    ensures
        final(out)@ == old(out)@ + decimal(n),
{
    if n < 10 {
        out.push(48 + n);
    } else if n < 100 {
        out.push(48 + n / 10);
        out.push(48 + n % 10);
    } else {
        out.push(48 + n / 100);
        out.push(48 + (n / 10) % 10);
        out.push(48 + n % 10);
    }
    assert(final(out)@ =~= old(out)@ + decimal(n));
}

/// Every byte of a line of text is ASCII.
proof fn lemma_line_text_ascii(op: Opcode, operands: Seq<u8>)
    requires
        operands.len() == 3,
    ensures
        all_ascii(line_text(op, operands)),
{
    let m = mnemonic(op);
    assert(all_ascii(m));
    assert(all_ascii(decimal(operands[0])));
    assert(all_ascii(decimal(operands[1])));
    assert(all_ascii(decimal(operands[2])));
    let t = line_text(op, operands);
    assert forall|k: int| 0 <= k < t.len() implies #[trigger] t[k] < 128 by {
        let a = m + seq![32u8];
        let b = a + decimal(operands[0]) + seq![32u8];
        let c = b + decimal(operands[1]) + seq![32u8];
        if k < m.len() {
            assert(t[k] == m[k]);
        } else if k < a.len() {
            assert(t[k] == 32);
        } else if k < a.len() + decimal(operands[0]).len() {
            assert(t[k] == decimal(operands[0])[k - a.len()]);
        } else if k < b.len() {
            assert(t[k] == 32);
        } else if k < b.len() + decimal(operands[1]).len() {
            assert(t[k] == decimal(operands[1])[k - b.len()]);
        } else if k < c.len() {
            assert(t[k] == 32);
        } else {
            assert(t[k] == decimal(operands[2])[k - c.len()]);
        }
    }
}

/// Appends the text line of `ins`.
fn push_line(out: &mut Vec<u8>, ins: &Instruction)
    ensures
        final(out)@ == old(out)@ + line_text(ins.opcode, ins.operands@),
        all_ascii(old(out)@) ==> all_ascii(final(out)@),
{
    let mut name = mnemonic_bytes(ins.opcode);
    out.append(&mut name);
    out.push(32);
    push_decimal(out, ins.operands[0]);
    out.push(32);
    push_decimal(out, ins.operands[1]);
    out.push(32);
    push_decimal(out, ins.operands[2]);
    let ghost line = line_text(ins.opcode, ins.operands@);
    assert(final(out)@ =~= old(out)@ + line);
    proof {
        lemma_line_text_ascii(ins.opcode, ins.operands@);
        if all_ascii(old(out)@) {
            assert forall|k: int| 0 <= k < final(out)@.len() implies #[trigger] final(out)@[k] < 128 by {
                if k >= old(out)@.len() {
                    assert(final(out)@[k] == line[k - old(out)@.len()]);
                }
            }
        }
    }
}

impl Instruction {
    /// The instruction's line of assembly text, without a newline.
    pub fn stringify(&self) -> (r: String)
        ensures
            r@ == ascii_chars(line_text(self.opcode, self.operands@)),
    {
        let mut out: Vec<u8> = Vec::new();
        push_line(&mut out, self);
        assert(out@ =~= line_text(self.opcode, self.operands@));
        ascii_to_string(out)
    }
}

/// The assembly text of a program: one line per instruction, each ended by
/// a newline.
pub fn asm_from_cb(instructions: Vec<Instruction>) -> (r: String)
    ensures
        r@ == ascii_chars(program_text(instructions@.map_values(|i: Instruction| instr_view(i)))),
{
    let mut out: Vec<u8> = Vec::new();
    let mut i: usize = 0;
    proof {
        assert(instructions@.take(0).map_values(|x: Instruction| instr_view(x)) =~= Seq::<
            (Opcode, Seq<u8>),
        >::empty());
    }
    while i < instructions.len()
        invariant
            i <= instructions@.len(),
            out@ == program_text(
                instructions@.take(i as int).map_values(|x: Instruction| instr_view(x)),
            ),
            all_ascii(out@),
        decreases instructions@.len() - i,
    {
        let ghost before = out@;
        push_line(&mut out, &instructions[i]);
        out.push(10);
        proof {
            let vs = instructions@.take(i + 1).map_values(|x: Instruction| instr_view(x));
            assert(vs.drop_last() =~= instructions@.take(i as int).map_values(
                |x: Instruction| instr_view(x),
            ));
            assert(vs.last() == instr_view(instructions@[i as int]));
            assert(out@ =~= program_text(vs));
            assert forall|k: int| 0 <= k < out@.len() implies #[trigger] out@[k] < 128 by {
                if k == out@.len() - 1 {
                    assert(out@[k] == 10);
                }
            }
        }
        i = i + 1;
    }
    proof {
        assert(instructions@.take(i as int) =~= instructions@);
    }
    ascii_to_string(out)
}

/// Appending bytes that are not spaces extends the token being read.
proof fn lemma_split_tokens_run(s: Seq<u8>, t: Seq<u8>)
    requires
        forall|k: int| 0 <= k < t.len() ==> !is_space(#[trigger] t[k]),
    ensures
        split_tokens(s + t) == (split_tokens(s).0, split_tokens(s).1 + t),
    decreases t.len(),
{
    if t.len() == 0 {
        assert(s + t =~= s);
        assert(split_tokens(s).1 + t =~= split_tokens(s).1);
    } else {
        let t0 = t.drop_last();
        lemma_split_tokens_run(s, t0);
        assert((s + t).drop_last() =~= s + t0);
        assert((s + t).last() == t.last());
        assert(split_tokens(s).1 + t =~= (split_tokens(s).1 + t0).push(t.last()));
    }
}

/// Appending bytes that are not newlines extends the line being read.
proof fn lemma_split_lines_run(s: Seq<u8>, t: Seq<u8>)
    requires
        forall|k: int| 0 <= k < t.len() ==> #[trigger] t[k] != 10,
    ensures
        split_lines(s + t) == (split_lines(s).0, split_lines(s).1 + t),
    decreases t.len(),
{
    if t.len() == 0 {
        assert(s + t =~= s);
        assert(split_lines(s).1 + t =~= split_lines(s).1);
    } else {
        let t0 = t.drop_last();
        lemma_split_lines_run(s, t0);
        assert((s + t).drop_last() =~= s + t0);
        assert((s + t).last() == t.last());
        assert(split_lines(s).1 + t =~= (split_lines(s).1 + t0).push(t.last()));
    }
}

/// A mnemonic is made of capital letters.
proof fn lemma_mnemonic_letters(op: Opcode)
    ensures
        mnemonic(op).len() > 0,
        forall|k: int| 0 <= k < mnemonic(op).len() ==> 65 <= #[trigger] mnemonic(op)[k] <= 90,
{
}

/// A number in decimal is made of digits, and reads back as the number.
proof fn lemma_decimal_round_trip(n: u8)
    ensures
        decimal(n).len() > 0,
        forall|k: int| 0 <= k < decimal(n).len() ==> is_digit(#[trigger] decimal(n)[k]),
        parse_byte_spec(decimal(n)) == Some(n),
{
    let d = decimal(n);
    if n < 10 {
        assert(d.drop_last() =~= Seq::<u8>::empty());
        assert(digits_value(d.drop_last()) == 0);
        assert(digits_value(d) == n);
    } else if n < 100 {
        let d1 = d.drop_last();
        assert(d1 =~= seq![(48 + n / 10) as u8]);
        assert(d1.drop_last() =~= Seq::<u8>::empty());
        assert(digits_value(d1.drop_last()) == 0);
        assert(digits_value(d1) == n / 10);
        assert(digits_value(d) == (n / 10) * 10 + n % 10);
        assert((n / 10) * 10 + n % 10 == n) by (nonlinear_arith);
    } else {
        let d1 = d.drop_last();
        let d2 = d1.drop_last();
        assert(d1 =~= seq![(48 + n / 100) as u8, (48 + (n / 10) % 10) as u8]);
        assert(d2 =~= seq![(48 + n / 100) as u8]);
        assert(d2.drop_last() =~= Seq::<u8>::empty());
        assert(digits_value(d2.drop_last()) == 0);
        assert(digits_value(d2) == n / 100);
        assert(digits_value(d1) == (n / 100) * 10 + (n / 10) % 10);
        assert(digits_value(d) == ((n / 100) * 10 + (n / 10) % 10) * 10 + n % 10);
        assert(((n / 100) * 10 + (n / 10) % 10) * 10 + n % 10 == n) by (nonlinear_arith);
    }
}

/// The tokens of an instruction's line are its mnemonic and its three
/// operands in decimal.
proof fn lemma_line_tokens(op: Opcode, operands: Seq<u8>)
    requires
        operands.len() == 3,
    ensures
        tokens(line_text(op, operands)) == seq![
            mnemonic(op),
            decimal(operands[0]),
            decimal(operands[1]),
            decimal(operands[2]),
        ],
{
    let m = mnemonic(op);
    let d0 = decimal(operands[0]);
    let d1 = decimal(operands[1]);
    let d2 = decimal(operands[2]);
    let sp = seq![32u8];
    lemma_mnemonic_letters(op);
    lemma_decimal_round_trip(operands[0]);
    lemma_decimal_round_trip(operands[1]);
    lemma_decimal_round_trip(operands[2]);
    let e = Seq::<u8>::empty();
    assert(split_tokens(e) == (Seq::<Seq<u8>>::empty(), e));
    lemma_split_tokens_run(e, m);
    assert(e + m =~= m);
    let s1 = m + sp;
    assert(s1.drop_last() =~= m);
    let s2 = s1 + d0;
    lemma_split_tokens_run(s1, d0);
    assert(Seq::<u8>::empty() + d0 =~= d0);
    let s3 = s2 + sp;
    assert(s3.drop_last() =~= s2);
    let s4 = s3 + d1;
    lemma_split_tokens_run(s3, d1);
    assert(Seq::<u8>::empty() + d1 =~= d1);
    let s5 = s4 + sp;
    assert(s5.drop_last() =~= s4);
    let s6 = s5 + d2;
    lemma_split_tokens_run(s5, d2);
    assert(Seq::<u8>::empty() + d2 =~= d2);
    assert(s6 == line_text(op, operands));
    assert(Seq::<Seq<u8>>::empty().push(m).push(d0).push(d1).push(d2) =~= seq![m, d0, d1, d2]);
}

/// The lines of a program text.
pub open spec fn line_texts(v: Seq<(Opcode, Seq<u8>)>) -> Seq<Seq<u8>> {
    v.map_values(|p: (Opcode, Seq<u8>)| line_text(p.0, p.1))
}

/// A program's text splits into the lines of its instructions.
proof fn lemma_program_lines(v: Seq<(Opcode, Seq<u8>)>)
    requires
        forall|k: int| 0 <= k < v.len() ==> (#[trigger] v[k]).1.len() == 3,
    ensures
        split_lines(program_text(v)) == (line_texts(v), Seq::<u8>::empty()),
    decreases v.len(),
{
    if v.len() == 0 {
        assert(line_texts(v) =~= Seq::<Seq<u8>>::empty());
    } else {
        let p = v.drop_last();
        assert forall|k: int| 0 <= k < p.len() implies (#[trigger] p[k]).1.len() == 3 by {
            assert(p[k] == v[k]);
        }
        lemma_program_lines(p);
        let last = v.last();
        assert(v[v.len() - 1] == last);
        let lt = line_text(last.0, last.1);
        assert forall|k: int| 0 <= k < lt.len() implies #[trigger] lt[k] != 10 by {
            lemma_line_has_no_newline(last.0, last.1, k);
        }
        lemma_split_lines_run(program_text(p), lt);
        assert(Seq::<u8>::empty() + lt =~= lt);
        let whole = program_text(p) + lt + seq![10u8];
        assert(whole.drop_last() =~= program_text(p) + lt);
        assert(line_texts(v) =~= line_texts(p).push(lt));
    }
}

/// No byte of an instruction's line is a newline.
proof fn lemma_line_has_no_newline(op: Opcode, operands: Seq<u8>, k: int)
    requires
        operands.len() == 3,
        0 <= k < line_text(op, operands).len(),
    ensures
        line_text(op, operands)[k] != 10,
{
    let m = mnemonic(op);
    lemma_mnemonic_letters(op);
    lemma_decimal_round_trip(operands[0]);
    lemma_decimal_round_trip(operands[1]);
    lemma_decimal_round_trip(operands[2]);
    let t = line_text(op, operands);
    let a = m + seq![32u8];
    let b = a + decimal(operands[0]) + seq![32u8];
    let c = b + decimal(operands[1]) + seq![32u8];
    if k < m.len() {
        assert(t[k] == m[k]);
    } else if k < a.len() {
        assert(t[k] == 32);
    } else if k < a.len() + decimal(operands[0]).len() {
        assert(t[k] == decimal(operands[0])[k - a.len()]);
    } else if k < b.len() {
        assert(t[k] == 32);
    } else if k < b.len() + decimal(operands[1]).len() {
        assert(t[k] == decimal(operands[1])[k - b.len()]);
    } else if k < c.len() {
        assert(t[k] == 32);
    } else {
        assert(t[k] == decimal(operands[2])[k - c.len()]);
    }
}

/// Each line of a program parses back to its instruction.
proof fn lemma_parse_line_texts(v: Seq<(Opcode, Seq<u8>)>)
    requires
        forall|k: int| 0 <= k < v.len() ==> (#[trigger] v[k]).1.len() == 3,
    ensures
        parse_lines(line_texts(v)) == Ok::<Seq<(Opcode, Seq<u8>)>, AsmError>(v),
    decreases v.len(),
{
    if v.len() == 0 {
        assert(line_texts(v) =~= Seq::<Seq<u8>>::empty());
        assert(v =~= Seq::<(Opcode, Seq<u8>)>::empty());
    } else {
        let p = v.drop_last();
        assert forall|k: int| 0 <= k < p.len() implies (#[trigger] p[k]).1.len() == 3 by {
            assert(p[k] == v[k]);
        }
        lemma_parse_line_texts(p);
        let last = v.last();
        assert(v[v.len() - 1] == last);
        let ls = line_texts(v);
        assert(ls.drop_last() =~= line_texts(p));
        assert(ls.last() == line_text(last.0, last.1));
        lemma_line_tokens(last.0, last.1);
        let toks = tokens(ls.last());
        let name = mnemonic(last.0);
        lemma_mnemonic_injective(choose|o: Opcode| mnemonic(o) == name, last.0);
        assert(mnemonic_opcode(toks[0]) == Some(last.0));
        lemma_decimal_round_trip(last.1[0]);
        lemma_decimal_round_trip(last.1[1]);
        lemma_decimal_round_trip(last.1[2]);
        assert(seq![last.1[0], last.1[1], last.1[2]] =~= last.1);
        assert(toks.len() == 4);
        assert(operand_at(toks, 1) == Some(last.1[0]));
        assert(operand_at(toks, 2) == Some(last.1[1]));
        assert(operand_at(toks, 3) == Some(last.1[2]));
        assert(parse_tokens(toks, ls.len() as int) == Ok::<(Opcode, Seq<u8>), AsmError>(
            (last.0, last.1),
        ));
        assert(v =~= p.push(last));
        assert(parse_lines(ls.drop_last()) == Ok::<Seq<(Opcode, Seq<u8>)>, AsmError>(p));
    }
}

/// Formatting a program as text and parsing the text gives back the same
/// instructions.
pub proof fn lemma_parse_format(v: Seq<(Opcode, Seq<u8>)>)
    requires
        forall|k: int| 0 <= k < v.len() ==> (#[trigger] v[k]).1.len() == 3,
    ensures
        parse_text(program_text(v)) == Ok::<Seq<(Opcode, Seq<u8>)>, AsmError>(v),
{
    lemma_program_lines(v);
    lemma_parse_line_texts(v);
}

/// The bytes of an ASCII string are the bytes it was made from.
proof fn lemma_ascii_spec_bytes(text: &str, bytes: Seq<u8>)
    requires
        text@ == ascii_chars(bytes),
        all_ascii(bytes),
    ensures
        text.spec_bytes() == bytes,
{
    assert forall|i: int| 0 <= i < text@.len() implies '\0' <= #[trigger] text@[i] <= '\u{7f}' by {
        assert(text@[i] == bytes[i] as char);
        assert(bytes[i] < 128);
    }
    assert(vstd::string::is_ascii(text));
    vstd::string::is_ascii_spec_bytes(text);
    assert forall|i: int| 0 <= i < bytes.len() implies text@[i] as u8 == bytes[i] by {
        assert(text@[i] == bytes[i] as char);
    }
    assert(text.spec_bytes() =~= bytes);
}

/// The ASCII bytes of a program text.
proof fn lemma_program_text_ascii(v: Seq<(Opcode, Seq<u8>)>)
    requires
        forall|k: int| 0 <= k < v.len() ==> (#[trigger] v[k]).1.len() == 3,
    ensures
        all_ascii(program_text(v)),
    decreases v.len(),
{
    if v.len() > 0 {
        let p = v.drop_last();
        assert forall|k: int| 0 <= k < p.len() implies (#[trigger] p[k]).1.len() == 3 by {
            assert(p[k] == v[k]);
        }
        lemma_program_text_ascii(p);
        let last = v.last();
        assert(v[v.len() - 1] == last);
        lemma_line_text_ascii(last.0, last.1);
        let a = program_text(p);
        let l = line_text(last.0, last.1);
        let t = program_text(v);
        assert forall|k: int| 0 <= k < t.len() implies #[trigger] t[k] < 128 by {
            if k < a.len() {
                assert(t[k] == a[k]);
            } else if k < a.len() + l.len() {
                assert(t[k] == l[k - a.len()]);
            } else {
                assert(t[k] == 10);
            }
        }
    }
}

/// Parsing the text that `asm_from_cb` writes for a program, as
/// `cb_from_asm` does, gives back the program.
pub proof fn lemma_text_round_trip(text: &str, v: Seq<(Opcode, Seq<u8>)>)
    requires
        forall|k: int| 0 <= k < v.len() ==> (#[trigger] v[k]).1.len() == 3,
        text@ == ascii_chars(program_text(v)),
    ensures
        parse_text(text.spec_bytes()) == Ok::<Seq<(Opcode, Seq<u8>)>, AsmError>(v),
{
    lemma_program_text_ascii(v);
    lemma_ascii_spec_bytes(text, program_text(v));
    lemma_parse_format(v);
}

} // verus!
