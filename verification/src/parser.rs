//! The circuit file parser.
//!
//! The format is line oriented: blank lines and lines beginning with
//! `//` are ignored; every other line is whitespace-separated tokens
//! forming one declaration or gate. Integers are signed 32-bit decimal.
//! Any unrecognized or malformed line is a parse error. The whole
//! translation is specified by [`spec_parse_circuit`].

use vstd::prelude::*;
use vstd::string::StringExecFns;
use vstd::string::StrSliceExecFns;
use crate::circuit::{Circuit, Gate};
use crate::wiremap::{WireMap, table_insert};

verus! {

/// A line that is neither blank, a comment, nor a recognized form.
#[derive(Debug, PartialEq, Eq)]
pub struct ParseError {
    /// The offending line, counted from one.
    pub line: usize,
}

/// The mathematical shape of a gate.
pub enum SpecGate {
    Add(Seq<char>, Seq<char>, Seq<char>, Option<int>),
    Mul(Seq<char>, Seq<char>, Seq<char>, Option<int>),
    Sub(Seq<char>, Seq<char>, Seq<char>, Option<int>),
    Xor(Seq<char>, Seq<char>, Seq<char>),
    Const(Seq<char>, int),
    Hash(Seq<char>, Seq<char>),
    Eq(Seq<char>, Seq<char>, Seq<char>),
}

/// The shape of a gate value.
pub open spec fn gate_view(g: Gate) -> SpecGate {
    match g {
        Gate::Add(a, b, c, w) => SpecGate::Add(
            a@,
            b@,
            c@,
            match w {
                Some(x) => Some(x as int),
                None => None,
            },
        ),
        Gate::Mul(a, b, c, w) => SpecGate::Mul(
            a@,
            b@,
            c@,
            match w {
                Some(x) => Some(x as int),
                None => None,
            },
        ),
        Gate::Sub(a, b, c, w) => SpecGate::Sub(
            a@,
            b@,
            c@,
            match w {
                Some(x) => Some(x as int),
                None => None,
            },
        ),
        Gate::Xor(a, b, c) => SpecGate::Xor(a@, b@, c@),
        Gate::Const(n, v) => SpecGate::Const(n@, v as int),
        Gate::Hash(i, o) => SpecGate::Hash(i@, o@),
        Gate::Eq(a, b, out) => SpecGate::Eq(a@, b@, out@),
    }
}

/// The shapes of a sequence of gates.
pub open spec fn gates_view(s: Seq<Gate>) -> Seq<SpecGate> {
    s.map(|i: int, g: Gate| gate_view(g))
}

/// Everything the parser accumulates, in the mathematical model.
#[verifier::ext_equal]
pub struct SpecParsed {
    pub name: Seq<char>,
    pub inputs: Seq<(Seq<char>, int)>,
    pub outputs: Seq<(Seq<char>, int)>,
    pub gates: Seq<SpecGate>,
    pub sender: Seq<char>,
    pub receiver: Seq<char>,
    pub amount: int,
}

/// The shape of a parsed circuit.
pub open spec fn parsed_view(c: Circuit) -> SpecParsed {
    SpecParsed {
        name: c.name@,
        inputs: c.inputs@,
        outputs: c.outputs@,
        gates: gates_view(c.gates@),
        sender: c.sender@,
        receiver: c.receiver@,
        amount: c.transfer_amount as int,
    }
}

/// Whitespace inside a line: the Unicode White_Space characters, the
/// set `str::split_whitespace` splits on.
pub open spec fn is_space_char(ch: char) -> bool {
    ||| ch == '\u{0009}'
    ||| ch == '\u{000A}'
    ||| ch == '\u{000B}'
    ||| ch == '\u{000C}'
    ||| ch == '\u{000D}'
    ||| ch == '\u{0020}'
    ||| ch == '\u{0085}'
    ||| ch == '\u{00A0}'
    ||| ch == '\u{1680}'
    ||| ch == '\u{2000}'
    ||| ch == '\u{2001}'
    ||| ch == '\u{2002}'
    ||| ch == '\u{2003}'
    ||| ch == '\u{2004}'
    ||| ch == '\u{2005}'
    ||| ch == '\u{2006}'
    ||| ch == '\u{2007}'
    ||| ch == '\u{2008}'
    ||| ch == '\u{2009}'
    ||| ch == '\u{200A}'
    ||| ch == '\u{2028}'
    ||| ch == '\u{2029}'
    ||| ch == '\u{202F}'
    ||| ch == '\u{205F}'
    ||| ch == '\u{3000}'
}

/// Whether `ch` is whitespace inside a line.
fn is_space(ch: char) -> (r: bool)
    ensures
        r == is_space_char(ch),
{
    ch == '\u{0009}' || ch == '\u{000A}' || ch == '\u{000B}' || ch == '\u{000C}' || ch
        == '\u{000D}' || ch == '\u{0020}' || ch == '\u{0085}' || ch == '\u{00A0}' || ch
        == '\u{1680}' || ch == '\u{2000}' || ch == '\u{2001}' || ch == '\u{2002}' || ch
        == '\u{2003}' || ch == '\u{2004}' || ch == '\u{2005}' || ch == '\u{2006}' || ch
        == '\u{2007}' || ch == '\u{2008}' || ch == '\u{2009}' || ch == '\u{200A}' || ch
        == '\u{2028}' || ch == '\u{2029}' || ch == '\u{202F}' || ch == '\u{205F}' || ch
        == '\u{3000}'
}

/// The tokens of a line from position `i` on, given the token read so
/// far and the tokens already complete.
pub open spec fn tokens_from(
    line: Seq<char>,
    i: int,
    cur: Seq<char>,
    acc: Seq<Seq<char>>,
) -> Seq<Seq<char>>
    decreases line.len() - i,
{
    if i < 0 || i >= line.len() {
        if cur.len() > 0 {
            acc.push(cur)
        } else {
            acc
        }
    } else if is_space_char(line[i]) {
        if cur.len() > 0 {
            tokens_from(line, i + 1, seq![], acc.push(cur))
        } else {
            tokens_from(line, i + 1, seq![], acc)
        }
    } else {
        tokens_from(line, i + 1, cur.push(line[i]), acc)
    }
}

/// The whitespace-separated tokens of a line.
pub open spec fn spec_tokens(line: Seq<char>) -> Seq<Seq<char>> {
    tokens_from(line, 0, seq![], seq![])
}

/// The lines of the text from position `i` on, split at newlines.
pub open spec fn lines_from(
    text: Seq<char>,
    i: int,
    cur: Seq<char>,
    acc: Seq<Seq<char>>,
) -> Seq<Seq<char>>
    decreases text.len() - i,
{
    if i < 0 || i >= text.len() {
        acc.push(cur)
    } else if text[i] == '\n' {
        lines_from(text, i + 1, seq![], acc.push(cur))
    } else {
        lines_from(text, i + 1, cur.push(text[i]), acc)
    }
}

/// The lines of the text.
pub open spec fn spec_lines(text: Seq<char>) -> Seq<Seq<char>> {
    lines_from(text, 0, seq![], seq![])
}

/// The value of the decimal digits from position `i` on, given the
/// digits read so far; nothing if a non-digit appears.
pub open spec fn digits_val(t: Seq<char>, i: int, acc: int) -> Option<int>
    decreases t.len() - i,
{
    if i < 0 || i >= t.len() {
        Some(acc)
    } else if '0' <= t[i] <= '9' {
        digits_val(t, i + 1, acc * 10 + (t[i] as int - '0' as int))
    } else {
        None
    }
}

/// The signed 32-bit value a token denotes, if any: an optional sign,
/// then at least one decimal digit, within the 32-bit range.
pub open spec fn spec_parse_i32(t: Seq<char>) -> Option<int> {
    if t.len() == 0 {
        None
    } else if t[0] == '-' {
        if t.len() < 2 {
            None
        } else {
            match digits_val(t, 1, 0) {
                Some(v) => if -v >= i32::MIN {
                    Some(-v)
                } else {
                    None
                },
                None => None,
            }
        }
    } else if t[0] == '+' {
        if t.len() < 2 {
            None
        } else {
            match digits_val(t, 1, 0) {
                Some(v) => if v <= i32::MAX {
                    Some(v)
                } else {
                    None
                },
                None => None,
            }
        }
    } else {
        match digits_val(t, 0, 0) {
            Some(v) => if v <= i32::MAX {
                Some(v)
            } else {
                None
            },
            None => None,
        }
    }
}

/// The state after one line: unchanged for a blank or comment line, one
/// declaration or gate applied for a recognized line, nothing otherwise.
pub open spec fn parse_line(st: SpecParsed, line: Seq<char>) -> Option<SpecParsed> {
    let toks = spec_tokens(line);
    if toks.len() == 0 {
        Some(st)
    } else if toks[0].len() >= 2 && toks[0][0] == '/' && toks[0][1] == '/' {
        Some(st)
    } else if toks.len() == 2 && toks[0] == "name"@ {
        Some(SpecParsed { name: toks[1], ..st })
    } else if toks.len() == 3 && toks[0] == "input"@ {
        match spec_parse_i32(toks[2]) {
            Some(v) => Some(SpecParsed { inputs: table_insert(st.inputs, toks[1], v), ..st }),
            None => None,
        }
    } else if toks.len() == 3 && toks[0] == "output"@ {
        match spec_parse_i32(toks[2]) {
            Some(v) => Some(SpecParsed { outputs: table_insert(st.outputs, toks[1], v), ..st }),
            None => None,
        }
    } else if toks.len() == 2 && toks[0] == "sender"@ {
        Some(SpecParsed { sender: toks[1], ..st })
    } else if toks.len() == 2 && toks[0] == "receiver"@ {
        Some(SpecParsed { receiver: toks[1], ..st })
    } else if toks.len() == 2 && toks[0] == "amount"@ {
        match spec_parse_i32(toks[1]) {
            Some(v) => Some(SpecParsed { amount: v, ..st }),
            None => None,
        }
    } else if toks.len() == 4 && toks[0] == "add"@ {
        Some(
            SpecParsed {
                gates: st.gates.push(SpecGate::Add(toks[1], toks[2], toks[3], None)),
                ..st
            },
        )
    } else if toks.len() == 4 && toks[0] == "mul"@ {
        Some(
            SpecParsed {
                gates: st.gates.push(SpecGate::Mul(toks[1], toks[2], toks[3], None)),
                ..st
            },
        )
    } else if toks.len() == 4 && toks[0] == "sub"@ {
        Some(
            SpecParsed {
                gates: st.gates.push(SpecGate::Sub(toks[1], toks[2], toks[3], None)),
                ..st
            },
        )
    } else if toks.len() == 4 && toks[0] == "eq"@ {
        Some(SpecParsed { gates: st.gates.push(SpecGate::Eq(toks[1], toks[2], toks[3])), ..st })
    } else if toks.len() == 3 && toks[0] == "const"@ {
        match spec_parse_i32(toks[2]) {
            Some(v) => Some(SpecParsed { gates: st.gates.push(SpecGate::Const(toks[1], v)), ..st }),
            None => None,
        }
    } else if toks.len() == 4 && toks[0] == "xor"@ {
        Some(SpecParsed { gates: st.gates.push(SpecGate::Xor(toks[1], toks[2], toks[3])), ..st })
    } else if toks.len() == 3 && toks[0] == "hash"@ {
        Some(SpecParsed { gates: st.gates.push(SpecGate::Hash(toks[1], toks[2])), ..st })
    } else {
        None
    }
}

/// The state after the lines from position `k` on, or nothing at the
/// first bad line.
pub open spec fn parse_lines_from(lines: Seq<Seq<char>>, k: int, st: SpecParsed) -> Option<
    SpecParsed,
>
    decreases lines.len() - k,
{
    if k < 0 || k >= lines.len() {
        Some(st)
    } else {
        match parse_line(st, lines[k]) {
            Some(st2) => parse_lines_from(lines, k + 1, st2),
            None => None,
        }
    }
}

/// The parser's starting state: everything empty, the amount zero.
pub open spec fn initial_parsed() -> SpecParsed {
    SpecParsed {
        name: Seq::empty(),
        inputs: Seq::empty(),
        outputs: Seq::empty(),
        gates: Seq::empty(),
        sender: Seq::empty(),
        receiver: Seq::empty(),
        amount: 0,
    }
}

/// What parsing the whole text yields, as a function of the text alone.
pub open spec fn spec_parse_circuit(text: Seq<char>) -> Option<SpecParsed> {
    parse_lines_from(spec_lines(text), 0, initial_parsed())
}

// ---------------------------------------------------------------------
// Executable parsing
// ---------------------------------------------------------------------

/// Relies on `String::push`: appends one character.
#[verifier::external_body]
fn push_char(s: &mut String, ch: char)
    ensures
        final(s)@ == old(s)@.push(ch),
{
    s.push(ch);
}

/// The characters of the text, in order.
fn chars_of(s: &str) -> (r: Vec<char>)
    ensures
        r@ == s@,
{
    let n = s.unicode_len();
    let mut v: Vec<char> = Vec::new();
    let mut i: usize = 0;
    while i < n
        invariant
            n == s@.len(),
            0 <= i <= n,
            v@ == s@.take(i as int),
        decreases n - i,
    {
        let ch = s.get_char(i);
        v.push(ch);
        proof {
            assert(v@ =~= s@.take(i as int + 1));
        }
        i += 1;
    }
    proof {
        assert(v@ =~= s@);
    }
    v
}

/// The views of a sequence of tokens.
pub open spec fn tokens_view(s: Seq<String>) -> Seq<Seq<char>> {
    s.map(|i: int, t: String| t@)
}

/// Splits a line into whitespace-separated tokens.
fn tokenize(line: &Vec<char>) -> (r: Vec<String>)
    ensures
        tokens_view(r@) == spec_tokens(line@),
{
    let n = line.len();
    let mut toks: Vec<String> = Vec::new();
    let mut cur = String::new();
    proof {
        assert(tokens_view(toks@) =~= Seq::<Seq<char>>::empty());
    }
    let mut i: usize = 0;
    while i < n
        invariant
            n == line@.len(),
            0 <= i <= n,
            spec_tokens(line@) == tokens_from(line@, i as int, cur@, tokens_view(toks@)),
        decreases n - i,
    {
        let ch = line[i];
        if is_space(ch) {
            if !cur.as_str().is_empty() {
                let ghost prev = tokens_view(toks@);
                let ghost done = cur@;
                toks.push(cur);
                cur = String::new();
                proof {
                    assert(tokens_view(toks@) =~= prev.push(done));
                }
            } else {
                proof {
                    assert(cur@ =~= Seq::<char>::empty());
                }
            }
        } else {
            push_char(&mut cur, ch);
        }
        i += 1;
    }
    if !cur.as_str().is_empty() {
        let ghost prev = tokens_view(toks@);
        let ghost done = cur@;
        toks.push(cur);
        proof {
            assert(tokens_view(toks@) =~= prev.push(done));
        }
    }
    toks
}

/// Splits the text into lines.
fn split_lines(text: &Vec<char>) -> (r: Vec<Vec<char>>)
    ensures
        r@.map(|i: int, l: Vec<char>| l@) == spec_lines(text@),
{
    let n = text.len();
    let mut lines: Vec<Vec<char>> = Vec::new();
    let mut cur: Vec<char> = Vec::new();
    proof {
        assert(lines@.map(|i: int, l: Vec<char>| l@) =~= Seq::<Seq<char>>::empty());
    }
    let mut i: usize = 0;
    while i < n
        invariant
            n == text@.len(),
            0 <= i <= n,
            spec_lines(text@) == lines_from(
                text@,
                i as int,
                cur@,
                lines@.map(|j: int, l: Vec<char>| l@),
            ),
        decreases n - i,
    {
        let ch = text[i];
        if ch == '\n' {
            let ghost prev = lines@.map(|j: int, l: Vec<char>| l@);
            let ghost done = cur@;
            lines.push(cur);
            cur = Vec::new();
            proof {
                assert(lines@.map(|j: int, l: Vec<char>| l@) =~= prev.push(done));
            }
        } else {
            cur.push(ch);
        }
        i += 1;
    }
    let ghost prev = lines@.map(|j: int, l: Vec<char>| l@);
    let ghost done = cur@;
    lines.push(cur);
    proof {
        assert(lines@.map(|j: int, l: Vec<char>| l@) =~= prev.push(done));
    }
    lines
}

/// Parses one token as a signed 32-bit decimal integer.
#[verifier::loop_isolation(false)]
fn parse_i32_token(t: &String) -> (r: Option<i32>)
    ensures
        match r {
            Some(v) => spec_parse_i32(t@) == Some(v as int),
            None => spec_parse_i32(t@) is None,
        },
{
    let s = t.as_str();
    let n = s.unicode_len();
    if n == 0 {
        return None;
    }
    let first = s.get_char(0);
    let negative = first == '-';
    let signed = first == '-' || first == '+';
    let start: usize = if signed {
        1
    } else {
        0
    };
    if signed && n < 2 {
        return None;
    }
    let mut acc: u64 = 0;
    let mut gacc = Ghost(0int);
    let mut i: usize = start;
    while i < n
        invariant
            n == s@.len(),
            start <= i <= n,
            start < n,
            digits_val(s@, start as int, 0) == digits_val(s@, i as int, gacc@),
            gacc@ >= 0,
            gacc@ <= 0xFFFF_FFFF ==> acc == gacc@,
            gacc@ > 0xFFFF_FFFF ==> acc == 0x1_0000_0000u64,
        decreases n - i,
    {
        let ch = s.get_char(i);
        let cu = ch as u32;
        if !(cu >= 48 && cu <= 57) {
            proof {
                assert(!('0' <= s@[i as int] <= '9'));
                assert(digits_val(s@, i as int, gacc@) is None);
                assert(digits_val(s@, start as int, 0) is None);
                assert(t@ == s@);
                if s@[0] == '-' {
                    assert(digits_val(t@, 1, 0) is None);
                    assert(spec_parse_i32(t@) is None);
                } else if s@[0] == '+' {
                    assert(digits_val(t@, 1, 0) is None);
                    assert(spec_parse_i32(t@) is None);
                } else {
                    assert(digits_val(t@, 0, 0) is None);
                    assert(spec_parse_i32(t@) is None);
                }
            }
            return None;
        }
        proof {
            assert('0' <= s@[i as int] <= '9');
        }
        let d: u64 = (cu - 48) as u64;
        proof {
            assert(d == ch as int - '0' as int);
        }
        let next = acc * 10 + d;
        acc = if next > 0xFFFF_FFFFu64 {
            0x1_0000_0000u64
        } else {
            next
        };
        proof {
            gacc@ = gacc@ * 10 + d;
        }
        i += 1;
    }
    proof {
        assert(digits_val(s@, n as int, gacc@) == Some(gacc@));
    }
    if negative {
        if acc <= 0x8000_0000u64 {
            Some((-(acc as i64)) as i32)
        } else {
            None
        }
    } else {
        if acc <= 0x7FFF_FFFFu64 {
            Some(acc as i32)
        } else {
            None
        }
    }
}

/// Applies one line to the circuit being built. Returns false when the
/// line is unrecognized or malformed.
fn apply_line(c: &mut Circuit, line: &Vec<char>) -> (r: bool)
    ensures
        match parse_line(parsed_view(*old(c)), line@) {
            Some(st2) => r && parsed_view(*final(c)) == st2,
            None => !r,
        },
{
    let toks = tokenize(line);
    let nt = toks.len();
    proof {
        assert forall|j: int| 0 <= j < toks@.len() implies spec_tokens(line@)[j] == toks@[j]@ by {
            assert(tokens_view(toks@)[j] == toks@[j]@);
        }
    }
    if nt == 0 {
        return true;
    }
    let first = &toks[0];
    if first.as_str().unicode_len() >= 2 && first.as_str().get_char(0) == '/'
        && first.as_str().get_char(1) == '/' {
        return true;
    }
    if nt == 2 && *first == String::from_str("name") {
        c.name = toks[1].clone();
        proof {
            assert(parsed_view(*c) =~= SpecParsed {
                name: spec_tokens(line@)[1],
                ..parsed_view(*old(c))
            });
        }
        return true;
    }
    if nt == 3 && *first == String::from_str("input") {
        match parse_i32_token(&toks[2]) {
            Some(v) => {
                c.inputs.insert(toks[1].as_str(), v);
                proof {
                    assert(parsed_view(*c) =~= SpecParsed {
                        inputs: table_insert(
                            parsed_view(*old(c)).inputs,
                            spec_tokens(line@)[1],
                            v as int,
                        ),
                        ..parsed_view(*old(c))
                    });
                }
                return true;
            },
            None => {
                return false;
            },
        }
    }
    if nt == 3 && *first == String::from_str("output") {
        match parse_i32_token(&toks[2]) {
            Some(v) => {
                c.outputs.insert(toks[1].as_str(), v);
                proof {
                    assert(parsed_view(*c) =~= SpecParsed {
                        outputs: table_insert(
                            parsed_view(*old(c)).outputs,
                            spec_tokens(line@)[1],
                            v as int,
                        ),
                        ..parsed_view(*old(c))
                    });
                }
                return true;
            },
            None => {
                return false;
            },
        }
    }
    if nt == 2 && *first == String::from_str("sender") {
        c.sender = toks[1].clone();
        proof {
            assert(parsed_view(*c) =~= SpecParsed {
                sender: spec_tokens(line@)[1],
                ..parsed_view(*old(c))
            });
        }
        return true;
    }
    if nt == 2 && *first == String::from_str("receiver") {
        c.receiver = toks[1].clone();
        proof {
            assert(parsed_view(*c) =~= SpecParsed {
                receiver: spec_tokens(line@)[1],
                ..parsed_view(*old(c))
            });
        }
        return true;
    }
    if nt == 2 && *first == String::from_str("amount") {
        match parse_i32_token(&toks[1]) {
            Some(v) => {
                c.transfer_amount = v;
                proof {
                    assert(parsed_view(*c) =~= SpecParsed {
                        amount: v as int,
                        ..parsed_view(*old(c))
                    });
                }
                return true;
            },
            None => {
                return false;
            },
        }
    }
    if nt == 4 && *first == String::from_str("add") {
        let ghost prev = gates_view(c.gates@);
        let g = Gate::Add(toks[1].clone(), toks[2].clone(), toks[3].clone(), None);
        let ghost gv = gate_view(g);
        c.gates.push(g);
        proof {
            assert(gates_view(c.gates@) =~= prev.push(gv));
            assert(parsed_view(*c) =~= SpecParsed {
                gates: parsed_view(*old(c)).gates.push(gv),
                ..parsed_view(*old(c))
            });
        }
        return true;
    }
    if nt == 4 && *first == String::from_str("mul") {
        let ghost prev = gates_view(c.gates@);
        let g = Gate::Mul(toks[1].clone(), toks[2].clone(), toks[3].clone(), None);
        let ghost gv = gate_view(g);
        c.gates.push(g);
        proof {
            assert(gates_view(c.gates@) =~= prev.push(gv));
            assert(parsed_view(*c) =~= SpecParsed {
                gates: parsed_view(*old(c)).gates.push(gv),
                ..parsed_view(*old(c))
            });
        }
        return true;
    }
    if nt == 4 && *first == String::from_str("sub") {
        let ghost prev = gates_view(c.gates@);
        let g = Gate::Sub(toks[1].clone(), toks[2].clone(), toks[3].clone(), None);
        let ghost gv = gate_view(g);
        c.gates.push(g);
        proof {
            assert(gates_view(c.gates@) =~= prev.push(gv));
            assert(parsed_view(*c) =~= SpecParsed {
                gates: parsed_view(*old(c)).gates.push(gv),
                ..parsed_view(*old(c))
            });
        }
        return true;
    }
    if nt == 4 && *first == String::from_str("eq") {
        let ghost prev = gates_view(c.gates@);
        let g = Gate::Eq(toks[1].clone(), toks[2].clone(), toks[3].clone());
        let ghost gv = gate_view(g);
        c.gates.push(g);
        proof {
            assert(gates_view(c.gates@) =~= prev.push(gv));
            assert(parsed_view(*c) =~= SpecParsed {
                gates: parsed_view(*old(c)).gates.push(gv),
                ..parsed_view(*old(c))
            });
        }
        return true;
    }
    if nt == 3 && *first == String::from_str("const") {
        match parse_i32_token(&toks[2]) {
            Some(v) => {
                let ghost prev = gates_view(c.gates@);
                let g = Gate::Const(toks[1].clone(), v);
                let ghost gv = gate_view(g);
                c.gates.push(g);
                proof {
                    assert(gates_view(c.gates@) =~= prev.push(gv));
                    assert(parsed_view(*c) =~= SpecParsed {
                        gates: parsed_view(*old(c)).gates.push(gv),
                        ..parsed_view(*old(c))
                    });
                }
                return true;
            },
            None => {
                return false;
            },
        }
    }
    if nt == 4 && *first == String::from_str("xor") {
        let ghost prev = gates_view(c.gates@);
        let g = Gate::Xor(toks[1].clone(), toks[2].clone(), toks[3].clone());
        let ghost gv = gate_view(g);
        c.gates.push(g);
        proof {
            assert(gates_view(c.gates@) =~= prev.push(gv));
            assert(parsed_view(*c) =~= SpecParsed {
                gates: parsed_view(*old(c)).gates.push(gv),
                ..parsed_view(*old(c))
            });
        }
        return true;
    }
    if nt == 3 && *first == String::from_str("hash") {
        let ghost prev = gates_view(c.gates@);
        let g = Gate::Hash(toks[1].clone(), toks[2].clone());
        let ghost gv = gate_view(g);
        c.gates.push(g);
        proof {
            assert(gates_view(c.gates@) =~= prev.push(gv));
            assert(parsed_view(*c) =~= SpecParsed {
                gates: parsed_view(*old(c)).gates.push(gv),
                ..parsed_view(*old(c))
            });
        }
        return true;
    }
    false
}

/// Parses the textual circuit format: the accumulated declarations and
/// gates of every line, or the first line that fits no recognized form.
pub fn parse_circuit(text: &str) -> (r: Result<Circuit, ParseError>)
    ensures
        match r {
            Ok(c) => spec_parse_circuit(text@) == Some(parsed_view(c)),
            Err(_e) => spec_parse_circuit(text@) is None,
        },
{
    let chars = chars_of(text);
    let lines = split_lines(&chars);
    let mut c = Circuit {
        name: String::new(),
        inputs: WireMap::new(),
        outputs: WireMap::new(),
        gates: Vec::new(),
        sender: String::new(),
        receiver: String::new(),
        transfer_amount: 0,
    };
    proof {
        assert(parsed_view(c) =~= initial_parsed());
        assert(gates_view(c.gates@) =~= Seq::<SpecGate>::empty());
    }
    let ghost lview = lines@.map(|j: int, l: Vec<char>| l@);
    let nl = lines.len();
    let mut k: usize = 0;
    while k < nl
        invariant
            nl == lview.len(),
            lview == lines@.map(|j: int, l: Vec<char>| l@),
            lview == spec_lines(text@),
            0 <= k <= nl,
            spec_parse_circuit(text@) == parse_lines_from(lview, k as int, parsed_view(c)),
        decreases nl - k,
    {
        proof {
            assert(lview[k as int] == lines@[k as int]@);
        }
        let ok = apply_line(&mut c, &lines[k]);
        if !ok {
            return Err(ParseError { line: k + 1 });
        }
        k += 1;
    }
    Ok(c)
}

} // verus!
