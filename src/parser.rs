use crate::bytecode::{program_view, ByteCode, Instr};
use vstd::prelude::*;
use vstd::string::StrSliceExecFns;
use vstd::string::StringExecFns;

verus! {

#[derive(Debug, Clone, Copy, PartialEq, Eq, Structural)]
pub enum ParseErrorKind {
    UnknownMnemonic,
    /// A missing, extra or ill-typed argument.
    MalformedArgument,
}

/// A rejected line: why, and the line as it stood in the program text.
#[derive(Debug, Clone)]
pub struct ParseError {
    pub kind: ParseErrorKind,
    pub line: String,
}

pub open spec fn is_blank_char(c: char) -> bool {
    c == ' ' || c == '\t' || c == '\r'
}

/// A line with nothing but spaces, tabs and carriage returns.
pub open spec fn is_blank(line: Seq<char>) -> bool {
    forall|i: int| 0 <= i < line.len() ==> is_blank_char(#[trigger] line[i])
}

/// Cuts a text at each newline: the lines already ended, and the line
/// still open.
pub open spec fn line_scan(s: Seq<char>) -> (Seq<Seq<char>>, Seq<char>)
    decreases s.len(),
{
    if s.len() == 0 {
        (Seq::empty(), Seq::empty())
    } else {
        let (done, cur) = line_scan(s.drop_last());
        if s.last() == '\n' {
            (done.push(cur), Seq::empty())
        } else {
            (done, cur.push(s.last()))
        }
    }
}

/// The lines of a text, in order; the last one may be empty.
pub open spec fn lines(s: Seq<char>) -> Seq<Seq<char>> {
    line_scan(s).0.push(line_scan(s).1)
}

pub open spec fn is_alnum(c: char) -> bool {
    ('a' <= c && c <= 'z') || ('A' <= c && c <= 'Z') || ('0' <= c && c <= '9')
}

/// Characters that survive sanitization of a token: ASCII letters and
/// digits, and the `_` of mnemonics and the `-` of negative numbers.
pub open spec fn is_token_char(c: char) -> bool {
    is_alnum(c) || c == '_' || c == '-'
}

/// Splits a line at each space and strips every other character that is no
/// token character: the tokens already ended, and the token still open.
pub open spec fn token_scan(s: Seq<char>) -> (Seq<Seq<char>>, Seq<char>)
    decreases s.len(),
{
    if s.len() == 0 {
        (Seq::empty(), Seq::empty())
    } else {
        let (done, cur) = token_scan(s.drop_last());
        let c = s.last();
        if c == ' ' {
            (if cur.len() > 0 { done.push(cur) } else { done }, Seq::empty())
        } else if is_token_char(c) {
            (done, cur.push(c))
        } else {
            (done, cur)
        }
    }
}

/// The non-empty sanitized tokens of a line.
pub open spec fn tokens(line: Seq<char>) -> Seq<Seq<char>> {
    let (done, cur) = token_scan(line);
    if cur.len() > 0 {
        done.push(cur)
    } else {
        done
    }
}

/// A token with everything but ASCII letters and digits removed.
pub open spec fn keep_alnum(s: Seq<char>) -> Seq<char>
    decreases s.len(),
{
    if s.len() == 0 {
        s
    } else if is_alnum(s.last()) {
        keep_alnum(s.drop_last()).push(s.last())
    } else {
        keep_alnum(s.drop_last())
    }
}

pub open spec fn is_digit(c: char) -> bool {
    '0' <= c && c <= '9'
}

pub open spec fn digits_value(s: Seq<char>) -> nat
    decreases s.len(),
{
    if s.len() == 0 {
        0
    } else {
        digits_value(s.drop_last()) * 10 + (s.last() as nat - '0' as nat) as nat
    }
}

/// The value of a non-empty run of decimal digits.
pub open spec fn nat_value(s: Seq<char>) -> Option<nat> {
    if s.len() > 0 && forall|i: int| 0 <= i < s.len() ==> is_digit(#[trigger] s[i]) {
        Some(digits_value(s))
    } else {
        None
    }
}

/// A decimal integer with an optional leading minus sign.
pub open spec fn int_value(s: Seq<char>) -> Option<int> {
    if s.len() > 0 && s[0] == '-' {
        match nat_value(s.drop_first()) {
            Some(n) => Some(-n),
            None => None,
        }
    } else {
        match nat_value(s) {
            Some(n) => Some(n as int),
            None => None,
        }
    }
}

pub open spec fn i64_arg(s: Seq<char>) -> Option<i64> {
    match int_value(s) {
        Some(v) => if i64::MIN <= v <= i64::MAX {
            Some(v as i64)
        } else {
            None
        },
        None => None,
    }
}

pub open spec fn usize_arg(s: Seq<char>) -> Option<usize> {
    match nat_value(s) {
        Some(v) => if v <= usize::MAX {
            Some(v as usize)
        } else {
            None
        },
        None => None,
    }
}

/// A name argument: its letters and digits, of which there must be one.
pub open spec fn name_arg(s: Seq<char>) -> Option<Seq<char>> {
    if keep_alnum(s).len() > 0 {
        Some(keep_alnum(s))
    } else {
        None
    }
}

pub open spec fn with_arg<T>(t: Seq<Seq<char>>, a: Option<T>, f: spec_fn(T) -> Instr) -> Result<
    Instr,
    ParseErrorKind,
> {
    if t.len() == 2 && a is Some {
        Ok(f(a->0))
    } else {
        Err(ParseErrorKind::MalformedArgument)
    }
}

pub open spec fn bare(t: Seq<Seq<char>>, i: Instr) -> Result<Instr, ParseErrorKind> {
    if t.len() == 1 {
        Ok(i)
    } else {
        Err(ParseErrorKind::MalformedArgument)
    }
}

/// What one non-blank line assembles to.
pub open spec fn parse_line(line: Seq<char>) -> Result<Instr, ParseErrorKind> {
    let t = tokens(line);
    let arg = if t.len() > 1 { t[1] } else { Seq::empty() };
    let m = if t.len() > 0 { t[0] } else { Seq::empty() };
    if m == "LOAD_VAL"@ {
        with_arg(t, i64_arg(arg), |v: i64| Instr::Load(v))
    } else if m == "WRITE_VAR"@ {
        with_arg(t, name_arg(arg), |n: Seq<char>| Instr::Write(n))
    } else if m == "READ_VAR"@ {
        with_arg(t, name_arg(arg), |n: Seq<char>| Instr::Read(n))
    } else if m == "JUMP"@ {
        with_arg(t, usize_arg(arg), |p: usize| Instr::Jump(p))
    } else if m == "JE"@ {
        with_arg(t, usize_arg(arg), |p: usize| Instr::Je(p))
    } else if m == "ADD"@ {
        bare(t, Instr::Add)
    } else if m == "SUB"@ {
        bare(t, Instr::Sub)
    } else if m == "MULTIPLY"@ {
        bare(t, Instr::Mul)
    } else if m == "DIVIDE"@ {
        bare(t, Instr::Div)
    } else if m == "RETURN_VALUE"@ {
        bare(t, Instr::Ret)
    } else {
        Err(ParseErrorKind::UnknownMnemonic)
    }
}

/// Assembles the lines in order, skipping blank ones; the first line that
/// fails decides the error.
pub open spec fn parse_lines(ls: Seq<Seq<char>>) -> Result<Seq<Instr>, (ParseErrorKind, Seq<char>)>
    decreases ls.len(),
{
    if ls.len() == 0 {
        Ok(Seq::empty())
    } else {
        match parse_lines(ls.drop_last()) {
            Err(e) => Err(e),
            Ok(p) => if is_blank(ls.last()) {
                Ok(p)
            } else {
                match parse_line(ls.last()) {
                    Ok(i) => Ok(p.push(i)),
                    Err(k) => Err((k, ls.last())),
                }
            },
        }
    }
}

pub open spec fn parse_text(s: Seq<char>) -> Result<Seq<Instr>, (ParseErrorKind, Seq<char>)> {
    parse_lines(lines(s))
}

/// Relies on String::push: appends one character.
#[verifier::external_body]
fn push_char(s: &mut String, c: char)
    ensures
        final(s)@ == old(s)@.push(c),
{
    s.push(c)
}

fn chars_of(s: &str) -> (r: Vec<char>)
    ensures
        r@ == s@,
{
    broadcast use vstd::string::group_string_axioms;

    let mut r: Vec<char> = Vec::new();
    for c in it: s.chars()
        invariant
            r@ == it.seq().take(it.index() as int),
    {
        r.push(c);
        assert(r@ =~= it.seq().take(it.index() + 1));
    }
    assert(r@ =~= s@);
    r
}

pub open spec fn views(v: Seq<Vec<char>>) -> Seq<Seq<char>> {
    v.map_values(|t: Vec<char>| t@)
}

fn is_token_char_exec(c: char) -> (r: bool)
    ensures
        r == is_token_char(c),
{
    ('a' <= c && c <= 'z') || ('A' <= c && c <= 'Z') || ('0' <= c && c <= '9') || c == '_' || c
        == '-'
}

fn tokenize(line: &Vec<char>) -> (r: Vec<Vec<char>>)
    ensures
        views(r@) == tokens(line@),
{
    let mut done: Vec<Vec<char>> = Vec::new();
    let mut cur: Vec<char> = Vec::new();
    let mut i: usize = 0;
    while i < line.len()
        invariant
            i <= line.len(),
            (views(done@), cur@) == token_scan(line@.take(i as int)),
        decreases line.len() - i,
    {
        let c = line[i];
        assert(line@.take(i + 1).drop_last() =~= line@.take(i as int));
        if c == ' ' {
            if cur.len() > 0 {
                let ghost before = done@;
                done.push(cur);
                assert(views(done@) =~= views(before).push(cur@));
            }
            cur = Vec::new();
        } else if is_token_char_exec(c) {
            cur.push(c);
        }
        i = i + 1;
    }
    assert(line@.take(line.len() as int) =~= line@);
    if cur.len() > 0 {
        let ghost before = done@;
        done.push(cur);
        assert(views(done@) =~= views(before).push(cur@));
    }
    done
}

fn is_alnum_exec(c: char) -> (r: bool)
    ensures
        r == is_alnum(c),
{
    ('a' <= c && c <= 'z') || ('A' <= c && c <= 'Z') || ('0' <= c && c <= '9')
}

fn alnum_string(t: &Vec<char>) -> (r: String)
    ensures
        r@ == keep_alnum(t@),
{
    let mut r = String::new();
    let mut i: usize = 0;
    while i < t.len()
        invariant
            i <= t.len(),
            r@ == keep_alnum(t@.take(i as int)),
        decreases t.len() - i,
    {
        assert(t@.take(i + 1).drop_last() =~= t@.take(i as int));
        if is_alnum_exec(t[i]) {
            push_char(&mut r, t[i]);
        }
        i = i + 1;
    }
    assert(t@.take(t.len() as int) =~= t@);
    r
}

proof fn lemma_digits_value_grows(s: Seq<char>, k: int)
    requires
        0 <= k <= s.len(),
    ensures
        digits_value(s.take(k)) <= digits_value(s),
    decreases s.len(),
{
    if k < s.len() {
        assert(s.drop_last().take(k) =~= s.take(k));
        lemma_digits_value_grows(s.drop_last(), k);
    } else {
        assert(s.take(k) =~= s);
    }
}

/// The digits of `t` from `from` on, read as a number that fits in `u64`.
fn decimal(t: &Vec<char>, from: usize) -> (r: Option<u64>)
    requires
        from <= t.len(),
    ensures
        r == (match nat_value(t@.skip(from as int)) {
            Some(n) => if n <= u64::MAX {
                Some(n as u64)
            } else {
                None
            },
            None => None,
        }),
{
    let ghost s = t@.skip(from as int);
    if from == t.len() {
        return None;
    }
    let mut acc: u64 = 0;
    let mut i: usize = from;
    while i < t.len()
        invariant
            from <= i <= t.len(),
            s == t@.skip(from as int),
            acc == digits_value(s.take(i - from)),
            forall|j: int| 0 <= j < i - from ==> is_digit(#[trigger] s[j]),
        decreases t.len() - i,
    {
        let c = t[i];
        assert(s.take(i - from + 1).drop_last() =~= s.take(i - from));
        if !('0' <= c && c <= '9') {
            assert(!is_digit(s[i - from]));
            return None;
        }
        let d = (c as u32 - '0' as u32) as u64;
        if acc > (u64::MAX - d) / 10 {
            proof {
                assert forall|j: int| 0 <= j < i - from + 1 implies is_digit(#[trigger] s[j]) by {}
                lemma_digits_value_grows(s, i - from + 1);
                assert(digits_value(s.take(i - from + 1)) == acc * 10 + d);
                assert(acc * 10 + d > u64::MAX) by (nonlinear_arith)
                    requires acc > (u64::MAX - d) / 10, d <= 9;
            }
            return None;
        }
        assert(acc * 10 + d <= u64::MAX) by (nonlinear_arith)
            requires acc <= (u64::MAX - d) / 10, d <= 9;
        acc = acc * 10 + d;
        i = i + 1;
    }
    assert(s.take(i - from) =~= s);
    Some(acc)
}


fn i64_arg_exec(t: &Vec<char>) -> (r: Option<i64>)
    ensures
        r == i64_arg(t@),
{
    if t.len() > 0 && t[0] == '-' {
        assert(t@.drop_first() =~= t@.skip(1));
        match decimal(t, 1) {
            Some(m) => if m < 0x8000_0000_0000_0000 {
                Some(-(m as i64))
            } else if m == 0x8000_0000_0000_0000 {
                Some(i64::MIN)
            } else {
                None
            },
            None => None,
        }
    } else {
        assert(t@.skip(0) =~= t@);
        match decimal(t, 0) {
            Some(m) => if m <= i64::MAX as u64 {
                Some(m as i64)
            } else {
                None
            },
            None => None,
        }
    }
}

fn usize_arg_exec(t: &Vec<char>) -> (r: Option<usize>)
    ensures
        r == usize_arg(t@),
{
    assert(t@.skip(0) =~= t@);
    match decimal(t, 0) {
        Some(m) => if m <= usize::MAX as u64 {
            Some(m as usize)
        } else {
            None
        },
        None => None,
    }
}

fn token_is(t: &Vec<char>, lit: &str) -> (r: bool)
    ensures
        r == (t@ == lit@),
{
    let n = lit.unicode_len();
    if t.len() != n {
        return false;
    }
    let mut i: usize = 0;
    while i < n
        invariant
            n == lit@.len(),
            n == t.len(),
            i <= n,
            forall|j: int| 0 <= j < i ==> t@[j] == lit@[j],
        decreases n - i,
    {
        if t[i] != lit.get_char(i) {
            return false;
        }
        i = i + 1;
    }
    assert(t@ =~= lit@);
    true
}

/// Assembles the characters of one line.
fn assemble_line(cs: &Vec<char>) -> (r: Result<ByteCode, ParseErrorKind>)
    ensures
        match parse_line(cs@) {
            Ok(i) => r is Ok && r->Ok_0@ == i,
            Err(k) => r == Err::<ByteCode, ParseErrorKind>(k),
        },
{
    let t = tokenize(cs);
    let n = t.len();
    let empty: Vec<char> = Vec::new();
    let m = if n > 0 {
        &t[0]
    } else {
        &empty
    };
    let arg = if n > 1 {
        &t[1]
    } else {
        &empty
    };
    assert(n > 0 ==> t@[0]@ == tokens(cs@)[0]);
    assert(n > 1 ==> t@[1]@ == tokens(cs@)[1]);
    if token_is(m, "LOAD_VAL") {
        if n == 2 {
            if let Some(v) = i64_arg_exec(arg) {
                return Ok(ByteCode::Load(v));
            }
        }
        Err(ParseErrorKind::MalformedArgument)
    } else if token_is(m, "WRITE_VAR") {
        if n == 2 {
            let name = alnum_string(arg);
            if name.unicode_len() > 0 {
                return Ok(ByteCode::Write(name));
            }
        }
        Err(ParseErrorKind::MalformedArgument)
    } else if token_is(m, "READ_VAR") {
        if n == 2 {
            let name = alnum_string(arg);
            if name.unicode_len() > 0 {
                return Ok(ByteCode::Read(name));
            }
        }
        Err(ParseErrorKind::MalformedArgument)
    } else if token_is(m, "JUMP") {
        if n == 2 {
            if let Some(p) = usize_arg_exec(arg) {
                return Ok(ByteCode::Jump(p));
            }
        }
        Err(ParseErrorKind::MalformedArgument)
    } else if token_is(m, "JE") {
        if n == 2 {
            if let Some(p) = usize_arg_exec(arg) {
                return Ok(ByteCode::Je(p));
            }
        }
        Err(ParseErrorKind::MalformedArgument)
    } else if token_is(m, "ADD") {
        if n == 1 { Ok(ByteCode::Add) } else { Err(ParseErrorKind::MalformedArgument) }
    } else if token_is(m, "SUB") {
        if n == 1 { Ok(ByteCode::Sub) } else { Err(ParseErrorKind::MalformedArgument) }
    } else if token_is(m, "MULTIPLY") {
        if n == 1 { Ok(ByteCode::Mul) } else { Err(ParseErrorKind::MalformedArgument) }
    } else if token_is(m, "DIVIDE") {
        if n == 1 { Ok(ByteCode::Div) } else { Err(ParseErrorKind::MalformedArgument) }
    } else if token_is(m, "RETURN_VALUE") {
        if n == 1 { Ok(ByteCode::Ret) } else { Err(ParseErrorKind::MalformedArgument) }
    } else {
        Err(ParseErrorKind::UnknownMnemonic)
    }
}

fn string_of(cs: &Vec<char>) -> (r: String)
    ensures
        r@ == cs@,
{
    let mut r = String::new();
    let mut i: usize = 0;
    while i < cs.len()
        invariant
            i <= cs.len(),
            r@ == cs@.take(i as int),
        decreases cs.len() - i,
    {
        push_char(&mut r, cs[i]);
        assert(r@ =~= cs@.take(i + 1));
        i = i + 1;
    }
    assert(cs@.take(i as int) =~= cs@);
    r
}

impl ByteCode {
    /// Assembles one line of program text.
    pub fn parse_instruction(bytecode: &str) -> (r: Result<ByteCode, ParseError>)
        ensures
            match parse_line(bytecode@) {
                Ok(i) => r is Ok && r->Ok_0@ == i,
                Err(k) => r is Err && r->Err_0.kind == k && r->Err_0.line@ == bytecode@,
            },
    {
        match assemble_line(&chars_of(bytecode)) {
            Ok(b) => Ok(b),
            Err(kind) => Err(ParseError { kind, line: String::from_str(bytecode) }),
        }
    }
}

fn blank_exec(cs: &Vec<char>) -> (r: bool)
    ensures
        r == is_blank(cs@),
{
    let mut i: usize = 0;
    while i < cs.len()
        invariant
            i <= cs.len(),
            forall|j: int| 0 <= j < i ==> is_blank_char(#[trigger] cs@[j]),
        decreases cs.len() - i,
    {
        if !(cs[i] == ' ' || cs[i] == '\t' || cs[i] == '\r') {
            return false;
        }
        i = i + 1;
    }
    true
}

/// Assembling is on track: with no error yet, `out` is what the lines
/// `done` assemble to; else the error is theirs.
spec fn assembled(done: Seq<Seq<char>>, out: Seq<ByteCode>, err: Option<ParseError>) -> bool {
    match err {
        None => parse_lines(done) == Ok::<Seq<Instr>, (ParseErrorKind, Seq<char>)>(
            program_view(out),
        ),
        Some(e) => parse_lines(done) == Err::<Seq<Instr>, (ParseErrorKind, Seq<char>)>(
            (e.kind, e.line@),
        ),
    }
}

fn take_line(
    line: &Vec<char>,
    out: &mut Vec<ByteCode>,
    err: &mut Option<ParseError>,
    Ghost(done): Ghost<Seq<Seq<char>>>,
)
    requires
        assembled(done, old(out)@, *old(err)),
    ensures
        assembled(done.push(line@), final(out)@, *final(err)),
{
    assert(done.push(line@).drop_last() =~= done);
    if err.is_some() {
        return;
    }
    if blank_exec(line) {
        return;
    }
    match assemble_line(line) {
        Ok(b) => {
            let ghost before = out@;
            out.push(b);
            assert(program_view(out@) =~= program_view(before).push(b@));
        },
        Err(kind) => {
            *err = Some(ParseError { kind, line: string_of(line) });
        },
    }
}

impl ByteCode {
    /// Assembles a whole program text, one instruction per non-blank line.
    pub fn parse(program: &str) -> (r: Result<Vec<ByteCode>, ParseError>)
        ensures
            match parse_text(program@) {
                Ok(p) => r is Ok && program_view(r->Ok_0@) == p,
                Err((k, l)) => r is Err && r->Err_0.kind == k && r->Err_0.line@ == l,
            },
    {
        let cs = chars_of(program);
        let mut out: Vec<ByteCode> = Vec::new();
        let mut err: Option<ParseError> = None;
        let mut line: Vec<char> = Vec::new();
        let mut i: usize = 0;
        let ghost mut done: Seq<Seq<char>> = Seq::empty();
        assert(program_view(out@) =~= Seq::<Instr>::empty());
        while i < cs.len()
            invariant
                cs@ == program@,
                i <= cs.len(),
                line_scan(cs@.take(i as int)) == (done, line@),
                assembled(done, out@, err),
            decreases cs.len() - i,
        {
            assert(cs@.take(i + 1).drop_last() =~= cs@.take(i as int));
            if cs[i] == '\n' {
                take_line(&line, &mut out, &mut err, Ghost(done));
                proof {
                    done = done.push(line@);
                }
                line = Vec::new();
            } else {
                line.push(cs[i]);
            }
            i = i + 1;
        }
        assert(cs@.take(i as int) =~= cs@);
        take_line(&line, &mut out, &mut err, Ghost(done));
        match err {
            Some(e) => Err(e),
            None => Ok(out),
        }
    }
}

} // verus!
