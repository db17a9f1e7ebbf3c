//! How deeply a query or an update is nested, and how long its chains are.
//!
//! The text is read as the parser of the graph store reads it, as far as that can be
//! told without parsing: strings, comments and IRIs are passed over, and brackets are
//! counted. Where it cannot be told what a character is, the count errs upward: what
//! may open a level counts as opening one, and only what surely closes a level counts
//! as closing one. Behind `<`, `#` and `>` on one line the rest of the line is either
//! plain text behind an IRI or a comment behind the sign `<`, unless `//` before the
//! `#` shows that it is an IRI; the count goes on as for plain text, and at the end of
//! the line it is no less than it was at the `>`.
//!
//! The parser folds what stands in a row (the steps of a path, the terms of a sum, the
//! parts of a group) into a nest as deep as the row is long. So the signs that may
//! stand between steps or terms are counted too, and the brackets, one of which every
//! part of a group but a run of triples has. Rows of a table, which are kept as a list,
//! are not counted.

use crate::text::chars_of;
use vstd::prelude::*;

verus! {

/// The deepest nesting that goes to the parser of the graph store.
pub const MAX_NESTING: usize = 16;

/// The most signs between the steps of paths that go to the parser.
pub const MAX_STEPS: usize = 64;

/// The most signs between the terms of expressions that go to the parser.
pub const MAX_SIGNS: usize = 2048;

/// The most brackets, rows apart, that go to the parser.
pub const MAX_PARTS: usize = 512;

/// What the reader is in.
#[derive(Clone, Copy, Debug)]
pub enum Mode {
    /// Plain text of the query.
    Code,
    /// Behind a `!`, which negates unless `=` follows.
    Bang,
    /// Behind a backslash in plain text.
    Escape,
    /// Behind the quote that opens a string; `true` for `"`, `false` for `'`.
    Quote1(bool),
    /// Behind two such quotes: an empty string, or the start of a long one.
    Quote2(bool),
    /// In a string on one line.
    Short(bool),
    /// Behind a backslash in such a string.
    ShortEscape(bool),
    /// In a long string, behind so many of the quotes that close it.
    Long(bool, u8),
    /// Behind a backslash in a long string.
    LongEscape(bool),
    /// In a comment, which ends with the line.
    Comment,
    /// Behind a `<` that may open an IRI or be a sign of its own: whether the `<` came
    /// just before, and whether a `#` has come since.
    Iri(bool, bool),
    /// Behind such a `<` and a `/`, with no `#` between them.
    IriSlash,
    /// In an IRI: behind such a `<` and `//`, with no `#` before them. Plain text does
    /// not hold `//`, so the `<` is no sign of its own.
    Name,
    /// Where it can no longer be told what a character is.
    Lost,
}

/// The reader at one place of the text.
#[derive(Clone, Copy, Debug)]
pub struct Lexer {
    pub mode: Mode,
    /// Whether the rest of the line may be a comment.
    pub hazy: bool,
    /// How many levels are open if it is one; 0 where the line is not hazy.
    pub floor: usize,
    /// Whether the character before was a backslash.
    pub escaped: bool,
    /// How many levels are open.
    pub depth: usize,
    /// The most levels that were open at once.
    pub peak: usize,
    /// A `|` or `^` that was counted as a step and is none if the same sign follows;
    /// a blank where there is none.
    pub pending: char,
    /// How many signs may stand between the steps of a path: `/`, `|` and `^`.
    pub steps: usize,
    /// How many signs may stand between the terms of an expression: `+`, `-`, `*`, `&`
    /// and `||`.
    pub signs: usize,
    /// How many brackets were opened, but for rows.
    pub parts: usize,
    /// How many digits of an escape with `u` are still to come; 0 outside of one.
    pub hex: u8,
    /// The number that the digits of the escape write so far.
    pub code: u32,
    /// Whether only rows in `(` and `)` have come since the last `{`.
    pub rows: bool,
    /// How many levels are open where the rows stand.
    pub row_depth: usize,
}

/// The reader before the first character.
pub open spec fn start() -> Lexer {
    Lexer {
        mode: Mode::Code,
        hazy: false,
        floor: 0,
        escaped: false,
        depth: 0,
        peak: 0,
        pending: ' ',
        steps: 0,
        signs: 0,
        parts: 0,
        hex: 0,
        code: 0,
        rows: false,
        row_depth: 0,
    }
}

/// One more level is open.
pub open spec fn raised(s: Lexer) -> Lexer {
    if s.depth < usize::MAX {
        let depth: usize = (s.depth + 1) as usize;
        Lexer { depth, peak: if depth > s.peak { depth } else { s.peak }, ..s }
    } else {
        s
    }
}

/// One more bracket was opened.
pub open spec fn counted(s: Lexer) -> Lexer {
    if s.parts < usize::MAX {
        Lexer { parts: (s.parts + 1) as usize, ..s }
    } else {
        s
    }
}

/// One more sign between terms.
pub open spec fn signed(s: Lexer) -> Lexer {
    if s.signs < usize::MAX {
        Lexer { signs: (s.signs + 1) as usize, ..s }
    } else {
        s
    }
}

/// One more sign between steps.
pub open spec fn walked(s: Lexer) -> Lexer {
    if s.steps < usize::MAX {
        Lexer { steps: (s.steps + 1) as usize, ..s }
    } else {
        s
    }
}

/// A bracket was opened: one more level is open, and one more bracket counts.
pub open spec fn opened(s: Lexer) -> Lexer {
    counted(raised(s))
}

/// The second of two equal signs: `||` stands between terms and `^^` before the type
/// of a literal, so the first was no step.
pub open spec fn paired(s: Lexer, c: char) -> Lexer {
    let t = if s.steps > 0 {
        Lexer { steps: (s.steps - 1) as usize, ..s }
    } else {
        s
    };
    if c == '|' {
        signed(t)
    } else {
        t
    }
}

/// Keeps track of rows. Brackets in `(` and `)` that follow a `{` with nothing but
/// blanks between them are the rows of a table or lists; they are parts of nothing
/// that nests, and are not counted.
pub open spec fn rowed(before: Lexer, t: Lexer, c: char) -> Lexer {
    let lost = match t.mode {
        Mode::Lost => true,
        _ => false,
    };
    let plain = match before.mode {
        Mode::Code => true,
        _ => false,
    };
    if t.hazy || lost {
        Lexer { rows: false, ..t }
    } else if c == '{' && plain {
        Lexer { rows: true, row_depth: t.depth, ..t }
    } else if before.rows && before.depth == before.row_depth && c != '(' && c != ' ' && c != '\t'
        && c != '\n' && c != '\r' {
        Lexer { rows: false, ..t }
    } else if t.depth < t.row_depth {
        Lexer { rows: false, ..t }
    } else {
        t
    }
}

/// One level is closed.
pub open spec fn lowered(s: Lexer) -> Lexer {
    if s.depth == 0 {
        s
    } else {
        Lexer { depth: (s.depth - 1) as usize, ..s }
    }
}

/// The line is hazy no longer: as many levels are open as are open either way.
pub open spec fn settled(s: Lexer) -> Lexer {
    if s.hazy && s.floor > s.depth {
        Lexer { hazy: false, floor: 0, depth: s.floor, ..s }
    } else {
        Lexer { hazy: false, floor: 0, ..s }
    }
}

/// The rest of the line may be a comment.
pub open spec fn hazed(s: Lexer) -> Lexer {
    if s.hazy && s.floor > s.depth {
        Lexer { hazy: true, ..s }
    } else {
        Lexer { hazy: true, floor: s.depth, ..s }
    }
}

/// The reader behind a character of a comment.
pub open spec fn in_comment(s: Lexer, c: char) -> Lexer {
    if c == '\n' || c == '\r' {
        Lexer { mode: Mode::Code, ..s }
    } else {
        Lexer { mode: Mode::Comment, ..s }
    }
}

/// The reader behind a character of plain text.
pub open spec fn in_code(s: Lexer, c: char) -> Lexer {
    if c == '(' && s.rows && s.depth == s.row_depth && !s.hazy {
        raised(Lexer { mode: Mode::Code, ..s })
    } else if c == '{' || c == '(' || c == '[' {
        opened(Lexer { mode: Mode::Code, ..s })
    } else if c == '/' {
        walked(Lexer { mode: Mode::Code, ..s })
    } else if c == '|' || c == '^' {
        Lexer { pending: c, ..walked(Lexer { mode: Mode::Code, ..s }) }
    } else if c == '+' || c == '-' || c == '*' || c == '&' {
        signed(Lexer { mode: Mode::Code, ..s })
    } else if c == '}' || c == ')' || c == ']' {
        lowered(Lexer { mode: Mode::Code, ..s })
    } else if c == '"' {
        Lexer { mode: Mode::Quote1(true), ..s }
    } else if c == '\'' {
        Lexer { mode: Mode::Quote1(false), ..s }
    } else if c == '#' {
        Lexer { mode: Mode::Comment, ..s }
    } else if c == '\\' {
        Lexer { mode: Mode::Escape, ..s }
    } else if c == '<' {
        Lexer { mode: Mode::Iri(true, false), ..s }
    } else if c == '!' {
        Lexer { mode: Mode::Bang, ..s }
    } else {
        Lexer { mode: Mode::Code, ..s }
    }
}

/// The reader behind a character that follows a `<` that may open an IRI.
pub open spec fn in_iri(s: Lexer, fresh: bool, hash: bool, c: char) -> Lexer {
    if c == '>' {
        if hash {
            Lexer { mode: Mode::Code, ..hazed(s) }
        } else {
            Lexer { mode: Mode::Code, ..s }
        }
    } else if c == '<' {
        if fresh {
            opened(Lexer { mode: Mode::Iri(true, false), ..s })
        } else if hash {
            Lexer { mode: Mode::Comment, ..s }
        } else {
            in_code(s, c)
        }
    } else if c == '\'' || c == '\\' {
        Lexer { mode: Mode::Lost, ..settled(s) }
    } else if c == '"' || c == ' ' || c == '\t' || c == '\n' || c == '\r' || c == '|' || c == '^' {
        if hash {
            in_comment(s, c)
        } else {
            in_code(s, c)
        }
    } else if c == '#' {
        Lexer { mode: Mode::Iri(false, true), ..s }
    } else if c == '/' && !hash {
        Lexer { mode: Mode::IriSlash, ..s }
    } else if (c == '+' || c == '-' || c == '*' || c == '&') && !hash {
        signed(Lexer { mode: Mode::Iri(false, hash), ..s })
    } else if c == '{' || c == '(' || c == '[' || c == '!' {
        opened(Lexer { mode: Mode::Iri(false, hash), ..s })
    } else {
        Lexer { mode: Mode::Iri(false, hash), ..s }
    }
}

/// The reader behind one more character, but for escapes and rows.
pub open spec fn lex_plain(before: Lexer, c: char) -> Lexer {
    if before.hazy && (c == '\n' || c == '\r') {
        let s = Lexer { escaped: false, pending: ' ', ..settled(before) };
        match before.mode {
            Mode::Code
            | Mode::Comment
            | Mode::Escape
            | Mode::Quote2(_)
            | Mode::Iri(_, _)
            | Mode::IriSlash
            | Mode::Name => Lexer { mode: Mode::Code, ..s },
            Mode::Bang => Lexer { mode: Mode::Code, ..opened(s) },
            _ => Lexer { mode: Mode::Lost, ..s },
        }
    } else {
        let s = Lexer { escaped: c == '\\', pending: ' ', ..before };
        match s.mode {
            Mode::Lost => if c == '{' || c == '(' || c == '[' || c == '<' || c == '!' {
                opened(settled(s))
            } else if c == '/' || c == '|' || c == '^' {
                walked(settled(s))
            } else if c == '+' || c == '-' || c == '*' || c == '&' {
                signed(settled(s))
            } else {
                settled(s)
            },
            Mode::Code => if (c == '|' || c == '^') && before.pending == c {
                paired(s, c)
            } else {
                in_code(s, c)
            },
            Mode::Bang => if c == '=' {
                Lexer { mode: Mode::Code, ..s }
            } else {
                in_code(opened(s), c)
            },
            Mode::Escape => Lexer { mode: Mode::Code, ..s },
            Mode::Quote1(double) => if (double && c == '"') || (!double && c == '\'') {
                Lexer { mode: Mode::Quote2(double), ..s }
            } else if c == '\\' {
                Lexer { mode: Mode::ShortEscape(double), ..s }
            } else if c == '\n' || c == '\r' {
                Lexer { mode: Mode::Lost, ..s }
            } else {
                Lexer { mode: Mode::Short(double), ..s }
            },
            Mode::Quote2(double) => if (double && c == '"') || (!double && c == '\'') {
                Lexer { mode: Mode::Long(double, 0), ..s }
            } else {
                in_code(s, c)
            },
            Mode::Short(double) => if (double && c == '"') || (!double && c == '\'') {
                Lexer { mode: Mode::Code, ..s }
            } else if c == '\\' {
                Lexer { mode: Mode::ShortEscape(double), ..s }
            } else if c == '\n' || c == '\r' {
                Lexer { mode: Mode::Lost, ..s }
            } else {
                s
            },
            Mode::ShortEscape(double) => Lexer { mode: Mode::Short(double), ..s },
            Mode::Long(double, run) => if (double && c == '"') || (!double && c == '\'') {
                if run >= 2 {
                    Lexer { mode: Mode::Code, ..s }
                } else if run == 1 {
                    Lexer { mode: Mode::Long(double, 2), ..s }
                } else {
                    Lexer { mode: Mode::Long(double, 1), ..s }
                }
            } else if c == '\\' {
                Lexer { mode: Mode::LongEscape(double), ..s }
            } else {
                Lexer { mode: Mode::Long(double, 0), ..s }
            },
            Mode::LongEscape(double) => Lexer { mode: Mode::Long(double, 0), ..s },
            Mode::Comment => in_comment(s, c),
            Mode::Iri(fresh, hash) => in_iri(s, fresh, hash, c),
            Mode::IriSlash => if c == '/' {
                Lexer { mode: Mode::Name, ..s }
            } else {
                in_iri(walked(s), false, false, c)
            },
            Mode::Name => if c == '>' {
                Lexer { mode: Mode::Code, ..s }
            } else {
                s
            },
        }
    }
}

/// The value of a hexadecimal digit.
pub open spec fn hex_of(c: char) -> Option<u32> {
    match c {
        '0' => Some(0u32),
        '1' => Some(1u32),
        '2' => Some(2u32),
        '3' => Some(3u32),
        '4' => Some(4u32),
        '5' => Some(5u32),
        '6' => Some(6u32),
        '7' => Some(7u32),
        '8' => Some(8u32),
        '9' => Some(9u32),
        'a' | 'A' => Some(10u32),
        'b' | 'B' => Some(11u32),
        'c' | 'C' => Some(12u32),
        'd' | 'D' => Some(13u32),
        'e' | 'E' => Some(14u32),
        'f' | 'F' => Some(15u32),
        _ => None,
    }
}

/// Whether the character with this number is one that means nothing to the parser
/// wherever it stands: a letter or a digit, or a character beyond the first 128.
pub open spec fn harmless(code: u32) -> bool {
    code >= 128 || (48 <= code && code <= 57) || (65 <= code && code <= 90) || (97 <= code
        && code <= 122)
}

/// The reader where an escape may stand for any sign: from here it can no longer be
/// told what a character is.
pub open spec fn strayed(s: Lexer) -> Lexer {
    Lexer {
        mode: Mode::Lost,
        escaped: false,
        pending: ' ',
        hex: 0,
        code: 0,
        ..signed(walked(opened(settled(s))))
    }
}

/// The reader behind one more character, but for the rows. A backslash with `u` and
/// four digits behind it, or `U` and eight, may be read as the character with that
/// number before anything else is read. Where that is a harmless character the text
/// reads alike either way; where it is not, the reader is lost.
pub open spec fn lex_inner(before: Lexer, c: char) -> Lexer {
    let t = lex_plain(before, c);
    if before.escaped && (c == 'u' || c == 'U') {
        Lexer { hex: if c == 'u' { 4u8 } else { 8u8 }, code: 0, ..t }
    } else if before.hex > 0 {
        match hex_of(c) {
            Some(digit) => {
                let code: u32 = if before.code > 0x10_ffff {
                    before.code
                } else {
                    (before.code * 16 + digit) as u32
                };
                if before.hex > 1 {
                    Lexer { hex: (before.hex - 1) as u8, code, ..t }
                } else if harmless(code) {
                    Lexer { hex: 0, code: 0, ..t }
                } else {
                    strayed(t)
                }
            },
            None => Lexer { hex: 0, code: 0, ..t },
        }
    } else {
        t
    }
}

/// The reader behind one more character.
pub open spec fn lex_step(before: Lexer, c: char) -> Lexer {
    rowed(before, lex_inner(before, c), c)
}

/// The reader behind the last character of a text.
pub open spec fn lexed(text: Seq<char>) -> Lexer
    decreases text.len(),
{
    if text.len() == 0 {
        start()
    } else {
        lex_step(lexed(text.drop_last()), text.last())
    }
}

/// How deeply a text is nested: the most levels that are open at once.
pub open spec fn nesting(text: Seq<char>) -> nat {
    lexed(text).peak as nat
}

/// The text has no more signs and brackets than go to the parser. What stands in a row
/// with such signs between makes a chain that the parser folds into a nest as deep as
/// the chain is long.
pub open spec fn short(text: Seq<char>) -> bool {
    &&& lexed(text).steps <= MAX_STEPS
    &&& lexed(text).signs <= MAX_SIGNS
    &&& lexed(text).parts <= MAX_PARTS
}

/// What goes to the parser of the graph store: a text that is nested no deeper than
/// `MAX_NESTING` and has no more signs and brackets than the limits allow.
pub open spec fn fits(text: Seq<char>) -> bool {
    nesting(text) <= MAX_NESTING && short(text)
}

fn raise(s: Lexer) -> (r: Lexer)
    ensures
        r == raised(s),
{
    if s.depth < usize::MAX {
        let depth: usize = (s.depth + 1) as usize;
        Lexer { depth, peak: if depth > s.peak { depth } else { s.peak }, ..s }
    } else {
        s
    }
}

fn count(s: Lexer) -> (r: Lexer)
    ensures
        r == counted(s),
{
    if s.parts < usize::MAX {
        Lexer { parts: (s.parts + 1) as usize, ..s }
    } else {
        s
    }
}

fn sign(s: Lexer) -> (r: Lexer)
    ensures
        r == signed(s),
{
    if s.signs < usize::MAX {
        Lexer { signs: (s.signs + 1) as usize, ..s }
    } else {
        s
    }
}

fn walk(s: Lexer) -> (r: Lexer)
    ensures
        r == walked(s),
{
    if s.steps < usize::MAX {
        Lexer { steps: (s.steps + 1) as usize, ..s }
    } else {
        s
    }
}

fn open_up(s: Lexer) -> (r: Lexer)
    ensures
        r == opened(s),
{
    count(raise(s))
}

fn pair(s: Lexer, c: char) -> (r: Lexer)
    ensures
        r == paired(s, c),
{
    let t = if s.steps > 0 {
        Lexer { steps: (s.steps - 1) as usize, ..s }
    } else {
        s
    };
    if c == '|' {
        sign(t)
    } else {
        t
    }
}

fn row(before: Lexer, t: Lexer, c: char) -> (r: Lexer)
    ensures
        r == rowed(before, t, c),
{
    let lost = match t.mode {
        Mode::Lost => true,
        _ => false,
    };
    let plain = match before.mode {
        Mode::Code => true,
        _ => false,
    };
    if t.hazy || lost {
        Lexer { rows: false, ..t }
    } else if c == '{' && plain {
        Lexer { rows: true, row_depth: t.depth, ..t }
    } else if before.rows && before.depth == before.row_depth && c != '(' && c != ' ' && c != '\t'
        && c != '\n' && c != '\r' {
        Lexer { rows: false, ..t }
    } else if t.depth < t.row_depth {
        Lexer { rows: false, ..t }
    } else {
        t
    }
}

fn lower(s: Lexer) -> (r: Lexer)
    ensures
        r == lowered(s),
{
    if s.depth == 0 {
        s
    } else {
        Lexer { depth: (s.depth - 1) as usize, ..s }
    }
}

fn settle(s: Lexer) -> (r: Lexer)
    ensures
        r == settled(s),
{
    if s.hazy && s.floor > s.depth {
        Lexer { hazy: false, floor: 0, depth: s.floor, ..s }
    } else {
        Lexer { hazy: false, floor: 0, ..s }
    }
}

fn haze(s: Lexer) -> (r: Lexer)
    ensures
        r == hazed(s),
{
    if s.hazy && s.floor > s.depth {
        Lexer { hazy: true, ..s }
    } else {
        Lexer { hazy: true, floor: s.depth, ..s }
    }
}

fn comment(s: Lexer, c: char) -> (r: Lexer)
    ensures
        r == in_comment(s, c),
{
    if c == '\n' || c == '\r' {
        Lexer { mode: Mode::Code, ..s }
    } else {
        Lexer { mode: Mode::Comment, ..s }
    }
}

fn code(s: Lexer, c: char) -> (r: Lexer)
    ensures
        r == in_code(s, c),
{
    if c == '(' && s.rows && s.depth == s.row_depth && !s.hazy {
        raise(Lexer { mode: Mode::Code, ..s })
    } else if c == '{' || c == '(' || c == '[' {
        open_up(Lexer { mode: Mode::Code, ..s })
    } else if c == '/' {
        walk(Lexer { mode: Mode::Code, ..s })
    } else if c == '|' || c == '^' {
        Lexer { pending: c, ..walk(Lexer { mode: Mode::Code, ..s }) }
    } else if c == '+' || c == '-' || c == '*' || c == '&' {
        sign(Lexer { mode: Mode::Code, ..s })
    } else if c == '}' || c == ')' || c == ']' {
        lower(Lexer { mode: Mode::Code, ..s })
    } else if c == '"' {
        Lexer { mode: Mode::Quote1(true), ..s }
    } else if c == '\'' {
        Lexer { mode: Mode::Quote1(false), ..s }
    } else if c == '#' {
        Lexer { mode: Mode::Comment, ..s }
    } else if c == '\\' {
        Lexer { mode: Mode::Escape, ..s }
    } else if c == '<' {
        Lexer { mode: Mode::Iri(true, false), ..s }
    } else if c == '!' {
        Lexer { mode: Mode::Bang, ..s }
    } else {
        Lexer { mode: Mode::Code, ..s }
    }
}

fn iri(s: Lexer, fresh: bool, hash: bool, c: char) -> (r: Lexer)
    ensures
        r == in_iri(s, fresh, hash, c),
{
    if c == '>' {
        if hash {
            Lexer { mode: Mode::Code, ..haze(s) }
        } else {
            Lexer { mode: Mode::Code, ..s }
        }
    } else if c == '<' {
        if fresh {
            open_up(Lexer { mode: Mode::Iri(true, false), ..s })
        } else if hash {
            Lexer { mode: Mode::Comment, ..s }
        } else {
            code(s, c)
        }
    } else if c == '\'' || c == '\\' {
        Lexer { mode: Mode::Lost, ..settle(s) }
    } else if c == '"' || c == ' ' || c == '\t' || c == '\n' || c == '\r' || c == '|' || c == '^' {
        if hash {
            comment(s, c)
        } else {
            code(s, c)
        }
    } else if c == '#' {
        Lexer { mode: Mode::Iri(false, true), ..s }
    } else if c == '/' && !hash {
        Lexer { mode: Mode::IriSlash, ..s }
    } else if (c == '+' || c == '-' || c == '*' || c == '&') && !hash {
        sign(Lexer { mode: Mode::Iri(false, hash), ..s })
    } else if c == '{' || c == '(' || c == '[' || c == '!' {
        open_up(Lexer { mode: Mode::Iri(false, hash), ..s })
    } else {
        Lexer { mode: Mode::Iri(false, hash), ..s }
    }
}

fn plain(before: Lexer, c: char) -> (r: Lexer)
    ensures
        r == lex_plain(before, c),
{
    if before.hazy && (c == '\n' || c == '\r') {
        let s = Lexer { escaped: false, pending: ' ', ..settle(before) };
        match before.mode {
            Mode::Code
            | Mode::Comment
            | Mode::Escape
            | Mode::Quote2(_)
            | Mode::Iri(_, _)
            | Mode::IriSlash
            | Mode::Name => Lexer { mode: Mode::Code, ..s },
            Mode::Bang => Lexer { mode: Mode::Code, ..open_up(s) },
            _ => Lexer { mode: Mode::Lost, ..s },
        }
    } else {
        let s = Lexer { escaped: c == '\\', pending: ' ', ..before };
        match s.mode {
            Mode::Lost => if c == '{' || c == '(' || c == '[' || c == '<' || c == '!' {
                open_up(settle(s))
            } else if c == '/' || c == '|' || c == '^' {
                walk(settle(s))
            } else if c == '+' || c == '-' || c == '*' || c == '&' {
                sign(settle(s))
            } else {
                settle(s)
            },
            Mode::Code => if (c == '|' || c == '^') && before.pending == c {
                pair(s, c)
            } else {
                code(s, c)
            },
            Mode::Bang => if c == '=' {
                Lexer { mode: Mode::Code, ..s }
            } else {
                code(open_up(s), c)
            },
            Mode::Escape => Lexer { mode: Mode::Code, ..s },
            Mode::Quote1(double) => if (double && c == '"') || (!double && c == '\'') {
                Lexer { mode: Mode::Quote2(double), ..s }
            } else if c == '\\' {
                Lexer { mode: Mode::ShortEscape(double), ..s }
            } else if c == '\n' || c == '\r' {
                Lexer { mode: Mode::Lost, ..s }
            } else {
                Lexer { mode: Mode::Short(double), ..s }
            },
            Mode::Quote2(double) => if (double && c == '"') || (!double && c == '\'') {
                Lexer { mode: Mode::Long(double, 0), ..s }
            } else {
                code(s, c)
            },
            Mode::Short(double) => if (double && c == '"') || (!double && c == '\'') {
                Lexer { mode: Mode::Code, ..s }
            } else if c == '\\' {
                Lexer { mode: Mode::ShortEscape(double), ..s }
            } else if c == '\n' || c == '\r' {
                Lexer { mode: Mode::Lost, ..s }
            } else {
                s
            },
            Mode::ShortEscape(double) => Lexer { mode: Mode::Short(double), ..s },
            Mode::Long(double, run) => if (double && c == '"') || (!double && c == '\'') {
                if run >= 2 {
                    Lexer { mode: Mode::Code, ..s }
                } else if run == 1 {
                    Lexer { mode: Mode::Long(double, 2), ..s }
                } else {
                    Lexer { mode: Mode::Long(double, 1), ..s }
                }
            } else if c == '\\' {
                Lexer { mode: Mode::LongEscape(double), ..s }
            } else {
                Lexer { mode: Mode::Long(double, 0), ..s }
            },
            Mode::LongEscape(double) => Lexer { mode: Mode::Long(double, 0), ..s },
            Mode::Comment => comment(s, c),
            Mode::Iri(fresh, hash) => iri(s, fresh, hash, c),
            Mode::IriSlash => if c == '/' {
                Lexer { mode: Mode::Name, ..s }
            } else {
                iri(walk(s), false, false, c)
            },
            Mode::Name => if c == '>' {
                Lexer { mode: Mode::Code, ..s }
            } else {
                s
            },
        }
    }
}

fn hex(c: char) -> (r: Option<u32>)
    ensures
        r == hex_of(c),
{
    match c {
        '0' => Some(0u32),
        '1' => Some(1u32),
        '2' => Some(2u32),
        '3' => Some(3u32),
        '4' => Some(4u32),
        '5' => Some(5u32),
        '6' => Some(6u32),
        '7' => Some(7u32),
        '8' => Some(8u32),
        '9' => Some(9u32),
        'a' | 'A' => Some(10u32),
        'b' | 'B' => Some(11u32),
        'c' | 'C' => Some(12u32),
        'd' | 'D' => Some(13u32),
        'e' | 'E' => Some(14u32),
        'f' | 'F' => Some(15u32),
        _ => None,
    }
}

fn is_harmless(code: u32) -> (r: bool)
    ensures
        r == harmless(code),
{
    code >= 128 || (48 <= code && code <= 57) || (65 <= code && code <= 90) || (97 <= code
        && code <= 122)
}

fn stray(s: Lexer) -> (r: Lexer)
    ensures
        r == strayed(s),
{
    Lexer {
        mode: Mode::Lost,
        escaped: false,
        pending: ' ',
        hex: 0,
        code: 0,
        ..sign(walk(open_up(settle(s))))
    }
}

fn inner(before: Lexer, c: char) -> (r: Lexer)
    ensures
        r == lex_inner(before, c),
{
    let t = plain(before, c);
    if before.escaped && (c == 'u' || c == 'U') {
        Lexer { hex: if c == 'u' { 4u8 } else { 8u8 }, code: 0, ..t }
    } else if before.hex > 0 {
        match hex(c) {
            Some(digit) => {
                let code: u32 = if before.code > 0x10_ffff {
                    before.code
                } else {
                    (before.code * 16 + digit) as u32
                };
                if before.hex > 1 {
                    Lexer { hex: (before.hex - 1) as u8, code, ..t }
                } else if is_harmless(code) {
                    Lexer { hex: 0, code: 0, ..t }
                } else {
                    stray(t)
                }
            },
            None => Lexer { hex: 0, code: 0, ..t },
        }
    } else {
        t
    }
}

fn step(before: Lexer, c: char) -> (r: Lexer)
    ensures
        r == lex_step(before, c),
{
    row(before, inner(before, c), c)
}

/// Reads a text to its end.
pub fn lex(text: &str) -> (s: Lexer)
    ensures
        s == lexed(text@),
{
    let chars = chars_of(text);
    let mut s = Lexer {
        mode: Mode::Code,
        hazy: false,
        floor: 0,
        escaped: false,
        depth: 0,
        peak: 0,
        pending: ' ',
        steps: 0,
        signs: 0,
        parts: 0,
        hex: 0,
        code: 0,
        rows: false,
        row_depth: 0,
    };
    let mut i: usize = 0;
    assert(chars@.take(0) == Seq::<char>::empty());
    while i < chars.len()
        invariant
            i <= chars@.len(),
            s == lexed(chars@.take(i as int)),
        decreases chars@.len() - i,
    {
        proof {
            assert(chars@.take(i + 1).drop_last() == chars@.take(i as int));
            assert(chars@.take(i + 1).last() == chars@[i as int]);
        }
        s = step(s, chars[i]);
        i = i + 1;
    }
    assert(chars@.take(chars@.len() as int) == chars@);
    s
}

/// How deeply a text is nested.
pub fn nesting_of(text: &str) -> (n: usize)
    ensures
        n == nesting(text@),
{
    lex(text).peak
}

/// Whether a text has no more signs and brackets than go to the parser.
pub fn is_short(text: &str) -> (b: bool)
    ensures
        b == short(text@),
{
    let s = lex(text);
    s.steps <= MAX_STEPS && s.signs <= MAX_SIGNS && s.parts <= MAX_PARTS
}

#[verifier::rlimit(100)]
proof fn lemma_code_keeps_the_peak(s: Lexer, c: char)
    ensures
        in_code(s, c).peak >= s.peak,
{
}

#[verifier::rlimit(100)]
proof fn lemma_iri_keeps_the_peak(s: Lexer, fresh: bool, hash: bool, c: char)
    ensures
        in_iri(s, fresh, hash, c).peak >= s.peak,
{
    lemma_code_keeps_the_peak(s, c);
}

#[verifier::rlimit(100)]
proof fn lemma_plain_keeps_the_peak(before: Lexer, c: char)
    ensures
        lex_plain(before, c).peak >= before.peak,
{
    assert forall|s: Lexer| (#[trigger] in_code(s, c)).peak >= s.peak by {
        lemma_code_keeps_the_peak(s, c);
    }
    assert forall|s: Lexer, fresh: bool, hash: bool| (#[trigger] in_iri(s, fresh, hash, c)).peak
        >= s.peak by {
        lemma_iri_keeps_the_peak(s, fresh, hash, c);
    }
}

#[verifier::rlimit(100)]
proof fn lemma_inner_keeps_the_peak(before: Lexer, c: char)
    ensures
        lex_inner(before, c).peak >= before.peak,
{
    lemma_plain_keeps_the_peak(before, c);
}

/// No character makes a text less deep than it was.
#[verifier::rlimit(100)]
pub proof fn lemma_step_keeps_the_peak(before: Lexer, c: char)
    ensures
        lex_step(before, c).peak >= before.peak,
{
    lemma_inner_keeps_the_peak(before, c);
}

/// A text is no less deep than any of its beginnings: what is refused for its nesting
/// stays refused, whatever follows.
#[verifier::rlimit(100)]
pub proof fn lemma_nesting_grows(text: Seq<char>, n: int)
    requires
        0 <= n <= text.len(),
    ensures
        nesting(text.take(n)) <= nesting(text),
    decreases text.len() - n,
{
    if n < text.len() {
        lemma_nesting_grows(text, n + 1);
        assert(text.take(n + 1).drop_last() == text.take(n));
        assert(text.take(n + 1).last() == text[n]);
        lemma_step_keeps_the_peak(lexed(text.take(n)), text[n]);
        assert(lexed(text.take(n + 1)) == lex_step(lexed(text.take(n)), text[n]));
    } else {
        assert(text.take(n) == text);
    }
}

/// Brackets that are opened and never closed are as deep as they are many.
pub proof fn lemma_open_brackets_nest(levels: nat)
    requires
        levels <= usize::MAX,
    ensures
        nesting(Seq::new(levels, |i: int| '{')) == levels,
        lexed(Seq::new(levels, |i: int| '{')).depth == levels,
        lexed(Seq::new(levels, |i: int| '{')).mode is Code,
        !lexed(Seq::new(levels, |i: int| '{')).hazy,
        lexed(Seq::new(levels, |i: int| '{')).floor == 0,
        !lexed(Seq::new(levels, |i: int| '{')).escaped,
        lexed(Seq::new(levels, |i: int| '{')).pending == ' ',
        lexed(Seq::new(levels, |i: int| '{')).hex == 0,
    decreases levels,
{
    if levels > 0 {
        lemma_open_brackets_nest((levels - 1) as nat);
        let text = Seq::new(levels, |i: int| '{');
        assert(text.drop_last() =~= Seq::new((levels - 1) as nat, |i: int| '{'));
    }
}

} // verus!
