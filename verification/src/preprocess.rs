//! Detects C preprocessor directives and predefined macros in raw source
//! text, line by line, before the text is handed to a full grammar parser.

use vstd::prelude::*;

use crate::error::CInputError;

verus! {

/// The number of recognized directive and predefined-macro kinds.
pub const KIND_COUNT: usize = 17;

/// The closed, ordered catalog of recognized preprocessor forms.
///
/// The first eleven kinds are directives: they match a line that begins,
/// after optional leading whitespace, with `#` followed by the keyword.
/// The last six are predefined macros: they match when their token appears
/// anywhere on the line. The order of the variants fixes the priority used
/// to break ties when a line matches several kinds (see `kind_id`).
#[derive(Debug, PartialEq, Eq, Copy, Clone, Structural)]
pub enum CPPDirective {
    Define,
    Include,
    Undef,
    Ifdef,
    Ifndef,
    If,
    Else,
    Elif,
    Endif,
    Error,
    Pragma,
    Date,
    Time,
    Timestamp,
    File,
    Line,
    Stdc,
}

/// The stable integer identity of a kind: its position in the catalog.
pub open spec fn kind_id(k: CPPDirective) -> int {
    match k {
        CPPDirective::Define => 0,
        CPPDirective::Include => 1,
        CPPDirective::Undef => 2,
        CPPDirective::Ifdef => 3,
        CPPDirective::Ifndef => 4,
        CPPDirective::If => 5,
        CPPDirective::Else => 6,
        CPPDirective::Elif => 7,
        CPPDirective::Endif => 8,
        CPPDirective::Error => 9,
        CPPDirective::Pragma => 10,
        CPPDirective::Date => 11,
        CPPDirective::Time => 12,
        CPPDirective::Timestamp => 13,
        CPPDirective::File => 14,
        CPPDirective::Line => 15,
        CPPDirective::Stdc => 16,
    }
}

/// The kind that sits at a given catalog position (inverse of `kind_id`).
pub open spec fn kind_of_id(i: int) -> CPPDirective {
    if i == 0 {
        CPPDirective::Define
    } else if i == 1 {
        CPPDirective::Include
    } else if i == 2 {
        CPPDirective::Undef
    } else if i == 3 {
        CPPDirective::Ifdef
    } else if i == 4 {
        CPPDirective::Ifndef
    } else if i == 5 {
        CPPDirective::If
    } else if i == 6 {
        CPPDirective::Else
    } else if i == 7 {
        CPPDirective::Elif
    } else if i == 8 {
        CPPDirective::Endif
    } else if i == 9 {
        CPPDirective::Error
    } else if i == 10 {
        CPPDirective::Pragma
    } else if i == 11 {
        CPPDirective::Date
    } else if i == 12 {
        CPPDirective::Time
    } else if i == 13 {
        CPPDirective::Timestamp
    } else if i == 14 {
        CPPDirective::File
    } else if i == 15 {
        CPPDirective::Line
    } else {
        CPPDirective::Stdc
    }
}

/// `kind_id` ranges over the catalog positions and `kind_of_id` inverts it.
pub proof fn lemma_kind_id_bijective(k: CPPDirective)
    ensures
        0 <= kind_id(k) < KIND_COUNT,
        kind_of_id(kind_id(k)) == k,
{
}

/// True of the directive kinds, whose match is anchored at line start;
/// false of the predefined-macro kinds, whose match is a substring search.
pub open spec fn is_directive_kind(k: CPPDirective) -> bool {
    kind_id(k) < 11
}

/// The token a kind is detected by, which is also its canonical display
/// form, used verbatim in diagnostics.
pub open spec fn token(k: CPPDirective) -> Seq<char> {
    match k {
        CPPDirective::Define => "#define"@,
        CPPDirective::Include => "#include"@,
        CPPDirective::Undef => "#undef"@,
        CPPDirective::Ifdef => "#ifdef"@,
        CPPDirective::Ifndef => "#ifndef"@,
        CPPDirective::If => "#if"@,
        CPPDirective::Else => "#else"@,
        CPPDirective::Elif => "#elif"@,
        CPPDirective::Endif => "#endif"@,
        CPPDirective::Error => "#error"@,
        CPPDirective::Pragma => "#pragma"@,
        CPPDirective::Date => "__DATE__"@,
        CPPDirective::Time => "__TIME__"@,
        CPPDirective::Timestamp => "__TIMESTAMP__"@,
        CPPDirective::File => "__FILE__"@,
        CPPDirective::Line => "__LINE__"@,
        CPPDirective::Stdc => "__STDC__"@,
    }
}

/// The characters with the Unicode `White_Space` property.
pub open spec fn is_space(c: char) -> bool {
    ||| c == '\u{0009}'
    ||| c == '\u{000A}'
    ||| c == '\u{000B}'
    ||| c == '\u{000C}'
    ||| c == '\u{000D}'
    ||| c == '\u{0020}'
    ||| c == '\u{0085}'
    ||| c == '\u{00A0}'
    ||| c == '\u{1680}'
    ||| c == '\u{2000}'
    ||| c == '\u{2001}'
    ||| c == '\u{2002}'
    ||| c == '\u{2003}'
    ||| c == '\u{2004}'
    ||| c == '\u{2005}'
    ||| c == '\u{2006}'
    ||| c == '\u{2007}'
    ||| c == '\u{2008}'
    ||| c == '\u{2009}'
    ||| c == '\u{200A}'
    ||| c == '\u{2028}'
    ||| c == '\u{2029}'
    ||| c == '\u{202F}'
    ||| c == '\u{205F}'
    ||| c == '\u{3000}'
}

/// Every token is non-empty and starts with `#` or `_`, never whitespace.
pub proof fn lemma_token_facts(k: CPPDirective)
    ensures
        token(k).len() > 0,
        !is_space(token(k)[0]),
        is_directive_kind(k) ==> token(k)[0] == '#',
{
    reveal_strlit("#define");
    reveal_strlit("#include");
    reveal_strlit("#undef");
    reveal_strlit("#ifdef");
    reveal_strlit("#ifndef");
    reveal_strlit("#if");
    reveal_strlit("#else");
    reveal_strlit("#elif");
    reveal_strlit("#endif");
    reveal_strlit("#error");
    reveal_strlit("#pragma");
    reveal_strlit("__DATE__");
    reveal_strlit("__TIME__");
    reveal_strlit("__TIMESTAMP__");
    reveal_strlit("__FILE__");
    reveal_strlit("__LINE__");
    reveal_strlit("__STDC__");
}

impl CPPDirective {
    /// The kind's detection token as a string slice.
    pub fn token_str(&self) -> (r: &'static str)
        ensures
            r@ == token(*self),
    {
        match self {
            CPPDirective::Define => "#define",
            CPPDirective::Include => "#include",
            CPPDirective::Undef => "#undef",
            CPPDirective::Ifdef => "#ifdef",
            CPPDirective::Ifndef => "#ifndef",
            CPPDirective::If => "#if",
            CPPDirective::Else => "#else",
            CPPDirective::Elif => "#elif",
            CPPDirective::Endif => "#endif",
            CPPDirective::Error => "#error",
            CPPDirective::Pragma => "#pragma",
            CPPDirective::Date => "__DATE__",
            CPPDirective::Time => "__TIME__",
            CPPDirective::Timestamp => "__TIMESTAMP__",
            CPPDirective::File => "__FILE__",
            CPPDirective::Line => "__LINE__",
            CPPDirective::Stdc => "__STDC__",
        }
    }

    /// The kind's canonical display form, used verbatim in diagnostics.
    pub fn display(&self) -> (r: String)
        ensures
            r@ == token(*self),
    {
        self.token_str().to_owned()
    }

    /// Whether this kind's match is anchored at the start of the line.
    pub fn is_directive(&self) -> (r: bool)
        ensures
            r == is_directive_kind(*self),
    {
        match self {
            CPPDirective::Define => true,
            CPPDirective::Include => true,
            CPPDirective::Undef => true,
            CPPDirective::Ifdef => true,
            CPPDirective::Ifndef => true,
            CPPDirective::If => true,
            CPPDirective::Else => true,
            CPPDirective::Elif => true,
            CPPDirective::Endif => true,
            CPPDirective::Error => true,
            CPPDirective::Pragma => true,
            CPPDirective::Date => false,
            CPPDirective::Time => false,
            CPPDirective::Timestamp => false,
            CPPDirective::File => false,
            CPPDirective::Line => false,
            CPPDirective::Stdc => false,
        }
    }
}

/// The kind at a given catalog position.
fn kind_of_index(i: usize) -> (k: CPPDirective)
    requires
        i < KIND_COUNT,
    ensures
        k == kind_of_id(i as int),
{
    match i {
        0 => CPPDirective::Define,
        1 => CPPDirective::Include,
        2 => CPPDirective::Undef,
        3 => CPPDirective::Ifdef,
        4 => CPPDirective::Ifndef,
        5 => CPPDirective::If,
        6 => CPPDirective::Else,
        7 => CPPDirective::Elif,
        8 => CPPDirective::Endif,
        9 => CPPDirective::Error,
        10 => CPPDirective::Pragma,
        11 => CPPDirective::Date,
        12 => CPPDirective::Time,
        13 => CPPDirective::Timestamp,
        14 => CPPDirective::File,
        15 => CPPDirective::Line,
        _ => CPPDirective::Stdc,
    }
}

/// The token `tok` stands in `line` at position `i`.
pub open spec fn token_at(line: Seq<char>, i: int, tok: Seq<char>) -> bool {
    &&& 0 <= i
    &&& i + tok.len() <= line.len()
    &&& line.subrange(i, i + tok.len() as int) == tok
}

/// The token appears somewhere in the line (unanchored substring match).
pub open spec fn contains_token(line: Seq<char>, tok: Seq<char>) -> bool {
    exists|i: int| #[trigger] token_at(line, i, tok)
}

/// The token stands at the start of the line after nothing but whitespace
/// (anchored match).
pub open spec fn anchored_token(line: Seq<char>, tok: Seq<char>) -> bool {
    exists|i: int|
        #[trigger] token_at(line, i, tok) && (forall|j: int|
            0 <= j < i ==> is_space(#[trigger] line[j]))
}

/// A line matches a kind: anchored for the directive kinds, unanchored for
/// the predefined-macro kinds. This is the deliberate asymmetry of the
/// catalog: a directive is only directive syntax at the start of a line,
/// while a predefined macro can stand anywhere in an expression.
pub open spec fn line_matches(line: Seq<char>, k: CPPDirective) -> bool {
    if is_directive_kind(k) {
        anchored_token(line, token(k))
    } else {
        contains_token(line, token(k))
    }
}

/// The line matches at least one kind of the catalog.
pub open spec fn line_matches_any(line: Seq<char>) -> bool {
    exists|k: CPPDirective| #[trigger] line_matches(line, k)
}

/// Whether a character has the Unicode `White_Space` property.
fn is_space_char(c: char) -> (r: bool)
    ensures
        r == is_space(c),
{
    c == '\u{0009}' || c == '\u{000A}' || c == '\u{000B}' || c == '\u{000C}' || c == '\u{000D}'
        || c == '\u{0020}' || c == '\u{0085}' || c == '\u{00A0}' || c == '\u{1680}' || c
        == '\u{2000}' || c == '\u{2001}' || c == '\u{2002}' || c == '\u{2003}' || c == '\u{2004}'
        || c == '\u{2005}' || c == '\u{2006}' || c == '\u{2007}' || c == '\u{2008}' || c
        == '\u{2009}' || c == '\u{200A}' || c == '\u{2028}' || c == '\u{2029}' || c == '\u{202F}'
        || c == '\u{205F}' || c == '\u{3000}'
}

/// Compares the token against the characters of `line` starting at `i`.
fn token_at_exec(line: &str, i: usize, tok: &str) -> (r: bool)
    requires
        i + tok@.len() <= line@.len(),
        line@.len() <= usize::MAX,
    ensures
        r == token_at(line@, i as int, tok@),
{
    let tok_len = tok.unicode_len();
    let mut j: usize = 0;
    while j < tok_len
        invariant
            j <= tok_len,
            tok_len == tok@.len(),
            i + tok_len <= line@.len(),
            line@.len() <= usize::MAX,
            forall|m: int| 0 <= m < j ==> line@[i + m] == tok@[m],
        decreases tok_len - j,
    {
        if line.get_char(i + j) != tok.get_char(j) {
            proof {
                let sub = line@.subrange(i as int, i + tok@.len() as int);
                assert(sub[j as int] == line@[i + j]);
            }
            return false;
        }
        j += 1;
    }
    proof {
        assert(line@.subrange(i as int, i + tok@.len() as int) =~= tok@);
    }
    true
}

/// Searches the whole line for the token (unanchored).
fn contains_token_exec(line: &str, tok: &str) -> (r: bool)
    requires
        tok@.len() > 0,
    ensures
        r == contains_token(line@, tok@),
{
    let line_len = line.unicode_len();
    let tok_len = tok.unicode_len();
    if tok_len > line_len {
        return false;
    }
    let mut i: usize = 0;
    while i <= line_len - tok_len
        invariant
            line_len == line@.len(),
            tok_len == tok@.len(),
            1 <= tok_len <= line_len,
            i <= line_len - tok_len + 1,
            forall|m: int| 0 <= m < i ==> !token_at(line@, m, tok@),
        decreases line_len - tok_len + 1 - i,
    {
        if token_at_exec(line, i, tok) {
            return true;
        }
        i += 1;
    }
    proof {
        assert forall|m: int| !token_at(line@, m, tok@) by {
            if 0 <= m < i {
            }
        }
    }
    false
}

/// The index of the first character of the line that is not whitespace, or
/// the line's length when every character is.
fn skip_spaces(line: &str) -> (i: usize)
    ensures
        i <= line@.len(),
        forall|j: int| 0 <= j < i ==> is_space(#[trigger] line@[j]),
        i < line@.len() ==> !is_space(line@[i as int]),
{
    let line_len = line.unicode_len();
    let mut i: usize = 0;
    while i < line_len
        invariant
            line_len == line@.len(),
            i <= line_len,
            forall|j: int| 0 <= j < i ==> is_space(#[trigger] line@[j]),
        decreases line_len - i,
    {
        if !is_space_char(line.get_char(i)) {
            return i;
        }
        i += 1;
    }
    i
}

/// Tests the token at the start of the line, allowing leading whitespace.
fn anchored_token_exec(line: &str, tok: &str) -> (r: bool)
    requires
        tok@.len() > 0,
        !is_space(tok@[0]),
    ensures
        r == anchored_token(line@, tok@),
{
    let line_len = line.unicode_len();
    let tok_len = tok.unicode_len();
    let w = skip_spaces(line);
    if line_len - w >= tok_len && token_at_exec(line, w, tok) {
        proof {
            assert(token_at(line@, w as int, tok@) && (forall|j: int|
                0 <= j < w ==> is_space(#[trigger] line@[j])));
        }
        true
    } else {
        proof {
            assert forall|n: int|
                !(#[trigger] token_at(line@, n, tok@) && (forall|j: int|
                    0 <= j < n ==> is_space(#[trigger] line@[j]))) by {
                if token_at(line@, n, tok@) && (forall|j: int|
                    0 <= j < n ==> is_space(#[trigger] line@[j])) {
                    let sub = line@.subrange(n, n + tok@.len() as int);
                    assert(sub[0] == line@[n]);
                    if n < w {
                        assert(is_space(line@[n]));
                    } else if n == w {
                        assert(token_at(line@, w as int, tok@));
                    } else {
                        assert(is_space(line@[w as int]));
                    }
                }
            }
        }
        false
    }
}

/// Searches a single line of text (without its terminator) for a
/// preprocessor directive or predefined macro.
///
/// Every catalog pattern is evaluated against the line; when several match,
/// the kind with the lowest catalog position wins — a fixed, deterministic
/// tie-break. `None` means the line matches no kind at all.
pub fn preprocess_line(line: &str) -> (r: Option<CPPDirective>)
    ensures
        match r {
            Some(k) => line_matches(line@, k) && (forall|k2: CPPDirective|
                #[trigger] line_matches(line@, k2) ==> kind_id(k) <= kind_id(k2)),
            None => !line_matches_any(line@),
        },
{
    let mut idx: usize = 0;
    while idx < KIND_COUNT
        invariant
            idx <= KIND_COUNT,
            forall|k2: CPPDirective|
                kind_id(k2) < idx ==> !#[trigger] line_matches(line@, k2),
        decreases KIND_COUNT - idx,
    {
        let k = kind_of_index(idx);
        proof {
            lemma_kind_id_bijective(k);
            lemma_token_facts(k);
        }
        let tok = k.token_str();
        let matched = if k.is_directive() {
            anchored_token_exec(line, tok)
        } else {
            contains_token_exec(line, tok)
        };
        if matched {
            proof {
                assert forall|k2: CPPDirective|
                    #[trigger] line_matches(line@, k2) implies kind_id(k) <= kind_id(k2) by {
                    lemma_kind_id_bijective(k2);
                }
            }
            return Some(k);
        }
        proof {
            assert forall|k2: CPPDirective|
                kind_id(k2) < idx + 1 implies !#[trigger] line_matches(line@, k2) by {
                if kind_id(k2) == idx {
                    lemma_kind_id_bijective(k2);
                }
            }
        }
        idx += 1;
    }
    proof {
        assert forall|k2: CPPDirective| !#[trigger] line_matches(line@, k2) by {
            lemma_kind_id_bijective(k2);
        }
    }
    None
}

/// The position of the first line feed in `s`, or `s.len()` when there is
/// none.
pub open spec fn first_nl(s: Seq<char>) -> int
    decreases s.len(),
{
    if s.len() == 0 {
        0
    } else if s[0] == '\n' {
        0
    } else {
        1 + first_nl(s.drop_first())
    }
}

pub proof fn lemma_first_nl(s: Seq<char>)
    ensures
        0 <= first_nl(s) <= s.len(),
        first_nl(s) < s.len() ==> s[first_nl(s)] == '\n',
        forall|j: int| 0 <= j < first_nl(s) ==> s[j] != '\n',
    decreases s.len(),
{
    if s.len() > 0 && s[0] != '\n' {
        lemma_first_nl(s.drop_first());
        assert forall|j: int| 0 <= j < first_nl(s) implies s[j] != '\n' by {
            if j > 0 {
                assert(s.drop_first()[j - 1] == s[j]);
            }
        }
    }
}

/// A physical line as cut out of the text: one carriage return is dropped
/// before the line feed that ended the line.
pub open spec fn strip_cr(l: Seq<char>) -> Seq<char> {
    if l.len() > 0 && l.last() == '\r' {
        l.drop_last()
    } else {
        l
    }
}

/// The physical lines of a text: split at every line feed, with a carriage
/// return before the line feed dropped, and with no phantom empty line after
/// a trailing terminator. A final segment without a terminator keeps a
/// trailing carriage return, since nothing ended the line.
pub open spec fn spec_lines(s: Seq<char>) -> Seq<Seq<char>>
    decreases s.len(),
    via spec_lines_decreases
{
    if s.len() == 0 {
        Seq::empty()
    } else {
        let nl = first_nl(s);
        if nl == s.len() {
            seq![s]
        } else {
            seq![strip_cr(s.subrange(0, nl))] + spec_lines(s.subrange(nl + 1, s.len() as int))
        }
    }
}

#[via_fn]
proof fn spec_lines_decreases(s: Seq<char>) {
    lemma_first_nl(s);
}

/// What a scan of `text` reports: `None` for "no line matches anything", or
/// the 0-based index of the first matching line, that line's exact content,
/// and the matching kind of lowest catalog position.
pub open spec fn is_scan_outcome(
    text: Seq<char>,
    outcome: Option<(int, Seq<char>, CPPDirective)>,
) -> bool {
    let lines = spec_lines(text);
    match outcome {
        None => forall|i: int| 0 <= i < lines.len() ==> !line_matches_any(#[trigger] lines[i]),
        Some((ln, txt, k)) => {
            &&& 0 <= ln < lines.len()
            &&& txt == lines[ln]
            &&& line_matches(lines[ln], k)
            &&& forall|k2: CPPDirective|
                #[trigger] line_matches(lines[ln], k2) ==> kind_id(k) <= kind_id(k2)
            &&& forall|j: int| 0 <= j < ln ==> !line_matches_any(#[trigger] lines[j])
        },
    }
}

/// A scan has exactly one possible outcome on a given text: identical input
/// always yields a structurally identical result.
pub proof fn lemma_scan_outcome_unique(
    text: Seq<char>,
    o1: Option<(int, Seq<char>, CPPDirective)>,
    o2: Option<(int, Seq<char>, CPPDirective)>,
)
    requires
        is_scan_outcome(text, o1),
        is_scan_outcome(text, o2),
    ensures
        o1 == o2,
{
    let lines = spec_lines(text);
    match (o1, o2) {
        (None, None) => {}
        (None, Some((ln, txt, k))) => {
            assert(line_matches_any(lines[ln]));
        }
        (Some((ln, txt, k)), None) => {
            assert(line_matches_any(lines[ln]));
        }
        (Some((ln1, txt1, k1)), Some((ln2, txt2, k2))) => {
            if ln1 < ln2 {
                assert(line_matches_any(lines[ln1]));
            } else if ln2 < ln1 {
                assert(line_matches_any(lines[ln2]));
            }
            assert(kind_id(k1) == kind_id(k2));
            lemma_kind_id_bijective(k1);
            lemma_kind_id_bijective(k2);
        }
    }
}

/// The position of the first line feed in `text` at or after `pos`, or the
/// text's length when there is none.
fn find_newline(text: &str, pos: usize) -> (end: usize)
    requires
        pos <= text@.len(),
    ensures
        pos <= end <= text@.len(),
        forall|j: int| pos <= j < end ==> text@[j] != '\n',
        end < text@.len() ==> text@[end as int] == '\n',
{
    let n = text.unicode_len();
    let mut end: usize = pos;
    while end < n
        invariant
            n == text@.len(),
            pos <= end <= n,
            forall|j: int| pos <= j < end ==> text@[j] != '\n',
        decreases n - end,
    {
        if text.get_char(end) == '\n' {
            return end;
        }
        end += 1;
    }
    end
}

/// Scans the text line by line and reports the first line holding a
/// preprocessor directive or predefined macro.
///
/// Returns `Ok(())` when no physical line matches any catalog pattern, and
/// otherwise the diagnostic for the lowest-indexed matching line: its
/// 0-based line number, its exact content (without the terminator), and the
/// matching kind of lowest catalog position.
pub fn check_preprocessor_tokens(contents: &str) -> (r: Result<(), CInputError>)
    ensures
        match r {
            Ok(_) => is_scan_outcome(contents@, None),
            Err(e) => match e {
                CInputError::PreprocessorError(ln, txt, k) => is_scan_outcome(
                    contents@,
                    Some((ln as int, txt@, k)),
                ),
                CInputError::LangCSyntaxError(_) => false,
            },
        },
{
    let n = contents.unicode_len();
    proof {
        assert(contents@.subrange(0, n as int) =~= contents@);
        assert(spec_lines(contents@).skip(0) =~= spec_lines(contents@));
    }
    let mut pos: usize = 0;
    let mut lineno: usize = 0;
    while pos < n
        invariant
            n == contents@.len(),
            pos <= n,
            lineno <= pos,
            lineno <= spec_lines(contents@).len(),
            spec_lines(contents@).skip(lineno as int) == spec_lines(
                contents@.subrange(pos as int, n as int),
            ),
            forall|j: int|
                0 <= j < lineno ==> !line_matches_any(#[trigger] spec_lines(contents@)[j]),
        decreases n - pos,
    {
        let ghost full = spec_lines(contents@);
        let ghost s = contents@.subrange(pos as int, n as int);
        let end = find_newline(contents, pos);
        proof {
            lemma_first_nl(s);
            assert forall|m: int| 0 <= m < end - pos implies s[m] != '\n' by {
                assert(s[m] == contents@[pos + m]);
            }
            if end < n {
                assert(s[end - pos] == contents@[end as int]);
                if first_nl(s) < end - pos {
                    assert(s[first_nl(s)] != '\n');
                }
            } else {
                if first_nl(s) < s.len() {
                    assert(s[first_nl(s)] != '\n');
                }
            }
            assert(first_nl(s) == end - pos);
        }
        let line_end: usize = if end < n {
            if end > pos && contents.get_char(end - 1) == '\r' {
                end - 1
            } else {
                end
            }
        } else {
            end
        };
        let line = contents.substring_char(pos, line_end);
        proof {
            if end < n {
                let raw = s.subrange(0, end - pos);
                assert(raw =~= contents@.subrange(pos as int, end as int));
                if end > pos && contents@[end - 1] == '\r' {
                    assert(raw.last() == contents@[end - 1]);
                    assert(raw.drop_last() =~= contents@.subrange(pos as int, end - 1));
                } else {
                    if raw.len() > 0 {
                        assert(raw.last() == contents@[end - 1]);
                    }
                }
                assert(line@ == strip_cr(raw));
                assert(spec_lines(s) == seq![strip_cr(raw)] + spec_lines(
                    s.subrange(end - pos + 1, s.len() as int),
                ));
            } else {
                assert(line@ =~= s);
                assert(spec_lines(s) == seq![s]);
            }
            assert(spec_lines(s).len() >= 1);
            assert(full.skip(lineno as int).len() == full.len() - lineno);
            assert(lineno < full.len());
            assert(full.skip(lineno as int)[0] == line@);
            assert(full.skip(lineno as int)[0] == full[lineno as int]);
        }
        if let Some(k) = preprocess_line(line) {
            return Err(CInputError::PreprocessorError(lineno, line.to_owned(), k));
        }
        proof {
            assert(!line_matches_any(line@));
            if end < n {
                let rest = s.subrange(end - pos + 1, s.len() as int);
                assert(rest =~= contents@.subrange(end + 1, n as int));
                assert(full.skip(lineno + 1) =~= full.skip(lineno as int).skip(1));
                assert(full.skip(lineno + 1) =~= spec_lines(rest));
            } else {
                assert(full.skip(lineno + 1) =~= full.skip(lineno as int).skip(1));
                assert(full.skip(lineno + 1) =~= spec_lines(contents@.subrange(n as int, n as int)));
            }
        }
        lineno += 1;
        pos = if end < n {
            end + 1
        } else {
            n
        };
    }
    proof {
        assert(contents@.subrange(pos as int, n as int).len() == 0);
        assert(spec_lines(contents@).skip(lineno as int).len() == 0);
        assert(spec_lines(contents@).len() == lineno);
    }
    Ok(())
}

} // verus!
