//! The lexer for the build-manifest format, and the token stream that feeds
//! the parser with arbitrary-depth lookahead.
//!
//! The grammar is line oriented and indentation sensitive: a run of spaces at
//! the start of a line is an `Indent` token, spaces elsewhere separate tokens
//! and are skipped, and an `=` that is followed by more text on the same line
//! switches the scanner into value mode, producing one `AssignmentValue`
//! token that runs to the end of the line. Keywords are recognised only as
//! the first word of a non-indented line; elsewhere the same spellings are
//! ordinary identifiers. Comment lines (`#` to the end of the line) and runs
//! of spaces on otherwise blank line tails produce no token. Lexing is total:
//! input that matches no token pattern becomes an explicit lex-error item.

use vstd::prelude::*;
use vstd::string::StrSliceExecFns;

verus! {

/// A raw lexical token, as scanned from the text.
#[derive(Clone, Copy, Debug, PartialEq, Eq, Structural)]
pub enum Token {
    /// A run of spaces at the start of a line that carries more text.
    Indent,
    /// A line terminator.
    Newline,
    /// A bare word of identifier characters.
    Identifier,
    /// `=` and the rest of the line, verbatim.
    AssignmentValue,
    /// A bare `=` with nothing after it on the line.
    Equals,
    Colon,
    Pipe,
    Pipe2,
    PipeAt,
    KwRule,
    KwBuild,
    KwPool,
    KwDefault,
    KwInclude,
    KwSubninja,
}

/// Identifier characters: ASCII letters, digits, `_`, `.` and `-`.
pub open spec fn is_ident_char(c: char) -> bool {
    ('a' <= c && c <= 'z') || ('A' <= c && c <= 'Z') || ('0' <= c && c <= '9') || c == '_' || c
        == '.' || c == '-'
}

fn check_ident_char(c: char) -> (r: bool)
    ensures
        r == is_ident_char(c),
{
    ('a' <= c && c <= 'z') || ('A' <= c && c <= 'Z') || ('0' <= c && c <= '9') || c == '_' || c
        == '.' || c == '-'
}

/// Whether `pos` is the first column of a line.
pub open spec fn at_col0(text: Seq<char>, pos: int) -> bool {
    pos == 0 || text[pos - 1] == '\n'
}

/// The end of the run of spaces that starts at `pos`.
pub open spec fn space_run_end(text: Seq<char>, pos: int) -> int
    decreases text.len() - pos,
{
    if 0 <= pos < text.len() && text[pos] == ' ' {
        space_run_end(text, pos + 1)
    } else {
        pos
    }
}

pub proof fn lemma_space_run_end(text: Seq<char>, pos: int)
    requires
        0 <= pos <= text.len(),
    ensures
        pos <= space_run_end(text, pos) <= text.len(),
        forall|j: int| pos <= j < space_run_end(text, pos) ==> text[j] == ' ',
        space_run_end(text, pos) < text.len() ==> text[space_run_end(text, pos)] != ' ',
        pos < text.len() && text[pos] == ' ' ==> space_run_end(text, pos) > pos,
    decreases text.len() - pos,
{
    if pos < text.len() && text[pos] == ' ' {
        lemma_space_run_end(text, pos + 1);
    }
}

/// The end of the run of identifier characters that starts at `pos`.
pub open spec fn ident_run_end(text: Seq<char>, pos: int) -> int
    decreases text.len() - pos,
{
    if 0 <= pos < text.len() && is_ident_char(text[pos]) {
        ident_run_end(text, pos + 1)
    } else {
        pos
    }
}

pub proof fn lemma_ident_run_end(text: Seq<char>, pos: int)
    requires
        0 <= pos <= text.len(),
    ensures
        pos <= ident_run_end(text, pos) <= text.len(),
        forall|j: int| pos <= j < ident_run_end(text, pos) ==> is_ident_char(text[j]),
        ident_run_end(text, pos) < text.len() ==> !is_ident_char(text[ident_run_end(text, pos)]),
        pos < text.len() && is_ident_char(text[pos]) ==> ident_run_end(text, pos) > pos,
    decreases text.len() - pos,
{
    if pos < text.len() && is_ident_char(text[pos]) {
        lemma_ident_run_end(text, pos + 1);
    }
}

/// The position of the first line terminator at or after `pos`, or the end of
/// the text when the last line is unterminated.
pub open spec fn line_end(text: Seq<char>, pos: int) -> int
    decreases text.len() - pos,
{
    if 0 <= pos < text.len() && text[pos] != '\n' {
        line_end(text, pos + 1)
    } else {
        pos
    }
}

pub proof fn lemma_line_end(text: Seq<char>, pos: int)
    requires
        0 <= pos <= text.len(),
    ensures
        pos <= line_end(text, pos) <= text.len(),
        forall|j: int| pos <= j < line_end(text, pos) ==> text[j] != '\n',
        line_end(text, pos) < text.len() ==> text[line_end(text, pos)] == '\n',
        pos < text.len() && text[pos] != '\n' ==> line_end(text, pos) > pos,
    decreases text.len() - pos,
{
    if pos < text.len() && text[pos] != '\n' {
        lemma_line_end(text, pos + 1);
    }
}

/// The first position after the line that `pos` lies on: just past its
/// terminator, or the end of an unterminated last line.
pub open spec fn after_line(text: Seq<char>, pos: int) -> int {
    if line_end(text, pos) < text.len() {
        line_end(text, pos) + 1
    } else {
        line_end(text, pos)
    }
}

fn space_run_end_exec(text: &str, pos: usize, n: usize) -> (e: usize)
    requires
        n == text@.len(),
        pos <= n,
    ensures
        e == space_run_end(text@, pos as int),
        pos <= e <= n,
{
    let mut i = pos;
    while i < n && text.get_char(i) == ' '
        invariant
            pos <= i <= n,
            n == text@.len(),
            space_run_end(text@, pos as int) == space_run_end(text@, i as int),
        decreases n - i,
    {
        i = i + 1;
    }
    proof {
        assert(space_run_end(text@, i as int) == i);
    }
    i
}

fn ident_run_end_exec(text: &str, pos: usize, n: usize) -> (e: usize)
    requires
        n == text@.len(),
        pos <= n,
    ensures
        e == ident_run_end(text@, pos as int),
        pos <= e <= n,
{
    let mut i = pos;
    while i < n && check_ident_char(text.get_char(i))
        invariant
            pos <= i <= n,
            n == text@.len(),
            ident_run_end(text@, pos as int) == ident_run_end(text@, i as int),
        decreases n - i,
    {
        i = i + 1;
    }
    proof {
        assert(ident_run_end(text@, i as int) == i);
    }
    i
}

fn line_end_exec(text: &str, pos: usize, n: usize) -> (e: usize)
    requires
        n == text@.len(),
        pos <= n,
    ensures
        e == line_end(text@, pos as int),
        pos <= e <= n,
{
    let mut i = pos;
    while i < n && text.get_char(i) != '\n'
        invariant
            pos <= i <= n,
            n == text@.len(),
            line_end(text@, pos as int) == line_end(text@, i as int),
        decreases n - i,
    {
        i = i + 1;
    }
    proof {
        assert(line_end(text@, i as int) == i);
    }
    i
}

/// The spelling of the import keyword, written out character by character.
pub open spec fn kw_import_word() -> Seq<char> {
    seq!['i', 'n', 'c', 'l', 'u', 'd', 'e']
}

/// The keyword token that a word at the start of a non-indented line stands
/// for, or `Identifier` when the word is reserved nowhere.
pub open spec fn keyword_or_identifier(word: Seq<char>) -> Token {
    if word == "rule"@ {
        Token::KwRule
    } else if word == "build"@ {
        Token::KwBuild
    } else if word == "pool"@ {
        Token::KwPool
    } else if word == "default"@ {
        Token::KwDefault
    } else if word == kw_import_word() {
        Token::KwInclude
    } else if word == "subninja"@ {
        Token::KwSubninja
    } else {
        Token::Identifier
    }
}

fn str_range_eq(text: &str, start: usize, end: usize, lit: &str) -> (r: bool)
    requires
        start <= end <= text@.len(),
    ensures
        r == (text@.subrange(start as int, end as int) == lit@),
{
    let llen = lit.unicode_len();
    if end - start != llen {
        proof {
            assert(text@.subrange(start as int, end as int).len() == end - start);
        }
        return false;
    }
    let mut i: usize = 0;
    while i < llen
        invariant
            i <= llen,
            llen == lit@.len(),
            end - start == llen,
            start <= end <= text@.len(),
            forall|j: int| 0 <= j < i ==> text@[start + j] == lit@[j],
        decreases llen - i,
    {
        if text.get_char(start + i) != lit.get_char(i) {
            proof {
                assert(text@.subrange(start as int, end as int)[i as int] != lit@[i as int]);
            }
            return false;
        }
        i = i + 1;
    }
    proof {
        assert(text@.subrange(start as int, end as int) =~= lit@);
    }
    true
}

fn word_is_kw_import(text: &str, start: usize, end: usize) -> (r: bool)
    requires
        start <= end <= text@.len(),
    ensures
        r == (text@.subrange(start as int, end as int) == kw_import_word()),
{
    if end - start != 7 {
        proof {
            assert(text@.subrange(start as int, end as int).len() == end - start);
            assert(kw_import_word().len() == 7);
        }
        return false;
    }
    let r = text.get_char(start) == 'i' && text.get_char(start + 1) == 'n' && text.get_char(
        start + 2,
    ) == 'c' && text.get_char(start + 3) == 'l' && text.get_char(start + 4) == 'u' && text.get_char(
        start + 5,
    ) == 'd' && text.get_char(start + 6) == 'e';
    proof {
        let sub = text@.subrange(start as int, end as int);
        if r {
            assert(sub =~= kw_import_word());
        } else {
            if sub == kw_import_word() {
                assert(sub[0] == 'i' && sub[1] == 'n' && sub[2] == 'c' && sub[3] == 'l' && sub[4]
                    == 'u' && sub[5] == 'd' && sub[6] == 'e');
                assert(false);
            }
        }
    }
    r
}

fn keyword_or_identifier_exec(text: &str, start: usize, end: usize) -> (t: Token)
    requires
        start <= end <= text@.len(),
    ensures
        t == keyword_or_identifier(text@.subrange(start as int, end as int)),
{
    if str_range_eq(text, start, end, "rule") {
        Token::KwRule
    } else if str_range_eq(text, start, end, "build") {
        Token::KwBuild
    } else if str_range_eq(text, start, end, "pool") {
        Token::KwPool
    } else if str_range_eq(text, start, end, "default") {
        Token::KwDefault
    } else if word_is_kw_import(text, start, end) {
        Token::KwInclude
    } else if str_range_eq(text, start, end, "subninja") {
        Token::KwSubninja
    } else {
        Token::Identifier
    }
}

/// Mathematical model of one lexed item: the scan outcome and its span.
#[verifier::ext_equal]
pub struct LexItemModel {
    pub token: Result<Token, ()>,
    pub start: int,
    pub end: int,
}

/// One lexed item: `Ok` with the scanned token, or `Err` for input that
/// matches no token pattern, together with its source span.
#[derive(Clone, Copy, Debug)]
pub struct LexItem {
    pub token: Result<Token, ()>,
    pub start: usize,
    pub end: usize,
}

impl View for LexItem {
    type V = LexItemModel;

    open spec fn view(&self) -> LexItemModel {
        LexItemModel { token: self.token, start: self.start as int, end: self.end as int }
    }
}

/// The models of a sequence of lexed items.
pub open spec fn items_model(items: Seq<LexItem>) -> Seq<LexItemModel> {
    items.map_values(|it: LexItem| it@)
}

/// The exact source text that an item covers.
pub open spec fn item_slice(text: Seq<char>, it: LexItemModel) -> Seq<char> {
    text.subrange(it.start, it.end)
}

pub open spec fn tok_item(t: Token, start: int, end: int) -> LexItemModel {
    LexItemModel { token: Ok(t), start, end }
}

pub open spec fn err_item(start: int, end: int) -> LexItemModel {
    LexItemModel { token: Err(()), start, end }
}

/// The items that lexing produces from `pos` to the end of the text. Each
/// step consumes at least one character; comment lines, blank line tails and
/// spaces between tokens produce no item.
pub open spec fn spec_lex_at(text: Seq<char>, pos: int) -> Seq<LexItemModel>
    decreases text.len() - pos,
        when 0 <= pos
{
    if pos >= text.len() {
        Seq::empty()
    } else {
        let c = text[pos];
        if at_col0(text, pos) && c == ' ' {
            let e = space_run_end(text, pos);
            proof {
                lemma_space_run_end(text, pos);
            }
            if e >= text.len() {
                Seq::empty()
            } else if text[e] == '\n' {
                spec_lex_at(text, e)
            } else if text[e] == '#' {
                proof {
                    lemma_line_end(text, e);
                }
                spec_lex_at(text, after_line(text, e))
            } else {
                seq![tok_item(Token::Indent, pos, e)] + spec_lex_at(text, e)
            }
        } else if at_col0(text, pos) && c == '#' {
            proof {
                lemma_line_end(text, pos);
            }
            spec_lex_at(text, after_line(text, pos))
        } else if c == ' ' {
            proof {
                lemma_space_run_end(text, pos);
            }
            spec_lex_at(text, space_run_end(text, pos))
        } else if c == '\n' {
            seq![tok_item(Token::Newline, pos, pos + 1)] + spec_lex_at(text, pos + 1)
        } else if c == '=' {
            if pos + 1 < text.len() && text[pos + 1] != '\n' {
                let e = line_end(text, pos);
                proof {
                    lemma_line_end(text, pos);
                }
                seq![tok_item(Token::AssignmentValue, pos, e)] + spec_lex_at(text, e)
            } else {
                seq![tok_item(Token::Equals, pos, pos + 1)] + spec_lex_at(text, pos + 1)
            }
        } else if is_ident_char(c) {
            let e = ident_run_end(text, pos);
            let t = if at_col0(text, pos) {
                keyword_or_identifier(text.subrange(pos, e))
            } else {
                Token::Identifier
            };
            proof {
                lemma_ident_run_end(text, pos);
            }
            seq![tok_item(t, pos, e)] + spec_lex_at(text, e)
        } else if c == ':' {
            seq![tok_item(Token::Colon, pos, pos + 1)] + spec_lex_at(text, pos + 1)
        } else if c == '|' {
            if pos + 1 < text.len() && text[pos + 1] == '@' {
                seq![tok_item(Token::PipeAt, pos, pos + 2)] + spec_lex_at(text, pos + 2)
            } else if pos + 1 < text.len() && text[pos + 1] == '|' {
                seq![tok_item(Token::Pipe2, pos, pos + 2)] + spec_lex_at(text, pos + 2)
            } else {
                seq![tok_item(Token::Pipe, pos, pos + 1)] + spec_lex_at(text, pos + 1)
            }
        } else {
            seq![err_item(pos, pos + 1)] + spec_lex_at(text, pos + 1)
        }
    }
}

/// The full token sequence of a text.
pub open spec fn spec_lex(text: Seq<char>) -> Seq<LexItemModel> {
    spec_lex_at(text, 0)
}

/// Lexing reads the text left to right: every produced item lies within the
/// text, spans at least one character, and ends no later than the next item
/// starts. What lies between two items is only skipped material: comment
/// lines, blank line tails, and spaces between tokens.
pub proof fn lemma_spec_lex_items_ordered(text: Seq<char>, pos: int)
    requires
        0 <= pos <= text.len(),
    ensures
        forall|i: int|
            0 <= i < spec_lex_at(text, pos).len() ==> pos <= (#[trigger] spec_lex_at(text, pos)[i]).start
                < spec_lex_at(text, pos)[i].end <= text.len(),
        forall|i: int|
            0 <= i < spec_lex_at(text, pos).len() - 1 ==> (#[trigger] spec_lex_at(text, pos)[i]).end
                <= spec_lex_at(text, pos)[i + 1].start,
    decreases text.len() - pos,
{
    if pos >= text.len() {
    } else {
        let c = text[pos];
        if at_col0(text, pos) && c == ' ' {
            let e = space_run_end(text, pos);
            lemma_space_run_end(text, pos);
            if e >= text.len() {
            } else if text[e] == '\n' {
                lemma_spec_lex_items_ordered(text, e);
            } else if text[e] == '#' {
                lemma_line_end(text, e);
                lemma_spec_lex_items_ordered(text, after_line(text, e));
            } else {
                lemma_spec_lex_items_ordered(text, e);
            }
        } else if at_col0(text, pos) && c == '#' {
            lemma_line_end(text, pos);
            lemma_spec_lex_items_ordered(text, after_line(text, pos));
        } else if c == ' ' {
            lemma_space_run_end(text, pos);
            lemma_spec_lex_items_ordered(text, space_run_end(text, pos));
        } else if c == '\n' {
            lemma_spec_lex_items_ordered(text, pos + 1);
        } else if c == '=' {
            if pos + 1 < text.len() && text[pos + 1] != '\n' {
                lemma_line_end(text, pos);
                lemma_spec_lex_items_ordered(text, line_end(text, pos));
            } else {
                lemma_spec_lex_items_ordered(text, pos + 1);
            }
        } else if is_ident_char(c) {
            lemma_ident_run_end(text, pos);
            lemma_spec_lex_items_ordered(text, ident_run_end(text, pos));
        } else if c == ':' {
            lemma_spec_lex_items_ordered(text, pos + 1);
        } else if c == '|' {
            if pos + 1 < text.len() && (text[pos + 1] == '@' || text[pos + 1] == '|') {
                lemma_spec_lex_items_ordered(text, pos + 2);
            } else {
                lemma_spec_lex_items_ordered(text, pos + 1);
            }
        } else {
            lemma_spec_lex_items_ordered(text, pos + 1);
        }
    }
}

proof fn lemma_items_model_push(items: Seq<LexItem>, it: LexItem)
    ensures
        items_model(items.push(it)) == items_model(items).push(it@),
{
    assert(items_model(items.push(it)) =~= items_model(items).push(it@));
}

proof fn lemma_push_front_assoc<A>(a: Seq<A>, x: A, b: Seq<A>)
    ensures
        a.push(x) + b == a + (seq![x] + b),
{
    assert(a.push(x) + b =~= a + (seq![x] + b));
}

/// Scans the whole text into its token sequence. Lexing is total: this
/// function accepts every input, and spans of the produced items always lie
/// within the text.
pub fn tokenize(text: &str) -> (items: Vec<LexItem>)
    ensures
        items_model(items@) == spec_lex(text@),
        forall|i: int|
            0 <= i < items@.len() ==> (#[trigger] items@[i]).start < items@[i].end <= text@.len(),
{
    let n = text.unicode_len();
    let mut items: Vec<LexItem> = Vec::new();
    let mut pos: usize = 0;
    proof {
        assert(items_model(items@) =~= Seq::<LexItemModel>::empty());
    }
    while pos < n
        invariant
            pos <= n,
            n == text@.len(),
            spec_lex(text@) == items_model(items@) + spec_lex_at(text@, pos as int),
            forall|i: int|
                0 <= i < items@.len() ==> (#[trigger] items@[i]).start < items@[i].end <= n,
        decreases n - pos,
    {
        let ghost old_items = items@;
        let ghost p = pos as int;
        let c = text.get_char(pos);
        let col0 = pos == 0 || text.get_char(pos - 1) == '\n';
        proof {
            assert(col0 == at_col0(text@, p));
        }
        if col0 && c == ' ' {
            let e = space_run_end_exec(text, pos, n);
            proof {
                lemma_space_run_end(text@, p);
            }
            if e == n {
                proof {
                    assert(spec_lex_at(text@, p) =~= spec_lex_at(text@, n as int));
                }
                pos = e;
            } else if text.get_char(e) == '\n' {
                proof {
                    assert(spec_lex_at(text@, p) == spec_lex_at(text@, e as int));
                }
                pos = e;
            } else if text.get_char(e) == '#' {
                let le = line_end_exec(text, e, n);
                proof {
                    lemma_line_end(text@, e as int);
                }
                let next = if le < n {
                    le + 1
                } else {
                    le
                };
                proof {
                    assert(next == after_line(text@, e as int));
                    assert(spec_lex_at(text@, p) == spec_lex_at(text@, next as int));
                }
                pos = next;
            } else {
                let it = LexItem { token: Ok(Token::Indent), start: pos, end: e };
                proof {
                    assert(spec_lex_at(text@, p) == seq![it@] + spec_lex_at(text@, e as int));
                    lemma_items_model_push(items@, it);
                    lemma_push_front_assoc(items_model(items@), it@, spec_lex_at(text@, e as int));
                }
                items.push(it);
                pos = e;
            }
        } else if col0 && c == '#' {
            let le = line_end_exec(text, pos, n);
            proof {
                lemma_line_end(text@, p);
            }
            let next = if le < n {
                le + 1
            } else {
                le
            };
            proof {
                assert(next == after_line(text@, p));
                assert(spec_lex_at(text@, p) == spec_lex_at(text@, next as int));
            }
            pos = next;
        } else if c == ' ' {
            let e = space_run_end_exec(text, pos, n);
            proof {
                lemma_space_run_end(text@, p);
                assert(spec_lex_at(text@, p) == spec_lex_at(text@, e as int));
            }
            pos = e;
        } else if c == '\n' {
            let it = LexItem { token: Ok(Token::Newline), start: pos, end: pos + 1 };
            proof {
                assert(spec_lex_at(text@, p) == seq![it@] + spec_lex_at(text@, p + 1));
                lemma_items_model_push(items@, it);
                lemma_push_front_assoc(items_model(items@), it@, spec_lex_at(text@, p + 1));
            }
            items.push(it);
            pos = pos + 1;
        } else if c == '=' {
            if pos + 1 < n && text.get_char(pos + 1) != '\n' {
                let e = line_end_exec(text, pos, n);
                proof {
                    lemma_line_end(text@, p);
                }
                let it = LexItem { token: Ok(Token::AssignmentValue), start: pos, end: e };
                proof {
                    assert(spec_lex_at(text@, p) == seq![it@] + spec_lex_at(text@, e as int));
                    lemma_items_model_push(items@, it);
                    lemma_push_front_assoc(items_model(items@), it@, spec_lex_at(text@, e as int));
                }
                items.push(it);
                pos = e;
            } else {
                let it = LexItem { token: Ok(Token::Equals), start: pos, end: pos + 1 };
                proof {
                    assert(spec_lex_at(text@, p) == seq![it@] + spec_lex_at(text@, p + 1));
                    lemma_items_model_push(items@, it);
                    lemma_push_front_assoc(items_model(items@), it@, spec_lex_at(text@, p + 1));
                }
                items.push(it);
                pos = pos + 1;
            }
        } else if check_ident_char(c) {
            let e = ident_run_end_exec(text, pos, n);
            proof {
                lemma_ident_run_end(text@, p);
            }
            let t = if col0 {
                keyword_or_identifier_exec(text, pos, e)
            } else {
                Token::Identifier
            };
            let it = LexItem { token: Ok(t), start: pos, end: e };
            proof {
                assert(spec_lex_at(text@, p) == seq![it@] + spec_lex_at(text@, e as int));
                lemma_items_model_push(items@, it);
                lemma_push_front_assoc(items_model(items@), it@, spec_lex_at(text@, e as int));
            }
            items.push(it);
            pos = e;
        } else if c == ':' {
            let it = LexItem { token: Ok(Token::Colon), start: pos, end: pos + 1 };
            proof {
                assert(spec_lex_at(text@, p) == seq![it@] + spec_lex_at(text@, p + 1));
                lemma_items_model_push(items@, it);
                lemma_push_front_assoc(items_model(items@), it@, spec_lex_at(text@, p + 1));
            }
            items.push(it);
            pos = pos + 1;
        } else if c == '|' {
            let two_at = pos + 1 < n && text.get_char(pos + 1) == '@';
            let two_bar = !two_at && pos + 1 < n && text.get_char(pos + 1) == '|';
            let t = if two_at {
                Token::PipeAt
            } else if two_bar {
                Token::Pipe2
            } else {
                Token::Pipe
            };
            let w: usize = if two_at || two_bar {
                2
            } else {
                1
            };
            let it = LexItem { token: Ok(t), start: pos, end: pos + w };
            proof {
                assert(spec_lex_at(text@, p) == seq![it@] + spec_lex_at(text@, p + w));
                lemma_items_model_push(items@, it);
                lemma_push_front_assoc(items_model(items@), it@, spec_lex_at(text@, p + w));
            }
            items.push(it);
            pos = pos + w;
        } else {
            let it = LexItem { token: Err(()), start: pos, end: pos + 1 };
            proof {
                assert(spec_lex_at(text@, p) == seq![it@] + spec_lex_at(text@, p + 1));
                lemma_items_model_push(items@, it);
                lemma_push_front_assoc(items_model(items@), it@, spec_lex_at(text@, p + 1));
            }
            items.push(it);
            pos = pos + 1;
        }
    }
    proof {
        assert(spec_lex_at(text@, n as int) =~= Seq::<LexItemModel>::empty());
        assert(items_model(items@) + Seq::<LexItemModel>::empty() =~= items_model(items@));
    }
    items
}

/// A parser-facing token kind. The raw scanner arms and these kinds are two
/// closed variant sets with a total mapping between them, so that "could not
/// scan" stays apart from the scanned token spellings.
#[derive(Clone, Copy, Debug, PartialEq, Eq, Structural)]
pub enum TokenKind {
    Indent,
    Newline,
    Identifier,
    AssignmentValue,
    Equals,
    Colon,
    Pipe,
    Pipe2,
    PipeAt,
    KwRule,
    KwBuild,
    KwPool,
    KwDefault,
    KwInclude,
    KwSubninja,
}

/// The total mapping from raw tokens to parser-facing kinds.
pub open spec fn token_kind_of(t: Token) -> TokenKind {
    match t {
        Token::Indent => TokenKind::Indent,
        Token::Newline => TokenKind::Newline,
        Token::Identifier => TokenKind::Identifier,
        Token::AssignmentValue => TokenKind::AssignmentValue,
        Token::Equals => TokenKind::Equals,
        Token::Colon => TokenKind::Colon,
        Token::Pipe => TokenKind::Pipe,
        Token::Pipe2 => TokenKind::Pipe2,
        Token::PipeAt => TokenKind::PipeAt,
        Token::KwRule => TokenKind::KwRule,
        Token::KwBuild => TokenKind::KwBuild,
        Token::KwPool => TokenKind::KwPool,
        Token::KwDefault => TokenKind::KwDefault,
        Token::KwInclude => TokenKind::KwInclude,
        Token::KwSubninja => TokenKind::KwSubninja,
    }
}

impl From<Token> for TokenKind {
    fn from(t: Token) -> (r: TokenKind) {
        match t {
            Token::Indent => TokenKind::Indent,
            Token::Newline => TokenKind::Newline,
            Token::Identifier => TokenKind::Identifier,
            Token::AssignmentValue => TokenKind::AssignmentValue,
            Token::Equals => TokenKind::Equals,
            Token::Colon => TokenKind::Colon,
            Token::Pipe => TokenKind::Pipe,
            Token::Pipe2 => TokenKind::Pipe2,
            Token::PipeAt => TokenKind::PipeAt,
            Token::KwRule => TokenKind::KwRule,
            Token::KwBuild => TokenKind::KwBuild,
            Token::KwPool => TokenKind::KwPool,
            Token::KwDefault => TokenKind::KwDefault,
            Token::KwInclude => TokenKind::KwInclude,
            Token::KwSubninja => TokenKind::KwSubninja,
        }
    }
}

impl vstd::std_specs::convert::FromSpecImpl<Token> for TokenKind {
    open spec fn obeys_from_spec() -> bool {
        true
    }

    open spec fn from_spec(t: Token) -> TokenKind {
        token_kind_of(t)
    }
}

/// The stream item that one lexed item hands to the parser: the clean kind,
/// or an explicit lexical failure.
pub open spec fn item_kind(it: LexItemModel) -> Result<TokenKind, ()> {
    match it.token {
        Ok(t) => Ok(token_kind_of(t)),
        Err(e) => Err(e),
    }
}

/// The token stream that the parser consumes: one-step consumption with
/// `next`, arbitrary-depth lookahead with `peek_nth`, and `slice` for the
/// exact source text of the most recently consumed token. Peeking never
/// changes the stream, and peeking then consuming the same number of times
/// reproduces exactly what peek reported.
pub struct TokenStream<'a> {
    pub text: &'a str,
    pub items: Vec<LexItem>,
    pub cursor: usize,
}

impl<'a> TokenStream<'a> {
    /// The text being lexed.
    pub open spec fn text_model(self) -> Seq<char> {
        self.text@
    }

    /// The models of all lexed items, consumed and pending.
    pub open spec fn items_seq(self) -> Seq<LexItemModel> {
        items_model(self.items@)
    }

    /// How many items have been consumed so far.
    pub open spec fn cursor_at(self) -> int {
        self.cursor as int
    }

    /// The stream holds exactly the lexing of its text, with the cursor and
    /// every span in range.
    pub open spec fn wf(self) -> bool {
        &&& self.items_seq() == spec_lex(self.text@)
        &&& self.cursor <= self.items@.len()
        &&& forall|i: int|
            0 <= i < self.items@.len() ==> (#[trigger] self.items@[i]).start < self.items@[i].end
                <= self.text@.len()
    }

    pub fn new(text: &'a str) -> (s: Self)
        ensures
            s.wf(),
            s.text_model() == text@,
            s.cursor_at() == 0,
    {
        TokenStream { text, items: tokenize(text), cursor: 0 }
    }

    /// Consumes and returns the next item's kind, or `None` at the end of
    /// the input.
    pub fn next(&mut self) -> (r: Option<Result<TokenKind, ()>>)
        requires
            old(self).wf(),
        ensures
            final(self).wf(),
            final(self).text_model() == old(self).text_model(),
            final(self).items_seq() == old(self).items_seq(),
            if old(self).cursor_at() < old(self).items_seq().len() {
                final(self).cursor_at() == old(self).cursor_at() + 1 && r == Some(
                    item_kind(old(self).items_seq()[old(self).cursor_at()]),
                )
            } else {
                final(self).cursor_at() == old(self).cursor_at() && r is None
            },
    {
        if self.cursor < self.items.len() {
            let it = self.items[self.cursor];
            self.cursor = self.cursor + 1;
            match it.token {
                Ok(t) => Some(Ok(TokenKind::from(t))),
                Err(_) => Some(Err(())),
            }
        } else {
            None
        }
    }

    /// Reports the kind of the item `n` positions ahead without consuming
    /// anything, or `None` when fewer than `n + 1` items remain.
    pub fn peek_nth(&self, n: usize) -> (r: Option<Result<TokenKind, ()>>)
        requires
            self.wf(),
        ensures
            r == if self.cursor_at() + n < self.items_seq().len() {
                Some(item_kind(self.items_seq()[self.cursor_at() + n]))
            } else {
                Option::<Result<TokenKind, ()>>::None
            },
    {
        if n < self.items.len() && self.cursor < self.items.len() - n {
            let it = self.items[self.cursor + n];
            match it.token {
                Ok(t) => Some(Ok(TokenKind::from(t))),
                Err(_) => Some(Err(())),
            }
        } else {
            None
        }
    }

    /// Reports the kind of the next item without consuming it.
    pub fn peek(&self) -> (r: Option<Result<TokenKind, ()>>)
        requires
            self.wf(),
        ensures
            r == if self.cursor_at() < self.items_seq().len() {
                Some(item_kind(self.items_seq()[self.cursor_at()]))
            } else {
                Option::<Result<TokenKind, ()>>::None
            },
    {
        self.peek_nth(0)
    }

    /// The exact source substring of the most recently consumed item.
    pub fn slice(&self) -> (r: &'a str)
        requires
            self.wf(),
            0 < self.cursor_at() <= self.items_seq().len(),
        ensures
            r@ == item_slice(self.text_model(), self.items_seq()[self.cursor_at() - 1]),
    {
        let it = self.items[self.cursor - 1];
        self.text.substring_char(it.start, it.end)
    }
}

} // verus!
