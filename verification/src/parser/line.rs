//! The lines of a warrior's source.
use vstd::prelude::*;
use vstd::string::*;
use crate::error::ParseError;
use crate::parser::instruction::{
    after_comment, after_comment_spec, comment, comment_spec, definition, definition_spec,
    instruction, instruction_spec, org_statement, org_statement_spec, Definition, DefinitionView,
    RawInstruction, RawInstructionView,
};
use crate::parser::metadata::{metadata, metadata_spec, MetadataValue, MetadataValueView};
use crate::parser::numeric_expr::{expr, expr_spec, ExprView, NumericExpr};
use crate::parser::opcode::{mnemonic_at, mnemonic_at_spec, Mnemonic};
use crate::text::{skip_spec, CharClass, Source};

verus! {

/// A line of a warrior's source.
#[derive(Debug, PartialEq, Eq)]
pub enum Line {
    Instruction(RawInstruction),
    Comment(String),
    OrgStatement(NumericExpr),
    MetadataStatement(MetadataValue),
    Definition(Definition),
}

/// A [`Line`] as mathematics.
pub enum LineView {
    Instruction(RawInstructionView),
    Comment(Seq<char>),
    OrgStatement(ExprView),
    MetadataStatement(MetadataValueView),
    Definition(DefinitionView),
}

impl View for Line {
    type V = LineView;

    open spec fn view(&self) -> LineView {
        match self {
            Line::Instruction(instruction) => LineView::Instruction(instruction@),
            Line::Comment(text) => LineView::Comment(text@),
            Line::OrgStatement(expr) => LineView::OrgStatement(expr@),
            Line::MetadataStatement(value) => LineView::MetadataStatement(value@),
            Line::Definition(definition) => LineView::Definition(definition@),
        }
    }
}

/// Lines as mathematics.
pub open spec fn lines_view(lines: Seq<Line>) -> Seq<LineView> {
    Seq::new(lines.len(), |i: int| lines[i]@)
}

/// The statement of a line that starts at `pos`, the first of these that
/// can be read there: a definition, an `ORG` statement, a metadata comment,
/// another comment, an instruction.
pub open spec fn statement_spec(s: Seq<char>, pos: int) -> Option<(int, LineView)> {
    if definition_spec(s, pos) is Some {
        let (end, definition) = definition_spec(s, pos)->0;
        Some((end, LineView::Definition(definition)))
    } else if org_statement_spec(s, pos) is Some {
        let (end, expr) = org_statement_spec(s, pos)->0;
        Some((end, LineView::OrgStatement(expr)))
    } else if metadata_spec(s, pos) is Some {
        let (end, value) = metadata_spec(s, pos)->0;
        Some((end, LineView::MetadataStatement(value)))
    } else if comment_spec(s, pos) is Some {
        let end = comment_spec(s, pos)->0;
        Some((end, LineView::Comment(s.subrange(pos, end))))
    } else if instruction_spec(s, pos) is Some {
        let (end, instruction) = instruction_spec(s, pos)->0;
        Some((end, LineView::Instruction(instruction)))
    } else {
        None
    }
}

/// A line at `pos`: blanks, a statement, blanks, and a comment if one
/// follows. Given are the place after it and the line.
pub open spec fn line_spec(s: Seq<char>, pos: int) -> Option<(int, LineView)> {
    match statement_spec(s, skip_spec(s, pos, CharClass::Space)) {
        Some((end, line)) => Some(
            (after_comment_spec(s, skip_spec(s, end, CharClass::Space)), line),
        ),
        None => None,
    }
}

/// Reads a line at `pos`.
pub fn line(src: &Source, pos: usize) -> (found: Option<(usize, Line)>)
    requires
        pos <= src@.len(),
    ensures
        match found {
            Some((end, line)) => line_spec(src@, pos as int) == Some((end as int, line@)) && pos
                < end <= src@.len(),
            None => line_spec(src@, pos as int) is None,
        },
{
    let p = src.skip(pos, CharClass::Space);
    let (end, line) = match definition(src, p) {
        Some((end, definition)) => (end, Line::Definition(definition)),
        None => match org_statement(src, p) {
            Some((end, expr)) => (end, Line::OrgStatement(expr)),
            None => match metadata(src, p) {
                Some((end, value)) => (end, Line::MetadataStatement(value)),
                None => match comment(src, p) {
                    Some((end, text)) => (end, Line::Comment(text)),
                    None => match instruction(src, p) {
                        Some((end, instruction)) => (end, Line::Instruction(instruction)),
                        None => {
                            return None;
                        },
                    },
                },
            },
        },
    };
    Some((after_comment(src, src.skip(end, CharClass::Space)), line))
}

/// What parts two lines, from `pos` on: blanks, a line break, and white
/// space. Given is the place after it.
pub open spec fn separator_spec(s: Seq<char>, pos: int) -> Option<int> {
    let q = skip_spec(s, pos, CharClass::Space);
    if 0 <= q < s.len() && s[q] == '\n' {
        Some(skip_spec(s, q + 1, CharClass::Multispace))
    } else if 0 <= q && q + 1 < s.len() && s[q] == '\r' && s[q + 1] == '\n' {
        Some(skip_spec(s, q + 2, CharClass::Multispace))
    } else {
        None
    }
}

/// Reads what parts two lines.
pub fn separator(src: &Source, pos: usize) -> (found: Option<usize>)
    requires
        pos <= src@.len(),
    ensures
        match found {
            Some(end) => separator_spec(src@, pos as int) == Some(end as int) && pos < end
                <= src@.len(),
            None => separator_spec(src@, pos as int) is None,
        },
{
    let n = src.len();
    let q = src.skip(pos, CharClass::Space);
    if src.has(q, '\n') {
        Some(src.skip(q + 1, CharClass::Multispace))
    } else if src.has(q, '\r') && src.has(q + 1, '\n') {
        Some(src.skip(q + 2, CharClass::Multispace))
    } else {
        None
    }
}

/// What follows the first line: as long as a separator and then a line stand
/// at `pos`, the line joins the list.
pub open spec fn lines_rest_spec(s: Seq<char>, pos: int, lines: Seq<LineView>) -> (
    int,
    Seq<LineView>,
)
    decreases s.len() - pos,
{
    match separator_spec(s, pos) {
        Some(q) => match line_spec(s, q) {
            Some((end, line)) => {
                if pos < end <= s.len() {
                    lines_rest_spec(s, end, lines.push(line))
                } else {
                    (pos, lines)
                }
            },
            None => (pos, lines),
        },
        None => (pos, lines),
    }
}

/// The lines from `pos` on, as far as they can be read. Given are the place
/// after the last of them and the lines.
pub open spec fn line_list_spec(s: Seq<char>, pos: int) -> (int, Seq<LineView>) {
    match line_spec(s, pos) {
        Some((end, line)) => {
            if pos < end <= s.len() {
                lines_rest_spec(s, end, seq![line])
            } else {
                (pos, Seq::<LineView>::empty())
            }
        },
        None => (pos, Seq::<LineView>::empty()),
    }
}

/// Whether the program's last line starts at `pos`: the word `END`, in small
/// or capital letters, with no letter or digit after it.
pub open spec fn end_at_spec(s: Seq<char>, pos: int) -> bool {
    mnemonic_at_spec(s, pos) == Some(Mnemonic::End) && !(pos + 3 < s.len()
        && CharClass::Alphanumeric.holds(s[pos + 3]))
}

/// Whether an `ORG` statement stands among the lines.
pub open spec fn has_org_spec(lines: Seq<LineView>) -> bool {
    exists|i: int| 0 <= i < lines.len() && #[trigger] lines[i] is OrgStatement
}

/// Whether an `ORG` statement stands among the lines.
pub fn has_org(lines: &Vec<Line>) -> (yes: bool)
    ensures
        yes == has_org_spec(lines_view(lines@)),
{
    let mut i: usize = 0;
    while i < lines.len()
        invariant
            i <= lines@.len(),
            forall|k: int| 0 <= k < i ==> !(#[trigger] lines_view(lines@)[k] is OrgStatement),
        decreases lines@.len() - i,
    {
        match &lines[i] {
            Line::OrgStatement(_) => {
                assert(lines_view(lines@)[i as int] is OrgStatement);
                return true;
            },
            _ => {},
        }
        i += 1;
    }
    false
}

/// The lines of a source text.
///
/// After white space come the lines, each parted from the next by a line
/// break. After them and white space the line `END` must follow. An
/// expression after it counts as an `ORG` statement if the lines hold none.
/// Nothing but white space may follow. Where `END` is missing, the failure names the place
/// where no line could be read, or says that the text is incomplete if that
/// is its end. Where something follows the last line, the failure names its
/// place.
pub open spec fn parse_spec(s: Seq<char>) -> Result<Seq<LineView>, ParseError> {
    let (stop, lines) = line_list_spec(s, skip_spec(s, 0, CharClass::Multispace));
    let p = skip_spec(s, stop, CharClass::Multispace);
    if end_at_spec(s, p) {
        let after_end = skip_spec(s, p + 3, CharClass::Space);
        let (end, all) = match expr_spec(s, after_end) {
            Some((end, expr)) => (
                end,
                if has_org_spec(lines) {
                    lines
                } else {
                    lines.push(LineView::OrgStatement(expr))
                },
            ),
            None => (after_end, lines),
        };
        let last = skip_spec(s, end, CharClass::Multispace);
        if last == s.len() {
            Ok(all)
        } else {
            Err(ParseError::Parse(last as usize))
        }
    } else if p >= s.len() {
        Err(ParseError::Incomplete)
    } else {
        Err(ParseError::Parse(p as usize))
    }
}

/// Reads the lines from `pos` on, as far as they can be read.
pub fn line_list(src: &Source, pos: usize) -> (found: (usize, Vec<Line>))
    requires
        pos <= src@.len(),
    ensures
        line_list_spec(src@, pos as int) == (found.0 as int, lines_view(found.1@)),
        pos <= found.0 <= src@.len(),
{
    let mut lines: Vec<Line> = Vec::new();
    let (first_end, first) = match line(src, pos) {
        Some(found) => found,
        None => {
            assert(lines_view(lines@) =~= Seq::<LineView>::empty());
            return (pos, lines);
        },
    };
    let ghost first_view = seq![first@];
    lines.push(first);
    assert(lines_view(lines@) =~= first_view);
    let mut end = first_end;
    loop
        invariant
            pos < end <= src@.len(),
            lines_rest_spec(src@, first_end as int, first_view) == lines_rest_spec(
                src@,
                end as int,
                lines_view(lines@),
            ),
        ensures
            pos < end <= src@.len(),
            lines_rest_spec(src@, first_end as int, first_view) == (end as int, lines_view(lines@)),
        decreases src@.len() - end,
    {
        let q = match separator(src, end) {
            Some(q) => q,
            None => {
                break ;
            },
        };
        match line(src, q) {
            Some((after, next)) => {
                let ghost before = lines_view(lines@);
                let ghost next_view = next@;
                lines.push(next);
                assert(lines_view(lines@) =~= before.push(next_view));
                end = after;
            },
            None => {
                break ;
            },
        }
    }
    (end, lines)
}

/// Reads the lines of a source text.
pub fn lines(src: &Source) -> (result: Result<Vec<Line>, ParseError>)
    ensures
        match result {
            Ok(lines) => parse_spec(src@) == Ok::<Seq<LineView>, ParseError>(lines_view(lines@)),
            Err(error) => parse_spec(src@) == Err::<Seq<LineView>, ParseError>(error),
        },
{
    let n = src.len();
    let (stop, mut lines) = line_list(src, src.skip(0, CharClass::Multispace));
    let p = src.skip(stop, CharClass::Multispace);
    let at_end = match mnemonic_at(src, p) {
        Some(Mnemonic::End) => !src.has_class(p + 3, CharClass::Alphanumeric),
        _ => false,
    };
    if !at_end {
        return if p >= n {
            Err(ParseError::Incomplete)
        } else {
            Err(ParseError::Parse(p))
        };
    }
    let after_end = src.skip(p + 3, CharClass::Space);
    let end = match expr(src, after_end) {
        Some((end, expr)) => {
            if !has_org(&lines) {
                let ghost before = lines_view(lines@);
                let ghost expr_view = expr@;
                lines.push(Line::OrgStatement(expr));
                assert(lines_view(lines@) =~= before.push(LineView::OrgStatement(expr_view)));
            }
            end
        },
        None => after_end,
    };
    let last = src.skip(end, CharClass::Multispace);
    if last == n {
        Ok(lines)
    } else {
        Err(ParseError::Parse(last))
    }
}

} // verus!
