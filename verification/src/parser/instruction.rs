//! Instructions as the source writes them: labels, an operation and one or
//! two operands; and the statements that stand in an instruction's place.
use vstd::prelude::*;
use vstd::string::*;
use crate::parser::numeric_expr::{
    expr, expr_spec, label, label_spec, ExprValue, ExprView, NumericExpr,
};
use crate::parser::opcode::{
    address_mode, address_mode_spec, mnemonic_at, mnemonic_at_spec, operation, operation_spec,
    AddressMode, Mnemonic, Operation,
};
use crate::text::{lemma_skip, skip_spec, CharClass, Source};

verus! {

/// An operand: an addressing mode and an expression.
#[derive(Debug, PartialEq, Eq)]
pub struct Address {
    pub expr: NumericExpr,
    pub mode: AddressMode,
}

/// An [`Address`] as mathematics.
pub struct AddressView {
    pub expr: ExprView,
    pub mode: AddressMode,
}

impl View for Address {
    type V = AddressView;

    open spec fn view(&self) -> AddressView {
        AddressView { expr: self.expr@, mode: self.mode }
    }
}

impl Default for Address {
    /// The operand that an instruction without a second operand gets: `$0`.
    fn default() -> (address: Self)
        ensures
            address@ == AddressView::direct_zero(),
    {
        Self { mode: AddressMode::Direct, expr: NumericExpr::Value(ExprValue::Number(0)) }
    }
}

impl AddressView {
    /// The operand `$0`.
    pub open spec fn direct_zero() -> AddressView {
        AddressView { expr: ExprView::Number(0), mode: AddressMode::Direct }
    }
}

/// An instruction as the source writes it.
#[derive(Debug, PartialEq, Eq)]
pub struct RawInstruction {
    pub label_list: Vec<String>,
    pub operation: Operation,
    pub field_a: Address,
    pub field_b: Option<Address>,
}

/// A [`RawInstruction`] as mathematics.
pub struct RawInstructionView {
    pub label_list: Seq<Seq<char>>,
    pub operation: Operation,
    pub field_a: AddressView,
    pub field_b: Option<AddressView>,
}

/// Texts as sequences of characters.
pub open spec fn texts_view(texts: Seq<String>) -> Seq<Seq<char>> {
    Seq::new(texts.len(), |i: int| texts[i]@)
}

/// An optional operand as mathematics.
pub open spec fn optional_address_view(address: Option<Address>) -> Option<AddressView> {
    match address {
        Some(address) => Some(address@),
        None => None,
    }
}

impl View for RawInstruction {
    type V = RawInstructionView;

    open spec fn view(&self) -> RawInstructionView {
        RawInstructionView {
            label_list: texts_view(self.label_list@),
            operation: self.operation,
            field_a: self.field_a@,
            field_b: optional_address_view(self.field_b),
        }
    }
}

/// The place after a comment, if one starts at `pos`: a semicolon and what
/// follows it in the line. Else `pos`.
pub open spec fn after_comment_spec(s: Seq<char>, pos: int) -> int {
    if 0 <= pos < s.len() && s[pos] == ';' {
        skip_spec(s, pos + 1, CharClass::InLine)
    } else {
        pos
    }
}

/// The place after a comment, if one starts at `pos`; else `pos`.
pub fn after_comment(src: &Source, pos: usize) -> (end: usize)
    requires
        pos <= src@.len(),
    ensures
        end == after_comment_spec(src@, pos as int),
        pos <= end <= src@.len(),
        end > pos <==> pos < src@.len() && src@[pos as int] == ';',
{
    let n = src.len();
    if src.has(pos, ';') {
        src.skip(pos + 1, CharClass::InLine)
    } else {
        pos
    }
}

/// A comment at `pos`: a semicolon and what follows it in the line. Given is
/// the place after it.
pub open spec fn comment_spec(s: Seq<char>, pos: int) -> Option<int> {
    if 0 <= pos < s.len() && s[pos] == ';' {
        Some(skip_spec(s, pos + 1, CharClass::InLine))
    } else {
        None
    }
}

/// Reads a comment at `pos`.
pub fn comment(src: &Source, pos: usize) -> (found: Option<(usize, String)>)
    ensures
        match found {
            Some((end, text)) => comment_spec(src@, pos as int) == Some(end as int) && pos < end
                <= src@.len() && text@ == src@.subrange(pos as int, end as int),
            None => comment_spec(src@, pos as int) is None,
        },
{
    let n = src.len();
    if src.has(pos, ';') {
        let end = src.skip(pos + 1, CharClass::InLine);
        Some((end, src.slice(pos, end).to_owned()))
    } else {
        None
    }
}

/// What follows the first label of a list: as long as white space and then a
/// label stand at `pos`, the label joins the list.
pub open spec fn labels_rest_spec(s: Seq<char>, pos: int, labels: Seq<Seq<char>>) -> (
    int,
    Seq<Seq<char>>,
)
    decreases s.len() - pos,
{
    let p = skip_spec(s, pos, CharClass::Multispace);
    if pos < p && label_spec(s, p) is Some {
        let end = label_spec(s, p)->0;
        if p < end <= s.len() {
            labels_rest_spec(s, end, labels.push(s.subrange(p, end)))
        } else {
            (pos, labels)
        }
    } else {
        (pos, labels)
    }
}

/// The labels in front of an instruction, from `pos` on: labels with white
/// space between them, which may hold line breaks; then white space, a colon
/// if one stands there, and blanks. Given are the place after all that and
/// the labels.
pub open spec fn label_list_spec(s: Seq<char>, pos: int) -> (int, Seq<Seq<char>>) {
    let (end, labels) = match label_spec(s, pos) {
        Some(end) => if pos < end <= s.len() {
            labels_rest_spec(s, end, seq![s.subrange(pos, end)])
        } else {
            (pos, Seq::<Seq<char>>::empty())
        },
        None => (pos, Seq::<Seq<char>>::empty()),
    };
    let p = skip_spec(s, end, CharClass::Multispace);
    let q = if 0 <= p < s.len() && s[p] == ':' {
        p + 1
    } else {
        p
    };
    (skip_spec(s, q, CharClass::Space), labels)
}

/// Reads the labels in front of an instruction.
pub fn label_list(src: &Source, pos: usize) -> (found: (usize, Vec<String>))
    requires
        pos <= src@.len(),
    ensures
        label_list_spec(src@, pos as int) == (found.0 as int, texts_view(found.1@)),
        pos <= found.0 <= src@.len(),
{
    let n = src.len();
    let mut labels: Vec<String> = Vec::new();
    let mut end = pos;
    match label(src, pos) {
        Some((first_end, text)) => {
            labels.push(text);
            end = first_end;
            assert(texts_view(labels@) =~= seq![src@.subrange(pos as int, first_end as int)]);
            let ghost start = first_end;
            let ghost first = texts_view(labels@);
            loop
                invariant
                    pos <= end <= src@.len() == n,
                    labels_rest_spec(src@, start as int, first) == labels_rest_spec(
                        src@,
                        end as int,
                        texts_view(labels@),
                    ),
                ensures
                    pos <= end <= src@.len(),
                    labels_rest_spec(src@, start as int, first) == (
                        end as int,
                        texts_view(labels@),
                    ),
                decreases src@.len() - end,
            {
                let p = src.skip(end, CharClass::Multispace);
                if p == end {
                    break ;
                }
                match label(src, p) {
                    Some((after, text)) => {
                        let ghost before = texts_view(labels@);
                        labels.push(text);
                        assert(texts_view(labels@) =~= before.push(
                            src@.subrange(p as int, after as int),
                        ));
                        end = after;
                    },
                    None => {
                        break ;
                    },
                }
            }
        },
        None => {
            assert(texts_view(labels@) =~= Seq::<Seq<char>>::empty());
        },
    }
    let p = src.skip(end, CharClass::Multispace);
    let q = if src.has(p, ':') {
        p + 1
    } else {
        p
    };
    (src.skip(q, CharClass::Space), labels)
}

/// An operand at `pos`: the sign of an addressing mode if one stands there,
/// else the mode is direct; then an expression.
pub open spec fn address_spec(s: Seq<char>, pos: int) -> Option<(int, AddressView)> {
    let (p, mode) = match address_mode_spec(s, pos) {
        Some((end, mode)) => (end, mode),
        None => (pos, AddressMode::Direct),
    };
    match expr_spec(s, p) {
        Some((end, expr)) => Some((end, AddressView { expr, mode })),
        None => None,
    }
}

/// Reads an operand at `pos`.
pub fn address(src: &Source, pos: usize) -> (found: Option<(usize, Address)>)
    requires
        pos <= src@.len(),
    ensures
        match found {
            Some((end, address)) => address_spec(src@, pos as int) == Some((end as int, address@))
                && pos < end <= src@.len(),
            None => address_spec(src@, pos as int) is None,
        },
{
    let (p, mode) = match address_mode(src, pos) {
        Some((end, mode)) => (end, mode),
        None => (pos, AddressMode::Direct),
    };
    match expr(src, p) {
        Some((end, expr)) => Some((end, Address { expr, mode })),
        None => None,
    }
}

/// The second operand of an instruction, if one follows at `pos`: a comma,
/// blanks, and an operand.
pub open spec fn second_operand_spec(s: Seq<char>, pos: int) -> Option<(int, AddressView)> {
    if 0 <= pos < s.len() && s[pos] == ',' {
        address_spec(s, skip_spec(s, pos + 1, CharClass::Space))
    } else {
        None
    }
}

/// An instruction at `pos`: blanks, labels, an operation, at least one
/// blank, an operand, and after blanks a second operand if a comma follows;
/// then blanks and a comment if one follows. Given are the place after it and
/// the instruction.
pub open spec fn instruction_spec(s: Seq<char>, pos: int) -> Option<(int, RawInstructionView)> {
    let (labels_end, label_list) = label_list_spec(s, skip_spec(s, pos, CharClass::Space));
    match operation_spec(s, labels_end) {
        Some((operation_end, operation)) => {
            let first_start = skip_spec(s, operation_end, CharClass::Space);
            if operation_end < first_start {
                match address_spec(s, first_start) {
                    Some((first_end, field_a)) => {
                        let first_blank_end = skip_spec(s, first_end, CharClass::Space);
                        let (operands_end, field_b) = match second_operand_spec(s, first_blank_end) {
                            Some((end, second)) => (end, Some(second)),
                            None => (first_blank_end, None),
                        };
                        Some(
                            (
                                after_comment_spec(s, skip_spec(s, operands_end, CharClass::Space)),
                                RawInstructionView { label_list, operation, field_a, field_b },
                            ),
                        )
                    },
                    None => None,
                }
            } else {
                None
            }
        },
        None => None,
    }
}

/// Reads an instruction at `pos`.
pub fn instruction(src: &Source, pos: usize) -> (found: Option<(usize, RawInstruction)>)
    requires
        pos <= src@.len(),
    ensures
        match found {
            Some((end, instruction)) => instruction_spec(src@, pos as int) == Some(
                (end as int, instruction@),
            ) && pos < end <= src@.len(),
            None => instruction_spec(src@, pos as int) is None,
        },
{
    let n = src.len();
    let (labels_end, label_list) = label_list(src, src.skip(pos, CharClass::Space));
    let (operation_end, operation) = match operation(src, labels_end) {
        Some(found) => found,
        None => {
            return None;
        },
    };
    let first_start = src.skip(operation_end, CharClass::Space);
    if first_start == operation_end {
        return None;
    }
    let (first_end, field_a) = match address(src, first_start) {
        Some(found) => found,
        None => {
            return None;
        },
    };
    let first_blank_end = src.skip(first_end, CharClass::Space);
    let mut operands_end = first_blank_end;
    let mut field_b: Option<Address> = None;
    if src.has(first_blank_end, ',') {
        match address(src, src.skip(first_blank_end + 1, CharClass::Space)) {
            Some((end, second)) => {
                operands_end = end;
                field_b = Some(second);
            },
            None => {},
        }
    }
    let end = after_comment(src, src.skip(operands_end, CharClass::Space));
    Some((end, RawInstruction { label_list, operation, field_a, field_b }))
}

/// A definition as mathematics: the label, the text that stands for it, and
/// the text of both from the label to the end of the definition's text, with
/// the place where it starts.
pub struct DefinitionView {
    pub label: Seq<char>,
    pub definition: Seq<char>,
    pub full_definition: Seq<char>,
    pub start: int,
}

/// A definition read from the source.
#[derive(Debug, PartialEq, Eq)]
pub struct Definition {
    pub label: String,
    pub definition: String,
    pub full_definition: String,
    pub start: usize,
}

impl View for Definition {
    type V = DefinitionView;

    open spec fn view(&self) -> DefinitionView {
        DefinitionView {
            label: self.label@,
            definition: self.definition@,
            full_definition: self.full_definition@,
            start: self.start as int,
        }
    }
}

/// A definition at `pos`: a label, blanks, `EQU`, blanks, and text up to a
/// semicolon or the end of the line; then a comment if one follows. Given
/// are the place after it and the definition.
pub open spec fn definition_spec(s: Seq<char>, pos: int) -> Option<(int, DefinitionView)> {
    match label_spec(s, pos) {
        Some(label_end) => {
            let keyword = skip_spec(s, label_end, CharClass::Space);
            let text_start = skip_spec(s, keyword + 3, CharClass::Space);
            let text_end = skip_spec(s, text_start, CharClass::InDefinition);
            if label_end < keyword && mnemonic_at_spec(s, keyword) == Some(Mnemonic::Equ) && keyword + 3 < text_start {
                Some(
                    (
                        after_comment_spec(s, text_end),
                        DefinitionView {
                            label: s.subrange(pos, label_end),
                            definition: s.subrange(text_start, text_end),
                            full_definition: s.subrange(pos, text_end),
                            start: pos,
                        },
                    ),
                )
            } else {
                None
            }
        },
        None => None,
    }
}

/// Reads a definition at `pos`.
pub fn definition(src: &Source, pos: usize) -> (found: Option<(usize, Definition)>)
    ensures
        match found {
            Some((end, definition)) => definition_spec(src@, pos as int) == Some(
                (end as int, definition@),
            ) && pos < end <= src@.len(),
            None => definition_spec(src@, pos as int) is None,
        },
{
    let n = src.len();
    let (label_end, label) = match label(src, pos) {
        Some(found) => found,
        None => {
            return None;
        },
    };
    let keyword = src.skip(label_end, CharClass::Space);
    if keyword == label_end {
        return None;
    }
    match mnemonic_at(src, keyword) {
        Some(Mnemonic::Equ) => {},
        _ => {
            return None;
        },
    }
    let text_start = src.skip(keyword + 3, CharClass::Space);
    if text_start == keyword + 3 {
        return None;
    }
    let text_end = src.skip(text_start, CharClass::InDefinition);
    let end = after_comment(src, text_end);
    Some(
        (
            end,
            Definition {
                label,
                definition: src.slice(text_start, text_end).to_owned(),
                full_definition: src.slice(pos, text_end).to_owned(),
                start: pos,
            },
        ),
    )
}

/// An `ORG` statement at `pos`: blanks, `ORG`, blanks, an expression; then,
/// after blanks, a comment if one follows. Given are the place after it and
/// the expression.
pub open spec fn org_statement_spec(s: Seq<char>, pos: int) -> Option<(int, ExprView)> {
    let p = skip_spec(s, pos, CharClass::Space);
    let expr_start = skip_spec(s, p + 3, CharClass::Space);
    if mnemonic_at_spec(s, p) == Some(Mnemonic::Org) && p + 3 < expr_start {
        match expr_spec(s, expr_start) {
            Some((end, expr)) => {
                let q = skip_spec(s, end, CharClass::Space);
                if after_comment_spec(s, q) > q {
                    Some((after_comment_spec(s, q), expr))
                } else {
                    Some((end, expr))
                }
            },
            None => None,
        }
    } else {
        None
    }
}

/// Reads an `ORG` statement at `pos`.
pub fn org_statement(src: &Source, pos: usize) -> (found: Option<(usize, NumericExpr)>)
    requires
        pos <= src@.len(),
    ensures
        match found {
            Some((end, expr)) => org_statement_spec(src@, pos as int) == Some((end as int, expr@))
                && pos < end <= src@.len(),
            None => org_statement_spec(src@, pos as int) is None,
        },
{
    let n = src.len();
    let p = src.skip(pos, CharClass::Space);
    match mnemonic_at(src, p) {
        Some(Mnemonic::Org) => {},
        _ => {
            return None;
        },
    }
    let expr_start = src.skip(p + 3, CharClass::Space);
    if expr_start == p + 3 {
        return None;
    }
    match expr(src, expr_start) {
        Some((end, expr)) => {
            let q = src.skip(end, CharClass::Space);
            let after = after_comment(src, q);
            if after > q {
                Some((after, expr))
            } else {
                Some((end, expr))
            }
        },
        None => None,
    }
}

} // verus!
