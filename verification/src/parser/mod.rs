//! The front end: from Redcode text to lines.
pub mod instruction;
pub mod line;
pub mod metadata;
pub mod numeric_expr;
pub mod opcode;

use vstd::prelude::*;
use vstd::string::*;
use crate::error::ParseError;
use crate::parser::instruction::{Definition, DefinitionView};
use crate::parser::line::{lines, lines_view, parse_spec, Line, LineView};
use crate::parser::metadata::{trimmed_end, trimmed_end_spec};
use crate::text::{lemma_skip, skip_spec, CharClass, Source};

verus! {

/// Reads the lines of a source text.
pub fn parse(i: &str) -> (result: Result<Vec<Line>, ParseError>)
    ensures
        match result {
            Ok(lines) => parse_spec(i@) == Ok::<Seq<LineView>, ParseError>(lines_view(lines@)),
            Err(error) => parse_spec(i@) == Err::<Seq<LineView>, ParseError>(error),
        },
{
    let src = Source::new(i);
    lines(&src)
}

/// The definitions among lines, in their order.
pub open spec fn definitions_spec(lines: Seq<LineView>) -> Seq<DefinitionView>
    decreases lines.len(),
{
    if lines.len() == 0 {
        Seq::empty()
    } else {
        match lines.last() {
            LineView::Definition(definition) => definitions_spec(lines.drop_last()).push(
                definition,
            ),
            _ => definitions_spec(lines.drop_last()),
        }
    }
}

/// The text without what stands between `from` and `to`.
pub open spec fn cut_spec(s: Seq<char>, from: int, to: int) -> Seq<char> {
    if 0 <= from <= to <= s.len() {
        s.subrange(0, from) + s.subrange(to, s.len() as int)
    } else {
        s
    }
}

/// The text without the spans of the definitions, the last of which is cut
/// out first.
pub open spec fn erased_spec(s: Seq<char>, definitions: Seq<DefinitionView>) -> Seq<char>
    decreases definitions.len(),
{
    if definitions.len() == 0 {
        s
    } else {
        let last = definitions.last();
        erased_spec(
            cut_spec(s, last.start, last.start + last.full_definition.len()),
            definitions.drop_last(),
        )
    }
}

/// The text from `pos` on with every token that is `label` replaced by
/// `replacement`. A token is a run of letters and digits that cannot be made
/// longer.
pub open spec fn replaced_from_spec(
    s: Seq<char>,
    pos: int,
    label: Seq<char>,
    replacement: Seq<char>,
) -> Seq<char>
    decreases s.len() - pos,
{
    if pos < 0 || pos >= s.len() {
        Seq::empty()
    } else if CharClass::Alphanumeric.holds(s[pos]) {
        let end = skip_spec(s, pos, CharClass::Alphanumeric);
        if pos < end <= s.len() {
            (if s.subrange(pos, end) == label {
                replacement
            } else {
                s.subrange(pos, end)
            }) + replaced_from_spec(s, end, label, replacement)
        } else {
            Seq::empty()
        }
    } else {
        seq![s[pos]] + replaced_from_spec(s, pos + 1, label, replacement)
    }
}

/// A definition's text without the blanks at its end.
pub open spec fn trimmed_spec(text: Seq<char>) -> Seq<char> {
    text.subrange(0, trimmed_end_spec(text, 0, text.len() as int))
}

/// The text after the labels of the definitions from place `from` on have
/// been replaced, one definition after the other.
pub open spec fn substituted_spec(s: Seq<char>, definitions: Seq<DefinitionView>, from: int)
    -> Seq<char>
    decreases definitions.len() - from,
{
    if from < 0 || from >= definitions.len() {
        s
    } else {
        substituted_spec(
            replaced_from_spec(
                s,
                0,
                definitions[from].label,
                trimmed_spec(definitions[from].definition),
            ),
            definitions,
            from + 1,
        )
    }
}

/// The source text with its definitions applied.
///
/// The spans of all definitions are cut out of the text. Then, for one
/// definition after the other, every token that is the definition's label is
/// replaced by the definition's text. A text that cannot be read fails, and
/// so does one from which lines with a definition can still be read after
/// that.
pub open spec fn replace_definitions_spec(s: Seq<char>) -> Result<Seq<char>, ParseError> {
    match parse_spec(s) {
        Ok(lines) => {
            let definitions = definitions_spec(lines);
            let text = substituted_spec(erased_spec(s, definitions), definitions, 0);
            match parse_spec(text) {
                Ok(again) => if definitions_spec(again).len() > 0 {
                    Err(ParseError::Replace)
                } else {
                    Ok(text)
                },
                Err(_) => Ok(text),
            }
        },
        Err(_) => Err(ParseError::Replace),
    }
}

/// A text from which lines can be read after its definitions were applied
/// holds no definition any more.
pub proof fn lemma_no_definition_left(s: Seq<char>)
    ensures
        replace_definitions_spec(s) matches Ok(text) ==> (parse_spec(text) matches Ok(lines)
            ==> definitions_spec(lines).len() == 0),
{
}

/// Definitions as mathematics.
pub open spec fn definitions_view(definitions: Seq<&Definition>) -> Seq<DefinitionView> {
    Seq::new(definitions.len(), |i: int| definitions[i]@)
}

/// The definitions among lines, in their order.
pub fn definitions(lines: &Vec<Line>) -> (found: Vec<&Definition>)
    ensures
        definitions_view(found@) == definitions_spec(lines_view(lines@)),
{
    let mut found: Vec<&Definition> = Vec::new();
    let mut i: usize = 0;
    assert(definitions_view(found@) =~= definitions_spec(lines_view(lines@).take(0)));
    while i < lines.len()
        invariant
            i <= lines@.len(),
            definitions_view(found@) == definitions_spec(lines_view(lines@).take(i as int)),
        decreases lines@.len() - i,
    {
        assert(lines_view(lines@).take(i + 1).drop_last() =~= lines_view(lines@).take(i as int));
        assert(lines_view(lines@).take(i + 1).last() == lines@[i as int]@);
        match &lines[i] {
            Line::Definition(definition) => {
                let ghost before = definitions_view(found@);
                found.push(definition);
                assert(definitions_view(found@) =~= before.push(definition@));
            },
            _ => {},
        }
        i += 1;
    }
    assert(lines_view(lines@).take(lines@.len() as int) =~= lines_view(lines@));
    found
}

/// The text without what stands between `from` and `to`.
pub fn cut(text: &str, from: usize, to: usize) -> (rest: String)
    ensures
        rest@ == cut_spec(text@, from as int, to as int),
{
    let src = Source::new(text);
    if from <= to && to <= src.len() {
        let mut rest = src.slice(0, from).to_owned();
        rest.append(src.rest(to));
        rest
    } else {
        text.to_owned()
    }
}

/// Within a run of characters that are no letters or digits, the text stays
/// as it is.
pub proof fn lemma_replaced_plain_run(
    s: Seq<char>,
    pos: int,
    end: int,
    label: Seq<char>,
    replacement: Seq<char>,
)
    requires
        0 <= pos <= end <= s.len(),
        forall|i: int| pos <= i < end ==> !CharClass::Alphanumeric.holds(#[trigger] s[i]),
    ensures
        replaced_from_spec(s, pos, label, replacement) == s.subrange(pos, end)
            + replaced_from_spec(s, end, label, replacement),
    decreases end - pos,
{
    if pos < end {
        lemma_replaced_plain_run(s, pos + 1, end, label, replacement);
        assert(s.subrange(pos, end) =~= seq![s[pos]] + s.subrange(pos + 1, end));
        assert(replaced_from_spec(s, pos, label, replacement) =~= s.subrange(pos, end)
            + replaced_from_spec(s, end, label, replacement));
    } else {
        assert(s.subrange(pos, end) + replaced_from_spec(s, end, label, replacement)
            =~= replaced_from_spec(s, end, label, replacement));
    }
}

/// The end of the run of characters that are no letters or digits and that
/// starts at `pos`.
fn plain_run_end(src: &Source, pos: usize) -> (end: usize)
    requires
        pos <= src@.len(),
    ensures
        pos <= end <= src@.len(),
        forall|i: int| pos <= i < end ==> !CharClass::Alphanumeric.holds(#[trigger] src@[i]),
        end < src@.len() ==> CharClass::Alphanumeric.holds(src@[end as int]),
{
    let mut end = pos;
    while end < src.len() && !src.has_class(end, CharClass::Alphanumeric)
        invariant
            pos <= end <= src@.len(),
            forall|i: int| pos <= i < end ==> !CharClass::Alphanumeric.holds(#[trigger] src@[i]),
        decreases src@.len() - end,
    {
        end += 1;
    }
    end
}

/// The text with every token that is `label` replaced by `replacement`.
pub fn replace_token(text: &str, label: &String, replacement: &str) -> (replaced: String)
    ensures
        replaced@ == replaced_from_spec(text@, 0, label@, replacement@),
{
    let src = Source::new(text);
    let n = src.len();
    let mut replaced = String::new();
    let mut pos: usize = 0;
    assert(replaced@ + replaced_from_spec(src@, 0, label@, replacement@) =~= replaced_from_spec(
        src@,
        0,
        label@,
        replacement@,
    ));
    while pos < n
        invariant
            pos <= n == src@.len(),
            src@ == text@,
            replaced@ + replaced_from_spec(src@, pos as int, label@, replacement@)
                == replaced_from_spec(src@, 0, label@, replacement@),
        decreases n - pos,
    {
        let ghost before = replaced@;
        let ghost tail = replaced_from_spec(src@, pos as int, label@, replacement@);
        if src.has_class(pos, CharClass::Alphanumeric) {
            let end = src.skip(pos, CharClass::Alphanumeric);
            proof {
                lemma_skip(src@, pos as int, CharClass::Alphanumeric);
            }
            let token = src.slice(pos, end);
            if token.to_owned() == *label {
                replaced.append(replacement);
            } else {
                replaced.append(token);
            }
            assert(replaced@ + replaced_from_spec(src@, end as int, label@, replacement@)
                =~= before + tail);
            pos = end;
        } else {
            let end = plain_run_end(&src, pos);
            proof {
                lemma_replaced_plain_run(src@, pos as int, end as int, label@, replacement@);
            }
            replaced.append(src.slice(pos, end));
            assert(replaced@ + replaced_from_spec(src@, end as int, label@, replacement@)
                =~= before + tail);
            pos = end;
        }
    }
    assert(replaced@ + replaced_from_spec(src@, n as int, label@, replacement@) =~= replaced@);
    replaced
}

/// A definition's text without the blanks at its end.
pub fn trimmed(text: &str) -> (short: String)
    ensures
        short@ == trimmed_spec(text@),
{
    let src = Source::new(text);
    src.slice(0, trimmed_end(&src, 0, src.len())).to_owned()
}

/// Whether a definition stands among the lines.
pub fn has_definition(lines: &Vec<Line>) -> (yes: bool)
    ensures
        yes == (definitions_spec(lines_view(lines@)).len() > 0),
{
    definitions(lines).len() > 0
}

/// Applies the definitions of a source text to it.
///
/// The spans of all definitions are cut out of the text, and every token
/// that is a definition's label is replaced by the definition's text. Fails
/// with `Replace` where the text cannot be read, and where lines with a
/// definition can still be read from the result.
pub fn replace_definitions(s: &str) -> (result: Result<String, ParseError>)
    ensures
        match result {
            Ok(text) => replace_definitions_spec(s@) == Ok::<Seq<char>, ParseError>(text@),
            Err(error) => replace_definitions_spec(s@) == Err::<Seq<char>, ParseError>(error),
        },
        result matches Ok(text) ==> (parse_spec(text@) matches Ok(lines) ==> definitions_spec(
            lines,
        ).len() == 0),
{
    let lines = match parse(s) {
        Ok(lines) => lines,
        Err(_) => {
            return Err(ParseError::Replace);
        },
    };
    let found = definitions(&lines);
    let ghost all = definitions_view(found@);
    let mut text = s.to_owned();
    if found.len() == 0 {
        return Ok(text);
    }
    let mut k = found.len();
    assert(all.take(k as int) =~= all);
    while k > 0
        invariant
            k <= found@.len(),
            all == definitions_view(found@),
            erased_spec(s@, all) == erased_spec(text@, all.take(k as int)),
        decreases k,
    {
        let definition = found[k - 1];
        assert(all.take(k as int).last() == definition@);
        assert(all.take(k as int).drop_last() =~= all.take(k - 1));
        let length = definition.full_definition.as_str().unicode_len();
        if length <= usize::MAX - definition.start {
            text = cut(text.as_str(), definition.start, definition.start + length);
        } else {
            let total = text.as_str().unicode_len();
            assert(cut_spec(text@, definition.start as int, definition.start + length) == text@);
        }
        k -= 1;
    }
    let mut i: usize = 0;
    let ghost erased = text@;
    while i < found.len()
        invariant
            i <= found@.len(),
            all == definitions_view(found@),
            substituted_spec(erased, all, 0) == substituted_spec(text@, all, i as int),
        decreases found@.len() - i,
    {
        let definition = found[i];
        let replacement = trimmed(definition.definition.as_str());
        text = replace_token(text.as_str(), &definition.label, replacement.as_str());
        i += 1;
    }
    match parse(text.as_str()) {
        Ok(again) => {
            if has_definition(&again) {
                Err(ParseError::Replace)
            } else {
                Ok(text)
            }
        },
        Err(_) => Ok(text),
    }
}

} // verus!
