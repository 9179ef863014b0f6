//! Warriors: Redcode programs, resolved and ready to be loaded into a core.
use vstd::prelude::*;
use vstd::hash_map::StringHashMap;
use vstd::string::*;
use crate::error::{Error, ErrorView, EvaluateError, EvaluateErrorView, MetadataError};
use crate::parser::instruction::{Address, AddressView, RawInstruction, RawInstructionView};
use crate::parser::line::{lines_view, parse_spec, Line, LineView};
use crate::parser::metadata::{MetadataValue, MetadataValueView};
use crate::parser::numeric_expr::{evaluate_spec, result_view, ExprView, NumericExpr};
use crate::parser::opcode::{AddressMode, Modifier, Opcode};
use crate::parser::{parse, replace_definitions, replace_definitions_spec};
use crate::text::{number_text_spec, push_decimal, push_number, decimal_text_spec};

verus! {

/// An instruction of a warrior: its fields hold numbers, counted from the
/// instruction's own place, which may be negative.
#[derive(Debug, Clone, Copy, PartialEq, Eq, Structural)]
pub struct Instruction {
    pub opcode: Opcode,
    pub modifier: Modifier,
    pub mode_a: AddressMode,
    pub addr_a: i64,
    pub mode_b: AddressMode,
    pub addr_b: i64,
}

impl Instruction {
    /// An instruction with these fields.
    pub fn new(
        opcode: Opcode,
        modifier: Modifier,
        mode_a: AddressMode,
        addr_a: i64,
        mode_b: AddressMode,
        addr_b: i64,
    ) -> (instruction: Self)
        ensures
            instruction == (Instruction { opcode, modifier, mode_a, addr_a, mode_b, addr_b }),
    {
        Self { opcode, modifier, mode_a, addr_a, mode_b, addr_b }
    }
}

/// The text of an instruction: the opcode, a dot, the modifier, a blank, the
/// A operand, a comma and a blank, the B operand; each operand is the sign of
/// its mode and its number in base ten.
pub open spec fn instruction_text_spec(
    opcode: Opcode,
    modifier: Modifier,
    mode_a: AddressMode,
    addr_a: int,
    mode_b: AddressMode,
    addr_b: int,
) -> Seq<char> {
    opcode.mnemonic() + seq!['.'] + modifier.letters() + seq![' ', mode_a.sigil()]
        + number_text_spec(addr_a) + seq![',', ' ', mode_b.sigil()] + number_text_spec(addr_b)
}

/// Writes an instruction.
pub fn instruction_text(
    opcode: Opcode,
    modifier: Modifier,
    mode_a: AddressMode,
    addr_a: i128,
    mode_b: AddressMode,
    addr_b: i128,
) -> (text: String)
    requires
        addr_a > i128::MIN,
        addr_b > i128::MIN,
    ensures
        text@ == instruction_text_spec(opcode, modifier, mode_a, addr_a as int, mode_b, addr_b as int),
{
    proof {
        reveal_strlit(".");
        reveal_strlit(" ");
        reveal_strlit(", ");
    }
    let mut text = String::new();
    text.append(opcode.name());
    text.append(".");
    text.append(modifier.name());
    text.append(" ");
    text.append(mode_a.name());
    push_number(&mut text, addr_a);
    text.append(", ");
    text.append(mode_b.name());
    push_number(&mut text, addr_b);
    assert(text@ =~= instruction_text_spec(
        opcode,
        modifier,
        mode_a,
        addr_a as int,
        mode_b,
        addr_b as int,
    ));
    text
}

impl Instruction {
    /// The instruction as text, such as `MOV.I $0, $1`.
    pub fn to_string(&self) -> (text: String)
        ensures
            text@ == instruction_text_spec(
                self.opcode,
                self.modifier,
                self.mode_a,
                self.addr_a as int,
                self.mode_b,
                self.addr_b as int,
            ),
    {
        instruction_text(
            self.opcode,
            self.modifier,
            self.mode_a,
            self.addr_a as i128,
            self.mode_b,
            self.addr_b as i128,
        )
    }
}

impl Default for Instruction {
    /// `DAT.F $0, $0`, the instruction an empty core is filled with.
    fn default() -> (instruction: Self)
        ensures
            instruction == (Instruction {
                opcode: Opcode::Dat,
                modifier: Modifier::F,
                mode_a: AddressMode::Direct,
                addr_a: 0,
                mode_b: AddressMode::Direct,
                addr_b: 0,
            }),
    {
        Self {
            opcode: Opcode::Dat,
            modifier: Modifier::F,
            mode_a: AddressMode::Direct,
            addr_a: 0,
            mode_b: AddressMode::Direct,
            addr_b: 0,
        }
    }
}

/// What a warrior says of itself: its name, author, date, version and
/// strategy, each of which the source may leave out.
#[derive(Debug, PartialEq, Eq)]
pub struct Metadata {
    name: Option<String>,
    author: Option<String>,
    date: Option<String>,
    strategy: Option<String>,
    version: Option<String>,
}

/// A [`Metadata`] with its texts as sequences of characters.
pub struct MetadataView {
    pub name: Option<Seq<char>>,
    pub author: Option<Seq<char>>,
    pub date: Option<Seq<char>>,
    pub strategy: Option<Seq<char>>,
    pub version: Option<Seq<char>>,
}

/// The text of an optional string.
pub open spec fn text_of(field: Option<String>) -> Option<Seq<char>> {
    match field {
        Some(text) => Some(text@),
        None => None,
    }
}

impl View for Metadata {
    type V = MetadataView;

    closed spec fn view(&self) -> MetadataView {
        MetadataView {
            name: text_of(self.name),
            author: text_of(self.author),
            date: text_of(self.date),
            strategy: text_of(self.strategy),
            version: text_of(self.version),
        }
    }
}

/// A copy of an optional string.
fn copy_of(field: &Option<String>) -> (copy: Option<String>)
    ensures
        text_of(copy) == text_of(*field),
{
    match field {
        Some(text) => Some(text.clone()),
        None => None,
    }
}

/// An optional string as an optional slice.
fn slice_of(field: &Option<String>) -> (slice: Option<&str>)
    ensures
        slice is Some == field is Some,
        slice matches Some(text) ==> Some(text@) == text_of(*field),
{
    match field {
        Some(text) => Some(text.as_str()),
        None => None,
    }
}

impl Clone for Metadata {
    fn clone(&self) -> (copy: Self)
        ensures
            copy@ == self@,
    {
        Metadata {
            name: copy_of(&self.name),
            author: copy_of(&self.author),
            date: copy_of(&self.date),
            strategy: copy_of(&self.strategy),
            version: copy_of(&self.version),
        }
    }
}

impl Default for Metadata {
    fn default() -> (metadata: Self)
        ensures
            metadata@ == MetadataView::empty(),
    {
        Self::new()
    }
}

/// A strategy with one more text: the text alone where there was none, else
/// the strategy, a line feed and the text.
pub open spec fn longer_strategy_spec(so_far: Option<Seq<char>>, text: Seq<char>) -> Seq<char> {
    match so_far {
        Some(strategy) => strategy + seq!['\n'] + text,
        None => text,
    }
}

/// The metadata after a value has been taken in. A name, author, date or
/// version may be set once; strategies add up.
pub open spec fn inserted_spec(metadata: MetadataView, value: MetadataValueView) -> Result<
    MetadataView,
    MetadataError,
> {
    match value {
        MetadataValueView::Author(text) => if metadata.author is Some {
            Err(MetadataError::DuplicateAuthorDefinition)
        } else {
            Ok(MetadataView { author: Some(text), ..metadata })
        },
        MetadataValueView::Date(text) => if metadata.date is Some {
            Err(MetadataError::DuplicateDateDefinition)
        } else {
            Ok(MetadataView { date: Some(text), ..metadata })
        },
        MetadataValueView::Version(text) => if metadata.version is Some {
            Err(MetadataError::DuplicateVersionDefinition)
        } else {
            Ok(MetadataView { version: Some(text), ..metadata })
        },
        MetadataValueView::Name(text) => if metadata.name is Some {
            Err(MetadataError::DuplicateNameDefinition)
        } else {
            Ok(MetadataView { name: Some(text), ..metadata })
        },
        MetadataValueView::Strategy(text) => Ok(
            MetadataView {
                strategy: Some(longer_strategy_spec(metadata.strategy, text)),
                ..metadata
            },
        ),
    }
}

impl MetadataView {
    /// The metadata of a warrior that says nothing of itself.
    pub open spec fn empty() -> MetadataView {
        MetadataView { name: None, author: None, date: None, strategy: None, version: None }
    }
}

impl Metadata {
    /// Metadata with every field left out.
    pub fn new() -> (metadata: Self)
        ensures
            metadata@ == MetadataView::empty(),
    {
        Self { name: None, author: None, date: None, strategy: None, version: None }
    }

    /// Sets the author, who may be set once.
    pub fn insert_author(&mut self, author: String) -> (result: Result<(), MetadataError>)
        ensures
            match result {
                Ok(_) => old(self)@.author is None && final(self)@ == (MetadataView {
                    author: Some(author@),
                    ..old(self)@
                }),
                Err(error) => error == MetadataError::DuplicateAuthorDefinition
                    && old(self)@.author is Some && final(self)@ == old(self)@,
            },
    {
        if self.author.is_some() {
            return Err(MetadataError::DuplicateAuthorDefinition);
        }
        self.author = Some(author);
        Ok(())
    }

    /// Sets the name, which may be set once.
    pub fn insert_name(&mut self, name: String) -> (result: Result<(), MetadataError>)
        ensures
            match result {
                Ok(_) => old(self)@.name is None && final(self)@ == (MetadataView {
                    name: Some(name@),
                    ..old(self)@
                }),
                Err(error) => error == MetadataError::DuplicateNameDefinition
                    && old(self)@.name is Some && final(self)@ == old(self)@,
            },
    {
        if self.name.is_some() {
            return Err(MetadataError::DuplicateNameDefinition);
        }
        self.name = Some(name);
        Ok(())
    }

    /// Sets the date, which may be set once.
    pub fn insert_date(&mut self, date: String) -> (result: Result<(), MetadataError>)
        ensures
            match result {
                Ok(_) => old(self)@.date is None && final(self)@ == (MetadataView {
                    date: Some(date@),
                    ..old(self)@
                }),
                Err(error) => error == MetadataError::DuplicateDateDefinition
                    && old(self)@.date is Some && final(self)@ == old(self)@,
            },
    {
        if self.date.is_some() {
            return Err(MetadataError::DuplicateDateDefinition);
        }
        self.date = Some(date);
        Ok(())
    }

    /// Sets the version, which may be set once.
    pub fn insert_version(&mut self, version: String) -> (result: Result<(), MetadataError>)
        ensures
            match result {
                Ok(_) => old(self)@.version is None && final(self)@ == (MetadataView {
                    version: Some(version@),
                    ..old(self)@
                }),
                Err(error) => error == MetadataError::DuplicateVersionDefinition
                    && old(self)@.version is Some && final(self)@ == old(self)@,
            },
    {
        if self.version.is_some() {
            return Err(MetadataError::DuplicateVersionDefinition);
        }
        self.version = Some(version);
        Ok(())
    }

    /// Adds to the strategy: the first text is the strategy, each further
    /// one is joined to it after a line feed.
    pub fn insert_strategy(&mut self, strategy: String)
        ensures
            final(self)@ == (MetadataView {
                strategy: Some(longer_strategy_spec(old(self)@.strategy, strategy@)),
                ..old(self)@
            }),
    {
        let joined = match &self.strategy {
            Some(so_far) => {
                proof {
                    reveal_strlit("\n");
                }
                let mut joined = so_far.clone();
                joined.append("\n");
                joined.append(strategy.as_str());
                assert(joined@ =~= longer_strategy_spec(old(self)@.strategy, strategy@));
                joined
            },
            None => strategy,
        };
        self.strategy = Some(joined);
    }

    /// Takes a value of the metadata in. A name, author, date or version
    /// that is there already makes it fail, and the metadata then stays as it
    /// was; a strategy is added to the one that is there.
    pub fn insert_value(&mut self, line: MetadataValue) -> (result: Result<(), MetadataError>)
        ensures
            match result {
                Ok(_) => inserted_spec(old(self)@, line@) == Ok::<MetadataView, MetadataError>(
                    final(self)@,
                ),
                Err(error) => inserted_spec(old(self)@, line@) == Err::<
                    MetadataView,
                    MetadataError,
                >(error) && final(self)@ == old(self)@,
            },
    {
        match line {
            MetadataValue::Author(author) => self.insert_author(author),
            MetadataValue::Date(date) => self.insert_date(date),
            MetadataValue::Version(version) => self.insert_version(version),
            MetadataValue::Name(name) => self.insert_name(name),
            MetadataValue::Strategy(strategy) => {
                self.insert_strategy(strategy);
                Ok(())
            },
        }
    }

    /// The warrior's name.
    pub fn name(&self) -> (name: Option<&str>)
        ensures
            name is Some == self@.name is Some,
            name matches Some(text) ==> Some(text@) == self@.name,
    {
        slice_of(&self.name)
    }

    /// The name of the warrior's author.
    pub fn author(&self) -> (author: Option<&str>)
        ensures
            author is Some == self@.author is Some,
            author matches Some(text) ==> Some(text@) == self@.author,
    {
        slice_of(&self.author)
    }

    /// The publication date of the warrior.
    pub fn date(&self) -> (date: Option<&str>)
        ensures
            date is Some == self@.date is Some,
            date matches Some(text) ==> Some(text@) == self@.date,
    {
        slice_of(&self.date)
    }

    /// A description of the warrior's strategy.
    pub fn strategy(&self) -> (strategy: Option<&str>)
        ensures
            strategy is Some == self@.strategy is Some,
            strategy matches Some(text) ==> Some(text@) == self@.strategy,
    {
        slice_of(&self.strategy)
    }

    /// The warrior's version. It follows no particular scheme.
    pub fn version(&self) -> (version: Option<&str>)
        ensures
            version is Some == self@.version is Some,
            version matches Some(text) ==> Some(text@) == self@.version,
    {
        slice_of(&self.version)
    }
}

/// A program: its instructions in source order, the offset of the one that
/// runs first, and its metadata.
#[derive(Debug, PartialEq, Eq)]
pub struct Warrior {
    pub metadata: Metadata,
    pub instructions: Vec<Instruction>,
    pub starts_at_line: i64,
}

/// A [`Warrior`] as mathematics.
pub struct WarriorView {
    pub metadata: MetadataView,
    pub instructions: Seq<Instruction>,
    pub starts_at_line: i64,
}

impl View for Warrior {
    type V = WarriorView;

    open spec fn view(&self) -> WarriorView {
        WarriorView {
            metadata: self.metadata@,
            instructions: self.instructions@,
            starts_at_line: self.starts_at_line,
        }
    }
}

impl Clone for Warrior {
    fn clone(&self) -> (copy: Self)
        ensures
            copy@ == self@,
    {
        Warrior {
            metadata: self.metadata.clone(),
            instructions: self.instructions.clone(),
            starts_at_line: self.starts_at_line,
        }
    }
}

/// The text that stands for a warrior: its name and author, or what stands
/// for them where they are missing, and the number of its instructions.
pub open spec fn warrior_text_spec(warrior: WarriorView) -> Seq<char> {
    (match warrior.metadata.name {
        Some(name) => name,
        None => "Unnamed warrior"@,
    }) + " by "@ + (match warrior.metadata.author {
        Some(author) => author,
        None => "Unnamed author"@,
    }) + " - "@ + decimal_text_spec(warrior.instructions.len()) + " lines"@
}

impl Warrior {
    /// The warrior in a few words, such as `Imp by A.K. Dewdney - 1 lines`.
    pub fn to_string(&self) -> (text: String)
        ensures
            text@ == warrior_text_spec(self@),
    {
        let mut text = String::new();
        match self.metadata.name() {
            Some(name) => text.append(name),
            None => text.append("Unnamed warrior"),
        }
        text.append(" by ");
        match self.metadata.author() {
            Some(author) => text.append(author),
            None => text.append("Unnamed author"),
        }
        text.append(" - ");
        push_decimal(&mut text, self.instructions.len() as u128);
        text.append(" lines");
        assert(text@ =~= warrior_text_spec(self@));
        text
    }

    /// The number of instructions.
    pub fn len(&self) -> (n: usize)
        ensures
            n == self@.instructions.len(),
    {
        self.instructions.len()
    }

    /// Whether the warrior has no instruction at all.
    pub fn is_empty(&self) -> (empty: bool)
        ensures
            empty == (self@.instructions.len() == 0),
    {
        self.instructions.len() == 0
    }
}

/// The instructions among lines, in their order.
pub open spec fn instructions_spec(lines: Seq<LineView>) -> Seq<RawInstructionView>
    decreases lines.len(),
{
    if lines.len() == 0 {
        Seq::empty()
    } else {
        match lines.last() {
            LineView::Instruction(instruction) => instructions_spec(lines.drop_last()).push(
                instruction,
            ),
            _ => instructions_spec(lines.drop_last()),
        }
    }
}

/// The expressions of the `ORG` statements among lines, in their order.
pub open spec fn org_statements_spec(lines: Seq<LineView>) -> Seq<ExprView>
    decreases lines.len(),
{
    if lines.len() == 0 {
        Seq::empty()
    } else {
        match lines.last() {
            LineView::OrgStatement(expr) => org_statements_spec(lines.drop_last()).push(expr),
            _ => org_statements_spec(lines.drop_last()),
        }
    }
}

/// The metadata values among lines, in their order.
pub open spec fn metadata_values_spec(lines: Seq<LineView>) -> Seq<MetadataValueView>
    decreases lines.len(),
{
    if lines.len() == 0 {
        Seq::empty()
    } else {
        match lines.last() {
            LineView::MetadataStatement(value) => metadata_values_spec(lines.drop_last()).push(
                value,
            ),
            _ => metadata_values_spec(lines.drop_last()),
        }
    }
}

/// Instructions as mathematics.
pub open spec fn raw_instructions_view(instructions: Seq<&RawInstruction>) -> Seq<
    RawInstructionView,
> {
    Seq::new(instructions.len(), |i: int| instructions[i]@)
}

/// Expressions as mathematics.
pub open spec fn exprs_view(exprs: Seq<&NumericExpr>) -> Seq<ExprView> {
    Seq::new(exprs.len(), |i: int| exprs[i]@)
}

/// Metadata values as mathematics.
pub open spec fn values_view(values: Seq<&MetadataValue>) -> Seq<MetadataValueView> {
    Seq::new(values.len(), |i: int| values[i]@)
}

/// Sorts lines by what they are: the instructions, the expressions of the
/// `ORG` statements, and the metadata values, each in source order. Comments
/// and definitions are left out.
pub fn lines_by_type<'a>(lines: &'a Vec<Line>) -> (sorted: (
    Vec<&'a RawInstruction>,
    Vec<&'a NumericExpr>,
    Vec<&'a MetadataValue>,
))
    ensures
        raw_instructions_view(sorted.0@) == instructions_spec(lines_view(lines@)),
        exprs_view(sorted.1@) == org_statements_spec(lines_view(lines@)),
        values_view(sorted.2@) == metadata_values_spec(lines_view(lines@)),
{
    let mut org_statements: Vec<&'a NumericExpr> = Vec::new();
    let mut instructions: Vec<&'a RawInstruction> = Vec::new();
    let mut metadata: Vec<&'a MetadataValue> = Vec::new();
    let ghost all = lines_view(lines@);
    let mut i: usize = 0;
    assert(raw_instructions_view(instructions@) =~= instructions_spec(all.take(0)));
    assert(exprs_view(org_statements@) =~= org_statements_spec(all.take(0)));
    assert(values_view(metadata@) =~= metadata_values_spec(all.take(0)));
    while i < lines.len()
        invariant
            i <= lines@.len(),
            all == lines_view(lines@),
            raw_instructions_view(instructions@) == instructions_spec(all.take(i as int)),
            exprs_view(org_statements@) == org_statements_spec(all.take(i as int)),
            values_view(metadata@) == metadata_values_spec(all.take(i as int)),
        decreases lines@.len() - i,
    {
        assert(all.take(i + 1).drop_last() =~= all.take(i as int));
        assert(all.take(i + 1).last() == lines@[i as int]@);
        match &lines[i] {
            Line::OrgStatement(statement) => {
                let ghost before = exprs_view(org_statements@);
                org_statements.push(statement);
                assert(exprs_view(org_statements@) =~= before.push(statement@));
            },
            Line::Instruction(instruction) => {
                let ghost before = raw_instructions_view(instructions@);
                instructions.push(instruction);
                assert(raw_instructions_view(instructions@) =~= before.push(instruction@));
            },
            Line::MetadataStatement(value) => {
                let ghost before = values_view(metadata@);
                metadata.push(value);
                assert(values_view(metadata@) =~= before.push(value@));
            },
            _ => {},
        }
        i += 1;
    }
    assert(all.take(lines@.len() as int) =~= all);
    (instructions, org_statements, metadata)
}

/// The metadata after the values from place `from` on have been taken in,
/// one after the other; the first failure is the result.
pub open spec fn collected_spec(values: Seq<MetadataValueView>, from: int, metadata: MetadataView)
    -> Result<MetadataView, MetadataError>
    decreases values.len() - from,
{
    if from < 0 || from >= values.len() {
        Ok(metadata)
    } else {
        match inserted_spec(metadata, values[from]) {
            Ok(next) => collected_spec(values, from + 1, next),
            Err(error) => Err(error),
        }
    }
}

/// The table after the labels from place `from` on have been entered for
/// the line `line`. A label that the table holds already is a failure.
pub open spec fn labels_added_spec(
    labels: Seq<Seq<char>>,
    from: int,
    line: i64,
    table: Map<Seq<char>, i64>,
) -> Result<Map<Seq<char>, i64>, EvaluateErrorView>
    decreases labels.len() - from,
{
    if from < 0 || from >= labels.len() {
        Ok(table)
    } else if table.contains_key(labels[from]) {
        Err(EvaluateErrorView::DuplicateLabelDefinition(labels[from]))
    } else {
        labels_added_spec(labels, from + 1, line, table.insert(labels[from], line))
    }
}

/// The table after the labels of the instructions from place `from` on have
/// been entered, each for the place of its instruction. A label that stands
/// twice is a failure, and so is a place that does not fit in 64 bits.
pub open spec fn label_table_spec(
    instructions: Seq<RawInstructionView>,
    from: int,
    table: Map<Seq<char>, i64>,
) -> Result<Map<Seq<char>, i64>, EvaluateErrorView>
    decreases instructions.len() - from,
{
    if from < 0 || from >= instructions.len() {
        Ok(table)
    } else if from > i64::MAX {
        Err(EvaluateErrorView::Overflow)
    } else {
        match labels_added_spec(instructions[from].label_list, 0, from as i64, table) {
            Ok(next) => label_table_spec(instructions, from + 1, next),
            Err(error) => Err(error),
        }
    }
}

/// A table of labels as a result, as mathematics.
pub open spec fn table_view(result: Result<StringHashMap<i64>, EvaluateError>) -> Result<
    Map<Seq<char>, i64>,
    EvaluateErrorView,
> {
    match result {
        Ok(table) => Ok(table@),
        Err(error) => Err(error@),
    }
}

/// Makes the table of labels: each label of an instruction stands for the
/// instruction's place among the instructions.
pub fn get_label_definitions(instructions: &Vec<&RawInstruction>) -> (result: Result<
    StringHashMap<i64>,
    EvaluateError,
>)
    ensures
        table_view(result) == label_table_spec(
            raw_instructions_view(instructions@),
            0,
            Map::empty(),
        ),
{
    let mut definitions: StringHashMap<i64> = StringHashMap::new();
    let ghost all = raw_instructions_view(instructions@);
    let mut index: usize = 0;
    while index < instructions.len()
        invariant
            index <= instructions@.len(),
            all == raw_instructions_view(instructions@),
            label_table_spec(all, 0, Map::empty()) == label_table_spec(
                all,
                index as int,
                definitions@,
            ),
        decreases instructions@.len() - index,
    {
        if index as u128 > 0x7fff_ffff_ffff_ffff {
            return Err(EvaluateError::Overflow);
        }
        let instruction = instructions[index];
        let ghost labels = all[index as int].label_list;
        let ghost before = definitions@;
        let mut k: usize = 0;
        while k < instruction.label_list.len()
            invariant
                k <= instruction.label_list@.len(),
                index <= 0x7fff_ffff_ffff_ffff,
                index < all.len(),
                all == raw_instructions_view(instructions@),
                labels == all[index as int].label_list,
                label_table_spec(all, 0, Map::empty()) == label_table_spec(
                    all,
                    index as int,
                    before,
                ),
                labels == crate::parser::instruction::texts_view(instruction.label_list@),
                labels_added_spec(labels, 0, index as i64, before) == labels_added_spec(
                    labels,
                    k as int,
                    index as i64,
                    definitions@,
                ),
            decreases instruction.label_list@.len() - k,
        {
            let label = &instruction.label_list[k];
            if definitions.contains_key(label.as_str()) {
                return Err(EvaluateError::DuplicateLabelDefinition(label.clone()));
            }
            definitions.insert(label.clone(), index as i64);
            k += 1;
        }
        index += 1;
    }
    Ok(definitions)
}

/// The start offset that the `ORG` statements give: the value of the last
/// one, or 0 where there is none.
pub open spec fn starting_line_spec(orgs: Seq<ExprView>, labels: Map<Seq<char>, i64>) -> Result<
    int,
    EvaluateErrorView,
> {
    if orgs.len() == 0 {
        Ok(0)
    } else {
        evaluate_spec(orgs.last(), labels, 0)
    }
}

/// Works out the start offset from the `ORG` statements.
pub fn get_starting_line(orgs: &Vec<&NumericExpr>, labels: &StringHashMap<i64>) -> (result: Result<
    i64,
    EvaluateError,
>)
    ensures
        result_view(result) == starting_line_spec(exprs_view(orgs@), labels@),
{
    if orgs.len() == 0 {
        Ok(0)
    } else {
        orgs[orgs.len() - 1].evaluate(labels, 0)
    }
}

/// A lowered instruction as a result, as mathematics.
pub open spec fn lowered_view(result: Result<Instruction, EvaluateError>) -> Result<
    Instruction,
    EvaluateErrorView,
> {
    match result {
        Ok(instruction) => Ok(instruction),
        Err(error) => Err(error@),
    }
}

/// The instruction that the source's instruction in line `current_line`
/// lowers to: each operand's expression is worked out, the first before the
/// second; a missing second operand is `$0`.
pub open spec fn lowered_spec(
    instruction: RawInstructionView,
    labels: Map<Seq<char>, i64>,
    current_line: int,
) -> Result<Instruction, EvaluateErrorView> {
    let second = match instruction.field_b {
        Some(address) => address,
        None => AddressView::direct_zero(),
    };
    match evaluate_spec(instruction.field_a.expr, labels, current_line) {
        Ok(addr_a) => match evaluate_spec(second.expr, labels, current_line) {
            Ok(addr_b) => Ok(
                Instruction {
                    opcode: instruction.operation.opcode,
                    modifier: instruction.operation.modifier,
                    mode_a: instruction.field_a.mode,
                    addr_a: addr_a as i64,
                    mode_b: second.mode,
                    addr_b: addr_b as i64,
                },
            ),
            Err(error) => Err(error),
        },
        Err(error) => Err(error),
    }
}

impl Instruction {
    /// Lowers an instruction of the source, which stands in line
    /// `current_line`, with the table of labels.
    pub fn from_instruction(
        instruction: &RawInstruction,
        labels: &StringHashMap<i64>,
        current_line: usize,
    ) -> (result: Result<Self, EvaluateError>)
        ensures
            lowered_view(result) == lowered_spec(instruction@, labels@, current_line as int),
    {
        let addr_a = match instruction.field_a.expr.evaluate(labels, current_line) {
            Ok(value) => value,
            Err(error) => {
                return Err(error);
            },
        };
        let (mode_b, addr_b) = match &instruction.field_b {
            Some(address) => match address.expr.evaluate(labels, current_line) {
                Ok(value) => (address.mode, value),
                Err(error) => {
                    return Err(error);
                },
            },
            None => (AddressMode::Direct, 0),
        };
        Ok(
            Instruction::new(
                instruction.operation.opcode,
                instruction.operation.modifier,
                instruction.field_a.mode,
                addr_a,
                mode_b,
                addr_b,
            ),
        )
    }
}

/// The first `count` instructions lowered, each in its line; the first
/// failure is the result.
pub open spec fn lowered_all_spec(
    instructions: Seq<RawInstructionView>,
    labels: Map<Seq<char>, i64>,
    count: int,
) -> Result<Seq<Instruction>, EvaluateErrorView>
    decreases count,
{
    if count <= 0 {
        Ok(Seq::empty())
    } else {
        match lowered_all_spec(instructions, labels, count - 1) {
            Ok(done) => match lowered_spec(instructions[count - 1], labels, count - 1) {
                Ok(instruction) => Ok(done.push(instruction)),
                Err(error) => Err(error),
            },
            Err(error) => Err(error),
        }
    }
}

/// The warrior that lines resolve to.
///
/// The metadata values are taken in, then the table of labels is made, then
/// the start offset is worked out, then the instructions are lowered. The
/// first failure on the way is the result.
pub open spec fn resolved_spec(lines: Seq<LineView>) -> Result<WarriorView, EvaluateErrorView> {
    let instructions = instructions_spec(lines);
    match collected_spec(metadata_values_spec(lines), 0, MetadataView::empty()) {
        Err(error) => Err(EvaluateErrorView::BadMetadata(error)),
        Ok(metadata) => match label_table_spec(instructions, 0, Map::empty()) {
            Err(error) => Err(error),
            Ok(labels) => match starting_line_spec(org_statements_spec(lines), labels) {
                Err(error) => Err(error),
                Ok(start) => match lowered_all_spec(
                    instructions,
                    labels,
                    instructions.len() as int,
                ) {
                    Err(error) => Err(error),
                    Ok(lowered) => Ok(
                        WarriorView {
                            metadata,
                            instructions: lowered,
                            starts_at_line: start as i64,
                        },
                    ),
                },
            },
        },
    }
}

/// The warrior that a source text stands for: its definitions are applied,
/// its lines read and resolved.
pub open spec fn warrior_spec(s: Seq<char>) -> Result<WarriorView, ErrorView> {
    match replace_definitions_spec(s) {
        Err(error) => Err(ErrorView::Parse(error)),
        Ok(text) => match parse_spec(text) {
            Err(error) => Err(ErrorView::Parse(error)),
            Ok(lines) => match resolved_spec(lines) {
                Err(error) => Err(ErrorView::Evaluate(error)),
                Ok(warrior) => Ok(warrior),
            },
        },
    }
}

/// A warrior as a result of resolving, as mathematics.
pub open spec fn resolved_view(result: Result<Warrior, EvaluateError>) -> Result<
    WarriorView,
    EvaluateErrorView,
> {
    match result {
        Ok(warrior) => Ok(warrior@),
        Err(error) => Err(error@),
    }
}

/// A warrior as a result of reading, as mathematics.
pub open spec fn parsed_view(result: Result<Warrior, Error>) -> Result<WarriorView, ErrorView> {
    match result {
        Ok(warrior) => Ok(warrior@),
        Err(error) => Err(error@),
    }
}

impl Warrior {
    /// Reads a warrior from its source text.
    pub fn parse(input: &str) -> (result: Result<Warrior, Error>)
        ensures
            parsed_view(result) == warrior_spec(input@),
    {
        let input = match replace_definitions(input) {
            Ok(text) => text,
            Err(error) => {
                return Err(Error::Parse(error));
            },
        };
        let ls = match parse(input.as_str()) {
            Ok(lines) => lines,
            Err(error) => {
                return Err(Error::Parse(error));
            },
        };
        match Self::from_lines(ls) {
            Ok(warrior) => Ok(warrior),
            Err(error) => Err(Error::Evaluate(error)),
        }
    }

    /// Resolves the lines of a source to a warrior.
    pub fn from_lines(lines: Vec<Line>) -> (result: Result<Warrior, EvaluateError>)
        ensures
            resolved_view(result) == resolved_spec(lines_view(lines@)),
    {
        let mut metadata = Metadata::new();
        let (instructions, org_statements, metadata_values) = lines_by_type(&lines);
        let ghost values = values_view(metadata_values@);
        let mut v: usize = 0;
        while v < metadata_values.len()
            invariant
                v <= metadata_values@.len(),
                values == values_view(metadata_values@),
                values == metadata_values_spec(lines_view(lines@)),
                collected_spec(values, 0, MetadataView::empty()) == collected_spec(
                    values,
                    v as int,
                    metadata@,
                ),
            decreases metadata_values@.len() - v,
        {
            match metadata.insert_value(metadata_values[v].clone()) {
                Ok(_) => {},
                Err(error) => {
                    return Err(EvaluateError::BadMetadata(error));
                },
            }
            v += 1;
        }
        let definitions = match get_label_definitions(&instructions) {
            Ok(table) => table,
            Err(error) => {
                return Err(error);
            },
        };
        let starts_at_line = match get_starting_line(&org_statements, &definitions) {
            Ok(start) => start,
            Err(error) => {
                return Err(error);
            },
        };
        let ghost raw = raw_instructions_view(instructions@);
        let mut lowered: Vec<Instruction> = Vec::new();
        let mut i: usize = 0;
        while i < instructions.len()
            invariant
                i <= instructions@.len(),
                raw == raw_instructions_view(instructions@),
                raw == instructions_spec(lines_view(lines@)),
                collected_spec(
                    metadata_values_spec(lines_view(lines@)),
                    0,
                    MetadataView::empty(),
                ) == Ok::<MetadataView, MetadataError>(metadata@),
                label_table_spec(raw, 0, Map::empty()) == Ok::<
                    Map<Seq<char>, i64>,
                    EvaluateErrorView,
                >(definitions@),
                starting_line_spec(org_statements_spec(lines_view(lines@)), definitions@) == Ok::<
                    int,
                    EvaluateErrorView,
                >(starts_at_line as int),
                lowered_all_spec(raw, definitions@, i as int) == Ok::<
                    Seq<Instruction>,
                    EvaluateErrorView,
                >(lowered@),
            decreases instructions@.len() - i,
        {
            match Instruction::from_instruction(instructions[i], &definitions, i) {
                Ok(instruction) => {
                    lowered.push(instruction);
                },
                Err(error) => {
                    proof {
                        lemma_lowering_fails_on(raw, definitions@, i + 1, raw.len() as int);
                    }
                    return Err(error);
                },
            }
            i += 1;
        }
        Ok(Warrior { instructions: lowered, metadata, starts_at_line })
    }
}

/// Lowering that has failed for the first `count` instructions fails with
/// the same failure for any more of them.
pub proof fn lemma_lowering_fails_on(
    instructions: Seq<RawInstructionView>,
    labels: Map<Seq<char>, i64>,
    count: int,
    more: int,
)
    requires
        0 <= count <= more,
        lowered_all_spec(instructions, labels, count) is Err,
    ensures
        lowered_all_spec(instructions, labels, more) == lowered_all_spec(
            instructions,
            labels,
            count,
        ),
    decreases more - count,
{
    if count < more {
        lemma_lowering_fails_on(instructions, labels, count, more - 1);
    }
}

} // verus!
