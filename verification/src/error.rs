//! What can go wrong between a warrior's source text and a running core.
use vstd::prelude::*;
use vstd::string::*;
use crate::text::{decimal_text_spec, push_decimal};

verus! {

/// The source text is not Redcode.
#[derive(Debug, Clone, Copy, PartialEq, Eq, Structural)]
pub enum ParseError {
    /// The text cannot be read from this place on, counted in characters.
    Parse(usize),
    /// The text holds a definition that is left after substitution.
    Replace,
    /// The text ends before the program does.
    Incomplete,
}

/// A metadata field that may stand once stands twice.
#[derive(Debug, Clone, Copy, PartialEq, Eq, Structural)]
pub enum MetadataError {
    DuplicateNameDefinition,
    DuplicateVersionDefinition,
    DuplicateAuthorDefinition,
    DuplicateDateDefinition,
}

/// The lines of a warrior do not resolve to a program.
#[derive(Debug, Clone, PartialEq, Eq)]
pub enum EvaluateError {
    /// More than one `ORG` statement. It is not raised: of several `ORG`
    /// statements the last one counts.
    MultipleOrgs,
    UndefinedLabel(String),
    DuplicateLabelDefinition(String),
    DivideByZero,
    BadMetadata(MetadataError),
    /// A number of the source, or a result on the way to a field's value,
    /// does not fit in 64 bits.
    Overflow,
}

/// The warriors cannot be loaded into the core.
#[derive(Debug, Clone, PartialEq, Eq)]
pub enum CoreError {
    /// A warrior, given by name, has no instruction.
    EmptyWarrior(String),
    /// A warrior has more instructions than the limit: its length, the limit
    /// and its name.
    WarriorTooLong(usize, usize, String),
    /// No cell of the core is far enough from the warriors placed so far to
    /// start the next one; the separation asked for is given.
    NoRoom(usize),
}

/// A warrior's source text cannot be made into a warrior.
#[derive(Debug, Clone, PartialEq, Eq)]
pub enum Error {
    Parse(ParseError),
    Evaluate(EvaluateError),
}

/// An [`EvaluateError`] with its texts as sequences of characters.
pub enum EvaluateErrorView {
    MultipleOrgs,
    UndefinedLabel(Seq<char>),
    DuplicateLabelDefinition(Seq<char>),
    DivideByZero,
    BadMetadata(MetadataError),
    Overflow,
}

impl View for EvaluateError {
    type V = EvaluateErrorView;

    open spec fn view(&self) -> EvaluateErrorView {
        match self {
            EvaluateError::MultipleOrgs => EvaluateErrorView::MultipleOrgs,
            EvaluateError::UndefinedLabel(label) => EvaluateErrorView::UndefinedLabel(label@),
            EvaluateError::DuplicateLabelDefinition(label) =>
                EvaluateErrorView::DuplicateLabelDefinition(label@),
            EvaluateError::DivideByZero => EvaluateErrorView::DivideByZero,
            EvaluateError::BadMetadata(error) => EvaluateErrorView::BadMetadata(*error),
            EvaluateError::Overflow => EvaluateErrorView::Overflow,
        }
    }
}

/// A [`CoreError`] with its texts as sequences of characters.
pub enum CoreErrorView {
    EmptyWarrior(Seq<char>),
    WarriorTooLong(usize, usize, Seq<char>),
    NoRoom(usize),
}

impl View for CoreError {
    type V = CoreErrorView;

    open spec fn view(&self) -> CoreErrorView {
        match self {
            CoreError::EmptyWarrior(name) => CoreErrorView::EmptyWarrior(name@),
            CoreError::WarriorTooLong(length, limit, name) => CoreErrorView::WarriorTooLong(
                *length,
                *limit,
                name@,
            ),
            CoreError::NoRoom(separation) => CoreErrorView::NoRoom(*separation),
        }
    }
}

/// An [`Error`] with its texts as sequences of characters.
pub enum ErrorView {
    Parse(ParseError),
    Evaluate(EvaluateErrorView),
}

impl View for Error {
    type V = ErrorView;

    open spec fn view(&self) -> ErrorView {
        match self {
            Error::Parse(error) => ErrorView::Parse(*error),
            Error::Evaluate(error) => ErrorView::Evaluate(error@),
        }
    }
}

impl ParseError {
    /// What the error says, in words.
    pub open spec fn text_spec(self) -> Seq<char> {
        match self {
            ParseError::Parse(position) => "Couldn't parse warrior at character "@
                + decimal_text_spec(position as nat),
            ParseError::Replace => "Couldn't replace definitions"@,
            ParseError::Incomplete => "Warrior incomplete"@,
        }
    }

    /// What the error says, in words.
    pub fn to_string(&self) -> (text: String)
        ensures
            text@ == self.text_spec(),
    {
        match self {
            ParseError::Parse(position) => {
                let mut text = "Couldn't parse warrior at character ".to_owned();
                push_decimal(&mut text, *position as u128);
                text
            },
            ParseError::Replace => "Couldn't replace definitions".to_owned(),
            ParseError::Incomplete => "Warrior incomplete".to_owned(),
        }
    }
}

impl MetadataError {
    /// What the error says, in words.
    pub open spec fn text_spec(self) -> Seq<char> {
        match self {
            MetadataError::DuplicateNameDefinition => "Warrior defines name more than once"@,
            MetadataError::DuplicateVersionDefinition => "Warrior defines version more than once"@,
            MetadataError::DuplicateAuthorDefinition => "Warrior defines author more than once"@,
            MetadataError::DuplicateDateDefinition => "Warrior defines date more than once"@,
        }
    }

    /// What the error says, in words.
    pub fn to_string(&self) -> (text: String)
        ensures
            text@ == self.text_spec(),
    {
        match self {
            MetadataError::DuplicateNameDefinition => "Warrior defines name more than once"
                .to_owned(),
            MetadataError::DuplicateVersionDefinition => "Warrior defines version more than once"
                .to_owned(),
            MetadataError::DuplicateAuthorDefinition => "Warrior defines author more than once"
                .to_owned(),
            MetadataError::DuplicateDateDefinition => "Warrior defines date more than once"
                .to_owned(),
        }
    }
}

impl EvaluateErrorView {
    /// What the error says, in words.
    pub open spec fn text_spec(self) -> Seq<char> {
        match self {
            EvaluateErrorView::MultipleOrgs => "Encountered multiple org statements"@,
            EvaluateErrorView::UndefinedLabel(label) => "Encountered use of undefined label: "@
                + label,
            EvaluateErrorView::DuplicateLabelDefinition(label) =>
                "Encountered duplicate label definition: "@ + label,
            EvaluateErrorView::DivideByZero => "Encountered divide by zero error"@,
            EvaluateErrorView::BadMetadata(error) => "Encountered metadata error: "@
                + error.text_spec(),
            EvaluateErrorView::Overflow => "Encountered a number that does not fit in 64 bits"@,
        }
    }
}

impl EvaluateError {
    /// What the error says, in words.
    pub fn to_string(&self) -> (text: String)
        ensures
            text@ == self@.text_spec(),
    {
        match self {
            EvaluateError::MultipleOrgs => "Encountered multiple org statements".to_owned(),
            EvaluateError::UndefinedLabel(label) => {
                let mut text = "Encountered use of undefined label: ".to_owned();
                text.append(label.as_str());
                text
            },
            EvaluateError::DuplicateLabelDefinition(label) => {
                let mut text = "Encountered duplicate label definition: ".to_owned();
                text.append(label.as_str());
                text
            },
            EvaluateError::DivideByZero => "Encountered divide by zero error".to_owned(),
            EvaluateError::BadMetadata(error) => {
                let mut text = "Encountered metadata error: ".to_owned();
                text.append(error.to_string().as_str());
                text
            },
            EvaluateError::Overflow => "Encountered a number that does not fit in 64 bits"
                .to_owned(),
        }
    }
}

impl CoreErrorView {
    /// What the error says, in words.
    pub open spec fn text_spec(self) -> Seq<char> {
        match self {
            CoreErrorView::EmptyWarrior(name) => "Encountered a warrior of zero length: "@ + name,
            CoreErrorView::WarriorTooLong(length, limit, name) =>
                "Encountered a warrior of length "@ + decimal_text_spec(length as nat)
                    + " greater than max length "@ + decimal_text_spec(limit as nat) + ": "@
                    + name,
            CoreErrorView::NoRoom(separation) => "Found no start for a warrior more than "@
                + decimal_text_spec(separation as nat) + " cells from the others"@,
        }
    }
}

impl CoreError {
    /// What the error says, in words.
    pub fn to_string(&self) -> (text: String)
        ensures
            text@ == self@.text_spec(),
    {
        match self {
            CoreError::EmptyWarrior(name) => {
                let mut text = "Encountered a warrior of zero length: ".to_owned();
                text.append(name.as_str());
                text
            },
            CoreError::WarriorTooLong(length, limit, name) => {
                let mut text = "Encountered a warrior of length ".to_owned();
                push_decimal(&mut text, *length as u128);
                text.append(" greater than max length ");
                push_decimal(&mut text, *limit as u128);
                text.append(": ");
                text.append(name.as_str());
                assert(text@ =~= self@.text_spec());
                text
            },
            CoreError::NoRoom(separation) => {
                let mut text = "Found no start for a warrior more than ".to_owned();
                push_decimal(&mut text, *separation as u128);
                text.append(" cells from the others");
                assert(text@ =~= self@.text_spec());
                text
            },
        }
    }
}

impl ErrorView {
    /// What the error says, in words.
    pub open spec fn text_spec(self) -> Seq<char> {
        match self {
            ErrorView::Parse(error) => "Error parsing warrior: "@ + error.text_spec(),
            ErrorView::Evaluate(error) => "Error evaluating warrior: "@ + error.text_spec(),
        }
    }
}

impl Error {
    /// What the error says, in words.
    pub fn to_string(&self) -> (text: String)
        ensures
            text@ == self@.text_spec(),
    {
        match self {
            Error::Parse(error) => {
                let mut text = "Error parsing warrior: ".to_owned();
                text.append(error.to_string().as_str());
                text
            },
            Error::Evaluate(error) => {
                let mut text = "Error evaluating warrior: ".to_owned();
                text.append(error.to_string().as_str());
                text
            },
        }
    }
}

} // verus!
