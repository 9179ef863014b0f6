//! Metadata comments: what a warrior says of itself in its source.
use vstd::prelude::*;
use vstd::string::*;
use crate::text::{lemma_skip, skip_spec, CharClass, Source};

verus! {

/// A value of a warrior's metadata, as a comment of the source gives it.
#[derive(Debug, PartialEq, Eq)]
pub enum MetadataValue {
    Author(String),
    Date(String),
    Strategy(String),
    Version(String),
    Name(String),
}

/// A [`MetadataValue`] with its text as a sequence of characters.
pub enum MetadataValueView {
    Author(Seq<char>),
    Date(Seq<char>),
    Strategy(Seq<char>),
    Version(Seq<char>),
    Name(Seq<char>),
}

impl View for MetadataValue {
    type V = MetadataValueView;

    open spec fn view(&self) -> MetadataValueView {
        match self {
            MetadataValue::Author(text) => MetadataValueView::Author(text@),
            MetadataValue::Date(text) => MetadataValueView::Date(text@),
            MetadataValue::Strategy(text) => MetadataValueView::Strategy(text@),
            MetadataValue::Version(text) => MetadataValueView::Version(text@),
            MetadataValue::Name(text) => MetadataValueView::Name(text@),
        }
    }
}

impl Clone for MetadataValue {
    fn clone(&self) -> (copy: Self)
        ensures
            copy@ == self@,
    {
        match self {
            MetadataValue::Author(text) => MetadataValue::Author(text.clone()),
            MetadataValue::Date(text) => MetadataValue::Date(text.clone()),
            MetadataValue::Strategy(text) => MetadataValue::Strategy(text.clone()),
            MetadataValue::Version(text) => MetadataValue::Version(text.clone()),
            MetadataValue::Name(text) => MetadataValue::Name(text.clone()),
        }
    }
}

/// The fields of a warrior's metadata.
#[derive(Debug, Clone, Copy, PartialEq, Eq, Structural)]
pub enum MetadataKey {
    Strategy,
    Name,
    Author,
    Date,
    Version,
}

impl MetadataKey {
    /// The word that names the field in a comment, in small letters.
    pub open spec fn word(self) -> Seq<char> {
        match self {
            MetadataKey::Strategy => seq!['s', 't', 'r', 'a', 't', 'e', 'g', 'y'],
            MetadataKey::Name => seq!['n', 'a', 'm', 'e'],
            MetadataKey::Author => seq!['a', 'u', 't', 'h', 'o', 'r'],
            MetadataKey::Date => seq!['d', 'a', 't', 'e'],
            MetadataKey::Version => seq!['v', 'e', 'r', 's', 'i', 'o', 'n'],
        }
    }

    /// The value of the field with the text `text`.
    pub open spec fn value_spec(self, text: Seq<char>) -> MetadataValueView {
        match self {
            MetadataKey::Strategy => MetadataValueView::Strategy(text),
            MetadataKey::Name => MetadataValueView::Name(text),
            MetadataKey::Author => MetadataValueView::Author(text),
            MetadataKey::Date => MetadataValueView::Date(text),
            MetadataKey::Version => MetadataValueView::Version(text),
        }
    }

    /// The value of the field with the text `text`.
    pub fn value(self, text: String) -> (value: MetadataValue)
        ensures
            value@ == self.value_spec(text@),
    {
        match self {
            MetadataKey::Strategy => MetadataValue::Strategy(text),
            MetadataKey::Name => MetadataValue::Name(text),
            MetadataKey::Author => MetadataValue::Author(text),
            MetadataKey::Date => MetadataValue::Date(text),
            MetadataKey::Version => MetadataValue::Version(text),
        }
    }

    /// The word that names the field in a comment.
    pub fn name(self) -> (word: &'static str)
        ensures
            word@ == self.word(),
    {
        proof {
            reveal_strlit("strategy");
            reveal_strlit("name");
            reveal_strlit("author");
            reveal_strlit("date");
            reveal_strlit("version");
        }
        let word = match self {
            MetadataKey::Strategy => "strategy",
            MetadataKey::Name => "name",
            MetadataKey::Author => "author",
            MetadataKey::Date => "date",
            MetadataKey::Version => "version",
        };
        assert(word@ =~= self.word());
        word
    }
}

/// Whether the characters of `word` stand at `pos`, one for one.
pub open spec fn word_at_spec(s: Seq<char>, pos: int, word: Seq<char>) -> bool {
    0 <= pos && pos + word.len() <= s.len() && s.subrange(pos, pos + word.len()) == word
}

/// Whether the characters of `word` stand at `pos`, one for one.
pub fn word_at(src: &Source, pos: usize, word: &str) -> (yes: bool)
    ensures
        yes == word_at_spec(src@, pos as int, word@),
{
    let n = src.len();
    let length = word.unicode_len();
    if pos > n || n - pos < length {
        return false;
    }
    let mut i: usize = 0;
    while i < length
        invariant
            i <= length == word@.len(),
            pos + length <= n == src@.len(),
            forall|k: int| 0 <= k < i ==> src@[pos + k] == #[trigger] word@[k],
        decreases length - i,
    {
        if src.at(pos + i) != word.get_char(i) {
            assert(src@.subrange(pos as int, pos + length)[i as int] != word@[i as int]);
            return false;
        }
        i += 1;
    }
    assert(src@.subrange(pos as int, pos + length) =~= word@);
    true
}

/// The metadata field whose word stands at `pos`.
pub open spec fn key_at_spec(s: Seq<char>, pos: int) -> Option<MetadataKey> {
    if word_at_spec(s, pos, MetadataKey::Strategy.word()) {
        Some(MetadataKey::Strategy)
    } else if word_at_spec(s, pos, MetadataKey::Name.word()) {
        Some(MetadataKey::Name)
    } else if word_at_spec(s, pos, MetadataKey::Author.word()) {
        Some(MetadataKey::Author)
    } else if word_at_spec(s, pos, MetadataKey::Date.word()) {
        Some(MetadataKey::Date)
    } else if word_at_spec(s, pos, MetadataKey::Version.word()) {
        Some(MetadataKey::Version)
    } else {
        None
    }
}

/// The metadata field whose word stands at `pos`.
pub fn key_at(src: &Source, pos: usize) -> (key: Option<MetadataKey>)
    ensures
        key == key_at_spec(src@, pos as int),
        key matches Some(k) ==> pos + k.word().len() <= src@.len(),
{
    if word_at(src, pos, MetadataKey::Strategy.name()) {
        Some(MetadataKey::Strategy)
    } else if word_at(src, pos, MetadataKey::Name.name()) {
        Some(MetadataKey::Name)
    } else if word_at(src, pos, MetadataKey::Author.name()) {
        Some(MetadataKey::Author)
    } else if word_at(src, pos, MetadataKey::Date.name()) {
        Some(MetadataKey::Date)
    } else if word_at(src, pos, MetadataKey::Version.name()) {
        Some(MetadataKey::Version)
    } else {
        None
    }
}

/// The end of the text between `from` and `to` without the blanks at its
/// end.
pub open spec fn trimmed_end_spec(s: Seq<char>, from: int, to: int) -> int
    decreases to - from,
{
    if from < to && 0 < to <= s.len() && CharClass::Space.holds(s[to - 1]) {
        trimmed_end_spec(s, from, to - 1)
    } else {
        to
    }
}

/// The end of the text between `from` and `to` without the blanks at its
/// end.
pub fn trimmed_end(src: &Source, from: usize, to: usize) -> (end: usize)
    requires
        from <= to <= src@.len(),
    ensures
        end == trimmed_end_spec(src@, from as int, to as int),
        from <= end <= to,
{
    let mut end = to;
    while from < end && src.has_class(end - 1, CharClass::Space)
        invariant
            from <= end <= to <= src@.len(),
            trimmed_end_spec(src@, from as int, to as int) == trimmed_end_spec(
                src@,
                from as int,
                end as int,
            ),
        decreases end - from,
    {
        end -= 1;
    }
    end
}

/// A metadata comment at `pos`: blanks, a semicolon, blanks, the word of a
/// field, at least one blank, and the value: the rest of the line without
/// the blanks at its end. Given are the place after the line and the value.
pub open spec fn metadata_spec(s: Seq<char>, pos: int) -> Option<(int, MetadataValueView)> {
    let p = skip_spec(s, pos, CharClass::Space);
    let key_start = skip_spec(s, p + 1, CharClass::Space);
    if 0 <= p < s.len() && s[p] == ';' && key_at_spec(s, key_start) is Some {
        let key = key_at_spec(s, key_start)->0;
        let key_end = key_start + key.word().len();
        let value_start = skip_spec(s, key_end, CharClass::Space);
        let end = skip_spec(s, value_start, CharClass::InLine);
        if key_end < value_start {
            Some((end, key.value_spec(s.subrange(value_start, trimmed_end_spec(s, value_start, end)))))
        } else {
            None
        }
    } else {
        None
    }
}

/// Reads a metadata comment at `pos`.
pub fn metadata(src: &Source, pos: usize) -> (found: Option<(usize, MetadataValue)>)
    requires
        pos <= src@.len(),
    ensures
        match found {
            Some((end, value)) => metadata_spec(src@, pos as int) == Some((end as int, value@))
                && pos < end <= src@.len(),
            None => metadata_spec(src@, pos as int) is None,
        },
{
    let n = src.len();
    let p = src.skip(pos, CharClass::Space);
    if !src.has(p, ';') {
        return None;
    }
    let key_start = src.skip(p + 1, CharClass::Space);
    let key = match key_at(src, key_start) {
        Some(key) => key,
        None => {
            return None;
        },
    };
    let key_end = key_start + key.name().unicode_len();
    let value_start = src.skip(key_end, CharClass::Space);
    if value_start == key_end {
        return None;
    }
    let end = src.skip(value_start, CharClass::InLine);
    let text = src.slice(value_start, trimmed_end(src, value_start, end)).to_owned();
    Some((end, key.value(text)))
}

} // verus!
