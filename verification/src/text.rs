//! Source text as characters: classes of characters, runs of a class, and
//! slices.
use vstd::prelude::*;
use vstd::string::*;

verus! {

/// A class of characters.
#[derive(Debug, Clone, Copy, PartialEq, Eq, Structural)]
pub enum CharClass {
    /// A blank or a tab.
    Space,
    /// A blank, a tab, a line feed or a carriage return.
    Multispace,
    /// An ASCII letter or digit.
    Alphanumeric,
    /// An ASCII digit.
    Digit,
    /// Anything but a line feed or a carriage return.
    InLine,
    /// Anything but a semicolon, a line feed or a carriage return.
    InDefinition,
}

/// Whether `c` is an ASCII letter.
pub open spec fn is_alpha_spec(c: char) -> bool {
    ('a' <= c && c <= 'z') || ('A' <= c && c <= 'Z')
}

/// Whether `c` is an ASCII digit.
pub open spec fn is_digit_spec(c: char) -> bool {
    '0' <= c && c <= '9'
}

/// `c` with an ASCII small letter made capital.
pub open spec fn upper_spec(c: char) -> char {
    if 'a' <= c && c <= 'z' {
        ((c as u8) - 32) as char
    } else {
        c
    }
}

impl CharClass {
    /// Whether `c` belongs to the class.
    pub open spec fn holds(self, c: char) -> bool {
        match self {
            CharClass::Space => c == ' ' || c == '\t',
            CharClass::Multispace => c == ' ' || c == '\t' || c == '\n' || c == '\r',
            CharClass::Alphanumeric => is_alpha_spec(c) || is_digit_spec(c),
            CharClass::Digit => is_digit_spec(c),
            CharClass::InLine => c != '\n' && c != '\r',
            CharClass::InDefinition => c != ';' && c != '\n' && c != '\r',
        }
    }

    /// Whether `c` belongs to the class.
    pub fn test(&self, c: char) -> (yes: bool)
        ensures
            yes == self.holds(c),
    {
        match self {
            CharClass::Space => c == ' ' || c == '\t',
            CharClass::Multispace => c == ' ' || c == '\t' || c == '\n' || c == '\r',
            CharClass::Alphanumeric => is_alpha(c) || is_digit(c),
            CharClass::Digit => is_digit(c),
            CharClass::InLine => c != '\n' && c != '\r',
            CharClass::InDefinition => c != ';' && c != '\n' && c != '\r',
        }
    }
}

/// Whether `c` is an ASCII letter.
pub fn is_alpha(c: char) -> (yes: bool)
    ensures
        yes == is_alpha_spec(c),
{
    ('a' <= c && c <= 'z') || ('A' <= c && c <= 'Z')
}

/// Whether `c` is an ASCII digit.
pub fn is_digit(c: char) -> (yes: bool)
    ensures
        yes == is_digit_spec(c),
{
    '0' <= c && c <= '9'
}

/// `c` with an ASCII small letter made capital.
pub fn upper(c: char) -> (capital: char)
    ensures
        capital == upper_spec(c),
{
    if 'a' <= c && c <= 'z' {
        ((c as u8) - 32) as char
    } else {
        c
    }
}

/// The end of the run of characters of `class` that starts at `pos`: the
/// first place from `pos` on that holds a character of another class, or the
/// end of the text.
pub open spec fn skip_spec(s: Seq<char>, pos: int, class: CharClass) -> int
    decreases s.len() - pos,
{
    if 0 <= pos < s.len() && class.holds(s[pos]) {
        skip_spec(s, pos + 1, class)
    } else {
        pos
    }
}

/// A run ends at or after its start, within the text, and holds the class
/// throughout; what follows it is of another class.
pub proof fn lemma_skip(s: Seq<char>, pos: int, class: CharClass)
    requires
        0 <= pos <= s.len(),
    ensures
        pos <= skip_spec(s, pos, class) <= s.len(),
        forall|i: int| pos <= i < skip_spec(s, pos, class) ==> class.holds(#[trigger] s[i]),
        skip_spec(s, pos, class) < s.len() ==> !class.holds(s[skip_spec(s, pos, class)]),
    decreases s.len() - pos,
{
    if pos < s.len() && class.holds(s[pos]) {
        lemma_skip(s, pos + 1, class);
    }
}

/// A source text, held both as a string and as its characters.
pub struct Source<'a> {
    text: &'a str,
    chars: Vec<char>,
}

impl<'a> View for Source<'a> {
    type V = Seq<char>;

    closed spec fn view(&self) -> Seq<char> {
        self.chars@
    }
}

impl<'a> Source<'a> {
    /// The two forms hold the same characters.
    #[verifier::type_invariant]
    closed spec fn well_formed(&self) -> bool {
        self.chars@ == self.text@
    }

    /// Reads a text into its characters.
    pub fn new(text: &'a str) -> (source: Self)
        ensures
            source@ == text@,
    {
        let mut chars: Vec<char> = Vec::new();
        for c in it: text.chars()
            invariant
                chars@ == text@.take(it.index() as int),
                it.seq() == text@,
        {
            chars.push(c);
            assert(chars@ =~= text@.take(it.index() + 1));
        }
        assert(chars@ =~= text@);
        Source { text, chars }
    }

    /// The number of characters.
    pub fn len(&self) -> (n: usize)
        ensures
            n == self@.len(),
    {
        self.chars.len()
    }

    /// The character at place `i`.
    pub fn at(&self, i: usize) -> (c: char)
        requires
            i < self@.len(),
        ensures
            c == self@[i as int],
    {
        self.chars[i]
    }

    /// Whether place `i` holds the character `c`.
    pub fn has(&self, i: usize, c: char) -> (yes: bool)
        ensures
            yes == (i < self@.len() && self@[i as int] == c),
    {
        i < self.chars.len() && self.chars[i] == c
    }

    /// Whether place `i` holds a character of `class`.
    pub fn has_class(&self, i: usize, class: CharClass) -> (yes: bool)
        ensures
            yes == (i < self@.len() && class.holds(self@[i as int])),
    {
        i < self.chars.len() && class.test(self.chars[i])
    }

    /// The text from place `from` up to place `to`.
    pub fn slice(&self, from: usize, to: usize) -> (part: &'a str)
        requires
            from <= to <= self@.len(),
        ensures
            part@ == self@.subrange(from as int, to as int),
    {
        proof {
            use_type_invariant(self);
        }
        self.text.substring_char(from, to)
    }

    /// The text from place `from` on.
    pub fn rest(&self, from: usize) -> (part: &'a str)
        requires
            from <= self@.len(),
        ensures
            part@ == self@.subrange(from as int, self@.len() as int),
    {
        self.slice(from, self.chars.len())
    }

    /// The end of the run of characters of `class` that starts at `pos`.
    pub fn skip(&self, pos: usize, class: CharClass) -> (end: usize)
        requires
            pos <= self@.len(),
        ensures
            end == skip_spec(self@, pos as int, class),
            pos <= end <= self@.len(),
    {
        let mut end = pos;
        while end < self.chars.len() && class.test(self.chars[end])
            invariant
                pos <= end <= self.chars@.len(),
                self@ == self.chars@,
                skip_spec(self@, pos as int, class) == skip_spec(self@, end as int, class),
            decreases self.chars@.len() - end,
        {
            end += 1;
        }
        end
    }
}

/// The character that writes a digit's number: `'0'` for 0 up to `'9'` for 9.
pub open spec fn digit_char_spec(digit: int) -> char {
    if digit == 0 {
        '0'
    } else if digit == 1 {
        '1'
    } else if digit == 2 {
        '2'
    } else if digit == 3 {
        '3'
    } else if digit == 4 {
        '4'
    } else if digit == 5 {
        '5'
    } else if digit == 6 {
        '6'
    } else if digit == 7 {
        '7'
    } else if digit == 8 {
        '8'
    } else {
        '9'
    }
}

/// A natural number written in base ten, without leading zeros.
pub open spec fn decimal_text_spec(n: nat) -> Seq<char>
    decreases n,
{
    if n < 10 {
        seq![digit_char_spec(n as int)]
    } else {
        decimal_text_spec(n / 10).push(digit_char_spec((n % 10) as int))
    }
}

/// An integer written in base ten, with a minus sign in front if it is
/// negative.
pub open spec fn number_text_spec(value: int) -> Seq<char> {
    if value < 0 {
        seq!['-'] + decimal_text_spec((-value) as nat)
    } else {
        decimal_text_spec(value as nat)
    }
}

/// The text that writes a digit's number.
pub fn digit_text(digit: u8) -> (text: &'static str)
    requires
        digit < 10,
    ensures
        text@ == seq![digit_char_spec(digit as int)],
{
    proof {
        reveal_strlit("0");
        reveal_strlit("1");
        reveal_strlit("2");
        reveal_strlit("3");
        reveal_strlit("4");
        reveal_strlit("5");
        reveal_strlit("6");
        reveal_strlit("7");
        reveal_strlit("8");
        reveal_strlit("9");
    }
    let text = match digit {
        0 => "0",
        1 => "1",
        2 => "2",
        3 => "3",
        4 => "4",
        5 => "5",
        6 => "6",
        7 => "7",
        8 => "8",
        _ => "9",
    };
    assert(text@ =~= seq![digit_char_spec(digit as int)]);
    text
}

/// Writes a natural number in base ten at the end of `out`.
pub fn push_decimal(out: &mut String, n: u128)
    ensures
        final(out)@ == old(out)@ + decimal_text_spec(n as nat),
    decreases n,
{
    if n >= 10 {
        push_decimal(out, n / 10);
    }
    out.append(digit_text((n % 10) as u8));
    assert(out@ =~= old(out)@ + decimal_text_spec(n as nat));
}

/// Writes an integer in base ten at the end of `out`.
pub fn push_number(out: &mut String, value: i128)
    requires
        value > i128::MIN,
    ensures
        final(out)@ == old(out)@ + number_text_spec(value as int),
{
    if value < 0 {
        proof {
            reveal_strlit("-");
        }
        out.append("-");
        push_decimal(out, (-value) as u128);
        assert(out@ =~= old(out)@ + number_text_spec(value as int));
    } else {
        push_decimal(out, value as u128);
    }
}

} // verus!
