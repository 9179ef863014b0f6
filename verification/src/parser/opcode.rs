//! The operations of Redcode: opcodes, modifiers and addressing modes, with
//! the text each is written as.
use vstd::prelude::*;
use crate::text::{upper, upper_spec, Source};

verus! {

/// What an instruction does.
#[derive(Debug, Clone, Copy, PartialEq, Eq, Structural)]
pub enum Opcode {
    Dat,
    Mov,
    Add,
    Sub,
    Mul,
    Div,
    Mod,
    Jmp,
    Jmz,
    Jmn,
    Djn,
    Slt,
    /// `SEQ`, also written `CMP`: skip the next instruction if equal.
    SkipEq,
    Sne,
    Spl,
    Nop,
}

/// Which fields of the source and of the destination an opcode works on.
#[derive(Debug, Clone, Copy, PartialEq, Eq, Structural)]
pub enum Modifier {
    A,
    B,
    AB,
    BA,
    F,
    X,
    I,
}

/// How an operand's number leads to a cell of the core.
#[derive(Debug, Clone, Copy, PartialEq, Eq, Structural)]
pub enum AddressMode {
    Immediate,
    Direct,
    AFieldIndirect,
    BFieldIndirect,
    AFieldPredecrementIndirect,
    BFieldPredecrementIndirect,
    AFieldPostincrementIndirect,
    BFieldPostincrementIndirect,
}

/// An opcode with its modifier.
#[derive(Debug, Clone, Copy, PartialEq, Eq, Structural)]
pub struct Operation {
    pub opcode: Opcode,
    pub modifier: Modifier,
}

impl Opcode {
    /// The modifier an opcode carries when the source gives none.
    pub open spec fn default_modifier_spec(self) -> Modifier {
        match self {
            Opcode::Dat | Opcode::Nop => Modifier::F,
            Opcode::Mov | Opcode::SkipEq | Opcode::Sne => Modifier::I,
            Opcode::Add | Opcode::Sub | Opcode::Mul | Opcode::Div | Opcode::Mod => Modifier::AB,
            Opcode::Jmp | Opcode::Jmz | Opcode::Jmn | Opcode::Djn | Opcode::Slt | Opcode::Spl => {
                Modifier::B
            },
        }
    }

    /// The modifier an opcode carries when the source gives none.
    pub fn default_modifier(&self) -> (modifier: Modifier)
        ensures
            modifier == self.default_modifier_spec(),
    {
        match self {
            Opcode::Dat | Opcode::Nop => Modifier::F,
            Opcode::Mov | Opcode::SkipEq | Opcode::Sne => Modifier::I,
            Opcode::Add | Opcode::Sub | Opcode::Mul | Opcode::Div | Opcode::Mod => Modifier::AB,
            Opcode::Jmp | Opcode::Jmz | Opcode::Jmn | Opcode::Djn | Opcode::Slt | Opcode::Spl => {
                Modifier::B
            },
        }
    }

    /// The three capital letters an opcode is printed as.
    pub open spec fn mnemonic(self) -> Seq<char> {
        match self {
            Opcode::Dat => seq!['D', 'A', 'T'],
            Opcode::Mov => seq!['M', 'O', 'V'],
            Opcode::Add => seq!['A', 'D', 'D'],
            Opcode::Sub => seq!['S', 'U', 'B'],
            Opcode::Mul => seq!['M', 'U', 'L'],
            Opcode::Div => seq!['D', 'I', 'V'],
            Opcode::Mod => seq!['M', 'O', 'D'],
            Opcode::Jmp => seq!['J', 'M', 'P'],
            Opcode::Jmz => seq!['J', 'M', 'Z'],
            Opcode::Jmn => seq!['J', 'M', 'N'],
            Opcode::Djn => seq!['D', 'J', 'N'],
            Opcode::Slt => seq!['S', 'L', 'T'],
            Opcode::SkipEq => seq!['S', 'E', 'Q'],
            Opcode::Sne => seq!['S', 'N', 'E'],
            Opcode::Spl => seq!['S', 'P', 'L'],
            Opcode::Nop => seq!['N', 'O', 'P'],
        }
    }

    /// The text an opcode is printed as.
    pub fn name(&self) -> (text: &'static str)
        ensures
            text@ == self.mnemonic(),
    {
        proof {
            reveal_strlit("DAT");
            reveal_strlit("MOV");
            reveal_strlit("ADD");
            reveal_strlit("SUB");
            reveal_strlit("MUL");
            reveal_strlit("DIV");
            reveal_strlit("MOD");
            reveal_strlit("JMP");
            reveal_strlit("JMZ");
            reveal_strlit("JMN");
            reveal_strlit("DJN");
            reveal_strlit("SLT");
            reveal_strlit("SEQ");
            reveal_strlit("SNE");
            reveal_strlit("SPL");
            reveal_strlit("NOP");
        }
        let text = match self {
            Opcode::Dat => "DAT",
            Opcode::Mov => "MOV",
            Opcode::Add => "ADD",
            Opcode::Sub => "SUB",
            Opcode::Mul => "MUL",
            Opcode::Div => "DIV",
            Opcode::Mod => "MOD",
            Opcode::Jmp => "JMP",
            Opcode::Jmz => "JMZ",
            Opcode::Jmn => "JMN",
            Opcode::Djn => "DJN",
            Opcode::Slt => "SLT",
            Opcode::SkipEq => "SEQ",
            Opcode::Sne => "SNE",
            Opcode::Spl => "SPL",
            Opcode::Nop => "NOP",
        };
        assert(text@ =~= self.mnemonic());
        text
    }
}

impl Modifier {
    /// The capital letters a modifier is printed as.
    pub open spec fn letters(self) -> Seq<char> {
        match self {
            Modifier::A => seq!['A'],
            Modifier::B => seq!['B'],
            Modifier::AB => seq!['A', 'B'],
            Modifier::BA => seq!['B', 'A'],
            Modifier::F => seq!['F'],
            Modifier::X => seq!['X'],
            Modifier::I => seq!['I'],
        }
    }

    /// The text a modifier is printed as.
    pub fn name(&self) -> (text: &'static str)
        ensures
            text@ == self.letters(),
    {
        proof {
            reveal_strlit("A");
            reveal_strlit("B");
            reveal_strlit("AB");
            reveal_strlit("BA");
            reveal_strlit("F");
            reveal_strlit("X");
            reveal_strlit("I");
        }
        let text = match self {
            Modifier::A => "A",
            Modifier::B => "B",
            Modifier::AB => "AB",
            Modifier::BA => "BA",
            Modifier::F => "F",
            Modifier::X => "X",
            Modifier::I => "I",
        };
        assert(text@ =~= self.letters());
        text
    }
}

impl AddressMode {
    /// The sign that stands for an addressing mode in front of an operand.
    pub open spec fn sigil(self) -> char {
        match self {
            AddressMode::Immediate => '#',
            AddressMode::Direct => '$',
            AddressMode::AFieldIndirect => '*',
            AddressMode::BFieldIndirect => '@',
            AddressMode::AFieldPredecrementIndirect => '{',
            AddressMode::BFieldPredecrementIndirect => '<',
            AddressMode::AFieldPostincrementIndirect => '}',
            AddressMode::BFieldPostincrementIndirect => '>',
        }
    }

    /// The text an addressing mode is printed as: its sign alone.
    pub fn name(&self) -> (text: &'static str)
        ensures
            text@ == seq![self.sigil()],
    {
        proof {
            reveal_strlit("#");
            reveal_strlit("$");
            reveal_strlit("*");
            reveal_strlit("@");
            reveal_strlit("{");
            reveal_strlit("<");
            reveal_strlit("}");
            reveal_strlit(">");
        }
        let text = match self {
            AddressMode::Immediate => "#",
            AddressMode::Direct => "$",
            AddressMode::AFieldIndirect => "*",
            AddressMode::BFieldIndirect => "@",
            AddressMode::AFieldPredecrementIndirect => "{",
            AddressMode::BFieldPredecrementIndirect => "<",
            AddressMode::AFieldPostincrementIndirect => "}",
            AddressMode::BFieldPostincrementIndirect => ">",
        };
        assert(text@ =~= seq![self.sigil()]);
        text
    }
}

/// A word of three letters that the language keeps for itself: an opcode's
/// mnemonic or a directive.
#[derive(Debug, Clone, Copy, PartialEq, Eq, Structural)]
pub enum Mnemonic {
    Operation(Opcode),
    Org,
    Equ,
    End,
}

/// The reserved word that three capital letters spell, if they spell one.
/// `CMP` is another spelling of `SEQ`.
pub open spec fn mnemonic_spec(a: char, b: char, c: char) -> Option<Mnemonic> {
    match (a, b, c) {
        ('D', 'A', 'T') => Some(Mnemonic::Operation(Opcode::Dat)),
        ('M', 'O', 'V') => Some(Mnemonic::Operation(Opcode::Mov)),
        ('A', 'D', 'D') => Some(Mnemonic::Operation(Opcode::Add)),
        ('S', 'U', 'B') => Some(Mnemonic::Operation(Opcode::Sub)),
        ('M', 'U', 'L') => Some(Mnemonic::Operation(Opcode::Mul)),
        ('D', 'I', 'V') => Some(Mnemonic::Operation(Opcode::Div)),
        ('M', 'O', 'D') => Some(Mnemonic::Operation(Opcode::Mod)),
        ('J', 'M', 'P') => Some(Mnemonic::Operation(Opcode::Jmp)),
        ('J', 'M', 'Z') => Some(Mnemonic::Operation(Opcode::Jmz)),
        ('J', 'M', 'N') => Some(Mnemonic::Operation(Opcode::Jmn)),
        ('D', 'J', 'N') => Some(Mnemonic::Operation(Opcode::Djn)),
        ('C', 'M', 'P') => Some(Mnemonic::Operation(Opcode::SkipEq)),
        ('S', 'L', 'T') => Some(Mnemonic::Operation(Opcode::Slt)),
        ('S', 'P', 'L') => Some(Mnemonic::Operation(Opcode::Spl)),
        ('S', 'E', 'Q') => Some(Mnemonic::Operation(Opcode::SkipEq)),
        ('S', 'N', 'E') => Some(Mnemonic::Operation(Opcode::Sne)),
        ('N', 'O', 'P') => Some(Mnemonic::Operation(Opcode::Nop)),
        ('O', 'R', 'G') => Some(Mnemonic::Org),
        ('E', 'Q', 'U') => Some(Mnemonic::Equ),
        ('E', 'N', 'D') => Some(Mnemonic::End),
        _ => None,
    }
}

/// The reserved word that the three characters from `pos` on spell, in small
/// or capital letters.
pub open spec fn mnemonic_at_spec(s: Seq<char>, pos: int) -> Option<Mnemonic> {
    if 0 <= pos && pos + 3 <= s.len() {
        mnemonic_spec(upper_spec(s[pos]), upper_spec(s[pos + 1]), upper_spec(s[pos + 2]))
    } else {
        None
    }
}

/// The reserved word that the three characters from `pos` on spell, in small
/// or capital letters.
pub fn mnemonic_at(src: &Source, pos: usize) -> (word: Option<Mnemonic>)
    ensures
        word == mnemonic_at_spec(src@, pos as int),
        word is Some ==> pos + 3 <= src@.len(),
{
    if pos > src.len() || src.len() - pos < 3 {
        return None;
    }
    let a = upper(src.at(pos));
    let b = upper(src.at(pos + 1));
    let c = upper(src.at(pos + 2));
    match (a, b, c) {
        ('D', 'A', 'T') => Some(Mnemonic::Operation(Opcode::Dat)),
        ('M', 'O', 'V') => Some(Mnemonic::Operation(Opcode::Mov)),
        ('A', 'D', 'D') => Some(Mnemonic::Operation(Opcode::Add)),
        ('S', 'U', 'B') => Some(Mnemonic::Operation(Opcode::Sub)),
        ('M', 'U', 'L') => Some(Mnemonic::Operation(Opcode::Mul)),
        ('D', 'I', 'V') => Some(Mnemonic::Operation(Opcode::Div)),
        ('M', 'O', 'D') => Some(Mnemonic::Operation(Opcode::Mod)),
        ('J', 'M', 'P') => Some(Mnemonic::Operation(Opcode::Jmp)),
        ('J', 'M', 'Z') => Some(Mnemonic::Operation(Opcode::Jmz)),
        ('J', 'M', 'N') => Some(Mnemonic::Operation(Opcode::Jmn)),
        ('D', 'J', 'N') => Some(Mnemonic::Operation(Opcode::Djn)),
        ('C', 'M', 'P') => Some(Mnemonic::Operation(Opcode::SkipEq)),
        ('S', 'L', 'T') => Some(Mnemonic::Operation(Opcode::Slt)),
        ('S', 'P', 'L') => Some(Mnemonic::Operation(Opcode::Spl)),
        ('S', 'E', 'Q') => Some(Mnemonic::Operation(Opcode::SkipEq)),
        ('S', 'N', 'E') => Some(Mnemonic::Operation(Opcode::Sne)),
        ('N', 'O', 'P') => Some(Mnemonic::Operation(Opcode::Nop)),
        ('O', 'R', 'G') => Some(Mnemonic::Org),
        ('E', 'Q', 'U') => Some(Mnemonic::Equ),
        ('E', 'N', 'D') => Some(Mnemonic::End),
        _ => None,
    }
}

/// An opcode at `pos`: the three letters of its mnemonic, small or capital.
/// Given are the place after it and the opcode.
pub open spec fn opcode_spec(s: Seq<char>, pos: int) -> Option<(int, Opcode)> {
    match mnemonic_at_spec(s, pos) {
        Some(Mnemonic::Operation(opcode)) => Some((pos + 3, opcode)),
        _ => None,
    }
}

/// Reads an opcode at `pos`.
pub fn opcode(src: &Source, pos: usize) -> (found: Option<(usize, Opcode)>)
    ensures
        match found {
            Some((end, opcode)) => opcode_spec(src@, pos as int) == Some((end as int, opcode))
                && end == pos + 3 <= src@.len(),
            None => opcode_spec(src@, pos as int) is None,
        },
{
    let n = src.len();
    match mnemonic_at(src, pos) {
        Some(Mnemonic::Operation(opcode)) => {
            assert(pos + 3 <= n);
            Some((pos + 3, opcode))
        },
        _ => None,
    }
}

/// A modifier at `pos`: `AB`, `BA`, `A`, `B`, `F`, `X` or `I`, in small or
/// capital letters, the longest that stands there.
pub open spec fn modifier_spec(s: Seq<char>, pos: int) -> Option<(int, Modifier)> {
    if 0 <= pos < s.len() {
        let first = upper_spec(s[pos]);
        let second = if pos + 1 < s.len() {
            upper_spec(s[pos + 1])
        } else {
            ' '
        };
        if first == 'A' && second == 'B' {
            Some((pos + 2, Modifier::AB))
        } else if first == 'B' && second == 'A' {
            Some((pos + 2, Modifier::BA))
        } else if first == 'A' {
            Some((pos + 1, Modifier::A))
        } else if first == 'B' {
            Some((pos + 1, Modifier::B))
        } else if first == 'F' {
            Some((pos + 1, Modifier::F))
        } else if first == 'X' {
            Some((pos + 1, Modifier::X))
        } else if first == 'I' {
            Some((pos + 1, Modifier::I))
        } else {
            None
        }
    } else {
        None
    }
}

/// Reads a modifier at `pos`.
pub fn modifier(src: &Source, pos: usize) -> (found: Option<(usize, Modifier)>)
    ensures
        match found {
            Some((end, modifier)) => modifier_spec(src@, pos as int) == Some(
                (end as int, modifier),
            ) && pos < end <= src@.len(),
            None => modifier_spec(src@, pos as int) is None,
        },
{
    if pos >= src.len() {
        return None;
    }
    let first = upper(src.at(pos));
    let second = if pos + 1 < src.len() {
        upper(src.at(pos + 1))
    } else {
        ' '
    };
    if first == 'A' && second == 'B' {
        Some((pos + 2, Modifier::AB))
    } else if first == 'B' && second == 'A' {
        Some((pos + 2, Modifier::BA))
    } else if first == 'A' {
        Some((pos + 1, Modifier::A))
    } else if first == 'B' {
        Some((pos + 1, Modifier::B))
    } else if first == 'F' {
        Some((pos + 1, Modifier::F))
    } else if first == 'X' {
        Some((pos + 1, Modifier::X))
    } else if first == 'I' {
        Some((pos + 1, Modifier::I))
    } else {
        None
    }
}

/// An operation at `pos`: an opcode, and a modifier after a dot if one
/// stands there; else the opcode's default modifier.
pub open spec fn operation_spec(s: Seq<char>, pos: int) -> Option<(int, Operation)> {
    match opcode_spec(s, pos) {
        Some((end, opcode)) => {
            if end < s.len() && s[end] == '.' && modifier_spec(s, end + 1) is Some {
                let (after, modifier) = modifier_spec(s, end + 1)->0;
                Some((after, Operation { opcode, modifier }))
            } else {
                Some((end, Operation { opcode, modifier: opcode.default_modifier_spec() }))
            }
        },
        None => None,
    }
}

/// Reads an operation at `pos`.
pub fn operation(src: &Source, pos: usize) -> (found: Option<(usize, Operation)>)
    ensures
        match found {
            Some((end, operation)) => operation_spec(src@, pos as int) == Some(
                (end as int, operation),
            ) && pos < end <= src@.len(),
            None => operation_spec(src@, pos as int) is None,
        },
{
    let n = src.len();
    match opcode(src, pos) {
        Some((end, opcode)) => {
            assert(end <= n);
            if src.has(end, '.') {
                match modifier(src, end + 1) {
                    Some((after, modifier)) => {
                        return Some((after, Operation { opcode, modifier }));
                    },
                    None => {},
                }
            }
            Some((end, Operation { opcode, modifier: opcode.default_modifier() }))
        },
        None => None,
    }
}

/// The addressing mode that a sign stands for.
pub open spec fn mode_of_spec(c: char) -> Option<AddressMode> {
    match c {
        '#' => Some(AddressMode::Immediate),
        '$' => Some(AddressMode::Direct),
        '*' => Some(AddressMode::AFieldIndirect),
        '@' => Some(AddressMode::BFieldIndirect),
        '{' => Some(AddressMode::AFieldPredecrementIndirect),
        '<' => Some(AddressMode::BFieldPredecrementIndirect),
        '}' => Some(AddressMode::AFieldPostincrementIndirect),
        '>' => Some(AddressMode::BFieldPostincrementIndirect),
        _ => None,
    }
}

/// An addressing mode at `pos`: one of its eight signs.
pub open spec fn address_mode_spec(s: Seq<char>, pos: int) -> Option<(int, AddressMode)> {
    if 0 <= pos < s.len() && mode_of_spec(s[pos]) is Some {
        Some((pos + 1, mode_of_spec(s[pos])->0))
    } else {
        None
    }
}

/// Reads an addressing mode at `pos`.
pub fn address_mode(src: &Source, pos: usize) -> (found: Option<(usize, AddressMode)>)
    ensures
        match found {
            Some((end, mode)) => address_mode_spec(src@, pos as int) == Some((end as int, mode))
                && end == pos + 1 <= src@.len(),
            None => address_mode_spec(src@, pos as int) is None,
        },
{
    if pos >= src.len() {
        return None;
    }
    let mode = match src.at(pos) {
        '#' => AddressMode::Immediate,
        '$' => AddressMode::Direct,
        '*' => AddressMode::AFieldIndirect,
        '@' => AddressMode::BFieldIndirect,
        '{' => AddressMode::AFieldPredecrementIndirect,
        '<' => AddressMode::BFieldPredecrementIndirect,
        '}' => AddressMode::AFieldPostincrementIndirect,
        '>' => AddressMode::BFieldPostincrementIndirect,
        _ => {
            return None;
        },
    };
    Some((pos + 1, mode))
}

} // verus!
