use mars::error::{Error, EvaluateError, MetadataError, ParseError};
use mars::parser::opcode::{AddressMode, Modifier, Opcode};
use mars::warrior::{Instruction, Warrior};

const DWARF: &str = ";redcode
;name          Dwarf
;author        A. K. Dewdney
;version       94.1
;date          April 29, 1993
;strategy      Bombs every fourth instruction.
        ORG     start              ; Indicates the instruction with
                                   ; the label start should be the
                                   ; first to execute.
step    EQU      4                 ; Replaces all occurrences of step
                                   ; with the character 4.
target  DAT.F   #0,     #0         ; Pointer to target instruction.
start   ADD.AB  #step,   target    ; Increments pointer by step.
        MOV.AB  #0,     @target    ; Bombs target instruction.
        JMP.A    start             ; Same as JMP.A -2.  Loops back to
                                   ; the instruction labelled start.
        END
";

const BAD_DWARF: &str = ";redcode
;name          Dwarf
;author        A. K. Dewdney
;version       94.1
;date          April 29, 1993
;strategy      Bombs every fourth instruction.
        ORG     start              ; Indicates the instruction with
                                   ; the label start should be the
                                   ; first to execute.
step    EQU      4                 ; Replaces all occurrences of step
                                   ; with the character 4.
target  DAT.F   #0,     #0         ; Pointer to target instruction.
start   ADD.AB  #step,   target    ; Increments pointer by step.
        MOV.AB  #0,     @target    ; Bombs target instruction.
        BOMB.A   start
        JMP.A    start             ; Same as JMP.A -2.  Loops back to
                                   ; the instruction labelled start.
        END
";

#[test]
fn types_display_raw_instruction() {
    let inst = Instruction::new(
        Opcode::Mov,
        Modifier::BA,
        AddressMode::Direct,
        8,
        AddressMode::AFieldIndirect,
        2,
    );

    assert_eq!(inst.to_string(), String::from("MOV.BA $8, *2"));
}

#[test]
fn warrior_display_raw_instruction() {
    let inst = Instruction {
        opcode: Opcode::Mov,
        modifier: Modifier::BA,
        mode_a: AddressMode::Direct,
        addr_a: 8,
        mode_b: AddressMode::AFieldIndirect,
        addr_b: 2,
    };

    assert_eq!(inst.to_string(), String::from("MOV.BA $8, *2"));
}

#[test]
fn evaluate_dwarf_metadata() {
    let dwarf_str = DWARF;

    let warrior = Warrior::parse(&dwarf_str).unwrap();

    assert_eq!(warrior.metadata.name().unwrap(), "Dwarf");
    assert_eq!(warrior.metadata.author().unwrap(), "A. K. Dewdney");
    assert_eq!(warrior.metadata.version().unwrap(), "94.1");
    assert_eq!(warrior.metadata.date().unwrap(), "April 29, 1993");

    let bad_dwarf_str = BAD_DWARF;

    Warrior::parse(&bad_dwarf_str).unwrap_err();
}

#[test]
fn evaluate_dwarf_lines() {
    let dwarf_str = DWARF;
    let warrior = Warrior::parse(&dwarf_str).unwrap();

    assert_eq!(warrior.instructions.len(), 4);

    assert_eq!(warrior.instructions[0].to_string(), "DAT.F #0, #0");
    assert_eq!(warrior.instructions[1].to_string(), "ADD.AB #4, $-1");
    assert_eq!(warrior.instructions[2].to_string(), "MOV.AB #0, @-2");
    assert_eq!(warrior.instructions[3].to_string(), "JMP.A $-2, $0");
}

#[test]
fn dwarf_starts_at_its_org() {
    let warrior = Warrior::parse(DWARF).unwrap();
    assert_eq!(warrior.starts_at_line, 1);
    assert_eq!(warrior.len(), 4);
    assert!(!warrior.is_empty());
    assert_eq!(warrior.metadata.strategy().unwrap(), "Bombs every fourth instruction.");
}

#[test]
fn start_defaults_to_zero_and_the_last_org_counts() {
    let warrior = Warrior::parse("a mov 0, 1\nb mov 0, 1\nc mov 0, 1\nend\n").unwrap();
    assert_eq!(warrior.starts_at_line, 0);
    let warrior = Warrior::parse("org b\na mov 0, 1\nb mov 0, 1\nc mov 0, 1\norg c\nend\n").unwrap();
    assert_eq!(warrior.starts_at_line, 2);
    let warrior = Warrior::parse("org b\na mov 0, 1\nb mov 0, 1\nc mov 0, 1\nend a\n").unwrap();
    assert_eq!(warrior.starts_at_line, 1);
    let warrior = Warrior::parse("a mov 0, 1\nb mov 0, 1\nc mov 0, 1\nend c\n").unwrap();
    assert_eq!(warrior.starts_at_line, 2);
}

#[test]
fn fields_count_from_their_own_line() {
    let warrior = Warrior::parse("a dat 0\nb jmp a, b+1\nc add #3, c-a\nend\n").unwrap();
    assert_eq!(warrior.instructions[1].to_string(), "JMP.B $-1, $1");
    assert_eq!(warrior.instructions[2].to_string(), "ADD.AB #3, $0");
    assert_eq!(warrior.instructions[0].to_string(), "DAT.F $0, $0");
}

#[test]
fn strategies_add_up_and_other_fields_stand_once() {
    let warrior = Warrior::parse(";strategy one\n;strategy two\nmov 0, 1\nend\n").unwrap();
    assert_eq!(warrior.metadata.strategy().unwrap(), "one\ntwo");
    assert_eq!(warrior.metadata.name(), None);
    assert_eq!(
        Warrior::parse(";name a\n;name b\nmov 0, 1\nend\n").unwrap_err(),
        Error::Evaluate(EvaluateError::BadMetadata(MetadataError::DuplicateNameDefinition))
    );
    assert_eq!(
        Warrior::parse(";author a\n;author b\nmov 0, 1\nend\n").unwrap_err(),
        Error::Evaluate(EvaluateError::BadMetadata(MetadataError::DuplicateAuthorDefinition))
    );
    assert_eq!(
        Warrior::parse(";date a\n;date b\nmov 0, 1\nend\n").unwrap_err(),
        Error::Evaluate(EvaluateError::BadMetadata(MetadataError::DuplicateDateDefinition))
    );
    assert_eq!(
        Warrior::parse(";version a\n;version b\nmov 0, 1\nend\n").unwrap_err(),
        Error::Evaluate(EvaluateError::BadMetadata(MetadataError::DuplicateVersionDefinition))
    );
}

#[test]
fn resolving_fails_as_told() {
    assert_eq!(
        Warrior::parse("a mov 0, 1\na mov 0, 1\nend\n").unwrap_err(),
        Error::Evaluate(EvaluateError::DuplicateLabelDefinition(String::from("a")))
    );
    assert_eq!(
        Warrior::parse("mov 0, nowhere\nend\n").unwrap_err(),
        Error::Evaluate(EvaluateError::UndefinedLabel(String::from("nowhere")))
    );
    assert_eq!(
        Warrior::parse("mov 0, 8 / 0\nend\n").unwrap_err(),
        Error::Evaluate(EvaluateError::DivideByZero)
    );
    assert_eq!(
        Warrior::parse("mov 0, 8 % 0\nend\n").unwrap_err(),
        Error::Evaluate(EvaluateError::DivideByZero)
    );
    assert_eq!(
        Warrior::parse("mov 0, 9223372036854775807 + 1\nend\n").unwrap_err(),
        Error::Evaluate(EvaluateError::Overflow)
    );
    assert_eq!(
        Warrior::parse("mov 0, 1\n").unwrap_err(),
        Error::Parse(ParseError::Replace)
    );
}

#[test]
fn a_definition_that_leaves_a_definition_fails() {
    assert_eq!(
        Warrior::parse("a EQU b EQU 3\na mov 0, 1\nend\n").unwrap_err(),
        Error::Parse(ParseError::Replace)
    );
}
