use mars::engine::{CoreBuilder, Separation};
use mars::parser::{parse, replace_definitions};
use mars::warrior::Warrior;

/// A small generator of numbers that gives the same run every time.
struct Dice {
    state: u64,
}

impl Dice {
    fn roll(&mut self, sides: usize) -> usize {
        self.state = self.state.wrapping_mul(6364136223846793005).wrapping_add(1442695040888963407);
        ((self.state >> 33) as usize) % sides
    }
}

const OPCODES: [&str; 17] = [
    "dat", "mov", "add", "sub", "mul", "div", "mod", "jmp", "jmz", "jmn", "djn", "slt", "seq",
    "cmp", "sne", "spl", "nop",
];
const MODIFIERS: [&str; 8] = ["", ".a", ".b", ".ab", ".ba", ".f", ".x", ".i"];
const MODES: [&str; 9] = ["", "#", "$", "*", "@", "{", "<", "}", ">"];

fn random_warrior(dice: &mut Dice, length: usize) -> String {
    let mut text = String::from(";name Dice\n");
    for _ in 0..length {
        let number_a = dice.roll(41) as i64 - 20;
        let number_b = dice.roll(41) as i64 - 20;
        text.push_str(&format!(
            "  {}{} {}{}, {}{}\n",
            OPCODES[dice.roll(17)],
            MODIFIERS[dice.roll(8)],
            MODES[dice.roll(9)],
            number_a,
            MODES[dice.roll(9)],
            number_b
        ));
    }
    text.push_str("end\n");
    text
}

#[test]
fn random_warriors_run_to_the_end() {
    let mut dice = Dice { state: 7 };
    for round in 0..300 {
        let first = Warrior::parse(&random_warrior(&mut dice, 1 + round % 7)).unwrap();
        let second = Warrior::parse(&random_warrior(&mut dice, 1 + round % 5)).unwrap();
        let warriors = vec![first, second];
        let windows = [(24, 24, 24), (24, 12, 6), (24, 8, 24), (30, 5, 3), (17, 17, 1)];
        let (core_size, read_distance, write_distance) = windows[round % 5];
        let mut cb = CoreBuilder::new();
        let mut core = cb
            .core_size(core_size)
            .read_distance(read_distance)
            .write_distance(write_distance)
            .maximum_number_of_tasks(1 + round % 9)
            .cycles_before_tie(400)
            .separation(Separation::Fixed(11))
            .load_warriors(&warriors)
            .unwrap()
            .build()
            .unwrap();
        core.run();
        assert!(core.cycle_count() <= 400);
        assert!(core.warrior_count() >= 1);
        for cell in core.instructions() {
            assert!(cell.addr_a < core_size);
            assert!(cell.addr_b < core_size);
        }
        let cap = 1 + round % 9;
        for place in 0..core.warrior_count() {
            assert!(core.task_queue(place).1 <= cap.max(1));
        }
    }
}

#[test]
fn any_text_is_read_or_refused() {
    let alphabet: Vec<char> = "ab EQU org end ;name\t\r\n+-*/%()#$@<>{}.,:019é∑ dat mov x"
        .chars()
        .collect();
    let mut dice = Dice { state: 99 };
    for _ in 0..3000 {
        let length = dice.roll(40);
        let text: String = (0..length).map(|_| alphabet[dice.roll(alphabet.len())]).collect();
        let _ = parse(&text);
        let _ = Warrior::parse(&text);
        if let Ok(replaced) = replace_definitions(&text) {
            if let Ok(lines) = parse(&replaced) {
                for line in lines {
                    assert!(!matches!(line, mars::parser::line::Line::Definition(_)));
                }
            }
        }
    }
}

#[test]
fn text_beyond_ascii_is_counted_in_characters() {
    let text = ";name Zoé ∑\n;author é\nmov 0, 1 ; ∑∑∑\nend\n";
    let warrior = Warrior::parse(text).unwrap();
    assert_eq!(warrior.metadata.name().unwrap(), "Zoé ∑");
    assert_eq!(warrior.metadata.author().unwrap(), "é");
    assert_eq!(parse("é mov 0, 1\nend\n"), Err(mars::error::ParseError::Parse(0)));
    assert_eq!(parse("mov 0, 1\n∑\nend\n"), Err(mars::error::ParseError::Parse(9)));
}
