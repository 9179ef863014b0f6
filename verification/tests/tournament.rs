use mars::engine::MatchOutcome;
use mars::error::{CoreError, Error, EvaluateError, MetadataError, ParseError};
use mars::tournament::{declare_results, score};
use mars::warrior::Warrior;

fn named(name: &str) -> Warrior {
    Warrior::parse(&format!(";name {}\nmov 0, 1\nend\n", name)).unwrap()
}

#[test]
fn the_most_wins_win() {
    let a = named("Ann");
    let b = named("Bob");
    let participants = vec![a.clone(), b.clone()];
    let results = vec![
        MatchOutcome::Win(&a),
        MatchOutcome::Win(&b),
        MatchOutcome::Draw(vec![&a, &b]),
        MatchOutcome::Win(&b),
    ];
    assert_eq!(declare_results(&results, &participants), "Bob");
    assert_eq!(score(&results, &String::from("Bob")), 2);
    assert_eq!(score(&results, &String::from("Ann")), 1);
    assert_eq!(score(&results, &String::from("Draw")), 1);
    assert_eq!(score(&results, &String::from("Cid")), 0);
}

#[test]
fn draw_is_named_where_nobody_won_more() {
    let a = named("Ann");
    let b = named("Bob");
    let participants = vec![a.clone(), b.clone()];
    assert_eq!(declare_results(&vec![], &participants), "Draw");
    let results = vec![MatchOutcome::Draw(vec![&a, &b]), MatchOutcome::Win(&a)];
    assert_eq!(declare_results(&results, &participants), "Draw");
    let results = vec![MatchOutcome::Win(&b), MatchOutcome::Win(&a)];
    assert_eq!(declare_results(&results, &participants), "Ann");
}

#[test]
fn errors_in_words() {
    assert_eq!(ParseError::Parse(12).to_string(), "Couldn't parse warrior at character 12");
    assert_eq!(ParseError::Replace.to_string(), "Couldn't replace definitions");
    assert_eq!(ParseError::Incomplete.to_string(), "Warrior incomplete");
    assert_eq!(
        MetadataError::DuplicateDateDefinition.to_string(),
        "Warrior defines date more than once"
    );
    assert_eq!(
        EvaluateError::UndefinedLabel(String::from("imp")).to_string(),
        "Encountered use of undefined label: imp"
    );
    assert_eq!(
        EvaluateError::DuplicateLabelDefinition(String::from("imp")).to_string(),
        "Encountered duplicate label definition: imp"
    );
    assert_eq!(EvaluateError::DivideByZero.to_string(), "Encountered divide by zero error");
    assert_eq!(
        EvaluateError::BadMetadata(MetadataError::DuplicateNameDefinition).to_string(),
        "Encountered metadata error: Warrior defines name more than once"
    );
    assert_eq!(
        CoreError::EmptyWarrior(String::from("Imp")).to_string(),
        "Encountered a warrior of zero length: Imp"
    );
    assert_eq!(
        CoreError::WarriorTooLong(101, 100, String::from("Imp")).to_string(),
        "Encountered a warrior of length 101 greater than max length 100: Imp"
    );
    assert_eq!(
        Error::Evaluate(EvaluateError::DivideByZero).to_string(),
        "Error evaluating warrior: Encountered divide by zero error"
    );
    assert_eq!(
        Error::Parse(ParseError::Incomplete).to_string(),
        "Error parsing warrior: Warrior incomplete"
    );
}
