use mars::engine::corebuilder::random_offsets;
use mars::engine::{Core, CoreBuilder, ExecutionOutcome, MatchOutcome, Separation};
use mars::logger::{GameEvent, Logger};
use mars::warrior::Warrior;

const IMP: &str = ";redcode-94
;name Imp
;author A.K. Dewdney

        org     imp

imp:    mov.i   imp, imp+1
        end
";

const DWARF: &str = ";redcode
;name          Dwarf
;author        A. K. Dewdney
;version       94.1
;date          April 29, 1993
;strategy      Bombs every fourth instruction.
        ORG     start              ; Indicates the instruction with
                                   ; the label start should be the
                                   ; first to execute.
step    EQU      4                 ; Replaces all occurrences of step
                                   ; with the character 4.
target  DAT.F   #0,     #0         ; Pointer to target instruction.
start   ADD.AB  #step,   target    ; Increments pointer by step.
        MOV.AB  #0,     @target    ; Bombs target instruction.
        JMP.A    start             ; Same as JMP.A -2.  Loops back to
                                   ; the instruction labelled start.
        END
";

const STONE: &str = ";redcode-94
;name Stone
;strategy Bombs the core with a pointer that it moves.

        org     start

start   mov     <2, 3
        add.f   d1, start
        jmp     start
        dat     #0
d1      dat     #-4, #4
        end
";

const ARMADILLO: &str = ";redcode-94
;name Armadillo
;author Stefan Strack
;strategy Stone that also drops SPL 0 on its way.

bomb    spl     0
loop    add     #3039, ptr
ptr     mov     bomb, 81
        jmp     loop
        mov     1, <-1
        end
";

const IMPGATE: &str = ";redcode-94
;name Imp Gate
;strategy Waits and counts down the cell ten behind it.

gate    jmp     gate, <gate-10
        end
";

const WAIT: &str = ";redcode-94
;name Wait

        dat     #0, #0
        end
";

/// A logger that prints what it is told, as a match's log would show it.
struct PrintingLogger {}

impl Logger for PrintingLogger {
    fn log(&self, cycle_count: usize, event: GameEvent) {
        if let Some(line) = event.message(cycle_count) {
            println!("{}", line);
        }
    }
}

fn listing(core: &Core) -> Vec<String> {
    core.instructions().iter().map(|x| x.to_string()).collect::<Vec<String>>()
}

#[test]
fn fold() {
    assert_eq!(Core::fold(44, 8000, 8000), 44);
    assert_eq!(Core::fold(8060, 8000, 8000), 60);
    assert_eq!(Core::fold(8000, 8000, 8000), 0);
    assert_eq!(Core::fold(7999, 8000, 8000), 7999);
}

#[test]
fn subtract() {
    assert_eq!(Core::subtract(400, 100, 8000), 300);
    assert_eq!(Core::subtract(100, 400, 8000), 7700);
    assert_eq!(Core::subtract(4000, 8000, 8000), 4000);
}

#[test]
fn build_and_run_imp() {
    let imp = Warrior::parse(IMP).unwrap();
    let warriors = vec![imp];

    let mut cb = CoreBuilder::new();
    let mut core = cb
        .core_size(10)
        .read_distance(10)
        .write_distance(10)
        .separation(Separation::Fixed(10))
        .load_warriors(&warriors)
        .unwrap()
        .build()
        .unwrap();

    assert_eq!(
        listing(&core),
        vec![
            "MOV.I $0, $1",
            "DAT.F $0, $0",
            "DAT.F $0, $0",
            "DAT.F $0, $0",
            "DAT.F $0, $0",
            "DAT.F $0, $0",
            "DAT.F $0, $0",
            "DAT.F $0, $0",
            "DAT.F $0, $0",
            "DAT.F $0, $0"
        ]
    );

    core.run_once();
    assert_eq!(
        listing(&core),
        vec![
            "MOV.I $0, $1",
            "MOV.I $0, $1",
            "DAT.F $0, $0",
            "DAT.F $0, $0",
            "DAT.F $0, $0",
            "DAT.F $0, $0",
            "DAT.F $0, $0",
            "DAT.F $0, $0",
            "DAT.F $0, $0",
            "DAT.F $0, $0"
        ]
    );

    core.run_once();
    core.run_once();
    core.run_once();
    core.run_once();
    core.run_once();
    core.run_once();
    core.run_once();
    core.run_once();
    core.run_once();
    core.run_once();
    core.run_once();
    core.run_once();
    core.run_once();
    core.run_once();
    core.run_once();
    core.run_once();
    core.run_once();
    core.run_once();
    core.run_once();
    core.run_once();
    core.run_once();
    core.run_once();
    core.run_once();
    core.run_once();

    assert_eq!(
        listing(&core),
        vec![
            "MOV.I $0, $1",
            "MOV.I $0, $1",
            "MOV.I $0, $1",
            "MOV.I $0, $1",
            "MOV.I $0, $1",
            "MOV.I $0, $1",
            "MOV.I $0, $1",
            "MOV.I $0, $1",
            "MOV.I $0, $1",
            "MOV.I $0, $1"
        ]
    );
}

#[test]
fn armadillo_builds() {
    let armadillo = Warrior::parse(ARMADILLO).unwrap();
    let warriors = vec![armadillo];

    let mut cb = CoreBuilder::new();
    let core = cb
        .core_size(10)
        .separation(Separation::Fixed(5))
        .load_warriors(&warriors)
        .unwrap()
        .build()
        .unwrap();

    assert_eq!(
        listing(&core),
        vec![
            "SPL.B $0, $0",
            "ADD.AB #9, $1",
            "MOV.I $8, $1",
            "JMP.B $8, $0",
            "MOV.I $1, <9",
            "DAT.F $0, $0",
            "DAT.F $0, $0",
            "DAT.F $0, $0",
            "DAT.F $0, $0",
            "DAT.F $0, $0"
        ]
    );
}

#[test]
fn imp_fight() {
    let imp = Warrior::parse(IMP).unwrap();
    let imp2 = imp.clone();
    let warriors = vec![imp.clone(), imp2.clone()];

    let mut cb = CoreBuilder::new();
    let mut core = cb
        .separation(Separation::Fixed(500))
        .load_warriors(&warriors)
        .unwrap()
        .build()
        .unwrap();

    assert_eq!(core.run(), MatchOutcome::Draw(vec![&imp, &imp2]));
}

#[test]
fn build_and_run_dwarf() {
    let dwarf = Warrior::parse(DWARF).unwrap();
    let warriors = vec![dwarf.clone()];

    let mut cb = CoreBuilder::new();
    let mut core = cb
        .core_size(10)
        .read_distance(10)
        .write_distance(10)
        .separation(Separation::Fixed(10))
        .load_warriors(&warriors)
        .unwrap()
        .build()
        .unwrap();

    assert_eq!(
        listing(&core),
        vec![
            "DAT.F #0, #0",
            "ADD.AB #4, $9",
            "MOV.AB #0, @8",
            "JMP.A $8, $0",
            "DAT.F $0, $0",
            "DAT.F $0, $0",
            "DAT.F $0, $0",
            "DAT.F $0, $0",
            "DAT.F $0, $0",
            "DAT.F $0, $0"
        ]
    );

    core.run_once();
    assert_eq!(
        listing(&core),
        vec![
            "DAT.F #0, #4",
            "ADD.AB #4, $9",
            "MOV.AB #0, @8",
            "JMP.A $8, $0",
            "DAT.F $0, $0",
            "DAT.F $0, $0",
            "DAT.F $0, $0",
            "DAT.F $0, $0",
            "DAT.F $0, $0",
            "DAT.F $0, $0"
        ]
    );
}

#[test]
fn build_and_run_stone() {
    let stone = Warrior::parse(STONE).unwrap();
    let warriors = vec![stone.clone()];

    let mut cb = CoreBuilder::new();
    let mut core = cb
        .core_size(10)
        .read_distance(10)
        .write_distance(10)
        .separation(Separation::Fixed(10))
        .load_warriors(&warriors)
        .unwrap()
        .build()
        .unwrap();

    assert_eq!(
        listing(&core),
        vec![
            "MOV.I <2, $3",
            "ADD.F $3, $9",
            "JMP.B $8, $0",
            "DAT.F #0, $0",
            "DAT.F #6, #4",
            "DAT.F $0, $0",
            "DAT.F $0, $0",
            "DAT.F $0, $0",
            "DAT.F $0, $0",
            "DAT.F $0, $0"
        ]
    );

    core.run_once();
    assert_eq!(
        listing(&core),
        vec![
            "MOV.I <2, $3",
            "ADD.F $3, $9",
            "JMP.B $8, $9",
            "ADD.F $3, $9",
            "DAT.F #6, #4",
            "DAT.F $0, $0",
            "DAT.F $0, $0",
            "DAT.F $0, $0",
            "DAT.F $0, $0",
            "DAT.F $0, $0"
        ]
    );

    core.run_once();
    assert_eq!(
        listing(&core),
        vec![
            "MOV.I <8, $7",
            "ADD.F $3, $9",
            "JMP.B $8, $9",
            "ADD.F $3, $9",
            "DAT.F #6, #4",
            "DAT.F $0, $0",
            "DAT.F $0, $0",
            "DAT.F $0, $0",
            "DAT.F $0, $0",
            "DAT.F $0, $0"
        ]
    );
}

#[test]
fn imp_gate_vs_imp() {
    let imp = Warrior::parse(IMP).unwrap();
    let imp_gate = Warrior::parse(IMPGATE).unwrap();
    let warriors = vec![imp.clone(), imp_gate.clone()];

    let logger = PrintingLogger {};

    let mut cb = CoreBuilder::new();
    let mut core = cb
        .load_warriors(&warriors)
        .unwrap()
        .log_with(Box::new(logger))
        .build()
        .unwrap();

    assert_eq!(core.run(), MatchOutcome::Win(&imp_gate));
}

#[test]
fn wait_vs_armadillo() {
    let armadillo = Warrior::parse(ARMADILLO).unwrap();
    let wait = Warrior::parse(WAIT).unwrap();
    let warriors = vec![armadillo.clone(), wait.clone()];

    let logger = PrintingLogger {};

    let mut cb = CoreBuilder::new();
    let mut core = cb
        .core_size(8000)
        .load_warriors(&warriors)
        .unwrap()
        .log_with(Box::new(logger))
        .build()
        .unwrap();

    assert_eq!(core.run(), MatchOutcome::Win(&armadillo));
}

#[test]
fn stone_vs_dwarf_vs_imp() {
    let stone = Warrior::parse(STONE).unwrap();
    let dwarf = Warrior::parse(DWARF).unwrap();
    let imp = Warrior::parse(IMP).unwrap();
    let warriors = vec![stone.clone(), imp.clone(), dwarf.clone()];

    let logger = PrintingLogger {};

    let mut cb = CoreBuilder::new();
    let core = cb
        .load_warriors(&warriors)
        .unwrap()
        .log_with(Box::new(logger));

    for _ in 0..=10 {
        let mut core = core.build().unwrap();
        core.run();
    }
}

#[test]
fn random_addresses() {
    let imp = Warrior::parse(IMP).unwrap();
    let stone = Warrior::parse(STONE).unwrap();
    let imp2 = imp.clone();
    let stone2 = stone.clone();
    let imp3 = imp.clone();
    let stone3 = stone.clone();
    let warriors = vec![imp, stone, imp2, stone2, imp3, stone3];

    for _ in 0..5000 {
        let offsets = random_offsets(&warriors, 100, 100, 8000).unwrap();

        assert_eq!(offsets.len(), 6);

        for offset in &offsets {
            let mut ok = true;
            for other in &offsets {
                if offset.1 != other.1 {
                    let o1 = i64::try_from(offset.0).unwrap();
                    let o2 = i64::try_from(other.0).unwrap();

                    if i64::abs(o1 - o2) < 100 {
                        ok = false;
                        break;
                    }
                }
            }

            assert!(ok);
        }
    }
}

#[test]
fn random_starts_are_apart_both_ways_round() {
    let imp = Warrior::parse(IMP).unwrap();
    let warriors = vec![imp.clone(), imp.clone(), imp.clone(), imp.clone()];
    for _ in 0..200 {
        let offsets = random_offsets(&warriors, 30, 100, 200).unwrap();
        for (i, a) in offsets.iter().enumerate() {
            assert!(a.0 < 200);
            for (j, b) in offsets.iter().enumerate() {
                if i != j {
                    let forward = (b.0 + 200 - a.0) % 200;
                    let backward = (a.0 + 200 - b.0) % 200;
                    assert!(forward > 30);
                    assert!(backward > 30);
                }
            }
        }
    }
}

#[test]
fn random_placement_fails_without_room() {
    let imp = Warrior::parse(IMP).unwrap();
    let warriors = vec![imp.clone(), imp.clone()];
    assert!(random_offsets(&warriors, 5, 100, 10).is_none());
    let one = vec![imp.clone()];
    assert_eq!(random_offsets(&one, 5, 100, 10).unwrap().len(), 1);
}

#[test]
fn fixed_starts_follow_the_separation() {
    let imp = Warrior::parse(IMP).unwrap();
    let warriors = vec![imp.clone(), imp.clone(), imp.clone()];
    let mut cb = CoreBuilder::new();
    let core = cb
        .core_size(10)
        .read_distance(10)
        .write_distance(10)
        .separation(Separation::Fixed(4))
        .load_warriors(&warriors)
        .unwrap()
        .build()
        .unwrap();
    assert_eq!(core.warrior_offsets(), &vec![0, 4, 8]);
    assert_eq!(core.instructions()[4].to_string(), "MOV.I $0, $1");
    assert_eq!(core.instructions()[8].to_string(), "MOV.I $0, $1");
    assert_eq!(core.instructions()[2].to_string(), "DAT.F $0, $0");
    assert_eq!(core.warrior_count(), 3);
    assert_eq!(core.task_queue(2).1, 1);
}

#[test]
fn fold_in_a_narrow_window() {
    assert_eq!(Core::fold(3, 10, 100), 3);
    assert_eq!(Core::fold(5, 10, 100), 5);
    assert_eq!(Core::fold(6, 10, 100), 96);
    assert_eq!(Core::fold(19, 10, 100), 99);
    assert_eq!(Core::fold(20, 10, 100), 0);
}

#[test]
fn decrement_wraps_at_zero() {
    assert_eq!(Core::decrement_address(0, 8000), 7999);
    assert_eq!(Core::decrement_address(17, 8000), 16);
}

#[test]
fn keep_in_bounds_takes_any_sign() {
    assert_eq!(mars::engine::keep_in_bounds(-1, 10), 9);
    assert_eq!(mars::engine::keep_in_bounds(-10, 10), 0);
    assert_eq!(mars::engine::keep_in_bounds(-4, 10), 6);
    assert_eq!(mars::engine::keep_in_bounds(23, 10), 3);
    assert_eq!(mars::engine::keep_in_bounds(i64::MIN, 10), 2);
}

#[test]
fn a_dead_warrior_leaves_the_ring() {
    let wait = Warrior::parse(WAIT).unwrap();
    let imp = Warrior::parse(IMP).unwrap();
    let warriors = vec![wait.clone(), imp.clone()];
    let mut cb = CoreBuilder::new();
    let mut core = cb
        .core_size(20)
        .read_distance(20)
        .write_distance(20)
        .separation(Separation::Fixed(10))
        .load_warriors(&warriors)
        .unwrap()
        .build()
        .unwrap();
    assert_eq!(core.run_once(), ExecutionOutcome::Continue);
    assert_eq!(core.cycle_count(), 1);
    assert_eq!(core.run_once(), ExecutionOutcome::Continue);
    assert_eq!(core.cycle_count(), 2);
    assert_eq!(core.warrior_count(), 2);
    assert_eq!(core.run_once(), ExecutionOutcome::Continue);
    assert_eq!(core.cycle_count(), 2);
    assert_eq!(core.warrior_count(), 1);
    assert_eq!(core.outcome(), MatchOutcome::Win(&imp));
}

#[test]
fn the_last_warrior_to_die_wins() {
    let wait = Warrior::parse(WAIT).unwrap();
    let warriors = vec![wait.clone()];
    let mut cb = CoreBuilder::new();
    let mut core = cb.separation(Separation::Fixed(10)).load_warriors(&warriors).unwrap().build().unwrap();
    assert_eq!(core.run(), MatchOutcome::Win(&wait));
    assert_eq!(core.cycle_count(), 1);
    assert_eq!(core.run_once(), ExecutionOutcome::GameOver);
}

#[test]
fn the_cycle_limit_ends_the_match() {
    let imp = Warrior::parse(IMP).unwrap();
    let warriors = vec![imp.clone()];
    let mut cb = CoreBuilder::new();
    let mut core = cb
        .cycles_before_tie(3)
        .separation(Separation::Fixed(10))
        .load_warriors(&warriors)
        .unwrap()
        .build()
        .unwrap();
    assert_eq!(core.run_once(), ExecutionOutcome::Continue);
    assert_eq!(core.run_once(), ExecutionOutcome::Continue);
    assert_eq!(core.run_once(), ExecutionOutcome::GameOver);
    assert_eq!(core.cycle_count(), 3);
    assert_eq!(core.run_once(), ExecutionOutcome::GameOver);
    assert_eq!(core.cycle_count(), 3);
}

#[test]
fn load_warriors_reports_the_first_fault() {
    let imp = Warrior::parse(IMP).unwrap();
    let dwarf = Warrior::parse(DWARF).unwrap();
    let mut empty = imp.clone();
    empty.instructions.clear();
    let mut cb = CoreBuilder::new();
    let error = cb.load_warriors(&vec![imp.clone(), empty]).err().unwrap();
    assert_eq!(error, mars::error::CoreError::EmptyWarrior(String::from("Imp")));
    let mut cb = CoreBuilder::new();
    let error = cb.instruction_limit(3).load_warriors(&vec![imp, dwarf]).err().unwrap();
    assert_eq!(error, mars::error::CoreError::WarriorTooLong(4, 3, String::from("Dwarf")));
    let mut unnamed = Warrior::parse(WAIT).unwrap();
    unnamed.metadata = mars::warrior::Metadata::new();
    unnamed.instructions.clear();
    let mut cb = CoreBuilder::new();
    let error = cb.load_warriors(&vec![unnamed]).err().unwrap();
    assert_eq!(error, mars::error::CoreError::EmptyWarrior(String::from("Unnamed")));
}

#[test]
fn build_fails_where_random_starts_find_no_room() {
    let imp = Warrior::parse(IMP).unwrap();
    let warriors = vec![imp.clone(), imp.clone()];
    let mut cb = CoreBuilder::new();
    let result = cb
        .core_size(10)
        .read_distance(10)
        .write_distance(10)
        .separation(Separation::Random(5))
        .load_warriors(&warriors)
        .unwrap()
        .build();
    assert_eq!(result.err().unwrap(), mars::error::CoreError::NoRoom(5));
}

#[test]
fn outcome_in_words() {
    let imp = Warrior::parse(IMP).unwrap();
    assert_eq!(imp.to_string(), "Imp by A.K. Dewdney - 1 lines");
    assert_eq!(MatchOutcome::Win(&imp).to_string(), "Match won by: Imp by A.K. Dewdney - 1 lines");
    assert_eq!(MatchOutcome::Draw(vec![&imp, &imp]).to_string(), "Match was a draw");
    let wait = Warrior::parse(WAIT).unwrap();
    assert_eq!(wait.to_string(), "Wait by Unnamed author - 1 lines");
}

#[test]
fn fold_over_the_whole_core_is_the_modulus() {
    for x in [0usize, 1, 4000, 4001, 7999, 8000, 8001, 15999, 16000, 123456789] {
        assert_eq!(Core::fold(x, 8000, 8000), x % 8000);
    }
    for x in 0..40usize {
        assert_eq!(Core::fold(x, 7, 7), x % 7);
    }
}

#[test]
fn imp_fills_a_small_core_in_ten_cycles() {
    let imp = Warrior::parse(IMP).unwrap();
    let warriors = vec![imp];
    let mut cb = CoreBuilder::new();
    let mut core = cb
        .core_size(10)
        .read_distance(10)
        .write_distance(10)
        .separation(Separation::Fixed(10))
        .load_warriors(&warriors)
        .unwrap()
        .build()
        .unwrap();
    core.run_once();
    assert_eq!(core.instructions()[1].to_string(), "MOV.I $0, $1");
    assert_eq!(core.instructions()[2].to_string(), "DAT.F $0, $0");
    for _ in 1..10 {
        core.run_once();
    }
    assert_eq!(core.cycle_count(), 10);
    assert_eq!(listing(&core), vec!["MOV.I $0, $1"; 10]);
}

#[test]
fn imps_draw_at_the_cycle_limit() {
    let imp = Warrior::parse(IMP).unwrap();
    let warriors = vec![imp.clone(), imp.clone()];
    let mut cb = CoreBuilder::new();
    let mut core = cb
        .separation(Separation::Fixed(500))
        .load_warriors(&warriors)
        .unwrap()
        .build()
        .unwrap();
    assert_eq!(core.warrior_offsets(), &vec![0, 500]);
    let outcome = core.run();
    assert_eq!(core.cycle_count(), 80000);
    assert_eq!(core.warrior_count(), 2);
    assert_eq!(outcome, MatchOutcome::Draw(vec![&imp, &imp]));
}

#[test]
fn warriors_with_room_are_always_placed() {
    let imp = Warrior::parse(IMP).unwrap();
    let warriors = vec![imp.clone(), imp.clone(), imp.clone()];
    for _ in 0..500 {
        assert!(random_offsets(&warriors, 10, 100, 43).is_some());
    }
}

#[test]
fn the_first_task_starts_at_the_warriors_org() {
    let dwarf = Warrior::parse(DWARF).unwrap();
    let warriors = vec![dwarf.clone(), dwarf.clone()];
    let mut cb = CoreBuilder::new();
    let mut core = cb
        .core_size(20)
        .read_distance(20)
        .write_distance(20)
        .separation(Separation::Fixed(18))
        .load_warriors(&warriors)
        .unwrap()
        .build()
        .unwrap();
    assert_eq!(core.warrior_offsets(), &vec![0, 18]);
    assert_eq!(core.instructions()[18].to_string(), "DAT.F #0, #0");
    assert_eq!(core.instructions()[19].to_string(), "ADD.AB #4, $19");
    assert_eq!(core.instructions()[0].to_string(), "MOV.AB #0, @18");
    assert_eq!(core.instructions()[1].to_string(), "JMP.A $18, $0");
    assert_eq!(core.instructions()[2].to_string(), "MOV.AB #0, @18");
    let first = core.step().executed.unwrap();
    assert_eq!(first.pc, 1);
    let second = core.step().executed.unwrap();
    assert_eq!(second.pc, 19);
}

#[test]
fn events_in_words() {
    let imp = Warrior::parse(IMP).unwrap();
    assert_eq!(
        GameEvent::WarriorKilled(&imp).message(17).unwrap(),
        "Killing a warrior: Imp by A.K. Dewdney - 1 lines after 17 cycles"
    );
    assert_eq!(
        GameEvent::GameOver(MatchOutcome::Draw(vec![&imp])).message(80000).unwrap(),
        "Game over! Match was a draw after 80000 cycles"
    );
    assert_eq!(
        GameEvent::GameOver(MatchOutcome::Win(&imp)).message(3).unwrap(),
        "Game over! Match won by: Imp by A.K. Dewdney - 1 lines after 3 cycles"
    );
    let details = mars::logger::StepDetails { pc: 1, destination: 2, warrior: &imp };
    assert_eq!(GameEvent::Continue(details).message(3), None);
}
