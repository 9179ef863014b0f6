use mars::engine::machine::{
    combine, decrement, execute, fold_wide, subtract_wrapping, CoreInstruction, Effect, Limits,
};
use mars::engine::{resolve, CoreBuilder, ExecutionOutcome, Separation};
use mars::parser::opcode::{AddressMode, Modifier, Opcode};
use mars::warrior::Warrior;

fn limits() -> Limits {
    Limits {
        core_size: 10,
        read_distance: 10,
        write_distance: 10,
        cycles_before_tie: 100,
        maximum_number_of_tasks: 3,
    }
}

fn cell(opcode: Opcode, modifier: Modifier, addr_a: usize, addr_b: usize) -> CoreInstruction {
    CoreInstruction {
        opcode,
        modifier,
        mode_a: AddressMode::Direct,
        addr_a,
        mode_b: AddressMode::Direct,
        addr_b,
    }
}

fn run(opcode: Opcode, modifier: Modifier, source: (usize, usize), destination: (usize, usize)) -> Effect {
    let ir = cell(opcode, modifier, 0, 0);
    let source = cell(Opcode::Nop, Modifier::A, source.0, source.1);
    let destination = cell(Opcode::Dat, Modifier::F, destination.0, destination.1);
    execute(&ir, &source, &destination, 6, 2, 0, &limits())
}

fn fields(effect: &Effect) -> (usize, usize) {
    (effect.cell.addr_a, effect.cell.addr_b)
}

#[test]
fn dat_ends_the_task() {
    let effect = run(Opcode::Dat, Modifier::F, (3, 4), (7, 8));
    assert_eq!(effect.next, None);
    assert_eq!(effect.spawned, None);
    assert_eq!(fields(&effect), (7, 8));
}

#[test]
fn mov_moves_what_the_modifier_selects() {
    assert_eq!(fields(&run(Opcode::Mov, Modifier::A, (3, 4), (7, 8))), (3, 8));
    assert_eq!(fields(&run(Opcode::Mov, Modifier::B, (3, 4), (7, 8))), (7, 4));
    assert_eq!(fields(&run(Opcode::Mov, Modifier::AB, (3, 4), (7, 8))), (7, 3));
    assert_eq!(fields(&run(Opcode::Mov, Modifier::BA, (3, 4), (7, 8))), (4, 8));
    assert_eq!(fields(&run(Opcode::Mov, Modifier::F, (3, 4), (7, 8))), (3, 4));
    assert_eq!(fields(&run(Opcode::Mov, Modifier::X, (3, 4), (7, 8))), (4, 3));
    let whole = run(Opcode::Mov, Modifier::I, (3, 4), (7, 8));
    assert_eq!(whole.cell, cell(Opcode::Nop, Modifier::A, 3, 4));
    assert_eq!(whole.next, Some(3));
    let kept = run(Opcode::Mov, Modifier::F, (3, 4), (7, 8));
    assert_eq!(kept.cell.opcode, Opcode::Dat);
    assert_eq!(kept.cell.modifier, Modifier::F);
}

#[test]
fn arithmetic_wraps_around_the_core() {
    assert_eq!(fields(&run(Opcode::Add, Modifier::F, (3, 4), (7, 8))), (0, 2));
    assert_eq!(fields(&run(Opcode::Add, Modifier::I, (3, 4), (7, 8))), (0, 2));
    assert_eq!(fields(&run(Opcode::Add, Modifier::AB, (3, 4), (7, 8))), (7, 1));
    assert_eq!(fields(&run(Opcode::Add, Modifier::BA, (3, 4), (7, 8))), (1, 8));
    assert_eq!(fields(&run(Opcode::Add, Modifier::X, (3, 4), (7, 8))), (1, 1));
    assert_eq!(fields(&run(Opcode::Sub, Modifier::A, (3, 4), (7, 8))), (4, 8));
    assert_eq!(fields(&run(Opcode::Sub, Modifier::A, (9, 4), (7, 8))), (8, 8));
    assert_eq!(fields(&run(Opcode::Sub, Modifier::B, (9, 9), (7, 0))), (7, 1));
    assert_eq!(fields(&run(Opcode::Mul, Modifier::A, (3, 4), (7, 8))), (1, 8));
    assert_eq!(fields(&run(Opcode::Mul, Modifier::F, (3, 4), (7, 8))), (1, 2));
    assert_eq!(fields(&run(Opcode::Div, Modifier::F, (3, 4), (7, 8))), (2, 2));
    assert_eq!(fields(&run(Opcode::Mod, Modifier::F, (3, 5), (7, 8))), (1, 3));
    assert_eq!(run(Opcode::Add, Modifier::F, (3, 4), (7, 8)).next, Some(3));
}

#[test]
fn division_by_zero_ends_the_task() {
    let effect = run(Opcode::Div, Modifier::F, (0, 4), (7, 8));
    assert_eq!(effect.next, None);
    assert_eq!(fields(&effect), (7, 2));
    let effect = run(Opcode::Mod, Modifier::AB, (0, 4), (7, 8));
    assert_eq!(effect.next, None);
    assert_eq!(fields(&effect), (7, 8));
    let effect = run(Opcode::Mod, Modifier::B, (0, 4), (7, 8));
    assert_eq!(effect.next, Some(3));
    assert_eq!(fields(&effect), (7, 0));
    let effect = run(Opcode::Div, Modifier::X, (4, 0), (7, 8));
    assert_eq!(effect.next, None);
    assert_eq!(fields(&effect), (7, 2));
}

#[test]
fn jumps_go_to_the_source_pointer() {
    assert_eq!(run(Opcode::Jmp, Modifier::B, (3, 4), (7, 8)).next, Some(6));
    assert_eq!(run(Opcode::Jmz, Modifier::B, (3, 4), (7, 0)).next, Some(6));
    assert_eq!(run(Opcode::Jmz, Modifier::B, (3, 4), (0, 8)).next, Some(3));
    assert_eq!(run(Opcode::Jmz, Modifier::A, (3, 4), (0, 8)).next, Some(6));
    assert_eq!(run(Opcode::Jmz, Modifier::F, (3, 4), (0, 8)).next, Some(3));
    assert_eq!(run(Opcode::Jmz, Modifier::F, (3, 4), (0, 0)).next, Some(6));
    assert_eq!(run(Opcode::Jmn, Modifier::B, (3, 4), (0, 8)).next, Some(6));
    assert_eq!(run(Opcode::Jmn, Modifier::BA, (3, 4), (0, 8)).next, Some(3));
    assert_eq!(run(Opcode::Jmn, Modifier::F, (3, 4), (0, 8)).next, Some(3));
    assert_eq!(run(Opcode::Jmn, Modifier::X, (3, 4), (7, 8)).next, Some(6));
    assert_eq!(fields(&run(Opcode::Jmn, Modifier::X, (3, 4), (7, 8))), (7, 8));
}

#[test]
fn djn_counts_down_before_it_jumps() {
    let effect = run(Opcode::Djn, Modifier::B, (3, 4), (7, 8));
    assert_eq!(fields(&effect), (7, 7));
    assert_eq!(effect.next, Some(6));
    let effect = run(Opcode::Djn, Modifier::B, (3, 4), (7, 1));
    assert_eq!(fields(&effect), (7, 0));
    assert_eq!(effect.next, Some(3));
    let effect = run(Opcode::Djn, Modifier::AB, (3, 4), (7, 0));
    assert_eq!(fields(&effect), (7, 9));
    assert_eq!(effect.next, Some(6));
    let effect = run(Opcode::Djn, Modifier::F, (3, 4), (1, 5));
    assert_eq!(fields(&effect), (0, 4));
    assert_eq!(effect.next, Some(3));
    let effect = run(Opcode::Djn, Modifier::A, (3, 4), (5, 1));
    assert_eq!(fields(&effect), (4, 1));
    assert_eq!(effect.next, Some(6));
}

#[test]
fn comparisons_skip_one_cell() {
    assert_eq!(run(Opcode::SkipEq, Modifier::A, (3, 4), (3, 8)).next, Some(4));
    assert_eq!(run(Opcode::SkipEq, Modifier::B, (3, 4), (3, 8)).next, Some(3));
    assert_eq!(run(Opcode::SkipEq, Modifier::AB, (8, 4), (3, 8)).next, Some(4));
    assert_eq!(run(Opcode::SkipEq, Modifier::BA, (8, 3), (3, 8)).next, Some(4));
    assert_eq!(run(Opcode::SkipEq, Modifier::F, (3, 8), (3, 8)).next, Some(4));
    assert_eq!(run(Opcode::SkipEq, Modifier::X, (8, 3), (3, 8)).next, Some(4));
    assert_eq!(run(Opcode::SkipEq, Modifier::X, (3, 8), (3, 8)).next, Some(3));
    assert_eq!(run(Opcode::SkipEq, Modifier::I, (3, 8), (3, 8)).next, Some(3));
    assert_eq!(run(Opcode::Sne, Modifier::I, (3, 8), (3, 8)).next, Some(4));
    assert_eq!(run(Opcode::Sne, Modifier::F, (3, 8), (3, 8)).next, Some(3));
    assert_eq!(run(Opcode::Sne, Modifier::F, (3, 7), (3, 8)).next, Some(4));
    assert_eq!(run(Opcode::Slt, Modifier::A, (3, 4), (7, 8)).next, Some(4));
    assert_eq!(run(Opcode::Slt, Modifier::A, (7, 4), (7, 8)).next, Some(3));
    assert_eq!(run(Opcode::Slt, Modifier::F, (3, 9), (7, 8)).next, Some(3));
    assert_eq!(run(Opcode::Slt, Modifier::I, (3, 4), (7, 8)).next, Some(4));
    assert_eq!(run(Opcode::Slt, Modifier::X, (3, 4), (5, 8)).next, Some(4));
    assert_eq!(run(Opcode::Slt, Modifier::X, (3, 6), (5, 8)).next, Some(3));
    assert_eq!(run(Opcode::Slt, Modifier::AB, (3, 9), (0, 8)).next, Some(4));

    let dat = cell(Opcode::Dat, Modifier::F, 3, 8);
    let same = execute(&cell(Opcode::SkipEq, Modifier::I, 0, 0), &dat, &dat, 6, 2, 0, &limits());
    assert_eq!(same.next, Some(4));
    let differ = execute(&cell(Opcode::Sne, Modifier::I, 0, 0), &dat, &dat, 6, 2, 0, &limits());
    assert_eq!(differ.next, Some(3));
}

#[test]
fn spl_adds_a_task_below_the_cap() {
    let ir = cell(Opcode::Spl, Modifier::B, 0, 0);
    let dat = cell(Opcode::Dat, Modifier::F, 0, 0);
    let effect = execute(&ir, &dat, &dat, 6, 2, 0, &limits());
    assert_eq!(effect.next, Some(3));
    assert_eq!(effect.spawned, Some(6));
    let effect = execute(&ir, &dat, &dat, 6, 2, 1, &limits());
    assert_eq!(effect.spawned, Some(6));
    let effect = execute(&ir, &dat, &dat, 6, 2, 2, &limits());
    assert_eq!(effect.next, Some(3));
    assert_eq!(effect.spawned, None);
    let nop = execute(&cell(Opcode::Nop, Modifier::F, 0, 0), &dat, &dat, 6, 2, 0, &limits());
    assert_eq!(nop.next, Some(3));
    assert_eq!(nop.spawned, None);
}

#[test]
fn program_counters_wrap_around_the_core() {
    let dat = cell(Opcode::Dat, Modifier::F, 0, 0);
    let nop = execute(&cell(Opcode::Nop, Modifier::F, 0, 0), &dat, &dat, 6, 9, 0, &limits());
    assert_eq!(nop.next, Some(0));
    let skip = execute(&cell(Opcode::SkipEq, Modifier::I, 0, 0), &dat, &dat, 6, 9, 0, &limits());
    assert_eq!(skip.next, Some(1));
    let skip = execute(&cell(Opcode::SkipEq, Modifier::I, 0, 0), &dat, &dat, 6, 8, 0, &limits());
    assert_eq!(skip.next, Some(0));
}

#[test]
fn results_fold_into_the_write_window() {
    let narrow = Limits {
        core_size: 8,
        read_distance: 8,
        write_distance: 4,
        cycles_before_tie: 100,
        maximum_number_of_tasks: 3,
    };
    assert_eq!(combine(Opcode::Add, 3, 2, &narrow), 1);
    assert_eq!(combine(Opcode::Add, 2, 1, &narrow), 7);
    assert_eq!(combine(Opcode::Add, 2, 0, &narrow), 2);
    assert_eq!(combine(Opcode::Sub, 1, 2, &narrow), 7);
    assert_eq!(combine(Opcode::Mul, 7, 7, &narrow), 1);
    assert_eq!(fold_wide(u128::MAX, 8, 8), 7);
    assert_eq!(subtract_wrapping(usize::MAX, 0, 10), (usize::MAX % 10 + 10) % 10);
    assert_eq!(decrement(0, 4), 3);
    assert_eq!(decrement(3, 4), 2);
}

fn memory() -> Vec<CoreInstruction> {
    let mut memory = vec![cell(Opcode::Dat, Modifier::F, 0, 0); 10];
    memory[5] = cell(Opcode::Dat, Modifier::F, 2, 9);
    memory[7] = cell(Opcode::Dat, Modifier::F, 0, 0);
    memory
}

#[test]
fn operands_point_as_their_modes_say() {
    let l = limits();
    let mut m = memory();
    assert_eq!(resolve(&mut m, AddressMode::Immediate, 3, 2, &l), 2);
    assert_eq!(m, memory());
    assert_eq!(resolve(&mut m, AddressMode::Direct, 3, 2, &l), 5);
    assert_eq!(resolve(&mut m, AddressMode::Direct, 9, 2, &l), 1);
    assert_eq!(m, memory());
    assert_eq!(resolve(&mut m, AddressMode::AFieldIndirect, 3, 2, &l), 7);
    assert_eq!(resolve(&mut m, AddressMode::BFieldIndirect, 3, 2, &l), 4);
    assert_eq!(m, memory());
}

#[test]
fn predecrement_lowers_the_field_first() {
    let l = limits();
    let mut m = memory();
    assert_eq!(resolve(&mut m, AddressMode::AFieldPredecrementIndirect, 3, 2, &l), 6);
    assert_eq!((m[5].addr_a, m[5].addr_b), (1, 9));
    let mut m = memory();
    assert_eq!(resolve(&mut m, AddressMode::BFieldPredecrementIndirect, 3, 2, &l), 3);
    assert_eq!((m[5].addr_a, m[5].addr_b), (2, 8));
    let mut m = memory();
    assert_eq!(resolve(&mut m, AddressMode::BFieldPredecrementIndirect, 5, 2, &l), 6);
    assert_eq!((m[7].addr_a, m[7].addr_b), (0, 9));
}

#[test]
fn postincrement_raises_the_field_afterwards() {
    let l = limits();
    let mut m = memory();
    assert_eq!(resolve(&mut m, AddressMode::AFieldPostincrementIndirect, 3, 2, &l), 7);
    assert_eq!((m[5].addr_a, m[5].addr_b), (3, 9));
    let mut m = memory();
    assert_eq!(resolve(&mut m, AddressMode::BFieldPostincrementIndirect, 3, 2, &l), 4);
    assert_eq!((m[5].addr_a, m[5].addr_b), (2, 0));
}

#[test]
fn a_step_tells_what_ran() {
    let imp = Warrior::parse("mov.i 0, 1\nend\n").unwrap();
    let warriors = vec![imp.clone()];
    let mut cb = CoreBuilder::new();
    let mut core = cb
        .core_size(10)
        .read_distance(10)
        .write_distance(10)
        .separation(Separation::Fixed(3))
        .load_warriors(&warriors)
        .unwrap()
        .build()
        .unwrap();
    let report = core.step();
    assert!(!report.game_over);
    assert!(report.killed.is_none());
    let details = report.executed.unwrap();
    assert_eq!(details.pc, 0);
    assert_eq!(details.destination, 1);
    assert_eq!(details.warrior, &imp);
    let report = core.step();
    assert_eq!(report.executed.unwrap().pc, 1);
    assert_eq!(core.cycle_count(), 2);
}

#[test]
fn a_warrior_without_spl_keeps_one_task() {
    let dwarf = Warrior::parse(
        "org start\ntarget dat.f #0, #0\nstart add.ab #4, target\nmov.ab #0, @target\njmp.a start\nend\n",
    )
    .unwrap();
    let imp = Warrior::parse("mov.i 0, 1\nend\n").unwrap();
    let warriors = vec![dwarf, imp];
    let mut cb = CoreBuilder::new();
    let mut core = cb
        .cycles_before_tie(5000)
        .separation(Separation::Fixed(4000))
        .load_warriors(&warriors)
        .unwrap()
        .build()
        .unwrap();
    loop {
        for place in 0..core.warrior_count() {
            assert!(core.task_queue(place).1 <= 1);
        }
        if core.run_once() == ExecutionOutcome::GameOver {
            break;
        }
    }
}

#[test]
fn every_task_and_address_stays_in_the_core() {
    let armadillo = Warrior::parse(
        "bomb spl 0\nloop add #3039, ptr\nptr mov bomb, 81\njmp loop\nmov 1, <-1\nend\n",
    )
    .unwrap();
    let stone = Warrior::parse(
        "start mov <2, 3\nadd.f d1, start\njmp start\ndat #0\nd1 dat #-4, #4\nend\n",
    )
    .unwrap();
    let warriors = vec![armadillo, stone];
    let mut cb = CoreBuilder::new();
    let mut core = cb
        .core_size(200)
        .read_distance(100)
        .write_distance(50)
        .maximum_number_of_tasks(16)
        .cycles_before_tie(3000)
        .separation(Separation::Fixed(90))
        .load_warriors(&warriors)
        .unwrap()
        .build()
        .unwrap();
    loop {
        let report = core.step();
        if let Some(details) = report.executed {
            assert!(details.pc < 200);
            assert!(details.destination < 200);
        }
        for place in 0..core.warrior_count() {
            assert!(core.task_queue(place).1 <= 16);
        }
        if report.game_over {
            break;
        }
    }
    for cell in core.instructions() {
        assert!(cell.addr_a < 200);
        assert!(cell.addr_b < 200);
    }
}
