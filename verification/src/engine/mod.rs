//! The core: the machine's memory and the warriors' task queues, and the
//! cycle that runs them.
pub mod corebuilder;
pub mod machine;
pub mod placement;

use vstd::prelude::*;
use vstd::string::*;
use vstd::arithmetic::div_mod::{lemma_fundamental_div_mod, lemma_fundamental_div_mod_converse};
use std::collections::VecDeque;
pub use crate::engine::corebuilder::{CoreBuilder, InitialInstruction, Separation};
pub use crate::engine::machine::CoreInstruction;
use crate::engine::machine::{
    decrement, decrement_spec, execute, fold_spec, fold_wide, in_bounds_spec, memory_ok,
    lemma_run_ends_the_match, lemma_run_unfolds, lemma_step_decreases, operand_spec, run_spec, step_spec,
    subtract_spec, subtract_wrapping, distance_spec, Limits, Machine, TaskQueue,
};
use crate::logger::{GameEvent, StepDetails};
use crate::parser::opcode::AddressMode;
use crate::warrior::{warrior_text_spec, Instruction, Warrior};

verus! {

/// The outcome of a match.
///
/// With one warrior left the match is won by it. Otherwise it is a draw
/// between the warriors that are left.
#[derive(Debug, Clone, PartialEq, Eq)]
pub enum MatchOutcome<'a> {
    Win(&'a Warrior),
    Draw(Vec<&'a Warrior>),
}

/// The outcome of a match over warriors as values.
pub enum OutcomeView {
    Win(Warrior),
    Draw(Seq<Warrior>),
}

impl<'a> View for MatchOutcome<'a> {
    type V = OutcomeView;

    open spec fn view(&self) -> OutcomeView {
        match self {
            MatchOutcome::Win(warrior) => OutcomeView::Win(**warrior),
            MatchOutcome::Draw(warriors) => OutcomeView::Draw(
                Seq::new(warriors@.len(), |i: int| *warriors@[i]),
            ),
        }
    }
}

/// The text that tells an outcome.
pub open spec fn outcome_text_spec(outcome: OutcomeView) -> Seq<char> {
    match outcome {
        OutcomeView::Win(warrior) => "Match won by: "@ + warrior_text_spec(warrior@),
        OutcomeView::Draw(_) => "Match was a draw"@,
    }
}

impl<'a> MatchOutcome<'a> {
    /// The outcome in a few words.
    pub fn to_string(&self) -> (text: String)
        ensures
            text@ == outcome_text_spec(self@),
    {
        match self {
            MatchOutcome::Win(warrior) => {
                let mut text = "Match won by: ".to_owned();
                text.append(warrior.to_string().as_str());
                text
            },
            MatchOutcome::Draw(_) => "Match was a draw".to_owned(),
        }
    }
}

/// The outcome of a match that has ended with `ring` left: a win for the one
/// warrior that is left, else a draw between those that are.
pub open spec fn outcome_spec(ring: Seq<TaskQueue>) -> OutcomeView {
    if ring.len() == 1 {
        OutcomeView::Win(ring[0].warrior)
    } else {
        OutcomeView::Draw(Seq::new(ring.len(), |i: int| ring[i].warrior))
    }
}

/// What one cycle did.
#[derive(Debug, Clone, Copy, PartialEq, Eq)]
pub struct StepReport<'a> {
    /// The warrior that was found dead, if one was.
    pub killed: Option<&'a Warrior>,
    /// The task that ran, if one did.
    pub executed: Option<StepDetails<'a>>,
    /// Whether the match is over.
    pub game_over: bool,
}

/// A negative number modulo `m`, from the modulus of its positive.
proof fn lemma_negative_in_bounds(input: int, m: int)
    requires
        input < 0,
        0 < m,
    ensures
        input % m == if (-input) % m == 0 {
            0
        } else {
            m - (-input) % m
        },
{
    let q = (-input) / m;
    let r = (-input) % m;
    lemma_fundamental_div_mod(-input, m);
    if r == 0 {
        assert(input == (-q) * m + 0) by (nonlinear_arith)
            requires
                -input == m * q + r,
                r == 0,
        ;
        lemma_fundamental_div_mod_converse(input, m, -q, 0);
    } else {
        assert(input == (-q - 1) * m + (m - r)) by (nonlinear_arith)
            requires
                -input == m * q + r,
        ;
        lemma_fundamental_div_mod_converse(input, m, -q - 1, m - r);
    }
}

/// A number of any sign as a cell count below `m`.
pub fn keep_in_bounds(input: i64, m: usize) -> (result: usize)
    requires
        0 < m,
    ensures
        result == in_bounds_spec(input as int, m as int),
        result < m,
{
    if input >= 0 {
        ((input as u128) % (m as u128)) as usize
    } else {
        let below: u128 = (-(input as i128)) as u128;
        let rest: u128 = below % (m as u128);
        proof {
            lemma_negative_in_bounds(input as int, m as int);
        }
        if rest == 0 {
            0
        } else {
            m - (rest as usize)
        }
    }
}

impl CoreInstruction {
    /// The instruction of a warrior as it stands in a core of `core_size`
    /// cells: each address taken modulo the core's size.
    pub open spec fn normalized(instruction: Instruction, core_size: int) -> CoreInstruction {
        CoreInstruction {
            opcode: instruction.opcode,
            modifier: instruction.modifier,
            mode_a: instruction.mode_a,
            addr_a: in_bounds_spec(instruction.addr_a as int, core_size) as usize,
            mode_b: instruction.mode_b,
            addr_b: in_bounds_spec(instruction.addr_b as int, core_size) as usize,
        }
    }

    /// Brings a warrior's instruction into a core of `core_size` cells.
    pub fn from_instruction(instruction: Instruction, core_size: usize) -> (cell: Self)
        requires
            0 < core_size,
        ensures
            cell == Self::normalized(instruction, core_size as int),
            cell.addr_a < core_size,
            cell.addr_b < core_size,
    {
        Self {
            opcode: instruction.opcode,
            modifier: instruction.modifier,
            mode_a: instruction.mode_a,
            addr_a: keep_in_bounds(instruction.addr_a, core_size),
            mode_b: instruction.mode_b,
            addr_b: keep_in_bounds(instruction.addr_b, core_size),
        }
    }
}

/// Resolves an operand of the task at `pc`: performs its side effect on the
/// memory and gives the cell it points to.
pub fn resolve(
    memory: &mut Vec<CoreInstruction>,
    mode: AddressMode,
    addr: usize,
    pc: usize,
    l: &Limits,
) -> (pointer: usize)
    requires
        l.valid(),
        memory_ok(old(memory)@, l.core_size as int),
        addr < l.core_size,
        pc < l.core_size,
    ensures
        final(memory)@ == operand_spec(old(memory)@, mode, addr as int, pc as int, *l).memory,
        pointer == operand_spec(old(memory)@, mode, addr as int, pc as int, *l).pointer,
        memory_ok(final(memory)@, l.core_size as int),
        pointer < l.core_size,
{
    let n = l.core_size;
    let rd = l.read_distance;
    let wd = l.write_distance;
    let between = fold_wide(addr as u128 + pc as u128, rd, n);
    let cell = memory[between];
    match mode {
        AddressMode::Immediate => pc,
        AddressMode::Direct => between,
        AddressMode::AFieldIndirect => fold_wide(between as u128 + cell.addr_a as u128, rd, n),
        AddressMode::BFieldIndirect => fold_wide(between as u128 + cell.addr_b as u128, rd, n),
        AddressMode::AFieldPredecrementIndirect => {
            let field = fold_wide(decrement(cell.addr_a, n) as u128, wd, n);
            let mut changed = cell;
            changed.addr_a = field;
            memory.set(between, changed);
            fold_wide(between as u128 + field as u128, rd, n)
        },
        AddressMode::BFieldPredecrementIndirect => {
            let field = fold_wide(decrement(cell.addr_b, n) as u128, wd, n);
            let mut changed = cell;
            changed.addr_b = field;
            memory.set(between, changed);
            fold_wide(between as u128 + field as u128, rd, n)
        },
        AddressMode::AFieldPostincrementIndirect => {
            let mut changed = cell;
            changed.addr_a = fold_wide(cell.addr_a as u128 + 1, wd, n);
            memory.set(between, changed);
            fold_wide(between as u128 + cell.addr_a as u128, rd, n)
        },
        AddressMode::BFieldPostincrementIndirect => {
            let mut changed = cell;
            changed.addr_b = fold_wide(cell.addr_b as u128 + 1, wd, n);
            memory.set(between, changed);
            fold_wide(between as u128 + cell.addr_b as u128, rd, n)
        },
    }
}

/// Whether a match goes on after a cycle.
#[derive(Debug, Clone, Copy, PartialEq, Eq, Structural)]
pub enum ExecutionOutcome {
    Continue,
    GameOver,
}

/// A core with the warriors loaded: a match under way.
pub struct Core<'a> {
    core: &'a CoreBuilder,
    instructions: Vec<CoreInstruction>,
    task_queues: VecDeque<(&'a Warrior, VecDeque<usize>)>,
    cycle_count: usize,
    starts: Vec<usize>,
}

impl<'a> View for Core<'a> {
    type V = Machine;

    closed spec fn view(&self) -> Machine {
        Machine {
            memory: self.instructions@,
            ring: Seq::new(
                self.task_queues@.len(),
                |i: int|
                    TaskQueue {
                        warrior: *self.task_queues@[i].0,
                        tasks: self.task_queues@[i].1@,
                    },
            ),
            cycles: self.cycle_count as nat,
        }
    }
}

impl<'a> Core<'a> {
    /// The settings the core was built with.
    pub closed spec fn settings(&self) -> &'a CoreBuilder {
        self.core
    }

    /// The cells at which the warriors were loaded, in the order in which
    /// they were given.
    pub closed spec fn placements(&self) -> Seq<usize> {
        self.starts@
    }

    /// Puts a core together from its parts.
    pub(crate) fn assemble(
        core: &'a CoreBuilder,
        instructions: Vec<CoreInstruction>,
        task_queues: VecDeque<(&'a Warrior, VecDeque<usize>)>,
        starts: Vec<usize>,
    ) -> (assembled: Self)
        ensures
            assembled.settings() == core,
            assembled.placements() == starts@,
            assembled@.memory == instructions@,
            assembled@.cycles == 0,
            assembled@.ring.len() == task_queues@.len(),
            forall|i: int|
                0 <= i < task_queues@.len() ==> (#[trigger] assembled@.ring[i]) == (TaskQueue {
                    warrior: *task_queues@[i].0,
                    tasks: task_queues@[i].1@,
                }),
    {
        Core { core, instructions, task_queues, cycle_count: 0, starts }
    }

    /// The cells at which the warriors were loaded, in the order in which
    /// they were given.
    pub fn warrior_offsets(&self) -> (starts: &Vec<usize>)
        ensures
            starts@ == self.placements(),
    {
        &self.starts
    }

    /// The sizes that govern the match.
    pub open spec fn limits(&self) -> Limits {
        self.settings().limits()
    }

    /// The core can run: its sizes are valid, every address in its memory and
    /// every waiting task points into it.
    pub open spec fn well_formed(&self) -> bool {
        &&& self.limits().valid()
        &&& self@.ok(self.limits().core_size as int)
    }

    /// The core's current cycle count.
    pub fn cycle_count(&self) -> (count: usize)
        ensures
            count == self@.cycles,
    {
        self.cycle_count
    }

    /// The core's memory, cell by cell.
    pub fn instructions(&self) -> (memory: &Vec<CoreInstruction>)
        ensures
            memory@ == self@.memory,
    {
        &self.instructions
    }

    /// The number of warriors in the ring.
    pub fn warrior_count(&self) -> (count: usize)
        ensures
            count == self@.ring.len(),
    {
        self.task_queues.len()
    }

    /// The warrior at place `index` of the ring, and how many tasks it has
    /// waiting.
    pub fn task_queue(&self, index: usize) -> (queue: (&'a Warrior, usize))
        requires
            index < self@.ring.len(),
        ensures
            *queue.0 == self@.ring[index as int].warrior,
            queue.1 == self@.ring[index as int].tasks.len(),
    {
        let queue = &self.task_queues[index];
        (queue.0, queue.1.len())
    }

    /// Folds `ptr` into the window of `limit` cells of a core of `core_size`
    /// cells.
    pub fn fold(ptr: usize, limit: usize, core_size: usize) -> (result: usize)
        requires
            0 < limit <= core_size,
        ensures
            result == fold_spec(ptr as int, limit as int, core_size as int),
            result < core_size,
    {
        fold_wide(ptr as u128, limit, core_size)
    }

    /// `a - b` on the ring of `core_size` cells.
    pub fn subtract(a: usize, b: usize, core_size: usize) -> (result: usize)
        requires
            0 < core_size,
        ensures
            result == subtract_spec(a as int, b as int, core_size as int),
            result < core_size,
    {
        subtract_wrapping(a, b, core_size)
    }

    /// One less than `ptr` on a ring of `limit` cells.
    pub fn decrement_address(ptr: usize, limit: usize) -> (result: usize)
        requires
            0 < limit,
        ensures
            result == decrement_spec(ptr as int, limit as int),
    {
        decrement(ptr, limit)
    }

    /// Resolves an operand of the task at `task`: performs its side effect on
    /// the core's memory and gives the cell it points to.
    pub fn evaluate_operand(&mut self, mode: AddressMode, addr: usize, task: usize) -> (pointer:
        usize)
        requires
            old(self).well_formed(),
            addr < old(self).limits().core_size,
            task < old(self).limits().core_size,
        ensures
            final(self).settings() == old(self).settings(),
            final(self)@ == (Machine {
                memory: operand_spec(
                    old(self)@.memory,
                    mode,
                    addr as int,
                    task as int,
                    old(self).limits(),
                ).memory,
                ..old(self)@
            }),
            pointer == operand_spec(
                old(self)@.memory,
                mode,
                addr as int,
                task as int,
                old(self).limits(),
            ).pointer,
            final(self).well_formed(),
    {
        let l = self.core.sizes();
        resolve(&mut self.instructions, mode, addr, task, &l)
    }

    /// Runs one cycle: the warrior at the front of the ring takes its turn.
    pub fn step(&mut self) -> (report: StepReport<'a>)
        requires
            old(self).well_formed(),
        ensures
            final(self).settings() == old(self).settings(),
            final(self)@ == step_spec(old(self)@, old(self).limits()).machine,
            report.game_over == step_spec(old(self)@, old(self).limits()).over,
            final(self).well_formed(),
            report.killed is Some <==> report.executed is None && old(self)@.ring.len() > 0
                && old(self)@.cycles < old(self).limits().cycles_before_tie,
            report.killed matches Some(warrior) ==> *warrior == old(self)@.ring[0].warrior,
            report.executed matches Some(details) ==> {
                &&& old(self)@.ring.len() > 0
                &&& old(self)@.ring[0].tasks.len() > 0
                &&& *details.warrior == old(self)@.ring[0].warrior
                &&& details.pc == old(self)@.ring[0].tasks[0]
                &&& details.destination < old(self).limits().core_size
            },
    {
        let l = self.core.sizes();
        let n = l.core_size;
        let ghost before = self@;
        if self.task_queues.len() == 0 || self.cycle_count >= l.cycles_before_tie {
            return StepReport { killed: None, executed: None, game_over: true };
        }
        let mut current = match self.task_queues.pop_front() {
            Some(current) => current,
            None => {
                return StepReport { killed: None, executed: None, game_over: true };
            },
        };
        let warrior = current.0;
        assert(self@.ring =~= before.ring.drop_first());
        let pc = match current.1.pop_front() {
            Some(pc) => pc,
            None => {
                if self.task_queues.len() == 0 {
                    self.task_queues.push_front(current);
                    assert(self@.ring =~= before.ring);
                    return StepReport { killed: Some(warrior), executed: None, game_over: true };
                } else {
                    return StepReport { killed: Some(warrior), executed: None, game_over: false };
                }
            },
        };
        assert(pc == before.ring[0].tasks[0]);
        assert(pc < n);
        let ir = self.instructions[fold_wide(pc as u128, l.read_distance, n)];
        let sp = resolve(&mut self.instructions, ir.mode_a, ir.addr_a, pc, &l);
        let source = self.instructions[sp];
        let dp = resolve(&mut self.instructions, ir.mode_b, ir.addr_b, pc, &l);
        let destination = self.instructions[dp];
        let effect = execute(&ir, &source, &destination, sp, pc, current.1.len(), &l);
        self.instructions.set(dp, effect.cell);
        let ghost waiting = current.1@;
        assert(waiting =~= before.ring[0].tasks.drop_first());
        match effect.next {
            Some(next) => {
                current.1.push_back(next);
            },
            None => {},
        }
        match effect.spawned {
            Some(spawned) => {
                current.1.push_back(spawned);
            },
            None => {},
        }
        assert(current.1@ =~= waiting + effect.enqueued());
        self.task_queues.push_back(current);
        self.cycle_count += 1;
        assert(self@.ring =~= before.ring.drop_first().push(
            TaskQueue { warrior: before.ring[0].warrior, tasks: waiting + effect.enqueued() },
        ));
        StepReport {
            killed: None,
            executed: Some(StepDetails { pc, destination: dp, warrior }),
            game_over: self.cycle_count >= l.cycles_before_tie,
        }
    }

    /// Hands an event to the logger, if the core has one.
    fn report(&self, event: GameEvent) {
        match &self.core.logger {
            Some(logger) => {
                logger.log(self.cycle_count, event);
            },
            None => {},
        }
    }

    /// Runs one cycle, and reports to the logger a warrior found dead.
    pub fn run_once(&mut self) -> (outcome: ExecutionOutcome)
        requires
            old(self).well_formed(),
        ensures
            final(self).settings() == old(self).settings(),
            final(self)@ == step_spec(old(self)@, old(self).limits()).machine,
            outcome is GameOver <==> step_spec(old(self)@, old(self).limits()).over,
            final(self).well_formed(),
    {
        let report = self.step();
        match report.killed {
            Some(warrior) => {
                self.report(GameEvent::WarriorKilled(warrior));
            },
            None => {},
        }
        if report.game_over {
            ExecutionOutcome::GameOver
        } else {
            ExecutionOutcome::Continue
        }
    }

    /// The outcome of the match as the ring stands: a win for the one warrior
    /// in it, else a draw between those in it.
    pub fn outcome(&self) -> (outcome: MatchOutcome<'a>)
        ensures
            outcome@ == outcome_spec(self@.ring),
    {
        if self.task_queues.len() == 1 {
            MatchOutcome::Win(self.task_queues[0].0)
        } else {
            let mut warriors: Vec<&'a Warrior> = Vec::new();
            let mut i: usize = 0;
            while i < self.task_queues.len()
                invariant
                    i <= self.task_queues@.len(),
                    warriors@.len() == i,
                    forall|k: int| 0 <= k < i ==> *(#[trigger] warriors@[k]) == self@.ring[k].warrior,
                decreases self.task_queues@.len() - i,
            {
                warriors.push(self.task_queues[i].0);
                i += 1;
            }
            let outcome = MatchOutcome::Draw(warriors);
            assert(outcome@->Draw_0 =~= outcome_spec(self@.ring)->Draw_0);
            outcome
        }
    }

    /// Runs the match to its end and gives its outcome. The logger, if the
    /// core has one, is told of every warrior found dead, of every task run,
    /// and of the outcome.
    pub fn run(&mut self) -> (outcome: MatchOutcome<'a>)
        requires
            old(self).well_formed(),
        ensures
            final(self).settings() == old(self).settings(),
            final(self)@ == run_spec(old(self)@, old(self).limits()),
            step_spec(final(self)@, old(self).limits()).over,
            outcome@ == outcome_spec(final(self)@.ring),
            final(self).well_formed(),
    {
        proof {
            lemma_run_ends_the_match(self@, self.limits());
        }
        loop
            invariant
                self.well_formed(),
                self.settings() == old(self).settings(),
                run_spec(self@, self.limits()) == run_spec(old(self)@, old(self).limits()),
            ensures
                self.well_formed(),
                self.settings() == old(self).settings(),
                self@ == run_spec(old(self)@, old(self).limits()),
            decreases distance_spec(self@, self.limits()),
        {
            proof {
                lemma_step_decreases(self@, self.limits());
                lemma_run_unfolds(self@, self.limits());
            }
            let report = self.step();
            match report.killed {
                Some(warrior) => {
                    self.report(GameEvent::WarriorKilled(warrior));
                },
                None => {},
            }
            if report.game_over {
                break ;
            }
            match report.executed {
                Some(details) => {
                    self.report(GameEvent::Continue(details));
                },
                None => {},
            }
        }
        self.report(GameEvent::GameOver(self.outcome()));
        self.outcome()
    }
}

} // verus!
