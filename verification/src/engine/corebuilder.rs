//! Setting up a match: the core's sizes, the warriors, and where they start.
use vstd::prelude::*;
use vstd::arithmetic::div_mod::{
    lemma_add_mod_noop_right, lemma_fundamental_div_mod_converse, lemma_small_mod,
};
use rand::Rng;
use std::collections::VecDeque;
use crate::engine::machine::{in_bounds_spec, memory_ok, CoreInstruction, Limits, Machine, TaskQueue};
use crate::engine::placement::lemma_room_left;
use crate::engine::{keep_in_bounds, Core};
use crate::error::{CoreError, CoreErrorView};
use crate::logger::Logger;
use crate::warrior::{Instruction, Warrior};

verus! {

/// The separation between warriors at the start of a match.
///
/// `Fixed` puts each warrior's first instruction that many cells after the
/// one before it. `Random` draws the places, none within that many cells of
/// another on either side.
#[derive(Debug, Clone, Copy, PartialEq, Eq, Structural)]
pub enum Separation {
    Random(usize),
    Fixed(usize),
}

/// The instruction that fills the core before the warriors are loaded.
///
/// `Fixed` fills every cell with the same instruction. `Random` is kept for
/// a filling that is drawn; a core cannot be built with it.
#[derive(Debug, Clone, Copy, PartialEq, Eq, Structural)]
pub enum InitialInstruction {
    Random,
    Fixed(Instruction),
}

impl InitialInstruction {
    /// The instruction of a `Fixed` filling.
    pub fn extract(self) -> (instruction: Instruction)
        requires
            self is Fixed,
        ensures
            self == InitialInstruction::Fixed(instruction),
    {
        match self {
            Self::Fixed(instruction) => instruction,
            Self::Random => Instruction::default(),
        }
    }
}

/// The settings of a match and the warriors that fight it.
pub struct CoreBuilder {
    pub core_size: usize,
    pub cycles_before_tie: usize,
    pub initial_instruction: InitialInstruction,
    pub instruction_limit: usize,
    pub maximum_number_of_tasks: usize,
    pub minimum_separation: usize,
    pub read_distance: usize,
    pub write_distance: usize,
    pub separation: Separation,
    pub warriors: Vec<Warrior>,
    pub logger: Option<Box<dyn Logger>>,
}

/// The name by which a warrior without a name is reported.
pub open spec fn unnamed_spec() -> Seq<char> {
    seq!['U', 'n', 'n', 'a', 'm', 'e', 'd']
}

/// The name by which a warrior is reported.
pub open spec fn reported_name_spec(warrior: Warrior) -> Seq<char> {
    match warrior@.metadata.name {
        Some(name) => name,
        None => unnamed_spec(),
    }
}

/// The first fault among the warriors from place `from` on: a warrior longer
/// than `limit`, or one without instructions.
pub open spec fn first_fault_spec(warriors: Seq<Warrior>, limit: usize, from: int) -> Option<
    CoreErrorView,
>
    decreases warriors.len() - from,
{
    if from < 0 || from >= warriors.len() {
        None
    } else if warriors[from]@.instructions.len() > limit {
        Some(
            CoreErrorView::WarriorTooLong(
                warriors[from]@.instructions.len() as usize,
                limit,
                reported_name_spec(warriors[from]),
            ),
        )
    } else if warriors[from]@.instructions.len() == 0 {
        Some(CoreErrorView::EmptyWarrior(reported_name_spec(warriors[from])))
    } else {
        first_fault_spec(warriors, limit, from + 1)
    }
}

/// The name by which a warrior is reported: its own, or `Unnamed`.
fn name_or_unnamed(warrior: &Warrior) -> (name: String)
    ensures
        name@ == reported_name_spec(*warrior),
{
    match warrior.metadata.name() {
        Some(name) => name.to_owned(),
        None => {
            proof {
                reveal_strlit("Unnamed");
            }
            let name = "Unnamed".to_owned();
            assert(name@ =~= unnamed_spec());
            name
        },
    }
}

/// The memory after the first `count` of `instructions` have been written to
/// consecutive cells from `offset` on, around the ring of `n` cells.
pub open spec fn written_spec(
    memory: Seq<CoreInstruction>,
    instructions: Seq<Instruction>,
    offset: int,
    count: int,
    n: int,
) -> Seq<CoreInstruction>
    decreases count,
{
    if count <= 0 {
        memory
    } else {
        written_spec(memory, instructions, offset, count - 1, n).update(
            (offset + count - 1) % n,
            CoreInstruction::normalized(instructions[count - 1], n),
        )
    }
}

/// The memory of a core of `n` cells filled with `initial`, after the first
/// `count` warriors have been written, each at its offset.
pub open spec fn loaded_memory_spec(
    initial: CoreInstruction,
    warriors: Seq<Warrior>,
    offsets: Seq<usize>,
    count: int,
    n: int,
) -> Seq<CoreInstruction>
    decreases count,
{
    if count <= 0 {
        Seq::new(n as nat, |i: int| initial)
    } else {
        written_spec(
            loaded_memory_spec(initial, warriors, offsets, count - 1, n),
            warriors[count - 1].instructions@,
            offsets[count - 1] as int,
            warriors[count - 1].instructions@.len() as int,
            n,
        )
    }
}

/// The program counter of the one task a warrior starts with: its place in
/// the core plus its start offset, around the ring.
pub open spec fn first_task_spec(warrior: Warrior, offset: int, n: int) -> usize {
    ((offset + warrior.starts_at_line) % n) as usize
}

/// The match as it stands when the builder's warriors have been loaded at
/// `offsets`.
pub open spec fn loaded_spec(builder: CoreBuilder, offsets: Seq<usize>) -> Machine {
    let n = builder.core_size as int;
    Machine {
        memory: loaded_memory_spec(
            CoreInstruction::normalized(builder.initial_instruction->Fixed_0, n),
            builder.warriors@,
            offsets,
            builder.warriors@.len() as int,
            n,
        ),
        ring: Seq::new(
            builder.warriors@.len(),
            |i: int|
                TaskQueue {
                    warrior: builder.warriors@[i],
                    tasks: seq![first_task_spec(builder.warriors@[i], offsets[i] as int, n)],
                },
        ),
        cycles: 0,
    }
}

/// The start of warrior `i` under fixed separation.
pub open spec fn fixed_offset_spec(i: int, separation: int, n: int) -> int {
    (i * separation) % n
}

/// The number of cells to walk forward from `from` to reach `to` on the ring
/// of `n` cells.
pub open spec fn gap_spec(from: int, to: int, n: int) -> int {
    (to - from) % n
}

/// Two starts are too close: walking from one to the other takes no more
/// than `separation` cells in one of the two directions.
pub open spec fn too_close_spec(a: int, b: int, separation: int, n: int) -> bool {
    gap_spec(a, b, n) <= separation || gap_spec(b, a, n) <= separation
}

/// A start at `address` is far enough from each of `offsets`.
pub open spec fn fits(address: int, offsets: Seq<usize>, separation: int, n: int) -> bool {
    forall|i: int|
        0 <= i < offsets.len() ==> !too_close_spec(
            address,
            (#[trigger] offsets[i]) as int,
            separation,
            n,
        )
}

/// Every two of `offsets` are more than `separation` cells apart in both
/// directions of the ring.
pub open spec fn apart(offsets: Seq<usize>, separation: int, n: int) -> bool {
    forall|i: int, j: int|
        0 <= i < offsets.len() && 0 <= j < offsets.len() && i != j ==> !too_close_spec(
            (#[trigger] offsets[i]) as int,
            (#[trigger] offsets[j]) as int,
            separation,
            n,
        )
}

/// Fewer than `count` warriors can be placed so that no cell is left for the
/// next: there are starts in the core, every two of them apart, that leave no
/// cell far enough from all.
pub open spec fn crowded(count: int, separation: int, n: int) -> bool {
    exists|placed: Seq<usize>|
        #![trigger apart(placed, separation, n)]
        {
            &&& 0 < placed.len() < count
            &&& forall|i: int| 0 <= i < placed.len() ==> (#[trigger] placed[i]) < n
            &&& apart(placed, separation, n)
            &&& forall|address: int|
                0 <= address < n ==> !#[trigger] fits(address, placed, separation, n)
        }
}

/// There is room for `count` warriors wherever the starts fall: each start
/// takes `2 * separation + 1` cells at most, and all but the last together
/// take fewer than the core has.
pub open spec fn roomy(count: int, separation: int, n: int) -> bool {
    (count - 1) * (2 * separation + 1) < n
}

/// The starts among starts paired with warriors.
pub open spec fn offsets_of(placed: Seq<(usize, &Warrior)>) -> Seq<usize> {
    Seq::new(placed.len(), |i: int| placed[i].0)
}

/// The starts of `count` warriors under fixed separation.
pub fn fixed_offsets(count: usize, separation: usize, n: usize) -> (starts: Vec<usize>)
    requires
        0 < n,
    ensures
        starts@.len() == count,
        forall|i: int|
            0 <= i < count ==> (#[trigger] starts@[i]) == fixed_offset_spec(
                i,
                separation as int,
                n as int,
            ),
        forall|i: int| 0 <= i < count ==> (#[trigger] starts@[i]) < n,
{
    let mut starts: Vec<usize> = Vec::new();
    let mut place: usize = 0;
    let mut i: usize = 0;
    assert(fixed_offset_spec(0, separation as int, n as int) == 0) by {
        assert(0 * separation == 0) by (nonlinear_arith);
        lemma_small_mod(0, n as nat);
    }
    while i < count
        invariant
            0 < n,
            i <= count,
            starts@.len() == i,
            place == fixed_offset_spec(i as int, separation as int, n as int),
            place < n,
            forall|k: int|
                0 <= k < i ==> (#[trigger] starts@[k]) == fixed_offset_spec(
                    k,
                    separation as int,
                    n as int,
                ),
        decreases count - i,
    {
        starts.push(place);
        proof {
            lemma_add_mod_noop_right(separation as int, i * separation, n as int);
            assert((i + 1) * separation == separation + i * separation) by (nonlinear_arith);
        }
        place = ((place as u128 + separation as u128) % (n as u128)) as usize;
        i += 1;
    }
    starts
}

/// `offset + delta` on the ring of `n` cells.
pub fn ring_add(offset: usize, delta: i64, n: usize) -> (result: usize)
    requires
        0 < n,
    ensures
        result == (offset + delta) % (n as int),
        result < n,
{
    let reduced = keep_in_bounds(delta, n);
    proof {
        lemma_add_mod_noop_right(offset as int, delta as int, n as int);
    }
    ((offset as u128 + reduced as u128) % (n as u128)) as usize
}

/// Whether two starts below `n` are too close.
pub fn too_close(a: usize, b: usize, separation: usize, n: usize) -> (close: bool)
    requires
        a < n,
        b < n,
    ensures
        close == too_close_spec(a as int, b as int, separation as int, n as int),
{
    let forward = if b >= a {
        b - a
    } else {
        n - (a - b)
    };
    let backward = if a >= b {
        a - b
    } else {
        n - (b - a)
    };
    proof {
        lemma_fundamental_div_mod_converse(
            b - a,
            n as int,
            if b >= a {
                0
            } else {
                -1
            },
            forward as int,
        );
        lemma_fundamental_div_mod_converse(
            a - b,
            n as int,
            if a >= b {
                0
            } else {
                -1
            },
            backward as int,
        );
    }
    forward <= separation || backward <= separation
}

/// Whether a start at `address` is far enough from each of `offsets`.
pub fn is_valid_address(address: usize, offsets: &Vec<usize>, separation: usize, n: usize) -> (valid:
    bool)
    requires
        address < n,
        forall|i: int| 0 <= i < offsets@.len() ==> (#[trigger] offsets@[i]) < n,
    ensures
        valid == fits(address as int, offsets@, separation as int, n as int),
{
    let mut i: usize = 0;
    while i < offsets.len()
        invariant
            address < n,
            i <= offsets@.len(),
            forall|k: int| 0 <= k < offsets@.len() ==> (#[trigger] offsets@[k]) < n,
            forall|k: int|
                0 <= k < i ==> !too_close_spec(
                    address as int,
                    (#[trigger] offsets@[k]) as int,
                    separation as int,
                    n as int,
                ),
        decreases offsets@.len() - i,
    {
        if too_close(address, offsets[i], separation, n) {
            return false;
        }
        i += 1;
    }
    true
}

/// Draws a number below `bound` with `Rng::gen_range` of the `rand` crate, on
/// the generator that `rand::thread_rng` gives.
///
/// Claimed of it, and not proved: the number lies in `0..bound`, whatever was
/// drawn. `gen_range` panics on an empty range, so the bound must be
/// positive. `thread_rng` seeds itself from the operating system, and gives
/// up with a panic on a machine where that fails.
#[verifier::external_body]
fn random_below(bound: usize) -> (drawn: usize)
    requires
        0 < bound,
    ensures
        drawn < bound,
{
    rand::thread_rng().gen_range(0, bound)
}

/// Finds a start for the next warrior that is far enough from `offsets`, the
/// starts taken so far.
///
/// Starts are drawn at random, as many times as the core has cells; the first
/// that fits is taken. If none did, the cells are tried one by one from 0 on.
/// So a start is found whenever there is one.
pub fn get_valid_address(offsets: &Vec<usize>, separation: usize, n: usize) -> (found: Option<
    usize,
>)
    requires
        0 < n,
        forall|i: int| 0 <= i < offsets@.len() ==> (#[trigger] offsets@[i]) < n,
    ensures
        match found {
            Some(address) => address < n && fits(
                address as int,
                offsets@,
                separation as int,
                n as int,
            ),
            None => forall|address: int|
                0 <= address < n ==> !#[trigger] fits(
                    address,
                    offsets@,
                    separation as int,
                    n as int,
                ),
        },
{
    let mut tries: usize = 0;
    while tries < n
        invariant
            0 < n,
            forall|i: int| 0 <= i < offsets@.len() ==> (#[trigger] offsets@[i]) < n,
        decreases n - tries,
    {
        let drawn = random_below(n);
        if is_valid_address(drawn, offsets, separation, n) {
            return Some(drawn);
        }
        tries += 1;
    }
    let mut address: usize = 0;
    while address < n
        invariant
            address <= n,
            forall|i: int| 0 <= i < offsets@.len() ==> (#[trigger] offsets@[i]) < n,
            forall|tried: int|
                0 <= tried < address ==> !#[trigger] fits(
                    tried,
                    offsets@,
                    separation as int,
                    n as int,
                ),
        decreases n - address,
    {
        if is_valid_address(address, offsets, separation, n) {
            return Some(address);
        }
        address += 1;
    }
    None
}

/// Places the warriors at random, each more than `minimum_separation` cells
/// from every other in both directions of the ring of `core_size` cells, and
/// gives each warrior with its start. `instruction_limit` takes no part in
/// the placement.
///
/// A single warrior is always placed. With more, the placement fails where
/// the starts drawn so far leave no cell for the next.
pub fn random_offsets<'a>(
    warriors: &'a [Warrior],
    minimum_separation: usize,
    instruction_limit: usize,
    core_size: usize,
) -> (result: Option<Vec<(usize, &'a Warrior)>>)
    requires
        0 < core_size,
    ensures
        match result {
            Some(placed) => {
                &&& placed@.len() == warriors@.len()
                &&& forall|i: int|
                    0 <= i < placed@.len() ==> *(#[trigger] placed@[i]).1 == warriors@[i]
                        && placed@[i].0 < core_size
                &&& apart(offsets_of(placed@), minimum_separation as int, core_size as int)
            },
            None => warriors@.len() > 1 && crowded(
                warriors@.len() as int,
                minimum_separation as int,
                core_size as int,
            ),
        },
        roomy(warriors@.len() as int, minimum_separation as int, core_size as int)
            ==> result is Some,
{
    let mut placed: Vec<(usize, &'a Warrior)> = Vec::new();
    let mut offsets: Vec<usize> = Vec::new();
    let mut i: usize = 0;
    while i < warriors.len()
        invariant
            0 < core_size,
            i <= warriors@.len(),
            placed@.len() == i,
            offsets@ == offsets_of(placed@),
            forall|k: int|
                0 <= k < i ==> *(#[trigger] placed@[k]).1 == warriors@[k] && placed@[k].0
                    < core_size,
            forall|k: int| 0 <= k < offsets@.len() ==> (#[trigger] offsets@[k]) < core_size,
            apart(offsets@, minimum_separation as int, core_size as int),
        decreases warriors@.len() - i,
    {
        match get_valid_address(&offsets, minimum_separation, core_size) {
            Some(address) => {
                let ghost before = offsets@;
                placed.push((address, &warriors[i]));
                offsets.push(address);
                assert(offsets@ =~= offsets_of(placed@));
                assert forall|a: int, b: int|
                    0 <= a < offsets@.len() && 0 <= b < offsets@.len() && a != b implies !too_close_spec(
                    (#[trigger] offsets@[a]) as int,
                    (#[trigger] offsets@[b]) as int,
                    minimum_separation as int,
                    core_size as int,
                ) by {
                    if a < before.len() && b < before.len() {
                        assert(offsets@[a] == before[a] && offsets@[b] == before[b]);
                    } else if a < before.len() {
                        assert(offsets@[a] == before[a]);
                    } else {
                        assert(offsets@[b] == before[b]);
                    }
                }
            },
            None => {
                assert(i > 0) by {
                    if i == 0 {
                        assert(fits(0, offsets@, minimum_separation as int, core_size as int));
                    }
                }
                assert(crowded(
                    warriors@.len() as int,
                    minimum_separation as int,
                    core_size as int,
                )) by {
                    assert(apart(offsets@, minimum_separation as int, core_size as int));
                }
                proof {
                    if roomy(warriors@.len() as int, minimum_separation as int, core_size as int) {
                        assert(i * (2 * minimum_separation + 1) <= (warriors@.len() - 1) * (2
                            * minimum_separation + 1)) by (nonlinear_arith)
                            requires
                                0 <= i <= warriors@.len() - 1,
                                0 <= minimum_separation,
                        ;
                        lemma_room_left(offsets@, minimum_separation as int, core_size as int);
                    }
                }
                return None;
            },
        }
        i += 1;
    }
    Some(placed)
}

impl Default for CoreBuilder {
    fn default() -> (builder: Self)
        ensures
            builder.is_default(),
    {
        Self {
            core_size: 8000,
            cycles_before_tie: 80_000,
            initial_instruction: InitialInstruction::Fixed(Instruction::default()),
            instruction_limit: 100,
            maximum_number_of_tasks: 8000,
            minimum_separation: 100,
            read_distance: 8000,
            write_distance: 8000,
            separation: Separation::Random(100),
            warriors: Vec::new(),
            logger: None,
        }
    }
}

impl CoreBuilder {
    /// The settings a builder starts with: a core of 8000 cells that can be
    /// read and written all over, filled with `DAT.F $0, $0`; 80000 cycles to
    /// a tie; warriors of up to 100 instructions and 8000 tasks, placed at
    /// random at least 100 cells apart; no warrior and no logger yet.
    pub open spec fn is_default(&self) -> bool {
        &&& self.core_size == 8000
        &&& self.cycles_before_tie == 80_000
        &&& self.initial_instruction == InitialInstruction::Fixed(
            Instruction {
                opcode: crate::parser::opcode::Opcode::Dat,
                modifier: crate::parser::opcode::Modifier::F,
                mode_a: crate::parser::opcode::AddressMode::Direct,
                addr_a: 0,
                mode_b: crate::parser::opcode::AddressMode::Direct,
                addr_b: 0,
            },
        )
        &&& self.instruction_limit == 100
        &&& self.maximum_number_of_tasks == 8000
        &&& self.minimum_separation == 100
        &&& self.read_distance == 8000
        &&& self.write_distance == 8000
        &&& self.separation == Separation::Random(100)
        &&& self.warriors@.len() == 0
        &&& self.logger is None
    }

    /// The sizes that govern a match in the core this builder describes.
    pub open spec fn limits(&self) -> Limits {
        Limits {
            core_size: self.core_size,
            read_distance: self.read_distance,
            write_distance: self.write_distance,
            cycles_before_tie: self.cycles_before_tie,
            maximum_number_of_tasks: self.maximum_number_of_tasks,
        }
    }

    /// The sizes that govern a match in the core this builder describes.
    pub fn sizes(&self) -> (l: Limits)
        ensures
            l == self.limits(),
    {
        Limits {
            core_size: self.core_size,
            read_distance: self.read_distance,
            write_distance: self.write_distance,
            cycles_before_tie: self.cycles_before_tie,
            maximum_number_of_tasks: self.maximum_number_of_tasks,
        }
    }

    /// Creates a builder with the default settings and no warriors.
    pub fn new() -> (builder: Self)
        ensures
            builder.is_default(),
    {
        CoreBuilder::default()
    }

    /// Sets the core's size: the number of instructions that make up the
    /// core.
    pub fn core_size(&mut self, core_size: usize) -> (builder: &mut Self)
        ensures
            *builder == (CoreBuilder { core_size, ..*old(self) }),
            *final(self) == *final(builder),
    {
        self.core_size = core_size;
        self
    }

    /// Sets the number of cycles after which a match is declared a tie.
    pub fn cycles_before_tie(&mut self, cycles_before_tie: usize) -> (builder: &mut Self)
        ensures
            *builder == (CoreBuilder { cycles_before_tie, ..*old(self) }),
            *final(self) == *final(builder),
    {
        self.cycles_before_tie = cycles_before_tie;
        self
    }

    /// Sets the instruction that fills the core before the warriors are
    /// loaded.
    pub fn initial_instruction(&mut self, initial_instruction: InitialInstruction) -> (builder:
        &mut Self)
        ensures
            *builder == (CoreBuilder { initial_instruction, ..*old(self) }),
            *final(self) == *final(builder),
    {
        self.initial_instruction = initial_instruction;
        self
    }

    /// Sets the greatest number of instructions a warrior may have.
    pub fn instruction_limit(&mut self, instruction_limit: usize) -> (builder: &mut Self)
        ensures
            *builder == (CoreBuilder { instruction_limit, ..*old(self) }),
            *final(self) == *final(builder),
    {
        self.instruction_limit = instruction_limit;
        self
    }

    /// Sets the greatest number of tasks a warrior may have waiting.
    pub fn maximum_number_of_tasks(&mut self, maximum_number_of_tasks: usize) -> (builder:
        &mut Self)
        ensures
            *builder == (CoreBuilder { maximum_number_of_tasks, ..*old(self) }),
            *final(self) == *final(builder),
    {
        self.maximum_number_of_tasks = maximum_number_of_tasks;
        self
    }

    /// Sets the least number of cells from the first instruction of one
    /// warrior to the first instruction of the next. The setting is kept for
    /// those who read it: warriors are placed by the number that the
    /// separation itself carries.
    pub fn minimum_separation(&mut self, minimum_separation: usize) -> (builder: &mut Self)
        ensures
            *builder == (CoreBuilder { minimum_separation, ..*old(self) }),
            *final(self) == *final(builder),
    {
        self.minimum_separation = minimum_separation;
        self
    }

    /// Sets the width of the window within which a task reads. It is meant
    /// to divide the core's size.
    pub fn read_distance(&mut self, read_distance: usize) -> (builder: &mut Self)
        ensures
            *builder == (CoreBuilder { read_distance, ..*old(self) }),
            *final(self) == *final(builder),
    {
        self.read_distance = read_distance;
        self
    }

    /// Sets how the warriors are placed.
    pub fn separation(&mut self, separation: Separation) -> (builder: &mut Self)
        ensures
            *builder == (CoreBuilder { separation, ..*old(self) }),
            *final(self) == *final(builder),
    {
        self.separation = separation;
        self
    }

    /// Sets the width of the window within which a task writes. It is meant
    /// to divide the core's size.
    pub fn write_distance(&mut self, write_distance: usize) -> (builder: &mut Self)
        ensures
            *builder == (CoreBuilder { write_distance, ..*old(self) }),
            *final(self) == *final(builder),
    {
        self.write_distance = write_distance;
        self
    }

    /// Takes the warriors of the match, after checking each: none may be
    /// longer than the instruction limit, none empty. The first warrior at
    /// fault is reported, and the builder then stays as it was.
    pub fn load_warriors(&mut self, warriors: &[Warrior]) -> (result: Result<&mut Self, CoreError>)
        ensures
            match result {
                Ok(builder) => {
                    &&& first_fault_spec(warriors@, old(self).instruction_limit, 0) is None
                    &&& builder.warriors@.len() == warriors@.len()
                    &&& forall|i: int|
                        0 <= i < warriors@.len() ==> (#[trigger] builder.warriors@[i])@
                            == warriors@[i]@
                    &&& builder.unchanged_but_warriors(*old(self))
                    &&& *final(self) == *final(builder)
                },
                Err(error) => {
                    &&& first_fault_spec(warriors@, old(self).instruction_limit, 0) == Some(error@)
                    &&& *final(self) == *old(self)
                },
            },
    {
        let mut loaded: Vec<Warrior> = Vec::new();
        let mut i: usize = 0;
        while i < warriors.len()
            invariant
                i <= warriors@.len(),
                *self == *old(self),
                loaded@.len() == i,
                forall|k: int| 0 <= k < i ==> (#[trigger] loaded@[k])@ == warriors@[k]@,
                first_fault_spec(warriors@, self.instruction_limit, 0) == first_fault_spec(
                    warriors@,
                    self.instruction_limit,
                    i as int,
                ),
            decreases warriors@.len() - i,
        {
            let warrior = &warriors[i];
            if warrior.len() > self.instruction_limit {
                return Err(
                    CoreError::WarriorTooLong(
                        warrior.len(),
                        self.instruction_limit,
                        name_or_unnamed(warrior),
                    ),
                );
            }
            if warrior.is_empty() {
                return Err(CoreError::EmptyWarrior(name_or_unnamed(warrior)));
            }
            loaded.push(warrior.clone());
            i += 1;
        }
        self.warriors = loaded;
        Ok(self)
    }

    /// Every setting but the warriors is as in `other`.
    pub open spec fn unchanged_but_warriors(&self, other: CoreBuilder) -> bool {
        &&& self.core_size == other.core_size
        &&& self.cycles_before_tie == other.cycles_before_tie
        &&& self.initial_instruction == other.initial_instruction
        &&& self.instruction_limit == other.instruction_limit
        &&& self.maximum_number_of_tasks == other.maximum_number_of_tasks
        &&& self.minimum_separation == other.minimum_separation
        &&& self.read_distance == other.read_distance
        &&& self.write_distance == other.write_distance
        &&& self.separation == other.separation
        &&& self.logger == other.logger
    }

    /// Builds the core: fills it with the initial instruction, places the
    /// warriors, copies each to its place, later ones over earlier ones, and
    /// gives each one task, at its start.
    ///
    /// With `Fixed` separation the warriors start that many cells one after
    /// the other, from cell 0 on, and the core is always built. With `Random`
    /// separation the starts are drawn, and the core is built if every
    /// warrior found a start far enough from those placed before it; that is
    /// so whenever the core has room for the warriors wherever they fall.
    pub fn build(&self) -> (result: Result<Core<'_>, CoreError>)
        requires
            0 < self.core_size,
            self.initial_instruction is Fixed,
        ensures
            match result {
                Ok(core) => {
                    &&& core.settings() == self
                    &&& core.placements().len() == self.warriors@.len()
                    &&& core@ == loaded_spec(*self, core.placements())
                    &&& core@.ok(self.core_size as int)
                    &&& forall|i: int|
                        0 <= i < core.placements().len() ==> (#[trigger] core.placements()[i])
                            < self.core_size
                    &&& match self.separation {
                        Separation::Fixed(separation) => forall|i: int|
                            0 <= i < core.placements().len() ==> (
                            #[trigger] core.placements()[i]) == fixed_offset_spec(
                                i,
                                separation as int,
                                self.core_size as int,
                            ),
                        Separation::Random(separation) => apart(
                            core.placements(),
                            separation as int,
                            self.core_size as int,
                        ),
                    }
                    &&& self.limits().valid() ==> core.well_formed()
                },
                Err(error) => {
                    &&& self.separation matches Separation::Random(separation)
                    &&& error@ == CoreErrorView::NoRoom(separation)
                    &&& self.warriors@.len() > 1
                    &&& crowded(self.warriors@.len() as int, separation as int, self.core_size as int)
                    &&& !roomy(self.warriors@.len() as int, separation as int, self.core_size as int)
                },
            },
    {
        let n = self.core_size;
        let starts: Vec<usize> = match self.separation {
            Separation::Fixed(separation) => fixed_offsets(self.warriors.len(), separation, n),
            Separation::Random(separation) => {
                match random_offsets(self.warriors.as_slice(), separation, self.instruction_limit, n) {
                    Some(placed) => {
                        let mut starts: Vec<usize> = Vec::new();
                        let mut i: usize = 0;
                        while i < placed.len()
                            invariant
                                i <= placed@.len(),
                                starts@.len() == i,
                                forall|k: int| 0 <= k < i ==> (#[trigger] starts@[k]) == placed@[k].0,
                            decreases placed@.len() - i,
                        {
                            starts.push(placed[i].0);
                            i += 1;
                        }
                        assert(starts@ =~= offsets_of(placed@));
                        starts
                    },
                    None => {
                        return Err(CoreError::NoRoom(separation));
                    },
                }
            },
        };
        let initial = CoreInstruction::from_instruction(self.initial_instruction.extract(), n);
        let mut memory: Vec<CoreInstruction> = Vec::with_capacity(n);
        let mut c: usize = 0;
        while c < n
            invariant
                c <= n,
                memory@.len() == c,
                forall|k: int| 0 <= k < c ==> (#[trigger] memory@[k]) == initial,
            decreases n - c,
        {
            memory.push(initial);
            c += 1;
        }
        assert(memory@ =~= loaded_memory_spec(initial, self.warriors@, starts@, 0, n as int));
        let mut task_queues: VecDeque<(&Warrior, VecDeque<usize>)> = VecDeque::new();
        let mut w: usize = 0;
        while w < self.warriors.len()
            invariant
                0 < n == self.core_size,
                initial.addr_a < n,
                initial.addr_b < n,
                w <= self.warriors@.len(),
                starts@.len() == self.warriors@.len(),
                forall|k: int| 0 <= k < starts@.len() ==> (#[trigger] starts@[k]) < n,
                memory@ == loaded_memory_spec(initial, self.warriors@, starts@, w as int, n as int),
                memory_ok(memory@, n as int),
                task_queues@.len() == w,
                forall|k: int|
                    0 <= k < w ==> *(#[trigger] task_queues@[k]).0 == self.warriors@[k]
                        && task_queues@[k].1@ == seq![
                        first_task_spec(self.warriors@[k], starts@[k] as int, n as int),
                    ],
            decreases self.warriors@.len() - w,
        {
            let warrior = &self.warriors[w];
            let start = starts[w];
            let ghost before = memory@;
            let mut j: usize = 0;
            while j < warrior.instructions.len()
                invariant
                    0 < n,
                    start < n,
                    j <= warrior.instructions@.len(),
                    memory@ == written_spec(before, warrior.instructions@, start as int, j as int, n as int),
                    memory_ok(memory@, n as int),
                decreases warrior.instructions@.len() - j,
            {
                let cell = CoreInstruction::from_instruction(warrior.instructions[j], n);
                let place = ((start as u128 + j as u128) % (n as u128)) as usize;
                memory.set(place, cell);
                j += 1;
            }
            let mut tasks: VecDeque<usize> = VecDeque::new();
            tasks.push_back(ring_add(start, warrior.starts_at_line, n));
            task_queues.push_back((warrior, tasks));
            w += 1;
        }
        let core = Core::assemble(self, memory, task_queues, starts);
        assert(core@.ring =~= loaded_spec(*self, core.placements()).ring);
        assert(core@ == loaded_spec(*self, core.placements()));
        Ok(core)
    }

    /// Sets the logger that the match reports to.
    pub fn log_with(&mut self, logger: Box<dyn Logger>) -> (builder: &mut Self)
        ensures
            *builder == (CoreBuilder { logger: Some(logger), ..*old(self) }),
            *final(self) == *final(builder),
    {
        self.logger = Some(logger);
        self
    }
}

} // verus!
