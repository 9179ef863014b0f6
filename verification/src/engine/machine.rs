//! The machine as mathematics: what one cycle does to the core's memory and
//! to the task queues, stated over sequences and integers.
use vstd::prelude::*;
use crate::parser::opcode::{AddressMode, Modifier, Opcode};
use crate::warrior::{instruction_text, instruction_text_spec, Warrior};

verus! {

/// An instruction as it stands in the core: both addresses are cell counts
/// below the core's size.
#[derive(Debug, Clone, Copy, PartialEq, Eq, Structural)]
pub struct CoreInstruction {
    pub opcode: Opcode,
    pub modifier: Modifier,
    pub mode_a: AddressMode,
    pub addr_a: usize,
    pub mode_b: AddressMode,
    pub addr_b: usize,
}

/// The sizes that govern a match.
#[derive(Debug, Clone, Copy, PartialEq, Eq, Structural)]
pub struct Limits {
    pub core_size: usize,
    pub read_distance: usize,
    pub write_distance: usize,
    pub cycles_before_tie: usize,
    pub maximum_number_of_tasks: usize,
}

/// A warrior with the program counters of its waiting tasks, first in line
/// first.
pub struct TaskQueue {
    pub warrior: Warrior,
    pub tasks: Seq<usize>,
}

/// The state of a match.
pub struct Machine {
    pub memory: Seq<CoreInstruction>,
    pub ring: Seq<TaskQueue>,
    pub cycles: nat,
}

/// What resolving an operand leaves behind: the memory after the operand's
/// side effect, and the cell it points to.
pub struct Resolved {
    pub memory: Seq<CoreInstruction>,
    pub pointer: int,
}

/// What executing an instruction asks for: the new content of the destination
/// cell, and up to two program counters to put in line, `next` before
/// `spawned`.
#[derive(Debug, Clone, Copy, PartialEq, Eq, Structural)]
pub struct Effect {
    pub cell: CoreInstruction,
    pub next: Option<usize>,
    pub spawned: Option<usize>,
}

/// What one cycle gives: the state after it, and whether the match is over.
pub struct Stepped {
    pub machine: Machine,
    pub over: bool,
}

impl Limits {
    /// The sizes with which a core can run: a core of at least one cell, and
    /// two windows that are neither empty nor wider than the core.
    pub open spec fn valid(self) -> bool {
        &&& 0 < self.core_size
        &&& 0 < self.read_distance <= self.core_size
        &&& 0 < self.write_distance <= self.core_size
    }

    /// Whether a core can run with these sizes.
    pub fn is_valid(&self) -> (valid: bool)
        ensures
            valid == self.valid(),
    {
        0 < self.core_size && 0 < self.read_distance && self.read_distance <= self.core_size && 0
            < self.write_distance && self.write_distance <= self.core_size
    }
}

/// The address that a raw pointer `ptr` folds to in a window of `limit` cells
/// of a core of `core_size` cells: offsets in the upper half of the window
/// land at the end of the core, the others stay where they are.
pub open spec fn fold_spec(ptr: int, limit: int, core_size: int) -> int {
    if ptr % limit > limit / 2 {
        ptr % limit + (core_size - limit)
    } else {
        ptr % limit
    }
}

/// `a - b` on the ring of `core_size` cells.
pub open spec fn subtract_spec(a: int, b: int, core_size: int) -> int {
    (a + core_size - b % core_size) % core_size
}

/// One less than `ptr` on a ring of `limit` cells.
pub open spec fn decrement_spec(ptr: int, limit: int) -> int {
    if ptr == 0 {
        limit - 1
    } else {
        ptr - 1
    }
}

/// A number of any sign as a cell count below `core_size`.
pub open spec fn in_bounds_spec(input: int, core_size: int) -> int {
    input % core_size
}

/// Every cell of a core of `core_size` cells holds addresses below `core_size`.
pub open spec fn memory_ok(memory: Seq<CoreInstruction>, core_size: int) -> bool {
    &&& memory.len() == core_size
    &&& forall|i: int|
        0 <= i < memory.len() ==> (#[trigger] memory[i]).addr_a < core_size && memory[i].addr_b
            < core_size
}

/// Every waiting task points into the core.
pub open spec fn ring_ok(ring: Seq<TaskQueue>, core_size: int) -> bool {
    forall|i: int, j: int|
        0 <= i < ring.len() && 0 <= j < ring[i].tasks.len() ==> (#[trigger] ring[i].tasks[j])
            < core_size
}

impl Machine {
    /// The state of a match in a core of `core_size` cells is sound.
    pub open spec fn ok(self, core_size: int) -> bool {
        &&& memory_ok(self.memory, core_size)
        &&& ring_ok(self.ring, core_size)
    }
}

impl CoreInstruction {
    /// The instruction as text, such as `MOV.I $0, $1`.
    pub fn to_string(&self) -> (text: String)
        ensures
            text@ == instruction_text_spec(
                self.opcode,
                self.modifier,
                self.mode_a,
                self.addr_a as int,
                self.mode_b,
                self.addr_b as int,
            ),
    {
        instruction_text(
            self.opcode,
            self.modifier,
            self.mode_a,
            self.addr_a as i128,
            self.mode_b,
            self.addr_b as i128,
        )
    }

    /// The same instruction with another A-address.
    pub open spec fn with_a(self, addr: int) -> CoreInstruction {
        CoreInstruction { addr_a: addr as usize, ..self }
    }

    /// The same instruction with another B-address.
    pub open spec fn with_b(self, addr: int) -> CoreInstruction {
        CoreInstruction { addr_b: addr as usize, ..self }
    }
}

/// Where an operand with mode `mode` and number `addr`, of the task at `pc`,
/// points, and what its side effect does to the memory.
///
/// Pre-decrement lowers the field of the cell in between before it is used,
/// post-increment raises it after; both fold the new field into the write
/// window.
pub open spec fn operand_spec(
    memory: Seq<CoreInstruction>,
    mode: AddressMode,
    addr: int,
    pc: int,
    l: Limits,
) -> Resolved {
    let n = l.core_size as int;
    let rd = l.read_distance as int;
    let wd = l.write_distance as int;
    let between = fold_spec(addr + pc, rd, n);
    let cell = memory[between];
    match mode {
        AddressMode::Immediate => Resolved { memory, pointer: pc },
        AddressMode::Direct => Resolved { memory, pointer: between },
        AddressMode::AFieldIndirect => Resolved {
            memory,
            pointer: fold_spec(between + cell.addr_a, rd, n),
        },
        AddressMode::BFieldIndirect => Resolved {
            memory,
            pointer: fold_spec(between + cell.addr_b, rd, n),
        },
        AddressMode::AFieldPredecrementIndirect => {
            let field = fold_spec(decrement_spec(cell.addr_a as int, n), wd, n);
            Resolved {
                memory: memory.update(between, cell.with_a(field)),
                pointer: fold_spec(between + field, rd, n),
            }
        },
        AddressMode::BFieldPredecrementIndirect => {
            let field = fold_spec(decrement_spec(cell.addr_b as int, n), wd, n);
            Resolved {
                memory: memory.update(between, cell.with_b(field)),
                pointer: fold_spec(between + field, rd, n),
            }
        },
        AddressMode::AFieldPostincrementIndirect => Resolved {
            memory: memory.update(between, cell.with_a(fold_spec(cell.addr_a + 1, wd, n))),
            pointer: fold_spec(between + cell.addr_a, rd, n),
        },
        AddressMode::BFieldPostincrementIndirect => Resolved {
            memory: memory.update(between, cell.with_b(fold_spec(cell.addr_b + 1, wd, n))),
            pointer: fold_spec(between + cell.addr_b, rd, n),
        },
    }
}

impl Modifier {
    /// Whether the destination's A-field takes part.
    pub open spec fn to_a(self) -> bool {
        !(self is B) && !(self is AB)
    }

    /// Whether the destination's B-field takes part.
    pub open spec fn to_b(self) -> bool {
        !(self is A) && !(self is BA)
    }

    /// The field of the source that meets the destination's A-field.
    pub open spec fn source_for_a(self, source: CoreInstruction) -> usize {
        if self is BA || self is X {
            source.addr_b
        } else {
            source.addr_a
        }
    }

    /// The field of the source that meets the destination's B-field.
    pub open spec fn source_for_b(self, source: CoreInstruction) -> usize {
        if self is AB || self is X {
            source.addr_a
        } else {
            source.addr_b
        }
    }

    /// Every field of `cell` that the modifier selects is zero.
    pub open spec fn all_zero(self, cell: CoreInstruction) -> bool {
        &&& self.to_a() ==> cell.addr_a == 0
        &&& self.to_b() ==> cell.addr_b == 0
    }

    /// Every field of `cell` that the modifier selects is other than zero.
    pub open spec fn all_nonzero(self, cell: CoreInstruction) -> bool {
        &&& self.to_a() ==> cell.addr_a != 0
        &&& self.to_b() ==> cell.addr_b != 0
    }

    /// The source and the destination are equal in what the modifier selects:
    /// for `I` as whole instructions.
    pub open spec fn equal(self, source: CoreInstruction, destination: CoreInstruction) -> bool {
        if self is I {
            source == destination
        } else {
            &&& self.to_a() ==> self.source_for_a(source) == destination.addr_a
            &&& self.to_b() ==> self.source_for_b(source) == destination.addr_b
        }
    }

    /// The source is less than the destination in every field that the
    /// modifier selects.
    pub open spec fn less(self, source: CoreInstruction, destination: CoreInstruction) -> bool {
        &&& self.to_a() ==> self.source_for_a(source) < destination.addr_a
        &&& self.to_b() ==> self.source_for_b(source) < destination.addr_b
    }
}

impl Opcode {
    /// Whether the opcode combines numbers: `ADD`, `SUB`, `MUL`, `DIV`, `MOD`.
    pub open spec fn is_arithmetic(self) -> bool {
        self is Add || self is Sub || self is Mul || self is Div || self is Mod
    }

    /// Whether the opcode divides: `DIV`, `MOD`.
    pub open spec fn divides(self) -> bool {
        self is Div || self is Mod
    }
}

/// The number that an arithmetic opcode leaves in a field of the destination
/// that held `destination`, met by `source`; for `DIV` and `MOD`, `source` is
/// not zero.
pub open spec fn combine_spec(op: Opcode, destination: int, source: int, l: Limits) -> int {
    let n = l.core_size as int;
    let wd = l.write_distance as int;
    match op {
        Opcode::Add => fold_spec(destination + source, wd, n),
        Opcode::Sub => fold_spec(subtract_spec(destination, source, n), wd, n),
        Opcode::Mul => fold_spec(destination * source, wd, n),
        Opcode::Div => fold_spec(destination / source, wd, n),
        Opcode::Mod => fold_spec(destination % source, wd, n),
        _ => destination,
    }
}

/// The destination after `MOV`.
pub open spec fn moved_spec(m: Modifier, source: CoreInstruction, destination: CoreInstruction)
    -> CoreInstruction {
    if m is I {
        source
    } else {
        CoreInstruction {
            addr_a: if m.to_a() {
                m.source_for_a(source)
            } else {
                destination.addr_a
            },
            addr_b: if m.to_b() {
                m.source_for_b(source)
            } else {
                destination.addr_b
            },
            ..destination
        }
    }
}

/// An arithmetic opcode would divide by zero in a field that the modifier
/// selects.
pub open spec fn divides_by_zero(op: Opcode, m: Modifier, source: CoreInstruction) -> bool {
    op.divides() && ((m.to_a() && m.source_for_a(source) == 0) || (m.to_b() && m.source_for_b(
        source,
    ) == 0))
}

/// The destination after an arithmetic opcode. A field whose divisor is zero
/// stays as it was.
pub open spec fn combined_spec(
    op: Opcode,
    m: Modifier,
    source: CoreInstruction,
    destination: CoreInstruction,
    l: Limits,
) -> CoreInstruction {
    CoreInstruction {
        addr_a: if m.to_a() && !(op.divides() && m.source_for_a(source) == 0) {
            combine_spec(op, destination.addr_a as int, m.source_for_a(source) as int, l) as usize
        } else {
            destination.addr_a
        },
        addr_b: if m.to_b() && !(op.divides() && m.source_for_b(source) == 0) {
            combine_spec(op, destination.addr_b as int, m.source_for_b(source) as int, l) as usize
        } else {
            destination.addr_b
        },
        ..destination
    }
}

/// The destination after `DJN` has counted its selected fields down.
pub open spec fn counted_down_spec(m: Modifier, destination: CoreInstruction, l: Limits)
    -> CoreInstruction {
    let n = l.core_size as int;
    let wd = l.write_distance as int;
    CoreInstruction {
        addr_a: if m.to_a() {
            fold_spec(decrement_spec(destination.addr_a as int, n), wd, n) as usize
        } else {
            destination.addr_a
        },
        addr_b: if m.to_b() {
            fold_spec(decrement_spec(destination.addr_b as int, n), wd, n) as usize
        } else {
            destination.addr_b
        },
        ..destination
    }
}

/// What the instruction `ir` of the task at `pc` does, given the source and
/// destination registers, the source pointer `sp`, and the number `waiting`
/// of tasks that stand in the warrior's queue behind the running one.
pub open spec fn execute_spec(
    ir: CoreInstruction,
    source: CoreInstruction,
    destination: CoreInstruction,
    sp: usize,
    pc: usize,
    waiting: int,
    l: Limits,
) -> Effect {
    let n = l.core_size as int;
    let m = ir.modifier;
    let next = ((pc + 1) % n) as usize;
    let skip = ((pc + 2) % n) as usize;
    let unchanged = Effect { cell: destination, next: Some(next), spawned: None };
    match ir.opcode {
        Opcode::Dat => Effect { cell: destination, next: None, spawned: None },
        Opcode::Mov => Effect { cell: moved_spec(m, source, destination), ..unchanged },
        Opcode::Add | Opcode::Sub | Opcode::Mul | Opcode::Div | Opcode::Mod => Effect {
            cell: combined_spec(ir.opcode, m, source, destination, l),
            next: if divides_by_zero(ir.opcode, m, source) {
                None
            } else {
                Some(next)
            },
            spawned: None,
        },
        Opcode::Jmp => Effect { next: Some(sp), ..unchanged },
        Opcode::Jmz => Effect {
            next: Some(
                if m.all_zero(destination) {
                    sp
                } else {
                    next
                },
            ),
            ..unchanged
        },
        Opcode::Jmn => Effect {
            next: Some(
                if m.all_nonzero(destination) {
                    sp
                } else {
                    next
                },
            ),
            ..unchanged
        },
        Opcode::Djn => {
            let cell = counted_down_spec(m, destination, l);
            Effect {
                cell,
                next: Some(
                    if m.all_nonzero(cell) {
                        sp
                    } else {
                        next
                    },
                ),
                spawned: None,
            }
        },
        Opcode::SkipEq => Effect {
            next: Some(
                if m.equal(source, destination) {
                    skip
                } else {
                    next
                },
            ),
            ..unchanged
        },
        Opcode::Sne => Effect {
            next: Some(
                if !m.equal(source, destination) {
                    skip
                } else {
                    next
                },
            ),
            ..unchanged
        },
        Opcode::Slt => Effect {
            next: Some(
                if m.less(source, destination) {
                    skip
                } else {
                    next
                },
            ),
            ..unchanged
        },
        Opcode::Spl => Effect {
            spawned: if waiting + 1 < l.maximum_number_of_tasks {
                Some(sp)
            } else {
                None
            },
            ..unchanged
        },
        Opcode::Nop => unchanged,
    }
}

impl Effect {
    /// The program counters the effect puts in line, in order.
    pub open spec fn enqueued(self) -> Seq<usize> {
        match (self.next, self.spawned) {
            (Some(a), Some(b)) => seq![a, b],
            (Some(a), None) => seq![a],
            (None, Some(b)) => seq![b],
            (None, None) => seq![],
        }
    }
}

/// The instruction that the task at `pc` runs.
pub open spec fn fetched_spec(memory: Seq<CoreInstruction>, pc: int, l: Limits) -> CoreInstruction {
    memory[fold_spec(pc, l.read_distance as int, l.core_size as int)]
}

/// One cycle of the match.
///
/// A match without warriors, or one that has used up its cycles, is over and
/// stays as it is. Otherwise the warrior at the front of the ring takes its
/// turn. With no task left it is dead: it leaves the ring, unless it is the
/// last one, with which the match is over. With a task, the instruction at
/// the task's program counter is fetched, its A operand is resolved and the
/// source register read, then its B operand and the destination register; the
/// instruction's effect is applied, the warrior goes to the back of the ring
/// and the cycle is counted.
pub open spec fn step_spec(m: Machine, l: Limits) -> Stepped {
    if m.ring.len() == 0 || m.cycles >= l.cycles_before_tie {
        Stepped { machine: m, over: true }
    } else if m.ring[0].tasks.len() == 0 {
        if m.ring.len() == 1 {
            Stepped { machine: m, over: true }
        } else {
            Stepped { machine: Machine { ring: m.ring.drop_first(), ..m }, over: false }
        }
    } else {
        let queue = m.ring[0];
        let pc = queue.tasks[0];
        let ir = fetched_spec(m.memory, pc as int, l);
        let a = operand_spec(m.memory, ir.mode_a, ir.addr_a as int, pc as int, l);
        let source = a.memory[a.pointer];
        let b = operand_spec(a.memory, ir.mode_b, ir.addr_b as int, pc as int, l);
        let destination = b.memory[b.pointer];
        let effect = execute_spec(
            ir,
            source,
            destination,
            a.pointer as usize,
            pc,
            queue.tasks.len() - 1,
            l,
        );
        let tasks = queue.tasks.drop_first() + effect.enqueued();
        Stepped {
            machine: Machine {
                memory: b.memory.update(b.pointer, effect.cell),
                ring: m.ring.drop_first().push(TaskQueue { warrior: queue.warrior, tasks }),
                cycles: m.cycles + 1,
            },
            over: m.cycles + 1 >= l.cycles_before_tie,
        }
    }
}

impl Modifier {
    /// Whether the destination's A-field takes part.
    pub fn writes_a(&self) -> (yes: bool)
        ensures
            yes == self.to_a(),
    {
        match self {
            Modifier::B | Modifier::AB => false,
            _ => true,
        }
    }

    /// Whether the destination's B-field takes part.
    pub fn writes_b(&self) -> (yes: bool)
        ensures
            yes == self.to_b(),
    {
        match self {
            Modifier::A | Modifier::BA => false,
            _ => true,
        }
    }

    /// The field of the source that meets the destination's A-field.
    pub fn field_for_a(&self, source: &CoreInstruction) -> (field: usize)
        ensures
            field == self.source_for_a(*source),
    {
        match self {
            Modifier::BA | Modifier::X => source.addr_b,
            _ => source.addr_a,
        }
    }

    /// The field of the source that meets the destination's B-field.
    pub fn field_for_b(&self, source: &CoreInstruction) -> (field: usize)
        ensures
            field == self.source_for_b(*source),
    {
        match self {
            Modifier::AB | Modifier::X => source.addr_a,
            _ => source.addr_b,
        }
    }

    /// Whether every field of `cell` that the modifier selects is zero.
    pub fn selects_zero(&self, cell: &CoreInstruction) -> (yes: bool)
        ensures
            yes == self.all_zero(*cell),
    {
        (!self.writes_a() || cell.addr_a == 0) && (!self.writes_b() || cell.addr_b == 0)
    }

    /// Whether every field of `cell` that the modifier selects is other than
    /// zero.
    pub fn selects_nonzero(&self, cell: &CoreInstruction) -> (yes: bool)
        ensures
            yes == self.all_nonzero(*cell),
    {
        (!self.writes_a() || cell.addr_a != 0) && (!self.writes_b() || cell.addr_b != 0)
    }

    /// Whether the source and the destination are equal in what the modifier
    /// selects.
    pub fn selects_equal(&self, source: &CoreInstruction, destination: &CoreInstruction) -> (yes:
        bool)
        ensures
            yes == self.equal(*source, *destination),
    {
        match self {
            Modifier::I => *source == *destination,
            _ => (!self.writes_a() || self.field_for_a(source) == destination.addr_a) && (
            !self.writes_b() || self.field_for_b(source) == destination.addr_b),
        }
    }

    /// Whether the source is less than the destination in every field that
    /// the modifier selects.
    pub fn selects_less(&self, source: &CoreInstruction, destination: &CoreInstruction) -> (yes:
        bool)
        ensures
            yes == self.less(*source, *destination),
    {
        (!self.writes_a() || self.field_for_a(source) < destination.addr_a) && (!self.writes_b()
            || self.field_for_b(source) < destination.addr_b)
    }
}

/// Folds a pointer of any size into the window of `limit` cells.
pub fn fold_wide(ptr: u128, limit: usize, core_size: usize) -> (result: usize)
    requires
        0 < limit <= core_size,
    ensures
        result == fold_spec(ptr as int, limit as int, core_size as int),
        result < core_size,
{
    let mut result: usize = (ptr % (limit as u128)) as usize;
    if result > limit / 2 {
        result += core_size - limit;
    }
    result
}

/// One less than `ptr` on a ring of `limit` cells.
pub fn decrement(ptr: usize, limit: usize) -> (result: usize)
    requires
        0 < limit,
    ensures
        result == decrement_spec(ptr as int, limit as int),
        ptr < limit ==> result < limit,
{
    if ptr == 0 {
        limit - 1
    } else {
        ptr - 1
    }
}

/// `a - b` on the ring of `core_size` cells.
pub fn subtract_wrapping(a: usize, b: usize, core_size: usize) -> (result: usize)
    requires
        0 < core_size,
    ensures
        result == subtract_spec(a as int, b as int, core_size as int),
        result < core_size,
{
    let n = core_size as u128;
    ((a as u128 + n - (b as u128) % n) % n) as usize
}

/// The number that an arithmetic opcode leaves in a field of the destination.
pub fn combine(op: Opcode, destination: usize, source: usize, l: &Limits) -> (result: usize)
    requires
        l.valid(),
        op.is_arithmetic(),
        op.divides() ==> source != 0,
    ensures
        result == combine_spec(op, destination as int, source as int, *l),
        result < l.core_size,
{
    let n = l.core_size;
    let wd = l.write_distance;
    match op {
        Opcode::Add => fold_wide(destination as u128 + source as u128, wd, n),
        Opcode::Sub => fold_wide(subtract_wrapping(destination, source, n) as u128, wd, n),
        Opcode::Mul => {
            assert(destination * source <= u128::MAX) by (nonlinear_arith)
                requires
                    destination <= 0xffff_ffff_ffff_ffff,
                    source <= 0xffff_ffff_ffff_ffff,
            ;
            fold_wide(destination as u128 * source as u128, wd, n)
        },
        Opcode::Div => fold_wide((destination / source) as u128, wd, n),
        _ => fold_wide((destination % source) as u128, wd, n),
    }
}

/// The destination after `MOV`.
pub fn moved(m: Modifier, source: &CoreInstruction, destination: &CoreInstruction) -> (cell:
    CoreInstruction)
    ensures
        cell == moved_spec(m, *source, *destination),
{
    match m {
        Modifier::I => *source,
        _ => CoreInstruction {
            opcode: destination.opcode,
            modifier: destination.modifier,
            mode_a: destination.mode_a,
            addr_a: if m.writes_a() {
                m.field_for_a(source)
            } else {
                destination.addr_a
            },
            mode_b: destination.mode_b,
            addr_b: if m.writes_b() {
                m.field_for_b(source)
            } else {
                destination.addr_b
            },
        },
    }
}

/// The destination after an arithmetic opcode.
pub fn combined(
    op: Opcode,
    m: Modifier,
    source: &CoreInstruction,
    destination: &CoreInstruction,
    l: &Limits,
) -> (cell: CoreInstruction)
    requires
        l.valid(),
        op.is_arithmetic(),
        destination.addr_a < l.core_size,
        destination.addr_b < l.core_size,
    ensures
        cell == combined_spec(op, m, *source, *destination, *l),
        cell.addr_a < l.core_size,
        cell.addr_b < l.core_size,
{
    let divides = match op {
        Opcode::Div | Opcode::Mod => true,
        _ => false,
    };
    let for_a = m.field_for_a(source);
    let for_b = m.field_for_b(source);
    CoreInstruction {
        opcode: destination.opcode,
        modifier: destination.modifier,
        mode_a: destination.mode_a,
        addr_a: if m.writes_a() && !(divides && for_a == 0) {
            combine(op, destination.addr_a, for_a, l)
        } else {
            destination.addr_a
        },
        mode_b: destination.mode_b,
        addr_b: if m.writes_b() && !(divides && for_b == 0) {
            combine(op, destination.addr_b, for_b, l)
        } else {
            destination.addr_b
        },
    }
}

/// The destination after `DJN` has counted its selected fields down.
pub fn counted_down(m: Modifier, destination: &CoreInstruction, l: &Limits) -> (cell:
    CoreInstruction)
    requires
        l.valid(),
        destination.addr_a < l.core_size,
        destination.addr_b < l.core_size,
    ensures
        cell == counted_down_spec(m, *destination, *l),
        cell.addr_a < l.core_size,
        cell.addr_b < l.core_size,
{
    let n = l.core_size;
    let wd = l.write_distance;
    CoreInstruction {
        opcode: destination.opcode,
        modifier: destination.modifier,
        mode_a: destination.mode_a,
        addr_a: if m.writes_a() {
            fold_wide(decrement(destination.addr_a, n) as u128, wd, n)
        } else {
            destination.addr_a
        },
        mode_b: destination.mode_b,
        addr_b: if m.writes_b() {
            fold_wide(decrement(destination.addr_b, n) as u128, wd, n)
        } else {
            destination.addr_b
        },
    }
}

/// What the instruction `ir` of the task at `pc` does.
pub fn execute(
    ir: &CoreInstruction,
    source: &CoreInstruction,
    destination: &CoreInstruction,
    sp: usize,
    pc: usize,
    waiting: usize,
    l: &Limits,
) -> (effect: Effect)
    requires
        l.valid(),
        sp < l.core_size,
        pc < l.core_size,
        source.addr_a < l.core_size,
        source.addr_b < l.core_size,
        destination.addr_a < l.core_size,
        destination.addr_b < l.core_size,
    ensures
        effect == execute_spec(*ir, *source, *destination, sp, pc, waiting as int, *l),
        effect.cell.addr_a < l.core_size,
        effect.cell.addr_b < l.core_size,
        effect.next matches Some(p) ==> p < l.core_size,
        effect.spawned matches Some(p) ==> p < l.core_size,
{
    let n = l.core_size;
    let m = ir.modifier;
    let next = (pc + 1) % n;
    let skip = ((pc as u128 + 2) % (n as u128)) as usize;
    match ir.opcode {
        Opcode::Dat => Effect { cell: *destination, next: None, spawned: None },
        Opcode::Mov => Effect {
            cell: moved(m, source, destination),
            next: Some(next),
            spawned: None,
        },
        Opcode::Add | Opcode::Sub | Opcode::Mul => Effect {
            cell: combined(ir.opcode, m, source, destination, l),
            next: Some(next),
            spawned: None,
        },
        Opcode::Div | Opcode::Mod => {
            let by_zero = (m.writes_a() && m.field_for_a(source) == 0) || (m.writes_b()
                && m.field_for_b(source) == 0);
            Effect {
                cell: combined(ir.opcode, m, source, destination, l),
                next: if by_zero {
                    None
                } else {
                    Some(next)
                },
                spawned: None,
            }
        },
        Opcode::Jmp => Effect { cell: *destination, next: Some(sp), spawned: None },
        Opcode::Jmz => Effect {
            cell: *destination,
            next: Some(
                if m.selects_zero(destination) {
                    sp
                } else {
                    next
                },
            ),
            spawned: None,
        },
        Opcode::Jmn => Effect {
            cell: *destination,
            next: Some(
                if m.selects_nonzero(destination) {
                    sp
                } else {
                    next
                },
            ),
            spawned: None,
        },
        Opcode::Djn => {
            let cell = counted_down(m, destination, l);
            Effect {
                cell,
                next: Some(
                    if m.selects_nonzero(&cell) {
                        sp
                    } else {
                        next
                    },
                ),
                spawned: None,
            }
        },
        Opcode::SkipEq => Effect {
            cell: *destination,
            next: Some(
                if m.selects_equal(source, destination) {
                    skip
                } else {
                    next
                },
            ),
            spawned: None,
        },
        Opcode::Sne => Effect {
            cell: *destination,
            next: Some(
                if !m.selects_equal(source, destination) {
                    skip
                } else {
                    next
                },
            ),
            spawned: None,
        },
        Opcode::Slt => Effect {
            cell: *destination,
            next: Some(
                if m.selects_less(source, destination) {
                    skip
                } else {
                    next
                },
            ),
            spawned: None,
        },
        Opcode::Spl => Effect {
            cell: *destination,
            next: Some(next),
            spawned: if l.maximum_number_of_tasks > 0 && waiting < l.maximum_number_of_tasks
                - 1 {
                Some(sp)
            } else {
                None
            },
        },
        Opcode::Nop => Effect { cell: *destination, next: Some(next), spawned: None },
    }
}

/// How far a match is from its end at most: the cycles left and the warriors
/// in the ring.
pub open spec fn distance_spec(m: Machine, l: Limits) -> nat {
    let cycles_left: nat = if m.cycles < l.cycles_before_tie {
        (l.cycles_before_tie - m.cycles) as nat
    } else {
        0
    };
    cycles_left + m.ring.len()
}

/// Every cycle that does not end the match brings it closer to its end.
pub proof fn lemma_step_decreases(m: Machine, l: Limits)
    ensures
        !step_spec(m, l).over ==> distance_spec(step_spec(m, l).machine, l) < distance_spec(m, l),
{
}

/// The state in which a match that starts in `m` ends: cycle follows cycle
/// until one ends the match. Every cycle that does not end the match brings
/// it closer to its end, so the match does end.
pub open spec fn run_spec(m: Machine, l: Limits) -> Machine
    decreases distance_spec(m, l),
{
    let stepped = step_spec(m, l);
    if stepped.over || distance_spec(stepped.machine, l) >= distance_spec(m, l) {
        stepped.machine
    } else {
        run_spec(stepped.machine, l)
    }
}

/// A match that is not over after a cycle ends where the match from the
/// next state ends.
pub proof fn lemma_run_unfolds(m: Machine, l: Limits)
    ensures
        run_spec(m, l) == if step_spec(m, l).over {
            step_spec(m, l).machine
        } else {
            run_spec(step_spec(m, l).machine, l)
        },
{
    lemma_step_decreases(m, l);
}

/// A match that has run to its end is over and stays as it is: one more
/// cycle says so and changes nothing.
pub proof fn lemma_run_ends_the_match(m: Machine, l: Limits)
    ensures
        step_spec(run_spec(m, l), l).over,
        step_spec(run_spec(m, l), l).machine == run_spec(m, l),
    decreases distance_spec(m, l),
{
    lemma_step_decreases(m, l);
    let stepped = step_spec(m, l);
    if !stepped.over {
        lemma_run_ends_the_match(stepped.machine, l);
    } else if m.ring.len() > 0 && m.cycles < l.cycles_before_tie && m.ring[0].tasks.len() > 0 {
        assert(stepped.machine.cycles >= l.cycles_before_tie);
    }
}

/// For any `x`, folding into a window as wide as the core is `x` modulo the
/// core's size.
pub proof fn lemma_fold_whole_core(x: int, n: int)
    requires
        0 < n,
    ensures
        fold_spec(x, n, n) == x % n,
{
}

/// Whether the cycle that is due runs a task.
pub open spec fn runs_task(m: Machine, l: Limits) -> bool {
    m.ring.len() > 0 && m.cycles < l.cycles_before_tie && m.ring[0].tasks.len() > 0
}

/// The place in the ring, after one cycle, of the warrior that stands at
/// place `p` before it; -1 if the cycle takes the warrior out of the ring.
///
/// The warrior whose turn it is goes to the back of the ring, or leaves it if
/// it is dead and not the last; the others move up by one. A cycle that
/// changes nothing leaves everyone in place.
pub open spec fn place_after_step(m: Machine, l: Limits, p: int) -> int {
    if m.ring.len() == 0 || m.cycles >= l.cycles_before_tie {
        p
    } else if m.ring[0].tasks.len() == 0 {
        if m.ring.len() == 1 {
            p
        } else {
            p - 1
        }
    } else if p == 0 {
        m.ring.len() - 1
    } else {
        p - 1
    }
}

/// The number of tasks that the warrior at place `p` has waiting after `k`
/// cycles, if it is still in the ring then.
pub open spec fn tasks_after(m: Machine, l: Limits, p: int, k: nat) -> Option<nat>
    decreases k,
{
    if p < 0 || p >= m.ring.len() {
        None
    } else if k == 0 {
        Some(m.ring[p].tasks.len())
    } else {
        tasks_after(step_spec(m, l).machine, l, place_after_step(m, l, p), (k - 1) as nat)
    }
}

/// Whether the warrior at place `p` runs an `SPL` in one of the next `k`
/// cycles.
pub open spec fn splits_within(m: Machine, l: Limits, p: int, k: nat) -> bool
    decreases k,
{
    if p < 0 || p >= m.ring.len() || k == 0 {
        false
    } else {
        (p == 0 && runs_task(m, l) && fetched_spec(m.memory, m.ring[0].tasks[0] as int, l).opcode
            is Spl) || splits_within(
            step_spec(m, l).machine,
            l,
            place_after_step(m, l, p),
            (k - 1) as nat,
        )
    }
}

/// A warrior whose running instruction is not `SPL` has after its turn at
/// most as many tasks as before: a single task stays single or dies.
pub proof fn lemma_only_split_adds_tasks(m: Machine, l: Limits)
    requires
        runs_task(m, l),
        !(fetched_spec(m.memory, m.ring[0].tasks[0] as int, l).opcode is Spl),
    ensures
        ({
            let after = step_spec(m, l).machine.ring;
            let place = place_after_step(m, l, 0);
            &&& after.len() == m.ring.len()
            &&& 0 <= place < after.len()
            &&& after[place].warrior == m.ring[0].warrior
            &&& after[place].tasks.len() <= m.ring[0].tasks.len()
            &&& after[place].tasks.len() + 1 >= m.ring[0].tasks.len()
        }),
{
}

/// A cycle leaves the queues of the warriors that do not take the turn as
/// they are.
pub proof fn lemma_turn_leaves_others(m: Machine, l: Limits, p: int)
    requires
        1 <= p < m.ring.len(),
    ensures
        ({
            let after = step_spec(m, l).machine.ring;
            let place = place_after_step(m, l, p);
            &&& 0 <= place < after.len()
            &&& after[place] == m.ring[p]
        }),
{
}

/// A warrior that runs no `SPL` gains no task: after any number of cycles
/// without one it has at most as many tasks waiting as before. So a warrior
/// with one task keeps exactly one until it has none.
pub proof fn lemma_no_split_no_new_task(m: Machine, l: Limits, p: int, k: nat)
    requires
        0 <= p < m.ring.len(),
        !splits_within(m, l, p, k),
    ensures
        tasks_after(m, l, p, k) matches Some(tasks) ==> tasks <= m.ring[p].tasks.len(),
    decreases k,
{
    if k > 0 {
        let next = step_spec(m, l).machine;
        let place = place_after_step(m, l, p);
        if 0 <= place < next.ring.len() {
            lemma_no_split_no_new_task(next, l, place, (k - 1) as nat);
            assert(next.ring[place].tasks.len() <= m.ring[p].tasks.len());
        }
    }
}

/// A folded pointer lies in the core.
pub proof fn lemma_fold_in_core(ptr: int, limit: int, n: int)
    requires
        0 < limit <= n,
    ensures
        0 <= fold_spec(ptr, limit, n) < n,
{
}

/// Resolving an operand keeps the memory sound and points into the core.
pub proof fn lemma_operand_ok(
    memory: Seq<CoreInstruction>,
    mode: AddressMode,
    addr: int,
    pc: int,
    l: Limits,
)
    requires
        l.valid(),
        memory_ok(memory, l.core_size as int),
        0 <= pc < l.core_size,
    ensures
        memory_ok(operand_spec(memory, mode, addr, pc, l).memory, l.core_size as int),
        0 <= operand_spec(memory, mode, addr, pc, l).pointer < l.core_size,
{
    let n = l.core_size as int;
    let between = fold_spec(addr + pc, l.read_distance as int, n);
    lemma_fold_in_core(addr + pc, l.read_distance as int, n);
    let cell = memory[between];
    lemma_fold_in_core(between + cell.addr_a, l.read_distance as int, n);
    lemma_fold_in_core(between + cell.addr_b, l.read_distance as int, n);
    lemma_fold_in_core(decrement_spec(cell.addr_a as int, n), l.write_distance as int, n);
    lemma_fold_in_core(decrement_spec(cell.addr_b as int, n), l.write_distance as int, n);
    lemma_fold_in_core(cell.addr_a + 1, l.write_distance as int, n);
    lemma_fold_in_core(cell.addr_b + 1, l.write_distance as int, n);
    let field_a = fold_spec(decrement_spec(cell.addr_a as int, n), l.write_distance as int, n);
    let field_b = fold_spec(decrement_spec(cell.addr_b as int, n), l.write_distance as int, n);
    lemma_fold_in_core(between + field_a, l.read_distance as int, n);
    lemma_fold_in_core(between + field_b, l.read_distance as int, n);
}

/// An arithmetic opcode leaves a number below the core's size.
pub proof fn lemma_combine_ok(op: Opcode, destination: int, source: int, l: Limits)
    requires
        l.valid(),
        op.is_arithmetic(),
    ensures
        0 <= combine_spec(op, destination, source, l) < l.core_size,
{
    let n = l.core_size as int;
    let wd = l.write_distance as int;
    match op {
        Opcode::Add => lemma_fold_in_core(destination + source, wd, n),
        Opcode::Sub => lemma_fold_in_core(subtract_spec(destination, source, n), wd, n),
        Opcode::Mul => lemma_fold_in_core(destination * source, wd, n),
        Opcode::Div => lemma_fold_in_core(destination / source, wd, n),
        Opcode::Mod => lemma_fold_in_core(destination % source, wd, n),
        _ => {},
    }
}

/// The destination after an arithmetic opcode holds addresses below the
/// core's size.
pub proof fn lemma_combined_ok(
    op: Opcode,
    m: Modifier,
    source: CoreInstruction,
    destination: CoreInstruction,
    l: Limits,
)
    requires
        l.valid(),
        op.is_arithmetic(),
        destination.addr_a < l.core_size,
        destination.addr_b < l.core_size,
    ensures
        combined_spec(op, m, source, destination, l).addr_a < l.core_size,
        combined_spec(op, m, source, destination, l).addr_b < l.core_size,
{
    lemma_combine_ok(op, destination.addr_a as int, m.source_for_a(source) as int, l);
    lemma_combine_ok(op, destination.addr_b as int, m.source_for_b(source) as int, l);
}

/// The destination after `DJN` holds addresses below the core's size.
pub proof fn lemma_counted_down_ok(m: Modifier, destination: CoreInstruction, l: Limits)
    requires
        l.valid(),
        destination.addr_a < l.core_size,
        destination.addr_b < l.core_size,
    ensures
        counted_down_spec(m, destination, l).addr_a < l.core_size,
        counted_down_spec(m, destination, l).addr_b < l.core_size,
{
    let n = l.core_size as int;
    let wd = l.write_distance as int;
    lemma_fold_in_core(decrement_spec(destination.addr_a as int, n), wd, n);
    lemma_fold_in_core(decrement_spec(destination.addr_b as int, n), wd, n);
}

/// What an instruction does stays in the core: the addresses of the cell it
/// writes and the program counters it puts in line.
pub proof fn lemma_execute_ok(
    ir: CoreInstruction,
    source: CoreInstruction,
    destination: CoreInstruction,
    sp: usize,
    pc: usize,
    waiting: int,
    l: Limits,
)
    requires
        l.valid(),
        sp < l.core_size,
        pc < l.core_size,
        source.addr_a < l.core_size,
        source.addr_b < l.core_size,
        destination.addr_a < l.core_size,
        destination.addr_b < l.core_size,
    ensures
        ({
            let effect = execute_spec(ir, source, destination, sp, pc, waiting, l);
            &&& effect.cell.addr_a < l.core_size
            &&& effect.cell.addr_b < l.core_size
            &&& forall|i: int|
                0 <= i < effect.enqueued().len() ==> (#[trigger] effect.enqueued()[i])
                    < l.core_size
        }),
{
    if ir.opcode.is_arithmetic() {
        lemma_combined_ok(ir.opcode, ir.modifier, source, destination, l);
    }
    lemma_counted_down_ok(ir.modifier, destination, l);
}

/// Every cycle keeps the state sound: every address in memory and every
/// program counter in a queue stays below the core's size.
pub proof fn lemma_step_keeps_ok(m: Machine, l: Limits)
    requires
        l.valid(),
        m.ok(l.core_size as int),
    ensures
        step_spec(m, l).machine.ok(l.core_size as int),
{
    let n = l.core_size as int;
    if m.ring.len() == 0 || m.cycles >= l.cycles_before_tie {
    } else if m.ring[0].tasks.len() == 0 {
        if m.ring.len() > 1 {
            let ring = m.ring.drop_first();
            assert forall|i: int, j: int|
                0 <= i < ring.len() && 0 <= j < ring[i].tasks.len() implies (#[trigger] ring[i].tasks[j])
                < n by {
                assert(ring[i] == m.ring[i + 1]);
            }
        }
    } else {
        let queue = m.ring[0];
        let pc = queue.tasks[0];
        assert(pc < n);
        lemma_fold_in_core(pc as int, l.read_distance as int, n);
        let ir = fetched_spec(m.memory, pc as int, l);
        lemma_operand_ok(m.memory, ir.mode_a, ir.addr_a as int, pc as int, l);
        let a = operand_spec(m.memory, ir.mode_a, ir.addr_a as int, pc as int, l);
        let source = a.memory[a.pointer];
        lemma_operand_ok(a.memory, ir.mode_b, ir.addr_b as int, pc as int, l);
        let b = operand_spec(a.memory, ir.mode_b, ir.addr_b as int, pc as int, l);
        let destination = b.memory[b.pointer];
        lemma_execute_ok(
            ir,
            source,
            destination,
            a.pointer as usize,
            pc,
            queue.tasks.len() - 1,
            l,
        );
        let effect = execute_spec(
            ir,
            source,
            destination,
            a.pointer as usize,
            pc,
            queue.tasks.len() - 1,
            l,
        );
        let tasks = queue.tasks.drop_first() + effect.enqueued();
        let ring = m.ring.drop_first().push(TaskQueue { warrior: queue.warrior, tasks });
        assert forall|i: int, j: int|
            0 <= i < ring.len() && 0 <= j < ring[i].tasks.len() implies (#[trigger] ring[i].tasks[j])
            < n by {
            if i < ring.len() - 1 {
                assert(ring[i] == m.ring[i + 1]);
            } else {
                if j < queue.tasks.len() - 1 {
                    assert(tasks[j] == queue.tasks[j + 1]);
                } else {
                    assert(tasks[j] == effect.enqueued()[j - (queue.tasks.len() - 1)]);
                }
            }
        }
    }
}

} // verus!
