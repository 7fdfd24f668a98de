//! The program image: sixteen memory cells and a write cursor.
//!
//! An image starts with `RawConstant(0)` in every cell and the cursor at
//! cell 0. An instruction is placed at the cursor, which then moves on by
//! one; a data directive is placed at its own address, as a `RawConstant`,
//! and leaves the cursor alone. The last write to a cell wins.

use crate::error::{AsmError, ErrorModel};
use crate::isa::{Instruction, MEMORY_CELLS};
use vstd::prelude::*;

verus! {

/// The mathematical value of a [`ProgramImage`].
pub struct ImageModel {
    /// What each cell holds, in cell order.
    pub cells: Seq<Instruction>,
    /// The cell that the next instruction is placed in.
    pub cursor: nat,
}

/// What placing `instruction` leaves in the cell it is written to.
pub open spec fn stored(instruction: Instruction) -> Instruction {
    match instruction {
        Instruction::DefineByte(_, value) => Instruction::RawConstant(value),
        _ => instruction,
    }
}

/// How many of `program` are placed at the cursor: all but the directives.
pub open spec fn sequential_count(program: Seq<Instruction>) -> nat
    decreases program.len(),
{
    if program.len() == 0 {
        0
    } else if program.last().is_directive() {
        sequential_count(program.drop_last())
    } else {
        sequential_count(program.drop_last()) + 1
    }
}

/// True when every data directive of `program` names one of the sixteen
/// cells.
pub open spec fn directives_in_range(program: Seq<Instruction>) -> bool {
    forall|i: int|
        0 <= i < program.len() ==> (#[trigger] program[i] matches Instruction::DefineByte(
            address,
            _,
        ) ==> address.0 < MEMORY_CELLS)
}

/// The cell that the instruction at index `i` of `program` is written to:
/// its own address for a directive, and else the number of instructions
/// placed at the cursor before it.
pub open spec fn target(program: Seq<Instruction>, i: int) -> int {
    match program[i] {
        Instruction::DefineByte(address, _) => address.0 as int,
        _ => sequential_count(program.take(i)) as int,
    }
}

impl ImageModel {
    /// True of an image with sixteen cells, none of which holds a
    /// directive, and a cursor that is at most 16.
    pub open spec fn wf(self) -> bool {
        &&& self.cells.len() == MEMORY_CELLS
        &&& self.cursor <= MEMORY_CELLS
        &&& forall|i: int| 0 <= i < self.cells.len() ==> (#[trigger] self.cells[i]).is_resident()
    }

    /// The image that assembly starts from.
    pub open spec fn blank() -> ImageModel {
        ImageModel {
            cells: Seq::new(MEMORY_CELLS as nat, |i: int| Instruction::RawConstant(0)),
            cursor: 0,
        }
    }

    /// The image after `instruction` is placed, or the reason why it cannot
    /// be placed.
    pub open spec fn place(self, instruction: Instruction) -> Result<ImageModel, ErrorModel> {
        match instruction {
            Instruction::DefineByte(address, value) => if address.0 < MEMORY_CELLS {
                Ok(
                    ImageModel {
                        cells: self.cells.update(address.0 as int, Instruction::RawConstant(value)),
                        cursor: self.cursor,
                    },
                )
            } else {
                Err(ErrorModel::DataOutOfRange(address))
            },
            _ => if self.cursor < MEMORY_CELLS {
                Ok(
                    ImageModel {
                        cells: self.cells.update(self.cursor as int, instruction),
                        cursor: self.cursor + 1,
                    },
                )
            } else {
                Err(ErrorModel::MemoryOverflow)
            },
        }
    }

    /// The image after `program` is placed, one instruction after the
    /// other, or the first reason why one of them cannot be placed.
    pub open spec fn place_all(self, program: Seq<Instruction>) -> Result<ImageModel, ErrorModel>
        decreases program.len(),
    {
        if program.len() == 0 {
            Ok(self)
        } else {
            match self.place_all(program.drop_last()) {
                Ok(image) => image.place(program.last()),
                Err(error) => Err(error),
            }
        }
    }
}

/// Placing an instruction keeps an image well formed and never moves the
/// cursor back; a directive does not move it at all.
pub proof fn lemma_place_keeps_invariant(image: ImageModel, instruction: Instruction)
    requires
        image.wf(),
    ensures
        image.place(instruction) matches Ok(after) ==> {
            &&& after.wf()
            &&& image.cursor <= after.cursor
            &&& instruction.is_directive() ==> after.cursor == image.cursor
            &&& !instruction.is_directive() ==> after.cursor == image.cursor + 1
        },
{
}

/// A program can be placed into a blank image exactly when each of its
/// data directives names one of the sixteen cells and at most sixteen of
/// its instructions go to the cursor. The cursor then stands behind the last
/// of these. With every directive in range, a seventeenth instruction for the
/// cursor is refused as a memory overflow.
pub proof fn lemma_placement(program: Seq<Instruction>)
    ensures
        ImageModel::blank().place_all(program) is Ok <==> directives_in_range(program)
            && sequential_count(program) <= MEMORY_CELLS,
        ImageModel::blank().place_all(program) matches Ok(image) ==> image.wf() && image.cursor
            == sequential_count(program),
        directives_in_range(program) && sequential_count(program) > MEMORY_CELLS
            ==> ImageModel::blank().place_all(program) == Err::<ImageModel, ErrorModel>(
            ErrorModel::MemoryOverflow,
        ),
    decreases program.len(),
{
    if program.len() > 0 {
        let before = program.drop_last();
        let last = program.last();
        lemma_placement(before);
        assert forall|i: int| 0 <= i < before.len() implies #[trigger] before[i] == program[i] by {}
        if directives_in_range(program) {
            assert forall|i: int| 0 <= i < before.len() implies (#[trigger] before[i] matches Instruction::DefineByte(
                address,
                _,
            ) ==> address.0 < MEMORY_CELLS) by {
                assert(before[i] == program[i]);
            }
            assert(program[program.len() - 1] == last);
        }
        if let Ok(image) = ImageModel::blank().place_all(before) {
            lemma_place_keeps_invariant(image, last);
            if image.place(last) is Ok {
                assert forall|i: int| 0 <= i < program.len() implies (#[trigger] program[i] matches Instruction::DefineByte(
                    address,
                    _,
                ) ==> address.0 < MEMORY_CELLS) by {
                    if i < before.len() {
                        assert(before[i] == program[i]);
                    }
                }
            }
        }
    }
}

/// The index of the last instruction of `program` that is written to
/// `cell`, if there is one.
pub open spec fn last_write(program: Seq<Instruction>, cell: int) -> Option<int>
    decreases program.len(),
{
    if program.len() == 0 {
        None
    } else if target(program, program.len() - 1) == cell {
        Some(program.len() - 1)
    } else {
        last_write(program.drop_last(), cell)
    }
}

/// An instruction is written to the same cell whether or not the program
/// goes on after it.
pub proof fn lemma_target_of_prefix(program: Seq<Instruction>, i: int)
    requires
        0 <= i < program.len() - 1,
    ensures
        target(program.drop_last(), i) == target(program, i),
{
    assert(program.drop_last()[i] == program[i]);
    assert(program.drop_last().take(i) == program.take(i));
}

/// `last_write` gives an instruction that is written to the cell and that
/// no write to the cell follows, or `None` when nothing is written to the
/// cell.
pub proof fn lemma_last_write(program: Seq<Instruction>, cell: int)
    ensures
        match last_write(program, cell) {
            Some(i) => {
                &&& 0 <= i < program.len()
                &&& target(program, i) == cell
                &&& forall|j: int| i < j < program.len() ==> #[trigger] target(program, j) != cell
            },
            None => forall|j: int| 0 <= j < program.len() ==> #[trigger] target(program, j) != cell,
        },
    decreases program.len(),
{
    if program.len() > 0 && target(program, program.len() - 1) != cell {
        let before = program.drop_last();
        lemma_last_write(before, cell);
        assert forall|j: int| 0 <= j < before.len() implies #[trigger] target(program, j)
            == target(before, j) by {
            lemma_target_of_prefix(program, j);
        }
    }
}

/// Once a program is placed into a blank image, a cell holds what the last
/// write to it left there, and `RawConstant(0)` if there was none.
pub proof fn lemma_cell_holds_last_write(program: Seq<Instruction>, cell: int)
    requires
        ImageModel::blank().place_all(program) is Ok,
        0 <= cell < MEMORY_CELLS,
    ensures
        (ImageModel::blank().place_all(program)->Ok_0).cells[cell] == (match last_write(
            program,
            cell,
        ) {
            Some(i) => stored(program[i]),
            None => Instruction::RawConstant(0),
        }),
    decreases program.len(),
{
    if program.len() > 0 {
        let n = program.len() - 1;
        let before = program.drop_last();
        let earlier = ImageModel::blank().place_all(before)->Ok_0;
        lemma_cell_holds_last_write(before, cell);
        lemma_placement(before);
        lemma_last_write(before, cell);
        assert(program.take(n) == before);
        if let Some(i) = last_write(before, cell) {
            assert(before[i] == program[i]);
        }
    }
}

/// The last write to a cell wins: once a program is placed into a blank
/// image, a cell that none of its instructions was written to still holds
/// `RawConstant(0)`, and any other cell holds what the last instruction
/// written to it left there, be it a directive or not.
pub proof fn lemma_last_write_wins(program: Seq<Instruction>, cell: int)
    requires
        ImageModel::blank().place_all(program) is Ok,
        0 <= cell < MEMORY_CELLS,
    ensures
        ({
            let image = ImageModel::blank().place_all(program)->Ok_0;
            &&& (forall|i: int| 0 <= i < program.len() ==> #[trigger] target(program, i) != cell)
                ==> image.cells[cell] == Instruction::RawConstant(0)
            &&& forall|i: int|
                0 <= i < program.len() && #[trigger] target(program, i) == cell && (forall|j: int|
                    i < j < program.len() ==> #[trigger] target(program, j) != cell)
                    ==> image.cells[cell] == stored(program[i])
        }),
{
    lemma_cell_holds_last_write(program, cell);
    lemma_last_write(program, cell);
}

/// The sixteen memory cells of a program under assembly, with the cursor
/// at which the next instruction is placed.
pub struct ProgramImage {
    cells: [Instruction; 16],
    cursor: usize,
}

impl View for ProgramImage {
    type V = ImageModel;

    closed spec fn view(&self) -> ImageModel {
        ImageModel { cells: self.cells@, cursor: self.cursor as nat }
    }
}

impl ProgramImage {
    /// True of an image that keeps its invariant: see [`ImageModel::wf`].
    pub open spec fn wf(&self) -> bool {
        self@.wf()
    }

    /// A blank image: `RawConstant(0)` in every cell, the cursor at cell 0.
    pub fn new() -> (image: ProgramImage)
        ensures
            image.wf(),
            image@ == ImageModel::blank(),
    {
        let image = ProgramImage { cells: [Instruction::RawConstant(0);16], cursor: 0 };
        assert(image@.cells =~= ImageModel::blank().cells);
        image
    }

    /// The cell that the next instruction is placed in; 16 when the image
    /// is full.
    pub fn cursor(&self) -> (cursor: usize)
        ensures
            cursor == self@.cursor,
    {
        self.cursor
    }

    /// What the sixteen cells hold.
    pub fn cells(&self) -> (cells: [Instruction; 16])
        ensures
            cells@ == self@.cells,
    {
        self.cells
    }

    /// What the cell at `index` holds.
    pub fn cell(&self, index: usize) -> (instruction: Instruction)
        requires
            index < MEMORY_CELLS,
        ensures
            instruction == self@.cells[index as int],
    {
        self.cells[index]
    }

    /// Places one instruction.
    ///
    /// A data directive is written as a `RawConstant` to its own address
    /// and leaves the cursor where it is; it is refused with
    /// [`AsmError::DataOutOfRange`] when the address is not below 16. Any
    /// other instruction is written to the cell at the cursor, which moves
    /// on by one; it is refused with [`AsmError::MemoryOverflow`] when
    /// sixteen instructions have been placed at the cursor before. A
    /// refused instruction leaves the image as it was.
    pub fn place(&mut self, instruction: Instruction) -> (r: Result<(), AsmError>)
        requires
            old(self).wf(),
        ensures
            final(self).wf(),
            match old(self)@.place(instruction) {
                Ok(image) => r is Ok && final(self)@ == image,
                Err(error) => r is Err && r->Err_0@ == error && final(self)@ == old(self)@,
            },
            old(self)@.cursor <= final(self)@.cursor <= MEMORY_CELLS,
            instruction.is_directive() ==> final(self)@.cursor == old(self)@.cursor,
            !instruction.is_directive() && old(self)@.cursor == MEMORY_CELLS ==> r is Err
                && r->Err_0@ == ErrorModel::MemoryOverflow,
    {
        match instruction {
            Instruction::DefineByte(address, value) => {
                if address.0 >= MEMORY_CELLS {
                    return Err(AsmError::DataOutOfRange(address));
                }
                self.cells[address.0] = Instruction::RawConstant(value);
                Ok(())
            },
            _ => {
                if self.cursor >= MEMORY_CELLS {
                    return Err(AsmError::MemoryOverflow);
                }
                self.cells[self.cursor] = instruction;
                self.cursor += 1;
                Ok(())
            },
        }
    }
}

} // verus!
