//! The assembler: the lines of a program, one after the other, become a
//! program image.
//!
//! Each line is parsed and what it denotes is placed at once. The first line
//! that cannot be parsed or placed ends the assembly with its error; there
//! is no partial result.

use crate::encoder::{all_resident, encoded};
use crate::error::{AsmError, ErrorModel};
use crate::image::{directives_in_range, lemma_placement, sequential_count, ImageModel, ProgramImage};
use crate::isa::{Instruction, MEMORY_CELLS};
use crate::parser::{line_model, parse_line};
use vstd::prelude::*;

verus! {

/// The lines as sequences of characters.
pub open spec fn line_views(lines: Seq<String>) -> Seq<Seq<char>> {
    Seq::new(lines.len(), |i: int| lines[i]@)
}

/// The image that the lines are assembled into, or the error of the first
/// line that cannot be parsed or placed.
pub open spec fn assemble_model(lines: Seq<Seq<char>>) -> Result<ImageModel, ErrorModel>
    decreases lines.len(),
{
    if lines.len() == 0 {
        Ok(ImageModel::blank())
    } else {
        match assemble_model(lines.drop_last()) {
            Err(error) => Err(error),
            Ok(image) => match line_model(lines.last()) {
                Err(error) => Err(error),
                Ok(None) => Ok(image),
                Ok(Some(instruction)) => image.place(instruction),
            },
        }
    }
}

/// True when every line can be parsed.
pub open spec fn all_lines_parse(lines: Seq<Seq<char>>) -> bool {
    forall|i: int| 0 <= i < lines.len() ==> line_model(#[trigger] lines[i]) is Ok
}

/// The instructions that the lines denote, in order; a line that denotes
/// nothing, or cannot be parsed, adds none.
pub open spec fn program_of(lines: Seq<Seq<char>>) -> Seq<Instruction>
    decreases lines.len(),
{
    if lines.len() == 0 {
        Seq::empty()
    } else {
        match line_model(lines.last()) {
            Ok(Some(instruction)) => program_of(lines.drop_last()).push(instruction),
            _ => program_of(lines.drop_last()),
        }
    }
}

/// Lines that can all be parsed are assembled into what placing their
/// instructions into a blank image gives.
pub proof fn lemma_assembly_places_program(lines: Seq<Seq<char>>)
    requires
        all_lines_parse(lines),
    ensures
        assemble_model(lines) == ImageModel::blank().place_all(program_of(lines)),
    decreases lines.len(),
{
    if lines.len() > 0 {
        let before = lines.drop_last();
        assert forall|i: int| 0 <= i < before.len() implies line_model(#[trigger] before[i]) is Ok by {
            assert(before[i] == lines[i]);
        }
        lemma_assembly_places_program(before);
        assert(line_model(lines[lines.len() - 1]) is Ok);
        if let Ok(Some(instruction)) = line_model(lines.last()) {
            assert(program_of(lines).drop_last() == program_of(before));
        }
    }
}

/// A valid program is assembled: if every line can be parsed, every data
/// directive names one of the sixteen cells, and at most sixteen
/// instructions go to the cursor, assembly succeeds. The image is then well
/// formed, holds no directive, and its cursor stands behind the last
/// instruction that went to it.
pub proof fn lemma_valid_program_assembles(lines: Seq<Seq<char>>)
    requires
        all_lines_parse(lines),
        directives_in_range(program_of(lines)),
        sequential_count(program_of(lines)) <= MEMORY_CELLS,
    ensures
        assemble_model(lines) is Ok,
        (assemble_model(lines)->Ok_0).wf(),
        all_resident((assemble_model(lines)->Ok_0).cells),
        (assemble_model(lines)->Ok_0).cursor == sequential_count(program_of(lines)),
{
    lemma_assembly_places_program(lines);
    lemma_placement(program_of(lines));
}

/// A seventeenth instruction for the cursor fails: if every line can be
/// parsed and every data directive names one of the sixteen cells, but more
/// than sixteen instructions go to the cursor, assembly ends in a memory
/// overflow.
pub proof fn lemma_long_program_overflows(lines: Seq<Seq<char>>)
    requires
        all_lines_parse(lines),
        directives_in_range(program_of(lines)),
        sequential_count(program_of(lines)) > MEMORY_CELLS,
    ensures
        assemble_model(lines) == Err::<ImageModel, ErrorModel>(ErrorModel::MemoryOverflow),
{
    lemma_assembly_places_program(lines);
    lemma_placement(program_of(lines));
}

/// Assembly depends on nothing but the characters of the lines: programs
/// that read the same are assembled into the same image, and so into the
/// same bytes, or fail with the same error.
pub proof fn lemma_assembly_is_deterministic(first: Seq<String>, second: Seq<String>)
    requires
        first.len() == second.len(),
        forall|i: int| 0 <= i < first.len() ==> first[i]@ == second[i]@,
    ensures
        assemble_model(line_views(first)) == assemble_model(line_views(second)),
        assemble_model(line_views(first)) matches Ok(image) ==> encoded(image.cells) == encoded(
            (assemble_model(line_views(second))->Ok_0).cells,
        ),
{
    assert(line_views(first) =~= line_views(second));
}

/// Once a prefix of the lines has failed, the whole fails with the same
/// error.
pub proof fn lemma_first_error_stays(lines: Seq<Seq<char>>, k: int)
    requires
        0 <= k <= lines.len(),
    ensures
        assemble_model(lines.take(k)) matches Err(error) ==> assemble_model(lines) == Err::<
            ImageModel,
            ErrorModel,
        >(error),
    decreases lines.len() - k,
{
    if k < lines.len() {
        lemma_first_error_stays(lines, k + 1);
        assert(lines.take(k + 1).drop_last() =~= lines.take(k));
    } else {
        assert(lines.take(k) =~= lines);
    }
}

/// Assembles the lines of a program into an image.
///
/// The result is `Ok` exactly when every line can be parsed and what it
/// denotes can be placed; otherwise it is the error of the first line that
/// fails.
pub fn assemble(lines: &[String]) -> (r: Result<ProgramImage, AsmError>)
    ensures
        match assemble_model(line_views(lines@)) {
            Ok(image) => r is Ok && r->Ok_0.wf() && r->Ok_0@ == image,
            Err(error) => r is Err && r->Err_0@ == error,
        },
{
    let mut image = ProgramImage::new();
    let mut i: usize = 0;
    let ghost all = line_views(lines@);
    assert(all.take(0) =~= Seq::<Seq<char>>::empty());
    while i < lines.len()
        invariant
            i <= lines@.len(),
            all == line_views(lines@),
            image.wf(),
            assemble_model(all.take(i as int)) == Ok::<ImageModel, ErrorModel>(image@),
        decreases lines@.len() - i,
    {
        proof {
            let next = all.take(i + 1);
            assert(next.drop_last() =~= all.take(i as int));
            assert(next.last() == lines@[i as int]@);
            lemma_first_error_stays(all, i + 1);
        }
        match parse_line(lines[i].as_str()) {
            Err(error) => {
                return Err(error);
            },
            Ok(None) => {},
            Ok(Some(instruction)) => {
                match image.place(instruction) {
                    Err(error) => {
                        return Err(error);
                    },
                    Ok(()) => {},
                }
            },
        }
        i += 1;
    }
    assert(all.take(i as int) =~= all);
    Ok(image)
}

/// Assembles the lines of a program into its sixteen memory cells.
///
/// The cells are those of [`assemble`]; none of them holds a directive.
pub fn parse(lines: &[String]) -> (r: Result<[Instruction; 16], AsmError>)
    ensures
        match assemble_model(line_views(lines@)) {
            Ok(image) => r is Ok && r->Ok_0@ == image.cells && all_resident(r->Ok_0@),
            Err(error) => r is Err && r->Err_0@ == error,
        },
{
    match assemble(lines) {
        Ok(image) => Ok(image.cells()),
        Err(error) => Err(error),
    }
}

} // verus!
