//! The record of one finished game.

use vstd::prelude::*;
use crate::grid::Cell;

verus! {

/// What is kept of a finished game: who played, the final score, every head
/// position in the order it was taken, and every fruit position in the order
/// the fruits were placed in front of the snake.
#[derive(Debug)]
pub struct ScoreRecord {
    pub name: String,
    pub points: usize,
    pub moves: Vec<Cell>,
    pub fruits: Vec<Cell>,
}

/// The mathematical content of a [`ScoreRecord`].
#[verifier::ext_equal]
pub struct RecordView {
    pub name: Seq<char>,
    pub points: nat,
    pub moves: Seq<Cell>,
    pub fruits: Seq<Cell>,
}

impl View for ScoreRecord {
    type V = RecordView;

    open spec fn view(&self) -> RecordView {
        RecordView {
            name: self.name@,
            points: self.points as nat,
            moves: self.moves@,
            fruits: self.fruits@,
        }
    }
}

/// The contents of a list of records, one by one.
pub open spec fn views(records: Seq<ScoreRecord>) -> Seq<RecordView> {
    Seq::new(records.len(), |i: int| records[i]@)
}

/// A copy of a list of cells.
pub fn copy_cells(cells: &Vec<Cell>) -> (copy: Vec<Cell>)
    ensures
        copy@ == cells@,
{
    let mut copy: Vec<Cell> = Vec::new();
    let mut i: usize = 0;
    while i < cells.len()
        invariant
            i <= cells.len(),
            copy@ == cells@.take(i as int),
        decreases cells.len() - i,
    {
        copy.push(cells[i]);
        assert(cells@.take(i as int).push(cells@[i as int]) =~= cells@.take(i + 1));
        i += 1;
    }
    assert(cells@.take(cells.len() as int) =~= cells@);
    copy
}

impl ScoreRecord {
    /// A record with the given name and score and with empty logs.
    pub fn new(name: String, points: usize) -> (r: ScoreRecord)
        ensures
            r@ == (RecordView {
                name: name@,
                points: points as nat,
                moves: Seq::empty(),
                fruits: Seq::empty(),
            }),
    {
        ScoreRecord { name, points, moves: Vec::new(), fruits: Vec::new() }
    }

    /// A copy with the same content.
    pub fn duplicate(&self) -> (r: ScoreRecord)
        ensures
            r@ == self@,
    {
        ScoreRecord {
            name: self.name.clone(),
            points: self.points,
            moves: copy_cells(&self.moves),
            fruits: copy_cells(&self.fruits),
        }
    }
}

} // verus!
