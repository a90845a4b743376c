//! The circular tape: a fixed number of byte cells and a cursor that wraps at both ends.

use vstd::prelude::*;

verus! {

/// The mathematical content of a tape: its cells and the index of the selected cell.
pub struct TapeState {
    pub cells: Seq<u8>,
    pub pointer: int,
}

impl TapeState {
    /// The tape has at least one cell and the pointer selects one of them.
    pub open spec fn wf(self) -> bool {
        0 <= self.pointer < self.cells.len()
    }

    /// A tape of `len` cells, all zero, with the pointer on the first cell.
    pub open spec fn blank(len: nat) -> TapeState {
        TapeState { cells: Seq::new(len, |i: int| 0u8), pointer: 0 }
    }

    /// The value of the selected cell.
    pub open spec fn current(self) -> u8 {
        self.cells[self.pointer]
    }

    /// One cell to the right; from the last cell to the first.
    pub open spec fn move_right(self) -> TapeState {
        TapeState { pointer: (self.pointer + 1) % (self.cells.len() as int), ..self }
    }

    /// One cell to the left; from the first cell to the last.
    pub open spec fn move_left(self) -> TapeState {
        TapeState {
            pointer: (self.pointer - 1 + self.cells.len()) % (self.cells.len() as int),
            ..self
        }
    }

    /// The selected cell plus one, modulo 256.
    pub open spec fn increment(self) -> TapeState {
        TapeState {
            cells: self.cells.update(self.pointer, ((self.current() + 1) % 256) as u8),
            ..self
        }
    }

    /// The selected cell minus one, modulo 256.
    pub open spec fn decrement(self) -> TapeState {
        TapeState {
            cells: self.cells.update(self.pointer, ((self.current() - 1) % 256) as u8),
            ..self
        }
    }

    /// The selected cell plus `delta`, modulo 256.
    pub open spec fn offset(self, delta: int) -> TapeState {
        TapeState {
            cells: self.cells.update(self.pointer, ((self.current() + delta) % 256) as u8),
            ..self
        }
    }

    /// The selected cell set to zero.
    pub open spec fn reset(self) -> TapeState {
        TapeState { cells: self.cells.update(self.pointer, 0u8), ..self }
    }

    /// `n` moves to the right in a row.
    pub open spec fn move_right_by(self, n: nat) -> TapeState
        decreases n,
    {
        if n == 0 {
            self
        } else {
            self.move_right_by((n - 1) as nat).move_right()
        }
    }

    /// `n` moves to the left in a row.
    pub open spec fn move_left_by(self, n: nat) -> TapeState
        decreases n,
    {
        if n == 0 {
            self
        } else {
            self.move_left_by((n - 1) as nat).move_left()
        }
    }
}

/// The index to the left of `pointer` on a circle of `len` cells, without the modulus.
pub proof fn lemma_left_wraps(pointer: int, len: int)
    requires
        0 <= pointer < len,
    ensures
        (pointer - 1 + len) % len == if pointer == 0 {
            len - 1
        } else {
            pointer - 1
        },
{
    if pointer == 0 {
        vstd::arithmetic::div_mod::lemma_small_mod((len - 1) as nat, len as nat);
    } else {
        vstd::arithmetic::div_mod::lemma_mod_add_multiples_vanish(pointer - 1, len);
        vstd::arithmetic::div_mod::lemma_small_mod((pointer - 1) as nat, len as nat);
    }
}

/// The index to the right of `pointer` on a circle of `len` cells, without the modulus.
pub proof fn lemma_right_wraps(pointer: int, len: int)
    requires
        0 <= pointer < len,
    ensures
        (pointer + 1) % len == if pointer == len - 1 {
            0
        } else {
            pointer + 1
        },
{
    if pointer == len - 1 {
        vstd::arithmetic::div_mod::lemma_mod_self_0(len);
    } else {
        vstd::arithmetic::div_mod::lemma_small_mod((pointer + 1) as nat, len as nat);
    }
}

/// Pointer movement is closed: `n` moves to the right leave the cells alone and put the
/// pointer `n` cells further round the circle.
pub proof fn lemma_move_right_by(tape: TapeState, n: nat)
    requires
        tape.wf(),
    ensures
        tape.move_right_by(n).wf(),
        tape.move_right_by(n).cells == tape.cells,
        tape.move_right_by(n).pointer == (tape.pointer + n) % (tape.cells.len() as int),
    decreases n,
{
    let len = tape.cells.len() as int;
    if n == 0 {
        vstd::arithmetic::div_mod::lemma_small_mod(tape.pointer as nat, len as nat);
    } else {
        lemma_move_right_by(tape, (n - 1) as nat);
        lemma_right_wraps(tape.move_right_by((n - 1) as nat).pointer, len);
        vstd::arithmetic::div_mod::lemma_add_mod_noop_right(1, tape.pointer + n - 1, len);
    }
}

/// Pointer movement is closed: `n` moves to the left leave the cells alone and put the
/// pointer `n` cells back round the circle.
pub proof fn lemma_move_left_by(tape: TapeState, n: nat)
    requires
        tape.wf(),
    ensures
        tape.move_left_by(n).wf(),
        tape.move_left_by(n).cells == tape.cells,
        tape.move_left_by(n).pointer == (tape.pointer - n) % (tape.cells.len() as int),
    decreases n,
{
    let len = tape.cells.len() as int;
    if n == 0 {
        vstd::arithmetic::div_mod::lemma_small_mod(tape.pointer as nat, len as nat);
    } else {
        lemma_move_left_by(tape, (n - 1) as nat);
        lemma_left_wraps(tape.move_left_by((n - 1) as nat).pointer, len);
        vstd::arithmetic::div_mod::lemma_add_mod_noop_right(len - 1, tape.pointer - n + 1, len);
        vstd::arithmetic::div_mod::lemma_mod_add_multiples_vanish(tape.pointer - n, len);
    }
}

/// As many moves in one direction as the tape has cells bring the pointer back to where
/// it was.
pub proof fn lemma_full_circle(tape: TapeState)
    requires
        tape.wf(),
    ensures
        tape.move_right_by(tape.cells.len()) == tape,
        tape.move_left_by(tape.cells.len()) == tape,
{
    let len = tape.cells.len() as int;
    lemma_move_right_by(tape, tape.cells.len());
    lemma_move_left_by(tape, tape.cells.len());
    vstd::arithmetic::div_mod::lemma_mod_add_multiples_vanish(tape.pointer, len);
    vstd::arithmetic::div_mod::lemma_mod_add_multiples_vanish(tape.pointer - len, len);
    vstd::arithmetic::div_mod::lemma_small_mod(tape.pointer as nat, len as nat);
}

/// A move to the left undoes a move to the right, and the other way round.
pub proof fn lemma_moves_cancel(tape: TapeState)
    requires
        tape.wf(),
    ensures
        tape.move_right().move_left() == tape,
        tape.move_left().move_right() == tape,
{
    let len = tape.cells.len() as int;
    lemma_right_wraps(tape.pointer, len);
    lemma_left_wraps(tape.pointer, len);
    lemma_left_wraps(tape.move_right().pointer, len);
    lemma_right_wraps(tape.move_left().pointer, len);
}

/// Cell arithmetic wraps: one more than 255 is 0 and one less than 0 is 255; everywhere else
/// a step is a step.
pub proof fn lemma_cell_wraps(tape: TapeState)
    requires
        tape.wf(),
    ensures
        tape.increment().current() == if tape.current() == 255 {
            0
        } else {
            tape.current() + 1
        },
        tape.decrement().current() == if tape.current() == 0 {
            255
        } else {
            tape.current() - 1
        },
{
}

/// Steps on a cell add up: an increment is an offset of one, a decrement an offset of minus
/// one, an offset of zero nothing at all, and two offsets in a row are the offset of their sum.
pub proof fn lemma_offsets_add_up(tape: TapeState, a: int, b: int)
    requires
        tape.wf(),
    ensures
        tape.increment() == tape.offset(1),
        tape.decrement() == tape.offset(-1),
        tape.offset(0) == tape,
        tape.offset(a).offset(b) == tape.offset(a + b),
{
    assert(tape.offset(0).cells =~= tape.cells);
    assert(tape.offset(a).offset(b).cells =~= tape.offset(a + b).cells);
}

/// Cell arithmetic is modulo 256: 256 steps on a cell, up or down, bring it back to where
/// it was.
pub proof fn lemma_cell_full_circle(tape: TapeState)
    requires
        tape.wf(),
    ensures
        tape.offset(256) == tape,
        tape.offset(-256) == tape,
{
    assert(tape.offset(256).cells =~= tape.cells);
    assert(tape.offset(-256).cells =~= tape.cells);
}

/// A decrement undoes an increment, and the other way round; no other cell changes.
pub proof fn lemma_cell_steps_cancel(tape: TapeState)
    requires
        tape.wf(),
    ensures
        tape.increment().decrement() == tape,
        tape.decrement().increment() == tape,
{
    lemma_cell_wraps(tape);
    assert(tape.increment().decrement().cells =~= tape.cells);
    assert(tape.decrement().increment().cells =~= tape.cells);
}

/// A tape of byte cells with its cursor.
#[derive(Debug)]
pub struct Tape {
    cells: Vec<u8>,
    pointer: usize,
}

impl View for Tape {
    type V = TapeState;

    closed spec fn view(&self) -> TapeState {
        TapeState { cells: self.cells@, pointer: self.pointer as int }
    }
}

impl Tape {
    /// A zeroed tape of `len` cells with the pointer on cell 0.
    pub fn new(len: usize) -> (tape: Tape)
        requires
            len > 0,
        ensures
            tape@ == TapeState::blank(len as nat),
            tape@.wf(),
    {
        let cells: Vec<u8> = vec![0u8; len];
        assert(cells@ =~= Seq::new(len as nat, |i: int| 0u8));
        Tape { cells, pointer: 0 }
    }

    /// The number of cells.
    pub fn len(&self) -> (n: usize)
        ensures
            n == self@.cells.len(),
    {
        self.cells.len()
    }

    /// The index of the selected cell.
    pub fn pointer(&self) -> (p: usize)
        ensures
            p == self@.pointer,
    {
        self.pointer
    }

    /// The value of the selected cell.
    pub fn read(&self) -> (v: u8)
        requires
            self@.wf(),
        ensures
            v == self@.current(),
    {
        self.cells[self.pointer]
    }

    /// The value of cell `index`, or `None` past the end of the tape.
    pub fn cell(&self, index: usize) -> (v: Option<u8>)
        ensures
            index < self@.cells.len() ==> v == Some(self@.cells[index as int]),
            index >= self@.cells.len() ==> v is None,
    {
        if index < self.cells.len() {
            Some(self.cells[index])
        } else {
            None
        }
    }

    /// Moves the pointer one cell to the right, wrapping from the last cell to the first.
    pub fn move_right(&mut self)
        requires
            old(self)@.wf(),
        ensures
            final(self)@ == old(self)@.move_right(),
            final(self)@.wf(),
            final(self)@.pointer == if old(self)@.pointer == old(self)@.cells.len() - 1 {
                0
            } else {
                old(self)@.pointer + 1
            },
    {
        proof {
            lemma_right_wraps(self.pointer as int, self.cells.len() as int);
        }
        let len: usize = self.cells.len();
        self.pointer = (self.pointer + 1) % len;
    }

    /// Moves the pointer one cell to the left, wrapping from the first cell to the last.
    pub fn move_left(&mut self)
        requires
            old(self)@.wf(),
        ensures
            final(self)@ == old(self)@.move_left(),
            final(self)@.wf(),
            final(self)@.pointer == if old(self)@.pointer == 0 {
                old(self)@.cells.len() - 1
            } else {
                old(self)@.pointer - 1
            },
    {
        proof {
            lemma_left_wraps(self.pointer as int, self.cells.len() as int);
        }
        if self.pointer == 0 {
            self.pointer = self.cells.len() - 1;
        } else {
            self.pointer = self.pointer - 1;
        }
    }

    /// Adds one to the selected cell; 255 becomes 0.
    pub fn increment(&mut self)
        requires
            old(self)@.wf(),
        ensures
            final(self)@ == old(self)@.increment(),
            final(self)@.wf(),
    {
        let v: u8 = self.cells[self.pointer].wrapping_add(1);
        self.cells.set(self.pointer, v);
    }

    /// Subtracts one from the selected cell; 0 becomes 255.
    pub fn decrement(&mut self)
        requires
            old(self)@.wf(),
        ensures
            final(self)@ == old(self)@.decrement(),
            final(self)@.wf(),
    {
        let v: u8 = self.cells[self.pointer].wrapping_sub(1);
        self.cells.set(self.pointer, v);
    }

    /// Sets the selected cell to zero.
    pub fn reset(&mut self)
        requires
            old(self)@.wf(),
        ensures
            final(self)@ == old(self)@.reset(),
            final(self)@.wf(),
    {
        self.cells.set(self.pointer, 0);
    }
}

} // verus!
