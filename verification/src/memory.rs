//! What a script has in hand while it runs: columns of words and single numbers.

use vstd::prelude::*;

verus! {

/// How many columns a script can hold at a time.
pub const COLUMNS: usize = 16;

/// How many single numbers a script can hold at a time.
pub const REGISTERS: usize = 16;

/// The columns and numbers that a running script holds, each in a numbered slot, the text of
/// the last timing that it asked for, and the texts that it was given.
pub struct Memory {
    pub columns: Vec<Vec<u64>>,
    pub registers: Vec<u64>,
    pub timing: String,
    pub texts: Vec<String>,
}

/// The contents of a [`Memory`].
pub struct Contents {
    pub columns: Seq<Seq<u64>>,
    pub registers: Seq<u64>,
    pub timing: Seq<char>,
    pub texts: Seq<Seq<char>>,
}

/// The contents of a list of texts.
pub open spec fn texts_in(texts: Seq<String>) -> Seq<Seq<char>> {
    Seq::new(texts.len(), |k: int| texts[k]@)
}

impl View for Memory {
    type V = Contents;

    open spec fn view(&self) -> Contents {
        Contents {
            columns: Seq::new(self.columns@.len(), |slot: int| self.columns@[slot]@),
            registers: self.registers@,
            timing: self.timing@,
            texts: texts_in(self.texts@),
        }
    }
}

impl Contents {
    /// Every slot empty or zero.
    pub open spec fn blank(texts: Seq<Seq<char>>) -> Contents {
        Contents {
            columns: Seq::new(COLUMNS as nat, |slot: int| Seq::<u64>::empty()),
            registers: Seq::new(REGISTERS as nat, |slot: int| 0u64),
            timing: Seq::empty(),
            texts,
        }
    }

    /// The contents with a column put into a slot.
    pub open spec fn with_column(self, slot: u64, words: Seq<u64>) -> Contents {
        Contents { columns: self.columns.update(slot as int, words), ..self }
    }

    /// The contents with a number put into a slot.
    pub open spec fn with_register(self, slot: u64, number: u64) -> Contents {
        Contents { registers: self.registers.update(slot as int, number), ..self }
    }

    /// The contents with a timing taken down.
    pub open spec fn with_timing(self, timing: Seq<char>) -> Contents {
        Contents { timing, ..self }
    }

    /// Every slot is there.
    pub open spec fn full(self) -> bool {
        self.columns.len() == COLUMNS && self.registers.len() == REGISTERS
    }
}

impl Memory {
    /// A memory with every slot empty or zero.
    pub fn new(texts: Vec<String>) -> (memory: Memory)
        ensures
            memory@ == Contents::blank(texts_in(texts@)),
            memory@.full(),
    {
        let mut columns: Vec<Vec<u64>> = Vec::new();
        let mut registers: Vec<u64> = Vec::new();
        while columns.len() < COLUMNS
            invariant
                columns.len() <= COLUMNS,
                forall|slot: int| 0 <= slot < columns.len() ==> columns@[slot]@.len() == 0,
            decreases COLUMNS - columns.len(),
        {
            columns.push(Vec::new());
        }
        while registers.len() < REGISTERS
            invariant
                registers.len() <= REGISTERS,
                forall|slot: int| 0 <= slot < registers.len() ==> registers@[slot] == 0,
            decreases REGISTERS - registers.len(),
        {
            registers.push(0);
        }
        let memory = Memory { columns, registers, timing: String::new(), texts };
        proof {
            assert(memory@.columns =~~= Contents::blank(texts_in(texts@)).columns);
            assert(memory@.registers =~= Contents::blank(texts_in(texts@)).registers);
            assert(memory@.timing =~= Seq::empty());
        }
        memory
    }

    /// Puts a column into a slot.
    pub fn put_column(&mut self, slot: u64, words: Vec<u64>)
        requires
            old(self)@.full(),
            slot < COLUMNS,
        ensures
            final(self)@ == old(self)@.with_column(slot, words@),
            final(self)@.full(),
    {
        let ghost before = self@;
        let ghost put = words@;
        self.columns.set(slot as usize, words);
        proof {
            assert(self@.columns =~= before.with_column(slot, put).columns);
        }
    }

    /// Puts a number into a slot.
    pub fn put_register(&mut self, slot: u64, number: u64)
        requires
            old(self)@.full(),
            slot < REGISTERS,
        ensures
            final(self)@ == old(self)@.with_register(slot, number),
            final(self)@.full(),
    {
        let ghost before = self@;
        self.registers.set(slot as usize, number);
        proof {
            assert(self@.columns =~= before.columns);
        }
    }

    /// Takes a timing down.
    pub fn put_timing(&mut self, timing: String)
        requires
            old(self)@.full(),
        ensures
            final(self)@ == old(self)@.with_timing(timing@),
            final(self)@.full(),
    {
        let ghost before = self@;
        self.timing = timing;
        proof {
            assert(self@.columns =~= before.columns);
        }
    }
}

} // verus!
