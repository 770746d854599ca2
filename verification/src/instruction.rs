//! The eight primitive operations and the symbol table that names them.

use vstd::prelude::*;

verus! {

/// One primitive operation of the virtual machine.
#[derive(Clone, Copy, Debug, PartialEq, Eq, Structural)]
pub enum Instruction {
    /// Move the data pointer one cell forward.
    PointerInc,
    /// Move the data pointer one cell backward.
    PointerDec,
    /// Increment the current cell, wrapping 255 to 0.
    ByteInc,
    /// Decrement the current cell, wrapping 0 to 255.
    ByteDec,
    /// Emit the current cell as a character.
    Output,
    /// Read one character into the current cell.
    Input,
    /// Enter or skip a loop body.
    OpenLoop,
    /// Repeat or leave a loop body.
    CloseLoop,
}

/// The mapping that a sequence of symbol bindings denotes: a later binding
/// of the same symbol overwrites an earlier one.
pub open spec fn map_of(entries: Seq<(char, Instruction)>) -> Map<char, Instruction>
    decreases entries.len(),
{
    if entries.len() == 0 {
        Map::empty()
    } else {
        map_of(entries.drop_last()).insert(entries.last().0, entries.last().1)
    }
}

proof fn lemma_map_of_push(entries: Seq<(char, Instruction)>, symbol: char, instruction: Instruction)
    ensures
        map_of(entries.push((symbol, instruction))) == map_of(entries).insert(symbol, instruction),
{
    let pushed = entries.push((symbol, instruction));
    assert(pushed.drop_last() =~= entries);
}

/// An injective symbol table: each symbol denotes exactly one operation.
/// Its abstract value is the map [`map_of`] of its bindings, so binding a
/// symbol again replaces its earlier meaning.
pub struct InstructionSet {
    entries: Vec<(char, Instruction)>,
}

impl InstructionSet {
    /// The symbol-to-operation mapping this table denotes.
    pub closed spec fn view(&self) -> Map<char, Instruction> {
        map_of(self.entries@)
    }

    /// An empty table: no symbol is bound.
    pub fn empty() -> (r: InstructionSet)
        ensures
            r@ == Map::<char, Instruction>::empty(),
    {
        InstructionSet { entries: Vec::new() }
    }

    /// Bind `symbol` to `instruction`, replacing any earlier binding.
    pub fn insert(&mut self, symbol: char, instruction: Instruction)
        ensures
            final(self)@ == old(self)@.insert(symbol, instruction),
    {
        proof {
            lemma_map_of_push(self.entries@, symbol, instruction);
        }
        self.entries.push((symbol, instruction));
    }

    /// Look a symbol up: the operation it is bound to, or `None`.
    pub fn lookup(&self, symbol: char) -> (r: Option<Instruction>)
        ensures
            r == if self@.contains_key(symbol) {
                Some(self@[symbol])
            } else {
                None::<Instruction>
            },
    {
        let mut i: usize = self.entries.len();
        proof {
            assert(self.entries@.take(i as int) =~= self.entries@);
        }
        while i > 0
            invariant
                i <= self.entries@.len(),
                map_of(self.entries@).contains_key(symbol) == map_of(
                    self.entries@.take(i as int),
                ).contains_key(symbol),
                map_of(self.entries@).contains_key(symbol) ==> map_of(self.entries@)[symbol]
                    == map_of(self.entries@.take(i as int))[symbol],
            decreases i,
        {
            i = i - 1;
            let (entry_symbol, entry_instruction) = self.entries[i];
            proof {
                assert(self.entries@.take(i as int + 1).drop_last() =~= self.entries@.take(i as int));
                assert(self.entries@.take(i as int + 1).last() == self.entries@[i as int]);
            }
            if entry_symbol == symbol {
                return Some(entry_instruction);
            }
        }
        proof {
            assert(self.entries@.take(0) =~= Seq::<(char, Instruction)>::empty());
        }
        None
    }

    /// The built-in symbol table of the language's eight classic symbols.
    pub fn default_set() -> (r: InstructionSet)
        ensures
            r@ == default_map(),
    {
        let mut s = InstructionSet::empty();
        s.insert('>', Instruction::PointerInc);
        s.insert('<', Instruction::PointerDec);
        s.insert('+', Instruction::ByteInc);
        s.insert('-', Instruction::ByteDec);
        s.insert('.', Instruction::Output);
        s.insert(',', Instruction::Input);
        s.insert('[', Instruction::OpenLoop);
        s.insert(']', Instruction::CloseLoop);
        proof {
            assert(s@ =~= default_map());
        }
        s
    }
}

/// The default mapping: `>` `<` `+` `-` `.` `,` `[` `]` in operation order.
pub open spec fn default_map() -> Map<char, Instruction> {
    Map::empty()
        .insert('>', Instruction::PointerInc)
        .insert('<', Instruction::PointerDec)
        .insert('+', Instruction::ByteInc)
        .insert('-', Instruction::ByteDec)
        .insert('.', Instruction::Output)
        .insert(',', Instruction::Input)
        .insert('[', Instruction::OpenLoop)
        .insert(']', Instruction::CloseLoop)
}

} // verus!
