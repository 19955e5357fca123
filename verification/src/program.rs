//! What loading produces: the instructions of a program and its label table.

use vstd::hash_map::StringHashMap;
use vstd::prelude::*;
use vstd::string::*;

verus! {

/// The instructions of a program, each as the text it was written in. The
/// index of an instruction is what a jump goes to.
#[derive(Debug, Clone, PartialEq, Eq)]
pub struct Program {
    lines: Vec<String>,
}

impl View for Program {
    type V = Seq<Seq<char>>;

    closed spec fn view(&self) -> Seq<Seq<char>> {
        Seq::new(self.lines@.len(), |i: int| self.lines@[i]@)
    }
}

impl Program {
    /// The program without instructions.
    pub fn new() -> (r: Program)
        ensures
            r@ == Seq::<Seq<char>>::empty(),
    {
        let r = Program { lines: Vec::new() };
        r
    }

    /// The program whose instructions are `lines`, in order.
    pub fn from_lines(lines: Vec<String>) -> (r: Program)
        ensures
            r@.len() == lines@.len(),
            forall|i: int| 0 <= i < lines@.len() ==> r@[i] == lines@[i]@,
    {
        Program { lines }
    }

    /// Appends `line` as the last instruction.
    pub fn push(&mut self, line: String)
        ensures
            final(self)@ == old(self)@.push(line@),
    {
        self.lines.push(line);
    }

    /// The number of instructions fits in a `usize`.
    pub proof fn lemma_len_fits(&self)
        ensures
            self@.len() <= usize::MAX,
    {
        assert(self@.len() == self.lines.len());
    }

    /// The number of instructions.
    pub fn len(&self) -> (n: usize)
        ensures
            n == self@.len(),
    {
        self.lines.len()
    }

    /// Whether the program has no instruction.
    pub fn is_empty(&self) -> (r: bool)
        ensures
            r == (self@.len() == 0),
    {
        self.lines.len() == 0
    }

    /// The text of the instruction at `index`, `None` past the end.
    pub fn get(&self, index: usize) -> (r: Option<&str>)
        ensures
            match r {
                Some(line) => index < self@.len() && line@ == self@[index as int],
                None => index >= self@.len(),
            },
    {
        if index < self.lines.len() {
            Some(self.lines[index].as_str())
        } else {
            None
        }
    }

    /// The instructions, in order.
    pub fn lines(&self) -> (r: &Vec<String>)
        ensures
            r@.len() == self@.len(),
            forall|i: int| 0 <= i < r@.len() ==> r@[i]@ == self@[i],
    {
        &self.lines
    }
}

/// The labels of a program: for each name the index of the instruction that
/// it stands for. A name that is entered again takes the later index.
pub struct LabelTable {
    map: StringHashMap<usize>,
}

impl View for LabelTable {
    type V = Map<Seq<char>, nat>;

    closed spec fn view(&self) -> Map<Seq<char>, nat> {
        Map::new(
            |name: Seq<char>| self.map@.contains_key(name),
            |name: Seq<char>| self.map@[name] as nat,
        )
    }
}

impl LabelTable {
    /// The table without labels.
    pub fn new() -> (r: LabelTable)
        ensures
            r@ == Map::<Seq<char>, nat>::empty(),
    {
        LabelTable { map: StringHashMap::new() }
    }

    /// Enters `name` for the instruction at `index`, in place of what the
    /// table held for `name` before.
    pub fn insert(&mut self, name: String, index: usize)
        ensures
            final(self)@ == old(self)@.insert(name@, index as nat),
    {
        self.map.insert(name, index);
    }

    /// The index that the table holds for `name`.
    pub fn get(&self, name: &str) -> (r: Option<usize>)
        ensures
            match r {
                Some(index) => self@.contains_key(name@) && self@[name@] == index,
                None => !self@.contains_key(name@),
            },
    {
        match self.map.get(name) {
            Some(index) => Some(*index),
            None => None,
        }
    }

    /// Whether the table holds no label.
    pub fn is_empty(&self) -> (r: bool)
        ensures
            r == (self@ == Map::<Seq<char>, nat>::empty()),
    {
        let r = self.map.is_empty();
        proof {
            if r {
                assert(self@ =~= Map::<Seq<char>, nat>::empty());
            } else {
                assert(self@.dom() !== Map::<Seq<char>, nat>::empty().dom());
            }
        }
        r
    }
}

} // verus!
