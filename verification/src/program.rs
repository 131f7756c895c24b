//! Programs: a name, the bytes, and the address they are loaded at; and the
//! library of programs that come with the machine.

use vstd::prelude::*;

verus! {

/// A named byte sequence and the address of its first byte in memory.
pub struct Program {
    pub name: String,
    pub code: Vec<u8>,
    pub start_address: u8,
}

/// A program as a mathematical value.
pub struct ProgramView {
    pub name: Seq<char>,
    pub code: Seq<u8>,
    pub start_address: u8,
}

impl View for Program {
    type V = ProgramView;

    open spec fn view(&self) -> ProgramView {
        ProgramView { name: self.name@, code: self.code@, start_address: self.start_address }
    }
}

impl Program {
    /// A program of the given name, bytes and load address.
    pub fn new(name: String, code: Vec<u8>, start_address: u8) -> (r: Program)
        ensures
            r.name == name,
            r.code == code,
            r.start_address == start_address,
    {
        Program { name, code, start_address }
    }

    /// A copy of the program: the same name, bytes and load address.
    pub fn duplicate(&self) -> (r: Program)
        ensures
            r@ == self@,
    {
        let code = self.code.clone();
        assert(code@ =~= self.code@);
        Program { name: self.name.clone(), code, start_address: self.start_address }
    }
}

/// The programs that a user can choose from.
pub struct ProgramLibrary {
    pub programs: Vec<Program>,
}

impl View for ProgramLibrary {
    type V = Seq<ProgramView>;

    open spec fn view(&self) -> Seq<ProgramView> {
        Seq::new(self.programs@.len(), |i: int| self.programs@[i]@)
    }
}

/// The first place at or after `from` where `programs` holds one of the
/// given name, or the length of `programs` where there is none.
pub open spec fn position_from(programs: Seq<ProgramView>, name: Seq<char>, from: int) -> int
    decreases programs.len() - from,
{
    if from < 0 || from >= programs.len() || programs[from].name == name {
        from
    } else {
        position_from(programs, name, from + 1)
    }
}

/// The first place where `programs` holds one of the given name, or the
/// length of `programs` where there is none.
pub open spec fn position(programs: Seq<ProgramView>, name: Seq<char>) -> int {
    position_from(programs, name, 0)
}

/// Whether `programs` holds one of the given name.
pub open spec fn holds(programs: Seq<ProgramView>, name: Seq<char>) -> bool {
    exists|i: int| 0 <= i < programs.len() && (#[trigger] programs[i]).name == name
}

/// The first place of a name is within the library exactly where the
/// library holds the name; the program there has that name, and none
/// before it has.
pub proof fn lemma_position(programs: Seq<ProgramView>, name: Seq<char>, from: int)
    requires
        0 <= from <= programs.len(),
    ensures
        from <= position_from(programs, name, from) <= programs.len(),
        position_from(programs, name, from) < programs.len() ==> programs[position_from(
            programs,
            name,
            from,
        )].name == name,
        forall|j: int|
            from <= j < position_from(programs, name, from) ==> (#[trigger] programs[j]).name
                != name,
        from == 0 ==> (holds(programs, name) <==> position(programs, name) < programs.len()),
    decreases programs.len() - from,
{
    if from < programs.len() && programs[from].name != name {
        lemma_position(programs, name, from + 1);
    }
}

/// The first program of the library.
pub open spec fn program_a() -> ProgramView {
    ProgramView {
        name: "A"@,
        code: seq![
            0x20u8, 0x03, 0x21, 0x01, 0x22, 0x00, 0x23, 0x10, 0x14, 0x00, 0x34, 0x10, 0x52, 0x21,
            0x53, 0x31, 0x32, 0x39, 0x33, 0x3B, 0xB2, 0x48, 0xB0, 0x38, 0xC0, 0x00,
        ],
        start_address: 0x30,
    }
}

/// The second program of the library.
pub open spec fn program_b() -> ProgramView {
    ProgramView {
        name: "B"@,
        code: seq![
            0x20u8, 0x04, 0x21, 0x01, 0x40, 0x12, 0x51, 0x12, 0xB1, 0x0C, 0xB0, 0x06, 0xC0, 0x00,
        ],
        start_address: 0x00,
    }
}

/// The third program of the library.
pub open spec fn program_c() -> ProgramView {
    ProgramView {
        name: "C"@,
        code: seq![
            0x25u8, 0x03, 0x20, 0xF9, 0x53, 0x05, 0x33, 0x00, 0xC0, 0x00, 0xC0, 0x00, 0xC0, 0x00,
        ],
        start_address: 0x00,
    }
}

impl ProgramLibrary {
    /// The library that comes with the machine: the programs A, B and C.
    pub fn init() -> (r: ProgramLibrary)
        ensures
            r@ == seq![program_a(), program_b(), program_c()],
    {
        let code_a: Vec<u8> = vec![
            0x20, 0x03, 0x21, 0x01, 0x22, 0x00, 0x23, 0x10, 0x14, 0x00, 0x34, 0x10, 0x52, 0x21,
            0x53, 0x31, 0x32, 0x39, 0x33, 0x3B, 0xB2, 0x48, 0xB0, 0x38, 0xC0, 0x00,
        ];
        let code_b: Vec<u8> = vec![
            0x20, 0x04, 0x21, 0x01, 0x40, 0x12, 0x51, 0x12, 0xB1, 0x0C, 0xB0, 0x06, 0xC0, 0x00,
        ];
        let code_c: Vec<u8> = vec![
            0x25, 0x03, 0x20, 0xF9, 0x53, 0x05, 0x33, 0x00, 0xC0, 0x00, 0xC0, 0x00, 0xC0, 0x00,
        ];
        assert(code_a@ =~= program_a().code);
        assert(code_b@ =~= program_b().code);
        assert(code_c@ =~= program_c().code);
        let a = Program::new("A".to_owned(), code_a, 0x30);
        let b = Program::new("B".to_owned(), code_b, 0x00);
        let c = Program::new("C".to_owned(), code_c, 0x00);
        let mut programs: Vec<Program> = Vec::new();
        programs.push(a);
        programs.push(b);
        programs.push(c);
        let r = ProgramLibrary { programs };
        assert(r@ =~= seq![program_a(), program_b(), program_c()]);
        r
    }

    /// The names of the programs, in the library's order.
    pub fn get_names(&self) -> (names: Vec<String>)
        ensures
            names@.len() == self@.len(),
            forall|i: int| 0 <= i < names@.len() ==> (#[trigger] names@[i])@ == self@[i].name,
    {
        let mut names: Vec<String> = Vec::new();
        let mut i: usize = 0;
        while i < self.programs.len()
            invariant
                i <= self.programs@.len(),
                names@.len() == i,
                forall|k: int| 0 <= k < i ==> (#[trigger] names@[k])@ == self@[k].name,
            decreases self.programs@.len() - i,
        {
            names.push(self.programs[i].name.clone());
            i = i + 1;
        }
        names
    }

    /// The place of the first program of the given name, if there is one.
    pub fn find(&self, name: &String) -> (r: Option<usize>)
        ensures
            r.is_some() <==> holds(self@, name@),
            r.is_some() ==> r.unwrap() as int == position(self@, name@),
    {
        let mut i: usize = 0;
        while i < self.programs.len()
            invariant
                i <= self.programs@.len(),
                position(self@, name@) == position_from(self@, name@, i as int),
            decreases self.programs@.len() - i,
        {
            if self.programs[i].name == *name {
                proof {
                    lemma_position(self@, name@, 0);
                }
                return Some(i);
            }
            i = i + 1;
        }
        proof {
            lemma_position(self@, name@, 0);
        }
        None
    }

    /// A copy of the first program of the given name, which the library
    /// must hold.
    pub fn retrieve(&self, name: String) -> (r: Program)
        requires
            holds(self@, name@),
        ensures
            r@ == self@[position(self@, name@)],
            r@.name == name@,
    {
        proof {
            lemma_position(self@, name@, 0);
        }
        let count: usize = self.programs.len();
        let mut i: usize = 0;
        while !(self.programs[i].name == name)
            invariant
                count == self.programs@.len(),
                i < count,
                position(self@, name@) < self@.len(),
                position(self@, name@) == position_from(self@, name@, i as int),
            decreases self.programs@.len() - i,
        {
            proof {
                lemma_position(self@, name@, i + 1);
            }
            i = i + 1;
        }
        self.programs[i].duplicate()
    }
}

/// The program that a user's input chooses from the library: a copy of the
/// first one that the input names, or nothing where it names none.
pub fn program(library: &ProgramLibrary, input: String) -> (r: Option<Program>)
    ensures
        r.is_some() <==> holds(library@, input@),
        r.is_some() ==> r.unwrap()@ == library@[position(library@, input@)],
{
    match library.find(&input) {
        Some(_) => Some(library.retrieve(input)),
        None => None,
    }
}

} // verus!
