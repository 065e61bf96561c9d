//! Symbol tables: callable routines, named constants, and resource regions.
//!
//! All names are process-global for the duration of one assembly and are
//! resolved by exact string equality.  Lookup is a linear scan in which the
//! first declared entry wins on a duplicate name.

use vstd::prelude::*;

use crate::text::str_eq;

verus! {

/// A named, sequentially emitted, independently addressed unit of
/// instruction words: a callable routine.
#[derive(Clone, Debug)]
pub struct Routine {
    /// The routine's name, unique by convention; the name `entry` is
    /// distinguished and may be re-entered.
    pub name: String,
    /// Start address assigned from the allocator cursor at declaration.
    pub address: u16,
    /// Write cursor used while the routine is copied into the image.
    pub offset_ptr: usize,
    /// The emitted instruction words, in order.
    pub instructions: Vec<u16>,
    /// Word count fixed when the routine closes.
    pub length: u16,
}

/// A named instruction sequence with an assigned address range, of the same
/// shape as a routine.
#[derive(Clone, Debug)]
pub struct Statement {
    /// The statement's name.
    pub name: String,
    /// Start address of the sequence.
    pub address: u16,
    /// Write cursor used while the sequence is copied into the image.
    pub offset_ptr: usize,
    /// The emitted instruction words, in order.
    pub instructions: Vec<u16>,
    /// Word count of the sequence.
    pub length: u16,
}

/// A named immediate value bound to a fixed address, written eagerly into
/// the image at declaration.
#[derive(Clone, Debug)]
pub struct Variable {
    /// The constant's name.
    pub name: String,
    /// The bound 16-bit immediate value.
    pub value: u16,
    /// The constant's address: its 0-based declaration order.
    pub address: u16,
}

/// A named fixed-capacity region of raw content words, distinct from
/// executable routines but sharing the same address allocation.
#[derive(Debug)]
pub struct FileSystem {
    /// Start address assigned from the allocator cursor at declaration.
    pub startpoint: u16,
    /// The files whose words make up the region's content.
    pub content: Vec<File>,
    /// Declared capacity of the region, in words.
    pub size: usize,
    /// Whether a capacity has been declared.
    pub size_initialized: bool,
    /// Write cursor used while the region is copied into the image.
    pub offset_ptr: usize,
}

/// A named run of raw words inside a resource region.
#[derive(Debug)]
pub struct File {
    /// The file's name.
    pub name: String,
    /// The raw content words.
    pub words: Vec<u16>,
    /// Index of the region the file belongs to.
    pub fs_index: usize,
    /// The file's size in words.
    pub size: usize,
}

impl File {
    /// An empty file of the given declared size, belonging to the region at
    /// `fs_index`.
    pub fn new(name: String, fs_index: usize, size: usize) -> (f: File)
        ensures
            f.name@ == name@,
            f.words@ == Seq::<u16>::empty(),
            f.fs_index == fs_index,
            f.size == size,
    {
        File { name, words: Vec::new(), fs_index, size }
    }
}

impl FileSystem {
    /// An empty resource region starting at the given address.
    pub fn new(startpoint: usize) -> (fs: FileSystem)
        requires
            startpoint < 0x10000,
        ensures
            fs.startpoint == startpoint as u16,
            fs.content@ == Seq::<File>::empty(),
            fs.size == 0,
            !fs.size_initialized,
            fs.offset_ptr == 0,
    {
        FileSystem {
            startpoint: startpoint as u16,
            content: Vec::new(),
            size: 0,
            size_initialized: false,
            offset_ptr: 0,
        }
    }

    /// The file at `index`, where one stands.
    pub fn get_file_by_index(&self, index: usize) -> (r: Option<&File>)
        ensures
            match r {
                Some(f) => index < self.content@.len() && *f == self.content@[index as int],
                None => index >= self.content@.len(),
            },
    {
        if index < self.content.len() {
            Some(&self.content[index])
        } else {
            None
        }
    }

    /// The region's declared capacity in words.
    pub fn total_size(&self) -> (s: usize)
        ensures
            s == self.size,
    {
        self.size
    }
}

impl Routine {
    /// An empty routine starting at the given address.
    pub fn new(name: String, ptr: u16) -> (r: Routine)
        ensures
            r.name@ == name@,
            r.address == ptr,
            r.offset_ptr == 0,
            r.instructions@ == Seq::<u16>::empty(),
            r.length == 0,
    {
        Routine { name, address: ptr, offset_ptr: 0, instructions: Vec::new(), length: 0 }
    }
}

impl Variable {
    /// A constant bound to the given address, with no value yet.
    pub fn new(name: String, address: u16) -> (v: Variable)
        ensures
            v.name@ == name@,
            v.value == 0,
            v.address == address,
    {
        Variable { name, value: 0, address }
    }
}

/// Two routines that read the same: equal addresses, cursors and words,
/// names compared as text.
pub open spec fn routine_like(a: Routine, b: Routine) -> bool {
    &&& a.name@ == b.name@
    &&& a.address == b.address
    &&& a.offset_ptr == b.offset_ptr
    &&& a.instructions@ == b.instructions@
    &&& a.length == b.length
}

/// Two routine tables that read the same, entry by entry.
pub open spec fn routines_like(x: Seq<Routine>, y: Seq<Routine>) -> bool {
    x.len() == y.len() && forall|i: int|
        0 <= i < x.len() ==> routine_like(#[trigger] x[i], y[i])
}

/// Two constants that read the same.
pub open spec fn variable_like(a: Variable, b: Variable) -> bool {
    a.name@ == b.name@ && a.value == b.value && a.address == b.address
}

/// Two constant tables that read the same, entry by entry.
pub open spec fn variables_like(x: Seq<Variable>, y: Seq<Variable>) -> bool {
    x.len() == y.len() && forall|i: int|
        0 <= i < x.len() ==> variable_like(#[trigger] x[i], y[i])
}

/// Two files that read the same.
pub open spec fn file_like(a: File, b: File) -> bool {
    a.name@ == b.name@ && a.words@ == b.words@ && a.fs_index == b.fs_index && a.size == b.size
}

/// Two resource regions that read the same.
pub open spec fn filesystem_like(a: FileSystem, b: FileSystem) -> bool {
    &&& a.startpoint == b.startpoint
    &&& a.content@.len() == b.content@.len()
    &&& (forall|i: int| 0 <= i < a.content@.len() ==> file_like(#[trigger] a.content@[i], b.content@[i]))
    &&& a.size == b.size
    &&& a.size_initialized == b.size_initialized
    &&& a.offset_ptr == b.offset_ptr
}

/// Two resource tables that read the same, entry by entry.
pub open spec fn filesystems_like(x: Seq<FileSystem>, y: Seq<FileSystem>) -> bool {
    x.len() == y.len() && forall|i: int|
        0 <= i < x.len() ==> filesystem_like(#[trigger] x[i], y[i])
}

/// Like-reading constant tables resolve a name alike.
pub proof fn lemma_find_var_like(x: Seq<Variable>, y: Seq<Variable>, name: Seq<char>)
    requires
        variables_like(x, y),
    ensures
        match (find_var(x, name), find_var(y, name)) {
            (Some(a), Some(b)) => variable_like(a, b),
            (None, None) => true,
            _ => false,
        },
    decreases x.len(),
{
    if x.len() > 0 {
        assert(variable_like(x[0], y[0]));
        if x[0].name@ != name {
            assert(variables_like(x.skip(1), y.skip(1))) by {
                assert forall|i: int| 0 <= i < x.skip(1).len() implies variable_like(
                    #[trigger] x.skip(1)[i],
                    y.skip(1)[i],
                ) by {
                    assert(x.skip(1)[i] == x[i + 1]);
                    assert(y.skip(1)[i] == y[i + 1]);
                }
            }
            lemma_find_var_like(x.skip(1), y.skip(1), name);
        }
    }
}

/// Like-reading block tables resolve a target name to the same address.
pub proof fn lemma_routine_addr_like(x: Seq<Routine>, y: Seq<Routine>, name: Seq<char>)
    requires
        routines_like(x, y),
    ensures
        routine_addr(x, name) == routine_addr(y, name),
    decreases x.len(),
{
    if x.len() > 0 {
        assert(routine_like(x[0], y[0]));
        if x[0].name@ != name {
            assert(routines_like(x.skip(1), y.skip(1))) by {
                assert forall|i: int| 0 <= i < x.skip(1).len() implies routine_like(
                    #[trigger] x.skip(1)[i],
                    y.skip(1)[i],
                ) by {
                    assert(x.skip(1)[i] == x[i + 1]);
                    assert(y.skip(1)[i] == y[i + 1]);
                }
            }
            lemma_routine_addr_like(x.skip(1), y.skip(1), name);
        }
    }
}

/// The first constant declared under `name`, where one stands.
pub open spec fn find_var(vars: Seq<Variable>, name: Seq<char>) -> Option<Variable>
    decreases vars.len(),
{
    if vars.len() == 0 {
        None
    } else if vars[0].name@ == name {
        Some(vars[0])
    } else {
        find_var(vars.skip(1), name)
    }
}

/// First-match lookup of a constant's address by name.
#[verifier::loop_isolation(false)]
pub fn lookup_variable(vars: &Vec<Variable>, name: &str) -> (r: Option<u16>)
    ensures
        match find_var(vars@, name@) {
            Some(v) => r == Some(v.address),
            None => r is None,
        },
{
    let n = vars.len();
    let mut i: usize = 0;
    proof {
        assert(vars@.skip(0) =~= vars@);
    }
    while i < n
        invariant
            0 <= i <= n,
            n == vars@.len(),
            find_var(vars@, name@) == find_var(vars@.skip(i as int), name@),
        decreases n - i,
    {
        if str_eq(vars[i].name.as_str(), name) {
            proof {
                assert(vars@.skip(i as int)[0] == vars@[i as int]);
            }
            return Some(vars[i].address);
        }
        proof {
            assert(vars@.skip(i as int)[0] == vars@[i as int]);
            assert(vars@.skip(i as int).skip(1) =~= vars@.skip(i + 1));
        }
        i = i + 1;
    }
    proof {
        assert(vars@.skip(n as int).len() == 0);
    }
    None
}

/// The start address recorded for the first block declared under `name`,
/// or address 0 where no such block has been declared yet: an unresolved
/// target silently resolves to 0.
pub open spec fn routine_addr(routines: Seq<Routine>, name: Seq<char>) -> u16
    decreases routines.len(),
{
    if routines.len() == 0 {
        0
    } else if routines[0].name@ == name {
        routines[0].address
    } else {
        routine_addr(routines.skip(1), name)
    }
}

/// Resolves a jump or branch target by a linear scan over the blocks
/// declared so far.  A name not yet declared resolves to address 0 rather
/// than failing.
#[verifier::loop_isolation(false)]
pub fn return_routine_address(routine_name: &str, routines: &Vec<Routine>) -> (r: u16)
    ensures
        r == routine_addr(routines@, routine_name@),
{
    let n = routines.len();
    let mut i: usize = 0;
    proof {
        assert(routines@.skip(0) =~= routines@);
    }
    while i < n
        invariant
            0 <= i <= n,
            n == routines@.len(),
            routine_addr(routines@, routine_name@) == routine_addr(
                routines@.skip(i as int),
                routine_name@,
            ),
        decreases n - i,
    {
        if str_eq(routines[i].name.as_str(), routine_name) {
            proof {
                assert(routines@.skip(i as int)[0] == routines@[i as int]);
            }
            return routines[i].address;
        }
        proof {
            assert(routines@.skip(i as int)[0] == routines@[i as int]);
            assert(routines@.skip(i as int).skip(1) =~= routines@.skip(i + 1));
        }
        i = i + 1;
    }
    proof {
        assert(routines@.skip(n as int).len() == 0);
    }
    0
}

} // verus!
