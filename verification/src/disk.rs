//! Putting a disk in the +3: the three ways it can go in, and the name of the
//! copy that writes go to when the disk itself is to be left alone.
use vstd::prelude::*;
use crate::paths::{file_stem_of, joined, parent_of, path_exists, path_file_stem, path_join, path_parent};
use crate::text::{decimal, push_decimal, push_str};

verus! {

/// How a disk was put in, which is what the window says under the drive.
#[derive(Clone, Copy, PartialEq, Eq, Structural, Debug)]
pub enum Mounted {
    ReadOnly,
    /// Writes go to a copy; the disk it came from is untouched.
    Copy,
    /// Writes go to the file it came from.
    InPlace,
}

/// What the window says under the drive.
pub open spec fn mounted_label(m: Mounted) -> Seq<char> {
    match m {
        Mounted::ReadOnly => "read-only"@,
        Mounted::Copy => "writing to a copy"@,
        Mounted::InPlace => "writable"@,
    }
}

impl Mounted {
    pub fn label(&self) -> (r: &'static str)
        ensures
            r@ == mounted_label(*self),
    {
        match self {
            Mounted::ReadOnly => "read-only",
            Mounted::Copy => "writing to a copy",
            Mounted::InPlace => "writable",
        }
    }
}

/// The most copies the name of a copy counts up to.
pub const MOST_COPIES: u32 = 2147483647;

/// The file name of the `n`th copy of a disk whose name is `stem`: the first
/// is `stem (copy).dsk`, those after it `stem (copy n).dsk`.
pub open spec fn copy_file(stem: Seq<char>, n: nat) -> Seq<char> {
    if n <= 1 {
        stem + " (copy).dsk"@
    } else {
        stem + " (copy "@ + decimal(n) + ").dsk"@
    }
}

/// The name a copy starts from: the disk's own, or `disk` for a path without
/// a file name.
pub open spec fn copy_stem(path: Seq<char>) -> Seq<char> {
    match path_file_stem(path) {
        Some(s) => s,
        None => "disk"@,
    }
}

/// Where copies go: beside the disk, or here for a path with no parent.
pub open spec fn copy_dir(path: Seq<char>) -> Seq<char> {
    match path_parent(path) {
        Some(d) => d,
        None => "."@,
    }
}

/// The `n`th name tried for a copy of the disk at `path`.
pub open spec fn copy_candidate(path: Seq<char>, n: nat) -> Seq<char> {
    path_join(copy_dir(path), copy_file(copy_stem(path), n))
}

/// The file name of the `n`th copy of a disk called `stem`.
pub fn copy_file_name(stem: &str, n: u32) -> (r: String)
    ensures
        r@ == copy_file(stem@, n as nat),
{
    let mut s = String::new();
    push_str(&mut s, stem);
    if n <= 1 {
        push_str(&mut s, " (copy).dsk");
    } else {
        push_str(&mut s, " (copy ");
        push_decimal(&mut s, n as u64);
        push_str(&mut s, ").dsk");
    }
    assert(s@ =~= copy_file(stem@, n as nat));
    s
}

/// Which copy is free, given what was found when the names were looked for
/// in turn (`found[i]` for the name numbered `i + 1`): the first that nothing
/// was found at, or the one after the last looked for if all were taken.
pub open spec fn first_free_number(found: Seq<bool>) -> nat
    decreases found.len(),
{
    if found.len() == 0 {
        1
    } else if !found[0] {
        1
    } else {
        1 + first_free_number(found.drop_first())
    }
}

/// Answers from looking for the names one by one, stopping at the first that
/// was free.
pub open spec fn looked_up_in_turn(found: Seq<bool>) -> bool {
    &&& found.len() < MOST_COPIES
    &&& forall|i: int| 0 <= i < found.len() - 1 ==> #[trigger] found[i]
}

proof fn lemma_first_free(found: Seq<bool>, k: int)
    requires
        0 <= k <= found.len(),
        forall|i: int| 0 <= i < k ==> #[trigger] found[i],
        k == found.len() || !found[k],
    ensures
        first_free_number(found) == k + 1,
    decreases k,
{
    if k > 0 {
        let rest = found.drop_first();
        assert forall|i: int| 0 <= i < k - 1 implies #[trigger] rest[i] by {
            assert(rest[i] == found[i + 1]);
        }
        if k < found.len() {
            assert(rest[k - 1] == found[k]);
        }
        lemma_first_free(rest, k - 1);
    }
}

/// The name of the copy of the disk at `path`, given what was found when the
/// names were looked for in turn: the first of them that nothing was found
/// at, every one before it having been taken.
pub fn first_free(path: &str, found: &Vec<bool>) -> (r: String)
    requires
        found.len() < MOST_COPIES,
    ensures
        r@ == copy_candidate(path@, first_free_number(found@)),
        1 <= first_free_number(found@) <= found.len() + 1,
        forall|i: int| 0 <= i < first_free_number(found@) - 1 ==> #[trigger] found@[i],
        first_free_number(found@) <= found.len() ==> !found@[first_free_number(found@) - 1],
{
    let mut k: usize = 0;
    while k < found.len() && found[k]
        invariant
            k <= found.len(),
            forall|i: int| 0 <= i < k ==> #[trigger] found@[i],
        decreases found.len() - k,
    {
        k = k + 1;
    }
    proof {
        lemma_first_free(found@, k as int);
    }
    let stem = match file_stem_of(path) {
        Some(s) => s,
        None => "disk".to_owned(),
    };
    let dir = match parent_of(path) {
        Some(d) => d,
        None => ".".to_owned(),
    };
    let name = copy_file_name(stem.as_str(), (k + 1) as u32);
    joined(dir.as_str(), name.as_str())
}

/// What a copy of a disk is called: the same name with " (copy)" on it,
/// beside the disk, and a number after that if one is already there.
///
/// The names are looked for on the disk in turn until one is free, and the
/// answer is the first free one, as `first_free` gives it from what was
/// found. What the disk answered is not known to the contract, so it states
/// that the answer is the first free name of some run of lookups made in
/// turn.
pub fn copy_name(path: &str) -> (r: String)
    ensures
        exists|found: Seq<bool>|
            looked_up_in_turn(found) && r@ == copy_candidate(path@, #[trigger] first_free_number(found)),
{
    let mut found: Vec<bool> = Vec::new();
    let mut looking = true;
    while looking && found.len() < (MOST_COPIES - 1) as usize
        invariant
            found.len() < MOST_COPIES,
            forall|i: int| 0 <= i < found.len() ==> #[trigger] found@[i] || (!looking && i == found.len() - 1),
        decreases MOST_COPIES - found.len(),
    {
        let n: usize = found.len() + 1;
        let name = first_free(path, &found);
        proof {
            lemma_first_free(found@, found.len() as int);
        }
        let taken = path_exists(name.as_str());
        found.push(taken);
        if !taken {
            looking = false;
        }
        assert(n == found.len());
    }
    let r = first_free(path, &found);
    assert(looked_up_in_turn(found@));
    r
}

/// Where a disk waiting to go in is put, and how.
pub struct MountPlan {
    /// The file the drive writes to, or is told it cannot.
    pub path: String,
    /// Whether the machine is told the disk is write-protected.
    pub protected: bool,
    /// Whether the image has to be written to `path` first: a copy is made
    /// when the disk goes in, not at the first write, so it is there to be
    /// found.
    pub write_copy: bool,
}

/// Work out where a disk from `path` goes in: the file itself, told it is
/// protected, for read-only; the file itself for writing to; or a copy,
/// where the user said or beside the disk, for a copy.
pub fn mount_plan(how: Mounted, path: &str, copy_to: Option<String>) -> (r: MountPlan)
    ensures
        how == Mounted::ReadOnly ==> r.path@ == path@ && r.protected && !r.write_copy,
        how == Mounted::InPlace ==> r.path@ == path@ && !r.protected && !r.write_copy,
        how == Mounted::Copy ==> !r.protected && r.write_copy && match copy_to {
            Some(to) => r.path@ == to@,
            None => exists|found: Seq<bool>|
                looked_up_in_turn(found) && r.path@ == copy_candidate(path@, #[trigger] first_free_number(found)),
        },
{
    match how {
        Mounted::ReadOnly => MountPlan { path: path.to_owned(), protected: true, write_copy: false },
        Mounted::InPlace => MountPlan { path: path.to_owned(), protected: false, write_copy: false },
        Mounted::Copy => {
            let to = match copy_to {
                Some(to) => to,
                None => copy_name(path),
            };
            MountPlan { path: to, protected: false, write_copy: true }
        },
    }
}

/// Whether a disk in the drive is written back: only when something has
/// changed, it is not write-protected, and it has a file to go to.
pub fn should_save(dirty: bool, protected: bool, has_path: bool) -> (r: bool)
    ensures
        r == (dirty && !protected && has_path),
{
    dirty && !protected && has_path
}

/// What the status line says when a disk goes in.
pub open spec fn mounted_text(name: Seq<char>, how: Mounted) -> Seq<char> {
    name + " \u{2014} "@ + mounted_label(how)
}

pub fn mounted_status(name: &str, how: Mounted) -> (r: String)
    ensures
        r@ == mounted_text(name@, how),
{
    let mut s = String::new();
    push_str(&mut s, name);
    push_str(&mut s, " \u{2014} ");
    push_str(&mut s, how.label());
    assert(s@ =~= mounted_text(name@, how));
    s
}

} // verus!
