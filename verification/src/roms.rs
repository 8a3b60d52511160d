//! The ROM images the machines boot from: which machine an image is for,
//! where each is kept once found, and which of the files in a directory to
//! take for each machine.
use vstd::prelude::*;
use crate::paths::{extension_of, file_name_of, opt_text, path_extension, path_file_name};
use crate::text::{ascii_lower, chars_of, contains, contains_seq, to_lower};

verus! {

/// The Spectrums the emulator can be.
#[derive(Clone, Copy, Debug, PartialEq, Eq, Structural)]
pub enum Model {
    Spectrum48,
    Spectrum128,
    Plus2A,
    Plus3,
}

/// The four models, in the order they came out.
pub open spec fn model_index(m: Model) -> nat {
    match m {
        Model::Spectrum48 => 0,
        Model::Spectrum128 => 1,
        Model::Plus2A => 2,
        Model::Plus3 => 3,
    }
}

/// Which machine a ROM image of `len` bytes is for: 16K is a 48K ROM, 32K a
/// 128K/+2 one, 64K the four-ROM +2A/+3 image.
pub open spec fn model_for_size(len: nat) -> Option<Model> {
    if len == 0x4000 {
        Some(Model::Spectrum48)
    } else if len == 0x8000 {
        Some(Model::Spectrum128)
    } else if len == 0x10000 {
        Some(Model::Plus3)
    } else {
        None
    }
}

/// The ROMs known, as far as anything outside can tell.
pub struct RomsView {
    pub rom48: Option<Seq<u8>>,
    pub rom128: Option<Seq<u8>>,
    pub rom_plus3: Option<Seq<u8>>,
    pub rom_zx81: Option<Seq<u8>>,
}

pub open spec fn opt_bytes(o: Option<Vec<u8>>) -> Option<Seq<u8>> {
    match o {
        Some(v) => Some(v@),
        None => None,
    }
}

impl RomsView {
    /// The image that boots a model. The +2A and the +3 share one.
    pub open spec fn for_model(self, model: Model) -> Option<Seq<u8>> {
        match model {
            Model::Spectrum48 => self.rom48,
            Model::Spectrum128 => self.rom128,
            Model::Plus2A | Model::Plus3 => self.rom_plus3,
        }
    }

    /// The same ROMs with a model's image replaced.
    pub open spec fn with_model(self, model: Model, data: Seq<u8>) -> RomsView {
        match model {
            Model::Spectrum48 => RomsView { rom48: Some(data), ..self },
            Model::Spectrum128 => RomsView { rom128: Some(data), ..self },
            Model::Plus2A | Model::Plus3 => RomsView { rom_plus3: Some(data), ..self },
        }
    }
}

/// ROM images found at startup, used when switching machines.
#[derive(Clone)]
pub struct Roms {
    pub rom48: Option<Vec<u8>>,
    pub rom128: Option<Vec<u8>>,
    /// The 64K four-ROM image shared by the +2A and +3.
    pub rom_plus3: Option<Vec<u8>>,
    /// The ZX81's ROM, which is a different machine entirely.
    pub rom_zx81: Option<Vec<u8>>,
}

impl View for Roms {
    type V = RomsView;

    open spec fn view(&self) -> RomsView {
        RomsView {
            rom48: opt_bytes(self.rom48),
            rom128: opt_bytes(self.rom128),
            rom_plus3: opt_bytes(self.rom_plus3),
            rom_zx81: opt_bytes(self.rom_zx81),
        }
    }
}

impl Default for Roms {
    fn default() -> (r: Roms)
        ensures
            r@.rom48 is None,
            r@.rom128 is None,
            r@.rom_plus3 is None,
            r@.rom_zx81 is None,
    {
        Roms { rom48: None, rom128: None, rom_plus3: None, rom_zx81: None }
    }
}

impl Roms {
    pub fn for_model(&self, model: Model) -> (r: Option<&Vec<u8>>)
        ensures
            match r {
                Some(v) => self@.for_model(model) == Some(v@),
                None => self@.for_model(model) is None,
            },
    {
        match model {
            Model::Spectrum48 => self.rom48.as_ref(),
            Model::Spectrum128 => self.rom128.as_ref(),
            Model::Plus2A | Model::Plus3 => self.rom_plus3.as_ref(),
        }
    }

    /// Which machine a ROM image is for, judged by its size: 16K is a 48K
    /// ROM, 32K a 128K/+2 one, 64K the four-ROM +2A/+3 image.
    pub fn model_for_rom_size(len: usize) -> (r: Option<Model>)
        ensures
            r == model_for_size(len as nat),
    {
        if len == 0x4000 {
            Some(Model::Spectrum48)
        } else if len == 0x8000 {
            Some(Model::Spectrum128)
        } else if len == 0x10000 {
            Some(Model::Plus3)
        } else {
            None
        }
    }

    pub fn set_for_model(&mut self, model: Model, data: Vec<u8>)
        ensures
            final(self)@ == old(self)@.with_model(model, data@),
    {
        match model {
            Model::Spectrum48 => self.rom48 = Some(data),
            Model::Spectrum128 => self.rom128 = Some(data),
            Model::Plus2A | Model::Plus3 => self.rom_plus3 = Some(data),
        }
    }

    /// File name to suggest when the ROM for a model is missing.
    pub fn expected_file(model: Model) -> (r: &'static str)
        ensures
            r@ == match model {
                Model::Spectrum48 => "roms/48.rom"@,
                Model::Spectrum128 => "roms/128.rom"@,
                Model::Plus2A | Model::Plus3 => "roms/plus3.rom"@,
            },
    {
        match model {
            Model::Spectrum48 => "roms/48.rom",
            Model::Spectrum128 => "roms/128.rom",
            Model::Plus2A | Model::Plus3 => "roms/plus3.rom",
        }
    }
}

/// A model's image, once set, is the one it boots from; the other machines'
/// are as they were, except that the +2A and the +3 share theirs.
pub proof fn set_then_get(r: RomsView, set: Model, data: Seq<u8>, get: Model)
    ensures
        r.with_model(set, data).for_model(set) == Some(data),
        (model_index(set) < 2 || model_index(get) < 2) && set != get
            ==> r.with_model(set, data).for_model(get) == r.for_model(get),
        r.with_model(set, data).rom_zx81 == r.rom_zx81,
{
}


// ---------------------------------------------------------------------------
// Choosing among the files in a directory
// ---------------------------------------------------------------------------

/// The file name of a path, in small letters, or nothing.
pub open spec fn lower_name(path: Seq<char>) -> Seq<char> {
    match path_file_name(path) {
        Some(n) => ascii_lower(n),
        None => Seq::<char>::empty(),
    }
}

/// Whether a file name mentions the machine its size implies.
pub open spec fn suggests(path: Seq<char>, model: Model) -> bool {
    let name = lower_name(path);
    match model {
        Model::Spectrum48 => contains_seq(name, "48"@),
        Model::Spectrum128 => contains_seq(name, "128"@) || contains_seq(name, "plus2"@),
        Model::Plus2A | Model::Plus3 => contains_seq(name, "plus3"@) || contains_seq(name, "+3"@)
            || contains_seq(name, "plus2a"@),
    }
}

/// Whether a path is named like a ROM image: `.rom` or `.bin`, in either
/// case.
pub open spec fn is_rom_file(path: Seq<char>) -> bool {
    match path_extension(path) {
        Some(e) => ascii_lower(e) == "rom"@ || ascii_lower(e) == "bin"@,
        None => false,
    }
}

/// Which machine a file in the directory could be the ROM for: one named like
/// a ROM whose size could be read and is a ROM's.
pub open spec fn candidate(entry: (Seq<char>, Option<u64>)) -> Option<Model> {
    if !is_rom_file(entry.0) {
        None
    } else {
        match entry.1 {
            Some(n) => model_for_size(n as nat),
            None => None,
        }
    }
}

/// Where a model first appears in a list of choices.
pub open spec fn slot_of(best: Seq<(Seq<char>, Model)>, m: Model) -> Option<int>
    decreases best.len(),
{
    if best.len() == 0 {
        None
    } else {
        match slot_of(best.drop_last(), m) {
            Some(i) => Some(i),
            None => if best.last().1 == m {
                Some(best.len() - 1)
            } else {
                None
            },
        }
    }
}

/// The files chosen, one per machine, after looking at `files` in order.
pub open spec fn chosen(files: Seq<(Seq<char>, Option<u64>)>) -> Seq<(Seq<char>, Model)>
    decreases files.len(),
{
    if files.len() == 0 {
        Seq::empty()
    } else {
        let prev = chosen(files.drop_last());
        let f = files.last();
        match candidate(f) {
            None => prev,
            Some(m) => match slot_of(prev, m) {
                Some(i) => if suggests(f.0, m) && !suggests(prev[i].0, m) {
                    prev.update(i, (f.0, m))
                } else {
                    prev
                },
                None => prev.push((f.0, m)),
            },
        }
    }
}

/// The first file that could be the ROM for `m`, and, when `named` is set,
/// whose name mentions it too.
pub open spec fn first_fit(files: Seq<(Seq<char>, Option<u64>)>, m: Model, named: bool) -> Option<
    int,
>
    decreases files.len(),
{
    if files.len() == 0 {
        None
    } else {
        match first_fit(files.drop_last(), m, named) {
            Some(i) => Some(i),
            None => if candidate(files.last()) == Some(m) && (!named || suggests(
                files.last().0,
                m,
            )) {
                Some(files.len() - 1)
            } else {
                None
            },
        }
    }
}

/// What the directory gives a model: a file whose name mentions it if there
/// is one, the first such; otherwise the first that fits at all.
pub open spec fn preferred(files: Seq<(Seq<char>, Option<u64>)>, m: Model) -> Option<Seq<char>> {
    match first_fit(files, m, true) {
        Some(i) => Some(files[i].0),
        None => match first_fit(files, m, false) {
            Some(i) => Some(files[i].0),
            None => None,
        },
    }
}

/// The path chosen for `m`, if any.
pub open spec fn chosen_for(files: Seq<(Seq<char>, Option<u64>)>, m: Model) -> Option<Seq<char>> {
    let best = chosen(files);
    match slot_of(best, m) {
        Some(i) => Some(best[i].0),
        None => None,
    }
}

pub proof fn lemma_slot_of(best: Seq<(Seq<char>, Model)>, m: Model)
    ensures
        match slot_of(best, m) {
            Some(i) => 0 <= i < best.len() && best[i].1 == m && forall|j: int|
                0 <= j < i ==> best[j].1 != m,
            None => forall|j: int| 0 <= j < best.len() ==> best[j].1 != m,
        },
    decreases best.len(),
{
    if best.len() > 0 {
        lemma_slot_of(best.drop_last(), m);
        match slot_of(best.drop_last(), m) {
            Some(i) => {
                assert forall|j: int| 0 <= j < i implies best[j].1 != m by {
                    assert(best[j] == best.drop_last()[j]);
                }
            },
            None => {
                assert forall|j: int| 0 <= j < best.len() - 1 implies best[j].1 != m by {
                    assert(best[j] == best.drop_last()[j]);
                }
            },
        }
    }
}

proof fn lemma_slot_update(best: Seq<(Seq<char>, Model)>, i: int, p: Seq<char>, m: Model)
    requires
        0 <= i < best.len(),
    ensures
        slot_of(best.update(i, (p, best[i].1)), m) == slot_of(best, m),
    decreases best.len(),
{
    let after = best.update(i, (p, best[i].1));
    if i < best.len() - 1 {
        assert(after.drop_last() =~= best.drop_last().update(i, (p, best[i].1)));
        lemma_slot_update(best.drop_last(), i, p, m);
        assert(after.last() == best.last());
    } else {
        assert(after.drop_last() =~= best.drop_last());
    }
}

proof fn lemma_first_fit(files: Seq<(Seq<char>, Option<u64>)>, m: Model, named: bool)
    ensures
        match first_fit(files, m, named) {
            Some(i) => 0 <= i < files.len() && candidate(files[i]) == Some(m) && (!named
                || suggests(files[i].0, m)),
            None => forall|j: int|
                0 <= j < files.len() ==> !(candidate(files[j]) == Some(m) && (!named || suggests(
                    files[j].0,
                    m,
                ))),
        },
    decreases files.len(),
{
    if files.len() > 0 {
        lemma_first_fit(files.drop_last(), m, named);
        match first_fit(files.drop_last(), m, named) {
            Some(i) => {
                assert(files[i] == files.drop_last()[i]);
            },
            None => {
                assert forall|j: int| 0 <= j < files.len() - 1 implies !(candidate(files[j])
                    == Some(m) && (!named || suggests(files[j].0, m))) by {
                    assert(files[j] == files.drop_last()[j]);
                }
            },
        }
    }
}

/// What was chosen for a model is a file that fits it.
proof fn lemma_chosen_fits(files: Seq<(Seq<char>, Option<u64>)>)
    ensures
        forall|i: int|
            0 <= i < chosen(files).len() ==> exists|k: int|
                0 <= k < files.len() && files[k].0 == (#[trigger] chosen(files)[i]).0 && candidate(
                    files[k],
                ) == Some(chosen(files)[i].1),
    decreases files.len(),
{
    if files.len() > 0 {
        let front = files.drop_last();
        lemma_chosen_fits(front);
        let prev = chosen(front);
        let best = chosen(files);
        let kf = files.len() - 1;
        assert(files[kf] == files.last());
        assert forall|i: int| 0 <= i < best.len() implies exists|k: int|
            0 <= k < files.len() && files[k].0 == (#[trigger] best[i]).0 && candidate(files[k])
                == Some(best[i].1) by {
            let from_prev = i < prev.len() && best[i] == prev[i];
            if from_prev {
                let k = choose|k: int|
                    0 <= k < front.len() && front[k].0 == (#[trigger] prev[i]).0 && candidate(
                        front[k],
                    ) == Some(prev[i].1);
                assert(files[k] == front[k]);
                assert(files[k].0 == best[i].0 && candidate(files[k]) == Some(best[i].1));
            } else {
                match candidate(files.last()) {
                    None => {
                        assert(best == prev);
                    },
                    Some(m0) => {
                        lemma_slot_of(prev, m0);
                        match slot_of(prev, m0) {
                            Some(j) => {
                                if suggests(files.last().0, m0) && !suggests(prev[j].0, m0) {
                                    assert(best == prev.update(j, (files.last().0, m0)));
                                    assert(i == j);
                                    assert(best[i] == (files.last().0, m0));
                                } else {
                                    assert(best == prev);
                                }
                            },
                            None => {
                                assert(best == prev.push((files.last().0, m0)));
                                assert(i == prev.len());
                                assert(best[i] == (files.last().0, m0));
                            },
                        }
                        assert(files[kf].0 == best[i].0 && candidate(files[kf]) == Some(best[i].1));
                    },
                }
            }
        }
    }
}

/// The choice the directory makes for each machine: a file whose name
/// mentions the machine wins, otherwise the first in the order given; a
/// machine nothing fits gets nothing; and no machine is chosen twice.
pub proof fn choice_prefers_named(files: Seq<(Seq<char>, Option<u64>)>, m: Model)
    ensures
        chosen_for(files, m) == preferred(files, m),
        forall|i: int, j: int|
            0 <= i < j < chosen(files).len() ==> (#[trigger] chosen(files)[i]).1 != (
            #[trigger] chosen(files)[j]).1,
    decreases files.len(),
{
    if files.len() > 0 {
        let front = files.drop_last();
        let f = files.last();
        let prev = chosen(front);
        let k = files.len() - 1;
        assert(files[k] == f);
        choice_prefers_named(front, m);
        lemma_slot_of(prev, m);
        lemma_first_fit(front, m, true);
        lemma_first_fit(front, m, false);
        lemma_first_fit(files, m, true);
        lemma_first_fit(files, m, false);
        lemma_chosen_fits(front);
        match candidate(f) {
            None => {
                assert(chosen(files) == prev);
            },
            Some(m0) => {
                lemma_slot_of(prev, m0);
                choice_prefers_named(front, m0);
                lemma_first_fit(front, m0, true);
                lemma_first_fit(front, m0, false);
                match slot_of(prev, m0) {
                    Some(i) => {
                        if suggests(f.0, m0) && !suggests(prev[i].0, m0) {
                            lemma_slot_update(prev, i, f.0, m);
                            assert(chosen(files) == prev.update(i, (f.0, prev[i].1)));
                            if m == m0 {
                                // Nothing before was named, or it would have been chosen.
                                assert(first_fit(front, m0, true) is None);
                            }
                        } else {
                            assert(chosen(files) == prev);
                            if m == m0 {
                                if suggests(f.0, m0) {
                                    assert(first_fit(front, m0, true) is Some);
                                }
                            }
                        }
                    },
                    None => {
                        assert(chosen(files) == prev.push((f.0, m0)));
                        assert(prev.push((f.0, m0)).drop_last() =~= prev);
                        if m == m0 {
                            assert(first_fit(front, m0, false) is None);
                            assert(first_fit(front, m0, true) is None);
                        }
                    },
                }
            },
        }
    }
}

/// The directory entries as text: each path, and its size if it could be
/// read.
pub open spec fn entries(files: Seq<(String, Option<u64>)>) -> Seq<(Seq<char>, Option<u64>)> {
    files.map_values(|f: (String, Option<u64>)| (f.0@, f.1))
}

/// The choices as text.
pub open spec fn picks(best: Seq<(String, Model)>) -> Seq<(Seq<char>, Model)> {
    best.map_values(|b: (String, Model)| (b.0@, b.1))
}

impl Roms {
    /// Whether a file name mentions the machine its size implies.
    pub fn name_suggests(path: &str, model: Model) -> (r: bool)
        ensures
            r == suggests(path@, model),
    {
        let name = match file_name_of(path) {
            Some(n) => {
                let chars = chars_of(n.as_str());
                to_lower(&chars)
            },
            None => Vec::new(),
        };
        assert(name@ =~= lower_name(path@));
        match model {
            Model::Spectrum48 => contains(&name, &chars_of("48")),
            Model::Spectrum128 => contains(&name, &chars_of("128")) || contains(
                &name,
                &chars_of("plus2"),
            ),
            Model::Plus2A | Model::Plus3 => contains(&name, &chars_of("plus3")) || contains(
                &name,
                &chars_of("+3"),
            ) || contains(&name, &chars_of("plus2a")),
        }
    }

    /// Whether a path is named like a ROM image.
    pub fn is_rom_file(path: &str) -> (r: bool)
        ensures
            r == is_rom_file(path@),
    {
        match extension_of(path) {
            Some(e) => {
                let chars = chars_of(e.as_str());
                let lower = to_lower(&chars);
                crate::text::same(&lower, &chars_of("rom")) || crate::text::same(
                    &lower,
                    &chars_of("bin"),
                )
            },
            None => false,
        }
    }

    /// Which of the files in a directory to take for each machine.
    ///
    /// `files` is what the directory holds, in alphabetical order, each with
    /// its size if that could be read. ROM images are recognised by size.
    /// Where several fit the same machine, one whose name mentions it wins
    /// (`128.rom` beats `something.rom`), otherwise the first.
    pub fn choose_from(files: &Vec<(String, Option<u64>)>) -> (r: Vec<(String, Model)>)
        ensures
            picks(r@) == chosen(entries(files@)),
    {
        let mut best: Vec<(String, Model)> = Vec::new();
        let mut n: usize = 0;
        while n < files.len()
            invariant
                n <= files.len(),
                picks(best@) == chosen(entries(files@.take(n as int))),
            decreases files.len() - n,
        {
            let ghost before = entries(files@.take(n as int));
            assert(entries(files@.take(n + 1)).drop_last() =~= before);
            assert(entries(files@.take(n + 1)).last() == (files@[n as int].0@, files@[n as int].1));
            let path = &files[n].0;
            let size = files[n].1;
            let fits = if Roms::is_rom_file(path.as_str()) {
                match size {
                    Some(len) => {
                        if len == 0x4000 {
                            Some(Model::Spectrum48)
                        } else if len == 0x8000 {
                            Some(Model::Spectrum128)
                        } else if len == 0x10000 {
                            Some(Model::Plus3)
                        } else {
                            None
                        }
                    },
                    None => None,
                }
            } else {
                None
            };
            assert(fits == candidate((path@, size)));
            match fits {
                None => {},
                Some(model) => {
                    let named = Roms::name_suggests(path.as_str(), model);
                    let mut i: usize = 0;
                    while i < best.len() && best[i].1 != model
                        invariant
                            i <= best.len(),
                            forall|j: int| 0 <= j < i ==> best@[j].1 != model,
                        decreases best.len() - i,
                    {
                        i = i + 1;
                    }
                    let found = i < best.len();
                    proof {
                        lemma_slot_of(picks(best@), model);
                        match slot_of(picks(best@), model) {
                            Some(k) => {
                                assert(picks(best@)[k].1 == best@[k].1);
                                if !found {
                                    assert(best@[k].1 != model);
                                } else {
                                    if k < i {
                                        assert(best@[k].1 != model);
                                    }
                                    if k > i {
                                        assert(picks(best@)[i as int].1 != model);
                                    }
                                }
                            },
                            None => {
                                if found {
                                    assert(picks(best@)[i as int].1 == model);
                                }
                            },
                        }
                    }
                    if found {
                        let held = Roms::name_suggests(best[i].0.as_str(), model);
                        if named && !held {
                            let ghost old_best = best@;
                            best.set(i, (path.clone(), model));
                            assert(picks(best@) =~= picks(old_best).update(
                                i as int,
                                (path@, model),
                            ));
                        }
                    } else {
                        let ghost old_best = best@;
                        best.push((path.clone(), model));
                        assert(picks(best@) =~= picks(old_best).push((path@, model)));
                    }
                },
            }
            n = n + 1;
        }
        assert(files@.take(files.len() as int) =~= files@);
        best
    }
}

/// The name a file is adopted under: its file name, or nothing.
pub open spec fn file_label(path: Seq<char>) -> Seq<char> {
    match path_file_name(path) {
        Some(n) => n,
        None => Seq::<char>::empty(),
    }
}

/// The files' contents as bytes, where they could be read.
pub open spec fn read_bytes(read: Seq<Option<Vec<u8>>>) -> Seq<Option<Seq<u8>>> {
    read.map_values(|o: Option<Vec<u8>>| opt_bytes(o))
}

/// What taking the first `n` chosen files does, in order: a file whose
/// machine has a ROM already is passed over, as is one that could not be
/// read; any other becomes its machine's ROM, and its name and machine are
/// listed. The ROMs after, and the list.
pub open spec fn adopted(
    roms: RomsView,
    picks: Seq<(Seq<char>, Model)>,
    read: Seq<Option<Seq<u8>>>,
    n: nat,
) -> (RomsView, Seq<(Seq<char>, Model)>)
    decreases n,
{
    if n == 0 {
        (roms, Seq::empty())
    } else {
        let (r, out) = adopted(roms, picks, read, (n - 1) as nat);
        let (path, model) = picks[n - 1];
        if r.for_model(model) is Some {
            (r, out)
        } else {
            match read[n - 1] {
                Some(data) => (r.with_model(model, data), out.push((file_label(path), model))),
                None => (r, out),
            }
        }
    }
}

impl Roms {
    /// Fill in ROMs for machines that have none from the chosen files of a
    /// directory (`picks`, as `choose_from` gives them), given what each file
    /// held where it could be read (`read`, one for each pick). Gives back the
    /// name of each file adopted and the machine it was taken for, for the
    /// status line.
    pub fn adopt(&mut self, picks: &Vec<(String, Model)>, read: Vec<Option<Vec<u8>>>) -> (r: Vec<(String, Model)>)
        requires
            read.len() == picks.len(),
        ensures
            (final(self)@, crate::roms::picks(r@)) == adopted(
                old(self)@,
                crate::roms::picks(picks@),
                read_bytes(read@),
                picks.len() as nat,
            ),
    {
        let ghost all = read_bytes(read@);
        let ghost chosen = crate::roms::picks(picks@);
        let mut read = read;
        let mut out: Vec<(String, Model)> = Vec::new();
        let mut i: usize = 0;
        while i < picks.len()
            invariant
                i <= picks.len(),
                all.len() == picks.len(),
                chosen == crate::roms::picks(picks@),
                read_bytes(read@) == all.subrange(i as int, all.len() as int),
                (self@, crate::roms::picks(out@)) == adopted(old(self)@, chosen, all, i as nat),
            decreases picks.len() - i,
        {
            let ghost before = read@;
            assert(read_bytes(before).len() == before.len());
            assert(read_bytes(before)[0] == all[i as int]);
            let contents = read.remove(0);
            assert(read@ =~= before.subrange(1, before.len() as int));
            assert forall|k: int| 0 <= k < read@.len() implies #[trigger] read_bytes(read@)[k] == all[i + 1 + k] by {
                assert(read_bytes(before)[k + 1] == all[i + 1 + k]);
            }
            assert(read_bytes(read@) =~= all.subrange(i + 1, all.len() as int));
            assert(opt_bytes(contents) == all[i as int]);
            let model = picks[i].1;
            assert(chosen[i as int] == (picks@[i as int].0@, model));
            let have = match self.for_model(model) {
                Some(_) => true,
                None => false,
            };
            if !have {
                match contents {
                    Some(data) => {
                        self.set_for_model(model, data);
                        let label = match file_name_of(picks[i].0.as_str()) {
                            Some(n) => n,
                            None => String::new(),
                        };
                        out.push((label, model));
                        assert(crate::roms::picks(out@) =~= adopted(old(self)@, chosen, all, i as nat).1.push(
                            (file_label(picks@[i as int].0@), model),
                        ));
                    },
                    None => {},
                }
            }
            i = i + 1;
        }
        out
    }
}

impl Roms {
    /// Which of the chosen files are worth reading: those for a machine that
    /// has no ROM yet.
    pub fn wanted(&self, picks: &Vec<(String, Model)>) -> (r: Vec<bool>)
        ensures
            r.len() == picks.len(),
            forall|i: int| 0 <= i < r.len() ==> #[trigger] r@[i] == (self@.for_model(picks@[i].1) is None),
    {
        let mut r: Vec<bool> = Vec::new();
        let mut i: usize = 0;
        while i < picks.len()
            invariant
                i <= picks.len(),
                r.len() == i,
                forall|k: int| 0 <= k < i ==> #[trigger] r@[k] == (self@.for_model(picks@[k].1) is None),
            decreases picks.len() - i,
        {
            let none = match self.for_model(picks[i].1) {
                Some(_) => false,
                None => true,
            };
            r.push(none);
            i = i + 1;
        }
        r
    }
}

} // verus!
