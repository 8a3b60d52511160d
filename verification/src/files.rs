//! What a file is taken to be, by its extension, and where the files that go
//! with it are looked for.
use vstd::prelude::*;
use crate::paths::{extension_of, joined, path_extension, path_join, path_with_extension, with_extension};
use crate::roms::Model;
use crate::text::{ascii_lower, chars_of, decimal, push_decimal, push_str, same, to_lower};

verus! {

/// The kinds of file the emulator loads, and what is done with each.
#[derive(Clone, Copy, Debug, PartialEq, Eq, Structural)]
pub enum FileType {
    /// A Spectrum tape, into the deck.
    Tape,
    /// A ZX81 program, which only plays into a ZX81.
    Zx81Tape,
    /// A recording of a run, played back.
    Recording,
    /// A microdrive cartridge, which needs an Interface 1.
    Cartridge,
    /// A +3 disk, which needs a machine with a drive.
    Disk,
    /// A screen, into the machine that is running.
    Screen,
    /// A snapshot that keeps the paging and the peripherals with it.
    Szx,
    /// An older snapshot.
    Snapshot,
    /// A ROM image.
    Rom,
    /// An archive, opened for the first thing in it that can be loaded.
    Archive,
    /// None of these.
    Unknown,
}

/// What a file is, by its extension in small letters.
pub open spec fn type_of_extension(ext: Seq<char>) -> FileType {
    if ext == "tzx"@ || ext == "tap"@ {
        FileType::Tape
    } else if ext == "p"@ || ext == "81"@ || ext == "p81"@ {
        FileType::Zx81Tape
    } else if ext == "rzx"@ {
        FileType::Recording
    } else if ext == "mdr"@ {
        FileType::Cartridge
    } else if ext == "dsk"@ || ext == "ipf"@ {
        FileType::Disk
    } else if ext == "scr"@ {
        FileType::Screen
    } else if ext == "szx"@ {
        FileType::Szx
    } else if ext == "sna"@ || ext == "z80"@ {
        FileType::Snapshot
    } else if ext == "rom"@ || ext == "bin"@ {
        FileType::Rom
    } else if ext == "zip"@ {
        FileType::Archive
    } else {
        FileType::Unknown
    }
}

/// The extension of a path in small letters, or nothing where it has none.
pub open spec fn lower_extension(path: Seq<char>) -> Seq<char> {
    match path_extension(path) {
        Some(e) => ascii_lower(e),
        None => Seq::empty(),
    }
}

fn is(ext: &Vec<char>, word: &str) -> (r: bool)
    ensures
        r == (ext@ == word@),
{
    same(ext, &chars_of(word))
}

/// What a file is, by its extension, which has been put in small letters.
pub fn extension_type(ext: &Vec<char>) -> (r: FileType)
    ensures
        r == type_of_extension(ext@),
{
    if is(ext, "tzx") || is(ext, "tap") {
        FileType::Tape
    } else if is(ext, "p") || is(ext, "81") || is(ext, "p81") {
        FileType::Zx81Tape
    } else if is(ext, "rzx") {
        FileType::Recording
    } else if is(ext, "mdr") {
        FileType::Cartridge
    } else if is(ext, "dsk") || is(ext, "ipf") {
        FileType::Disk
    } else if is(ext, "scr") {
        FileType::Screen
    } else if is(ext, "szx") {
        FileType::Szx
    } else if is(ext, "sna") || is(ext, "z80") {
        FileType::Snapshot
    } else if is(ext, "rom") || is(ext, "bin") {
        FileType::Rom
    } else if is(ext, "zip") {
        FileType::Archive
    } else {
        FileType::Unknown
    }
}

/// A path's extension in small letters.
pub fn extension_lower(path: &str) -> (r: Vec<char>)
    ensures
        r@ == lower_extension(path@),
{
    match extension_of(path) {
        Some(e) => to_lower(&chars_of(e.as_str())),
        None => Vec::new(),
    }
}

/// What a file is, by its extension, whatever case that is written in.
pub fn file_type(path: &str) -> (r: FileType)
    ensures
        r == type_of_extension(lower_extension(path@)),
{
    let ext = extension_lower(path);
    extension_type(&ext)
}

/// What the status line says of a file that is none of these.
pub open spec fn unsupported_text(ext: Seq<char>) -> Seq<char> {
    "Unsupported file type: ."@ + ext
}

pub fn unsupported(ext: &Vec<char>) -> (r: String)
    ensures
        r@ == unsupported_text(ext@),
{
    let mut s = String::new();
    push_str(&mut s, "Unsupported file type: .");
    let mut i: usize = 0;
    let ghost front = s@;
    while i < ext.len()
        invariant
            i <= ext.len(),
            s@ == front + ext@.take(i as int),
        decreases ext.len() - i,
    {
        crate::text::push_char(&mut s, ext[i]);
        assert(ext@.take(i + 1) =~= ext@.take(i as int).push(ext@[i as int]));
        i = i + 1;
    }
    assert(ext@.take(ext.len() as int) =~= ext@);
    s
}

/// The extensions looked for inside an archive, in the order they are
/// preferred when one holds several.
pub open spec fn archive_extensions() -> Seq<Seq<char>> {
    seq![
        "tzx"@,
        "tap"@,
        "p"@,
        "81"@,
        "p81"@,
        "rzx"@,
        "sna"@,
        "z80"@,
        "szx"@,
        "scr"@,
        "dsk"@,
        "ipf"@,
    ]
}

/// The extensions worth loading out of an archive.
pub fn archive_wanted() -> (r: Vec<&'static str>)
    ensures
        r@.map_values(|s: &'static str| s@) == archive_extensions(),
{
    let v: Vec<&'static str> = vec![
        "tzx",
        "tap",
        "p",
        "81",
        "p81",
        "rzx",
        "sna",
        "z80",
        "szx",
        "scr",
        "dsk",
        "ipf",
    ];
    assert(v@.map_values(|s: &'static str| s@) =~= archive_extensions());
    v
}

/// What a file found in an archive is taken to be: whatever is not a
/// recording, a disk, a screen or a snapshot goes into the deck.
pub open spec fn type_in_archive(ext: Seq<char>) -> FileType {
    match type_of_extension(ext) {
        FileType::Recording => FileType::Recording,
        FileType::Disk => FileType::Disk,
        FileType::Screen => FileType::Screen,
        FileType::Szx => FileType::Szx,
        FileType::Snapshot => FileType::Snapshot,
        FileType::Zx81Tape => FileType::Zx81Tape,
        _ => FileType::Tape,
    }
}

/// What the file called `name` inside an archive is taken to be.
pub fn archive_entry_type(name: &str) -> (r: FileType)
    ensures
        r == type_in_archive(lower_extension(name@)),
{
    match file_type(name) {
        FileType::Recording => FileType::Recording,
        FileType::Disk => FileType::Disk,
        FileType::Screen => FileType::Screen,
        FileType::Szx => FileType::Szx,
        FileType::Snapshot => FileType::Snapshot,
        FileType::Zx81Tape => FileType::Zx81Tape,
        _ => FileType::Tape,
    }
}

/// The file the notes and symbols belong to: the recording if one is
/// playing, otherwise the tape, otherwise the ROM.
pub fn notes_source(recording: Option<String>, tape: Option<String>, rom: Option<String>) -> (r:
    Option<String>)
    ensures
        r == (match recording {
            Some(p) => Some(p),
            None => match tape {
                Some(p) => Some(p),
                None => rom,
            },
        }),
{
    match recording {
        Some(p) => Some(p),
        None => match tape {
            Some(p) => Some(p),
            None => rom,
        },
    }
}

/// The word a machine's own symbol files are named with.
pub open spec fn machine_tag_of(zx81: bool, model: Model) -> Seq<char> {
    if zx81 {
        "zx81"@
    } else {
        match model {
            Model::Spectrum48 => "48"@,
            Model::Spectrum128 => "128"@,
            Model::Plus2A => "plus2a"@,
            Model::Plus3 => "plus3"@,
        }
    }
}

pub fn machine_tag(zx81: bool, model: Model) -> (r: &'static str)
    ensures
        r@ == machine_tag_of(zx81, model),
{
    if zx81 {
        "zx81"
    } else {
        match model {
            Model::Spectrum48 => "48",
            Model::Spectrum128 => "128",
            Model::Plus2A => "plus2a",
            Model::Plus3 => "plus3",
        }
    }
}

/// The text of each string in a list.
pub open spec fn texts(v: Seq<String>) -> Seq<Seq<char>> {
    v.map_values(|s: String| s@)
}

/// Where names supplied by hand are read from, in order: a shared file and
/// one for the machine in the preferences directory, one for the ROM in use
/// on a machine with more than one ROM, and one beside whatever is being
/// disassembled.
pub open spec fn symbol_paths(
    config: Option<Seq<char>>,
    tag: Seq<char>,
    rom: Option<usize>,
    source: Option<Seq<char>>,
) -> Seq<Seq<char>> {
    (match config {
        Some(dir) => seq![
            path_join(dir, "symbols.txt"@),
            path_join(dir, "symbols-"@ + tag + ".txt"@),
        ] + (match rom {
            Some(n) => seq![path_join(dir, "symbols-"@ + tag + "-rom"@ + decimal(n as nat) + ".txt"@)],
            None => Seq::empty(),
        }),
        None => Seq::empty(),
    }) + (match source {
        Some(p) => seq![path_with_extension(p, "symbols.txt"@)],
        None => Seq::empty(),
    })
}

/// The files symbols are read from. `rom` is the ROM in use, given only on a
/// Spectrum with more than one.
pub fn symbol_files(config: Option<&str>, tag: &str, rom: Option<usize>, source: Option<&str>) -> (r:
    Vec<String>)
    ensures
        texts(r@) == symbol_paths(
            match config {
                Some(c) => Some(c@),
                None => None,
            },
            tag@,
            rom,
            match source {
                Some(s) => Some(s@),
                None => None,
            },
        ),
{
    let mut files: Vec<String> = Vec::new();
    match config {
        Some(dir) => {
            files.push(joined(dir, "symbols.txt"));
            let mut name = String::new();
            push_str(&mut name, "symbols-");
            push_str(&mut name, tag);
            push_str(&mut name, ".txt");
            files.push(joined(dir, name.as_str()));
            match rom {
                Some(n) => {
                    let mut name = String::new();
                    push_str(&mut name, "symbols-");
                    push_str(&mut name, tag);
                    push_str(&mut name, "-rom");
                    push_decimal(&mut name, n as u64);
                    push_str(&mut name, ".txt");
                    files.push(joined(dir, name.as_str()));
                },
                None => {},
            }
        },
        None => {},
    }
    match source {
        Some(p) => {
            proof {
                reveal_strlit("symbols.txt");
            }
            files.push(with_extension(p, "symbols.txt"));
        },
        None => {},
    }
    assert(texts(files@) =~= symbol_paths(
        match config {
            Some(c) => Some(c@),
            None => None,
        },
        tag@,
        rom,
        match source {
            Some(s) => Some(s@),
            None => None,
        },
    ));
    files
}

/// Whether a snapshot is written as an `.szx`, which keeps the paging, the
/// sound chip and what is plugged in: the name says which format, and
/// anything not called `.szx`, whatever the case, is written as an `.sna`.
pub fn writes_szx(path: &str) -> (r: bool)
    ensures
        r == (lower_extension(path@) == "szx"@),
{
    let ext = extension_lower(path);
    same(&ext, &chars_of("szx"))
}

/// What the status line says once a file is written.
pub open spec fn wrote_text(path: Seq<char>, n: usize) -> Seq<char> {
    "Wrote "@ + path + " ("@ + decimal(n as nat) + " bytes)"@
}

pub fn wrote_status(path: &str, n: usize) -> (r: String)
    ensures
        r@ == wrote_text(path@, n),
{
    let mut s = String::new();
    push_str(&mut s, "Wrote ");
    push_str(&mut s, path);
    push_str(&mut s, " (");
    push_decimal(&mut s, n as u64);
    push_str(&mut s, " bytes)");
    assert(s@ =~= wrote_text(path@, n));
    s
}

/// The extensions the emulator opens, each with what a file bearing it is
/// taken to be: tapes, ZX81 programs, recordings, cartridges, disks,
/// screens, the two kinds of snapshot, ROM images and archives.
pub open spec fn known_extensions() -> Seq<(Seq<char>, FileType)> {
    seq![
        ("tzx"@, FileType::Tape),
        ("tap"@, FileType::Tape),
        ("p"@, FileType::Zx81Tape),
        ("81"@, FileType::Zx81Tape),
        ("p81"@, FileType::Zx81Tape),
        ("rzx"@, FileType::Recording),
        ("mdr"@, FileType::Cartridge),
        ("dsk"@, FileType::Disk),
        ("ipf"@, FileType::Disk),
        ("scr"@, FileType::Screen),
        ("szx"@, FileType::Szx),
        ("sna"@, FileType::Snapshot),
        ("z80"@, FileType::Snapshot),
        ("rom"@, FileType::Rom),
        ("bin"@, FileType::Rom),
        ("zip"@, FileType::Archive),
    ]
}

/// A file whose extension is one of the known ones, written in any case, is
/// what that extension says: `.ROM`, `.rom` and `.Bin` are ROM images, `.TZX`
/// a tape, and so on.
pub proof fn files_are_what_their_extensions_say(path: Seq<char>, e: Seq<char>, i: int)
    requires
        path_extension(path) == Some(e),
        0 <= i < known_extensions().len(),
        ascii_lower(e) == known_extensions()[i].0,
    ensures
        type_of_extension(lower_extension(path)) == known_extensions()[i].1,
{
    reveal_strlit("tzx");
    reveal_strlit("tap");
    reveal_strlit("p");
    reveal_strlit("81");
    reveal_strlit("p81");
    reveal_strlit("rzx");
    reveal_strlit("mdr");
    reveal_strlit("dsk");
    reveal_strlit("ipf");
    reveal_strlit("scr");
    reveal_strlit("szx");
    reveal_strlit("sna");
    reveal_strlit("z80");
    reveal_strlit("rom");
    reveal_strlit("bin");
    reveal_strlit("zip");
    assert(lower_extension(path) == known_extensions()[i].0);
    if i == 0 {
        assert(known_extensions()[0].0 == "tzx"@);
        assert("tzx"@[1] != "tap"@[1]);
        assert("tzx"@.len() != "p"@.len());
        assert("tzx"@.len() != "81"@.len());
        assert("tzx"@[0] != "p81"@[0]);
        assert("tzx"@[0] != "rzx"@[0]);
        assert("tzx"@[0] != "mdr"@[0]);
        assert("tzx"@[0] != "dsk"@[0]);
        assert("tzx"@[0] != "ipf"@[0]);
        assert("tzx"@[0] != "scr"@[0]);
        assert("tzx"@[0] != "szx"@[0]);
        assert("tzx"@[0] != "sna"@[0]);
        assert("tzx"@[0] != "z80"@[0]);
        assert("tzx"@[0] != "rom"@[0]);
        assert("tzx"@[0] != "bin"@[0]);
        assert("tzx"@[0] != "zip"@[0]);
    } else if i == 1 {
        assert(known_extensions()[1].0 == "tap"@);
        assert("tap"@[1] != "tzx"@[1]);
        assert("tap"@.len() != "p"@.len());
        assert("tap"@.len() != "81"@.len());
        assert("tap"@[0] != "p81"@[0]);
        assert("tap"@[0] != "rzx"@[0]);
        assert("tap"@[0] != "mdr"@[0]);
        assert("tap"@[0] != "dsk"@[0]);
        assert("tap"@[0] != "ipf"@[0]);
        assert("tap"@[0] != "scr"@[0]);
        assert("tap"@[0] != "szx"@[0]);
        assert("tap"@[0] != "sna"@[0]);
        assert("tap"@[0] != "z80"@[0]);
        assert("tap"@[0] != "rom"@[0]);
        assert("tap"@[0] != "bin"@[0]);
        assert("tap"@[0] != "zip"@[0]);
    } else if i == 2 {
        assert(known_extensions()[2].0 == "p"@);
        assert("p"@.len() != "tzx"@.len());
        assert("p"@.len() != "tap"@.len());
        assert("p"@.len() != "81"@.len());
        assert("p"@.len() != "p81"@.len());
        assert("p"@.len() != "rzx"@.len());
        assert("p"@.len() != "mdr"@.len());
        assert("p"@.len() != "dsk"@.len());
        assert("p"@.len() != "ipf"@.len());
        assert("p"@.len() != "scr"@.len());
        assert("p"@.len() != "szx"@.len());
        assert("p"@.len() != "sna"@.len());
        assert("p"@.len() != "z80"@.len());
        assert("p"@.len() != "rom"@.len());
        assert("p"@.len() != "bin"@.len());
        assert("p"@.len() != "zip"@.len());
    } else if i == 3 {
        assert(known_extensions()[3].0 == "81"@);
        assert("81"@.len() != "tzx"@.len());
        assert("81"@.len() != "tap"@.len());
        assert("81"@.len() != "p"@.len());
        assert("81"@.len() != "p81"@.len());
        assert("81"@.len() != "rzx"@.len());
        assert("81"@.len() != "mdr"@.len());
        assert("81"@.len() != "dsk"@.len());
        assert("81"@.len() != "ipf"@.len());
        assert("81"@.len() != "scr"@.len());
        assert("81"@.len() != "szx"@.len());
        assert("81"@.len() != "sna"@.len());
        assert("81"@.len() != "z80"@.len());
        assert("81"@.len() != "rom"@.len());
        assert("81"@.len() != "bin"@.len());
        assert("81"@.len() != "zip"@.len());
    } else if i == 4 {
        assert(known_extensions()[4].0 == "p81"@);
        assert("p81"@[0] != "tzx"@[0]);
        assert("p81"@[0] != "tap"@[0]);
        assert("p81"@.len() != "p"@.len());
        assert("p81"@.len() != "81"@.len());
        assert("p81"@[0] != "rzx"@[0]);
        assert("p81"@[0] != "mdr"@[0]);
        assert("p81"@[0] != "dsk"@[0]);
        assert("p81"@[0] != "ipf"@[0]);
        assert("p81"@[0] != "scr"@[0]);
        assert("p81"@[0] != "szx"@[0]);
        assert("p81"@[0] != "sna"@[0]);
        assert("p81"@[0] != "z80"@[0]);
        assert("p81"@[0] != "rom"@[0]);
        assert("p81"@[0] != "bin"@[0]);
        assert("p81"@[0] != "zip"@[0]);
    } else if i == 5 {
        assert(known_extensions()[5].0 == "rzx"@);
        assert("rzx"@[0] != "tzx"@[0]);
        assert("rzx"@[0] != "tap"@[0]);
        assert("rzx"@.len() != "p"@.len());
        assert("rzx"@.len() != "81"@.len());
        assert("rzx"@[0] != "p81"@[0]);
        assert("rzx"@[0] != "mdr"@[0]);
        assert("rzx"@[0] != "dsk"@[0]);
        assert("rzx"@[0] != "ipf"@[0]);
        assert("rzx"@[0] != "scr"@[0]);
        assert("rzx"@[0] != "szx"@[0]);
        assert("rzx"@[0] != "sna"@[0]);
        assert("rzx"@[0] != "z80"@[0]);
        assert("rzx"@[1] != "rom"@[1]);
        assert("rzx"@[0] != "bin"@[0]);
        assert("rzx"@[0] != "zip"@[0]);
    } else if i == 6 {
        assert(known_extensions()[6].0 == "mdr"@);
        assert("mdr"@[0] != "tzx"@[0]);
        assert("mdr"@[0] != "tap"@[0]);
        assert("mdr"@.len() != "p"@.len());
        assert("mdr"@.len() != "81"@.len());
        assert("mdr"@[0] != "p81"@[0]);
        assert("mdr"@[0] != "rzx"@[0]);
        assert("mdr"@[0] != "dsk"@[0]);
        assert("mdr"@[0] != "ipf"@[0]);
        assert("mdr"@[0] != "scr"@[0]);
        assert("mdr"@[0] != "szx"@[0]);
        assert("mdr"@[0] != "sna"@[0]);
        assert("mdr"@[0] != "z80"@[0]);
        assert("mdr"@[0] != "rom"@[0]);
        assert("mdr"@[0] != "bin"@[0]);
        assert("mdr"@[0] != "zip"@[0]);
    } else if i == 7 {
        assert(known_extensions()[7].0 == "dsk"@);
        assert("dsk"@[0] != "tzx"@[0]);
        assert("dsk"@[0] != "tap"@[0]);
        assert("dsk"@.len() != "p"@.len());
        assert("dsk"@.len() != "81"@.len());
        assert("dsk"@[0] != "p81"@[0]);
        assert("dsk"@[0] != "rzx"@[0]);
        assert("dsk"@[0] != "mdr"@[0]);
        assert("dsk"@[0] != "ipf"@[0]);
        assert("dsk"@[0] != "scr"@[0]);
        assert("dsk"@[0] != "szx"@[0]);
        assert("dsk"@[0] != "sna"@[0]);
        assert("dsk"@[0] != "z80"@[0]);
        assert("dsk"@[0] != "rom"@[0]);
        assert("dsk"@[0] != "bin"@[0]);
        assert("dsk"@[0] != "zip"@[0]);
    } else if i == 8 {
        assert(known_extensions()[8].0 == "ipf"@);
        assert("ipf"@[0] != "tzx"@[0]);
        assert("ipf"@[0] != "tap"@[0]);
        assert("ipf"@.len() != "p"@.len());
        assert("ipf"@.len() != "81"@.len());
        assert("ipf"@[0] != "p81"@[0]);
        assert("ipf"@[0] != "rzx"@[0]);
        assert("ipf"@[0] != "mdr"@[0]);
        assert("ipf"@[0] != "dsk"@[0]);
        assert("ipf"@[0] != "scr"@[0]);
        assert("ipf"@[0] != "szx"@[0]);
        assert("ipf"@[0] != "sna"@[0]);
        assert("ipf"@[0] != "z80"@[0]);
        assert("ipf"@[0] != "rom"@[0]);
        assert("ipf"@[0] != "bin"@[0]);
        assert("ipf"@[0] != "zip"@[0]);
    } else if i == 9 {
        assert(known_extensions()[9].0 == "scr"@);
        assert("scr"@[0] != "tzx"@[0]);
        assert("scr"@[0] != "tap"@[0]);
        assert("scr"@.len() != "p"@.len());
        assert("scr"@.len() != "81"@.len());
        assert("scr"@[0] != "p81"@[0]);
        assert("scr"@[0] != "rzx"@[0]);
        assert("scr"@[0] != "mdr"@[0]);
        assert("scr"@[0] != "dsk"@[0]);
        assert("scr"@[0] != "ipf"@[0]);
        assert("scr"@[1] != "szx"@[1]);
        assert("scr"@[1] != "sna"@[1]);
        assert("scr"@[0] != "z80"@[0]);
        assert("scr"@[0] != "rom"@[0]);
        assert("scr"@[0] != "bin"@[0]);
        assert("scr"@[0] != "zip"@[0]);
    } else if i == 10 {
        assert(known_extensions()[10].0 == "szx"@);
        assert("szx"@[0] != "tzx"@[0]);
        assert("szx"@[0] != "tap"@[0]);
        assert("szx"@.len() != "p"@.len());
        assert("szx"@.len() != "81"@.len());
        assert("szx"@[0] != "p81"@[0]);
        assert("szx"@[0] != "rzx"@[0]);
        assert("szx"@[0] != "mdr"@[0]);
        assert("szx"@[0] != "dsk"@[0]);
        assert("szx"@[0] != "ipf"@[0]);
        assert("szx"@[1] != "scr"@[1]);
        assert("szx"@[1] != "sna"@[1]);
        assert("szx"@[0] != "z80"@[0]);
        assert("szx"@[0] != "rom"@[0]);
        assert("szx"@[0] != "bin"@[0]);
        assert("szx"@[0] != "zip"@[0]);
    } else if i == 11 {
        assert(known_extensions()[11].0 == "sna"@);
        assert("sna"@[0] != "tzx"@[0]);
        assert("sna"@[0] != "tap"@[0]);
        assert("sna"@.len() != "p"@.len());
        assert("sna"@.len() != "81"@.len());
        assert("sna"@[0] != "p81"@[0]);
        assert("sna"@[0] != "rzx"@[0]);
        assert("sna"@[0] != "mdr"@[0]);
        assert("sna"@[0] != "dsk"@[0]);
        assert("sna"@[0] != "ipf"@[0]);
        assert("sna"@[1] != "scr"@[1]);
        assert("sna"@[1] != "szx"@[1]);
        assert("sna"@[0] != "z80"@[0]);
        assert("sna"@[0] != "rom"@[0]);
        assert("sna"@[0] != "bin"@[0]);
        assert("sna"@[0] != "zip"@[0]);
    } else if i == 12 {
        assert(known_extensions()[12].0 == "z80"@);
        assert("z80"@[0] != "tzx"@[0]);
        assert("z80"@[0] != "tap"@[0]);
        assert("z80"@.len() != "p"@.len());
        assert("z80"@.len() != "81"@.len());
        assert("z80"@[0] != "p81"@[0]);
        assert("z80"@[0] != "rzx"@[0]);
        assert("z80"@[0] != "mdr"@[0]);
        assert("z80"@[0] != "dsk"@[0]);
        assert("z80"@[0] != "ipf"@[0]);
        assert("z80"@[0] != "scr"@[0]);
        assert("z80"@[0] != "szx"@[0]);
        assert("z80"@[0] != "sna"@[0]);
        assert("z80"@[0] != "rom"@[0]);
        assert("z80"@[0] != "bin"@[0]);
        assert("z80"@[1] != "zip"@[1]);
    } else if i == 13 {
        assert(known_extensions()[13].0 == "rom"@);
        assert("rom"@[0] != "tzx"@[0]);
        assert("rom"@[0] != "tap"@[0]);
        assert("rom"@.len() != "p"@.len());
        assert("rom"@.len() != "81"@.len());
        assert("rom"@[0] != "p81"@[0]);
        assert("rom"@[1] != "rzx"@[1]);
        assert("rom"@[0] != "mdr"@[0]);
        assert("rom"@[0] != "dsk"@[0]);
        assert("rom"@[0] != "ipf"@[0]);
        assert("rom"@[0] != "scr"@[0]);
        assert("rom"@[0] != "szx"@[0]);
        assert("rom"@[0] != "sna"@[0]);
        assert("rom"@[0] != "z80"@[0]);
        assert("rom"@[0] != "bin"@[0]);
        assert("rom"@[0] != "zip"@[0]);
    } else if i == 14 {
        assert(known_extensions()[14].0 == "bin"@);
        assert("bin"@[0] != "tzx"@[0]);
        assert("bin"@[0] != "tap"@[0]);
        assert("bin"@.len() != "p"@.len());
        assert("bin"@.len() != "81"@.len());
        assert("bin"@[0] != "p81"@[0]);
        assert("bin"@[0] != "rzx"@[0]);
        assert("bin"@[0] != "mdr"@[0]);
        assert("bin"@[0] != "dsk"@[0]);
        assert("bin"@[0] != "ipf"@[0]);
        assert("bin"@[0] != "scr"@[0]);
        assert("bin"@[0] != "szx"@[0]);
        assert("bin"@[0] != "sna"@[0]);
        assert("bin"@[0] != "z80"@[0]);
        assert("bin"@[0] != "rom"@[0]);
        assert("bin"@[0] != "zip"@[0]);
    } else if i == 15 {
        assert(known_extensions()[15].0 == "zip"@);
        assert("zip"@[0] != "tzx"@[0]);
        assert("zip"@[0] != "tap"@[0]);
        assert("zip"@.len() != "p"@.len());
        assert("zip"@.len() != "81"@.len());
        assert("zip"@[0] != "p81"@[0]);
        assert("zip"@[0] != "rzx"@[0]);
        assert("zip"@[0] != "mdr"@[0]);
        assert("zip"@[0] != "dsk"@[0]);
        assert("zip"@[0] != "ipf"@[0]);
        assert("zip"@[0] != "scr"@[0]);
        assert("zip"@[0] != "szx"@[0]);
        assert("zip"@[0] != "sna"@[0]);
        assert("zip"@[1] != "z80"@[1]);
        assert("zip"@[0] != "rom"@[0]);
        assert("zip"@[0] != "bin"@[0]);
    }
}

/// A file whose extension, in small letters, is none of the known ones is
/// not something the emulator opens.
pub proof fn other_files_are_unknown(path: Seq<char>)
    requires
        forall|j: int| 0 <= j < known_extensions().len() ==> known_extensions()[j].0 != lower_extension(path),
    ensures
        type_of_extension(lower_extension(path)) == FileType::Unknown,
{
    reveal_strlit("tzx");
    reveal_strlit("tap");
    reveal_strlit("p");
    reveal_strlit("81");
    reveal_strlit("p81");
    reveal_strlit("rzx");
    reveal_strlit("mdr");
    reveal_strlit("dsk");
    reveal_strlit("ipf");
    reveal_strlit("scr");
    reveal_strlit("szx");
    reveal_strlit("sna");
    reveal_strlit("z80");
    reveal_strlit("rom");
    reveal_strlit("bin");
    reveal_strlit("zip");
    assert(known_extensions()[0].0 != lower_extension(path));
    assert(known_extensions()[1].0 != lower_extension(path));
    assert(known_extensions()[2].0 != lower_extension(path));
    assert(known_extensions()[3].0 != lower_extension(path));
    assert(known_extensions()[4].0 != lower_extension(path));
    assert(known_extensions()[5].0 != lower_extension(path));
    assert(known_extensions()[6].0 != lower_extension(path));
    assert(known_extensions()[7].0 != lower_extension(path));
    assert(known_extensions()[8].0 != lower_extension(path));
    assert(known_extensions()[9].0 != lower_extension(path));
    assert(known_extensions()[10].0 != lower_extension(path));
    assert(known_extensions()[11].0 != lower_extension(path));
    assert(known_extensions()[12].0 != lower_extension(path));
    assert(known_extensions()[13].0 != lower_extension(path));
    assert(known_extensions()[14].0 != lower_extension(path));
    assert(known_extensions()[15].0 != lower_extension(path));
}

} // verus!
