//! The figures the call-flow window puts beside each routine.
use vstd::prelude::*;
use crate::text::{decimal, hex4, push_decimal, push_hex4, push_str};

verus! {

/// The ways of looking at the same calls.
#[derive(Clone, Copy, Debug, PartialEq, Eq, Structural)]
pub enum Drawing {
    /// One turn of the loop, in the order it happened, nested as it nests.
    Thread,
    /// Who calls whom, over everything watched.
    Graph,
    /// One turn again, as nested bars whose width is the work done.
    Flame,
    /// One turn against the frames it ran in.
    Timeline,
}

/// What the switch for a drawing says.
pub open spec fn drawing_label(d: Drawing) -> Seq<char> {
    match d {
        Drawing::Thread => "Thread"@,
        Drawing::Graph => "Graph"@,
        Drawing::Flame => "Flame"@,
        Drawing::Timeline => "Timeline"@,
    }
}

impl Drawing {
    pub fn label(self) -> (r: &'static str)
        ensures
            r@ == drawing_label(self),
    {
        match self {
            Drawing::Thread => "Thread",
            Drawing::Graph => "Graph",
            Drawing::Flame => "Flame",
            Drawing::Timeline => "Timeline",
        }
    }

    /// Every drawing, in the order the switches are laid out.
    pub fn all() -> (r: [Drawing; 4])
        ensures
            r@ == seq![Drawing::Thread, Drawing::Graph, Drawing::Flame, Drawing::Timeline],
    {
        let r = [Drawing::Thread, Drawing::Graph, Drawing::Flame, Drawing::Timeline];
        assert(r@ =~= seq![Drawing::Thread, Drawing::Graph, Drawing::Flame, Drawing::Timeline]);
        r
    }
}

/// What the observer kept about one routine while the program ran.
#[derive(Clone, Copy, Debug)]
pub struct Observed {
    /// How many times it was called.
    pub calls: u32,
    /// The lowest and highest address seen executing inside it, if any.
    pub spans: Option<(u16, u16)>,
    /// Bytes written over all calls, its callees included.
    pub wrote: u32,
    /// Bytes read over all calls, its callees included.
    pub read: u32,
}

/// The three numbers a routine is described by.
///
/// How big it is, how much it wrote and how much it read — all measured while
/// the program ran rather than worked out from the code. Reads and writes are
/// per call and count what the routines it called did as well.
#[derive(Clone, Copy, Debug, PartialEq, Eq, Structural)]
pub struct Measured {
    /// How many bytes of code the routine covers: the distance between the
    /// lowest and highest address seen executing inside it.
    pub size: u32,
    /// Bytes written per call, its callees included.
    pub wrote: u32,
    /// Bytes read per call, its callees included.
    pub read: u32,
}

impl Default for Measured {
    fn default() -> (m: Measured)
        ensures
            m == (Measured { size: 0, wrote: 0, read: 0 }),
    {
        Measured { size: 0, wrote: 0, read: 0 }
    }
}

/// What fits on the row: `{size}B  {wrote}w  {read}r`.
pub open spec fn short_text(m: Measured) -> Seq<char> {
    decimal(m.size as nat) + seq!['B', ' ', ' '] + decimal(m.wrote as nat) + seq!['w', ' ', ' ']
        + decimal(m.read as nat) + seq!['r']
}

/// What the row says when it is hovered.
pub open spec fn long_text(m: Measured) -> Seq<char> {
    decimal(m.size as nat) + " bytes of code, and per call it writes "@ + decimal(m.wrote as nat)
        + " bytes and reads "@ + decimal(m.read as nat) + ", counting what it calls"@
}

/// The calls a total is shared between: never fewer than one.
pub open spec fn calls_counted(seen: Observed) -> nat {
    if seen.calls == 0 {
        1
    } else {
        seen.calls as nat
    }
}

/// The figures read off what was observed; nothing observed reads as zeros.
pub open spec fn measured_of(seen: Option<Observed>) -> Measured {
    match seen {
        None => Measured { size: 0, wrote: 0, read: 0 },
        Some(o) => Measured {
            size: match o.spans {
                Some((low, high)) => if high >= low {
                    (high - low + 1) as u32
                } else {
                    1
                },
                None => 0,
            },
            wrote: (o.wrote as nat / calls_counted(o)) as u32,
            read: (o.read as nat / calls_counted(o)) as u32,
        },
    }
}

impl Measured {
    /// What fits on the row.
    pub fn short(&self) -> (r: String)
        ensures
            r@ == short_text(*self),
    {
        let mut s = String::new();
        push_decimal(&mut s, self.size as u64);
        push_str(&mut s, "B  ");
        push_decimal(&mut s, self.wrote as u64);
        push_str(&mut s, "w  ");
        push_decimal(&mut s, self.read as u64);
        push_str(&mut s, "r");
        proof {
            reveal_strlit("B  ");
            reveal_strlit("w  ");
            reveal_strlit("r");
        }
        assert(s@ =~= short_text(*self));
        s
    }

    /// What the row says when it is hovered.
    pub fn long(&self) -> (r: String)
        ensures
            r@ == long_text(*self),
    {
        let mut s = String::new();
        push_decimal(&mut s, self.size as u64);
        push_str(&mut s, " bytes of code, and per call it writes ");
        push_decimal(&mut s, self.wrote as u64);
        push_str(&mut s, " bytes and reads ");
        push_decimal(&mut s, self.read as u64);
        push_str(&mut s, ", counting what it calls");
        assert(s@ =~= long_text(*self));
        s
    }
}

/// Read the three figures off what was observed.
pub fn measured(seen: Option<&Observed>) -> (m: Measured)
    ensures
        m == measured_of(
            match seen {
                Some(o) => Some(*o),
                None => None,
            },
        ),
{
    match seen {
        None => Measured::default(),
        Some(seen) => {
            let calls: u32 = if seen.calls == 0 {
                1
            } else {
                seen.calls
            };
            let size: u32 = match seen.spans {
                Some((low, high)) => if high >= low {
                    (high - low) as u32 + 1
                } else {
                    1
                },
                None => 0,
            };
            Measured { size, wrote: seen.wrote / calls, read: seen.read / calls }
        },
    }
}

/// What a routine is called: its name if it has one, and its address
/// either way.
pub open spec fn routine_text(name: Seq<char>, entry: u16) -> Seq<char> {
    if name.len() == 0 {
        seq!['$'] + hex4(entry)
    } else {
        name + seq![' ', ' ', '$'] + hex4(entry)
    }
}

pub fn label_for(name: &str, entry: u16) -> (r: String)
    ensures
        r@ == routine_text(name@, entry),
{
    let mut s = String::new();
    if name.unicode_len() > 0 {
        push_str(&mut s, name);
        push_str(&mut s, "  ");
    }
    push_str(&mut s, "$");
    push_hex4(&mut s, entry);
    proof {
        reveal_strlit("  ");
        reveal_strlit("$");
    }
    assert(s@ =~= routine_text(name@, entry));
    s
}

} // verus!
