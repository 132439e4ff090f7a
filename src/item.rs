use vstd::prelude::*;

verus! {

/// A line of the interactive front end, classified.
#[derive(Debug, Clone, Copy, PartialEq, Eq, Structural)]
pub enum Items {
    /// `.hello`: greet.
    HELLO,
    /// `.quit`: leave the front end.
    QUIT,
    /// `.program`: list the program bytes.
    PROGRAM,
    /// `.registers`: list the registers.
    REGISTERS,
    /// `.help`: list the commands.
    HELP,
    /// `.history`: list the lines accepted so far.
    HISTORY,
    /// Anything else: taken as hex-encoded bytecode.
    INVALID,
}

/// The command that line `s` names, or `INVALID` when it names none.
pub open spec fn item_of(s: Seq<char>) -> Items {
    if s == ".hello"@ {
        Items::HELLO
    } else if s == ".quit"@ {
        Items::QUIT
    } else if s == ".program"@ {
        Items::PROGRAM
    } else if s == ".registers"@ {
        Items::REGISTERS
    } else if s == ".help"@ {
        Items::HELP
    } else if s == ".history"@ {
        Items::HISTORY
    } else {
        Items::INVALID
    }
}

impl<'a> From<&'a str> for Items {
    fn from(value: &'a str) -> (r: Items)
        ensures
            r == item_of(value@),
    {
        let line = value.to_owned();
        if line == ".hello".to_owned() {
            Items::HELLO
        } else if line == ".quit".to_owned() {
            Items::QUIT
        } else if line == ".program".to_owned() {
            Items::PROGRAM
        } else if line == ".registers".to_owned() {
            Items::REGISTERS
        } else if line == ".help".to_owned() {
            Items::HELP
        } else if line == ".history".to_owned() {
            Items::HISTORY
        } else {
            Items::INVALID
        }
    }
}

impl<'a> vstd::std_specs::convert::FromSpecImpl<&'a str> for Items {
    open spec fn obeys_from_spec() -> bool {
        true
    }

    open spec fn from_spec(v: &'a str) -> Items {
        item_of(v@)
    }
}

} // verus!
