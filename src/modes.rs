use vstd::prelude::*;

verus! {

/// How the entries of a day are collected.
#[derive(Debug, Copy, Clone, Eq, PartialEq, Structural)]
pub enum Modes {
    /// Perform calculations by treating stdin as a stream of time pairs separated by newlines
    TimeTable,
    /// Perform live tracking of the user's time until an EOF character is received.
    Live,
}

impl Modes {
    /// Determine whether or not the variant supports piped input vs being used as a CLI tool
    /// directly by a human
    pub fn supports_piped_input(&self) -> (r: bool)
        ensures
            r == (*self == Modes::TimeTable),
    {
        match self {
            Modes::TimeTable => true,
            Modes::Live => false,
        }
    }

    /// The name by which the mode is chosen on the command line.
    pub fn name(&self) -> (r: String)
        ensures
            r@ == (match *self {
                Modes::TimeTable => "time-table"@,
                Modes::Live => "live"@,
            }),
    {
        match self {
            Modes::TimeTable => String::from_str("time-table"),
            Modes::Live => String::from_str("live"),
        }
    }
}

impl Default for Modes {
    fn default() -> (r: Self)
        ensures
            r == Modes::TimeTable,
    {
        Modes::TimeTable
    }
}

} // verus!
