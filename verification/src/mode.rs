//! How a database runner treats its state between transactions.

use vstd::prelude::*;
use vstd::string::*;

verus! {

/// The persistence mode of a database runner.
#[derive(Clone, Copy, Debug, PartialEq, Eq, Structural)]
pub enum TestMode {
    /// State lives in memory only.
    NoBackup,
    /// State is serialized to a backup after every transaction.
    SerializeBackup,
}

/// The text that names `mode` on a command line.
pub open spec fn mode_name(mode: TestMode) -> Seq<char> {
    match mode {
        TestMode::NoBackup => "NoBackup"@,
        TestMode::SerializeBackup => "SerializeBackup"@,
    }
}

/// The mode that a piece of text selects: `SerializeBackup` when the text is
/// exactly that name, `NoBackup` for every other text.
pub open spec fn mode_of(text: Seq<char>) -> TestMode {
    if text == "SerializeBackup"@ {
        TestMode::SerializeBackup
    } else {
        TestMode::NoBackup
    }
}

impl TestMode {
    /// Reads a mode from its name. Unknown names select `NoBackup`.
    pub fn from_string(mode: String) -> (result: TestMode)
        ensures
            result == mode_of(mode@),
    {
        let serialize = String::from_str("SerializeBackup");
        if mode == serialize {
            TestMode::SerializeBackup
        } else {
            TestMode::NoBackup
        }
    }

    /// True when a runner in this mode writes a backup after every
    /// transaction.
    pub fn writes_backup(&self) -> (answer: bool)
        ensures
            answer == (*self == TestMode::SerializeBackup),
    {
        match self {
            TestMode::NoBackup => false,
            TestMode::SerializeBackup => true,
        }
    }

    /// True when a runner in this mode starts from the backup: it does when
    /// it writes backups and one exists.
    pub fn restores_backup(&self, backup_exists: bool) -> (answer: bool)
        ensures
            answer == (*self == TestMode::SerializeBackup && backup_exists),
    {
        self.writes_backup() && backup_exists
    }

    /// The name of the mode, as `from_string` reads it.
    pub fn to_string(&self) -> (text: String)
        ensures
            text@ == mode_name(*self),
    {
        match self {
            TestMode::NoBackup => String::from_str("NoBackup"),
            TestMode::SerializeBackup => String::from_str("SerializeBackup"),
        }
    }
}

/// Writing a mode out and reading it back gives the same mode.
pub proof fn lemma_mode_name_round_trip(mode: TestMode)
    ensures
        mode_of(mode_name(mode)) == mode,
{
    reveal_strlit("NoBackup");
    reveal_strlit("SerializeBackup");
    if mode == TestMode::NoBackup {
        assert("NoBackup"@.len() == 8);
        assert("SerializeBackup"@.len() == 15);
    }
}

} // verus!
