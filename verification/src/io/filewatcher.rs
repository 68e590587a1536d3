//! Following the game's console log as it grows: when to read it, when to
//! open it again, and which of the new lines to pass on. The file itself is
//! read by the application.
use crate::text::{lines, spec_lines, spec_trim, trim};
use vstd::prelude::*;

verus! {

/// What to do on a look at the log file.
#[derive(Debug, Clone, Copy, PartialEq, Eq, Structural)]
pub enum LogReadPlan {
    /// The file did not grow, or is empty.
    Nothing,
    /// The file is shorter than what was read: it was replaced, and is
    /// opened again before reading.
    Reopen,
    /// The file grew: read what was added.
    Read,
}

/// The log file as it is followed: how much of it has been read.
pub struct OpenFile {
    pub last_size: u64,
}

impl OpenFile {
    /// A file just opened, nothing read yet.
    pub fn new() -> (f: OpenFile)
        ensures
            f.last_size == 0,
    {
        OpenFile { last_size: 0 }
    }

    /// What to do, the file being `len` bytes long now.
    pub fn plan(&self, len: u64) -> (p: LogReadPlan)
        ensures
            p == if len == self.last_size || len == 0 {
                LogReadPlan::Nothing
            } else if len < self.last_size {
                LogReadPlan::Reopen
            } else {
                LogReadPlan::Read
            },
    {
        if len == self.last_size || len == 0 {
            LogReadPlan::Nothing
        } else if len < self.last_size {
            LogReadPlan::Reopen
        } else {
            LogReadPlan::Read
        }
    }

    /// `n` more bytes were read.
    pub fn on_read(&mut self, n: u64)
        requires
            old(self).last_size + n <= u64::MAX,
        ensures
            final(self).last_size == old(self).last_size + n,
    {
        self.last_size = self.last_size + n;
    }

    /// Whether a read that was expected to find bytes and found none means
    /// the file was replaced, to be opened and read again from its start.
    pub fn reread_needed(read_size: u64) -> (b: bool)
        ensures
            b == (read_size == 0),
    {
        read_size == 0
    }
}

/// Whether a line holds more than white space.
pub open spec fn not_blank() -> spec_fn(Seq<char>) -> bool {
    |l: Seq<char>| spec_trim(l).len() > 0
}

/// The lines of text newly read from the log that are passed on: those that
/// hold more than white space, in order.
pub fn new_log_lines(text: &str) -> (out: Vec<String>)
    ensures
        out.deep_view() == spec_lines(text@).filter(not_blank()),
{
    let ls = lines(text);
    let ghost all = spec_lines(text@);
    let mut out: Vec<String> = Vec::new();
    let mut i: usize = 0;
    while i < ls.len()
        invariant
            i <= ls@.len(),
            ls.deep_view() == all,
            out.deep_view() == all.take(i as int).filter(not_blank()),
        decreases ls.len() - i,
    {
        proof {
            reveal(Seq::filter);
            assert(all.take(i + 1).drop_last() =~= all.take(i as int));
            assert(all.take(i + 1).last() == ls@[i as int]@);
        }
        let t = trim(ls[i].as_str());
        if t.unicode_len() > 0 {
            let ghost before = out.deep_view();
            out.push(ls[i].clone());
            proof {
                assert(out.deep_view() =~= before.push(ls@[i as int]@));
            }
        }
        i = i + 1;
    }
    proof {
        assert(all.take(all.len() as int) =~= all);
    }
    out
}

} // verus!
