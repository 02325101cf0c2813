//! The history log: the lines that were confirmed, oldest first.
use vstd::prelude::*;
use crate::text::views;

verus! {

/// No line of the log equals the one before it.
pub open spec fn no_repeats(log: Seq<Seq<char>>) -> bool {
    forall|i: int| 0 <= i < log.len() - 1 ==> log[i] != #[trigger] log[i + 1]
}

/// The log after `line` was confirmed: `line` is added unless it equals the
/// last line of the log. Only the last line is compared.
pub open spec fn appended(log: Seq<Seq<char>>, line: Seq<char>) -> Seq<Seq<char>> {
    if log.len() == 0 || log.last() != line {
        log.push(line)
    } else {
        log
    }
}

/// A log without repeats has none after a line was confirmed.
pub proof fn lemma_appended_no_repeats(log: Seq<Seq<char>>, line: Seq<char>)
    requires
        no_repeats(log),
    ensures
        no_repeats(appended(log, line)),
{
    let after = appended(log, line);
    assert forall|i: int| 0 <= i < after.len() - 1 implies after[i] != #[trigger] after[i + 1] by {
        if i + 1 < log.len() {
            assert(log[i] != log[i + 1]);
        }
    }
}

/// The confirmed lines of a session.
pub struct History {
    lines: Vec<String>,
}

impl View for History {
    type V = Seq<Seq<char>>;

    closed spec fn view(&self) -> Seq<Seq<char>> {
        views(self.lines@)
    }
}

impl History {
    /// The invariant of the log: no two neighbours are equal.
    pub open spec fn wf(&self) -> bool {
        no_repeats(self@)
    }

    /// An empty log.
    pub fn new() -> (r: History)
        ensures
            r@ == Seq::<Seq<char>>::empty(),
            r.wf(),
    {
        let r = History { lines: Vec::new() };
        assert(r@ =~= Seq::<Seq<char>>::empty());
        r
    }

    /// The number of lines in the log.
    pub fn len(&self) -> (n: usize)
        ensures
            n == self@.len(),
    {
        self.lines.len()
    }

    /// The line at `index`, counted from the oldest.
    pub fn get(&self, index: usize) -> (line: &String)
        requires
            index < self@.len(),
        ensures
            line@ == self@[index as int],
    {
        &self.lines[index]
    }

    /// The line at `index`, counted from the oldest; `None` behind the end.
    pub fn entry(&self, index: usize) -> (line: Option<String>)
        ensures
            index < self@.len() ==> line is Some && line->0@ == self@[index as int],
            index >= self@.len() ==> line is None,
    {
        if index < self.lines.len() {
            Some(self.lines[index].clone())
        } else {
            None
        }
    }

    /// Records a confirmed line, unless it equals the last one recorded.
    /// Returns whether the line was added.
    pub fn append_if_changed(&mut self, line: String) -> (added: bool)
        ensures
            final(self)@ == appended(old(self)@, line@),
            added == (old(self)@.len() == 0 || old(self)@.last() != line@),
            old(self).wf() ==> final(self).wf(),
    {
        let n = self.lines.len();
        proof {
            if no_repeats(self@) {
                lemma_appended_no_repeats(self@, line@);
            }
        }
        if n == 0 || self.lines[n - 1] != line {
            proof {
                assert(views(self.lines@.push(line)) =~= views(self.lines@).push(line@));
            }
            self.lines.push(line);
            true
        } else {
            false
        }
    }
}

} // verus!
