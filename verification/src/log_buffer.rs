//! Capped pipeline log retained so a late-opened log window can catch up.

use vstd::prelude::*;

verus! {

broadcast use vstd::string::group_string_axioms;

pub const DEFAULT_CAP: usize = 4000;

#[derive(Debug, Default)]
pub struct LogBuffer {
    lines: Vec<String>,
    cap: usize,
}

/// The newest `n` entries of `s` (all of them when there are fewer).
pub open spec fn keep_last(s: Seq<Seq<char>>, n: nat) -> Seq<Seq<char>> {
    if s.len() > n {
        s.skip(s.len() - n)
    } else {
        s
    }
}

/// The retained lines after appending `line` under cap `cap` (a zero cap keeps one line).
pub open spec fn pushed(lines: Seq<Seq<char>>, cap: nat, line: Seq<char>) -> Seq<Seq<char>> {
    keep_last(lines.push(line), if cap > 1 { cap } else { 1 })
}

impl LogBuffer {
    /// The retained lines, oldest first.
    pub closed spec fn lines_view(&self) -> Seq<Seq<char>> {
        self.lines@.map_values(|s: String| s@)
    }

    pub closed spec fn cap_view(&self) -> nat {
        self.cap as nat
    }

    pub fn new() -> (r: Self)
        ensures
            r.lines_view() == Seq::<Seq<char>>::empty(),
            r.cap_view() == DEFAULT_CAP,
    {
        let r = Self { lines: Vec::new(), cap: DEFAULT_CAP };
        assert(r.lines_view() =~= Seq::<Seq<char>>::empty());
        r
    }

    /// An empty buffer that keeps at most `cap` lines.
    pub fn with_cap(cap: usize) -> (r: Self)
        ensures
            r.lines_view() == Seq::<Seq<char>>::empty(),
            r.cap_view() == cap,
    {
        let r = Self { lines: Vec::new(), cap };
        assert(r.lines_view() =~= Seq::<Seq<char>>::empty());
        r
    }

    /// Appends a line and drops the oldest entries when over cap.
    pub fn push(&mut self, line: &str)
        ensures
            final(self).lines_view() == pushed(old(self).lines_view(), old(self).cap_view(), line@),
            final(self).cap_view() == old(self).cap_view(),
    {
        let ghost before = self.lines_view();
        self.lines.push(line.to_owned());
        let ghost all = before.push(line@);
        assert(self.lines_view() =~= all);
        let keep: usize = if self.cap > 1 {
            self.cap
        } else {
            1
        };
        if self.lines.len() > keep {
            let extra = self.lines.len() - keep;
            let mut kept: Vec<String> = Vec::new();
            let mut i = extra;
            while i < self.lines.len()
                invariant
                    extra <= i <= self.lines@.len(),
                    kept@.len() == i - extra,
                    forall|k: int| 0 <= k < kept@.len() ==> #[trigger] kept@[k]@ == self.lines@[k + extra]@,
                decreases self.lines.len() - i,
            {
                kept.push(self.lines[i].clone());
                i += 1;
            }
            self.lines = kept;
            assert(self.lines_view() =~= all.skip(all.len() - keep));
        }
    }

    pub fn clear(&mut self)
        ensures
            final(self).lines_view() == Seq::<Seq<char>>::empty(),
            final(self).cap_view() == old(self).cap_view(),
    {
        self.lines.clear();
        assert(self.lines_view() =~= Seq::<Seq<char>>::empty());
    }

    pub fn snapshot(&self) -> (r: Vec<String>)
        ensures
            r@.map_values(|s: String| s@) == self.lines_view(),
    {
        let mut out: Vec<String> = Vec::new();
        let mut i: usize = 0;
        while i < self.lines.len()
            invariant
                i <= self.lines@.len(),
                out@.len() == i,
                forall|k: int| 0 <= k < i ==> #[trigger] out@[k]@ == self.lines@[k]@,
            decreases self.lines.len() - i,
        {
            out.push(self.lines[i].clone());
            i += 1;
        }
        assert(out@.map_values(|s: String| s@) =~= self.lines_view());
        out
    }
}

/// Law of the capped log: after a push the newest line is last, nothing
/// older than what was kept comes back, order is preserved, and the buffer
/// never holds more than its cap (one line for a zero cap).
pub proof fn law_push_keeps_newest_in_order(lines: Seq<Seq<char>>, cap: nat, line: Seq<char>)
    requires
        lines.len() <= (if cap > 1 { cap } else { 1 }),
    ensures
        pushed(lines, cap, line).len() <= (if cap > 1 { cap } else { 1 }),
        pushed(lines, cap, line).last() == line,
        pushed(lines, cap, line) == lines.push(line).skip(
            lines.len() + 1 - pushed(lines, cap, line).len(),
        ),
{
    let all = lines.push(line);
    let r = pushed(lines, cap, line);
    assert(r =~= all.skip(all.len() - r.len()));
}

} // verus!
