//! Points in time, as seconds and nanoseconds since the epoch.

use vstd::prelude::*;

verus! {

/// A point in time: `sec` seconds after the epoch, and `nsec` nanoseconds
/// into that second.
#[derive(Debug, Clone, Copy, PartialEq, Eq, Structural)]
pub struct Timespec {
    pub sec: i64,
    pub nsec: i32,
}

impl Timespec {
    /// `self` lies strictly before `other`: seconds decide, then nanoseconds.
    pub open spec fn spec_before(&self, other: &Timespec) -> bool {
        self.sec < other.sec || (self.sec == other.sec && self.nsec < other.nsec)
    }

    /// The point `secs` seconds before `self`. Where that is out of the range
    /// of `i64`, the result is the least point there is, which nothing lies
    /// before.
    pub open spec fn spec_earlier_by(&self, secs: u32) -> Timespec {
        if self.sec - secs >= i64::MIN {
            Timespec { sec: (self.sec - secs) as i64, nsec: self.nsec }
        } else {
            Timespec { sec: i64::MIN, nsec: i32::MIN }
        }
    }

    pub fn new(sec: i64, nsec: i32) -> (res: Timespec)
        ensures
            res == (Timespec { sec, nsec }),
    {
        Timespec { sec, nsec }
    }

    #[verifier::when_used_as_spec(spec_before)]
    pub fn before(&self, other: &Timespec) -> (res: bool)
        ensures
            res == self.spec_before(other),
    {
        self.sec < other.sec || (self.sec == other.sec && self.nsec < other.nsec)
    }

    #[verifier::when_used_as_spec(spec_earlier_by)]
    pub fn earlier_by(&self, secs: u32) -> (res: Timespec)
        ensures
            res == self.spec_earlier_by(secs),
    {
        match self.sec.checked_sub(secs as i64) {
            Some(sec) => Timespec { sec, nsec: self.nsec },
            None => Timespec { sec: i64::MIN, nsec: i32::MIN },
        }
    }
}

/// Whatever the clock says, a point lies before the point `secs` seconds
/// ahead of `now` exactly if it has aged by more than `secs` seconds.
pub proof fn lemma_before_earlier(at: Timespec, now: Timespec, secs: u32)
    ensures
        at.spec_before(&now.spec_earlier_by(secs)) <==> (at.sec + secs < now.sec || (at.sec + secs
            == now.sec && at.nsec < now.nsec)),
{
}

} // verus!
