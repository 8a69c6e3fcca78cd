//! Switch and banner text of the detection of running meeting apps.

use vstd::prelude::*;
use crate::chars::{chars_of, string_of};

verus! {

/// The meeting app found running, for the banner.
#[derive(Debug)]
pub struct MeetingAppDetected {
    pub app_name: String,
}

/// Whether meeting detection is switched on.
#[derive(Debug)]
pub struct MeetingDetectionState {
    enabled: bool,
}

impl MeetingDetectionState {
    /// Whether detection is on.
    pub closed spec fn spec_enabled(&self) -> bool {
        self.enabled
    }

    /// Detection starts switched on.
    pub fn new() -> (r: MeetingDetectionState)
        ensures
            r.spec_enabled(),
    {
        MeetingDetectionState { enabled: true }
    }

    /// Whether detection is on.
    pub fn is_enabled(&self) -> (r: bool)
        ensures
            r == self.spec_enabled(),
    {
        self.enabled
    }

    /// Switch detection on or off.
    pub fn set_enabled(&mut self, enabled: bool)
        ensures
            final(self).spec_enabled() == enabled,
    {
        self.enabled = enabled;
    }
}

/// `s` with each space written `%20`.
pub open spec fn spaces_encoded(s: Seq<char>) -> Seq<char>
    decreases s.len(),
{
    if s.len() == 0 {
        seq![]
    } else if s.last() == ' ' {
        spaces_encoded(s.drop_last()) + "%20"@
    } else {
        spaces_encoded(s.drop_last()).push(s.last())
    }
}

/// An app name made fit for a query string: each space becomes `%20`.
pub fn urlencoded(s: &str) -> (r: String)
    ensures
        r@ == spaces_encoded(s@),
{
    proof {
        reveal_strlit("%20");
    }
    let cs = chars_of(s);
    let mut out: Vec<char> = Vec::new();
    let mut i: usize = 0;
    while i < cs.len()
        invariant
            i <= cs@.len(),
            cs@ == s@,
            out@ == spaces_encoded(cs@.subrange(0, i as int)),
        decreases cs@.len() - i,
    {
        let c = cs[i];
        let ghost before = out@;
        if c == ' ' {
            out.push('%');
            out.push('2');
            out.push('0');
        } else {
            out.push(c);
        }
        assert(cs@.subrange(0, i + 1).drop_last() =~= cs@.subrange(0, i as int));
        assert(cs@.subrange(0, i + 1).last() == c);
        proof {
            reveal_strlit("%20");
        }
        assert("%20"@ =~= seq!['%', '2', '0']);
        assert(out@ =~= spaces_encoded(cs@.subrange(0, i + 1)));
        i = i + 1;
    }
    assert(cs@.subrange(0, cs@.len() as int) =~= cs@);
    string_of(out.as_slice())
}

} // verus!
