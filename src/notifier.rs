//! Numbering and wording of outgoing goal notifications.
use vstd::prelude::*;

use crate::goal_detector::DetectedGoal;
use crate::text::{decimal, digit_char};

verus! {

/// The sequence number that follows `n`: one more, pinned at the maximum.
pub open spec fn next_sequence(n: u32) -> u32 {
    if n == u32::MAX {
        n
    } else {
        (n + 1) as u32
    }
}

/// The sequence number after `k` deliveries, starting from `start`.
pub open spec fn sequence_after(start: u32, k: nat) -> u32
    decreases k,
{
    if k == 0 {
        start
    } else {
        next_sequence(sequence_after(start, (k - 1) as nat))
    }
}

/// The outgoing text for a goal with sequence number `sequence`.
pub open spec fn message_text(sequence: u32, goal: DetectedGoal) -> Seq<char> {
    decimal(sequence as nat) + ": "@ + goal.spec_label()
}

fn digit_str(d: u32) -> (r: &'static str)
    requires
        d < 10,
    ensures
        r@ == seq![digit_char(d as nat)],
{
    let digits = "0123456789";
    proof {
        reveal_strlit("0123456789");
    }
    let r = digits.substring_ascii(d as usize, d as usize + 1);
    assert(r@ =~= seq![digit_char(d as nat)]);
    r
}

/// The shortest decimal text of `n`.
pub fn decimal_string(n: u32) -> (r: String)
    ensures
        r@ == decimal(n as nat),
    decreases n,
{
    if n < 10 {
        String::from_str(digit_str(n))
    } else {
        let mut s = decimal_string(n / 10);
        s.append(digit_str(n % 10));
        s
    }
}

/// Hands out sequence numbers to delivered goals.
#[derive(Clone, Copy, Debug)]
pub struct Notifier {
    /// The number given to the last delivered goal; 0 before the first.
    pub sequence: u32,
}

impl Notifier {
    pub fn new() -> (r: Notifier)
        ensures
            r.sequence == 0,
    {
        Notifier { sequence: 0 }
    }

    /// Numbers the next delivered goal and words its notification as
    /// `<sequence>: <goal>`.
    pub fn next_message(&mut self, goal: DetectedGoal) -> (r: String)
        ensures
            final(self).sequence == next_sequence(old(self).sequence),
            r@ == message_text(final(self).sequence, goal),
    {
        self.sequence = self.sequence.saturating_add(1);
        let mut s = decimal_string(self.sequence);
        s.append(": ");
        let label = goal.to_string();
        s.append(label.as_str());
        s
    }
}

/// Successive deliveries get strictly increasing sequence numbers, until the
/// maximum, where the number stays.
pub proof fn lemma_sequence_increases(start: u32, i: nat, j: nat)
    requires
        i < j,
    ensures
        sequence_after(start, i) < sequence_after(start, j) || (sequence_after(start, i)
            == u32::MAX && sequence_after(start, j) == u32::MAX),
    decreases j,
{
    if i < (j - 1) as nat {
        lemma_sequence_increases(start, i, (j - 1) as nat);
    }
}

} // verus!
