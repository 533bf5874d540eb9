use vstd::prelude::*;

verus! {

/// The steps of one cycle of a blink pattern: the durations, in
/// milliseconds, take turns at on and off, starting on; a zero duration
/// gives up its turn without a step.
pub open spec fn pattern_steps(p: Seq<u16>) -> Seq<(bool, u16)>
    decreases p.len(),
{
    if p.len() == 0 {
        Seq::empty()
    } else {
        let prev = pattern_steps(p.drop_last());
        let i = p.len() - 1;
        if p.last() == 0 {
            prev
        } else {
            prev.push((i % 2 == 0, p.last()))
        }
    }
}

/// Each step of a pattern: whether the light is on, and for how long.
pub fn blink_steps(pattern: &[u16]) -> (r: Vec<(bool, u16)>)
    ensures
        r@ == pattern_steps(pattern@),
{
    let mut r: Vec<(bool, u16)> = Vec::new();
    let mut is_enabled = true;
    let mut i: usize = 0;
    while i < pattern.len()
        invariant
            i <= pattern@.len(),
            is_enabled == (i % 2 == 0),
            r@ == pattern_steps(pattern@.take(i as int)),
        decreases pattern@.len() - i,
    {
        let duration = pattern[i];
        assert(pattern@.take(i + 1).drop_last() =~= pattern@.take(i as int));
        if duration != 0 {
            r.push((is_enabled, duration));
        }
        is_enabled = !is_enabled;
        i = i + 1;
    }
    assert(pattern@.take(pattern@.len() as int) =~= pattern@);
    r
}

/// Every step of a pattern lasts a while, and the steps alternate only
/// where no zero duration stands between them.
pub proof fn lemma_steps_last(p: Seq<u16>)
    ensures
        forall|k: int| 0 <= k < pattern_steps(p).len() ==> #[trigger] pattern_steps(p)[k].1 > 0,
        pattern_steps(p).len() <= p.len(),
    decreases p.len(),
{
    if p.len() > 0 {
        lemma_steps_last(p.drop_last());
    }
}

} // verus!
