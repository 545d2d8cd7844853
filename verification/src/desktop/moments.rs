//! Moments on the clock of the window, and what is measured with it.
use vstd::prelude::*;
use vstd::string::*;

use crate::text;

verus! {

/// Nanoseconds on a clock that never goes back.
pub type Moment = u64;

/// How long after `from` the moment `to` is; nothing where it is earlier.
pub open spec fn elapsed(from: Moment, to: Moment) -> nat {
    if to > from {
        (to - from) as nat
    } else {
        0
    }
}

/// How long after `from` the moment `to` is.
pub fn elapsed_since(from: Moment, to: Moment) -> (r: u64)
    ensures
        r == elapsed(from, to),
{
    if to > from {
        to - from
    } else {
        0
    }
}

/// How far back a history reaches: a minute.
pub const WINDOW: u64 = 60_000_000_000;

/// How far two samples are apart at least.
pub const SPACING: u64 = 500_000_000;

/// A rolling window of bitrate samples. Samples that follow each other closely
/// overwrite the newest instead of piling up.
pub struct BitrateHistory {
    samples: Vec<(Moment, u32)>,
}

impl View for BitrateHistory {
    type V = Seq<(Moment, u32)>;

    closed spec fn view(&self) -> Seq<(Moment, u32)> {
        self.samples@
    }
}

/// The samples with another one added, or with the newest overwritten.
pub open spec fn noted(samples: Seq<(Moment, u32)>, at: Moment, kbps: u32) -> Seq<(Moment, u32)> {
    if samples.len() > 0 && elapsed(samples.last().0, at) < SPACING {
        samples.update(samples.len() - 1, (samples.last().0, kbps))
    } else {
        samples.push((at, kbps))
    }
}

/// The samples from the first that is not too old.
pub open spec fn recent(samples: Seq<(Moment, u32)>, at: Moment) -> Seq<(Moment, u32)>
    decreases samples.len(),
{
    if samples.len() > 0 && elapsed(samples[0].0, at) > WINDOW {
        recent(samples.skip(1), at)
    } else {
        samples
    }
}

/// The samples after another one.
pub open spec fn recorded(samples: Seq<(Moment, u32)>, at: Moment, kbps: u32) -> Seq<
    (Moment, u32),
> {
    recent(noted(samples, at, kbps), at)
}

impl BitrateHistory {
    pub fn new() -> (r: Self)
        ensures
            r@ == Seq::<(Moment, u32)>::empty(),
    {
        BitrateHistory { samples: Vec::new() }
    }

    /// Records what is measured now.
    pub fn record(&mut self, now: Moment, kbps: u32)
        ensures
            final(self)@ == recorded(old(self)@, now, kbps),
    {
        self.record_at(now, kbps);
    }

    /// Records a sample at a moment.
    pub fn record_at(&mut self, at: Moment, kbps: u32)
        ensures
            final(self)@ == recorded(old(self)@, at, kbps),
    {
        let size: usize = self.samples.len();
        if size > 0 && elapsed_since(self.samples[size - 1].0, at) < SPACING {
            let newest: Moment = self.samples[size - 1].0;
            self.samples[size - 1] = (newest, kbps);
        } else {
            self.samples.push((at, kbps));
        }
        assert(self@ =~= noted(old(self)@, at, kbps));
        let ghost all = self@;
        let count: usize = self.samples.len();
        let mut old_ones: usize = 0;
        assert(all.skip(0) =~= all);
        while old_ones < count && elapsed_since(self.samples[old_ones].0, at) > WINDOW
            invariant
                count == self.samples@.len(),
                all == self.samples@,
                old_ones <= count,
                recent(all, at) == recent(all.skip(old_ones as int), at),
            decreases count - old_ones,
        {
            proof {
                assert(all.skip(old_ones as int)[0] == all[old_ones as int]);
                assert(all.skip(old_ones as int).skip(1) =~= all.skip(old_ones + 1));
            }
            old_ones += 1;
        }
        proof {
            if old_ones < count {
                assert(all.skip(old_ones as int)[0] == all[old_ones as int]);
            }
        }
        let kept = self.samples.split_off(old_ones);
        self.samples = kept;
        assert(self@ =~= all.skip(old_ones as int));
    }

    /// The samples, oldest first.
    pub fn samples(&self) -> (r: &Vec<(Moment, u32)>)
        ensures
            r@ == self@,
    {
        &self.samples
    }
}

/// Whether the samples are in order, apart from each other, and no further than a
/// minute.
pub open spec fn is_history(samples: Seq<(Moment, u32)>) -> bool {
    &&& forall|i: int, j: int|
        0 <= i <= j < samples.len() ==> (#[trigger] samples[i]).0 + (j - i) * SPACING <= (
        #[trigger] samples[j]).0
    &&& samples.len() > 0 ==> samples.last().0 - samples[0].0 <= WINDOW
}

/// The samples that are left of an empty history after these were recorded, in
/// whatever order their moments are.
pub open spec fn history(records: Seq<(Moment, u32)>) -> Seq<(Moment, u32)>
    decreases records.len(),
{
    if records.len() == 0 {
        Seq::empty()
    } else {
        recorded(history(records.drop_last()), records.last().0, records.last().1)
    }
}

/// Recording keeps a history one, whatever the moment: it ends with what was
/// recorded, no sample in it is older than a minute, and there are at most 121.
pub proof fn law_histories_span_a_minute(samples: Seq<(Moment, u32)>, at: Moment, kbps: u32)
    requires
        is_history(samples),
    ensures
        is_history(recorded(samples, at, kbps)),
        1 <= recorded(samples, at, kbps).len() <= 121,
        recorded(samples, at, kbps).last().1 == kbps,
        forall|i: int|
            0 <= i < recorded(samples, at, kbps).len() ==> elapsed(
                (#[trigger] recorded(samples, at, kbps)[i]).0,
                at,
            ) <= WINDOW,
{
    let next = noted(samples, at, kbps);
    assert forall|i: int, j: int| 0 <= i <= j < next.len() implies (#[trigger] next[i]).0 + (j - i)
        * SPACING <= (#[trigger] next[j]).0 by {
        if j < samples.len() {
            assert(samples[i].0 + (j - i) * SPACING <= samples[j].0);
        } else if i < samples.len() {
            assert(samples[i].0 + (j - 1 - i) * SPACING <= samples[j - 1].0);
        }
    }
    lemma_recent(next, at);
    let kept = recorded(samples, at, kbps);
    assert(kept[0].0 + (kept.len() - 1) * SPACING <= kept[kept.len() - 1].0);
    if next.len() == samples.len() && at <= samples.last().0 {
        assert(elapsed(samples[0].0, at) <= WINDOW);
        assert(kept == next);
    }
    assert forall|i: int| 0 <= i < kept.len() implies elapsed((#[trigger] kept[i]).0, at)
        <= WINDOW by {
        assert(kept[0].0 + i * SPACING <= kept[i].0);
    }
}

/// Every history from an empty one is apart, in order, and a minute long at most.
pub proof fn law_every_history_spans_a_minute(records: Seq<(Moment, u32)>)
    ensures
        is_history(history(records)),
        history(records).len() <= 121,
        records.len() > 0 ==> history(records).len() > 0 && history(records).last().1
            == records.last().1,
    decreases records.len(),
{
    if records.len() > 0 {
        law_every_history_spans_a_minute(records.drop_last());
        law_histories_span_a_minute(
            history(records.drop_last()),
            records.last().0,
            records.last().1,
        );
    }
}

proof fn lemma_recent(samples: Seq<(Moment, u32)>, at: Moment)
    requires
        samples.len() > 0,
        elapsed(samples.last().0, at) <= WINDOW,
        forall|i: int, j: int|
            0 <= i <= j < samples.len() ==> (#[trigger] samples[i]).0 + (j - i) * SPACING <= (
            #[trigger] samples[j]).0,
    ensures
        ({
            let kept = recent(samples, at);
            &&& kept.len() > 0
            &&& kept.last() == samples.last()
            &&& elapsed(kept[0].0, at) <= WINDOW
            &&& forall|i: int, j: int|
                0 <= i <= j < kept.len() ==> (#[trigger] kept[i]).0 + (j - i) * SPACING <= (
                #[trigger] kept[j]).0
        }),
    decreases samples.len(),
{
    if elapsed(samples[0].0, at) > WINDOW {
        let rest = samples.skip(1);
        assert forall|i: int, j: int| 0 <= i <= j < rest.len() implies (#[trigger] rest[i]).0 + (j
            - i) * SPACING <= (#[trigger] rest[j]).0 by {
            assert(samples[i + 1].0 + (j - i) * SPACING <= samples[j + 1].0);
        }
        lemma_recent(rest, at);
    }
}

/// The remaining life of a room: seconds by the clock of the server at the
/// moment when they were reported.
#[derive(Clone, Copy)]
pub struct RoomCountdown {
    pub seconds: u64,
    pub at: Moment,
}

impl RoomCountdown {
    /// The seconds that are left at a moment.
    pub open spec fn left(self, now: Moment) -> nat {
        let gone = elapsed(self.at, now) / 1_000_000_000;
        if self.seconds > gone {
            (self.seconds - gone) as nat
        } else {
            0
        }
    }

    /// What is left, in words: "3h 12m left" or "12m left".
    pub open spec fn text(self, now: Moment) -> Seq<char> {
        let minutes = self.left(now) / 60;
        if minutes >= 60 {
            text::decimal(minutes / 60) + "h "@ + text::two_digits(minutes % 60) + "m left"@
        } else {
            text::decimal(minutes) + "m left"@
        }
    }

    /// The seconds that are left.
    pub fn remaining_seconds(&self, now: Moment) -> (r: u64)
        ensures
            r == self.left(now),
    {
        let gone: u64 = elapsed_since(self.at, now) / 1_000_000_000;
        if self.seconds > gone {
            self.seconds - gone
        } else {
            0
        }
    }

    /// What is left, in words.
    pub fn label(&self, now: Moment) -> (r: String)
        ensures
            r@ == self.text(now),
    {
        let minutes: u64 = self.remaining_seconds(now) / 60;
        if minutes >= 60 {
            let mut r = text::decimal_text(minutes / 60);
            r.push_str("h ");
            r.push_str(text::two_digit_text(minutes % 60).as_str());
            r.push_str("m left");
            r
        } else {
            let mut r = text::decimal_text(minutes);
            r.push_str("m left");
            r
        }
    }
}

} // verus!
