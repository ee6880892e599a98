//! Report intervals that a device advertises.
use vstd::prelude::*;

verus! {

/// Device-advertised report intervals: bit `n` stands for `n + 1` milliseconds.
#[derive(Debug, Clone, Copy, PartialEq, Eq, Structural)]
pub struct ReportRateList {
    bits: u8,
}

impl ReportRateList {
    /// The advertised bits.
    pub closed spec fn mask(self) -> u8 {
        self.bits
    }

    /// Whether an interval in milliseconds is advertised.
    pub open spec fn advertises(self, interval: u8) -> bool {
        1 <= interval <= 8 && self.mask() & (1u8 << ((interval - 1) as u8)) != 0
    }

    /// Every advertised interval, in ascending order.
    pub open spec fn intervals(self) -> Seq<u8> {
        Seq::new(8, |i: int| (i + 1) as u8).filter(|interval: u8| self.advertises(interval))
    }

    /// The list that bits advertise.
    pub closed spec fn with_mask(bits: u8) -> ReportRateList {
        ReportRateList { bits }
    }

    /// Keeps every bit of a device reply.
    pub fn from_bits_retain(bits: u8) -> (list: Self)
        ensures
            list == Self::with_mask(bits),
            list.mask() == bits,
    {
        ReportRateList { bits }
    }

    /// The advertised bits.
    pub fn bits(self) -> (bits: u8)
        ensures
            bits == self.mask(),
    {
        self.bits
    }

    /// Whether an interval in milliseconds is advertised.
    pub fn contains(self, interval: u8) -> (advertised: bool)
        ensures
            advertised == self.advertises(interval),
    {
        1 <= interval && interval <= 8 && self.bits & (1u8 << (interval - 1)) != 0
    }

    /// Lists every advertised interval, in ascending order.
    pub fn supported_intervals(self) -> (intervals: Vec<u8>)
        ensures
            intervals@ == self.intervals(),
    {
        let ghost all = Seq::new(8, |i: int| (i + 1) as u8);
        let ghost wanted = |interval: u8| self.advertises(interval);
        let mut intervals: Vec<u8> = Vec::new();
        let mut interval: u8 = 1;
        proof {
            reveal(Seq::filter);
            assert(all.take(0).filter(wanted) =~= Seq::<u8>::empty());
        }
        while interval <= 8
            invariant
                1 <= interval <= 9,
                all == Seq::new(8, |i: int| (i + 1) as u8),
                wanted == (|interval: u8| self.advertises(interval)),
                intervals@ == all.take(interval - 1).filter(wanted),
            decreases 9 - interval,
        {
            proof {
                let next = all.take(interval as int);
                assert(next.drop_last() =~= all.take(interval - 1));
                assert(next.last() == interval);
                reveal(Seq::filter);
            }
            if self.contains(interval) {
                intervals.push(interval);
            }
            interval = interval + 1;
        }
        assert(all.take(8) =~= all);
        intervals
    }
}

proof fn intervals_up_to(list: ReportRateList, count: int)
    requires
        0 <= count <= 8,
    ensures
        ({
            let listed = Seq::new(8, |i: int| (i + 1) as u8).take(count).filter(
                |interval: u8| list.advertises(interval),
            );
            &&& forall|interval: u8|
                listed.contains(interval) <==> (#[trigger] list.advertises(interval) && interval
                    <= count)
            &&& forall|left: int, right: int|
                0 <= left < right < listed.len() ==> listed[left] < listed[right]
        }),
    decreases count,
{
    let all = Seq::new(8, |i: int| (i + 1) as u8);
    let wanted = |interval: u8| list.advertises(interval);
    reveal(Seq::filter);
    let listed = all.take(count).filter(wanted);
    if count > 0 {
        intervals_up_to(list, count - 1);
        let shorter = all.take(count - 1).filter(wanted);
        assert(all.take(count).drop_last() =~= all.take(count - 1));
        assert(all.take(count).last() == count);
        if list.advertises(count as u8) {
            assert(listed == shorter.push(count as u8));
            assert forall|interval: u8| listed.contains(interval) <==> (
            #[trigger] list.advertises(interval) && interval <= count) by {
                if shorter.contains(interval) {
                    let position = choose|i: int|
                        0 <= i < shorter.len() && shorter[i] == interval;
                    assert(listed[position] == interval);
                }
                if interval == count {
                    assert(listed[shorter.len() as int] == interval);
                }
            }
            assert forall|left: int, right: int| 0 <= left < right < listed.len() implies
                listed[left] < listed[right] by {
                assert(shorter.contains(shorter[left]));
                assert(list.advertises(shorter[left]));
            }
        }
    }
}

/// A list made of bits has exactly those bits, and a list is determined by them.
pub proof fn a_list_keeps_its_bits(bits: u8)
    ensures
        ReportRateList::with_mask(bits).mask() == bits,
        forall|list: ReportRateList| #[trigger]
            list.mask() == bits ==> list == ReportRateList::with_mask(bits),
{
}

/// The listed intervals are exactly the advertised ones, each once and in ascending order.
pub proof fn listed_intervals_are_the_advertised_ones(list: ReportRateList)
    ensures
        forall|interval: u8|
            list.intervals().contains(interval) <==> #[trigger] list.advertises(interval),
        forall|left: int, right: int|
            0 <= left < right < list.intervals().len() ==> list.intervals()[left]
                < list.intervals()[right],
{
    intervals_up_to(list, 8);
    let all = Seq::new(8, |i: int| (i + 1) as u8);
    assert(all.take(8) =~= all);
}

} // verus!
