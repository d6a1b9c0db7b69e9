//! The accumulator of one direction of a session, and the walk that fills
//! it.

use crate::error::AnalysisError;
use crate::message::{message_views, DecodedMessage, SubMessage};
use crate::report::{percent, rates_of, Rates};
use crate::stats_model::{
    ack_count, lemma_messages_only_add, lemma_messages_split, lemma_parts_stay_within_wholes,
    lemma_sub_messages_only_add, lemma_sub_messages_split, lemma_totals_grow,
    lemma_wholes_count_every_message, out_of_order_count, StatsView, Totals,
};
use std::collections::HashSet;
use vstd::prelude::*;

verus! {

broadcast use vstd::std_specs::hash::group_hash_axioms;

/// The counters of one direction as plain numbers.
#[derive(Clone, Copy, Debug, PartialEq, Eq)]
pub struct Counts {
    /// Multi-packet frames that bundle more than one acknowledgement.
    pub multi_packets_with_duplicate_acks: u64,
    pub total_multi_packets: u64,
    pub total_acks: u64,
    /// Acknowledgements below the high-water mark at the time they came.
    pub stale_acks: u64,
    pub total_out_of_order: u64,
    /// Out-of-order reports below the high-water mark at the time they came.
    pub stale_out_of_order: u64,
    /// Data messages and fragments whose sequence number had come before.
    pub resent_data_count: u64,
    pub total_data_packets: u64,
}

impl Counts {
    /// These are the counters of `stats`.
    pub open spec fn matches(self, stats: StatsView) -> bool {
        &&& self.multi_packets_with_duplicate_acks == stats.multi_packets_with_duplicate_acks
        &&& self.total_multi_packets == stats.total_multi_packets
        &&& self.total_acks == stats.total_acks
        &&& self.stale_acks == stats.stale_acks
        &&& self.total_out_of_order == stats.total_out_of_order
        &&& self.stale_out_of_order == stats.stale_out_of_order
        &&& self.resent_data_count == stats.resent_data_count
        &&& self.total_data_packets == stats.total_data_packets
    }

    /// No counter of a part is above the counter of its whole.
    pub open spec fn consistent(self) -> bool {
        &&& self.multi_packets_with_duplicate_acks <= self.total_multi_packets
        &&& self.stale_acks <= self.total_acks
        &&& self.stale_out_of_order <= self.total_out_of_order
        &&& self.resent_data_count <= self.total_data_packets
    }
}

/// The counters of an accumulator. No counter of a part is ever above the
/// counter of its whole.
#[derive(Debug)]
struct Counters {
    multi_packets_with_duplicate_acks: u64,
    total_multi_packets: u64,
    total_acks: u64,
    stale_acks: u64,
    total_out_of_order: u64,
    stale_out_of_order: u64,
    resent_data_count: u64,
    total_data_packets: u64,
}

impl Counters {
    #[verifier::type_invariant]
    spec fn parts_within_wholes(self) -> bool {
        &&& self.multi_packets_with_duplicate_acks <= self.total_multi_packets
        &&& self.stale_acks <= self.total_acks
        &&& self.stale_out_of_order <= self.total_out_of_order
        &&& self.resent_data_count <= self.total_data_packets
    }
}

/// The accumulator for one direction of a session. Make a fresh one for each
/// direction and hand it that direction's messages in capture order.
#[derive(Debug)]
pub struct Stats {
    counters: Counters,
    high_water_ack: u16,
    seen_data_sequences: HashSet<u16>,
}

impl View for Stats {
    type V = StatsView;

    closed spec fn view(&self) -> StatsView {
        StatsView {
            multi_packets_with_duplicate_acks: self.counters.multi_packets_with_duplicate_acks
                as nat,
            total_multi_packets: self.counters.total_multi_packets as nat,
            total_acks: self.counters.total_acks as nat,
            stale_acks: self.counters.stale_acks as nat,
            total_out_of_order: self.counters.total_out_of_order as nat,
            stale_out_of_order: self.counters.stale_out_of_order as nat,
            high_water_ack: self.high_water_ack,
            seen_data_sequences: self.seen_data_sequences@,
            resent_data_count: self.counters.resent_data_count as nat,
            total_data_packets: self.counters.total_data_packets as nat,
        }
    }
}

impl Stats {
    /// An accumulator that has taken in nothing.
    pub fn new() -> (stats: Stats)
        ensures
            stats@ == StatsView::fresh(),
    {
        Stats {
            counters: Counters {
                multi_packets_with_duplicate_acks: 0,
                total_multi_packets: 0,
                total_acks: 0,
                stale_acks: 0,
                total_out_of_order: 0,
                stale_out_of_order: 0,
                resent_data_count: 0,
                total_data_packets: 0,
            },
            high_water_ack: 0,
            seen_data_sequences: HashSet::new(),
        }
    }

    /// The counters as they stand.
    pub fn counts(&self) -> (counts: Counts)
        ensures
            counts.matches(self@),
            counts.consistent(),
    {
        proof {
            use_type_invariant(&self.counters);
        }
        Counts {
            multi_packets_with_duplicate_acks: self.counters.multi_packets_with_duplicate_acks,
            total_multi_packets: self.counters.total_multi_packets,
            total_acks: self.counters.total_acks,
            stale_acks: self.counters.stale_acks,
            total_out_of_order: self.counters.total_out_of_order,
            stale_out_of_order: self.counters.stale_out_of_order,
            resent_data_count: self.counters.resent_data_count,
            total_data_packets: self.counters.total_data_packets,
        }
    }

    /// An accumulator that goes on from counters, a high-water mark and data
    /// sequence numbers that an earlier walk ended with. `None` where a
    /// counter of a part is above the counter of its whole.
    pub fn resume(counts: Counts, high_water_ack: u16, seen: &Vec<u16>) -> (stats: Option<Stats>)
        ensures
            stats is Some <==> counts.consistent(),
            stats matches Some(resumed) ==> {
                &&& counts.matches(resumed@)
                &&& resumed@.high_water_ack == high_water_ack
                &&& resumed@.seen_data_sequences == seen@.to_set()
            },
    {
        if counts.multi_packets_with_duplicate_acks > counts.total_multi_packets
            || counts.stale_acks > counts.total_acks || counts.stale_out_of_order
            > counts.total_out_of_order || counts.resent_data_count > counts.total_data_packets {
            return None;
        }
        let mut seen_data_sequences: HashSet<u16> = HashSet::new();
        let mut i: usize = 0;
        while i < seen.len()
            invariant
                i <= seen.len(),
                seen_data_sequences@ == seen@.take(i as int).to_set(),
            decreases seen.len() - i,
        {
            seen_data_sequences.insert(seen[i]);
            proof {
                assert(seen@.take(i + 1) == seen@.take(i as int).push(seen@[i as int]));
                seen@.take(i as int).lemma_push_to_set_commute(seen@[i as int]);
            }
            i += 1;
        }
        proof {
            assert(seen@.take(i as int) == seen@);
        }
        Some(
            Stats {
                counters: Counters {
                    multi_packets_with_duplicate_acks: counts.multi_packets_with_duplicate_acks,
                    total_multi_packets: counts.total_multi_packets,
                    total_acks: counts.total_acks,
                    stale_acks: counts.stale_acks,
                    total_out_of_order: counts.total_out_of_order,
                    stale_out_of_order: counts.stale_out_of_order,
                    resent_data_count: counts.resent_data_count,
                    total_data_packets: counts.total_data_packets,
                },
                high_water_ack,
                seen_data_sequences,
            },
        )
    }

    /// The highest sequence number acknowledged so far, 0 before the first
    /// acknowledgement.
    pub fn high_water_ack(&self) -> (mark: u16)
        ensures
            mark == self@.high_water_ack,
    {
        self.high_water_ack
    }

    /// Whether a data message or fragment with this sequence number was
    /// taken in.
    pub fn has_seen_data(&self, sequence: u16) -> (seen: bool)
        ensures
            seen == self@.seen_data_sequences.contains(sequence),
    {
        self.seen_data_sequences.contains(&sequence)
    }

    /// The four rates of this direction. A rate is missing exactly where its
    /// whole is zero, and no rate is above 100.
    pub fn rates(&self) -> (rates: Rates)
        ensures
            rates@ == rates_of(self@),
            rates.duplicate_ack_multipacket_rate is None <==> self@.total_multi_packets == 0,
            rates.stale_ack_rate is None <==> self@.total_acks == 0,
            rates.stale_out_of_order_rate is None <==> self@.total_out_of_order == 0,
            rates.resent_data_rate is None <==> self@.total_data_packets == 0,
            rates.duplicate_ack_multipacket_rate matches Some(p) ==> p <= 100,
            rates.stale_ack_rate matches Some(p) ==> p <= 100,
            rates.stale_out_of_order_rate matches Some(p) ==> p <= 100,
            rates.resent_data_rate matches Some(p) ==> p <= 100,
    {
        proof {
            use_type_invariant(&self.counters);
        }
        Rates {
            duplicate_ack_multipacket_rate: percent(
                self.counters.multi_packets_with_duplicate_acks,
                self.counters.total_multi_packets,
            ),
            stale_ack_rate: percent(self.counters.stale_acks, self.counters.total_acks),
            stale_out_of_order_rate: percent(
                self.counters.stale_out_of_order,
                self.counters.total_out_of_order,
            ),
            resent_data_rate: percent(
                self.counters.resent_data_count,
                self.counters.total_data_packets,
            ),
        }
    }

    /// Takes in one acknowledgement, top-level or bundled.
    fn apply_ack(&mut self, sequence: u16)
        requires
            old(self)@.after_ack(sequence).fits(),
        ensures
            final(self)@ == old(self)@.after_ack(sequence),
    {
        proof {
            use_type_invariant(&self.counters);
        }
        self.counters.total_acks += 1;
        if sequence < self.high_water_ack {
            self.counters.stale_acks += 1;
        } else {
            self.high_water_ack = sequence;
        }
    }

    /// Takes in one out-of-order report, top-level or bundled.
    fn apply_out_of_order(&mut self, sequence: u16)
        requires
            old(self)@.after_out_of_order(sequence).fits(),
        ensures
            final(self)@ == old(self)@.after_out_of_order(sequence),
    {
        proof {
            use_type_invariant(&self.counters);
        }
        self.counters.total_out_of_order += 1;
        if sequence < self.high_water_ack {
            self.counters.stale_out_of_order += 1;
        }
    }

    /// Takes in one data message or fragment.
    fn apply_data(&mut self, sequence: u16)
        requires
            old(self)@.after_data(sequence).fits(),
        ensures
            final(self)@ == old(self)@.after_data(sequence),
    {
        proof {
            use_type_invariant(&self.counters);
        }
        self.counters.total_data_packets += 1;
        if self.seen_data_sequences.contains(&sequence) {
            self.counters.resent_data_count += 1;
        } else {
            self.seen_data_sequences.insert(sequence);
        }
    }

    /// Takes in the sub-messages of one frame, in wire order.
    fn apply_sub_messages(&mut self, subs: &Vec<SubMessage>)
        requires
            old(self)@.after_sub_messages(subs@).fits(),
        ensures
            final(self)@ == old(self)@.after_sub_messages(subs@),
    {
        let ghost start = self@;
        let mut i: usize = 0;
        while i < subs.len()
            invariant
                i <= subs.len(),
                start.after_sub_messages(subs@).fits(),
                self@ == start.after_sub_messages(subs@.take(i as int)),
            decreases subs.len() - i,
        {
            proof {
                let taken = subs@.take(i + 1);
                let rest = subs@.skip(i + 1);
                assert(taken.drop_last() == subs@.take(i as int));
                assert(taken + rest == subs@);
                lemma_sub_messages_split(start, taken, rest);
                lemma_sub_messages_only_add(start.after_sub_messages(taken), rest);
            }
            match subs[i] {
                SubMessage::Ack { sequence } => self.apply_ack(sequence),
                SubMessage::OutOfOrder { sequence } => self.apply_out_of_order(sequence),
                SubMessage::Other => {},
            }
            i += 1;
        }
        proof {
            assert(subs@.take(i as int) == subs@);
        }
    }

    /// Takes in one multi-packet frame: the frame itself, then each of its
    /// sub-messages.
    fn apply_multi_packet(&mut self, subs: &Vec<SubMessage>)
        requires
            old(self)@.after_multi_packet(subs@).fits(),
        ensures
            final(self)@ == old(self)@.after_multi_packet(subs@),
    {
        proof {
            use_type_invariant(&self.counters);
            lemma_sub_messages_only_add(self@.counting_frame(subs@), subs@);
        }
        self.counters.total_multi_packets += 1;
        if contain_multiple_acks(subs) {
            self.counters.multi_packets_with_duplicate_acks += 1;
        }
        self.apply_sub_messages(subs);
    }

    /// Takes in one message.
    fn apply_message(&mut self, message: &DecodedMessage)
        requires
            old(self)@.after_message(message@).fits(),
        ensures
            final(self)@ == old(self)@.after_message(message@),
    {
        match message {
            DecodedMessage::Ack { sequence } => self.apply_ack(*sequence),
            DecodedMessage::OutOfOrder { sequence } => self.apply_out_of_order(*sequence),
            DecodedMessage::Data { sequence } => self.apply_data(*sequence),
            DecodedMessage::DataFragment { sequence } => self.apply_data(*sequence),
            DecodedMessage::MultiPacket { sub_messages } => self.apply_multi_packet(sub_messages),
            DecodedMessage::Other => {},
        }
    }

    /// Whether the counters of the wholes can each go up by what `needed`
    /// holds for them.
    fn has_room_for(&self, needed: &Tally) -> (room: bool)
        ensures
            room == {
                &&& self@.total_acks + needed.acks <= u64::MAX
                &&& self@.total_out_of_order + needed.out_of_order <= u64::MAX
                &&& self@.total_data_packets + needed.data_packets <= u64::MAX
                &&& self@.total_multi_packets + needed.multi_packets <= u64::MAX
            },
            self@.fits(),
            self@.consistent(),
    {
        proof {
            use_type_invariant(&self.counters);
        }
        needed.acks <= u64::MAX - self.counters.total_acks && needed.out_of_order <= u64::MAX
            - self.counters.total_out_of_order && needed.data_packets <= u64::MAX
            - self.counters.total_data_packets && needed.multi_packets <= u64::MAX
            - self.counters.total_multi_packets
    }
}

/// Whether a multi-packet frame bundles more than one acknowledgement.
pub fn contain_multiple_acks(packet: &Vec<SubMessage>) -> (several: bool)
    ensures
        several == (ack_count(packet@) > 1),
{
    let mut acks: usize = 0;
    let mut i: usize = 0;
    while i < packet.len()
        invariant
            i <= packet.len(),
            acks == ack_count(packet@.take(i as int)),
            acks <= i,
        decreases packet.len() - i,
    {
        proof {
            assert(packet@.take(i + 1).drop_last() == packet@.take(i as int));
        }
        if let SubMessage::Ack { .. } = packet[i] {
            acks += 1;
        }
        i += 1;
    }
    proof {
        assert(packet@.take(i as int) == packet@);
    }
    acks > 1
}

/// How many messages of each counted kind a run holds.
struct Tally {
    acks: u64,
    out_of_order: u64,
    data_packets: u64,
    multi_packets: u64,
}

impl Tally {
    spec fn holds(self, totals: Totals) -> bool {
        &&& self.acks == totals.acks
        &&& self.out_of_order == totals.out_of_order
        &&& self.data_packets == totals.data_packets
        &&& self.multi_packets == totals.multi_packets
    }
}

/// Counts the acknowledgements and the out-of-order reports of one frame.
fn tally_sub_messages(subs: &Vec<SubMessage>) -> (found: (usize, usize))
    ensures
        found.0 == ack_count(subs@),
        found.1 == out_of_order_count(subs@),
{
    let mut acks: usize = 0;
    let mut out_of_order: usize = 0;
    let mut i: usize = 0;
    while i < subs.len()
        invariant
            i <= subs.len(),
            acks == ack_count(subs@.take(i as int)),
            out_of_order == out_of_order_count(subs@.take(i as int)),
            acks <= i,
            out_of_order <= i,
        decreases subs.len() - i,
    {
        proof {
            assert(subs@.take(i + 1).drop_last() == subs@.take(i as int));
        }
        match subs[i] {
            SubMessage::Ack { .. } => {
                acks += 1;
            },
            SubMessage::OutOfOrder { .. } => {
                out_of_order += 1;
            },
            SubMessage::Other => {},
        }
        i += 1;
    }
    proof {
        assert(subs@.take(i as int) == subs@);
    }
    (acks, out_of_order)
}

/// Counts the messages of each counted kind in a run, bundled ones included.
/// `None` where a count passes `u64::MAX`.
fn tally(messages: &Vec<DecodedMessage>) -> (needed: Option<Tally>)
    ensures
        match needed {
            Some(found) => found.holds(Totals::of(message_views(messages@))),
            None => !Totals::of(message_views(messages@)).fits(),
        },
{
    let ghost all = message_views(messages@);
    let mut found = Tally { acks: 0, out_of_order: 0, data_packets: 0, multi_packets: 0 };
    let mut i: usize = 0;
    while i < messages.len()
        invariant
            i <= messages.len(),
            all == message_views(messages@),
            found.holds(Totals::of(all.take(i as int))),
        decreases messages.len() - i,
    {
        proof {
            assert(all.take(i + 1).drop_last() == all.take(i as int));
            assert(all.take(i + 1).last() == messages@[i as int]@);
            lemma_totals_grow(all, i + 1);
        }
        match &messages[i] {
            DecodedMessage::Ack { .. } => {
                if found.acks == u64::MAX {
                    return None;
                }
                found.acks += 1;
            },
            DecodedMessage::OutOfOrder { .. } => {
                if found.out_of_order == u64::MAX {
                    return None;
                }
                found.out_of_order += 1;
            },
            DecodedMessage::Data { .. } | DecodedMessage::DataFragment { .. } => {
                if found.data_packets == u64::MAX {
                    return None;
                }
                found.data_packets += 1;
            },
            DecodedMessage::MultiPacket { sub_messages } => {
                let (acks, out_of_order): (usize, usize) = tally_sub_messages(sub_messages);
                if found.multi_packets == u64::MAX || acks as u64 > u64::MAX - found.acks
                    || out_of_order as u64 > u64::MAX - found.out_of_order {
                    return None;
                }
                found.multi_packets += 1;
                found.acks += acks as u64;
                found.out_of_order += out_of_order as u64;
            },
            DecodedMessage::Other => {},
        }
        i += 1;
    }
    proof {
        assert(all.take(i as int) == all);
    }
    Some(found)
}

/// Walks one direction's messages in capture order and adds them to `stats`.
///
/// The walk takes in every message or none: where a counter would pass
/// `u64::MAX` it fails and leaves `stats` as it was.
pub fn analyse_packets(parsed_packets: &Vec<DecodedMessage>, stats: &mut Stats) -> (outcome: Result<
    (),
    AnalysisError,
>)
    ensures
        match outcome {
            Ok(()) => final(stats)@ == old(stats)@.after_messages(message_views(parsed_packets@)),
            Err(error) => error == AnalysisError::CounterOverflow && final(stats)@ == old(stats)@,
        },
        outcome is Ok <==> old(stats)@.after_messages(message_views(parsed_packets@)).fits(),
{
    let ghost all = message_views(parsed_packets@);
    let ghost start = stats@;
    proof {
        lemma_wholes_count_every_message(start, all);
    }
    let needed = match tally(parsed_packets) {
        Some(needed) => needed,
        None => {
            return Err(AnalysisError::CounterOverflow);
        },
    };
    if !stats.has_room_for(&needed) {
        return Err(AnalysisError::CounterOverflow);
    }
    proof {
        lemma_parts_stay_within_wholes(start, all);
    }
    let mut i: usize = 0;
    while i < parsed_packets.len()
        invariant
            i <= parsed_packets.len(),
            all == message_views(parsed_packets@),
            start.after_messages(all).fits(),
            stats@ == start.after_messages(all.take(i as int)),
        decreases parsed_packets.len() - i,
    {
        proof {
            let taken = all.take(i + 1);
            let rest = all.skip(i + 1);
            assert(taken.drop_last() == all.take(i as int));
            assert(taken.last() == parsed_packets@[i as int]@);
            assert(taken + rest == all);
            lemma_messages_split(start, taken, rest);
            lemma_messages_only_add(start.after_messages(taken), rest);
        }
        stats.apply_message(&parsed_packets[i]);
        i += 1;
    }
    proof {
        assert(all.take(i as int) == all);
    }
    Ok(())
}

} // verus!
