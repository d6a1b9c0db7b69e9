//! What the traffic analysis computes, as mathematics: the state of one
//! direction's accumulator, how each message changes it, and what holds of
//! it after any run of messages.

use crate::message::{MessageView, SubMessage};
use vstd::prelude::*;

verus! {

/// The state of one direction's accumulator: unbounded counters, the
/// high-water mark of acknowledgements and the set of data sequence numbers
/// seen.
pub ghost struct StatsView {
    pub multi_packets_with_duplicate_acks: nat,
    pub total_multi_packets: nat,
    pub total_acks: nat,
    pub stale_acks: nat,
    pub total_out_of_order: nat,
    pub stale_out_of_order: nat,
    pub high_water_ack: u16,
    pub seen_data_sequences: Set<u16>,
    pub resent_data_count: nat,
    pub total_data_packets: nat,
}

/// How many of `subs` are acknowledgements.
pub open spec fn ack_count(subs: Seq<SubMessage>) -> nat
    decreases subs.len(),
{
    if subs.len() == 0 {
        0
    } else {
        ack_count(subs.drop_last()) + if subs.last() is Ack { 1nat } else { 0nat }
    }
}

/// How many of `subs` are out-of-order reports.
pub open spec fn out_of_order_count(subs: Seq<SubMessage>) -> nat
    decreases subs.len(),
{
    if subs.len() == 0 {
        0
    } else {
        out_of_order_count(subs.drop_last()) + if subs.last() is OutOfOrder { 1nat } else { 0nat }
    }
}

/// How many messages of each counted kind a run of messages holds, bundled
/// ones included.
pub ghost struct Totals {
    pub acks: nat,
    pub out_of_order: nat,
    pub data_packets: nat,
    pub multi_packets: nat,
}

impl Totals {
    /// The totals of no messages.
    pub open spec fn none() -> Totals {
        Totals { acks: 0, out_of_order: 0, data_packets: 0, multi_packets: 0 }
    }

    /// The totals of two runs together.
    pub open spec fn plus(self, other: Totals) -> Totals {
        Totals {
            acks: self.acks + other.acks,
            out_of_order: self.out_of_order + other.out_of_order,
            data_packets: self.data_packets + other.data_packets,
            multi_packets: self.multi_packets + other.multi_packets,
        }
    }

    /// What one message adds.
    pub open spec fn of_message(message: MessageView) -> Totals {
        match message {
            MessageView::Ack { .. } => Totals { acks: 1, ..Totals::none() },
            MessageView::OutOfOrder { .. } => Totals { out_of_order: 1, ..Totals::none() },
            MessageView::Data { .. } => Totals { data_packets: 1, ..Totals::none() },
            MessageView::DataFragment { .. } => Totals { data_packets: 1, ..Totals::none() },
            MessageView::MultiPacket { sub_messages } => Totals {
                acks: ack_count(sub_messages),
                out_of_order: out_of_order_count(sub_messages),
                data_packets: 0,
                multi_packets: 1,
            },
            MessageView::Other => Totals::none(),
        }
    }

    /// What a run of messages adds.
    pub open spec fn of(messages: Seq<MessageView>) -> Totals
        decreases messages.len(),
    {
        if messages.len() == 0 {
            Totals::none()
        } else {
            Totals::of(messages.drop_last()).plus(Totals::of_message(messages.last()))
        }
    }

    /// Each total can be held in a `u64`.
    pub open spec fn fits(self) -> bool {
        &&& self.acks <= u64::MAX
        &&& self.out_of_order <= u64::MAX
        &&& self.data_packets <= u64::MAX
        &&& self.multi_packets <= u64::MAX
    }

    /// No total is below its value in `earlier`.
    pub open spec fn at_least(self, earlier: Totals) -> bool {
        &&& self.acks >= earlier.acks
        &&& self.out_of_order >= earlier.out_of_order
        &&& self.data_packets >= earlier.data_packets
        &&& self.multi_packets >= earlier.multi_packets
    }
}

impl StatsView {
    /// The accumulator before any message.
    pub open spec fn fresh() -> StatsView {
        StatsView {
            multi_packets_with_duplicate_acks: 0,
            total_multi_packets: 0,
            total_acks: 0,
            stale_acks: 0,
            total_out_of_order: 0,
            stale_out_of_order: 0,
            high_water_ack: 0,
            seen_data_sequences: Set::empty(),
            resent_data_count: 0,
            total_data_packets: 0,
        }
    }

    /// An acknowledgement below the mark is stale; any other moves the mark
    /// to its own sequence number.
    pub open spec fn after_ack(self, sequence: u16) -> StatsView {
        if sequence < self.high_water_ack {
            StatsView {
                total_acks: self.total_acks + 1,
                stale_acks: self.stale_acks + 1,
                ..self
            }
        } else {
            StatsView { total_acks: self.total_acks + 1, high_water_ack: sequence, ..self }
        }
    }

    /// An out-of-order report below the mark is stale; the mark never moves.
    pub open spec fn after_out_of_order(self, sequence: u16) -> StatsView {
        StatsView {
            total_out_of_order: self.total_out_of_order + 1,
            stale_out_of_order: self.stale_out_of_order + if sequence < self.high_water_ack {
                1nat
            } else {
                0nat
            },
            ..self
        }
    }

    /// A data message or fragment whose sequence number was seen before is a
    /// resend; any other is remembered.
    pub open spec fn after_data(self, sequence: u16) -> StatsView {
        if self.seen_data_sequences.contains(sequence) {
            StatsView {
                total_data_packets: self.total_data_packets + 1,
                resent_data_count: self.resent_data_count + 1,
                ..self
            }
        } else {
            StatsView {
                total_data_packets: self.total_data_packets + 1,
                seen_data_sequences: self.seen_data_sequences.insert(sequence),
                ..self
            }
        }
    }

    /// A bundled message is taken as a top-level one of its kind would be.
    pub open spec fn after_sub_message(self, sub: SubMessage) -> StatsView {
        match sub {
            SubMessage::Ack { sequence } => self.after_ack(sequence),
            SubMessage::OutOfOrder { sequence } => self.after_out_of_order(sequence),
            SubMessage::Other => self,
        }
    }

    /// The sub-messages of one frame, taken in wire order.
    pub open spec fn after_sub_messages(self, subs: Seq<SubMessage>) -> StatsView
        decreases subs.len(),
    {
        if subs.len() == 0 {
            self
        } else {
            self.after_sub_messages(subs.drop_last()).after_sub_message(subs.last())
        }
    }

    /// A multi-packet frame counts once, and once more where it bundles more
    /// than one acknowledgement.
    pub open spec fn counting_frame(self, subs: Seq<SubMessage>) -> StatsView {
        StatsView {
            total_multi_packets: self.total_multi_packets + 1,
            multi_packets_with_duplicate_acks: self.multi_packets_with_duplicate_acks
                + if ack_count(subs) > 1 {
                1nat
            } else {
                0nat
            },
            ..self
        }
    }

    /// A multi-packet frame is counted, and then each of its sub-messages is
    /// taken as if it had come alone.
    pub open spec fn after_multi_packet(self, subs: Seq<SubMessage>) -> StatsView {
        self.counting_frame(subs).after_sub_messages(subs)
    }

    /// The accumulator after one more message.
    pub open spec fn after_message(self, message: MessageView) -> StatsView {
        match message {
            MessageView::Ack { sequence } => self.after_ack(sequence),
            MessageView::OutOfOrder { sequence } => self.after_out_of_order(sequence),
            MessageView::Data { sequence } => self.after_data(sequence),
            MessageView::DataFragment { sequence } => self.after_data(sequence),
            MessageView::MultiPacket { sub_messages } => self.after_multi_packet(sub_messages),
            MessageView::Other => self,
        }
    }

    /// One direction's messages, taken in capture order.
    pub open spec fn after_messages(self, messages: Seq<MessageView>) -> StatsView
        decreases messages.len(),
    {
        if messages.len() == 0 {
            self
        } else {
            self.after_messages(messages.drop_last()).after_message(messages.last())
        }
    }

    /// Every counter can be held in a `u64`.
    pub open spec fn fits(self) -> bool {
        &&& self.multi_packets_with_duplicate_acks <= u64::MAX
        &&& self.total_multi_packets <= u64::MAX
        &&& self.total_acks <= u64::MAX
        &&& self.stale_acks <= u64::MAX
        &&& self.total_out_of_order <= u64::MAX
        &&& self.stale_out_of_order <= u64::MAX
        &&& self.resent_data_count <= u64::MAX
        &&& self.total_data_packets <= u64::MAX
    }

    /// No counter of a part is above the counter of its whole.
    pub open spec fn consistent(self) -> bool {
        &&& self.multi_packets_with_duplicate_acks <= self.total_multi_packets
        &&& self.stale_acks <= self.total_acks
        &&& self.stale_out_of_order <= self.total_out_of_order
        &&& self.resent_data_count <= self.total_data_packets
    }

    /// No counter is below its value in `earlier`.
    pub open spec fn counts_at_least(self, earlier: StatsView) -> bool {
        &&& self.multi_packets_with_duplicate_acks >= earlier.multi_packets_with_duplicate_acks
        &&& self.total_multi_packets >= earlier.total_multi_packets
        &&& self.total_acks >= earlier.total_acks
        &&& self.stale_acks >= earlier.stale_acks
        &&& self.total_out_of_order >= earlier.total_out_of_order
        &&& self.stale_out_of_order >= earlier.stale_out_of_order
        &&& self.resent_data_count >= earlier.resent_data_count
        &&& self.total_data_packets >= earlier.total_data_packets
    }
}

/// Counters never go down while sub-messages are taken in.
pub proof fn lemma_sub_messages_only_add(stats: StatsView, subs: Seq<SubMessage>)
    ensures
        stats.after_sub_messages(subs).counts_at_least(stats),
    decreases subs.len(),
{
    if subs.len() > 0 {
        lemma_sub_messages_only_add(stats, subs.drop_last());
    }
}

/// Counters never go down while messages are taken in.
pub proof fn lemma_messages_only_add(stats: StatsView, messages: Seq<MessageView>)
    ensures
        stats.after_messages(messages).counts_at_least(stats),
    decreases messages.len(),
{
    if messages.len() > 0 {
        lemma_messages_only_add(stats, messages.drop_last());
        let before = stats.after_messages(messages.drop_last());
        if let MessageView::MultiPacket { sub_messages } = messages.last() {
            lemma_sub_messages_only_add(before.counting_frame(sub_messages), sub_messages);
        }
    }
}

/// Taking in a run of sub-messages is the same as taking in its two halves
/// one after the other.
pub proof fn lemma_sub_messages_split(
    stats: StatsView,
    first: Seq<SubMessage>,
    second: Seq<SubMessage>,
)
    ensures
        stats.after_sub_messages(first + second) == stats.after_sub_messages(
            first,
        ).after_sub_messages(second),
    decreases second.len(),
{
    if second.len() == 0 {
        assert(first + second == first);
    } else {
        lemma_sub_messages_split(stats, first, second.drop_last());
        assert((first + second).drop_last() == first + second.drop_last());
    }
}

/// Taking in a run of messages is the same as taking in its two halves one
/// after the other.
pub proof fn lemma_messages_split(
    stats: StatsView,
    first: Seq<MessageView>,
    second: Seq<MessageView>,
)
    ensures
        stats.after_messages(first + second) == stats.after_messages(first).after_messages(
            second,
        ),
    decreases second.len(),
{
    if second.len() == 0 {
        assert(first + second == first);
    } else {
        lemma_messages_split(stats, first, second.drop_last());
        assert((first + second).drop_last() == first + second.drop_last());
    }
}

/// Whether `message` acknowledges `sequence`, by itself or through one of
/// the messages it bundles.
pub open spec fn acknowledges(message: MessageView, sequence: u16) -> bool {
    match message {
        MessageView::Ack { sequence: own } => own == sequence,
        MessageView::MultiPacket { sub_messages } => sub_messages.contains(
            SubMessage::Ack { sequence },
        ),
        _ => false,
    }
}

/// Whether some message of `messages` acknowledges `sequence`.
pub open spec fn acknowledged(messages: Seq<MessageView>, sequence: u16) -> bool {
    exists|i: int| 0 <= i < messages.len() && acknowledges(#[trigger] messages[i], sequence)
}

/// Within one frame, the high-water mark ends at the highest bundled
/// acknowledgement, or where it started if that is higher.
pub proof fn lemma_sub_messages_high_water(stats: StatsView, subs: Seq<SubMessage>)
    ensures
        stats.after_sub_messages(subs).high_water_ack >= stats.high_water_ack,
        forall|sequence: u16| #[trigger]
            subs.contains(SubMessage::Ack { sequence }) ==> sequence <= stats.after_sub_messages(
                subs,
            ).high_water_ack,
        stats.after_sub_messages(subs).high_water_ack == stats.high_water_ack || subs.contains(
            SubMessage::Ack { sequence: stats.after_sub_messages(subs).high_water_ack },
        ),
    decreases subs.len(),
{
    if subs.len() > 0 {
        let shorter = subs.drop_last();
        lemma_sub_messages_high_water(stats, shorter);
        let before: u16 = stats.after_sub_messages(shorter).high_water_ack;
        let mark: u16 = stats.after_sub_messages(subs).high_water_ack;
        assert forall|sequence: u16| #[trigger]
            subs.contains(SubMessage::Ack { sequence }) implies sequence <= mark by {
            let j: int = choose|j: int|
                0 <= j < subs.len() && subs[j] == SubMessage::Ack { sequence };
            if j < shorter.len() {
                assert(shorter[j] == SubMessage::Ack { sequence });
                assert(shorter.contains(SubMessage::Ack { sequence }));
            } else {
                assert(subs.last() == SubMessage::Ack { sequence });
            }
        }
        if mark == before {
            if before != stats.high_water_ack {
                let j: int = choose|j: int|
                    0 <= j < shorter.len() && shorter[j] == SubMessage::Ack { sequence: before };
                assert(subs[j] == SubMessage::Ack { sequence: mark });
            }
        } else {
            assert(subs[subs.len() - 1] == SubMessage::Ack { sequence: mark });
        }
    }
}

/// After any prefix of one direction's messages the high-water mark is the
/// highest sequence number acknowledged in that prefix, or the mark the walk
/// started with where that is higher. Neither an equal nor a lower
/// acknowledgement moves it.
pub proof fn lemma_high_water_is_highest_ack(
    stats: StatsView,
    messages: Seq<MessageView>,
    prefix_len: int,
)
    requires
        0 <= prefix_len <= messages.len(),
    ensures
        stats.after_messages(messages.take(prefix_len)).high_water_ack >= stats.high_water_ack,
        forall|sequence: u16|
            acknowledged(messages.take(prefix_len), sequence) ==> sequence <= stats.after_messages(
                messages.take(prefix_len),
            ).high_water_ack,
        stats.after_messages(messages.take(prefix_len)).high_water_ack == stats.high_water_ack
            || acknowledged(
            messages.take(prefix_len),
            stats.after_messages(messages.take(prefix_len)).high_water_ack,
        ),
    decreases prefix_len,
{
    let prefix = messages.take(prefix_len);
    if prefix_len > 0 {
        let shorter = messages.take(prefix_len - 1);
        assert(prefix.drop_last() == shorter);
        lemma_high_water_is_highest_ack(stats, messages, prefix_len - 1);
        let earlier = stats.after_messages(shorter);
        let before: u16 = earlier.high_water_ack;
        let mark: u16 = stats.after_messages(prefix).high_water_ack;
        let last = prefix.last();
        if let MessageView::MultiPacket { sub_messages } = last {
            lemma_sub_messages_high_water(earlier.counting_frame(sub_messages), sub_messages);
        }
        assert(mark >= before);
        assert forall|sequence: u16| acknowledged(prefix, sequence) implies sequence <= mark by {
            let i: int = choose|i: int|
                0 <= i < prefix.len() && acknowledges(#[trigger] prefix[i], sequence);
            if i < shorter.len() {
                assert(acknowledges(shorter[i], sequence));
                assert(acknowledged(shorter, sequence));
            } else {
                assert(acknowledges(last, sequence));
            }
        }
        if mark == before {
            if before != stats.high_water_ack {
                let i: int = choose|i: int|
                    0 <= i < shorter.len() && acknowledges(#[trigger] shorter[i], before);
                assert(acknowledges(prefix[i], mark));
            }
        } else {
            assert(acknowledges(prefix[prefix_len - 1], mark));
        }
    }
}

/// The high-water mark after a longer prefix is never below the mark after a
/// shorter one.
pub proof fn lemma_high_water_never_falls(
    stats: StatsView,
    messages: Seq<MessageView>,
    shorter: int,
    longer: int,
)
    requires
        0 <= shorter <= longer <= messages.len(),
    ensures
        stats.after_messages(messages.take(shorter)).high_water_ack <= stats.after_messages(
            messages.take(longer),
        ).high_water_ack,
{
    let head = messages.take(shorter);
    let tail = messages.subrange(shorter, longer);
    assert(head + tail == messages.take(longer));
    lemma_messages_split(stats, head, tail);
    assert(tail.take(tail.len() as int) == tail);
    lemma_high_water_is_highest_ack(stats.after_messages(head), tail, tail.len() as int);
}

/// Within one frame, the counters of the wholes go up by the number of
/// bundled messages of their kind, and no part passes its whole.
pub proof fn lemma_sub_messages_counted(stats: StatsView, subs: Seq<SubMessage>)
    ensures
        stats.after_sub_messages(subs).total_acks == stats.total_acks + ack_count(subs),
        stats.after_sub_messages(subs).total_out_of_order == stats.total_out_of_order
            + out_of_order_count(subs),
        stats.after_sub_messages(subs).total_data_packets == stats.total_data_packets,
        stats.after_sub_messages(subs).total_multi_packets == stats.total_multi_packets,
        stats.after_sub_messages(subs).multi_packets_with_duplicate_acks
            == stats.multi_packets_with_duplicate_acks,
        stats.after_sub_messages(subs).resent_data_count == stats.resent_data_count,
        stats.consistent() ==> stats.after_sub_messages(subs).consistent(),
    decreases subs.len(),
{
    if subs.len() > 0 {
        lemma_sub_messages_counted(stats, subs.drop_last());
    }
}

/// Every message is counted once: after a run of messages each counter of a
/// whole has gone up by the number of messages of its kind in the run,
/// bundled ones included.
pub proof fn lemma_wholes_count_every_message(stats: StatsView, messages: Seq<MessageView>)
    ensures
        stats.after_messages(messages).total_acks == stats.total_acks + Totals::of(messages).acks,
        stats.after_messages(messages).total_out_of_order == stats.total_out_of_order + Totals::of(
            messages,
        ).out_of_order,
        stats.after_messages(messages).total_data_packets == stats.total_data_packets + Totals::of(
            messages,
        ).data_packets,
        stats.after_messages(messages).total_multi_packets == stats.total_multi_packets
            + Totals::of(messages).multi_packets,
    decreases messages.len(),
{
    if messages.len() > 0 {
        lemma_wholes_count_every_message(stats, messages.drop_last());
        let before = stats.after_messages(messages.drop_last());
        if let MessageView::MultiPacket { sub_messages } = messages.last() {
            lemma_sub_messages_counted(before.counting_frame(sub_messages), sub_messages);
        }
    }
}

/// No part ever passes its whole: stale acknowledgements stay within all
/// acknowledgements, stale out-of-order reports within all such reports,
/// resends within all data messages, and frames with several
/// acknowledgements within all frames.
pub proof fn lemma_parts_stay_within_wholes(stats: StatsView, messages: Seq<MessageView>)
    requires
        stats.consistent(),
    ensures
        stats.after_messages(messages).consistent(),
    decreases messages.len(),
{
    if messages.len() > 0 {
        lemma_parts_stay_within_wholes(stats, messages.drop_last());
        let before = stats.after_messages(messages.drop_last());
        if let MessageView::MultiPacket { sub_messages } = messages.last() {
            lemma_sub_messages_counted(before.counting_frame(sub_messages), sub_messages);
        }
    }
}

/// Whether `message` is a data message or fragment with sequence number
/// `sequence`.
pub open spec fn carries(message: MessageView, sequence: u16) -> bool {
    match message {
        MessageView::Data { sequence: own } => own == sequence,
        MessageView::DataFragment { sequence: own } => own == sequence,
        _ => false,
    }
}

/// Whether some message of `messages` is a data message or fragment with
/// sequence number `sequence`.
pub open spec fn carried(messages: Seq<MessageView>, sequence: u16) -> bool {
    exists|i: int| 0 <= i < messages.len() && carries(#[trigger] messages[i], sequence)
}

/// Within one frame nothing changes what is known of data messages.
pub proof fn lemma_sub_messages_leave_data(stats: StatsView, subs: Seq<SubMessage>)
    ensures
        stats.after_sub_messages(subs).seen_data_sequences == stats.seen_data_sequences,
        stats.after_sub_messages(subs).resent_data_count == stats.resent_data_count,
        stats.after_sub_messages(subs).total_data_packets == stats.total_data_packets,
    decreases subs.len(),
{
    if subs.len() > 0 {
        lemma_sub_messages_leave_data(stats, subs.drop_last());
    }
}

/// The sequence numbers that the data messages and fragments of `messages`
/// carry.
pub open spec fn carried_sequences(messages: Seq<MessageView>) -> Set<u16> {
    Set::new(|sequence: u16| carried(messages, sequence))
}

/// The sequence numbers seen after a run of messages are those seen before
/// it and those of the data messages and fragments in it.
pub proof fn lemma_seen_is_what_was_carried(stats: StatsView, messages: Seq<MessageView>)
    ensures
        stats.after_messages(messages).seen_data_sequences == stats.seen_data_sequences.union(
            carried_sequences(messages),
        ),
    decreases messages.len(),
{
    let seen = stats.after_messages(messages).seen_data_sequences;
    let expected = stats.seen_data_sequences.union(carried_sequences(messages));
    if messages.len() > 0 {
        let shorter = messages.drop_last();
        lemma_seen_is_what_was_carried(stats, shorter);
        let before = stats.after_messages(shorter);
        if let MessageView::MultiPacket { sub_messages } = messages.last() {
            lemma_sub_messages_leave_data(before.counting_frame(sub_messages), sub_messages);
        }
        assert forall|sequence: u16| seen.contains(sequence) <==> expected.contains(sequence) by {
            if carried(messages, sequence) {
                let i: int = choose|i: int|
                    0 <= i < messages.len() && carries(#[trigger] messages[i], sequence);
                if i < shorter.len() {
                    assert(carries(shorter[i], sequence));
                }
            }
            if carried(shorter, sequence) {
                let i: int = choose|i: int|
                    0 <= i < shorter.len() && carries(#[trigger] shorter[i], sequence);
                assert(carries(messages[i], sequence));
            }
            if carries(messages.last(), sequence) {
                assert(carries(messages[messages.len() - 1], sequence));
            }
        }
    } else {
        assert forall|sequence: u16| seen.contains(sequence) <==> expected.contains(sequence) by {
            if carried(messages, sequence) {
                let i: int = choose|i: int|
                    0 <= i < messages.len() && carries(#[trigger] messages[i], sequence);
            }
        }
    }
    assert(seen =~= expected);
}

/// Every data message or fragment is either the first with its sequence
/// number or a resend: where that held before a run of messages, the resends
/// and the sequence numbers seen still add up to all data messages after it.
pub proof fn lemma_data_is_new_or_resent(stats: StatsView, messages: Seq<MessageView>)
    requires
        stats.seen_data_sequences.finite(),
        stats.resent_data_count + stats.seen_data_sequences.len() == stats.total_data_packets,
    ensures
        stats.after_messages(messages).seen_data_sequences.finite(),
        stats.after_messages(messages).resent_data_count + stats.after_messages(
            messages,
        ).seen_data_sequences.len() == stats.after_messages(messages).total_data_packets,
    decreases messages.len(),
{
    if messages.len() > 0 {
        lemma_data_is_new_or_resent(stats, messages.drop_last());
        let before = stats.after_messages(messages.drop_last());
        if let MessageView::MultiPacket { sub_messages } = messages.last() {
            lemma_sub_messages_leave_data(before.counting_frame(sub_messages), sub_messages);
        }
    }
}

/// The totals of a run are never below the totals of a prefix of it.
pub proof fn lemma_totals_grow(messages: Seq<MessageView>, prefix_len: int)
    requires
        0 <= prefix_len <= messages.len(),
    ensures
        Totals::of(messages).at_least(Totals::of(messages.take(prefix_len))),
    decreases messages.len(),
{
    if prefix_len < messages.len() {
        assert(messages.drop_last().take(prefix_len) == messages.take(prefix_len));
        lemma_totals_grow(messages.drop_last(), prefix_len);
    } else {
        assert(messages.take(prefix_len) == messages);
    }
}

} // verus!
