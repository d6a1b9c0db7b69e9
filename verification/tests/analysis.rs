use soe_network_parser::error::AnalysisError;
use soe_network_parser::message::{DecodedMessage, SubMessage};
use soe_network_parser::stats::{analyse_packets, contain_multiple_acks, Counts, Stats};

fn walk(messages: Vec<DecodedMessage>) -> Stats {
    let mut stats = Stats::new();
    assert_eq!(analyse_packets(&messages, &mut stats), Ok(()));
    stats
}

fn no_counts() -> Counts {
    Counts {
        multi_packets_with_duplicate_acks: 0,
        total_multi_packets: 0,
        total_acks: 0,
        stale_acks: 0,
        total_out_of_order: 0,
        stale_out_of_order: 0,
        resent_data_count: 0,
        total_data_packets: 0,
    }
}

#[test]
fn fresh_accumulator_is_all_zero() {
    let stats = Stats::new();
    assert_eq!(stats.counts(), no_counts());
    assert_eq!(stats.high_water_ack(), 0);
    assert!(!stats.has_seen_data(0));
}

#[test]
fn no_messages_change_nothing() {
    let stats = walk(vec![]);
    assert_eq!(stats.counts(), no_counts());
    assert_eq!(stats.high_water_ack(), 0);
}

#[test]
fn acks_below_the_running_mark_are_stale() {
    let stats = walk(vec![
        DecodedMessage::Ack { sequence: 5 },
        DecodedMessage::Ack { sequence: 3 },
        DecodedMessage::Ack { sequence: 7 },
        DecodedMessage::Ack { sequence: 6 },
    ]);
    assert_eq!(stats.counts().total_acks, 4);
    assert_eq!(stats.counts().stale_acks, 2);
    assert_eq!(stats.high_water_ack(), 7);
}

#[test]
fn high_water_mark_is_the_highest_ack_after_every_prefix() {
    let messages = vec![
        DecodedMessage::Ack { sequence: 5 },
        DecodedMessage::Ack { sequence: 3 },
        DecodedMessage::OutOfOrder { sequence: 900 },
        DecodedMessage::Ack { sequence: 7 },
        DecodedMessage::Data { sequence: 1000 },
        DecodedMessage::Ack { sequence: 7 },
        DecodedMessage::MultiPacket {
            sub_messages: vec![SubMessage::Ack { sequence: 9 }, SubMessage::Ack { sequence: 8 }],
        },
        DecodedMessage::Ack { sequence: 6 },
    ];
    let expected: [u16; 9] = [0, 5, 5, 5, 7, 7, 7, 9, 9];
    for taken in 0..=messages.len() {
        let stats = walk(messages[..taken].to_vec());
        assert_eq!(stats.high_water_ack(), expected[taken]);
    }
}

#[test]
fn ack_equal_to_the_mark_is_not_stale() {
    let stats = walk(vec![
        DecodedMessage::Ack { sequence: 4 },
        DecodedMessage::Ack { sequence: 4 },
    ]);
    assert_eq!(stats.counts().total_acks, 2);
    assert_eq!(stats.counts().stale_acks, 0);
    assert_eq!(stats.high_water_ack(), 4);
}

#[test]
fn first_ack_of_sequence_zero_is_not_stale() {
    let stats = walk(vec![DecodedMessage::Ack { sequence: 0 }]);
    assert_eq!(stats.counts().total_acks, 1);
    assert_eq!(stats.counts().stale_acks, 0);
    assert_eq!(stats.high_water_ack(), 0);
}

#[test]
fn stale_ack_leaves_the_mark_in_place() {
    let stats = walk(vec![
        DecodedMessage::Ack { sequence: 10 },
        DecodedMessage::Ack { sequence: 2 },
        DecodedMessage::Ack { sequence: 5 },
    ]);
    // 5 is judged against 10, not against the stale 2.
    assert_eq!(stats.counts().stale_acks, 2);
    assert_eq!(stats.high_water_ack(), 10);
}

#[test]
fn out_of_order_below_the_mark_is_stale() {
    let stats = walk(vec![
        DecodedMessage::OutOfOrder { sequence: 1 },
        DecodedMessage::Ack { sequence: 5 },
        DecodedMessage::OutOfOrder { sequence: 4 },
        DecodedMessage::OutOfOrder { sequence: 5 },
        DecodedMessage::OutOfOrder { sequence: 6 },
    ]);
    assert_eq!(stats.counts().total_out_of_order, 4);
    assert_eq!(stats.counts().stale_out_of_order, 1);
    assert_eq!(stats.counts().total_acks, 1);
}

#[test]
fn out_of_order_never_moves_the_mark() {
    let stats = walk(vec![
        DecodedMessage::OutOfOrder { sequence: 50 },
        DecodedMessage::Ack { sequence: 3 },
    ]);
    assert_eq!(stats.high_water_ack(), 3);
    assert_eq!(stats.counts().stale_acks, 0);
}

#[test]
fn data_with_a_sequence_seen_before_is_a_resend() {
    let stats = walk(vec![
        DecodedMessage::Data { sequence: 10 },
        DecodedMessage::Data { sequence: 11 },
        DecodedMessage::DataFragment { sequence: 10 },
    ]);
    assert_eq!(stats.counts().total_data_packets, 3);
    assert_eq!(stats.counts().resent_data_count, 1);
    assert!(stats.has_seen_data(10));
    assert!(stats.has_seen_data(11));
    assert!(!stats.has_seen_data(12));
}

#[test]
fn every_further_copy_is_a_resend() {
    let stats = walk(vec![
        DecodedMessage::DataFragment { sequence: 7 },
        DecodedMessage::DataFragment { sequence: 7 },
        DecodedMessage::Data { sequence: 7 },
    ]);
    assert_eq!(stats.counts().total_data_packets, 3);
    assert_eq!(stats.counts().resent_data_count, 2);
}

#[test]
fn data_does_not_touch_the_ack_counters() {
    let stats = walk(vec![DecodedMessage::Data { sequence: 3 }]);
    assert_eq!(stats.counts().total_acks, 0);
    assert_eq!(stats.high_water_ack(), 0);
}

#[test]
fn multi_packet_with_two_acks_is_flagged() {
    let stats = walk(vec![DecodedMessage::MultiPacket {
        sub_messages: vec![
            SubMessage::Ack { sequence: 1 },
            SubMessage::Ack { sequence: 2 },
            SubMessage::OutOfOrder { sequence: 0 },
        ],
    }]);
    let counts = stats.counts();
    assert_eq!(counts.total_multi_packets, 1);
    assert_eq!(counts.multi_packets_with_duplicate_acks, 1);
    assert_eq!(counts.total_acks, 2);
    assert_eq!(counts.stale_acks, 0);
    assert_eq!(counts.total_out_of_order, 1);
    assert_eq!(counts.stale_out_of_order, 1);
    assert_eq!(stats.high_water_ack(), 2);
}

#[test]
fn multi_packet_with_one_ack_is_not_flagged() {
    let stats = walk(vec![DecodedMessage::MultiPacket {
        sub_messages: vec![SubMessage::Ack { sequence: 1 }, SubMessage::Other],
    }]);
    let counts = stats.counts();
    assert_eq!(counts.total_multi_packets, 1);
    assert_eq!(counts.multi_packets_with_duplicate_acks, 0);
    assert_eq!(counts.total_acks, 1);
}

#[test]
fn empty_multi_packet_counts_as_a_frame() {
    let stats = walk(vec![DecodedMessage::MultiPacket { sub_messages: vec![] }]);
    let counts = stats.counts();
    assert_eq!(counts.total_multi_packets, 1);
    assert_eq!(counts.multi_packets_with_duplicate_acks, 0);
    assert_eq!(counts.total_acks, 0);
}

#[test]
fn bundled_acks_are_judged_in_wire_order() {
    let stats = walk(vec![
        DecodedMessage::Ack { sequence: 4 },
        DecodedMessage::MultiPacket {
            sub_messages: vec![
                SubMessage::Ack { sequence: 3 },
                SubMessage::OutOfOrder { sequence: 5 },
                SubMessage::Ack { sequence: 8 },
                SubMessage::OutOfOrder { sequence: 5 },
                SubMessage::Ack { sequence: 8 },
            ],
        },
    ]);
    let counts = stats.counts();
    assert_eq!(counts.total_acks, 4);
    assert_eq!(counts.stale_acks, 1);
    assert_eq!(counts.total_out_of_order, 2);
    assert_eq!(counts.stale_out_of_order, 1);
    assert_eq!(counts.multi_packets_with_duplicate_acks, 1);
    assert_eq!(stats.high_water_ack(), 8);
}

#[test]
fn other_messages_are_passed_over() {
    let stats = walk(vec![
        DecodedMessage::Other,
        DecodedMessage::MultiPacket { sub_messages: vec![SubMessage::Other, SubMessage::Other] },
    ]);
    let mut expected = no_counts();
    expected.total_multi_packets = 1;
    assert_eq!(stats.counts(), expected);
    assert_eq!(stats.high_water_ack(), 0);
}

#[test]
fn contain_multiple_acks_needs_more_than_one() {
    assert!(!contain_multiple_acks(&vec![]));
    assert!(!contain_multiple_acks(&vec![SubMessage::Ack { sequence: 1 }]));
    assert!(!contain_multiple_acks(&vec![
        SubMessage::Ack { sequence: 1 },
        SubMessage::OutOfOrder { sequence: 1 },
        SubMessage::Other,
    ]));
    assert!(contain_multiple_acks(&vec![
        SubMessage::Ack { sequence: 1 },
        SubMessage::Other,
        SubMessage::Ack { sequence: 1 },
    ]));
}

#[test]
fn a_walk_goes_on_from_where_the_accumulator_stands() {
    let mut stats = Stats::new();
    assert_eq!(analyse_packets(&vec![DecodedMessage::Ack { sequence: 9 }], &mut stats), Ok(()));
    assert_eq!(analyse_packets(&vec![DecodedMessage::Ack { sequence: 2 }], &mut stats), Ok(()));
    assert_eq!(stats.counts().total_acks, 2);
    assert_eq!(stats.counts().stale_acks, 1);
    assert_eq!(stats.high_water_ack(), 9);
}

#[test]
fn resume_restores_counters_mark_and_sequences() {
    let mut counts = no_counts();
    counts.total_acks = 10;
    counts.stale_acks = 4;
    counts.total_data_packets = 3;
    let mut stats = Stats::resume(counts, 20, &vec![1, 2, 2]).unwrap();
    assert_eq!(stats.counts(), counts);
    assert_eq!(stats.high_water_ack(), 20);
    assert!(stats.has_seen_data(1));
    assert!(stats.has_seen_data(2));
    assert!(!stats.has_seen_data(3));
    let more = vec![DecodedMessage::Ack { sequence: 19 }, DecodedMessage::Data { sequence: 2 }];
    assert_eq!(analyse_packets(&more, &mut stats), Ok(()));
    assert_eq!(stats.counts().total_acks, 11);
    assert_eq!(stats.counts().stale_acks, 5);
    assert_eq!(stats.counts().total_data_packets, 4);
    assert_eq!(stats.counts().resent_data_count, 1);
}

#[test]
fn resume_refuses_a_part_above_its_whole() {
    let mut counts = no_counts();
    counts.stale_acks = 1;
    assert!(Stats::resume(counts, 0, &vec![]).is_none());
    let mut counts = no_counts();
    counts.multi_packets_with_duplicate_acks = 2;
    counts.total_multi_packets = 1;
    assert!(Stats::resume(counts, 0, &vec![]).is_none());
    let mut counts = no_counts();
    counts.stale_out_of_order = 1;
    assert!(Stats::resume(counts, 0, &vec![]).is_none());
    let mut counts = no_counts();
    counts.resent_data_count = 1;
    assert!(Stats::resume(counts, 0, &vec![]).is_none());
}

fn full(total: fn(&mut Counts)) -> Stats {
    let mut counts = no_counts();
    total(&mut counts);
    Stats::resume(counts, 0, &vec![]).unwrap()
}

fn fill_acks(counts: &mut Counts) {
    counts.total_acks = u64::MAX;
}

fn fill_out_of_order(counts: &mut Counts) {
    counts.total_out_of_order = u64::MAX;
}

fn fill_data(counts: &mut Counts) {
    counts.total_data_packets = u64::MAX;
}

fn fill_multi_packets(counts: &mut Counts) {
    counts.total_multi_packets = u64::MAX;
}

#[test]
fn full_ack_counter_refuses_another_ack() {
    let mut stats = full(fill_acks);
    assert_eq!(
        analyse_packets(&vec![DecodedMessage::Ack { sequence: 1 }], &mut stats),
        Err(AnalysisError::CounterOverflow)
    );
    assert_eq!(
        analyse_packets(
            &vec![DecodedMessage::MultiPacket {
                sub_messages: vec![SubMessage::Other, SubMessage::Ack { sequence: 1 }]
            }],
            &mut stats
        ),
        Err(AnalysisError::CounterOverflow)
    );
}

#[test]
fn full_counters_refuse_their_own_kind_only() {
    let mut stats = full(fill_out_of_order);
    assert_eq!(
        analyse_packets(&vec![DecodedMessage::OutOfOrder { sequence: 1 }], &mut stats),
        Err(AnalysisError::CounterOverflow)
    );
    assert_eq!(
        analyse_packets(
            &vec![DecodedMessage::MultiPacket {
                sub_messages: vec![SubMessage::OutOfOrder { sequence: 1 }]
            }],
            &mut stats
        ),
        Err(AnalysisError::CounterOverflow)
    );
    assert_eq!(analyse_packets(&vec![DecodedMessage::Ack { sequence: 1 }], &mut stats), Ok(()));

    let mut stats = full(fill_data);
    assert_eq!(
        analyse_packets(&vec![DecodedMessage::Data { sequence: 1 }], &mut stats),
        Err(AnalysisError::CounterOverflow)
    );
    assert_eq!(
        analyse_packets(&vec![DecodedMessage::DataFragment { sequence: 1 }], &mut stats),
        Err(AnalysisError::CounterOverflow)
    );
    assert_eq!(analyse_packets(&vec![DecodedMessage::Other], &mut stats), Ok(()));

    let mut stats = full(fill_multi_packets);
    assert_eq!(
        analyse_packets(&vec![DecodedMessage::MultiPacket { sub_messages: vec![] }], &mut stats),
        Err(AnalysisError::CounterOverflow)
    );
    assert_eq!(analyse_packets(&vec![DecodedMessage::Data { sequence: 1 }], &mut stats), Ok(()));
}

#[test]
fn failed_walk_leaves_the_accumulator_as_it_was() {
    let mut counts = no_counts();
    counts.total_acks = u64::MAX - 1;
    counts.stale_acks = 3;
    let mut stats = Stats::resume(counts, 40, &vec![8]).unwrap();
    // The third acknowledgement has no room; the data message and the two
    // acknowledgements before it are not taken in either.
    let messages = vec![
        DecodedMessage::Data { sequence: 9 },
        DecodedMessage::Ack { sequence: 50 },
        DecodedMessage::MultiPacket { sub_messages: vec![SubMessage::Ack { sequence: 1 }] },
    ];
    assert_eq!(analyse_packets(&messages, &mut stats), Err(AnalysisError::CounterOverflow));
    assert_eq!(stats.counts(), counts);
    assert_eq!(stats.high_water_ack(), 40);
    assert!(stats.has_seen_data(8));
    assert!(!stats.has_seen_data(9));
}

#[test]
fn last_free_slot_of_a_counter_can_be_used() {
    let mut counts = no_counts();
    counts.total_acks = u64::MAX - 1;
    let mut stats = Stats::resume(counts, 0, &vec![]).unwrap();
    assert_eq!(analyse_packets(&vec![DecodedMessage::Ack { sequence: 1 }], &mut stats), Ok(()));
    assert_eq!(stats.counts().total_acks, u64::MAX);
    assert_eq!(
        analyse_packets(&vec![DecodedMessage::Ack { sequence: 1 }], &mut stats),
        Err(AnalysisError::CounterOverflow)
    );
    assert_eq!(analyse_packets(&vec![], &mut stats), Ok(()));
}
