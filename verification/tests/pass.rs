use melblkidx::pass::IngestPass;
use melblkidx::schema::{OPTIMIZE_EVERY_SECS, RETRY_DELAY_SECS};
use melblkidx::types::{BlockHeader, HashVal};

fn header(height: u64, stakes: u8) -> BlockHeader {
    BlockHeader {
        height,
        hash: HashVal([height as u8; 32]),
        fee_pool: 0,
        fee_multiplier: 0,
        dosc_speed: 0,
        stakes_hash: HashVal([stakes; 32]),
    }
}

fn heights_of(mut pass: IngestPass) -> Vec<u64> {
    let mut seen = vec![];
    while let Some(h) = pass.next_height() {
        seen.push(h);
        pass.committed(&header(h, 1));
        assert!(seen.len() < 100);
    }
    seen
}

#[test]
fn pass_covers_both_ends_in_ascending_order() {
    assert_eq!(heights_of(IngestPass::begin(3, 6)), vec![3, 4, 5, 6]);
    assert_eq!(heights_of(IngestPass::begin(0, 0)), vec![0]);
    assert_eq!(heights_of(IngestPass::begin(0, 2)), vec![0, 1, 2]);
}

#[test]
fn pass_is_empty_when_the_node_is_behind() {
    assert_eq!(heights_of(IngestPass::begin(5, 3)), Vec::<u64>::new());
    assert_eq!(IngestPass::begin(5, 4).next_height(), None);
}

#[test]
fn pass_ends_at_the_last_height_there_is() {
    assert_eq!(
        heights_of(IngestPass::begin(u64::MAX - 1, u64::MAX)),
        vec![u64::MAX - 1, u64::MAX]
    );
    assert_eq!(heights_of(IngestPass::begin(u64::MAX, u64::MAX)), vec![u64::MAX]);
}

#[test]
fn committing_after_the_end_changes_nothing() {
    let mut pass = IngestPass::begin(1, 1);
    pass.committed(&header(1, 1));
    assert_eq!(pass.next_height(), None);
    pass.committed(&header(2, 1));
    assert_eq!(pass.next_height(), None);
}

#[test]
fn stakers_are_fetched_when_the_stakes_hash_changes() {
    let mut pass = IngestPass::begin(1, 4);
    assert!(pass.wants_stakers(&header(1, 7)));
    pass.committed(&header(1, 7));
    assert!(!pass.wants_stakers(&header(2, 7)));
    pass.committed(&header(2, 7));
    assert!(pass.wants_stakers(&header(3, 8)));
    pass.committed(&header(3, 8));
    assert!(pass.wants_stakers(&header(4, 7)));
    assert!(!pass.wants_stakers(&header(4, 8)));
}

#[test]
fn delays_are_one_second_and_one_hour() {
    assert_eq!(RETRY_DELAY_SECS, 1);
    assert_eq!(OPTIMIZE_EVERY_SECS, 3600);
}
