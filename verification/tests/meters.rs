use comp76fx_core::meters::{
    next_output, pack, reading_in, starts_again, unpack, Meters, MOST_SAMPLES,
};

#[test]
fn packing_round_trips() {
    let word = pack(0x4120_0000, 64);
    assert_eq!(word, 0x4120_0000_0000_0040);
    assert_eq!(unpack(word), (0x4120_0000, 64));
    assert_eq!(unpack(u64::MAX), (u32::MAX, u32::MAX));
    assert_eq!(pack(u32::MAX, u32::MAX), u64::MAX);
}

#[test]
fn an_unread_average_starts_again_past_the_limit() {
    assert!(!starts_again(MOST_SAMPLES - 1));
    assert!(starts_again(MOST_SAMPLES));
    assert_eq!(next_output(10, 7, 9, 5), pack(9, 15));
    assert_eq!(next_output(MOST_SAMPLES, 7, 9, 1), pack(7, 1));
}

#[test]
fn nothing_published_is_nothing_taken() {
    let meters = Meters::default();
    assert_eq!(meters.take_codes(), None);
    meters.raise_reduction(300);
    assert_eq!(meters.take_codes(), None, "no audio since, so no reading");
    while meters.replace_output(0, pack(5, 10)).is_err() {}
    meters.raise_reduction(200);
    assert_eq!(meters.take_codes(), Some((300, 5, 10)));
    assert_eq!(meters.take_codes(), None, "a reading is only taken once");
}

#[test]
fn clearing_forgets_everything() {
    let meters = Meters::default();
    meters.raise_reduction(40);
    while meters.replace_output(0, pack(1, 3)).is_err() {}
    meters.clear();
    assert_eq!(meters.output_word(), 0);
    assert_eq!(meters.take_codes(), None);
}

#[test]
fn a_word_with_no_samples_is_no_reading() {
    assert_eq!(reading_in(0), None);
    assert_eq!(reading_in(pack(7, 0)), None, "energy without samples is no reading");
    assert_eq!(reading_in(pack(5, 10)), Some((5, 10)));
    assert_eq!(reading_in(u64::MAX), Some((u32::MAX, u32::MAX)));
}

#[test]
fn a_published_word_is_read_back_and_then_gone() {
    let meters = Meters::default();
    assert_eq!(meters.output_word(), 0);
    assert_eq!(meters.replace_output(1, pack(2, 3)), Err(0), "the word still holds 0, not 1");
    while meters.replace_output(0, pack(2, 3)).is_err() {}
    assert_eq!(meters.output_word(), pack(2, 3));
    assert_eq!(meters.take_codes(), Some((0, 2, 3)));
    assert_eq!(meters.output_word(), 0);
}

#[test]
fn a_replaced_word_hands_back_what_it_held() {
    let meters = Meters::default();
    loop {
        match meters.replace_output(0, pack(4, 8)) {
            Ok(previous) => {
                assert_eq!(previous, 0);
                break;
            }
            Err(actual) => assert_eq!(actual, 0, "nothing else writes the word here"),
        }
    }
    assert_eq!(meters.output_word(), pack(4, 8));
}
