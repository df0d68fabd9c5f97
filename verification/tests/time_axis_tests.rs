use timetable::time_axis::{axis_labels, slot_offset, MalformedTimeError};

#[test]
fn slot_of_axis_origin_is_zero() {
    assert_eq!(slot_offset("7:00"), Ok(0));
}

#[test]
fn slot_of_half_past_seven() {
    assert_eq!(slot_offset("7:30"), Ok(1));
}

#[test]
fn slot_of_nine() {
    assert_eq!(slot_offset("9:00"), Ok(4));
}

#[test]
fn slot_of_half_past_ten() {
    assert_eq!(slot_offset("10:30"), Ok(7));
}

#[test]
fn slot_of_last_axis_label() {
    assert_eq!(slot_offset("19:30"), Ok(25));
}

#[test]
fn slot_before_axis_start_is_not_positive() {
    assert_eq!(slot_offset("6:00"), Ok(-2));
    assert_eq!(slot_offset("0:00"), Ok(-14));
    assert_eq!(slot_offset("6:30"), Ok(-1));
}

#[test]
fn slot_is_not_clamped_to_the_axis() {
    // 25:99 parses; the out-of-range result is the caller's to validate.
    assert_eq!(slot_offset("25:99"), Ok((25 - 7) * 2 + 99 / 30));
    assert_eq!(slot_offset("20:00"), Ok(26));
}

#[test]
fn slot_accepts_two_digit_hours_with_leading_zero() {
    assert_eq!(slot_offset("07:00"), Ok(0));
    assert_eq!(slot_offset("09:30"), Ok(5));
}

#[test]
fn slot_rejects_text_without_a_colon() {
    assert_eq!(slot_offset("900"), Err(MalformedTimeError));
    assert_eq!(slot_offset(""), Err(MalformedTimeError));
}

#[test]
fn slot_rejects_an_empty_hour_or_minute_part() {
    assert_eq!(slot_offset(":30"), Err(MalformedTimeError));
    assert_eq!(slot_offset("9:"), Err(MalformedTimeError));
    assert_eq!(slot_offset(":"), Err(MalformedTimeError));
}

#[test]
fn slot_rejects_more_than_one_colon() {
    assert_eq!(slot_offset("9:3:0"), Err(MalformedTimeError));
    assert_eq!(slot_offset("9::30"), Err(MalformedTimeError));
}

#[test]
fn slot_rejects_non_digit_parts() {
    assert_eq!(slot_offset("9:3a"), Err(MalformedTimeError));
    assert_eq!(slot_offset("ab:cd"), Err(MalformedTimeError));
    assert_eq!(slot_offset("-9:30"), Err(MalformedTimeError));
    assert_eq!(slot_offset(" 9:30"), Err(MalformedTimeError));
    assert_eq!(slot_offset("9:30 "), Err(MalformedTimeError));
}

#[test]
fn slot_rejects_numbers_that_do_not_fit() {
    assert_eq!(slot_offset("4294967296:00"), Err(MalformedTimeError));
    assert_eq!(slot_offset("0:99999999999999999999"), Err(MalformedTimeError));
}

#[test]
fn slot_accepts_the_largest_representable_hour() {
    assert_eq!(slot_offset("4294967295:00"), Ok((4294967295i64 - 7) * 2));
}

#[test]
fn slot_is_strictly_increasing_over_the_axis_grid() {
    let mut previous = slot_offset("7:00").unwrap();
    for hour in 7..20 {
        for minute in ["00", "30"] {
            if hour == 7 && minute == "00" {
                continue;
            }
            let slot = slot_offset(&format!("{}:{}", hour, minute)).unwrap();
            assert!(slot > previous);
            previous = slot;
        }
    }
}

#[test]
fn axis_has_twenty_six_half_hour_labels() {
    let labels = axis_labels();
    assert_eq!(labels.len(), 26);
    assert_eq!(labels[0], "7:00");
    assert_eq!(labels[1], "7:30");
    assert_eq!(labels[6], "10:00");
    assert_eq!(labels[25], "19:30");
}

#[test]
fn axis_labels_parse_back_to_their_slot() {
    let labels = axis_labels();
    for (i, label) in labels.iter().enumerate() {
        assert_eq!(slot_offset(label), Ok(i as i64));
    }
}

#[test]
fn axis_labels_are_the_same_on_every_call() {
    assert_eq!(axis_labels(), axis_labels());
}
