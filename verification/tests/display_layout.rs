//! The display layout structures: ranges, the range divider, segments and
//! nested blocks.

use calculator::display::{DisplayUnit, Placement};
use calculator::display_block::DisplayBlock;
use calculator::display_segment::DisplaySegment;
use calculator::range::Range;
use calculator::range_divider::RangeDivider;

#[test]
fn range_overlap_works() {
    let r1 = Range::new(0, 3);
    let r2 = Range::new(0, 3);

    assert!(r1.overlaps(&r2));

    let r3 = Range::new(-1, 2);

    assert!(r3.overlaps(&r1));

    let r4 = Range::new(-5, -2);

    assert!(!r4.overlaps(&r1));
    assert!(!r4.overlaps(&r3));
}

#[test]
fn range_contains_value_works() {
    let r = Range::new(2, 7);

    assert!(r.contains(2));
    assert!(r.contains(7));
    assert!(r.contains(5));
    assert!(!r.contains(1));
    assert!(!r.contains(9));
}

#[test]
fn inserting_into_a_range_divider_works() {
    let mut divider = RangeDivider::<String>::new();

    divider.insert(Range::new(-1, 1), "HEY\nI\nAM-".to_string()).unwrap();

    let entry = divider.get(0).unwrap();

    assert_eq!(entry.min(), -1);
    assert_eq!(entry.max(), 1);
    assert_eq!(entry.content().as_str(), "HEY\nI\nAM-");
}

#[test]
fn sorted_range_divider_works() {
    let mut divider = RangeDivider::new();

    divider.insert(Range::new(0, 1), "HEY").unwrap();
    divider.insert(Range::new(3, 5), "LOVE").unwrap();
    divider.insert(Range::new(2, 2), "I").unwrap();
    divider.insert(Range::new(6, 10), "YOU").unwrap();

    let phrase_of_endearment: Vec<&str> = divider.sorted().iter().map(|p| *p.1).collect();
    let phrase_of_endearment = phrase_of_endearment.join(" ");

    assert_eq!(phrase_of_endearment, "HEY I LOVE YOU");
}

#[test]
fn overlapping_ranges_are_refused() {
    let mut divider = RangeDivider::new();
    divider.insert(Range::new(0, 3), "a").unwrap();
    assert!(divider.insert(Range::new(1, 2), "b").is_err());
    assert!(divider.get(5).is_none());
}

#[test]
fn appending_content_to_display_segments_works() {
    let mut segment = DisplaySegment::new(
        Placement { line_placement: 0, char_placement: 0 },
        "he".to_string(),
    );
    segment.push("llo");

    assert_eq!(segment.to_string(), "hello")
}

#[test]
fn popping_a_segment_removes_the_last_character() {
    let mut segment = DisplaySegment::new(
        Placement { line_placement: 0, char_placement: 0 },
        "hi".to_string(),
    );
    assert_eq!(segment.pop(), Some('i'));
    assert_eq!(segment.len(), 1);
    assert!(!segment.is_empty());
    assert_eq!(segment.pop(), Some('h'));
    assert!(segment.is_empty());
    assert_eq!(segment.pop(), None);
}

#[test]
fn display_block_works() {
    let mut block = DisplayBlock::new(Placement { line_placement: 0, char_placement: 0 });

    block
        .add_unit_at(
            0,
            DisplayUnit::DisplaySegment(DisplaySegment::new(
                Placement { line_placement: 0, char_placement: 0 },
                "hello".to_string(),
            )),
        )
        .unwrap();

    let segment = block.get_unit_at(0).unwrap();

    match segment {
        DisplayUnit::DisplaySegment(segment) => assert_eq!(segment.to_string(), "hello"),
        _ => panic!("expected display segment"),
    }

    let mut child_block = DisplayBlock::new(Placement { line_placement: 0, char_placement: 0 });

    child_block
        .add_unit_at(
            0,
            DisplayUnit::DisplaySegment(DisplaySegment::new(
                Placement { line_placement: 0, char_placement: 0 },
                "YOU TOO?".to_string(),
            )),
        )
        .unwrap();

    child_block
        .add_unit_at(
            1,
            DisplayUnit::DisplaySegment(DisplaySegment::new(
                Placement { line_placement: 0, char_placement: 0 },
                "YES ME TOO".to_string(),
            )),
        )
        .unwrap();

    let stringified_child_block = child_block.to_string();

    block.add_unit_at(1, DisplayUnit::DisplayBlock(child_block)).unwrap();

    let should_be_child_block = match block.get_unit_at(2).unwrap() {
        DisplayUnit::DisplayBlock(b) => b,
        DisplayUnit::DisplaySegment(_) => {
            panic!("should've been a display block, not a segment")
        }
    };

    assert_eq!(should_be_child_block.to_string(), stringified_child_block);
}
