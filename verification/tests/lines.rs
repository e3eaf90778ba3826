use template_search::io::{plan, position_lines, scored_line, summary_line, Listing, Plan};
use template_search::{Extent, Position, Print, Score};

#[test]
fn position_line_is_column_tab_row() {
    assert_eq!(Position { x: 4, y: 7 }.line(), "4\t7");
    assert_eq!(Position { x: 0, y: 0 }.line(), "0\t0");
    assert_eq!(Position { x: 120, y: 9 }.line(), "120\t9");
}

#[test]
fn position_line_of_negative_coordinates() {
    assert_eq!(Position { x: -1, y: -1 }.line(), "-1\t-1");
    assert_eq!(Position { x: -10, y: 305 }.line(), "-10\t305");
}

#[test]
fn position_line_of_extreme_coordinates() {
    assert_eq!(Position { x: i32::MAX, y: i32::MIN }.line(), "2147483647\t-2147483648");
}

#[test]
fn position_line_agrees_with_formatting() {
    let values: Vec<i32> = vec![0, 1, 9, 10, 11, 99, 100, 101, 1000, 65535, -1, -9, -10, -99, -100];
    for x in &values {
        for y in &values {
            assert_eq!(Position { x: *x, y: *y }.line(), format!("{}\t{}", x, y));
        }
    }
}

#[test]
fn scored_line_adds_the_score() {
    assert_eq!(scored_line(&Position { x: 4, y: 4 }, "1"), "4\t4\t1");
    assert_eq!(scored_line(&Position { x: 12, y: 0 }, "0.8734"), "12\t0\t0.8734");
    assert_eq!(scored_line(&Position { x: 3, y: 2 }, ""), "3\t2\t");
}

#[test]
fn verbose_run_lists_scores() {
    for once in [false, true] {
        for output in [false, true] {
            for found in [0usize, 1, 5] {
                assert_eq!(plan(once, true, output, found).listing, Listing::Scored);
            }
        }
    }
}

#[test]
fn quiet_run_with_output_prints_nothing() {
    for once in [false, true] {
        for found in [0usize, 1, 5] {
            assert_eq!(plan(once, false, true, found).listing, Listing::Silent);
        }
    }
}

#[test]
fn quiet_run_without_output_lists_positions() {
    assert_eq!(
        plan(false, false, false, 3),
        Plan { listing: Listing::Plain, mark: false, write: false }
    );
    assert_eq!(
        plan(true, false, false, 0),
        Plan { listing: Listing::Plain, mark: false, write: false }
    );
}

#[test]
fn output_is_marked_and_written() {
    assert_eq!(
        plan(false, false, true, 3),
        Plan { listing: Listing::Silent, mark: true, write: true }
    );
    assert_eq!(
        plan(false, true, true, 0),
        Plan { listing: Listing::Scored, mark: true, write: true }
    );
    assert_eq!(
        plan(true, false, true, 1),
        Plan { listing: Listing::Silent, mark: true, write: true }
    );
}

#[test]
fn best_match_alone_writes_nothing_when_there_is_none() {
    assert_eq!(
        plan(true, false, true, 0),
        Plan { listing: Listing::Silent, mark: true, write: false }
    );
    assert_eq!(
        plan(true, true, true, 0),
        Plan { listing: Listing::Scored, mark: true, write: false }
    );
}

#[test]
fn position_lines_keep_the_order() {
    let found = vec![
        (Position { x: 2, y: 0 }, Score::from_bits(0x3f80_0000)),
        (Position { x: 0, y: 1 }, Score::from_bits(0x3f00_0000)),
        (Position { x: 11, y: 23 }, Score::from_bits(0)),
    ];
    assert_eq!(position_lines(&found), vec!["2\t0", "0\t1", "11\t23"]);
    assert_eq!(position_lines(&vec![]), Vec::<String>::new());
}

#[test]
fn summary_line_names_threshold_and_sizes() {
    let haystack = Extent::new(480, 640).unwrap();
    let needle = Extent::new(32, 64).unwrap();
    assert_eq!(
        summary_line("0.8", &haystack, &needle),
        "threshold = 0.8, host = 480*640, target = 32*64"
    );
    let empty = Extent::new(0, 0).unwrap();
    assert_eq!(summary_line("", &empty, &empty), "threshold = , host = 0*0, target = 0*0");
}
