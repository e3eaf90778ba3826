use template_search::{
    ErrorKind, Extent, Failure, GetPosition, Match, Outline, Position, Score, ScoreMatrix, Step,
    Templated,
};

fn score(value: f32) -> Score {
    Score::from_bits(value.to_bits())
}

fn matrix(rows: usize, cols: usize, values: &[f32]) -> ScoreMatrix {
    let cells: Vec<Score> = values.iter().map(|v| score(*v)).collect();
    ScoreMatrix::new(rows, cols, cells).unwrap()
}

fn search(haystack: (i32, i32), needle: (i32, i32)) -> Templated {
    Templated::from_files(
        String::from("haystack.png"),
        String::from("needle.png"),
        Extent::new(haystack.0, haystack.1),
        Extent::new(needle.0, needle.1),
    )
    .unwrap()
}

fn at(x: i32, y: i32, value: f32) -> Match {
    (Position { x, y }, score(value))
}

#[test]
fn extent_needs_counts_that_are_not_negative() {
    assert!(Extent::new(0, 0).is_some());
    assert!(Extent::new(480, 640).is_some());
    assert!(Extent::new(-1, 640).is_none());
    assert!(Extent::new(480, -1).is_none());
    let e = Extent::new(480, 640).unwrap();
    assert_eq!(e.rows(), 480);
    assert_eq!(e.cols(), 640);
}

#[test]
fn taller_needle_is_rejected() {
    let r = Templated::from_files(
        String::from("h.png"),
        String::from("n.png"),
        Extent::new(10, 10),
        Extent::new(11, 3),
    );
    let e = r.unwrap_err();
    assert_eq!(e.kind(), ErrorKind::ImageSize);
    assert_eq!(e.path(), None);
    assert_eq!(e.to_string(), "validating image size");
}

#[test]
fn wider_needle_is_rejected() {
    let r = Templated::from_files(
        String::from("h.png"),
        String::from("n.png"),
        Extent::new(10, 10),
        Extent::new(3, 11),
    );
    assert_eq!(r.unwrap_err().kind(), ErrorKind::ImageSize);
}

#[test]
fn needle_of_the_size_of_the_haystack_is_accepted() {
    let s = search((10, 12), (10, 12));
    assert_eq!(s.haystack().rows(), 10);
    assert_eq!(s.haystack().cols(), 12);
    assert_eq!(s.needle().rows(), 10);
    assert_eq!(s.needle().cols(), 12);
    assert_eq!(s.score_shape(), (1, 1));
}

#[test]
fn unreadable_haystack_is_reported_with_its_path() {
    let r = Templated::from_files(
        String::from("missing/h.png"),
        String::from("n.png"),
        None,
        Extent::new(3, 3),
    );
    let e = r.unwrap_err();
    assert_eq!(e.kind(), ErrorKind::ImageLoad);
    assert_eq!(e.path(), Some(&String::from("missing/h.png")));
    assert_eq!(e.to_string(), "loading into matrix (missing/h.png)");
}

#[test]
fn unreadable_needle_is_reported_with_its_path() {
    let r = Templated::from_files(
        String::from("h.png"),
        String::from("missing/n.png"),
        Extent::new(10, 10),
        None,
    );
    let e = r.unwrap_err();
    assert_eq!(e.kind(), ErrorKind::ImageLoad);
    assert_eq!(e.to_string(), "loading into matrix (missing/n.png)");
}

#[test]
fn unreadable_haystack_comes_before_unreadable_needle() {
    let r = Templated::from_files(String::from("h.png"), String::from("n.png"), None, None);
    assert_eq!(r.unwrap_err().to_string(), "loading into matrix (h.png)");
}

#[test]
fn unreadable_file_comes_before_the_sizes() {
    let r = Templated::from_files(
        String::from("h.png"),
        String::from("n.png"),
        Extent::new(2, 2),
        None,
    );
    assert_eq!(r.unwrap_err().kind(), ErrorKind::ImageLoad);
}

#[test]
fn score_shape_counts_the_placements() {
    assert_eq!(search((10, 10), (3, 3)).score_shape(), (8, 8));
    assert_eq!(search((480, 640), (32, 64)).score_shape(), (449, 577));
    assert_eq!(search((5, 9), (5, 1)).score_shape(), (1, 9));
    assert_eq!(search((i32::MAX, 1), (0, 0)).score_shape(), (2147483648, 2));
}

#[test]
fn matrix_needs_one_cell_for_each_placement() {
    assert!(ScoreMatrix::new(2, 3, vec![score(0.0); 6]).is_some());
    assert!(ScoreMatrix::new(2, 3, vec![score(0.0); 5]).is_none());
    assert!(ScoreMatrix::new(2, 3, vec![score(0.0); 7]).is_none());
    assert!(ScoreMatrix::new(0, 0, vec![]).is_some());
    assert!(ScoreMatrix::new(0, 5, vec![]).is_some());
    assert!(ScoreMatrix::new(2147483649, 0, vec![]).is_none());
    let m = ScoreMatrix::new(2, 3, vec![score(0.0); 6]).unwrap();
    assert_eq!(m.rows(), 2);
    assert_eq!(m.cols(), 3);
    assert_eq!(m.len(), 6);
}

#[test]
fn cells_are_read_row_by_row() {
    let m = matrix(2, 3, &[0.0, 0.1, 0.2, 0.3, 0.4, 0.5]);
    assert_eq!(m.get(Position { x: 0, y: 0 }), Some(score(0.0)));
    assert_eq!(m.get(Position { x: 2, y: 0 }), Some(score(0.2)));
    assert_eq!(m.get(Position { x: 0, y: 1 }), Some(score(0.3)));
    assert_eq!(m.get(Position { x: 2, y: 1 }), Some(score(0.5)));
    assert_eq!(m.get(Position { x: 3, y: 0 }), None);
    assert_eq!(m.get(Position { x: 0, y: 2 }), None);
    assert_eq!(m.get(Position { x: -1, y: 0 }), None);
    assert_eq!(m.position_at(0), Position { x: 0, y: 0 });
    assert_eq!(m.position_at(2), Position { x: 2, y: 0 });
    assert_eq!(m.position_at(3), Position { x: 0, y: 1 });
    assert_eq!(m.position_at(5), Position { x: 2, y: 1 });
}

#[test]
fn positions_come_in_row_major_order() {
    let m = matrix(3, 3, &[0.9, 0.1, 0.95, 0.2, 0.85, 0.3, 0.99, 0.0, 0.81]);
    let found = m.positions_above(score(0.8));
    assert_eq!(
        found,
        vec![at(0, 0, 0.9), at(2, 0, 0.95), at(1, 1, 0.85), at(0, 2, 0.99), at(2, 2, 0.81)]
    );
}

#[test]
fn cell_equal_to_the_threshold_is_no_match() {
    let m = matrix(2, 2, &[0.8, 0.9, 0.79999995, 0.8]);
    assert_eq!(m.positions_above(score(0.8)), vec![at(1, 0, 0.9)]);
    let m = matrix(1, 1, &[0.5]);
    assert_eq!(m.positions_above(score(0.5)), vec![]);
    assert_eq!(m.best_above(score(0.5)), None);
}

#[test]
fn adjacent_matches_are_all_reported() {
    let m = matrix(2, 3, &[0.9, 0.95, 0.9, 0.9, 0.9, 0.1]);
    assert_eq!(m.positions_above(score(0.8)).len(), 5);
}

#[test]
fn lower_threshold_keeps_every_match() {
    let values = [0.9, 0.1, 0.95, 0.2, 0.85, 0.3, 0.99, 0.0, 0.81, 0.5, 0.7, 1.0];
    let m = matrix(3, 4, &values);
    let thresholds = [-1.0, 0.0, 0.3, 0.5, 0.8, 0.95, 1.0, 2.0];
    for low in &thresholds {
        for high in &thresholds {
            if low < high {
                let more = m.positions_above(score(*low));
                let fewer = m.positions_above(score(*high));
                for found in &fewer {
                    assert!(more.contains(found));
                }
                assert!(fewer.len() <= more.len());
            }
        }
    }
}

#[test]
fn repeated_queries_agree() {
    let values = [0.9, 0.1, 0.95, 0.2, 0.85, 0.3];
    let m = matrix(2, 3, &values);
    let first = m.positions_above(score(0.25));
    let second = m.positions_above(score(0.25));
    assert_eq!(first, second);
    assert_eq!(first.len(), 4);
    let again = matrix(2, 3, &values).positions_above(score(0.25));
    assert_eq!(first, again);
}

#[test]
fn threshold_of_one_or_more_matches_nothing() {
    let m = matrix(2, 2, &[1.0, 0.0, 0.5, 1.0]);
    assert_eq!(m.positions_above(score(1.0)), vec![]);
    assert_eq!(m.positions_above(score(1.5)), vec![]);
    assert_eq!(m.best_above(score(1.0)), None);
}

#[test]
fn threshold_below_zero_matches_everything() {
    let m = matrix(2, 2, &[1.0, 0.0, 0.5, 1.0]);
    assert_eq!(
        m.positions_above(score(-0.1)),
        vec![at(0, 0, 1.0), at(1, 0, 0.0), at(0, 1, 0.5), at(1, 1, 1.0)]
    );
}

#[test]
fn threshold_of_zero_leaves_out_the_zero_cells() {
    let m = matrix(2, 2, &[1.0, 0.0, 0.5, -0.0]);
    assert_eq!(m.positions_above(score(0.0)), vec![at(0, 0, 1.0), at(0, 1, 0.5)]);
}

#[test]
fn threshold_that_is_not_a_number_matches_nothing() {
    let m = matrix(1, 2, &[1.0, 0.0]);
    assert_eq!(m.positions_above(score(f32::NAN)), vec![]);
    assert_eq!(m.best_above(score(f32::NAN)), None);
}

#[test]
fn best_match_is_the_highest_score() {
    let m = matrix(2, 3, &[0.2, 0.0, 0.4, 0.97, 0.3, 0.96]);
    assert_eq!(m.best_above(score(0.8)), Some(at(0, 1, 0.97)));
    assert_eq!(m.best_above(score(0.0)), Some(at(0, 1, 0.97)));
}

#[test]
fn best_match_needs_a_score_above_the_threshold() {
    let m = matrix(2, 2, &[0.2, 0.7, 0.4, 0.3]);
    assert_eq!(m.best_above(score(0.69)), Some(at(1, 0, 0.7)));
    assert_eq!(m.best_above(score(0.7)), None);
    assert_eq!(m.best_above(score(0.8)), None);
}

#[test]
fn best_match_is_among_the_positions() {
    let values = [0.9, 0.1, 0.95, 0.2, 0.85, 0.3, 0.99, 0.0, 0.81];
    let m = matrix(3, 3, &values);
    for t in &[-1.0f32, 0.0, 0.5, 0.8, 0.98, 0.99, 1.0] {
        let best = m.best_above(score(*t));
        let all = m.positions_above(score(*t));
        assert_eq!(best.is_some(), !all.is_empty());
        assert_eq!(best.is_some(), 0.99 > *t);
        if let Some(found) = best {
            assert!(all.contains(&found));
            assert_eq!(found, at(0, 2, 0.99));
        }
    }
}

#[test]
fn first_of_equal_maxima_is_the_best() {
    let m = matrix(2, 3, &[0.1, 0.9, 0.2, 0.9, 0.9, 0.0]);
    assert_eq!(m.best_above(score(0.5)), Some(at(1, 0, 0.9)));
    let m = matrix(2, 2, &[-0.0, 0.0, 0.0, -0.0]);
    assert_eq!(m.best_above(score(-1.0)), Some(at(0, 0, -0.0)));
}

#[test]
fn cells_that_are_not_numbers_are_passed_over() {
    let m = matrix(2, 2, &[f32::NAN, 0.4, f32::NAN, 0.9]);
    assert_eq!(m.best_above(score(0.5)), Some(at(1, 1, 0.9)));
    assert_eq!(m.positions_above(score(0.3)), vec![at(1, 0, 0.4), at(1, 1, 0.9)]);
    let m = matrix(1, 2, &[f32::NAN, f32::NAN]);
    assert_eq!(m.best_above(score(-1.0)), None);
    assert_eq!(m.positions_above(score(-1.0)), vec![]);
}

#[test]
fn uniform_scores_all_match_or_none_does() {
    let m = matrix(2, 2, &[1.0, 1.0, 1.0, 1.0]);
    assert_eq!(m.positions_above(score(0.8)).len(), 4);
    assert_eq!(m.best_above(score(0.8)), Some(at(0, 0, 1.0)));
    let m = matrix(2, 2, &[0.0, 0.0, 0.0, 0.0]);
    assert_eq!(m.positions_above(score(0.8)).len(), 0);
    assert_eq!(m.best_above(score(0.8)), None);
}

#[test]
fn empty_matrix_has_no_match() {
    let m = ScoreMatrix::new(0, 0, vec![]).unwrap();
    assert_eq!(m.positions_above(score(0.0)), vec![]);
    assert_eq!(m.best_above(score(0.0)), None);
}

#[test]
fn identical_images_match_at_the_origin() {
    let s = search((7, 5), (7, 5));
    assert_eq!(s.score_shape(), (1, 1));
    let best = s.get_best_position(Ok(matrix(1, 1, &[1.0])), score(0.0)).unwrap();
    assert_eq!(best, Some(at(0, 0, 1.0)));
    let all = s.get_positions(Ok(matrix(1, 1, &[1.0])), score(0.0)).unwrap();
    assert_eq!(all, vec![at(0, 0, 1.0)]);
}

#[test]
fn queries_take_the_scores_of_the_search() {
    let s = search((3, 4), (2, 2));
    assert_eq!(s.score_shape(), (2, 3));
    let values = [0.1, 0.9, 0.2, 0.85, 0.3, 0.95];
    let all = s.get_positions(Ok(matrix(2, 3, &values)), score(0.8)).unwrap();
    assert_eq!(all, vec![at(1, 0, 0.9), at(0, 1, 0.85), at(2, 1, 0.95)]);
    let best = s.get_best_position(Ok(matrix(2, 3, &values)), score(0.8)).unwrap();
    assert_eq!(best, Some(at(2, 1, 0.95)));
    let none = s.get_best_position(Ok(matrix(2, 3, &values)), score(0.95)).unwrap();
    assert_eq!(none, None);
    let kept = s.normalized_result(Ok(matrix(2, 3, &values))).unwrap();
    assert_eq!(kept.rows(), 2);
    assert_eq!(kept.cols(), 3);
    assert_eq!(kept.get(Position { x: 2, y: 1 }), Some(score(0.95)));
}

#[test]
fn failed_correlation_is_an_error_of_matching() {
    let s = search((10, 10), (3, 3));
    let failure = Failure { step: Step::Correlation, message: String::from("depth mismatch") };
    let e = s.get_positions(Err(failure), score(0.8)).unwrap_err();
    assert_eq!(e.kind(), ErrorKind::Match);
    assert_eq!(e.to_string(), "matching template because depth mismatch");
    let failure = Failure { step: Step::Correlation, message: String::from("depth mismatch") };
    let e = s.get_best_position(Err(failure), score(0.8)).unwrap_err();
    assert_eq!(e.to_string(), "matching template because depth mismatch");
}

#[test]
fn failed_rescaling_is_an_error_of_normalization() {
    let s = search((10, 10), (3, 3));
    let failure = Failure { step: Step::Rescaling, message: String::from("bad range") };
    let e = s.get_positions(Err(failure), score(0.8)).unwrap_err();
    assert_eq!(e.kind(), ErrorKind::Normalization);
    assert_eq!(e.to_string(), "normalizing because bad range");
}

#[test]
fn failed_inversion_is_an_error_of_normalization() {
    let s = search((10, 10), (3, 3));
    let failure = Failure { step: Step::Inversion, message: String::from("type mismatch") };
    let e = s.normalized_result(Err(failure)).unwrap_err();
    assert_eq!(e.kind(), ErrorKind::Normalization);
    assert_eq!(e.to_string(), "normalizing because type mismatch");
}

#[test]
fn scores_of_another_shape_are_an_error_of_matching() {
    let s = search((10, 10), (3, 3));
    let e = s.get_positions(Ok(matrix(2, 2, &[1.0, 1.0, 1.0, 1.0])), score(0.8)).unwrap_err();
    assert_eq!(e.kind(), ErrorKind::Match);
    assert_eq!(
        e.to_string(),
        "matching template because the score matrix does not have the shape of the search"
    );
    let e = s.get_best_position(Ok(matrix(1, 1, &[1.0])), score(0.8)).unwrap_err();
    assert_eq!(e.kind(), ErrorKind::Match);
    let transposed = search((4, 3), (2, 2));
    assert!(transposed.normalized_result(Ok(matrix(2, 3, &[0.0; 6]))).is_err());
    assert!(transposed.normalized_result(Ok(matrix(3, 2, &[0.0; 6]))).is_ok());
}

#[test]
fn outline_has_the_size_of_the_needle() {
    let s = search((10, 20), (3, 5));
    assert!(s.admits(Position { x: 4, y: 2 }));
    assert_eq!(
        s.mark(Position { x: 4, y: 2 }),
        Outline { x: 4, y: 2, width: 5, height: 3, thickness: 2 }
    );
    assert!(s.admits(Position { x: 15, y: 7 }));
    assert_eq!(
        s.mark(Position { x: 15, y: 7 }),
        Outline { x: 15, y: 7, width: 5, height: 3, thickness: 2 }
    );
}

#[test]
fn placements_outside_the_haystack_are_not_admitted() {
    let s = search((10, 20), (3, 5));
    assert!(s.admits(Position { x: 0, y: 0 }));
    assert!(!s.admits(Position { x: 16, y: 0 }));
    assert!(!s.admits(Position { x: 0, y: 8 }));
    assert!(!s.admits(Position { x: -1, y: 0 }));
    assert!(!s.admits(Position { x: 0, y: -1 }));
    assert!(!s.admits(Position { x: i32::MAX, y: i32::MAX }));
}

#[test]
fn every_match_is_admitted() {
    let s = search((4, 5), (2, 3));
    let all = s.get_positions(Ok(matrix(3, 3, &[0.5; 9])), score(0.0)).unwrap();
    assert_eq!(all.len(), 9);
    for (position, _) in &all {
        assert!(s.admits(*position));
    }
}

#[test]
fn written_haystack_is_reported_as_written() {
    let s = search((10, 10), (3, 3));
    assert_eq!(s.write(String::from("out.png"), Some(true)).unwrap(), true);
}

#[test]
fn haystack_that_the_encoder_did_not_write_is_an_error() {
    let s = search((10, 10), (3, 3));
    let e = s.write(String::from("out/marked.png"), Some(false)).unwrap_err();
    assert_eq!(e.kind(), ErrorKind::ImageWrite);
    assert_eq!(e.path(), Some(&String::from("out/marked.png")));
    assert_eq!(e.message(), None);
    assert_eq!(e.to_string(), "writing (out/marked.png)");
    assert_eq!(e.report(), "Error writing (out/marked.png)");
}

#[test]
fn drawn_outline_is_no_error() {
    let s = search((10, 10), (3, 3));
    assert!(s.marked(Ok(())).is_ok());
}

#[test]
fn failed_drawing_is_an_error_of_annotation() {
    let s = search((10, 10), (3, 3));
    let e = s.marked(Err(String::from("bad rectangle"))).unwrap_err();
    assert_eq!(e.kind(), ErrorKind::Annotation);
    assert_eq!(e.path(), None);
    assert_eq!(e.message(), Some(&String::from("bad rectangle")));
    assert_eq!(e.to_string(), "marking the haystack because bad rectangle");
    assert_eq!(e.report(), "Error marking the haystack because bad rectangle");
    let e = s.marked(Err(String::new())).unwrap_err();
    assert_eq!(e.kind(), ErrorKind::Annotation);
    assert_eq!(e.message(), Some(&String::new()));
}

#[test]
fn unwritten_haystack_is_an_error_with_the_path() {
    let s = search((10, 10), (3, 3));
    let e = s.write(String::from("out/marked.png"), None).unwrap_err();
    assert_eq!(e.kind(), ErrorKind::ImageWrite);
    assert_eq!(e.path(), Some(&String::from("out/marked.png")));
    assert_eq!(e.to_string(), "writing (out/marked.png)");
}

#[test]
fn patch_in_a_plain_haystack_is_found_and_marked() {
    let s = search((10, 10), (3, 3));
    assert_eq!(s.score_shape(), (8, 8));
    let mut values = [0.25f32; 64];
    values[4 * 8 + 4] = 1.0;
    values[4 * 8 + 3] = 0.6;
    values[3 * 8 + 4] = 0.6;
    let best = s.get_best_position(Ok(matrix(8, 8, &values)), score(0.8)).unwrap();
    assert_eq!(best, Some(at(4, 4, 1.0)));
    let all = s.get_positions(Ok(matrix(8, 8, &values)), score(0.8)).unwrap();
    assert_eq!(all, vec![at(4, 4, 1.0)]);
    let (position, _) = best.unwrap();
    assert!(s.admits(position));
    assert_eq!(s.mark(position), Outline { x: 4, y: 4, width: 3, height: 3, thickness: 2 });
    assert!(s.marked(Ok(())).is_ok());
    assert_eq!(s.write(String::from("marked.png"), Some(true)).unwrap(), true);
}
