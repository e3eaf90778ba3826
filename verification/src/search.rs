//! A search of one needle in one haystack.

use crate::error::{Error, ErrorKind, ErrorView, Failure};
use crate::geometry::{Extent, Outline, Position};
use crate::laws::lemma_matches_fit;
use crate::matrix::{Grid, Match, ScoreMatrix};
use crate::score::Score;
use vstd::prelude::*;
use vstd::string::StringExecFns;

verus! {

/// The width, in pixels, of the line of an outline.
pub const OUTLINE_THICKNESS: i32 = 2;

/// The diagnostic text of a score matrix that has another shape than the
/// search it was computed for.
pub open spec fn shape_message() -> Seq<char> {
    "the score matrix does not have the shape of the search"@
}

/// The error of a file that could not be decoded.
pub open spec fn load_error(path: Seq<char>) -> ErrorView {
    ErrorView { kind: ErrorKind::ImageLoad, path: Some(path), message: None }
}

/// The error of a haystack that is smaller than the needle.
pub open spec fn size_error() -> ErrorView {
    ErrorView { kind: ErrorKind::ImageSize, path: None, message: None }
}

/// The error of a failed step of the imaging backend.
pub open spec fn failure_error(failure: Failure) -> ErrorView {
    ErrorView { kind: failure.step.kind(), path: None, message: Some(failure.message@) }
}

/// The error of a score matrix of the wrong shape.
pub open spec fn shape_error() -> ErrorView {
    ErrorView { kind: ErrorKind::Match, path: None, message: Some(shape_message()) }
}

/// The error of an outline that could not be drawn.
pub open spec fn annotation_error(message: Seq<char>) -> ErrorView {
    ErrorView { kind: ErrorKind::Annotation, path: None, message: Some(message) }
}

/// The error of a file that could not be written.
pub open spec fn write_error(path: Seq<char>) -> ErrorView {
    ErrorView { kind: ErrorKind::ImageWrite, path: Some(path), message: None }
}

/// A search session: the sizes of the haystack and of the needle. The
/// haystack is at least as large as the needle in both dimensions.
#[derive(Debug)]
pub struct Templated {
    haystack: Extent,
    needle: Extent,
}

impl Templated {
    #[verifier::type_invariant]
    closed spec fn inv(self) -> bool {
        self.wf()
    }

    /// The size of the haystack.
    pub closed spec fn spec_haystack(&self) -> Extent {
        self.haystack
    }

    /// The size of the needle.
    pub closed spec fn spec_needle(&self) -> Extent {
        self.needle
    }

    /// Both sizes are valid and the needle is no larger than the haystack.
    pub open spec fn wf(self) -> bool {
        &&& self.spec_haystack().wf()
        &&& self.spec_needle().wf()
        &&& self.spec_haystack().spec_rows() >= self.spec_needle().spec_rows()
        &&& self.spec_haystack().spec_cols() >= self.spec_needle().spec_cols()
    }

    /// The number of rows of the score matrix: one for each row at which the
    /// needle can be placed.
    pub open spec fn score_rows(self) -> int {
        self.spec_haystack().spec_rows() - self.spec_needle().spec_rows() + 1
    }

    /// The number of columns of the score matrix: one for each column at
    /// which the needle can be placed.
    pub open spec fn score_cols(self) -> int {
        self.spec_haystack().spec_cols() - self.spec_needle().spec_cols() + 1
    }

    /// Whether the grid has the shape of the score matrix of this search.
    pub open spec fn accepts(self, g: Grid) -> bool {
        g.rows == self.score_rows() && g.cols == self.score_cols()
    }

    /// Whether the needle, placed at the position, lies within the haystack.
    pub open spec fn fits(self, p: Position) -> bool {
        &&& 0 <= p.x
        &&& 0 <= p.y
        &&& p.x + self.spec_needle().spec_cols() <= self.spec_haystack().spec_cols()
        &&& p.y + self.spec_needle().spec_rows() <= self.spec_haystack().spec_rows()
    }

    /// The outline of the needle placed at the position.
    pub open spec fn outline(self, p: Position) -> Outline {
        Outline {
            x: p.x,
            y: p.y,
            width: self.spec_needle().spec_cols(),
            height: self.spec_needle().spec_rows(),
            thickness: OUTLINE_THICKNESS,
        }
    }

    /// What a search makes of the outcome of the imaging backend: the scores,
    /// if they were computed and have the shape of the score matrix.
    pub open spec fn normalized(self, computed: Result<ScoreMatrix, Failure>) -> Result<
        Grid,
        ErrorView,
    > {
        match computed {
            Err(failure) => Err(failure_error(failure)),
            Ok(scores) => if self.accepts(scores@) {
                Ok(scores@)
            } else {
                Err(shape_error())
            },
        }
    }

    /// Starts a search from two image files: `haystack` and `needle` are
    /// their paths, `haystack_image` and `needle_image` the sizes of what was
    /// decoded from them, or `None` for a file that could not be decoded.
    ///
    /// Fails with the path of the first file that could not be decoded, the
    /// haystack before the needle; then, if the haystack has fewer rows or
    /// fewer columns than the needle, with an error of size.
    pub fn from_files(
        haystack: String,
        needle: String,
        haystack_image: Option<Extent>,
        needle_image: Option<Extent>,
    ) -> (r: Result<Templated, Error>)
        ensures
            match (haystack_image, needle_image) {
                (None, _) => r matches Err(e) && e@ == load_error(haystack@),
                (Some(_), None) => r matches Err(e) && e@ == load_error(needle@),
                (Some(h), Some(n)) => if h.spec_rows() < n.spec_rows() || h.spec_cols()
                    < n.spec_cols() {
                    r matches Err(e) && e@ == size_error()
                } else {
                    r matches Ok(search) && search.spec_haystack() == h && search.spec_needle()
                        == n && search.wf()
                },
            },
    {
        let haystack_extent = match haystack_image {
            Some(extent) => extent,
            None => {
                return Err(Error::new_file(haystack, ErrorKind::ImageLoad));
            },
        };
        let needle_extent = match needle_image {
            Some(extent) => extent,
            None => {
                return Err(Error::new_file(needle, ErrorKind::ImageLoad));
            },
        };
        if haystack_extent.rows() < needle_extent.rows() || haystack_extent.cols()
            < needle_extent.cols() {
            return Err(Error::new_generic(ErrorKind::ImageSize));
        }
        proof {
            use_type_invariant(&haystack_extent);
            use_type_invariant(&needle_extent);
        }
        Ok(Templated { haystack: haystack_extent, needle: needle_extent })
    }

    /// The size of the haystack.
    pub fn haystack(&self) -> (e: Extent)
        ensures
            e == self.spec_haystack(),
            self.wf(),
    {
        proof {
            use_type_invariant(self);
        }
        self.haystack
    }

    /// The size of the needle.
    pub fn needle(&self) -> (e: Extent)
        ensures
            e == self.spec_needle(),
            self.wf(),
    {
        proof {
            use_type_invariant(self);
        }
        self.needle
    }

    /// The shape of the score matrix: its numbers of rows and of columns.
    pub fn score_shape(&self) -> (shape: (usize, usize))
        ensures
            shape.0 == self.score_rows(),
            shape.1 == self.score_cols(),
            1 <= shape.0 <= crate::geometry::MAX_SIDE,
            1 <= shape.1 <= crate::geometry::MAX_SIDE,
    {
        proof {
            use_type_invariant(self);
        }
        let rows = (self.haystack.rows() - self.needle.rows()) as usize + 1;
        let cols = (self.haystack.cols() - self.needle.cols()) as usize + 1;
        (rows, cols)
    }

    /// Takes the outcome of the imaging backend: the similarity scores, or
    /// the step that failed.
    ///
    /// A failed correlation is an error of matching; a failed rescaling or
    /// inversion is an error of normalization; each carries the diagnostic
    /// text. Scores that have another shape than the score matrix of this
    /// search are an error of matching. Otherwise the scores are handed on
    /// unchanged.
    pub fn normalized_result(&self, computed: Result<ScoreMatrix, Failure>) -> (r: Result<
        ScoreMatrix,
        Error,
    >)
        ensures
            match self.normalized(computed) {
                Ok(grid) => r matches Ok(scores) && scores@ == grid && grid.wf(),
                Err(error) => r matches Err(e) && e@ == error,
            },
    {
        match computed {
            Err(failure) => Err(Error::from_failure(failure)),
            Ok(scores) => {
                let (rows, cols) = self.score_shape();
                if scores.rows() == rows && scores.cols() == cols {
                    Ok(scores)
                } else {
                    Err(
                        Error::new_messaged(
                            String::from_str(
                                "the score matrix does not have the shape of the search",
                            ),
                            ErrorKind::Match,
                        ),
                    )
                }
            },
        }
    }

    /// Whether the needle, placed at the position, lies within the haystack.
    pub fn admits(&self, position: Position) -> (r: bool)
        ensures
            r == self.fits(position),
    {
        proof {
            use_type_invariant(self);
        }
        position.x >= 0 && position.y >= 0 && position.x <= self.haystack.cols()
            - self.needle.cols() && position.y <= self.haystack.rows() - self.needle.rows()
    }

    /// The outline to draw for a match at the position: a rectangle of the
    /// size of the needle, with its top-left corner at the position and a
    /// line two pixels wide. The needle placed there lies within the
    /// haystack. What became of the drawing is taken by [`Templated::marked`].
    pub fn mark(&self, position: Position) -> (outline: Outline)
        requires
            self.fits(position),
        ensures
            outline == self.outline(position),
            0 <= outline.x,
            0 <= outline.y,
            outline.x + outline.width <= self.spec_haystack().spec_cols(),
            outline.y + outline.height <= self.spec_haystack().spec_rows(),
    {
        Outline {
            x: position.x,
            y: position.y,
            width: self.needle.cols(),
            height: self.needle.rows(),
            thickness: OUTLINE_THICKNESS,
        }
    }

    /// Takes the outcome of drawing an outline onto the haystack: `Ok`, or
    /// the diagnostic text of the drawing that failed, which is an error of
    /// annotation with that text.
    pub fn marked(&self, drawn: Result<(), String>) -> (r: Result<(), Error>)
        ensures
            match drawn {
                Ok(_) => r is Ok,
                Err(message) => r matches Err(e) && e@ == annotation_error(message@),
            },
    {
        match drawn {
            Ok(_) => Ok(()),
            Err(message) => Err(Error::new_messaged(message, ErrorKind::Annotation)),
        }
    }

    /// Takes the outcome of writing the haystack to `path`: what the encoder
    /// answered, or `None` where the path could not be handed to it or the
    /// encoder gave an error.
    ///
    /// The haystack is written only where the encoder answered `true`. An
    /// answer of `false`, an error of the encoder and a path that could not
    /// be handed to it are each an error of writing with the path: a write
    /// that failed is never reported as done.
    pub fn write(&self, path: String, written: Option<bool>) -> (r: Result<bool, Error>)
        ensures
            match written {
                Some(true) => r == Ok::<bool, Error>(true),
                _ => r matches Err(e) && e@ == write_error(path@),
            },
            r is Ok <==> written == Some(true),
    {
        match written {
            Some(true) => Ok(true),
            _ => Err(Error::new_file(path, ErrorKind::ImageWrite)),
        }
    }
}

/// Queries for the matches of a search.
pub trait GetPosition {
    /// What the search makes of the outcome of the imaging backend.
    spec fn scores(&self, computed: Result<ScoreMatrix, Failure>) -> Result<Grid, ErrorView>;

    /// All matches above the threshold, row 0 first and within a row
    /// column 0 first; or the error of the outcome.
    fn get_positions(&self, computed: Result<ScoreMatrix, Failure>, threshold: Score) -> (r:
        Result<Vec<Match>, Error>)
        ensures
            match self.scores(computed) {
                Ok(grid) => r matches Ok(found) && found@ == grid.matches(threshold) && grid.wf(),
                Err(error) => r matches Err(e) && e@ == error,
            },
    ;

    /// The best match, if its score is above the threshold; or the error of
    /// the outcome.
    fn get_best_position(&self, computed: Result<ScoreMatrix, Failure>, threshold: Score) -> (r:
        Result<Option<Match>, Error>)
        ensures
            match self.scores(computed) {
                Ok(grid) => r matches Ok(best) && best == grid.best(threshold) && grid.wf(),
                Err(error) => r matches Err(e) && e@ == error,
            },
    ;
}

impl GetPosition for Templated {
    open spec fn scores(&self, computed: Result<ScoreMatrix, Failure>) -> Result<Grid, ErrorView> {
        self.normalized(computed)
    }

    /// Every match is a placement at which the needle lies within the
    /// haystack.
    fn get_positions(&self, computed: Result<ScoreMatrix, Failure>, threshold: Score) -> (r:
        Result<Vec<Match>, Error>)
        ensures
            r matches Ok(found) ==> forall|i: int|
                0 <= i < found@.len() ==> self.fits((#[trigger] found@[i]).0),
    {
        proof {
            use_type_invariant(self);
        }
        match self.normalized_result(computed) {
            Ok(scores) => {
                let found = scores.positions_above(threshold);
                proof {
                    lemma_matches_fit(*self, scores@, threshold);
                    assert forall|i: int| 0 <= i < found@.len() implies self.fits(
                        (#[trigger] found@[i]).0,
                    ) by {
                        assert(found@.contains(found@[i]));
                    }
                }
                Ok(found)
            },
            Err(e) => Err(e),
        }
    }

    /// The best match is a placement at which the needle lies within the
    /// haystack.
    fn get_best_position(&self, computed: Result<ScoreMatrix, Failure>, threshold: Score) -> (r:
        Result<Option<Match>, Error>)
        ensures
            r matches Ok(Some(best)) ==> self.fits(best.0),
    {
        proof {
            use_type_invariant(self);
        }
        match self.normalized_result(computed) {
            Ok(scores) => {
                proof {
                    lemma_matches_fit(*self, scores@, threshold);
                }
                Ok(scores.best_above(threshold))
            },
            Err(e) => Err(e),
        }
    }
}

} // verus!
