//! What can go wrong.
use crate::text::join;
use vstd::prelude::*;

verus! {

/// The errors of the database.
#[derive(Debug)]
pub enum Error {
    InsufficientMeasurementsError,
    DifferentDatasetIdsError,
    InconsistentDatasetIdsError,
    InsufficientPointsForCubicSplineError,
    InvalidTimeRangeError,
    DatabaseError(String),
    InterpolationError(String),
    CacheError(String),
    InvalidIdError(String),
    NumericConversionError(String),
    /// A failure that is told by its text alone.
    Message(String),
}

pub enum ErrorView {
    InsufficientMeasurementsError,
    DifferentDatasetIdsError,
    InconsistentDatasetIdsError,
    InsufficientPointsForCubicSplineError,
    InvalidTimeRangeError,
    DatabaseError(Seq<char>),
    InterpolationError(Seq<char>),
    CacheError(Seq<char>),
    InvalidIdError(Seq<char>),
    NumericConversionError(Seq<char>),
    Message(Seq<char>),
}

impl View for Error {
    type V = ErrorView;

    open spec fn view(&self) -> ErrorView {
        match self {
            Error::InsufficientMeasurementsError => ErrorView::InsufficientMeasurementsError,
            Error::DifferentDatasetIdsError => ErrorView::DifferentDatasetIdsError,
            Error::InconsistentDatasetIdsError => ErrorView::InconsistentDatasetIdsError,
            Error::InsufficientPointsForCubicSplineError =>
                ErrorView::InsufficientPointsForCubicSplineError,
            Error::InvalidTimeRangeError => ErrorView::InvalidTimeRangeError,
            Error::DatabaseError(s) => ErrorView::DatabaseError(s@),
            Error::InterpolationError(s) => ErrorView::InterpolationError(s@),
            Error::CacheError(s) => ErrorView::CacheError(s@),
            Error::InvalidIdError(s) => ErrorView::InvalidIdError(s@),
            Error::NumericConversionError(s) => ErrorView::NumericConversionError(s@),
            Error::Message(s) => ErrorView::Message(s@),
        }
    }
}

/// The failure that is told by a text, where there is one.
pub open spec fn failure(message: Option<Seq<char>>) -> Option<ErrorView> {
    match message {
        Some(s) => Some(ErrorView::Message(s)),
        None => None,
    }
}

impl Error {
    /// The text of the error.
    pub open spec fn spec_message(&self) -> Seq<char> {
        match self {
            Error::InsufficientMeasurementsError =>
                "Insufficient measurements provided for interpolation"@,
            Error::DifferentDatasetIdsError => "Different dataset IDs found in measurements"@,
            Error::InconsistentDatasetIdsError => "Inconsistent dataset IDs found in measurements"@,
            Error::InsufficientPointsForCubicSplineError =>
                "Insufficient points for cubic spline interpolation"@,
            Error::InvalidTimeRangeError =>
                "Invalid time range: start time must be before end time"@,
            Error::DatabaseError(s) => "Database error: "@ + s@,
            Error::InterpolationError(s) => "Interpolation error: "@ + s@,
            Error::CacheError(s) => "Cache error: "@ + s@,
            Error::InvalidIdError(s) => "Invalid ID: "@ + s@,
            Error::NumericConversionError(s) => "Numeric conversion error: "@ + s@,
            Error::Message(s) => s@,
        }
    }

    /// The text of the error.
    pub fn message(&self) -> (r: String)
        ensures
            r@ == self.spec_message(),
    {
        match self {
            Error::InsufficientMeasurementsError =>
                "Insufficient measurements provided for interpolation".to_owned(),
            Error::DifferentDatasetIdsError =>
                "Different dataset IDs found in measurements".to_owned(),
            Error::InconsistentDatasetIdsError =>
                "Inconsistent dataset IDs found in measurements".to_owned(),
            Error::InsufficientPointsForCubicSplineError =>
                "Insufficient points for cubic spline interpolation".to_owned(),
            Error::InvalidTimeRangeError =>
                "Invalid time range: start time must be before end time".to_owned(),
            Error::DatabaseError(s) => join("Database error: ", s.as_str()),
            Error::InterpolationError(s) => join("Interpolation error: ", s.as_str()),
            Error::CacheError(s) => join("Cache error: ", s.as_str()),
            Error::InvalidIdError(s) => join("Invalid ID: ", s.as_str()),
            Error::NumericConversionError(s) => join("Numeric conversion error: ", s.as_str()),
            Error::Message(s) => s.clone(),
        }
    }
}

}
