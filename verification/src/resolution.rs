//! The spacing of a time series, and the ways to interpolate one.
use crate::error::Error;
use crate::text::{join, nat_text, same_text, starts_with, u64_text};
use std::str::FromStr;
use vstd::prelude::*;

verus! {

/// The spacing of a time series, finest first.
#[derive(Debug, Clone, Copy, PartialEq, Eq, Hash, Structural)]
pub enum Resolution {
    Nanoseconds,
    Microseconds,
    Milliseconds,
    Seconds,
    Minutes,
    Hours,
    Days,
    Weeks,
    Months,
    Years,
}

/// An interpolation method; a polynomial carries its degree and the bits of the factor that bounds
/// it, where it is bounded.
#[derive(Debug, Clone, Copy, PartialEq, Eq, Structural)]
pub enum Spline {
    Linear,
    Quadratic,
    Cubic,
    Polynomial(usize, Option<u64>),
}

impl Resolution {
    /// The place of the resolution among all, from the finest on.
    pub open spec fn spec_rank(self) -> int {
        match self {
            Resolution::Nanoseconds => 0,
            Resolution::Microseconds => 1,
            Resolution::Milliseconds => 2,
            Resolution::Seconds => 3,
            Resolution::Minutes => 4,
            Resolution::Hours => 5,
            Resolution::Days => 6,
            Resolution::Weeks => 7,
            Resolution::Months => 8,
            Resolution::Years => 9,
        }
    }

    /// The length of one step in nanoseconds; a month counts 30 days and a year 365.
    pub open spec fn spec_step(self) -> int {
        match self {
            Resolution::Nanoseconds => 1,
            Resolution::Microseconds => 1_000,
            Resolution::Milliseconds => 1_000_000,
            Resolution::Seconds => 1_000_000_000,
            Resolution::Minutes => 60int * 1_000_000_000,
            Resolution::Hours => 3_600int * 1_000_000_000,
            Resolution::Days => 86_400int * 1_000_000_000,
            Resolution::Weeks => 7int * 86_400 * 1_000_000_000,
            Resolution::Months => 30int * 86_400 * 1_000_000_000,
            Resolution::Years => 365int * 86_400 * 1_000_000_000,
        }
    }

    /// The lowercase name.
    pub open spec fn spec_text(self) -> Seq<char> {
        match self {
            Resolution::Nanoseconds => "nanoseconds"@,
            Resolution::Microseconds => "microseconds"@,
            Resolution::Milliseconds => "milliseconds"@,
            Resolution::Seconds => "seconds"@,
            Resolution::Minutes => "minutes"@,
            Resolution::Hours => "hours"@,
            Resolution::Days => "days"@,
            Resolution::Weeks => "weeks"@,
            Resolution::Months => "months"@,
            Resolution::Years => "years"@,
        }
    }

    /// The capitalised name.
    pub open spec fn spec_name(self) -> Seq<char> {
        match self {
            Resolution::Nanoseconds => "Nanoseconds"@,
            Resolution::Microseconds => "Microseconds"@,
            Resolution::Milliseconds => "Milliseconds"@,
            Resolution::Seconds => "Seconds"@,
            Resolution::Minutes => "Minutes"@,
            Resolution::Hours => "Hours"@,
            Resolution::Days => "Days"@,
            Resolution::Weeks => "Weeks"@,
            Resolution::Months => "Months"@,
            Resolution::Years => "Years"@,
        }
    }

    fn rank(&self) -> (r: u8)
        ensures
            r == self.spec_rank(),
    {
        match self {
            Resolution::Nanoseconds => 0,
            Resolution::Microseconds => 1,
            Resolution::Milliseconds => 2,
            Resolution::Seconds => 3,
            Resolution::Minutes => 4,
            Resolution::Hours => 5,
            Resolution::Days => 6,
            Resolution::Weeks => 7,
            Resolution::Months => 8,
            Resolution::Years => 9,
        }
    }

    /// Whether the resolution is finer than the other.
    pub fn finer_than(&self, other: &Resolution) -> (r: bool)
        ensures
            r == (self.spec_rank() < other.spec_rank()),
    {
        self.rank() < other.rank()
    }

    /// The length of one step in nanoseconds.
    pub fn step_nanos(&self) -> (r: i64)
        ensures
            r == self.spec_step(),
    {
        match self {
            Resolution::Nanoseconds => 1,
            Resolution::Microseconds => 1_000,
            Resolution::Milliseconds => 1_000_000,
            Resolution::Seconds => 1_000_000_000,
            Resolution::Minutes => 60_000_000_000,
            Resolution::Hours => 3_600_000_000_000,
            Resolution::Days => 86_400_000_000_000,
            Resolution::Weeks => 604_800_000_000_000,
            Resolution::Months => 2_592_000_000_000_000,
            Resolution::Years => 31_536_000_000_000_000,
        }
    }

    /// The lowercase name.
    pub fn text(&self) -> (r: String)
        ensures
            r@ == self.spec_text(),
    {
        match self {
            Resolution::Nanoseconds => "nanoseconds".to_owned(),
            Resolution::Microseconds => "microseconds".to_owned(),
            Resolution::Milliseconds => "milliseconds".to_owned(),
            Resolution::Seconds => "seconds".to_owned(),
            Resolution::Minutes => "minutes".to_owned(),
            Resolution::Hours => "hours".to_owned(),
            Resolution::Days => "days".to_owned(),
            Resolution::Weeks => "weeks".to_owned(),
            Resolution::Months => "months".to_owned(),
            Resolution::Years => "years".to_owned(),
        }
    }

    /// The capitalised name.
    pub fn name(&self) -> (r: String)
        ensures
            r@ == self.spec_name(),
    {
        match self {
            Resolution::Nanoseconds => "Nanoseconds".to_owned(),
            Resolution::Microseconds => "Microseconds".to_owned(),
            Resolution::Milliseconds => "Milliseconds".to_owned(),
            Resolution::Seconds => "Seconds".to_owned(),
            Resolution::Minutes => "Minutes".to_owned(),
            Resolution::Hours => "Hours".to_owned(),
            Resolution::Days => "Days".to_owned(),
            Resolution::Weeks => "Weeks".to_owned(),
            Resolution::Months => "Months".to_owned(),
            Resolution::Years => "Years".to_owned(),
        }
    }

    /// The resolution of a lowercase name, or the text of the error.
    pub fn parse(text: &str) -> (r: Result<Resolution, String>)
        ensures
            match r {
                Ok(resolution) => text@ == resolution.spec_text(),
                Err(e) => {
                    &&& forall|resolution: Resolution| text@ != #[trigger] resolution.spec_text()
                    &&& e@ == "Conversion error: Invalid resolution string: "@ + text@
                },
            },
            forall|resolution: Resolution|
                text@ == #[trigger] resolution.spec_text() ==> r is Ok && r->Ok_0 == resolution,
    {
        proof {
            lemma_resolution_texts();
        }
        let r = if same_text(text, "nanoseconds") {
            Ok(Resolution::Nanoseconds)
        } else if same_text(text, "microseconds") {
            Ok(Resolution::Microseconds)
        } else if same_text(text, "milliseconds") {
            Ok(Resolution::Milliseconds)
        } else if same_text(text, "seconds") {
            Ok(Resolution::Seconds)
        } else if same_text(text, "minutes") {
            Ok(Resolution::Minutes)
        } else if same_text(text, "hours") {
            Ok(Resolution::Hours)
        } else if same_text(text, "days") {
            Ok(Resolution::Days)
        } else if same_text(text, "weeks") {
            Ok(Resolution::Weeks)
        } else if same_text(text, "months") {
            Ok(Resolution::Months)
        } else if same_text(text, "years") {
            Ok(Resolution::Years)
        } else {
            Err(join("Conversion error: Invalid resolution string: ", text))
        };
        assert(r matches Ok(resolution) ==> text@ == resolution.spec_text());
        r
    }

    /// The resolution of a capitalised name.
    pub fn parse_name(name: &str) -> (r: Result<Resolution, Error>)
        ensures
            match r {
                Ok(resolution) => name@ == resolution.spec_name(),
                Err(e) => {
                    &&& forall|resolution: Resolution| name@ != #[trigger] resolution.spec_name()
                    &&& e matches Error::DatabaseError(s)
                    &&& s@ == "Invalid resolution value: "@ + name@
                },
            },
            forall|resolution: Resolution|
                name@ == #[trigger] resolution.spec_name() ==> r is Ok && r->Ok_0 == resolution,
    {
        proof {
            lemma_resolution_names();
        }
        let r = if same_text(name, "Nanoseconds") {
            Ok(Resolution::Nanoseconds)
        } else if same_text(name, "Microseconds") {
            Ok(Resolution::Microseconds)
        } else if same_text(name, "Milliseconds") {
            Ok(Resolution::Milliseconds)
        } else if same_text(name, "Seconds") {
            Ok(Resolution::Seconds)
        } else if same_text(name, "Minutes") {
            Ok(Resolution::Minutes)
        } else if same_text(name, "Hours") {
            Ok(Resolution::Hours)
        } else if same_text(name, "Days") {
            Ok(Resolution::Days)
        } else if same_text(name, "Weeks") {
            Ok(Resolution::Weeks)
        } else if same_text(name, "Months") {
            Ok(Resolution::Months)
        } else if same_text(name, "Years") {
            Ok(Resolution::Years)
        } else {
            Err(Error::DatabaseError(join("Invalid resolution value: ", name)))
        };
        assert(r matches Ok(resolution) ==> name@ == resolution.spec_name());
        r
    }
}

/// No two resolutions share a lowercase name.
pub proof fn lemma_resolution_texts()
    ensures
        forall|a: Resolution, b: Resolution|
            #[trigger] a.spec_text() == #[trigger] b.spec_text() ==> a == b,
{
    reveal_strlit("nanoseconds");
    reveal_strlit("microseconds");
    reveal_strlit("milliseconds");
    reveal_strlit("seconds");
    reveal_strlit("minutes");
    reveal_strlit("hours");
    reveal_strlit("days");
    reveal_strlit("weeks");
    reveal_strlit("months");
    reveal_strlit("years");
    assert forall|a: Resolution, b: Resolution|
        #[trigger] a.spec_text() == #[trigger] b.spec_text() implies a == b by {
        assert(a.spec_text().len() == b.spec_text().len());
        assert(a.spec_text()[0] == b.spec_text()[0]);
        assert(a.spec_text()[1] == b.spec_text()[1]);
        assert(a.spec_text()[2] == b.spec_text()[2]);
    }
}

/// No two resolutions share a capitalised name.
pub proof fn lemma_resolution_names()
    ensures
        forall|a: Resolution, b: Resolution|
            #[trigger] a.spec_name() == #[trigger] b.spec_name() ==> a == b,
{
    reveal_strlit("Nanoseconds");
    reveal_strlit("Microseconds");
    reveal_strlit("Milliseconds");
    reveal_strlit("Seconds");
    reveal_strlit("Minutes");
    reveal_strlit("Hours");
    reveal_strlit("Days");
    reveal_strlit("Weeks");
    reveal_strlit("Months");
    reveal_strlit("Years");
    assert forall|a: Resolution, b: Resolution|
        #[trigger] a.spec_name() == #[trigger] b.spec_name() implies a == b by {
        assert(a.spec_name().len() == b.spec_name().len());
        assert(a.spec_name()[0] == b.spec_name()[0]);
        assert(a.spec_name()[1] == b.spec_name()[1]);
        assert(a.spec_name()[2] == b.spec_name()[2]);
    }
}

/// The order of the resolutions is the order of their steps.
pub proof fn law_finer_resolution_steps_shorter(a: Resolution, b: Resolution)
    ensures
        a.spec_rank() < b.spec_rank() <==> a.spec_step() < b.spec_step(),
        a.spec_step() > 0,
{
}

impl Spline {
    /// The number of points that the method needs.
    pub open spec fn spec_points_needed(self) -> int {
        match self {
            Spline::Linear => 2,
            Spline::Quadratic => 3,
            Spline::Cubic => 4,
            Spline::Polynomial(degree, _) => degree + 1,
        }
    }

    /// The number of steps by which neighbouring chunks of a series overlap.
    pub open spec fn spec_overlap(self) -> int {
        match self {
            Spline::Linear => 1,
            Spline::Quadratic => 2,
            Spline::Cubic => 3,
            Spline::Polynomial(degree, _) => degree as int,
        }
    }

    pub fn points_needed(&self) -> (r: usize)
        requires
            self.spec_points_needed() <= usize::MAX,
        ensures
            r == self.spec_points_needed(),
    {
        match self {
            Spline::Linear => 2,
            Spline::Quadratic => 3,
            Spline::Cubic => 4,
            Spline::Polynomial(degree, _) => *degree + 1,
        }
    }

    pub fn overlap(&self) -> (r: usize)
        ensures
            r == self.spec_overlap(),
    {
        match self {
            Spline::Linear => 1,
            Spline::Quadratic => 2,
            Spline::Cubic => 3,
            Spline::Polynomial(degree, _) => *degree,
        }
    }
}

/// What `splimes` reads from the text of an interpolation method, or what it says of another text.
pub uninterp spec fn spline_parse(text: Seq<char>) -> Result<Spline, Seq<char>>;

/// The text of a polynomial without bounds.
pub open spec fn unbounded_text(degree: usize) -> Seq<char> {
    "Polynomial(degree: "@ + nat_text(degree as nat) + ", bounds_factor: "@ + "None"@ + ")"@
}

/// The text of an interpolation method, where that of the factor that bounds it is given.
pub open spec fn spline_text(spline: Spline, factor: Seq<char>) -> Seq<char> {
    match spline {
        Spline::Linear => "Linear"@,
        Spline::Quadratic => "Quadratic"@,
        Spline::Cubic => "Cubic"@,
        Spline::Polynomial(degree, None) => unbounded_text(degree),
        Spline::Polynomial(degree, Some(_)) => "Polynomial(degree: "@ + nat_text(degree as nat)
            + ", bounds_factor: "@ + factor + ")"@,
    }
}

/// `Spline`'s `from_str` of `splimes`: the plain methods by their names, and a polynomial without
/// bounds by its text; what comes of another text that begins with `Polynomial` is told only by
/// name, and every other text is unknown.
#[verifier::external_body]
fn spline_of_text(text: &str) -> (r: Result<Spline, String>)
    ensures
        match r {
            Ok(spline) => spline_parse(text@) == Ok::<Spline, Seq<char>>(spline),
            Err(e) => spline_parse(text@) == Err::<Spline, Seq<char>>(e@),
        },
        text@ == "Linear"@ ==> r is Ok && r->Ok_0 == Spline::Linear,
        text@ == "Quadratic"@ ==> r is Ok && r->Ok_0 == Spline::Quadratic,
        text@ == "Cubic"@ ==> r is Ok && r->Ok_0 == Spline::Cubic,
        r is Ok ==> (r->Ok_0 is Polynomial <==> starts_with(text@, "Polynomial"@)),
        forall|degree: usize|
            text@ == #[trigger] unbounded_text(degree) ==> r is Ok && r->Ok_0
                == Spline::Polynomial(degree, None),
        text@ != "Linear"@ && text@ != "Quadratic"@ && text@ != "Cubic"@ && !starts_with(
            text@,
            "Polynomial"@,
        ) ==> r is Err && r->Err_0@ == "Unknown spline type: "@ + text@,
{
    match splimes::Spline::from_str(text) {
        Ok(splimes::Spline::Linear) => Ok(Spline::Linear),
        Ok(splimes::Spline::Quadratic) => Ok(Spline::Quadratic),
        Ok(splimes::Spline::Cubic) => Ok(Spline::Cubic),
        Ok(splimes::Spline::Polynomial(degree, bounds)) => {
            Ok(Spline::Polynomial(degree, bounds.map(|b| b.to_bits())))
        },
        Err(e) => Err(e.to_string()),
    }
}

impl Spline {
    /// Whether the method is a polynomial with a factor that bounds it.
    pub open spec fn is_bounded(self) -> bool {
        self matches Spline::Polynomial(_, Some(_))
    }

    /// The interpolation method that a text names, or the text of the error. Every method but a
    /// bounded one is read back from its own text.
    pub fn parse(text: &str) -> (r: Result<Spline, String>)
        ensures
            match r {
                Ok(spline) => spline_parse(text@) == Ok::<Spline, Seq<char>>(spline),
                Err(e) => spline_parse(text@) == Err::<Spline, Seq<char>>(e@),
            },
            forall|spline: Spline, factor: Seq<char>|
                text@ == #[trigger] spline_text(spline, factor) && !spline.is_bounded() ==> r is Ok
                    && r->Ok_0 == spline,
            text@ != "Linear"@ && text@ != "Quadratic"@ && text@ != "Cubic"@ && !starts_with(
                text@,
                "Polynomial"@,
            ) ==> r is Err && r->Err_0@ == "Unknown spline type: "@ + text@,
    {
        spline_of_text(text)
    }

    /// The text of the interpolation method. The text of the factor that bounds it is looked at
    /// only where there is such a factor.
    pub fn text(&self, factor: &str) -> (r: String)
        ensures
            r@ == spline_text(*self, factor@),
    {
        match self {
            Spline::Linear => "Linear".to_owned(),
            Spline::Quadratic => "Quadratic".to_owned(),
            Spline::Cubic => "Cubic".to_owned(),
            Spline::Polynomial(degree, bounds) => {
                let mut r = join("Polynomial(degree: ", u64_text(*degree as u64).as_str());
                r.append(", bounds_factor: ");
                match bounds {
                    Some(_) => r.append(factor),
                    None => r.append("None"),
                }
                r.append(")");
                r
            },
        }
    }
}

}
