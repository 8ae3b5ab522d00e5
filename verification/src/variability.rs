//! How far two patterns may lie apart and still count as one.
use crate::decimal::{decimal_parse, decimal_text, Decimal, DecimalView};
use crate::error::Error;
use crate::text::{join, same_text, slice, to_chars};
use vstd::prelude::*;

verus! {

/// What of two patterns is compared: static bounds are differences, percentile bounds are
/// differences in percent of the second pattern.
#[derive(Debug, Clone, Copy, PartialEq, Eq, Structural)]
pub enum VariabilityKind {
    MaximumStatic,
    AverageStatic,
    AbsoluteMaximumStatic,
    AbsoluteAverageStatic,
    MaximumPercentile,
    AveragePercentile,
    AbsoluteMaximumPercentile,
    AbsoluteAveragePercentile,
    SumStatic,
    SumPercentile,
    AbsoluteSumStatic,
    AbsoluteSumPercentile,
}

/// The bound on a difference.
#[derive(Debug)]
pub struct Variability {
    pub value: Decimal,
}

impl Variability {
    pub fn new(value: Decimal) -> (r: Variability)
        ensures
            r.value == value,
    {
        Variability { value }
    }

    pub fn value(&self) -> (r: &Decimal)
        ensures
            *r == self.value,
    {
        &self.value
    }

    pub fn set_value(&mut self, value: Decimal)
        ensures
            final(self).value == value,
    {
        self.value = value;
    }
}

/// A bound on the difference of two patterns.
#[derive(Debug)]
pub enum VariablilityType {
    MaximumStatic(Variability),
    AverageStatic(Variability),
    AbsoluteMaximumStatic(Variability),
    AbsoluteAverageStatic(Variability),
    MaximumPercentile(Variability),
    AveragePercentile(Variability),
    AbsoluteMaximumPercentile(Variability),
    AbsoluteAveragePercentile(Variability),
    SumStatic(Variability),
    SumPercentile(Variability),
    AbsoluteSumStatic(Variability),
    AbsoluteSumPercentile(Variability),
}

pub struct VariabilityView {
    pub kind: VariabilityKind,
    pub value: DecimalView,
}

impl VariablilityType {
    pub open spec fn spec_kind(self) -> VariabilityKind {
        match self {
            VariablilityType::MaximumStatic(_) => VariabilityKind::MaximumStatic,
            VariablilityType::AverageStatic(_) => VariabilityKind::AverageStatic,
            VariablilityType::AbsoluteMaximumStatic(_) => VariabilityKind::AbsoluteMaximumStatic,
            VariablilityType::AbsoluteAverageStatic(_) => VariabilityKind::AbsoluteAverageStatic,
            VariablilityType::MaximumPercentile(_) => VariabilityKind::MaximumPercentile,
            VariablilityType::AveragePercentile(_) => VariabilityKind::AveragePercentile,
            VariablilityType::AbsoluteMaximumPercentile(_) => VariabilityKind::AbsoluteMaximumPercentile,
            VariablilityType::AbsoluteAveragePercentile(_) => VariabilityKind::AbsoluteAveragePercentile,
            VariablilityType::SumStatic(_) => VariabilityKind::SumStatic,
            VariablilityType::SumPercentile(_) => VariabilityKind::SumPercentile,
            VariablilityType::AbsoluteSumStatic(_) => VariabilityKind::AbsoluteSumStatic,
            VariablilityType::AbsoluteSumPercentile(_) => VariabilityKind::AbsoluteSumPercentile,
        }
    }

    pub open spec fn spec_value(self) -> DecimalView {
        match self {
            VariablilityType::MaximumStatic(v) => v.value@,
            VariablilityType::AverageStatic(v) => v.value@,
            VariablilityType::AbsoluteMaximumStatic(v) => v.value@,
            VariablilityType::AbsoluteAverageStatic(v) => v.value@,
            VariablilityType::MaximumPercentile(v) => v.value@,
            VariablilityType::AveragePercentile(v) => v.value@,
            VariablilityType::AbsoluteMaximumPercentile(v) => v.value@,
            VariablilityType::AbsoluteAveragePercentile(v) => v.value@,
            VariablilityType::SumStatic(v) => v.value@,
            VariablilityType::SumPercentile(v) => v.value@,
            VariablilityType::AbsoluteSumStatic(v) => v.value@,
            VariablilityType::AbsoluteSumPercentile(v) => v.value@,
        }
    }
}

impl View for VariablilityType {
    type V = VariabilityView;

    open spec fn view(&self) -> VariabilityView {
        VariabilityView { kind: self.spec_kind(), value: self.spec_value() }
    }
}

impl VariabilityKind {
    pub open spec fn spec_name(self) -> Seq<char> {
        match self {
            VariabilityKind::MaximumStatic => "MaximumStatic"@,
            VariabilityKind::AverageStatic => "AverageStatic"@,
            VariabilityKind::AbsoluteMaximumStatic => "AbsoluteMaximumStatic"@,
            VariabilityKind::AbsoluteAverageStatic => "AbsoluteAverageStatic"@,
            VariabilityKind::MaximumPercentile => "MaximumPercentile"@,
            VariabilityKind::AveragePercentile => "AveragePercentile"@,
            VariabilityKind::AbsoluteMaximumPercentile => "AbsoluteMaximumPercentile"@,
            VariabilityKind::AbsoluteAveragePercentile => "AbsoluteAveragePercentile"@,
            VariabilityKind::SumStatic => "SumStatic"@,
            VariabilityKind::SumPercentile => "SumPercentile"@,
            VariabilityKind::AbsoluteSumStatic => "AbsoluteSumStatic"@,
            VariabilityKind::AbsoluteSumPercentile => "AbsoluteSumPercentile"@,
        }
    }

    /// Whether the bound is on the difference itself, which is measured in floating point.
    pub open spec fn spec_is_static(self) -> bool {
        match self {
            VariabilityKind::MaximumStatic => true,
            VariabilityKind::AverageStatic => true,
            VariabilityKind::AbsoluteMaximumStatic => true,
            VariabilityKind::AbsoluteAverageStatic => true,
            VariabilityKind::SumStatic => true,
            VariabilityKind::AbsoluteSumStatic => true,
            _ => false,
        }
    }

    pub fn name(&self) -> (r: &'static str)
        ensures
            r@ == self.spec_name(),
    {
        match self {
            VariabilityKind::MaximumStatic => "MaximumStatic",
            VariabilityKind::AverageStatic => "AverageStatic",
            VariabilityKind::AbsoluteMaximumStatic => "AbsoluteMaximumStatic",
            VariabilityKind::AbsoluteAverageStatic => "AbsoluteAverageStatic",
            VariabilityKind::MaximumPercentile => "MaximumPercentile",
            VariabilityKind::AveragePercentile => "AveragePercentile",
            VariabilityKind::AbsoluteMaximumPercentile => "AbsoluteMaximumPercentile",
            VariabilityKind::AbsoluteAveragePercentile => "AbsoluteAveragePercentile",
            VariabilityKind::SumStatic => "SumStatic",
            VariabilityKind::SumPercentile => "SumPercentile",
            VariabilityKind::AbsoluteSumStatic => "AbsoluteSumStatic",
            VariabilityKind::AbsoluteSumPercentile => "AbsoluteSumPercentile",
        }
    }

    pub fn is_static(&self) -> (r: bool)
        ensures
            r == self.spec_is_static(),
    {
        match self {
            VariabilityKind::MaximumStatic => true,
            VariabilityKind::AverageStatic => true,
            VariabilityKind::AbsoluteMaximumStatic => true,
            VariabilityKind::AbsoluteAverageStatic => true,
            VariabilityKind::SumStatic => true,
            VariabilityKind::AbsoluteSumStatic => true,
            _ => false,
        }
    }

    /// The kind of a name.
    pub fn of_name(name: &str) -> (r: Option<VariabilityKind>)
        ensures
            match r {
                Some(kind) => name@ == kind.spec_name(),
                None => forall|kind: VariabilityKind| name@ != #[trigger] kind.spec_name(),
            },
            forall|kind: VariabilityKind|
                name@ == #[trigger] kind.spec_name() ==> r == Some(kind),
    {
        proof {
            lemma_variability_names();
        }
        let r = if same_text(name, "MaximumStatic") {
            Some(VariabilityKind::MaximumStatic)
        } else if same_text(name, "AverageStatic") {
            Some(VariabilityKind::AverageStatic)
        } else if same_text(name, "AbsoluteMaximumStatic") {
            Some(VariabilityKind::AbsoluteMaximumStatic)
        } else if same_text(name, "AbsoluteAverageStatic") {
            Some(VariabilityKind::AbsoluteAverageStatic)
        } else if same_text(name, "MaximumPercentile") {
            Some(VariabilityKind::MaximumPercentile)
        } else if same_text(name, "AveragePercentile") {
            Some(VariabilityKind::AveragePercentile)
        } else if same_text(name, "AbsoluteMaximumPercentile") {
            Some(VariabilityKind::AbsoluteMaximumPercentile)
        } else if same_text(name, "AbsoluteAveragePercentile") {
            Some(VariabilityKind::AbsoluteAveragePercentile)
        } else if same_text(name, "SumStatic") {
            Some(VariabilityKind::SumStatic)
        } else if same_text(name, "SumPercentile") {
            Some(VariabilityKind::SumPercentile)
        } else if same_text(name, "AbsoluteSumStatic") {
            Some(VariabilityKind::AbsoluteSumStatic)
        } else if same_text(name, "AbsoluteSumPercentile") {
            Some(VariabilityKind::AbsoluteSumPercentile)
        } else {
            None
        };
        assert(r matches Some(kind) ==> name@ == kind.spec_name());
        r
    }
}

/// No two kinds share a name, and no name holds a bracket.
pub proof fn lemma_variability_names()
    ensures
        forall|a: VariabilityKind, b: VariabilityKind|
            #[trigger] a.spec_name() == #[trigger] b.spec_name() ==> a == b,
        forall|a: VariabilityKind, i: int|
            0 <= i < a.spec_name().len() ==> #[trigger] a.spec_name()[i] != '('
                && a.spec_name()[i] != ')',
{
    reveal_strlit("MaximumStatic");
    reveal_strlit("AverageStatic");
    reveal_strlit("AbsoluteMaximumStatic");
    reveal_strlit("AbsoluteAverageStatic");
    reveal_strlit("MaximumPercentile");
    reveal_strlit("AveragePercentile");
    reveal_strlit("AbsoluteMaximumPercentile");
    reveal_strlit("AbsoluteAveragePercentile");
    reveal_strlit("SumStatic");
    reveal_strlit("SumPercentile");
    reveal_strlit("AbsoluteSumStatic");
    reveal_strlit("AbsoluteSumPercentile");
    assert forall|a: VariabilityKind, b: VariabilityKind|
        #[trigger] a.spec_name() == #[trigger] b.spec_name() implies a == b by {
        assert(a.spec_name().len() == b.spec_name().len());
        assert(a.spec_name()[0] == b.spec_name()[0]);
        assert(a.spec_name()[8] == b.spec_name()[8]);
        assert(a.spec_name()[9] == b.spec_name()[9]);
    }
}

impl VariablilityType {
    pub fn of_kind(kind: VariabilityKind, variability: Variability) -> (r: VariablilityType)
        ensures
            r@ == (VariabilityView { kind, value: variability.value@ }),
    {
        match kind {
            VariabilityKind::MaximumStatic => VariablilityType::MaximumStatic(variability),
            VariabilityKind::AverageStatic => VariablilityType::AverageStatic(variability),
            VariabilityKind::AbsoluteMaximumStatic => VariablilityType::AbsoluteMaximumStatic(variability),
            VariabilityKind::AbsoluteAverageStatic => VariablilityType::AbsoluteAverageStatic(variability),
            VariabilityKind::MaximumPercentile => VariablilityType::MaximumPercentile(variability),
            VariabilityKind::AveragePercentile => VariablilityType::AveragePercentile(variability),
            VariabilityKind::AbsoluteMaximumPercentile => VariablilityType::AbsoluteMaximumPercentile(variability),
            VariabilityKind::AbsoluteAveragePercentile => VariablilityType::AbsoluteAveragePercentile(variability),
            VariabilityKind::SumStatic => VariablilityType::SumStatic(variability),
            VariabilityKind::SumPercentile => VariablilityType::SumPercentile(variability),
            VariabilityKind::AbsoluteSumStatic => VariablilityType::AbsoluteSumStatic(variability),
            VariabilityKind::AbsoluteSumPercentile => VariablilityType::AbsoluteSumPercentile(variability),
        }
    }

    pub fn kind(&self) -> (r: VariabilityKind)
        ensures
            r == self@.kind,
    {
        match self {
            VariablilityType::MaximumStatic(_) => VariabilityKind::MaximumStatic,
            VariablilityType::AverageStatic(_) => VariabilityKind::AverageStatic,
            VariablilityType::AbsoluteMaximumStatic(_) => VariabilityKind::AbsoluteMaximumStatic,
            VariablilityType::AbsoluteAverageStatic(_) => VariabilityKind::AbsoluteAverageStatic,
            VariablilityType::MaximumPercentile(_) => VariabilityKind::MaximumPercentile,
            VariablilityType::AveragePercentile(_) => VariabilityKind::AveragePercentile,
            VariablilityType::AbsoluteMaximumPercentile(_) => VariabilityKind::AbsoluteMaximumPercentile,
            VariablilityType::AbsoluteAveragePercentile(_) => VariabilityKind::AbsoluteAveragePercentile,
            VariablilityType::SumStatic(_) => VariabilityKind::SumStatic,
            VariablilityType::SumPercentile(_) => VariabilityKind::SumPercentile,
            VariablilityType::AbsoluteSumStatic(_) => VariabilityKind::AbsoluteSumStatic,
            VariablilityType::AbsoluteSumPercentile(_) => VariabilityKind::AbsoluteSumPercentile,
        }
    }

    pub fn value(&self) -> (r: &Decimal)
        ensures
            r@ == self@.value,
    {
        match self {
            VariablilityType::MaximumStatic(v) => &v.value,
            VariablilityType::AverageStatic(v) => &v.value,
            VariablilityType::AbsoluteMaximumStatic(v) => &v.value,
            VariablilityType::AbsoluteAverageStatic(v) => &v.value,
            VariablilityType::MaximumPercentile(v) => &v.value,
            VariablilityType::AveragePercentile(v) => &v.value,
            VariablilityType::AbsoluteMaximumPercentile(v) => &v.value,
            VariablilityType::AbsoluteAveragePercentile(v) => &v.value,
            VariablilityType::SumStatic(v) => &v.value,
            VariablilityType::SumPercentile(v) => &v.value,
            VariablilityType::AbsoluteSumStatic(v) => &v.value,
            VariablilityType::AbsoluteSumPercentile(v) => &v.value,
        }
    }
}

impl Clone for VariablilityType {
    fn clone(&self) -> (r: VariablilityType)
        ensures
            r@ == self@,
    {
        VariablilityType::of_kind(self.kind(), Variability { value: self.value().clone() })
    }
}

/// The text of a bound: the name of its kind, and the value in brackets.
pub open spec fn variability_text(v: VariabilityView) -> Seq<char> {
    v.kind.spec_name() + seq!['('] + decimal_text(v.value.mantissa, v.value.scale) + seq![')']
}

/// The text without the closing brackets at its end.
pub open spec fn without_closing(s: Seq<char>) -> Seq<char>
    decreases s.len(),
{
    if s.len() > 0 && s.last() == ')' {
        without_closing(s.drop_last())
    } else {
        s
    }
}

/// Whether an opening bracket stands at `i` and nowhere else.
pub open spec fn only_bracket(s: Seq<char>, i: int) -> bool {
    &&& 0 <= i < s.len()
    &&& s[i] == '('
    &&& forall|j: int| 0 <= j < s.len() && #[trigger] s[j] == '(' ==> j == i
}

impl VariablilityType {
    /// The text of the bound.
    pub fn text(&self) -> (r: String)
        requires
            self@.value.is_operand(),
        ensures
            r@ == variability_text(self@),
            forall|i: int|
                0 <= i < decimal_text(self@.value.mantissa, self@.value.scale).len()
                    ==> #[trigger] decimal_text(self@.value.mantissa, self@.value.scale)[i] != '('
                    && decimal_text(self@.value.mantissa, self@.value.scale)[i] != ')',
    {
        let mut r = self.kind().name().to_owned();
        r.push('(');
        let number = self.value().text();
        r.append(number.as_str());
        r.push(')');
        assert(r@ =~= variability_text(self@));
        r
    }

    /// The bound that a text writes.
    pub fn parse(text: &str) -> (r: Result<VariablilityType, Error>)
        ensures
            ({
                let body = without_closing(text@);
                if exists|i: int| only_bracket(body, i) {
                    let at = choose|i: int| only_bracket(body, i);
                    let name = body.take(at);
                    match decimal_parse(body.skip(at + 1)) {
                        Err(e) => r is Err && r->Err_0.spec_message() == e,
                        Ok(number) => if exists|kind: VariabilityKind| #[trigger]
                            kind.spec_name() == name {
                            r is Ok && r->Ok_0@.kind.spec_name() == name && r->Ok_0@.value == (
                            DecimalView { mantissa: number.0, scale: number.1 })
                        } else {
                            r is Err && r->Err_0.spec_message() == "Unknown VariabilityType: "@
                                + name
                        },
                    }
                } else {
                    r is Err && r->Err_0.spec_message() == "Invalid VariabilityType format"@
                }
            }),
            forall|v: VariabilityView|
                text@ == #[trigger] variability_text(v) && v.value.is_operand() && (forall|i: int|
                    0 <= i < decimal_text(v.value.mantissa, v.value.scale).len()
                        ==> #[trigger] decimal_text(v.value.mantissa, v.value.scale)[i] != '('
                        && decimal_text(v.value.mantissa, v.value.scale)[i] != ')') ==> r is Ok
                    && r->Ok_0@.kind == v.kind && r->Ok_0@.value.same_value(v.value),
    {
        let chars = to_chars(text);
        let mut end: usize = chars.len();
        assert(text@.take(end as int) == text@);
        while end > 0 && chars[end - 1] == ')'
            invariant
                end <= chars.len(),
                chars@ == text@,
                without_closing(text@.take(end as int)) == without_closing(text@),
            decreases end,
        {
            assert(text@.take(end as int).drop_last() == text@.take(end - 1));
            end -= 1;
        }
        let ghost body = text@.take(end as int);
        assert(body == without_closing(text@));
        let mut found: Option<usize> = None;
        let mut i: usize = 0;
        while i < end
            invariant
                i <= end <= chars.len(),
                chars@ == text@,
                body == text@.take(end as int),
                body == without_closing(text@),
                match found {
                    Some(at) => at < i && body[at as int] == '(' && forall|j: int|
                        0 <= j < i && #[trigger] body[j] == '(' ==> j == at,
                    None => forall|j: int| 0 <= j < i ==> #[trigger] body[j] != '(',
                },
            decreases end - i,
        {
            if chars[i] == '(' {
                match found {
                    Some(at) => {
                        proof {
                            assert(body[i as int] == '(' && body[at as int] == '(');
                            assert forall|k: int| !only_bracket(body, k) by {
                                if only_bracket(body, k) {
                                    assert(at == k && i == k);
                                }
                            }
                            lemma_variability_text_parts(text@, body);
                        }
                        return Err(Error::Message("Invalid VariabilityType format".to_owned()));
                    },
                    None => {
                        found = Some(i);
                    },
                }
            }
            i += 1;
        }
        proof {
            lemma_variability_text_parts(text@, body);
        }
        let at = match found {
            Some(at) => at,
            None => {
                assert forall|k: int| !only_bracket(body, k) by {}
                return Err(Error::Message("Invalid VariabilityType format".to_owned()));
            },
        };
        assert(only_bracket(body, at as int));
        assert(forall|k: int| only_bracket(body, k) ==> k == at);
        let name = slice(&chars, 0, at);
        let number = slice(&chars, at + 1, end);
        assert(name@ == body.take(at as int));
        assert(number@ == body.skip(at + 1));
        let value = match Decimal::parse(number.as_str()) {
            Ok(value) => value,
            Err(e) => return Err(Error::Message(e)),
        };
        match VariabilityKind::of_name(name.as_str()) {
            Some(kind) => {
                assert(kind.spec_name() == name@);
                Ok(VariablilityType::of_kind(kind, Variability { value }))
            },
            None => Err(Error::Message(join("Unknown VariabilityType: ", name.as_str()))),
        }
    }
}

/// What the parts of a text of a bound are: without its closing brackets, the name of the kind
/// stands before the only opening bracket, and the number behind it.
proof fn lemma_variability_text_parts(text: Seq<char>, body: Seq<char>)
    requires
        body == without_closing(text),
    ensures
        forall|v: VariabilityView|
            text == #[trigger] variability_text(v) && (forall|i: int|
                0 <= i < decimal_text(v.value.mantissa, v.value.scale).len()
                    ==> #[trigger] decimal_text(v.value.mantissa, v.value.scale)[i] != '('
                    && decimal_text(v.value.mantissa, v.value.scale)[i] != ')') ==> {
                let at = v.kind.spec_name().len() as int;
                &&& only_bracket(body, at)
                &&& body.take(at) == v.kind.spec_name()
                &&& body.skip(at + 1) == decimal_text(v.value.mantissa, v.value.scale)
            },
{
    lemma_variability_names();
    assert forall|v: VariabilityView|
        text == #[trigger] variability_text(v) && (forall|i: int|
            0 <= i < decimal_text(v.value.mantissa, v.value.scale).len() ==> #[trigger] decimal_text(
                v.value.mantissa,
                v.value.scale,
            )[i] != '(' && decimal_text(v.value.mantissa, v.value.scale)[i] != ')') implies {
        let at = v.kind.spec_name().len() as int;
        &&& only_bracket(body, at)
        &&& body.take(at) == v.kind.spec_name()
        &&& body.skip(at + 1) == decimal_text(v.value.mantissa, v.value.scale)
    } by {
        let name = v.kind.spec_name();
        let number = decimal_text(v.value.mantissa, v.value.scale);
        let at = name.len() as int;
        let open = name + seq!['('] + number;
        assert(text.drop_last() =~= open);
        assert(text.last() == ')');
        assert(open.last() != ')') by {
            if number.len() > 0 {
                assert(open.last() == number[number.len() - 1]);
            } else {
                assert(open.last() == '(');
            }
        }
        reveal_with_fuel(without_closing, 2);
        assert(body == open);
        assert(body[at] == '(');
        assert forall|j: int| 0 <= j < body.len() && #[trigger] body[j] == '(' implies j == at by {
            if j < at {
                assert(body[j] == name[j]);
            } else if j > at {
                assert(body[j] == number[j - at - 1]);
            }
        }
        assert(body.take(at) =~= name);
        assert(body.skip(at + 1) =~= number);
    }
}

}
