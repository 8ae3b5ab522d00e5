//! Correlations between patterns and events.
use crate::decimal::{Decimal, DecimalView};
use crate::error::Error;
use crate::ids::{
    is_random_uuid,
    uuid_text,
    AspectId,
    CorrelationID,
    DictionaryId,
    EventID,
    PatternID,
    SubjectId,
};
use crate::pattern::Occurrence;
use crate::resolution::Resolution;
use crate::table::{distinct_keys, has_key, lemma_entry_found, Entry, PairKey, Table};
use crate::text::{ends_with, join, same_text, starts_with, strip_prefix, strip_suffix};
use vstd::prelude::*;

verus! {

/// An extent of time: a number of units.
#[derive(Debug)]
pub struct Distance {
    pub value: Decimal,
    pub units: Resolution,
}

pub struct DistanceView {
    pub value: DecimalView,
    pub units: Resolution,
}

impl View for Distance {
    type V = DistanceView;

    open spec fn view(&self) -> DistanceView {
        DistanceView { value: self.value@, units: self.units }
    }
}

impl Clone for Distance {
    fn clone(&self) -> (r: Distance)
        ensures
            r@ == self@,
    {
        Distance { value: self.value.clone(), units: self.units }
    }
}

impl Distance {
    pub fn new(value: Decimal, units: Resolution) -> (r: Distance)
        ensures
            r.value == value,
            r.units == units,
    {
        Distance { value, units }
    }

    pub fn value(&self) -> (r: &Decimal)
        ensures
            *r == self.value,
    {
        &self.value
    }

    pub fn units(&self) -> (r: Resolution)
        ensures
            r == self.units,
    {
        self.units
    }
}

/// How far off the predictions of a signal are.
pub type ErrorRate = Distance;

/// What a signal is about.
#[derive(Debug)]
pub enum SignalType {
    Custom(String),
}

/// The name of a kind of signal, as it is written in keys.
pub open spec fn signal_key(name: Seq<char>) -> Seq<char> {
    "Custom("@ + name + ")"@
}

/// The name in a key, where the key is one of a kind of signal.
pub open spec fn signal_name(key: Seq<char>) -> Option<Seq<char>> {
    if starts_with(key, "Custom("@) && ends_with(key.skip("Custom("@.len() as int), ")"@) {
        let rest = key.skip("Custom("@.len() as int);
        Some(rest.take(rest.len() - ")"@.len()))
    } else {
        None
    }
}

impl SignalType {
    pub open spec fn spec_name(&self) -> Seq<char> {
        match self {
            SignalType::Custom(name) => name@,
        }
    }

    /// The name of the kind of signal, as it is written in keys.
    pub fn text(&self) -> (r: String)
        ensures
            r@ == signal_key(self.spec_name()),
    {
        match self {
            SignalType::Custom(name) => {
                let mut r = join("Custom(", name.as_str());
                r.append(")");
                r
            },
        }
    }

    /// The kind of signal that a key names, or an error.
    pub fn parse(key: &str) -> (r: Result<SignalType, Error>)
        ensures
            match r {
                Ok(s) => signal_name(key@) == Some(s.spec_name()),
                Err(e) => signal_name(key@) is None && e is Message && e.spec_message()
                    == "Invalid SignalType key: "@ + key@,
            },
    {
        let stripped = strip_prefix(key, "Custom(");
        assert(stripped matches Some(rest) ==> rest@ =~= key@.skip("Custom("@.len() as int));
        match stripped {
            Some(rest) => match strip_suffix(rest.as_str(), ")") {
                Some(name) => {
                    proof {
                        law_signal_key_is_read_back(name@);
                        assert(key@ =~= signal_key(name@));
                    }
                    Ok(SignalType::Custom(name))
                },
                None => Err(Error::Message(join("Invalid SignalType key: ", key))),
            },
            None => Err(Error::Message(join("Invalid SignalType key: ", key))),
        }
    }

    /// The name of the kind of signal.
    pub fn name(self) -> (r: String)
        ensures
            r@ == self.spec_name(),
    {
        match self {
            SignalType::Custom(name) => name,
        }
    }
}

/// Every kind of signal is read back from its key.
pub proof fn law_signal_key_is_read_back(name: Seq<char>)
    ensures
        signal_name(signal_key(name)) == Some(name),
{
    reveal_strlit("Custom(");
    reveal_strlit(")");
    let key = signal_key(name);
    let rest = key.skip("Custom("@.len() as int);
    assert(key.take("Custom("@.len() as int) =~= "Custom("@);
    assert(rest =~= name + ")"@);
    assert(rest.skip(rest.len() - 1) =~= ")"@);
    assert(rest.take(rest.len() - 1) =~= name);
}

/// No two kinds of signal have the same key.
pub proof fn law_signal_keys_differ(a: Seq<char>, b: Seq<char>)
    requires
        signal_key(a) == signal_key(b),
    ensures
        a == b,
{
    law_signal_key_is_read_back(a);
    law_signal_key_is_read_back(b);
}

/// How far off the predictions are, by the name of the kind of signal.
pub type ErrorRates = Table<String, ErrorRate>;

/// A rate with the key of its kind of signal.
#[derive(Debug)]
pub struct KeyedRate {
    pub key: String,
    pub rate: ErrorRate,
}

/// The rates by name, from rates with keys: of two with the same key the later counts.
pub open spec fn rates_of(s: Seq<KeyedRate>) -> Map<Seq<char>, ErrorRate>
    decreases s.len(),
{
    if s.len() == 0 {
        Map::empty()
    } else {
        rates_of(s.drop_last()).insert(signal_name(s.last().key@)->0, s.last().rate)
    }
}

/// The first key that names no kind of signal, if there is one.
pub open spec fn is_first_bad_key(s: Seq<KeyedRate>, i: int) -> bool {
    &&& 0 <= i < s.len()
    &&& signal_name(s[i].key@) is None
    &&& forall|k: int| 0 <= k < i ==> signal_name((#[trigger] s[k]).key@) is Some
}

/// The rates by name, from rates with keys. A key that names no kind of signal is an error.
pub fn error_rates(rates: Vec<KeyedRate>) -> (r: Result<ErrorRates, Error>)
    ensures
        match r {
            Ok(table) => table.is_valid() && table@ == rates_of(rates@) && forall|i: int|
                0 <= i < rates.len() ==> signal_name((#[trigger] rates@[i]).key@) is Some,
            Err(e) => exists|i: int| #[trigger]
                is_first_bad_key(rates@, i) && e is Message && e.spec_message()
                    == "Invalid SignalType key: "@ + rates@[i].key@,
        },
{
    let ghost given = rates@;
    let mut rest = rates;
    let mut table: ErrorRates = Table::new();
    let n: usize = rest.len();
    let mut i: usize = 0;
    assert(given.take(0) =~= Seq::<KeyedRate>::empty());
    while i < n
        invariant
            i <= n,
            n == given.len(),
            given == rates@,
            rest@ == given.skip(i as int),
            table.is_valid(),
            table@ == rates_of(given.take(i as int)),
            forall|k: int| 0 <= k < i ==> signal_name((#[trigger] given[k]).key@) is Some,
        decreases n - i,
    {
        let keyed = rest.remove(0);
        proof {
            assert(keyed == given[i as int]);
            assert(rest@ =~= given.skip(i + 1));
            assert(given.take(i + 1).drop_last() =~= given.take(i as int));
        }
        match SignalType::parse(keyed.key.as_str()) {
            Ok(signal) => {
                table.insert(signal.name(), keyed.rate);
            },
            Err(e) => {
                assert(is_first_bad_key(given, i as int) && e.spec_message()
                    == "Invalid SignalType key: "@ + given[i as int].key@);
                return Err(e);
            },
        }
        i += 1;
    }
    assert(given.take(n as int) =~= given);
    Ok(table)
}

/// Whether rates with keys are those of a table, one for one.
pub open spec fn are_keyed(keyed: Seq<KeyedRate>, entries: Seq<Entry<String, ErrorRate>>) -> bool {
    &&& keyed.len() == entries.len()
    &&& forall|i: int|
        0 <= i < keyed.len() ==> (#[trigger] keyed[i]).key@ == signal_key(entries[i].key@)
            && keyed[i].rate@ == entries[i].value@
}

/// The rates with the keys of their kinds of signal.
pub fn keyed_rates(rates: &ErrorRates) -> (r: Vec<KeyedRate>)
    ensures
        are_keyed(r@, rates.entries@),
{
    let mut r: Vec<KeyedRate> = Vec::new();
    let mut i: usize = 0;
    while i < rates.entries.len()
        invariant
            i <= rates.entries.len(),
            r.len() == i,
            forall|k: int|
                0 <= k < i ==> (#[trigger] r@[k]).key@ == signal_key(rates.entries@[k].key@)
                    && r@[k].rate@ == rates.entries@[k].value@,
        decreases rates.entries.len() - i,
    {
        let entry = &rates.entries[i];
        let key = SignalType::Custom(entry.key.clone()).text();
        r.push(KeyedRate { key, rate: entry.value.clone() });
        i += 1;
    }
    r
}

proof fn lemma_keyed_prefix(
    keyed: Seq<KeyedRate>,
    entries: Seq<Entry<String, ErrorRate>>,
    n: int,
)
    requires
        are_keyed(keyed, entries),
        distinct_keys(entries),
        0 <= n <= keyed.len(),
    ensures
        forall|name: Seq<char>| #[trigger]
            rates_of(keyed.take(n)).dom().contains(name) <==> exists|i: int|
                0 <= i < n && (#[trigger] entries[i]).key@ == name,
        forall|i: int|
            0 <= i < n ==> rates_of(keyed.take(n))[(#[trigger] entries[i]).key@]@
                == entries[i].value@,
    decreases n,
{
    if n > 0 {
        lemma_keyed_prefix(keyed, entries, n - 1);
        let last = keyed[n - 1];
        assert(keyed.take(n).drop_last() =~= keyed.take(n - 1));
        law_signal_key_is_read_back(entries[n - 1].key@);
        assert(last.key@ == signal_key(entries[n - 1].key@));
        let before = rates_of(keyed.take(n - 1));
        assert(rates_of(keyed.take(n)) == before.insert(entries[n - 1].key@, last.rate));
        assert forall|name: Seq<char>| #[trigger]
            rates_of(keyed.take(n)).dom().contains(name) <==> exists|i: int|
            0 <= i < n && (#[trigger] entries[i]).key@ == name by {
            assert(before.dom().contains(name) <==> exists|i: int|
                0 <= i < n - 1 && (#[trigger] entries[i]).key@ == name);
            assert(entries[n - 1].key@ == entries[n - 1].key@);
        }
        assert forall|i: int| 0 <= i < n implies rates_of(keyed.take(n))[(
        #[trigger] entries[i]).key@]@ == entries[i].value@ by {
            if i < n - 1 {
                assert(entries[i].key@ != entries[n - 1].key@);
            }
        }
    } else {
        assert(keyed.take(0) =~= Seq::<KeyedRate>::empty());
    }
}

/// Rates are read back from their keys.
pub proof fn law_keyed_rates_are_read_back(keyed: Seq<KeyedRate>, rates: ErrorRates)
    requires
        rates.is_valid(),
        are_keyed(keyed, rates.entries@),
    ensures
        forall|i: int| 0 <= i < keyed.len() ==> signal_name((#[trigger] keyed[i]).key@) is Some,
        rates_of(keyed).dom() == rates@.dom(),
        forall|name: Seq<char>| #[trigger]
            rates@.dom().contains(name) ==> rates_of(keyed)[name]@ == rates@[name]@,
{
    let entries = rates.entries@;
    assert(distinct_keys(entries));
    assert forall|i: int| 0 <= i < keyed.len() implies signal_name(
        (#[trigger] keyed[i]).key@,
    ) is Some by {
        law_signal_key_is_read_back(entries[i].key@);
    }
    lemma_keyed_prefix(keyed, entries, keyed.len() as int);
    assert(keyed.take(keyed.len() as int) =~= keyed);
    assert forall|name: Seq<char>| #[trigger]
        rates@.dom().contains(name) <==> rates_of(keyed).dom().contains(name) by {
        assert(rates@.dom().contains(name) <==> has_key(entries, name));
    }
    assert(rates_of(keyed).dom() =~= rates@.dom());
    assert forall|name: Seq<char>| #[trigger] rates@.dom().contains(name) implies rates_of(
        keyed,
    )[name]@ == rates@[name]@ by {
        assert(has_key(entries, name));
        let i = choose|i: int| 0 <= i < entries.len() && (#[trigger] entries[i]).key@ == name;
        lemma_entry_found(entries, i);
    }
}

/// How a pattern of a dictionary goes with an event.
#[derive(Debug)]
pub struct Correlation {
    pub id: CorrelationID,
    pub dictionary_id: DictionaryId,
    pub subject_id: SubjectId,
    pub aspect_id: AspectId,
    pub pattern_id: PatternID,
    pub event_id: EventID,
    pub error_rate: ErrorRates,
    pub occurrences: Vec<Occurrence>,
    pub average_distance: Option<Distance>,
}

impl Correlation {
    pub open spec fn is_valid(&self) -> bool {
        self.error_rate.is_valid()
    }

    /// A correlation; without an identifier it gets a new one.
    pub fn new(
        id: Option<CorrelationID>,
        dictionary_id: DictionaryId,
        subject_id: SubjectId,
        aspect_id: &AspectId,
        pattern_id: PatternID,
        event_id: EventID,
        error_rate: ErrorRates,
        occurrences: Vec<Occurrence>,
    ) -> (r: Correlation)
        ensures
            id matches Some(given) ==> r.id == given,
            id is None ==> is_random_uuid(r.id.value),
            r.dictionary_id == dictionary_id,
            r.subject_id == subject_id,
            r.aspect_id == *aspect_id,
            r.pattern_id == pattern_id,
            r.event_id == event_id,
            r.error_rate == error_rate,
            r.occurrences == occurrences,
            r.average_distance is None,
    {
        let id = match id {
            Some(id) => id,
            None => CorrelationID::new(),
        };
        Correlation {
            id,
            dictionary_id,
            subject_id,
            aspect_id: *aspect_id,
            pattern_id,
            event_id,
            error_rate,
            occurrences,
            average_distance: None,
        }
    }

    pub fn error_rate(&self) -> (r: &ErrorRates)
        ensures
            *r == self.error_rate,
    {
        &self.error_rate
    }

    /// How far off the predictions of a kind of signal are.
    pub fn get_error_rate(&self, signal_type: &SignalType) -> (r: Option<&ErrorRate>)
        requires
            self.is_valid(),
        ensures
            match r {
                Some(rate) => self.error_rate@.dom().contains(signal_type.spec_name()) && *rate
                    == self.error_rate@[signal_type.spec_name()],
                None => !self.error_rate@.dom().contains(signal_type.spec_name()),
            },
    {
        match signal_type {
            SignalType::Custom(name) => self.error_rate.get(name),
        }
    }

    /// Sets how far off the predictions of a kind of signal are.
    pub fn set_error_rate(&mut self, signal_type: SignalType, error_rate: ErrorRate)
        requires
            old(self).is_valid(),
        ensures
            final(self).is_valid(),
            final(self).error_rate@ == old(self).error_rate@.insert(
                signal_type.spec_name(),
                error_rate,
            ),
            *final(self) == (Correlation { error_rate: final(self).error_rate, ..*old(self) }),
    {
        self.error_rate.insert(signal_type.name(), error_rate);
    }

    pub fn occurrences(&self) -> (r: &Vec<Occurrence>)
        ensures
            *r == self.occurrences,
    {
        &self.occurrences
    }

    pub fn id(&self) -> (r: &CorrelationID)
        ensures
            *r == self.id,
    {
        &self.id
    }

    pub fn dictionary_id(&self) -> (r: &DictionaryId)
        ensures
            *r == self.dictionary_id,
    {
        &self.dictionary_id
    }

    pub fn subject_id(&self) -> (r: &SubjectId)
        ensures
            *r == self.subject_id,
    {
        &self.subject_id
    }

    pub fn aspect_id(&self) -> (r: &AspectId)
        ensures
            *r == self.aspect_id,
    {
        &self.aspect_id
    }

    pub fn pattern_id(&self) -> (r: &PatternID)
        ensures
            *r == self.pattern_id,
    {
        &self.pattern_id
    }

    pub fn event_id(&self) -> (r: &EventID)
        ensures
            *r == self.event_id,
    {
        &self.event_id
    }

    pub fn average_distance(&self) -> (r: Option<&Distance>)
        ensures
            match r {
                Some(d) => self.average_distance == Some(*d),
                None => self.average_distance is None,
            },
    {
        match &self.average_distance {
            Some(d) => Some(d),
            None => None,
        }
    }

    pub fn set_average_distance(&mut self, average_distance: Option<Distance>)
        ensures
            *final(self) == (Correlation { average_distance, ..*old(self) }),
    {
        self.average_distance = average_distance;
    }
}

/// Correlations by the event and the pattern.
#[derive(Debug)]
pub struct Correlations {
    pub table: Table<PairKey, Correlation>,
}

/// The correlations of one event, with their patterns, in the order in which they came.
pub open spec fn of_event(entries: Seq<Entry<PairKey, Correlation>>, event: u128) -> Seq<
    (PatternID, Correlation),
>
    decreases entries.len(),
{
    if entries.len() == 0 {
        seq![]
    } else if entries.last().key.first == event {
        of_event(entries.drop_last(), event).push(
            (PatternID { value: entries.last().key.second }, entries.last().value),
        )
    } else {
        of_event(entries.drop_last(), event)
    }
}

/// The correlations of the events with a text as their identifier, in the order in which they came.
pub open spec fn of_event_name(entries: Seq<Entry<PairKey, Correlation>>, name: Seq<char>) -> Seq<
    (PatternID, Correlation),
>
    decreases entries.len(),
{
    if entries.len() == 0 {
        seq![]
    } else if uuid_text(entries.last().key.first) == name {
        of_event_name(entries.drop_last(), name).push(
            (PatternID { value: entries.last().key.second }, entries.last().value),
        )
    } else {
        of_event_name(entries.drop_last(), name)
    }
}

/// Values behind references.
pub open spec fn pairs_behind(s: Seq<(PatternID, &Correlation)>) -> Seq<(PatternID, Correlation)> {
    Seq::new(s.len(), |i: int| (s[i].0, *s[i].1))
}

impl Correlations {
    pub open spec fn is_valid(&self) -> bool {
        self.table.is_valid()
    }

    pub fn new() -> (r: Correlations)
        ensures
            r.is_valid(),
            r.table@ == Map::<(u128, u128), Correlation>::empty(),
            r.table.entries@.len() == 0,
    {
        Correlations { table: Table::new() }
    }

    /// Keeps a correlation for an event and a pattern, in place of the one kept before.
    pub fn insert(&mut self, event_id: EventID, pattern_id: PatternID, correlation: Correlation)
        requires
            old(self).is_valid(),
        ensures
            final(self).is_valid(),
            final(self).table@ == old(self).table@.insert(
                (event_id.value, pattern_id.value),
                correlation,
            ),
            final(self).table.entries@.len() == old(self).table.entries@.len() + if old(
                self,
            ).table@.dom().contains((event_id.value, pattern_id.value)) {
                0int
            } else {
                1int
            },
    {
        self.table.insert(
            PairKey { first: event_id.value, second: pattern_id.value },
            correlation,
        );
    }

    /// The correlation of an event and a pattern.
    pub fn get(&self, event_id: &EventID, pattern_id: &PatternID) -> (r: Option<&Correlation>)
        requires
            self.is_valid(),
        ensures
            match r {
                Some(c) => self.table@.dom().contains((event_id.value, pattern_id.value)) && *c
                    == self.table@[(event_id.value, pattern_id.value)],
                None => !self.table@.dom().contains((event_id.value, pattern_id.value)),
            },
    {
        self.table.get(&PairKey { first: event_id.value, second: pattern_id.value })
    }

    /// A correlation with an identifier, if there is one.
    pub fn get_by_id(&self, correlation_id: &CorrelationID) -> (r: Option<&Correlation>)
        requires
            self.is_valid(),
        ensures
            match r {
                Some(c) => c.id == *correlation_id && exists|i: int|
                    0 <= i < self.table.entries.len() && *c == (
                    #[trigger] self.table.entries@[i]).value,
                None => forall|i: int|
                    0 <= i < self.table.entries.len() ==> (
                    #[trigger] self.table.entries@[i]).value.id != *correlation_id,
            },
    {
        let mut i: usize = 0;
        while i < self.table.entries.len()
            invariant
                i <= self.table.entries.len(),
                forall|k: int|
                    0 <= k < i ==> (#[trigger] self.table.entries@[k]).value.id
                        != *correlation_id,
            decreases self.table.entries.len() - i,
        {
            if self.table.entries[i].value.id.value == correlation_id.value {
                return Some(&self.table.entries[i].value);
            }
            i += 1;
        }
        None
    }

    /// The correlations of an event, with their patterns.
    pub fn get_for_event(&self, event_id: &EventID) -> (r: Vec<(PatternID, &Correlation)>)
        ensures
            pairs_behind(r@) == of_event(self.table.entries@, event_id.value),
    {
        let ghost entries = self.table.entries@;
        let mut r: Vec<(PatternID, &Correlation)> = Vec::new();
        let mut i: usize = 0;
        assert(entries.take(0) =~= Seq::<Entry<PairKey, Correlation>>::empty());
        assert(pairs_behind(r@) =~= of_event(entries.take(0), event_id.value));
        while i < self.table.entries.len()
            invariant
                i <= self.table.entries.len(),
                entries == self.table.entries@,
                pairs_behind(r@) == of_event(entries.take(i as int), event_id.value),
            decreases self.table.entries.len() - i,
        {
            let entry = &self.table.entries[i];
            let ghost before = r@;
            assert(entries.take(i + 1).drop_last() =~= entries.take(i as int));
            if entry.key.first == event_id.value {
                r.push((PatternID { value: entry.key.second }, &entry.value));
                assert(pairs_behind(r@) =~= pairs_behind(before).push(
                    (PatternID { value: entry.key.second }, entry.value),
                ));
            }
            i += 1;
        }
        assert(entries.take(entries.len() as int) =~= entries);
        r
    }

    /// The correlations of the event with a text as its identifier, with their patterns.
    pub fn get_for_event_name(&self, event_name: &str) -> (r: Vec<(PatternID, &Correlation)>)
        ensures
            pairs_behind(r@) == of_event_name(self.table.entries@, event_name@),
    {
        let ghost entries = self.table.entries@;
        let mut r: Vec<(PatternID, &Correlation)> = Vec::new();
        let mut i: usize = 0;
        assert(entries.take(0) =~= Seq::<Entry<PairKey, Correlation>>::empty());
        assert(pairs_behind(r@) =~= of_event_name(entries.take(0), event_name@));
        while i < self.table.entries.len()
            invariant
                i <= self.table.entries.len(),
                entries == self.table.entries@,
                pairs_behind(r@) == of_event_name(entries.take(i as int), event_name@),
            decreases self.table.entries.len() - i,
        {
            let entry = &self.table.entries[i];
            let ghost before = r@;
            assert(entries.take(i + 1).drop_last() =~= entries.take(i as int));
            let text = crate::ids::text_of(entry.key.first);
            if same_text(text.as_str(), event_name) {
                r.push((PatternID { value: entry.key.second }, &entry.value));
                assert(pairs_behind(r@) =~= pairs_behind(before).push(
                    (PatternID { value: entry.key.second }, entry.value),
                ));
            }
            i += 1;
        }
        assert(entries.take(entries.len() as int) =~= entries);
        r
    }

    /// The number of correlations of an event.
    pub fn count_for_event(&self, event_id: &EventID) -> (r: usize)
        ensures
            r == of_event(self.table.entries@, event_id.value).len(),
    {
        let found = self.get_for_event(event_id);
        assert(found.len() == pairs_behind(found@).len());
        found.len()
    }

    /// Takes the correlation of an event and a pattern out.
    pub fn remove(&mut self, event_id: &EventID, pattern_id: &PatternID) -> (r: Option<Correlation>)
        requires
            old(self).is_valid(),
        ensures
            final(self).is_valid(),
            final(self).table@ == old(self).table@.remove((event_id.value, pattern_id.value)),
            match r {
                Some(c) => old(self).table@.dom().contains((event_id.value, pattern_id.value)) && c
                    == old(self).table@[(event_id.value, pattern_id.value)]
                    && final(self).table.entries@.len() == old(self).table.entries@.len() - 1,
                None => !old(self).table@.dom().contains((event_id.value, pattern_id.value))
                    && final(self).table.entries@ == old(self).table.entries@,
            },
    {
        self.table.remove(&PairKey { first: event_id.value, second: pattern_id.value })
    }

    pub fn len(&self) -> (r: usize)
        ensures
            r == self.table.entries@.len(),
    {
        self.table.len()
    }

    pub fn is_empty(&self) -> (r: bool)
        ensures
            r == (self.table.entries@.len() == 0),
    {
        self.table.is_empty()
    }

    /// The correlation at a place, in the order in which they came.
    pub fn get_index(&self, index: usize) -> (r: Option<&Correlation>)
        ensures
            match r {
                Some(c) => index < self.table.entries@.len() && *c
                    == self.table.entries@[index as int].value,
                None => index >= self.table.entries@.len(),
            },
    {
        if index < self.table.entries.len() {
            Some(&self.table.entries[index].value)
        } else {
            None
        }
    }

    /// The correlations, in the order in which they came.
    pub fn values(&self) -> (r: Vec<&Correlation>)
        ensures
            r@.len() == self.table.entries@.len(),
            forall|i: int|
                0 <= i < r@.len() ==> *(#[trigger] r@[i]) == self.table.entries@[i].value,
    {
        let mut r: Vec<&Correlation> = Vec::new();
        let mut i: usize = 0;
        while i < self.table.entries.len()
            invariant
                i <= self.table.entries.len(),
                r.len() == i,
                forall|k: int|
                    0 <= k < i ==> *(#[trigger] r@[k]) == self.table.entries@[k].value,
            decreases self.table.entries.len() - i,
        {
            r.push(&self.table.entries[i].value);
            i += 1;
        }
        r
    }

    /// The correlations with their events and patterns, in the order in which they came.
    pub fn iter(&self) -> (r: Vec<(EventID, PatternID, &Correlation)>)
        ensures
            r@.len() == self.table.entries@.len(),
            forall|i: int|
                0 <= i < r@.len() ==> (#[trigger] r@[i]).0.value
                    == self.table.entries@[i].key.first && r@[i].1.value
                    == self.table.entries@[i].key.second && *r@[i].2
                    == self.table.entries@[i].value,
    {
        let mut r: Vec<(EventID, PatternID, &Correlation)> = Vec::new();
        let mut i: usize = 0;
        while i < self.table.entries.len()
            invariant
                i <= self.table.entries.len(),
                r.len() == i,
                forall|k: int|
                    0 <= k < i ==> (#[trigger] r@[k]).0.value == self.table.entries@[k].key.first
                        && r@[k].1.value == self.table.entries@[k].key.second && *r@[k].2
                        == self.table.entries@[k].value,
            decreases self.table.entries.len() - i,
        {
            let entry = &self.table.entries[i];
            r.push(
                (
                    EventID { value: entry.key.first },
                    PatternID { value: entry.key.second },
                    &entry.value,
                ),
            );
            i += 1;
        }
        r
    }
}

impl Default for Correlations {
    fn default() -> (r: Correlations)
        ensures
            r.is_valid(),
            r.table.entries@.len() == 0,
    {
        Correlations::new()
    }
}

}
