//! Event metadata, envelopes and the per-aggregate event stream.

use vstd::prelude::*;
use crate::ids::EventId;
use crate::shared::Timestamp;
use crate::text;
use crate::text::ViewEq;

verus! {

/// The JSON document of `serde_json`; an envelope carries one as its data.
#[verifier::external_type_specification]
#[verifier::external_body]
pub struct ExJsonValue(serde_json::Value);

/// `Clone` of a JSON document: `Value` derives `Clone`, so the copy is the same
/// document.
pub assume_specification [<serde_json::Value as Clone>::clone](v: &serde_json::Value) -> (r: serde_json::Value)
    ensures
        r == *v,
;

/// The custom properties of a metadata record, as texts.
pub open spec fn property_texts(s: Seq<(String, String)>) -> Seq<(Seq<char>, Seq<char>)> {
    s.map_values(|p: (String, String)| (p.0@, p.1@))
}

/// The position of the first property named `key`.
pub open spec fn key_position(s: Seq<(Seq<char>, Seq<char>)>, key: Seq<char>) -> Option<nat>
    decreases s.len(),
{
    if s.len() == 0 {
        None
    } else if s[0].0 == key {
        Some(0)
    } else {
        match key_position(s.drop_first(), key) {
            Some(i) => Some(i + 1),
            None => None,
        }
    }
}

/// The value of the property named `key`, if there is one.
pub open spec fn property_of(s: Seq<(Seq<char>, Seq<char>)>, key: Seq<char>) -> Option<Seq<char>> {
    match key_position(s, key) {
        Some(i) => Some(s[i as int].1),
        None => None,
    }
}

/// The properties after setting `key` to `value`: the existing entry is
/// overwritten in place, or a new one is appended.
pub open spec fn with_property(s: Seq<(Seq<char>, Seq<char>)>, key: Seq<char>, value: Seq<char>) -> Seq<(Seq<char>, Seq<char>)> {
    match key_position(s, key) {
        Some(i) => s.update(i as int, (key, value)),
        None => s.push((key, value)),
    }
}

/// Where `key_position` finds a key, and that it finds none when no entry has it.
pub proof fn lemma_key_position(s: Seq<(Seq<char>, Seq<char>)>, key: Seq<char>)
    ensures
        match key_position(s, key) {
            Some(i) => i < s.len() && s[i as int].0 == key && forall|j: int| 0 <= j < i ==> s[j].0 != key,
            None => forall|j: int| 0 <= j < s.len() ==> s[j].0 != key,
        },
    decreases s.len(),
{
    if s.len() > 0 && s[0].0 != key {
        lemma_key_position(s.drop_first(), key);
        assert forall|j: int| 1 <= j < s.len() implies s[j] == s.drop_first()[j - 1] by {}
    }
}

/// The first-match position is determined by the entries: it is the index `i`
/// of an entry named `key` with no earlier one, or none when no entry has it.
pub proof fn lemma_key_position_is(s: Seq<(Seq<char>, Seq<char>)>, key: Seq<char>, i: Option<nat>)
    requires
        match i {
            Some(i) => i < s.len() && s[i as int].0 == key && forall|j: int| 0 <= j < i ==> s[j].0 != key,
            None => forall|j: int| 0 <= j < s.len() ==> s[j].0 != key,
        },
    ensures
        key_position(s, key) == i,
{
    lemma_key_position(s, key);
    match key_position(s, key) {
        Some(k) => {
            match i {
                Some(i) => {
                    if k < i {
                        assert(s[k as int].0 != key);
                    } else if i < k {
                        assert(s[i as int].0 != key);
                    }
                },
                None => {
                    assert(s[k as int].0 != key);
                },
            }
        },
        None => {
            match i {
                Some(i) => {
                    assert(s[i as int].0 != key);
                },
                None => {},
            }
        },
    }
}

/// Reading a property after setting one: the property just set gives its new
/// value, every other property is unchanged.
pub proof fn lemma_property_after_set(s: Seq<(Seq<char>, Seq<char>)>, key: Seq<char>, value: Seq<char>, other: Seq<char>)
    ensures
        property_of(with_property(s, key, value), key) == Some(value),
        other != key ==> property_of(with_property(s, key, value), other) == property_of(s, other),
{
    lemma_key_position(s, key);
    lemma_key_position(s, other);
    let t = with_property(s, key, value);
    match key_position(s, key) {
        Some(i) => {
            lemma_key_position_is(t, key, Some(i));
            if other != key {
                lemma_key_position_is(t, other, key_position(s, other));
            }
        },
        None => {
            lemma_key_position_is(t, key, Some(s.len()));
            if other != key {
                lemma_key_position_is(t, other, key_position(s, other));
            }
        },
    }
}

/// The texts of an optional string.
pub open spec fn opt_text(o: Option<String>) -> Option<Seq<char>> {
    match o {
        Some(s) => Some(s@),
        None => None,
    }
}

/// What a metadata record holds, as texts.
pub struct MetadataView {
    pub correlation_id: Option<Seq<char>>,
    pub causation_id: Option<EventId>,
    pub user_id: Option<Seq<char>>,
    pub source: Seq<char>,
    pub custom_properties: Seq<(Seq<char>, Seq<char>)>,
}

/// Where an event comes from and what it is linked to.
#[derive(Debug)]
pub struct EventMetadata {
    pub correlation_id: Option<String>,
    pub causation_id: Option<EventId>,
    pub user_id: Option<String>,
    pub source: String,
    /// Named properties, each name at most once where they were set with
    /// `add_property`; a lookup takes the first entry with the name.
    pub custom_properties: Vec<(String, String)>,
}

impl View for EventMetadata {
    type V = MetadataView;

    open spec fn view(&self) -> MetadataView {
        MetadataView {
            correlation_id: opt_text(self.correlation_id),
            causation_id: self.causation_id,
            user_id: opt_text(self.user_id),
            source: self.source@,
            custom_properties: property_texts(self.custom_properties@),
        }
    }
}

/// A copy of an optional string.
fn copy_opt(o: &Option<String>) -> (r: Option<String>)
    ensures
        opt_text(r) == opt_text(*o),
{
    match o {
        Some(s) => Some(s.clone()),
        None => None,
    }
}

impl Clone for EventMetadata {
    fn clone(&self) -> (r: Self)
        ensures
            r@ == self@,
    {
        let mut props: Vec<(String, String)> = Vec::new();
        let mut i: usize = 0;
        while i < self.custom_properties.len()
            invariant
                i <= self.custom_properties@.len(),
                property_texts(props@) == property_texts(self.custom_properties@.take(i as int)),
            decreases self.custom_properties@.len() - i,
        {
            let k = self.custom_properties[i].0.clone();
            let v = self.custom_properties[i].1.clone();
            let ghost before = props@;
            props.push((k, v));
            proof {
                let t = self.custom_properties@;
                assert(t.take(i + 1) =~= t.take(i as int).push(t[i as int]));
                assert(props@ =~= before.push((k, v)));
                assert(property_texts(props@) =~= property_texts(before).push((k@, v@)));
                assert(property_texts(t.take(i + 1)) =~= property_texts(t.take(i as int)).push((t[i as int].0@, t[i as int].1@)));
            }
            i = i + 1;
        }
        assert(self.custom_properties@.take(i as int) == self.custom_properties@);
        EventMetadata {
            correlation_id: copy_opt(&self.correlation_id),
            causation_id: self.causation_id,
            user_id: copy_opt(&self.user_id),
            source: self.source.clone(),
            custom_properties: props,
        }
    }
}

impl EventMetadata {
    /// Metadata from `source`, with nothing else set.
    pub fn new(source: String) -> (m: Self)
        ensures
            m@ == (MetadataView {
                correlation_id: None,
                causation_id: None,
                user_id: None,
                source: source@,
                custom_properties: Seq::empty(),
            }),
    {
        let m = EventMetadata {
            correlation_id: None,
            causation_id: None,
            user_id: None,
            source,
            custom_properties: Vec::new(),
        };
        assert(property_texts(m.custom_properties@) =~= Seq::empty());
        m
    }

    /// The metadata with its correlation identifier set.
    pub fn with_correlation_id(self, correlation_id: String) -> (m: Self)
        ensures
            m@ == (MetadataView { correlation_id: Some(correlation_id@), ..self@ }),
    {
        let mut m = self;
        m.correlation_id = Some(correlation_id);
        m
    }

    /// The metadata with the event that caused it set.
    pub fn with_causation_id(self, causation_id: EventId) -> (m: Self)
        ensures
            m@ == (MetadataView { causation_id: Some(causation_id), ..self@ }),
    {
        let mut m = self;
        m.causation_id = Some(causation_id);
        m
    }

    /// The metadata with its user set.
    pub fn with_user_id(self, user_id: String) -> (m: Self)
        ensures
            m@ == (MetadataView { user_id: Some(user_id@), ..self@ }),
    {
        let mut m = self;
        m.user_id = Some(user_id);
        m
    }

    /// The metadata with the property `key` set to `value`.
    pub fn add_property(self, key: String, value: String) -> (m: Self)
        ensures
            m@ == (MetadataView {
                custom_properties: with_property(self@.custom_properties, key@, value@),
                ..self@
            }),
    {
        let mut m = self;
        let ghost s = property_texts(m.custom_properties@);
        let mut i: usize = 0;
        while i < m.custom_properties.len()
            invariant
                i <= m.custom_properties@.len(),
                s == property_texts(m.custom_properties@),
                s == self@.custom_properties,
                m.correlation_id == self.correlation_id,
                m.causation_id == self.causation_id,
                m.user_id == self.user_id,
                m.source == self.source,
                forall|j: int| 0 <= j < i ==> s[j].0 != key@,
            decreases m.custom_properties@.len() - i,
        {
            if m.custom_properties[i].0 == key {
                proof {
                    lemma_key_position_is(s, key@, Some(i as nat));
                }
                m.custom_properties.set(i, (key, value));
                assert(property_texts(m.custom_properties@) =~= s.update(i as int, (key@, value@)));
                return m;
            }
            i = i + 1;
        }
        proof {
            lemma_key_position_is(s, key@, None);
        }
        m.custom_properties.push((key, value));
        assert(property_texts(m.custom_properties@) =~= s.push((key@, value@)));
        m
    }

    /// The value of the property named `key`; see `property_of`.
    pub fn get_property(&self, key: &str) -> (r: Option<&String>)
        ensures
            match r {
                Some(v) => property_of(self@.custom_properties, key@) == Some(v@),
                None => property_of(self@.custom_properties, key@) is None,
            },
    {
        let ghost s = property_texts(self.custom_properties@);
        let mut i: usize = 0;
        while i < self.custom_properties.len()
            invariant
                i <= self.custom_properties@.len(),
                s == property_texts(self.custom_properties@),
                forall|j: int| 0 <= j < i ==> s[j].0 != key@,
            decreases self.custom_properties@.len() - i,
        {
            if self.custom_properties[i].0.as_str().view_eq(key) {
                proof {
                    lemma_key_position_is(s, key@, Some(i as nat));
                }
                return Some(&self.custom_properties[i].1);
            }
            i = i + 1;
        }
        proof {
            lemma_key_position_is(s, key@, None);
        }
        None
    }
}

impl Default for EventMetadata {
    fn default() -> (m: Self)
        ensures
            m@ == (MetadataView {
                correlation_id: None,
                causation_id: None,
                user_id: None,
                source: "unknown"@,
                custom_properties: Seq::empty(),
            }),
    {
        EventMetadata::new(text::owned("unknown"))
    }
}

/// What every domain event tells about itself.
pub trait DomainEvent: Sized {
    /// The name of the kind of event.
    spec fn kind_name(&self) -> Seq<char>;

    /// The identifier of the event.
    spec fn id_of(&self) -> EventId;

    /// When the event happened.
    spec fn time_of(&self) -> Timestamp;

    /// The version of the aggregate that the event produced.
    spec fn version_of(&self) -> u32;

    /// The identifier of the aggregate, as text.
    spec fn aggregate_of(&self) -> Seq<char>;

    /// The metadata of the event.
    spec fn metadata_of(&self) -> MetadataView;

    fn event_type(&self) -> (r: &'static str)
        ensures
            r@ == self.kind_name(),
    ;

    fn event_id(&self) -> (r: &EventId)
        ensures
            *r == self.id_of(),
    ;

    fn occurred_at(&self) -> (r: Timestamp)
        ensures
            r == self.time_of(),
    ;

    fn version(&self) -> (r: u32)
        ensures
            r == self.version_of(),
    ;

    fn aggregate_id(&self) -> (r: String)
        ensures
            r@ == self.aggregate_of(),
    ;

    fn metadata(&self) -> (r: &EventMetadata)
        ensures
            r@ == self.metadata_of(),
    ;
}

/// An event as it is stored or sent: its identity and position, and its
/// data as a JSON document.
#[derive(Debug, Clone)]
pub struct EventEnvelope {
    pub event_id: EventId,
    pub event_type: String,
    pub aggregate_id: String,
    pub aggregate_type: String,
    pub version: u32,
    pub occurred_at: Timestamp,
    pub data: serde_json::Value,
    pub metadata: EventMetadata,
}

impl EventEnvelope {
    /// The envelope of `event`, whose JSON form is `data`.
    pub fn new<E: DomainEvent>(event: &E, aggregate_type: String, data: serde_json::Value) -> (r: Self)
        ensures
            r.event_id == event.id_of(),
            r.event_type@ == event.kind_name(),
            r.aggregate_id@ == event.aggregate_of(),
            r.aggregate_type == aggregate_type,
            r.version == event.version_of(),
            r.occurred_at == event.time_of(),
            r.data == data,
            r.metadata@ == event.metadata_of(),
    {
        EventEnvelope {
            event_id: *event.event_id(),
            event_type: text::owned(event.event_type()),
            aggregate_id: event.aggregate_id(),
            aggregate_type,
            version: event.version(),
            occurred_at: event.occurred_at(),
            data,
            metadata: event.metadata().clone(),
        }
    }

    /// Milliseconds from the event to `now`, 0 if `now` is earlier.
    pub fn age_millis_at(&self, now: u64) -> (r: u64)
        ensures
            r == (if now >= self.occurred_at.epoch_millis { now - self.occurred_at.epoch_millis } else { 0 }),
    {
        self.occurred_at.millis_until(now)
    }

    /// Milliseconds since the event, by the system clock.
    pub fn age_millis(&self) -> u64 {
        self.occurred_at.elapsed_millis()
    }

    /// Whether the event is more than `duration_millis` old at `now`.
    pub fn is_older_than_at(&self, duration_millis: u64, now: u64) -> (r: bool)
        ensures
            r == (now > self.occurred_at.epoch_millis && now - self.occurred_at.epoch_millis > duration_millis),
    {
        self.age_millis_at(now) > duration_millis
    }

    /// Whether the event is more than `duration_millis` old by the system clock.
    pub fn is_older_than(&self, duration_millis: u64) -> bool {
        self.age_millis() > duration_millis
    }
}

/// Why an envelope was refused by a stream.
#[derive(Debug, Clone)]
pub enum EventStreamError {
    VersionMismatch { expected: u32, actual: u32 },
    AggregateIdMismatch { expected: String, actual: String },
    SerializationError { message: String },
    InvalidEventData { message: String },
}

/// The message of a stream error.
pub open spec fn stream_error_text(e: EventStreamError) -> Seq<char> {
    match e {
        EventStreamError::VersionMismatch { expected, actual } =>
            "Version mismatch: expected "@ + text::decimal(expected as nat) + ", got "@ + text::decimal(actual as nat),
        EventStreamError::AggregateIdMismatch { expected, actual } =>
            "Aggregate ID mismatch: expected "@ + expected@ + ", got "@ + actual@,
        EventStreamError::SerializationError { message } => "Event serialization error: "@ + message@,
        EventStreamError::InvalidEventData { message } => "Invalid event data: "@ + message@,
    }
}

impl EventStreamError {
    /// The message of the error (what `Display` writes); see `stream_error_text`.
    pub fn display_string(&self) -> (s: String)
        ensures
            s@ == stream_error_text(*self),
    {
        match self {
            EventStreamError::VersionMismatch { expected, actual } => {
                let mut s = text::owned("Version mismatch: expected ");
                text::push_decimal(&mut s, *expected as u64);
                text::push_str(&mut s, ", got ");
                text::push_decimal(&mut s, *actual as u64);
                s
            },
            EventStreamError::AggregateIdMismatch { expected, actual } => {
                let mut s = text::owned("Aggregate ID mismatch: expected ");
                text::push_str(&mut s, expected.as_str());
                text::push_str(&mut s, ", got ");
                text::push_str(&mut s, actual.as_str());
                s
            },
            EventStreamError::SerializationError { message } => {
                let mut s = text::owned("Event serialization error: ");
                text::push_str(&mut s, message.as_str());
                s
            },
            EventStreamError::InvalidEventData { message } => {
                let mut s = text::owned("Invalid event data: ");
                text::push_str(&mut s, message.as_str());
                s
            },
        }
    }
}

/// Figures about a stream.
#[derive(Debug, Clone)]
pub struct EventStreamStatistics {
    pub total_events: usize,
    pub unique_event_types: usize,
    pub current_version: u32,
    pub first_event_at: Option<Timestamp>,
    pub last_event_at: Option<Timestamp>,
    pub stream_age_millis: u64,
}

/// The names of the kinds of the events.
pub open spec fn type_names(s: Seq<EventEnvelope>) -> Seq<Seq<char>> {
    s.map_values(|e: EventEnvelope| e.event_type@)
}

/// The events of one aggregate, in the order of their versions.
#[derive(Debug, Clone)]
pub struct EventStream {
    pub aggregate_id: String,
    pub aggregate_type: String,
    pub events: Vec<EventEnvelope>,
    pub version: u32,
    pub created_at: Timestamp,
    pub updated_at: Timestamp,
}

impl EventStream {
    /// A stream that was built by appending: its version counts its events,
    /// the event at position `i` has version `i + 1`, and each belongs to the
    /// stream's aggregate.
    pub open spec fn is_consistent(&self) -> bool {
        &&& self.version == self.events@.len()
        &&& forall|i: int| 0 <= i < self.events@.len() ==> #[trigger] self.events@[i].version == i + 1
        &&& forall|i: int| 0 <= i < self.events@.len() ==> #[trigger] self.events@[i].aggregate_id@ == self.aggregate_id@
    }

    /// An empty stream for an aggregate, created now.
    pub fn new(aggregate_id: String, aggregate_type: String) -> (r: Self)
        ensures
            r.aggregate_id == aggregate_id,
            r.aggregate_type == aggregate_type,
            r.events@.len() == 0,
            r.version == 0,
            r.created_at == r.updated_at,
            r.is_consistent(),
    {
        let now = Timestamp::now();
        EventStream {
            aggregate_id,
            aggregate_type,
            events: Vec::new(),
            version: 0,
            created_at: now,
            updated_at: now,
        }
    }

    /// Appends the next event of the aggregate. The envelope must carry the
    /// version after the stream's and the stream's aggregate; otherwise the
    /// stream is left as it is and the mismatch is returned.
    pub fn append_event(&mut self, envelope: EventEnvelope) -> (r: Result<(), EventStreamError>)
        requires
            old(self).version < u32::MAX,
        ensures
            envelope.version != old(self).version + 1 ==> r == Err::<(), EventStreamError>(
                EventStreamError::VersionMismatch { expected: (old(self).version + 1) as u32, actual: envelope.version },
            ) && *final(self) == *old(self),
            envelope.version == old(self).version + 1 && envelope.aggregate_id@ != old(self).aggregate_id@ ==> (
                r matches Err(EventStreamError::AggregateIdMismatch { expected, actual })
                && expected@ == old(self).aggregate_id@ && actual@ == envelope.aggregate_id@
                && *final(self) == *old(self)),
            envelope.version == old(self).version + 1 && envelope.aggregate_id@ == old(self).aggregate_id@ ==> (
                r is Ok
                && final(self).events@ == old(self).events@.push(envelope)
                && final(self).version == old(self).version + 1
                && final(self).aggregate_id == old(self).aggregate_id
                && final(self).aggregate_type == old(self).aggregate_type
                && final(self).created_at == old(self).created_at),
            old(self).is_consistent() ==> final(self).is_consistent(),
    {
        if envelope.version != self.version + 1 {
            return Err(EventStreamError::VersionMismatch { expected: self.version + 1, actual: envelope.version });
        }
        if envelope.aggregate_id != self.aggregate_id {
            return Err(EventStreamError::AggregateIdMismatch {
                expected: self.aggregate_id.clone(),
                actual: envelope.aggregate_id,
            });
        }
        self.events.push(envelope);
        self.version = self.version + 1;
        self.updated_at = Timestamp::now();
        Ok(())
    }

    /// The events with a version above `version`, in stream order.
    pub fn events_since_version(&self, version: u32) -> (r: Vec<&EventEnvelope>)
        ensures
            r@.map_values(|e: &EventEnvelope| *e) == self.events@.filter(|e: EventEnvelope| e.version > version),
    {
        let mut r: Vec<&EventEnvelope> = Vec::new();
        let mut i: usize = 0;
        while i < self.events.len()
            invariant
                i <= self.events@.len(),
                r@.map_values(|e: &EventEnvelope| *e) == self.events@.take(i as int).filter(|e: EventEnvelope| e.version > version),
            decreases self.events@.len() - i,
        {
            let ghost before = r@;
            if self.events[i].version > version {
                r.push(&self.events[i]);
            }
            proof {
                let t = self.events@;
                assert(t.take(i + 1).drop_last() =~= t.take(i as int));
                reveal_with_fuel(Seq::filter, 1);
                if t[i as int].version > version {
                    assert(r@ =~= before.push(&t[i as int]));
                    assert(r@.map_values(|e: &EventEnvelope| *e) =~= before.map_values(|e: &EventEnvelope| *e).push(t[i as int]));
                } else {
                    assert(r@ =~= before);
                }
            }
            i = i + 1;
        }
        assert(self.events@.take(i as int) =~= self.events@);
        r
    }

    /// The last event of the stream.
    pub fn latest_event(&self) -> (r: Option<&EventEnvelope>)
        ensures
            match r {
                Some(e) => self.events@.len() > 0 && *e == self.events@.last(),
                None => self.events@.len() == 0,
            },
    {
        self.events.last()
    }

    /// How many events the stream holds.
    pub fn event_count(&self) -> (r: usize)
        ensures
            r == self.events@.len(),
    {
        self.events.len()
    }

    /// Whether the stream holds no event.
    pub fn is_empty(&self) -> (r: bool)
        ensures
            r == (self.events@.len() == 0),
    {
        self.events.len() == 0
    }

    /// The events of kind `event_type`, in stream order.
    pub fn events_of_type(&self, event_type: &str) -> (r: Vec<&EventEnvelope>)
        ensures
            r@.map_values(|e: &EventEnvelope| *e) == self.events@.filter(|e: EventEnvelope| e.event_type@ == event_type@),
    {
        let mut r: Vec<&EventEnvelope> = Vec::new();
        let mut i: usize = 0;
        while i < self.events.len()
            invariant
                i <= self.events@.len(),
                r@.map_values(|e: &EventEnvelope| *e) == self.events@.take(i as int).filter(|e: EventEnvelope| e.event_type@ == event_type@),
            decreases self.events@.len() - i,
        {
            let ghost before = r@;
            if self.events[i].event_type.as_str().view_eq(event_type) {
                r.push(&self.events[i]);
            }
            proof {
                let t = self.events@;
                assert(t.take(i + 1).drop_last() =~= t.take(i as int));
                reveal_with_fuel(Seq::filter, 1);
                if t[i as int].event_type@ == event_type@ {
                    assert(r@ =~= before.push(&t[i as int]));
                    assert(r@.map_values(|e: &EventEnvelope| *e) =~= before.map_values(|e: &EventEnvelope| *e).push(t[i as int]));
                } else {
                    assert(r@ =~= before);
                }
            }
            i = i + 1;
        }
        assert(self.events@.take(i as int) =~= self.events@);
        r
    }

    /// The events that happened from `start` to `end`, both included, in stream order.
    pub fn events_in_range(&self, start: Timestamp, end: Timestamp) -> (r: Vec<&EventEnvelope>)
        ensures
            r@.map_values(|e: &EventEnvelope| *e) == self.events@.filter(
                |e: EventEnvelope| start.epoch_millis <= e.occurred_at.epoch_millis <= end.epoch_millis,
            ),
    {
        let mut r: Vec<&EventEnvelope> = Vec::new();
        let mut i: usize = 0;
        while i < self.events.len()
            invariant
                i <= self.events@.len(),
                r@.map_values(|e: &EventEnvelope| *e) == self.events@.take(i as int).filter(
                    |e: EventEnvelope| start.epoch_millis <= e.occurred_at.epoch_millis <= end.epoch_millis,
                ),
            decreases self.events@.len() - i,
        {
            let ghost before = r@;
            let at = self.events[i].occurred_at.epoch_millis;
            if at >= start.epoch_millis && at <= end.epoch_millis {
                r.push(&self.events[i]);
            }
            proof {
                let t = self.events@;
                assert(t.take(i + 1).drop_last() =~= t.take(i as int));
                reveal_with_fuel(Seq::filter, 1);
                if start.epoch_millis <= t[i as int].occurred_at.epoch_millis <= end.epoch_millis {
                    assert(r@ =~= before.push(&t[i as int]));
                    assert(r@.map_values(|e: &EventEnvelope| *e) =~= before.map_values(|e: &EventEnvelope| *e).push(t[i as int]));
                } else {
                    assert(r@ =~= before);
                }
            }
            i = i + 1;
        }
        assert(self.events@.take(i as int) =~= self.events@);
        r
    }

    /// How many different kinds of event the stream holds.
    pub fn unique_event_type_count(&self) -> (r: usize)
        ensures
            r == type_names(self.events@).to_set().len(),
    {
        let mut seen: Vec<String> = Vec::new();
        let mut i: usize = 0;
        while i < self.events.len()
            invariant
                i <= self.events@.len(),
                seen@.map_values(|t: String| t@).no_duplicates(),
                seen@.map_values(|t: String| t@).to_set() == type_names(self.events@.take(i as int)).to_set(),
                seen@.len() <= i,
            decreases self.events@.len() - i,
        {
            let name = &self.events[i].event_type;
            let mut found = false;
            let mut k: usize = 0;
            while k < seen.len()
                invariant
                    k <= seen@.len(),
                    found == (exists|j: int| 0 <= j < k && seen@[j]@ == name@),
                decreases seen@.len() - k,
            {
                if seen[k] == *name {
                    found = true;
                }
                k = k + 1;
            }
            let ghost before = seen@.map_values(|t: String| t@);
            proof {
                let t = self.events@;
                assert(t.take(i + 1) =~= t.take(i as int).push(t[i as int]));
                assert(type_names(t.take(i + 1)) =~= type_names(t.take(i as int)).push(name@));
                assert(type_names(t.take(i + 1)).to_set() =~= type_names(t.take(i as int)).to_set().insert(name@)) by {
                    broadcast use vstd::seq_lib::group_seq_properties;
                }
            }
            if !found {
                seen.push(name.clone());
                proof {
                    assert(seen@.map_values(|t: String| t@) =~= before.push(name@));
                    assert(!before.contains(name@)) by {
                        if before.contains(name@) {
                            let j = choose|j: int| 0 <= j < before.len() && before[j] == name@;
                            assert(seen@[j]@ == name@);
                        }
                    }
                    assert(before.push(name@).to_set() =~= before.to_set().insert(name@)) by {
                        broadcast use vstd::seq_lib::group_seq_properties;
                    }
                }
            } else {
                proof {
                    let j = choose|j: int| 0 <= j < k && seen@[j]@ == name@;
                    assert(before[j] == name@);
                    assert(before.to_set().contains(name@));
                    assert(before.to_set().insert(name@) =~= before.to_set());
                }
            }
            i = i + 1;
        }
        proof {
            assert(self.events@.take(i as int) =~= self.events@);
            seen@.map_values(|t: String| t@).unique_seq_to_set();
        }
        seen.len()
    }

    /// Figures about the stream; its age is read from the system clock.
    pub fn statistics(&self) -> (r: EventStreamStatistics)
        ensures
            r.total_events == self.events@.len(),
            r.unique_event_types == type_names(self.events@).to_set().len(),
            r.current_version == self.version,
            r.first_event_at == (if self.events@.len() > 0 { Some(self.events@[0].occurred_at) } else { None::<Timestamp> }),
            r.last_event_at == (if self.events@.len() > 0 { Some(self.events@.last().occurred_at) } else { None::<Timestamp> }),
    {
        let first_event_at = if self.events.len() > 0 { Some(self.events[0].occurred_at) } else { None };
        let n = self.events.len();
        let last_event_at = if n > 0 { Some(self.events[n - 1].occurred_at) } else { None };
        EventStreamStatistics {
            total_events: self.event_count(),
            unique_event_types: self.unique_event_type_count(),
            current_version: self.version,
            first_event_at,
            last_event_at,
            stream_age_millis: self.created_at.elapsed_millis(),
        }
    }
}

/// In a stream built by appending, the events after version `v` are those
/// after the first `v`.
pub proof fn lemma_events_since_version(s: EventStream, v: u32)
    requires
        s.is_consistent(),
        v <= s.events@.len(),
    ensures
        s.events@.filter(|e: EventEnvelope| e.version > v) == s.events@.skip(v as int),
{
    let t = s.events@;
    let p = |e: EventEnvelope| e.version > v;
    assert forall|n: int| 0 <= n <= t.len() implies #[trigger] t.take(n).filter(p) == (if n <= v { Seq::<EventEnvelope>::empty() } else { t.subrange(v as int, n) }) by {
        lemma_filter_prefix(t, p, v, n);
    }
    assert(t.take(t.len() as int) =~= t);
    assert(t.subrange(v as int, t.len() as int) =~= t.skip(v as int));
}

proof fn lemma_filter_prefix(t: Seq<EventEnvelope>, p: spec_fn(EventEnvelope) -> bool, v: u32, n: int)
    requires
        0 <= n <= t.len(),
        v <= t.len(),
        forall|i: int| 0 <= i < t.len() ==> #[trigger] t[i].version == i + 1,
        p == (|e: EventEnvelope| e.version > v),
    ensures
        t.take(n).filter(p) == (if n <= v { Seq::<EventEnvelope>::empty() } else { t.subrange(v as int, n) }),
    decreases n,
{
    reveal_with_fuel(Seq::filter, 1);
    if n == 0 {
        assert(t.take(0) =~= Seq::<EventEnvelope>::empty());
    } else {
        lemma_filter_prefix(t, p, v, n - 1);
        assert(t.take(n).drop_last() =~= t.take(n - 1));
        assert(t[n - 1].version == n);
        if n <= v {
        } else if n - 1 == v {
            assert(t.subrange(v as int, n) =~= seq![t[n - 1]]);
            assert(Seq::<EventEnvelope>::empty().push(t[n - 1]) =~= seq![t[n - 1]]);
        } else {
            assert(t.subrange(v as int, n) =~= t.subrange(v as int, n - 1).push(t[n - 1]));
        }
    }
}

/// After an envelope is appended, it is the latest event of the stream.
pub proof fn lemma_latest_after_append(before: Seq<EventEnvelope>, after: Seq<EventEnvelope>, e: EventEnvelope)
    requires
        after == before.push(e),
    ensures
        after.len() > 0,
        after.last() == e,
{
}

} // verus!
