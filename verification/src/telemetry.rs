//! Structured log records: how the fields of a log event become one record.

use chrono::DateTime;
use vstd::prelude::*;

use crate::text::hexadecimal_text;

verus! {

/// The version of the record's layout.
pub const SCHEMA_VERSION: &'static str = "1.0.0";

/// The last second since 1970 that has a date.
pub const LAST_SECOND: i64 = 8_210_266_876_799;

/// The instant so many seconds and nanoseconds after the beginning of 1970, in UTC, as
/// RFC 3339 spells it: what `chrono::DateTime::to_rfc3339` gives.
pub uninterp spec fn rfc3339(seconds: i64, nanos: u32) -> Seq<char>;

/// Whether seconds and nanoseconds since 1970 are an instant that has a date.
pub open spec fn is_instant(seconds: i64, nanos: u32) -> bool {
    0 <= seconds <= LAST_SECOND && nanos < 1_000_000_000
}

/// `chrono::DateTime::to_rfc3339`, of the instant that `DateTime::from_timestamp` makes
/// of seconds and nanoseconds: the name for its result. Seconds after the last date and
/// a billion nanoseconds or more would panic.
#[verifier::external_body]
fn spell_instant(seconds: i64, nanos: u32) -> (text: String)
    requires
        is_instant(seconds, nanos),
    ensures
        text@ == rfc3339(seconds, nanos),
{
    DateTime::from_timestamp(seconds, nanos).unwrap().to_rfc3339()
}

/// The severity of an event where it arises.
#[derive(Clone, Copy, Debug, PartialEq, Eq, Structural)]
pub enum Level {
    Error,
    Warn,
    Info,
    Debug,
    Trace,
}

/// The value of a field. A floating-point number is carried as its IEEE 754 bits.
#[derive(Debug)]
pub enum FieldValue {
    Text(String),
    Bool(bool),
    Int(i64),
    Uint(u64),
    Float(u64),
}

/// The value of a field, with text as its characters.
#[verifier::ext_equal]
pub enum FieldView {
    Text(Seq<char>),
    Bool(bool),
    Int(i64),
    Uint(u64),
    Float(u64),
}

impl View for FieldValue {
    type V = FieldView;

    open spec fn view(&self) -> FieldView {
        match *self {
            FieldValue::Text(text) => FieldView::Text(text@),
            FieldValue::Bool(value) => FieldView::Bool(value),
            FieldValue::Int(value) => FieldView::Int(value),
            FieldValue::Uint(value) => FieldView::Uint(value),
            FieldValue::Float(bits) => FieldView::Float(bits),
        }
    }
}

impl Level {
    /// The severity as records spell it. Traces count as debug output.
    pub open spec fn severity(self) -> Seq<char> {
        match self {
            Level::Error => "ERROR"@,
            Level::Warn => "WARN"@,
            Level::Info => "INFO"@,
            Level::Debug => "DEBUG"@,
            Level::Trace => "DEBUG"@,
        }
    }

    /// The severity as records spell it.
    pub fn severity_text(self) -> (text: &'static str)
        ensures
            text@ == self.severity(),
    {
        match self {
            Level::Error => "ERROR",
            Level::Warn => "WARN",
            Level::Info => "INFO",
            Level::Debug => "DEBUG",
            Level::Trace => "DEBUG",
        }
    }
}

/// The values of named fields.
pub open spec fn field_map(fields: Seq<(String, FieldValue)>) -> Map<Seq<char>, FieldView>
    decreases fields.len(),
{
    if fields.len() == 0 {
        Map::empty()
    } else {
        field_map(fields.drop_last()).insert(fields.last().0@, fields.last().1@)
    }
}

/// No two fields have the same name.
pub open spec fn distinct_names(fields: Seq<(String, FieldValue)>) -> bool {
    forall|i: int, j: int|
        0 <= i < j < fields.len() ==> (#[trigger] fields[i]).0@ != (#[trigger] fields[j]).0@
}

/// The map holds the fields of the list and nothing else.
proof fn lemma_field_map(fields: Seq<(String, FieldValue)>)
    requires
        distinct_names(fields),
    ensures
        forall|i: int|
            0 <= i < fields.len() ==> field_map(fields).get((#[trigger] fields[i]).0@) == Some(
                fields[i].1@,
            ),
        forall|name: Seq<char>| #[trigger]
            field_map(fields).dom().contains(name) ==> exists|i: int|
                0 <= i < fields.len() && (#[trigger] fields[i]).0@ == name,
    decreases fields.len(),
{
    if fields.len() > 0 {
        let shorter = fields.drop_last();
        lemma_field_map(shorter);
        assert forall|i: int| 0 <= i < fields.len() implies field_map(fields).get(
            (#[trigger] fields[i]).0@,
        ) == Some(fields[i].1@) by {
            if i < shorter.len() {
                assert(shorter[i] == fields[i]);
            }
        }
        assert forall|name: Seq<char>| #[trigger]
            field_map(fields).dom().contains(name) implies exists|i: int|
            0 <= i < fields.len() && (#[trigger] fields[i]).0@ == name by {
            if name == fields.last().0@ {
                assert(fields[fields.len() - 1].0@ == name);
            } else {
                let i = choose|i: int| 0 <= i < shorter.len() && (#[trigger] shorter[i]).0@ == name;
                assert(fields[i].0@ == name);
            }
        }
    }
}

/// Replacing the value at one position replaces it in the map.
proof fn lemma_field_map_update(fields: Seq<(String, FieldValue)>, i: int, name: String, value:
    FieldValue)
    requires
        distinct_names(fields),
        0 <= i < fields.len(),
        name@ == fields[i].0@,
    ensures
        distinct_names(fields.update(i, (name, value))),
        field_map(fields.update(i, (name, value))) == field_map(fields).insert(name@, value@),
{
    let after = fields.update(i, (name, value));
    let wanted = field_map(fields).insert(name@, value@);
    lemma_field_map(fields);
    lemma_field_map(after);
    assert forall|n: Seq<char>| field_map(after).get(n) == #[trigger] wanted.get(n) by {
        if field_map(after).dom().contains(n) {
            let k = choose|k: int| 0 <= k < after.len() && (#[trigger] after[k]).0@ == n;
            if k != i {
                assert(after[k] == fields[k]);
            }
        }
        if field_map(fields).dom().contains(n) {
            let k = choose|k: int| 0 <= k < fields.len() && (#[trigger] fields[k]).0@ == n;
            assert(after[k].0@ == n);
        }
        assert(after[i].0@ == name@);
    }
    lemma_same_map(field_map(after), wanted);
}

/// Taking out the field at one position takes its name out of the map.
proof fn lemma_field_map_remove(fields: Seq<(String, FieldValue)>, i: int)
    requires
        distinct_names(fields),
        0 <= i < fields.len(),
    ensures
        distinct_names(fields.remove(i)),
        field_map(fields.remove(i)) == field_map(fields).remove(fields[i].0@),
{
    let after = fields.remove(i);
    let wanted = field_map(fields).remove(fields[i].0@);
    assert forall|k: int| 0 <= k < after.len() implies #[trigger] after[k] == fields[if k < i {
        k
    } else {
        k + 1
    }] by {}
    lemma_field_map(fields);
    lemma_field_map(after);
    assert forall|n: Seq<char>| field_map(after).get(n) == #[trigger] wanted.get(n) by {
        if field_map(after).dom().contains(n) {
            let k = choose|k: int| 0 <= k < after.len() && (#[trigger] after[k]).0@ == n;
            assert(after[k].0@ == n);
        }
        if field_map(fields).dom().contains(n) && n != fields[i].0@ {
            let k = choose|k: int| 0 <= k < fields.len() && (#[trigger] fields[k]).0@ == n;
            assert(after[if k < i {
                k
            } else {
                k - 1
            }].0@ == n);
        }
    }
    lemma_same_map(field_map(after), wanted);
}

/// Maps that give the same for every name are the same.
proof fn lemma_same_map(a: Map<Seq<char>, FieldView>, b: Map<Seq<char>, FieldView>)
    requires
        forall|n: Seq<char>| a.get(n) == #[trigger] b.get(n),
    ensures
        a == b,
{
    assert forall|n: Seq<char>| #[trigger] a.dom().contains(n) == b.dom().contains(n) by {
        assert(a.get(n) == b.get(n));
    }
    assert forall|n: Seq<char>| #[trigger] a.dom().contains(n) implies a[n] == b[n] by {
        assert(a.get(n) == b.get(n));
    }
    assert(a =~= b);
}

/// The fields of a log event, gathered one by one. A name occurs once: its last value
/// counts.
pub struct JsonVisitor {
    fields: Vec<(String, FieldValue)>,
}

impl View for JsonVisitor {
    type V = Map<Seq<char>, FieldView>;

    closed spec fn view(&self) -> Map<Seq<char>, FieldView> {
        field_map(self.fields@)
    }
}

impl Default for JsonVisitor {
    fn default() -> (visitor: JsonVisitor)
        ensures
            visitor@ == Map::<Seq<char>, FieldView>::empty(),
    {
        JsonVisitor { fields: Vec::new() }
    }
}

impl JsonVisitor {
    #[verifier::type_invariant]
    spec fn names_are_distinct(self) -> bool {
        distinct_names(self.fields@)
    }

    /// The position of a field.
    fn position(&self, name: &str) -> (position: Option<usize>)
        ensures
            match position {
                Some(i) => i < self.fields@.len() && self.fields@[i as int].0@ == name@,
                None => !self@.dom().contains(name@),
            },
    {
        proof {
            use_type_invariant(self);
            lemma_field_map(self.fields@);
        }
        let wanted = name.to_owned();
        let mut i: usize = 0;
        while i < self.fields.len()
            invariant
                i <= self.fields.len(),
                wanted@ == name@,
                forall|k: int| 0 <= k < i ==> (#[trigger] self.fields@[k]).0@ != name@,
            decreases self.fields.len() - i,
        {
            if self.fields[i].0 == wanted {
                return Some(i);
            }
            i = i + 1;
        }
        None
    }

    /// Gives a field a value, in place of the one it may have.
    pub fn record(&mut self, name: &str, value: FieldValue)
        ensures
            final(self)@ == old(self)@.insert(name@, value@),
    {
        proof {
            use_type_invariant(&*self);
        }
        let position = self.position(name);
        let mut fields: Vec<(String, FieldValue)> = Vec::new();
        std::mem::swap(&mut fields, &mut self.fields);
        let ghost before = fields@;
        let entry = (name.to_owned(), value);
        match position {
            Some(i) => {
                proof {
                    lemma_field_map_update(before, i as int, entry.0, entry.1);
                }
                fields.set(i, entry);
            },
            None => {
                proof {
                    lemma_field_map(before);
                    assert(before.push(entry).drop_last() =~= before);
                    assert(distinct_names(before.push(entry))) by {
                        assert forall|k: int|
                            0 <= k < before.len() implies (#[trigger] before[k]).0@ != name@ by {
                            assert(field_map(before).get(before[k].0@) is Some);
                        }
                    }
                }
                fields.push(entry);
            },
        }
        self.fields = fields;
    }

    /// Records text.
    pub fn record_str(&mut self, name: &str, value: &str)
        ensures
            final(self)@ == old(self)@.insert(name@, FieldView::Text(value@)),
    {
        self.record(name, FieldValue::Text(value.to_owned()));
    }

    /// Records a truth value.
    pub fn record_bool(&mut self, name: &str, value: bool)
        ensures
            final(self)@ == old(self)@.insert(name@, FieldView::Bool(value)),
    {
        self.record(name, FieldValue::Bool(value));
    }

    /// Records a signed number.
    pub fn record_i64(&mut self, name: &str, value: i64)
        ensures
            final(self)@ == old(self)@.insert(name@, FieldView::Int(value)),
    {
        self.record(name, FieldValue::Int(value));
    }

    /// Records an unsigned number.
    pub fn record_u64(&mut self, name: &str, value: u64)
        ensures
            final(self)@ == old(self)@.insert(name@, FieldView::Uint(value)),
    {
        self.record(name, FieldValue::Uint(value));
    }

    /// Records a floating-point number, given as its bits.
    pub fn record_f64(&mut self, name: &str, bits: u64)
        ensures
            final(self)@ == old(self)@.insert(name@, FieldView::Float(bits)),
    {
        self.record(name, FieldValue::Float(bits));
    }

    /// Records the text that a value prints for debugging.
    pub fn record_debug(&mut self, name: &str, printed: &str)
        ensures
            final(self)@ == old(self)@.insert(name@, FieldView::Text(printed@)),
    {
        self.record(name, FieldValue::Text(printed.to_owned()));
    }

    /// Records the text of an error.
    pub fn record_error(&mut self, name: &str, message: &str)
        ensures
            final(self)@ == old(self)@.insert(name@, FieldView::Text(message@)),
    {
        self.record(name, FieldValue::Text(message.to_owned()));
    }

    /// The fields, each name once.
    pub fn into_entries(self) -> (entries: Vec<(String, FieldValue)>)
        ensures
            distinct_names(entries@),
            field_map(entries@) == self@,
    {
        proof {
            use_type_invariant(&self);
        }
        self.fields
    }

    /// Takes a field out.
    pub fn remove(&mut self, name: &str) -> (value: Option<FieldValue>)
        ensures
            match value {
                Some(value) => old(self)@.get(name@) == Some(value@),
                None => old(self)@.get(name@) is None,
            },
            final(self)@ == old(self)@.remove(name@),
    {
        proof {
            use_type_invariant(&*self);
            lemma_field_map(self.fields@);
        }
        match self.position(name) {
            Some(i) => {
                let mut fields: Vec<(String, FieldValue)> = Vec::new();
                std::mem::swap(&mut fields, &mut self.fields);
                proof {
                    lemma_field_map_remove(fields@, i as int);
                }
                let entry = fields.remove(i);
                self.fields = fields;
                Some(entry.1)
            },
            None => {
                assert(self@.remove(name@) =~= self@);
                None
            },
        }
    }

    /// The text of a field, if it has text.
    pub fn text(&self, name: &str) -> (text: Option<String>)
        ensures
            match text {
                Some(text) => text_of(self@, name@) == Some(text@),
                None => text_of(self@, name@) is None,
            },
    {
        proof {
            use_type_invariant(self);
            lemma_field_map(self.fields@);
        }
        match self.position(name) {
            Some(i) => match &self.fields[i].1 {
                FieldValue::Text(text) => Some(text.clone()),
                _ => None,
            },
            None => None,
        }
    }
}

/// The text of a field, if it has text.
pub open spec fn text_of(fields: Map<Seq<char>, FieldView>, name: Seq<char>) -> Option<Seq<char>> {
    match fields.get(name) {
        Some(FieldView::Text(text)) => Some(text),
        _ => None,
    }
}

/// The service that log events come from.
#[derive(Debug)]
pub struct ResourceContext {
    pub service_name: String,
    pub service_version: String,
    pub service_env: String,
    pub host_name: String,
}

/// A log record.
pub struct SutsLogRecord {
    pub schema_v: &'static str,
    pub ts: String,
    pub severity: &'static str,
    pub tenant_id: String,
    pub resource: ResourceContext,
    pub trace_id: Option<String>,
    pub span_id: Option<String>,
    pub event: String,
    pub message: String,
    pub attributes: JsonVisitor,
}

/// The name of an event: its field `event`, if that is text.
pub open spec fn event_name(fields: Map<Seq<char>, FieldView>) -> Seq<char> {
    match text_of(fields, "event"@) {
        Some(name) => name,
        None => "LOG_EVENT"@,
    }
}

/// The message of an event: its field `message`, if that is text.
pub open spec fn event_message(fields: Map<Seq<char>, FieldView>) -> Seq<char> {
    match text_of(fields, "message"@) {
        Some(message) => message,
        None => Seq::empty(),
    }
}

/// What links an event to others: its field `trace_id`, or else the call ID, whichever
/// is text.
pub open spec fn event_trace(fields: Map<Seq<char>, FieldView>) -> Option<Seq<char>> {
    match text_of(fields, "trace_id"@) {
        Some(trace) => Some(trace),
        None => text_of(fields, "sip.call_id"@),
    }
}

/// The fields that a record carries as attributes: all but the event's name and its
/// message.
pub open spec fn event_attributes(fields: Map<Seq<char>, FieldView>) -> Map<Seq<char>, FieldView> {
    fields.remove("event"@).remove("message"@)
}

/// The characters of a string that may be missing.
pub open spec fn optional_text(text: Option<String>) -> Option<Seq<char>> {
    match text {
        Some(text) => Some(text@),
        None => None,
    }
}

/// The names that a record treats in a way of its own differ from each other.
proof fn lemma_special_names()
    ensures
        "event"@ != "message"@,
        "trace_id"@ != "event"@,
        "trace_id"@ != "message"@,
        "sip.call_id"@ != "event"@,
        "sip.call_id"@ != "message"@,
{
    reveal_strlit("event");
    reveal_strlit("message");
    reveal_strlit("trace_id");
    reveal_strlit("sip.call_id");
    assert("event"@.len() == 5);
    assert("message"@.len() == 7);
    assert("trace_id"@.len() == 8);
    assert("sip.call_id"@.len() == 11);
}

/// Makes log records for one service and tenant.
pub struct SutsFormatter {
    resource: ResourceContext,
    tenant_id: String,
}

impl SutsFormatter {
    /// The service that the records name.
    pub closed spec fn service(&self) -> ResourceContext {
        self.resource
    }

    /// The tenant that the records name.
    pub closed spec fn tenant(&self) -> String {
        self.tenant_id
    }

    /// Whether a record says of an event what has to be said, whenever it happened.
    pub open spec fn records(
        &self,
        level: Level,
        fields: Map<Seq<char>, FieldView>,
        span: Option<u64>,
        record: SutsLogRecord,
    ) -> bool {
        &&& record.schema_v@ == SCHEMA_VERSION@
        &&& record.severity@ == level.severity()
        &&& record.tenant_id == self.tenant()
        &&& record.resource == self.service()
        &&& optional_text(record.trace_id) == event_trace(fields)
        &&& optional_text(record.span_id) == match span {
            Some(id) => Some(crate::text::hexadecimal(id as nat)),
            None => None,
        }
        &&& record.event@ == event_name(fields)
        &&& record.message@ == event_message(fields)
        &&& record.attributes@ == event_attributes(fields)
    }

    /// A formatter for this service and tenant.
    pub fn new(
        service_name: String,
        version: String,
        env: String,
        host_name: String,
        tenant_id: String,
    ) -> (formatter: SutsFormatter)
        ensures
            formatter.service() == (ResourceContext {
                service_name,
                service_version: version,
                service_env: env,
                host_name,
            }),
            formatter.tenant() == tenant_id,
    {
        SutsFormatter {
            resource: ResourceContext {
                service_name,
                service_version: version,
                service_env: env,
                host_name,
            },
            tenant_id,
        }
    }

    /// The record of an event that happened so many seconds and nanoseconds after the
    /// beginning of 1970. `fields` are its fields, and `span` is the number of the span
    /// it happened in, if there is one.
    pub fn format_event(
        &self,
        seconds: i64,
        nanos: u32,
        level: Level,
        fields: JsonVisitor,
        span: Option<u64>,
    ) -> (record: SutsLogRecord)
        requires
            is_instant(seconds, nanos),
        ensures
            record.ts@ == rfc3339(seconds, nanos),
            self.records(level, fields@, span, record),
    {
        self.format_event_at(spell_instant(seconds, nanos), level, fields, span)
    }

    /// The record of an event that happened at `ts`.
    pub fn format_event_at(
        &self,
        ts: String,
        level: Level,
        fields: JsonVisitor,
        span: Option<u64>,
    ) -> (record: SutsLogRecord)
        ensures
            record.ts == ts,
            self.records(level, fields@, span, record),
    {
        proof {
            lemma_special_names();
        }
        let mut attributes = fields;
        let event = match attributes.remove("event") {
            Some(FieldValue::Text(name)) => name,
            _ => "LOG_EVENT".to_owned(),
        };
        let message = match attributes.remove("message") {
            Some(FieldValue::Text(message)) => message,
            _ => String::new(),
        };
        let trace_id = match attributes.text("trace_id") {
            Some(trace) => Some(trace),
            None => attributes.text("sip.call_id"),
        };
        let span_id = match span {
            Some(id) => Some(hexadecimal_text(id)),
            None => None,
        };
        SutsLogRecord {
            schema_v: SCHEMA_VERSION,
            ts,
            severity: level.severity_text(),
            tenant_id: self.tenant_id.clone(),
            resource: ResourceContext {
                service_name: self.resource.service_name.clone(),
                service_version: self.resource.service_version.clone(),
                service_env: self.resource.service_env.clone(),
                host_name: self.resource.host_name.clone(),
            },
            trace_id,
            span_id,
            event,
            message,
            attributes,
        }
    }
}

/// A field other than `event` and `message` is carried over into the attributes as it
/// is, the ones that link records among them.
pub proof fn law_other_fields_are_carried_over(
    fields: Map<Seq<char>, FieldView>,
    name: Seq<char>,
)
    requires
        name != "event"@,
        name != "message"@,
    ensures
        event_attributes(fields).get(name) == fields.get(name),
{
}

/// The event's name and message never show up among the attributes.
pub proof fn law_attributes_omit_name_and_message(fields: Map<Seq<char>, FieldView>)
    ensures
        !event_attributes(fields).dom().contains("event"@),
        !event_attributes(fields).dom().contains("message"@),
{
}

/// Events of one call are linked by its call ID, unless they name a trace of their own.
pub proof fn law_call_id_links_events(
    fields: Map<Seq<char>, FieldView>,
    call_id: Seq<char>,
    trace: Seq<char>,
)
    ensures
        ({
            let of_call = fields.insert("sip.call_id"@, FieldView::Text(call_id));
            &&& event_trace(of_call.remove("trace_id"@)) == Some(call_id)
            &&& event_trace(of_call.insert("trace_id"@, FieldView::Text(trace))) == Some(trace)
        }),
{
    reveal_strlit("trace_id");
    reveal_strlit("sip.call_id");
    assert("trace_id"@.len() != "sip.call_id"@.len());
}

/// The order in which two different fields are recorded does not matter, and of two
/// values for one field the later counts.
pub proof fn law_recording_order(
    fields: Map<Seq<char>, FieldView>,
    a: Seq<char>,
    b: Seq<char>,
    x: FieldView,
    y: FieldView,
)
    ensures
        a != b ==> fields.insert(a, x).insert(b, y) == fields.insert(b, y).insert(a, x),
        fields.insert(a, x).insert(a, y) == fields.insert(a, y),
{
    if a != b {
        assert(fields.insert(a, x).insert(b, y) =~= fields.insert(b, y).insert(a, x));
    }
    assert(fields.insert(a, x).insert(a, y) =~= fields.insert(a, y));
}

/// What a record says of its event. Its name and message are the fields `event` and
/// `message` where those are text, and else `LOG_EVENT` and nothing; neither field is among
/// the attributes, and every other field is, with its value.
pub proof fn law_record_tells_the_event(
    formatter: &SutsFormatter,
    ts: String,
    level: Level,
    fields: JsonVisitor,
    span: Option<u64>,
    record: SutsLogRecord,
)
    requires
        call_ensures(SutsFormatter::format_event_at, (formatter, ts, level, fields, span), record),
    ensures
        match fields@.get("event"@) {
            Some(FieldView::Text(name)) => record.event@ == name,
            _ => record.event@ == "LOG_EVENT"@,
        },
        match fields@.get("message"@) {
            Some(FieldView::Text(message)) => record.message@ == message,
            _ => record.message@.len() == 0,
        },
        forall|name: Seq<char>| #[trigger]
            record.attributes@.get(name) == if name == "event"@ || name == "message"@ {
                None
            } else {
                fields@.get(name)
            },
{
}

/// Where a record comes from and when: the instant it was given, the tenant and the service
/// of the formatter, the layout's version, and the severity of the event's level.
pub proof fn law_record_tells_its_origin(
    formatter: &SutsFormatter,
    ts: String,
    level: Level,
    fields: JsonVisitor,
    span: Option<u64>,
    record: SutsLogRecord,
)
    requires
        call_ensures(SutsFormatter::format_event_at, (formatter, ts, level, fields, span), record),
    ensures
        record.ts@ == ts@,
        record.schema_v@ == seq!['1', '.', '0', '.', '0'],
        record.severity@ == match level {
            Level::Error => seq!['E', 'R', 'R', 'O', 'R'],
            Level::Warn => seq!['W', 'A', 'R', 'N'],
            Level::Info => seq!['I', 'N', 'F', 'O'],
            Level::Debug | Level::Trace => seq!['D', 'E', 'B', 'U', 'G'],
        },
        record.tenant_id@ == formatter.tenant()@,
        record.resource.service_name@ == formatter.service().service_name@,
        record.resource.service_version@ == formatter.service().service_version@,
        record.resource.service_env@ == formatter.service().service_env@,
        record.resource.host_name@ == formatter.service().host_name@,
{
    reveal_strlit("1.0.0");
    reveal_strlit("ERROR");
    reveal_strlit("WARN");
    reveal_strlit("INFO");
    reveal_strlit("DEBUG");
    assert("1.0.0"@ =~= seq!['1', '.', '0', '.', '0']);
    assert("ERROR"@ =~= seq!['E', 'R', 'R', 'O', 'R']);
    assert("WARN"@ =~= seq!['W', 'A', 'R', 'N']);
    assert("INFO"@ =~= seq!['I', 'N', 'F', 'O']);
    assert("DEBUG"@ =~= seq!['D', 'E', 'B', 'U', 'G']);
}

/// What links a record to others: the field `trace_id` where it is text, else the field
/// `sip.call_id` where that is, else nothing; and the span's number in base sixteen, which
/// reads back as the number, where there is a span.
pub proof fn law_record_tells_its_links(
    formatter: &SutsFormatter,
    ts: String,
    level: Level,
    fields: JsonVisitor,
    span: Option<u64>,
    record: SutsLogRecord,
)
    requires
        call_ensures(SutsFormatter::format_event_at, (formatter, ts, level, fields, span), record),
    ensures
        match (fields@.get("trace_id"@), fields@.get("sip.call_id"@)) {
            (Some(FieldView::Text(trace)), _) => record.trace_id is Some && record.trace_id->0@
                == trace,
            (_, Some(FieldView::Text(call_id))) => record.trace_id is Some && record.trace_id->0@
                == call_id,
            _ => record.trace_id is None,
        },
        span is None ==> record.span_id is None,
        span matches Some(id) ==> {
            &&& record.span_id is Some
            &&& record.span_id->0@ == crate::text::hexadecimal(id as nat)
            &&& crate::text::numeral_value(record.span_id->0@, 16) == id
        },
{
    if let Some(id) = span {
        crate::text::law_numeral_reads_back(id as nat, 16);
    }
}

/// Formatting at an instant is formatting at the time that RFC 3339 spells for it: the two
/// records say the same of the event.
pub proof fn law_instant_only_sets_the_time(
    formatter: &SutsFormatter,
    seconds: i64,
    nanos: u32,
    level: Level,
    fields: JsonVisitor,
    span: Option<u64>,
    record: SutsLogRecord,
    ts: String,
    other: SutsLogRecord,
)
    requires
        call_ensures(
            SutsFormatter::format_event,
            (formatter, seconds, nanos, level, fields, span),
            record,
        ),
        call_ensures(SutsFormatter::format_event_at, (formatter, ts, level, fields, span), other),
    ensures
        record.ts@ == rfc3339(seconds, nanos),
        record.schema_v@ == other.schema_v@,
        record.severity@ == other.severity@,
        record.tenant_id == other.tenant_id,
        record.resource == other.resource,
        optional_text(record.trace_id) == optional_text(other.trace_id),
        optional_text(record.span_id) == optional_text(other.span_id),
        record.event@ == other.event@,
        record.message@ == other.message@,
        record.attributes@ == other.attributes@,
{
}

/// Every instant from the beginning of 1970 to the end of the last year that has dates can
/// be formatted.
pub proof fn law_instants_with_a_date_are_accepted(seconds: i64, nanos: u32)
    ensures
        is_instant(seconds, nanos) <==> 0 <= seconds <= 8_210_266_876_799 && nanos < 1_000_000_000,
{
}

/// A text that may be missing is told apart from an empty one.
pub proof fn law_missing_text_is_none(text: Option<String>)
    ensures
        text is None <==> optional_text(text) is None,
        text matches Some(given) ==> optional_text(text) == Some(given@),
{
}

/// A formatter names the service and the tenant that it was made for, each in its place.
pub proof fn law_formatter_names_its_service(
    service_name: String,
    version: String,
    env: String,
    host_name: String,
    tenant_id: String,
    formatter: SutsFormatter,
)
    requires
        call_ensures(
            SutsFormatter::new,
            (service_name, version, env, host_name, tenant_id),
            formatter,
        ),
    ensures
        formatter.service().service_name == service_name,
        formatter.service().service_version == version,
        formatter.service().service_env == env,
        formatter.service().host_name == host_name,
        formatter.tenant() == tenant_id,
{
}

/// Each level is spelled as its severity; traces are spelled as debug output, and no other
/// two levels alike.
pub proof fn law_levels_are_told_apart(
    a: Level,
    b: Level,
    first: &'static str,
    second: &'static str,
)
    requires
        call_ensures(Level::severity_text, (a,), first),
        call_ensures(Level::severity_text, (b,), second),
    ensures
        first@ == second@ <==> a == b || ((a is Debug || a is Trace) && (b is Debug || b is Trace)),
        first@ == a.severity(),
{
    reveal_strlit("ERROR");
    reveal_strlit("WARN");
    reveal_strlit("INFO");
    reveal_strlit("DEBUG");
    assert("ERROR"@[0] == 'E' && "WARN"@[0] == 'W' && "INFO"@[0] == 'I' && "DEBUG"@[0] == 'D');
}

/// Recording a value gives it to its field and to no other, whichever kind of value it is.
pub proof fn law_value_goes_to_its_field(visitor: &mut JsonVisitor, name: &str, value: FieldValue)
    requires
        call_ensures(JsonVisitor::record, (visitor, name, value), ()),
    ensures
        forall|n: Seq<char>| #[trigger]
            final(visitor)@.get(n) == if n == name@ {
                Some(
                    match value {
                        FieldValue::Text(text) => FieldView::Text(text@),
                        FieldValue::Bool(truth) => FieldView::Bool(truth),
                        FieldValue::Int(number) => FieldView::Int(number),
                        FieldValue::Uint(number) => FieldView::Uint(number),
                        FieldValue::Float(bits) => FieldView::Float(bits),
                    },
                )
            } else {
                old(visitor)@.get(n)
            },
{
}

/// Text, printed values and error messages are recorded as text, letter by letter.
pub proof fn law_text_is_recorded_as_text(visitor: &mut JsonVisitor, name: &str, text: &str)
    requires
        ({
            ||| call_ensures(JsonVisitor::record_str, (visitor, name, text), ())
            ||| call_ensures(JsonVisitor::record_debug, (visitor, name, text), ())
            ||| call_ensures(JsonVisitor::record_error, (visitor, name, text), ())
        }),
    ensures
        forall|n: Seq<char>| #[trigger]
            final(visitor)@.get(n) == if n == name@ {
                Some(FieldView::Text(text@))
            } else {
                old(visitor)@.get(n)
            },
{
}

/// A truth value is recorded as it is.
pub proof fn law_truth_is_recorded_as_it_is(visitor: &mut JsonVisitor, name: &str, value: bool)
    requires
        call_ensures(JsonVisitor::record_bool, (visitor, name, value), ()),
    ensures
        forall|n: Seq<char>| #[trigger]
            final(visitor)@.get(n) == if n == name@ {
                Some(FieldView::Bool(value))
            } else {
                old(visitor)@.get(n)
            },
{
}

/// A signed number is recorded as it is.
pub proof fn law_signed_number_is_recorded_as_it_is(
    visitor: &mut JsonVisitor,
    name: &str,
    value: i64,
)
    requires
        call_ensures(JsonVisitor::record_i64, (visitor, name, value), ()),
    ensures
        forall|n: Seq<char>| #[trigger]
            final(visitor)@.get(n) == if n == name@ {
                Some(FieldView::Int(value))
            } else {
                old(visitor)@.get(n)
            },
{
}

/// An unsigned number is recorded as it is.
pub proof fn law_unsigned_number_is_recorded_as_it_is(
    visitor: &mut JsonVisitor,
    name: &str,
    value: u64,
)
    requires
        call_ensures(JsonVisitor::record_u64, (visitor, name, value), ()),
    ensures
        forall|n: Seq<char>| #[trigger]
            final(visitor)@.get(n) == if n == name@ {
                Some(FieldView::Uint(value))
            } else {
                old(visitor)@.get(n)
            },
{
}

/// A floating-point number is recorded bit by bit.
pub proof fn law_float_is_recorded_bit_by_bit(visitor: &mut JsonVisitor, name: &str, bits: u64)
    requires
        call_ensures(JsonVisitor::record_f64, (visitor, name, bits), ()),
    ensures
        forall|n: Seq<char>| #[trigger]
            final(visitor)@.get(n) == if n == name@ {
                Some(FieldView::Float(bits))
            } else {
                old(visitor)@.get(n)
            },
{
}

/// Two calls: what was recorded last for a field is what is taken out, and the field is
/// then gone; a field that was not recorded is not there to be taken out.
pub proof fn law_recorded_value_is_taken_out(
    visitor: &mut JsonVisitor,
    name: &str,
    value: FieldValue,
    later: &mut JsonVisitor,
    wanted: &str,
    taken: Option<FieldValue>,
)
    requires
        call_ensures(JsonVisitor::record, (visitor, name, value), ()),
        later@ == final(visitor)@,
        call_ensures(JsonVisitor::remove, (later, wanted), taken),
    ensures
        wanted@ == name@ ==> taken is Some && taken->0@ == value@,
        wanted@ != name@ ==> (taken is Some <==> old(visitor)@.dom().contains(wanted@)),
        wanted@ != name@ && taken is Some ==> taken->0@ == old(visitor)@[wanted@],
        forall|n: Seq<char>| #[trigger]
            final(later)@.get(n) == if n == wanted@ {
                None
            } else {
                old(later)@.get(n)
            },
{
}

/// The text of a field is found if the field is there and holds text, and else nothing is.
pub proof fn law_text_is_found_only_in_text(
    visitor: &JsonVisitor,
    name: &str,
    text: Option<String>,
)
    requires
        call_ensures(JsonVisitor::text, (visitor, name), text),
    ensures
        text is Some <==> visitor@.dom().contains(name@) && visitor@[name@] is Text,
        text matches Some(found) ==> visitor@[name@] == FieldView::Text(found@),
        text_of(visitor@, name@) == optional_text(text),
{
}

/// The entries are the fields, each once and with its value, and there are no others.
pub proof fn law_entries_are_the_fields(visitor: JsonVisitor, entries: Vec<(String, FieldValue)>)
    requires
        call_ensures(JsonVisitor::into_entries, (visitor,), entries),
    ensures
        forall|i: int, j: int|
            0 <= i < j < entries@.len() ==> (#[trigger] entries@[i]).0@ != (
            #[trigger] entries@[j]).0@,
        forall|i: int|
            0 <= i < entries@.len() ==> visitor@.get((#[trigger] entries@[i]).0@) == Some(
                entries@[i].1@,
            ),
        forall|name: Seq<char>| #[trigger]
            visitor@.dom().contains(name) ==> exists|i: int|
                0 <= i < entries@.len() && (#[trigger] entries@[i]).0@ == name,
{
    lemma_field_map(entries@);
}

/// A new visitor has no fields.
pub proof fn law_new_visitor_is_empty(visitor: JsonVisitor)
    requires
        call_ensures(<JsonVisitor as Default>::default, (), visitor),
    ensures
        forall|name: Seq<char>| !#[trigger] visitor@.dom().contains(name),
{
}

} // verus!
