//! Application events, and how they are written as payload trees.
//!
//! An event is a table of two entries, `id` and `type`. The type is a table of
//! one entry whose key names the kind of event and whose value is the array of
//! its fields. The result carried by a response is a table of one entry, `Ok`
//! with the value or `Err` with a table of `code` and `message`.
use vstd::prelude::*;
use crate::error::{JuntaError, JuntaResult};
use crate::message::{Content, MessageContent};
use crate::value::{
    encoded, entry_trees, reading, refused, trees, unread, Entry, Payload, Tree,
};

verus! {

/// What a response carries: a value, or the reason why there is none.
#[derive(PartialEq, Eq, Debug)]
pub enum ResResult<I, E> {
    Failure(E),
    Success(I),
}

impl<I: View, E: View> View for ResResult<I, E> {
    type V = ResResult<I::V, E::V>;

    open spec fn view(&self) -> ResResult<I::V, E::V> {
        match self {
            ResResult::Failure(e) => ResResult::Failure(e@),
            ResResult::Success(i) => ResResult::Success(i@),
        }
    }
}

/// The failure that a response conveys.
#[derive(PartialEq, Eq, Debug)]
pub struct ResError {
    pub code: i16,
    pub message: String,
}

/// The mathematical value of a [`ResError`].
pub struct Failure {
    pub code: i16,
    pub message: Seq<char>,
}

impl View for ResError {
    type V = Failure;

    open spec fn view(&self) -> Failure {
        Failure { code: self.code, message: self.message@ }
    }
}

impl Clone for ResError {
    fn clone(&self) -> (copy: ResError)
        ensures
            copy@ == self@,
    {
        ResError { code: self.code, message: self.message.clone() }
    }
}

impl ResError {
    /// A failure with the given message and the code 0.
    pub fn new(msg: String) -> (error: ResError)
        ensures
            error@ == (Failure { code: 0, message: msg@ }),
    {
        ResError { code: 0, message: msg }
    }

    /// The message, as a peer or a log gets it.
    pub fn to_text(&self) -> (text: String)
        ensures
            text@ == self@.message,
    {
        self.message.clone()
    }
}

/// The kinds of event, each with its fields.
#[derive(PartialEq, Eq, Debug)]
pub enum EventType {
    Pub(String, Payload),
    Sub(String),
    Unsub(String),
    Req(String, Payload),
    Res(String, ResResult<Payload, ResError>),
}

/// The mathematical value of an [`EventType`].
pub enum Kind {
    Pub(Seq<char>, Tree),
    Sub(Seq<char>),
    Unsub(Seq<char>),
    Req(Seq<char>, Tree),
    Res(Seq<char>, ResResult<Tree, Failure>),
}

impl View for EventType {
    type V = Kind;

    open spec fn view(&self) -> Kind {
        match self {
            EventType::Pub(name, value) => Kind::Pub(name@, value@),
            EventType::Sub(name) => Kind::Sub(name@),
            EventType::Unsub(name) => Kind::Unsub(name@),
            EventType::Req(name, value) => Kind::Req(name@, value@),
            EventType::Res(name, result) => Kind::Res(name@, result@),
        }
    }
}

/// One application event.
#[derive(PartialEq, Eq, Debug)]
pub struct Event {
    /// Correlates a response with its request.
    pub id: usize,
    pub event_type: EventType,
}

/// The mathematical value of an [`Event`].
pub struct Envelope {
    pub id: usize,
    pub kind: Kind,
}

impl View for Event {
    type V = Envelope;

    open spec fn view(&self) -> Envelope {
        Envelope { id: self.id, kind: self.event_type@ }
    }
}

/// A table of one entry.
pub open spec fn tagged(tag: Seq<char>, body: Tree) -> Tree {
    Tree::Object(seq![(Tree::Text(tag), body)])
}

/// The tag and the body of a table of one entry whose key is a text.
pub open spec fn untagged(tree: Tree) -> Option<(Seq<char>, Tree)> {
    match tree {
        Tree::Object(entries) => if entries.len() == 1 && entries[0].0 is Text {
            Some((entries[0].0->Text_0, entries[0].1))
        } else {
            None
        },
        _ => None,
    }
}

impl Failure {
    /// How a failure is written.
    pub open spec fn tree(self) -> Tree {
        Tree::Object(
            seq![
                (Tree::Text("code"@), Tree::Integer(self.code as int)),
                (Tree::Text("message"@), Tree::Text(self.message)),
            ],
        )
    }

    /// The failure that a tree writes, if it writes one.
    pub open spec fn parse(tree: Tree) -> Option<Failure> {
        match tree {
            Tree::Object(entries) => if entries.len() == 2 && entries[0].0 == Tree::Text("code"@)
                && entries[0].1 is Integer && i16::MIN <= entries[0].1->Integer_0 <= i16::MAX
                && entries[1].0 == Tree::Text("message"@) && entries[1].1 is Text {
                Some(
                    Failure {
                        code: entries[0].1->Integer_0 as i16,
                        message: entries[1].1->Text_0,
                    },
                )
            } else {
                None
            },
            _ => None,
        }
    }
}

/// How the result of a response is written.
pub open spec fn result_tree(result: ResResult<Tree, Failure>) -> Tree {
    match result {
        ResResult::Success(value) => tagged("Ok"@, value),
        ResResult::Failure(failure) => tagged("Err"@, failure.tree()),
    }
}

/// The result that a tree writes, if it writes one.
pub open spec fn parse_result(tree: Tree) -> Option<ResResult<Tree, Failure>> {
    match untagged(tree) {
        Some((tag, body)) => if tag == "Ok"@ {
            Some(ResResult::Success(body))
        } else if tag == "Err"@ {
            match Failure::parse(body) {
                Some(failure) => Some(ResResult::Failure(failure)),
                None => None,
            }
        } else {
            None
        },
        None => None,
    }
}

impl Kind {
    /// How a kind of event is written.
    pub open spec fn tree(self) -> Tree {
        match self {
            Kind::Pub(name, value) => tagged("Pub"@, Tree::Array(seq![Tree::Text(name), value])),
            Kind::Sub(name) => tagged("Sub"@, Tree::Array(seq![Tree::Text(name)])),
            Kind::Unsub(name) => tagged("Unsub"@, Tree::Array(seq![Tree::Text(name)])),
            Kind::Req(name, value) => tagged("Req"@, Tree::Array(seq![Tree::Text(name), value])),
            Kind::Res(name, result) => tagged(
                "Res"@,
                Tree::Array(seq![Tree::Text(name), result_tree(result)]),
            ),
        }
    }

    /// The kind that a tag and its fields write, if they write one.
    pub open spec fn of_fields(tag: Seq<char>, fields: Seq<Tree>) -> Option<Kind> {
        if fields.len() == 0 || !(fields[0] is Text) {
            None
        } else if tag == "Pub"@ && fields.len() == 2 {
            Some(Kind::Pub(fields[0]->Text_0, fields[1]))
        } else if tag == "Sub"@ && fields.len() == 1 {
            Some(Kind::Sub(fields[0]->Text_0))
        } else if tag == "Unsub"@ && fields.len() == 1 {
            Some(Kind::Unsub(fields[0]->Text_0))
        } else if tag == "Req"@ && fields.len() == 2 {
            Some(Kind::Req(fields[0]->Text_0, fields[1]))
        } else if tag == "Res"@ && fields.len() == 2 {
            match parse_result(fields[1]) {
                Some(result) => Some(Kind::Res(fields[0]->Text_0, result)),
                None => None,
            }
        } else {
            None
        }
    }

    /// The kind that a tree writes, if it writes one.
    pub open spec fn parse(tree: Tree) -> Option<Kind> {
        match untagged(tree) {
            Some((tag, Tree::Array(fields))) => Kind::of_fields(tag, fields),
            _ => None,
        }
    }
}

impl Envelope {
    /// How an event is written.
    pub open spec fn tree(self) -> Tree {
        Tree::Object(
            seq![
                (Tree::Text("id"@), Tree::Integer(self.id as int)),
                (Tree::Text("type"@), self.kind.tree()),
            ],
        )
    }

    /// The event that a tree writes, if it writes one.
    pub open spec fn parse(tree: Tree) -> Option<Envelope> {
        match tree {
            Tree::Object(entries) => if entries.len() == 2 && entries[0].0 == Tree::Text("id"@)
                && entries[0].1 is Integer && 0 <= entries[0].1->Integer_0 <= usize::MAX
                && entries[1].0 == Tree::Text("type"@) {
                match Kind::parse(entries[1].1) {
                    Some(kind) => Some(Envelope { id: entries[0].1->Integer_0 as usize, kind }),
                    None => None,
                }
            } else {
                None
            },
            _ => None,
        }
    }
}

/// The tags of the five kinds of event and of the two results are pairwise
/// distinct where the grammar has to tell them apart.
proof fn lemma_tags_differ()
    ensures
        "Pub"@ != "Sub"@,
        "Pub"@ != "Unsub"@,
        "Pub"@ != "Req"@,
        "Pub"@ != "Res"@,
        "Sub"@ != "Unsub"@,
        "Sub"@ != "Req"@,
        "Sub"@ != "Res"@,
        "Unsub"@ != "Req"@,
        "Unsub"@ != "Res"@,
        "Req"@ != "Res"@,
        "Ok"@ != "Err"@,
{
    reveal_strlit("Pub");
    reveal_strlit("Sub");
    reveal_strlit("Unsub");
    reveal_strlit("Req");
    reveal_strlit("Res");
    reveal_strlit("Ok");
    reveal_strlit("Err");
    assert("Pub"@[0] != "Sub"@[0]);
    assert("Pub"@[0] != "Unsub"@[0]);
    assert("Pub"@[0] != "Req"@[0]);
    assert("Pub"@[0] != "Res"@[0]);
    assert("Sub"@[0] != "Unsub"@[0]);
    assert("Sub"@[0] != "Req"@[0]);
    assert("Sub"@[0] != "Res"@[0]);
    assert("Unsub"@[0] != "Req"@[0]);
    assert("Unsub"@[0] != "Res"@[0]);
    assert("Req"@[2] != "Res"@[2]);
    assert("Ok"@[0] != "Err"@[0]);
}

/// Reading what was written gives the failure back.
pub proof fn lemma_failure_round_trip(failure: Failure)
    ensures
        Failure::parse(failure.tree()) == Some(failure),
{
}

/// Reading what was written gives the result back.
pub proof fn lemma_result_round_trip(result: ResResult<Tree, Failure>)
    ensures
        parse_result(result_tree(result)) == Some(result),
{
    lemma_tags_differ();
    match result {
        ResResult::Success(value) => {},
        ResResult::Failure(failure) => {
            lemma_failure_round_trip(failure);
        },
    }
}

/// Reading what was written gives the kind of event back.
pub proof fn lemma_kind_round_trip(kind: Kind)
    ensures
        Kind::parse(kind.tree()) == Some(kind),
{
    lemma_tags_differ();
    match kind {
        Kind::Res(name, result) => {
            lemma_result_round_trip(result);
        },
        _ => {},
    }
}

/// Decoding the encoding of an event gives the event back: reading the tree
/// that an event is written as yields that event, whatever its payload.
pub proof fn lemma_event_round_trip(event: Envelope)
    ensures
        Envelope::parse(event.tree()) == Some(event),
{
    lemma_kind_round_trip(event.kind);
}

/// A tree is read as a failure only if it is what that failure is written as.
pub proof fn lemma_failure_parse_exact(tree: Tree, failure: Failure)
    requires
        Failure::parse(tree) == Some(failure),
    ensures
        tree == failure.tree(),
{
    assert(tree->Object_0 =~= failure.tree()->Object_0);
}

/// A tree is read as a result only if it is what that result is written as.
pub proof fn lemma_result_parse_exact(tree: Tree, result: ResResult<Tree, Failure>)
    requires
        parse_result(tree) == Some(result),
    ensures
        tree == result_tree(result),
{
    let (tag, body) = untagged(tree)->Some_0;
    match result {
        ResResult::Success(value) => {
            assert(tree->Object_0 =~= result_tree(result)->Object_0);
        },
        ResResult::Failure(failure) => {
            lemma_failure_parse_exact(body, failure);
            assert(tree->Object_0 =~= result_tree(result)->Object_0);
        },
    }
}

/// A tree is read as a kind of event only if it is what that kind is written
/// as.
pub proof fn lemma_kind_parse_exact(tree: Tree, kind: Kind)
    requires
        Kind::parse(tree) == Some(kind),
    ensures
        tree == kind.tree(),
{
    let (tag, body) = untagged(tree)->Some_0;
    let fields = body->Array_0;
    match kind {
        Kind::Res(name, result) => {
            lemma_result_parse_exact(fields[1], result);
        },
        _ => {},
    }
    assert(fields =~= kind.tree()->Object_0[0].1->Array_0);
    assert(tree->Object_0 =~= kind.tree()->Object_0);
}

/// Decoding succeeds on the encodings of events and on nothing else: a tree
/// is read as an event only if it is exactly what that event is written as.
pub proof fn lemma_event_parse_exact(tree: Tree, event: Envelope)
    requires
        Envelope::parse(tree) == Some(event),
    ensures
        tree == event.tree(),
{
    lemma_kind_parse_exact(tree->Object_0[1].1, event.kind);
    assert(tree->Object_0 =~= event.tree()->Object_0);
}

/// Writes a table of one entry.
fn wrap(tag: &str, body: Payload) -> (payload: Payload)
    ensures
        payload@ == tagged(tag@, body@),
{
    let mut entries: Vec<Entry> = Vec::new();
    entries.push(Entry { key: Payload::text(tag), value: body });
    let payload = Payload::object(entries);
    assert(payload@->Object_0 =~= tagged(tag@, body@)->Object_0);
    payload
}

/// Writes a table of two entries.
fn record(first: &str, a: Payload, second: &str, b: Payload) -> (payload: Payload)
    ensures
        payload@ == Tree::Object(seq![(Tree::Text(first@), a@), (Tree::Text(second@), b@)]),
{
    let mut entries: Vec<Entry> = Vec::new();
    entries.push(Entry { key: Payload::text(first), value: a });
    entries.push(Entry { key: Payload::text(second), value: b });
    let payload = Payload::object(entries);
    assert(payload@->Object_0 =~= seq![(Tree::Text(first@), a@), (Tree::Text(second@), b@)]);
    payload
}

/// Writes the fields of an event that has a name only.
fn named(name: String) -> (payload: Payload)
    ensures
        payload@ == Tree::Array(seq![Tree::Text(name@)]),
{
    let mut items: Vec<Payload> = Vec::new();
    items.push(Payload::Text(name));
    let payload = Payload::array(items);
    assert(payload@->Array_0 =~= seq![Tree::Text(name@)]);
    payload
}

/// Writes the fields of an event that has a name and a value.
fn named_with(name: String, value: Payload) -> (payload: Payload)
    ensures
        payload@ == Tree::Array(seq![Tree::Text(name@), value@]),
{
    let mut items: Vec<Payload> = Vec::new();
    items.push(Payload::Text(name));
    items.push(value);
    let payload = Payload::array(items);
    assert(payload@->Array_0 =~= seq![Tree::Text(name@), value@]);
    payload
}

/// Takes a table of one entry apart.
fn unwrap_one(payload: Payload) -> (out: Option<Entry>)
    ensures
        match out {
            Some(entry) => payload@ == Tree::Object(seq![(entry.key@, entry.value@)]),
            None => !(payload@ is Object && payload@->Object_0.len() == 1),
        },
{
    match payload.into_object() {
        Ok(mut entries) => {
            if entries.len() != 1 {
                return None;
            }
            let ghost before = entries@;
            let entry = entries.pop().unwrap();
            assert(entry_trees(before) =~= seq![(entry.key@, entry.value@)]);
            Some(entry)
        },
        Err(_) => None,
    }
}

/// Takes a table of two entries apart.
fn unwrap_two(payload: Payload) -> (out: Option<(Entry, Entry)>)
    ensures
        match out {
            Some((a, b)) => payload@ == Tree::Object(seq![(a.key@, a.value@), (b.key@, b.value@)]),
            None => !(payload@ is Object && payload@->Object_0.len() == 2),
        },
{
    match payload.into_object() {
        Ok(mut entries) => {
            if entries.len() != 2 {
                return None;
            }
            let ghost before = entries@;
            let b = entries.pop().unwrap();
            let a = entries.pop().unwrap();
            assert(entry_trees(before) =~= seq![(a.key@, a.value@), (b.key@, b.value@)]);
            Some((a, b))
        },
        Err(_) => None,
    }
}

/// The text that a payload is, if it is one.
fn into_text(payload: Payload) -> (out: Option<String>)
    ensures
        match out {
            Some(text) => payload@ == Tree::Text(text@),
            None => !(payload@ is Text),
        },
{
    match payload {
        Payload::Text(text) => Some(text),
        _ => None,
    }
}

impl ResError {
    /// Writes the failure as a payload.
    pub fn to_value(self) -> (payload: Payload)
        ensures
            payload@ == self@.tree(),
    {
        record("code", Payload::Integer(self.code as i128), "message", Payload::Text(self.message))
    }

    /// Reads a failure from a payload.
    pub fn from_value(payload: Payload) -> (out: Option<ResError>)
        ensures
            match out {
                Some(error) => Failure::parse(payload@) == Some(error@),
                None => Failure::parse(payload@) is None,
            },
    {
        let (first, second) = match unwrap_two(payload) {
            Some(entries) => entries,
            None => { return None; },
        };
        if !first.key.is_text("code") || !second.key.is_text("message") {
            return None;
        }
        let code = match first.value {
            Payload::Integer(code) => code,
            _ => { return None; },
        };
        if code < i16::MIN as i128 || code > i16::MAX as i128 {
            return None;
        }
        match into_text(second.value) {
            Some(message) => Some(ResError { code: code as i16, message }),
            None => None,
        }
    }
}

/// Writes the result of a response as a payload.
pub fn result_to_value(result: ResResult<Payload, ResError>) -> (payload: Payload)
    ensures
        payload@ == result_tree(result@),
{
    match result {
        ResResult::Success(value) => wrap("Ok", value),
        ResResult::Failure(error) => wrap("Err", error.to_value()),
    }
}

/// Reads the result of a response from a payload.
pub fn result_from_value(payload: Payload) -> (out: Option<ResResult<Payload, ResError>>)
    ensures
        match out {
            Some(result) => parse_result(payload@) == Some(result@),
            None => parse_result(payload@) is None,
        },
{
    let entry = match unwrap_one(payload) {
        Some(entry) => entry,
        None => { return None; },
    };
    if entry.key.is_text("Ok") {
        Some(ResResult::Success(entry.value))
    } else if entry.key.is_text("Err") {
        match ResError::from_value(entry.value) {
            Some(error) => Some(ResResult::Failure(error)),
            None => None,
        }
    } else {
        None
    }
}

impl EventType {
    /// Writes the kind of event as a payload.
    pub fn to_value(self) -> (payload: Payload)
        ensures
            payload@ == self@.tree(),
    {
        match self {
            EventType::Pub(name, value) => wrap("Pub", named_with(name, value)),
            EventType::Sub(name) => wrap("Sub", named(name)),
            EventType::Unsub(name) => wrap("Unsub", named(name)),
            EventType::Req(name, value) => wrap("Req", named_with(name, value)),
            EventType::Res(name, result) => wrap("Res", named_with(name, result_to_value(result))),
        }
    }

    /// Reads a kind of event from a payload.
    pub fn from_value(payload: Payload) -> (out: Option<EventType>)
        ensures
            match out {
                Some(kind) => Kind::parse(payload@) == Some(kind@),
                None => Kind::parse(payload@) is None,
            },
    {
        let entry = match unwrap_one(payload) {
            Some(entry) => entry,
            None => { return None; },
        };
        let ghost tag_tree = entry.key@;
        let ghost body = entry.value@;
        let mut fields = match entry.value.into_array() {
            Ok(fields) => fields,
            Err(_) => { return None; },
        };
        let ghost all = trees(fields@);
        if fields.len() == 1 {
            let name = match into_text(fields.pop().unwrap()) {
                Some(name) => name,
                None => { return None; },
            };
            if entry.key.is_text("Sub") {
                proof {
                    lemma_tags_differ();
                }
                Some(EventType::Sub(name))
            } else if entry.key.is_text("Unsub") {
                proof {
                    lemma_tags_differ();
                }
                Some(EventType::Unsub(name))
            } else {
                None
            }
        } else if fields.len() == 2 {
            let second = fields.pop().unwrap();
            let name = match into_text(fields.pop().unwrap()) {
                Some(name) => name,
                None => { return None; },
            };
            proof {
                lemma_tags_differ();
            }
            if entry.key.is_text("Pub") {
                Some(EventType::Pub(name, second))
            } else if entry.key.is_text("Req") {
                Some(EventType::Req(name, second))
            } else if entry.key.is_text("Res") {
                match result_from_value(second) {
                    Some(result) => Some(EventType::Res(name, result)),
                    None => None,
                }
            } else {
                None
            }
        } else {
            None
        }
    }
}

impl Clone for EventType {
    fn clone(&self) -> (copy: EventType)
        ensures
            copy@ == self@,
    {
        match self {
            EventType::Pub(name, value) => EventType::Pub(name.clone(), value.duplicate()),
            EventType::Sub(name) => EventType::Sub(name.clone()),
            EventType::Unsub(name) => EventType::Unsub(name.clone()),
            EventType::Req(name, value) => EventType::Req(name.clone(), value.duplicate()),
            EventType::Res(name, ResResult::Success(value)) => EventType::Res(
                name.clone(),
                ResResult::Success(value.duplicate()),
            ),
            EventType::Res(name, ResResult::Failure(error)) => EventType::Res(
                name.clone(),
                ResResult::Failure(error.clone()),
            ),
        }
    }
}

impl Clone for Event {
    fn clone(&self) -> (copy: Event)
        ensures
            copy@ == self@,
    {
        Event { id: self.id, event_type: self.event_type.clone() }
    }
}

/// The event that the content of a data frame carries, if it carries one.
pub open spec fn decoded(content: Content) -> Option<Envelope> {
    match reading(content) {
        Ok(Some(tree)) => Envelope::parse(tree),
        _ => None,
    }
}

/// Why content was not decoded as an event. Content that is a payload and no
/// event gives an error that says so; any other content gives the encoding
/// error that decoding it as a payload gives.
pub open spec fn undecoded(content: Content, error: JuntaError) -> bool {
    if reading(content) matches Ok(Some(_)) {
        error.is_unknown(not_an_event())
    } else {
        unread(content, error)
    }
}

/// The message of the error for content that is well formed and is no event.
pub open spec fn not_an_event() -> Seq<char> {
    "not an event"@
}

impl Event {
    pub fn new(id: usize, event_type: EventType) -> (event: Event)
        ensures
            event.id == id,
            event.event_type == event_type,
    {
        Event { id, event_type }
    }

    /// Writes the event as a payload.
    pub fn to_value(self) -> (payload: Payload)
        ensures
            payload@ == self@.tree(),
    {
        record("id", Payload::Integer(self.id as i128), "type", self.event_type.to_value())
    }

    /// Reads an event from a payload: `Some` exactly for the payloads that
    /// [`Event::to_value`] writes.
    pub fn from_value(payload: Payload) -> (out: Option<Event>)
        ensures
            match out {
                Some(event) => Envelope::parse(payload@) == Some(event@),
                None => Envelope::parse(payload@) is None,
            },
    {
        let (first, second) = match unwrap_two(payload) {
            Some(entries) => entries,
            None => { return None; },
        };
        if !first.key.is_text("id") || !second.key.is_text("type") {
            return None;
        }
        let id = match first.value {
            Payload::Integer(id) => id,
            _ => { return None; },
        };
        if id < 0 || id > usize::MAX as i128 {
            return None;
        }
        match EventType::from_value(second.value) {
            Some(event_type) => Some(Event { id: id as usize, event_type }),
            None => None,
        }
    }

    /// Decodes the content of a data frame: CBOR if it is binary, JSON if it
    /// is text.
    pub fn try_from(msg: &MessageContent) -> (out: JuntaResult<Event>)
        ensures
            match out {
                Ok(event) => decoded(msg@) == Some(event@),
                Err(error) => decoded(msg@) is None && undecoded(msg@, error),
            },
    {
        match Payload::decode(msg) {
            Ok(payload) => match Event::from_value(payload) {
                Some(event) => Ok(event),
                None => Err(JuntaError::unknown("not an event")),
            },
            Err(error) => Err(error),
        }
    }

    /// Encodes the event as CBOR, for a binary frame.
    pub fn to_binary(&self) -> (out: JuntaResult<Vec<u8>>)
        ensures
            match out {
                Ok(bytes) => encoded(self@.tree(), true) == Some(Content::Binary(bytes@)),
                Err(error) => encoded(self@.tree(), true) is None && refused(
                    self@.tree(),
                    true,
                    error,
                ),
            },
    {
        self.clone().to_value().to_binary()
    }

    /// Encodes the event as JSON, for a text frame.
    pub fn to_text(&self) -> (out: JuntaResult<String>)
        ensures
            match out {
                Ok(text) => encoded(self@.tree(), false) == Some(Content::Text(text@)),
                Err(error) => encoded(self@.tree(), false) is None && refused(
                    self@.tree(),
                    false,
                    error,
                ),
            },
    {
        self.clone().to_value().to_text()
    }

    /// Encodes the event as the content of a data frame: CBOR for a binary
    /// frame, JSON for a text frame. Every failure is an encoding error.
    pub fn encode(self, binary: bool) -> (out: JuntaResult<MessageContent>)
        ensures
            match out {
                Ok(content) => encoded(self@.tree(), binary) == Some(content@),
                Err(error) => encoded(self@.tree(), binary) is None && refused(
                    self@.tree(),
                    binary,
                    error,
                ),
            },
    {
        self.to_value().encode(binary)
    }
}

} // verus!
