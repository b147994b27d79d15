//! Loosely typed payload values, and the two codecs that turn them into the
//! bytes of a binary frame (CBOR) or the text of a text frame (JSON).
use vstd::prelude::*;
use crate::error::{JuntaError, JuntaResult};
use crate::message::{Content, MessageContent};

verus! {

/// Declares the value tree of `serde_cbor`, which both codecs read and write.
#[verifier::external_type_specification]
#[verifier::external_body]
pub struct ExCborValue(serde_cbor::Value);

/// A payload: any value that both wire formats can carry.
///
/// Floating point numbers and tagged values are not represented; a frame that
/// holds one does not decode.
#[derive(Debug, PartialEq, Eq)]
pub enum Payload {
    Null,
    Bool(bool),
    Integer(i128),
    Bytes(Vec<u8>),
    Text(String),
    Array(Vec<Payload>),
    /// Entries of a key/value table, in the order in which they are written.
    Object(Vec<Entry>),
}

/// One entry of a table.
#[derive(Debug, PartialEq, Eq)]
pub struct Entry {
    pub key: Payload,
    pub value: Payload,
}

/// The mathematical value that a [`Payload`] stands for.
pub enum Tree {
    Null,
    Bool(bool),
    Integer(int),
    Bytes(Seq<u8>),
    Text(Seq<char>),
    Array(Seq<Tree>),
    Object(Seq<(Tree, Tree)>),
}

impl Payload {
    /// The tree that this value stands for.
    pub open spec fn tree(self) -> Tree
        decreases self,
    {
        match self {
            Payload::Null => Tree::Null,
            Payload::Bool(b) => Tree::Bool(b),
            Payload::Integer(i) => Tree::Integer(i as int),
            Payload::Bytes(b) => Tree::Bytes(b@),
            Payload::Text(s) => Tree::Text(s@),
            Payload::Array(a) => Tree::Array(
                Seq::new(
                    a.len() as nat,
                    |i: int|
                        if 0 <= i < a.len() {
                            a[i].tree()
                        } else {
                            Tree::Null
                        },
                ),
            ),
            Payload::Object(m) => Tree::Object(
                Seq::new(
                    m.len() as nat,
                    |i: int|
                        if 0 <= i < m.len() {
                            (m[i].key.tree(), m[i].value.tree())
                        } else {
                            (Tree::Null, Tree::Null)
                        },
                ),
            ),
        }
    }
}

impl View for Payload {
    type V = Tree;

    open spec fn view(&self) -> Tree {
        self.tree()
    }
}

/// The least integer that CBOR can carry.
pub open spec fn integer_floor() -> int {
    -0x1_0000_0000_0000_0000
}

/// The greatest integer that CBOR can carry.
pub open spec fn integer_ceiling() -> int {
    0xffff_ffff_ffff_ffff
}

/// Every integer anywhere in the tree lies within what CBOR can carry.
pub open spec fn in_range(tree: Tree) -> bool
    decreases tree,
{
    match tree {
        Tree::Integer(i) => integer_floor() <= i <= integer_ceiling(),
        Tree::Array(items) => forall|i: int| 0 <= i < items.len() ==> in_range(#[trigger] items[i]),
        Tree::Object(entries) => forall|i: int|
            0 <= i < entries.len() ==> in_range((#[trigger] entries[i]).0) && in_range(
                entries[i].1,
            ),
        _ => true,
    }
}

impl Payload {
    /// A copy that stands for the same tree.
    pub fn duplicate(&self) -> (copy: Payload)
        ensures
            copy@ == self@,
        decreases self,
    {
        match self {
            Payload::Null => Payload::Null,
            Payload::Bool(b) => Payload::Bool(*b),
            Payload::Integer(i) => Payload::Integer(*i),
            Payload::Bytes(b) => Payload::Bytes(b.clone()),
            Payload::Text(s) => Payload::Text(s.clone()),
            Payload::Array(items) => {
                let mut copies: Vec<Payload> = Vec::new();
                let mut k: usize = 0;
                while k < items.len()
                    invariant
                        k <= items.len(),
                        copies.len() == k,
                        *self == Payload::Array(*items),
                        decreases_to!(*self => *items),
                        forall|i: int| 0 <= i < k ==> (#[trigger] copies[i])@ == items[i]@,
                    decreases items.len() - k,
                {
                    assert(decreases_to!(*items => items[k as int]));
                    let item = items[k].duplicate();
                    copies.push(item);
                    k += 1;
                }
                let copy = Payload::Array(copies);
                assert(copy@->Array_0 =~= self@->Array_0);
                copy
            },
            Payload::Object(entries) => {
                let mut copies: Vec<Entry> = Vec::new();
                let mut k: usize = 0;
                while k < entries.len()
                    invariant
                        k <= entries.len(),
                        copies.len() == k,
                        *self == Payload::Object(*entries),
                        decreases_to!(*self => *entries),
                        forall|i: int|
                            0 <= i < k ==> (#[trigger] copies[i]).key@ == entries[i].key@
                                && copies[i].value@ == entries[i].value@,
                    decreases entries.len() - k,
                {
                    assert(decreases_to!(*entries => entries[k as int]));
                    let key = entries[k].key.duplicate();
                    let item = entries[k].value.duplicate();
                    copies.push(Entry { key, value: item });
                    k += 1;
                }
                let copy = Payload::Object(copies);
                assert(copy@->Object_0 =~= self@->Object_0);
                copy
            },
        }
    }

    /// Tells whether every integer in the value can be written as CBOR.
    pub fn in_range(&self) -> (b: bool)
        ensures
            b == in_range(self@),
        decreases self,
    {
        match self {
            Payload::Integer(i) => -0x1_0000_0000_0000_0000 <= *i && *i <= 0xffff_ffff_ffff_ffff,
            Payload::Array(items) => {
                let mut k: usize = 0;
                while k < items.len()
                    invariant
                        k <= items.len(),
                        *self == Payload::Array(*items),
                        forall|i: int| 0 <= i < k ==> in_range(#[trigger] self@->Array_0[i]),
                    decreases items.len() - k,
                {
                    assert(decreases_to!(*items => items[k as int]));
                    if !items[k].in_range() {
                        assert(!in_range(self@->Array_0[k as int]));
                        return false;
                    }
                    k += 1;
                }
                true
            },
            Payload::Object(entries) => {
                let mut k: usize = 0;
                while k < entries.len()
                    invariant
                        k <= entries.len(),
                        *self == Payload::Object(*entries),
                        forall|i: int|
                            0 <= i < k ==> in_range((#[trigger] self@->Object_0[i]).0) && in_range(
                                self@->Object_0[i].1,
                            ),
                    decreases entries.len() - k,
                {
                    assert(decreases_to!(*entries => entries[k as int]));
                    if !entries[k].key.in_range() || !entries[k].value.in_range() {
                        assert(!(in_range(self@->Object_0[k as int].0) && in_range(
                            self@->Object_0[k as int].1,
                        )));
                        return false;
                    }
                    k += 1;
                }
                true
            },
            _ => true,
        }
    }
}

/// The trees of a sequence of payloads, one for one.
pub open spec fn trees(items: Seq<Payload>) -> Seq<Tree> {
    Seq::new(items.len(), |i: int| items[i]@)
}

/// The key and value trees of a sequence of entries, one for one.
pub open spec fn entry_trees(entries: Seq<Entry>) -> Seq<(Tree, Tree)> {
    Seq::new(entries.len(), |i: int| (entries[i].key@, entries[i].value@))
}

/// An array stands for the array of the trees of its items.
pub proof fn lemma_array_tree(items: Vec<Payload>)
    ensures
        Payload::Array(items)@ == Tree::Array(trees(items@)),
{
    assert(Payload::Array(items)@->Array_0 =~= trees(items@));
}

/// A table stands for the sequence of the trees of its entries.
pub proof fn lemma_object_tree(entries: Vec<Entry>)
    ensures
        Payload::Object(entries)@ == Tree::Object(entry_trees(entries@)),
{
    assert(Payload::Object(entries)@->Object_0 =~= entry_trees(entries@));
}

impl Payload {
    /// A text value.
    pub fn text(text: &str) -> (payload: Payload)
        ensures
            payload@ == Tree::Text(text@),
    {
        Payload::Text(text.to_owned())
    }

    /// An array of the given items.
    pub fn array(items: Vec<Payload>) -> (payload: Payload)
        ensures
            payload@ == Tree::Array(trees(items@)),
    {
        proof {
            lemma_array_tree(items);
        }
        Payload::Array(items)
    }

    /// A table of the given entries.
    pub fn object(entries: Vec<Entry>) -> (payload: Payload)
        ensures
            payload@ == Tree::Object(entry_trees(entries@)),
    {
        proof {
            lemma_object_tree(entries);
        }
        Payload::Object(entries)
    }

    /// The items of an array, or the value itself where it is none.
    pub fn into_array(self) -> (out: Result<Vec<Payload>, Payload>)
        ensures
            match out {
                Ok(items) => self@ == Tree::Array(trees(items@)),
                Err(same) => same == self && !(self@ is Array),
            },
    {
        match self {
            Payload::Array(items) => {
                proof {
                    lemma_array_tree(items);
                }
                Ok(items)
            },
            other => Err(other),
        }
    }

    /// The entries of a table, or the value itself where it is none.
    pub fn into_object(self) -> (out: Result<Vec<Entry>, Payload>)
        ensures
            match out {
                Ok(entries) => self@ == Tree::Object(entry_trees(entries@)),
                Err(same) => same == self && !(self@ is Object),
            },
    {
        match self {
            Payload::Object(entries) => {
                proof {
                    lemma_object_tree(entries);
                }
                Ok(entries)
            },
            other => Err(other),
        }
    }

    /// Tells whether the value is exactly the given text.
    pub fn is_text(&self, text: &str) -> (b: bool)
        ensures
            b == (self@ == Tree::Text(text@)),
    {
        match self {
            Payload::Text(own) => *own == text.to_owned(),
            _ => false,
        }
    }
}

impl Clone for Entry {
    fn clone(&self) -> (copy: Entry)
        ensures
            copy.key@ == self.key@,
            copy.value@ == self.value@,
    {
        Entry { key: self.key.duplicate(), value: self.value.duplicate() }
    }
}

/// What reading a frame's content as a payload yields: `Err` where the content
/// is not well formed, `Ok(None)` where it is but holds a floating point number
/// or a tagged value, and else the tree that it holds.
pub type Reading = Result<Option<Tree>, ()>;

/// The bytes that `serde_cbor::to_vec` writes for a tree, or `None` where it
/// refuses the tree.
pub uninterp spec fn cbor_bytes(tree: Tree) -> Option<Seq<u8>>;

/// What `serde_cbor::from_slice` reads from bytes.
pub uninterp spec fn cbor_tree(bytes: Seq<u8>) -> Reading;

/// The text that `serde_json::to_string` writes for a tree, or `None` where it
/// refuses the tree.
pub uninterp spec fn json_text(tree: Tree) -> Option<Seq<char>>;

/// What `serde_json::from_str` reads from a text.
pub uninterp spec fn json_tree(text: Seq<char>) -> Reading;

/// Whether `serde_cbor` orders the first value before the second: the order
/// in which its tables keep their keys.
pub uninterp spec fn cbor_before(first: Tree, second: Tree) -> bool;

/// Every table in the tree is as the codecs keep it: each key is within the
/// range of CBOR and well keyed itself, and the keys stand in the order of
/// `serde_cbor`, each before the next, so that no key stands twice.
pub open spec fn well_keyed(tree: Tree) -> bool
    decreases tree,
{
    match tree {
        Tree::Array(items) => forall|i: int|
            0 <= i < items.len() ==> well_keyed(#[trigger] items[i]),
        Tree::Object(entries) => {
            &&& forall|i: int|
                0 <= i < entries.len() ==> in_range((#[trigger] entries[i]).0) && well_keyed(
                    entries[i].0,
                ) && well_keyed(entries[i].1)
            &&& forall|i: int|
                0 < i < entries.len() ==> cbor_before(entries[i - 1].0, (#[trigger] entries[i]).0)
        },
        _ => true,
    }
}

/// Compares two values as `serde_cbor` orders them, with `<` on its value
/// type. The comparison may serialise both values and would stop the program
/// on an integer that CBOR cannot carry: hence the precondition.
#[verifier::external_body]
fn key_before(first: &Payload, second: &Payload) -> (before: bool)
    requires
        in_range(first@),
        in_range(second@),
        well_keyed(first@),
        well_keyed(second@),
    ensures
        before == cbor_before(first@, second@),
{
    to_outside(first) < to_outside(second)
}

/// Rebuilds a payload as a `serde_cbor::Value`, variant for variant. The
/// entries of a table go into the outside crate's ordered map, which compares
/// keys by their encoding and would stop the program on a key with an integer
/// that CBOR cannot carry: hence the precondition. Nothing is claimed of the
/// result.
#[verifier::external_body]
fn to_outside(payload: &Payload) -> serde_cbor::Value
    requires
        well_keyed(payload@),
{
    match payload {
        Payload::Null => serde_cbor::Value::Null,
        Payload::Bool(b) => serde_cbor::Value::Bool(*b),
        Payload::Integer(i) => serde_cbor::Value::Integer(*i),
        Payload::Bytes(b) => serde_cbor::Value::Bytes(b.clone()),
        Payload::Text(s) => serde_cbor::Value::Text(s.clone()),
        Payload::Array(a) => serde_cbor::Value::Array(a.iter().map(to_outside).collect()),
        Payload::Object(m) => serde_cbor::Value::Map(
            m.iter().map(|e| (to_outside(&e.key), to_outside(&e.value))).collect(),
        ),
    }
}

/// Rebuilds a `serde_cbor::Value` as a payload, variant for variant, with the
/// entries of a map in the map's own order. `None` where the value holds a
/// variant that [`Payload`] lacks. Nothing is claimed of the result.
#[verifier::external_body]
fn from_outside(value: serde_cbor::Value) -> Option<Payload> {
    Some(match value {
        serde_cbor::Value::Null => Payload::Null,
        serde_cbor::Value::Bool(b) => Payload::Bool(b),
        serde_cbor::Value::Integer(i) => Payload::Integer(i),
        serde_cbor::Value::Bytes(b) => Payload::Bytes(b),
        serde_cbor::Value::Text(s) => Payload::Text(s),
        serde_cbor::Value::Array(a) => Payload::Array(a.into_iter().map(from_outside).collect::<Option<_>>()?),
        serde_cbor::Value::Map(m) => Payload::Object(m.into_iter().map(|(k, v)| Some(Entry { key: from_outside(k)?, value: from_outside(v)? })).collect::<Option<_>>()?),
        _ => return None,
    })
}

/// Calls `serde_cbor::to_vec` on the payload. The result is a function of the
/// tree alone, which [`cbor_bytes`] names; the error is the outside crate's.
#[verifier::external_body]
pub(crate) fn cbor_encode(payload: &Payload) -> (out: Result<Vec<u8>, serde_cbor::Error>)
    requires
        well_keyed(payload@),
    ensures
        match out {
            Ok(bytes) => cbor_bytes(payload@) == Some(bytes@),
            Err(_) => cbor_bytes(payload@) is None,
        },
{
    serde_cbor::to_vec(&to_outside(payload))
}

/// Calls `serde_cbor::from_slice` on the bytes. The result is a function of
/// the bytes alone, which [`cbor_tree`] names; the error is the outside
/// crate's.
#[verifier::external_body]
pub(crate) fn cbor_decode(bytes: &Vec<u8>) -> (out: Result<Option<Payload>, serde_cbor::Error>)
    ensures
        match out {
            Ok(Some(payload)) => cbor_tree(bytes@) == Ok::<Option<Tree>, ()>(Some(payload@)),
            Ok(None) => cbor_tree(bytes@) == Ok::<Option<Tree>, ()>(None),
            Err(_) => cbor_tree(bytes@) is Err,
        },
{
    serde_cbor::from_slice::<serde_cbor::Value>(bytes.as_slice()).map(from_outside)
}

/// Calls `serde_json::to_string` on the payload. The result is a function of
/// the tree alone, which [`json_text`] names; the error is the outside
/// crate's.
#[verifier::external_body]
pub(crate) fn json_encode(payload: &Payload) -> (out: Result<String, serde_json::Error>)
    requires
        well_keyed(payload@),
    ensures
        match out {
            Ok(text) => json_text(payload@) == Some(text@),
            Err(_) => json_text(payload@) is None,
        },
{
    serde_json::to_string(&to_outside(payload))
}

/// Calls `serde_json::from_str` on the text. The result is a function of the
/// text alone, which [`json_tree`] names; the error is the outside crate's.
#[verifier::external_body]
pub(crate) fn json_decode(text: &str) -> (out: Result<Option<Payload>, serde_json::Error>)
    ensures
        match out {
            Ok(Some(payload)) => json_tree(text@) == Ok::<Option<Tree>, ()>(Some(payload@)),
            Ok(None) => json_tree(text@) == Ok::<Option<Tree>, ()>(None),
            Err(_) => json_tree(text@) is Err,
        },
{
    serde_json::from_str::<serde_cbor::Value>(text).map(from_outside)
}

/// What reading the content of a data frame yields: CBOR for a binary frame,
/// JSON for a text frame.
pub open spec fn reading(content: Content) -> Reading {
    match content {
        Content::Binary(bytes) => cbor_tree(bytes),
        Content::Text(text) => json_tree(text),
    }
}

/// The content that writes a tree: CBOR in a binary frame, JSON in a text
/// frame. `None` where the codec refuses the tree.
pub open spec fn writing(tree: Tree, binary: bool) -> Option<Content> {
    if binary {
        match cbor_bytes(tree) {
            Some(bytes) => Some(Content::Binary(bytes)),
            None => None,
        }
    } else {
        match json_text(tree) {
            Some(text) => Some(Content::Text(text)),
            None => None,
        }
    }
}

/// The content that `encode` hands out for a tree, if it hands one out: what
/// the codec of the frame writes for a tree whose tables are well keyed.
pub open spec fn encoded(tree: Tree, binary: bool) -> Option<Content> {
    if well_keyed(tree) {
        writing(tree, binary)
    } else {
        None
    }
}

/// Why a tree was not encoded. A tree with a table that is not well keyed is
/// not supported; any other tree was refused by the codec of the frame, whose
/// error it is.
pub open spec fn refused(tree: Tree, binary: bool, error: JuntaError) -> bool {
    if !well_keyed(tree) {
        error.is_unsupported()
    } else if binary {
        error.is_binary()
    } else {
        error.is_textual()
    }
}

impl Payload {
    /// Tells whether every table in the value is as the codecs keep it: see
    /// [`well_keyed`].
    pub fn well_keyed(&self) -> (b: bool)
        ensures
            b == well_keyed(self@),
        decreases self,
    {
        match self {
            Payload::Array(items) => {
                let mut k: usize = 0;
                while k < items.len()
                    invariant
                        k <= items.len(),
                        *self == Payload::Array(*items),
                        forall|i: int| 0 <= i < k ==> well_keyed(#[trigger] self@->Array_0[i]),
                    decreases items.len() - k,
                {
                    assert(decreases_to!(*items => items[k as int]));
                    if !items[k].well_keyed() {
                        assert(!well_keyed(self@->Array_0[k as int]));
                        return false;
                    }
                    k += 1;
                }
                true
            },
            Payload::Object(entries) => {
                let mut k: usize = 0;
                while k < entries.len()
                    invariant
                        k <= entries.len(),
                        *self == Payload::Object(*entries),
                        forall|i: int|
                            0 <= i < k ==> in_range((#[trigger] self@->Object_0[i]).0) && well_keyed(
                                self@->Object_0[i].0,
                            ) && well_keyed(self@->Object_0[i].1),
                        forall|i: int|
                            0 < i < k ==> cbor_before(
                                self@->Object_0[i - 1].0,
                                (#[trigger] self@->Object_0[i]).0,
                            ),
                    decreases entries.len() - k,
                {
                    assert(decreases_to!(*entries => entries[k as int]));
                    let sound = entries[k].key.in_range() && entries[k].key.well_keyed()
                        && entries[k].value.well_keyed();
                    if !sound {
                        assert(!(in_range(self@->Object_0[k as int].0) && well_keyed(
                            self@->Object_0[k as int].0,
                        ) && well_keyed(self@->Object_0[k as int].1)));
                        return false;
                    }
                    if k > 0 {
                        assert(self@->Object_0[k as int - 1].0 == entries[k as int - 1].key@);
                        assert(self@->Object_0[k as int].0 == entries[k as int].key@);
                    }
                    if k > 0 && !key_before(&entries[k - 1].key, &entries[k].key) {
                        assert(!cbor_before(
                            self@->Object_0[k as int - 1].0,
                            self@->Object_0[k as int].0,
                        ));
                        return false;
                    }
                    k += 1;
                }
                true
            },
            _ => true,
        }
    }

    /// Encodes the payload as CBOR.
    pub fn to_binary(&self) -> (out: JuntaResult<Vec<u8>>)
        ensures
            match out {
                Ok(bytes) => encoded(self@, true) == Some(Content::Binary(bytes@)),
                Err(error) => encoded(self@, true) is None && refused(self@, true, error),
            },
    {
        if !self.well_keyed() {
            return Err(JuntaError::unsupported());
        }
        match cbor_encode(self) {
            Ok(bytes) => Ok(bytes),
            Err(error) => Err(JuntaError::from(error)),
        }
    }

    /// Encodes the payload as JSON.
    pub fn to_text(&self) -> (out: JuntaResult<String>)
        ensures
            match out {
                Ok(text) => encoded(self@, false) == Some(Content::Text(text@)),
                Err(error) => encoded(self@, false) is None && refused(self@, false, error),
            },
    {
        if !self.well_keyed() {
            return Err(JuntaError::unsupported());
        }
        match json_encode(self) {
            Ok(text) => Ok(text),
            Err(error) => Err(JuntaError::from(error)),
        }
    }

    /// Encodes the payload as the content of a data frame: CBOR for a binary
    /// frame, JSON for a text frame. Every failure is an encoding error: see
    /// [`refused`].
    pub fn encode(&self, binary: bool) -> (out: JuntaResult<MessageContent>)
        ensures
            match out {
                Ok(content) => encoded(self@, binary) == Some(content@),
                Err(error) => encoded(self@, binary) is None && refused(self@, binary, error),
            },
    {
        if binary {
            match self.to_binary() {
                Ok(bytes) => Ok(MessageContent::Binary(bytes)),
                Err(error) => Err(error),
            }
        } else {
            match self.to_text() {
                Ok(text) => Ok(MessageContent::Text(text)),
                Err(error) => Err(error),
            }
        }
    }

    /// Decodes the content of a data frame: CBOR if it is binary, JSON if it
    /// is text. Every failure is an encoding error: see [`unread`].
    pub fn decode(content: &MessageContent) -> (out: JuntaResult<Payload>)
        ensures
            match out {
                Ok(payload) => reading(content@) == Ok::<Option<Tree>, ()>(Some(payload@)),
                Err(error) => !(reading(content@) matches Ok(Some(_))) && unread(content@, error),
            },
    {
        let read = match content {
            MessageContent::Binary(bytes) => match cbor_decode(bytes) {
                Ok(read) => read,
                Err(error) => { return Err(JuntaError::from(error)); },
            },
            MessageContent::Text(text) => match json_decode(text.as_str()) {
                Ok(read) => read,
                Err(error) => { return Err(JuntaError::from(error)); },
            },
        };
        match read {
            Some(payload) => Ok(payload),
            None => Err(JuntaError::unsupported()),
        }
    }
}

/// Why content was not decoded as a payload. Content that the codec of its
/// frame refuses gives the error of that codec: the binary one for a binary
/// frame, the textual one for a text frame. Content that is well formed and
/// holds a floating point number or a tagged value is not supported.
pub open spec fn unread(content: Content, error: JuntaError) -> bool {
    match reading(content) {
        Err(_) => if content is Binary {
            error.is_binary()
        } else {
            error.is_textual()
        },
        _ => error.is_unsupported(),
    }
}

impl Clone for Payload {
    fn clone(&self) -> (copy: Payload)
        ensures
            copy@ == self@,
    {
        self.duplicate()
    }
}

} // verus!
