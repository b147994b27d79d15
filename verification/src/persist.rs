//! Middleware that puts a value which outlives the single event into the
//! input of every event, where later stages find it.
use vstd::prelude::*;
use crate::error::{Describe, JuntaError, JuntaErrorKind, ServiceError};
use crate::middleware::{Middleware, Next, NextFuture};
use crate::middleware_chain::share;
use crate::protocol::{Listener, ListenerList};
use std::sync::{Arc, Mutex, RwLock};
use vstd::std_specs::convert::FromSpecImpl;

verus! {

/// Declares the reader-writer lock of std, behind which [`State`] keeps its
/// value.
#[verifier::external_type_specification]
#[verifier::external_body]
#[verifier::reject_recursive_types(T)]
pub struct ExRwLock<T: ?Sized>(std::sync::RwLock<T>);

/// Declares the mutex of std, behind which [`Write`] keeps its value.
#[verifier::external_type_specification]
#[verifier::external_body]
#[verifier::reject_recursive_types(T)]
pub struct ExMutex<T: ?Sized>(std::sync::Mutex<T>);

/// Calls `RwLock::new`. What a lock holds changes under a shared reference,
/// so nothing is claimed of it.
#[verifier::external_body]
fn new_rwlock<T>(value: T) -> RwLock<T> {
    RwLock::new(value)
}

/// Calls `Mutex::new`. What a mutex holds changes under a shared reference,
/// so nothing is claimed of it.
#[verifier::external_body]
fn new_mutex<T>(value: T) -> Mutex<T> {
    Mutex::new(value)
}

/// Calls `RwLock::read` and clones what the lock holds. A lock poisoned by a
/// holder that panicked is read all the same. Which value is seen depends on
/// the writers, so nothing is claimed of it.
#[verifier::external_body]
fn read_rwlock<T: Clone>(lock: &RwLock<T>) -> T {
    lock.read().unwrap_or_else(|poisoned| poisoned.into_inner()).clone()
}

/// Calls `RwLock::write` and stores the value. A lock poisoned by a holder
/// that panicked is written all the same.
#[verifier::external_body]
fn write_rwlock<T>(lock: &RwLock<T>, value: T) {
    *lock.write().unwrap_or_else(|poisoned| poisoned.into_inner()) = value;
}

/// Calls `Mutex::lock` and clones what the mutex holds. A mutex poisoned by a
/// holder that panicked is read all the same. Which value is seen depends on
/// the writers, so nothing is claimed of it.
#[verifier::external_body]
fn read_mutex<T: Clone>(lock: &Mutex<T>) -> T {
    lock.lock().unwrap_or_else(|poisoned| poisoned.into_inner()).clone()
}

/// Calls `Mutex::lock` and stores the value. A mutex poisoned by a holder
/// that panicked is written all the same.
#[verifier::external_body]
fn write_mutex<T>(lock: &Mutex<T>, value: T) {
    *lock.lock().unwrap_or_else(|poisoned| poisoned.into_inner()) = value;
}

/// A marker type under which a value of the associated type is kept.
pub trait Key {
    type Value;
}

impl Key for ListenerList {
    type Value = Vec<Listener>;
}

/// Why a kept value could not be handed out.
#[derive(Clone, Copy, Debug, PartialEq, Eq, Structural)]
pub enum PersistentError {
    /// The value was not found.
    NotFound,
}

impl PersistentError {
    /// What the error says.
    pub open spec fn text(&self) -> Seq<char> {
        "Value not found in extensions."@
    }

    /// Renders the error.
    pub fn to_text(&self) -> (text: String)
        ensures
            text@ == self.text(),
    {
        "Value not found in extensions.".to_owned()
    }
}

impl Describe for PersistentError {
    open spec fn description(&self) -> Seq<char> {
        self.text()
    }

    fn describe(&self) -> (text: String) {
        "Value not found in extensions.".to_owned()
    }
}

impl From<PersistentError> for JuntaError {
    fn from(error: PersistentError) -> (e: JuntaError) {
        JuntaError::new(JuntaErrorKind::NotFound)
    }
}

impl FromSpecImpl<PersistentError> for JuntaError {
    open spec fn obeys_from_spec() -> bool {
        true
    }

    open spec fn from_spec(error: PersistentError) -> JuntaError {
        JuntaError { kind: JuntaErrorKind::NotFound }
    }
}

/// What a kept value can be made of: the value itself, or what a shared
/// handle is made of.
pub trait PersistentInto<T> {
    /// What the value turns into.
    spec fn persisted(self) -> T;

    fn persistent_into(self) -> (made: T)
        ensures
            made == self.persisted(),
    ;
}

impl<T> PersistentInto<T> for T {
    open spec fn persisted(self) -> T {
        self
    }

    fn persistent_into(self) -> (made: T) {
        self
    }
}

impl<T> PersistentInto<Arc<T>> for T {
    open spec fn persisted(self) -> Arc<T> {
        Arc::new(self)
    }

    fn persistent_into(self) -> (made: Arc<T>) {
        Arc::new(self)
    }
}

/// What holds a kept value.
pub trait PersistentItem {
    type Item;

    /// The value that is kept.
    spec fn item(&self) -> Self::Item;

    fn data(&self) -> (item: &Self::Item)
        ensures
            *item == self.item(),
    ;

    /// Another handle to the value that is kept.
    fn share(&self) -> (item: Self::Item)
        ensures
            item == self.item(),
    ;
}

/// A value kept for reading and writing, behind a reader-writer lock. Every
/// handle that the middleware hands on leads to the one lock, so that what
/// one request writes the later ones read.
pub struct State<P: Key> {
    data: Arc<RwLock<P::Value>>,
}

/// A value kept for reading.
pub struct Read<P: Key> {
    data: Arc<P::Value>,
}

/// A value kept mostly for writing, behind a mutex. Every handle that the
/// middleware hands on leads to the one mutex.
pub struct Write<P: Key> {
    data: Arc<Mutex<P::Value>>,
}

impl<P: Key> PersistentItem for State<P> {
    type Item = Arc<RwLock<P::Value>>;

    closed spec fn item(&self) -> Arc<RwLock<P::Value>> {
        self.data
    }

    fn data(&self) -> (item: &Arc<RwLock<P::Value>>) {
        &self.data
    }

    fn share(&self) -> (item: Arc<RwLock<P::Value>>) {
        share(&self.data)
    }
}

impl<P: Key> PersistentItem for Read<P> {
    type Item = Arc<P::Value>;

    closed spec fn item(&self) -> Arc<P::Value> {
        self.data
    }

    fn data(&self) -> (item: &Arc<P::Value>) {
        &self.data
    }

    fn share(&self) -> (item: Arc<P::Value>) {
        share(&self.data)
    }
}

impl<P: Key> PersistentItem for Write<P> {
    type Item = Arc<Mutex<P::Value>>;

    closed spec fn item(&self) -> Arc<Mutex<P::Value>> {
        self.data
    }

    fn data(&self) -> (item: &Arc<Mutex<P::Value>>) {
        &self.data
    }

    fn share(&self) -> (item: Arc<Mutex<P::Value>>) {
        share(&self.data)
    }
}

impl<P: Key> Clone for State<P> {
    fn clone(&self) -> (copy: State<P>)
        ensures
            copy.item() == self.item(),
    {
        State { data: share(&self.data) }
    }
}

impl<P: Key> Clone for Read<P> {
    fn clone(&self) -> (copy: Read<P>)
        ensures
            copy.item() == self.item(),
    {
        Read { data: share(&self.data) }
    }
}

impl<P: Key> Clone for Write<P> {
    fn clone(&self) -> (copy: Write<P>)
        ensures
            copy.item() == self.item(),
    {
        Write { data: share(&self.data) }
    }
}

/// An input that has a place for the value that a middleware keeps.
pub trait Extensible<T: PersistentItem>: Sized {
    /// The value in the place, if there is one.
    spec fn extension(&self) -> Option<T::Item>;

    /// The input with the value in the place, and all else as it is.
    spec fn extended(self, item: T::Item) -> Self;

    /// Puts the value in the place.
    fn insert(&mut self, item: T::Item)
        ensures
            *final(self) == old(self).extended(item),
            final(self).extension() == Some(item),
    ;

    /// The value in the place, or `NotFound`.
    fn eval(&self) -> (found: Result<&T::Item, PersistentError>)
        ensures
            match found {
                Ok(item) => self.extension() == Some(*item),
                Err(_) => self.extension() is None,
            },
    ;
}

/// An input together with one place for a kept value.
pub struct Extended<I, T: PersistentItem> {
    pub input: I,
    pub item: Option<T::Item>,
}

impl<I, T: PersistentItem> Extended<I, T> {
    /// The input with the place empty.
    pub fn new(input: I) -> (made: Extended<I, T>)
        ensures
            made.input == input,
            made.item is None,
    {
        Extended { input, item: None }
    }
}

impl<I, T: PersistentItem> Extensible<T> for Extended<I, T> {
    open spec fn extension(&self) -> Option<T::Item> {
        self.item
    }

    open spec fn extended(self, item: T::Item) -> Self {
        Extended { input: self.input, item: Some(item) }
    }

    fn insert(&mut self, item: T::Item) {
        self.item = Some(item);
    }

    fn eval(&self) -> (found: Result<&T::Item, PersistentError>) {
        match &self.item {
            Some(item) => Ok(item),
            None => Err(PersistentError::NotFound),
        }
    }
}

/// The middleware that puts a kept value into every input and hands the
/// input on.
pub struct PersistMiddleware<P, T, I, O, E> {
    inner: T,
    _p: core::marker::PhantomData<P>,
    _i: core::marker::PhantomData<I>,
    _o: core::marker::PhantomData<O>,
    _e: core::marker::PhantomData<E>,
}

impl<P, T, I, O, E> PersistMiddleware<P, T, I, O, E> {
    /// What holds the kept value.
    pub closed spec fn holder(&self) -> T {
        self.inner
    }

    pub fn new(inner: T) -> (made: PersistMiddleware<P, T, I, O, E>)
        ensures
            made.holder() == inner,
    {
        PersistMiddleware {
            inner,
            _p: core::marker::PhantomData,
            _i: core::marker::PhantomData,
            _o: core::marker::PhantomData,
            _e: core::marker::PhantomData,
        }
    }
}

impl<P, T, I, O, E> Middleware for PersistMiddleware<P, T, I, O, E> where
    T: PersistentItem,
    I: Extensible<T>,
    E: From<ServiceError>,
 {
    type Input = I;

    type Output = O;

    type Error = E;

    type Future = NextFuture<I, O, E>;

    open spec fn ready(&self) -> bool {
        true
    }

    /// The input goes on to the next stage with the kept value in its
    /// place, and is not changed otherwise.
    open spec fn defers(&self, input: I, fut: NextFuture<I, O, E>) -> bool {
        fut.forwards() == Some(input.extended(self.holder().item()))
    }

    fn call(&self, input: I, next: Next<I, O, E>) -> (fut: NextFuture<I, O, E>) {
        let mut req = input;
        req.insert(self.inner.share());
        next.call(req)
    }
}

impl<P: Key> State<P> {
    /// The middleware that keeps the given value for reading and writing.
    /// What the lock holds can change at any time, so the contract says
    /// which lock is handed on and not what it holds.
    pub fn middleware<I: Extensible<State<P>>, O, E: From<ServiceError>>(start: P::Value) -> (made:
        PersistMiddleware<P, State<P>, I, O, E>)
    {
        PersistMiddleware::new(State { data: Arc::new(new_rwlock(start)) })
    }

    /// A copy of the value that the handle leads to now. Which value that
    /// is depends on who has written, so nothing is promised of it.
    pub fn read(handle: &Arc<RwLock<P::Value>>) -> P::Value where P::Value: Clone {
        read_rwlock(&*handle)
    }

    /// Replaces the value that the handle leads to. Every holder of a handle
    /// to the same lock sees the new value from now on.
    pub fn write(handle: &Arc<RwLock<P::Value>>, value: P::Value) {
        write_rwlock(&*handle, value)
    }
}

impl<P: Key> Read<P> {
    /// The value that is kept: what the handle that the middleware hands on
    /// holds.
    pub open spec fn kept(&self) -> P::Value {
        *self.item()
    }

    /// The middleware that keeps the given value for reading.
    pub fn middleware<I: Extensible<Read<P>>, O, E: From<ServiceError>>(start: P::Value) -> (made:
        PersistMiddleware<P, Read<P>, I, O, E>)
        ensures
            *made.holder().item() == start,
            made.holder().kept() == start,
    {
        PersistMiddleware::new(Read { data: start.persistent_into() })
    }
}

impl<P: Key> Write<P> {
    /// The middleware that keeps the given value, mostly for writing. What
    /// the mutex holds can change at any time, so the contract says which
    /// mutex is handed on and not what it holds.
    pub fn middleware<I: Extensible<Write<P>>, O, E: From<ServiceError>>(start: P::Value) -> (made:
        PersistMiddleware<P, Write<P>, I, O, E>)
    {
        PersistMiddleware::new(Write { data: Arc::new(new_mutex(start)) })
    }

    /// A copy of the value that the handle leads to now. Which value that
    /// is depends on who has written, so nothing is promised of it.
    pub fn read(handle: &Arc<Mutex<P::Value>>) -> P::Value where P::Value: Clone {
        read_mutex(&*handle)
    }

    /// Replaces the value that the handle leads to. Every holder of a handle
    /// to the same mutex sees the new value from now on.
    pub fn write(handle: &Arc<Mutex<P::Value>>, value: P::Value) {
        write_mutex(&*handle, value)
    }
}

} // verus!
