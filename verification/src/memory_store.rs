//! The in-memory stores of controllers and sessions: each item under its
//! identifier, at most one item per identifier.

use vstd::prelude::*;
use crate::controller_entities::{ControllerSession, ProController};
use crate::errors::ControllerError;
use crate::text;
use crate::text::ViewEq;

verus! {

/// An item stored under an identifier of its own.
pub trait Keyed {
    /// The identifier of the item.
    spec fn key_of(&self) -> Seq<char>;

    fn key(&self) -> (r: &str)
        ensures
            r@ == self.key_of(),
    ;
}

impl Keyed for ProController {
    open spec fn key_of(&self) -> Seq<char> {
        self.id@
    }

    fn key(&self) -> (r: &str) {
        self.id.as_str()
    }
}

impl Keyed for ControllerSession {
    open spec fn key_of(&self) -> Seq<char> {
        self.id@
    }

    fn key(&self) -> (r: &str) {
        self.id.as_str()
    }
}

/// Whether no two items share an identifier.
pub open spec fn keys_unique<T: Keyed>(s: Seq<T>) -> bool {
    forall|i: int, j: int| 0 <= i < s.len() && 0 <= j < s.len() && i != j ==> s[i].key_of() != s[j].key_of()
}

/// Whether some item has identifier `k`.
pub open spec fn has_key<T: Keyed>(s: Seq<T>, k: Seq<char>) -> bool {
    exists|i: int| 0 <= i < s.len() && s[i].key_of() == k
}

/// The items by identifier.
pub open spec fn store_map<T: Keyed>(s: Seq<T>) -> Map<Seq<char>, T> {
    Map::new(
        |k: Seq<char>| has_key(s, k),
        |k: Seq<char>| s[choose|i: int| 0 <= i < s.len() && s[i].key_of() == k],
    )
}

/// With unique identifiers, the item of identifier `k` is the one at `i`.
proof fn lemma_item_at<T: Keyed>(s: Seq<T>, i: int)
    requires
        keys_unique(s),
        0 <= i < s.len(),
    ensures
        store_map(s).contains_key(s[i].key_of()),
        store_map(s)[s[i].key_of()] == s[i],
{
    let k = s[i].key_of();
    assert(has_key(s, k));
    let j = choose|j: int| 0 <= j < s.len() && s[j].key_of() == k;
    assert(j == i);
}

proof fn lemma_push_new<T: Keyed>(s: Seq<T>, x: T)
    requires
        keys_unique(s),
        !has_key(s, x.key_of()),
    ensures
        keys_unique(s.push(x)),
        store_map(s.push(x)) == store_map(s).insert(x.key_of(), x),
{
    let t = s.push(x);
    assert forall|i: int, j: int| 0 <= i < t.len() && 0 <= j < t.len() && i != j implies t[i].key_of() != t[j].key_of() by {
        if i < s.len() && j < s.len() {
            assert(t[i] == s[i] && t[j] == s[j]);
        } else if i < s.len() {
            assert(t[i] == s[i]);
        } else {
            assert(t[j] == s[j]);
        }
    }
    assert forall|k: Seq<char>| #[trigger] store_map(t).contains_key(k) == store_map(s).insert(x.key_of(), x).contains_key(k) by {
        if has_key(s, k) {
            let i = choose|i: int| 0 <= i < s.len() && s[i].key_of() == k;
            assert(t[i] == s[i]);
        }
        if has_key(t, k) && k != x.key_of() {
            let i = choose|i: int| 0 <= i < t.len() && t[i].key_of() == k;
            assert(i < s.len());
            assert(s[i] == t[i]);
        }
        if k == x.key_of() {
            assert(t[s.len() as int] == x);
        }
    }
    assert forall|k: Seq<char>| store_map(t).contains_key(k) implies #[trigger] store_map(t)[k] == store_map(s).insert(x.key_of(), x)[k] by {
        let i = choose|i: int| 0 <= i < t.len() && t[i].key_of() == k;
        lemma_item_at(t, i);
        if i < s.len() {
            assert(t[i] == s[i]);
            lemma_item_at(s, i);
        }
    }
    assert(store_map(t) =~= store_map(s).insert(x.key_of(), x));
}

proof fn lemma_replace_at<T: Keyed>(s: Seq<T>, i: int, x: T)
    requires
        keys_unique(s),
        0 <= i < s.len(),
        s[i].key_of() == x.key_of(),
    ensures
        keys_unique(s.update(i, x)),
        store_map(s.update(i, x)) == store_map(s).insert(x.key_of(), x),
{
    let t = s.update(i, x);
    assert forall|a: int, b: int| 0 <= a < t.len() && 0 <= b < t.len() && a != b implies t[a].key_of() != t[b].key_of() by {
        assert(t[a].key_of() == s[a].key_of());
        assert(t[b].key_of() == s[b].key_of());
    }
    assert forall|k: Seq<char>| #[trigger] store_map(t).contains_key(k) == store_map(s).insert(x.key_of(), x).contains_key(k) by {
        if has_key(s, k) {
            let j = choose|j: int| 0 <= j < s.len() && s[j].key_of() == k;
            assert(t[j].key_of() == k);
        }
        if has_key(t, k) {
            let j = choose|j: int| 0 <= j < t.len() && t[j].key_of() == k;
            assert(s[j].key_of() == k);
        }
        lemma_item_at(s, i);
    }
    assert forall|k: Seq<char>| store_map(t).contains_key(k) implies #[trigger] store_map(t)[k] == store_map(s).insert(x.key_of(), x)[k] by {
        let j = choose|j: int| 0 <= j < t.len() && t[j].key_of() == k;
        lemma_item_at(t, j);
        if j != i {
            assert(t[j] == s[j]);
            lemma_item_at(s, j);
        }
    }
    assert(store_map(t) =~= store_map(s).insert(x.key_of(), x));
}

proof fn lemma_remove_at<T: Keyed>(s: Seq<T>, i: int)
    requires
        keys_unique(s),
        0 <= i < s.len(),
    ensures
        keys_unique(s.remove(i)),
        store_map(s.remove(i)) == store_map(s).remove(s[i].key_of()),
{
    let t = s.remove(i);
    let k0 = s[i].key_of();
    assert forall|a: int| 0 <= a < t.len() implies #[trigger] t[a] == (if a < i { s[a] } else { s[a + 1] }) by {}
    assert forall|a: int, b: int| 0 <= a < t.len() && 0 <= b < t.len() && a != b implies t[a].key_of() != t[b].key_of() by {
        let a2 = if a < i { a } else { a + 1 };
        let b2 = if b < i { b } else { b + 1 };
        assert(t[a] == s[a2] && t[b] == s[b2]);
    }
    assert forall|k: Seq<char>| #[trigger] store_map(t).contains_key(k) == store_map(s).remove(k0).contains_key(k) by {
        if has_key(s, k) && k != k0 {
            let j = choose|j: int| 0 <= j < s.len() && s[j].key_of() == k;
            assert(j != i);
            let j2 = if j < i { j } else { j - 1 };
            assert(t[j2] == s[j]);
        }
        if has_key(t, k) {
            let j = choose|j: int| 0 <= j < t.len() && t[j].key_of() == k;
            let j2 = if j < i { j } else { j + 1 };
            assert(t[j] == s[j2]);
            assert(j2 != i);
        }
    }
    assert forall|k: Seq<char>| store_map(t).contains_key(k) implies #[trigger] store_map(t)[k] == store_map(s).remove(k0)[k] by {
        let j = choose|j: int| 0 <= j < t.len() && t[j].key_of() == k;
        lemma_item_at(t, j);
        let j2 = if j < i { j } else { j + 1 };
        assert(t[j] == s[j2]);
        lemma_item_at(s, j2);
    }
    assert(store_map(t) =~= store_map(s).remove(k0));
}

/// Items, each under its own identifier.
pub struct IdStore<T> {
    items: Vec<T>,
}

impl<T: Keyed> View for IdStore<T> {
    type V = Map<Seq<char>, T>;

    closed spec fn view(&self) -> Map<Seq<char>, T> {
        store_map(self.items@)
    }
}

impl<T: Keyed> IdStore<T> {
    /// No two items share an identifier.
    pub closed spec fn wf(&self) -> bool {
        keys_unique(self.items@)
    }

    /// An empty store.
    pub fn new() -> (s: Self)
        ensures
            s.wf(),
            s@ == Map::<Seq<char>, T>::empty(),
    {
        let s = IdStore { items: Vec::new() };
        assert(s@ =~= Map::<Seq<char>, T>::empty());
        s
    }

    fn position(&self, key: &str) -> (r: Option<usize>)
        requires
            self.wf(),
        ensures
            match r {
                Some(i) => i < self.items@.len() && self.items@[i as int].key_of() == key@,
                None => !has_key(self.items@, key@),
            },
    {
        let mut i: usize = 0;
        while i < self.items.len()
            invariant
                i <= self.items@.len(),
                forall|j: int| 0 <= j < i ==> self.items@[j].key_of() != key@,
            decreases self.items@.len() - i,
        {
            if self.items[i].key().view_eq(key) {
                return Some(i);
            }
            i = i + 1;
        }
        None
    }

    /// The item stored under `key`.
    pub fn get(&self, key: &str) -> (r: Option<&T>)
        requires
            self.wf(),
        ensures
            match r {
                Some(t) => self@.contains_key(key@) && *t == self@[key@],
                None => !self@.contains_key(key@),
            },
    {
        match self.position(key) {
            Some(i) => {
                proof {
                    lemma_item_at(self.items@, i as int);
                }
                Some(&self.items[i])
            },
            None => None,
        }
    }

    /// Whether an item is stored under `key`.
    pub fn contains(&self, key: &str) -> (r: bool)
        requires
            self.wf(),
        ensures
            r == self@.contains_key(key@),
    {
        self.position(key).is_some()
    }

    /// Stores an item under an identifier not yet used; an item whose
    /// identifier is taken is handed back and nothing changes.
    pub fn insert_new(&mut self, item: T) -> (r: Result<(), T>)
        requires
            old(self).wf(),
        ensures
            final(self).wf(),
            match r {
                Ok(()) => !old(self)@.contains_key(item.key_of())
                    && final(self)@ == old(self)@.insert(item.key_of(), item),
                Err(back) => old(self)@.contains_key(item.key_of()) && back == item && final(self)@ == old(self)@,
            },
    {
        match self.position(item.key()) {
            Some(i) => {
                proof {
                    lemma_item_at(self.items@, i as int);
                }
                Err(item)
            },
            None => {
                proof {
                    lemma_push_new(self.items@, item);
                }
                self.items.push(item);
                Ok(())
            },
        }
    }

    /// Replaces the item stored under the item's identifier; an item whose
    /// identifier is not used is handed back and nothing changes.
    pub fn replace(&mut self, item: T) -> (r: Result<(), T>)
        requires
            old(self).wf(),
        ensures
            final(self).wf(),
            match r {
                Ok(()) => old(self)@.contains_key(item.key_of())
                    && final(self)@ == old(self)@.insert(item.key_of(), item),
                Err(back) => !old(self)@.contains_key(item.key_of()) && back == item && final(self)@ == old(self)@,
            },
    {
        match self.position(item.key()) {
            Some(i) => {
                proof {
                    lemma_item_at(self.items@, i as int);
                    lemma_replace_at(self.items@, i as int, item);
                }
                self.items.set(i, item);
                Ok(())
            },
            None => Err(item),
        }
    }

    /// Takes out the item stored under `key`, if any.
    pub fn remove(&mut self, key: &str) -> (r: Option<T>)
        requires
            old(self).wf(),
        ensures
            final(self).wf(),
            match r {
                Some(t) => old(self)@.contains_key(key@) && t == old(self)@[key@]
                    && final(self)@ == old(self)@.remove(key@),
                None => !old(self)@.contains_key(key@) && final(self)@ == old(self)@,
            },
    {
        match self.position(key) {
            Some(i) => {
                proof {
                    lemma_item_at(self.items@, i as int);
                    lemma_remove_at(self.items@, i as int);
                }
                Some(self.items.remove(i))
            },
            None => None,
        }
    }

    /// Every stored item, once each.
    pub fn values(&self) -> (r: Vec<&T>)
        requires
            self.wf(),
        ensures
            forall|i: int| 0 <= i < r@.len() ==> self@.contains_key(r@[i].key_of()) && self@[r@[i].key_of()] == *r@[i],
            forall|k: Seq<char>| #[trigger] self@.contains_key(k) ==> exists|i: int| 0 <= i < r@.len() && r@[i].key_of() == k,
            keys_unique(r@.map_values(|t: &T| *t)),
    {
        let mut r: Vec<&T> = Vec::new();
        let mut i: usize = 0;
        while i < self.items.len()
            invariant
                i <= self.items@.len(),
                keys_unique(self.items@),
                r@.len() == i,
                forall|j: int| 0 <= j < i ==> *r@[j] == self.items@[j],
            decreases self.items@.len() - i,
        {
            r.push(&self.items[i]);
            i = i + 1;
        }
        proof {
            assert forall|j: int| 0 <= j < r@.len() implies self@.contains_key(r@[j].key_of()) && self@[r@[j].key_of()] == *r@[j] by {
                lemma_item_at(self.items@, j);
            }
            assert forall|k: Seq<char>| #[trigger] self@.contains_key(k) implies exists|j: int| 0 <= j < r@.len() && r@[j].key_of() == k by {
                let j = choose|j: int| 0 <= j < self.items@.len() && self.items@[j].key_of() == k;
                assert(r@[j].key_of() == k);
            }
            assert(r@.map_values(|t: &T| *t) =~= self.items@);
        }
        r
    }
}

/// A copy of a controller: the same identifier, type, input, connection and device.
pub fn copy_controller(c: &ProController) -> (r: ProController)
    ensures
        r == *c,
{
    ProController {
        id: c.id.clone(),
        controller_type: c.controller_type,
        current_state: c.current_state,
        is_connected: c.is_connected,
        device_path: match &c.device_path {
            Some(p) => Some(p.clone()),
            None => None,
        },
    }
}

/// The controllers in memory, by identifier.
pub struct ControllerStore {
    pub controllers: IdStore<ProController>,
}

impl ControllerStore {
    pub open spec fn wf(&self) -> bool {
        self.controllers.wf()
    }

    /// No controller.
    pub fn new() -> (s: Self)
        ensures
            s.wf(),
            s.controllers@ == Map::<Seq<char>, ProController>::empty(),
    {
        ControllerStore { controllers: IdStore::new() }
    }

    /// Adds a controller; one whose identifier is taken is refused with
    /// `AlreadyConnected`.
    pub fn create_controller(&mut self, controller: ProController) -> (r: Result<(), ControllerError>)
        requires
            old(self).wf(),
        ensures
            final(self).wf(),
            old(self).controllers@.contains_key(controller.id@) ==> r == Err::<(), ControllerError>(
                ControllerError::AlreadyConnected,
            ) && final(self).controllers@ == old(self).controllers@,
            !old(self).controllers@.contains_key(controller.id@) ==> r is Ok
                && final(self).controllers@ == old(self).controllers@.insert(controller.id@, controller),
    {
        match self.controllers.insert_new(controller) {
            Ok(()) => Ok(()),
            Err(_) => Err(ControllerError::AlreadyConnected),
        }
    }

    /// The controller `id`; a missing one is `ControllerNotFound(id)`.
    pub fn get_controller(&self, id: &str) -> (r: Result<&ProController, ControllerError>)
        requires
            self.wf(),
        ensures
            match r {
                Ok(c) => self.controllers@.contains_key(id@) && *c == self.controllers@[id@],
                Err(e) => !self.controllers@.contains_key(id@) && (e matches ControllerError::ControllerNotFound(m) && m@ == id@),
            },
    {
        match self.controllers.get(id) {
            Some(c) => Ok(c),
            None => Err(ControllerError::ControllerNotFound(text::owned(id))),
        }
    }

    /// Replaces a stored controller; a missing one is `ControllerNotFound`
    /// with its identifier.
    pub fn update_controller(&mut self, controller: ProController) -> (r: Result<(), ControllerError>)
        requires
            old(self).wf(),
        ensures
            final(self).wf(),
            old(self).controllers@.contains_key(controller.id@) ==> r is Ok
                && final(self).controllers@ == old(self).controllers@.insert(controller.id@, controller),
            !old(self).controllers@.contains_key(controller.id@) ==> (r matches Err(ControllerError::ControllerNotFound(m))
                && m@ == controller.id@) && final(self).controllers@ == old(self).controllers@,
    {
        match self.controllers.replace(controller) {
            Ok(()) => Ok(()),
            Err(back) => Err(ControllerError::ControllerNotFound(back.id)),
        }
    }

    /// Removes the controller `id`; a missing one is `ControllerNotFound(id)`.
    pub fn delete_controller(&mut self, id: &str) -> (r: Result<(), ControllerError>)
        requires
            old(self).wf(),
        ensures
            final(self).wf(),
            old(self).controllers@.contains_key(id@) ==> r is Ok
                && final(self).controllers@ == old(self).controllers@.remove(id@),
            !old(self).controllers@.contains_key(id@) ==> (r matches Err(ControllerError::ControllerNotFound(m))
                && m@ == id@) && final(self).controllers@ == old(self).controllers@,
    {
        match self.controllers.remove(id) {
            Some(_) => Ok(()),
            None => Err(ControllerError::ControllerNotFound(text::owned(id))),
        }
    }

    /// Stores a controller that is not connected, first connecting it through
    /// `/dev/hidg0` when it has no device yet (one that names a device is
    /// stored as it is); a connected one is refused with `AlreadyConnected`
    /// and left as it is.
    pub fn connect_controller(&mut self, controller: &mut ProController) -> (r: Result<(), ControllerError>)
        requires
            old(self).wf(),
        ensures
            final(self).wf(),
            old(controller).is_connected ==> r == Err::<(), ControllerError>(ControllerError::AlreadyConnected)
                && *final(controller) == *old(controller) && final(self).controllers@ == old(self).controllers@,
            !old(controller).is_connected ==> {
                &&& final(controller).id == old(controller).id
                &&& final(controller).current_state == old(controller).current_state
                &&& (old(controller).device_path is None ==> final(controller).is_connected
                    && (final(controller).device_path matches Some(p) && p@ == "/dev/hidg0"@))
                &&& (old(controller).device_path is Some ==> *final(controller) == *old(controller))
                &&& (old(self).controllers@.contains_key(old(controller).id@) ==> r is Ok
                    && final(self).controllers@ == old(self).controllers@.insert(old(controller).id@, *final(controller)))
                &&& (!old(self).controllers@.contains_key(old(controller).id@) ==> r is Err
                    && final(self).controllers@ == old(self).controllers@)
            },
    {
        if controller.is_connected {
            return Err(ControllerError::AlreadyConnected);
        }
        if controller.device_path.is_none() {
            controller.connect("/dev/hidg0");
        }
        self.update_controller(copy_controller(controller))
    }

    /// Disconnects a connected controller and stores it; one that is not
    /// connected is refused with `NotConnected` and left as it is.
    pub fn disconnect_controller(&mut self, controller: &mut ProController) -> (r: Result<(), ControllerError>)
        requires
            old(self).wf(),
        ensures
            final(self).wf(),
            !old(controller).is_connected ==> r == Err::<(), ControllerError>(ControllerError::NotConnected)
                && *final(controller) == *old(controller) && final(self).controllers@ == old(self).controllers@,
            old(controller).is_connected ==> {
                &&& !final(controller).is_connected
                &&& final(controller).device_path is None
                &&& final(controller).id == old(controller).id
                &&& (old(self).controllers@.contains_key(old(controller).id@) ==> r is Ok
                    && final(self).controllers@ == old(self).controllers@.insert(old(controller).id@, *final(controller)))
                &&& (!old(self).controllers@.contains_key(old(controller).id@) ==> r is Err
                    && final(self).controllers@ == old(self).controllers@)
            },
    {
        if !controller.is_connected {
            return Err(ControllerError::NotConnected);
        }
        controller.disconnect();
        self.update_controller(copy_controller(controller))
    }
}

/// The sessions in memory, by identifier.
pub struct SessionStore {
    pub sessions: IdStore<ControllerSession>,
}

impl SessionStore {
    pub open spec fn wf(&self) -> bool {
        self.sessions.wf()
    }

    /// No session.
    pub fn new() -> (s: Self)
        ensures
            s.wf(),
            s.sessions@ == Map::<Seq<char>, ControllerSession>::empty(),
    {
        SessionStore { sessions: IdStore::new() }
    }

    /// Adds a session; one whose identifier is taken is refused with
    /// `SessionAlreadyActive`.
    pub fn create_session(&mut self, session: ControllerSession) -> (r: Result<(), ControllerError>)
        requires
            old(self).wf(),
        ensures
            final(self).wf(),
            old(self).sessions@.contains_key(session.id@) ==> r == Err::<(), ControllerError>(
                ControllerError::SessionAlreadyActive,
            ) && final(self).sessions@ == old(self).sessions@,
            !old(self).sessions@.contains_key(session.id@) ==> r is Ok
                && final(self).sessions@ == old(self).sessions@.insert(session.id@, session),
    {
        match self.sessions.insert_new(session) {
            Ok(()) => Ok(()),
            Err(_) => Err(ControllerError::SessionAlreadyActive),
        }
    }

    /// The session `id`; a missing one is `SessionNotFound(id)`.
    pub fn get_session(&self, id: &str) -> (r: Result<&ControllerSession, ControllerError>)
        requires
            self.wf(),
        ensures
            match r {
                Ok(s) => self.sessions@.contains_key(id@) && *s == self.sessions@[id@],
                Err(e) => !self.sessions@.contains_key(id@) && (e matches ControllerError::SessionNotFound(m) && m@ == id@),
            },
    {
        match self.sessions.get(id) {
            Some(s) => Ok(s),
            None => Err(ControllerError::SessionNotFound(text::owned(id))),
        }
    }

    /// Replaces a stored session; a missing one is `SessionNotFound` with
    /// its identifier.
    pub fn update_session(&mut self, session: ControllerSession) -> (r: Result<(), ControllerError>)
        requires
            old(self).wf(),
        ensures
            final(self).wf(),
            old(self).sessions@.contains_key(session.id@) ==> r is Ok
                && final(self).sessions@ == old(self).sessions@.insert(session.id@, session),
            !old(self).sessions@.contains_key(session.id@) ==> (r matches Err(ControllerError::SessionNotFound(m))
                && m@ == session.id@) && final(self).sessions@ == old(self).sessions@,
    {
        match self.sessions.replace(session) {
            Ok(()) => Ok(()),
            Err(back) => Err(ControllerError::SessionNotFound(back.id)),
        }
    }

    /// Removes the session `id`; a missing one is `SessionNotFound(id)`.
    pub fn delete_session(&mut self, id: &str) -> (r: Result<(), ControllerError>)
        requires
            old(self).wf(),
        ensures
            final(self).wf(),
            old(self).sessions@.contains_key(id@) ==> r is Ok && final(self).sessions@ == old(self).sessions@.remove(id@),
            !old(self).sessions@.contains_key(id@) ==> (r matches Err(ControllerError::SessionNotFound(m)) && m@ == id@)
                && final(self).sessions@ == old(self).sessions@,
    {
        match self.sessions.remove(id) {
            Some(_) => Ok(()),
            None => Err(ControllerError::SessionNotFound(text::owned(id))),
        }
    }

    /// The stored sessions that are active.
    pub fn active_sessions(&self) -> (r: Vec<&ControllerSession>)
        requires
            self.wf(),
        ensures
            forall|i: int| 0 <= i < r@.len() ==> r@[i].is_active && self.sessions@.contains_key(r@[i].id@)
                && self.sessions@[r@[i].id@] == *r@[i],
            forall|k: Seq<char>| #[trigger] self.sessions@.contains_key(k) && self.sessions@[k].is_active
                ==> exists|i: int| 0 <= i < r@.len() && r@[i].id@ == k,
    {
        let all = self.sessions.values();
        let mut r: Vec<&ControllerSession> = Vec::new();
        let mut i: usize = 0;
        while i < all.len()
            invariant
                i <= all@.len(),
                forall|j: int| 0 <= j < all@.len() ==> self.sessions@.contains_key(all@[j].key_of())
                    && self.sessions@[all@[j].key_of()] == *all@[j],
                forall|q: int| 0 <= q < r@.len() ==> r@[q].is_active && self.sessions@.contains_key(r@[q].id@)
                    && self.sessions@[r@[q].id@] == *r@[q],
                forall|j: int| 0 <= j < i && all@[j].is_active ==> exists|q: int| 0 <= q < r@.len() && r@[q].id@ == all@[j].id@,
            decreases all@.len() - i,
        {
            let ghost before = r@;
            if all[i].is_active {
                r.push(all[i]);
                assert(r@[r@.len() - 1].id@ == all@[i as int].id@);
            }
            proof {
                assert forall|j: int| 0 <= j < i + 1 && all@[j].is_active implies exists|q: int| 0 <= q < r@.len() && r@[q].id@ == all@[j].id@ by {
                    if j < i {
                        let q = choose|q: int| 0 <= q < before.len() && before[q].id@ == all@[j].id@;
                        assert(r@[q] == before[q]);
                    } else {
                        assert(r@[r@.len() - 1].id@ == all@[j].id@);
                    }
                }
            }
            i = i + 1;
        }
        proof {
            assert forall|k: Seq<char>| #[trigger] self.sessions@.contains_key(k) && self.sessions@[k].is_active
                implies exists|q: int| 0 <= q < r@.len() && r@[q].id@ == k by {
                let j = choose|j: int| 0 <= j < all@.len() && all@[j].key_of() == k;
                assert(all@[j].is_active);
            }
        }
        r
    }
}

/// What a store gives back is what was last put in: after a controller is
/// added under a new identifier or replaced under an existing one, looking
/// its identifier up finds it, and every other identifier finds what it
/// found before.
pub proof fn lemma_read_after_write<T>(m: Map<Seq<char>, T>, k: Seq<char>, v: T, other: Seq<char>)
    ensures
        m.insert(k, v).contains_key(k) && m.insert(k, v)[k] == v,
        other != k ==> (m.insert(k, v).contains_key(other) == m.contains_key(other)),
        other != k && m.contains_key(other) ==> m.insert(k, v)[other] == m[other],
        !m.remove(k).contains_key(k),
{
}

} // verus!
