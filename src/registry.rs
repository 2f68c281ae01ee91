//! The connection registry: one entry per registered client, keyed by a
//! unique token, with the client's user, its current session and, once the
//! physical connection is attached, its outbound handle.

use vstd::prelude::*;

verus! {

/// One registered client. `sender` stays `None` until the live connection
/// is attached.
pub struct Client<H> {
    pub user_id: usize,
    pub game_id: usize,
    pub sender: Option<H>,
}

/// What the contracts see of one registry entry.
pub struct EntryView<H> {
    pub id: Seq<char>,
    pub user_id: usize,
    pub game_id: usize,
    pub sender: Option<H>,
}

pub open spec fn fresh_entry<H>(id: Seq<char>, user_id: usize, game_id: usize) -> EntryView<H> {
    EntryView { id, user_id, game_id, sender: None }
}

/// No two entries share an id.
pub open spec fn ids_unique<H>(s: Seq<EntryView<H>>) -> bool {
    forall|i: int, j: int|
        0 <= i < s.len() && 0 <= j < s.len() && i != j ==> #[trigger] s[i].id != #[trigger] s[j].id
}

pub open spec fn has_id<H>(s: Seq<EntryView<H>>, id: Seq<char>) -> bool {
    exists|i: int| 0 <= i < s.len() && #[trigger] s[i].id == id
}

/// The position of `id`; meaningful only where `has_id(s, id)`.
pub open spec fn index_of<H>(s: Seq<EntryView<H>>, id: Seq<char>) -> int {
    choose|i: int| 0 <= i < s.len() && #[trigger] s[i].id == id
}

/// The registry after registering `id`: a known id has its entry replaced by
/// a fresh one, an unknown id is appended.
pub open spec fn registered<H>(
    s: Seq<EntryView<H>>,
    id: Seq<char>,
    user_id: usize,
    game_id: usize,
) -> Seq<EntryView<H>> {
    if has_id(s, id) {
        s.update(index_of(s, id), fresh_entry(id, user_id, game_id))
    } else {
        s.push(fresh_entry(id, user_id, game_id))
    }
}

/// The registry after removing `id` (unchanged when `id` is unknown).
pub open spec fn unregistered<H>(s: Seq<EntryView<H>>, id: Seq<char>) -> Seq<EntryView<H>> {
    if has_id(s, id) {
        s.remove(index_of(s, id))
    } else {
        s
    }
}

/// The registry after the entry of `id` is attached to a live connection
/// whose outbound handle is `h`.
pub open spec fn attached<H>(s: Seq<EntryView<H>>, id: Seq<char>, h: H) -> Seq<EntryView<H>> {
    if has_id(s, id) {
        let i = index_of(s, id);
        s.update(i, EntryView { sender: Some(h), ..s[i] })
    } else {
        s
    }
}

/// The registry after the entry of `id` moves to session `game_id`.
pub open spec fn moved<H>(s: Seq<EntryView<H>>, id: Seq<char>, game_id: usize) -> Seq<EntryView<H>> {
    if has_id(s, id) {
        let i = index_of(s, id);
        s.update(i, EntryView { game_id, ..s[i] })
    } else {
        s
    }
}

/// Whether a message for session `game_id`, restricted to `user_id` when one
/// is given, is pushed to entry `e`: it must be attached, in that session,
/// and belong to that user if a user is named.
pub open spec fn is_target<H>(e: EntryView<H>, game_id: usize, user_id: Option<usize>) -> bool {
    &&& e.sender.is_some()
    &&& e.game_id == game_id
    &&& match user_id {
        Some(u) => e.user_id == u,
        None => true,
    }
}

/// `r` lists, in increasing order and once each, exactly the positions of
/// `s` that are targets of a message for (`game_id`, `user_id`).
pub open spec fn lists_targets<H>(
    r: Seq<usize>,
    s: Seq<EntryView<H>>,
    game_id: usize,
    user_id: Option<usize>,
) -> bool {
    &&& forall|k: int| 0 <= k < r.len() ==> (#[trigger] r[k]) < s.len()
    &&& forall|k: int| 0 <= k < r.len() ==> is_target(s[#[trigger] r[k] as int], game_id, user_id)
    &&& forall|k: int, l: int| 0 <= k < l < r.len() ==> #[trigger] r[k] < #[trigger] r[l]
    &&& forall|i: int|
        0 <= i < s.len() && is_target(#[trigger] s[i], game_id, user_id) ==> exists|k: int|
            0 <= k < r.len() && #[trigger] r[k] == i
}

/// The set of registered clients, each under its own token.
///
/// An entry that is registered but never attached stays until it is
/// unregistered explicitly: closing a connection removes only the entry it
/// was attached to.
pub struct Registry<H> {
    entries: Vec<(String, Client<H>)>,
}

pub open spec fn view_entry<H>(e: (String, Client<H>)) -> EntryView<H> {
    EntryView { id: e.0@, user_id: e.1.user_id, game_id: e.1.game_id, sender: e.1.sender }
}

impl<H> View for Registry<H> {
    type V = Seq<EntryView<H>>;

    closed spec fn view(&self) -> Seq<EntryView<H>> {
        self.entries@.map_values(|e: (String, Client<H>)| view_entry(e))
    }
}

impl<H> Registry<H> {
    /// Well-formed: no two entries share an id.
    pub open spec fn wf(&self) -> bool {
        ids_unique(self@)
    }

    /// An empty registry.
    pub fn new() -> (r: Self)
        ensures
            r.wf(),
            r@ == Seq::<EntryView<H>>::empty(),
    {
        let r = Registry { entries: Vec::new() };
        assert(r@ =~= Seq::<EntryView<H>>::empty());
        r
    }

    /// The number of entries, live or pending.
    pub fn len(&self) -> (r: usize)
        ensures
            r == self@.len(),
    {
        self.entries.len()
    }

    /// The position of the entry registered under `id`, if any.
    pub fn position(&self, id: &String) -> (r: Option<usize>)
        requires
            self.wf(),
        ensures
            r.is_some() == has_id(self@, id@),
            r matches Some(i) ==> i < self@.len() && self@[i as int].id == id@ && i == index_of(self@, id@),
    {
        let mut i: usize = 0;
        while i < self.entries.len()
            invariant
                i <= self.entries@.len(),
                self.wf(),
                self@.len() == self.entries@.len(),
                forall|j: int| 0 <= j < i ==> #[trigger] self@[j].id != id@,
            decreases self.entries@.len() - i,
        {
            proof {
                assert(self@[i as int] == view_entry(self.entries@[i as int]));
            }
            if self.entries[i].0 == *id {
                assert(self@[i as int].id == id@);
                assert(has_id(self@, id@));
                let ghost k = index_of(self@, id@);
                assert(self@[k].id == id@);
                return Some(i);
            }
            i = i + 1;
        }
        None
    }

    /// Whether a client is registered under `id`.
    pub fn contains(&self, id: &String) -> (r: bool)
        requires
            self.wf(),
        ensures
            r == has_id(self@, id@),
    {
        self.position(id).is_some()
    }

    /// Registers a client under `id`, not yet attached. A client already
    /// registered under `id` is replaced.
    pub fn register_client(&mut self, id: String, user_id: usize, game_id: usize)
        requires
            old(self).wf(),
        ensures
            final(self).wf(),
            final(self)@ == registered(old(self)@, id@, user_id, game_id),
    {
        let ghost idv = id@;
        let pos = self.position(&id);
        let client = Client { user_id, game_id, sender: None };
        match pos {
            Some(i) => {
                self.entries.set(i, (id, client));
                assert(self@ =~= registered(old(self)@, idv, user_id, game_id));
            },
            None => {
                self.entries.push((id, client));
                assert(self@ =~= registered(old(self)@, idv, user_id, game_id));
            },
        }
        assert(ids_unique(self@));
    }

    /// Attaches the outbound handle of a live connection to the client
    /// registered under `id`. Returns false, changing nothing, when no
    /// client is registered under `id`.
    pub fn attach(&mut self, id: &String, sender: H) -> (r: bool)
        requires
            old(self).wf(),
        ensures
            final(self).wf(),
            r == has_id(old(self)@, id@),
            final(self)@ == attached(old(self)@, id@, sender),
    {
        let ghost h = sender;
        match self.position(id) {
            Some(i) => {
                let (key, client) = self.entries.remove(i);
                let updated = Client { user_id: client.user_id, game_id: client.game_id, sender: Some(sender) };
                self.entries.insert(i, (key, updated));
                assert(self@ =~= attached(old(self)@, id@, h));
                assert(ids_unique(self@));
                true
            },
            None => false,
        }
    }

    /// Moves the client registered under `id` to session `game_id`. Returns
    /// false, changing nothing, when no client is registered under `id`.
    pub fn set_session(&mut self, id: &String, game_id: usize) -> (r: bool)
        requires
            old(self).wf(),
        ensures
            final(self).wf(),
            r == has_id(old(self)@, id@),
            final(self)@ == moved(old(self)@, id@, game_id),
    {
        match self.position(id) {
            Some(i) => {
                let (key, client) = self.entries.remove(i);
                let updated = Client { user_id: client.user_id, game_id, sender: client.sender };
                self.entries.insert(i, (key, updated));
                assert(self@ =~= moved(old(self)@, id@, game_id));
                assert(ids_unique(self@));
                true
            },
            None => false,
        }
    }

    /// Removes the client registered under `id`; nothing happens when there
    /// is none.
    pub fn unregister(&mut self, id: &String)
        requires
            old(self).wf(),
        ensures
            final(self).wf(),
            final(self)@ == unregistered(old(self)@, id@),
            !has_id(final(self)@, id@),
    {
        match self.position(id) {
            Some(i) => {
                let _ = self.entries.remove(i);
                assert(self@ =~= unregistered(old(self)@, id@));
                proof {
                    lemma_unregistered(old(self)@, id@);
                }
            },
            None => {
                proof {
                    lemma_unregistered(old(self)@, id@);
                }
            },
        }
    }

    /// The positions, in order, of the attached clients in session
    /// `game_id` that belong to `user_id` when one is given.
    pub fn targets(&self, game_id: usize, user_id: Option<usize>) -> (r: Vec<usize>)
        ensures
            lists_targets(r@, self@, game_id, user_id),
    {
        let mut r: Vec<usize> = Vec::new();
        let mut i: usize = 0;
        while i < self.entries.len()
            invariant
                i <= self.entries@.len(),
                self@.len() == self.entries@.len(),
                forall|k: int| 0 <= k < r@.len() ==> (#[trigger] r@[k]) < i,
                forall|k: int| 0 <= k < r@.len() ==> is_target(self@[#[trigger] r@[k] as int], game_id, user_id),
                forall|k: int, l: int| 0 <= k < l < r@.len() ==> #[trigger] r@[k] < #[trigger] r@[l],
                forall|j: int|
                    0 <= j < i && is_target(#[trigger] self@[j], game_id, user_id) ==> exists|k: int|
                        0 <= k < r@.len() && #[trigger] r@[k] == j,
            decreases self.entries@.len() - i,
        {
            assert(self@[i as int] == view_entry(self.entries@[i as int]));
            let client = &self.entries[i].1;
            let user_ok = match user_id {
                Some(u) => client.user_id == u,
                None => true,
            };
            if client.sender.is_some() && client.game_id == game_id && user_ok {
                let ghost r0 = r@;
                r.push(i);
                assert forall|j: int|
                    0 <= j < i + 1 && is_target(#[trigger] self@[j], game_id, user_id) implies exists|k: int|
                        0 <= k < r@.len() && #[trigger] r@[k] == j by {
                    if j < i {
                        let k0 = choose|k: int| 0 <= k < r0.len() && #[trigger] r0[k] == j;
                        assert(r@[k0] == j);
                    } else {
                        assert(r@[r0.len() as int] == j);
                    }
                }
            }
            i = i + 1;
        }
        r
    }

    /// The outbound handle of the client at position `i`, if attached.
    pub fn outbound(&self, i: usize) -> (r: Option<&H>)
        requires
            i < self@.len(),
        ensures
            r.is_some() == self@[i as int].sender.is_some(),
            r matches Some(h) ==> self@[i as int].sender == Some(*h),
    {
        assert(self@[i as int] == view_entry(self.entries@[i as int]));
        self.entries[i].1.sender.as_ref()
    }

    /// The token of the client at position `i`.
    pub fn id_at(&self, i: usize) -> (r: &String)
        requires
            i < self@.len(),
        ensures
            r@ == self@[i as int].id,
    {
        assert(self@[i as int] == view_entry(self.entries@[i as int]));
        &self.entries[i].0
    }
}

} // verus!

verus! {

proof fn lemma_index_of<H>(s: Seq<EntryView<H>>, id: Seq<char>)
    requires
        has_id(s, id),
    ensures
        0 <= index_of(s, id) < s.len(),
        s[index_of(s, id)].id == id,
{
}

/// Removing `id` keeps ids unique and leaves no entry under `id`; every
/// remaining entry is the one that stood before it (or right after it).
pub proof fn lemma_unregistered<H>(s: Seq<EntryView<H>>, id: Seq<char>)
    requires
        ids_unique(s),
    ensures
        ids_unique(unregistered(s, id)),
        !has_id(unregistered(s, id), id),
        forall|j: int| 0 <= j < unregistered(s, id).len() ==> #[trigger] s.contains(unregistered(s, id)[j]),
{
    let t = unregistered(s, id);
    if has_id(s, id) {
        lemma_index_of(s, id);
        let i = index_of(s, id);
        assert forall|a: int, b: int| 0 <= a < t.len() && 0 <= b < t.len() && a != b implies
            #[trigger] t[a].id != #[trigger] t[b].id by {
            let a0 = if a < i { a } else { a + 1 };
            let b0 = if b < i { b } else { b + 1 };
            assert(t[a] == s[a0]);
            assert(t[b] == s[b0]);
        }
        assert forall|j: int| 0 <= j < t.len() implies #[trigger] t[j].id != id && s.contains(t[j]) by {
            let j0 = if j < i { j } else { j + 1 };
            assert(t[j] == s[j0]);
        }
    } else {
        assert forall|j: int| 0 <= j < t.len() implies #[trigger] s.contains(t[j]) by {
            assert(t[j] == s[j]);
        }
    }
}

/// Registering, attaching, moving and unregistering keep ids unique.
/// Attaching `id` to `h` gives that entry exactly the handle `h` and keeps
/// its user and session, and every other entry with its handle. After
/// unregistering `id`, no entry carries `id`, and registering another id
/// does not bring it back.
pub proof fn lemma_ids_stay_unique<H>(
    s: Seq<EntryView<H>>,
    id: Seq<char>,
    other: Seq<char>,
    h: H,
    user_id: usize,
    game_id: usize,
)
    requires
        ids_unique(s),
    ensures
        ids_unique(registered(s, id, user_id, game_id)),
        ids_unique(attached(s, id, h)),
        ids_unique(moved(s, id, game_id)),
        ids_unique(unregistered(s, id)),
        !has_id(unregistered(s, id), id),
        other != id ==> !has_id(registered(unregistered(s, id), other, user_id, game_id), id),
        attached(s, id, h).len() == s.len(),
        forall|j: int| 0 <= j < s.len() && #[trigger] s[j].id == id ==> attached(s, id, h)[j] == (EntryView {
            sender: Some(h),
            ..s[j]
        }),
        forall|j: int| 0 <= j < s.len() && #[trigger] s[j].id != id ==> attached(s, id, h)[j] == s[j],
{
    lemma_unregistered(s, id);
    let t = unregistered(s, id);
    let at = attached(s, id, h);
    let m = moved(s, id, game_id);
    let rg = registered(s, id, user_id, game_id);
    if has_id(s, id) {
        lemma_index_of(s, id);
        let i = index_of(s, id);
        assert forall|a: int, b: int| 0 <= a < m.len() && 0 <= b < m.len() && a != b implies
            #[trigger] m[a].id != #[trigger] m[b].id by {
            assert(m[a].id == s[a].id);
            assert(m[b].id == s[b].id);
        }
        assert forall|a: int, b: int| 0 <= a < at.len() && 0 <= b < at.len() && a != b implies
            #[trigger] at[a].id != #[trigger] at[b].id by {
            assert(at[a].id == s[a].id);
            assert(at[b].id == s[b].id);
        }
        assert forall|a: int, b: int| 0 <= a < rg.len() && 0 <= b < rg.len() && a != b implies
            #[trigger] rg[a].id != #[trigger] rg[b].id by {
            assert(rg[a].id == s[a].id);
            assert(rg[b].id == s[b].id);
        }
        assert forall|j: int| 0 <= j < s.len() && #[trigger] s[j].id == id implies at[j] == (EntryView {
            sender: Some(h),
            ..s[j]
        }) by {
            assert(j == i);
        }
    } else {
        assert forall|a: int, b: int| 0 <= a < rg.len() && 0 <= b < rg.len() && a != b implies
            #[trigger] rg[a].id != #[trigger] rg[b].id by {
            if a < s.len() && b < s.len() {
            } else if a < s.len() {
                assert(s[a].id != id);
            } else {
                assert(s[b].id != id);
            }
        }
        assert(at == s);
        assert(m == s);
    }
    lemma_register_elsewhere(t, id, other, user_id, game_id);
}

proof fn lemma_register_elsewhere<H>(
    t: Seq<EntryView<H>>,
    id: Seq<char>,
    other: Seq<char>,
    user_id: usize,
    game_id: usize,
)
    requires
        !has_id(t, id),
    ensures
        other != id ==> !has_id(registered(t, other, user_id, game_id), id),
{
    if other != id {
        let rg = registered(t, other, user_id, game_id);
        if has_id(t, other) {
            lemma_index_of(t, other);
        }
        assert forall|j: int| 0 <= j < rg.len() implies #[trigger] rg[j].id != id by {
            if j < t.len() && !(has_id(t, other) && j == index_of(t, other)) {
                assert(rg[j] == t[j]);
            }
        }
    }
}

/// Once the client `id` has been unregistered (its connection closed), no
/// broadcast lists it among its targets: each target is an entry, with its
/// own handle, that was registered under another id before.
pub proof fn lemma_disconnected_not_targeted<H>(
    s: Seq<EntryView<H>>,
    id: Seq<char>,
    r: Seq<usize>,
    game_id: usize,
    user_id: Option<usize>,
)
    requires
        ids_unique(s),
        lists_targets(r, unregistered(s, id), game_id, user_id),
    ensures
        forall|k: int| 0 <= k < r.len() ==> unregistered(s, id)[#[trigger] r[k] as int].id != id,
        forall|k: int| 0 <= k < r.len() ==> s.contains(unregistered(s, id)[#[trigger] r[k] as int]),
{
    lemma_unregistered(s, id);
    let t = unregistered(s, id);
    assert forall|k: int| 0 <= k < r.len() implies t[#[trigger] r[k] as int].id != id && s.contains(
        t[r[k] as int],
    ) by {
        assert(r[k] < t.len());
    }
}

/// After the attached client `id` joins session `game_id`, its entry is in
/// that session with the same handle, every other entry is unchanged, and a
/// broadcast to `game_id` targets it.
pub proof fn lemma_join_then_targeted<H>(s: Seq<EntryView<H>>, id: Seq<char>, game_id: usize)
    requires
        ids_unique(s),
        has_id(s, id),
        s[index_of(s, id)].sender.is_some(),
    ensures
        ({
            let t = moved(s, id, game_id);
            &&& t.len() == s.len()
            &&& forall|j: int|
                0 <= j < t.len() && #[trigger] t[j].id == id ==> is_target(t[j], game_id, None)
                    && t[j].sender == s[j].sender && t[j].user_id == s[j].user_id
            &&& forall|j: int| 0 <= j < t.len() && #[trigger] t[j].id != id ==> t[j] == s[j]
            &&& has_id(t, id)
        }),
{
    lemma_index_of(s, id);
    let i = index_of(s, id);
    let t = moved(s, id, game_id);
    assert forall|j: int|
        0 <= j < t.len() && #[trigger] t[j].id == id implies is_target(t[j], game_id, None)
            && t[j].sender == s[j].sender && t[j].user_id == s[j].user_id by {
        if j != i {
            assert(t[j] == s[j]);
        }
    }
    assert(t[i].id == id);
}

} // verus!
