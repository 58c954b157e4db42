//! Upload sessions of the chunked protocol, and the registry that holds them.
//!
//! The registry is a plain value: whoever shares it between tasks puts it
//! behind a lock, and every method here is then one atomic step.

use crate::text::{clone_names, names};
use vstd::prelude::*;

verus! {

/// What a session is, as plain mathematical values.
pub struct SessionView {
    pub upload_id: Seq<char>,
    pub filename: Seq<char>,
    pub total_size: u64,
    pub total_chunks: u32,
    pub chunk_size: u64,
    pub upload_path: Seq<Seq<char>>,
    pub logical_path: Seq<Seq<char>>,
    pub temp_dir: Seq<Seq<char>>,
    pub received_chunks: Seq<bool>,
    pub created_at: u64,
}

/// An upload in progress: what the client declared, where the file will go,
/// where its chunks wait, and which of them have arrived.
#[derive(Clone, Debug, PartialEq, Eq)]
pub struct UploadSession {
    /// The opaque identifier the client quotes in every later request.
    pub upload_id: String,
    /// The name of the file to create.
    pub filename: String,
    /// The size the client declared for the whole file.
    pub total_size: u64,
    /// The number of chunks the client will send.
    pub total_chunks: u32,
    /// The size the client declared for one chunk.
    pub chunk_size: u64,
    /// The directory the file will be created in (links resolved).
    pub upload_path: Vec<String>,
    /// The same directory as the client asked for it (no link followed):
    /// the one that the client is told of.
    pub logical_path: Vec<String>,
    /// The private directory that holds the chunks until they are merged.
    pub temp_dir: Vec<String>,
    /// For each chunk index, whether that chunk has arrived.
    pub received_chunks: Vec<bool>,
    /// When the session was created, in seconds on the caller's clock.
    pub created_at: u64,
}

impl View for UploadSession {
    type V = SessionView;

    open spec fn view(&self) -> SessionView {
        SessionView {
            upload_id: self.upload_id@,
            filename: self.filename@,
            total_size: self.total_size,
            total_chunks: self.total_chunks,
            chunk_size: self.chunk_size,
            upload_path: names(self.upload_path@),
            logical_path: names(self.logical_path@),
            temp_dir: names(self.temp_dir@),
            received_chunks: self.received_chunks@,
            created_at: self.created_at,
        }
    }
}

/// The indices that are still `false` in `received`, in rising order.
pub open spec fn missing(received: Seq<bool>) -> Seq<u32>
    decreases received.len(),
{
    if received.len() == 0 {
        Seq::<u32>::empty()
    } else if received.last() {
        missing(received.drop_last())
    } else {
        missing(received.drop_last()).push((received.len() - 1) as u32)
    }
}

/// Whether a session created at `created_at` has outlived `ttl` at `now`.
/// A clock that went backwards makes nothing expire.
pub open spec fn expired(created_at: u64, now: u64, ttl: u64) -> bool {
    now >= created_at && now - created_at > ttl
}

impl SessionView {
    /// Whether there is one flag for each declared chunk.
    pub open spec fn wf(self) -> bool {
        self.received_chunks.len() == self.total_chunks
    }

    /// This session with chunk `index` marked as received.
    pub open spec fn with_chunk(self, index: u32) -> SessionView {
        SessionView { received_chunks: self.received_chunks.update(index as int, true), ..self }
    }
}

impl UploadSession {
    /// Whether there is one flag for each declared chunk.
    pub open spec fn wf(&self) -> bool {
        self@.wf()
    }

    /// A fresh session: nothing has been received yet.
    pub fn new(
        upload_id: String,
        filename: String,
        total_size: u64,
        total_chunks: u32,
        chunk_size: u64,
        upload_path: Vec<String>,
        logical_path: Vec<String>,
        temp_dir: Vec<String>,
        created_at: u64,
    ) -> (s: UploadSession)
        ensures
            s.wf(),
            s@ == (SessionView {
                upload_id: upload_id@,
                filename: filename@,
                total_size,
                total_chunks,
                chunk_size,
                upload_path: names(upload_path@),
                logical_path: names(logical_path@),
                temp_dir: names(temp_dir@),
                received_chunks: Seq::new(total_chunks as nat, |i: int| false),
                created_at,
            }),
    {
        let mut received_chunks: Vec<bool> = Vec::new();
        let mut i: u32 = 0;
        while i < total_chunks
            invariant
                i <= total_chunks,
                received_chunks@ == Seq::new(i as nat, |k: int| false),
            decreases total_chunks - i,
        {
            received_chunks.push(false);
            i += 1;
            assert(received_chunks@ =~= Seq::new(i as nat, |k: int| false));
        }
        UploadSession {
            upload_id,
            filename,
            total_size,
            total_chunks,
            chunk_size,
            upload_path,
            logical_path,
            temp_dir,
            received_chunks,
            created_at,
        }
    }

    /// A copy of this session as it is now.
    pub fn snapshot(&self) -> (s: UploadSession)
        ensures
            s@ == self@,
    {
        let mut received_chunks: Vec<bool> = Vec::new();
        let mut i: usize = 0;
        while i < self.received_chunks.len()
            invariant
                i <= self.received_chunks.len(),
                received_chunks@ == self.received_chunks@.subrange(0, i as int),
            decreases self.received_chunks.len() - i,
        {
            received_chunks.push(self.received_chunks[i]);
            i += 1;
        }
        assert(received_chunks@ =~= self.received_chunks@);
        UploadSession {
            upload_id: self.upload_id.clone(),
            filename: self.filename.clone(),
            total_size: self.total_size,
            total_chunks: self.total_chunks,
            chunk_size: self.chunk_size,
            upload_path: clone_names(&self.upload_path),
            logical_path: clone_names(&self.logical_path),
            temp_dir: clone_names(&self.temp_dir),
            received_chunks,
            created_at: self.created_at,
        }
    }

    /// The chunks that have not arrived, by index, in rising order.
    pub fn missing_chunks(&self) -> (out: Vec<u32>)
        requires
            self.wf(),
        ensures
            out@ == missing(self.received_chunks@),
    {
        let mut out: Vec<u32> = Vec::new();
        let mut i: u32 = 0;
        proof {
            assert(self.received_chunks@.subrange(0, 0) =~= Seq::<bool>::empty());
        }
        while i < self.total_chunks
            invariant
                i <= self.total_chunks,
                self.received_chunks.len() == self.total_chunks,
                out@ == missing(self.received_chunks@.subrange(0, i as int)),
            decreases self.total_chunks - i,
        {
            let ghost next = self.received_chunks@.subrange(0, i + 1);
            proof {
                assert(next.drop_last() =~= self.received_chunks@.subrange(0, i as int));
            }
            if !self.received_chunks[i as usize] {
                out.push(i);
            }
            i += 1;
        }
        proof {
            assert(self.received_chunks@.subrange(0, i as int) =~= self.received_chunks@);
        }
        out
    }

    /// Whether this session has outlived `ttl` at `now`.
    pub fn is_expired(&self, now: u64, ttl: u64) -> (r: bool)
        ensures
            r == expired(self.created_at, now, ttl),
    {
        now >= self.created_at && now - self.created_at > ttl
    }
}

/// An index is listed as missing exactly if it is a chunk index whose flag
/// is still down; the list rises strictly, so no index is listed twice.
pub proof fn lemma_missing_lists_unreceived(received: Seq<bool>)
    requires
        received.len() <= u32::MAX,
    ensures
        forall|i: u32| #[trigger]
            missing(received).contains(i) <==> (i < received.len() && !received[i as int]),
        forall|a: int, b: int|
            0 <= a < b < missing(received).len() ==> missing(received)[a] < missing(received)[b],
        missing(received).len() == 0 <==> forall|i: int| 0 <= i < received.len() ==> received[i],
    decreases received.len(),
{
    if received.len() > 0 {
        let before = received.drop_last();
        let last = (received.len() - 1) as u32;
        lemma_missing_lists_unreceived(before);
        let m = missing(received);
        let mb = missing(before);
        assert forall|i: u32| m.contains(i) <==> (i < received.len() && !received[i as int]) by {
            if received.last() {
                assert(m == mb);
                if i < before.len() {
                    assert(before[i as int] == received[i as int]);
                }
            } else {
                assert(m == mb.push(last));
                if m.contains(i) {
                    let k = choose|k: int| 0 <= k < m.len() && m[k] == i;
                    if k < mb.len() {
                        assert(mb[k] == i);
                        assert(mb.contains(i));
                        assert(before[i as int] == received[i as int]);
                    }
                }
                if i < received.len() && !received[i as int] {
                    if i == last {
                        assert(m[m.len() - 1] == last);
                    } else {
                        assert(before[i as int] == received[i as int]);
                        assert(mb.contains(i));
                        let k = choose|k: int| 0 <= k < mb.len() && mb[k] == i;
                        assert(m[k] == i);
                    }
                }
            }
        }
        assert forall|a: int, b: int| 0 <= a < b < m.len() implies m[a] < m[b] by {
            if received.last() {
                assert(m == mb);
            } else {
                assert(m == mb.push(last));
                if b == m.len() - 1 {
                    assert(mb.contains(mb[a]));
                    assert(mb[a] < before.len());
                }
            }
        }
        if m.len() == 0 {
            assert forall|i: int| 0 <= i < received.len() implies received[i] by {
                if !received[i] {
                    assert(m.contains(i as u32));
                }
            }
        } else {
            assert(m.contains(m[0]));
        }
    }
}

/// Whether some session in `sessions` has the identifier `id`.
spec fn holds(sessions: Seq<UploadSession>, id: Seq<char>) -> bool {
    exists|i: int| 0 <= i < sessions.len() && (#[trigger] sessions[i]).upload_id@ == id
}

/// The place of a session with the identifier `id` in `sessions`.
spec fn slot(sessions: Seq<UploadSession>, id: Seq<char>) -> int {
    choose|i: int| 0 <= i < sessions.len() && (#[trigger] sessions[i]).upload_id@ == id
}

/// The sessions as a map from identifier to session.
spec fn as_map(sessions: Seq<UploadSession>) -> Map<Seq<char>, SessionView> {
    Map::new(|id: Seq<char>| holds(sessions, id), |id: Seq<char>| sessions[slot(sessions, id)]@)
}

/// Whether no two sessions share an identifier and each has one flag per
/// chunk.
spec fn orderly(sessions: Seq<UploadSession>) -> bool {
    &&& forall|i: int, j: int|
        0 <= i < j < sessions.len() ==> (#[trigger] sessions[i]).upload_id@ != (
        #[trigger] sessions[j]).upload_id@
    &&& forall|i: int| 0 <= i < sessions.len() ==> (#[trigger] sessions[i]).wf()
}

/// In an orderly list, the map gives for each session's identifier that
/// very session.
proof fn lemma_as_map_at(sessions: Seq<UploadSession>, i: int)
    requires
        orderly(sessions),
        0 <= i < sessions.len(),
    ensures
        as_map(sessions).contains_key(sessions[i].upload_id@),
        as_map(sessions)[sessions[i].upload_id@] == sessions[i]@,
        slot(sessions, sessions[i].upload_id@) == i,
{
    let id = sessions[i].upload_id@;
    assert(holds(sessions, id));
    let k = slot(sessions, id);
    assert(0 <= k < sessions.len() && sessions[k].upload_id@ == id);
    if k < i {
        assert(sessions[k].upload_id@ != sessions[i].upload_id@);
    } else if i < k {
        assert(sessions[i].upload_id@ != sessions[k].upload_id@);
    }
}

/// Putting a session in the place of one with the same identifier keeps
/// the list orderly, and the map is the old one with that session under its
/// identifier.
proof fn lemma_replaced(before: Seq<UploadSession>, i: int, session: UploadSession)
    requires
        orderly(before),
        0 <= i < before.len(),
        before[i].upload_id@ == session.upload_id@,
        session.wf(),
    ensures
        orderly(before.update(i, session)),
        as_map(before.update(i, session)) == as_map(before).insert(session.upload_id@, session@),
{
    let after = before.update(i, session);
    let id = session.upload_id@;
    let entry = session@;
    assert forall|a: int, b: int| 0 <= a < b < after.len() implies (#[trigger] after[a]).upload_id@
        != (#[trigger] after[b]).upload_id@ by {
        assert(before[a].upload_id@ == after[a].upload_id@);
        assert(before[b].upload_id@ == after[b].upload_id@);
    }
    assert forall|a: int| 0 <= a < after.len() implies (#[trigger] after[a]).wf() by {
        if a != i {
            assert(before[a].wf());
        }
    }
    assert forall|k: Seq<char>| #[trigger]
        as_map(after).contains_key(k) <==> as_map(before).insert(id, entry).contains_key(k) by {
        if holds(after, k) {
            let a = slot(after, k);
            assert(before[a].upload_id@ == after[a].upload_id@);
        }
        if holds(before, k) {
            let a = slot(before, k);
            assert(before[a].upload_id@ == after[a].upload_id@);
        }
        if k == id {
            assert(after[i].upload_id@ == id);
        }
    }
    assert forall|k: Seq<char>| #[trigger] as_map(after).contains_key(k) implies as_map(after)[k]
        == as_map(before).insert(id, entry)[k] by {
        let a = slot(after, k);
        lemma_as_map_at(after, a);
        if a != i {
            assert(before[a] == after[a]);
            lemma_as_map_at(before, a);
        }
    }
    assert(as_map(after) =~= as_map(before).insert(id, entry));
}

/// Adding a session whose identifier is new keeps the list orderly, and
/// the map is the old one with that session under its identifier.
proof fn lemma_added(before: Seq<UploadSession>, session: UploadSession)
    requires
        orderly(before),
        !holds(before, session.upload_id@),
        session.wf(),
    ensures
        orderly(before.push(session)),
        as_map(before.push(session)) == as_map(before).insert(session.upload_id@, session@),
{
    let after = before.push(session);
    let id = session.upload_id@;
    let entry = session@;
    assert forall|a: int, b: int| 0 <= a < b < after.len() implies (#[trigger] after[a]).upload_id@
        != (#[trigger] after[b]).upload_id@ by {
        assert(before[a] == after[a]);
        if b < before.len() {
            assert(before[b] == after[b]);
        }
    }
    assert forall|a: int| 0 <= a < after.len() implies (#[trigger] after[a]).wf() by {
        if a < before.len() {
            assert(before[a] == after[a]);
        }
    }
    assert forall|k: Seq<char>| #[trigger]
        as_map(after).contains_key(k) <==> as_map(before).insert(id, entry).contains_key(k) by {
        if holds(after, k) {
            let a = slot(after, k);
            if a < before.len() {
                assert(before[a] == after[a]);
            }
        }
        if holds(before, k) {
            let a = slot(before, k);
            assert(before[a] == after[a]);
        }
        if k == id {
            assert(after[before.len() as int].upload_id@ == id);
        }
    }
    assert forall|k: Seq<char>| #[trigger] as_map(after).contains_key(k) implies as_map(after)[k]
        == as_map(before).insert(id, entry)[k] by {
        let a = slot(after, k);
        lemma_as_map_at(after, a);
        if a < before.len() {
            assert(before[a] == after[a]);
            lemma_as_map_at(before, a);
        }
    }
    assert(as_map(after) =~= as_map(before).insert(id, entry));
}

/// The registry of the uploads in progress, by identifier.
pub struct SessionStore {
    sessions: Vec<UploadSession>,
}

/// The registry under the name its users know it by.
pub type UploadSessions = SessionStore;

/// An empty registry.
pub fn new_upload_sessions() -> (store: UploadSessions)
    ensures
        store@ == Map::<Seq<char>, SessionView>::empty(),
{
    SessionStore::new()
}

impl View for SessionStore {
    type V = Map<Seq<char>, SessionView>;

    closed spec fn view(&self) -> Map<Seq<char>, SessionView> {
        as_map(self.sessions@)
    }
}

impl SessionStore {
    #[verifier::type_invariant]
    spec fn inv(&self) -> bool {
        orderly(self.sessions@)
    }

    /// An empty registry.
    pub fn new() -> (store: SessionStore)
        ensures
            store@ == Map::<Seq<char>, SessionView>::empty(),
    {
        let store = SessionStore { sessions: Vec::new() };
        assert(store@ =~= Map::<Seq<char>, SessionView>::empty());
        store
    }

    /// The number of sessions.
    pub fn len(&self) -> (n: usize)
        ensures
            n == self@.dom().len(),
            self@.dom().finite(),
    {
        proof {
            use_type_invariant(self);
            lemma_as_map_len(self.sessions@);
        }
        self.sessions.len()
    }

    /// Where the session `id` is kept, if there is one.
    fn position(&self, id: &str) -> (at: Option<usize>)
        ensures
            match at {
                Some(i) => i < self.sessions.len() && self.sessions@[i as int].upload_id@ == id@,
                None => !holds(self.sessions@, id@),
            },
    {
        let key = id.to_owned();
        let mut i: usize = 0;
        while i < self.sessions.len()
            invariant
                i <= self.sessions.len(),
                key@ == id@,
                forall|j: int| 0 <= j < i ==> (#[trigger] self.sessions@[j]).upload_id@ != id@,
            decreases self.sessions.len() - i,
        {
            if self.sessions[i].upload_id == key {
                return Some(i);
            }
            i += 1;
        }
        None
    }

    /// Whether a session `id` is registered.
    pub fn contains(&self, id: &str) -> (r: bool)
        ensures
            r == self@.contains_key(id@),
    {
        self.position(id).is_some()
    }

    /// Registers `session` under its identifier. A session that was
    /// registered under the same identifier is replaced.
    pub fn create(&mut self, session: UploadSession)
        requires
            session.wf(),
        ensures
            final(self)@ == old(self)@.insert(session.upload_id@, session@),
    {
        proof {
            use_type_invariant(&*self);
        }
        let at = self.position(session.upload_id.as_str());
        let mut sessions: Vec<UploadSession> = Vec::new();
        std::mem::swap(&mut sessions, &mut self.sessions);
        let ghost before = sessions@;
        let ghost id = session.upload_id@;
        let ghost entry = session@;
        match at {
            Some(i) => {
                proof {
                    lemma_replaced(before, i as int, session);
                }
                sessions.set(i, session);
            },
            None => {
                proof {
                    lemma_added(before, session);
                }
                sessions.push(session);
            },
        }
        self.sessions = sessions;
    }

    /// A copy of the session `id` as it is now, if it is registered. The
    /// copy is the caller's own: later changes to the registry do not show
    /// in it.
    pub fn get(&self, id: &str) -> (r: Option<UploadSession>)
        ensures
            match r {
                Some(s) => self@.contains_key(id@) && s@ == self@[id@] && s.wf() && s.upload_id@
                    == id@,
                None => !self@.contains_key(id@),
            },
    {
        proof {
            use_type_invariant(self);
        }
        match self.position(id) {
            Some(i) => {
                proof {
                    lemma_as_map_at(self.sessions@, i as int);
                }
                Some(self.sessions[i].snapshot())
            },
            None => None,
        }
    }

    /// Marks chunk `index` of the session `id` as received, in one step.
    /// Returns whether that was done: it is not where the session is not
    /// registered or has no chunk of that index, and the registry is then
    /// unchanged. Marking a chunk twice is the same as marking it once.
    pub fn mark_received(&mut self, id: &str, index: u32) -> (done: bool)
        ensures
            done == (old(self)@.contains_key(id@) && index < old(self)@[id@].total_chunks),
            done ==> final(self)@ == old(self)@.insert(id@, old(self)@[id@].with_chunk(index)),
            !done ==> final(self)@ == old(self)@,
    {
        proof {
            use_type_invariant(&*self);
        }
        let at = self.position(id);
        match at {
            None => false,
            Some(i) => {
                proof {
                    lemma_as_map_at(self.sessions@, i as int);
                }
                if index >= self.sessions[i].total_chunks {
                    return false;
                }
                let mut sessions: Vec<UploadSession> = Vec::new();
                std::mem::swap(&mut sessions, &mut self.sessions);
                let ghost before = sessions@;
                let mut session = sessions[i].snapshot();
                assert(session.wf());
                session.received_chunks.set(index as usize, true);
                let ghost entry = session@;
                assert(entry == before[i as int]@.with_chunk(index));
                proof {
                    lemma_replaced(before, i as int, session);
                }
                sessions.set(i, session);
                self.sessions = sessions;
                true
            },
        }
    }

    /// Takes the session `id` out of the registry and returns it, if it is
    /// registered.
    pub fn remove(&mut self, id: &str) -> (r: Option<UploadSession>)
        ensures
            final(self)@ == old(self)@.remove(id@),
            match r {
                Some(s) => old(self)@.contains_key(id@) && s@ == old(self)@[id@] && s.wf()
                    && s.upload_id@ == id@,
                None => !old(self)@.contains_key(id@),
            },
    {
        proof {
            use_type_invariant(&*self);
        }
        let at = self.position(id);
        match at {
            None => {
                assert(self@ =~= self@.remove(id@));
                None
            },
            Some(i) => {
                proof {
                    lemma_as_map_at(self.sessions@, i as int);
                }
                let mut sessions: Vec<UploadSession> = Vec::new();
                std::mem::swap(&mut sessions, &mut self.sessions);
                let ghost before = sessions@;
                let session = sessions.remove(i);
                proof {
                    lemma_without(before, i as int);
                }
                self.sessions = sessions;
                Some(session)
            },
        }
    }

    /// Takes every session that has outlived `ttl` at `now` out of the
    /// registry and returns them, so that their scratch directories can be
    /// deleted. Sessions that have not expired stay as they are.
    pub fn take_expired(&mut self, now: u64, ttl: u64) -> (out: Vec<UploadSession>)
        ensures
            final(self)@ == old(self)@.remove_keys(
                Set::new(
                    |id: Seq<char>|
                        old(self)@.contains_key(id) && expired(old(self)@[id].created_at, now, ttl),
                ),
            ),
            forall|k: int|
                0 <= k < out.len() ==> old(self)@.contains_key((#[trigger] out@[k]).upload_id@)
                    && old(self)@[out@[k].upload_id@] == out@[k]@ && expired(
                    out@[k].created_at,
                    now,
                    ttl,
                ),
            forall|id: Seq<char>|
                old(self)@.contains_key(id) && expired(old(self)@[id].created_at, now, ttl)
                    ==> exists|k: int| 0 <= k < out.len() && (#[trigger] out@[k]).upload_id@ == id,
            forall|a: int, b: int|
                0 <= a < b < out.len() ==> (#[trigger] out@[a]).upload_id@ != (
                #[trigger] out@[b]).upload_id@,
    {
        proof {
            use_type_invariant(&*self);
        }
        let mut sessions: Vec<UploadSession> = Vec::new();
        std::mem::swap(&mut sessions, &mut self.sessions);
        let ghost start = sessions@;
        let ghost gone = Set::new(
            |id: Seq<char>|
                as_map(start).contains_key(id) && expired(as_map(start)[id].created_at, now, ttl),
        );
        let mut out: Vec<UploadSession> = Vec::new();
        let mut i: usize = 0;
        proof {
            assert(as_map(start) =~= as_map(start).remove_keys(
                Set::new(|id: Seq<char>| gone.contains(id) && false),
            ));
        }
        // Sessions before `i` have been looked at: the expired ones are in
        // `out`, the others stay. Sessions from `i` on are as they were.
        while i < sessions.len()
            invariant
                i <= sessions.len(),
                orderly(start),
                orderly(sessions@),
                gone == Set::new(
                    |id: Seq<char>|
                        as_map(start).contains_key(id) && expired(
                            as_map(start)[id].created_at,
                            now,
                            ttl,
                        ),
                ),
                forall|id: Seq<char>| #[trigger]
                    as_map(sessions@).contains_key(id) ==> as_map(start).contains_key(id)
                        && as_map(start)[id] == as_map(sessions@)[id],
                forall|id: Seq<char>|
                    as_map(start).contains_key(id) && !gone.contains(id) ==> #[trigger] as_map(
                        sessions@,
                    ).contains_key(id),
                forall|j: int|
                    0 <= j < i ==> !expired((#[trigger] sessions@[j]).created_at, now, ttl),
                forall|k: int|
                    0 <= k < out.len() ==> as_map(start).contains_key(
                        (#[trigger] out@[k]).upload_id@,
                    ) && as_map(start)[out@[k].upload_id@] == out@[k]@ && expired(
                        out@[k].created_at,
                        now,
                        ttl,
                    ),
                forall|id: Seq<char>|
                    gone.contains(id) ==> #[trigger] as_map(sessions@).contains_key(id) || exists|
                        k: int,
                    |
                        0 <= k < out.len() && (#[trigger] out@[k]).upload_id@ == id,
                forall|k: int|
                    0 <= k < out.len() ==> !as_map(sessions@).contains_key(
                        (#[trigger] out@[k]).upload_id@,
                    ),
                forall|a: int, b: int|
                    0 <= a < b < out.len() ==> (#[trigger] out@[a]).upload_id@ != (
                    #[trigger] out@[b]).upload_id@,
            decreases sessions.len() - i,
        {
            let ghost before = sessions@;
            let ghost taken = out@;
            if sessions[i].is_expired(now, ttl) {
                proof {
                    lemma_as_map_at(before, i as int);
                    lemma_without(before, i as int);
                }
                let session = sessions.remove(i);
                let ghost sid = session.upload_id@;
                out.push(session);
                proof {
                    assert(as_map(sessions@) == as_map(before).remove(sid));
                    assert forall|k: int| 0 <= k < out.len() implies as_map(start).contains_key(
                        (#[trigger] out@[k]).upload_id@,
                    ) && as_map(start)[out@[k].upload_id@] == out@[k]@ && expired(
                        out@[k].created_at,
                        now,
                        ttl,
                    ) by {
                        if k < taken.len() {
                            assert(out@[k] == taken[k]);
                        }
                    }
                    assert forall|id: Seq<char>| gone.contains(id) implies #[trigger] as_map(
                        sessions@,
                    ).contains_key(id) || exists|k: int|
                        0 <= k < out.len() && (#[trigger] out@[k]).upload_id@ == id by {
                        if id == sid {
                            assert(out@[taken.len() as int].upload_id@ == id);
                        } else if as_map(before).contains_key(id) {
                        } else {
                            let k = choose|k: int|
                                0 <= k < taken.len() && (#[trigger] taken[k]).upload_id@ == id;
                            assert(out@[k].upload_id@ == id);
                        }
                    }
                    assert forall|j: int| 0 <= j < i implies !expired(
                        (#[trigger] sessions@[j]).created_at,
                        now,
                        ttl,
                    ) by {
                        assert(sessions@[j] == before[j]);
                    }
                    assert forall|k: int| 0 <= k < out.len() implies !as_map(
                        sessions@,
                    ).contains_key((#[trigger] out@[k]).upload_id@) by {
                        if k < taken.len() {
                            assert(out@[k] == taken[k]);
                        }
                    }
                    assert forall|a: int, b: int| 0 <= a < b < out.len() implies (
                    #[trigger] out@[a]).upload_id@ != (#[trigger] out@[b]).upload_id@ by {
                        assert(out@[a] == taken[a]);
                        if b < taken.len() {
                            assert(out@[b] == taken[b]);
                        } else {
                            assert(as_map(before).contains_key(sid));
                        }
                    }
                }
            } else {
                proof {
                    lemma_as_map_at(before, i as int);
                }
                i += 1;
            }
        }
        proof {
            let after = sessions@;
            assert forall|id: Seq<char>| #[trigger]
                as_map(after).contains_key(id) implies !gone.contains(id) by {
                let a = slot(after, id);
                lemma_as_map_at(after, a);
            }
            assert(as_map(after) =~= as_map(start).remove_keys(gone));
            assert forall|id: Seq<char>|
                as_map(start).contains_key(id) && expired(
                    as_map(start)[id].created_at,
                    now,
                    ttl,
                ) implies exists|k: int|
                0 <= k < out.len() && (#[trigger] out@[k]).upload_id@ == id by {
                assert(gone.contains(id));
                assert(!as_map(after).contains_key(id));
            }
        }
        self.sessions = sessions;
        out
    }
}

/// Taking the session at `i` out of an orderly list leaves an orderly list,
/// whose map is the old one without that session's identifier.
proof fn lemma_without(sessions: Seq<UploadSession>, i: int)
    requires
        orderly(sessions),
        0 <= i < sessions.len(),
    ensures
        orderly(sessions.remove(i)),
        as_map(sessions.remove(i)) == as_map(sessions).remove(sessions[i].upload_id@),
{
    let after = sessions.remove(i);
    let id = sessions[i].upload_id@;
    assert forall|a: int, b: int| 0 <= a < b < after.len() implies (#[trigger] after[a]).upload_id@
        != (#[trigger] after[b]).upload_id@ by {
        let a0 = if a < i {
            a
        } else {
            a + 1
        };
        let b0 = if b < i {
            b
        } else {
            b + 1
        };
        assert(after[a] == sessions[a0]);
        assert(after[b] == sessions[b0]);
    }
    assert forall|a: int| 0 <= a < after.len() implies (#[trigger] after[a]).wf() by {
        let a0 = if a < i {
            a
        } else {
            a + 1
        };
        assert(after[a] == sessions[a0]);
    }
    assert(as_map(after) =~= as_map(sessions).remove(id)) by {
        assert forall|k: Seq<char>| #[trigger]
            as_map(after).contains_key(k) <==> as_map(sessions).remove(id).contains_key(k) by {
            if holds(after, k) {
                let a = slot(after, k);
                let a0 = if a < i {
                    a
                } else {
                    a + 1
                };
                assert(after[a] == sessions[a0]);
                if k == id {
                    if a0 < i {
                        assert(sessions[a0].upload_id@ != sessions[i].upload_id@);
                    } else {
                        assert(sessions[i].upload_id@ != sessions[a0].upload_id@);
                    }
                }
            }
            if holds(sessions, k) && k != id {
                let a0 = slot(sessions, k);
                let a = if a0 < i {
                    a0
                } else {
                    a0 - 1
                };
                assert(after[a] == sessions[a0]);
            }
        }
        assert forall|k: Seq<char>| #[trigger] as_map(after).contains_key(k) implies as_map(
            after,
        )[k] == as_map(sessions).remove(id)[k] by {
            let a = slot(after, k);
            let a0 = if a < i {
                a
            } else {
                a + 1
            };
            assert(after[a] == sessions[a0]);
            lemma_as_map_at(after, a);
            lemma_as_map_at(sessions, a0);
        }
    }
}

/// An orderly list has as many sessions as its map has identifiers.
proof fn lemma_as_map_len(sessions: Seq<UploadSession>)
    requires
        orderly(sessions),
    ensures
        as_map(sessions).dom().finite(),
        as_map(sessions).dom().len() == sessions.len(),
    decreases sessions.len(),
{
    if sessions.len() == 0 {
        assert(as_map(sessions).dom() =~= Set::<Seq<char>>::empty());
    } else {
        let i = sessions.len() - 1;
        lemma_without(sessions, i);
        lemma_as_map_len(sessions.remove(i));
        lemma_as_map_at(sessions, i);
        let id = sessions[i].upload_id@;
        assert(as_map(sessions).dom() =~= as_map(sessions.remove(i)).dom().insert(id));
    }
}

} // verus!
