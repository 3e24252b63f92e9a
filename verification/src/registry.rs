//! Registry of live sessions.
//!
//! Each session binds an identifier to a working directory and to a numeric
//! token under which the embedding program keeps the handle of the external
//! interactive process. The registry serializes lifecycle decisions: the
//! embedding program takes its one lock, calls a method here, releases the
//! lock, and only then performs the slow outside work (handle construction,
//! subprocess calls) that the decision asks for.

use vstd::prelude::*;

verus! {

/// Why a lifecycle operation was refused.
#[derive(Clone, Copy, PartialEq, Eq, Structural, Debug)]
pub enum RegistryError {
    /// The identifier is not present in the registry.
    SessionNotFound,
}

/// One live session.
pub struct Session {
    /// Unique identifier of the session.
    pub id: String,
    /// Working directory of the session, immutable for its lifetime.
    pub working_dir: String,
    /// Token under which the embedding program keeps the process handle.
    pub handle: u64,
}

/// Mathematical image of a [`Session`].
pub struct SessionView {
    pub id: Seq<char>,
    pub working_dir: Seq<char>,
    pub handle: u64,
}

impl View for Session {
    type V = SessionView;

    open spec fn view(&self) -> SessionView {
        SessionView { id: self.id@, working_dir: self.working_dir@, handle: self.handle }
    }
}

impl DeepView for Session {
    type V = SessionView;

    open spec fn deep_view(&self) -> SessionView {
        self.view()
    }
}

/// Does some entry of `s` carry the identifier `id`?
pub open spec fn has_id(s: Seq<SessionView>, id: Seq<char>) -> bool {
    exists|k: int| 0 <= k < s.len() && (#[trigger] s[k].id) == id
}

/// How many entries of `s` carry the identifier `id`.
pub open spec fn count_id(s: Seq<SessionView>, id: Seq<char>) -> nat
    decreases s.len(),
{
    if s.len() == 0 {
        0
    } else {
        (if s[0].id == id {
            1nat
        } else {
            0nat
        }) + count_id(s.skip(1), id)
    }
}

/// What `start` does to the registry contents: a no-op when the identifier
/// is already present, an append of a fresh entry otherwise.
pub open spec fn register_spec(
    s: Seq<SessionView>,
    id: Seq<char>,
    working_dir: Seq<char>,
    handle: u64,
) -> Seq<SessionView> {
    if has_id(s, id) {
        s
    } else {
        s.push(SessionView { id, working_dir, handle })
    }
}

/// What `close` does to the registry contents: removal of the one entry with
/// the identifier when present, a no-op otherwise.
pub open spec fn close_spec(s: Seq<SessionView>, id: Seq<char>) -> Seq<SessionView> {
    if has_id(s, id) {
        let k = choose|k: int| 0 <= k < s.len() && (#[trigger] s[k].id) == id;
        s.remove(k)
    } else {
        s
    }
}

/// Registry of live sessions, keyed by identifier.
///
/// The embedding program is expected to guard the whole registry with one
/// exclusive lock and to hold that lock exactly for the duration of one
/// method call, never across subprocess work.
pub struct SessionRegistry {
    entries: Vec<Session>,
}

impl View for SessionRegistry {
    type V = Seq<SessionView>;

    closed spec fn view(&self) -> Seq<SessionView> {
        self.entries.deep_view()
    }
}

impl SessionRegistry {
    /// No two entries share an identifier.
    pub open spec fn wf(&self) -> bool {
        forall|i: int, j: int|
            0 <= i < j < self@.len() ==> (#[trigger] self@[i].id) != (#[trigger] self@[j].id)
    }

    /// An empty registry.
    pub fn new() -> (r: Self)
        ensures
            r@ == Seq::<SessionView>::empty(),
            r.wf(),
    {
        let r = SessionRegistry { entries: Vec::new() };
        proof {
            assert(r@ =~= Seq::<SessionView>::empty());
        }
        r
    }

    /// Is a session with this identifier present?
    #[verifier::loop_isolation(false)]
    pub fn contains(&self, id: &String) -> (r: bool)
        ensures
            r == has_id(self@, id@),
    {
        let n = self.entries.len();
        let mut k: usize = 0;
        while k < n
            invariant
                n == self@.len(),
                0 <= k <= n,
                forall|j: int| 0 <= j < k ==> (#[trigger] self@[j].id) != id@,
            decreases n - k,
        {
            if self.entries[k].id == *id {
                assert(self@[k as int].id == id@);
                return true;
            }
            k += 1;
        }
        false
    }

    /// The lookup-then-insert step of `start`. When the identifier is absent
    /// the new entry is appended and `None` is returned; when it is already
    /// present the registry is left unchanged and the offered handle token is
    /// handed back so the caller can discard the losing handle.
    pub fn register(&mut self, id: String, working_dir: String, handle: u64) -> (r: Option<u64>)
        requires
            old(self).wf(),
        ensures
            final(self).wf(),
            final(self)@ == register_spec(old(self)@, id@, working_dir@, handle),
            r == (if has_id(old(self)@, id@) {
                Some(handle)
            } else {
                None::<u64>
            }),
    {
        if self.contains(&id) {
            Some(handle)
        } else {
            let ghost pre = self@;
            let ghost idv = id@;
            let ghost wdv = working_dir@;
            self.entries.push(Session { id, working_dir, handle });
            proof {
                assert(self@ =~= pre.push(SessionView { id: idv, working_dir: wdv, handle }));
                assert forall|i: int, j: int| 0 <= i < j < self@.len() implies (#[trigger] self@[i].id)
                    != (#[trigger] self@[j].id) by {
                    if j < pre.len() {
                    } else {
                        assert(self@[j].id == idv);
                        assert(!has_id(pre, idv));
                        assert(self@[i] == pre[i]);
                    }
                }
            }
            None
        }
    }

    /// The handle token of the session with this identifier, or
    /// `SessionNotFound`. Used by the operations that only forward something
    /// to the process handle: send, the two approvals, and pause.
    #[verifier::loop_isolation(false)]
    pub fn lookup_handle(&self, id: &String) -> (r: Result<u64, RegistryError>)
        ensures
            match r {
                Ok(h) => exists|k: int|
                    0 <= k < self@.len() && (#[trigger] self@[k].id) == id@ && self@[k].handle == h,
                Err(e) => !has_id(self@, id@) && e == RegistryError::SessionNotFound,
            },
    {
        let n = self.entries.len();
        let mut k: usize = 0;
        while k < n
            invariant
                n == self@.len(),
                0 <= k <= n,
                forall|j: int| 0 <= j < k ==> (#[trigger] self@[j].id) != id@,
            decreases n - k,
        {
            if self.entries[k].id == *id {
                assert(self@[k as int].id == id@);
                return Ok(self.entries[k].handle);
            }
            k += 1;
        }
        Err(RegistryError::SessionNotFound)
    }

    /// A copy of the working directory of the session with this identifier,
    /// handed out as a value so the caller can release its registry lock
    /// before any slow diff or patch work.
    #[verifier::loop_isolation(false)]
    pub fn working_directory(&self, id: &String) -> (r: Result<String, RegistryError>)
        ensures
            match r {
                Ok(w) => exists|k: int|
                    0 <= k < self@.len() && (#[trigger] self@[k].id) == id@ && self@[k].working_dir
                        == w@,
                Err(e) => !has_id(self@, id@) && e == RegistryError::SessionNotFound,
            },
    {
        let n = self.entries.len();
        let mut k: usize = 0;
        while k < n
            invariant
                n == self@.len(),
                0 <= k <= n,
                forall|j: int| 0 <= j < k ==> (#[trigger] self@[j].id) != id@,
            decreases n - k,
        {
            if self.entries[k].id == *id {
                assert(self@[k as int].id == id@);
                return Ok(self.entries[k].working_dir.clone());
            }
            k += 1;
        }
        Err(RegistryError::SessionNotFound)
    }

    /// Removes the session with this identifier and returns its handle token
    /// so the caller can finalize the process; `SessionNotFound` leaves the
    /// registry unchanged. This is the only operation that destroys an entry.
    #[verifier::loop_isolation(false)]
    pub fn close(&mut self, id: &String) -> (r: Result<u64, RegistryError>)
        requires
            old(self).wf(),
        ensures
            final(self).wf(),
            final(self)@ == close_spec(old(self)@, id@),
            match r {
                Ok(h) => exists|k: int|
                    0 <= k < old(self)@.len() && (#[trigger] old(self)@[k].id) == id@ && old(
                        self,
                    )@[k].handle == h,
                Err(e) => {
                    &&& !has_id(old(self)@, id@)
                    &&& e == RegistryError::SessionNotFound
                    &&& final(self)@ == old(self)@
                },
            },
    {
        let ghost pre = self@;
        let n = self.entries.len();
        let mut k: usize = 0;
        while k < n
            invariant
                self@ == pre,
                n == pre.len(),
                0 <= k <= n,
                forall|j: int| 0 <= j < k ==> (#[trigger] pre[j].id) != id@,
            decreases n - k,
        {
            if self.entries[k].id == *id {
                assert(pre[k as int].id == id@);
                let s = self.entries.remove(k);
                proof {
                    assert(self@ =~= pre.remove(k as int));
                    let c = choose|c: int| 0 <= c < pre.len() && (#[trigger] pre[c].id) == id@;
                    if c != k as int {
                        let lo = if c < k as int {
                            c
                        } else {
                            k as int
                        };
                        let hi = if c < k as int {
                            k as int
                        } else {
                            c
                        };
                        assert(pre[lo].id != pre[hi].id);
                        assert(false);
                    }
                    assert(self@ == close_spec(pre, id@));
                    assert forall|i: int, j: int| 0 <= i < j < self@.len() implies (
                    #[trigger] self@[i].id) != (#[trigger] self@[j].id) by {
                        let pi = if i < k as int {
                            i
                        } else {
                            i + 1
                        };
                        let pj = if j < k as int {
                            j
                        } else {
                            j + 1
                        };
                        assert(self@[i] == pre[pi]);
                        assert(self@[j] == pre[pj]);
                    }
                }
                return Ok(s.handle);
            }
            k += 1;
        }
        Err(RegistryError::SessionNotFound)
    }

    /// The identifiers of all live sessions, in insertion order.
    #[verifier::loop_isolation(false)]
    pub fn list(&self) -> (r: Vec<String>)
        ensures
            r.deep_view() == Seq::new(self@.len(), |i: int| self@[i].id),
    {
        let n = self.entries.len();
        let mut out: Vec<String> = Vec::new();
        let mut k: usize = 0;
        while k < n
            invariant
                n == self@.len(),
                0 <= k <= n,
                out.deep_view() =~= Seq::new(k as nat, |i: int| self@[i].id),
            decreases n - k,
        {
            let ghost prev = out.deep_view();
            out.push(self.entries[k].id.clone());
            proof {
                assert(out.deep_view() =~= prev.push(self@[k as int].id));
                assert(out.deep_view() =~= Seq::new((k + 1) as nat, |i: int| self@[i].id));
            }
            k += 1;
        }
        proof {
            assert(out.deep_view() =~= Seq::new(self@.len(), |i: int| self@[i].id));
        }
        out
    }
}

/// `count_id` is zero exactly on the sequences in which the identifier does
/// not occur.
pub proof fn lemma_count_id_zero(s: Seq<SessionView>, id: Seq<char>)
    ensures
        (count_id(s, id) == 0) <==> !has_id(s, id),
    decreases s.len(),
{
    if s.len() > 0 {
        lemma_count_id_zero(s.skip(1), id);
        if has_id(s, id) {
            let k = choose|k: int| 0 <= k < s.len() && (#[trigger] s[k].id) == id;
            if k > 0 {
                assert(s.skip(1)[k - 1].id == id);
            }
        } else {
            assert(forall|k: int|
                0 <= k < s.skip(1).len() ==> (#[trigger] s.skip(1)[k]) == s[k + 1]);
        }
    }
}

/// Appending an entry adds its identifier to the count.
proof fn lemma_count_id_push(s: Seq<SessionView>, v: SessionView, id: Seq<char>)
    ensures
        count_id(s.push(v), id) == count_id(s, id) + (if v.id == id {
            1nat
        } else {
            0nat
        }),
    decreases s.len(),
{
    if s.len() == 0 {
        assert(s.push(v).skip(1) =~= Seq::<SessionView>::empty());
        assert(s.push(v)[0] == v);
        assert(count_id(s.push(v), id) == (if v.id == id {
            1nat
        } else {
            0nat
        }) + count_id(Seq::<SessionView>::empty(), id));
    } else {
        assert(s.push(v).skip(1) =~= s.skip(1).push(v));
        lemma_count_id_push(s.skip(1), v, id);
        assert(s.push(v)[0] == s[0]);
        assert(count_id(s.push(v), id) == (if s[0].id == id {
            1nat
        } else {
            0nat
        }) + count_id(s.skip(1).push(v), id));
    }
}

/// Starting is idempotent: a first start on a fresh identifier makes exactly
/// one entry for it, and a second start under the same identifier, whatever
/// its configuration, changes nothing.
pub proof fn lemma_start_idempotent(
    s: Seq<SessionView>,
    id: Seq<char>,
    wd1: Seq<char>,
    h1: u64,
    wd2: Seq<char>,
    h2: u64,
)
    requires
        !has_id(s, id),
    ensures
        count_id(register_spec(s, id, wd1, h1), id) == 1,
        register_spec(register_spec(s, id, wd1, h1), id, wd2, h2) == register_spec(s, id, wd1, h1),
{
    let s1 = register_spec(s, id, wd1, h1);
    lemma_count_id_zero(s, id);
    lemma_count_id_push(s, SessionView { id, working_dir: wd1, handle: h1 }, id);
    assert(s1[s.len() as int].id == id);
    assert(has_id(s1, id));
}

/// Closing an absent identifier leaves the registry contents unchanged; with
/// the exec contract of `close` this makes every lifecycle operation except
/// start a reported no-op on an unknown identifier.
pub proof fn lemma_not_found_no_change(s: Seq<SessionView>, id: Seq<char>)
    requires
        !has_id(s, id),
    ensures
        close_spec(s, id) == s,
{
}

/// Two starts under distinct identifiers both leave their session present:
/// neither registration is lost to the other.
pub proof fn lemma_distinct_starts_both_present(
    s: Seq<SessionView>,
    id1: Seq<char>,
    wd1: Seq<char>,
    h1: u64,
    id2: Seq<char>,
    wd2: Seq<char>,
    h2: u64,
)
    requires
        id1 != id2,
    ensures
        has_id(register_spec(register_spec(s, id1, wd1, h1), id2, wd2, h2), id1),
        has_id(register_spec(register_spec(s, id1, wd1, h1), id2, wd2, h2), id2),
{
    let s1 = register_spec(s, id1, wd1, h1);
    let s2 = register_spec(s1, id2, wd2, h2);
    if has_id(s, id1) {
        let k = choose|k: int| 0 <= k < s.len() && (#[trigger] s[k].id) == id1;
        assert(s1[k].id == id1);
        assert(s2[k].id == id1);
    } else {
        assert(s1[s.len() as int].id == id1);
        let k = s.len() as int;
        assert(s2[k].id == id1);
    }
    if has_id(s1, id2) {
        let k = choose|k: int| 0 <= k < s1.len() && (#[trigger] s1[k].id) == id2;
        assert(s2[k].id == id2);
    } else {
        assert(s2[s1.len() as int].id == id2);
    }
}

} // verus!
