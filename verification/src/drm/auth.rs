//! Sessions, what they may do, and which of them is master.
use crate::drm::objects::IdCounter;
use vstd::prelude::*;

verus! {

/// A permission that can be granted to a client.
#[derive(Debug, Clone, Copy, PartialEq, Eq, Structural)]
pub enum DrmCapability {
    /// Read device information.
    Read,
    /// Set modes.
    ModeSet,
    /// Create and manage framebuffers.
    Framebuffer,
    /// Use atomic commits.
    Atomic,
    /// Become master.
    Master,
    /// Authenticate other clients.
    Auth,
    /// Use all planes.
    UniversalPlanes,
    /// Use advanced features.
    Advanced,
}

impl DrmCapability {
    /// The number of the capability's bit.
    pub open spec fn index(self) -> u32 {
        match self {
            DrmCapability::Read => 0,
            DrmCapability::ModeSet => 1,
            DrmCapability::Framebuffer => 2,
            DrmCapability::Atomic => 3,
            DrmCapability::Master => 4,
            DrmCapability::Auth => 5,
            DrmCapability::UniversalPlanes => 6,
            DrmCapability::Advanced => 7,
        }
    }

    /// The capability's bit.
    pub fn bit(self) -> (r: u32)
        ensures
            r == 1u32 << self.index(),
    {
        assert(1u32 << 0u32 == 1 && 1u32 << 1u32 == 2 && 1u32 << 2u32 == 4 && 1u32 << 3u32 == 8
            && 1u32 << 4u32 == 16 && 1u32 << 5u32 == 32 && 1u32 << 6u32 == 64 && 1u32 << 7u32
            == 128) by (bit_vector);
        match self {
            DrmCapability::Read => 1,
            DrmCapability::ModeSet => 2,
            DrmCapability::Framebuffer => 4,
            DrmCapability::Atomic => 8,
            DrmCapability::Master => 16,
            DrmCapability::Auth => 32,
            DrmCapability::UniversalPlanes => 64,
            DrmCapability::Advanced => 128,
        }
    }
}

/// A set of capabilities.
#[derive(Debug, Clone, Copy, PartialEq, Eq, Structural)]
pub struct DrmCapabilities {
    pub bits: u32,
}

impl DrmCapabilities {
    /// The set has `cap`.
    pub open spec fn contains(&self, cap: DrmCapability) -> bool {
        self.bits & (1u32 << cap.index()) != 0
    }

    /// The set with the given bits.
    pub fn new(bits: u32) -> (c: Self)
        ensures
            c.bits == bits,
    {
        DrmCapabilities { bits }
    }

    /// No capabilities.
    pub fn default() -> (c: Self)
        ensures
            c.bits == 0,
    {
        DrmCapabilities { bits: 0 }
    }

    /// Every capability.
    pub fn all() -> (c: Self)
        ensures
            c.bits == u32::MAX,
    {
        DrmCapabilities { bits: u32::MAX }
    }

    /// Whether the set has `cap`.
    pub fn has(&self, cap: DrmCapability) -> (r: bool)
        ensures
            r == self.contains(cap),
    {
        self.bits & cap.bit() != 0
    }

    /// Puts `cap` in.
    pub fn add(&mut self, cap: DrmCapability)
        ensures
            final(self).bits == old(self).bits | (1u32 << cap.index()),
    {
        self.bits = self.bits | cap.bit();
    }

    /// Takes `cap` out.
    pub fn remove(&mut self, cap: DrmCapability)
        ensures
            final(self).bits == old(self).bits & !(1u32 << cap.index()),
    {
        self.bits = self.bits & !cap.bit();
    }
}

/// The full set has every capability, and the empty one has none.
pub proof fn lemma_all_and_none(cap: DrmCapability)
    ensures
        (DrmCapabilities { bits: u32::MAX }).contains(cap),
        !(DrmCapabilities { bits: 0 }).contains(cap),
{
    let k = cap.index();
    assert(0xffff_ffffu32 & (1u32 << k) != 0 && 0u32 & (1u32 << k) == 0) by (bit_vector)
        requires
            k < 8,
    ;
}

/// Adding a capability adds that one and touches no other.
pub proof fn lemma_add_one(set: DrmCapabilities, cap: DrmCapability, other: DrmCapability)
    ensures
        (DrmCapabilities { bits: set.bits | (1u32 << cap.index()) }).contains(other) <==> other == cap
            || set.contains(other),
{
    let b = set.bits;
    let i = cap.index();
    let j = other.index();
    assert(((b | (1u32 << i)) & (1u32 << j) != 0) <==> (i == j || b & (1u32 << j) != 0))
        by (bit_vector)
        requires
            i < 8,
            j < 8,
    ;
}

/// Removing a capability removes that one and touches no other.
pub proof fn lemma_remove_one(set: DrmCapabilities, cap: DrmCapability, other: DrmCapability)
    ensures
        (DrmCapabilities { bits: set.bits & !(1u32 << cap.index()) }).contains(other) <==> other
            != cap && set.contains(other),
{
    let b = set.bits;
    let i = cap.index();
    let j = other.index();
    assert(((b & !(1u32 << i)) & (1u32 << j) != 0) <==> (i != j && b & (1u32 << j) != 0))
        by (bit_vector)
        requires
            i < 8,
            j < 8,
    ;
}

/// Why a request about a session is refused.
#[derive(Debug, Clone, Copy, PartialEq, Eq, Structural)]
pub enum AuthError {
    InvalidMagic,
    AlreadyAuthenticated,
    NotAuthenticated,
    InsufficientPermissions,
    SessionExpired,
}

/// What a client holds of its session.
#[derive(Debug, Clone, Copy, PartialEq, Eq, Structural)]
pub struct DrmAuthToken {
    pub session_id: u32,
    pub magic: u32,
    pub authenticated: bool,
    pub capabilities: DrmCapabilities,
}

impl DrmAuthToken {
    /// The session may use `cap`.
    pub open spec fn allows(&self, cap: DrmCapability) -> bool {
        self.authenticated && self.capabilities.contains(cap)
    }

    /// A token that is not authenticated, with a magic number of its own.
    pub fn new(session_id: u32, magics: &mut IdCounter) -> (t: Self)
        requires
            old(magics).next < u32::MAX,
        ensures
            t == (DrmAuthToken {
                session_id,
                magic: old(magics).next,
                authenticated: false,
                capabilities: DrmCapabilities { bits: 0 },
            }),
            final(magics).next == old(magics).next + 1,
    {
        DrmAuthToken {
            session_id,
            magic: magics.take(),
            authenticated: false,
            capabilities: DrmCapabilities::default(),
        }
    }

    /// A token that is authenticated and may do anything.
    pub fn new_authenticated(magic: u32) -> (t: Self)
        ensures
            t == (DrmAuthToken {
                session_id: 0,
                magic,
                authenticated: true,
                capabilities: DrmCapabilities { bits: u32::MAX },
            }),
    {
        DrmAuthToken {
            session_id: 0,
            magic,
            authenticated: true,
            capabilities: DrmCapabilities::all(),
        }
    }

    /// The token after its magic number was given correctly.
    pub open spec fn accepted(self) -> Self {
        DrmAuthToken {
            authenticated: true,
            capabilities: DrmCapabilities { bits: u32::MAX },
            ..self
        }
    }

    /// Authenticates the token if the magic number is right.
    pub fn authenticate(&mut self, provided_magic: u32) -> (r: Result<(), AuthError>)
        ensures
            r == (if old(self).magic == provided_magic {
                Ok(())
            } else {
                Err(AuthError::InvalidMagic)
            }),
            *final(self) == (if r is Ok {
                old(self).accepted()
            } else {
                *old(self)
            }),
    {
        if self.magic == provided_magic {
            self.authenticated = true;
            self.capabilities = DrmCapabilities::all();
            Ok(())
        } else {
            Err(AuthError::InvalidMagic)
        }
    }

    /// Whether the session may use `cap`.
    pub fn has_capability(&self, cap: DrmCapability) -> (r: bool)
        ensures
            r == self.allows(cap),
    {
        self.authenticated && self.capabilities.has(cap)
    }
}

/// What needs permission.
#[derive(Debug, Clone, Copy, PartialEq, Eq, Structural)]
pub enum DrmOperation {
    ModeSet,
    CreateFramebuffer,
    AtomicCommit,
    Authenticate,
}

impl DrmOperation {
    /// The capability that the operation takes.
    pub open spec fn needs(self) -> DrmCapability {
        match self {
            DrmOperation::ModeSet => DrmCapability::ModeSet,
            DrmOperation::CreateFramebuffer => DrmCapability::Framebuffer,
            DrmOperation::AtomicCommit => DrmCapability::Atomic,
            DrmOperation::Authenticate => DrmCapability::Auth,
        }
    }

    /// Only the master may do this.
    pub open spec fn needs_master(self) -> bool {
        self is ModeSet || self is AtomicCommit
    }

    /// The capability that the operation takes.
    fn capability(self) -> (r: DrmCapability)
        ensures
            r == self.needs(),
    {
        match self {
            DrmOperation::ModeSet => DrmCapability::ModeSet,
            DrmOperation::CreateFramebuffer => DrmCapability::Framebuffer,
            DrmOperation::AtomicCommit => DrmCapability::Atomic,
            DrmOperation::Authenticate => DrmCapability::Auth,
        }
    }
}

/// The holder of master privilege.
#[derive(Debug, Clone, Copy, PartialEq, Eq, Structural)]
pub struct DrmMaster {
    pub token: DrmAuthToken,
    pub acquired_at: u64,
}

impl DrmMaster {
    /// The master with the given token.
    pub fn new(token: DrmAuthToken) -> (m: Self)
        ensures
            m == (DrmMaster { token, acquired_at: 0 }),
    {
        DrmMaster { token, acquired_at: 0 }
    }

    /// Whether the master may permit the operation.
    pub fn can_authorize(&self, operation: DrmOperation) -> (r: bool)
        ensures
            r == self.token.allows(operation.needs()),
    {
        self.token.has_capability(operation.capability())
    }
}

/// The sessions as a value.
#[verifier::ext_equal]
pub struct Sessions {
    pub active: Seq<DrmAuthToken>,
    pub master: Option<u32>,
    pub next_id: u32,
}

/// Session `i` is the first with id `id`.
pub open spec fn is_first(active: Seq<DrmAuthToken>, id: u32, i: int) -> bool {
    &&& 0 <= i < active.len()
    &&& active[i].session_id == id
    &&& forall|j: int| 0 <= j < i ==> (#[trigger] active[j]).session_id != id
}

/// No session has id `id`.
pub open spec fn is_absent(active: Seq<DrmAuthToken>, id: u32) -> bool {
    forall|j: int| 0 <= j < active.len() ==> (#[trigger] active[j]).session_id != id
}

impl Sessions {
    /// Session ids are unique and never come twice; the master is a session
    /// that is there and authenticated.
    pub open spec fn wf(self) -> bool {
        &&& forall|i: int|
            0 <= i < self.active.len() ==> 0 < (#[trigger] self.active[i]).session_id < self.next_id
        &&& forall|i: int, j: int|
            0 <= i < j < self.active.len() ==> (#[trigger] self.active[i]).session_id != (
            #[trigger] self.active[j]).session_id
        &&& 0 < self.next_id
        &&& self.master matches Some(id) ==> exists|i: int|
            0 <= i < self.active.len() && (#[trigger] self.active[i]).session_id == id
                && self.active[i].authenticated
    }

    /// The outcome of authenticating session `id`, which leaves `b`: accepted if
    /// the magic number is right; an unknown session is answered like a wrong
    /// number.
    pub open spec fn authenticated(
        self,
        b: Sessions,
        id: u32,
        magic: u32,
        r: Result<(), AuthError>,
    ) -> bool {
        match r {
            Ok(()) => exists|i: int| #[trigger]
                is_first(self.active, id, i) && self.active[i].magic == magic && b == (Sessions {
                    active: self.active.update(i, self.active[i].accepted()),
                    ..self
                }),
            Err(e) => {
                &&& e == AuthError::InvalidMagic
                &&& b == self
                &&& forall|i: int| #[trigger]
                    is_first(self.active, id, i) ==> self.active[i].magic != magic
            },
        }
    }

    /// The outcome of making session `id` master, which leaves `b`: it has to be
    /// authenticated, and there must be no master.
    pub open spec fn mastered(self, b: Sessions, id: u32, r: Result<(), AuthError>) -> bool {
        let there = exists|i: int|
            0 <= i < self.active.len() && (#[trigger] self.active[i]).session_id == id
                && self.active[i].authenticated;
        &&& r == (if !there {
            Err(AuthError::NotAuthenticated)
        } else if self.master is Some {
            Err(AuthError::InsufficientPermissions)
        } else {
            Ok(())
        })
        &&& b == (if r is Ok {
            Sessions { master: Some(id), ..self }
        } else {
            self
        })
    }

    /// `id` may perform `op`: it is there and authenticated, it is master if
    /// that takes a master, and it has the capability.
    pub open spec fn permits(self, id: u32, op: DrmOperation) -> bool {
        exists|i: int| #[trigger]
            is_first(self.active, id, i) && self.active[i].allows(op.needs()) && (op.needs_master()
                ==> self.master == Some(id))
    }
}

/// Keeps track of the sessions.
pub struct AuthManager {
    active_sessions: Vec<DrmAuthToken>,
    master_session: Option<u32>,
    next_session_id: u32,
}

impl View for AuthManager {
    type V = Sessions;

    closed spec fn view(&self) -> Sessions {
        Sessions {
            active: self.active_sessions@,
            master: self.master_session,
            next_id: self.next_session_id,
        }
    }
}

impl AuthManager {
    /// No sessions.
    pub fn new() -> (m: Self)
        ensures
            m@ == (Sessions { active: Seq::empty(), master: None, next_id: 1 }),
            m@.wf(),
    {
        AuthManager { active_sessions: Vec::new(), master_session: None, next_session_id: 1 }
    }

    /// Opens a session.
    pub fn create_session(&mut self, magics: &mut IdCounter) -> (token: DrmAuthToken)
        requires
            old(self)@.next_id < u32::MAX,
            old(magics).next < u32::MAX,
        ensures
            token == (DrmAuthToken {
                session_id: old(self)@.next_id,
                magic: old(magics).next,
                authenticated: false,
                capabilities: DrmCapabilities { bits: 0 },
            }),
            final(self)@ == (Sessions {
                active: old(self)@.active.push(token),
                next_id: (old(self)@.next_id + 1) as u32,
                ..old(self)@
            }),
            final(magics).next == old(magics).next + 1,
            old(self)@.wf() ==> final(self)@.wf(),
    {
        let ghost before = self@;
        let session_id = self.next_session_id;
        self.next_session_id = self.next_session_id + 1;
        let token = DrmAuthToken::new(session_id, magics);
        self.active_sessions.push(token);
        proof {
            if before.wf() {
                if let Some(id) = before.master {
                    let i = choose|i: int|
                        0 <= i < before.active.len() && (#[trigger] before.active[i]).session_id
                            == id && before.active[i].authenticated;
                    assert(self@.active[i] == before.active[i]);
                }
            }
        }
        token
    }

    /// The place of the first session with id `id`.
    fn find(&self, id: u32) -> (r: Option<usize>)
        ensures
            match r {
                Some(i) => is_first(self@.active, id, i as int),
                None => is_absent(self@.active, id),
            },
    {
        let mut i: usize = 0;
        while i < self.active_sessions.len()
            invariant
                i <= self.active_sessions.len(),
                forall|j: int| 0 <= j < i ==> (#[trigger] self@.active[j]).session_id != id,
            decreases self.active_sessions.len() - i,
        {
            if self.active_sessions[i].session_id == id {
                assert(self@.active[i as int].session_id == id);
                return Some(i);
            }
            i += 1;
        }
        None
    }

    /// Authenticates a session if the magic number is right. An unknown session
    /// is answered like a wrong number.
    pub fn authenticate_session(&mut self, session_id: u32, magic: u32) -> (r: Result<
        (),
        AuthError,
    >)
        ensures
            old(self)@.authenticated(final(self)@, session_id, magic, r),
            old(self)@.wf() ==> final(self)@.wf(),
    {
        let ghost before = self@;
        match self.find(session_id) {
            Some(i) => {
                let mut token = self.active_sessions[i];
                match token.authenticate(magic) {
                    Ok(()) => {
                        self.active_sessions[i] = token;
                        proof {
                            assert(self@.active =~= before.active.update(
                                i as int,
                                before.active[i as int].accepted(),
                            ));
                            assert(is_first(before.active, session_id, i as int));
                            if before.wf() {
                                if let Some(id) = before.master {
                                    let k = choose|k: int|
                                        0 <= k < before.active.len() && (
                                        #[trigger] before.active[k]).session_id == id
                                            && before.active[k].authenticated;
                                    assert(self@.active[k].session_id == id
                                        && self@.active[k].authenticated);
                                }
                            }
                        }
                        Ok(())
                    },
                    Err(e) => {
                        proof {
                            assert forall|k: int| #[trigger]
                                is_first(before.active, session_id, k) implies before.active[k].magic
                                != magic by {
                                if k < i {
                                    assert(before.active[k].session_id != session_id);
                                } else if i < k {
                                    assert(before.active[i as int].session_id != session_id);
                                }
                            }
                        }
                        Err(e)
                    },
                }
            },
            None => Err(AuthError::InvalidMagic),
        }
    }

    /// Makes a session master, if it is authenticated and there is no master.
    pub fn set_master(&mut self, session_id: u32) -> (r: Result<(), AuthError>)
        ensures
            old(self)@.mastered(final(self)@, session_id, r),
            old(self)@.wf() ==> final(self)@.wf(),
    {
        let mut found = false;
        let mut i: usize = 0;
        while i < self.active_sessions.len()
            invariant
                i <= self.active_sessions.len(),
                self@ == old(self)@,
                found == exists|j: int|
                    0 <= j < i && (#[trigger] self@.active[j]).session_id == session_id
                        && self@.active[j].authenticated,
            decreases self.active_sessions.len() - i,
        {
            let s = self.active_sessions[i];
            assert(self@.active[i as int] == s);
            if s.session_id == session_id && s.authenticated {
                found = true;
            }
            i += 1;
        }
        if !found {
            return Err(AuthError::NotAuthenticated);
        }
        if self.master_session.is_some() {
            return Err(AuthError::InsufficientPermissions);
        }
        self.master_session = Some(session_id);
        proof {
            let j = choose|j: int|
                0 <= j < self@.active.len() && (#[trigger] old(self)@.active[j]).session_id
                    == session_id && old(self)@.active[j].authenticated;
            assert(self@.active[j].session_id == session_id);
        }
        Ok(())
    }

    /// Gives master privilege up; only the master can.
    pub fn drop_master(&mut self, session_id: u32) -> (r: Result<(), AuthError>)
        ensures
            r == (if old(self)@.master == Some(session_id) {
                Ok(())
            } else {
                Err(AuthError::InsufficientPermissions)
            }),
            final(self)@ == (if r is Ok {
                Sessions { master: None, ..old(self)@ }
            } else {
                old(self)@
            }),
            old(self)@.wf() ==> final(self)@.wf(),
    {
        if self.is_master(session_id) {
            self.master_session = None;
            Ok(())
        } else {
            Err(AuthError::InsufficientPermissions)
        }
    }

    /// Whether a session is master.
    pub fn is_master(&self, session_id: u32) -> (r: bool)
        ensures
            r == (self@.master == Some(session_id)),
    {
        match self.master_session {
            Some(id) => id == session_id,
            None => false,
        }
    }

    /// Whether a session may perform an operation.
    pub fn can_perform(&self, session_id: u32, operation: DrmOperation) -> (r: bool)
        ensures
            r == self@.permits(session_id, operation),
    {
        match self.find(session_id) {
            Some(i) => {
                let s = self.active_sessions[i];
                proof {
                    assert forall|k: int| #[trigger]
                        is_first(self@.active, session_id, k) implies k == i by {
                        if k < i {
                            assert(self@.active[k].session_id != session_id);
                        } else if i < k {
                            assert(self@.active[i as int].session_id != session_id);
                        }
                    }
                }
                if !s.authenticated {
                    return false;
                }
                let requires_master = matches!(operation, DrmOperation::ModeSet | DrmOperation::AtomicCommit);
                if requires_master && !self.is_master(session_id) {
                    return false;
                }
                s.has_capability(operation.capability())
            },
            None => false,
        }
    }

    /// Closes a session; a master that goes leaves no master behind.
    pub fn close_session(&mut self, session_id: u32)
        ensures
            final(self)@ == (Sessions {
                active: old(self)@.active.filter(
                    |s: DrmAuthToken| s.session_id != session_id,
                ),
                master: if old(self)@.master == Some(session_id) {
                    None
                } else {
                    old(self)@.master
                },
                next_id: old(self)@.next_id,
            }),
            old(self)@.wf() ==> final(self)@.wf(),
    {
        let ghost before = self@;
        let ghost keep = |s: DrmAuthToken| s.session_id != session_id;
        let mut kept: Vec<DrmAuthToken> = Vec::new();
        let mut i: usize = 0;
        proof {
            reveal(Seq::filter);
            assert(before.active.take(0).filter(keep) =~= Seq::<DrmAuthToken>::empty());
        }
        while i < self.active_sessions.len()
            invariant
                i <= self.active_sessions.len(),
                self@ == before,
                keep == (|s: DrmAuthToken| s.session_id != session_id),
                kept@ == before.active.take(i as int).filter(keep),
            decreases self.active_sessions.len() - i,
        {
            let s = self.active_sessions[i];
            proof {
                reveal(Seq::filter);
                assert(before.active.take(i + 1).drop_last() =~= before.active.take(i as int));
                assert(before.active.take(i + 1).last() == s);
            }
            if s.session_id != session_id {
                kept.push(s);
            }
            i += 1;
        }
        assert(before.active.take(i as int) =~= before.active);
        self.active_sessions = kept;
        if self.is_master(session_id) {
            self.master_session = None;
        }
        proof {
            if before.wf() {
                lemma_filter_wf(before, self@, session_id, keep);
            }
        }
    }

    /// A copy of the first session with the given id.
    pub fn get_session(&self, session_id: u32) -> (r: Option<&DrmAuthToken>)
        ensures
            match r {
                Some(t) => exists|i: int| #[trigger]
                    is_first(self@.active, session_id, i) && *t == self@.active[i],
                None => is_absent(self@.active, session_id),
            },
    {
        match self.find(session_id) {
            Some(i) => Some(&self.active_sessions[i]),
            None => None,
        }
    }

    /// The first session with the given id, to be changed.
    pub fn get_session_mut(&mut self, session_id: u32) -> (r: Option<&mut DrmAuthToken>)
        ensures
            match r {
                Some(t) => exists|i: int| #[trigger]
                    is_first(old(self)@.active, session_id, i) && *t == old(self)@.active[i]
                        && final(self)@ == (Sessions {
                        active: old(self)@.active.update(i, *final(t)),
                        ..old(self)@
                    }),
                None => is_absent(old(self)@.active, session_id) && final(self)@ == old(self)@,
            },
    {
        match self.find(session_id) {
            Some(i) => Some(&mut self.active_sessions[i]),
            None => None,
        }
    }
}

/// Sessions stay well-formed when one is closed.
proof fn lemma_filter_wf(
    s: Sessions,
    t: Sessions,
    id: u32,
    keep: spec_fn(DrmAuthToken) -> bool,
)
    requires
        s.wf(),
        forall|t: DrmAuthToken| #[trigger] keep(t) == (t.session_id != id),
        t.active == s.active.filter(keep),
        t.master == (if s.master == Some(id) {
            None
        } else {
            s.master
        }),
        t.next_id == s.next_id,
    ensures
        t.wf(),
{
    let f = s.active.filter(keep);
    lemma_filter_picks(s.active, keep);
    let at = choose|at: Seq<int>| #[trigger] picks(s.active, f, at);
    assert forall|i: int| 0 <= i < f.len() implies 0 < (#[trigger] f[i]).session_id < s.next_id by {
        assert(0 <= at[i] < s.active.len());
    }
    assert forall|i: int, j: int| 0 <= i < j < f.len() implies (#[trigger] f[i]).session_id != (
    #[trigger] f[j]).session_id by {
        assert(at[i] < at[j]);
        assert(s.active[at[i]].session_id != s.active[at[j]].session_id);
    }
    if s.master is Some && s.master != Some(id) {
        let m = s.master->Some_0;
        let i = choose|i: int|
            0 <= i < s.active.len() && (#[trigger] s.active[i]).session_id == m
                && s.active[i].authenticated;
        broadcast use vstd::seq_lib::group_filter_ensures;

        assert(keep(s.active[i]));
        assert(f.contains(s.active[i]));
        let k = choose|k: int| 0 <= k < f.len() && f[k] == s.active[i];
        assert(f[k].session_id == m && f[k].authenticated);
    }
}

/// `f` is what stands in `a` at the places `at`, in order.
spec fn picks(a: Seq<DrmAuthToken>, f: Seq<DrmAuthToken>, at: Seq<int>) -> bool {
    &&& at.len() == f.len()
    &&& forall|i: int, j: int| 0 <= i < j < at.len() ==> at[i] < at[j]
    &&& forall|i: int| 0 <= i < at.len() ==> 0 <= #[trigger] at[i] < a.len() && a[at[i]] == f[i]
}

/// What a filter keeps stands in the order it had.
proof fn lemma_filter_picks(a: Seq<DrmAuthToken>, keep: spec_fn(DrmAuthToken) -> bool)
    ensures
        exists|at: Seq<int>| #[trigger] picks(a, a.filter(keep), at),
    decreases a.len(),
{
    reveal(Seq::filter);
    if a.len() == 0 {
        assert(picks(a, a.filter(keep), Seq::<int>::empty()));
    } else {
        lemma_filter_picks(a.drop_last(), keep);
        let init = a.drop_last().filter(keep);
        let at = choose|at: Seq<int>| #[trigger] picks(a.drop_last(), init, at);
        if keep(a.last()) {
            let more = at.push(a.len() - 1);
            assert forall|i: int| 0 <= i < more.len() implies 0 <= #[trigger] more[i] < a.len()
                && a[more[i]] == a.filter(keep)[i] by {
                if i < at.len() {
                    assert(0 <= at[i] < a.drop_last().len());
                }
            }
            assert(picks(a, a.filter(keep), more));
        } else {
            assert(picks(a, a.filter(keep), at));
        }
    }
}

// The same, as plain functions over the manager.

/// Opens a session.
pub fn create_session(manager: &mut AuthManager, magics: &mut IdCounter) -> (token: DrmAuthToken)
    requires
        old(manager)@.next_id < u32::MAX,
        old(magics).next < u32::MAX,
    ensures
        token == (DrmAuthToken {
            session_id: old(manager)@.next_id,
            magic: old(magics).next,
            authenticated: false,
            capabilities: DrmCapabilities { bits: 0 },
        }),
        final(manager)@ == (Sessions {
            active: old(manager)@.active.push(token),
            next_id: (old(manager)@.next_id + 1) as u32,
            ..old(manager)@
        }),
        final(magics).next == old(magics).next + 1,
        old(manager)@.wf() ==> final(manager)@.wf(),
{
    manager.create_session(magics)
}

/// Authenticates a session if the magic number is right.
pub fn authenticate_session(manager: &mut AuthManager, session_id: u32, magic: u32) -> (r: Result<
    (),
    AuthError,
>)
    ensures
        old(manager)@.authenticated(final(manager)@, session_id, magic, r),
        old(manager)@.wf() ==> final(manager)@.wf(),
{
    manager.authenticate_session(session_id, magic)
}

/// Makes a session master, if it is authenticated and there is no master.
pub fn set_master(manager: &mut AuthManager, session_id: u32) -> (r: Result<(), AuthError>)
    ensures
        old(manager)@.mastered(final(manager)@, session_id, r),
        old(manager)@.wf() ==> final(manager)@.wf(),
{
    manager.set_master(session_id)
}

/// Gives master privilege up; only the master can.
pub fn drop_master(manager: &mut AuthManager, session_id: u32) -> (r: Result<(), AuthError>)
    ensures
        r == (if old(manager)@.master == Some(session_id) {
            Ok(())
        } else {
            Err(AuthError::InsufficientPermissions)
        }),
        final(manager)@ == (if r is Ok {
            Sessions { master: None, ..old(manager)@ }
        } else {
            old(manager)@
        }),
        old(manager)@.wf() ==> final(manager)@.wf(),
{
    manager.drop_master(session_id)
}

/// Whether a session is master.
pub fn is_master(manager: &AuthManager, session_id: u32) -> (r: bool)
    ensures
        r == (manager@.master == Some(session_id)),
{
    manager.is_master(session_id)
}

/// Whether a session may perform an operation.
pub fn can_perform(manager: &AuthManager, session_id: u32, operation: DrmOperation) -> (r: bool)
    ensures
        r == manager@.permits(session_id, operation),
{
    manager.can_perform(session_id, operation)
}

/// Closes a session; a master that goes leaves no master behind.
pub fn close_session(manager: &mut AuthManager, session_id: u32)
    ensures
        final(manager)@ == (Sessions {
            active: old(manager)@.active.filter(|s: DrmAuthToken| s.session_id != session_id),
            master: if old(manager)@.master == Some(session_id) {
                None
            } else {
                old(manager)@.master
            },
            next_id: old(manager)@.next_id,
        }),
        old(manager)@.wf() ==> final(manager)@.wf(),
{
    manager.close_session(session_id)
}

/// Only the master sets modes and commits atomically, and there is at most one.
pub proof fn lemma_one_master(s: Sessions, a: u32, b: u32, op: DrmOperation)
    requires
        op.needs_master(),
        s.permits(a, op),
        s.permits(b, op),
    ensures
        a == b,
        s.master == Some(a),
{
}

} // verus!
