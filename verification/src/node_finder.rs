//! Discovery: the loop that keeps a node connected to a working set of peers.
//!
//! A cycle refreshes the set of peers that are held or were tried lately,
//! takes the present list of candidates, and goes through it in order. A
//! candidate that is in the set is passed over. Every other candidate is
//! dialled at its addresses, one after the other, until one of them gives a
//! session; then the candidate goes into the set. A candidate that cannot be
//! reached stays out of the set and is tried again in the next cycle. A
//! candidate whose certificate does not verify is not dialled again in the
//! same cycle, at no address.
//!
//! The finder decides; the caller dials. Each call says what to do next and
//! the caller comes back with how it went.

use vstd::prelude::*;
use crate::handshake::HandshakeError;
use crate::model::{NodeRef, OmniAddress, SessionType};
use crate::volatile::{expired, spec_refresh, Clock, VolatileMembershipSet};

verus! {

/// How many seconds the discovery loop rests between two cycles.
pub const DISCOVERY_DELAY_SECS: u64 = 10;

/// How many milliseconds a peer stays in the set of a finder that measures
/// time in milliseconds: half an hour.
pub const CONNECTED_TTL_MILLIS: u64 = 1_800_000;

/// The settings of a node finder.
#[derive(Debug)]
pub struct NodeFinderOptions {
    pub state_directory_path: String,
    pub max_connected_session_count: u32,
    pub max_accepted_session_count: u32,
}

/// How an attempt to connect ended.
#[derive(Clone, Copy, Debug, PartialEq, Eq, Structural)]
pub enum ConnectOutcome {
    /// The handshake gave a session.
    Established,
    /// The peer declined the session.
    Rejected,
    /// The peer's certificate did not verify.
    AuthenticationFailed,
    /// The peer could not be reached in time, or the handshake failed in
    /// another way.
    Failed,
}

/// The outcome of an attempt whose handshake failed with `error`.
pub open spec fn spec_outcome_of(error: HandshakeError) -> ConnectOutcome {
    match error {
        HandshakeError::InvalidSignature => ConnectOutcome::AuthenticationFailed,
        _ => ConnectOutcome::Failed,
    }
}

/// The outcome of an attempt whose handshake failed with `error`: a
/// certificate that did not verify is an authentication failure, everything
/// else a plain one.
pub fn outcome_of(error: HandshakeError) -> (r: ConnectOutcome)
    ensures
        r == spec_outcome_of(error),
{
    match error {
        HandshakeError::InvalidSignature => ConnectOutcome::AuthenticationFailed,
        _ => ConnectOutcome::Failed,
    }
}

/// Where in a cycle a finder is.
#[derive(Clone, Copy, Debug, PartialEq, Eq, Structural)]
pub enum FinderPhase {
    /// No cycle is under way.
    Idle,
    /// The cycle has begun and the candidates are due.
    AwaitCandidates,
    /// An attempt to connect is under way.
    AwaitConnect,
}

/// What the caller is to do next.
#[derive(Debug)]
pub enum DiscoveryAction {
    /// Fetch the present candidates.
    FetchCandidates,
    /// Dial the address of the candidate at the given place, and run the
    /// handshake as initiator for a session of the given purpose.
    Connect { candidate: usize, address: OmniAddress, typ: SessionType },
    /// The cycle is over.
    Done,
}

/// An action, with the address as a sequence.
pub enum DiscoveryActionModel {
    FetchCandidates,
    Connect { candidate: nat, address: Seq<char>, typ: SessionType },
    Done,
}

impl View for DiscoveryAction {
    type V = DiscoveryActionModel;

    open spec fn view(&self) -> DiscoveryActionModel {
        match self {
            DiscoveryAction::FetchCandidates => DiscoveryActionModel::FetchCandidates,
            DiscoveryAction::Connect { candidate, address, typ } => DiscoveryActionModel::Connect {
                candidate: *candidate as nat,
                address: address@,
                typ: *typ,
            },
            DiscoveryAction::Done => DiscoveryActionModel::Done,
        }
    }
}

/// What a finder knows. A peer is the sequence of its addresses.
pub struct FinderModel {
    /// The peers that are held or were connected lately, with the time at
    /// which each went in.
    pub members: Map<Seq<Seq<char>>, u64>,
    /// How long a peer stays in `members` without being put in again.
    pub ttl: u64,
    /// The peers whose certificate did not verify in the cycle under way.
    pub barred: Set<Seq<Seq<char>>>,
    /// The candidates of the cycle under way.
    pub candidates: Seq<Seq<Seq<char>>>,
    /// The place of the candidate that is being tried.
    pub cursor: nat,
    /// The place of the address that is being tried.
    pub address: nat,
    pub phase: FinderPhase,
}

impl FinderModel {
    /// While an attempt is under way, it is at an address of a candidate
    /// that is neither in the set nor barred.
    pub open spec fn wf(self) -> bool {
        self.phase == FinderPhase::AwaitConnect ==> {
            &&& self.cursor < self.candidates.len()
            &&& self.address < self.candidates[self.cursor as int].len()
            &&& !self.members.dom().contains(self.candidates[self.cursor as int])
            &&& !self.barred.contains(self.candidates[self.cursor as int])
        }
    }

    /// Whether the candidate at place `i` is to be tried: it is not in the
    /// set, its certificate has not failed to verify in this cycle, and it
    /// has an address.
    pub open spec fn eligible(self, i: int) -> bool {
        &&& 0 <= i < self.candidates.len()
        &&& !self.members.dom().contains(self.candidates[i])
        &&& !self.barred.contains(self.candidates[i])
        &&& self.candidates[i].len() > 0
    }

    /// The place of the first candidate from `from` on that is to be tried,
    /// or the number of candidates if there is none.
    pub open spec fn seek(self, from: nat) -> nat
        decreases self.candidates.len() - from,
    {
        if from >= self.candidates.len() {
            self.candidates.len()
        } else if self.eligible(from as int) {
            from
        } else {
            self.seek(from + 1)
        }
    }

    /// The finder at rest, with its set as it is.
    pub open spec fn rest(self) -> FinderModel {
        FinderModel { phase: FinderPhase::Idle, cursor: 0, address: 0, ..self }
    }

    /// Goes on to the first candidate from `from` on that is to be tried.
    /// This is the point between two candidates: a cancelled cycle ends here.
    pub open spec fn proceed(self, from: nat, cancelled: bool) -> (
        FinderModel,
        DiscoveryActionModel,
    ) {
        let next = self.seek(from);
        if cancelled || next >= self.candidates.len() {
            (self.rest(), DiscoveryActionModel::Done)
        } else {
            (
                FinderModel {
                    phase: FinderPhase::AwaitConnect,
                    cursor: next,
                    address: 0,
                    ..self
                },
                DiscoveryActionModel::Connect {
                    candidate: next,
                    address: self.candidates[next as int][0],
                    typ: SessionType::NodeFinder,
                },
            )
        }
    }

    /// The start of a cycle at time `now`: the set is refreshed, nobody is
    /// barred any more, and the candidates are asked for.
    pub open spec fn begin_cycle(self, now: u64) -> (FinderModel, DiscoveryActionModel) {
        (
            FinderModel {
                members: spec_refresh(self.members, now, self.ttl),
                barred: Set::empty(),
                candidates: Seq::empty(),
                phase: FinderPhase::AwaitCandidates,
                cursor: 0,
                address: 0,
                ..self
            },
            DiscoveryActionModel::FetchCandidates,
        )
    }

    /// The candidates arrived: the first that is to be tried is dialled at
    /// its first address. A finder that did not ask for candidates stays as
    /// it is.
    pub open spec fn candidates_fetched(self, list: Seq<Seq<Seq<char>>>, cancelled: bool) -> (
        FinderModel,
        DiscoveryActionModel,
    ) {
        if self.phase == FinderPhase::AwaitCandidates {
            FinderModel { candidates: list, ..self }.proceed(0, cancelled)
        } else {
            (self, DiscoveryActionModel::Done)
        }
    }

    /// An attempt ended at time `now`.
    /// - If it gave a session, the candidate goes into the set and the next
    ///   candidate is looked for.
    /// - If the peer's certificate did not verify, the candidate is barred
    ///   for the rest of the cycle and the next candidate is looked for.
    /// - If it ended in another way, the candidate's next address is
    ///   dialled; after its last address the candidate is left out of the
    ///   set and the next candidate is looked for.
    ///
    /// A finder with no attempt under way stays as it is.
    pub open spec fn connect_finished(self, outcome: ConnectOutcome, cancelled: bool, now: u64)
        -> (FinderModel, DiscoveryActionModel) {
        if self.phase != FinderPhase::AwaitConnect {
            (self, DiscoveryActionModel::Done)
        } else if outcome == ConnectOutcome::Established {
            FinderModel {
                members: self.members.insert(self.candidates[self.cursor as int], now),
                ..self
            }.proceed(self.cursor + 1, cancelled)
        } else if outcome == ConnectOutcome::AuthenticationFailed {
            FinderModel {
                barred: self.barred.insert(self.candidates[self.cursor as int]),
                ..self
            }.proceed(self.cursor + 1, cancelled)
        } else if self.address + 1 < self.candidates[self.cursor as int].len() {
            (
                FinderModel { address: self.address + 1, ..self },
                DiscoveryActionModel::Connect {
                    candidate: self.cursor,
                    address: self.candidates[self.cursor as int][self.address as int + 1],
                    typ: SessionType::NodeFinder,
                },
            )
        } else {
            self.proceed(self.cursor + 1, cancelled)
        }
    }
}

spec fn peer_at(nodes: Seq<NodeRef>, i: int) -> Seq<Seq<char>> {
    nodes[i]@
}

spec fn peers_of(nodes: Seq<NodeRef>) -> Set<Seq<Seq<char>>> {
    Set::new(
        |p: Seq<Seq<char>>| exists|i: int| 0 <= i < nodes.len() && #[trigger] peer_at(nodes, i) == p,
    )
}

/// The discovery loop's state: the set of peers that are held or were
/// connected lately, and the place in the cycle under way.
pub struct NodeFinder<C> {
    connected: VolatileMembershipSet<NodeRef, C>,
    option: NodeFinderOptions,
    barred: Vec<NodeRef>,
    candidates: Vec<NodeRef>,
    cursor: usize,
    address: usize,
    phase: FinderPhase,
}

impl<C: Clock> View for NodeFinder<C> {
    type V = FinderModel;

    closed spec fn view(&self) -> FinderModel {
        FinderModel {
            members: self.connected@,
            ttl: self.connected.spec_ttl(),
            barred: peers_of(self.barred@),
            candidates: self.candidates@.map_values(|n: NodeRef| n@),
            cursor: self.cursor as nat,
            address: self.address as nat,
            phase: self.phase,
        }
    }
}

impl<C: Clock> NodeFinder<C> {
    /// The set holds no peer twice, and what the finder knows is
    /// well-formed.
    pub closed spec fn wf(&self) -> bool {
        &&& self.connected.wf()
        &&& self@.wf()
    }

    /// What a well-formed finder knows is well-formed.
    pub proof fn lemma_wf(&self)
        requires
            self.wf(),
        ensures
            self@.wf(),
    {
    }

    /// A finder at rest whose set is empty. A peer stays in the set for `ttl`
    /// ticks of `clock`.
    pub fn new(option: NodeFinderOptions, ttl: u64, clock: C) -> (r: Self)
        ensures
            r.wf(),
            r@.wf(),
            r.spec_option() == option,
            r@ == (FinderModel {
                members: Map::empty(),
                ttl,
                barred: Set::empty(),
                candidates: Seq::empty(),
                cursor: 0,
                address: 0,
                phase: FinderPhase::Idle,
            }),
    {
        let r = NodeFinder {
            connected: VolatileMembershipSet::new(ttl, clock),
            option,
            barred: Vec::new(),
            candidates: Vec::new(),
            cursor: 0,
            address: 0,
            phase: FinderPhase::Idle,
        };
        assert(r@.candidates =~= Seq::empty());
        assert(r@.barred =~= Set::empty());
        r
    }

    /// The settings that the finder was made with.
    pub closed spec fn spec_option(&self) -> NodeFinderOptions {
        self.option
    }

    /// The settings that the finder was made with.
    pub fn option(&self) -> (r: &NodeFinderOptions)
        ensures
            *r == self.spec_option(),
    {
        &self.option
    }

    /// Where in a cycle the finder is.
    pub fn phase(&self) -> (r: FinderPhase)
        ensures
            r == self@.phase,
    {
        self.phase
    }

    /// Whether `node` is in the set of peers that are held or were connected
    /// lately.
    pub fn is_member(&self, node: &NodeRef) -> (r: bool)
        ensures
            r == self@.members.dom().contains(node@),
    {
        self.connected.contains(node)
    }

    /// Whether the certificate of `node` failed to verify in the cycle
    /// under way.
    pub fn is_barred(&self, node: &NodeRef) -> (r: bool)
        ensures
            r == self@.barred.contains(node@),
    {
        let mut i: usize = 0;
        while i < self.barred.len()
            invariant
                i <= self.barred@.len(),
                forall|j: int| 0 <= j < i ==> peer_at(self.barred@, j) != node@,
            decreases self.barred@.len() - i,
        {
            if self.barred[i].same(node) {
                assert(peer_at(self.barred@, i as int) == node@);
                return true;
            }
            i = i + 1;
        }
        false
    }

    /// The clock's present time, in the ticks in which the time to live is
    /// measured.
    pub fn now(&self) -> u64 {
        self.connected.now()
    }

    fn proceed(&mut self, from: usize, cancelled: bool) -> (action: DiscoveryAction)
        requires
            old(self).connected.wf(),
            from <= old(self)@.candidates.len(),
        ensures
            final(self).wf(),
            final(self).spec_option() == old(self).spec_option(),
            (final(self)@, action@) == old(self)@.proceed(from as nat, cancelled),
    {
        let ghost model = self@;
        let mut i: usize = from;
        let mut found = false;
        while !found && i < self.candidates.len()
            invariant
                from <= i <= self.candidates@.len(),
                self@ == model,
                self.connected.wf(),
                model.seek(from as nat) == model.seek(i as nat),
                found ==> model.eligible(i as int),
            decreases self.candidates@.len() - i + (if found { 0int } else { 1int }),
        {
            let count = self.candidates[i].addr_count();
            if self.connected.contains(&self.candidates[i]) || self.is_barred(&self.candidates[i]) {
                i = i + 1;
            } else {
                found = true;
            }
        }
        assert(model.seek(from as nat) == i);
        if cancelled || i >= self.candidates.len() {
            self.phase = FinderPhase::Idle;
            self.cursor = 0;
            self.address = 0;
            DiscoveryAction::Done
        } else {
            let address = self.candidates[i].addr(0).clone();
            self.phase = FinderPhase::AwaitConnect;
            self.cursor = i;
            self.address = 0;
            DiscoveryAction::Connect { candidate: i, address, typ: SessionType::NodeFinder }
        }
    }

    /// Begins a cycle at time `now`: drops the peers that have expired from
    /// the set, bars nobody any more, and asks for the candidates. A cycle
    /// that was under way is given up.
    pub fn begin_cycle_at(&mut self, now: u64) -> (action: DiscoveryAction)
        requires
            old(self).wf(),
        ensures
            final(self).wf(),
            final(self)@.wf(),
            final(self).spec_option() == old(self).spec_option(),
            (final(self)@, action@) == old(self)@.begin_cycle(now),
    {
        self.connected.refresh_at(now);
        self.barred = Vec::new();
        self.candidates = Vec::new();
        self.cursor = 0;
        self.address = 0;
        self.phase = FinderPhase::AwaitCandidates;
        assert(self@.candidates =~= Seq::empty());
        assert(self@.barred =~= Set::empty());
        DiscoveryAction::FetchCandidates
    }

    /// Begins a cycle at the clock's present time.
    pub fn begin_cycle(&mut self) -> (action: DiscoveryAction)
        requires
            old(self).wf(),
        ensures
            final(self).wf(),
            final(self)@.wf(),
            final(self).spec_option() == old(self).spec_option(),
            exists|now: u64| (final(self)@, action@) == #[trigger] old(self)@.begin_cycle(now),
    {
        let now = self.connected.now();
        let action = self.begin_cycle_at(now);
        assert((self@, action@) == old(self)@.begin_cycle(now));
        action
    }

    /// Takes the candidates of the cycle and says which address to dial
    /// first, if any. `cancelled` says whether the loop was asked to stop.
    pub fn candidates_fetched(&mut self, list: Vec<NodeRef>, cancelled: bool) -> (action:
        DiscoveryAction)
        requires
            old(self).wf(),
        ensures
            final(self).wf(),
            final(self)@.wf(),
            final(self).spec_option() == old(self).spec_option(),
            (final(self)@, action@) == old(self)@.candidates_fetched(
                list@.map_values(|n: NodeRef| n@),
                cancelled,
            ),
    {
        match self.phase {
            FinderPhase::AwaitCandidates => {
                self.candidates = list;
                self.proceed(0, cancelled)
            },
            _ => DiscoveryAction::Done,
        }
    }

    /// Takes the outcome of the attempt under way, which ended at time
    /// `now`, and says what to do next. `cancelled` says whether the loop
    /// was asked to stop; it is looked at between two candidates only, so a
    /// candidate is never left half tried.
    pub fn connect_finished_at(&mut self, outcome: ConnectOutcome, cancelled: bool, now: u64) -> (action:
        DiscoveryAction)
        requires
            old(self).wf(),
        ensures
            final(self).wf(),
            final(self)@.wf(),
            final(self).spec_option() == old(self).spec_option(),
            (final(self)@, action@) == old(self)@.connect_finished(outcome, cancelled, now),
    {
        match self.phase {
            FinderPhase::AwaitConnect => {
                let cursor = self.cursor;
                assert(cursor < self.candidates@.len());
                assert(self.address < self.candidates@[cursor as int]@.len());
                let total = self.candidates.len();
                let count = self.candidates[cursor].addr_count();
                match outcome {
                    ConnectOutcome::Established => {
                        let node = self.candidates[cursor].clone();
                        self.connected.insert_at(node, now);
                        self.proceed(cursor + 1, cancelled)
                    },
                    ConnectOutcome::AuthenticationFailed => {
                        let node = self.candidates[cursor].clone();
                        let ghost before = self.barred@;
                        let ghost peer = node@;
                        self.barred.push(node);
                        proof {
                            let after = self.barred@;
                            let n = before.len() as int;
                            assert forall|p: Seq<Seq<char>>| #[trigger]
                                peers_of(after).contains(p) == peers_of(before).insert(
                                    peer,
                                ).contains(p) by {
                                if peers_of(after).contains(p) {
                                    let i = choose|i: int|
                                        0 <= i < after.len() && peer_at(after, i) == p;
                                    if i < n {
                                        assert(peer_at(before, i) == p);
                                    }
                                }
                                if peers_of(before).contains(p) {
                                    let i = choose|i: int|
                                        0 <= i < before.len() && peer_at(before, i) == p;
                                    assert(peer_at(after, i) == p);
                                }
                                if p == peer {
                                    assert(peer_at(after, n) == p);
                                }
                            }
                            assert(peers_of(after) =~= peers_of(before).insert(peer));
                        }
                        self.proceed(cursor + 1, cancelled)
                    },
                    _ => {
                        if self.address + 1 < count {
                            self.address = self.address + 1;
                            let address = self.candidates[cursor].addr(self.address).clone();
                            DiscoveryAction::Connect {
                                candidate: cursor,
                                address,
                                typ: SessionType::NodeFinder,
                            }
                        } else {
                            self.proceed(cursor + 1, cancelled)
                        }
                    },
                }
            },
            _ => DiscoveryAction::Done,
        }
    }

    /// Takes the outcome of the attempt under way as of the clock's present
    /// time, and says what to do next.
    pub fn connect_finished(&mut self, outcome: ConnectOutcome, cancelled: bool) -> (action:
        DiscoveryAction)
        requires
            old(self).wf(),
        ensures
            final(self).wf(),
            final(self)@.wf(),
            final(self).spec_option() == old(self).spec_option(),
            exists|now: u64|
                (final(self)@, action@) == #[trigger] old(self)@.connect_finished(
                    outcome,
                    cancelled,
                    now,
                ),
    {
        let now = self.connected.now();
        let action = self.connect_finished_at(outcome, cancelled, now);
        assert((self@, action@) == old(self)@.connect_finished(outcome, cancelled, now));
        action
    }
}

/// What `seek` finds is the first candidate from `from` on that is to be
/// tried.
pub proof fn lemma_seek_is_first(model: FinderModel, from: nat)
    requires
        from <= model.candidates.len(),
    ensures
        from <= model.seek(from) <= model.candidates.len(),
        model.seek(from) < model.candidates.len() ==> model.eligible(model.seek(from) as int),
        forall|i: int| from <= i < model.seek(from) ==> !model.eligible(i),
    decreases model.candidates.len() - from,
{
    if from < model.candidates.len() && !model.eligible(from as int) {
        lemma_seek_is_first(model, from + 1);
    }
}

/// Every step of a cycle keeps the finder well-formed.
pub proof fn lemma_steps_keep_wf(
    model: FinderModel,
    list: Seq<Seq<Seq<char>>>,
    outcome: ConnectOutcome,
    cancelled: bool,
    now: u64,
)
    requires
        model.wf(),
    ensures
        model.begin_cycle(now).0.wf(),
        model.candidates_fetched(list, cancelled).0.wf(),
        model.connect_finished(outcome, cancelled, now).0.wf(),
{
    let fetched = FinderModel { candidates: list, ..model };
    lemma_seek_is_first(fetched, 0);
    if model.phase == FinderPhase::AwaitConnect {
        let peer = model.candidates[model.cursor as int];
        let joined = FinderModel { members: model.members.insert(peer, now), ..model };
        let barring = FinderModel { barred: model.barred.insert(peer), ..model };
        lemma_seek_is_first(joined, model.cursor + 1);
        lemma_seek_is_first(barring, model.cursor + 1);
        lemma_seek_is_first(model, model.cursor + 1);
    }
}

/// No peer of the set is dialled: whenever a step of a cycle says to connect,
/// the candidate it names is not in the set and not barred, and the address
/// is one of the candidate's own.
pub proof fn lemma_connect_targets_non_member(
    model: FinderModel,
    list: Seq<Seq<Seq<char>>>,
    outcome: ConnectOutcome,
    cancelled: bool,
    now: u64,
)
    requires
        model.wf(),
    ensures
        model.candidates_fetched(list, cancelled).1 matches DiscoveryActionModel::Connect {
            candidate,
            address,
            ..
        } ==> {
            let after = model.candidates_fetched(list, cancelled).0;
            &&& candidate < after.candidates.len()
            &&& !after.members.dom().contains(after.candidates[candidate as int])
            &&& !after.barred.contains(after.candidates[candidate as int])
            &&& after.candidates[candidate as int].contains(address)
        },
        model.connect_finished(outcome, cancelled, now).1 matches DiscoveryActionModel::Connect {
            candidate,
            address,
            ..
        } ==> {
            let after = model.connect_finished(outcome, cancelled, now).0;
            &&& candidate < after.candidates.len()
            &&& !after.members.dom().contains(after.candidates[candidate as int])
            &&& !after.barred.contains(after.candidates[candidate as int])
            &&& after.candidates[candidate as int].contains(address)
        },
{
    let fetched = FinderModel { candidates: list, ..model };
    lemma_seek_is_first(fetched, 0);
    if model.phase == FinderPhase::AwaitConnect {
        let peer = model.candidates[model.cursor as int];
        let joined = FinderModel { members: model.members.insert(peer, now), ..model };
        let barring = FinderModel { barred: model.barred.insert(peer), ..model };
        lemma_seek_is_first(joined, model.cursor + 1);
        lemma_seek_is_first(barring, model.cursor + 1);
        lemma_seek_is_first(model, model.cursor + 1);
    }
}

/// Discovery is idempotent: in a cycle at whose start no peer of the set has
/// expired and whose candidates are all in the set already, the set stays as
/// it is and nobody is dialled.
pub proof fn lemma_members_are_not_contacted(
    model: FinderModel,
    now: u64,
    list: Seq<Seq<Seq<char>>>,
    cancelled: bool,
)
    requires
        forall|k: Seq<Seq<char>>|
            model.members.dom().contains(k) ==> !expired(#[trigger] model.members[k], now, model.ttl),
        forall|i: int| 0 <= i < list.len() ==> model.members.dom().contains(#[trigger] list[i]),
    ensures
        model.begin_cycle(now).0.members == model.members,
        model.begin_cycle(now).0.candidates_fetched(list, cancelled).1
            == DiscoveryActionModel::Done,
        model.begin_cycle(now).0.candidates_fetched(list, cancelled).0.members == model.members,
{
    crate::volatile::lemma_refresh_without_expiry(model.members, now, model.ttl);
    let begun = model.begin_cycle(now).0;
    let fetched = FinderModel { candidates: list, ..begun };
    lemma_seek_is_first(fetched, 0);
}

/// A candidate that could not be reached stays out of the set, and so is
/// tried again in the next cycle: an attempt that gave no session changes
/// the set in nothing.
pub proof fn lemma_failure_leaves_set(
    model: FinderModel,
    outcome: ConnectOutcome,
    cancelled: bool,
    now: u64,
)
    requires
        outcome != ConnectOutcome::Established,
    ensures
        model.connect_finished(outcome, cancelled, now).0.members == model.members,
{
}

/// A candidate that gave a session is in the set from then on.
pub proof fn lemma_success_joins_set(model: FinderModel, cancelled: bool, now: u64)
    requires
        model.phase == FinderPhase::AwaitConnect,
    ensures
        model.connect_finished(ConnectOutcome::Established, cancelled, now).0.members
            == model.members.insert(model.candidates[model.cursor as int], now),
{
}

/// The finder after a run of attempts. Each entry says how an attempt ended,
/// whether the loop had been asked to stop by then, and what time it was.
pub open spec fn after_attempts(model: FinderModel, results: Seq<(ConnectOutcome, bool, u64)>)
    -> FinderModel
    decreases results.len(),
{
    if results.len() == 0 {
        model
    } else {
        let last = results.last();
        after_attempts(model, results.drop_last()).connect_finished(last.0, last.1, last.2).0
    }
}

/// Within a cycle no peer leaves the set and nobody who is barred is let
/// in again: after the refresh at its start, the steps of a cycle only ever
/// add to the two.
pub proof fn lemma_steps_keep_members(
    model: FinderModel,
    list: Seq<Seq<Seq<char>>>,
    outcome: ConnectOutcome,
    cancelled: bool,
    now: u64,
    peer: Seq<Seq<char>>,
)
    ensures
        model.members.dom().contains(peer) ==> {
            &&& model.candidates_fetched(list, cancelled).0.members.dom().contains(peer)
            &&& model.connect_finished(outcome, cancelled, now).0.members.dom().contains(peer)
        },
        model.barred.contains(peer) ==> {
            &&& model.candidates_fetched(list, cancelled).0.barred.contains(peer)
            &&& model.connect_finished(outcome, cancelled, now).0.barred.contains(peer)
        },
{
}

/// Whoever is in the set or barred is not dialled for the rest of the
/// cycle, however the attempts of the cycle end: whenever an attempt is
/// under way afterwards, it is at another candidate.
pub proof fn lemma_attempts_pass_over(
    first: FinderModel,
    results: Seq<(ConnectOutcome, bool, u64)>,
    peer: Seq<Seq<char>>,
)
    requires
        first.wf(),
        first.members.dom().contains(peer) || first.barred.contains(peer),
    ensures
        after_attempts(first, results).wf(),
        after_attempts(first, results).members.dom().contains(peer) || after_attempts(
            first,
            results,
        ).barred.contains(peer),
        after_attempts(first, results).phase == FinderPhase::AwaitConnect ==> after_attempts(
            first,
            results,
        ).candidates[after_attempts(first, results).cursor as int] != peer,
    decreases results.len(),
{
    if results.len() > 0 {
        let last = results.last();
        let before = after_attempts(first, results.drop_last());
        lemma_attempts_pass_over(first, results.drop_last(), peer);
        lemma_steps_keep_wf(before, Seq::empty(), last.0, last.1, last.2);
        lemma_steps_keep_members(before, Seq::empty(), last.0, last.1, last.2, peer);
    }
}

proof fn lemma_attempts_keep_wf(first: FinderModel, results: Seq<(ConnectOutcome, bool, u64)>)
    requires
        first.wf(),
    ensures
        after_attempts(first, results).wf(),
    decreases results.len(),
{
    if results.len() > 0 {
        let last = results.last();
        lemma_attempts_keep_wf(first, results.drop_last());
        lemma_steps_keep_wf(
            after_attempts(first, results.drop_last()),
            Seq::empty(),
            last.0,
            last.1,
            last.2,
        );
    }
}

/// No peer that is in the set when a cycle takes its candidates is dialled
/// in that cycle, however the attempts of the cycle end: whenever an attempt
/// is under way, it is at a candidate that was not in the set then.
pub proof fn lemma_cycle_never_dials_members(
    begun: FinderModel,
    list: Seq<Seq<Seq<char>>>,
    cancelled: bool,
    results: Seq<(ConnectOutcome, bool, u64)>,
)
    requires
        begun.wf(),
    ensures
        ({
            let end = after_attempts(begun.candidates_fetched(list, cancelled).0, results);
            end.phase == FinderPhase::AwaitConnect ==> {
                &&& end.cursor < end.candidates.len()
                &&& !begun.members.dom().contains(end.candidates[end.cursor as int])
            }
        }),
{
    let first = begun.candidates_fetched(list, cancelled).0;
    lemma_steps_keep_wf(begun, list, ConnectOutcome::Failed, cancelled, 0);
    let end = after_attempts(first, results);
    lemma_attempts_keep_wf(first, results);
    if end.phase == FinderPhase::AwaitConnect {
        let peer = end.candidates[end.cursor as int];
        if begun.members.dom().contains(peer) {
            lemma_steps_keep_members(begun, list, ConnectOutcome::Failed, cancelled, 0, peer);
            lemma_attempts_pass_over(first, results, peer);
        }
    }
}

/// No second try after an authentication failure: a peer whose certificate
/// did not verify is not dialled again in the same cycle, at no address and
/// at no place of the list, however the later attempts of the cycle end.
pub proof fn lemma_authentication_failure_ends_the_peer(
    model: FinderModel,
    cancelled: bool,
    now: u64,
    results: Seq<(ConnectOutcome, bool, u64)>,
)
    requires
        model.wf(),
        model.phase == FinderPhase::AwaitConnect,
    ensures
        ({
            let peer = model.candidates[model.cursor as int];
            let (after, action) = model.connect_finished(
                ConnectOutcome::AuthenticationFailed,
                cancelled,
                now,
            );
            let end = after_attempts(after, results);
            &&& after.members == model.members
            &&& action matches DiscoveryActionModel::Connect { candidate, .. } ==> candidate
                > model.cursor && after.candidates[candidate as int] != peer
            &&& end.phase == FinderPhase::AwaitConnect ==> end.candidates[end.cursor as int]
                != peer
        }),
{
    let peer = model.candidates[model.cursor as int];
    let barring = FinderModel { barred: model.barred.insert(peer), ..model };
    lemma_seek_is_first(barring, model.cursor + 1);
    let after = model.connect_finished(ConnectOutcome::AuthenticationFailed, cancelled, now).0;
    lemma_steps_keep_wf(model, Seq::empty(), ConnectOutcome::AuthenticationFailed, cancelled, now);
    lemma_attempts_pass_over(after, results, peer);
}

/// Where the discovery loop is.
#[derive(Clone, Copy, Debug, PartialEq, Eq, Structural)]
pub enum LoopPhase {
    /// Before the first step.
    Idle,
    /// A cycle runs.
    Cycling,
    /// The rest between two cycles runs.
    Resting,
    /// The loop was left.
    Stopped,
}

/// What the loop's caller observed.
#[derive(Clone, Copy, Debug, PartialEq, Eq, Structural)]
pub enum LoopEvent {
    /// The loop was started.
    Started,
    /// The cycle has ended, however it went.
    CycleEnded,
    /// The rest is over.
    Rested,
}

/// What the loop's caller is to do next.
#[derive(Clone, Copy, Debug, PartialEq, Eq, Structural)]
pub enum LoopAction {
    /// Run one cycle of discovery.
    RunCycle,
    /// Wait this many seconds.
    Rest(u64),
    /// Leave the loop.
    Stop,
}

/// One step of the discovery loop. It runs cycle after cycle with a rest
/// after each, until it is asked to stop; then it stops for good. Whatever
/// is reported out of turn, the loop goes on with the next cycle.
pub open spec fn loop_step(phase: LoopPhase, event: LoopEvent, cancelled: bool) -> (
    LoopPhase,
    LoopAction,
) {
    if phase == LoopPhase::Stopped || cancelled {
        (LoopPhase::Stopped, LoopAction::Stop)
    } else if phase == LoopPhase::Cycling && event == LoopEvent::CycleEnded {
        (LoopPhase::Resting, LoopAction::Rest(DISCOVERY_DELAY_SECS))
    } else {
        (LoopPhase::Cycling, LoopAction::RunCycle)
    }
}

/// The discovery loop: cycle, rest, cycle, until it is asked to stop.
#[derive(Debug)]
pub struct NodeFinderTask {
    phase: LoopPhase,
}

impl View for NodeFinderTask {
    type V = LoopPhase;

    closed spec fn view(&self) -> LoopPhase {
        self.phase
    }
}

impl NodeFinderTask {
    /// A loop before its first step.
    pub fn new() -> (r: NodeFinderTask)
        ensures
            r@ == LoopPhase::Idle,
    {
        NodeFinderTask { phase: LoopPhase::Idle }
    }

    /// Where the loop is.
    pub fn phase(&self) -> (r: LoopPhase)
        ensures
            r == self@,
    {
        self.phase
    }

    /// Runs the loop one step: takes what the caller observed and says what
    /// to do next. `cancelled` says whether the loop was asked to stop.
    pub fn run(&mut self, event: LoopEvent, cancelled: bool) -> (action: LoopAction)
        ensures
            (final(self)@, action) == loop_step(old(self)@, event, cancelled),
    {
        if self.phase == LoopPhase::Stopped || cancelled {
            self.phase = LoopPhase::Stopped;
            LoopAction::Stop
        } else if self.phase == LoopPhase::Cycling && event == LoopEvent::CycleEnded {
            self.phase = LoopPhase::Resting;
            LoopAction::Rest(DISCOVERY_DELAY_SECS)
        } else {
            self.phase = LoopPhase::Cycling;
            LoopAction::RunCycle
        }
    }
}

/// The loop runs until it is asked to stop: however a cycle went, a loop
/// that was not asked to stop rests and then runs the next cycle.
pub proof fn lemma_loop_goes_on(phase: LoopPhase, event: LoopEvent)
    requires
        phase != LoopPhase::Stopped,
    ensures
        loop_step(phase, event, false).1 != LoopAction::Stop,
        loop_step(phase, event, false).0 != LoopPhase::Stopped,
        loop_step(LoopPhase::Cycling, LoopEvent::CycleEnded, false) == (
            LoopPhase::Resting,
            LoopAction::Rest(DISCOVERY_DELAY_SECS),
        ),
        loop_step(LoopPhase::Resting, LoopEvent::Rested, false) == (
            LoopPhase::Cycling,
            LoopAction::RunCycle,
        ),
{
}

/// A loop that was asked to stop starts no further cycle, and stays stopped.
pub proof fn lemma_loop_stops_when_asked(phase: LoopPhase, event: LoopEvent, cancelled: bool)
    ensures
        loop_step(phase, event, true) == (LoopPhase::Stopped, LoopAction::Stop),
        loop_step(LoopPhase::Stopped, event, cancelled) == (LoopPhase::Stopped, LoopAction::Stop),
{
}

} // verus!
