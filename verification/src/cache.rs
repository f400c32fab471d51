//! The cache refresh coordinator.
//!
//! The coordinator keeps the last rendered page, decides when it has to be
//! rendered again, and lets exactly one caller do so at a time. It performs
//! no work itself: every method is one atomic step of its state machine, and
//! whoever drives it (holding it behind a lock) loads, renders and waits as
//! the steps tell it to.
//!
//! A caller first asks to refresh with [`CacheState::maybe_refresh`]. If it is
//! granted the claim it restores the persisted snapshot where it is told to,
//! renders, and reports the outcome with [`CacheState::finish_refresh`].
//! Every caller then reads with [`CacheState::get`], and reads again after
//! the next completed refresh if it is told to wait.

use vstd::prelude::*;

verus! {

/// The mathematical content of a snapshot.
pub ghost struct Snapshot {
    pub html: Seq<char>,
    pub css: Seq<char>,
    /// When the snapshot was rendered; `None` for one that was restored from
    /// the backing store, which is stale at any time.
    pub produced_at: Option<int>,
}

/// The mathematical content of the coordinator's state.
pub ghost struct CacheModel {
    /// The last known good snapshot, if there has ever been one.
    pub snapshot: Option<Snapshot>,
    /// How long a snapshot stays fresh.
    pub ttl: int,
    /// Whether a refresh is in flight.
    pub refreshing: bool,
    /// Whether readers may be served.
    pub initialized: bool,
    /// Whether snapshots are persisted to a backing store.
    pub backed: bool,
}

/// What a reader is told.
pub ghost enum Served {
    /// Nothing can be served before the refresh in flight has completed.
    Wait,
    /// The first refresh failed and there is nothing to serve.
    Unavailable,
    /// The current snapshot.
    Ready(Snapshot),
}

/// The state at process start: no snapshot, nothing in flight.
pub open spec fn initial(ttl: int, backed: bool) -> CacheModel {
    CacheModel { snapshot: None, ttl, refreshing: false, initialized: false, backed }
}

/// Whether the snapshot has outlived its time to live at `now`.
pub open spec fn stale(m: CacheModel, now: int) -> bool {
    match m.snapshot {
        Some(Snapshot { produced_at: Some(at), .. }) => now >= at + m.ttl,
        _ => true,
    }
}

/// Whether an attempt to refresh at `now` wins the claim.
pub open spec fn grants(m: CacheModel, now: int) -> bool {
    stale(m, now) && !m.refreshing
}

/// The state after an attempt to refresh at `now`.
pub open spec fn attempted(m: CacheModel, now: int) -> CacheModel {
    if grants(m, now) {
        CacheModel { refreshing: true, ..m }
    } else {
        m
    }
}

/// The state after the holder of the claim has looked for a persisted
/// snapshot and found `persisted`.
pub open spec fn restored(m: CacheModel, persisted: Option<(Seq<char>, Seq<char>)>) -> CacheModel {
    match persisted {
        Some((html, css)) if m.refreshing && !m.initialized => CacheModel {
            snapshot: Some(Snapshot { html, css, produced_at: None }),
            initialized: true,
            ..m
        },
        _ => m,
    }
}

/// The state after the refresh in flight has ended at `now` with `outcome`.
pub open spec fn finished(m: CacheModel, outcome: Option<(Seq<char>, Seq<char>)>, now: int)
    -> CacheModel {
    if !m.refreshing {
        m
    } else {
        match outcome {
            Some((html, css)) => CacheModel {
                snapshot: Some(Snapshot { html, css, produced_at: Some(now) }),
                refreshing: false,
                initialized: true,
                ..m
            },
            None => CacheModel { refreshing: false, initialized: true, ..m },
        }
    }
}

/// What a reader is told in state `m`.
pub open spec fn served(m: CacheModel) -> Served {
    if !m.initialized {
        Served::Wait
    } else {
        match m.snapshot {
            Some(snapshot) => Served::Ready(snapshot),
            None => Served::Unavailable,
        }
    }
}

/// How many of the attempts made at `times`, one after the other with no
/// refresh completing in between, win the claim.
pub open spec fn claims_won(m: CacheModel, times: Seq<int>) -> nat
    decreases times.len(),
{
    if times.len() == 0 {
        0
    } else {
        let won: nat = if grants(m, times[0]) {
            1
        } else {
            0
        };
        won + claims_won(attempted(m, times[0]), times.drop_first())
    }
}

/// The state after the attempts made at `times`.
pub open spec fn after_attempts(m: CacheModel, times: Seq<int>) -> CacheModel
    decreases times.len(),
{
    if times.len() == 0 {
        m
    } else {
        after_attempts(attempted(m, times[0]), times.drop_first())
    }
}

/// While a refresh is in flight no attempt wins the claim, and none changes
/// the state.
pub proof fn lemma_claim_excludes(m: CacheModel, times: Seq<int>)
    requires
        m.refreshing,
    ensures
        claims_won(m, times) == 0,
        after_attempts(m, times) == m,
    decreases times.len(),
{
    if times.len() > 0 {
        lemma_claim_excludes(m, times.drop_first());
    }
}

/// Single flight: of any number of attempts to refresh a stale cache with
/// nothing in flight, exactly one wins the claim, and it is the first; the
/// others find the claim taken and change nothing.
pub proof fn lemma_single_flight(m: CacheModel, times: Seq<int>)
    requires
        times.len() >= 1,
        !m.refreshing,
        stale(m, times[0]),
    ensures
        claims_won(m, times) == 1,
        grants(m, times[0]),
        after_attempts(m, times) == attempted(m, times[0]),
        after_attempts(m, times).refreshing,
        after_attempts(m, times).snapshot == m.snapshot,
{
    lemma_claim_excludes(attempted(m, times[0]), times.drop_first());
}

/// One step of the coordinator.
pub ghost enum Step {
    /// An attempt to refresh at the given time.
    Attempt(int),
    /// The report of what was found in the backing store.
    Restore(Option<(Seq<char>, Seq<char>)>),
    /// The end of the refresh in flight, with its outcome, at the given time.
    Finish(Option<(Seq<char>, Seq<char>)>, int),
}

/// The state after one step.
pub open spec fn stepped(m: CacheModel, step: Step) -> CacheModel {
    match step {
        Step::Attempt(now) => attempted(m, now),
        Step::Restore(persisted) => restored(m, persisted),
        Step::Finish(outcome, now) => finished(m, outcome, now),
    }
}

/// The state after the steps, taken one after the other.
pub open spec fn after_steps(m: CacheModel, steps: Seq<Step>) -> CacheModel
    decreases steps.len(),
{
    if steps.len() == 0 {
        m
    } else {
        stepped(after_steps(m, steps.drop_last()), steps.last())
    }
}

/// How many refreshes the steps start: the attempts among them that win the
/// claim.
pub open spec fn refreshes_started(m: CacheModel, steps: Seq<Step>) -> int
    decreases steps.len(),
{
    if steps.len() == 0 {
        0
    } else {
        let before = after_steps(m, steps.drop_last());
        refreshes_started(m, steps.drop_last()) + match steps.last() {
            Step::Attempt(now) if grants(before, now) => 1int,
            _ => 0int,
        }
    }
}

/// How many refreshes the steps end: the ends among them that find a refresh
/// in flight.
pub open spec fn refreshes_ended(m: CacheModel, steps: Seq<Step>) -> int
    decreases steps.len(),
{
    if steps.len() == 0 {
        0
    } else {
        let before = after_steps(m, steps.drop_last());
        refreshes_ended(m, steps.drop_last()) + match steps.last() {
            Step::Finish(_, _) if before.refreshing => 1int,
            _ => 0int,
        }
    }
}

/// At most one refresh is in flight, however the steps of any number of
/// callers are interleaved: from a state with nothing in flight, the
/// refreshes that were started and have not ended are none or one, and one
/// exactly while the state says that a refresh is in flight.
pub proof fn lemma_at_most_one_in_flight(m: CacheModel, steps: Seq<Step>)
    requires
        !m.refreshing,
    ensures
        refreshes_started(m, steps) - refreshes_ended(m, steps) == if after_steps(
            m,
            steps,
        ).refreshing {
            1int
        } else {
            0int
        },
    decreases steps.len(),
{
    if steps.len() > 0 {
        lemma_at_most_one_in_flight(m, steps.drop_last());
    }
}

/// Whether the state is one that the coordinator can be in: before readers
/// may be served there is no snapshot.
pub open spec fn consistent(m: CacheModel) -> bool {
    !m.initialized ==> m.snapshot.is_none()
}

/// The coordinator starts in a state that it can be in, and no step leads
/// out of these.
pub proof fn lemma_consistent(
    m: CacheModel,
    now: int,
    outcome: Option<(Seq<char>, Seq<char>)>,
    ttl: int,
    backed: bool,
)
    requires
        consistent(m),
    ensures
        consistent(initial(ttl, backed)),
        consistent(attempted(m, now)),
        consistent(restored(m, outcome)),
        consistent(finished(m, outcome, now)),
{
}

/// Stale serve: once readers may be served, a reader that arrives while a
/// refresh is in flight is not told to wait. It gets the snapshot that was
/// there before the refresh began, whole; neither the claim nor a persisted
/// snapshot that is found changes what is served.
pub proof fn lemma_stale_serve(
    m: CacheModel,
    now: int,
    persisted: Option<(Seq<char>, Seq<char>)>,
)
    requires
        m.initialized,
    ensures
        served(m) != Served::Wait,
        m.snapshot matches Some(previous) ==> served(m) == Served::Ready(previous),
        served(attempted(m, now)) == served(m),
        served(restored(attempted(m, now), persisted)) == served(m),
{
}

/// Cold start: before any snapshot exists every reader is told to wait,
/// whether or not the first refresh has been claimed. The first attempt to
/// refresh wins the claim whatever the time, and once that refresh completes
/// with a rendered page, readers are served exactly that page.
pub proof fn lemma_cold_start(m: CacheModel, now: int, html: Seq<char>, css: Seq<char>, done: int)
    requires
        consistent(m),
        !m.initialized,
    ensures
        served(m) == Served::Wait,
        served(attempted(m, now)) == Served::Wait,
        !m.refreshing ==> grants(m, now),
        attempted(m, now).refreshing,
        served(finished(attempted(m, now), Some((html, css)), done)) == Served::Ready(
            Snapshot { html, css, produced_at: Some(done) },
        ),
{
}

/// Snapshot atomicity: after a refresh has completed with a rendered page,
/// a reader sees the page and the stylesheet of that refresh together, never
/// one of them paired with what was there before; and a refresh that fails
/// leaves the previous snapshot as it was.
pub proof fn lemma_snapshot_atomic(
    m: CacheModel,
    outcome: Option<(Seq<char>, Seq<char>)>,
    now: int,
)
    requires
        m.refreshing,
    ensures
        !finished(m, outcome, now).refreshing,
        finished(m, outcome, now).initialized,
        outcome matches Some((html, css)) ==> served(finished(m, outcome, now)) == Served::Ready(
            Snapshot { html, css, produced_at: Some(now) },
        ),
        outcome.is_none() ==> finished(m, outcome, now).snapshot == m.snapshot,
{
}

/// A rendered page and its stylesheet, and when they were produced.
#[derive(Debug)]
pub struct CacheSnapshot {
    html: String,
    css: String,
    produced_at: Option<u64>,
}

impl View for CacheSnapshot {
    type V = Snapshot;

    closed spec fn view(&self) -> Snapshot {
        Snapshot {
            html: self.html@,
            css: self.css@,
            produced_at: match self.produced_at {
                Some(at) => Some(at as int),
                None => None,
            },
        }
    }
}

impl Clone for CacheSnapshot {
    fn clone(&self) -> (r: Self)
        ensures
            r@ == self@,
    {
        CacheSnapshot {
            html: self.html.clone(),
            css: self.css.clone(),
            produced_at: self.produced_at,
        }
    }
}

impl CacheSnapshot {
    /// The rendered page.
    pub fn html(&self) -> (r: &String)
        ensures
            r@ == self@.html,
    {
        &self.html
    }

    /// The stylesheet that belongs to the page.
    pub fn css(&self) -> (r: &String)
        ensures
            r@ == self@.css,
    {
        &self.css
    }

    /// When the snapshot was rendered; `None` for one that was restored from
    /// the backing store.
    pub fn produced_at(&self) -> (r: Option<u64>)
        ensures
            r.is_some() == self@.produced_at.is_some(),
            r matches Some(at) ==> self@.produced_at == Some(at as int),
    {
        self.produced_at
    }
}

/// What an attempt to refresh is told.
#[derive(Clone, Copy, Debug, PartialEq, Eq)]
pub enum Claim {
    /// The snapshot is fresh, or a refresh is in flight already: there is
    /// nothing to do.
    Denied,
    /// The caller holds the claim and has to refresh. If `restore` is set it
    /// first looks for a persisted snapshot and reports what it found.
    Granted { restore: bool },
}

/// What a reader is told.
#[derive(Debug)]
pub enum Reading {
    /// Nothing can be served before the refresh in flight has completed.
    Wait,
    /// The first refresh failed and there is nothing to serve.
    Unavailable,
    /// The current snapshot.
    Ready(CacheSnapshot),
}

impl View for Reading {
    type V = Served;

    open spec fn view(&self) -> Served {
        match self {
            Reading::Wait => Served::Wait,
            Reading::Unavailable => Served::Unavailable,
            Reading::Ready(snapshot) => Served::Ready(snapshot@),
        }
    }
}

/// The coordinator's state.
#[derive(Debug)]
pub struct CacheState {
    snapshot: Option<CacheSnapshot>,
    ttl: u64,
    refreshing: bool,
    initialized: bool,
    backed: bool,
}

impl View for CacheState {
    type V = CacheModel;

    closed spec fn view(&self) -> CacheModel {
        CacheModel {
            snapshot: match self.snapshot {
                Some(snapshot) => Some(snapshot@),
                None => None,
            },
            ttl: self.ttl as int,
            refreshing: self.refreshing,
            initialized: self.initialized,
            backed: self.backed,
        }
    }
}

impl CacheState {
    /// The state at process start. A snapshot stays fresh for `ttl` units of
    /// the clock that the caller reads its times from; `backed` says whether
    /// snapshots are persisted to a backing store.
    pub fn new(ttl: u64, backed: bool) -> (r: Self)
        ensures
            r@ == initial(ttl as int, backed),
    {
        CacheState { snapshot: None, ttl, refreshing: false, initialized: false, backed }
    }

    /// Whether the snapshot has outlived its time to live at `now`.
    pub fn is_stale(&self, now: u64) -> (r: bool)
        ensures
            r == stale(self@, now as int),
    {
        match &self.snapshot {
            Some(snapshot) => match snapshot.produced_at {
                Some(at) => match at.checked_add(self.ttl) {
                    Some(due) => now >= due,
                    None => false,
                },
                None => true,
            },
            None => true,
        }
    }

    /// Whether a refresh is in flight.
    pub fn is_refreshing(&self) -> (r: bool)
        ensures
            r == self@.refreshing,
    {
        self.refreshing
    }

    /// Whether readers may be served.
    pub fn is_initialized(&self) -> (r: bool)
        ensures
            r == self@.initialized,
    {
        self.initialized
    }

    /// An attempt to refresh at `now`: the caller wins the claim if the
    /// snapshot is stale and no refresh is in flight.
    pub fn maybe_refresh(&mut self, now: u64) -> (r: Claim)
        ensures
            final(self)@ == attempted(old(self)@, now as int),
            grants(old(self)@, now as int) ==> r == (Claim::Granted {
                restore: old(self)@.backed && !old(self)@.initialized,
            }),
            !grants(old(self)@, now as int) ==> r == Claim::Denied,
    {
        if !self.refreshing && self.is_stale(now) {
            self.refreshing = true;
            Claim::Granted { restore: self.backed && !self.initialized }
        } else {
            Claim::Denied
        }
    }

    /// Reports what the holder of the claim found in the backing store. A
    /// snapshot that was found is installed, stale from the start, unless
    /// readers are being served already.
    pub fn restore(&mut self, persisted: Option<(String, String)>)
        ensures
            final(self)@ == restored(
                old(self)@,
                match persisted {
                    Some((html, css)) => Some((html@, css@)),
                    None => None,
                },
            ),
    {
        if self.refreshing && !self.initialized {
            match persisted {
                Some((html, css)) => {
                    self.snapshot = Some(CacheSnapshot { html, css, produced_at: None });
                    self.initialized = true;
                },
                None => {},
            }
        }
    }

    /// Ends the refresh in flight at `now`. With a rendered page and its
    /// stylesheet the snapshot is replaced as a whole; without, the previous
    /// snapshot stays. Either way the claim is released and readers may be
    /// served. Returns whether the new snapshot is to be persisted.
    pub fn finish_refresh(&mut self, outcome: Option<(String, String)>, now: u64) -> (persist: bool)
        ensures
            final(self)@ == finished(
                old(self)@,
                match outcome {
                    Some((html, css)) => Some((html@, css@)),
                    None => None,
                },
                now as int,
            ),
            persist == (old(self)@.refreshing && old(self)@.backed && outcome.is_some()),
    {
        if !self.refreshing {
            return false;
        }
        self.refreshing = false;
        self.initialized = true;
        match outcome {
            Some((html, css)) => {
                self.snapshot = Some(CacheSnapshot { html, css, produced_at: Some(now) });
                self.backed
            },
            None => false,
        }
    }

    /// What a reader is served: a copy of the current snapshot once readers
    /// may be served, however stale it is.
    pub fn get(&self) -> (r: Reading)
        ensures
            r@ == served(self@),
    {
        if !self.initialized {
            Reading::Wait
        } else {
            match &self.snapshot {
                Some(snapshot) => Reading::Ready(snapshot.clone()),
                None => Reading::Unavailable,
            }
        }
    }
}

} // verus!
