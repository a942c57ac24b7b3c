//! How failed requests are classified, and the order in which the hosts of
//! one region are tried.

use vstd::prelude::*;

verus! {

/// How a failed request may be tried again.
#[derive(Clone, Copy, Debug, PartialEq, Eq, Structural)]
pub enum RetryKind {
    /// Nothing will help: the error goes to the caller.
    UnretryableError,
    /// The same host may be tried again.
    RetryableError,
    /// This host will not do; another host of the region may.
    HostUnretryableError,
    /// This region will not do; another region may.
    ZoneUnretryableError,
}

/// How one physical attempt ended.
#[derive(Clone, Copy, Debug, PartialEq, Eq, Structural)]
pub enum Outcome {
    /// The service answered with a status from 200 to 299.
    Success,
    /// No answer came: the transport failed.
    TransportFailure,
    /// The service answered with a failure, or the answer was turned down.
    StatusFailure(RetryKind),
}

/// The kind of a status code: `None` for success.
///
/// Codes from 200 to 299 are successes. A 400 whose body speaks of an
/// incorrect region or zone sends the caller to the next region. Codes from
/// 500 to 502 may be tried again on the same host, those from 503 to 599 on
/// another host. Every other code is final.
pub open spec fn status_kind(status_code: u16, incorrect_zone: bool) -> Option<RetryKind> {
    if 200 <= status_code <= 299 {
        None
    } else if status_code == 400 && incorrect_zone {
        Some(RetryKind::ZoneUnretryableError)
    } else if 500 <= status_code <= 502 {
        Some(RetryKind::RetryableError)
    } else if 503 <= status_code <= 599 {
        Some(RetryKind::HostUnretryableError)
    } else {
        Some(RetryKind::UnretryableError)
    }
}

/// Classifies a status code; `incorrect_zone` says whether the body speaks
/// of an incorrect region or zone.
pub fn classify_status(status_code: u16, incorrect_zone: bool) -> (r: Option<RetryKind>)
    ensures
        r == status_kind(status_code, incorrect_zone),
{
    if 200 <= status_code && status_code <= 299 {
        None
    } else if status_code == 400 && incorrect_zone {
        Some(RetryKind::ZoneUnretryableError)
    } else if 500 <= status_code && status_code <= 502 {
        Some(RetryKind::RetryableError)
    } else if 503 <= status_code && status_code <= 599 {
        Some(RetryKind::HostUnretryableError)
    } else {
        Some(RetryKind::UnretryableError)
    }
}

/// What rules the attempts on the hosts of one region.
#[derive(Clone, Copy, Debug, PartialEq, Eq, Structural)]
pub struct RetryPolicy {
    /// The number of hosts, tried in their order.
    pub hosts: usize,
    /// How often a request is tried again on one host.
    pub retries: usize,
    /// Whether the request may be sent again after the transport failed.
    pub idempotent: bool,
}

/// Where a run stands: the host that is tried next, and how often it has
/// been tried already.
#[derive(Clone, Copy, Debug, PartialEq, Eq, Structural)]
pub struct Position {
    pub host: usize,
    pub tries: usize,
}

/// Where a run starts: at the first host, if there is one.
pub open spec fn start(policy: RetryPolicy) -> Option<Position> {
    if policy.hosts == 0 {
        None
    } else {
        Some(Position { host: 0, tries: 0 })
    }
}

/// The first try on the host after `position`, if there is one.
pub open spec fn next_host(policy: RetryPolicy, position: Position) -> Option<Position> {
    if position.host + 1 < policy.hosts {
        Some(Position { host: (position.host + 1) as usize, tries: 0 })
    } else {
        None
    }
}

/// One more try on the host of `position` while the retries last, then the
/// next host.
pub open spec fn retry_or_next_host(policy: RetryPolicy, position: Position) -> Option<Position> {
    if position.tries < policy.retries {
        Some(Position { host: position.host, tries: (position.tries + 1) as usize })
    } else {
        next_host(policy, position)
    }
}

/// Where a run goes after an attempt at `position` ended with `outcome`;
/// `None` when the run is over.
pub open spec fn next(policy: RetryPolicy, position: Position, outcome: Outcome) -> Option<
    Position,
> {
    match outcome {
        Outcome::Success => None,
        Outcome::TransportFailure => if policy.idempotent {
            retry_or_next_host(policy, position)
        } else {
            None
        },
        Outcome::StatusFailure(RetryKind::RetryableError) => retry_or_next_host(policy, position),
        Outcome::StatusFailure(RetryKind::HostUnretryableError) => next_host(policy, position),
        Outcome::StatusFailure(RetryKind::ZoneUnretryableError) => None,
        Outcome::StatusFailure(RetryKind::UnretryableError) => None,
    }
}

/// Whether `position` is one that a run under `policy` can stand at.
pub open spec fn in_range(policy: RetryPolicy, position: Position) -> bool {
    position.host < policy.hosts && position.tries <= policy.retries
}

/// Decides where a run goes after an attempt.
pub fn advance(policy: RetryPolicy, position: Position, outcome: Outcome) -> (r: Option<Position>)
    requires
        in_range(policy, position),
    ensures
        r == next(policy, position, outcome),
        r matches Some(p) ==> in_range(policy, p) && spent(policy, p) > spent(policy, position),
{
    let retry = match outcome {
        Outcome::Success => {
            return None;
        },
        Outcome::TransportFailure => policy.idempotent,
        Outcome::StatusFailure(RetryKind::RetryableError) => true,
        Outcome::StatusFailure(RetryKind::HostUnretryableError) => false,
        Outcome::StatusFailure(RetryKind::ZoneUnretryableError) => {
            return None;
        },
        Outcome::StatusFailure(RetryKind::UnretryableError) => {
            return None;
        },
    };
    if outcome == Outcome::TransportFailure && !retry {
        return None;
    }
    proof {
        lemma_spent_grows(policy, position, outcome);
    }
    if retry && position.tries < policy.retries {
        Some(Position { host: position.host, tries: position.tries + 1 })
    } else if position.host + 1 < policy.hosts {
        Some(Position { host: position.host + 1, tries: 0 })
    } else {
        None
    }
}

/// The number of attempts that a run standing at `position` can have made
/// at most: all tries on the hosts before, and those on this host.
pub open spec fn spent(policy: RetryPolicy, position: Position) -> int {
    position.host * (policy.retries + 1) + position.tries
}

/// The number of attempts that no run under `policy` exceeds.
pub open spec fn budget(policy: RetryPolicy) -> int {
    policy.hosts * (policy.retries + 1)
}

/// Every step of a run moves it forward, and never out of range.
pub proof fn lemma_spent_grows(policy: RetryPolicy, position: Position, outcome: Outcome)
    requires
        in_range(policy, position),
    ensures
        spent(policy, position) < budget(policy),
        next(policy, position, outcome) matches Some(p) ==> in_range(policy, p) && spent(
            policy,
            p,
        ) > spent(policy, position),
{
    let width = policy.retries + 1;
    assert(position.host * width + width <= policy.hosts * width) by (nonlinear_arith)
        requires
            position.host < policy.hosts,
            width > 0,
    ;
    assert((position.host + 1) * width == position.host * width + width) by (nonlinear_arith);
}

/// Where a run stands after the attempts with these outcomes; `None` when
/// it is over, or when it was over before the last of them.
pub open spec fn position_after(policy: RetryPolicy, outcomes: Seq<Outcome>) -> Option<Position>
    decreases outcomes.len(),
{
    if outcomes.len() == 0 {
        start(policy)
    } else {
        match position_after(policy, outcomes.drop_last()) {
            Some(position) => next(policy, position, outcomes.last()),
            None => None,
        }
    }
}

/// Whether these outcomes are those of a whole run: every attempt was due
/// when it was made, and none is due after the last.
pub open spec fn is_run(policy: RetryPolicy, outcomes: Seq<Outcome>) -> bool {
    &&& forall|i: int|
        0 <= i < outcomes.len() ==> (#[trigger] position_after(policy, outcomes.take(i))) is Some
    &&& position_after(policy, outcomes) is None
}

/// While a run is on, it stands in range and has made no more attempts than
/// its position accounts for.
pub proof fn lemma_position_after(policy: RetryPolicy, outcomes: Seq<Outcome>)
    ensures
        position_after(policy, outcomes) matches Some(p) ==> in_range(policy, p)
            && outcomes.len() <= spent(policy, p) < budget(policy),
    decreases outcomes.len(),
{
    if outcomes.len() == 0 {
        if policy.hosts > 0 {
            lemma_spent_grows(policy, Position { host: 0, tries: 0 }, Outcome::Success);
        }
    } else {
        lemma_position_after(policy, outcomes.drop_last());
        match position_after(policy, outcomes.drop_last()) {
            Some(position) => {
                lemma_spent_grows(policy, position, outcomes.last());
                match next(policy, position, outcomes.last()) {
                    Some(p) => {
                        lemma_spent_grows(policy, p, Outcome::Success);
                    },
                    None => {},
                }
            },
            None => {},
        }
    }
}

/// No run makes more attempts than its budget: the number of hosts times
/// one more than the number of retries.
pub proof fn lemma_run_within_budget(policy: RetryPolicy, outcomes: Seq<Outcome>)
    requires
        is_run(policy, outcomes),
    ensures
        outcomes.len() <= budget(policy),
{
    if outcomes.len() > 0 {
        let before = outcomes.take(outcomes.len() - 1);
        assert(position_after(policy, before) is Some);
        lemma_position_after(policy, before);
    } else {
        assert(budget(policy) >= 0) by (nonlinear_arith)
            requires
                budget(policy) == policy.hosts * (policy.retries + 1),
                policy.hosts >= 0,
                policy.retries >= 0,
        ;
    }
}

/// Whether every outcome is `outcome`.
pub open spec fn all_are(outcomes: Seq<Outcome>, outcome: Outcome) -> bool {
    forall|i: int| 0 <= i < outcomes.len() ==> #[trigger] outcomes[i] == outcome
}

/// Whether a failure with `outcome` is tried again on the same host.
pub open spec fn is_retried(policy: RetryPolicy, outcome: Outcome) -> bool {
    ||| outcome == Outcome::StatusFailure(RetryKind::RetryableError)
    ||| outcome == Outcome::TransportFailure && policy.idempotent
}

proof fn lemma_div_mod_step(i: int, width: int)
    requires
        0 <= i,
        0 < width,
    ensures
        i % width < width - 1 ==> (i + 1) / width == i / width && (i + 1) % width == i % width + 1,
        i % width == width - 1 ==> (i + 1) / width == i / width + 1 && (i + 1) % width == 0,
        0 <= i % width < width,
        i == (i / width) * width + i % width,
        i / width >= 0,
{
    vstd::arithmetic::div_mod::lemma_fundamental_div_mod(i, width);
    vstd::arithmetic::div_mod::lemma_fundamental_div_mod(i + 1, width);
    vstd::arithmetic::div_mod::lemma_mod_bound(i, width);
    vstd::arithmetic::div_mod::lemma_mod_bound(i + 1, width);
    vstd::arithmetic::div_mod::lemma_div_pos_is_pos(i, width);
    let q = i / width;
    let r = i % width;
    let q1 = (i + 1) / width;
    let r1 = (i + 1) % width;
    assert(i == width * q + r);
    assert(i + 1 == width * q1 + r1);
    assert(width * (q1 - q) == width * q1 - width * q) by (nonlinear_arith);
    if r < width - 1 {
        assert(q1 == q) by (nonlinear_arith)
            requires
                width * (q1 - q) == 1 + r - r1,
                0 <= r < width - 1,
                0 <= r1 < width,
                0 < width,
        ;
    } else {
        assert(q1 == q + 1) by (nonlinear_arith)
            requires
                width * (q1 - q) == 1 + r - r1,
                r == width - 1,
                0 <= r1 < width,
                0 < width,
        ;
        assert(width * 1 == width) by (nonlinear_arith);
    }
    assert((i / width) * width == width * (i / width)) by (nonlinear_arith);
}

/// While every attempt fails in a way that is tried again, the run works
/// through each host in turn: after `i` attempts it stands at host
/// `i / (retries + 1)` with `i % (retries + 1)` tries made there.
pub proof fn lemma_position_when_retried(
    policy: RetryPolicy,
    outcomes: Seq<Outcome>,
    outcome: Outcome,
)
    requires
        all_are(outcomes, outcome),
        is_retried(policy, outcome),
    ensures
        outcomes.len() < budget(policy) ==> position_after(policy, outcomes) == Some(
            Position {
                host: (outcomes.len() as int / (policy.retries + 1)) as usize,
                tries: (outcomes.len() as int % (policy.retries + 1)) as usize,
            },
        ),
        outcomes.len() >= budget(policy) ==> position_after(policy, outcomes) is None,
    decreases outcomes.len(),
{
    let width = policy.retries + 1;
    let n = outcomes.len() as int;
    if n == 0 {
        assert(0int / width == 0 && 0int % width == 0) by {
            lemma_div_mod_step(0, width);
            vstd::arithmetic::div_mod::lemma_small_mod(0, width as nat);
            vstd::arithmetic::div_mod::lemma_div_basics(width);
        }
        assert(budget(policy) > 0 <==> policy.hosts > 0) by (nonlinear_arith)
            requires
                budget(policy) == policy.hosts * width,
                width > 0,
                policy.hosts >= 0,
        ;
    } else {
        let before = outcomes.drop_last();
        assert(all_are(before, outcome)) by {
            assert forall|i: int| 0 <= i < before.len() implies #[trigger] before[i]
                == outcome by {
                assert(before[i] == outcomes[i]);
            }
        }
        lemma_position_when_retried(policy, before, outcome);
        assert(outcomes.last() == outcome);
        let i = n - 1;
        lemma_div_mod_step(i, width);
        if i < budget(policy) {
            let position = Position { host: (i / width) as usize, tries: (i % width) as usize };
            assert(i / width < policy.hosts) by (nonlinear_arith)
                requires
                    i < policy.hosts * width,
                    i == (i / width) * width + i % width,
                    0 <= i % width,
                    width > 0,
            ;
            assert(position_after(policy, before) == Some(position));
            assert(next(policy, position, outcome) == retry_or_next_host(policy, position));
            if i % width < width - 1 {
                assert(n < budget(policy)) by (nonlinear_arith)
                    requires
                        i / width < policy.hosts,
                        i == (i / width) * width + i % width,
                        i % width < width - 1,
                        n == i + 1,
                        budget(policy) == policy.hosts * width,
                        width > 0,
                ;
            } else {
                assert(n == (i / width + 1) * width) by (nonlinear_arith)
                    requires
                        i == (i / width) * width + i % width,
                        i % width == width - 1,
                        n == i + 1,
                ;
                assert(n < budget(policy) <==> i / width + 1 < policy.hosts) by (nonlinear_arith)
                    requires
                        n == (i / width + 1) * width,
                        budget(policy) == policy.hosts * width,
                        width > 0,
                ;
            }
        }
    }
}

/// A run in which every attempt fails in a way that is tried again makes
/// exactly as many attempts as the budget allows: every host is tried once
/// and then again for each retry.
pub proof fn lemma_retried_run_uses_budget(
    policy: RetryPolicy,
    outcomes: Seq<Outcome>,
    outcome: Outcome,
)
    requires
        is_run(policy, outcomes),
        all_are(outcomes, outcome),
        is_retried(policy, outcome),
    ensures
        outcomes.len() == budget(policy),
{
    lemma_run_within_budget(policy, outcomes);
    lemma_position_when_retried(policy, outcomes, outcome);
}

/// While every attempt fails in a way that rules out its host, the run
/// tries each host once: after `i` attempts it stands at host `i`.
pub proof fn lemma_position_when_host_fails(policy: RetryPolicy, outcomes: Seq<Outcome>)
    requires
        all_are(outcomes, Outcome::StatusFailure(RetryKind::HostUnretryableError)),
    ensures
        outcomes.len() < policy.hosts ==> position_after(policy, outcomes) == Some(
            Position { host: outcomes.len() as usize, tries: 0 },
        ),
        outcomes.len() >= policy.hosts ==> position_after(policy, outcomes) is None,
    decreases outcomes.len(),
{
    if outcomes.len() > 0 {
        let before = outcomes.drop_last();
        assert(all_are(before, Outcome::StatusFailure(RetryKind::HostUnretryableError))) by {
            assert forall|i: int| 0 <= i < before.len() implies #[trigger] before[i]
                == Outcome::StatusFailure(RetryKind::HostUnretryableError) by {
                assert(before[i] == outcomes[i]);
            }
        }
        lemma_position_when_host_fails(policy, before);
        assert(outcomes.last() == Outcome::StatusFailure(RetryKind::HostUnretryableError));
    }
}

/// A run in which every attempt fails in a way that rules out its host
/// makes exactly one attempt per host.
pub proof fn lemma_host_failures_try_each_host_once(policy: RetryPolicy, outcomes: Seq<Outcome>)
    requires
        is_run(policy, outcomes),
        all_are(outcomes, Outcome::StatusFailure(RetryKind::HostUnretryableError)),
    ensures
        outcomes.len() == policy.hosts,
{
    lemma_position_when_host_fails(policy, outcomes);
    if outcomes.len() > policy.hosts {
        let before = outcomes.take(policy.hosts as int);
        assert(all_are(before, Outcome::StatusFailure(RetryKind::HostUnretryableError))) by {
            assert forall|i: int| 0 <= i < before.len() implies #[trigger] before[i]
                == Outcome::StatusFailure(RetryKind::HostUnretryableError) by {
                assert(before[i] == outcomes[i]);
            }
        }
        lemma_position_when_host_fails(policy, before);
        assert(position_after(policy, before) is Some);
    }
}

/// Whether `outcome` ends a run wherever it stands.
pub open spec fn is_final(policy: RetryPolicy, outcome: Outcome) -> bool {
    ||| outcome == Outcome::Success
    ||| outcome == Outcome::StatusFailure(RetryKind::ZoneUnretryableError)
    ||| outcome == Outcome::StatusFailure(RetryKind::UnretryableError)
    ||| outcome == Outcome::TransportFailure && !policy.idempotent
}

/// A run ends with its first success, its first failure that rules out the
/// region, and its first failure that nothing helps: such an outcome is the
/// last of its run.
pub proof fn lemma_final_outcome_is_last(policy: RetryPolicy, outcomes: Seq<Outcome>, i: int)
    requires
        is_run(policy, outcomes),
        0 <= i < outcomes.len(),
        is_final(policy, outcomes[i]),
    ensures
        i == outcomes.len() - 1,
{
    if i < outcomes.len() - 1 {
        let upto = outcomes.take(i + 1);
        assert(position_after(policy, upto) is Some);
        assert(upto.drop_last() =~= outcomes.take(i));
        assert(upto.last() == outcomes[i]);
    }
}

} // verus!
