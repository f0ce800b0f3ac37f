use vstd::prelude::*;

use crate::errors::Error;
use crate::fees::PERCENTAGE_DENOMINATOR;
use crate::market::{AccountId, Claim, Market, PredictifyHybrid, Vote};

verus! {

/// Status of a bet.
#[derive(Clone, Copy, Debug, PartialEq, Eq, Structural)]
pub enum BetStatus {
    Active,
    Won,
    Lost,
    Refunded,
    Cancelled,
}

/// A bet placed on a market.
pub struct Bet {
    pub user: AccountId,
    pub outcome: String,
    pub amount: i128,
    pub status: BetStatus,
}

/// Totals of a resolved market: the stake on the winning outcomes and the
/// whole pool.
#[derive(Clone, Copy, Debug, PartialEq, Eq, Structural)]
pub struct ResolutionSummary {
    pub winning_total: i128,
    pub total_pool: i128,
}

/// Result of a payout distribution.
pub struct Distribution {
    /// Total amount credited to winners.
    pub total_distributed: i128,
    /// The new claims, in the order they were made (balances to credit).
    pub credits: Vec<Claim>,
    /// The status of each bet after the distribution.
    pub bet_statuses: Vec<BetStatus>,
}

/// Result of a claim.
#[derive(Clone, Copy, Debug, PartialEq, Eq, Structural)]
pub struct ClaimOutcome {
    /// Amount paid to the user (0 for a losing or empty claim).
    pub payout: i128,
    /// Fee withheld from the gross payout.
    pub fee_amount: i128,
}

// ===== MATHEMATICAL MODEL =====

/// Division rounded toward zero, as the machine divides.
pub open spec fn tdiv(a: int, b: int) -> int {
    let q = (if a >= 0 { a } else { -a }) / (if b >= 0 { b } else { -b });
    if (a >= 0) == (b > 0) || a == 0 {
        q
    } else {
        -q
    }
}

/// Whether `v` fits in an `i128`.
pub open spec fn fits(v: int) -> bool {
    i128::MIN <= v <= i128::MAX
}

/// A winner's payout: the stake net of the fee (rounded toward zero), times
/// the pool, divided by the winning total; each product must fit.
pub open spec fn payout_of(stake: int, fee_bps: int, pool: int, winning_total: int) -> Result<
    int,
    Error,
> {
    let scaled = stake * (PERCENTAGE_DENOMINATOR - fee_bps);
    if !fits(scaled) {
        Err(Error::InvalidInput)
    } else {
        let share = tdiv(scaled, PERCENTAGE_DENOMINATOR as int);
        if !fits(share * pool) {
            Err(Error::InvalidInput)
        } else {
            Ok(tdiv(share * pool, winning_total))
        }
    }
}

/// Whether outcome `o` is among the winning outcomes.
pub open spec fn outcome_in(w: Seq<String>, o: Seq<char>) -> bool {
    exists|i: int| 0 <= i < w.len() && w[i]@ == o
}

/// Whether `user` has a recorded claim.
pub open spec fn claimed_in(c: Seq<Claim>, user: AccountId) -> bool {
    exists|i: int| 0 <= i < c.len() && c[i].user == user
}

/// Whether `user` has a vote.
pub open spec fn voted(votes: Seq<Vote>, user: AccountId) -> bool {
    exists|i: int| 0 <= i < votes.len() && votes[i].user == user
}

/// Distribution over the voters: one voter's step.
pub open spec fn voter_step(
    st: Result<(Seq<Claim>, int), Error>,
    v: Vote,
    w: Seq<String>,
    fee: int,
    pool: int,
    wt: int,
) -> Result<(Seq<Claim>, int), Error> {
    match st {
        Err(e) => Err(e),
        Ok((c, total)) => if !outcome_in(w, v.outcome@) || claimed_in(c, v.user) || v.stake <= 0 {
            Ok((c, total))
        } else {
            match payout_of(v.stake as int, fee, pool, wt) {
                Err(e) => Err(e),
                Ok(p) => if p < 0 {
                    Ok((c, total))
                } else if p == 0 {
                    Ok((c.push(Claim { user: v.user, payout: 0 }), total))
                } else if !fits(total + p) {
                    Err(Error::InvalidInput)
                } else {
                    Ok((c.push(Claim { user: v.user, payout: p as i128 }), total + p))
                },
            }
        },
    }
}

/// Distribution over the first `n` voters.
pub open spec fn distribute_voters(
    votes: Seq<Vote>,
    n: int,
    c0: Seq<Claim>,
    w: Seq<String>,
    fee: int,
    pool: int,
    wt: int,
) -> Result<(Seq<Claim>, int), Error>
    decreases n,
{
    if n <= 0 {
        Ok((c0, 0))
    } else {
        voter_step(distribute_voters(votes, n - 1, c0, w, fee, pool, wt), votes[n - 1], w, fee, pool, wt)
    }
}

/// Distribution over the bettors: one bettor's step.
pub open spec fn bettor_step(
    st: Result<(Seq<Claim>, int, Seq<BetStatus>), Error>,
    b: Bet,
    w: Seq<String>,
    fee: int,
    pool: int,
    wt: int,
) -> Result<(Seq<Claim>, int, Seq<BetStatus>), Error> {
    match st {
        Err(e) => Err(e),
        Ok((c, total, s)) => if outcome_in(w, b.outcome@) {
            if claimed_in(c, b.user) {
                Ok((c, total, s.push(BetStatus::Won)))
            } else if b.amount <= 0 {
                Ok((c, total, s.push(b.status)))
            } else {
                match payout_of(b.amount as int, fee, pool, wt) {
                    Err(e) => Err(e),
                    Ok(p) => if p <= 0 {
                        Ok((c, total, s.push(b.status)))
                    } else if !fits(total + p) {
                        Err(Error::InvalidInput)
                    } else {
                        Ok(
                            (
                                c.push(Claim { user: b.user, payout: p as i128 }),
                                total + p,
                                s.push(BetStatus::Won),
                            ),
                        )
                    },
                }
            }
        } else {
            Ok((c, total, s.push(if b.status == BetStatus::Active { BetStatus::Lost } else { b.status })))
        },
    }
}

/// Distribution over the first `n` bettors.
pub open spec fn distribute_bettors(
    bets: Seq<Bet>,
    n: int,
    c0: Seq<Claim>,
    t0: int,
    w: Seq<String>,
    fee: int,
    pool: int,
    wt: int,
) -> Result<(Seq<Claim>, int, Seq<BetStatus>), Error>
    decreases n,
{
    if n <= 0 {
        Ok((c0, t0, Seq::empty()))
    } else {
        bettor_step(
            distribute_bettors(bets, n - 1, c0, t0, w, fee, pool, wt),
            bets[n - 1],
            w,
            fee,
            pool,
            wt,
        )
    }
}

/// Whether some winner (voter or bettor) has no recorded claim.
pub open spec fn has_unclaimed_winners(market: &Market, bets: Seq<Bet>, w: Seq<String>) -> bool {
    ||| exists|i: int|
        0 <= i < market.votes@.len() && outcome_in(w, market.votes@[i].outcome@) && !claimed_in(
            market.claimed@,
            market.votes@[i].user,
        )
    ||| exists|i: int|
        0 <= i < bets.len() && outcome_in(w, bets[i].outcome@) && !claimed_in(
            market.claimed@,
            bets[i].user,
        )
}

// ===== LOOKUPS =====

/// Whether `outcome` is one of `outcomes`.
pub fn contains_outcome(outcomes: &Vec<String>, outcome: &String) -> (r: bool)
    ensures
        r == outcome_in(outcomes@, outcome@),
{
    let mut i: usize = 0;
    while i < outcomes.len()
        invariant
            0 <= i <= outcomes@.len(),
            forall|j: int| 0 <= j < i ==> outcomes@[j]@ != outcome@,
        decreases outcomes@.len() - i,
    {
        if outcomes[i] == *outcome {
            return true;
        }
        i = i + 1;
    }
    false
}

/// Whether `user` has a recorded claim.
pub fn is_claimed(claimed: &Vec<Claim>, user: AccountId) -> (r: bool)
    ensures
        r == claimed_in(claimed@, user),
{
    let mut i: usize = 0;
    while i < claimed.len()
        invariant
            0 <= i <= claimed@.len(),
            forall|j: int| 0 <= j < i ==> claimed@[j].user != user,
        decreases claimed@.len() - i,
    {
        if claimed[i].user == user {
            return true;
        }
        i = i + 1;
    }
    false
}

/// Position of `user`'s vote, if any.
pub fn find_vote(votes: &Vec<Vote>, user: AccountId) -> (r: Option<usize>)
    ensures
        r matches Some(i) ==> i < votes@.len() && votes@[i as int].user == user && forall|j: int|
            0 <= j < i ==> votes@[j].user != user,
        r is None ==> !voted(votes@, user),
{
    let mut i: usize = 0;
    while i < votes.len()
        invariant
            0 <= i <= votes@.len(),
            forall|j: int| 0 <= j < i ==> votes@[j].user != user,
        decreases votes@.len() - i,
    {
        if votes[i].user == user {
            return Some(i);
        }
        i = i + 1;
    }
    None
}

/// A winner's payout after the fee; every product is checked.
pub fn calculate_payout(stake: i128, fee_bps: i128, total_pool: i128, winning_total: i128) -> (r:
    Result<i128, Error>)
    requires
        winning_total > 0,
        fee_bps >= PERCENTAGE_DENOMINATOR - i128::MAX,
    ensures
        match (r, payout_of(stake as int, fee_bps as int, total_pool as int, winning_total as int)) {
            (Ok(a), Ok(b)) => a == b,
            (Err(e1), Err(e2)) => e1 == e2,
            _ => false,
        },
{
    let scaled = match stake.checked_mul(PERCENTAGE_DENOMINATOR - fee_bps) {
        Some(v) => v,
        None => return Err(Error::InvalidInput),
    };
    let user_share = scaled / PERCENTAGE_DENOMINATOR;
    let product = match user_share.checked_mul(total_pool) {
        Some(v) => v,
        None => return Err(Error::InvalidInput),
    };
    Ok(product / winning_total)
}

/// Whether some winner (voter or bettor) has no recorded claim.
pub fn any_unclaimed_winner(market: &Market, bets: &Vec<Bet>, w: &Vec<String>) -> (r: bool)
    ensures
        r == has_unclaimed_winners(market, bets@, w@),
{
    let mut i: usize = 0;
    while i < market.votes.len()
        invariant
            0 <= i <= market.votes@.len(),
            forall|j: int|
                0 <= j < i ==> !(outcome_in(w@, market.votes@[j].outcome@) && !claimed_in(
                    market.claimed@,
                    market.votes@[j].user,
                )),
        decreases market.votes@.len() - i,
    {
        if contains_outcome(w, &market.votes[i].outcome) && !is_claimed(
            &market.claimed,
            market.votes[i].user,
        ) {
            return true;
        }
        i = i + 1;
    }
    let mut k: usize = 0;
    while k < bets.len()
        invariant
            0 <= k <= bets@.len(),
            !(exists|j: int|
                0 <= j < market.votes@.len() && outcome_in(w@, market.votes@[j].outcome@)
                    && !claimed_in(market.claimed@, market.votes@[j].user)),
            forall|j: int|
                0 <= j < k ==> !(outcome_in(w@, bets@[j].outcome@) && !claimed_in(
                    market.claimed@,
                    bets@[j].user,
                )),
        decreases bets@.len() - k,
    {
        if contains_outcome(w, &bets[k].outcome) && !is_claimed(&market.claimed, bets[k].user) {
            return true;
        }
        k = k + 1;
    }
    false
}

/// The statuses of the bets, in order.
pub open spec fn statuses_of(bets: Seq<Bet>) -> Seq<BetStatus> {
    Seq::new(bets.len(), |i: int| bets[i].status)
}

fn current_statuses(bets: &Vec<Bet>) -> (r: Vec<BetStatus>)
    ensures
        r@ == statuses_of(bets@),
{
    let mut r: Vec<BetStatus> = Vec::new();
    let mut i: usize = 0;
    while i < bets.len()
        invariant
            0 <= i <= bets@.len(),
            r@ == statuses_of(bets@).take(i as int),
        decreases bets@.len() - i,
    {
        r.push(bets[i].status);
        i = i + 1;
        assert(r@ =~= statuses_of(bets@).take(i as int));
    }
    assert(statuses_of(bets@).take(i as int) =~= statuses_of(bets@));
    r
}

proof fn lemma_voters_err_sticks(
    votes: Seq<Vote>,
    n: int,
    m: int,
    c0: Seq<Claim>,
    w: Seq<String>,
    fee: int,
    pool: int,
    wt: int,
)
    requires
        0 <= n <= m,
        distribute_voters(votes, n, c0, w, fee, pool, wt) is Err,
    ensures
        distribute_voters(votes, m, c0, w, fee, pool, wt) == distribute_voters(
            votes,
            n,
            c0,
            w,
            fee,
            pool,
            wt,
        ),
    decreases m - n,
{
    if m > n {
        lemma_voters_err_sticks(votes, n, m - 1, c0, w, fee, pool, wt);
    }
}

proof fn lemma_bettors_err_sticks(
    bets: Seq<Bet>,
    n: int,
    m: int,
    c0: Seq<Claim>,
    t0: int,
    w: Seq<String>,
    fee: int,
    pool: int,
    wt: int,
)
    requires
        0 <= n <= m,
        distribute_bettors(bets, n, c0, t0, w, fee, pool, wt) is Err,
    ensures
        distribute_bettors(bets, m, c0, t0, w, fee, pool, wt) == distribute_bettors(
            bets,
            n,
            c0,
            t0,
            w,
            fee,
            pool,
            wt,
        ),
    decreases m - n,
{
    if m > n {
        lemma_bettors_err_sticks(bets, n, m - 1, c0, t0, w, fee, pool, wt);
    }
}

/// Whether a distribution reaches the payout walk: the market is resolved,
/// some winner is unclaimed and the winning total is not zero.
pub open spec fn distribution_pays(market: &Market, bets: Seq<Bet>, summary: ResolutionSummary) -> bool {
    match market.winning_outcomes {
        Some(w) => has_unclaimed_winners(market, bets, w@) && summary.winning_total != 0,
        None => false,
    }
}

impl PredictifyHybrid {
    /// Distributes the payouts of a resolved market to every winner without a
    /// recorded claim: first the voters, then the bettors (a bettor already
    /// paid as a voter is only marked as won). Each payout is recorded as a
    /// claim; losing active bets are marked lost. When no winner is unclaimed
    /// or the winning total is zero, nothing changes. On error nothing changes.
    pub fn distribute_payouts(
        market: &mut Market,
        bets: &Vec<Bet>,
        fee_bps: i128,
        summary: ResolutionSummary,
    ) -> (r: Result<Distribution, Error>)
        requires
            distribution_pays(&*old(market), bets@, summary) ==> summary.winning_total >= 0
                && fee_bps >= PERCENTAGE_DENOMINATOR - i128::MAX,
        ensures
            *final(market) == (Market { claimed: final(market).claimed, ..*old(market) }),
            r is Err ==> *final(market) == *old(market),
            adds_fresh_claims(old(market).claimed@, final(market).claimed@),
            match old(market).winning_outcomes {
                None => r == Err::<Distribution, Error>(Error::MarketNotResolved),
                Some(w) => if !has_unclaimed_winners(&*old(market), bets@, w@) || summary.winning_total
                    == 0 {
                    r matches Ok(d) && d.total_distributed == 0 && d.credits@.len() == 0
                        && d.bet_statuses@ == statuses_of(bets@) && final(market).claimed@ == old(market).claimed@
                } else {
                    let fee = fee_bps as int;
                    let pool = summary.total_pool as int;
                    let wt = summary.winning_total as int;
                    match distribute_voters(
                        old(market).votes@,
                        old(market).votes@.len() as int,
                        old(market).claimed@,
                        w@,
                        fee,
                        pool,
                        wt,
                    ) {
                        Err(e) => r matches Err(e2) && e2 == e,
                        Ok((c1, t1)) => match distribute_bettors(
                            bets@,
                            bets@.len() as int,
                            c1,
                            t1,
                            w@,
                            fee,
                            pool,
                            wt,
                        ) {
                            Err(e) => r matches Err(e2) && e2 == e,
                            Ok((c2, t2, s2)) => r matches Ok(d) && d.total_distributed == t2
                                && d.bet_statuses@ == s2 && final(market).claimed@ == c2
                                && d.credits@ == c2.skip(old(market).claimed@.len() as int),
                        },
                    }
                },
            },
    {
        proof {
            lemma_fresh_refl(market.claimed@);
        }
        let w = match &market.winning_outcomes {
            Some(w) => w,
            None => return Err(Error::MarketNotResolved),
        };
        if !any_unclaimed_winner(market, bets, w) || summary.winning_total == 0 {
            return Ok(
                Distribution {
                    total_distributed: 0,
                    credits: Vec::new(),
                    bet_statuses: current_statuses(bets),
                },
            );
        }
        let total_pool = summary.total_pool;
        let winning_total = summary.winning_total;
        let ghost c0 = market.claimed@;
        let ghost fee = fee_bps as int;
        let ghost pool = total_pool as int;
        let ghost wt = winning_total as int;
        let mut claims: Vec<Claim> = Vec::new();
        let mut n: usize = 0;
        while n < market.claimed.len()
            invariant
                *market == *old(market),
                0 <= n <= c0.len(),
                c0 == market.claimed@,
                claims@ == c0.take(n as int),
            decreases c0.len() - n,
        {
            claims.push(market.claimed[n]);
            n = n + 1;
            assert(claims@ =~= c0.take(n as int));
        }
        assert(c0.take(n as int) =~= c0);
        let mut credits: Vec<Claim> = Vec::new();
        let mut total: i128 = 0;
        let mut i: usize = 0;
        while i < market.votes.len()
            invariant
                *market == *old(market),
                0 <= i <= market.votes@.len(),
                winning_total > 0,
                fee_bps >= PERCENTAGE_DENOMINATOR - i128::MAX,
                fee == fee_bps as int,
                pool == total_pool as int,
                wt == winning_total as int,
                old(market).winning_outcomes == Some(*w),
                winning_total == summary.winning_total,
                total_pool == summary.total_pool,
                c0 == old(market).claimed@,
                adds_fresh_claims(c0, c0),
                has_unclaimed_winners(&*old(market), bets@, w@),
                c0.len() <= claims@.len(),
                credits@ == claims@.skip(c0.len() as int),
                distribute_voters(market.votes@, i as int, c0, w@, fee, pool, wt) == Ok::<
                    (Seq<Claim>, int),
                    Error,
                >((claims@, total as int)),
            decreases market.votes@.len() - i,
        {
            let vote = &market.votes[i];
            proof {
                assert(distribute_voters(market.votes@, i + 1, c0, w@, fee, pool, wt) == voter_step(
                    distribute_voters(market.votes@, i as int, c0, w@, fee, pool, wt),
                    market.votes@[i as int],
                    w@,
                    fee,
                    pool,
                    wt,
                ));
            }
            if contains_outcome(w, &vote.outcome) && !is_claimed(&claims, vote.user) && vote.stake > 0 {
                let payout = match calculate_payout(vote.stake, fee_bps, total_pool, winning_total) {
                    Ok(p) => p,
                    Err(e) => {
                        proof {

                            lemma_voters_err_sticks(
                                market.votes@,
                                i + 1,
                                market.votes@.len() as int,
                                c0,
                                w@,
                                fee,
                                pool,
                                wt,
                            );
                        }
                        return Err(e);
                    },
                };
                if payout >= 0 {
                    if payout > 0 {
                        total = match total.checked_add(payout) {
                            Some(t) => t,
                            None => {
                                proof {
                                    lemma_voters_err_sticks(
                                        market.votes@,
                                        i + 1,
                                        market.votes@.len() as int,
                                        c0,
                                        w@,
                                        fee,
                                        pool,
                                        wt,
                                    );
                                }
                                return Err(Error::InvalidInput);
                            },
                        };
                    }
                    claims.push(Claim { user: vote.user, payout });
                    credits.push(Claim { user: vote.user, payout });
                }
            }
            i = i + 1;
            assert(credits@ =~= claims@.skip(c0.len() as int));
        }
        assert(market.votes@.len() == i);
        let ghost c1 = claims@;
        let ghost t1 = total as int;
        let mut statuses: Vec<BetStatus> = Vec::new();
        let mut k: usize = 0;
        while k < bets.len()
            invariant
                *market == *old(market),
                0 <= k <= bets@.len(),
                winning_total > 0,
                fee_bps >= PERCENTAGE_DENOMINATOR - i128::MAX,
                fee == fee_bps as int,
                pool == total_pool as int,
                wt == winning_total as int,
                old(market).winning_outcomes == Some(*w),
                winning_total == summary.winning_total,
                total_pool == summary.total_pool,
                c0 == old(market).claimed@,
                adds_fresh_claims(c0, c0),
                has_unclaimed_winners(&*old(market), bets@, w@),
                c0.len() <= claims@.len(),
                credits@ == claims@.skip(c0.len() as int),
                distribute_voters(market.votes@, market.votes@.len() as int, c0, w@, fee, pool, wt)
                    == Ok::<(Seq<Claim>, int), Error>((c1, t1)),
                distribute_bettors(bets@, k as int, c1, t1, w@, fee, pool, wt) == Ok::<
                    (Seq<Claim>, int, Seq<BetStatus>),
                    Error,
                >((claims@, total as int, statuses@)),
            decreases bets@.len() - k,
        {
            let bet = &bets[k];
            proof {
                assert(distribute_bettors(bets@, k + 1, c1, t1, w@, fee, pool, wt) == bettor_step(
                    distribute_bettors(bets@, k as int, c1, t1, w@, fee, pool, wt),
                    bets@[k as int],
                    w@,
                    fee,
                    pool,
                    wt,
                ));
            }
            if contains_outcome(w, &bet.outcome) {
                if is_claimed(&claims, bet.user) {
                    statuses.push(BetStatus::Won);
                } else if bet.amount > 0 {
                    let payout = match calculate_payout(bet.amount, fee_bps, total_pool, winning_total) {
                        Ok(p) => p,
                        Err(e) => {
                            proof {
                                lemma_bettors_err_sticks(
                                    bets@,
                                    k + 1,
                                    bets@.len() as int,
                                    c1,
                                    t1,
                                    w@,
                                    fee,
                                    pool,
                                    wt,
                                );
                            }
                            return Err(e);
                        },
                    };
                    if payout > 0 {
                        total = match total.checked_add(payout) {
                            Some(t) => t,
                            None => {
                                proof {
                                    lemma_bettors_err_sticks(
                                        bets@,
                                        k + 1,
                                        bets@.len() as int,
                                        c1,
                                        t1,
                                        w@,
                                        fee,
                                        pool,
                                        wt,
                                    );
                                }
                                return Err(Error::InvalidInput);
                            },
                        };
                        claims.push(Claim { user: bet.user, payout });
                        credits.push(Claim { user: bet.user, payout });
                        statuses.push(BetStatus::Won);
                    } else {
                        statuses.push(bet.status);
                    }
                } else {
                    statuses.push(bet.status);
                }
            } else {
                statuses.push(
                    if bet.status == BetStatus::Active {
                        BetStatus::Lost
                    } else {
                        bet.status
                    },
                );
            }
            k = k + 1;
            assert(credits@ =~= claims@.skip(c0.len() as int));
        }
        proof {
            lemma_distribution_pays_once(market.votes@, bets@, c0, w@, fee, pool, wt);
        }
        market.claimed = claims;
        Ok(Distribution { total_distributed: total, credits, bet_statuses: statuses })
    }
}

// ===== CLAIMS =====

/// The gross payout of a stake (before the fee): stake times pool divided
/// by the winning total.
pub open spec fn gross_payout_of(stake: int, pool: int, winning_total: int) -> Result<int, Error> {
    if !fits(stake * pool) {
        Err(Error::InvalidInput)
    } else {
        Ok(tdiv(stake * pool, winning_total))
    }
}

/// The first vote of `user`, if any.
pub open spec fn vote_of(votes: Seq<Vote>, user: AccountId) -> Option<Vote>
    decreases votes.len(),
{
    if votes.len() == 0 {
        None
    } else if votes[0].user == user {
        Some(votes[0])
    } else {
        vote_of(votes.drop_first(), user)
    }
}

proof fn lemma_vote_of(votes: Seq<Vote>, user: AccountId, i: int)
    requires
        0 <= i < votes.len(),
        votes[i].user == user,
        forall|j: int| 0 <= j < i ==> votes[j].user != user,
    ensures
        vote_of(votes, user) == Some(votes[i]),
    decreases i,
{
    if i > 0 {
        lemma_vote_of(votes.drop_first(), user, i - 1);
    }
}

proof fn lemma_no_vote(votes: Seq<Vote>, user: AccountId)
    requires
        !voted(votes, user),
    ensures
        vote_of(votes, user) is None,
    decreases votes.len(),
{
    if votes.len() > 0 {
        assert(!voted(votes.drop_first(), user)) by {
            if voted(votes.drop_first(), user) {
                let k = choose|k: int| 0 <= k < votes.drop_first().len() && votes.drop_first()[k].user == user;
                assert(votes[k + 1].user == user);
            }
        }
        lemma_no_vote(votes.drop_first(), user);
    }
}

/// Whether a claim reaches the dispute-window check, where the end of the
/// window must be computed: the user has not claimed, the market is
/// resolved and has a dispute window.
pub open spec fn claim_checks_window(market: &Market, user: AccountId) -> bool {
    !claimed_in(market.claimed@, user) && market.is_resolved() && market.dispute_window_seconds > 0
}

/// Whether a claim reaches the payout formula: it passes every check, the
/// user voted for a winning outcome and the winning total is positive.
pub open spec fn claim_computes_payout(
    market: &Market,
    user: AccountId,
    now: u64,
    summary: ResolutionSummary,
) -> bool {
    &&& !claimed_in(market.claimed@, user)
    &&& market.is_resolved()
    &&& !(market.dispute_window_seconds > 0 && now < market.end_time + market.dispute_window_seconds)
    &&& match vote_of(market.votes@, user) {
        Some(v) => outcome_in(market.winning_outcomes->Some_0@, v.outcome@) && summary.winning_total > 0,
        None => false,
    }
}

/// What a claim yields: the payout and the fee withheld.
pub open spec fn claim_result(
    market: &Market,
    user: AccountId,
    now: u64,
    fee: int,
    summary: ResolutionSummary,
) -> Result<(int, int), Error> {
    if claimed_in(market.claimed@, user) {
        Err(Error::AlreadyClaimed)
    } else if !market.is_resolved() {
        Err(Error::MarketNotResolved)
    } else if market.dispute_window_seconds > 0 && now < market.end_time
        + market.dispute_window_seconds {
        Err(Error::InvalidState)
    } else {
        match vote_of(market.votes@, user) {
            None => Err(Error::NothingToClaim),
            Some(v) => if outcome_in(market.winning_outcomes->Some_0@, v.outcome@)
                && summary.winning_total > 0 {
                let pool = summary.total_pool as int;
                let wt = summary.winning_total as int;
                match payout_of(v.stake as int, fee, pool, wt) {
                    Err(e) => Err(e),
                    Ok(p) => match gross_payout_of(v.stake as int, pool, wt) {
                        Err(e) => Err(e),
                        Ok(g) => if !fits(g - p) {
                            Err(Error::InvalidInput)
                        } else {
                            Ok((p, g - p))
                        },
                    },
                }
            } else {
                Ok((0, 0))
            },
        }
    }
}

impl PredictifyHybrid {
    /// Checks a claim without recording it: a winner of a resolved market,
    /// past the dispute window, is owed the payout formula's amount and a
    /// losing voter 0; a user who already claimed, a market not resolved, a
    /// claim inside the dispute window and a user without a vote are
    /// refused with their error.
    pub fn check_claim(
        market: &Market,
        user: AccountId,
        now: u64,
        fee_bps: i128,
        summary: ResolutionSummary,
    ) -> (r: Result<ClaimOutcome, Error>)
        requires
            claim_checks_window(market, user) ==> market.end_time + market.dispute_window_seconds
                <= u64::MAX,
            claim_computes_payout(market, user, now, summary) ==> fee_bps
                >= PERCENTAGE_DENOMINATOR - i128::MAX,
        ensures
            match claim_result(market, user, now, fee_bps as int, summary) {
                Err(e) => r == Err::<ClaimOutcome, Error>(e),
                Ok((p, f)) => r == Ok::<ClaimOutcome, Error>(
                    ClaimOutcome { payout: p as i128, fee_amount: f as i128 },
                ),
            },
    {
        if is_claimed(&market.claimed, user) {
            return Err(Error::AlreadyClaimed);
        }
        let w = match &market.winning_outcomes {
            Some(w) => w,
            None => return Err(Error::MarketNotResolved),
        };
        if market.dispute_window_seconds > 0 && now < market.end_time + market.dispute_window_seconds {
            return Err(Error::InvalidState);
        }
        let index = match find_vote(&market.votes, user) {
            Some(i) => i,
            None => {
                proof {
                    lemma_no_vote(market.votes@, user);
                }
                return Err(Error::NothingToClaim);
            },
        };
        proof {
            lemma_vote_of(market.votes@, user, index as int);
        }
        let user_stake = market.votes[index].stake;
        let mut outcome = ClaimOutcome { payout: 0, fee_amount: 0 };
        if contains_outcome(w, &market.votes[index].outcome) && summary.winning_total > 0 {
            let payout = match calculate_payout(
                user_stake,
                fee_bps,
                summary.total_pool,
                summary.winning_total,
            ) {
                Ok(p) => p,
                Err(e) => return Err(e),
            };
            let product_gross = match user_stake.checked_mul(summary.total_pool) {
                Some(v) => v,
                None => return Err(Error::InvalidInput),
            };
            let gross_payout = product_gross / summary.winning_total;
            let fee_amount = match gross_payout.checked_sub(payout) {
                Some(v) => v,
                None => return Err(Error::InvalidInput),
            };
            outcome = ClaimOutcome { payout, fee_amount };
        }
        Ok(outcome)
    }

    /// Claims a user's winnings and records the claim: the claim must be
    /// one that `check_claim` accepts (a refused claim aborts the call), so
    /// a second claim by the same user is never recorded. Only the claims
    /// change.
    pub fn claim_winnings(
        market: &mut Market,
        user: AccountId,
        now: u64,
        fee_bps: i128,
        summary: ResolutionSummary,
    ) -> (r: ClaimOutcome)
        requires
            claim_result(&*old(market), user, now, fee_bps as int, summary) is Ok,
            claim_checks_window(&*old(market), user) ==> old(market).end_time
                + old(market).dispute_window_seconds <= u64::MAX,
            claim_computes_payout(&*old(market), user, now, summary) ==> fee_bps
                >= PERCENTAGE_DENOMINATOR - i128::MAX,
        ensures
            ({
                let (p, f) = claim_result(&*old(market), user, now, fee_bps as int, summary)->Ok_0;
                &&& r == (ClaimOutcome { payout: p as i128, fee_amount: f as i128 })
                &&& final(market).claimed@ == old(market).claimed@.push(
                    Claim { user, payout: p as i128 },
                )
                &&& *final(market) == (Market { claimed: final(market).claimed, ..*old(market) })
                &&& adds_fresh_claims(old(market).claimed@, final(market).claimed@)
            }),
    {
        proof {
            lemma_fresh_refl(market.claimed@);
            lemma_fresh_push(market.claimed@, market.claimed@, Claim { user, payout: claim_result(&*market, user, now, fee_bps as int, summary)->Ok_0.0 as i128 });
        }
        let outcome = match Self::check_claim(market, user, now, fee_bps, summary) {
            Ok(o) => o,
            Err(_) => ClaimOutcome { payout: 0, fee_amount: 0 },
        };
        market.claimed.push(Claim { user, payout: outcome.payout });
        outcome
    }
}

// ===== SWEEP OF UNCLAIMED WINNINGS =====

/// Result of a sweep.
#[derive(Clone, Copy, Debug, PartialEq, Eq, Structural)]
pub struct SweepOutcome {
    /// Total of the unclaimed payouts swept.
    pub swept_total: i128,
    /// The treasury credited, or `None` when the funds are burned.
    pub recipient: Option<AccountId>,
}

/// Sweep step over one unclaimed winner holding `stake`.
pub open spec fn sweep_step(
    st: Result<(Seq<Claim>, int), Error>,
    user: AccountId,
    stake: int,
    wins: bool,
    fee: int,
    pool: int,
    wt: int,
) -> Result<(Seq<Claim>, int), Error> {
    match st {
        Err(e) => Err(e),
        Ok((c, total)) => if !wins || claimed_in(c, user) || stake <= 0 {
            Ok((c, total))
        } else {
            match payout_of(stake, fee, pool, wt) {
                Err(e) => Err(e),
                Ok(p) => if p < 0 {
                    Err(Error::InvalidInput)
                } else if !fits(total + p) {
                    Err(Error::InvalidInput)
                } else {
                    Ok((c.push(Claim { user, payout: p as i128 }), total + p))
                },
            }
        },
    }
}

/// Sweep over the first `n` voters.
pub open spec fn sweep_voters(
    votes: Seq<Vote>,
    n: int,
    c0: Seq<Claim>,
    w: Seq<String>,
    fee: int,
    pool: int,
    wt: int,
) -> Result<(Seq<Claim>, int), Error>
    decreases n,
{
    if n <= 0 {
        Ok((c0, 0))
    } else {
        let v = votes[n - 1];
        sweep_step(
            sweep_voters(votes, n - 1, c0, w, fee, pool, wt),
            v.user,
            v.stake as int,
            outcome_in(w, v.outcome@),
            fee,
            pool,
            wt,
        )
    }
}

/// Sweep over the first `n` bettors who did not vote.
pub open spec fn sweep_bettors(
    bets: Seq<Bet>,
    votes: Seq<Vote>,
    n: int,
    c0: Seq<Claim>,
    t0: int,
    w: Seq<String>,
    fee: int,
    pool: int,
    wt: int,
) -> Result<(Seq<Claim>, int), Error>
    decreases n,
{
    if n <= 0 {
        Ok((c0, t0))
    } else {
        let b = bets[n - 1];
        let prev = sweep_bettors(bets, votes, n - 1, c0, t0, w, fee, pool, wt);
        if voted(votes, b.user) {
            prev
        } else {
            sweep_step(prev, b.user, b.amount as int, outcome_in(w, b.outcome@), fee, pool, wt)
        }
    }
}

/// The checks a sweep makes before touching any payout.
pub open spec fn sweep_gate(
    market: &Market,
    stored_admin: Option<AccountId>,
    admin: AccountId,
    claim_window_expired: bool,
    fee: int,
) -> Option<Error> {
    if stored_admin is None {
        Some(Error::AdminNotSet)
    } else if stored_admin != Some(admin) {
        Some(Error::Unauthorized)
    } else if !market.is_resolved() {
        Some(Error::MarketNotResolved)
    } else if !claim_window_expired {
        Some(Error::InvalidState)
    } else if market.winnings_swept {
        Some(Error::SweepAlreadyDone)
    } else if fee < 0 || fee > PERCENTAGE_DENOMINATOR {
        Some(Error::InvalidFeeConfig)
    } else {
        None
    }
}

proof fn lemma_sweep_voters_err_sticks(
    votes: Seq<Vote>,
    n: int,
    m: int,
    c0: Seq<Claim>,
    w: Seq<String>,
    fee: int,
    pool: int,
    wt: int,
)
    requires
        0 <= n <= m,
        sweep_voters(votes, n, c0, w, fee, pool, wt) is Err,
    ensures
        sweep_voters(votes, m, c0, w, fee, pool, wt) == sweep_voters(votes, n, c0, w, fee, pool, wt),
    decreases m - n,
{
    if m > n {
        lemma_sweep_voters_err_sticks(votes, n, m - 1, c0, w, fee, pool, wt);
    }
}

proof fn lemma_sweep_bettors_err_sticks(
    bets: Seq<Bet>,
    votes: Seq<Vote>,
    n: int,
    m: int,
    c0: Seq<Claim>,
    t0: int,
    w: Seq<String>,
    fee: int,
    pool: int,
    wt: int,
)
    requires
        0 <= n <= m,
        sweep_bettors(bets, votes, n, c0, t0, w, fee, pool, wt) is Err,
    ensures
        sweep_bettors(bets, votes, m, c0, t0, w, fee, pool, wt) == sweep_bettors(
            bets,
            votes,
            n,
            c0,
            t0,
            w,
            fee,
            pool,
            wt,
        ),
    decreases m - n,
{
    if m > n {
        lemma_sweep_bettors_err_sticks(bets, votes, n, m - 1, c0, t0, w, fee, pool, wt);
    }
}

/// The stake on the winning outcomes `w` over the first `n` votes; a
/// partial sum leaving the `i128` range fails with `Overflow`.
pub open spec fn winning_stake(votes: Seq<Vote>, w: Seq<String>, n: int) -> Result<int, Error>
    decreases n,
{
    if n <= 0 {
        Ok(0)
    } else {
        match winning_stake(votes, w, n - 1) {
            Err(e) => Err(e),
            Ok(t) => if outcome_in(w, votes[n - 1].outcome@) {
                if fits(t + votes[n - 1].stake) {
                    Ok(t + votes[n - 1].stake)
                } else {
                    Err(Error::Overflow)
                }
            } else {
                Ok(t)
            },
        }
    }
}

/// The totals of a resolved market: the stake its voters placed on the
/// winning outcomes, and its whole pool.
pub fn resolution_summary(market: &Market) -> (r: Result<ResolutionSummary, Error>)
    ensures
        match market.winning_outcomes {
            None => r == Err::<ResolutionSummary, Error>(Error::MarketNotResolved),
            Some(w) => match winning_stake(market.votes@, w@, market.votes@.len() as int) {
                Err(e) => r == Err::<ResolutionSummary, Error>(e),
                Ok(t) => r == Ok::<ResolutionSummary, Error>(
                    ResolutionSummary { winning_total: t as i128, total_pool: market.total_staked },
                ),
            },
        },
{
    let w = match &market.winning_outcomes {
        Some(w) => w,
        None => return Err(Error::MarketNotResolved),
    };
    let mut total: i128 = 0;
    let mut i: usize = 0;
    while i < market.votes.len()
        invariant
            0 <= i <= market.votes@.len(),
            market.winning_outcomes == Some(*w),
            winning_stake(market.votes@, w@, i as int) == Ok::<int, Error>(total as int),
        decreases market.votes@.len() - i,
    {
        let v = &market.votes[i];
        if contains_outcome(w, &v.outcome) {
            total = match total.checked_add(v.stake) {
                Some(t) => t,
                None => {
                    proof {
                        lemma_winning_stake_err_sticks(
                            market.votes@,
                            w@,
                            i as int + 1,
                            market.votes@.len() as int,
                        );
                    }
                    return Err(Error::Overflow);
                },
            };
        }
        i = i + 1;
    }
    Ok(ResolutionSummary { winning_total: total, total_pool: market.total_staked })
}

proof fn lemma_winning_stake_err_sticks(votes: Seq<Vote>, w: Seq<String>, n: int, m: int)
    requires
        0 <= n <= m,
        winning_stake(votes, w, n) is Err,
    ensures
        winning_stake(votes, w, m) == winning_stake(votes, w, n),
    decreases m - n,
{
    if n < m {
        lemma_winning_stake_err_sticks(votes, w, n, m - 1);
    }
}

/// Whether `user` has a vote.
pub fn has_vote(votes: &Vec<Vote>, user: AccountId) -> (r: bool)
    ensures
        r == voted(votes@, user),
{
    match find_vote(votes, user) {
        Some(_) => true,
        None => false,
    }
}

impl PredictifyHybrid {
    /// Sweeps the unclaimed winnings of a resolved market once its claim window
    /// has expired (admin only): every winner without a recorded claim (voters
    /// first, then bettors who did not vote) is settled at the payout formula's
    /// amount, the total is credited to the treasury (or burned), and the
    /// market is marked swept so the sweep cannot repeat. With no winning stake
    /// nothing changes. On error nothing changes.
    pub fn sweep_unclaimed_winnings(
        market: &mut Market,
        bets: &Vec<Bet>,
        stored_admin: Option<AccountId>,
        admin: AccountId,
        claim_window_expired: bool,
        fee_bps: i128,
        summary: ResolutionSummary,
        burn: bool,
        treasury: Option<AccountId>,
    ) -> (r: Result<SweepOutcome, Error>)
        ensures
            *final(market) == (Market {
                claimed: final(market).claimed,
                winnings_swept: final(market).winnings_swept,
                ..*old(market)
            }),
            r is Err ==> *final(market) == *old(market),
            adds_fresh_claims(old(market).claimed@, final(market).claimed@),
            match sweep_gate(&*old(market), stored_admin, admin, claim_window_expired, fee_bps as int) {
                Some(e) => r == Err::<SweepOutcome, Error>(e),
                None => if summary.winning_total <= 0 {
                    r == Ok::<SweepOutcome, Error>(SweepOutcome { swept_total: 0, recipient: None })
                        && *final(market) == *old(market)
                } else {
                    let w = old(market).winning_outcomes->Some_0@;
                    let fee = fee_bps as int;
                    let pool = summary.total_pool as int;
                    let wt = summary.winning_total as int;
                    match sweep_voters(
                        old(market).votes@,
                        old(market).votes@.len() as int,
                        old(market).claimed@,
                        w,
                        fee,
                        pool,
                        wt,
                    ) {
                        Err(e) => r == Err::<SweepOutcome, Error>(e),
                        Ok((c1, t1)) => match sweep_bettors(
                            bets@,
                            old(market).votes@,
                            bets@.len() as int,
                            c1,
                            t1,
                            w,
                            fee,
                            pool,
                            wt,
                        ) {
                            Err(e) => r == Err::<SweepOutcome, Error>(e),
                            Ok((c2, t2)) => if !burn && treasury is None {
                                r == Err::<SweepOutcome, Error>(Error::ConfigNotFound)
                            } else {
                                &&& r == Ok::<SweepOutcome, Error>(
                                    SweepOutcome {
                                        swept_total: t2 as i128,
                                        recipient: if burn {
                                            None
                                        } else {
                                            treasury
                                        },
                                    },
                                )
                                &&& final(market).claimed@ == c2
                                &&& final(market).winnings_swept
                            },
                        },
                    }
                },
            },
    {
        proof {
            lemma_fresh_refl(market.claimed@);
        }
        let stored = match stored_admin {
            Some(a) => a,
            None => return Err(Error::AdminNotSet),
        };
        if admin != stored {
            return Err(Error::Unauthorized);
        }
        let w = match &market.winning_outcomes {
            Some(w) => w,
            None => return Err(Error::MarketNotResolved),
        };
        if !claim_window_expired {
            return Err(Error::InvalidState);
        }
        if market.winnings_swept {
            return Err(Error::SweepAlreadyDone);
        }
        if fee_bps < 0 || fee_bps > PERCENTAGE_DENOMINATOR {
            return Err(Error::InvalidFeeConfig);
        }
        let winning_total = summary.winning_total;
        if winning_total <= 0 {
            return Ok(SweepOutcome { swept_total: 0, recipient: None });
        }
        let total_pool = summary.total_pool;
        let ghost c0 = market.claimed@;
        let ghost fee = fee_bps as int;
        let ghost pool = total_pool as int;
        let ghost wt = winning_total as int;
        let mut claims: Vec<Claim> = Vec::new();
        let mut n: usize = 0;
        while n < market.claimed.len()
            invariant
                *market == *old(market),
                adds_fresh_claims(old(market).claimed@, old(market).claimed@),
                0 <= n <= c0.len(),
                c0 == market.claimed@,
                claims@ == c0.take(n as int),
            decreases c0.len() - n,
        {
            claims.push(market.claimed[n]);
            n = n + 1;
            assert(claims@ =~= c0.take(n as int));
        }
        assert(c0.take(n as int) =~= c0);
        let mut swept_total: i128 = 0;
        let mut i: usize = 0;
        while i < market.votes.len()
            invariant
                *market == *old(market),
                adds_fresh_claims(old(market).claimed@, old(market).claimed@),
                0 <= i <= market.votes@.len(),
                winning_total > 0,
                0 <= fee_bps <= PERCENTAGE_DENOMINATOR,
                fee == fee_bps as int,
                pool == total_pool as int,
                wt == winning_total as int,
                winning_total == summary.winning_total,
                total_pool == summary.total_pool,
                old(market).winning_outcomes == Some(*w),
                c0 == old(market).claimed@,
                sweep_gate(&*old(market), stored_admin, admin, claim_window_expired, fee_bps as int)
                    is None,
                sweep_voters(market.votes@, i as int, c0, w@, fee, pool, wt) == Ok::<
                    (Seq<Claim>, int),
                    Error,
                >((claims@, swept_total as int)),
            decreases market.votes@.len() - i,
        {
            let vote = &market.votes[i];
            proof {
                assert(sweep_voters(market.votes@, i + 1, c0, w@, fee, pool, wt) == sweep_step(
                    sweep_voters(market.votes@, i as int, c0, w@, fee, pool, wt),
                    market.votes@[i as int].user,
                    market.votes@[i as int].stake as int,
                    outcome_in(w@, market.votes@[i as int].outcome@),
                    fee,
                    pool,
                    wt,
                ));
            }
            if contains_outcome(w, &vote.outcome) && !is_claimed(&claims, vote.user) && vote.stake > 0 {
                let payout = match calculate_payout(vote.stake, fee_bps, total_pool, winning_total) {
                    Ok(p) => p,
                    Err(e) => {
                        proof {
                            lemma_sweep_voters_err_sticks(
                                market.votes@,
                                i + 1,
                                market.votes@.len() as int,
                                c0,
                                w@,
                                fee,
                                pool,
                                wt,
                            );
                        }
                        return Err(e);
                    },
                };
                if payout < 0 {
                    proof {
                        lemma_sweep_voters_err_sticks(
                            market.votes@,
                            i + 1,
                            market.votes@.len() as int,
                            c0,
                            w@,
                            fee,
                            pool,
                            wt,
                        );
                    }
                    return Err(Error::InvalidInput);
                }
                swept_total = match swept_total.checked_add(payout) {
                    Some(t) => t,
                    None => {
                        proof {
                            lemma_sweep_voters_err_sticks(
                                market.votes@,
                                i + 1,
                                market.votes@.len() as int,
                                c0,
                                w@,
                                fee,
                                pool,
                                wt,
                            );
                        }
                        return Err(Error::InvalidInput);
                    },
                };
                claims.push(Claim { user: vote.user, payout });
            }
            i = i + 1;
        }
        let ghost c1 = claims@;
        let ghost t1 = swept_total as int;
        let mut k: usize = 0;
        while k < bets.len()
            invariant
                *market == *old(market),
                adds_fresh_claims(old(market).claimed@, old(market).claimed@),
                0 <= k <= bets@.len(),
                winning_total > 0,
                0 <= fee_bps <= PERCENTAGE_DENOMINATOR,
                fee == fee_bps as int,
                pool == total_pool as int,
                wt == winning_total as int,
                winning_total == summary.winning_total,
                total_pool == summary.total_pool,
                old(market).winning_outcomes == Some(*w),
                c0 == old(market).claimed@,
                sweep_gate(&*old(market), stored_admin, admin, claim_window_expired, fee_bps as int)
                    is None,
                sweep_voters(market.votes@, market.votes@.len() as int, c0, w@, fee, pool, wt) == Ok::<
                    (Seq<Claim>, int),
                    Error,
                >((c1, t1)),
                sweep_bettors(bets@, market.votes@, k as int, c1, t1, w@, fee, pool, wt) == Ok::<
                    (Seq<Claim>, int),
                    Error,
                >((claims@, swept_total as int)),
            decreases bets@.len() - k,
        {
            let bet = &bets[k];
            proof {
                let prev = sweep_bettors(bets@, market.votes@, k as int, c1, t1, w@, fee, pool, wt);
                assert(sweep_bettors(bets@, market.votes@, k + 1, c1, t1, w@, fee, pool, wt) == (if voted(
                    market.votes@,
                    bets@[k as int].user,
                ) {
                    prev
                } else {
                    sweep_step(
                        prev,
                        bets@[k as int].user,
                        bets@[k as int].amount as int,
                        outcome_in(w@, bets@[k as int].outcome@),
                        fee,
                        pool,
                        wt,
                    )
                }));
            }
            if !has_vote(&market.votes, bet.user) && contains_outcome(w, &bet.outcome) && !is_claimed(
                &claims,
                bet.user,
            ) && bet.amount > 0 {
                let payout = match calculate_payout(bet.amount, fee_bps, total_pool, winning_total) {
                    Ok(p) => p,
                    Err(e) => {
                        proof {
                            lemma_sweep_bettors_err_sticks(
                                bets@,
                                market.votes@,
                                k + 1,
                                bets@.len() as int,
                                c1,
                                t1,
                                w@,
                                fee,
                                pool,
                                wt,
                            );
                        }
                        return Err(e);
                    },
                };
                if payout < 0 {
                    proof {
                        lemma_sweep_bettors_err_sticks(
                            bets@,
                            market.votes@,
                            k + 1,
                            bets@.len() as int,
                            c1,
                            t1,
                            w@,
                            fee,
                            pool,
                            wt,
                        );
                    }
                    return Err(Error::InvalidInput);
                }
                swept_total = match swept_total.checked_add(payout) {
                    Some(t) => t,
                    None => {
                        proof {
                            lemma_sweep_bettors_err_sticks(
                                bets@,
                                market.votes@,
                                k + 1,
                                bets@.len() as int,
                                c1,
                                t1,
                                w@,
                                fee,
                                pool,
                                wt,
                            );
                        }
                        return Err(Error::InvalidInput);
                    },
                };
                claims.push(Claim { user: bet.user, payout });
            }
            k = k + 1;
        }
        let recipient = if burn {
            None
        } else {
            match treasury {
                Some(t) => Some(t),
                None => return Err(Error::ConfigNotFound),
            }
        };
        proof {
            lemma_sweep_adds_fresh_claims(market.votes@, bets@, c0, w@, fee, pool, wt);
        }
        market.claimed = claims;
        market.winnings_swept = true;
        Ok(SweepOutcome { swept_total, recipient })
    }
}

// ===== LAWS =====

/// Sum of the positive stakes of the first `n` votes on winning outcomes.
pub open spec fn winning_vote_stakes(votes: Seq<Vote>, n: int, w: Seq<String>) -> int
    decreases n,
{
    if n <= 0 {
        0
    } else {
        winning_vote_stakes(votes, n - 1, w) + (if outcome_in(w, votes[n - 1].outcome@)
            && votes[n - 1].stake > 0 {
            votes[n - 1].stake as int
        } else {
            0
        })
    }
}

proof fn lemma_payout_share(stake: int, fee: int, pool: int, wt: int)
    requires
        stake > 0,
        0 <= fee <= PERCENTAGE_DENOMINATOR,
        pool >= 0,
        wt > 0,
        payout_of(stake, fee, pool, wt) is Ok,
    ensures
        payout_of(stake, fee, pool, wt) matches Ok(p) && 0 <= p && p * wt <= stake * pool,
{
    let m = 10000 - fee;
    let scaled = stake * m;
    assert(0 <= scaled <= stake * 10000) by (nonlinear_arith)
        requires
            stake > 0,
            0 <= m <= 10000,
            scaled == stake * m,
    ;
    let share = scaled / 10000;
    assert(0 <= share <= stake) by (nonlinear_arith)
        requires
            0 <= scaled <= stake * 10000,
            share == scaled / 10000,
    ;
    let prod = share * pool;
    assert(0 <= prod <= stake * pool) by (nonlinear_arith)
        requires
            0 <= share <= stake,
            pool >= 0,
            prod == share * pool,
    ;
    let p = prod / wt;
    assert(0 <= p && p * wt <= prod) by (nonlinear_arith)
        requires
            prod >= 0,
            wt > 0,
            p == prod / wt,
    ;
}

proof fn lemma_voters_within_pool(
    votes: Seq<Vote>,
    n: int,
    c0: Seq<Claim>,
    w: Seq<String>,
    fee: int,
    pool: int,
    wt: int,
)
    requires
        0 <= n <= votes.len(),
        0 <= fee <= PERCENTAGE_DENOMINATOR,
        pool >= 0,
        wt > 0,
    ensures
        distribute_voters(votes, n, c0, w, fee, pool, wt) matches Ok((c1, t1)) ==> 0 <= t1 && t1
            * wt <= winning_vote_stakes(votes, n, w) * pool,
    decreases n,
{
    if n == 0 {
        assert(winning_vote_stakes(votes, 0, w) == 0);
        assert(distribute_voters(votes, 0, c0, w, fee, pool, wt) == Ok::<(Seq<Claim>, int), Error>((c0, 0)));
        let s0 = winning_vote_stakes(votes, 0, w);
        assert(0 * wt <= s0 * pool) by (nonlinear_arith)
            requires
                s0 == 0,
        ;
    }
    if n > 0 {
        lemma_voters_within_pool(votes, n - 1, c0, w, fee, pool, wt);
        let v = votes[n - 1];
        let prev = distribute_voters(votes, n - 1, c0, w, fee, pool, wt);
        let sum_prev = winning_vote_stakes(votes, n - 1, w);
        assert(distribute_voters(votes, n, c0, w, fee, pool, wt) == voter_step(prev, v, w, fee, pool, wt));
        if prev is Ok {
            let c = prev->Ok_0.0;
            let t = prev->Ok_0.1;
            if outcome_in(w, v.outcome@) && v.stake > 0 {
                assert(winning_vote_stakes(votes, n, w) == sum_prev + v.stake);
                assert(sum_prev * pool <= (sum_prev + v.stake) * pool) by (nonlinear_arith)
                    requires
                        v.stake > 0,
                        pool >= 0,
                ;
                if !claimed_in(c, v.user) && payout_of(v.stake as int, fee, pool, wt) is Ok {
                    lemma_payout_share(v.stake as int, fee, pool, wt);
                    let p = payout_of(v.stake as int, fee, pool, wt)->Ok_0;
                    assert((t + p) * wt <= (sum_prev + v.stake) * pool) by (nonlinear_arith)
                        requires
                            t * wt <= sum_prev * pool,
                            p * wt <= v.stake * pool,
                    ;
                }
            } else {
                assert(winning_vote_stakes(votes, n, w) == sum_prev);
            }
        }
    }
}

/// Whether `u` holds a winning vote with a positive stake.
pub open spec fn won_vote(votes: Seq<Vote>, w: Seq<String>, u: AccountId) -> bool {
    exists|i: int|
        0 <= i < votes.len() && #[trigger] votes[i].user == u && outcome_in(w, votes[i].outcome@)
            && votes[i].stake > 0
}

/// The winning positive bet amounts among the first `n` bets whose bettor
/// holds no winning vote (a voter's bet is not counted twice).
pub open spec fn unvoted_bet_amounts(bets: Seq<Bet>, n: int, votes: Seq<Vote>, w: Seq<String>) -> int
    decreases n,
{
    if n <= 0 {
        0
    } else {
        unvoted_bet_amounts(bets, n - 1, votes, w) + (if outcome_in(w, bets[n - 1].outcome@)
            && bets[n - 1].amount > 0 && !won_vote(votes, w, bets[n - 1].user) {
            bets[n - 1].amount as int
        } else {
            0
        })
    }
}

proof fn lemma_unvoted_nonneg(bets: Seq<Bet>, n: int, votes: Seq<Vote>, w: Seq<String>)
    ensures
        unvoted_bet_amounts(bets, n, votes, w) >= 0,
    decreases n,
{
    if n > 0 {
        lemma_unvoted_nonneg(bets, n - 1, votes, w);
    }
}

proof fn lemma_bettors_within_pool(
    bets: Seq<Bet>,
    n: int,
    c0: Seq<Claim>,
    t0: int,
    base: int,
    votes: Seq<Vote>,
    w: Seq<String>,
    fee: int,
    pool: int,
    wt: int,
)
    requires
        0 <= n <= bets.len(),
        0 <= fee <= PERCENTAGE_DENOMINATOR,
        pool >= 0,
        wt > 0,
        0 <= t0,
        t0 * wt <= base * pool,
        forall|u: AccountId| #[trigger] won_vote(votes, w, u) ==> claimed_in(c0, u),
    ensures
        distribute_bettors(bets, n, c0, t0, w, fee, pool, wt) matches Ok((c, t, s)) ==> 0 <= t && t
            * wt <= (base + unvoted_bet_amounts(bets, n, votes, w)) * pool,
    decreases n,
{
    if n > 0 {
        lemma_bettors_within_pool(bets, n - 1, c0, t0, base, votes, w, fee, pool, wt);
        let b = bets[n - 1];
        let prev = distribute_bettors(bets, n - 1, c0, t0, w, fee, pool, wt);
        let sum_prev = base + unvoted_bet_amounts(bets, n - 1, votes, w);
        if prev is Ok && outcome_in(w, b.outcome@) && b.amount > 0 {
            lemma_bettors_grow_settle(bets, n - 1, c0, t0, w, fee, pool, wt);
            let c = prev->Ok_0.0;
            if won_vote(votes, w, b.user) {
                assert(claimed_in(c0, b.user));
                assert(claimed_in(c, b.user));
            } else {
                assert(sum_prev * pool <= (sum_prev + b.amount) * pool) by (nonlinear_arith)
                    requires
                        b.amount > 0,
                        pool >= 0,
                ;
                if payout_of(b.amount as int, fee, pool, wt) is Ok {
                    lemma_payout_share(b.amount as int, fee, pool, wt);
                    let p = payout_of(b.amount as int, fee, pool, wt)->Ok_0;
                    let t = prev->Ok_0.1;
                    assert((t + p) * wt <= (sum_prev + b.amount) * pool) by (nonlinear_arith)
                        requires
                            t * wt <= sum_prev * pool,
                            p * wt <= b.amount * pool,
                    ;
                }
            }
        }
    }
}

/// A distribution never pays out more than the pool: when the fee lies in
/// `[0, 100%]` and the winning total covers the winning stakes with each
/// voter's stake counted once and a bet counted only when its bettor holds
/// no winning vote, the total distributed is at most the pool.
pub proof fn lemma_distribution_within_pool(
    votes: Seq<Vote>,
    bets: Seq<Bet>,
    c0: Seq<Claim>,
    w: Seq<String>,
    fee: int,
    pool: int,
    wt: int,
)
    requires
        0 <= fee <= PERCENTAGE_DENOMINATOR,
        pool >= 0,
        wt > 0,
        winning_vote_stakes(votes, votes.len() as int, w) + unvoted_bet_amounts(
            bets,
            bets.len() as int,
            votes,
            w,
        ) <= wt,
    ensures
        match distribute_voters(votes, votes.len() as int, c0, w, fee, pool, wt) {
            Ok((c1, t1)) => match distribute_bettors(
                bets,
                bets.len() as int,
                c1,
                t1,
                w,
                fee,
                pool,
                wt,
            ) {
                Ok((c2, t2, s2)) => 0 <= t2 <= pool,
                Err(_) => true,
            },
            Err(_) => true,
        },
{
    lemma_voters_within_pool(votes, votes.len() as int, c0, w, fee, pool, wt);
    let vs = winning_vote_stakes(votes, votes.len() as int, w);
    let bs = unvoted_bet_amounts(bets, bets.len() as int, votes, w);
    if distribute_voters(votes, votes.len() as int, c0, w, fee, pool, wt) is Ok {
        let (c1, t1) = distribute_voters(votes, votes.len() as int, c0, w, fee, pool, wt)->Ok_0;
        lemma_voters_grow_settle(votes, votes.len() as int, c0, w, fee, pool, wt);
        assert forall|u: AccountId| #[trigger] won_vote(votes, w, u) implies claimed_in(c1, u) by {
            let i = choose|i: int|
                0 <= i < votes.len() && #[trigger] votes[i].user == u && outcome_in(w, votes[i].outcome@)
                    && votes[i].stake > 0;
            if !claimed_in(c1, u) {
                assert(negative_payout(payout_of(votes[i].stake as int, fee, pool, wt)));
                lemma_payout_share(votes[i].stake as int, fee, pool, wt);
            }
        }
        lemma_bettors_within_pool(bets, bets.len() as int, c1, t1, vs, votes, w, fee, pool, wt);
        if distribute_bettors(bets, bets.len() as int, c1, t1, w, fee, pool, wt) is Ok {
            let t2 = distribute_bettors(bets, bets.len() as int, c1, t1, w, fee, pool, wt)->Ok_0.1;
            lemma_unvoted_nonneg(bets, bets.len() as int, votes, w);
            lemma_votes_nonneg(votes, votes.len() as int, w);
            assert(t2 <= pool) by (nonlinear_arith)
                requires
                    t2 * wt <= (vs + bs) * pool,
                    0 <= vs + bs <= wt,
                    pool >= 0,
                    wt > 0,
            ;
        }
    }
}

proof fn lemma_votes_nonneg(votes: Seq<Vote>, n: int, w: Seq<String>)
    ensures
        winning_vote_stakes(votes, n, w) >= 0,
    decreases n,
{
    if n > 0 {
        lemma_votes_nonneg(votes, n - 1, w);
    }
}

/// No user holds two claims.
pub open spec fn unique_claims(c: Seq<Claim>) -> bool {
    forall|i: int, j: int| 0 <= i < j < c.len() ==> c[i].user != c[j].user
}

/// `c` keeps `c0` as its prefix and adds only claims of users who hold no
/// claim before them: none before `c0` ends, and none earlier among the
/// added ones.
pub open spec fn adds_fresh_claims(c0: Seq<Claim>, c: Seq<Claim>) -> bool {
    &&& c0.len() <= c.len()
    &&& c.take(c0.len() as int) == c0
    &&& forall|i: int| c0.len() <= i < c.len() ==> !claimed_in(c.take(i), #[trigger] c[i].user)
}

proof fn lemma_fresh_refl(c0: Seq<Claim>)
    ensures
        adds_fresh_claims(c0, c0),
{
    assert(c0.take(c0.len() as int) =~= c0);
}

proof fn lemma_fresh_push(c0: Seq<Claim>, c: Seq<Claim>, x: Claim)
    requires
        adds_fresh_claims(c0, c),
        !claimed_in(c, x.user),
    ensures
        adds_fresh_claims(c0, c.push(x)),
{
    let d = c.push(x);
    assert(d.take(c0.len() as int) =~= c.take(c0.len() as int));
    assert forall|i: int| c0.len() <= i < d.len() implies !claimed_in(d.take(i), #[trigger] d[i].user) by {
        if i < c.len() {
            assert(d.take(i) =~= c.take(i));
            assert(d[i] == c[i]);
        } else {
            assert(d.take(i) =~= c);
        }
    }
}

/// Fresh claims added to claims of distinct users leave the users distinct.
pub proof fn lemma_fresh_claims_stay_unique(c0: Seq<Claim>, c: Seq<Claim>)
    requires
        adds_fresh_claims(c0, c),
        unique_claims(c0),
    ensures
        unique_claims(c),
{
    assert forall|i: int, j: int| 0 <= i < j < c.len() implies c[i].user != c[j].user by {
        if j < c0.len() {
            assert(c.take(c0.len() as int)[i] == c[i]);
            assert(c.take(c0.len() as int)[j] == c[j]);
        } else {
            assert(!claimed_in(c.take(j), c[j].user));
            assert(c.take(j)[i] == c[i]);
        }
    }
}

proof fn lemma_voters_fresh(
    votes: Seq<Vote>,
    n: int,
    c0: Seq<Claim>,
    w: Seq<String>,
    fee: int,
    pool: int,
    wt: int,
)
    ensures
        distribute_voters(votes, n, c0, w, fee, pool, wt) matches Ok((c, t)) ==> adds_fresh_claims(c0, c),
    decreases n,
{
    if n <= 0 {
        lemma_fresh_refl(c0);
    } else {
        lemma_voters_fresh(votes, n - 1, c0, w, fee, pool, wt);
        let prev = distribute_voters(votes, n - 1, c0, w, fee, pool, wt);
        let v = votes[n - 1];
        if prev is Ok && !claimed_in(prev->Ok_0.0, v.user) {
            let c = prev->Ok_0.0;
            lemma_fresh_push(c0, c, Claim { user: v.user, payout: 0 });
            if payout_of(v.stake as int, fee, pool, wt) is Ok {
                let p = payout_of(v.stake as int, fee, pool, wt)->Ok_0;
                lemma_fresh_push(c0, c, Claim { user: v.user, payout: p as i128 });
            }
        }
    }
}

proof fn lemma_bettors_fresh(
    bets: Seq<Bet>,
    n: int,
    c0: Seq<Claim>,
    c1: Seq<Claim>,
    t1: int,
    w: Seq<String>,
    fee: int,
    pool: int,
    wt: int,
)
    requires
        adds_fresh_claims(c0, c1),
    ensures
        distribute_bettors(bets, n, c1, t1, w, fee, pool, wt) matches Ok((c, t, s)) ==> adds_fresh_claims(
            c0,
            c,
        ),
    decreases n,
{
    if n > 0 {
        lemma_bettors_fresh(bets, n - 1, c0, c1, t1, w, fee, pool, wt);
        let prev = distribute_bettors(bets, n - 1, c1, t1, w, fee, pool, wt);
        let b = bets[n - 1];
        if prev is Ok && !claimed_in(prev->Ok_0.0, b.user) && payout_of(
            b.amount as int,
            fee,
            pool,
            wt,
        ) is Ok {
            let p = payout_of(b.amount as int, fee, pool, wt)->Ok_0;
            lemma_fresh_push(c0, prev->Ok_0.0, Claim { user: b.user, payout: p as i128 });
        }
    }
}

proof fn lemma_sweep_voters_fresh(
    votes: Seq<Vote>,
    n: int,
    c0: Seq<Claim>,
    w: Seq<String>,
    fee: int,
    pool: int,
    wt: int,
)
    ensures
        sweep_voters(votes, n, c0, w, fee, pool, wt) matches Ok((c, t)) ==> adds_fresh_claims(c0, c),
    decreases n,
{
    if n <= 0 {
        lemma_fresh_refl(c0);
    } else {
        lemma_sweep_voters_fresh(votes, n - 1, c0, w, fee, pool, wt);
        let prev = sweep_voters(votes, n - 1, c0, w, fee, pool, wt);
        let v = votes[n - 1];
        if prev is Ok && !claimed_in(prev->Ok_0.0, v.user) && payout_of(v.stake as int, fee, pool, wt) is Ok {
            let p = payout_of(v.stake as int, fee, pool, wt)->Ok_0;
            lemma_fresh_push(c0, prev->Ok_0.0, Claim { user: v.user, payout: p as i128 });
        }
    }
}

proof fn lemma_sweep_bettors_fresh(
    bets: Seq<Bet>,
    votes: Seq<Vote>,
    n: int,
    c0: Seq<Claim>,
    c1: Seq<Claim>,
    t1: int,
    w: Seq<String>,
    fee: int,
    pool: int,
    wt: int,
)
    requires
        adds_fresh_claims(c0, c1),
    ensures
        sweep_bettors(bets, votes, n, c1, t1, w, fee, pool, wt) matches Ok((c, t)) ==> adds_fresh_claims(
            c0,
            c,
        ),
    decreases n,
{
    if n > 0 {
        lemma_sweep_bettors_fresh(bets, votes, n - 1, c0, c1, t1, w, fee, pool, wt);
        let prev = sweep_bettors(bets, votes, n - 1, c1, t1, w, fee, pool, wt);
        let b = bets[n - 1];
        if prev is Ok && !claimed_in(prev->Ok_0.0, b.user) && payout_of(b.amount as int, fee, pool, wt) is Ok {
            let p = payout_of(b.amount as int, fee, pool, wt)->Ok_0;
            lemma_fresh_push(c0, prev->Ok_0.0, Claim { user: b.user, payout: p as i128 });
        }
    }
}

/// A distribution pays no user twice: the claims it records keep the
/// earlier ones as their prefix and add only users who held no claim
/// before, each once; so when every user held at most one claim before,
/// every user holds at most one after.
pub proof fn lemma_distribution_pays_once(
    votes: Seq<Vote>,
    bets: Seq<Bet>,
    c0: Seq<Claim>,
    w: Seq<String>,
    fee: int,
    pool: int,
    wt: int,
)
    ensures
        match distribute_voters(votes, votes.len() as int, c0, w, fee, pool, wt) {
            Ok((c1, t1)) => match distribute_bettors(
                bets,
                bets.len() as int,
                c1,
                t1,
                w,
                fee,
                pool,
                wt,
            ) {
                Ok((c2, t2, s2)) => adds_fresh_claims(c0, c2) && (unique_claims(c0) ==> unique_claims(
                    c2,
                )),
                Err(_) => true,
            },
            Err(_) => true,
        },
{
    lemma_voters_fresh(votes, votes.len() as int, c0, w, fee, pool, wt);
    if distribute_voters(votes, votes.len() as int, c0, w, fee, pool, wt) is Ok {
        let (c1, t1) = distribute_voters(votes, votes.len() as int, c0, w, fee, pool, wt)->Ok_0;
        lemma_bettors_fresh(bets, bets.len() as int, c0, c1, t1, w, fee, pool, wt);
        if distribute_bettors(bets, bets.len() as int, c1, t1, w, fee, pool, wt) is Ok {
            let c2 = distribute_bettors(bets, bets.len() as int, c1, t1, w, fee, pool, wt)->Ok_0.0;
            if unique_claims(c0) {
                lemma_fresh_claims_stay_unique(c0, c2);
            }
        }
    }
}

/// A sweep records no user twice: the claims it records keep the earlier
/// ones as their prefix and add only users who held no claim before, each
/// once.
pub proof fn lemma_sweep_adds_fresh_claims(
    votes: Seq<Vote>,
    bets: Seq<Bet>,
    c0: Seq<Claim>,
    w: Seq<String>,
    fee: int,
    pool: int,
    wt: int,
)
    ensures
        match sweep_voters(votes, votes.len() as int, c0, w, fee, pool, wt) {
            Ok((c1, t1)) => match sweep_bettors(
                bets,
                votes,
                bets.len() as int,
                c1,
                t1,
                w,
                fee,
                pool,
                wt,
            ) {
                Ok((c2, t2)) => adds_fresh_claims(c0, c2),
                Err(_) => true,
            },
            Err(_) => true,
        },
{
    lemma_sweep_voters_fresh(votes, votes.len() as int, c0, w, fee, pool, wt);
    if sweep_voters(votes, votes.len() as int, c0, w, fee, pool, wt) is Ok {
        let (c1, t1) = sweep_voters(votes, votes.len() as int, c0, w, fee, pool, wt)->Ok_0;
        lemma_sweep_bettors_fresh(bets, votes, bets.len() as int, c0, c1, t1, w, fee, pool, wt);
    }
}

/// A user cannot claim twice: once a claim is recorded, claiming again
/// fails with `AlreadyClaimed`, whatever else holds.
pub proof fn lemma_claim_not_repeated(
    market: Market,
    user: AccountId,
    payout: i128,
    now: u64,
    fee: int,
    summary: ResolutionSummary,
)
    requires
        market.claimed@.len() > 0,
        market.claimed@.last() == (Claim { user, payout }),
    ensures
        claim_result(&market, user, now, fee, summary) == Err::<(int, int), Error>(
            Error::AlreadyClaimed,
        ),
{
    assert(market.claimed@[market.claimed@.len() - 1].user == user);
}

/// A market cannot be swept twice: once swept, a further sweep by the
/// admin of the resolved market, after the claim window, is rejected with
/// `SweepAlreadyDone`.
pub proof fn lemma_sweep_not_repeated(
    market: Market,
    stored_admin: Option<AccountId>,
    admin: AccountId,
    fee: int,
)
    requires
        market.winnings_swept,
        market.is_resolved(),
        stored_admin == Some(admin),
    ensures
        sweep_gate(&market, stored_admin, admin, true, fee) == Some(Error::SweepAlreadyDone),
{
}

// ===== WINNING TOTAL =====

proof fn lemma_winning_stake_prefix(votes: Seq<Vote>, v: Vote, w: Seq<String>, k: int)
    requires
        0 <= k <= votes.len(),
    ensures
        winning_stake(votes.push(v), w, k) == winning_stake(votes, w, k),
    decreases k,
{
    if k > 0 {
        lemma_winning_stake_prefix(votes, v, w, k - 1);
        assert(votes.push(v)[k - 1] == votes[k - 1]);
    }
}

/// What one more vote adds to the winning total: its stake when its
/// outcome is a winning one (failing with `Overflow` when the sum leaves
/// the `i128` range), and nothing when it is not.
pub proof fn lemma_winning_stake_push(votes: Seq<Vote>, v: Vote, w: Seq<String>)
    ensures
        !outcome_in(w, v.outcome@) ==> winning_stake(votes.push(v), w, votes.len() + 1int)
            == winning_stake(votes, w, votes.len() as int),
        outcome_in(w, v.outcome@) ==> winning_stake(votes.push(v), w, votes.len() + 1int) == match winning_stake(
            votes,
            w,
            votes.len() as int,
        ) {
            Err(e) => Err(e),
            Ok(t) => if i128::MIN <= t + v.stake <= i128::MAX {
                Ok(t + v.stake)
            } else {
                Err(Error::Overflow)
            },
        },
{
    lemma_winning_stake_prefix(votes, v, w, votes.len() as int);
    assert(votes.push(v)[votes.len() as int] == v);
}

/// Votes on losing outcomes count for nothing: when no vote is on a
/// winning outcome the winning total is 0, whatever the stakes.
pub proof fn lemma_no_winning_votes_no_winning_stake(votes: Seq<Vote>, w: Seq<String>, n: int)
    requires
        0 <= n <= votes.len(),
        forall|i: int| 0 <= i < n ==> !outcome_in(w, #[trigger] votes[i].outcome@),
    ensures
        winning_stake(votes, w, n) == Ok::<int, Error>(0),
    decreases n,
{
    if n > 0 {
        lemma_no_winning_votes_no_winning_stake(votes, w, n - 1);
    }
}

/// Changing the stake of a vote on a losing outcome leaves the winning
/// total as it is.
pub proof fn lemma_losing_stake_ignored(votes: Seq<Vote>, w: Seq<String>, i: int, stake: i128, n: int)
    requires
        0 <= i < votes.len(),
        0 <= n <= votes.len(),
        !outcome_in(w, votes[i].outcome@),
    ensures
        winning_stake(votes.update(i, Vote { stake, ..votes[i] }), w, n) == winning_stake(votes, w, n),
    decreases n,
{
    if n > 0 {
        lemma_losing_stake_ignored(votes, w, i, stake, n - 1);
    }
}

// ===== REPEATED DISTRIBUTION =====

/// Whether a payout computation succeeds with a negative amount.
pub open spec fn negative_payout(r: Result<int, Error>) -> bool {
    match r {
        Ok(p) => p < 0,
        Err(_) => false,
    }
}

/// Whether a payout computation succeeds with an amount that is not positive.
pub open spec fn nonpositive_payout(r: Result<int, Error>) -> bool {
    match r {
        Ok(p) => p <= 0,
        Err(_) => false,
    }
}

/// Every winning voter among the first `n` with a positive stake is either
/// claimed in `c` or has a negative payout (and so is never paid).
pub open spec fn voters_settled(votes: Seq<Vote>, n: int, c: Seq<Claim>, w: Seq<String>, fee: int, pool: int, wt: int) -> bool {
    forall|i: int|
        0 <= i < n && outcome_in(w, #[trigger] votes[i].outcome@) && votes[i].stake > 0 && !claimed_in(
            c,
            votes[i].user,
        ) ==> negative_payout(payout_of(votes[i].stake as int, fee, pool, wt))
}

/// Every winning bettor among the first `m` with a positive amount is
/// either claimed in `c` or has a payout that is not positive.
pub open spec fn bettors_settled(bets: Seq<Bet>, m: int, c: Seq<Claim>, w: Seq<String>, fee: int, pool: int, wt: int) -> bool {
    forall|j: int|
        0 <= j < m && outcome_in(w, #[trigger] bets[j].outcome@) && bets[j].amount > 0 && !claimed_in(
            c,
            bets[j].user,
        ) ==> nonpositive_payout(payout_of(bets[j].amount as int, fee, pool, wt))
}

proof fn lemma_claimed_push(c: Seq<Claim>, x: Claim, u: AccountId)
    ensures
        claimed_in(c, u) ==> claimed_in(c.push(x), u),
        claimed_in(c.push(x), x.user),
{
    if claimed_in(c, u) {
        let i = choose|i: int| 0 <= i < c.len() && c[i].user == u;
        assert(c.push(x)[i].user == u);
    }
    assert(c.push(x)[c.len() as int].user == x.user);
}

proof fn lemma_voters_grow_settle(votes: Seq<Vote>, n: int, c0: Seq<Claim>, w: Seq<String>, fee: int, pool: int, wt: int)
    requires
        0 <= n <= votes.len(),
        distribute_voters(votes, n, c0, w, fee, pool, wt) is Ok,
    ensures
        ({
            let c = distribute_voters(votes, n, c0, w, fee, pool, wt)->Ok_0.0;
            &&& forall|u: AccountId| claimed_in(c0, u) ==> #[trigger] claimed_in(c, u)
            &&& voters_settled(votes, n, c, w, fee, pool, wt)
        }),
    decreases n,
{
    if n > 0 {
        let prev = distribute_voters(votes, n - 1, c0, w, fee, pool, wt);
        if prev is Err {
            assert(distribute_voters(votes, n, c0, w, fee, pool, wt) is Err);
        }
        lemma_voters_grow_settle(votes, n - 1, c0, w, fee, pool, wt);
        let (cp, tp) = prev->Ok_0;
        let v = votes[n - 1];
        let c = distribute_voters(votes, n, c0, w, fee, pool, wt)->Ok_0.0;
        if c != cp {
            let x = c.last();
            assert(c == cp.push(x));
            assert forall|u: AccountId| claimed_in(cp, u) implies #[trigger] claimed_in(c, u) by {
                lemma_claimed_push(cp, x, u);
            }
            lemma_claimed_push(cp, x, v.user);
        }
        assert forall|i: int|
            0 <= i < n && outcome_in(w, #[trigger] votes[i].outcome@) && votes[i].stake > 0
                && !claimed_in(c, votes[i].user) implies negative_payout(payout_of(votes[i].stake as int, fee, pool, wt)) by {
            if i < n - 1 {
                assert(!claimed_in(cp, votes[i].user));
            }
        }
    }
}

proof fn lemma_bettors_grow_settle(
    bets: Seq<Bet>,
    m: int,
    c1: Seq<Claim>,
    t1: int,
    w: Seq<String>,
    fee: int,
    pool: int,
    wt: int,
)
    requires
        0 <= m <= bets.len(),
        distribute_bettors(bets, m, c1, t1, w, fee, pool, wt) is Ok,
    ensures
        ({
            let c = distribute_bettors(bets, m, c1, t1, w, fee, pool, wt)->Ok_0.0;
            &&& forall|u: AccountId| claimed_in(c1, u) ==> #[trigger] claimed_in(c, u)
            &&& bettors_settled(bets, m, c, w, fee, pool, wt)
        }),
    decreases m,
{
    if m > 0 {
        let prev = distribute_bettors(bets, m - 1, c1, t1, w, fee, pool, wt);
        if prev is Err {
            assert(distribute_bettors(bets, m, c1, t1, w, fee, pool, wt) is Err);
        }
        lemma_bettors_grow_settle(bets, m - 1, c1, t1, w, fee, pool, wt);
        let (cp, tp, sp) = prev->Ok_0;
        let b = bets[m - 1];
        let c = distribute_bettors(bets, m, c1, t1, w, fee, pool, wt)->Ok_0.0;
        if c != cp {
            let x = c.last();
            assert(c == cp.push(x));
            assert forall|u: AccountId| claimed_in(cp, u) implies #[trigger] claimed_in(c, u) by {
                lemma_claimed_push(cp, x, u);
            }
            lemma_claimed_push(cp, x, b.user);
        }
        assert forall|j: int|
            0 <= j < m && outcome_in(w, #[trigger] bets[j].outcome@) && bets[j].amount > 0
                && !claimed_in(c, bets[j].user) implies nonpositive_payout(payout_of(bets[j].amount as int, fee, pool, wt)) by {
            if j < m - 1 {
                assert(!claimed_in(cp, bets[j].user));
            }
        }
    }
}

proof fn lemma_settled_voters_pay_nothing(votes: Seq<Vote>, n: int, c: Seq<Claim>, w: Seq<String>, fee: int, pool: int, wt: int)
    requires
        0 <= n <= votes.len(),
        voters_settled(votes, n, c, w, fee, pool, wt),
    ensures
        distribute_voters(votes, n, c, w, fee, pool, wt) == Ok::<(Seq<Claim>, int), Error>((c, 0)),
    decreases n,
{
    if n > 0 {
        assert(voters_settled(votes, n - 1, c, w, fee, pool, wt));
        lemma_settled_voters_pay_nothing(votes, n - 1, c, w, fee, pool, wt);
        let v = votes[n - 1];
        if outcome_in(w, v.outcome@) && v.stake > 0 && !claimed_in(c, v.user) {
            assert(negative_payout(payout_of(votes[n - 1].stake as int, fee, pool, wt)));
        }
    }
}

proof fn lemma_settled_bettors_pay_nothing(bets: Seq<Bet>, m: int, c: Seq<Claim>, w: Seq<String>, fee: int, pool: int, wt: int)
    requires
        0 <= m <= bets.len(),
        bettors_settled(bets, m, c, w, fee, pool, wt),
    ensures
        distribute_bettors(bets, m, c, 0, w, fee, pool, wt) matches Ok((c2, t2, s2)) && c2 == c && t2
            == 0,
    decreases m,
{
    if m > 0 {
        assert(bettors_settled(bets, m - 1, c, w, fee, pool, wt));
        lemma_settled_bettors_pay_nothing(bets, m - 1, c, w, fee, pool, wt);
        let b = bets[m - 1];
        if outcome_in(w, b.outcome@) && b.amount > 0 && !claimed_in(c, b.user) {
            assert(nonpositive_payout(payout_of(bets[m - 1].amount as int, fee, pool, wt)));
        }
    }
}

/// Distributing twice pays nothing the second time: after a distribution
/// succeeds, the walk over the same voters and bettors from the claims it
/// recorded adds no claim and distributes 0.
pub proof fn lemma_repeat_distribution_pays_nothing(
    votes: Seq<Vote>,
    bets: Seq<Bet>,
    c0: Seq<Claim>,
    w: Seq<String>,
    fee: int,
    pool: int,
    wt: int,
)
    ensures
        match distribute_voters(votes, votes.len() as int, c0, w, fee, pool, wt) {
            Ok((c1, t1)) => match distribute_bettors(
                bets,
                bets.len() as int,
                c1,
                t1,
                w,
                fee,
                pool,
                wt,
            ) {
                Ok((c2, t2, s2)) => {
                    &&& distribute_voters(votes, votes.len() as int, c2, w, fee, pool, wt) == Ok::<
                        (Seq<Claim>, int),
                        Error,
                    >((c2, 0))
                    &&& distribute_bettors(bets, bets.len() as int, c2, 0, w, fee, pool, wt) matches Ok(
                        (c3, t3, s3),
                    ) && c3 == c2 && t3 == 0
                },
                Err(_) => true,
            },
            Err(_) => true,
        },
{
    let nv = votes.len() as int;
    let nb = bets.len() as int;
    if distribute_voters(votes, nv, c0, w, fee, pool, wt) is Ok {
        lemma_voters_grow_settle(votes, nv, c0, w, fee, pool, wt);
        let (c1, t1) = distribute_voters(votes, nv, c0, w, fee, pool, wt)->Ok_0;
        if distribute_bettors(bets, nb, c1, t1, w, fee, pool, wt) is Ok {
            lemma_bettors_grow_settle(bets, nb, c1, t1, w, fee, pool, wt);
            let c2 = distribute_bettors(bets, nb, c1, t1, w, fee, pool, wt)->Ok_0.0;
            assert(voters_settled(votes, nv, c2, w, fee, pool, wt)) by {
                assert forall|i: int|
                    0 <= i < nv && outcome_in(w, #[trigger] votes[i].outcome@) && votes[i].stake > 0
                        && !claimed_in(c2, votes[i].user) implies negative_payout(payout_of(
                    votes[i].stake as int,
                    fee,
                    pool,
                    wt,
                )) by {
                    if claimed_in(c1, votes[i].user) {
                        assert(claimed_in(c2, votes[i].user));
                    }
                }
            }
            lemma_settled_voters_pay_nothing(votes, nv, c2, w, fee, pool, wt);
            lemma_settled_bettors_pay_nothing(bets, nb, c2, w, fee, pool, wt);
        }
    }
}

// ===== WHAT A SWEEP SETTLES =====

/// The sum of the payouts of claims.
pub open spec fn claims_paid(c: Seq<Claim>) -> int
    decreases c.len(),
{
    if c.len() == 0 {
        0
    } else {
        claims_paid(c.drop_last()) + c.last().payout
    }
}

/// Whether claim `x` pays, at its payout, a voter among the first `n` who
/// staked a positive amount on a winning outcome.
pub open spec fn pays_winning_voter(
    x: Claim,
    votes: Seq<Vote>,
    n: int,
    w: Seq<String>,
    fee: int,
    pool: int,
    wt: int,
) -> bool {
    exists|i: int|
        0 <= i < n && (#[trigger] votes[i]).user == x.user && outcome_in(w, votes[i].outcome@)
            && votes[i].stake > 0 && payout_of(votes[i].stake as int, fee, pool, wt) == Ok::<
            int,
            Error,
        >(x.payout as int)
}

/// Whether claim `x` pays, at its payout, a bettor among the first `n` who
/// did not vote and bet a positive amount on a winning outcome.
pub open spec fn pays_winning_bettor(
    x: Claim,
    bets: Seq<Bet>,
    votes: Seq<Vote>,
    n: int,
    w: Seq<String>,
    fee: int,
    pool: int,
    wt: int,
) -> bool {
    exists|j: int|
        0 <= j < n && (#[trigger] bets[j]).user == x.user && !voted(votes, x.user) && outcome_in(
            w,
            bets[j].outcome@,
        ) && bets[j].amount > 0 && payout_of(bets[j].amount as int, fee, pool, wt) == Ok::<
            int,
            Error,
        >(x.payout as int)
}

proof fn lemma_claims_paid_push(c: Seq<Claim>, x: Claim)
    ensures
        claims_paid(c.push(x)) == claims_paid(c) + x.payout,
{
    assert(c.push(x).drop_last() =~= c);
}

proof fn lemma_sweep_voters_settle(
    votes: Seq<Vote>,
    n: int,
    c0: Seq<Claim>,
    w: Seq<String>,
    fee: int,
    pool: int,
    wt: int,
)
    requires
        0 <= n <= votes.len(),
    ensures
        sweep_voters(votes, n, c0, w, fee, pool, wt) matches Ok((c, t)) ==> {
            &&& adds_fresh_claims(c0, c)
            &&& t >= 0
            &&& t == claims_paid(c) - claims_paid(c0)
            &&& forall|i: int|
                0 <= i < n && outcome_in(w, (#[trigger] votes[i]).outcome@) && votes[i].stake > 0
                    ==> claimed_in(c, votes[i].user)
            &&& forall|k: int|
                c0.len() <= k < c.len() ==> pays_winning_voter(#[trigger] c[k], votes, n, w, fee, pool, wt)
        },
    decreases n,
{
    lemma_sweep_voters_fresh(votes, n, c0, w, fee, pool, wt);
    if n > 0 {
        lemma_sweep_voters_settle(votes, n - 1, c0, w, fee, pool, wt);
        let prev = sweep_voters(votes, n - 1, c0, w, fee, pool, wt);
        if prev is Ok && sweep_voters(votes, n, c0, w, fee, pool, wt) is Ok {
            let (cp, tp) = prev->Ok_0;
            let (c, t) = sweep_voters(votes, n, c0, w, fee, pool, wt)->Ok_0;
            let v = votes[n - 1];
            if outcome_in(w, v.outcome@) && !claimed_in(cp, v.user) && v.stake > 0 {
                let p = payout_of(v.stake as int, fee, pool, wt)->Ok_0;
                let x = Claim { user: v.user, payout: p as i128 };
                assert(c == cp.push(x));
                assert(x.payout as int == p);
                lemma_claims_paid_push(cp, x);
                lemma_claimed_push(cp, x, v.user);
                assert forall|i: int|
                    0 <= i < n && outcome_in(w, (#[trigger] votes[i]).outcome@) && votes[i].stake
                        > 0 implies claimed_in(c, votes[i].user) by {
                    lemma_claimed_push(cp, x, votes[i].user);
                }
                assert forall|k: int| c0.len() <= k < c.len() implies pays_winning_voter(
                    #[trigger] c[k],
                    votes,
                    n,
                    w,
                    fee,
                    pool,
                    wt,
                ) by {
                    if k < cp.len() {
                        assert(c[k] == cp[k]);
                        assert(pays_winning_voter(cp[k], votes, n - 1, w, fee, pool, wt));
                        let i = choose|i: int|
                            0 <= i < n - 1 && (#[trigger] votes[i]).user == cp[k].user && outcome_in(
                                w,
                                votes[i].outcome@,
                            ) && votes[i].stake > 0 && payout_of(votes[i].stake as int, fee, pool, wt)
                                == Ok::<int, Error>(cp[k].payout as int);
                        assert(votes[i].user == c[k].user);
                    } else {
                        assert(c[k] == x);
                        assert(votes[n - 1].user == c[k].user);
                    }
                }
            } else {
                assert(c == cp);
                assert forall|i: int|
                    0 <= i < n && outcome_in(w, (#[trigger] votes[i]).outcome@) && votes[i].stake
                        > 0 implies claimed_in(c, votes[i].user) by {
                    if i == n - 1 {
                        assert(claimed_in(cp, v.user));
                    }
                }
                assert forall|k: int| c0.len() <= k < c.len() implies pays_winning_voter(
                    #[trigger] c[k],
                    votes,
                    n,
                    w,
                    fee,
                    pool,
                    wt,
                ) by {
                    assert(pays_winning_voter(cp[k], votes, n - 1, w, fee, pool, wt));
                    let i = choose|i: int|
                        0 <= i < n - 1 && (#[trigger] votes[i]).user == cp[k].user && outcome_in(
                            w,
                            votes[i].outcome@,
                        ) && votes[i].stake > 0 && payout_of(votes[i].stake as int, fee, pool, wt)
                            == Ok::<int, Error>(cp[k].payout as int);
                    assert(votes[i].user == c[k].user);
                }
            }
        }
    }
}


proof fn lemma_sweep_bettors_settle(
    bets: Seq<Bet>,
    votes: Seq<Vote>,
    n: int,
    c0: Seq<Claim>,
    c1: Seq<Claim>,
    t1: int,
    w: Seq<String>,
    fee: int,
    pool: int,
    wt: int,
)
    requires
        0 <= n <= bets.len(),
        adds_fresh_claims(c0, c1),
        t1 >= 0,
        t1 == claims_paid(c1) - claims_paid(c0),
        forall|k: int|
            c0.len() <= k < c1.len() ==> pays_winning_voter(#[trigger] c1[k], votes, votes.len() as int, w, fee, pool, wt),
    ensures
        sweep_bettors(bets, votes, n, c1, t1, w, fee, pool, wt) matches Ok((c, t)) ==> {
            &&& adds_fresh_claims(c0, c)
            &&& t >= 0
            &&& t == claims_paid(c) - claims_paid(c0)
            &&& forall|u: AccountId| claimed_in(c1, u) ==> #[trigger] claimed_in(c, u)
            &&& forall|j: int|
                0 <= j < n && !voted(votes, (#[trigger] bets[j]).user) && outcome_in(w, bets[j].outcome@)
                    && bets[j].amount > 0 ==> claimed_in(c, bets[j].user)
            &&& forall|k: int|
                c0.len() <= k < c.len() ==> pays_winning_voter(#[trigger] c[k], votes, votes.len() as int, w, fee, pool, wt)
                    || pays_winning_bettor(c[k], bets, votes, n, w, fee, pool, wt)
        },
    decreases n,
{
    lemma_sweep_bettors_fresh(bets, votes, n, c0, c1, t1, w, fee, pool, wt);
    if n > 0 {
        lemma_sweep_bettors_settle(bets, votes, n - 1, c0, c1, t1, w, fee, pool, wt);
        let prev = sweep_bettors(bets, votes, n - 1, c1, t1, w, fee, pool, wt);
        if prev is Ok && sweep_bettors(bets, votes, n, c1, t1, w, fee, pool, wt) is Ok {
            let (cp, tp) = prev->Ok_0;
            let (c, t) = sweep_bettors(bets, votes, n, c1, t1, w, fee, pool, wt)->Ok_0;
            let b = bets[n - 1];
            if !voted(votes, b.user) && outcome_in(w, b.outcome@) && !claimed_in(cp, b.user) && b.amount > 0 {
                let p = payout_of(b.amount as int, fee, pool, wt)->Ok_0;
                let x = Claim { user: b.user, payout: p as i128 };
                assert(c == cp.push(x));
                assert(x.payout as int == p);
                lemma_claims_paid_push(cp, x);
                lemma_claimed_push(cp, x, b.user);
                assert forall|u: AccountId| claimed_in(c1, u) implies #[trigger] claimed_in(c, u) by {
                    assert(claimed_in(cp, u));
                    lemma_claimed_push(cp, x, u);
                }
                assert forall|j: int|
                    0 <= j < n && !voted(votes, (#[trigger] bets[j]).user) && outcome_in(w, bets[j].outcome@)
                        && bets[j].amount > 0 implies claimed_in(c, bets[j].user) by {
                    lemma_claimed_push(cp, x, bets[j].user);
                }
                assert forall|k: int| c0.len() <= k < c.len() implies pays_winning_voter(
                    #[trigger] c[k],
                    votes,
                    votes.len() as int,
                    w,
                    fee,
                    pool,
                    wt,
                ) || pays_winning_bettor(c[k], bets, votes, n, w, fee, pool, wt) by {
                    if k < cp.len() {
                        assert(c[k] == cp[k]);
                        if !pays_winning_voter(cp[k], votes, votes.len() as int, w, fee, pool, wt) {
                            assert(pays_winning_bettor(cp[k], bets, votes, n - 1, w, fee, pool, wt));
                            let j = choose|j: int|
                                0 <= j < n - 1 && (#[trigger] bets[j]).user == cp[k].user && !voted(
                                    votes,
                                    cp[k].user,
                                ) && outcome_in(w, bets[j].outcome@) && bets[j].amount > 0
                                    && payout_of(bets[j].amount as int, fee, pool, wt) == Ok::<int, Error>(
                                    cp[k].payout as int,
                                );
                            assert(bets[j].user == c[k].user);
                        }
                    } else {
                        assert(c[k] == x);
                        assert(bets[n - 1].user == c[k].user);
                    }
                }
            } else {
                assert(c == cp);
                assert forall|j: int|
                    0 <= j < n && !voted(votes, (#[trigger] bets[j]).user) && outcome_in(w, bets[j].outcome@)
                        && bets[j].amount > 0 implies claimed_in(c, bets[j].user) by {
                    if j == n - 1 {
                        assert(claimed_in(cp, b.user));
                    }
                }
                assert forall|k: int| c0.len() <= k < c.len() implies pays_winning_voter(
                    #[trigger] c[k],
                    votes,
                    votes.len() as int,
                    w,
                    fee,
                    pool,
                    wt,
                ) || pays_winning_bettor(c[k], bets, votes, n, w, fee, pool, wt) by {
                    if !pays_winning_voter(cp[k], votes, votes.len() as int, w, fee, pool, wt) {
                        assert(pays_winning_bettor(cp[k], bets, votes, n - 1, w, fee, pool, wt));
                        let j = choose|j: int|
                            0 <= j < n - 1 && (#[trigger] bets[j]).user == cp[k].user && !voted(
                                votes,
                                cp[k].user,
                            ) && outcome_in(w, bets[j].outcome@) && bets[j].amount > 0 && payout_of(
                                bets[j].amount as int,
                                fee,
                                pool,
                                wt,
                            ) == Ok::<int, Error>(cp[k].payout as int);
                        assert(bets[j].user == c[k].user);
                    }
                }
            }
        }
    }
}

/// What a sweep settles: after it succeeds, every voter who staked a
/// positive amount on a winning outcome, and every bettor who did not vote
/// and bet a positive amount on a winning outcome, holds a claim; the
/// earlier claims stay as the prefix; each added claim pays such a voter
/// or bettor exactly the payout formula's amount for their stake; and the
/// swept total is the sum of the added payouts, never negative.
pub proof fn lemma_sweep_settles_every_winner(
    votes: Seq<Vote>,
    bets: Seq<Bet>,
    c0: Seq<Claim>,
    w: Seq<String>,
    fee: int,
    pool: int,
    wt: int,
)
    ensures
        match sweep_voters(votes, votes.len() as int, c0, w, fee, pool, wt) {
            Ok((c1, t1)) => match sweep_bettors(bets, votes, bets.len() as int, c1, t1, w, fee, pool, wt) {
                Ok((c2, t2)) => {
                    &&& adds_fresh_claims(c0, c2)
                    &&& forall|i: int|
                        0 <= i < votes.len() && outcome_in(w, (#[trigger] votes[i]).outcome@)
                            && votes[i].stake > 0 ==> claimed_in(c2, votes[i].user)
                    &&& forall|j: int|
                        0 <= j < bets.len() && !voted(votes, (#[trigger] bets[j]).user) && outcome_in(
                            w,
                            bets[j].outcome@,
                        ) && bets[j].amount > 0 ==> claimed_in(c2, bets[j].user)
                    &&& forall|k: int|
                        c0.len() <= k < c2.len() ==> pays_winning_voter(
                            #[trigger] c2[k],
                            votes,
                            votes.len() as int,
                            w,
                            fee,
                            pool,
                            wt,
                        ) || pays_winning_bettor(c2[k], bets, votes, bets.len() as int, w, fee, pool, wt)
                    &&& t2 >= 0
                    &&& t2 == claims_paid(c2) - claims_paid(c0)
                },
                Err(_) => true,
            },
            Err(_) => true,
        },
{
    lemma_sweep_voters_settle(votes, votes.len() as int, c0, w, fee, pool, wt);
    if sweep_voters(votes, votes.len() as int, c0, w, fee, pool, wt) is Ok {
        let (c1, t1) = sweep_voters(votes, votes.len() as int, c0, w, fee, pool, wt)->Ok_0;
        lemma_sweep_bettors_settle(bets, votes, bets.len() as int, c0, c1, t1, w, fee, pool, wt);
        if sweep_bettors(bets, votes, bets.len() as int, c1, t1, w, fee, pool, wt) is Ok {
            let c2 = sweep_bettors(bets, votes, bets.len() as int, c1, t1, w, fee, pool, wt)->Ok_0.0;
            assert forall|i: int|
                0 <= i < votes.len() && outcome_in(w, (#[trigger] votes[i]).outcome@) && votes[i].stake
                    > 0 implies claimed_in(c2, votes[i].user) by {
                assert(claimed_in(c1, votes[i].user));
            }
        }
    }
}


/// What a distribution settles: after it succeeds, every voter who staked
/// a positive amount on a winning outcome holds a claim unless the payout
/// formula gives them a negative amount, and every bettor who bet a
/// positive amount on a winning outcome holds a claim unless it gives them
/// nothing; the earlier claims stay as the prefix.
pub proof fn lemma_distribution_settles_every_winner(
    votes: Seq<Vote>,
    bets: Seq<Bet>,
    c0: Seq<Claim>,
    w: Seq<String>,
    fee: int,
    pool: int,
    wt: int,
)
    ensures
        match distribute_voters(votes, votes.len() as int, c0, w, fee, pool, wt) {
            Ok((c1, t1)) => match distribute_bettors(bets, bets.len() as int, c1, t1, w, fee, pool, wt) {
                Ok((c2, t2, s2)) => {
                    &&& adds_fresh_claims(c0, c2)
                    &&& forall|i: int|
                        0 <= i < votes.len() && outcome_in(w, (#[trigger] votes[i]).outcome@)
                            && votes[i].stake > 0 && !claimed_in(c2, votes[i].user) ==> negative_payout(payout_of(votes[i].stake as int, fee, pool, wt))
                    &&& forall|j: int|
                        0 <= j < bets.len() && outcome_in(w, (#[trigger] bets[j]).outcome@)
                            && bets[j].amount > 0 && !claimed_in(c2, bets[j].user) ==> nonpositive_payout(payout_of(bets[j].amount as int, fee, pool, wt))
                },
                Err(_) => true,
            },
            Err(_) => true,
        },
{
    let nv = votes.len() as int;
    let nb = bets.len() as int;
    lemma_distribution_pays_once(votes, bets, c0, w, fee, pool, wt);
    if distribute_voters(votes, nv, c0, w, fee, pool, wt) is Ok {
        lemma_voters_grow_settle(votes, nv, c0, w, fee, pool, wt);
        let (c1, t1) = distribute_voters(votes, nv, c0, w, fee, pool, wt)->Ok_0;
        if distribute_bettors(bets, nb, c1, t1, w, fee, pool, wt) is Ok {
            lemma_bettors_grow_settle(bets, nb, c1, t1, w, fee, pool, wt);
            let c2 = distribute_bettors(bets, nb, c1, t1, w, fee, pool, wt)->Ok_0.0;
            assert forall|i: int|
                0 <= i < nv && outcome_in(w, (#[trigger] votes[i]).outcome@) && votes[i].stake > 0
                    && !claimed_in(c2, votes[i].user) implies negative_payout(payout_of(votes[i].stake as int, fee, pool, wt)) by {
                if claimed_in(c1, votes[i].user) {
                    assert(claimed_in(c2, votes[i].user));
                }
                assert(negative_payout(payout_of(votes[i].stake as int, fee, pool, wt)));
            }
            assert forall|j: int|
                0 <= j < nb && outcome_in(w, (#[trigger] bets[j]).outcome@) && bets[j].amount > 0
                    && !claimed_in(c2, bets[j].user) implies nonpositive_payout(payout_of(bets[j].amount as int, fee, pool, wt)) by {
                assert(nonpositive_payout(payout_of(bets[j].amount as int, fee, pool, wt)));
            }
        }
    }
}


/// The payout formula on non-negative inputs: the stake net of a fee of
/// `fee` basis points, rounded down to whole stroops, times the pool,
/// divided by the winning total and rounded down; never negative and never
/// more than the stake's share of the pool.
pub proof fn lemma_payout_formula(stake: int, fee: int, pool: int, wt: int)
    requires
        stake >= 0,
        0 <= fee <= 10_000,
        pool >= 0,
        wt > 0,
        stake * (10_000 - fee) <= i128::MAX,
        stake * (10_000 - fee) / 10_000 * pool <= i128::MAX,
    ensures
        payout_of(stake, fee, pool, wt) == Ok::<int, Error>(
            stake * (10_000 - fee) / 10_000 * pool / wt,
        ),
        0 <= stake * (10_000 - fee) / 10_000 * pool / wt,
        stake * (10_000 - fee) / 10_000 * pool / wt * wt <= stake * pool,
{
    let scaled = stake * (10_000 - fee);
    assert(scaled >= 0) by (nonlinear_arith)
        requires
            stake >= 0,
            fee <= 10_000,
            scaled == stake * (10_000 - fee),
    ;
    let share = scaled / 10_000;
    assert(0 <= share <= stake) by (nonlinear_arith)
        requires
            0 <= scaled,
            scaled == stake * (10_000 - fee),
            stake >= 0,
            fee >= 0,
            share == scaled / 10_000,
    ;
    let prod = share * pool;
    assert(0 <= prod <= stake * pool) by (nonlinear_arith)
        requires
            0 <= share <= stake,
            pool >= 0,
            prod == share * pool,
    ;
    assert(0 <= prod / wt && prod / wt * wt <= prod) by (nonlinear_arith)
        requires
            prod >= 0,
            wt > 0,
    ;
}

/// What a claim gives, by who claims: a first claim on a resolved market
/// past its dispute window pays a voter of a winning outcome the payout
/// formula's amount with the rest of the gross share as the fee, settles a
/// voter of a losing outcome with nothing, and refuses someone without a
/// vote; a market not yet resolved refuses every claim.
pub proof fn lemma_claim_by_voter(
    market: Market,
    user: AccountId,
    now: u64,
    fee: int,
    summary: ResolutionSummary,
)
    ensures
        !claimed_in(market.claimed@, user) && market.winning_outcomes is None ==> claim_result(
            &market,
            user,
            now,
            fee,
            summary,
        ) == Err::<(int, int), Error>(Error::MarketNotResolved),
        !claimed_in(market.claimed@, user) && market.winning_outcomes is Some && (
        market.dispute_window_seconds == 0 || now >= market.end_time + market.dispute_window_seconds)
            ==> match vote_of(market.votes@, user) {
            None => claim_result(&market, user, now, fee, summary) == Err::<(int, int), Error>(
                Error::NothingToClaim,
            ),
            Some(v) => if outcome_in(market.winning_outcomes->Some_0@, v.outcome@)
                && summary.winning_total > 0 {
                (payout_of(v.stake as int, fee, summary.total_pool as int, summary.winning_total as int) matches Ok(p)
                    && gross_payout_of(v.stake as int, summary.total_pool as int, summary.winning_total as int) matches Ok(g)
                    && i128::MIN <= g - p <= i128::MAX) ==> claim_result(&market, user, now, fee, summary)
                    == Ok::<(int, int), Error>(
                    (
                        payout_of(v.stake as int, fee, summary.total_pool as int, summary.winning_total as int)->Ok_0,
                        gross_payout_of(v.stake as int, summary.total_pool as int, summary.winning_total as int)->Ok_0
                            - payout_of(v.stake as int, fee, summary.total_pool as int, summary.winning_total as int)->Ok_0,
                    ),
                )
            } else {
                claim_result(&market, user, now, fee, summary) == Ok::<(int, int), Error>((0, 0))
            },
        },
{
}
} // verus!
