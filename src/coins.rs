//! Multi-denomination coin bags: exact addition and lossless percentage splits.

use vstd::arithmetic::div_mod::lemma_fundamental_div_mod_converse;
use vstd::prelude::*;

use crate::deep_eq::DeepEq;

verus! {

/// The number of atomic units in one whole `Decimal`.
pub const DECIMAL_FRACTIONAL: u128 = 1_000_000_000_000_000_000;

/// The number of atomic units in one percent.
pub const PERCENT_ATOMICS: u128 = 10_000_000_000_000_000;

/// What a coin is: a denomination and an unbounded amount.
pub struct CoinModel {
    pub denom: Seq<char>,
    pub amount: nat,
}

/// An amount of one denomination.
#[derive(Debug, Clone)]
pub struct Coin {
    pub denom: String,
    pub amount: u128,
}

impl View for Coin {
    type V = CoinModel;

    open spec fn view(&self) -> CoinModel {
        CoinModel { denom: self.denom@, amount: self.amount as nat }
    }
}

impl DeepView for Coin {
    type V = CoinModel;

    open spec fn deep_view(&self) -> CoinModel {
        self@
    }
}

impl PartialEq for Coin {
    fn eq(&self, other: &Coin) -> (r: bool) {
        self.denom == other.denom && self.amount == other.amount
    }
}

impl vstd::std_specs::cmp::PartialEqSpecImpl for Coin {
    open spec fn obeys_eq_spec() -> bool {
        true
    }

    open spec fn eq_spec(&self, other: &Coin) -> bool {
        self@ == other@
    }
}

impl Eq for Coin {}

impl DeepEq for Coin {
    fn deep_eq(&self, other: &Coin) -> (r: bool) {
        self.denom == other.denom && self.amount == other.amount
    }
}

/// Builds a coin of `amount` units of `denom`.
pub fn coin(amount: u128, denom: &str) -> (r: Coin)
    ensures
        r@ == (CoinModel { denom: denom@, amount: amount as nat }),
{
    Coin { denom: denom.to_owned(), amount }
}

/// Builds a one-coin bag.
pub fn coins(amount: u128, denom: &str) -> (r: Vec<Coin>)
    ensures
        r.deep_view() == seq![CoinModel { denom: denom@, amount: amount as nat }],
{
    let mut v: Vec<Coin> = Vec::new();
    v.push(coin(amount, denom));
    assert(v.deep_view() =~= seq![CoinModel { denom: denom@, amount: amount as nat }]);
    v
}

/// A fixed-point number with eighteen fractional digits, held as its count
/// of atomic units (`atomics / 10^18`).
#[derive(Debug, Clone, Copy, PartialEq, Eq, Structural)]
pub struct Decimal {
    pub atomics: u128,
}

impl Decimal {
    /// `x` percent.
    pub fn percent(x: u64) -> (r: Decimal)
        ensures
            r.atomics == x * PERCENT_ATOMICS,
    {
        proof {
            assert(x * PERCENT_ATOMICS <= u64::MAX * PERCENT_ATOMICS) by (nonlinear_arith)
                requires x <= u64::MAX;
        }
        Decimal { atomics: (x as u128) * PERCENT_ATOMICS }
    }

    /// The decimal whose count of atomic units is `atomics`.
    pub fn raw(atomics: u128) -> (r: Decimal)
        ensures
            r.atomics == atomics,
    {
        Decimal { atomics }
    }

    /// Zero.
    pub fn zero() -> (r: Decimal)
        ensures
            r.atomics == 0,
    {
        Decimal { atomics: 0 }
    }

    /// One, that is one hundred percent.
    pub fn one() -> (r: Decimal)
        ensures
            r.atomics == DECIMAL_FRACTIONAL,
    {
        Decimal { atomics: DECIMAL_FRACTIONAL }
    }

    /// True when the value lies in `[0, 1]`.
    pub open spec fn is_fraction(self) -> bool {
        self.atomics <= DECIMAL_FRACTIONAL
    }

    /// The smaller of two decimals.
    pub fn min(self, other: Decimal) -> (r: Decimal)
        ensures
            r.atomics == if self.atomics <= other.atomics { self.atomics } else { other.atomics },
    {
        if self.atomics <= other.atomics {
            self
        } else {
            other
        }
    }
}

/// `amount * pct`, rounded down.
pub open spec fn floor_share(amount: nat, pct: Decimal) -> nat {
    (amount * pct.atomics as nat) / (DECIMAL_FRACTIONAL as nat)
}

/// Taking a fraction of an amount never yields more than the amount.
pub proof fn lemma_floor_share_le(amount: nat, pct: Decimal)
    requires
        pct.is_fraction(),
    ensures
        floor_share(amount, pct) <= amount,
{
    let f = DECIMAL_FRACTIONAL as int;
    let t = (amount * pct.atomics as nat) as int;
    let q = t / f;
    assert(q * f <= t) by (nonlinear_arith)
        requires f > 0, q == t / f, t >= 0;
    assert(t <= amount * f) by (nonlinear_arith)
        requires t == amount * pct.atomics, pct.atomics <= f, amount >= 0;
    assert(q <= amount) by (nonlinear_arith)
        requires q * f <= amount * f, f > 0;
}

/// Multiplies an amount by a fraction and rounds down, without an
/// intermediate that could overflow.
pub fn mul_floor(amount: u128, pct: Decimal) -> (r: u128)
    requires
        pct.is_fraction(),
    ensures
        r as nat == floor_share(amount as nat, pct),
        r <= amount,
{
    let f = DECIMAL_FRACTIONAL;
    let p = pct.atomics;
    let q = amount / f;
    let rem = amount % f;
    proof {
        let qi = q as int;
        let ri = rem as int;
        let pi = p as int;
        let fi = f as int;
        assert(amount as int == qi * fi + ri);
        assert(ri * pi < fi * fi) by (nonlinear_arith)
            requires 0 <= ri < fi, 0 <= pi <= fi;
        assert(qi * pi <= qi * fi) by (nonlinear_arith)
            requires 0 <= qi, 0 <= pi <= fi;
        let t = ri * pi;
        let tq = t / fi;
        let tr = t % fi;
        assert(t == tq * fi + tr && 0 <= tr < fi);
        assert((amount as int) * pi == (qi * pi + tq) * fi + tr) by (nonlinear_arith)
            requires amount as int == qi * fi + ri, t == ri * pi, t == tq * fi + tr;
        lemma_fundamental_div_mod_converse((amount as int) * pi, fi, qi * pi + tq, tr);
        assert(tq <= ri) by (nonlinear_arith)
            requires t == ri * pi, tq == t / fi, 0 <= pi <= fi, 0 <= ri, fi > 0, t == tq * fi + tr, 0 <= tr;
        assert(qi * pi + tq <= amount as int) by (nonlinear_arith)
            requires qi * pi <= qi * fi, tq <= ri, amount as int == qi * fi + ri;
    }
    q * p + (rem * p) / f
}


/// The part of a coin that a fraction `pct` takes.
pub open spec fn share_of(c: CoinModel, pct: Decimal) -> CoinModel {
    CoinModel { denom: c.denom, amount: floor_share(c.amount, pct) }
}

/// What is left of a coin once its share under `pct` is taken.
pub open spec fn remainder_of(c: CoinModel, pct: Decimal) -> CoinModel {
    CoinModel { denom: c.denom, amount: (c.amount - floor_share(c.amount, pct)) as nat }
}

/// Splits each coin into the part that `percentage` takes, rounded down, and
/// the rest; every denomination appears in both halves, zero amounts included.
pub fn partition_coins_by_percentage(percentage: Decimal, coins: Vec<Coin>) -> (r: (
    Vec<Coin>,
    Vec<Coin>,
))
    requires
        percentage.is_fraction(),
    ensures
        r.0.deep_view() == coins.deep_view().map_values(|c: CoinModel| share_of(c, percentage)),
        r.1.deep_view() == coins.deep_view().map_values(
            |c: CoinModel| remainder_of(c, percentage),
        ),
        r.0.len() == coins.len() && r.1.len() == coins.len(),
        forall|i: int|
            0 <= i < coins.len() ==> {
                &&& (#[trigger] r.0.deep_view()[i]).denom == coins.deep_view()[i].denom
                &&& r.1.deep_view()[i].denom == coins.deep_view()[i].denom
                &&& r.0.deep_view()[i].amount + r.1.deep_view()[i].amount
                    == coins.deep_view()[i].amount
            },
{
    let mut percentage_coins: Vec<Coin> = Vec::new();
    let mut remaining_coins: Vec<Coin> = Vec::new();
    let mut i: usize = 0;
    while i < coins.len()
        invariant
            i <= coins.len(),
            percentage.is_fraction(),
            percentage_coins.deep_view() == coins.deep_view().take(i as int).map_values(
                |c: CoinModel| share_of(c, percentage),
            ),
            remaining_coins.deep_view() == coins.deep_view().take(i as int).map_values(
                |c: CoinModel| remainder_of(c, percentage),
            ),
        decreases coins.len() - i,
    {
        let amount = coins[i].amount;
        let amount_to_send = mul_floor(amount, percentage);
        let amount_to_remain = amount - amount_to_send;
        let ghost before_send = percentage_coins.deep_view();
        let ghost before_remain = remaining_coins.deep_view();
        percentage_coins.push(Coin { denom: coins[i].denom.clone(), amount: amount_to_send });
        remaining_coins.push(Coin { denom: coins[i].denom.clone(), amount: amount_to_remain });
        assert(percentage_coins.deep_view() =~= before_send.push(
            share_of(coins.deep_view()[i as int], percentage),
        ));
        assert(remaining_coins.deep_view() =~= before_remain.push(
            remainder_of(coins.deep_view()[i as int], percentage),
        ));
        assert(coins.deep_view().take(i as int + 1) =~= coins.deep_view().take(i as int).push(
            coins.deep_view()[i as int],
        ));
        i = i + 1;
        assert(percentage_coins.deep_view() =~= coins.deep_view().take(i as int).map_values(
            |c: CoinModel| share_of(c, percentage),
        ));
        assert(remaining_coins.deep_view() =~= coins.deep_view().take(i as int).map_values(
            |c: CoinModel| remainder_of(c, percentage),
        ));
    }
    assert(coins.deep_view().take(coins.len() as int) =~= coins.deep_view());
    assert forall|i: int| 0 <= i < coins.len() implies {
        &&& (#[trigger] percentage_coins.deep_view()[i]).denom == coins.deep_view()[i].denom
        &&& remaining_coins.deep_view()[i].denom == coins.deep_view()[i].denom
        &&& percentage_coins.deep_view()[i].amount + remaining_coins.deep_view()[i].amount
            == coins.deep_view()[i].amount
    } by {
        lemma_floor_share_le(coins.deep_view()[i].amount, percentage);
    }
    (percentage_coins, remaining_coins)
}

/// The coins of `s` whose amount is not zero, in order.
pub open spec fn nonzero_coins(s: Seq<CoinModel>) -> Seq<CoinModel> {
    s.filter(|c: CoinModel| c.amount != 0)
}

/// Drops the coins whose amount is zero, keeping the order of the rest.
pub fn filter_empty_coins(coins: Vec<Coin>) -> (r: Vec<Coin>)
    ensures
        r.deep_view() == nonzero_coins(coins.deep_view()),
{
    let mut kept: Vec<Coin> = Vec::new();
    let mut i: usize = 0;
    while i < coins.len()
        invariant
            i <= coins.len(),
            kept.deep_view() == coins.deep_view().take(i as int).filter(
                |c: CoinModel| c.amount != 0,
            ),
        decreases coins.len() - i,
    {
        let ghost next = coins.deep_view().take(i as int + 1);
        assert(next.drop_last() =~= coins.deep_view().take(i as int));
        assert(next.last() == coins.deep_view()[i as int]);
        proof {
            reveal(Seq::filter);
        }
        let ghost before = kept.deep_view();
        if coins[i].amount != 0 {
            kept.push(Coin { denom: coins[i].denom.clone(), amount: coins[i].amount });
            assert(kept.deep_view() =~= before.push(coins.deep_view()[i as int]));
        }
        i = i + 1;
        assert(kept.deep_view() == next.filter(|c: CoinModel| c.amount != 0));
    }
    assert(coins.deep_view().take(coins.len() as int) =~= coins.deep_view());
    kept
}

/// The amounts that each side of a reward split receives.
#[derive(Debug, Clone)]
pub struct SimulateExecuteResponse {
    /// What the granter (the delegator) keeps.
    pub delegator_rewards: Vec<Coin>,
    /// What the fee (taxation) address receives.
    pub taxation_address_rewards: Vec<Coin>,
}

/// The fraction actually taken: the requested one, capped at the maximum, or
/// the maximum when nothing was requested.
pub open spec fn effective_percentage(max_percentage: Decimal, requested: Option<Decimal>) -> Decimal {
    match requested {
        Some(p) => if p.atomics <= max_percentage.atomics { p } else { max_percentage },
        None => max_percentage,
    }
}

/// The fraction taken never exceeds the maximum: without a request it is the
/// maximum, and a request is honoured up to the maximum.
pub proof fn lemma_effective_percentage(max_percentage: Decimal, requested: Option<Decimal>)
    ensures
        effective_percentage(max_percentage, requested).atomics <= max_percentage.atomics,
        requested is None ==> effective_percentage(max_percentage, requested) == max_percentage,
        forall|p: Decimal|
            requested == Some(p) && p.atomics <= max_percentage.atomics ==> effective_percentage(
                max_percentage,
                requested,
            ) == p,
        forall|p: Decimal|
            requested == Some(p) && p.atomics > max_percentage.atomics ==> effective_percentage(
                max_percentage,
                requested,
            ) == max_percentage,
{
}

/// Splits a pool of rewards between the fee address and the granter.
pub fn split_rewards(
    total_rewards: Vec<Coin>,
    max_percentage: Decimal,
    requested_percentage: &Option<Decimal>,
) -> (r: SimulateExecuteResponse)
    requires
        effective_percentage(max_percentage, *requested_percentage).is_fraction(),
    ensures
        r.taxation_address_rewards.deep_view() == total_rewards.deep_view().map_values(
            |c: CoinModel| share_of(c, effective_percentage(max_percentage, *requested_percentage)),
        ),
        r.delegator_rewards.deep_view() == total_rewards.deep_view().map_values(
            |c: CoinModel|
                remainder_of(c, effective_percentage(max_percentage, *requested_percentage)),
        ),
{
    let requested = match requested_percentage {
        Some(p) => *p,
        None => max_percentage,
    };
    let percentage_to_send = requested.min(max_percentage);
    let (withdraw_address_rewards, delegator_rewards) = partition_coins_by_percentage(
        percentage_to_send,
        total_rewards,
    );
    SimulateExecuteResponse {
        delegator_rewards,
        taxation_address_rewards: withdraw_address_rewards,
    }
}


/// `i` is the first position of `denom` in `acc`.
pub open spec fn first_denom_at(acc: Seq<CoinModel>, denom: Seq<char>, i: int) -> bool {
    &&& 0 <= i < acc.len()
    &&& acc[i].denom == denom
    &&& forall|k: int| 0 <= k < i ==> acc[k].denom != denom
}

/// Adds one coin to a bag: onto the first coin of its denomination, or at the
/// end when the bag has none.
pub open spec fn add_coin(acc: Seq<CoinModel>, y: CoinModel) -> Seq<CoinModel> {
    if exists|i: int| 0 <= i < acc.len() && acc[i].denom == y.denom {
        let i = choose|i: int| first_denom_at(acc, y.denom, i);
        acc.update(i, CoinModel { denom: acc[i].denom, amount: acc[i].amount + y.amount })
    } else {
        acc.push(y)
    }
}

/// The bag `xs` with the coins of `ys` added one by one, in order.
pub open spec fn sum_coins_spec(xs: Seq<CoinModel>, ys: Seq<CoinModel>) -> Seq<CoinModel>
    decreases ys.len(),
{
    if ys.len() == 0 {
        xs
    } else {
        add_coin(sum_coins_spec(xs, ys.drop_last()), ys.last())
    }
}

/// Every amount in the bag fits in a `u128`.
pub open spec fn amounts_fit(s: Seq<CoinModel>) -> bool {
    forall|i: int| 0 <= i < s.len() ==> #[trigger] s[i].amount <= u128::MAX
}

/// `b` extends `a`, and no amount of `a` is larger than its counterpart in `b`.
pub open spec fn dominated(a: Seq<CoinModel>, b: Seq<CoinModel>) -> bool {
    &&& a.len() <= b.len()
    &&& forall|i: int| 0 <= i < a.len() ==> #[trigger] a[i].amount <= b[i].amount
}

proof fn lemma_add_coin_dominates(acc: Seq<CoinModel>, y: CoinModel)
    ensures
        dominated(acc, add_coin(acc, y)),
{
    if exists|i: int| 0 <= i < acc.len() && acc[i].denom == y.denom {
        lemma_first_denom_exists(acc, y.denom);
    }
}

proof fn lemma_first_denom_exists(acc: Seq<CoinModel>, denom: Seq<char>)
    requires
        exists|i: int| 0 <= i < acc.len() && acc[i].denom == denom,
    ensures
        exists|i: int| first_denom_at(acc, denom, i),
    decreases acc.len(),
{
    if acc[0].denom == denom {
        assert(first_denom_at(acc, denom, 0));
    } else {
        let j = choose|i: int| 0 <= i < acc.len() && acc[i].denom == denom;
        let rest = acc.drop_first();
        assert(rest[j - 1].denom == denom);
        lemma_first_denom_exists(rest, denom);
        let k = choose|i: int| first_denom_at(rest, denom, i);
        assert forall|m: int| 0 <= m < k + 1 implies acc[m].denom != denom by {
            if m > 0 {
                assert(acc[m] == rest[m - 1]);
            }
        }
        assert(first_denom_at(acc, denom, k + 1));
    }
}

proof fn lemma_sum_prefix_dominated(xs: Seq<CoinModel>, ys: Seq<CoinModel>, k: int)
    requires
        0 <= k <= ys.len(),
    ensures
        dominated(sum_coins_spec(xs, ys.take(k)), sum_coins_spec(xs, ys)),
    decreases ys.len(),
{
    if k == ys.len() {
        assert(ys.take(k) =~= ys);
    } else {
        let shorter = ys.drop_last();
        assert(shorter.take(k) =~= ys.take(k));
        lemma_sum_prefix_dominated(xs, shorter, k);
        lemma_add_coin_dominates(sum_coins_spec(xs, shorter), ys.last());
    }
}

/// Combines two coin bags like `sum_coins`, or returns `None` when an amount
/// of the result would not fit in a `u128`.
pub fn checked_sum_coins(xs: Vec<Coin>, ys: Vec<Coin>) -> (r: Option<Vec<Coin>>)
    ensures
        match r {
            Some(v) => amounts_fit(sum_coins_spec(xs.deep_view(), ys.deep_view())) && v.deep_view()
                == sum_coins_spec(xs.deep_view(), ys.deep_view()),
            None => !amounts_fit(sum_coins_spec(xs.deep_view(), ys.deep_view())),
        },
{
    let ghost target = sum_coins_spec(xs.deep_view(), ys.deep_view());
    let ghost start = xs.deep_view();
    let mut coins = xs;
    let mut k: usize = 0;
    assert(ys.deep_view().take(0) =~= Seq::<CoinModel>::empty());
    while k < ys.len()
        invariant
            k <= ys.len(),
            start == xs.deep_view(),
            target == sum_coins_spec(start, ys.deep_view()),
            coins.deep_view() == sum_coins_spec(start, ys.deep_view().take(k as int)),
        decreases ys.len() - k,
    {
        let ghost acc = coins.deep_view();
        let ghost next = ys.deep_view().take(k as int + 1);
        let ghost y = ys.deep_view()[k as int];
        assert(next.drop_last() =~= ys.deep_view().take(k as int));
        assert(next.last() == y);
        proof {
            lemma_sum_prefix_dominated(start, ys.deep_view(), k as int + 1);
        }
        let mut j: usize = 0;
        let mut found = false;
        while !found && j < coins.len()
            invariant
                j <= coins.len(),
                coins.deep_view() == acc,
                y == ys.deep_view()[k as int],
                k < ys.len(),
                found ==> j < coins.len() && first_denom_at(acc, y.denom, j as int),
                forall|m: int| 0 <= m < j ==> acc[m].denom != y.denom,
            decreases coins.len() - j + if found { 0int } else { 1int },
        {
            assert(coins.deep_view()[j as int] == coins@[j as int].deep_view());
            if coins[j].denom == ys[k].denom {
                found = true;
            } else {
                j = j + 1;
            }
        }
        if found {
            proof {
                assert forall|i: int| first_denom_at(acc, y.denom, i) implies i == j by {
                    if i < j {
                    } else if i > j {
                    }
                }
                assert(add_coin(acc, y) == acc.update(
                    j as int,
                    CoinModel { denom: acc[j as int].denom, amount: acc[j as int].amount + y.amount },
                ));
                assert(add_coin(acc, y)[j as int].amount <= target[j as int].amount);
            }
            match coins[j].amount.checked_add(ys[k].amount) {
                Some(amount) => {
                    let denom = coins[j].denom.clone();
                    coins.set(j, Coin { denom, amount });
                    assert(coins.deep_view() =~= add_coin(acc, y));
                },
                None => {
                    assert(target[j as int].amount > u128::MAX);
                    assert(!amounts_fit(target));
                    return None;
                },
            }
        } else {
            assert(!(exists|i: int| 0 <= i < acc.len() && acc[i].denom == y.denom));
            coins.push(Coin { denom: ys[k].denom.clone(), amount: ys[k].amount });
            assert(coins.deep_view() =~= acc.push(y));
        }
        k = k + 1;
    }
    assert(ys.deep_view().take(ys.len() as int) =~= ys.deep_view());
    assert forall|i: int| 0 <= i < coins.deep_view().len() implies #[trigger] coins.deep_view()[i].amount <= u128::MAX by {
        assert(coins.deep_view()[i] == coins@[i].deep_view());
    }
    Some(coins)
}

/// Combines two coin bags: each coin of `ys` is added onto the first coin of
/// `xs` with its denomination, or appended when there is none; the order of
/// `xs` is kept and new denominations follow in the order of `ys`.
pub fn sum_coins(xs: Vec<Coin>, ys: Vec<Coin>) -> (r: Vec<Coin>)
    requires
        amounts_fit(sum_coins_spec(xs.deep_view(), ys.deep_view())),
    ensures
        r.deep_view() == sum_coins_spec(xs.deep_view(), ys.deep_view()),
{
    match checked_sum_coins(xs, ys) {
        Some(v) => v,
        None => {
            assert(false);
            Vec::new()
        },
    }
}

/// `b` dominates `a`, which dominates `c`: so `b` dominates `c`.
pub proof fn lemma_dominated_trans(a: Seq<CoinModel>, b: Seq<CoinModel>, c: Seq<CoinModel>)
    requires
        dominated(c, a),
        dominated(a, b),
    ensures
        dominated(c, b),
{
    assert forall|i: int| 0 <= i < c.len() implies #[trigger] c[i].amount <= b[i].amount by {
        assert(c[i].amount <= a[i].amount);
    }
}

/// Adding coins never lowers an amount or drops a coin.
pub proof fn lemma_sum_dominates(xs: Seq<CoinModel>, ys: Seq<CoinModel>)
    ensures
        dominated(xs, sum_coins_spec(xs, ys)),
{
    lemma_sum_prefix_dominated(xs, ys, 0);
    assert(ys.take(0) =~= Seq::<CoinModel>::empty());
}

} // verus!
