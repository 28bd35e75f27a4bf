//! Relay fees and refunds: the integer wei arithmetic behind the fee
//! estimate, the maximum refund, and the short-lived per-anchor fee cache
//! that backs the withdrawal admission rule.
//!
//! Dollar amounts are carried in micro-dollars and token amounts in wei, so
//! every rule is exact integer arithmetic.

use vstd::prelude::*;

use crate::bytes::bytes_equal;
use crate::lookup::{lemma_find_at, lemma_find_none, spec_find};
use crate::RelayerError;

verus! {

/// Wei per whole token unit.
pub const WEI_PER_UNIT: u128 = 1_000_000_000_000_000_000;

/// Maximum refund per relay transaction, in micro-dollars.
pub const MAX_REFUND_MICRO_USD: u64 = 1_000_000;

/// The relay's profit per transaction, in micro-dollars.
pub const TRANSACTION_PROFIT_MICRO_USD: u64 = 5_000_000;

/// How long a cached fee quote stays valid, in milliseconds.
pub const FEE_CACHE_TIME_MS: u64 = 60_000;

/// One fee quote for an anchor: what a relay transaction is estimated to
/// cost, the gas price behind it, the wrapped-to-native exchange rate and
/// the refund ceiling, stamped with its creation time.
#[derive(Clone, Copy, Debug, PartialEq, Eq, Structural)]
pub struct FeeInfo {
    /// Estimated fee of an average relay transaction, in wei of the
    /// wrapped token.
    pub estimated_fee: u128,
    /// Gas price used for the estimate, in wei of the native token.
    pub gas_price: u128,
    /// Wei of the wrapped token per whole native token; must be nonzero
    /// before any refund is granted.
    pub refund_exchange_rate: u128,
    /// Most wei of the wrapped token a refund may claim.
    pub max_refund: u128,
    /// When this quote was made, in milliseconds.
    pub timestamp_ms: u64,
}

/// The transaction fee in wei: gas cost plus the relay's profit converted
/// at the base token's price. `None` on a zero price or arithmetic
/// overflow.
pub open spec fn spec_transaction_fee(
    gas_price: u128,
    gas_amount: u128,
    base_price_micro_usd: u64,
) -> Option<u128> {
    if base_price_micro_usd == 0 {
        None
    } else {
        let profit = TRANSACTION_PROFIT_MICRO_USD * WEI_PER_UNIT / (base_price_micro_usd as int);
        let gas_cost = gas_price * gas_amount;
        if profit + gas_cost > u128::MAX {
            None
        } else {
            Some((profit + gas_cost) as u128)
        }
    }
}

/// Computes the transaction fee with the relay's profit folded in; rejects
/// a zero token price and overflowing amounts.
pub fn calculate_transaction_fee(
    gas_price: u128,
    gas_amount: u128,
    base_price_micro_usd: u64,
) -> (r: Result<u128, RelayerError>)
    ensures
        match r {
            Result::Ok(fee) => Some(fee) == spec_transaction_fee(
                gas_price,
                gas_amount,
                base_price_micro_usd,
            ),
            Result::Err(e) => spec_transaction_fee(gas_price, gas_amount, base_price_micro_usd)
                is None && e == RelayerError::Config,
        },
{
    if base_price_micro_usd == 0 {
        return Result::Err(RelayerError::Config);
    }
    let profit: u128 = TRANSACTION_PROFIT_MICRO_USD as u128 * WEI_PER_UNIT
        / base_price_micro_usd as u128;
    proof {
        assert(TRANSACTION_PROFIT_MICRO_USD as u128 * WEI_PER_UNIT
            == 5_000_000_000_000_000_000_000_000u128) by (nonlinear_arith);
    }
    let gas_cost = match gas_price.checked_mul(gas_amount) {
        Option::Some(c) => c,
        Option::None => {
            return Result::Err(RelayerError::Config);
        },
    };
    match profit.checked_add(gas_cost) {
        Option::Some(total) => Result::Ok(total),
        Option::None => Result::Err(RelayerError::Config),
    }
}

/// The refund ceiling in wei of the wrapped token, from its price. `None`
/// on a zero price.
pub open spec fn spec_max_refund(wrapped_price_micro_usd: u64) -> Option<u128> {
    if wrapped_price_micro_usd == 0 {
        None
    } else {
        Some((MAX_REFUND_MICRO_USD * WEI_PER_UNIT / (wrapped_price_micro_usd as int)) as u128)
    }
}

/// Computes the refund ceiling from the wrapped token's price; rejects a
/// zero price.
pub fn max_refund(wrapped_price_micro_usd: u64) -> (r: Result<u128, RelayerError>)
    ensures
        match r {
            Result::Ok(m) => Some(m) == spec_max_refund(wrapped_price_micro_usd),
            Result::Err(e) => wrapped_price_micro_usd == 0 && e == RelayerError::Config,
        },
{
    if wrapped_price_micro_usd == 0 {
        return Result::Err(RelayerError::Config);
    }
    proof {
        assert(MAX_REFUND_MICRO_USD as u128 * WEI_PER_UNIT
            == 1_000_000_000_000_000_000_000_000u128) by (nonlinear_arith);
    }
    Result::Ok(MAX_REFUND_MICRO_USD as u128 * WEI_PER_UNIT / wrapped_price_micro_usd as u128)
}

/// The requested refund converted into the wrapped token: refund times wei
/// per unit over the exchange rate. `None` on a zero rate or overflow.
pub open spec fn spec_wrapped_refund_amount(refund: u128, refund_exchange_rate: u128) -> Option<
    u128,
> {
    if refund_exchange_rate == 0 {
        None
    } else if refund * WEI_PER_UNIT > u128::MAX {
        None
    } else {
        Some((refund * WEI_PER_UNIT / (refund_exchange_rate as int)) as u128)
    }
}

/// Converts a refund into the wrapped token; rejects a zero exchange rate,
/// as the configuration must supply one, and overflowing amounts.
pub fn calculate_wrapped_refund_amount(refund: u128, refund_exchange_rate: u128) -> (r: Result<
    u128,
    RelayerError,
>)
    ensures
        match r {
            Result::Ok(w) => Some(w) == spec_wrapped_refund_amount(refund, refund_exchange_rate),
            Result::Err(e) => spec_wrapped_refund_amount(refund, refund_exchange_rate) is None
                && e == RelayerError::Config,
        },
{
    if refund_exchange_rate == 0 {
        return Result::Err(RelayerError::Config);
    }
    match refund.checked_mul(WEI_PER_UNIT) {
        Option::Some(scaled) => Result::Ok(scaled / refund_exchange_rate),
        Option::None => Result::Err(RelayerError::Config),
    }
}

/// The base token the fee oracle prices a chain in. Testnets use their
/// mainnet's token so an exchange rate exists.
pub fn get_base_token_name(chain_id: u64) -> (r: Result<&'static str, RelayerError>)
    ensures
        (chain_id == 1 || chain_id == 5 || chain_id == 5001 || chain_id == 5002 || chain_id
            == 5003 || chain_id == 11155111) ==> (r matches Ok(s) && s@ == "ethereum"@),
        (chain_id == 10 || chain_id == 420) ==> (r matches Ok(s) && s@ == "optimism"@),
        (chain_id == 127 || chain_id == 80001) ==> (r matches Ok(s) && s@ == "polygon"@),
        (chain_id == 1284 || chain_id == 1287) ==> (r matches Ok(s) && s@ == "moonbeam"@),
        !(chain_id == 1 || chain_id == 5 || chain_id == 5001 || chain_id == 5002 || chain_id
            == 5003 || chain_id == 11155111 || chain_id == 10 || chain_id == 420 || chain_id
            == 127 || chain_id == 80001 || chain_id == 1284 || chain_id == 1287) ==> (r matches
        Err(e) && e == RelayerError::ChainNotFound),
{
    if chain_id == 1 || chain_id == 5 || chain_id == 5001 || chain_id == 5002 || chain_id == 5003
        || chain_id == 11155111 {
        Result::Ok("ethereum")
    } else if chain_id == 10 || chain_id == 420 {
        Result::Ok("optimism")
    } else if chain_id == 127 || chain_id == 80001 {
        Result::Ok("polygon")
    } else if chain_id == 1284 || chain_id == 1287 {
        Result::Ok("moonbeam")
    } else {
        Result::Err(RelayerError::ChainNotFound)
    }
}

/// True while a fee quote is still within the cache TTL at time `now`.
pub open spec fn spec_fee_fresh(f: FeeInfo, now: u64) -> bool {
    f.timestamp_ms + FEE_CACHE_TIME_MS > now
}

/// What eviction leaves of a cache entry list: exactly the fresh entries,
/// in their order.
pub open spec fn spec_evict(s: Seq<((u64, Vec<u8>), FeeInfo)>, now: u64) -> Seq<
    ((u64, Vec<u8>), FeeInfo),
>
    decreases s.len(),
{
    if s.len() == 0 {
        Seq::empty()
    } else {
        let front = spec_evict(s.drop_last(), now);
        if spec_fee_fresh(s.last().1, now) {
            front.push(s.last())
        } else {
            front
        }
    }
}

/// Everything eviction keeps is fresh.
pub proof fn lemma_evict_fresh(s: Seq<((u64, Vec<u8>), FeeInfo)>, now: u64)
    ensures
        forall|i: int|
            0 <= i < spec_evict(s, now).len() ==> spec_fee_fresh(
                #[trigger] spec_evict(s, now)[i].1,
                now,
            ),
    decreases s.len(),
{
    if s.len() > 0 {
        lemma_evict_fresh(s.drop_last(), now);
        let front = spec_evict(s.drop_last(), now);
        assert forall|i: int|
            0 <= i < spec_evict(s, now).len() implies spec_fee_fresh(
            #[trigger] spec_evict(s, now)[i].1,
            now,
        ) by {
            if i < front.len() {
                assert(spec_evict(s, now)[i] == front[i]);
                assert(spec_fee_fresh(front[i].1, now));
            }
        }
    }
}

/// The key of one fee-cache entry: the anchor's chain and address.
pub open spec fn spec_fee_key_is(chain_id: u64, anchor: Seq<u8>) -> spec_fn(
    ((u64, Vec<u8>), FeeInfo),
) -> bool {
    |e: ((u64, Vec<u8>), FeeInfo)| e.0.0 == chain_id && e.0.1@ == anchor
}

/// Cache of recent fee quotes per (anchor, chain); entries older than the
/// cache TTL are never served.
pub struct FeeInfoCache {
    /// The cached quotes, keyed by chain id and anchor address.
    pub entries: Vec<((u64, Vec<u8>), FeeInfo)>,
}

impl FeeInfoCache {
    /// The cached quote under a key, if any.
    pub open spec fn spec_lookup(self, chain_id: u64, anchor: Seq<u8>) -> Option<FeeInfo> {
        let i = spec_find(self.entries@, spec_fee_key_is(chain_id, anchor));
        if i < 0 {
            None
        } else {
            Some(self.entries@[i].1)
        }
    }

    /// A fresh, empty cache.
    pub fn new() -> (r: FeeInfoCache)
        ensures
            r.entries@.len() == 0,
    {
        FeeInfoCache { entries: Vec::new() }
    }

    /// The cached quote for an anchor, provided it is still within the
    /// cache TTL at time `now`; a stale or missing quote yields nothing
    /// and the caller regenerates it.
    #[verifier::loop_isolation(false)]
    pub fn lookup_fee_info(&self, chain_id: u64, anchor: &Vec<u8>, now: u64) -> (r: Option<
        FeeInfo,
    >)
        ensures
            match r {
                Option::Some(f) => Some(f) == self.spec_lookup(chain_id, anchor@)
                    && f.timestamp_ms + FEE_CACHE_TIME_MS > now,
                Option::None => self.spec_lookup(chain_id, anchor@) is None || !(self.spec_lookup(
                    chain_id,
                    anchor@,
                ).unwrap().timestamp_ms + FEE_CACHE_TIME_MS > now),
            },
    {
        let n = self.entries.len();
        let mut i: usize = 0;
        while i < n
            invariant
                i <= n,
                forall|j: int|
                    0 <= j < i ==> !(#[trigger] self.entries@[j].0.0 == chain_id
                        && self.entries@[j].0.1@ == anchor@),
            decreases n - i,
        {
            if self.entries[i].0.0 == chain_id && bytes_equal(&self.entries[i].0.1, anchor) {
                proof {
                    lemma_find_at(self.entries@, spec_fee_key_is(chain_id, anchor@), i as int);
                }
                let f = self.entries[i].1;
                if now < f.timestamp_ms || now - f.timestamp_ms < FEE_CACHE_TIME_MS {
                    return Option::Some(f);
                } else {
                    return Option::None;
                }
            }
            i += 1;
        }
        proof {
            lemma_find_none(self.entries@, spec_fee_key_is(chain_id, anchor@));
        }
        Option::None
    }

    /// Drops every entry older than the cache TTL at time `now`: exactly
    /// the fresh entries stay, in their order.
    #[verifier::loop_isolation(false)]
    #[verifier::rlimit(60)]
    pub fn evict_cache(&mut self, now: u64)
        ensures
            final(self).entries@ == spec_evict(old(self).entries@, now),
            forall|i: int|
                0 <= i < final(self).entries@.len() ==> spec_fee_fresh(
                    #[trigger] final(self).entries@[i].1,
                    now,
                ),
    {
        let ghost olds = self.entries@;
        let n0 = self.entries.len();
        let mut kept: Vec<((u64, Vec<u8>), FeeInfo)> = Vec::new();
        let mut i: usize = 0;
        while self.entries.len() > 0
            invariant
                olds.len() == n0,
                i + self.entries@.len() == olds.len(),
                self.entries@ == olds.subrange(i as int, olds.len() as int),
                kept@ == spec_evict(olds.take(i as int), now),
            decreases self.entries@.len(),
        {
            let e = self.entries.remove(0);
            proof {
                assert(e == olds[i as int]);
                assert(olds.take(i + 1).drop_last() =~= olds.take(i as int));
                assert(olds.take(i + 1).last() == olds[i as int]);
            }
            let f = e.1;
            if now < f.timestamp_ms || now - f.timestamp_ms < FEE_CACHE_TIME_MS {
                kept.push(e);
            }
            proof {
                assert(kept@ =~= spec_evict(olds.take(i + 1), now));
                assert(self.entries@ =~= olds.subrange(i + 1, olds.len() as int));
            }
            i += 1;
        }
        proof {
            assert(olds.take(olds.len() as int) =~= olds);
        }
        self.entries = kept;
        proof {
            lemma_evict_fresh(olds, now);
        }
    }

    /// Stores a fresh quote for an anchor, replacing any earlier one;
    /// every other anchor's quote reads as before.
    #[verifier::loop_isolation(false)]
    pub fn insert_fee_info(&mut self, chain_id: u64, anchor: &Vec<u8>, info: FeeInfo)
        ensures
            final(self).spec_lookup(chain_id, anchor@) == Some(info),
            forall|c2: u64, a2: Seq<u8>|
                !(c2 == chain_id && a2 == anchor@) ==> #[trigger] final(self).spec_lookup(c2, a2)
                    == old(self).spec_lookup(c2, a2),
    {
        let n = self.entries.len();
        let mut i: usize = 0;
        while i < n
            invariant
                i <= n,
                n == self.entries@.len(),
                *self == *old(self),
                forall|j: int|
                    0 <= j < i ==> !(#[trigger] self.entries@[j].0.0 == chain_id
                        && self.entries@[j].0.1@ == anchor@),
            decreases n - i,
        {
            if self.entries[i].0.0 == chain_id && bytes_equal(&self.entries[i].0.1, anchor) {
                let ghost olds = self.entries@;
                let old_pair = self.entries.remove(i);
                self.entries.insert(i, (old_pair.0, info));
                proof {
                    assert(self.entries@ =~= olds.update(i as int, (olds[i as int].0, info)));
                    crate::lookup::lemma_find_update(
                        olds,
                        spec_fee_key_is(chain_id, anchor@),
                        i as int,
                        (olds[i as int].0, info),
                    );
                    lemma_find_at(olds, spec_fee_key_is(chain_id, anchor@), i as int);
                    assert forall|c2: u64, a2: Seq<u8>|
                        !(c2 == chain_id && a2 == anchor@) implies #[trigger] self.spec_lookup(
                        c2,
                        a2,
                    ) == old(self).spec_lookup(c2, a2) by {
                        crate::lookup::lemma_find_props(olds, spec_fee_key_is(c2, a2));
                        crate::lookup::lemma_find_update(
                            olds,
                            spec_fee_key_is(c2, a2),
                            i as int,
                            (olds[i as int].0, info),
                        );
                        let f2 = spec_find(olds, spec_fee_key_is(c2, a2));
                        if f2 >= 0 {
                            assert(olds[f2].0.0 == c2 && olds[f2].0.1@ == a2);
                            assert(f2 != i);
                            assert(self.entries@[f2] == olds[f2]);
                        }
                    }
                }
                return ;
            }
            i += 1;
        }
        let ghost olds = self.entries@;
        self.entries.push(((chain_id, crate::bytes::copy_bytes(anchor)), info));
        proof {
            let v = self.entries@[olds.len() as int];
            lemma_find_none(olds, spec_fee_key_is(chain_id, anchor@));
            crate::lookup::lemma_find_push(olds, spec_fee_key_is(chain_id, anchor@), v);
            assert(spec_fee_key_is(chain_id, anchor@)(v));
            assert forall|c2: u64, a2: Seq<u8>|
                !(c2 == chain_id && a2 == anchor@) implies #[trigger] self.spec_lookup(c2, a2)
                == old(self).spec_lookup(c2, a2) by {
                crate::lookup::lemma_find_props(olds, spec_fee_key_is(c2, a2));
                crate::lookup::lemma_find_push(olds, spec_fee_key_is(c2, a2), v);
                assert(!(spec_fee_key_is(c2, a2)(v)));
                let f2 = spec_find(olds, spec_fee_key_is(c2, a2));
                if f2 >= 0 {
                    assert(self.entries@[f2] == olds[f2]);
                }
            }
        }
    }
}


/// The bytes of the wrapped-token prefix that the oracle does not know.
pub open spec fn spec_wrap_prefix() -> Seq<u8> {
    seq![119u8, 101u8, 98u8, 98u8]
}

/// A token name with every occurrence of the wrapped prefix removed, left
/// to right.
pub open spec fn spec_strip_wrap_prefix(s: Seq<u8>) -> Seq<u8>
    decreases s.len(),
{
    if s.len() < 4 {
        s
    } else if s[0] == 119 && s[1] == 101 && s[2] == 98 && s[3] == 98 {
        spec_strip_wrap_prefix(s.skip(4))
    } else {
        seq![s[0]] + spec_strip_wrap_prefix(s.drop_first())
    }
}

/// The oracle's name for a token: the wrapped prefix stripped, and the
/// wrapped ether ticker mapped to the name the oracle prices.
pub open spec fn spec_normalize_token_name(s: Seq<u8>) -> Seq<u8> {
    let stripped = spec_strip_wrap_prefix(s);
    if stripped == seq![87u8, 69u8, 84u8, 72u8] {
        seq![101u8, 116u8, 104u8, 101u8, 114u8, 101u8, 117u8, 109u8]
    } else {
        stripped
    }
}

/// Turns a wrapped token's on-chain name into the name the price oracle
/// understands.
#[verifier::loop_isolation(false)]
#[verifier::rlimit(60)]
pub fn normalize_token_name(name: &Vec<u8>) -> (r: Vec<u8>)
    ensures
        r@ == spec_normalize_token_name(name@),
{
    let n = name.len();
    let mut out: Vec<u8> = Vec::new();
    let mut i: usize = 0;
    proof {
        assert(name@.skip(0) =~= name@);
    }
    while n - i >= 4
        invariant
            i <= n,
            out@ + spec_strip_wrap_prefix(name@.skip(i as int)) == spec_strip_wrap_prefix(name@),
        decreases n - i,
    {
        let ghost rem = name@.skip(i as int);
        proof {
            assert(rem[0] == name@[i as int]);
            assert(rem[1] == name@[i + 1]);
            assert(rem[2] == name@[i + 2]);
            assert(rem[3] == name@[i + 3]);
        }
        if name[i] == 119 && name[i + 1] == 101 && name[i + 2] == 98 && name[i + 3] == 98 {
            proof {
                assert(rem.skip(4) =~= name@.skip(i + 4));
            }
            i += 4;
        } else {
            out.push(name[i]);
            proof {
                assert(rem.drop_first() =~= name@.skip(i + 1));
                assert(out@ + spec_strip_wrap_prefix(name@.skip(i + 1))
                    =~= spec_strip_wrap_prefix(name@));
            }
            i += 1;
        }
    }
    while i < n
        invariant
            i <= n,
            n - i < 4,
            out@ + spec_strip_wrap_prefix(name@.skip(i as int)) == spec_strip_wrap_prefix(name@),
        decreases n - i,
    {
        let ghost rem = name@.skip(i as int);
        proof {
            assert(rem.len() < 4);
            assert(rem[0] == name@[i as int]);
            assert(rem.drop_first() =~= name@.skip(i + 1));
            assert(rem =~= seq![rem[0]] + rem.drop_first());
        }
        out.push(name[i]);
        proof {
            assert(out@ + spec_strip_wrap_prefix(name@.skip(i + 1)) =~= spec_strip_wrap_prefix(
                name@,
            ));
        }
        i += 1;
    }
    proof {
        assert(name@.skip(n as int) =~= Seq::<u8>::empty());
        assert(out@ =~= spec_strip_wrap_prefix(name@));
    }
    let mut weth: Vec<u8> = Vec::new();
    weth.push(87);
    weth.push(69);
    weth.push(84);
    weth.push(72);
    proof {
        assert(weth@ =~= seq![87u8, 69u8, 84u8, 72u8]);
    }
    if bytes_equal(&out, &weth) {
        let mut eth: Vec<u8> = Vec::new();
        eth.push(101);
        eth.push(116);
        eth.push(104);
        eth.push(101);
        eth.push(114);
        eth.push(101);
        eth.push(117);
        eth.push(109);
        proof {
            assert(eth@ =~= seq![101u8, 116u8, 104u8, 101u8, 114u8, 101u8, 117u8, 109u8]);
        }
        eth
    } else {
        out
    }
}

} // verus!
