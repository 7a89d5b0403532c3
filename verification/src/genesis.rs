//! The genesis transaction: seeds the ledger with the main currency's
//! coinbase supply and the optional pre-funded accounts. Re-applying
//! genesis to a non-empty trie is a fatal error, so `apply` demands an
//! empty trie.

use vstd::prelude::*;

use crate::address::NormalAddress;
use crate::balance::{spec_balance_to_bytes, Balance};
use crate::codec::be_bytes;
use crate::keys::{spec_coinbase_key, spec_currency_key, spec_mapping_key, spec_nonce_key};
use crate::trie::Trie;

verus! {

/// The main currency coin supply.
pub const COIN_SUPPLY: u64 = 500000000;

/// The ASCII bytes of the main currency's name, `purple`.
pub open spec fn spec_main_currency_name() -> Seq<u8> {
    seq![0x70u8, 0x75u8, 0x72u8, 0x70u8, 0x6cu8, 0x65u8]
}

/// The name of the main currency, as bytes.
pub fn main_currency_name() -> (r: Vec<u8>)
    ensures
        r@ == spec_main_currency_name(),
{
    let mut r: Vec<u8> = Vec::new();
    r.push(0x70);
    r.push(0x75);
    r.push(0x72);
    r.push(0x70);
    r.push(0x6c);
    r.push(0x65);
    proof {
        assert(r@ =~= spec_main_currency_name());
    }
    r
}

/// The genesis transaction: the main asset, its total supply, and the
/// accounts funded at birth.
#[derive(Debug, PartialEq)]
pub struct Genesis {
    /// The main currency's asset hash.
    pub asset_hash: crate::crypto::Hash,
    /// The total supply of the main currency.
    pub coin_supply: u64,
    /// Accounts funded at genesis, each with its whole-unit balance.
    pub accounts: Vec<(NormalAddress, u64)>,
}

/// The sum of the balances funded at genesis.
pub open spec fn spec_accounts_sum(accounts: Seq<(NormalAddress, u64)>) -> int
    decreases accounts.len(),
{
    if accounts.len() == 0 {
        0
    } else {
        spec_accounts_sum(accounts.drop_last()) + accounts.last().1
    }
}

/// The ledger state after funding the listed accounts: each receives a
/// zero nonce, its whole-unit balance of the asset, and an address-mapping
/// entry.
pub open spec fn spec_fund_accounts(
    m: Map<Seq<u8>, Seq<u8>>,
    asset: Seq<u8>,
    accounts: Seq<(NormalAddress, u64)>,
) -> Map<Seq<u8>, Seq<u8>>
    decreases accounts.len(),
{
    if accounts.len() == 0 {
        m
    } else {
        let a = accounts.last().0@;
        let bal = Balance { neg: false, mantissa: (accounts.last().1 * 10) as u128, scale: 1 };
        spec_fund_accounts(m, asset, accounts.drop_last()).insert(
            spec_nonce_key(a),
            be_bytes(0, 8),
        ).insert(spec_currency_key(a, asset), spec_balance_to_bytes(bal)).insert(
            spec_mapping_key(a),
            a,
        )
    }
}

/// The ledger state after genesis: the funded accounts, then the coinbase
/// entry holding what is left of the supply.
pub open spec fn spec_genesis_apply(g: &Genesis, m: Map<Seq<u8>, Seq<u8>>) -> Map<
    Seq<u8>,
    Seq<u8>,
> {
    let rest = (COIN_SUPPLY - spec_accounts_sum(g.accounts@)) as u64;
    let coinbase = Balance { neg: false, mantissa: (rest * 10) as u128, scale: 1 };
    spec_fund_accounts(m, g.asset_hash@, g.accounts@).insert(
        spec_coinbase_key(g.asset_hash@),
        spec_balance_to_bytes(coinbase),
    )
}

/// The sum over a prefix never exceeds the sum over the whole list.
proof fn lemma_accounts_sum_prefix(accounts: Seq<(NormalAddress, u64)>, i: int)
    requires
        0 <= i <= accounts.len(),
    ensures
        0 <= spec_accounts_sum(accounts.subrange(0, i)) <= spec_accounts_sum(accounts),
    decreases accounts.len() - i,
{
    if i == accounts.len() {
        assert(accounts.subrange(0, i) =~= accounts);
        lemma_accounts_sum_nonneg(accounts);
    } else {
        lemma_accounts_sum_prefix(accounts, i + 1);
        let pre = accounts.subrange(0, i + 1);
        assert(pre.drop_last() =~= accounts.subrange(0, i));
        lemma_accounts_sum_nonneg(accounts.subrange(0, i));
    }
}

proof fn lemma_accounts_sum_nonneg(accounts: Seq<(NormalAddress, u64)>)
    ensures
        spec_accounts_sum(accounts) >= 0,
    decreases accounts.len(),
{
    if accounts.len() > 0 {
        lemma_accounts_sum_nonneg(accounts.drop_last());
    }
}

impl Default for Genesis {
    /// The main-currency genesis: the asset hash of the name `purple`, the
    /// full coin supply, and no pre-funded accounts.
    fn default() -> (r: Genesis)
        ensures
            r.asset_hash@ == crate::crypto::hash_bytes(spec_main_currency_name()),
            r.asset_hash.wf(),
            r.coin_supply == COIN_SUPPLY,
            r.accounts@.len() == 0,
            r.wf(),
    {
        let name = main_currency_name();
        Genesis {
            asset_hash: crate::crypto::hash_slice(name.as_slice()),
            coin_supply: COIN_SUPPLY,
            accounts: Vec::new(),
        }
    }
}

impl Genesis {
    pub open spec fn wf(&self) -> bool {
        &&& self.asset_hash.wf()
        &&& self.coin_supply == COIN_SUPPLY
        &&& forall|i: int| 0 <= i < self.accounts@.len() ==> (#[trigger] self.accounts@[i]).0.wf()
    }

    /// Applies the genesis transaction to an empty trie: writes each
    /// pre-funded account's zero nonce, balance and address mapping, then
    /// the remaining coinbase supply. The listed balances must not exceed
    /// the supply.
    pub fn apply(&self, trie: &mut Trie)
        requires
            self.wf(),
            old(trie).wf(),
            old(trie)@ =~= Map::<Seq<u8>, Seq<u8>>::empty(),
            spec_accounts_sum(self.accounts@) <= COIN_SUPPLY,
        ensures
            final(trie).wf(),
            final(trie)@ == spec_genesis_apply(self, old(trie)@),
    {
        let n = self.accounts.len();
        let mut remaining: u64 = self.coin_supply;
        let mut i: usize = 0;
        while i < n
            invariant
                0 <= i <= n == self.accounts@.len(),
                self.wf(),
                trie.wf(),
                remaining == COIN_SUPPLY - spec_accounts_sum(self.accounts@.subrange(0, i as int)),
                spec_accounts_sum(self.accounts@) <= COIN_SUPPLY,
                trie@ == spec_fund_accounts(old(trie)@, self.asset_hash@, self.accounts@.subrange(
                    0,
                    i as int,
                )),
            decreases n - i,
        {
            let balance: u64 = self.accounts[i].1;
            proof {
                lemma_accounts_sum_prefix(self.accounts@, i + 1);
                let pre = self.accounts@.subrange(0, i + 1);
                assert(pre.drop_last() =~= self.accounts@.subrange(0, i as int));
                assert(pre.last() == self.accounts@[i as int]);
            }
            remaining = remaining - balance;
            let addr_bytes = self.accounts[i].0.to_bytes();
            let nonce_key = crate::keys::nonce_key(addr_bytes.as_slice());
            let zeros = crate::codec::encode_be_u64(0);
            trie.insert(nonce_key, zeros);
            let cur_key = crate::keys::currency_key(
                addr_bytes.as_slice(),
                self.asset_hash.bytes.as_slice(),
            );
            let bal = Balance::from_u64(balance);
            trie.insert(cur_key, bal.to_bytes());
            let map_key = crate::keys::mapping_key(addr_bytes.as_slice());
            let addr_bytes_again = self.accounts[i].0.to_bytes();
            trie.insert(map_key, addr_bytes_again);
            i = i + 1;
        }
        proof {
            assert(self.accounts@.subrange(0, n as int) =~= self.accounts@);
            lemma_accounts_sum_prefix(self.accounts@, n as int);
        }
        let coinbase = crate::keys::coinbase_key(self.asset_hash.bytes.as_slice());
        let bal = Balance::from_u64(remaining);
        trie.insert(coinbase, bal.to_bytes());
    }
}

} // verus!
