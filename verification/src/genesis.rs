//! The genesis: the state that a chain starts from.
//!
//! `Genesis` describes the first accounts, tokens, modules and parameters of
//! a chain. `Genesis::storage_writes` turns the description into the writes
//! that seed storage, in the order in which `init_chain` makes them.

use vstd::prelude::*;
use vstd::bytes::{spec_u64_to_le_bytes, u64_to_le_bytes};
use vstd::string::*;
use itertools::Itertools;
use crate::account::Account;
use crate::address::Address;
use crate::key::{Key, balance_path, public_key_path, validity_predicate_path};
use crate::keymap::entry_views;
use crate::byte_vec::copy_bytes;
use crate::storage::EpochDuration;
use crate::token::Amount;

verus! {

/// The whole tokens of each token that each user holds at the genesis.
pub const GENESIS_BALANCE: u64 = 1_000_000;

/// The protocol parameters of a chain.
#[derive(Clone, Copy, Debug, PartialEq, Eq, Structural)]
pub struct Parameters {
    /// The least length of an epoch.
    pub epoch_duration: EpochDuration,
}

/// The description of the state that a chain starts from.
#[derive(Debug)]
pub struct Genesis {
    /// The tokens of the chain.
    pub tokens: Vec<Address>,
    /// The first users, each with the key that signs for it.
    pub users: Vec<Account>,
    /// The matchmaker's account.
    pub matchmaker: Account,
    /// The code of the validity predicate of every token.
    pub token_vp: Vec<u8>,
    /// The code of the validity predicate of every user and of the matchmaker.
    pub user_vp: Vec<u8>,
    /// The genesis entries of the proof-of-stake module.
    pub pos: Vec<(Key, Vec<u8>)>,
    /// The genesis entries of the inter-chain-communication module.
    pub ibc: Vec<(Key, Vec<u8>)>,
    /// The protocol parameters.
    pub parameters: Parameters,
}

/// One write to storage: a key's path and the value for it.
pub type Write = (Seq<char>, Seq<u8>);

/// The pairs `(i, j)` with `i < n` and `j < m`, those with the smaller `i`
/// first and, among those with the same `i`, those with the smaller `j`.
pub open spec fn product(n: nat, m: nat) -> Seq<(usize, usize)> {
    Seq::new(n * m, |k: int| ((k / m as int) as usize, (k % m as int) as usize))
}

/// Calls `Itertools::cartesian_product` of the `itertools` crate on the
/// ranges `0..n` and `0..m`, and collects the pairs that it yields.
///
/// Assumed: the product yields every pair of an item of the first range and
/// an item of the second, in the order of `product`: the first range is
/// walked once, the second once for each item of the first.
#[verifier::external_body]
fn index_pairs(n: usize, m: usize) -> (pairs: Vec<(usize, usize)>)
    requires
        n * m * 16 <= isize::MAX,
    ensures
        pairs@ == product(n as nat, m as nat),
{
    (0..n).cartesian_product(0..m).collect()
}

/// Each pair of `product(n, m)` holds an index below `n` and one below `m`.
pub proof fn lemma_product_bounds(n: nat, m: nat, k: int)
    requires
        0 <= k < n * m,
        n <= usize::MAX,
        m <= usize::MAX,
    ensures
        product(n, m)[k].0 < n,
        product(n, m)[k].1 < m,
        product(n, m)[k].0 == k / m as int,
        product(n, m)[k].1 == k % m as int,
{
    let rows = n as int;
    let columns = m as int;
    assert(columns > 0) by (nonlinear_arith)
        requires
            0 <= k < rows * columns,
            rows >= 0,
            columns >= 0,
    ;
    assert(0 <= k / columns && k / columns < rows) by (nonlinear_arith)
        requires
            0 <= k < rows * columns,
            columns > 0,
    ;
    assert(0 <= k % columns && k % columns < columns) by (nonlinear_arith)
        requires
            columns > 0,
    ;
}

/// The path under which the least length of an epoch is stored.
pub open spec fn epoch_duration_path() -> Seq<char> {
    "#parameters/epoch_duration"@
}

/// The bytes by which the least length of an epoch is stored: the number of
/// blocks and the number of seconds, each as eight bytes, the least
/// significant first.
pub open spec fn epoch_duration_bytes(duration: EpochDuration) -> Seq<u8> {
    spec_u64_to_le_bytes(duration.min_num_of_blocks) + spec_u64_to_le_bytes(duration.min_duration)
}

/// The bytes by which the genesis balance is stored.
pub open spec fn genesis_balance_bytes() -> Seq<u8> {
    spec_u64_to_le_bytes((GENESIS_BALANCE * crate::token::SCALE) as u64)
}

impl Genesis {
    /// The writes that give each token its validity predicate.
    pub open spec fn token_writes(&self) -> Seq<Write> {
        Seq::new(
            self.tokens@.len(),
            |i: int| (validity_predicate_path(self.tokens@[i]@), self.token_vp@),
        )
    }

    /// The writes for the user at place `user` and the token at place
    /// `token`: the user's validity predicate, the user's balance of the
    /// token, and the user's public key.
    pub open spec fn pair_writes(&self, user: int, token: int) -> Seq<Write> {
        seq![
            (validity_predicate_path(self.users@[user].address@), self.user_vp@),
            (
                balance_path(self.tokens@[token]@, self.users@[user].address@),
                genesis_balance_bytes(),
            ),
            (public_key_path(self.users@[user].address@), self.users@[user].public_key@),
        ]
    }

    /// The writes for the pairs `pairs` of a user and a token, in their order.
    pub open spec fn user_writes(&self, pairs: Seq<(usize, usize)>) -> Seq<Write>
        decreases pairs.len(),
    {
        if pairs.len() == 0 {
            Seq::empty()
        } else {
            self.user_writes(pairs.drop_last()) + self.pair_writes(
                pairs.last().0 as int,
                pairs.last().1 as int,
            )
        }
    }

    /// The writes for the matchmaker: its public key and its validity
    /// predicate.
    pub open spec fn matchmaker_writes(&self) -> Seq<Write> {
        seq![
            (public_key_path(self.matchmaker.address@), self.matchmaker.public_key@),
            (validity_predicate_path(self.matchmaker.address@), self.user_vp@),
        ]
    }

    /// The write for the protocol parameters.
    pub open spec fn parameter_writes(&self) -> Seq<Write> {
        seq![(epoch_duration_path(), epoch_duration_bytes(self.parameters.epoch_duration))]
    }

    /// The writes that seed storage, in their order: the tokens' validity
    /// predicates; for each user and each token, the user's validity
    /// predicate, balance and public key; the matchmaker's key and validity
    /// predicate; the entries of the proof-of-stake module and of the
    /// inter-chain-communication module; the protocol parameters.
    pub open spec fn writes(&self) -> Seq<Write> {
        self.token_writes() + self.user_writes(
            product(self.users@.len(), self.tokens@.len()),
        ) + self.matchmaker_writes() + entry_views(self.pos@) + entry_views(self.ibc@)
            + self.parameter_writes()
    }

    /// Whether the pairs of a user and a token are few enough to be listed
    /// in memory.
    pub open spec fn spec_fits(&self) -> bool {
        self.users@.len() * self.tokens@.len() * 16 <= isize::MAX
    }

    /// Whether the pairs of a user and a token are few enough to be listed
    /// in memory.
    pub fn fits(&self) -> (fits: bool)
        ensures
            fits == self.spec_fits(),
    {
        let users = self.users.len();
        let tokens = self.tokens.len();
        if users == 0 || tokens == 0 {
            assert(self.users@.len() * self.tokens@.len() == 0) by (nonlinear_arith)
                requires
                    self.users@.len() == 0 || self.tokens@.len() == 0,
            ;
            return true;
        }
        let limit: usize = (isize::MAX as usize) / 16;
        let most_users = limit / tokens;
        let fits = users <= most_users;
        proof {
            let u = users as int;
            let t = tokens as int;
            let l = limit as int;
            assert(fits <==> u * t <= l) by (nonlinear_arith)
                requires
                    t > 0,
                    u >= 0,
                    l >= 0,
                    fits == (u <= l / t),
            ;
            assert(u * t * 16 <= isize::MAX <==> u * t <= l) by (nonlinear_arith)
                requires
                    l == (isize::MAX as int) / 16,
            ;
        }
        fits
    }

    /// The writes that seed storage, in their order.
    pub fn storage_writes(&self) -> (writes: Vec<(Key, Vec<u8>)>)
        requires
            self.spec_fits(),
        ensures
            entry_views(writes@) == self.writes(),
    {
        let mut writes: Vec<(Key, Vec<u8>)> = Vec::new();
        let mut i: usize = 0;
        while i < self.tokens.len()
            invariant
                i <= self.tokens.len(),
                entry_views(writes@) == self.token_writes().take(i as int),
            decreases self.tokens.len() - i,
        {
            let ghost before = entry_views(writes@);
            writes.push((Key::validity_predicate(&self.tokens[i]), copy_bytes(&self.token_vp)));
            assert(entry_views(writes@) =~= before.push(self.token_writes()[i as int]));
            assert(self.token_writes().take(i + 1) =~= before.push(self.token_writes()[i as int]));
            i += 1;
        }
        assert(self.token_writes().take(self.tokens.len() as int) =~= self.token_writes());

        let balance = Amount::whole(GENESIS_BALANCE).try_to_vec();
        let pairs = index_pairs(self.users.len(), self.tokens.len());
        let ghost tokens_done = self.token_writes();
        let mut p: usize = 0;
        while p < pairs.len()
            invariant
                p <= pairs.len(),
                pairs@ == product(self.users@.len(), self.tokens@.len()),
                pairs@.len() == self.users@.len() * self.tokens@.len(),
                self.users@.len() <= usize::MAX,
                self.tokens@.len() <= usize::MAX,
                balance@ == genesis_balance_bytes(),
                tokens_done == self.token_writes(),
                entry_views(writes@) == tokens_done + self.user_writes(pairs@.take(p as int)),
            decreases pairs.len() - p,
        {
            proof {
                lemma_product_bounds(self.users@.len(), self.tokens@.len(), p as int);
                assert(pairs@.take(p + 1).drop_last() =~= pairs@.take(p as int));
            }
            let (u, t) = pairs[p];
            let user = &self.users[u];
            let token = &self.tokens[t];
            let ghost before = entry_views(writes@);
            writes.push((Key::validity_predicate(&user.address), copy_bytes(&self.user_vp)));
            writes.push((Key::balance(token, &user.address), copy_bytes(&balance)));
            writes.push((Key::public_key(&user.address), user.public_key.try_to_vec()));
            assert(entry_views(writes@) =~= before + self.pair_writes(u as int, t as int));
            assert(tokens_done + self.user_writes(pairs@.take(p + 1)) =~= before
                + self.pair_writes(u as int, t as int));
            p += 1;
        }
        assert(pairs@.take(pairs.len() as int) =~= pairs@);

        let ghost users_done = entry_views(writes@);
        writes.push(
            (Key::public_key(&self.matchmaker.address), self.matchmaker.public_key.try_to_vec()),
        );
        writes.push(
            (Key::validity_predicate(&self.matchmaker.address), copy_bytes(&self.user_vp)),
        );
        assert(entry_views(writes@) =~= users_done + self.matchmaker_writes());

        let ghost matchmaker_done = entry_views(writes@);
        let mut j: usize = 0;
        while j < self.pos.len()
            invariant
                j <= self.pos.len(),
                entry_views(writes@) == matchmaker_done + entry_views(self.pos@).take(j as int),
            decreases self.pos.len() - j,
        {
            let ghost before = entry_views(writes@);
            writes.push((self.pos[j].0.clone(), copy_bytes(&self.pos[j].1)));
            assert(entry_views(writes@) =~= before.push(entry_views(self.pos@)[j as int]));
            assert(matchmaker_done + entry_views(self.pos@).take(j + 1) =~= before.push(
                entry_views(self.pos@)[j as int],
            ));
            j += 1;
        }
        assert(entry_views(self.pos@).take(self.pos.len() as int) =~= entry_views(self.pos@));

        let ghost pos_done = entry_views(writes@);
        let mut k: usize = 0;
        while k < self.ibc.len()
            invariant
                k <= self.ibc.len(),
                entry_views(writes@) == pos_done + entry_views(self.ibc@).take(k as int),
            decreases self.ibc.len() - k,
        {
            let ghost before = entry_views(writes@);
            writes.push((self.ibc[k].0.clone(), copy_bytes(&self.ibc[k].1)));
            assert(entry_views(writes@) =~= before.push(entry_views(self.ibc@)[k as int]));
            assert(pos_done + entry_views(self.ibc@).take(k + 1) =~= before.push(
                entry_views(self.ibc@)[k as int],
            ));
            k += 1;
        }
        assert(entry_views(self.ibc@).take(self.ibc.len() as int) =~= entry_views(self.ibc@));

        let ghost ibc_done = entry_views(writes@);
        let mut duration = u64_to_le_bytes(self.parameters.epoch_duration.min_num_of_blocks);
        let seconds = u64_to_le_bytes(self.parameters.epoch_duration.min_duration);
        let ghost blocks = duration@;
        duration.extend_from_slice(seconds.as_slice());
        assert(duration@ =~= blocks + seconds@);
        writes.push((Key::new(String::from_str("#parameters/epoch_duration")), duration));
        assert(entry_views(writes@) =~= ibc_done + self.parameter_writes());
        writes
    }
}

} // verus!
