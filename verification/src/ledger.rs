//! The ledger state machine: the root registry together with the active vault
//! records, and the operations on them.
//!
//! Each operation is scoped to a single owner's record (or to the registry
//! singleton) and either fully commits its state change or leaves the ledger
//! untouched.

use vstd::prelude::*;
use vstd::pervasive::VecAdditionalExecFns;

use crate::laws::{step_balance, VaultOp};
use crate::types::{CompressionEvent, Digest, ErrorCode, GlobalConfig, Pubkey, VaultAccount};

verus! {

/// The minimum idle time, in time-units, before a vault may be hibernated.
pub const MIN_HIBERNATION_PERIOD: i64 = 60;

/// The whole ledger state: the root registry singleton and the active vault
/// records. At most one active record exists per owner.
pub struct Ledger {
    pub config: GlobalConfig,
    pub vaults: Vec<VaultAccount>,
}

impl Ledger {
    /// Well-formedness: no two active records share an owner.
    pub open spec fn wf(self) -> bool {
        forall|i: int, j: int|
            0 <= i < j < self.vaults@.len() ==> self.vaults@[i].owner != self.vaults@[j].owner
    }

    /// Whether an active vault record exists for `owner`.
    pub open spec fn has_vault(self, owner: Pubkey) -> bool {
        exists|i: int| 0 <= i < self.vaults@.len() && self.vaults@[i].owner == owner
    }

    /// The index of the active record for `owner` (meaningful when one exists;
    /// unique when the ledger is well-formed).
    pub open spec fn vault_index(self, owner: Pubkey) -> int {
        choose|i: int| 0 <= i < self.vaults@.len() && self.vaults@[i].owner == owner
    }

    /// The active record for `owner` (meaningful when one exists).
    pub open spec fn vault_of(self, owner: Pubkey) -> VaultAccount {
        self.vaults@[self.vault_index(owner)]
    }

    /// In a well-formed ledger, any index holding `owner`'s record is the
    /// index `vault_index` denotes.
    pub proof fn lemma_index_unique(self, owner: Pubkey, i: int)
        requires
            self.wf(),
            0 <= i < self.vaults@.len(),
            self.vaults@[i].owner == owner,
        ensures
            self.has_vault(owner),
            self.vault_index(owner) == i,
            self.vault_of(owner) == self.vaults@[i],
    {
        assert(self.has_vault(owner));
        let k = self.vault_index(owner);
        assert(0 <= k < self.vaults@.len() && self.vaults@[k].owner == owner);
        if k < i {
            assert(self.vaults@[k].owner != self.vaults@[i].owner);
        } else if i < k {
            assert(self.vaults@[i].owner != self.vaults@[k].owner);
        }
    }

    /// Finds the position of `owner`'s active record, if any.
    fn find_vault(&self, owner: Pubkey) -> (r: Option<usize>)
        ensures
            match r {
                Some(i) => i < self.vaults@.len() && self.vaults@[i as int].owner == owner,
                None => !self.has_vault(owner),
            },
    {
        let n = self.vaults.len();
        let mut i: usize = 0;
        while i < n
            invariant
                n == self.vaults@.len(),
                i <= n,
                forall|j: int| 0 <= j < i ==> self.vaults@[j].owner != owner,
            decreases n - i,
        {
            if self.vaults[i].owner == owner {
                return Some(i);
            }
            i = i + 1;
        }
        None
    }

    /// Appending a record for an owner that has none keeps the ledger
    /// well-formed, installs that record, and leaves every other owner's
    /// record untouched.
    proof fn lemma_push_preserves_others(pre: Ledger, post: Ledger, v: VaultAccount)
        requires
            pre.wf(),
            !pre.has_vault(v.owner),
            post.vaults@ == pre.vaults@.push(v),
        ensures
            post.wf(),
            post.has_vault(v.owner),
            post.vault_of(v.owner) == v,
            post.vaults@.len() == pre.vaults@.len() + 1,
            forall|o: Pubkey| o != v.owner ==> #[trigger] post.has_vault(o) == pre.has_vault(o),
            forall|o: Pubkey|
                o != v.owner && pre.has_vault(o) ==> #[trigger] post.vault_of(o) == pre.vault_of(o),
    {
        let n = pre.vaults@.len() as int;
        assert forall|k: int| 0 <= k < n implies pre.vaults@[k].owner != v.owner by {
            if pre.vaults@[k].owner == v.owner {
                assert(pre.has_vault(v.owner));
            }
        }
        assert forall|k: int, l: int|
            0 <= k < l < post.vaults@.len() implies post.vaults@[k].owner
            != post.vaults@[l].owner by {
            if l < n {
                assert(post.vaults@[k] == pre.vaults@[k]);
                assert(post.vaults@[l] == pre.vaults@[l]);
            } else {
                assert(post.vaults@[k] == pre.vaults@[k]);
                assert(post.vaults@[l] == v);
            }
        }
        assert(post.wf());
        assert(post.vaults@[n] == v);
        post.lemma_index_unique(v.owner, n);
        assert forall|o: Pubkey| o != v.owner implies #[trigger] post.has_vault(o)
            == pre.has_vault(o) by {
            if pre.has_vault(o) {
                let j = pre.vault_index(o);
                assert(0 <= j < n && pre.vaults@[j].owner == o);
                assert(post.vaults@[j].owner == o);
                assert(post.has_vault(o));
            }
            if post.has_vault(o) {
                let j = post.vault_index(o);
                assert(0 <= j < post.vaults@.len() && post.vaults@[j].owner == o);
                assert(j < n);
                assert(pre.vaults@[j].owner == o);
                assert(pre.has_vault(o));
            }
        }
        assert forall|o: Pubkey| o != v.owner && pre.has_vault(o) implies #[trigger] post.vault_of(o) == pre.vault_of(o) by {
            let j = pre.vault_index(o);
            assert(0 <= j < n && pre.vaults@[j].owner == o);
            pre.lemma_index_unique(o, j);
            assert(post.vaults@[j] == pre.vaults@[j]);
            post.lemma_index_unique(o, j);
        }
    }

    /// Replacing the record at an index with one for the same owner keeps the
    /// ledger well-formed, installs the replacement, and leaves every other
    /// owner's record untouched.
    proof fn lemma_update_preserves_others(pre: Ledger, post: Ledger, i: int, v: VaultAccount)
        requires
            pre.wf(),
            0 <= i < pre.vaults@.len(),
            v.owner == pre.vaults@[i].owner,
            post.vaults@ == pre.vaults@.update(i, v),
        ensures
            post.wf(),
            post.has_vault(v.owner),
            post.vault_of(v.owner) == v,
            post.vaults@.len() == pre.vaults@.len(),
            forall|o: Pubkey| o != v.owner ==> #[trigger] post.has_vault(o) == pre.has_vault(o),
            forall|o: Pubkey|
                o != v.owner && pre.has_vault(o) ==> #[trigger] post.vault_of(o) == pre.vault_of(o),
    {
        assert forall|k: int| 0 <= k < post.vaults@.len() implies post.vaults@[k].owner
            == pre.vaults@[k].owner by {
            if k != i {
                assert(post.vaults@[k] == pre.vaults@[k]);
            }
        }
        assert(post.wf());
        post.lemma_index_unique(v.owner, i);
        assert forall|o: Pubkey| o != v.owner implies #[trigger] post.has_vault(o)
            == pre.has_vault(o) by {
            if pre.has_vault(o) {
                let j = pre.vault_index(o);
                assert(0 <= j < pre.vaults@.len() && pre.vaults@[j].owner == o);
                assert(post.vaults@[j].owner == o);
                assert(post.has_vault(o));
            }
            if post.has_vault(o) {
                let j = post.vault_index(o);
                assert(0 <= j < post.vaults@.len() && post.vaults@[j].owner == o);
                assert(pre.vaults@[j].owner == o);
                assert(pre.has_vault(o));
            }
        }
        assert forall|o: Pubkey| o != v.owner && pre.has_vault(o) implies #[trigger] post.vault_of(o) == pre.vault_of(o) by {
            let j = pre.vault_index(o);
            assert(0 <= j < pre.vaults@.len() && pre.vaults@[j].owner == o);
            pre.lemma_index_unique(o, j);
            assert(j != i);
            assert(post.vaults@[j] == pre.vaults@[j]);
            post.lemma_index_unique(o, j);
        }
    }

    /// Removing the record at an index keeps the ledger well-formed, leaves
    /// no record for that owner, and leaves every other owner's record
    /// untouched.
    proof fn lemma_remove_clears_owner(pre: Ledger, post: Ledger, i: int)
        requires
            pre.wf(),
            0 <= i < pre.vaults@.len(),
            post.vaults@ == pre.vaults@.remove(i),
        ensures
            post.wf(),
            !post.has_vault(pre.vaults@[i].owner),
            post.vaults@.len() == pre.vaults@.len() - 1,
            forall|o: Pubkey|
                o != pre.vaults@[i].owner ==> #[trigger] post.has_vault(o) == pre.has_vault(o),
            forall|o: Pubkey|
                o != pre.vaults@[i].owner && pre.has_vault(o) ==> #[trigger] post.vault_of(o)
                    == pre.vault_of(o),
    {
        let w = pre.vaults@[i].owner;
        pre.vaults@.remove_ensures(i);
        assert forall|k: int, l: int|
            0 <= k < l < post.vaults@.len() implies post.vaults@[k].owner
            != post.vaults@[l].owner by {
            let k2 = if k < i {
                k
            } else {
                k + 1
            };
            let l2 = if l < i {
                l
            } else {
                l + 1
            };
            assert(post.vaults@[k] == pre.vaults@[k2]);
            assert(post.vaults@[l] == pre.vaults@[l2]);
            assert(pre.vaults@[k2].owner != pre.vaults@[l2].owner);
        }
        assert(post.wf());
        assert forall|j: int| 0 <= j < post.vaults@.len() implies post.vaults@[j].owner != w by {
            let j2 = if j < i {
                j
            } else {
                j + 1
            };
            assert(post.vaults@[j] == pre.vaults@[j2]);
            if post.vaults@[j].owner == w {
                if j2 < i {
                    assert(pre.vaults@[j2].owner != pre.vaults@[i].owner);
                } else {
                    assert(pre.vaults@[i].owner != pre.vaults@[j2].owner);
                }
            }
        }
        if post.has_vault(w) {
            let j = post.vault_index(w);
            assert(post.vaults@[j].owner == w);
        }
        assert(!post.has_vault(w));
        assert forall|o: Pubkey| o != w implies #[trigger] post.has_vault(o) == pre.has_vault(
            o,
        ) by {
            if pre.has_vault(o) {
                let j = pre.vault_index(o);
                assert(0 <= j < pre.vaults@.len() && pre.vaults@[j].owner == o);
                assert(j != i);
                let j2 = if j < i {
                    j
                } else {
                    j - 1
                };
                assert(post.vaults@[j2] == pre.vaults@[j]);
                assert(post.has_vault(o));
            }
            if post.has_vault(o) {
                let j = post.vault_index(o);
                assert(0 <= j < post.vaults@.len() && post.vaults@[j].owner == o);
                let j2 = if j < i {
                    j
                } else {
                    j + 1
                };
                assert(post.vaults@[j] == pre.vaults@[j2]);
                assert(pre.has_vault(o));
            }
        }
        assert forall|o: Pubkey| o != w && pre.has_vault(o) implies #[trigger] post.vault_of(o)
            == pre.vault_of(o) by {
            let j = pre.vault_index(o);
            assert(0 <= j < pre.vaults@.len() && pre.vaults@[j].owner == o);
            pre.lemma_index_unique(o, j);
            assert(j != i);
            let j2 = if j < i {
                j
            } else {
                j - 1
            };
            assert(post.vaults@[j2] == pre.vaults@[j]);
            post.lemma_index_unique(o, j2);
        }
    }

    /// System bootstrap: creates the registry singleton with the given
    /// authority and a zero root, and no active vaults.
    pub fn initialize_config(admin: Pubkey) -> (l: Ledger)
        ensures
            l.wf(),
            l.config.admin == admin,
            l.config.latest_root == Digest::zeroed(),
            l.vaults@.len() == 0,
            forall|o: Pubkey| !l.has_vault(o),
    {
        Ledger { config: GlobalConfig { admin, latest_root: Digest::zero() }, vaults: Vec::new() }
    }

    /// The current accumulator root. A pure read, available to any caller.
    pub fn current_root(&self) -> (r: Digest)
        ensures
            r == self.config.latest_root,
    {
        self.config.latest_root
    }

    /// Overwrites the root with `new_root`, provided `caller` is the registry
    /// authority; refused with `Unauthorized` for any other caller, leaving
    /// the ledger untouched.
    pub fn update_root(&mut self, caller: Pubkey, new_root: Digest) -> (r: Result<(), ErrorCode>)
        ensures
            caller == old(self).config.admin ==> r is Ok
                && final(self).config.admin == old(self).config.admin
                && final(self).config.latest_root == new_root
                && final(self).vaults@ == old(self).vaults@,
            caller != old(self).config.admin ==> r == Err::<(), ErrorCode>(ErrorCode::Unauthorized)
                && *final(self) == *old(self),
    {
        if caller == self.config.admin {
            self.config = GlobalConfig { admin: self.config.admin, latest_root: new_root };
            Ok(())
        } else {
            Err(ErrorCode::Unauthorized)
        }
    }
    /// Creates a fresh vault for `owner`: balance 0, zero state tag,
    /// `last_used` set to `now`. Refused with `AccountAlreadyExists`, and the
    /// ledger left untouched, when an active record for `owner` already
    /// exists.
    pub fn initialize(&mut self, owner: Pubkey, now: i64) -> (r: Result<(), ErrorCode>)
        requires
            old(self).wf(),
        ensures
            final(self).wf(),
            final(self).config == old(self).config,
            r is Ok <==> !old(self).has_vault(owner),
            old(self).has_vault(owner) ==> r == Err::<(), ErrorCode>(
                ErrorCode::AccountAlreadyExists,
            ) && *final(self) == *old(self),
            !old(self).has_vault(owner) ==> final(self).has_vault(owner) && final(self).vault_of(owner) == (VaultAccount {
                owner,
                balance: 0,
                last_used: now,
                mock_zk_state_hash: Digest::zeroed(),
            }) && final(self).vaults@.len() == old(self).vaults@.len() + 1,
            forall|o: Pubkey|
                o != owner ==> #[trigger] final(self).has_vault(o) == old(self).has_vault(o),
            forall|o: Pubkey|
                o != owner && old(self).has_vault(o) ==> #[trigger] final(self).vault_of(o) == old(self).vault_of(o),
    {
        match self.find_vault(owner) {
            Some(_) => Err(ErrorCode::AccountAlreadyExists),
            None => {
                let ghost pre = *self;
                let v = VaultAccount {
                    owner,
                    balance: 0,
                    last_used: now,
                    mock_zk_state_hash: Digest::zero(),
                };
                self.vaults.push(v);
                proof {
                    Ledger::lemma_push_preserves_others(pre, *self, v);
                }
                Ok(())
            },
        }
    }

    /// Adds `amount` to `owner`'s balance and refreshes its activity
    /// timestamp. The caller is responsible for moving the matching value
    /// into the vault's custody atomically with this increment. Refused with
    /// `AccountNotFound`, and the ledger left untouched, when no active
    /// record for `owner` exists.
    pub fn deposit(&mut self, owner: Pubkey, amount: u64, now: i64) -> (r: Result<(), ErrorCode>)
        requires
            old(self).wf(),
            old(self).has_vault(owner) ==> old(self).vault_of(owner).balance + amount <= u64::MAX,
        ensures
            final(self).wf(),
            final(self).config == old(self).config,
            r is Ok <==> old(self).has_vault(owner),
            !old(self).has_vault(owner) ==> r == Err::<(), ErrorCode>(ErrorCode::AccountNotFound)
                && *final(self) == *old(self),
            old(self).has_vault(owner) ==> final(self).has_vault(owner) && final(self).vault_of(owner) == (VaultAccount {
                owner,
                balance: (old(self).vault_of(owner).balance + amount) as u64,
                last_used: now,
                mock_zk_state_hash: old(self).vault_of(owner).mock_zk_state_hash,
            }) && final(self).vaults@.len() == old(self).vaults@.len(),
            old(self).has_vault(owner) ==> final(self).vault_of(owner).balance as int
                == step_balance(
                old(self).vault_of(owner).balance as int,
                VaultOp::Deposit { amount },
            ),
            forall|o: Pubkey|
                o != owner ==> #[trigger] final(self).has_vault(o) == old(self).has_vault(o),
            forall|o: Pubkey|
                o != owner && old(self).has_vault(o) ==> #[trigger] final(self).vault_of(o) == old(self).vault_of(o),
    {
        match self.find_vault(owner) {
            None => Err(ErrorCode::AccountNotFound),
            Some(i) => {
                proof {
                    self.lemma_index_unique(owner, i as int);
                }
                let ghost pre = *self;
                let v = self.vaults[i];
                let updated = VaultAccount {
                    owner: v.owner,
                    balance: v.balance + amount,
                    last_used: now,
                    mock_zk_state_hash: v.mock_zk_state_hash,
                };
                self.vaults.set(i, updated);
                proof {
                    Ledger::lemma_update_preserves_others(pre, *self, i as int, updated);
                }
                Ok(())
            },
        }
    }

    /// Removes `amount` from `owner`'s balance and refreshes its activity
    /// timestamp; the caller moves the matching value out of the vault's
    /// custody atomically with the decrement. Refused with
    /// `InsufficientFunds` exactly when `amount` exceeds the balance at call
    /// time, and with `AccountNotFound` when no active record for `owner`
    /// exists; either refusal leaves the ledger untouched.
    pub fn withdraw(&mut self, owner: Pubkey, amount: u64, now: i64) -> (r: Result<(), ErrorCode>)
        requires
            old(self).wf(),
        ensures
            final(self).wf(),
            final(self).config == old(self).config,
            r is Ok <==> old(self).has_vault(owner) && amount <= old(self).vault_of(owner).balance,
            !old(self).has_vault(owner) ==> r == Err::<(), ErrorCode>(ErrorCode::AccountNotFound)
                && *final(self) == *old(self),
            old(self).has_vault(owner) ==> ((r == Err::<(), ErrorCode>(
                ErrorCode::InsufficientFunds,
            )) <==> amount > old(self).vault_of(owner).balance),
            old(self).has_vault(owner) && amount > old(self).vault_of(owner).balance ==> *final(self) == *old(self),
            old(self).has_vault(owner) && amount <= old(self).vault_of(owner).balance ==> final(self).has_vault(owner) && final(self).vault_of(owner) == (VaultAccount {
                owner,
                balance: (old(self).vault_of(owner).balance - amount) as u64,
                last_used: now,
                mock_zk_state_hash: old(self).vault_of(owner).mock_zk_state_hash,
            }) && final(self).vaults@.len() == old(self).vaults@.len(),
            old(self).has_vault(owner) ==> final(self).has_vault(owner) && final(self).vault_of(owner).balance as int == step_balance(
                old(self).vault_of(owner).balance as int,
                VaultOp::Withdraw { amount },
            ),
            forall|o: Pubkey|
                o != owner ==> #[trigger] final(self).has_vault(o) == old(self).has_vault(o),
            forall|o: Pubkey|
                o != owner && old(self).has_vault(o) ==> #[trigger] final(self).vault_of(o) == old(self).vault_of(o),
    {
        match self.find_vault(owner) {
            None => Err(ErrorCode::AccountNotFound),
            Some(i) => {
                proof {
                    self.lemma_index_unique(owner, i as int);
                }
                let v = self.vaults[i];
                if v.balance < amount {
                    return Err(ErrorCode::InsufficientFunds);
                }
                let ghost pre = *self;
                let updated = VaultAccount {
                    owner: v.owner,
                    balance: v.balance - amount,
                    last_used: now,
                    mock_zk_state_hash: v.mock_zk_state_hash,
                };
                self.vaults.set(i, updated);
                proof {
                    Ledger::lemma_update_preserves_others(pre, *self, i as int, updated);
                }
                Ok(())
            },
        }
    }

    /// Evicts `owner`'s vault once it has been idle for at least
    /// `MIN_HIBERNATION_PERIOD` time-units: emits the record of its state
    /// (the only durable trace of the balance) and removes the active
    /// record, its storage reclaimed and its residual value owed to
    /// `destination_wallet` by the caller. Refused with
    /// `AccountNotInactiveEnough` exactly when the idle time falls short,
    /// and with `AccountNotFound` when no active record for `owner` exists;
    /// either refusal leaves the ledger untouched.
    #[allow(unused_variables)]
    pub fn hibernate_account(
        &mut self,
        owner: Pubkey,
        destination_wallet: Pubkey,
        now: i64,
    ) -> (r: Result<CompressionEvent, ErrorCode>)
        requires
            old(self).wf(),
            old(self).has_vault(owner) ==> i64::MIN <= now - old(self).vault_of(owner).last_used
                <= i64::MAX,
        ensures
            final(self).wf(),
            final(self).config == old(self).config,
            r is Ok <==> old(self).has_vault(owner) && now - old(self).vault_of(owner).last_used
                >= MIN_HIBERNATION_PERIOD,
            !old(self).has_vault(owner) ==> r == Err::<CompressionEvent, ErrorCode>(
                ErrorCode::AccountNotFound,
            ) && *final(self) == *old(self),
            old(self).has_vault(owner) && now - old(self).vault_of(owner).last_used
                < MIN_HIBERNATION_PERIOD ==> r == Err::<CompressionEvent, ErrorCode>(
                ErrorCode::AccountNotInactiveEnough,
            ) && *final(self) == *old(self),
            old(self).has_vault(owner) && now - old(self).vault_of(owner).last_used
                >= MIN_HIBERNATION_PERIOD ==> r == Ok::<CompressionEvent, ErrorCode>(
                (CompressionEvent {
                    owner,
                    balance: old(self).vault_of(owner).balance,
                    state_hash: old(self).vault_of(owner).mock_zk_state_hash,
                }),
            ) && !final(self).has_vault(owner) && final(self).vaults@.len() == old(self).vaults@.len() - 1,
            forall|o: Pubkey|
                o != owner ==> #[trigger] final(self).has_vault(o) == old(self).has_vault(o),
            forall|o: Pubkey|
                o != owner && old(self).has_vault(o) ==> #[trigger] final(self).vault_of(o) == old(self).vault_of(o),
    {
        match self.find_vault(owner) {
            None => Err(ErrorCode::AccountNotFound),
            Some(i) => {
                proof {
                    self.lemma_index_unique(owner, i as int);
                }
                let v = self.vaults[i];
                let time_since_last_usage = now - v.last_used;
                if time_since_last_usage < MIN_HIBERNATION_PERIOD {
                    return Err(ErrorCode::AccountNotInactiveEnough);
                }
                let event = CompressionEvent {
                    owner: v.owner,
                    balance: v.balance,
                    state_hash: v.mock_zk_state_hash,
                };
                let ghost pre = *self;
                self.vaults.remove(i);
                proof {
                    Ledger::lemma_remove_clears_owner(pre, *self, i as int);
                }
                Ok(event)
            },
        }
    }

    /// Revives a hibernated state: re-materializes an active vault for
    /// `owner` with exactly the claimed balance, the claimed proof as its
    /// state tag, and `last_used` set to `now`. Refused with
    /// `AccountAlreadyExists` when an active record for `owner` exists
    /// (revival and normal creation are mutually exclusive on the same key),
    /// and otherwise with `InvalidProof` exactly when `claimed_proof` does
    /// not validate against the current root; either refusal leaves the
    /// ledger untouched. The registry is consulted, never mutated.
    pub fn wake_up_account(
        &mut self,
        owner: Pubkey,
        claimed_proof: Digest,
        balance: u64,
        now: i64,
    ) -> (r: Result<(), ErrorCode>)
        requires
            old(self).wf(),
        ensures
            final(self).wf(),
            final(self).config == old(self).config,
            r is Ok <==> !old(self).has_vault(owner) && claimed_proof == old(self).config.latest_root,
            old(self).has_vault(owner) ==> r == Err::<(), ErrorCode>(
                ErrorCode::AccountAlreadyExists,
            ) && *final(self) == *old(self),
            !old(self).has_vault(owner) && claimed_proof != old(self).config.latest_root ==> r
                == Err::<(), ErrorCode>(ErrorCode::InvalidProof) && *final(self) == *old(self),
            !old(self).has_vault(owner) && claimed_proof == old(self).config.latest_root ==> final(self).has_vault(owner) && final(self).vault_of(owner) == (VaultAccount {
                owner,
                balance,
                last_used: now,
                mock_zk_state_hash: claimed_proof,
            }) && final(self).vaults@.len() == old(self).vaults@.len() + 1,
            forall|o: Pubkey|
                o != owner ==> #[trigger] final(self).has_vault(o) == old(self).has_vault(o),
            forall|o: Pubkey|
                o != owner && old(self).has_vault(o) ==> #[trigger] final(self).vault_of(o) == old(self).vault_of(o),
    {
        match self.find_vault(owner) {
            Some(_) => Err(ErrorCode::AccountAlreadyExists),
            None => {
                if claimed_proof != self.config.latest_root {
                    return Err(ErrorCode::InvalidProof);
                }
                let ghost pre = *self;
                let v = VaultAccount {
                    owner,
                    balance,
                    last_used: now,
                    mock_zk_state_hash: claimed_proof,
                };
                self.vaults.push(v);
                proof {
                    Ledger::lemma_push_preserves_others(pre, *self, v);
                }
                Ok(())
            },
        }
    }

    /// The active vault record for `owner`, if one exists. A pure read.
    pub fn get_vault(&self, owner: Pubkey) -> (r: Option<VaultAccount>)
        requires
            self.wf(),
        ensures
            match r {
                Some(v) => self.has_vault(owner) && v == self.vault_of(owner),
                None => !self.has_vault(owner),
            },
    {
        match self.find_vault(owner) {
            None => None,
            Some(i) => {
                proof {
                    self.lemma_index_unique(owner, i as int);
                }
                Some(self.vaults[i])
            },
        }
    }

    /// The number of active vault records.
    pub fn vault_count(&self) -> (n: usize)
        ensures
            n == self.vaults@.len(),
    {
        self.vaults.len()
    }
}

} // verus!
