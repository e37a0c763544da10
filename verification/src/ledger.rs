use vstd::prelude::*;
use crate::address::{Address, addr_eq};
use crate::balance::{U256, balance_limit};
use crate::error::Error;

verus! {

/// One stored balance: the token class, the owner, and the amount held.
struct Entry {
    token_id: String,
    address: Address,
    amount: U256,
}

/// Whether `e` is the entry for the (token, address) pair given by views.
spec fn entry_matches(e: Entry, token: Seq<char>, address: Seq<u8>) -> bool {
    e.token_id@ == token && e.address@ == address
}

/// The whole ledger state as a mathematical object: a total map from
/// (token id, address) view pairs to the balance held.
pub type BalanceModel = Map<(Seq<char>, Seq<u8>), nat>;

/// One transfer, on the model: the short circuits, the two checks and the
/// two updates of the verified `transfer_balance`, as a pure function.
pub open spec fn spec_transfer_step(
    m: BalanceModel,
    from: Seq<u8>,
    to: Seq<u8>,
    token: Seq<char>,
    amt: nat,
) -> Result<BalanceModel, Error> {
    if from == to || amt == 0 {
        Ok(m)
    } else if m[(token, from)] < amt {
        Err(Error::InsufficientBalance)
    } else if m[(token, to)] + amt >= balance_limit() {
        Err(Error::Overflow)
    } else {
        Ok(
            m.insert((token, from), (m[(token, from)] - amt) as nat).insert(
                (token, to),
                (m[(token, to)] + amt) as nat,
            ),
        )
    }
}

/// The first `n` transfers of a batch applied in order on the model; the
/// first failure's error, if any item fails.
pub open spec fn spec_batch_transfer(
    m: BalanceModel,
    from: Seq<u8>,
    to: Seq<u8>,
    tokens: Seq<Seq<char>>,
    amts: Seq<nat>,
    n: int,
) -> Result<BalanceModel, Error>
    decreases n,
{
    if n <= 0 {
        Ok(m)
    } else {
        match spec_batch_transfer(m, from, to, tokens, amts, n - 1) {
            Ok(m2) => spec_transfer_step(m2, from, to, tokens[n - 1], amts[n - 1]),
            Err(e) => Err(e),
        }
    }
}

/// Conservation: a successful transfer between two distinct endpoints
/// leaves the sum of their balances unchanged — value is moved, never
/// created or destroyed — and touches no other pair.
pub proof fn lemma_transfer_conserves_value(
    m: BalanceModel,
    from: Seq<u8>,
    to: Seq<u8>,
    token: Seq<char>,
    amt: nat,
)
    requires
        from != to,
        spec_transfer_step(m, from, to, token, amt) is Ok,
    ensures
        spec_transfer_step(m, from, to, token, amt) matches Ok(m2) && m2[(token, from)] + m2[(
            token,
            to,
        )] == m[(token, from)] + m[(token, to)] && forall|k: (Seq<char>, Seq<u8>)|
            !(k.0 == token && (k.1 == from || k.1 == to)) ==> m2[k] == m[k],
{
}

/// Once a batch prefix has failed, every longer prefix fails with the same
/// error.
proof fn lemma_batch_error_stable(
    m: BalanceModel,
    from: Seq<u8>,
    to: Seq<u8>,
    tokens: Seq<Seq<char>>,
    amts: Seq<nat>,
    k: int,
    n: int,
)
    requires
        0 <= k <= n,
        spec_batch_transfer(m, from, to, tokens, amts, k) is Err,
    ensures
        spec_batch_transfer(m, from, to, tokens, amts, n) == spec_batch_transfer(
            m,
            from,
            to,
            tokens,
            amts,
            k,
        ),
    decreases n - k,
{
    if k < n {
        assert(spec_batch_transfer(m, from, to, tokens, amts, k + 1) == spec_batch_transfer(
            m,
            from,
            to,
            tokens,
            amts,
            k,
        ));
        lemma_batch_error_stable(m, from, to, tokens, amts, k + 1, n);
    }
}

/// The ledger's storage handle: a dictionary-style collection of balance
/// entries, one per (token id, address) pair.  An absent pair is
/// semantically a balance of zero; a balance reduced to zero stays as an
/// explicit zero entry.
///
/// Entries are indexed by the (token id, address) pair itself, so distinct
/// pairs can never collide.  A string-keyed backend addresses the same
/// entry by the derived key of `crate::keys::balance_key`, whose
/// collision-freedom for distinct pairs rests on the encoding being
/// reversible and within the key-length budget.
pub struct Ledger {
    entries: Vec<Entry>,
}

impl Ledger {
    /// At most one entry exists for any (token id, address) pair.
    pub closed spec fn wf(self) -> bool {
        forall|i: int, j: int|
            #![trigger self.entries@[i], self.entries@[j]]
            0 <= i < j < self.entries@.len() ==> !entry_matches(
                self.entries@[i],
                self.entries@[j].token_id@,
                self.entries@[j].address@,
            )
    }

    /// The balance recorded for a (token, address) pair: the stored amount
    /// when an entry exists, zero otherwise.
    pub closed spec fn spec_balance(self, token: Seq<char>, address: Seq<u8>) -> nat {
        if exists|i: int|
            0 <= i < self.entries@.len() && entry_matches(
                #[trigger] self.entries@[i],
                token,
                address,
            ) {
            let i = choose|i: int|
                0 <= i < self.entries@.len() && entry_matches(
                    #[trigger] self.entries@[i],
                    token,
                    address,
                );
            self.entries@[i].amount.value()
        } else {
            0
        }
    }

    /// Creates the ledger's storage, with no entry for any pair: every
    /// balance reads as zero until first written.
    pub fn new() -> (r: Ledger)
        ensures
            r.wf(),
            forall|t: Seq<char>, a: Seq<u8>| r.spec_balance(t, a) == 0,
    {
        Ledger { entries: Vec::new() }
    }

    /// Reads the token balance of an account: the stored amount, or zero
    /// for a pair never written.  Never fails.
    #[verifier::loop_isolation(false)]
    pub fn read_balance_from(&self, account: Address, token_id: &str) -> (r: U256)
        requires
            self.wf(),
        ensures
            r.value() == self.spec_balance(token_id@, account@),
    {
        let tok: String = token_id.to_owned();
        let mut i: usize = 0;
        while i < self.entries.len()
            invariant
                i <= self.entries@.len(),
                tok@ == token_id@,
                forall|j: int|
                    0 <= j < i ==> !entry_matches(
                        #[trigger] self.entries@[j],
                        token_id@,
                        account@,
                    ),
            decreases self.entries@.len() - i,
        {
            if self.entries[i].token_id == tok && addr_eq(&self.entries[i].address, &account) {
                let r = self.entries[i].amount;
                proof {
                    self.lemma_balance_at(token_id@, account@, i as int);
                }
                return r;
            }
            i = i + 1;
        }
        U256::zero()
    }

    /// When entry `i` is the entry for a pair, the recorded balance is that
    /// entry's amount.
    proof fn lemma_balance_at(self, token: Seq<char>, address: Seq<u8>, i: int)
        requires
            self.wf(),
            0 <= i < self.entries@.len(),
            entry_matches(self.entries@[i], token, address),
        ensures
            self.spec_balance(token, address) == self.entries@[i].amount.value(),
    {
        let k = choose|k: int|
            0 <= k < self.entries@.len() && entry_matches(#[trigger] self.entries@[k], token, address);
        if k < i {
            assert(!entry_matches(
                self.entries@[k],
                self.entries@[i].token_id@,
                self.entries@[i].address@,
            ));
        } else if i < k {
            assert(!entry_matches(
                self.entries@[i],
                self.entries@[k].token_id@,
                self.entries@[k].address@,
            ));
        }
    }

    /// Unconditionally overwrites the stored entry for the pair with
    /// `amount`; every other pair's balance is untouched.  Never fails.
    #[verifier::loop_isolation(false)]
    pub fn write_balance_to(&mut self, address: Address, token_id: &str, amount: U256)
        requires
            old(self).wf(),
        ensures
            final(self).wf(),
            final(self).spec_balance(token_id@, address@) == amount.value(),
            forall|t: Seq<char>, a: Seq<u8>|
                !(t == token_id@ && a == address@) ==> final(self).spec_balance(t, a) == old(
                    self,
                ).spec_balance(t, a),
    {
        let tok: String = token_id.to_owned();
        let mut i: usize = 0;
        while i < self.entries.len()
            invariant
                *self == *old(self),
                i <= self.entries@.len(),
                tok@ == token_id@,
                forall|j: int|
                    0 <= j < i ==> !entry_matches(
                        #[trigger] self.entries@[j],
                        token_id@,
                        address@,
                    ),
            decreases self.entries@.len() - i,
        {
            if self.entries[i].token_id == tok && addr_eq(&self.entries[i].address, &address) {
                self.entries[i].amount = amount;
                proof {
                    let pre = *old(self);
                    let post = *self;
                    assert forall|p: int, q: int| 0 <= p < q < post.entries@.len() implies
                        !entry_matches(
                            post.entries@[p],
                            post.entries@[q].token_id@,
                            post.entries@[q].address@,
                        ) by {
                        assert(post.entries@[p].token_id@ == pre.entries@[p].token_id@);
                        assert(post.entries@[p].address@ == pre.entries@[p].address@);
                        assert(!entry_matches(
                            pre.entries@[p],
                            pre.entries@[q].token_id@,
                            pre.entries@[q].address@,
                        ));
                    }
                    post.lemma_balance_at(token_id@, address@, i as int);
                    assert forall|t: Seq<char>, a: Seq<u8>| !(t == token_id@ && a == address@)
                        implies post.spec_balance(t, a) == pre.spec_balance(t, a) by {
                        self.lemma_write_frame(pre, i as int, t, a);
                    }
                }
                return;
            }
            i = i + 1;
        }
        let ghost pre = *old(self);
        self.entries.push(Entry { token_id: tok, address, amount });
        proof {
            let post = *self;
            let n = pre.entries@.len() as int;
            assert forall|p: int, q: int| 0 <= p < q < post.entries@.len() implies
                !entry_matches(
                    post.entries@[p],
                    post.entries@[q].token_id@,
                    post.entries@[q].address@,
                ) by {
                if q < n {
                    assert(!entry_matches(
                        pre.entries@[p],
                        pre.entries@[q].token_id@,
                        pre.entries@[q].address@,
                    ));
                } else {
                    assert(!entry_matches(pre.entries@[p], token_id@, address@));
                }
            }
            post.lemma_balance_at(token_id@, address@, n);
            assert forall|t: Seq<char>, a: Seq<u8>| !(t == token_id@ && a == address@)
                implies post.spec_balance(t, a) == pre.spec_balance(t, a) by {
                self.lemma_push_frame(pre, t, a);
            }
        }
    }

    /// Transfers `amount` of the token class `id` from `from` to `to`.
    ///
    /// A self-transfer or a zero amount returns success at once with no
    /// storage read or write, so it cannot fail even when `from` holds
    /// nothing.  Otherwise both arithmetic checks run before any write:
    /// a failed transfer leaves every balance exactly as it was, and a
    /// successful one moves value without creating or destroying any.
    pub fn transfer_balance(&mut self, from: Address, to: Address, id: &str, amount: U256) -> (r:
        Result<(), Error>)
        requires
            old(self).wf(),
        ensures
            final(self).wf(),
            (from@ == to@ || amount.value() == 0) ==> (r is Ok && *final(self) == *old(self)),
            (from@ != to@ && amount.value() > 0
                && old(self).spec_balance(id@, from@) < amount.value())
                ==> (r == Err::<(), Error>(Error::InsufficientBalance)
                    && *final(self) == *old(self)),
            (from@ != to@ && amount.value() > 0
                && old(self).spec_balance(id@, from@) >= amount.value()
                && old(self).spec_balance(id@, to@) + amount.value() >= balance_limit())
                ==> (r == Err::<(), Error>(Error::Overflow) && *final(self) == *old(self)),
            (from@ != to@ && amount.value() > 0
                && old(self).spec_balance(id@, from@) >= amount.value()
                && old(self).spec_balance(id@, to@) + amount.value() < balance_limit())
                ==> (r is Ok
                    && final(self).spec_balance(id@, from@)
                        == old(self).spec_balance(id@, from@) - amount.value()
                    && final(self).spec_balance(id@, to@)
                        == old(self).spec_balance(id@, to@) + amount.value()),
            forall|t: Seq<char>, a: Seq<u8>|
                !(t == id@ && (a == from@ || a == to@))
                    ==> final(self).spec_balance(t, a) == old(self).spec_balance(t, a),
            (r is Ok && from@ != to@)
                ==> final(self).spec_balance(id@, from@) + final(self).spec_balance(id@, to@)
                    == old(self).spec_balance(id@, from@) + old(self).spec_balance(id@, to@),
    {
        if addr_eq(&from, &to) || amount.is_zero() {
            return Ok(());
        }
        let sender_balance = self.read_balance_from(from, id);
        let new_sender = match sender_balance.checked_sub(&amount) {
            Some(v) => v,
            None => {
                return Err(Error::InsufficientBalance);
            },
        };
        let recipient_balance = self.read_balance_from(to, id);
        let new_recipient = match recipient_balance.checked_add(&amount) {
            Some(v) => v,
            None => {
                return Err(Error::Overflow);
            },
        };
        self.write_balance_to(from, id, new_sender);
        self.write_balance_to(to, id, new_recipient);
        Ok(())
    }

    /// The ledger as a total map from (token id, address) pairs to balances.
    pub open spec fn model(self) -> BalanceModel {
        Map::total(|k: (Seq<char>, Seq<u8>)| self.spec_balance(k.0, k.1))
    }

    /// An equal copy of the ledger's entries, for staging a batch.
    fn duplicate(&self) -> (r: Ledger)
        requires
            self.wf(),
        ensures
            r.wf(),
            forall|t: Seq<char>, a: Seq<u8>|
                #[trigger] r.spec_balance(t, a) == self.spec_balance(t, a),
    {
        let mut out: Vec<Entry> = Vec::new();
        let mut i: usize = 0;
        while i < self.entries.len()
            invariant
                i <= self.entries@.len(),
                out@.len() == i,
                forall|j: int| 0 <= j < i ==> #[trigger] out@[j] == self.entries@[j],
            decreases self.entries@.len() - i,
        {
            let e = &self.entries[i];
            out.push(Entry { token_id: e.token_id.clone(), address: e.address, amount: e.amount });
            i = i + 1;
        }
        let r = Ledger { entries: out };
        proof {
            assert(r.entries@ =~= self.entries@);
        }
        r
    }

    /// Applies one transfer per (token id, amount) pair, in order, as one
    /// all-or-nothing operation: if any item fails, the error of the first
    /// failing item is returned and no item's effect — not even of the
    /// items before it — is kept.
    #[verifier::loop_isolation(false)]
    pub fn batch_transfer_balance(
        &mut self,
        from: Address,
        to: Address,
        ids: &Vec<String>,
        amounts: &Vec<U256>,
    ) -> (r: Result<(), Error>)
        requires
            old(self).wf(),
            ids@.len() == amounts@.len(),
        ensures
            final(self).wf(),
            (match spec_batch_transfer(
                old(self).model(),
                from@,
                to@,
                ids@.map_values(|s: String| s@),
                amounts@.map_values(|x: U256| x.value()),
                ids@.len() as int,
            ) {
                Ok(m) => r is Ok && final(self).model() =~= m,
                Err(e) => r == Err::<(), Error>(e) && *final(self) == *old(self),
            }),
    {
        let ghost toks = ids@.map_values(|s: String| s@);
        let ghost amts = amounts@.map_values(|x: U256| x.value());
        let ghost m0 = self.model();
        let mut scratch = self.duplicate();
        proof {
            assert(scratch.model() =~= m0);
        }
        let mut i: usize = 0;
        while i < ids.len()
            invariant
                i <= ids@.len(),
                scratch.wf(),
                spec_batch_transfer(m0, from@, to@, toks, amts, i as int) matches Ok(m)
                    && scratch.model() =~= m,
            decreases ids@.len() - i,
        {
            let ghost pre = scratch;
            let res = scratch.transfer_balance(from, to, ids[i].as_str(), amounts[i]);
            proof {
                let tok = toks[i as int];
                let amt = amts[i as int];
                let mpre = pre.model();
                assert(spec_batch_transfer(m0, from@, to@, toks, amts, i as int) == Ok::<
                    BalanceModel,
                    Error,
                >(mpre));
                assert(mpre[(tok, from@)] == pre.spec_balance(tok, from@));
                assert(mpre[(tok, to@)] == pre.spec_balance(tok, to@));
                if from@ == to@ || amt == 0 {
                    assert(scratch == pre);
                    assert(scratch.model() =~= mpre);
                } else if pre.spec_balance(tok, from@) < amt {
                    assert(scratch == pre);
                } else if pre.spec_balance(tok, to@) + amt >= balance_limit() {
                    assert(scratch == pre);
                } else {
                    let m2 = mpre.insert((tok, from@), (mpre[(tok, from@)] - amt) as nat).insert(
                        (tok, to@),
                        (mpre[(tok, to@)] + amt) as nat,
                    );
                    assert forall|k: (Seq<char>, Seq<u8>)| true implies #[trigger] scratch.model()[k]
                        == m2[k] by {
                        assert(scratch.model()[k] == scratch.spec_balance(k.0, k.1));
                        if k == (tok, from@) {
                        } else if k == (tok, to@) {
                        } else {
                            assert(!(k.0 == tok && (k.1 == from@ || k.1 == to@)));
                            assert(scratch.spec_balance(k.0, k.1) == pre.spec_balance(k.0, k.1));
                        }
                    }
                    assert(scratch.model() =~= m2);
                }
            }
            match res {
                Ok(_u) => {
                    i = i + 1;
                },
                Err(e) => {
                    proof {
                        lemma_batch_error_stable(
                            m0,
                            from@,
                            to@,
                            toks,
                            amts,
                            i as int + 1,
                            ids@.len() as int,
                        );
                    }
                    return Err(e);
                },
            }
        }
        *self = scratch;
        Ok(())
    }

    /// Updating the amount of entry `i` leaves the balance of every other
    /// pair unchanged.
    proof fn lemma_write_frame(self, pre: Ledger, i: int, t: Seq<char>, a: Seq<u8>)
        requires
            pre.wf(),
            self.wf(),
            0 <= i < pre.entries@.len(),
            self.entries@.len() == pre.entries@.len(),
            forall|j: int|
                0 <= j < pre.entries@.len() ==> (#[trigger] self.entries@[j]).token_id@
                    == pre.entries@[j].token_id@ && self.entries@[j].address@
                    == pre.entries@[j].address@,
            forall|j: int|
                0 <= j < pre.entries@.len() && j != i ==> #[trigger] self.entries@[j]
                    == pre.entries@[j],
            !entry_matches(pre.entries@[i], t, a),
        ensures
            self.spec_balance(t, a) == pre.spec_balance(t, a),
    {
        if exists|k: int|
            0 <= k < pre.entries@.len() && entry_matches(#[trigger] pre.entries@[k], t, a) {
            let k = choose|k: int|
                0 <= k < pre.entries@.len() && entry_matches(#[trigger] pre.entries@[k], t, a);
            assert(entry_matches(self.entries@[k], t, a));
            pre.lemma_balance_at(t, a, k);
            self.lemma_balance_at(t, a, k);
        } else {
            assert forall|k: int| 0 <= k < self.entries@.len() implies !entry_matches(
                #[trigger] self.entries@[k],
                t,
                a,
            ) by {
                assert(!entry_matches(pre.entries@[k], t, a));
            }
        }
    }

    /// Appending an entry for one pair leaves the balance of every other
    /// pair unchanged.
    proof fn lemma_push_frame(self, pre: Ledger, t: Seq<char>, a: Seq<u8>)
        requires
            pre.wf(),
            self.wf(),
            self.entries@.len() == pre.entries@.len() + 1,
            forall|j: int|
                0 <= j < pre.entries@.len() ==> #[trigger] self.entries@[j] == pre.entries@[j],
            !entry_matches(self.entries@[pre.entries@.len() as int], t, a),
        ensures
            self.spec_balance(t, a) == pre.spec_balance(t, a),
    {
        let n = pre.entries@.len() as int;
        if exists|k: int|
            0 <= k < pre.entries@.len() && entry_matches(#[trigger] pre.entries@[k], t, a) {
            let k = choose|k: int|
                0 <= k < pre.entries@.len() && entry_matches(#[trigger] pre.entries@[k], t, a);
            assert(entry_matches(self.entries@[k], t, a));
            pre.lemma_balance_at(t, a, k);
            self.lemma_balance_at(t, a, k);
        } else {
            assert forall|k: int| 0 <= k < self.entries@.len() implies !entry_matches(
                #[trigger] self.entries@[k],
                t,
                a,
            ) by {
                if k < n {
                    assert(!entry_matches(pre.entries@[k], t, a));
                }
            }
        }
    }
}

} // verus!
