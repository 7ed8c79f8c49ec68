use crate::address::clone_bytes;
use crate::address::derived_pair;
use crate::address::matches_derivation;
use crate::address::seeds_view;
use crate::address::verify_derived;
use crate::address::Address;
use crate::auth::require_signer;
use crate::errors::VaultError;
use crate::gateway::InvocationGateway;
use crate::gateway::InvocationStatus;
use crate::ledger::CreditRecord;
use crate::ledger::Vault;
use vstd::prelude::*;

verus! {

/// One custodial account together with the credit records drawn on it and
/// the configuration its addresses are derived under: the program id and the
/// two namespace tags, fixed at initialization.
pub struct LedgerState {
    address: Address,
    program_id: Address,
    vault_tag: Vec<u8>,
    credit_tag: Vec<u8>,
    account: Vault,
    records: Vec<CreditRecord>,
}

/// The seed list an account address is derived from: the vault namespace tag
/// and the owner identity.
pub open spec fn vault_seed_views(tag: Seq<u8>, owner: Seq<u8>) -> Seq<Seq<u8>> {
    seq![tag, owner]
}

/// The seed list a credit record's address is derived from: the credit
/// namespace tag, the account address and the record owner's identity.
pub open spec fn credit_seed_views(tag: Seq<u8>, account: Seq<u8>, owner: Seq<u8>) -> Seq<Seq<u8>> {
    seq![tag, account, owner]
}

/// The sum of all credit counters in a record list.
pub open spec fn total_credits(rs: Seq<CreditRecord>) -> int
    decreases rs.len(),
{
    if rs.len() == 0 {
        0
    } else {
        rs[0].credits + total_credits(rs.drop_first())
    }
}

/// The sum of the credit counters recorded for one owner.
pub open spec fn credits_in(rs: Seq<CreditRecord>, owner: Seq<u8>) -> int
    decreases rs.len(),
{
    if rs.len() == 0 {
        0
    } else {
        (if rs[0].owner@ == owner {
            rs[0].credits as int
        } else {
            0
        }) + credits_in(rs.drop_first(), owner)
    }
}

/// No two records in the list belong to the same owner.
pub open spec fn owners_distinct(rs: Seq<CreditRecord>) -> bool {
    forall|i: int, j: int|
        #![trigger rs[i], rs[j]]
        0 <= i < j < rs.len() ==> rs[i].owner@ != rs[j].owner@
}

/// An owner's credits never exceed the sum over all owners, and no sum is
/// negative.
pub proof fn lemma_credits_le_total(rs: Seq<CreditRecord>, owner: Seq<u8>)
    ensures
        0 <= credits_in(rs, owner) <= total_credits(rs),
    decreases rs.len(),
{
    if rs.len() > 0 {
        lemma_credits_le_total(rs.drop_first(), owner);
    }
}

/// How both sums change when one record is replaced.
pub proof fn lemma_sums_update(rs: Seq<CreditRecord>, i: int, r2: CreditRecord, owner: Seq<u8>)
    requires
        0 <= i < rs.len(),
    ensures
        total_credits(rs.update(i, r2)) == total_credits(rs) - rs[i].credits + r2.credits,
        credits_in(rs.update(i, r2), owner) == credits_in(rs, owner) - (if rs[i].owner@ == owner {
            rs[i].credits as int
        } else {
            0
        }) + (if r2.owner@ == owner {
            r2.credits as int
        } else {
            0
        }),
    decreases rs.len(),
{
    let rs2 = rs.update(i, r2);
    if i == 0 {
        assert(rs2.drop_first() =~= rs.drop_first());
    } else {
        assert(rs2.drop_first() =~= rs.drop_first().update(i - 1, r2));
        lemma_sums_update(rs.drop_first(), i - 1, r2, owner);
    }
}

/// How both sums change when a record is appended.
pub proof fn lemma_sums_push(rs: Seq<CreditRecord>, r2: CreditRecord, owner: Seq<u8>)
    ensures
        total_credits(rs.push(r2)) == total_credits(rs) + r2.credits,
        credits_in(rs.push(r2), owner) == credits_in(rs, owner) + (if r2.owner@ == owner {
            r2.credits as int
        } else {
            0
        }),
    decreases rs.len(),
{
    let rs2 = rs.push(r2);
    assert(rs2.len() == rs.len() + 1);
    if rs.len() == 0 {
        assert(rs2[0] == r2);
        assert(rs2.drop_first() =~= Seq::<CreditRecord>::empty());
        assert(total_credits(rs2.drop_first()) == 0);
        assert(credits_in(rs2.drop_first(), owner) == 0);
        assert(total_credits(rs) == 0);
        assert(credits_in(rs, owner) == 0);
        assert(total_credits(rs2) == r2.credits + total_credits(rs2.drop_first()));
        assert(credits_in(rs2, owner) == (if r2.owner@ == owner {
            r2.credits as int
        } else {
            0
        }) + credits_in(rs2.drop_first(), owner));
    } else {
        assert(rs2[0] == rs[0]);
        assert(rs2.drop_first() =~= rs.drop_first().push(r2));
        lemma_sums_push(rs.drop_first(), r2, owner);
        assert(total_credits(rs2) == rs[0].credits + total_credits(rs2.drop_first()));
        assert(credits_in(rs2, owner) == (if rs[0].owner@ == owner {
            rs[0].credits as int
        } else {
            0
        }) + credits_in(rs2.drop_first(), owner));
    }
}

/// An owner with no record in the list has no credits in it.
pub proof fn lemma_no_owner_no_credits(rs: Seq<CreditRecord>, owner: Seq<u8>)
    requires
        forall|j: int| 0 <= j < rs.len() ==> (#[trigger] rs[j]).owner@ != owner,
    ensures
        credits_in(rs, owner) == 0,
    decreases rs.len(),
{
    if rs.len() > 0 {
        assert forall|j: int| 0 <= j < rs.drop_first().len() implies (#[trigger] rs.drop_first()[j]).owner@
            != owner by {
            assert(rs.drop_first()[j] == rs[j + 1]);
        }
        lemma_no_owner_no_credits(rs.drop_first(), owner);
    }
}

/// With distinct owners, the credits recorded for an owner are exactly the
/// counter of that owner's record.
pub proof fn lemma_owner_credits(rs: Seq<CreditRecord>, owner: Seq<u8>, i: int)
    requires
        owners_distinct(rs),
        0 <= i < rs.len(),
        rs[i].owner@ == owner,
    ensures
        credits_in(rs, owner) == rs[i].credits,
    decreases rs.len(),
{
    if i == 0 {
        assert forall|j: int| 0 <= j < rs.drop_first().len() implies (#[trigger] rs.drop_first()[j]).owner@
            != owner by {
            assert(rs.drop_first()[j] == rs[j + 1]);
            assert(rs[0].owner@ != rs[j + 1].owner@);
        }
        lemma_no_owner_no_credits(rs.drop_first(), owner);
    } else {
        assert(owners_distinct(rs.drop_first())) by {
            assert forall|p: int, q: int|
                #![trigger rs.drop_first()[p], rs.drop_first()[q]]
                0 <= p < q < rs.drop_first().len() implies rs.drop_first()[p].owner@
                != rs.drop_first()[q].owner@ by {
                assert(rs.drop_first()[p] == rs[p + 1]);
                assert(rs.drop_first()[q] == rs[q + 1]);
                assert(rs[p + 1].owner@ != rs[q + 1].owner@);
            }
        }
        assert(rs[0].owner@ != rs[i].owner@);
        lemma_owner_credits(rs.drop_first(), owner, i - 1);
    }
}

/// Builds the owned seed list `[tag, owner]`.
fn vault_seeds(tag: &Vec<u8>, owner: &Address) -> (r: Vec<Vec<u8>>)
    ensures
        seeds_view(r@) == vault_seed_views(tag@, owner@),
{
    let mut seeds: Vec<Vec<u8>> = Vec::new();
    seeds.push(clone_bytes(tag));
    seeds.push(owner.to_bytes());
    proof {
        assert(seeds_view(seeds@) =~= vault_seed_views(tag@, owner@));
    }
    seeds
}

/// Builds the owned seed list `[tag, account, owner]`.
fn credit_seeds(tag: &Vec<u8>, account: &Address, owner: &Address) -> (r: Vec<Vec<u8>>)
    ensures
        seeds_view(r@) == credit_seed_views(tag@, account@, owner@),
{
    let mut seeds: Vec<Vec<u8>> = Vec::new();
    seeds.push(clone_bytes(tag));
    seeds.push(account.to_bytes());
    seeds.push(owner.to_bytes());
    proof {
        assert(seeds_view(seeds@) =~= credit_seed_views(tag@, account@, owner@));
    }
    seeds
}

/// The address, program id and namespace tags, unchanged between two states.
pub open spec fn same_config(s0: LedgerState, s1: LedgerState) -> bool {
    &&& s1.addr() == s0.addr()
    &&& s1.pid() == s0.pid()
    &&& s1.vtag() == s0.vtag()
    &&& s1.ctag() == s0.ctag()
}

/// Why creating a credit record is refused, or `None` when it must succeed.
pub open spec fn init_credit_refusal(s: LedgerState, owner: Seq<u8>, attested: bool) -> Option<
    VaultError,
> {
    if !s.vault_address_consistent() {
        Some(VaultError::AddressMismatch)
    } else if s.credit_derivation(owner) is None {
        Some(VaultError::AddressMismatch)
    } else if !attested {
        Some(VaultError::MissingSignature)
    } else if s.has_record(owner) {
        Some(VaultError::AlreadyExists)
    } else {
        None
    }
}

/// Why a deposit is refused, or `None` when it must succeed.
pub open spec fn deposit_refusal(
    s: LedgerState,
    depositor: Seq<u8>,
    attested: bool,
    depositor_funds: u64,
    vault_funds: u64,
    amount: u64,
) -> Option<VaultError> {
    if amount == 0 {
        Some(VaultError::InvalidAmount)
    } else if !s.vault_address_consistent() {
        Some(VaultError::AddressMismatch)
    } else if !s.has_record(depositor) {
        Some(VaultError::AddressMismatch)
    } else if !attested {
        Some(VaultError::MissingSignature)
    } else if depositor_funds < amount {
        Some(VaultError::InsufficientFunds)
    } else if vault_funds + amount > u64::MAX {
        Some(VaultError::MathOverflow)
    } else if s.balance() + amount > u64::MAX {
        Some(VaultError::MathOverflow)
    } else if s.credits_of(depositor) + amount > u64::MAX {
        Some(VaultError::MathOverflow)
    } else {
        None
    }
}

/// Record `k` of `s1` belongs to the same owner as record `k` of `s0`.
pub open spec fn owners_preserved(s0: LedgerState, s1: LedgerState) -> bool {
    forall|k: int|
        0 <= k < s1.recs().len() ==> (#[trigger] s1.recs()[k]).owner@ == s0.recs()[k].owner@
}

/// What a completed deposit changes: the balance and the depositor's credits
/// grow by `amount`; every other owner's credits, the stored owner, the bump
/// and the configuration stay as they were.
pub open spec fn deposit_post(
    s0: LedgerState,
    s1: LedgerState,
    depositor: Seq<u8>,
    amount: u64,
) -> bool {
    &&& same_config(s0, s1)
    &&& s1.owner() == s0.owner()
    &&& s1.bump() == s0.bump()
    &&& s1.balance() == s0.balance() + amount
    &&& s1.credits_of(depositor) == s0.credits_of(depositor) + amount
    &&& forall|o: Seq<u8>|
        o != depositor ==> (#[trigger] s1.credits_of(o)) == s0.credits_of(o)
    &&& s1.recs().len() == s0.recs().len()
    &&& owners_preserved(s0, s1)
    &&& s1.has_record(depositor)
}

/// Why a withdrawal is refused, or `None` when it must succeed.
pub open spec fn withdraw_refusal(
    s: LedgerState,
    caller: Seq<u8>,
    attested: bool,
    recipient: Seq<u8>,
    recipient_funds: u64,
    vault_funds: u64,
    amount: u64,
) -> Option<VaultError> {
    if amount == 0 {
        Some(VaultError::InvalidAmount)
    } else if !s.derives_vault_address(caller) {
        Some(VaultError::AddressMismatch)
    } else if !attested {
        Some(VaultError::MissingSignature)
    } else if caller != s.owner() {
        Some(VaultError::Unauthorized)
    } else if recipient != caller {
        Some(VaultError::Unauthorized)
    } else if s.credits_of(caller) < amount {
        Some(VaultError::InsufficientCredits)
    } else if s.balance() < amount {
        Some(VaultError::InsufficientFunds)
    } else if vault_funds < amount {
        Some(VaultError::InsufficientFunds)
    } else if recipient_funds + amount > u64::MAX {
        Some(VaultError::MathOverflow)
    } else {
        None
    }
}

/// What a completed withdrawal changes: the balance and the caller's
/// credits shrink by `amount`; every other owner's credits, the stored
/// owner, the bump and the configuration stay as they were.
pub open spec fn withdraw_post(
    s0: LedgerState,
    s1: LedgerState,
    caller: Seq<u8>,
    amount: u64,
) -> bool {
    &&& same_config(s0, s1)
    &&& s1.owner() == s0.owner()
    &&& s1.bump() == s0.bump()
    &&& s1.balance() == s0.balance() - amount
    &&& s1.credits_of(caller) == s0.credits_of(caller) - amount
    &&& forall|o: Seq<u8>|
        o != caller ==> (#[trigger] s1.credits_of(o)) == s0.credits_of(o)
    &&& s1.recs().len() == s0.recs().len()
    &&& owners_preserved(s0, s1)
}

/// Why an authority change is refused, or `None` when it must succeed.
pub open spec fn set_authority_refusal(s: LedgerState, current: Seq<u8>, attested: bool) -> Option<
    VaultError,
> {
    if !attested {
        Some(VaultError::MissingSignature)
    } else if current != s.owner() {
        Some(VaultError::Unauthorized)
    } else {
        None
    }
}

/// Why a delegated collection is refused, or `None` when it must succeed.
pub open spec fn collect_refusal(
    s: LedgerState,
    pinned: Seq<u8>,
    target: Seq<u8>,
    payer: Seq<u8>,
    attested: bool,
    reported: InvocationStatus,
    amount: u64,
) -> Option<VaultError> {
    if amount == 0 {
        Some(VaultError::InvalidAmount)
    } else if !s.vault_address_consistent() {
        Some(VaultError::AddressMismatch)
    } else if !s.has_record(payer) {
        Some(VaultError::AddressMismatch)
    } else if !attested {
        Some(VaultError::MissingSignature)
    } else if target != pinned {
        Some(VaultError::UnpinnedInvocationTarget)
    } else if reported is Failed {
        Some(VaultError::InvocationFailed)
    } else if s.balance() + amount > u64::MAX {
        Some(VaultError::MathOverflow)
    } else if s.credits_of(payer) + amount > u64::MAX {
        Some(VaultError::MathOverflow)
    } else {
        None
    }
}

impl LedgerState {
    /// The account's address.
    pub closed spec fn addr(&self) -> Seq<u8> {
        self.address@
    }

    /// The program id addresses are derived under.
    pub closed spec fn pid(&self) -> Seq<u8> {
        self.program_id@
    }

    /// The vault namespace tag.
    pub closed spec fn vtag(&self) -> Seq<u8> {
        self.vault_tag@
    }

    /// The credit namespace tag.
    pub closed spec fn ctag(&self) -> Seq<u8> {
        self.credit_tag@
    }

    /// The stored owner identity.
    pub closed spec fn owner(&self) -> Seq<u8> {
        self.account.owner@
    }

    /// The bump recorded when the account address was derived.
    pub closed spec fn bump(&self) -> u8 {
        self.account.bump
    }

    /// The account's recorded balance.
    pub closed spec fn balance(&self) -> u64 {
        self.account.balance
    }

    /// The credit records drawn on this account.
    pub closed spec fn recs(&self) -> Seq<CreditRecord> {
        self.records@
    }

    /// The credits recorded for `owner`; zero when no record exists.
    pub open spec fn credits_of(&self, owner: Seq<u8>) -> int {
        credits_in(self.recs(), owner)
    }

    /// Whether a credit record for `owner` exists.
    pub open spec fn has_record(&self, owner: Seq<u8>) -> bool {
        exists|i: int| 0 <= i < self.recs().len() && (#[trigger] self.recs()[i]).owner@ == owner
    }

    /// Whether the account address is derived from the vault tag and
    /// `identity` under the program id, with the recorded bump.
    pub open spec fn derives_vault_address(&self, identity: Seq<u8>) -> bool {
        matches_derivation(self.addr(), self.bump(), vault_seed_views(self.vtag(), identity), self.pid())
    }

    /// Whether the account address is derived from the stored owner.
    pub open spec fn vault_address_consistent(&self) -> bool {
        self.derives_vault_address(self.owner())
    }

    /// What derivation yields for `owner`'s credit record address.
    pub open spec fn credit_derivation(&self, owner: Seq<u8>) -> Option<(Seq<u8>, u8)> {
        derived_pair(credit_seed_views(self.ctag(), self.addr(), owner), self.pid())
    }

    /// Every record is bound to this account's address.
    pub open spec fn records_bound(&self) -> bool {
        forall|i: int|
            0 <= i < self.recs().len() ==> (#[trigger] self.recs()[i]).linked_account@
                == self.addr()
    }

    /// The state invariant: records are bound to this account, one record
    /// per owner, and the credits over all owners never exceed the balance.
    pub open spec fn wf(&self) -> bool {
        &&& self.records_bound()
        &&& owners_distinct(self.recs())
        &&& total_credits(self.recs()) <= self.balance()
    }

    fn find_record(&self, owner: &Address) -> (r: Option<usize>)
        ensures
            match r {
                Some(i) => i < self.recs().len() && self.recs()[i as int].owner@ == owner@,
                None => forall|j: int|
                    0 <= j < self.recs().len() ==> (#[trigger] self.recs()[j]).owner@ != owner@,
            },
    {
        let mut i: usize = 0;
        while i < self.records.len()
            invariant
                i <= self.records@.len(),
                forall|j: int| 0 <= j < i ==> (#[trigger] self.records@[j]).owner@ != owner@,
            decreases self.records@.len() - i,
        {
            if self.records[i].owner.equals(owner) {
                return Some(i);
            }
            i = i + 1;
        }
        None
    }

    /// The credits recorded for `owner`, zero when no record exists.
    pub fn credits_for(&self, owner: &Address) -> (r: u64)
        requires
            self.wf(),
        ensures
            r == self.credits_of(owner@),
    {
        match self.find_record(owner) {
            Some(i) => {
                proof {
                    lemma_owner_credits(self.recs(), owner@, i as int);
                }
                self.records[i].credits
            },
            None => {
                proof {
                    lemma_no_owner_no_credits(self.recs(), owner@);
                }
                0
            },
        }
    }

    /// Creates a zero-balance account for `owner` at the address derived
    /// from the vault namespace tag and the owner identity. The owner must
    /// supply a live authorization proof; when no address is derivable from
    /// those seeds the creation fails with `AddressMismatch`.
    pub fn initialize(
        owner: &Address,
        owner_attested: bool,
        program_id: &Address,
        vault_tag: Vec<u8>,
        credit_tag: Vec<u8>,
    ) -> (r: Result<LedgerState, VaultError>)
        ensures
            match r {
                Ok(s) => {
                    &&& owner_attested
                    &&& s.wf()
                    &&& s.owner() == owner@
                    &&& s.pid() == program_id@
                    &&& s.vtag() == vault_tag@
                    &&& s.ctag() == credit_tag@
                    &&& s.balance() == 0
                    &&& s.recs().len() == 0
                    &&& s.vault_address_consistent()
                },
                Err(e) => if !owner_attested {
                    e == VaultError::MissingSignature
                } else {
                    e == VaultError::AddressMismatch && derived_pair(
                        vault_seed_views(vault_tag@, owner@),
                        program_id@,
                    ) is None
                },
            },
    {
        match require_signer(owner, owner_attested) {
            Ok(_) => {},
            Err(e) => {
                return Err(e);
            },
        }
        let seeds = vault_seeds(&vault_tag, owner);
        match crate::address::derive(&seeds, program_id) {
            Some(p) => {
                let (addr, bump) = p;
                Ok(
                    LedgerState {
                        address: addr,
                        program_id: program_id.clone(),
                        vault_tag,
                        credit_tag,
                        account: Vault { owner: owner.clone(), bump, balance: 0 },
                        records: Vec::new(),
                    },
                )
            },
            None => Err(VaultError::AddressMismatch),
        }
    }

    /// Creates a zero-credit record bound to this account and `owner`, at
    /// the record address derived from the credit namespace tag, the account
    /// address and the owner identity; the derivation bump is stored in the
    /// record. One record per owner: a second creation is refused.
    pub fn initialize_credit(&mut self, owner: &Address, owner_attested: bool) -> (r: Result<
        (),
        VaultError,
    >)
        requires
            old(self).wf(),
        ensures
            final(self).wf(),
            match r {
                Ok(_) => {
                    &&& init_credit_refusal(*old(self), owner@, owner_attested) is None
                    &&& same_config(*old(self), *final(self))
                    &&& final(self).owner() == old(self).owner()
                    &&& final(self).bump() == old(self).bump()
                    &&& final(self).balance() == old(self).balance()
                    &&& final(self).recs().len() == old(self).recs().len() + 1
                    &&& final(self).has_record(owner@)
                    &&& final(self).credits_of(owner@) == 0
                    &&& (old(self).credit_derivation(owner@) matches Some(p) && final(self).recs()[old(self).recs().len() as int].bump == p.1)
                    &&& forall|o: Seq<u8>|
                        o != owner@ ==> (#[trigger] final(self).credits_of(o)) == old(self).credits_of(o)
                },
                Err(e) => {
                    &&& Some(e) == init_credit_refusal(*old(self), owner@, owner_attested)
                    &&& *final(self) == *old(self)
                },
            },
    {
        let vseeds = vault_seeds(&self.vault_tag, &self.account.owner);
        if !verify_derived(&self.address, self.account.bump, &vseeds, &self.program_id) {
            return Err(VaultError::AddressMismatch);
        }
        let cseeds = credit_seeds(&self.credit_tag, &self.address, owner);
        let cbump: u8 = match crate::address::derive(&cseeds, &self.program_id) {
            Some(p) => p.1,
            None => {
                return Err(VaultError::AddressMismatch);
            },
        };
        match require_signer(owner, owner_attested) {
            Ok(_) => {},
            Err(e) => {
                return Err(e);
            },
        }
        match self.find_record(owner) {
            Some(_) => {
                return Err(VaultError::AlreadyExists);
            },
            None => {},
        }
        let rec = CreditRecord {
            owner: owner.clone(),
            linked_account: self.address.clone(),
            bump: cbump,
            credits: 0,
        };
        let ghost grec = rec;
        proof {
            lemma_no_owner_no_credits(self.recs(), owner@);
        }
        self.records.push(rec);
        proof {
            let rs = old(self).recs();
            let rs2 = self.recs();
            assert(rs2 == rs.push(grec));
            lemma_sums_push(rs, grec, owner@);
            assert(rs2[rs.len() as int].owner@ == owner@);
            assert forall|o: Seq<u8>| o != owner@ implies (#[trigger] self.credits_of(o)) == old(self).credits_of(o) by {
                lemma_sums_push(rs, grec, o);
            }
            assert(owners_distinct(rs2)) by {
                assert forall|p: int, q: int|
                    #![trigger rs2[p], rs2[q]]
                    0 <= p < q < rs2.len() implies rs2[p].owner@ != rs2[q].owner@ by {
                    if q < rs.len() {
                        assert(rs2[p] == rs[p]);
                        assert(rs2[q] == rs[q]);
                    } else {
                        assert(rs2[p] == rs[p]);
                        assert(rs2[q] == grec);
                    }
                }
            }
            assert(self.records_bound()) by {
                assert forall|i: int|
                    0 <= i < rs2.len() implies (#[trigger] rs2[i]).linked_account@
                    == self.addr() by {
                    if i < rs.len() {
                        assert(rs2[i] == rs[i]);
                    } else {
                        assert(rs2[i] == grec);
                    }
                }
            }
        }
        Ok(())
    }

    /// Deposits `amount` into the account for `depositor`: the native units
    /// move from the depositor to the account first, and only then does the
    /// ledger record them, so a failed move can never inflate the recorded
    /// balance. The depositor must hold a credit record and supply a live
    /// authorization proof; every check runs before any mutation.
    pub fn deposit(
        &mut self,
        depositor: &Address,
        depositor_attested: bool,
        depositor_funds: &mut u64,
        vault_funds: &mut u64,
        amount: u64,
    ) -> (r: Result<(), VaultError>)
        requires
            old(self).wf(),
        ensures
            final(self).wf(),
            match r {
                Ok(_) => {
                    &&& deposit_refusal(
                        *old(self),
                        depositor@,
                        depositor_attested,
                        *old(depositor_funds),
                        *old(vault_funds),
                        amount,
                    ) is None
                    &&& deposit_post(*old(self), *final(self), depositor@, amount)
                    &&& *final(depositor_funds) == *old(depositor_funds) - amount
                    &&& *final(vault_funds) == *old(vault_funds) + amount
                },
                Err(e) => {
                    &&& Some(e) == deposit_refusal(
                        *old(self),
                        depositor@,
                        depositor_attested,
                        *old(depositor_funds),
                        *old(vault_funds),
                        amount,
                    )
                    &&& *final(self) == *old(self)
                    &&& *final(depositor_funds) == *old(depositor_funds)
                    &&& *final(vault_funds) == *old(vault_funds)
                },
            },
    {
        if amount == 0 {
            return Err(VaultError::InvalidAmount);
        }
        let vseeds = vault_seeds(&self.vault_tag, &self.account.owner);
        if !verify_derived(&self.address, self.account.bump, &vseeds, &self.program_id) {
            return Err(VaultError::AddressMismatch);
        }
        let i: usize = match self.find_record(depositor) {
            Some(i) => i,
            None => {
                return Err(VaultError::AddressMismatch);
            },
        };
        match require_signer(depositor, depositor_attested) {
            Ok(_) => {},
            Err(e) => {
                return Err(e);
            },
        }
        if *depositor_funds < amount {
            return Err(VaultError::InsufficientFunds);
        }
        let new_vault_funds: u64 = match (*vault_funds).checked_add(amount) {
            Some(v) => v,
            None => {
                return Err(VaultError::MathOverflow);
            },
        };
        let new_balance: u64 = match self.account.balance.checked_add(amount) {
            Some(b) => b,
            None => {
                return Err(VaultError::MathOverflow);
            },
        };
        proof {
            lemma_owner_credits(self.recs(), depositor@, i as int);
            lemma_credits_le_total(self.recs(), depositor@);
        }
        match self.records[i].credits.checked_add(amount) {
            Some(_) => {},
            None => {
                return Err(VaultError::MathOverflow);
            },
        }
        // every check has passed: the currency moves, then the ledger records it
        *depositor_funds = *depositor_funds - amount;
        *vault_funds = new_vault_funds;
        match self.account.credit(amount) {
            Ok(_) => {},
            Err(e) => {
                return Err(e);
            },
        }
        let bal = self.account.balance;
        let res = self.records[i].add_credits(amount, bal);
        proof {
            let rs = old(self).recs();
            let rs2 = self.recs();
            assert(rs2 == rs.update(i as int, rs2[i as int]));
            let rec2 = rs2[i as int];
            lemma_sums_update(rs, i as int, rec2, depositor@);
            assert forall|o: Seq<u8>| o != depositor@ implies (#[trigger] self.credits_of(o))
                == old(self).credits_of(o) by {
                lemma_sums_update(rs, i as int, rec2, o);
            }
            assert(owners_distinct(rs2)) by {
                assert forall|p: int, q: int|
                    #![trigger rs2[p], rs2[q]]
                    0 <= p < q < rs2.len() implies rs2[p].owner@ != rs2[q].owner@ by {
                    assert(rs[p].owner@ != rs[q].owner@);
                    assert(rs2[p].owner@ == rs[p].owner@);
                    assert(rs2[q].owner@ == rs[q].owner@);
                }
            }
            assert(self.records_bound()) by {
                assert forall|k: int|
                    0 <= k < rs2.len() implies (#[trigger] rs2[k]).linked_account@
                    == self.addr() by {
                    assert(rs2[k].linked_account@ == rs[k].linked_account@);
                }
            }
        }
        match res {
            Ok(_) => Ok(()),
            Err(e) => Err(e),
        }
    }

    /// Withdraws `amount` for `caller`: the account address must be the one
    /// derived from the caller's own identity (an address merely passed in
    /// is never trusted), the caller must be the stored owner with a live
    /// authorization proof, and the recipient must be the caller. The ledger
    /// decrements first and only then do the native units move out, so a
    /// repeated call can never draw twice against an undiminished balance.
    pub fn withdraw(
        &mut self,
        caller: &Address,
        caller_attested: bool,
        recipient: &Address,
        recipient_funds: &mut u64,
        vault_funds: &mut u64,
        amount: u64,
    ) -> (r: Result<(), VaultError>)
        requires
            old(self).wf(),
        ensures
            final(self).wf(),
            match r {
                Ok(_) => {
                    &&& withdraw_refusal(
                        *old(self),
                        caller@,
                        caller_attested,
                        recipient@,
                        *old(recipient_funds),
                        *old(vault_funds),
                        amount,
                    ) is None
                    &&& withdraw_post(*old(self), *final(self), caller@, amount)
                    &&& *final(recipient_funds) == *old(recipient_funds) + amount
                    &&& *final(vault_funds) == *old(vault_funds) - amount
                },
                Err(e) => {
                    &&& Some(e) == withdraw_refusal(
                        *old(self),
                        caller@,
                        caller_attested,
                        recipient@,
                        *old(recipient_funds),
                        *old(vault_funds),
                        amount,
                    )
                    &&& *final(self) == *old(self)
                    &&& *final(recipient_funds) == *old(recipient_funds)
                    &&& *final(vault_funds) == *old(vault_funds)
                },
            },
    {
        if amount == 0 {
            return Err(VaultError::InvalidAmount);
        }
        let vseeds = vault_seeds(&self.vault_tag, caller);
        if !verify_derived(&self.address, self.account.bump, &vseeds, &self.program_id) {
            return Err(VaultError::AddressMismatch);
        }
        match require_signer(caller, caller_attested) {
            Ok(_) => {},
            Err(e) => {
                return Err(e);
            },
        }
        match crate::auth::require_owner_match(&self.account.owner, caller) {
            Ok(_) => {},
            Err(e) => {
                return Err(e);
            },
        }
        if !recipient.equals(caller) {
            return Err(VaultError::Unauthorized);
        }
        let i: usize = match self.find_record(caller) {
            Some(i) => i,
            None => {
                proof {
                    lemma_no_owner_no_credits(self.recs(), caller@);
                }
                return Err(VaultError::InsufficientCredits);
            },
        };
        proof {
            lemma_owner_credits(self.recs(), caller@, i as int);
        }
        if self.records[i].credits < amount {
            return Err(VaultError::InsufficientCredits);
        }
        if self.account.balance < amount {
            return Err(VaultError::InsufficientFunds);
        }
        if *vault_funds < amount {
            return Err(VaultError::InsufficientFunds);
        }
        let new_recipient_funds: u64 = match (*recipient_funds).checked_add(amount) {
            Some(v) => v,
            None => {
                return Err(VaultError::MathOverflow);
            },
        };
        // the ledger decrements first, then the currency moves out
        let res = self.records[i].sub_credits(amount);
        match res {
            Ok(_) => {},
            Err(e) => {
                return Err(e);
            },
        }
        match self.account.debit(amount) {
            Ok(_) => {},
            Err(e) => {
                return Err(e);
            },
        }
        *vault_funds = *vault_funds - amount;
        *recipient_funds = new_recipient_funds;
        proof {
            let rs = old(self).recs();
            let rs2 = self.recs();
            assert(rs2 == rs.update(i as int, rs2[i as int]));
            let rec2 = rs2[i as int];
            lemma_sums_update(rs, i as int, rec2, caller@);
            assert forall|o: Seq<u8>| o != caller@ implies (#[trigger] self.credits_of(o)) == old(
                self,
            ).credits_of(o) by {
                lemma_sums_update(rs, i as int, rec2, o);
            }
            assert(owners_distinct(rs2)) by {
                assert forall|p: int, q: int|
                    #![trigger rs2[p], rs2[q]]
                    0 <= p < q < rs2.len() implies rs2[p].owner@ != rs2[q].owner@ by {
                    assert(rs[p].owner@ != rs[q].owner@);
                    assert(rs2[p].owner@ == rs[p].owner@);
                    assert(rs2[q].owner@ == rs[q].owner@);
                }
            }
            assert(self.records_bound()) by {
                assert forall|k: int|
                    0 <= k < rs2.len() implies (#[trigger] rs2[k]).linked_account@
                    == self.addr() by {
                    assert(rs2[k].linked_account@ == rs[k].linked_account@);
                }
            }
        }
        Ok(())
    }

    /// Changes the stored owner. The *current* authority must both supply a
    /// live authorization proof and match the stored owner; naming the right
    /// identity without a proof is refused with `MissingSignature`.
    pub fn set_authority(
        &mut self,
        current: &Address,
        current_attested: bool,
        new_owner: &Address,
    ) -> (r: Result<(), VaultError>)
        requires
            old(self).wf(),
        ensures
            final(self).wf(),
            match r {
                Ok(_) => {
                    &&& set_authority_refusal(*old(self), current@, current_attested) is None
                    &&& final(self).owner() == new_owner@
                    &&& same_config(*old(self), *final(self))
                    &&& final(self).bump() == old(self).bump()
                    &&& final(self).balance() == old(self).balance()
                    &&& final(self).recs() == old(self).recs()
                },
                Err(e) => {
                    &&& Some(e) == set_authority_refusal(*old(self), current@, current_attested)
                    &&& *final(self) == *old(self)
                },
            },
    {
        match require_signer(current, current_attested) {
            Ok(_) => {},
            Err(e) => {
                return Err(e);
            },
        }
        match crate::auth::require_owner_match(&self.account.owner, current) {
            Ok(_) => {},
            Err(e) => {
                return Err(e);
            },
        }
        self.account.owner = new_owner.clone();
        Ok(())
    }

    /// Settles a delegated collection of `amount` from `payer`, performed by
    /// the counterparty named `target`, which reported `reported`. Only a
    /// success reported by the gateway's pinned counterparty is treated as a
    /// real value-transfer event and recorded like a deposit; success from
    /// any other target surfaces as `UnpinnedInvocationTarget` and credits
    /// nothing.
    pub fn collect_payment(
        &mut self,
        gateway: &InvocationGateway,
        target: &Address,
        payer: &Address,
        payer_attested: bool,
        amount: u64,
        reported: InvocationStatus,
    ) -> (r: Result<(), VaultError>)
        requires
            old(self).wf(),
        ensures
            final(self).wf(),
            match r {
                Ok(_) => {
                    &&& collect_refusal(
                        *old(self),
                        gateway.pinned(),
                        target@,
                        payer@,
                        payer_attested,
                        reported,
                        amount,
                    ) is None
                    &&& deposit_post(*old(self), *final(self), payer@, amount)
                },
                Err(e) => {
                    &&& Some(e) == collect_refusal(
                        *old(self),
                        gateway.pinned(),
                        target@,
                        payer@,
                        payer_attested,
                        reported,
                        amount,
                    )
                    &&& *final(self) == *old(self)
                },
            },
    {
        if amount == 0 {
            return Err(VaultError::InvalidAmount);
        }
        let vseeds = vault_seeds(&self.vault_tag, &self.account.owner);
        if !verify_derived(&self.address, self.account.bump, &vseeds, &self.program_id) {
            return Err(VaultError::AddressMismatch);
        }
        let i: usize = match self.find_record(payer) {
            Some(i) => i,
            None => {
                return Err(VaultError::AddressMismatch);
            },
        };
        match require_signer(payer, payer_attested) {
            Ok(_) => {},
            Err(e) => {
                return Err(e);
            },
        }
        match gateway.evaluate(target, reported) {
            Ok(_) => {},
            Err(e) => {
                return Err(e);
            },
        }
        let new_balance: u64 = match self.account.balance.checked_add(amount) {
            Some(b) => b,
            None => {
                return Err(VaultError::MathOverflow);
            },
        };
        proof {
            lemma_owner_credits(self.recs(), payer@, i as int);
            lemma_credits_le_total(self.recs(), payer@);
        }
        match self.records[i].credits.checked_add(amount) {
            Some(_) => {},
            None => {
                return Err(VaultError::MathOverflow);
            },
        }
        match self.account.credit(amount) {
            Ok(_) => {},
            Err(e) => {
                return Err(e);
            },
        }
        let bal = self.account.balance;
        let res = self.records[i].add_credits(amount, bal);
        proof {
            let rs = old(self).recs();
            let rs2 = self.recs();
            assert(rs2 == rs.update(i as int, rs2[i as int]));
            let rec2 = rs2[i as int];
            lemma_sums_update(rs, i as int, rec2, payer@);
            assert forall|o: Seq<u8>| o != payer@ implies (#[trigger] self.credits_of(o)) == old(
                self,
            ).credits_of(o) by {
                lemma_sums_update(rs, i as int, rec2, o);
            }
            assert(owners_distinct(rs2)) by {
                assert forall|p: int, q: int|
                    #![trigger rs2[p], rs2[q]]
                    0 <= p < q < rs2.len() implies rs2[p].owner@ != rs2[q].owner@ by {
                    assert(rs[p].owner@ != rs[q].owner@);
                    assert(rs2[p].owner@ == rs[p].owner@);
                    assert(rs2[q].owner@ == rs[q].owner@);
                }
            }
            assert(self.records_bound()) by {
                assert forall|k: int|
                    0 <= k < rs2.len() implies (#[trigger] rs2[k]).linked_account@
                    == self.addr() by {
                    assert(rs2[k].linked_account@ == rs[k].linked_account@);
                }
            }
        }
        match res {
            Ok(_) => Ok(()),
            Err(e) => Err(e),
        }
    }

    /// The account's address, borrowed.
    pub fn account_address(&self) -> (r: &Address)
        ensures
            r@ == self.addr(),
    {
        &self.address
    }

    /// The stored owner identity, borrowed.
    pub fn owner_identity(&self) -> (r: &Address)
        ensures
            r@ == self.owner(),
    {
        &self.account.owner
    }

    /// The recorded balance.
    pub fn current_balance(&self) -> (r: u64)
        ensures
            r == self.balance(),
    {
        self.account.balance
    }

    /// The bump recorded when the account address was derived.
    pub fn stored_bump(&self) -> (r: u8)
        ensures
            r == self.bump(),
    {
        self.account.bump
    }
}

/// Balances are unsigned quantities: after every operation the recorded
/// balance of any account is at least zero.
pub proof fn lemma_balance_nonnegative(s: LedgerState)
    ensures
        0 <= s.balance(),
{
}

/// In a well-formed state, the credits recorded for any owner never exceed
/// the account's balance: the sum over all owners is bounded by the balance
/// and every single counter is bounded by that sum.
pub proof fn lemma_credits_bounded_by_balance(s: LedgerState, owner: Seq<u8>)
    requires
        s.wf(),
    ensures
        0 <= s.credits_of(owner) <= s.balance(),
{
    lemma_credits_le_total(s.recs(), owner);
}

/// Round trip: a deposit followed by a withdrawal of the same amount
/// returns the balance and every owner's credits to their prior values.
pub proof fn lemma_deposit_withdraw_round_trip(
    s0: LedgerState,
    s1: LedgerState,
    s2: LedgerState,
    owner: Seq<u8>,
    amount: u64,
)
    requires
        deposit_post(s0, s1, owner, amount),
        withdraw_post(s1, s2, owner, amount),
    ensures
        s2.balance() == s0.balance(),
        forall|o: Seq<u8>| (#[trigger] s2.credits_of(o)) == s0.credits_of(o),
{
    assert forall|o: Seq<u8>| (#[trigger] s2.credits_of(o)) == s0.credits_of(o) by {
        if o != owner {
            assert(s1.credits_of(o) == s0.credits_of(o));
            assert(s2.credits_of(o) == s1.credits_of(o));
        }
    }
}

} // verus!
