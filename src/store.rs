//! The counter state machine: records kept by address, created once by
//! `initialize` and changed only by `increment`.
use vstd::prelude::*;
use crate::address::{counter_address, counter_address_of, counter_tag_bytes, verify};
use crate::identity::Identity;
use crate::record::Counter;

verus! {

/// Why an operation was refused. A refused operation changes nothing.
#[derive(Clone, Copy, Debug, PartialEq, Eq, Structural)]
pub enum ErrorCode {
    /// The record's owner is not the identity that asked.
    Unauthorized,
    /// The count is already the largest `u64`.
    Overflow,
    /// A record already exists at the address.
    AlreadyInitialized,
    /// No record exists at the address.
    NotFound,
    /// The address is not the one derived from the owner.
    AddressMismatch,
    /// The funding source cannot pay for the record's storage.
    AllocationFailed,
}

/// What `initialize` is asked: create the counter of `user` at `counter`,
/// paid from the `user_lamports` that `user` holds.
#[derive(Clone, Copy, Debug)]
pub struct Initialize {
    pub counter: Identity,
    pub user: Identity,
    pub user_lamports: u64,
}

/// What `increment` is asked: `authority` increments the counter at `counter`.
#[derive(Clone, Copy, Debug)]
pub struct Increment {
    pub counter: Identity,
    pub authority: Identity,
}

/// The records of a store, by address: each is its count and its owner.
pub type Records = Map<Seq<u8>, (u64, Seq<u8>)>;

/// The result of `initialize` on a store with `recs`, under `program`, where
/// a record's storage costs `rent`.
pub open spec fn init_outcome(recs: Records, program: Seq<u8>, rent: u64, ctx: Initialize) -> Result<
    u64,
    ErrorCode,
> {
    if counter_address_of(ctx.user@, program) != Some(ctx.counter@) {
        Err(ErrorCode::AddressMismatch)
    } else if recs.contains_key(ctx.counter@) {
        Err(ErrorCode::AlreadyInitialized)
    } else if ctx.user_lamports < rent {
        Err(ErrorCode::AllocationFailed)
    } else {
        Ok(0)
    }
}

/// The records after `initialize`.
pub open spec fn init_records(recs: Records, program: Seq<u8>, rent: u64, ctx: Initialize) -> Records {
    if init_outcome(recs, program, rent, ctx) is Ok {
        recs.insert(ctx.counter@, (0u64, ctx.user@))
    } else {
        recs
    }
}

/// The result of `increment` on a store with `recs`, under `program`.
pub open spec fn increment_outcome(recs: Records, program: Seq<u8>, ctx: Increment) -> Result<
    u64,
    ErrorCode,
> {
    if counter_address_of(ctx.authority@, program) != Some(ctx.counter@) {
        Err(ErrorCode::AddressMismatch)
    } else if !recs.contains_key(ctx.counter@) {
        Err(ErrorCode::NotFound)
    } else if recs[ctx.counter@].1 != ctx.authority@ {
        Err(ErrorCode::Unauthorized)
    } else if recs[ctx.counter@].0 == u64::MAX {
        Err(ErrorCode::Overflow)
    } else {
        Ok((recs[ctx.counter@].0 + 1) as u64)
    }
}

/// The records after `increment`.
pub open spec fn increment_records(recs: Records, program: Seq<u8>, ctx: Increment) -> Records {
    match increment_outcome(recs, program, ctx) {
        Ok(n) => recs.insert(ctx.counter@, (n, recs[ctx.counter@].1)),
        Err(_) => recs,
    }
}

/// The records after `n` calls of `increment` with the same `ctx`.
pub open spec fn increments(recs: Records, program: Seq<u8>, ctx: Increment, n: nat) -> Records
    decreases n,
{
    if n == 0 {
        recs
    } else {
        increment_records(increments(recs, program, ctx, (n - 1) as nat), program, ctx)
    }
}

/// One stored record and the address it is kept at.
#[derive(Clone, Copy, Debug)]
pub struct Account {
    pub address: Identity,
    pub counter: Counter,
}

/// The records of one program, each at the address derived from its owner.
pub struct CounterStore {
    program_id: Identity,
    rent_minimum: u64,
    accounts: Vec<Account>,
    records: Ghost<Records>,
}

impl View for CounterStore {
    type V = Records;

    closed spec fn view(&self) -> Records {
        self.records@
    }
}

impl CounterStore {
    /// The program under which addresses are derived.
    pub closed spec fn program(&self) -> Seq<u8> {
        self.program_id@
    }

    /// The lamports that the storage of one record costs.
    pub closed spec fn rent(&self) -> u64 {
        self.rent_minimum
    }

    /// The accounts list the records exactly, at distinct addresses.
    pub closed spec fn wf(&self) -> bool {
        &&& forall|i: int|
            0 <= i < self.accounts@.len() ==> #[trigger] self.records@.contains_key(
                self.accounts@[i].address@,
            ) && self.records@[self.accounts@[i].address@] == self.accounts@[i].counter@
        &&& forall|k: Seq<u8>| #[trigger]
            self.records@.contains_key(k) ==> exists|i: int|
                0 <= i < self.accounts@.len() && #[trigger] self.accounts@[i].address@ == k
        &&& forall|i: int, j: int|
            0 <= i < j < self.accounts@.len() ==> #[trigger] self.accounts@[i].address@
                != #[trigger] self.accounts@[j].address@
        &&& self.at_derived_addresses()
    }

    /// Every record lies at the address derived from its owner.
    pub open spec fn at_derived_addresses(&self) -> bool {
        forall|k: Seq<u8>| #[trigger]
            self@.contains_key(k) ==> counter_address_of(self@[k].1, self.program()) == Some(k)
    }

    /// A well-formed store keeps every record at the address derived from its owner.
    pub proof fn records_at_derived_addresses(&self)
        requires
            self.wf(),
        ensures
            self.at_derived_addresses(),
    {
    }

    /// An empty store for `program_id`, where a record's storage costs `rent_minimum`.
    pub fn new(program_id: Identity, rent_minimum: u64) -> (r: CounterStore)
        ensures
            r.wf(),
            r@ == Records::empty(),
            r.program() == program_id@,
            r.rent() == rent_minimum,
    {
        CounterStore {
            program_id,
            rent_minimum,
            accounts: Vec::new(),
            records: Ghost(Map::empty()),
        }
    }

    pub fn program_id(&self) -> (r: Identity)
        ensures
            r@ == self.program(),
    {
        self.program_id
    }

    pub fn rent_minimum(&self) -> (r: u64)
        ensures
            r == self.rent(),
    {
        self.rent_minimum
    }

    /// The position of the account at `address`, if there is one.
    fn find(&self, address: &Identity) -> (r: Option<usize>)
        requires
            self.wf(),
        ensures
            r is None <==> !self@.contains_key(address@),
            r is Some ==> r.unwrap() < self.accounts@.len() && self.accounts@[r.unwrap() as int].address@
                == address@,
    {
        let mut i: usize = 0;
        while i < self.accounts.len()
            invariant
                self.wf(),
                i <= self.accounts@.len(),
                forall|j: int| 0 <= j < i ==> self.accounts@[j].address@ != address@,
            decreases self.accounts@.len() - i,
        {
            if self.accounts[i].address == *address {
                assert(self.records@.contains_key(self.accounts@[i as int].address@));
                return Some(i);
            }
            i = i + 1;
        }
        proof {
            if self.records@.contains_key(address@) {
                let k = address@;
                assert(exists|j: int|
                    0 <= j < self.accounts@.len() && #[trigger] self.accounts@[j].address@ == k);
            }
        }
        None
    }

    /// Adds the record `c` at `address`, where there is none yet.
    fn push_account(&mut self, address: Identity, c: Counter)
        requires
            old(self).wf(),
            !old(self)@.contains_key(address@),
            counter_address_of(c.authority@, old(self).program()) == Some(address@),
        ensures
            final(self).wf(),
            final(self)@ == old(self)@.insert(address@, c@),
            final(self).program() == old(self).program(),
            final(self).rent() == old(self).rent(),
    {
        let ghost old_accounts = self.accounts@;
        let ghost old_records = self.records@;
        self.accounts.push(Account { address, counter: c });
        self.records = Ghost(self.records@.insert(address@, c@));
        let ghost n = old_accounts.len();
        assert forall|i: int| 0 <= i < self.accounts@.len() implies #[trigger] self.records@.contains_key(
            self.accounts@[i].address@,
        ) && self.records@[self.accounts@[i].address@] == self.accounts@[i].counter@ by {
            if i < n {
                assert(old_accounts[i] == self.accounts@[i]);
                assert(old_records.contains_key(old_accounts[i].address@));
            }
        }
        assert forall|k: Seq<u8>| #[trigger] self.records@.contains_key(k) implies exists|i: int|
            0 <= i < self.accounts@.len() && #[trigger] self.accounts@[i].address@ == k by {
            if k == address@ {
                assert(self.accounts@[n as int].address@ == k);
            } else {
                assert(old_records.contains_key(k));
                let i = choose|i: int| 0 <= i < old_accounts.len() && #[trigger] old_accounts[i].address@ == k;
                assert(self.accounts@[i] == old_accounts[i]);
            }
        }
        assert forall|i: int, j: int|
            0 <= i < j < self.accounts@.len() implies #[trigger] self.accounts@[i].address@
                != #[trigger] self.accounts@[j].address@ by {
            assert(self.accounts@[i] == old_accounts[i]);
            if j < n {
                assert(self.accounts@[j] == old_accounts[j]);
            } else {
                assert(old_records.contains_key(old_accounts[i].address@));
            }
        }
    }

    /// Sets the count of the account at position `i`.
    fn set_count(&mut self, i: usize, count: u64)
        requires
            old(self).wf(),
            i < old(self).accounts@.len(),
        ensures
            final(self).wf(),
            final(self)@ == old(self)@.insert(
                old(self).accounts@[i as int].address@,
                (count, old(self)@[old(self).accounts@[i as int].address@].1),
            ),
            final(self).program() == old(self).program(),
            final(self).rent() == old(self).rent(),
    {
        let ghost old_accounts = self.accounts@;
        let ghost old_records = self.records@;
        let a = self.accounts[i];
        assert(old_records.contains_key(old_accounts[i as int].address@));
        let updated = Account { address: a.address, counter: Counter { count, authority: a.counter.authority } };
        self.accounts.set(i, updated);
        self.records = Ghost(self.records@.insert(a.address@, updated.counter@));
        assert forall|j: int| 0 <= j < self.accounts@.len() implies #[trigger] self.records@.contains_key(
            self.accounts@[j].address@,
        ) && self.records@[self.accounts@[j].address@] == self.accounts@[j].counter@ by {
            if j != i {
                assert(old_accounts[j] == self.accounts@[j]);
                assert(old_records.contains_key(old_accounts[j].address@));
            }
        }
        assert forall|k: Seq<u8>| #[trigger] self.records@.contains_key(k) implies exists|j: int|
            0 <= j < self.accounts@.len() && #[trigger] self.accounts@[j].address@ == k by {
            assert(old_records.contains_key(k));
            let j = choose|j: int| 0 <= j < old_accounts.len() && #[trigger] old_accounts[j].address@ == k;
            assert(self.accounts@[j].address@ == old_accounts[j].address@);
        }
        assert forall|j: int, l: int|
            0 <= j < l < self.accounts@.len() implies #[trigger] self.accounts@[j].address@
                != #[trigger] self.accounts@[l].address@ by {
            assert(self.accounts@[j].address@ == old_accounts[j].address@);
            assert(self.accounts@[l].address@ == old_accounts[l].address@);
        }
        assert forall|k: Seq<u8>| #[trigger] self.records@.contains_key(k) implies counter_address_of(
            self.records@[k].1,
            self.program_id@,
        ) == Some(k) by {
            assert(old_records.contains_key(k));
        }
    }

    /// Two records of a well-formed store with the same owner are one record.
    pub proof fn one_record_per_owner(&self, k1: Seq<u8>, k2: Seq<u8>)
        requires
            self.wf(),
            self@.contains_key(k1),
            self@.contains_key(k2),
            self@[k1].1 == self@[k2].1,
        ensures
            k1 == k2,
    {
    }

    /// The record at `address`.
    pub fn get(&self, address: &Identity) -> (r: Option<Counter>)
        requires
            self.wf(),
        ensures
            r is Some <==> self@.contains_key(address@),
            r is Some ==> r.unwrap()@ == self@[address@],
    {
        match self.find(address) {
            Some(i) => {
                assert(self.records@.contains_key(self.accounts@[i as int].address@));
                Some(self.accounts[i].counter)
            },
            None => None,
        }
    }

    /// The record that `owner` holds, read at the address derived from it.
    pub fn fetch(&self, owner: &Identity) -> (r: Option<Counter>)
        requires
            self.wf(),
        ensures
            r is Some <==> (counter_address_of(owner@, self.program()) is Some
                && self@.contains_key(counter_address_of(owner@, self.program())->0)),
            r is Some ==> r.unwrap()@ == self@[counter_address_of(owner@, self.program())->0],
    {
        match counter_address(owner, &self.program_id) {
            Some(a) => self.get(&a),
            None => None,
        }
    }
}

/// Adds one to `count`, failing rather than wrapping at the largest `u64`.
pub fn checked_increment(count: u64) -> (r: Result<u64, ErrorCode>)
    ensures
        count < u64::MAX ==> r == Ok::<u64, ErrorCode>((count + 1) as u64),
        count == u64::MAX ==> r == Err::<u64, ErrorCode>(ErrorCode::Overflow),
{
    match count.checked_add(1) {
        Some(n) => Ok(n),
        None => Err(ErrorCode::Overflow),
    }
}

/// Whether `claimed` may change `record`: it must be the record's owner.
pub fn is_authorized(record: &Counter, claimed: &Identity) -> (r: bool)
    ensures
        r == (record.authority@ == claimed@),
{
    record.authority == *claimed
}

/// Creates the counter of `ctx.user` at `ctx.counter`, with a count of 0.
/// Returns that count.
pub fn initialize(store: &mut CounterStore, ctx: &Initialize) -> (r: Result<u64, ErrorCode>)
    requires
        old(store).wf(),
    ensures
        final(store).wf(),
        final(store).program() == old(store).program(),
        final(store).rent() == old(store).rent(),
        r == init_outcome(old(store)@, old(store).program(), old(store).rent(), *ctx),
        final(store)@ == init_records(old(store)@, old(store).program(), old(store).rent(), *ctx),
{
    let tag = counter_tag_bytes();
    if !verify(&ctx.counter, tag.as_slice(), &ctx.user, &store.program_id) {
        return Err(ErrorCode::AddressMismatch);
    }
    if store.find(&ctx.counter).is_some() {
        return Err(ErrorCode::AlreadyInitialized);
    }
    if ctx.user_lamports < store.rent_minimum {
        return Err(ErrorCode::AllocationFailed);
    }
    store.push_account(ctx.counter, Counter { count: 0, authority: ctx.user });
    Ok(0)
}

/// Adds one to the counter at `ctx.counter`, on behalf of `ctx.authority`.
/// Returns the new count.
pub fn increment(store: &mut CounterStore, ctx: &Increment) -> (r: Result<u64, ErrorCode>)
    requires
        old(store).wf(),
    ensures
        final(store).wf(),
        final(store).program() == old(store).program(),
        final(store).rent() == old(store).rent(),
        r == increment_outcome(old(store)@, old(store).program(), *ctx),
        final(store)@ == increment_records(old(store)@, old(store).program(), *ctx),
{
    let tag = counter_tag_bytes();
    if !verify(&ctx.counter, tag.as_slice(), &ctx.authority, &store.program_id) {
        return Err(ErrorCode::AddressMismatch);
    }
    let i = match store.find(&ctx.counter) {
        Some(i) => i,
        None => {
            return Err(ErrorCode::NotFound);
        },
    };
    let c = store.accounts[i].counter;
    assert(store.records@.contains_key(store.accounts@[i as int].address@));
    if !is_authorized(&c, &ctx.authority) {
        return Err(ErrorCode::Unauthorized);
    }
    let n = match checked_increment(c.count) {
        Ok(n) => n,
        Err(e) => {
            return Err(e);
        },
    };
    store.set_count(i, n);
    Ok(n)
}

/// A counter is created once: after `initialize` succeeds, its record holds a
/// count of 0 and the owner, and every later `initialize` for the same owner
/// fails and changes nothing; at the same address it fails as already
/// initialized.
pub proof fn initialize_once(
    recs: Records,
    program: Seq<u8>,
    rent: u64,
    ctx: Initialize,
    again: Initialize,
)
    requires
        init_outcome(recs, program, rent, ctx) is Ok,
        again.user@ == ctx.user@,
    ensures
        init_records(recs, program, rent, ctx).contains_key(ctx.counter@),
        init_records(recs, program, rent, ctx)[ctx.counter@] == (0u64, ctx.user@),
        init_outcome(init_records(recs, program, rent, ctx), program, rent, again) is Err,
        init_records(init_records(recs, program, rent, ctx), program, rent, again)
            == init_records(recs, program, rent, ctx),
        again.counter@ == ctx.counter@ ==> init_outcome(
            init_records(recs, program, rent, ctx),
            program,
            rent,
            again,
        ) == Err::<u64, ErrorCode>(ErrorCode::AlreadyInitialized),
{
}

proof fn increments_from(recs: Records, program: Seq<u8>, ctx: Increment, c: u64, n: nat)
    requires
        counter_address_of(ctx.authority@, program) == Some(ctx.counter@),
        recs.contains_key(ctx.counter@),
        recs[ctx.counter@] == (c, ctx.authority@),
        c + n <= u64::MAX,
    ensures
        increments(recs, program, ctx, n).contains_key(ctx.counter@),
        increments(recs, program, ctx, n)[ctx.counter@] == ((c + n) as u64, ctx.authority@),
    decreases n,
{
    if n > 0 {
        increments_from(recs, program, ctx, c, (n - 1) as nat);
    }
}

/// After a counter is created, `n` increments by its owner leave a count of
/// exactly `n`, each step adding one.
pub proof fn increments_count_up(
    recs: Records,
    program: Seq<u8>,
    rent: u64,
    init: Initialize,
    ctx: Increment,
    n: nat,
)
    requires
        init_outcome(recs, program, rent, init) is Ok,
        ctx.counter@ == init.counter@,
        ctx.authority@ == init.user@,
        n <= u64::MAX,
    ensures
        increments(init_records(recs, program, rent, init), program, ctx, n)[ctx.counter@] == (
        n as u64,
        ctx.authority@,
        ),
        forall|k: nat|
            k < n ==> #[trigger] increment_outcome(
                increments(init_records(recs, program, rent, init), program, ctx, k),
                program,
                ctx,
            ) == Ok::<u64, ErrorCode>((k + 1) as u64),
{
    let start = init_records(recs, program, rent, init);
    increments_from(start, program, ctx, 0, n);
    assert forall|k: nat| k < n implies #[trigger] increment_outcome(
        increments(start, program, ctx, k),
        program,
        ctx,
    ) == Ok::<u64, ErrorCode>((k + 1) as u64) by {
        increments_from(start, program, ctx, 0, k);
    }
}

/// `increment` changes no owner, no other record, and no count but by adding
/// one to the count it targets.
pub proof fn increment_is_local(recs: Records, program: Seq<u8>, ctx: Increment, k: Seq<u8>)
    requires
        recs.contains_key(k),
    ensures
        increment_records(recs, program, ctx).dom() == recs.dom(),
        increment_records(recs, program, ctx)[k].1 == recs[k].1,
        recs[k].0 <= increment_records(recs, program, ctx)[k].0 <= recs[k].0 + 1,
        k != ctx.counter@ ==> increment_records(recs, program, ctx)[k] == recs[k],
{
    assert(increment_records(recs, program, ctx).dom() =~= recs.dom());
}

/// An `increment` on behalf of anyone but the owner of the record at the
/// target address, or where there is no record, fails and changes nothing.
pub proof fn increment_by_other_fails(recs: Records, program: Seq<u8>, ctx: Increment)
    requires
        !(recs.contains_key(ctx.counter@) && recs[ctx.counter@].1 == ctx.authority@),
    ensures
        increment_records(recs, program, ctx) == recs,
        increment_outcome(recs, program, ctx) == Err::<u64, ErrorCode>(ErrorCode::AddressMismatch)
            || increment_outcome(recs, program, ctx) == Err::<u64, ErrorCode>(ErrorCode::NotFound)
            || increment_outcome(recs, program, ctx) == Err::<u64, ErrorCode>(
            ErrorCode::Unauthorized,
        ),
{
}

/// A count at the largest `u64` is never incremented: the owner's request
/// fails with an overflow, and nothing changes.
pub proof fn increment_at_max_overflows(recs: Records, program: Seq<u8>, ctx: Increment)
    requires
        recs.contains_key(ctx.counter@),
        recs[ctx.counter@].0 == u64::MAX,
    ensures
        increment_outcome(recs, program, ctx) is Err,
        increment_records(recs, program, ctx) == recs,
        counter_address_of(ctx.authority@, program) == Some(ctx.counter@) && recs[ctx.counter@].1
            == ctx.authority@ ==> increment_outcome(recs, program, ctx) == Err::<u64, ErrorCode>(
            ErrorCode::Overflow,
        ),
{
}

} // verus!
