//! The ledger: what the registry's collaborators keep, held in memory.
//!
//! One address space holds every account, whichever collaborator made it:
//! the account store its records, the token service its mints and holdings,
//! the metadata registry its descriptions. An address holds one account at
//! most, and no account is ever removed.
//!
//! Each operation is stated as a step from the state before to the state
//! after, or to the reason why it was refused; a refused step changes
//! nothing.

use vstd::prelude::*;
use crate::address::Address;
use crate::error::RegistryError;

verus! {

/// A record of the account store: a buffer of reserved size that belongs
/// to a program.
#[derive(Debug)]
pub struct Record {
    /// The program that the record belongs to.
    pub owner: Address,
    /// The bytes reserved for the record.
    pub space: u64,
    /// The bytes written so far.
    pub data: Vec<u8>,
}

/// A record as plain values.
pub struct RecordView {
    pub owner: Seq<u8>,
    pub space: u64,
    pub data: Seq<u8>,
}

/// A mint of the token service.
#[derive(Clone, Copy, Debug)]
pub struct Mint {
    /// The decimal places of a unit.
    pub decimals: u8,
    /// Who may issue units.
    pub authority: Address,
    /// The units issued so far.
    pub supply: u64,
}

/// A mint as plain values.
pub struct MintView {
    pub decimals: u8,
    pub authority: Seq<u8>,
    pub supply: u64,
}

/// A holding of the token service: the units of one mint that one owner has.
#[derive(Clone, Copy, Debug)]
pub struct Holding {
    pub mint: Address,
    pub owner: Address,
    pub amount: u64,
}

/// A holding as plain values.
pub struct HoldingView {
    pub mint: Seq<u8>,
    pub owner: Seq<u8>,
    pub amount: u64,
}

/// A description of a mint, as the metadata registry keeps it.
#[derive(Debug)]
pub struct Metadata {
    /// The mint described.
    pub mint: Address,
    /// The mint's authority, which must agree to the description.
    pub mint_authority: Address,
    /// Who may change the description.
    pub update_authority: Address,
    /// The display name.
    pub name: String,
    pub symbol: String,
    /// Where the content is found.
    pub uri: String,
    /// The royalty on a sale, in hundredths of a percent.
    pub seller_fee_basis_points: u16,
    /// The creators, where a list of them is kept.
    pub creators: Option<Vec<Address>>,
    /// The collection that the mint is part of, if any.
    pub collection: Option<Address>,
    /// How often the token may be used, where its use is counted.
    pub uses: Option<u64>,
}

/// A description as plain values.
pub struct MetadataView {
    pub mint: Seq<u8>,
    pub mint_authority: Seq<u8>,
    pub update_authority: Seq<u8>,
    pub name: Seq<char>,
    pub symbol: Seq<char>,
    pub uri: Seq<char>,
    pub seller_fee_basis_points: u16,
    pub creators: Option<Seq<Seq<u8>>>,
    pub collection: Option<Seq<u8>>,
    pub uses: Option<u64>,
}

/// What an address holds.
#[derive(Debug)]
pub enum Account {
    Record(Record),
    Mint(Mint),
    Holding(Holding),
    Metadata(Metadata),
}

/// An account as plain values.
pub enum AccountView {
    Record(RecordView),
    Mint(MintView),
    Holding(HoldingView),
    Metadata(MetadataView),
}

impl View for Record {
    type V = RecordView;

    open spec fn view(&self) -> RecordView {
        RecordView { owner: self.owner@, space: self.space, data: self.data@ }
    }
}

impl View for Mint {
    type V = MintView;

    open spec fn view(&self) -> MintView {
        MintView { decimals: self.decimals, authority: self.authority@, supply: self.supply }
    }
}

impl View for Holding {
    type V = HoldingView;

    open spec fn view(&self) -> HoldingView {
        HoldingView { mint: self.mint@, owner: self.owner@, amount: self.amount }
    }
}

impl View for Metadata {
    type V = MetadataView;

    open spec fn view(&self) -> MetadataView {
        MetadataView {
            mint: self.mint@,
            mint_authority: self.mint_authority@,
            update_authority: self.update_authority@,
            name: self.name@,
            symbol: self.symbol@,
            uri: self.uri@,
            seller_fee_basis_points: self.seller_fee_basis_points,
            creators: match self.creators {
                Some(list) => Some(Seq::new(list@.len(), |i: int| list@[i]@)),
                None => None,
            },
            collection: match self.collection {
                Some(address) => Some(address@),
                None => None,
            },
            uses: self.uses,
        }
    }
}

impl View for Account {
    type V = AccountView;

    open spec fn view(&self) -> AccountView {
        match self {
            Account::Record(record) => AccountView::Record(record@),
            Account::Mint(mint) => AccountView::Mint(mint@),
            Account::Holding(holding) => AccountView::Holding(holding@),
            Account::Metadata(metadata) => AccountView::Metadata(metadata@),
        }
    }
}

impl AccountView {
    /// Whether the account keeps within what it reserved: a record has no
    /// more bytes than its space.
    pub open spec fn fits(self) -> bool {
        self matches AccountView::Record(record) ==> record.data.len() <= record.space
    }
}

/// The state of the ledger: what each address in use holds.
pub type State = Map<Seq<u8>, AccountView>;

/// Whether an operation went as its step says: on success the state is the
/// step's, on refusal the error is the step's and the state is unchanged.
pub open spec fn went<T>(
    step: Result<State, RegistryError>,
    result: Result<T, RegistryError>,
    before: State,
    after: State,
) -> bool {
    match step {
        Ok(state) => result is Ok && after == state,
        Err(error) => result is Err && result->Err_0 == error && after == before,
    }
}

/// Reserving `space` bytes at `address` for `owner`: refused where the
/// address is in use.
pub open spec fn allocate_step(state: State, address: Seq<u8>, space: u64, owner: Seq<u8>) -> Result<
    State,
    RegistryError,
> {
    if state.dom().contains(address) {
        Err(RegistryError::AlreadyExists)
    } else {
        Ok(
            state.insert(
                address,
                AccountView::Record(RecordView { owner, space, data: Seq::empty() }),
            ),
        )
    }
}

/// The bytes of the record at `address`, if a record is there.
pub open spec fn stored(state: State, address: Seq<u8>) -> Option<Seq<u8>> {
    if state.dom().contains(address) {
        match state[address] {
            AccountView::Record(record) => Some(record.data),
            _ => None,
        }
    } else {
        None
    }
}

/// Writing `bytes` as the record at `address`: refused where no record is
/// there, and where the bytes are more than the record reserved.
pub open spec fn write_step(state: State, address: Seq<u8>, bytes: Seq<u8>) -> Result<
    State,
    RegistryError,
> {
    if !state.dom().contains(address) {
        Err(RegistryError::NotFound)
    } else {
        match state[address] {
            AccountView::Record(record) => if bytes.len() > record.space {
                Err(RegistryError::CapacityExceeded)
            } else {
                Ok(
                    state.insert(
                        address,
                        AccountView::Record(
                            RecordView { owner: record.owner, space: record.space, data: bytes },
                        ),
                    ),
                )
            },
            _ => Err(RegistryError::NotFound),
        }
    }
}

/// Creating a mint at `address`, with nothing issued yet: refused where
/// the address is in use.
pub open spec fn create_mint_step(
    state: State,
    address: Seq<u8>,
    decimals: u8,
    authority: Seq<u8>,
) -> Result<State, RegistryError> {
    if state.dom().contains(address) {
        Err(RegistryError::AlreadyExists)
    } else {
        Ok(state.insert(address, AccountView::Mint(MintView { decimals, authority, supply: 0 })))
    }
}

/// The mint at `address`, if a mint is there.
pub open spec fn mint_at(state: State, address: Seq<u8>) -> Option<MintView> {
    if state.dom().contains(address) {
        match state[address] {
            AccountView::Mint(mint) => Some(mint),
            _ => None,
        }
    } else {
        None
    }
}

/// Opening at `address` the holding that `owner` has of `mint`, empty:
/// refused with `AlreadyExists` where the address is in use, with
/// `NotFound` where there is no such mint.
pub open spec fn open_holding_step(
    state: State,
    address: Seq<u8>,
    mint: Seq<u8>,
    owner: Seq<u8>,
) -> Result<State, RegistryError> {
    if state.dom().contains(address) {
        Err(RegistryError::AlreadyExists)
    } else if mint_at(state, mint) is None {
        Err(RegistryError::NotFound)
    } else {
        Ok(state.insert(address, AccountView::Holding(HoldingView { mint, owner, amount: 0 })))
    }
}

/// The holding at `address`, if a holding is there.
pub open spec fn holding_at(state: State, address: Seq<u8>) -> Option<HoldingView> {
    if state.dom().contains(address) {
        match state[address] {
            AccountView::Holding(holding) => Some(holding),
            _ => None,
        }
    } else {
        None
    }
}

/// The description at `address`, if a description is there.
pub open spec fn metadata_at(state: State, address: Seq<u8>) -> Option<MetadataView> {
    if state.dom().contains(address) {
        match state[address] {
            AccountView::Metadata(metadata) => Some(metadata),
            _ => None,
        }
    } else {
        None
    }
}

/// Issuing `amount` units of `mint` into the holding at `destination`.
/// Refused with `NotFound` where there is no such mint or no holding at
/// `destination`; with `DependencyFailure` where the holding is of another
/// mint, where `authority` is not the mint's, and where the supply or the
/// holding would pass the largest amount.
pub open spec fn mint_to_step(
    state: State,
    mint: Seq<u8>,
    destination: Seq<u8>,
    amount: u64,
    authority: Seq<u8>,
) -> Result<State, RegistryError> {
    match (mint_at(state, mint), holding_at(state, destination)) {
        (Some(found), Some(holding)) => if holding.mint != mint || found.authority != authority
            || found.supply + amount > u64::MAX || holding.amount + amount > u64::MAX {
            Err(RegistryError::DependencyFailure)
        } else {
            Ok(
                state.insert(
                    mint,
                    AccountView::Mint(
                        MintView {
                            decimals: found.decimals,
                            authority: found.authority,
                            supply: (found.supply + amount) as u64,
                        },
                    ),
                ).insert(
                    destination,
                    AccountView::Holding(
                        HoldingView {
                            mint: holding.mint,
                            owner: holding.owner,
                            amount: (holding.amount + amount) as u64,
                        },
                    ),
                ),
            )
        },
        _ => Err(RegistryError::NotFound),
    }
}

/// Recording `description` at `address`. Refused with `AlreadyExists`
/// where the address is in use; with `NotFound` where the mint described
/// does not exist; with `DependencyFailure` where the description names
/// another mint authority than the mint has.
pub open spec fn create_metadata_step(
    state: State,
    address: Seq<u8>,
    description: MetadataView,
) -> Result<State, RegistryError> {
    if state.dom().contains(address) {
        Err(RegistryError::AlreadyExists)
    } else {
        match mint_at(state, description.mint) {
            None => Err(RegistryError::NotFound),
            Some(mint) => if mint.authority != description.mint_authority {
                Err(RegistryError::DependencyFailure)
            } else {
                Ok(state.insert(address, AccountView::Metadata(description)))
            },
        }
    }
}

/// An address in use and what it holds.
struct Entry {
    address: Address,
    account: Account,
}

/// Whether some entry is for `address`.
spec fn holds(entries: Seq<Entry>, address: Seq<u8>) -> bool {
    exists|i: int| 0 <= i < entries.len() && #[trigger] entries[i].address@ == address
}

/// The place of the entry for `address`.
spec fn slot(entries: Seq<Entry>, address: Seq<u8>) -> int {
    choose|i: int| 0 <= i < entries.len() && #[trigger] entries[i].address@ == address
}

/// Whether no address has two entries.
spec fn distinct(entries: Seq<Entry>) -> bool {
    forall|i: int, j: int|
        0 <= i < j < entries.len() ==> #[trigger] entries[i].address@ != #[trigger] entries[j].address@
}

/// The state that the entries stand for.
spec fn state_of(entries: Seq<Entry>) -> State {
    Map::new(
        |address: Seq<u8>| holds(entries, address),
        |address: Seq<u8>| entries[slot(entries, address)].account@,
    )
}

/// Each entry is found under its own address.
proof fn lemma_slot(entries: Seq<Entry>, i: int)
    requires
        distinct(entries),
        0 <= i < entries.len(),
    ensures
        holds(entries, entries[i].address@),
        slot(entries, entries[i].address@) == i,
        state_of(entries).dom().contains(entries[i].address@),
        state_of(entries)[entries[i].address@] == entries[i].account@,
{
    let found = slot(entries, entries[i].address@);
    assert(entries[found].address@ == entries[i].address@);
    if found < i {
        assert(entries[found].address@ != entries[i].address@);
    } else if i < found {
        assert(entries[i].address@ != entries[found].address@);
    }
}

/// The accounts of all collaborators, by address.
pub struct Ledger {
    entries: Vec<Entry>,
}

impl View for Ledger {
    type V = State;

    closed spec fn view(&self) -> State {
        state_of(self.entries@)
    }
}

impl Ledger {
    #[verifier::type_invariant]
    spec fn sound(self) -> bool {
        &&& distinct(self.entries@)
        &&& forall|i: int| 0 <= i < self.entries@.len() ==> (#[trigger] self.entries@[i]).account@.fits()
    }

    /// A ledger with no account.
    pub fn new() -> (ledger: Ledger)
        ensures
            ledger@ == Map::<Seq<u8>, AccountView>::empty(),
    {
        let ledger = Ledger { entries: Vec::new() };
        assert(ledger@ =~= Map::<Seq<u8>, AccountView>::empty());
        ledger
    }

    /// The number of addresses in use.
    pub fn len(&self) -> (count: usize)
        ensures
            count == self@.dom().len(),
            self@.dom().finite(),
    {
        proof {
            use_type_invariant(self);
            lemma_count(self.entries@);
        }
        self.entries.len()
    }

    /// Where the entry for `address` is.
    fn position(&self, address: &Address) -> (at: Option<usize>)
        ensures
            match at {
                Some(i) => i < self.entries@.len() && self.entries@[i as int].address@
                    == address@,
                None => !holds(self.entries@, address@),
            },
    {
        let mut i: usize = 0;
        while i < self.entries.len()
            invariant
                i <= self.entries@.len(),
                forall|j: int| 0 <= j < i ==> (#[trigger] self.entries@[j]).address@ != address@,
            decreases self.entries@.len() - i,
        {
            if self.entries[i].address == *address {
                return Some(i);
            }
            i += 1;
        }
        None
    }

    /// Whether `address` is in use.
    pub fn contains(&self, address: &Address) -> (used: bool)
        ensures
            used == self@.dom().contains(address@),
    {
        self.position(address).is_some()
    }

    /// What `address` holds. A record that is found keeps within its space.
    pub fn account(&self, address: &Address) -> (found: Option<&Account>)
        ensures
            match found {
                Some(account) => self@.dom().contains(address@) && self@[address@] == account@
                    && account@.fits(),
                None => !self@.dom().contains(address@),
            },
    {
        proof {
            use_type_invariant(self);
        }
        match self.position(address) {
            Some(i) => {
                proof {
                    lemma_slot(self.entries@, i as int);
                }
                Some(&self.entries[i].account)
            },
            None => None,
        }
    }

    /// Makes `address` hold `account`, whatever it held.
    fn put(&mut self, address: Address, account: Account)
        requires
            account@.fits(),
        ensures
            final(self)@ == old(self)@.insert(address@, account@),
    {
        let at = self.position(&address);
        let mut taken = Ledger::new();
        core::mem::swap(self, &mut taken);
        proof {
            use_type_invariant(&taken);
        }
        let mut entries = taken.entries;
        let ghost before = entries@;
        let ghost entry = Entry { address, account };
        match at {
            Some(i) => {
                entries[i] = Entry { address, account };
                proof {
                    let after = entries@;
                    assert(after == before.update(i as int, entry));
                    assert(distinct(after)) by {
                        assert forall|a: int, b: int| 0 <= a < b < after.len() implies after[a].address@
                            != after[b].address@ by {
                            assert(after[a].address@ == before[a].address@);
                            assert(after[b].address@ == before[b].address@);
                        }
                    }
                    assert forall|key: Seq<u8>| holds(after, key) <==> holds(before, key) by {
                        if holds(before, key) {
                            let k = slot(before, key);
                            assert(after[k].address@ == key);
                        }
                        if holds(after, key) {
                            let k = slot(after, key);
                            assert(before[k].address@ == key);
                        }
                    }
                    assert forall|key: Seq<u8>| holds(after, key) implies state_of(after)[key]
                        == state_of(before).insert(address@, account@)[key] by {
                        let k = slot(after, key);
                        lemma_slot(after, k);
                        lemma_slot(before, k);
                    }
                    lemma_slot(before, i as int);
                    assert(state_of(after) =~= state_of(before).insert(address@, account@));
                }
            },
            None => {
                entries.push(Entry { address, account });
                proof {
                    let after = entries@;
                    assert(after == before.push(entry));
                    assert(distinct(after)) by {
                        assert forall|a: int, b: int| 0 <= a < b < after.len() implies after[a].address@
                            != after[b].address@ by {
                            if b == before.len() {
                                assert(before[a].address@ != address@);
                            } else {
                                assert(after[a].address@ == before[a].address@);
                                assert(after[b].address@ == before[b].address@);
                            }
                        }
                    }
                    assert forall|key: Seq<u8>| holds(after, key) <==> (holds(before, key) || key
                        == address@) by {
                        if holds(before, key) {
                            let k = slot(before, key);
                            assert(after[k].address@ == key);
                        }
                        if key == address@ {
                            assert(after[before.len() as int].address@ == key);
                        }
                        if holds(after, key) {
                            let k = slot(after, key);
                            if k < before.len() {
                                assert(before[k].address@ == key);
                            }
                        }
                    }
                    assert forall|key: Seq<u8>| holds(after, key) implies state_of(after)[key]
                        == state_of(before).insert(address@, account@)[key] by {
                        let k = slot(after, key);
                        lemma_slot(after, k);
                        if k < before.len() {
                            lemma_slot(before, k);
                        }
                    }
                    assert(state_of(after) =~= state_of(before).insert(address@, account@));
                }
            },
        }
        assert forall|i: int| 0 <= i < entries@.len() implies (#[trigger] entries@[i]).account@.fits() by {
            if i < before.len() && entries@[i] == before[i] {
                assert(before[i].account@.fits());
            }
        }
        *self = Ledger { entries };
    }

    /// Reserves `space` bytes at `address` for the program `owner`.
    pub fn allocate(&mut self, address: Address, space: u64, owner: Address) -> (result: Result<
        (),
        RegistryError,
    >)
        ensures
            went(
                allocate_step(old(self)@, address@, space, owner@),
                result,
                old(self)@,
                final(self)@,
            ),
    {
        if self.contains(&address) {
            return Err(RegistryError::AlreadyExists);
        }
        self.put(address, Account::Record(Record { owner, space, data: Vec::new() }));
        Ok(())
    }

    /// The bytes of the record at `address`.
    pub fn read(&self, address: &Address) -> (data: Option<&Vec<u8>>)
        ensures
            match data {
                Some(bytes) => stored(self@, address@) == Some(bytes@),
                None => stored(self@, address@) is None,
            },
    {
        match self.account(address) {
            Some(Account::Record(record)) => Some(&record.data),
            _ => None,
        }
    }

    /// Writes `bytes` as the record at `address`.
    pub fn write(&mut self, address: &Address, bytes: Vec<u8>) -> (result: Result<
        (),
        RegistryError,
    >)
        ensures
            went(write_step(old(self)@, address@, bytes@), result, old(self)@, final(self)@),
    {
        let (owner, space) = match self.account(address) {
            Some(Account::Record(record)) => (record.owner, record.space),
            _ => { return Err(RegistryError::NotFound); },
        };
        if bytes.len() as u64 > space {
            return Err(RegistryError::CapacityExceeded);
        }
        self.put(*address, Account::Record(Record { owner, space, data: bytes }));
        Ok(())
    }

    /// Creates a mint at `address`, with nothing issued yet.
    pub fn create_mint(&mut self, address: Address, decimals: u8, authority: Address) -> (result:
        Result<(), RegistryError>)
        ensures
            went(
                create_mint_step(old(self)@, address@, decimals, authority@),
                result,
                old(self)@,
                final(self)@,
            ),
    {
        if self.contains(&address) {
            return Err(RegistryError::AlreadyExists);
        }
        self.put(address, Account::Mint(Mint { decimals, authority, supply: 0 }));
        Ok(())
    }

    /// Opens at `address` the holding that `owner` has of `mint`, empty.
    pub fn open_holding(&mut self, address: Address, mint: Address, owner: Address) -> (result:
        Result<(), RegistryError>)
        ensures
            went(
                open_holding_step(old(self)@, address@, mint@, owner@),
                result,
                old(self)@,
                final(self)@,
            ),
    {
        if self.contains(&address) {
            return Err(RegistryError::AlreadyExists);
        }
        match self.account(&mint) {
            Some(Account::Mint(_)) => {},
            _ => { return Err(RegistryError::NotFound); },
        }
        self.put(address, Account::Holding(Holding { mint, owner, amount: 0 }));
        Ok(())
    }

    /// Issues `amount` units of `mint` into the holding at `destination`,
    /// on the word of `authority`.
    pub fn mint_to(
        &mut self,
        mint: &Address,
        destination: &Address,
        amount: u64,
        authority: &Address,
    ) -> (result: Result<(), RegistryError>)
        ensures
            went(
                mint_to_step(old(self)@, mint@, destination@, amount, authority@),
                result,
                old(self)@,
                final(self)@,
            ),
    {
        let found = match self.account(mint) {
            Some(Account::Mint(found)) => *found,
            _ => { return Err(RegistryError::NotFound); },
        };
        let holding = match self.account(destination) {
            Some(Account::Holding(holding)) => *holding,
            _ => { return Err(RegistryError::NotFound); },
        };
        if holding.mint != *mint || found.authority != *authority {
            return Err(RegistryError::DependencyFailure);
        }
        let supply = match found.supply.checked_add(amount) {
            Some(supply) => supply,
            None => { return Err(RegistryError::DependencyFailure); },
        };
        let held = match holding.amount.checked_add(amount) {
            Some(held) => held,
            None => { return Err(RegistryError::DependencyFailure); },
        };
        self.put(
            *mint,
            Account::Mint(Mint { decimals: found.decimals, authority: found.authority, supply }),
        );
        self.put(
            *destination,
            Account::Holding(Holding { mint: holding.mint, owner: holding.owner, amount: held }),
        );
        Ok(())
    }

    /// Records `description` at `address`.
    pub fn create_metadata(&mut self, address: Address, description: Metadata) -> (result: Result<
        (),
        RegistryError,
    >)
        ensures
            went(
                create_metadata_step(old(self)@, address@, description@),
                result,
                old(self)@,
                final(self)@,
            ),
    {
        if self.contains(&address) {
            return Err(RegistryError::AlreadyExists);
        }
        match self.account(&description.mint) {
            Some(Account::Mint(mint)) => {
                if mint.authority != description.mint_authority {
                    return Err(RegistryError::DependencyFailure);
                }
            },
            _ => { return Err(RegistryError::NotFound); },
        }
        self.put(address, Account::Metadata(description));
        Ok(())
    }
}

/// As many addresses are in use as there are entries.
proof fn lemma_count(entries: Seq<Entry>)
    requires
        distinct(entries),
    ensures
        state_of(entries).dom().finite(),
        state_of(entries).dom().len() == entries.len(),
    decreases entries.len(),
{
    if entries.len() == 0 {
        assert(state_of(entries).dom() =~= Set::<Seq<u8>>::empty());
    } else {
        let rest = entries.drop_last();
        let last = entries.last();
        assert(distinct(rest)) by {
            assert forall|a: int, b: int| 0 <= a < b < rest.len() implies rest[a].address@
                != rest[b].address@ by {
                assert(rest[a] == entries[a]);
                assert(rest[b] == entries[b]);
            }
        }
        lemma_count(rest);
        assert(!holds(rest, last.address@)) by {
            if holds(rest, last.address@) {
                let k = slot(rest, last.address@);
                assert(rest[k] == entries[k]);
                assert(entries[k].address@ != entries[entries.len() - 1].address@);
            }
        }
        assert(state_of(entries).dom() =~= state_of(rest).dom().insert(last.address@)) by {
            assert forall|key: Seq<u8>| holds(entries, key) <==> (holds(rest, key) || key
                == last.address@) by {
                if holds(rest, key) {
                    let k = slot(rest, key);
                    assert(entries[k] == rest[k]);
                }
                if key == last.address@ {
                    assert(entries[entries.len() - 1].address@ == key);
                }
                if holds(entries, key) {
                    let k = slot(entries, key);
                    if k < rest.len() {
                        assert(rest[k] == entries[k]);
                    }
                }
            }
        }
    }
}

} // verus!
