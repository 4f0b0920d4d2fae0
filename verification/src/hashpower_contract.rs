//! A registry of uniquely owned hash-power contracts, enumerable as a whole
//! and per owner.

use crate::hash::{blake2_256, blake2_256_digest, words_of, H256, Words};
use std::collections::BTreeMap;
use vstd::bytes::{spec_u32_to_le_bytes, spec_u64_to_le_bytes};
use vstd::prelude::*;

verus! {

/// The identity of an account.
pub type AccountId = u64;

/// A block height.
pub type BlockNumber = u64;

/// An amount of hash power.
pub type ValueHashPower = u64;

/// A hash-power contract: who provides how much hash power, from when to when.
#[derive(Clone, Copy, Debug, PartialEq, Eq, Default)]
pub struct HashPowerContract<Hash, BlockNumber, AccountId> {
    pub id: Hash,
    pub hash_power: ValueHashPower,
    pub start_date: BlockNumber,
    pub end_date: BlockNumber,
    pub service_provider: AccountId,
}

/// A contract as the registry stores it.
pub type Contract = HashPowerContract<H256, BlockNumber, AccountId>;

/// The reasons for which a call on the registry is rejected.
#[derive(Clone, Copy, Debug, PartialEq, Eq, Structural)]
pub enum Error {
    /// The number of contracts is at its largest representable value.
    CountOverflow,
    /// The number of contracts of the owner is at its largest representable value.
    OwnedCountOverflow,
    /// A contract with this identifier exists already.
    DuplicateIdentifier,
    /// The caller does not own the contract.
    NotOwner,
    /// The contract would go to the account that gives it.
    SelfTransfer,
    /// No contract has this identifier.
    RecordNotFound,
    /// The giving account has no contracts to give.
    CountUnderflow,
}

impl Error {
    /// The words in which the rejection is reported.
    pub open spec fn message_text(self) -> Seq<char> {
        match self {
            Error::CountOverflow => "overflow happens when contracts counts increase"@,
            Error::OwnedCountOverflow => "overflow happends when owned count increase"@,
            Error::DuplicateIdentifier => "contract already exits"@,
            Error::NotOwner => "can only transfer your own contract"@,
            Error::SelfTransfer => "can't transfer contract to yourself"@,
            Error::RecordNotFound => "this contract doesn't exist"@,
            Error::CountUnderflow => "underflow happens when owned count decrease"@,
        }
    }

    /// The words in which the rejection is reported.
    pub fn message(&self) -> (text: &'static str)
        ensures
            text@ == self.message_text(),
    {
        match self {
            Error::CountOverflow => "overflow happens when contracts counts increase",
            Error::OwnedCountOverflow => "overflow happends when owned count increase",
            Error::DuplicateIdentifier => "contract already exits",
            Error::NotOwner => "can only transfer your own contract",
            Error::SelfTransfer => "can't transfer contract to yourself",
            Error::RecordNotFound => "this contract doesn't exist",
            Error::CountUnderflow => "underflow happens when owned count decrease",
        }
    }
}

/// A notification of a change of the registry.
#[derive(Clone, Copy, Debug, PartialEq, Eq)]
pub enum Event {
    /// The account created the contract with this identifier.
    ContractCreated(AccountId, H256),
    /// The contract went from the first account to the second.
    ContractTransfered(AccountId, AccountId, H256),
}

/// What the chain hands to a call that creates a contract.
#[derive(Clone, Copy, Debug, PartialEq, Eq)]
pub struct Environment {
    /// The chain's current random seed.
    pub random_seed: [u8; 32],
    /// The position of the call in its block, if it has one.
    pub extrinsic_index: Option<u32>,
    /// The height of the block.
    pub block_number: BlockNumber,
}

/// The byte string from which a contract identifier is derived: the seed, the
/// nonce in little-endian order, one byte that says whether there is an
/// extrinsic index (1, then the index in little-endian order) or none (0), and
/// the block number in little-endian order.
pub open spec fn payload_encoding(
    seed: Seq<u8>,
    nonce: u64,
    extrinsic_index: Option<u32>,
    block_number: BlockNumber,
) -> Seq<u8> {
    let index = match extrinsic_index {
        Some(i) => seq![1u8] + spec_u32_to_le_bytes(i),
        None => seq![0u8],
    };
    seed + spec_u64_to_le_bytes(nonce) + index + spec_u64_to_le_bytes(block_number)
}

/// The identifier of the contract created with this nonce in this environment:
/// the BLAKE2b-256 digest of the encoded payload.
pub open spec fn contract_id(
    seed: Seq<u8>,
    nonce: u64,
    extrinsic_index: Option<u32>,
    block_number: BlockNumber,
) -> H256 {
    H256 {
        words: words_of(
            blake2_256_digest(payload_encoding(seed, nonce, extrinsic_index, block_number)),
        ),
    }
}

/// Calls `encode` of `parity_scale_codec::Encode` on the tuple of the four
/// values. The encoding of a tuple is that of its fields one after the other;
/// a byte array is encoded as its bytes, an integer as its bytes in
/// little-endian order, an option as the byte 0 or as the byte 1 before the
/// encoding of what it holds.
#[verifier::external_body]
fn encode_payload(
    seed: &[u8; 32],
    nonce: u64,
    extrinsic_index: Option<u32>,
    block_number: BlockNumber,
) -> (bytes: Vec<u8>)
    ensures
        bytes@ == payload_encoding(seed@, nonce, extrinsic_index, block_number),
{
    parity_scale_codec::Encode::encode(&(*seed, nonce, extrinsic_index, block_number))
}

/// The contract that stands for "none": every field zero.
pub open spec fn no_contract() -> Contract {
    HashPowerContract {
        id: H256 { words: (0, 0, 0, 0) },
        hash_power: 0,
        start_date: 0,
        end_date: 0,
        service_provider: 0,
    }
}

/// A call on the registry, with what it asks for.
#[derive(Clone, Copy, Debug, PartialEq, Eq)]
pub enum Call {
    /// Create a contract owned by the caller.
    CreateContract {
        hash_power: ValueHashPower,
        start_date: BlockNumber,
        end_date: BlockNumber,
        service_provider: AccountId,
    },
    /// Hand the caller's contract to `to`.
    TransferContract { to: AccountId, contract_id: H256 },
}

/// The registry as a mathematical value: its mappings, counters and the
/// notifications recorded so far.
pub struct Registry {
    pub contracts: Map<Words, Contract>,
    pub contract_owner: Map<Words, AccountId>,
    pub all_array: Map<u64, H256>,
    pub all_count: u64,
    pub all_index: Map<Words, u64>,
    pub owned_array: Map<(AccountId, u64), H256>,
    pub owned_count: Map<AccountId, u64>,
    pub owned_index: Map<Words, u64>,
    pub nonce: u64,
    pub events: Seq<Event>,
}

impl Registry {
    /// The registry without contracts.
    pub open spec fn empty() -> Registry {
        Registry {
            contracts: Map::empty(),
            contract_owner: Map::empty(),
            all_array: Map::empty(),
            all_count: 0,
            all_index: Map::empty(),
            owned_array: Map::empty(),
            owned_count: Map::empty(),
            owned_index: Map::empty(),
            nonce: 0,
            events: Seq::empty(),
        }
    }

    /// Whether a contract with this identifier was created.
    pub open spec fn is_created(self, id: H256) -> bool {
        self.contract_owner.contains_key(id.words)
    }

    /// The contract with this identifier, or the zero contract.
    pub open spec fn contract(self, id: H256) -> Contract {
        if self.contracts.contains_key(id.words) {
            self.contracts[id.words]
        } else {
            no_contract()
        }
    }

    /// The owner of the contract, if it exists.
    pub open spec fn owner_of(self, id: H256) -> Option<AccountId> {
        if self.contract_owner.contains_key(id.words) {
            Some(self.contract_owner[id.words])
        } else {
            None
        }
    }

    /// The identifier at a position of the list of all contracts, or zero.
    pub open spec fn contract_at_index(self, index: u64) -> H256 {
        if self.all_array.contains_key(index) {
            self.all_array[index]
        } else {
            H256 { words: (0, 0, 0, 0) }
        }
    }

    /// The position of the contract in the list of all contracts, or zero.
    pub open spec fn index_of(self, id: H256) -> u64 {
        if self.all_index.contains_key(id.words) {
            self.all_index[id.words]
        } else {
            0
        }
    }

    /// The identifier at a position of the list of the owner's contracts, or zero.
    pub open spec fn contracts_of(self, owner: AccountId, index: u64) -> H256 {
        if self.owned_array.contains_key((owner, index)) {
            self.owned_array[(owner, index)]
        } else {
            H256 { words: (0, 0, 0, 0) }
        }
    }

    /// The number of contracts of the owner.
    pub open spec fn owned_contract_count(self, owner: AccountId) -> u64 {
        if self.owned_count.contains_key(owner) {
            self.owned_count[owner]
        } else {
            0
        }
    }

    /// The position of the contract in the list of its owner's contracts, or zero.
    pub open spec fn owned_index_of(self, id: H256) -> u64 {
        if self.owned_index.contains_key(id.words) {
            self.owned_index[id.words]
        } else {
            0
        }
    }

    /// Why the creation of a contract is rejected, if it is.
    pub open spec fn mint_error(self, owner: AccountId, id: H256) -> Option<Error> {
        if self.contract_owner.contains_key(id.words) {
            Some(Error::DuplicateIdentifier)
        } else if self.all_count == u64::MAX {
            Some(Error::CountOverflow)
        } else if self.owned_contract_count(owner) == u64::MAX {
            Some(Error::OwnedCountOverflow)
        } else {
            None
        }
    }

    /// The registry after `contract` was stored under `id` for `owner`: the
    /// identifier stands at the end of the list of all contracts and at the end
    /// of the owner's list.
    pub open spec fn minted(self, owner: AccountId, id: H256, contract: Contract) -> Registry {
        let owned = self.owned_contract_count(owner);
        Registry {
            contracts: self.contracts.insert(id.words, contract),
            contract_owner: self.contract_owner.insert(id.words, owner),
            all_array: self.all_array.insert(self.all_count, id),
            all_count: (self.all_count + 1) as u64,
            all_index: self.all_index.insert(id.words, self.all_count),
            owned_array: self.owned_array.insert((owner, owned), id),
            owned_count: self.owned_count.insert(owner, (owned + 1) as u64),
            owned_index: self.owned_index.insert(id.words, owned),
            events: self.events.push(Event::ContractCreated(owner, id)),
            ..self
        }
    }

    /// Why handing a contract from `from` to `to` is rejected, if it is.
    pub open spec fn transfer_error(self, from: AccountId, to: AccountId, id: H256) -> Option<
        Error,
    > {
        if from == to {
            Some(Error::SelfTransfer)
        } else if !self.contracts.contains_key(id.words) {
            Some(Error::RecordNotFound)
        } else if self.owned_contract_count(from) == 0 {
            Some(Error::CountUnderflow)
        } else if self.owned_contract_count(to) == u64::MAX {
            Some(Error::OwnedCountOverflow)
        } else {
            None
        }
    }

    /// The registry after the gap at `index_gone` of the owner's list was
    /// closed: the identifier at `index_last` stands at `index_gone` too, and its
    /// inverse gives `index_gone`. Nothing changes where the two positions are one.
    pub open spec fn gap_closed(
        self,
        owner: AccountId,
        index_gone: u64,
        index_last: u64,
    ) -> Registry {
        if index_gone != index_last {
            let moved = self.contracts_of(owner, index_last);
            Registry {
                owned_array: self.owned_array.insert((owner, index_gone), moved),
                owned_index: self.owned_index.insert(moved.words, index_gone),
                ..self
            }
        } else {
            self
        }
    }

    /// The registry after the contract went from `from` to `to`: in the list of
    /// `from` the last identifier takes the place of `id` and the list loses its
    /// last position; `id` stands at the end of the list of `to`.
    pub open spec fn transferred(self, from: AccountId, to: AccountId, id: H256) -> Registry {
        let gone = self.owned_index_of(id);
        let last = (self.owned_contract_count(from) - 1) as u64;
        let to_count = self.owned_contract_count(to);
        let closed = self.gap_closed(from, gone, last);
        Registry {
            contract_owner: self.contract_owner.insert(id.words, to),
            owned_array: closed.owned_array.remove((from, last)).insert((to, to_count), id),
            owned_count: self.owned_count.insert(from, last).insert(to, (to_count + 1) as u64),
            owned_index: closed.owned_index.insert(id.words, to_count),
            events: self.events.push(Event::ContractTransfered(from, to, id)),
            ..self
        }
    }

    /// Why a transfer asked for by `sender` is rejected, if it is.
    pub open spec fn transfer_contract_error(
        self,
        sender: AccountId,
        to: AccountId,
        id: H256,
    ) -> Option<Error> {
        if self.owner_of(id) != Some(sender) {
            Some(Error::NotOwner)
        } else {
            self.transfer_error(sender, to, id)
        }
    }

    /// Why the creation of a contract with a fresh identifier is rejected, if it is.
    pub open spec fn create_error(self, sender: AccountId, id: H256) -> Option<Error> {
        match self.mint_error(sender, id) {
            Some(e) => Some(e),
            None => if self.nonce == u64::MAX {
                Some(Error::CountOverflow)
            } else {
                None
            },
        }
    }

    /// The registry after `sender` created `contract` under `id`.
    pub open spec fn created(self, sender: AccountId, id: H256, contract: Contract) -> Registry {
        Registry { nonce: (self.nonce + 1) as u64, ..self.minted(sender, id, contract) }
    }

    /// The identifier that the next created contract gets in `env`.
    pub open spec fn next_id(self, env: Environment) -> H256 {
        contract_id(env.random_seed@, self.nonce, env.extrinsic_index, env.block_number)
    }

    /// Why the call of `sender` in `env` is rejected, if it is.
    pub open spec fn call_error(self, sender: AccountId, call: Call, env: Environment) -> Option<
        Error,
    > {
        match call {
            Call::CreateContract { .. } => self.create_error(sender, self.next_id(env)),
            Call::TransferContract { to, contract_id } => self.transfer_contract_error(
                sender,
                to,
                contract_id,
            ),
        }
    }

    /// The registry after the call of `sender` in `env`: changed as the call
    /// asks where it is accepted, unchanged where it is rejected.
    pub open spec fn called(self, sender: AccountId, call: Call, env: Environment) -> Registry {
        if self.call_error(sender, call, env) is Some {
            self
        } else {
            match call {
                Call::CreateContract { hash_power, start_date, end_date, service_provider } => {
                    let id = self.next_id(env);
                    self.created(
                        sender,
                        id,
                        HashPowerContract { id, hash_power, start_date, end_date, service_provider },
                    )
                },
                Call::TransferContract { to, contract_id } => self.transferred(
                    sender,
                    to,
                    contract_id,
                ),
            }
        }
    }

    /// The registry after the calls, each with its sender and environment,
    /// made one after the other.
    pub open spec fn called_all(self, calls: Seq<(AccountId, Call, Environment)>) -> Registry
        decreases calls.len(),
    {
        if calls.len() == 0 {
            self
        } else {
            self.called_all(calls.drop_last()).called(
                calls.last().0,
                calls.last().1,
                calls.last().2,
            )
        }
    }

    /// The identifiers of all contracts, in the order of their creation.
    pub open spec fn all_list(self) -> Seq<H256> {
        Seq::new(self.all_count as nat, |i: int| self.all_array[i as u64])
    }

    /// The identifiers of the owner's contracts, by their positions.
    pub open spec fn owned_list(self, owner: AccountId) -> Seq<H256> {
        Seq::new(
            self.owned_contract_count(owner) as nat,
            |i: int| self.owned_array[(owner, i as u64)],
        )
    }

    /// The mappings agree on which contracts exist.
    pub open spec fn same_contracts(self) -> bool {
        &&& self.contracts.dom() =~= self.contract_owner.dom()
        &&& self.all_index.dom() =~= self.contract_owner.dom()
        &&& self.owned_index.dom() =~= self.contract_owner.dom()
    }

    /// The list of all contracts has no gaps and holds each contract once, at
    /// the position that its inverse gives.
    pub open spec fn all_list_consistent(self) -> bool {
        &&& forall|i: u64| #[trigger] self.all_array.contains_key(i) <==> i < self.all_count
        &&& forall|k: Words| #[trigger]
            self.contract_owner.contains_key(k) ==> self.all_index[k] < self.all_count
                && self.all_array[self.all_index[k]].words == k
        &&& forall|i: u64|
            i < self.all_count ==> self.contract_owner.contains_key(
                (#[trigger] self.all_array[i]).words,
            ) && self.all_index[self.all_array[i].words] == i
    }

    /// Each owner's list has an identifier at a position exactly when the
    /// position is below the owner's count.
    pub open spec fn owned_lists_dense(self) -> bool {
        forall|a: AccountId, i: u64| #[trigger]
            self.owned_array.contains_key((a, i)) <==> i < self.owned_contract_count(a)
    }

    /// Each contract stands in its owner's list at the position that the
    /// inverse gives.
    pub open spec fn owned_index_consistent(self) -> bool {
        forall|k: Words| #[trigger]
            self.contract_owner.contains_key(k) ==> self.owned_index[k]
                < self.owned_contract_count(self.contract_owner[k]) && self.owned_array[(
                self.contract_owner[k],
                self.owned_index[k],
            )].words == k
    }

    /// Each identifier in an owner's list is a contract of that owner, and its
    /// inverse gives the position.
    pub open spec fn owned_lists_owned(self) -> bool {
        forall|a: AccountId, i: u64|
            i < self.owned_contract_count(a) ==> self.contract_owner.contains_key(
                (#[trigger] self.owned_array[(a, i)]).words,
            ) && self.contract_owner[self.owned_array[(a, i)].words] == a
                && self.owned_index[self.owned_array[(a, i)].words] == i
    }

    /// The mappings of the registry fit together.
    pub open spec fn wf(self) -> bool {
        &&& self.same_contracts()
        &&& self.all_list_consistent()
        &&& self.owned_lists_dense()
        &&& self.owned_index_consistent()
        &&& self.owned_lists_owned()
        &&& self.nonce <= self.all_count
    }
}

/// The empty registry is well formed.
pub proof fn lemma_empty_wf()
    ensures
        Registry::empty().wf(),
{
}

/// In a well-formed registry the list of an owner holds an identifier at a
/// position exactly when the position is below the owner's count.
pub proof fn lemma_owned_list_dense(r: Registry, owner: AccountId, index: u64)
    requires
        r.wf(),
    ensures
        r.owned_array.contains_key((owner, index)) <==> index < r.owned_contract_count(owner),
{
}

/// In a well-formed registry every contract has an owner, and the owner's
/// list holds the contract's identifier at the position that the inverse gives.
pub proof fn lemma_owned_index_consistent(r: Registry, id: H256)
    requires
        r.wf(),
        r.is_created(id),
    ensures
        r.owner_of(id) is Some,
        r.owned_index_of(id) < r.owned_contract_count(r.owner_of(id).unwrap()),
        r.contracts_of(r.owner_of(id).unwrap(), r.owned_index_of(id)) == id,
{
}

/// In a well-formed registry the list of all contracts holds an identifier at
/// a position exactly when the position is below the count, and each contract
/// stands in it at the position that the inverse gives.
pub proof fn lemma_all_list_consistent(r: Registry, id: H256, index: u64)
    requires
        r.wf(),
    ensures
        r.all_array.contains_key(index) <==> index < r.all_count,
        r.is_created(id) ==> r.index_of(id) < r.all_count && r.contract_at_index(r.index_of(id))
            == id,
        index < r.all_count ==> r.is_created(r.contract_at_index(index)) && r.index_of(
            r.contract_at_index(index),
        ) == index,
{
}

/// In a well-formed registry an identifier in the list of an owner is a
/// contract of that owner: every contract has one owner, and stands in the
/// list of that owner only.
pub proof fn lemma_single_owner(r: Registry, owner: AccountId, index: u64)
    requires
        r.wf(),
        index < r.owned_contract_count(owner),
    ensures
        r.owner_of(r.contracts_of(owner, index)) == Some(owner),
        r.owned_index_of(r.contracts_of(owner, index)) == index,
{
}

/// Whatever calls are made, by whomever and in whatever order, a well-formed
/// registry stays well formed, no contract is lost, and no position of the
/// list of all contracts changes.
pub proof fn lemma_calls_keep_wf(r: Registry, calls: Seq<(AccountId, Call, Environment)>)
    requires
        r.wf(),
    ensures
        r.called_all(calls).wf(),
        r.all_count <= r.called_all(calls).all_count,
        forall|id: H256|
            r.is_created(id) ==> #[trigger] r.called_all(calls).is_created(id) && r.called_all(
                calls,
            ).index_of(id) == r.index_of(id) && r.called_all(calls).contract(id) == r.contract(id),
    decreases calls.len(),
{
    if calls.len() > 0 {
        lemma_calls_keep_wf(r, calls.drop_last());
        let before = r.called_all(calls.drop_last());
        let (sender, call, env) = calls.last();
        let after = r.called_all(calls);
        assert(after == before.called(sender, call, env));
        if before.call_error(sender, call, env) is None {
            match call {
                Call::CreateContract { hash_power, start_date, end_date, service_provider } => {
                    let id = before.next_id(env);
                    lemma_minted_wf(
                        before,
                        sender,
                        id,
                        HashPowerContract { id, hash_power, start_date, end_date, service_provider },
                    );
                },
                Call::TransferContract { to, contract_id } => {
                    lemma_transferred_wf(before, sender, to, contract_id);
                },
            }
        }
        assert forall|id: H256| r.is_created(id) implies #[trigger] after.is_created(id)
            && after.index_of(id) == r.index_of(id) && after.contract(id) == r.contract(id) by {
            assert(before.is_created(id));
        }
    }
}

/// A created contract stands at the end of the list of all contracts and at
/// the end of its owner's list; the lists of the other owners stay as they were.
pub proof fn lemma_minted_lists(r: Registry, owner: AccountId, id: H256, contract: Contract)
    requires
        r.mint_error(owner, id) is None,
    ensures
        r.minted(owner, id, contract).all_list() == r.all_list().push(id),
        r.minted(owner, id, contract).owned_list(owner) == r.owned_list(owner).push(id),
        forall|a: AccountId|
            a != owner ==> #[trigger] r.minted(owner, id, contract).owned_list(a) == r.owned_list(
                a,
            ),
{
    let n = r.minted(owner, id, contract);
    assert(n.all_list() =~= r.all_list().push(id));
    assert(n.owned_list(owner) =~= r.owned_list(owner).push(id));
    assert forall|a: AccountId| a != owner implies #[trigger] n.owned_list(a) == r.owned_list(
        a,
    ) by {
        assert(n.owned_list(a) =~= r.owned_list(a));
    }
}

/// A contract handed on by its owner leaves the owner's list, where the last
/// identifier takes its place, and stands at the end of the receiver's list;
/// the other lists stay as they were.
pub proof fn lemma_transferred_lists(r: Registry, from: AccountId, to: AccountId, id: H256)
    requires
        r.wf(),
        r.owner_of(id) == Some(from),
        r.transfer_error(from, to, id) is None,
    ensures
        r.transferred(from, to, id).all_list() == r.all_list(),
        r.transferred(from, to, id).owned_list(to) == r.owned_list(to).push(id),
        r.owned_index_of(id) < r.owned_list(from).len(),
        r.transferred(from, to, id).owned_list(from) == r.owned_list(from).update(
            r.owned_index_of(id) as int,
            r.owned_list(from).last(),
        ).drop_last(),
        forall|a: AccountId|
            a != from && a != to ==> #[trigger] r.transferred(from, to, id).owned_list(a)
                == r.owned_list(a),
{
    let n = r.transferred(from, to, id);
    assert(n.all_list() =~= r.all_list());
    assert(n.owned_list(to) =~= r.owned_list(to).push(id));
    assert(n.owned_list(from) =~= r.owned_list(from).update(
        r.owned_index_of(id) as int,
        r.owned_list(from).last(),
    ).drop_last());
    assert forall|a: AccountId| a != from && a != to implies #[trigger] n.owned_list(a)
        == r.owned_list(a) by {
        assert(n.owned_list(a) =~= r.owned_list(a));
    }
}

/// In a well-formed registry the nonce is below its largest value wherever the
/// number of contracts is: the creation of a contract is rejected for the
/// reasons for which storing it is, and for no other.
pub proof fn lemma_create_error(r: Registry, sender: AccountId, id: H256)
    requires
        r.wf(),
    ensures
        r.create_error(sender, id) == r.mint_error(sender, id),
{
}

/// Creating a contract keeps the registry well formed.
pub proof fn lemma_minted_wf(r: Registry, owner: AccountId, id: H256, contract: Contract)
    requires
        r.wf(),
        r.mint_error(owner, id) is None,
    ensures
        r.minted(owner, id, contract).wf(),
{
    let n = r.minted(owner, id, contract);
    assert(n.same_contracts());
    assert(n.all_list_consistent());
    assert(n.owned_lists_dense());
    assert(n.owned_index_consistent());
    assert(n.owned_lists_owned());
}

/// Handing a contract from its owner to another account keeps the registry
/// well formed.
pub proof fn lemma_transferred_wf(r: Registry, from: AccountId, to: AccountId, id: H256)
    requires
        r.wf(),
        r.owner_of(id) == Some(from),
        r.transfer_error(from, to, id) is None,
    ensures
        r.transferred(from, to, id).wf(),
{
    let n = r.transferred(from, to, id);
    assert(n.same_contracts());
    assert(n.all_list_consistent());
    assert(n.owned_lists_dense());
    assert(n.owned_index_consistent());
    assert(n.owned_lists_owned());
}

/// The registry: the contracts, their owners, the list of all contracts and
/// the lists of each owner's contracts, each list with its inverse.
#[derive(Clone, Debug, PartialEq, Eq)]
pub struct Module {
    contracts: BTreeMap<Words, Contract>,
    contract_owner: BTreeMap<Words, AccountId>,
    all_contracts_array: BTreeMap<u64, H256>,
    all_contracts_count: u64,
    all_contracts_index: BTreeMap<Words, u64>,
    owned_contracts_array: BTreeMap<(AccountId, u64), H256>,
    owned_contracts_count: BTreeMap<AccountId, u64>,
    owned_contracts_index: BTreeMap<Words, u64>,
    nonce: u64,
    events: Vec<Event>,
}

impl View for Module {
    type V = Registry;

    closed spec fn view(&self) -> Registry {
        Registry {
            contracts: self.contracts@,
            contract_owner: self.contract_owner@,
            all_array: self.all_contracts_array@,
            all_count: self.all_contracts_count,
            all_index: self.all_contracts_index@,
            owned_array: self.owned_contracts_array@,
            owned_count: self.owned_contracts_count@,
            owned_index: self.owned_contracts_index@,
            nonce: self.nonce,
            events: self.events@,
        }
    }
}

impl Module {
    /// The registry without contracts.
    pub fn new() -> (m: Module)
        ensures
            m@ == Registry::empty(),
            m@.wf(),
    {
        Module {
            contracts: BTreeMap::new(),
            contract_owner: BTreeMap::new(),
            all_contracts_array: BTreeMap::new(),
            all_contracts_count: 0,
            all_contracts_index: BTreeMap::new(),
            owned_contracts_array: BTreeMap::new(),
            owned_contracts_count: BTreeMap::new(),
            owned_contracts_index: BTreeMap::new(),
            nonce: 0,
            events: Vec::new(),
        }
    }

    /// Hands out the notifications recorded so far and empties the record.
    pub fn take_events(&mut self) -> (taken: Vec<Event>)
        ensures
            taken@ == old(self)@.events,
            final(self)@ == (Registry { events: Seq::<Event>::empty(), ..old(self)@ }),
            old(self)@.wf() ==> final(self)@.wf(),
    {
        let mut taken: Vec<Event> = Vec::new();
        std::mem::swap(&mut taken, &mut self.events);
        taken
    }

    /// Makes the call of `sender` in `env`.
    pub fn dispatch(&mut self, sender: AccountId, call: Call, env: &Environment) -> (r:
        Result<(), Error>)
        ensures
            match old(self)@.call_error(sender, call, *env) {
                Some(e) => r == Err::<(), Error>(e),
                None => r == Ok::<(), Error>(()),
            },
            final(self)@ == old(self)@.called(sender, call, *env),
            old(self)@.wf() ==> final(self)@.wf(),
    {
        match call {
            Call::CreateContract { hash_power, start_date, end_date, service_provider } => {
                self.create_contract(
                    sender,
                    hash_power,
                    start_date,
                    end_date,
                    service_provider,
                    env,
                )
            },
            Call::TransferContract { to, contract_id } => self.transfer_contract(
                sender,
                to,
                contract_id,
            ),
        }
    }

    /// The identifier for the contract created with `nonce` in `env`.
    pub fn random_number(nonce: u64, env: &Environment) -> (id: H256)
        ensures
            id == contract_id(env.random_seed@, nonce, env.extrinsic_index, env.block_number),
    {
        let payload = encode_payload(
            &env.random_seed,
            nonce,
            env.extrinsic_index,
            env.block_number,
        );
        let digest = blake2_256(&payload);
        H256::from_bytes(&digest)
    }

    /// Creates a contract owned by `sender`, under the identifier derived from
    /// the nonce and `env`, and counts the nonce up.
    pub fn create_contract(
        &mut self,
        sender: AccountId,
        hash_power: ValueHashPower,
        start_date: BlockNumber,
        end_date: BlockNumber,
        service_provider: AccountId,
        env: &Environment,
    ) -> (r: Result<(), Error>)
        ensures
            match old(self)@.create_error(sender, old(self)@.next_id(*env)) {
                Some(e) => r == Err::<(), Error>(e) && final(self)@ == old(self)@,
                None => r == Ok::<(), Error>(()) && final(self)@ == old(self)@.created(
                    sender,
                    old(self)@.next_id(*env),
                    HashPowerContract {
                        id: old(self)@.next_id(*env),
                        hash_power,
                        start_date,
                        end_date,
                        service_provider,
                    },
                ),
            },
            old(self)@.wf() ==> final(self)@.wf(),
    {
        let nonce: u64 = self.nonce;
        let random_hash = Self::random_number(nonce, env);
        let new_contract = HashPowerContract {
            id: random_hash,
            hash_power,
            start_date,
            end_date,
            service_provider,
        };
        self.store_created(sender, random_hash, new_contract)
    }

    /// Stores `contract` under `id` for `sender` and counts the nonce up.
    pub fn store_created(&mut self, sender: AccountId, id: H256, contract: Contract) -> (r:
        Result<(), Error>)
        ensures
            match old(self)@.create_error(sender, id) {
                Some(e) => r == Err::<(), Error>(e) && final(self)@ == old(self)@,
                None => r == Ok::<(), Error>(()) && final(self)@ == old(self)@.created(
                    sender,
                    id,
                    contract,
                ),
            },
            old(self)@.wf() ==> final(self)@.wf(),
    {
        match self.mint_check(&sender, &id) {
            Some(e) => { return Err(e); },
            None => {},
        }
        let nonce: u64 = self.nonce;
        if nonce == u64::MAX {
            return Err(Error::CountOverflow);
        }
        let minted = self.mint_contract(&sender, &id, &contract);
        self.nonce = nonce + 1;
        minted
    }

    /// Hands the contract from `sender`, who must own it, to `to`.
    pub fn transfer_contract(&mut self, sender: AccountId, to: AccountId, contract_id: H256) -> (r:
        Result<(), Error>)
        ensures
            match old(self)@.transfer_contract_error(sender, to, contract_id) {
                Some(e) => r == Err::<(), Error>(e) && final(self)@ == old(self)@,
                None => r == Ok::<(), Error>(()) && final(self)@ == old(self)@.transferred(
                    sender,
                    to,
                    contract_id,
                ),
            },
            old(self)@.wf() ==> final(self)@.wf(),
    {
        match self.owner_of(contract_id) {
            Some(owner) => {
                if owner != sender {
                    return Err(Error::NotOwner);
                }
            },
            None => { return Err(Error::NotOwner); },
        }
        self.transfer_from(&sender, &to, &contract_id)
    }

    /// Why the creation of a contract under `contract_id` for `owner` would be
    /// rejected, if it would.
    fn mint_check(&self, owner: &AccountId, contract_id: &H256) -> (e: Option<Error>)
        ensures
            e == self@.mint_error(*owner, *contract_id),
    {
        if self.contract_owner.contains_key(&contract_id.words) {
            Some(Error::DuplicateIdentifier)
        } else if self.all_contracts_count == u64::MAX {
            Some(Error::CountOverflow)
        } else if self.owned_contract_count(*owner) == u64::MAX {
            Some(Error::OwnedCountOverflow)
        } else {
            None
        }
    }

    /// Stores `contract` under `contract_id` for `owner`, at the end of the list
    /// of all contracts and at the end of the owner's list.
    pub fn mint_contract(
        &mut self,
        owner: &AccountId,
        contract_id: &H256,
        contract: &Contract,
    ) -> (r: Result<(), Error>)
        ensures
            match old(self)@.mint_error(*owner, *contract_id) {
                Some(e) => r == Err::<(), Error>(e) && final(self)@ == old(self)@,
                None => r == Ok::<(), Error>(()) && final(self)@ == old(self)@.minted(
                    *owner,
                    *contract_id,
                    *contract,
                ),
            },
            old(self)@.wf() ==> final(self)@.wf(),
    {
        match self.mint_check(owner, contract_id) {
            Some(e) => { return Err(e); },
            None => {},
        }
        proof {
            if self@.wf() {
                lemma_minted_wf(self@, *owner, *contract_id, *contract);
            }
        }
        self.contracts.insert(contract_id.words, *contract);
        self.contract_owner.insert(contract_id.words, *owner);

        let old_all_count: u64 = self.all_contracts_count;
        self.all_contracts_array.insert(old_all_count, *contract_id);
        self.all_contracts_count = old_all_count + 1;
        self.all_contracts_index.insert(contract_id.words, old_all_count);

        let old_owned_count: u64 = self.owned_contract_count(*owner);
        self.owned_contracts_array.insert((*owner, old_owned_count), *contract_id);
        self.owned_contracts_count.insert(*owner, old_owned_count + 1);
        self.owned_contracts_index.insert(contract_id.words, old_owned_count);

        self.events.push(Event::ContractCreated(*owner, *contract_id));
        Ok(())
    }

    /// Hands the contract from `from` to `to`. That `from` owns the contract is
    /// for the caller to see to.
    pub fn transfer_from(&mut self, from: &AccountId, to: &AccountId, contract_id: &H256) -> (r:
        Result<(), Error>)
        ensures
            match old(self)@.transfer_error(*from, *to, *contract_id) {
                Some(e) => r == Err::<(), Error>(e) && final(self)@ == old(self)@,
                None => r == Ok::<(), Error>(()) && final(self)@ == old(self)@.transferred(
                    *from,
                    *to,
                    *contract_id,
                ),
            },
            old(self)@.wf() && (r is Err || old(self)@.owner_of(*contract_id) == Some(*from))
                ==> final(self)@.wf(),
    {
        if *from == *to {
            return Err(Error::SelfTransfer);
        }
        if !self.contracts.contains_key(&contract_id.words) {
            return Err(Error::RecordNotFound);
        }
        let old_owned_index_from: u64 = self.owned_index_of(*contract_id);
        let old_owned_count_from: u64 = self.owned_contract_count(*from);
        let new_owned_count_from: u64 = match old_owned_count_from.checked_sub(1) {
            Some(n) => n,
            None => { return Err(Error::CountUnderflow); },
        };
        let old_owned_count_to: u64 = self.owned_contract_count(*to);
        let new_owned_count_to: u64 = match old_owned_count_to.checked_add(1) {
            Some(n) => n,
            None => { return Err(Error::OwnedCountOverflow); },
        };
        proof {
            if self@.wf() && self@.owner_of(*contract_id) == Some(*from) {
                lemma_transferred_wf(self@, *from, *to, *contract_id);
            }
        }
        self.contract_owner.insert(contract_id.words, *to);

        self.owned_contracts_count.insert(*from, new_owned_count_from);
        let _ = self.update_owned_array(from, old_owned_index_from, new_owned_count_from);
        self.owned_contracts_array.remove(&(*from, new_owned_count_from));

        self.owned_contracts_count.insert(*to, new_owned_count_to);
        self.owned_contracts_array.insert((*to, old_owned_count_to), *contract_id);
        self.owned_contracts_index.insert(contract_id.words, old_owned_count_to);

        self.events.push(Event::ContractTransfered(*from, *to, *contract_id));
        Ok(())
    }

    /// Closes the gap at `index_gone` of the owner's list with the identifier
    /// at `index_last`.
    fn update_owned_array(&mut self, owner: &AccountId, index_gone: u64, index_last: u64) -> (r:
        Result<(), Error>)
        ensures
            r == Ok::<(), Error>(()),
            final(self)@ == old(self)@.gap_closed(*owner, index_gone, index_last),
    {
        if index_gone != index_last {
            let last_owned_contract = self.contracts_of((*owner, index_last));
            self.owned_contracts_array.insert((*owner, index_gone), last_owned_contract);
            self.owned_contracts_index.insert(last_owned_contract.words, index_gone);
        }
        Ok(())
    }

    /// The contract with this identifier, or the zero contract where there is none.
    pub fn contract(&self, id: H256) -> (c: Contract)
        ensures
            c == self@.contract(id),
    {
        match self.contracts.get(&id.words) {
            Some(c) => *c,
            None => HashPowerContract {
                id: H256::zero(),
                hash_power: 0,
                start_date: 0,
                end_date: 0,
                service_provider: 0,
            },
        }
    }

    /// The owner of the contract, if it exists.
    pub fn owner_of(&self, id: H256) -> (o: Option<AccountId>)
        ensures
            o == self@.owner_of(id),
    {
        match self.contract_owner.get(&id.words) {
            Some(a) => Some(*a),
            None => None,
        }
    }

    /// The identifier at a position of the list of all contracts, or zero.
    pub fn contract_at_index(&self, index: u64) -> (id: H256)
        ensures
            id == self@.contract_at_index(index),
    {
        match self.all_contracts_array.get(&index) {
            Some(id) => *id,
            None => H256::zero(),
        }
    }

    /// The number of contracts created.
    pub fn contracts_count(&self) -> (n: u64)
        ensures
            n == self@.all_count,
    {
        self.all_contracts_count
    }

    /// The position of the contract in the list of all contracts, or zero.
    pub fn index_of(&self, id: H256) -> (i: u64)
        ensures
            i == self@.index_of(id),
    {
        match self.all_contracts_index.get(&id.words) {
            Some(i) => *i,
            None => 0,
        }
    }

    /// The identifier at a position of the list of an owner's contracts, or zero.
    pub fn contracts_of(&self, key: (AccountId, u64)) -> (id: H256)
        ensures
            id == self@.contracts_of(key.0, key.1),
    {
        match self.owned_contracts_array.get(&key) {
            Some(id) => *id,
            None => H256::zero(),
        }
    }

    /// The number of contracts of the owner.
    pub fn owned_contract_count(&self, owner: AccountId) -> (n: u64)
        ensures
            n == self@.owned_contract_count(owner),
    {
        match self.owned_contracts_count.get(&owner) {
            Some(n) => *n,
            None => 0,
        }
    }

    /// The position of the contract in the list of its owner's contracts, or zero.
    pub fn owned_index_of(&self, id: H256) -> (i: u64)
        ensures
            i == self@.owned_index_of(id),
    {
        match self.owned_contracts_index.get(&id.words) {
            Some(i) => *i,
            None => 0,
        }
    }

    /// The number of contracts created through `create_contract`.
    pub fn nonce(&self) -> (n: u64)
        ensures
            n == self@.nonce,
    {
        self.nonce
    }
}

} // verus!
