//! The asset ledger: balances, total supplies, allowances and metadata of
//! any number of fungible assets.

use crate::table::Table;
use crate::types::{AccountId, AssetId, Error, TokenBalance};
use vstd::prelude::*;

verus! {

/// The metadata of an asset, fixed when the asset is issued.
#[derive(Clone, Copy, Debug, PartialEq, Eq, Default)]
pub struct AssetInfo {
    pub name: [u8; 16],
    pub symbol: [u8; 8],
    pub decimals: u8,
}

/// What a successful ledger operation reports.
#[derive(Clone, Copy, Debug, PartialEq, Eq, Structural)]
pub enum Event {
    /// An asset was issued: its id, its first owner, its total supply.
    Issued(AssetId, AccountId, TokenBalance),
    /// Units moved: the asset, the source, the target, the amount.
    Transferred(AssetId, AccountId, AccountId, TokenBalance),
    /// An allowance was set: the asset, the owner, the spender, the amount.
    Approval(AssetId, AccountId, AccountId, TokenBalance),
}

/// The number of accounts there are.
pub open spec fn accounts() -> nat {
    (u128::MAX + 1) as nat
}

/// The units of asset `id` held by the accounts below `upto`, added up.
pub open spec fn held(
    balances: Map<(AssetId, AccountId), TokenBalance>,
    id: AssetId,
    upto: nat,
) -> nat
    decreases upto,
{
    if upto == 0 {
        0
    } else {
        (held(balances, id, (upto - 1) as nat) + balances[(id, (upto - 1) as AccountId)]) as nat
    }
}

/// The ledger as a value: the id that the next asset gets, and for every key
/// the metadata, the supply, the balance and the allowance that it holds.
pub struct State {
    pub next_asset_id: AssetId,
    pub infos: Map<AssetId, Option<AssetInfo>>,
    pub supply: Map<AssetId, TokenBalance>,
    pub balances: Map<(AssetId, AccountId), TokenBalance>,
    pub allowances: Map<(AssetId, AccountId, AccountId), TokenBalance>,
}

impl State {
    /// The ledger before anything was issued.
    pub open spec fn empty() -> State {
        State {
            next_asset_id: 0,
            infos: Map::total(|id: AssetId| None::<AssetInfo>),
            supply: Map::total(|id: AssetId| 0u64),
            balances: Map::total(|key: (AssetId, AccountId)| 0u64),
            allowances: Map::total(|key: (AssetId, AccountId, AccountId)| 0u64),
        }
    }

    /// Whether an asset with this id was issued.
    pub open spec fn exists_asset(self, id: AssetId) -> bool {
        self.infos[id] is Some
    }

    /// All units of asset `id` that accounts hold, added up.
    pub open spec fn circulating(self, id: AssetId) -> nat {
        held(self.balances, id, accounts())
    }

    /// The supply law: the assets issued are those with an id below the next
    /// one, the total supply of each of them is the sum of its balances, and
    /// nobody holds units of an asset that was not issued.
    pub open spec fn conserved(self) -> bool {
        &&& forall|id: AssetId| #[trigger] self.exists_asset(id) <==> id < self.next_asset_id
        &&& forall|id: AssetId| #[trigger]
            self.exists_asset(id) ==> self.supply[id] == self.circulating(id)
        &&& forall|id: AssetId, who: AccountId|
            !self.exists_asset(id) ==> #[trigger] self.balances[(id, who)] == 0
    }

    /// The id that the next asset gets, unless the ids are used up.
    pub open spec fn next_id(self) -> Result<AssetId, Error> {
        if self.next_asset_id == u32::MAX {
            Err(Error::Overflow)
        } else {
            Ok(self.next_asset_id)
        }
    }

    /// The ledger after a new asset with `total` units, all held by `issuer`,
    /// was added.
    pub open spec fn issued(
        self,
        issuer: AccountId,
        total: TokenBalance,
        info: AssetInfo,
    ) -> State {
        let id = self.next_asset_id;
        State {
            next_asset_id: (id + 1) as AssetId,
            infos: self.infos.insert(id, Some(info)),
            supply: self.supply.insert(id, total),
            balances: self.balances.insert((id, issuer), total),
            allowances: self.allowances,
        }
    }

    /// Whether `amount` units of `id` can move from `from` to `to`, and why
    /// not.
    pub open spec fn transfer_check(
        self,
        id: AssetId,
        from: AccountId,
        to: AccountId,
        amount: TokenBalance,
    ) -> Result<(), Error> {
        if amount == 0 {
            Err(Error::AmountZero)
        } else if self.balances[(id, from)] < amount {
            Err(Error::BalanceLow)
        } else if from != to && self.balances[(id, to)] + amount > u64::MAX {
            Err(Error::Overflow)
        } else {
            Ok(())
        }
    }

    /// The ledger after `amount` units of `id` moved from `from` to `to`.
    pub open spec fn transferred(
        self,
        id: AssetId,
        from: AccountId,
        to: AccountId,
        amount: TokenBalance,
    ) -> State {
        let debited = self.balances.insert(
            (id, from),
            (self.balances[(id, from)] - amount) as TokenBalance,
        );
        State {
            next_asset_id: self.next_asset_id,
            infos: self.infos,
            supply: self.supply,
            balances: debited.insert((id, to), (debited[(id, to)] + amount) as TokenBalance),
            allowances: self.allowances,
        }
    }

    /// The ledger after `owner` allowed `spender` to move up to `amount`
    /// units of `id`.
    pub open spec fn allowed(
        self,
        id: AssetId,
        owner: AccountId,
        spender: AccountId,
        amount: TokenBalance,
    ) -> State {
        State {
            next_asset_id: self.next_asset_id,
            infos: self.infos,
            supply: self.supply,
            balances: self.balances,
            allowances: self.allowances.insert((id, owner, spender), amount),
        }
    }

    /// Whether `spender` can move `amount` units of `id` from `owner` to
    /// `to`, and why not.
    pub open spec fn transfer_from_check(
        self,
        id: AssetId,
        spender: AccountId,
        owner: AccountId,
        to: AccountId,
        amount: TokenBalance,
    ) -> Result<(), Error> {
        if self.allowances[(id, owner, spender)] < amount {
            Err(Error::AllowanceLow)
        } else {
            self.transfer_check(id, owner, to, amount)
        }
    }

    /// The ledger after `spender` moved `amount` units of `id` from `owner`
    /// to `to`: the allowance is drawn down and the units have moved.
    pub open spec fn transferred_from(
        self,
        id: AssetId,
        spender: AccountId,
        owner: AccountId,
        to: AccountId,
        amount: TokenBalance,
    ) -> State {
        self.allowed(
            id,
            owner,
            spender,
            (self.allowances[(id, owner, spender)] - amount) as TokenBalance,
        ).transferred(id, owner, to, amount)
    }

    /// Whether `amount` new units of `id` can be credited to `to`.
    pub open spec fn mint_check(self, id: AssetId, to: AccountId, amount: TokenBalance) -> Result<
        (),
        Error,
    > {
        if self.supply[id] + amount > u64::MAX || self.balances[(id, to)] + amount > u64::MAX {
            Err(Error::Overflow)
        } else {
            Ok(())
        }
    }

    /// The ledger after `amount` new units of `id` were credited to `to`.
    pub open spec fn minted(self, id: AssetId, to: AccountId, amount: TokenBalance) -> State {
        State {
            next_asset_id: self.next_asset_id,
            infos: self.infos,
            supply: self.supply.insert(id, (self.supply[id] + amount) as TokenBalance),
            balances: self.balances.insert(
                (id, to),
                (self.balances[(id, to)] + amount) as TokenBalance,
            ),
            allowances: self.allowances,
        }
    }

    /// Whether `amount` units of `id` can be taken from `from` and destroyed.
    pub open spec fn burn_check(self, id: AssetId, from: AccountId, amount: TokenBalance) -> Result<
        (),
        Error,
    > {
        if self.balances[(id, from)] < amount {
            Err(Error::BalanceLow)
        } else if self.supply[id] < amount {
            Err(Error::Overflow)
        } else {
            Ok(())
        }
    }

    /// The ledger after `amount` units of `id` were taken from `from` and
    /// destroyed.
    pub open spec fn burned(self, id: AssetId, from: AccountId, amount: TokenBalance) -> State {
        State {
            next_asset_id: self.next_asset_id,
            infos: self.infos,
            supply: self.supply.insert(id, (self.supply[id] - amount) as TokenBalance),
            balances: self.balances.insert(
                (id, from),
                (self.balances[(id, from)] - amount) as TokenBalance,
            ),
            allowances: self.allowances,
        }
    }
}

/// Setting one balance changes the sum of an asset's balances by what that
/// balance gained or lost, and leaves the sums of the other assets alone.
pub proof fn lemma_held_after_insert(
    balances: Map<(AssetId, AccountId), TokenBalance>,
    id: AssetId,
    who: AccountId,
    value: TokenBalance,
    other: AssetId,
    upto: nat,
)
    requires
        upto <= accounts(),
    ensures
        held(balances.insert((id, who), value), other, upto) == held(balances, other, upto) + (if other
            == id && who < upto {
            value - balances[(id, who)]
        } else {
            0
        }),
    decreases upto,
{
    if upto > 0 {
        lemma_held_after_insert(balances, id, who, value, other, (upto - 1) as nat);
        let last = (upto - 1) as AccountId;
        if other == id && who == last {
        } else {
            assert((other, last) != (id, who));
        }
    }
}

/// An asset of which every balance is zero has the sum zero.
pub proof fn lemma_held_of_nothing(
    balances: Map<(AssetId, AccountId), TokenBalance>,
    id: AssetId,
    upto: nat,
)
    requires
        upto <= accounts(),
        forall|who: AccountId| #[trigger] balances[(id, who)] == 0,
    ensures
        held(balances, id, upto) == 0,
    decreases upto,
{
    if upto > 0 {
        lemma_held_of_nothing(balances, id, (upto - 1) as nat);
    }
}

/// Two different accounts together hold no more of an asset than all
/// accounts do.
pub proof fn lemma_two_holders_within_sum(
    balances: Map<(AssetId, AccountId), TokenBalance>,
    id: AssetId,
    first: AccountId,
    second: AccountId,
)
    requires
        first != second,
    ensures
        balances[(id, first)] + balances[(id, second)] <= held(balances, id, accounts()),
{
    let without_first = balances.insert((id, first), 0);
    lemma_held_after_insert(balances, id, first, 0, id, accounts());
    lemma_held_after_insert(without_first, id, second, 0, id, accounts());
    assert(without_first[(id, second)] == balances[(id, second)]);
}

/// No account holds more of an asset than all accounts do.
pub proof fn lemma_holder_within_sum(
    balances: Map<(AssetId, AccountId), TokenBalance>,
    id: AssetId,
    who: AccountId,
)
    ensures
        balances[(id, who)] <= held(balances, id, accounts()),
{
    lemma_held_after_insert(balances, id, who, 0, id, accounts());
}

impl State {
    /// Issuing an asset keeps the supply law.
    pub proof fn lemma_issue_conserves(
        self,
        issuer: AccountId,
        total: TokenBalance,
        info: AssetInfo,
    )
        requires
            self.conserved(),
            self.next_id() is Ok,
        ensures
            self.issued(issuer, total, info).conserved(),
    {
        let new_id = self.next_asset_id;
        let after = self.issued(issuer, total, info);
        assert(!self.exists_asset(new_id));
        assert forall|id: AssetId| #[trigger] after.exists_asset(id) <==> id < after.next_asset_id by {
            assert(self.exists_asset(id) <==> id < self.next_asset_id);
        }
        assert forall|id: AssetId| #[trigger] after.exists_asset(id) implies after.supply[id]
            == after.circulating(id) by {
            lemma_held_after_insert(self.balances, new_id, issuer, total, id, accounts());
            if id == new_id {
                assert forall|who: AccountId| #[trigger] self.balances[(new_id, who)] == 0 by {}
                lemma_held_of_nothing(self.balances, new_id, accounts());
            } else {
                assert(self.exists_asset(id));
            }
        }
        assert forall|id: AssetId, who: AccountId| !after.exists_asset(id) implies #[trigger] after.balances[(
            id,
            who,
        )] == 0 by {
            assert(!self.exists_asset(id));
            assert((id, who) != (new_id, issuer));
        }
    }

    /// A transfer keeps the supply law.
    pub proof fn lemma_transfer_conserves(
        self,
        id: AssetId,
        from: AccountId,
        to: AccountId,
        amount: TokenBalance,
    )
        requires
            self.conserved(),
            self.transfer_check(id, from, to, amount) is Ok,
        ensures
            self.transferred(id, from, to, amount).conserved(),
    {
        let after = self.transferred(id, from, to, amount);
        assert forall|other: AssetId| #[trigger] after.exists_asset(other) <==> other < after.next_asset_id by {
            assert(self.exists_asset(other) <==> other < self.next_asset_id);
        }
        let low = (self.balances[(id, from)] - amount) as TokenBalance;
        let debited = self.balances.insert((id, from), low);
        let high = (debited[(id, to)] + amount) as TokenBalance;
        assert(self.exists_asset(id)) by {
            if !self.exists_asset(id) {
                assert(self.balances[(id, from)] == 0);
            }
        }
        assert forall|other: AssetId| #[trigger] after.exists_asset(other) implies after.supply[other]
            == after.circulating(other) by {
            assert(self.exists_asset(other));
            lemma_held_after_insert(self.balances, id, from, low, other, accounts());
            lemma_held_after_insert(debited, id, to, high, other, accounts());
        }
        assert forall|other: AssetId, who: AccountId| !after.exists_asset(other) implies #[trigger] after.balances[(
            other,
            who,
        )] == 0 by {
            assert(!self.exists_asset(other));
            assert(self.balances[(other, who)] == 0);
            assert((other, who) != (id, from));
            assert((other, who) != (id, to));
        }
    }

    /// A transfer from an account to itself changes no balance.
    pub proof fn lemma_transfer_to_oneself(self, id: AssetId, who: AccountId, amount: TokenBalance)
        requires
            self.total(),
            self.transfer_check(id, who, who, amount) is Ok,
        ensures
            self.transferred(id, who, who, amount) == self,
    {
        assert(self.transferred(id, who, who, amount).balances =~= self.balances);
    }

    /// Under the supply law the target of a transfer cannot overflow.
    pub proof fn lemma_transfer_fits(
        self,
        id: AssetId,
        from: AccountId,
        to: AccountId,
        amount: TokenBalance,
    )
        requires
            self.conserved(),
        ensures
            !(self.transfer_check(id, from, to, amount) matches Err(Error::Overflow)),
    {
        if from != to && amount <= self.balances[(id, from)] {
            lemma_two_holders_within_sum(self.balances, id, from, to);
            if self.exists_asset(id) {
                assert(self.supply[id] == self.circulating(id));
            } else {
                assert(self.balances[(id, to)] == 0);
            }
        }
    }

    /// Minting units of an issued asset keeps the supply law.
    pub proof fn lemma_mint_conserves(self, id: AssetId, to: AccountId, amount: TokenBalance)
        requires
            self.conserved(),
            self.exists_asset(id),
            self.mint_check(id, to, amount) is Ok,
        ensures
            self.minted(id, to, amount).conserved(),
    {
        let after = self.minted(id, to, amount);
        assert forall|other: AssetId| #[trigger] after.exists_asset(other) <==> other < after.next_asset_id by {
            assert(self.exists_asset(other) <==> other < self.next_asset_id);
        }
        let high = (self.balances[(id, to)] + amount) as TokenBalance;
        assert forall|other: AssetId| #[trigger] after.exists_asset(other) implies after.supply[other]
            == after.circulating(other) by {
            assert(self.exists_asset(other));
            lemma_held_after_insert(self.balances, id, to, high, other, accounts());
        }
        assert forall|other: AssetId, who: AccountId| !after.exists_asset(other) implies #[trigger] after.balances[(
            other,
            who,
        )] == 0 by {
            assert(!self.exists_asset(other));
            assert(self.balances[(other, who)] == 0);
            assert((other, who) != (id, to));
        }
    }

    /// Burning keeps the supply law.
    pub proof fn lemma_burn_conserves(self, id: AssetId, from: AccountId, amount: TokenBalance)
        requires
            self.conserved(),
            self.burn_check(id, from, amount) is Ok,
        ensures
            self.burned(id, from, amount).conserved(),
    {
        let after = self.burned(id, from, amount);
        assert forall|other: AssetId| #[trigger] after.exists_asset(other) <==> other < after.next_asset_id by {
            assert(self.exists_asset(other) <==> other < self.next_asset_id);
        }
        let low = (self.balances[(id, from)] - amount) as TokenBalance;
        assert forall|other: AssetId| #[trigger] after.exists_asset(other) implies after.supply[other]
            == after.circulating(other) by {
            assert(self.exists_asset(other));
            lemma_held_after_insert(self.balances, id, from, low, other, accounts());
        }
        assert forall|other: AssetId, who: AccountId| !after.exists_asset(other) implies #[trigger] after.balances[(
            other,
            who,
        )] == 0 by {
            assert(!self.exists_asset(other));
            assert(self.balances[(other, who)] == 0);
        }
    }

    /// Under the supply law, burning fails only for want of balance.
    pub proof fn lemma_burn_fits(self, id: AssetId, from: AccountId, amount: TokenBalance)
        requires
            self.conserved(),
        ensures
            !(self.burn_check(id, from, amount) matches Err(Error::Overflow)),
    {
        lemma_holder_within_sum(self.balances, id, from);
        if self.exists_asset(id) {
            assert(self.supply[id] == self.circulating(id));
        } else {
            assert(self.balances[(id, from)] == 0);
        }
    }
}

impl State {
    /// Setting an allowance keeps the supply law.
    pub proof fn lemma_allow_conserves(
        self,
        id: AssetId,
        owner: AccountId,
        spender: AccountId,
        amount: TokenBalance,
    )
        requires
            self.conserved(),
        ensures
            self.allowed(id, owner, spender, amount).conserved(),
    {
        let after = self.allowed(id, owner, spender, amount);
        assert forall|other: AssetId| #[trigger] after.exists_asset(other) <==> other < after.next_asset_id by {
            assert(self.exists_asset(other) <==> other < self.next_asset_id);
        }
        assert forall|other: AssetId| #[trigger] after.exists_asset(other) implies after.supply[other]
            == after.circulating(other) by {
            assert(self.exists_asset(other));
        }
    }

    /// A delegated transfer keeps the supply law.
    pub proof fn lemma_transfer_from_conserves(
        self,
        id: AssetId,
        spender: AccountId,
        owner: AccountId,
        to: AccountId,
        amount: TokenBalance,
    )
        requires
            self.conserved(),
            self.transfer_from_check(id, spender, owner, to, amount) is Ok,
        ensures
            self.transferred_from(id, spender, owner, to, amount).conserved(),
    {
        let left = (self.allowances[(id, owner, spender)] - amount) as TokenBalance;
        self.lemma_allow_conserves(id, owner, spender, left);
        self.allowed(id, owner, spender, left).lemma_transfer_conserves(id, owner, to, amount);
    }

    /// What `issue` answers: the event of the new asset, or why there is none.
    pub open spec fn issue_outcome(self, origin: AccountId, total: TokenBalance) -> Result<
        Event,
        Error,
    > {
        match self.next_id() {
            Ok(id) => Ok(Event::Issued(id, origin, total)),
            Err(e) => Err(e),
        }
    }

    /// What `transfer` and `transfer_from` answer when `amount` units of `id`
    /// are to move from `from` to `to` and the ledger's answer is `check`.
    pub open spec fn transfer_outcome(
        check: Result<(), Error>,
        id: AssetId,
        from: AccountId,
        to: AccountId,
        amount: TokenBalance,
    ) -> Result<Event, Error> {
        match check {
            Ok(_) => Ok(Event::Transferred(id, from, to, amount)),
            Err(e) => Err(e),
        }
    }
}

/// The ledger.
pub struct Module {
    next_asset_id: AssetId,
    infos: Table<AssetId, Option<AssetInfo>>,
    supply: Table<AssetId, TokenBalance>,
    balances: Table<(AssetId, AccountId), TokenBalance>,
    allowances: Table<(AssetId, AccountId, AccountId), TokenBalance>,
}

impl Module {
    /// The ledger as a value.
    pub closed spec fn view(&self) -> State {
        State {
            next_asset_id: self.next_asset_id,
            infos: self.infos@,
            supply: self.supply@,
            balances: self.balances@,
            allowances: self.allowances@,
        }
    }

    /// A ledger without assets, balances or allowances.
    pub fn new() -> (ledger: Self)
        ensures
            ledger@ == State::empty(),
            ledger@.conserved(),
    {
        let ledger = Module {
            next_asset_id: 0,
            infos: Table::new(None),
            supply: Table::new(0),
            balances: Table::new(0),
            allowances: Table::new(0),
        };
        proof {
            assert forall|id: AssetId| #[trigger] ledger@.exists_asset(id) implies ledger@.supply[id]
                == ledger@.circulating(id) by {}
        }
        ledger
    }

    /// The units of asset `id` that `who` holds.
    pub fn balance(&self, id: AssetId, who: AccountId) -> (amount: TokenBalance)
        ensures
            amount == self@.balances[(id, who)],
    {
        self.balances.get(&(id, who))
    }

    /// The total supply of asset `id`.
    pub fn total_supply(&self, id: AssetId) -> (amount: TokenBalance)
        ensures
            amount == self@.supply[id],
    {
        self.supply.get(&id)
    }

    /// The units of asset `id` that `spender` may still move out of
    /// `owner`'s balance.
    pub fn allowances(&self, id: AssetId, owner: AccountId, spender: AccountId) -> (amount:
        TokenBalance)
        ensures
            amount == self@.allowances[(id, owner, spender)],
    {
        self.allowances.get(&(id, owner, spender))
    }

    /// The metadata of asset `id`, if it was issued.
    pub fn asset_info(&self, id: AssetId) -> (info: Option<AssetInfo>)
        ensures
            info == self@.infos[id],
    {
        self.infos.get(&id)
    }

    /// The id that the next asset gets.
    pub fn next_asset_id(&self) -> (id: AssetId)
        ensures
            id == self@.next_asset_id,
    {
        self.next_asset_id
    }

    /// Creates an asset of `total` units, all of them held by `issuer`, and
    /// answers its id. Fails with `Overflow` when the ids are used up.
    pub fn mint_asset(&mut self, issuer: AccountId, total: TokenBalance, info: AssetInfo) -> (r:
        Result<AssetId, Error>)
        ensures
            r == old(self)@.next_id(),
            r is Ok ==> final(self)@ == old(self)@.issued(issuer, total, info),
            r is Err ==> *final(self) == *old(self),
            old(self)@.conserved() ==> final(self)@.conserved(),
    {
        if self.next_asset_id == u32::MAX {
            return Err(Error::Overflow);
        }
        let id: AssetId = self.next_asset_id;
        proof {
            if old(self)@.conserved() {
                old(self)@.lemma_issue_conserves(issuer, total, info);
            }
        }
        self.next_asset_id = id + 1;
        self.infos.set(id, Some(info));
        self.balances.set((id, issuer), total);
        self.supply.set(id, total);
        Ok(id)
    }

    /// Issues a new asset of `total` units to `origin`.
    pub fn issue(&mut self, origin: AccountId, total: TokenBalance, asset_info: AssetInfo) -> (r:
        Result<Event, Error>)
        ensures
            r == old(self)@.issue_outcome(origin, total),
            r is Ok ==> final(self)@ == old(self)@.issued(origin, total, asset_info),
            r is Err ==> *final(self) == *old(self),
            old(self)@.conserved() ==> final(self)@.conserved(),
    {
        match self.mint_asset(origin, total, asset_info) {
            Ok(id) => Ok(Event::Issued(id, origin, total)),
            Err(e) => Err(e),
        }
    }

    /// Whether `amount` units of `id` can move from `from` to `to`.
    pub fn can_transfer(
        &self,
        id: AssetId,
        from: AccountId,
        to: AccountId,
        amount: TokenBalance,
    ) -> (r:
        Result<(), Error>)
        ensures
            r == self@.transfer_check(id, from, to, amount),
    {
        if amount == 0 {
            return Err(Error::AmountZero);
        }
        if self.balances.get(&(id, from)) < amount {
            return Err(Error::BalanceLow);
        }
        if from != to && self.balances.get(&(id, to)) > u64::MAX - amount {
            return Err(Error::Overflow);
        }
        Ok(())
    }

    /// Moves `amount` units of `id` from `from` to `to`, whoever asks.
    pub fn transfer_inner(
        &mut self,
        id: AssetId,
        from: AccountId,
        to: AccountId,
        amount: TokenBalance,
    ) -> (r: Result<(), Error>)
        ensures
            r == old(self)@.transfer_check(id, from, to, amount),
            r is Ok ==> final(self)@ == old(self)@.transferred(id, from, to, amount),
            r is Err ==> *final(self) == *old(self),
            old(self)@.conserved() ==> final(self)@.conserved(),
    {
        match self.can_transfer(id, from, to, amount) {
            Err(e) => {
                return Err(e);
            },
            Ok(_) => {},
        }
        proof {
            if old(self)@.conserved() {
                old(self)@.lemma_transfer_conserves(id, from, to, amount);
            }
        }
        let source: TokenBalance = self.balances.get(&(id, from));
        self.balances.set((id, from), source - amount);
        let target: TokenBalance = self.balances.get(&(id, to));
        self.balances.set((id, to), target + amount);
        Ok(())
    }

    /// Moves `amount` units of `id` from `origin` to `target`.
    pub fn transfer(
        &mut self,
        origin: AccountId,
        id: AssetId,
        target: AccountId,
        amount: TokenBalance,
    ) -> (r:
        Result<Event, Error>)
        ensures
            r == State::transfer_outcome(
                old(self)@.transfer_check(id, origin, target, amount),
                id,
                origin,
                target,
                amount,
            ),
            r is Ok ==> final(self)@ == old(self)@.transferred(id, origin, target, amount),
            r is Err ==> *final(self) == *old(self),
            old(self)@.conserved() ==> final(self)@.conserved(),
    {
        match self.transfer_inner(id, origin, target, amount) {
            Ok(_) => Ok(Event::Transferred(id, origin, target, amount)),
            Err(e) => Err(e),
        }
    }

    /// Lets `spender` move up to `amount` units of `id` out of `origin`'s
    /// balance. An earlier allowance is overwritten, not added to.
    pub fn allow(
        &mut self,
        origin: AccountId,
        id: AssetId,
        spender: AccountId,
        amount: TokenBalance,
    ) -> (event:
        Event)
        ensures
            event == Event::Approval(id, origin, spender, amount),
            final(self)@ == old(self)@.allowed(id, origin, spender, amount),
            final(self)@.allowances[(id, origin, spender)] == amount,
            old(self)@.conserved() ==> final(self)@.conserved(),
    {
        proof {
            if old(self)@.conserved() {
                old(self)@.lemma_allow_conserves(id, origin, spender, amount);
            }
        }
        self.allowances.set((id, origin, spender), amount);
        Event::Approval(id, origin, spender, amount)
    }

    /// Whether `spender` can move `amount` units of `id` from `owner` to `to`.
    pub fn can_transfer_from(
        &self,
        id: AssetId,
        spender: AccountId,
        owner: AccountId,
        to: AccountId,
        amount: TokenBalance,
    ) -> (r: Result<(), Error>)
        ensures
            r == self@.transfer_from_check(id, spender, owner, to, amount),
    {
        if self.allowances.get(&(id, owner, spender)) < amount {
            return Err(Error::AllowanceLow);
        }
        self.can_transfer(id, owner, to, amount)
    }

    /// Moves `amount` units of `id` from `owner` to `to` on the strength of
    /// the allowance that `owner` gave `spender`, whoever asks.
    pub fn transfer_from_inner(
        &mut self,
        id: AssetId,
        spender: AccountId,
        owner: AccountId,
        to: AccountId,
        amount: TokenBalance,
    ) -> (r: Result<(), Error>)
        ensures
            r == old(self)@.transfer_from_check(id, spender, owner, to, amount),
            r is Ok ==> final(self)@ == old(self)@.transferred_from(id, spender, owner, to, amount),
            r is Err ==> *final(self) == *old(self),
            old(self)@.conserved() ==> final(self)@.conserved(),
    {
        match self.can_transfer_from(id, spender, owner, to, amount) {
            Err(e) => {
                return Err(e);
            },
            Ok(_) => {},
        }
        proof {
            if old(self)@.conserved() {
                old(self)@.lemma_transfer_from_conserves(id, spender, owner, to, amount);
            }
        }
        let allowance: TokenBalance = self.allowances.get(&(id, owner, spender));
        self.allowances.set((id, owner, spender), allowance - amount);
        let moved = self.transfer_inner(id, owner, to, amount);
        assert(moved is Ok);
        Ok(())
    }

    /// Moves `amount` units of `id` from `from` to `target` on the strength
    /// of the allowance that `from` gave `origin`.
    pub fn transfer_from(
        &mut self,
        origin: AccountId,
        id: AssetId,
        from: AccountId,
        target: AccountId,
        amount: TokenBalance,
    ) -> (r: Result<Event, Error>)
        ensures
            r == State::transfer_outcome(
                old(self)@.transfer_from_check(id, origin, from, target, amount),
                id,
                from,
                target,
                amount,
            ),
            r is Ok ==> final(self)@ == old(self)@.transferred_from(
                id,
                origin,
                from,
                target,
                amount,
            ),
            r is Err ==> *final(self) == *old(self),
            old(self)@.conserved() ==> final(self)@.conserved(),
    {
        match self.transfer_from_inner(id, origin, from, target, amount) {
            Ok(_) => Ok(Event::Transferred(id, from, target, amount)),
            Err(e) => Err(e),
        }
    }

    /// Whether `amount` new units of `id` can be credited to `to`.
    pub fn can_mint(
        &self,
        id: AssetId,
        to: AccountId,
        amount: TokenBalance,
    ) -> (r: Result<(), Error>)
        ensures
            r == self@.mint_check(id, to, amount),
    {
        if self.supply.get(&id) > u64::MAX - amount || self.balances.get(&(id, to)) > u64::MAX
            - amount {
            return Err(Error::Overflow);
        }
        Ok(())
    }

    /// Creates `amount` new units of `id` and credits them to `to`.
    pub fn mint(
        &mut self,
        id: AssetId,
        to: AccountId,
        amount: TokenBalance,
    ) -> (r: Result<(), Error>)
        ensures
            r == old(self)@.mint_check(id, to, amount),
            r is Ok ==> final(self)@ == old(self)@.minted(id, to, amount),
            r is Err ==> *final(self) == *old(self),
            old(self)@.conserved() && old(self)@.exists_asset(id) ==> final(self)@.conserved(),
    {
        match self.can_mint(id, to, amount) {
            Err(e) => {
                return Err(e);
            },
            Ok(_) => {},
        }
        proof {
            if old(self)@.conserved() && old(self)@.exists_asset(id) {
                old(self)@.lemma_mint_conserves(id, to, amount);
            }
        }
        let balance: TokenBalance = self.balances.get(&(id, to));
        self.balances.set((id, to), balance + amount);
        let supply: TokenBalance = self.supply.get(&id);
        self.supply.set(id, supply + amount);
        Ok(())
    }

    /// Whether `amount` units of `id` can be taken from `from` and destroyed.
    pub fn can_burn(
        &self,
        id: AssetId,
        from: AccountId,
        amount: TokenBalance,
    ) -> (r: Result<(), Error>)
        ensures
            r == self@.burn_check(id, from, amount),
    {
        if self.balances.get(&(id, from)) < amount {
            return Err(Error::BalanceLow);
        }
        if self.supply.get(&id) < amount {
            return Err(Error::Overflow);
        }
        Ok(())
    }

    /// Takes `amount` units of `id` from `from` and destroys them.
    pub fn burn(
        &mut self,
        id: AssetId,
        from: AccountId,
        amount: TokenBalance,
    ) -> (r: Result<(), Error>)
        ensures
            r == old(self)@.burn_check(id, from, amount),
            r is Ok ==> final(self)@ == old(self)@.burned(id, from, amount),
            r is Err ==> *final(self) == *old(self),
            old(self)@.conserved() ==> final(self)@.conserved(),
    {
        match self.can_burn(id, from, amount) {
            Err(e) => {
                return Err(e);
            },
            Ok(_) => {},
        }
        proof {
            if old(self)@.conserved() {
                old(self)@.lemma_burn_conserves(id, from, amount);
            }
        }
        let balance: TokenBalance = self.balances.get(&(id, from));
        self.balances.set((id, from), balance - amount);
        let supply: TokenBalance = self.supply.get(&id);
        self.supply.set(id, supply - amount);
        Ok(())
    }
}

/// A change to balances that is asked of the ledger.
#[derive(Clone, Copy, Debug, PartialEq, Eq, Structural)]
pub enum Op {
    /// Create `amount` units of `id` for `to`.
    Mint { id: AssetId, to: AccountId, amount: TokenBalance },
    /// Destroy `amount` units of `id` held by `from`.
    Burn { id: AssetId, from: AccountId, amount: TokenBalance },
    /// Move `amount` units of `id` from `from` to `to`.
    Transfer { id: AssetId, from: AccountId, to: AccountId, amount: TokenBalance },
    /// Move `amount` units of `id` from `owner` to `to`, out of the
    /// allowance that `owner` gave `spender`.
    TransferFrom {
        id: AssetId,
        spender: AccountId,
        owner: AccountId,
        to: AccountId,
        amount: TokenBalance,
    },
}

impl State {
    /// Every key has a value in each of the four maps.
    pub open spec fn total(self) -> bool {
        &&& self.infos.dom() == Set::<AssetId>::full()
        &&& self.supply.dom() == Set::<AssetId>::full()
        &&& self.balances.dom() == Set::<(AssetId, AccountId)>::full()
        &&& self.allowances.dom() == Set::<(AssetId, AccountId, AccountId)>::full()
    }

    /// Whether the ledger accepts `op`, and why not.
    pub open spec fn check(self, op: Op) -> Result<(), Error> {
        match op {
            Op::Mint { id, to, amount } => self.mint_check(id, to, amount),
            Op::Burn { id, from, amount } => self.burn_check(id, from, amount),
            Op::Transfer { id, from, to, amount } => self.transfer_check(id, from, to, amount),
            Op::TransferFrom { id, spender, owner, to, amount } => self.transfer_from_check(
                id,
                spender,
                owner,
                to,
                amount,
            ),
        }
    }

    /// The ledger after `op`.
    pub open spec fn applied(self, op: Op) -> State {
        match op {
            Op::Mint { id, to, amount } => self.minted(id, to, amount),
            Op::Burn { id, from, amount } => self.burned(id, from, amount),
            Op::Transfer { id, from, to, amount } => self.transferred(id, from, to, amount),
            Op::TransferFrom { id, spender, owner, to, amount } => self.transferred_from(
                id,
                spender,
                owner,
                to,
                amount,
            ),
        }
    }

    /// Whether `op` is one that keeps the supply law: any but the minting of
    /// an asset that was not issued.
    pub open spec fn lawful(self, op: Op) -> bool {
        op matches Op::Mint { id, .. } ==> self.exists_asset(id)
    }

    /// An accepted operation leaves the issued assets as they are.
    pub proof fn lemma_applied_keeps_assets(self, op: Op)
        ensures
            self.applied(op).infos == self.infos,
            self.applied(op).next_asset_id == self.next_asset_id,
            self.total() ==> self.applied(op).total(),
    {
        if self.total() {
            let after = self.applied(op);
            assert(after.supply.dom() =~= Set::<AssetId>::full());
            assert(after.balances.dom() =~= Set::<(AssetId, AccountId)>::full());
            assert(after.allowances.dom() =~= Set::<(AssetId, AccountId, AccountId)>::full());
        }
    }

    /// A lawful operation that the ledger accepts keeps the supply law.
    pub proof fn lemma_applied_conserves(self, op: Op)
        requires
            self.conserved(),
            self.lawful(op),
            self.check(op) is Ok,
        ensures
            self.applied(op).conserved(),
    {
        match op {
            Op::Mint { id, to, amount } => self.lemma_mint_conserves(id, to, amount),
            Op::Burn { id, from, amount } => self.lemma_burn_conserves(id, from, amount),
            Op::Transfer { id, from, to, amount } => self.lemma_transfer_conserves(
                id,
                from,
                to,
                amount,
            ),
            Op::TransferFrom { id, spender, owner, to, amount } => self.lemma_transfer_from_conserves(
                id,
                spender,
                owner,
                to,
                amount,
            ),
        }
    }
}

impl Module {
    /// Every key has a value in the ledger.
    pub proof fn lemma_view_is_total(&self)
        ensures
            self@.total(),
    {
        self.infos.lemma_view_is_total();
        self.supply.lemma_view_is_total();
        self.balances.lemma_view_is_total();
        self.allowances.lemma_view_is_total();
    }

    /// Whether the ledger accepts `op`.
    pub fn can_apply(&self, op: &Op) -> (r: Result<(), Error>)
        ensures
            r == self@.check(*op),
    {
        match *op {
            Op::Mint { id, to, amount } => self.can_mint(id, to, amount),
            Op::Burn { id, from, amount } => self.can_burn(id, from, amount),
            Op::Transfer { id, from, to, amount } => self.can_transfer(id, from, to, amount),
            Op::TransferFrom { id, spender, owner, to, amount } => self.can_transfer_from(
                id,
                spender,
                owner,
                to,
                amount,
            ),
        }
    }

    /// Carries out `op`.
    pub fn apply(&mut self, op: &Op) -> (r: Result<(), Error>)
        ensures
            r == old(self)@.check(*op),
            r is Ok ==> final(self)@ == old(self)@.applied(*op),
            r is Err ==> *final(self) == *old(self),
            old(self)@.conserved() && old(self)@.lawful(*op) ==> final(self)@.conserved(),
    {
        match *op {
            Op::Mint { id, to, amount } => self.mint(id, to, amount),
            Op::Burn { id, from, amount } => self.burn(id, from, amount),
            Op::Transfer { id, from, to, amount } => self.transfer_inner(id, from, to, amount),
            Op::TransferFrom { id, spender, owner, to, amount } => self.transfer_from_inner(
                id,
                spender,
                owner,
                to,
                amount,
            ),
        }
    }

    /// Takes back `op`, which was the last thing done to the ledger: the
    /// ledger holds again what it held before.
    pub(crate) fn revert(&mut self, op: &Op, Ghost(before): Ghost<State>)
        requires
            before.total(),
            before.check(*op) is Ok,
            old(self)@ == before.applied(*op),
        ensures
            final(self)@ == before,
    {
        match *op {
            Op::Mint { id, to, amount } => {
                let undone = self.burn(id, to, amount);
                assert(undone is Ok);
            },
            Op::Burn { id, from, amount } => {
                let undone = self.mint(id, from, amount);
                assert(undone is Ok);
            },
            Op::Transfer { id, from, to, amount } => {
                let undone = self.transfer_inner(id, to, from, amount);
                assert(undone is Ok);
            },
            Op::TransferFrom { id, spender, owner, to, amount } => {
                let undone = self.transfer_inner(id, to, owner, amount);
                assert(undone is Ok);
                let left: TokenBalance = self.allowances.get(&(id, owner, spender));
                self.allowances.set((id, owner, spender), left + amount);
            },
        }
        assert(self@.infos =~= before.infos);
        assert(self@.supply =~= before.supply);
        assert(self@.balances =~= before.balances);
        assert(self@.allowances =~= before.allowances);
    }
}

} // verus!
