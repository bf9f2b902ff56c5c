use vstd::prelude::*;

verus! {

/// The player's coins.
pub struct PlayerMoney(pub u32);

impl PlayerMoney {
    /// The coins held.
    pub fn get(&self) -> (r: u32)
        ensures
            r == self.0,
    {
        self.0
    }

    /// Whether `cost` coins can be paid.
    pub fn can_afford(&self, cost: u32) -> (r: bool)
        ensures
            r == (self.0 >= cost),
    {
        self.0 >= cost
    }

    /// Pays `cost` if the coins suffice and tells whether it did; otherwise nothing changes.
    pub fn spend(&mut self, cost: u32) -> (paid: bool)
        ensures
            paid == (old(self).0 >= cost),
            final(self).0 == (if paid { old(self).0 - cost } else { old(self).0 as int }),
    {
        if self.0 >= cost {
            self.0 = self.0 - cost;
            true
        } else {
            false
        }
    }

    /// Adds `amount` coins, stopping at the largest amount a `u32` holds.
    pub fn earn(&mut self, amount: u32)
        ensures
            final(self).0 == (if old(self).0 + amount > u32::MAX { u32::MAX as int } else { old(self).0 + amount }),
    {
        self.0 = self.0.saturating_add(amount);
    }
}

/// Coins the dev menu's money button adds per press.
pub const CHEAT_MONEY: u32 = 1000;

/// The dev menu's money button, pressed `presses` times: each press adds
/// 1000 coins (stopping at the largest amount a `u32` holds).
pub fn cheat_money(money: &mut PlayerMoney, presses: u32)
    ensures
        final(money).0 == (if old(money).0 + CHEAT_MONEY * presses > u32::MAX { u32::MAX as int } else { old(money).0 + CHEAT_MONEY * presses }),
{
    let mut k: u32 = 0;
    while k < presses
        invariant
            0 <= k <= presses,
            money.0 == (if old(money).0 + CHEAT_MONEY * k > u32::MAX { u32::MAX as int } else { old(money).0 + CHEAT_MONEY * k }),
        decreases presses - k,
    {
        money.earn(CHEAT_MONEY);
        k = k + 1;
    }
}

/// The price of the next shop reroll.
pub struct RerollState {
    pub cost: u32,
}

impl RerollState {
    /// Back to the base price, as each shop visit starts.
    pub fn reset_to(&mut self, base: u32)
        ensures
            final(self).cost == base,
    {
        self.cost = base;
    }

    /// The reroll button: refused while a rune is being dragged or if the
    /// player cannot pay; otherwise the price is paid and the next reroll
    /// costs `step` more (capped at the largest `u32`). Tells whether the
    /// shop is to be rerolled.
    pub fn try_reroll(&mut self, money: &mut PlayerMoney, dragging: bool, step: u32) -> (rerolled: bool)
        ensures
            rerolled == (!dragging && old(money).0 >= old(self).cost),
            rerolled ==> final(money).0 == old(money).0 - old(self).cost
                && final(self).cost == (if old(self).cost + step > u32::MAX { u32::MAX as int } else { old(self).cost + step }),
            !rerolled ==> final(money).0 == old(money).0 && final(self).cost == old(self).cost,
    {
        if dragging {
            return false;
        }
        if !money.can_afford(self.cost) {
            return false;
        }
        let _ = money.spend(self.cost);
        self.cost = self.cost.saturating_add(step);
        true
    }
}

/// What selling an artifact bought for `price` gives back: half, rounded up.
pub fn sell_price(price: u32) -> (r: u32)
    ensures
        r == (price as int + 1) / 2,
{
    price / 2 + price % 2
}

/// Buying an artifact and selling it back never gains coins: the refund is
/// at most the price, so the coins after a buy and a sale are at most those
/// before (and at least those before minus half the price).
pub proof fn lemma_buy_then_sell(money: u32, price: u32)
    requires
        money >= price,
    ensures
        (price as int + 1) / 2 <= price,
        money - price + (price as int + 1) / 2 <= money,
        money - price + (price as int + 1) / 2 >= money - price / 2,
{
}

/// Whether an artifact costing `price` can be bought: the coins suffice and a slot is free.
pub fn artifact_can_buy(money: u32, price: u32, slots_full: bool) -> (r: bool)
    ensures
        r == (money >= price && !slots_full),
{
    money >= price && !slots_full
}

/// The artifact slot chosen in the panel, if any.
pub struct SelectedArtifactSlot(pub Option<usize>);

impl SelectedArtifactSlot {
    /// A click on slot `slot`: chooses it, or un-chooses it if it was chosen.
    pub fn click(&mut self, slot: usize)
        ensures
            final(self).0 == (if old(self).0 == Some(slot) { None } else { Some(slot) }),
    {
        if self.0 == Some(slot) {
            self.0 = None;
        } else {
            self.0 = Some(slot);
        }
    }

    /// Nothing is chosen any more (after a sale, or when leaving the shop).
    pub fn clear(&mut self)
        ensures
            final(self).0 is None,
    {
        self.0 = None;
    }
}

/// One line of the artifact panel.
#[derive(Clone, Copy, PartialEq, Eq, Structural, Debug)]
pub struct ArtifactRow {
    pub slot: usize,
    /// The row is the chosen one (shown highlighted in the shop).
    pub selected: bool,
    /// In the shop, the chosen row offers a sale at this price.
    pub sell_offer: Option<u32>,
}

/// The panel line of the artifact in `slot`, bought for `price`.
pub open spec fn artifact_row_spec(slot: usize, price: u32, selected: Option<usize>, in_shop: bool) -> ArtifactRow {
    let chosen = selected == Some(slot);
    ArtifactRow {
        slot,
        selected: in_shop && chosen,
        sell_offer: if in_shop && chosen { Some(((price as int + 1) / 2) as u32) } else { None },
    }
}

/// The lines of the artifact panel for the equipped artifacts `equipped`
/// (slot and purchase price), in order. Only in the shop can a row be chosen
/// and sold.
pub fn artifact_rows(equipped: &Vec<(usize, u32)>, selected: Option<usize>, in_shop: bool) -> (rows: Vec<ArtifactRow>)
    ensures
        rows.len() == equipped.len(),
        forall|i: int| 0 <= i < equipped.len() ==> #[trigger] rows@[i] == artifact_row_spec(equipped@[i].0, equipped@[i].1, selected, in_shop),
{
    let mut rows: Vec<ArtifactRow> = Vec::new();
    let mut i: usize = 0;
    while i < equipped.len()
        invariant
            0 <= i <= equipped.len(),
            rows.len() == i,
            forall|j: int| 0 <= j < i ==> #[trigger] rows@[j] == artifact_row_spec(equipped@[j].0, equipped@[j].1, selected, in_shop),
        decreases equipped.len() - i,
    {
        let (slot, price) = equipped[i];
        let chosen = selected == Some(slot);
        let row = ArtifactRow {
            slot,
            selected: in_shop && chosen,
            sell_offer: if in_shop && chosen { Some(sell_price(price)) } else { None },
        };
        rows.push(row);
        i = i + 1;
    }
    rows
}

} // verus!
