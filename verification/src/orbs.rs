use vstd::prelude::*;

use crate::economy::PlayerMoney;
use crate::stat_text::{tier_tag, tier_text};
use crate::text::{push_str, string_from_chars};

verus! {

/// Index of an orb in the orb registry.
#[derive(Clone, Copy, PartialEq, Eq, Structural, Debug)]
pub struct OrbId(pub usize);

/// Index of an affix definition.
#[derive(Clone, Copy, PartialEq, Eq, Structural, Debug)]
pub struct AffixId(pub u32);

/// Which spell slot an affix set belongs to.
#[derive(Clone, Copy, PartialEq, Eq, Structural, Debug)]
pub struct SpellSlot(pub u8);

/// What an orb does to the affixes of a spell slot.
#[derive(Clone, Copy, PartialEq, Eq, Structural, Debug)]
pub enum OrbBehavior {
    Alteration,
    Chaos,
    Augmentation,
}

/// An orb for sale.
pub struct OrbDef {
    pub name: String,
    pub description: String,
    pub price: u32,
    pub behavior: OrbBehavior,
}

/// All orbs, by id.
pub struct OrbRegistry {
    pub defs: Vec<OrbDef>,
}

/// One affix: which one and at what tier (0 is the first tier).
#[derive(Clone, Copy, PartialEq, Eq, Structural, Debug)]
pub struct Affix {
    pub affix_id: AffixId,
    pub tier: usize,
}

/// The six affix places of a spell slot.
#[derive(Clone, Copy, PartialEq, Eq, Debug)]
pub struct Affixes {
    pub affixes: [Option<Affix>; 6],
}

/// Where the orb crafting flow stands.
#[derive(Clone, Copy, PartialEq, Eq, Debug)]
pub enum OrbFlowState {
    /// No orb in use.
    Idle,
    /// An orb was bought; a spell slot is to be chosen.
    SelectSlot { orb_id: OrbId },
    /// The orb was rolled on a slot: `preview` is the result, `original` what it replaces.
    Preview { orb_id: OrbId, slot_entity: u64, slot_type: SpellSlot, original: Affixes, preview: Affixes },
}

impl OrbRegistry {
    /// The orb with id `id`, if any.
    pub open spec fn def(&self, id: OrbId) -> Option<&OrbDef> {
        if id.0 < self.defs.len() { Some(&self.defs@[id.0 as int]) } else { None }
    }

    /// The price of orb `id`, if it exists.
    pub fn price(&self, id: OrbId) -> (r: Option<u32>)
        ensures
            r == (match self.def(id) { Some(d) => Some(d.price), None => None::<u32> }),
    {
        if id.0 < self.defs.len() { Some(self.defs[id.0].price) } else { None }
    }

    /// The behaviour of orb `id`, if it exists.
    pub fn behavior(&self, id: OrbId) -> (r: Option<OrbBehavior>)
        ensures
            r == (match self.def(id) { Some(d) => Some(d.behavior), None => None::<OrbBehavior> }),
    {
        if id.0 < self.defs.len() { Some(self.defs[id.0].behavior) } else { None }
    }
}

/// Whether the buy button of an orb costing `price` is enabled.
pub fn orb_can_buy(money: u32, price: u32, flow: &OrbFlowState) -> (r: bool)
    ensures
        r == (money >= price && *flow is Idle),
{
    money >= price && match flow {
        OrbFlowState::Idle => true,
        _ => false,
    }
}

/// The coins left and the last orb bought after pressing the buy buttons of
/// `pressed`, in order, with `money` coins: each press of an existing orb the
/// coins can pay for is paid and bought.
pub open spec fn buy_presses(reg: &OrbRegistry, money: u32, pressed: Seq<OrbId>) -> (u32, Option<OrbId>)
    decreases pressed.len(),
{
    if pressed.len() == 0 {
        (money, None)
    } else {
        let (m, bought) = buy_presses(reg, money, pressed.drop_last());
        let id = pressed.last();
        match reg.def(id) {
            Some(d) => if m >= d.price { ((m - d.price) as u32, Some(id)) } else { (m, bought) },
            None => (m, bought),
        }
    }
}

/// Buying orbs never adds coins: what is left is at most what there was,
/// and it is all that there was when nothing was bought.
pub proof fn lemma_buy_presses_spend(reg: &OrbRegistry, money: u32, pressed: Seq<OrbId>)
    ensures
        buy_presses(reg, money, pressed).0 <= money,
        buy_presses(reg, money, pressed).1 is None ==> buy_presses(reg, money, pressed).0 == money,
    decreases pressed.len(),
{
    if pressed.len() > 0 {
        lemma_buy_presses_spend(reg, money, pressed.drop_last());
    }
}

/// A press of an existing orb is bought exactly when the coins cover its
/// price (as the enabled buy button shows): the price is paid and the orb
/// waits for a slot; otherwise nothing is bought and the coins stay.
pub proof fn lemma_press_buys_when_affordable(reg: &OrbRegistry, money: u32, id: OrbId)
    requires
        id.0 < reg.defs.len(),
    ensures
        money >= reg.defs@[id.0 as int].price ==> buy_presses(reg, money, seq![id])
            == ((money - reg.defs@[id.0 as int].price) as u32, Some(id)),
        money < reg.defs@[id.0 as int].price ==> buy_presses(reg, money, seq![id]) == (money, None::<OrbId>),
{
    assert(seq![id].drop_last() =~= Seq::<OrbId>::empty());
    assert(buy_presses(reg, money, Seq::<OrbId>::empty()) == (money, None::<OrbId>));
    assert(seq![id].last() == id);
}

/// A press of an orb that does not exist buys nothing.
pub proof fn lemma_press_of_missing_orb(reg: &OrbRegistry, money: u32, id: OrbId)
    requires
        id.0 >= reg.defs.len(),
    ensures
        buy_presses(reg, money, seq![id]) == (money, None::<OrbId>),
{
    assert(seq![id].drop_last() =~= Seq::<OrbId>::empty());
    assert(buy_presses(reg, money, Seq::<OrbId>::empty()) == (money, None::<OrbId>));
    assert(seq![id].last() == id);
}

/// The buy buttons `pressed` this frame, in order. Nothing happens unless no
/// orb is in use; then every press of an orb the coins can pay for is paid,
/// and the flow waits for a slot for the last orb bought.
pub fn buy_orb_system(flow: &mut OrbFlowState, money: &mut PlayerMoney, reg: &OrbRegistry, pressed: &Vec<OrbId>)
    ensures
        !(*old(flow) is Idle) ==> *final(flow) == *old(flow) && final(money).0 == old(money).0,
        *old(flow) is Idle ==> ({
            let (m, bought) = buy_presses(reg, old(money).0, pressed@);
            &&& final(money).0 == m
            &&& *final(flow) == (match bought {
                Some(id) => OrbFlowState::SelectSlot { orb_id: id },
                None => OrbFlowState::Idle,
            })
        }),
{
    match flow {
        OrbFlowState::Idle => {},
        _ => {
            return;
        },
    }
    let mut k: usize = 0;
    while k < pressed.len()
        invariant
            0 <= k <= pressed.len(),
            ({
                let (m, bought) = buy_presses(reg, old(money).0, pressed@.take(k as int));
                &&& money.0 == m
                &&& *flow == (match bought {
                    Some(id) => OrbFlowState::SelectSlot { orb_id: id },
                    None => OrbFlowState::Idle,
                })
            }),
        decreases pressed.len() - k,
    {
        proof {
            assert(pressed@.take(k as int + 1).drop_last() =~= pressed@.take(k as int));
        }
        let id = pressed[k];
        match reg.price(id) {
            Some(price) => {
                if money.0 >= price {
                    money.0 = money.0 - price;
                    *flow = OrbFlowState::SelectSlot { orb_id: id };
                }
            },
            None => {},
        }
        k = k + 1;
    }
    assert(pressed@.take(pressed.len() as int) =~= pressed@);
}

impl OrbFlowState {
    /// The behaviour of the orb waiting for a slot, if the flow waits for one and the orb exists.
    pub fn rolling_behavior(&self, reg: &OrbRegistry) -> (r: Option<OrbBehavior>)
        ensures
            r == (match *self {
                OrbFlowState::SelectSlot { orb_id } => match reg.def(orb_id) {
                    Some(d) => Some(d.behavior),
                    None => None::<OrbBehavior>,
                },
                _ => None::<OrbBehavior>,
            }),
    {
        match self {
            OrbFlowState::SelectSlot { orb_id } => reg.behavior(*orb_id),
            _ => None,
        }
    }

    /// A slot was chosen and the orb rolled on its affixes `original`, giving
    /// `preview`. Only taken while waiting for a slot with an existing orb;
    /// tells whether it was.
    pub fn select_slot(
        &mut self,
        reg: &OrbRegistry,
        slot_entity: u64,
        slot_type: SpellSlot,
        original: Affixes,
        preview: Affixes,
    ) -> (taken: bool)
        ensures
            taken == (match *old(self) {
                OrbFlowState::SelectSlot { orb_id } => reg.def(orb_id) is Some,
                _ => false,
            }),
            taken ==> (*old(self) matches OrbFlowState::SelectSlot { orb_id } && *final(self) == (OrbFlowState::Preview {
                orb_id,
                slot_entity,
                slot_type,
                original,
                preview,
            })),
            !taken ==> *final(self) == *old(self),
    {
        match *self {
            OrbFlowState::SelectSlot { orb_id } => {
                if reg.behavior(orb_id).is_some() {
                    *self = OrbFlowState::Preview { orb_id, slot_entity, slot_type, original, preview };
                    true
                } else {
                    false
                }
            },
            _ => false,
        }
    }

    /// The accept button: during a preview, hands back the slot and the new
    /// affixes to apply, and ends the flow; otherwise nothing happens.
    pub fn accept(&mut self) -> (apply: Option<(u64, Affixes)>)
        ensures
            (match *old(self) {
                OrbFlowState::Preview { slot_entity, preview, .. } => apply == Some((slot_entity, preview))
                    && *final(self) == OrbFlowState::Idle,
                _ => apply is None && *final(self) == *old(self),
            }),
    {
        match *self {
            OrbFlowState::Preview { slot_entity, preview, .. } => {
                *self = OrbFlowState::Idle;
                Some((slot_entity, preview))
            },
            _ => None,
        }
    }

    /// The cancel button: the flow ends; the orb is not refunded.
    pub fn cancel(&mut self)
        ensures
            *final(self) == OrbFlowState::Idle,
    {
        *self = OrbFlowState::Idle;
    }
}

/// How one affix place compares before and after an orb.
#[derive(Clone, Copy, PartialEq, Eq, Structural, Debug)]
pub enum AffixRow {
    /// Empty before and after.
    Empty,
    /// A new affix.
    Added(Affix),
    /// The affix is gone.
    Removed(Affix),
    /// Same affix, same tier.
    Unchanged(Affix),
    /// An augmentation raised the tier of the same affix.
    Upgraded { old: Affix, new: Affix },
    /// One affix replaced by another.
    Replaced { old: Affix, new: Affix },
}

/// How an affix place is shown in the orb preview.
pub open spec fn affix_row_spec(old: Option<Affix>, new: Option<Affix>, behavior: OrbBehavior) -> AffixRow {
    match (old, new) {
        (None, None) => AffixRow::Empty,
        (None, Some(n)) => AffixRow::Added(n),
        (Some(o), None) => AffixRow::Removed(o),
        (Some(o), Some(n)) => if o.affix_id == n.affix_id && o.tier == n.tier {
            AffixRow::Unchanged(o)
        } else if o.affix_id == n.affix_id && behavior == OrbBehavior::Augmentation {
            AffixRow::Upgraded { old: o, new: n }
        } else {
            AffixRow::Replaced { old: o, new: n }
        },
    }
}

/// Only an augmentation shows an upgrade, and only of the same affix at
/// another tier; any other orb that changes an affix place shows the old
/// affix replaced by the new one. A place keeps its affix exactly when both
/// sides are the same affix at the same tier.
pub proof fn lemma_upgrade_only_by_augmentation(old: Option<Affix>, new: Option<Affix>, o: Affix, n: Affix, behavior: OrbBehavior)
    ensures
        (affix_row_spec(old, new, behavior) is Upgraded) ==> behavior == OrbBehavior::Augmentation,
        (affix_row_spec(Some(o), Some(n), behavior) is Upgraded) ==> (o.affix_id == n.affix_id && o.tier != n.tier),
        behavior != OrbBehavior::Augmentation && o != n ==> affix_row_spec(Some(o), Some(n), behavior) == (AffixRow::Replaced {
            old: o,
            new: n,
        }),
        o.affix_id != n.affix_id ==> affix_row_spec(Some(o), Some(n), behavior) == (AffixRow::Replaced { old: o, new: n }),
        (affix_row_spec(old, new, behavior) is Unchanged) <==> (old is Some && old == new),
{
}

/// How an affix place is shown in the orb preview, from its affix before and after.
pub fn affix_row(old: Option<Affix>, new: Option<Affix>, behavior: OrbBehavior) -> (r: AffixRow)
    ensures
        r == affix_row_spec(old, new, behavior),
{
    match (old, new) {
        (None, None) => AffixRow::Empty,
        (None, Some(n)) => AffixRow::Added(n),
        (Some(o), None) => AffixRow::Removed(o),
        (Some(o), Some(n)) => {
            if o.affix_id == n.affix_id && o.tier == n.tier {
                AffixRow::Unchanged(o)
            } else if o.affix_id == n.affix_id && behavior == OrbBehavior::Augmentation {
                AffixRow::Upgraded { old: o, new: n }
            } else {
                AffixRow::Replaced { old: o, new: n }
            }
        },
    }
}

/// The six rows of the orb preview, place by place.
pub fn preview_rows(original: &Affixes, preview: &Affixes, behavior: OrbBehavior) -> (rows: Vec<AffixRow>)
    ensures
        rows.len() == 6,
        forall|i: int| 0 <= i < 6 ==> #[trigger] rows@[i] == affix_row_spec(original.affixes[i], preview.affixes[i], behavior),
{
    let mut rows: Vec<AffixRow> = Vec::new();
    let mut i: usize = 0;
    while i < 6
        invariant
            0 <= i <= 6,
            rows.len() == i,
            forall|j: int| 0 <= j < i ==> #[trigger] rows@[j] == affix_row_spec(original.affixes[j], preview.affixes[j], behavior),
        decreases 6 - i,
    {
        rows.push(affix_row(original.affixes[i], preview.affixes[i], behavior));
        i = i + 1;
    }
    rows
}

/// The text of an affix raised by an augmentation: the old and new displayed
/// values, then the old and new tiers, as `old→new [T<old>→T<new>]`.
pub fn upgrade_text(old_display: &str, new_display: &str, old_tier: usize, new_tier: usize) -> (s: String)
    requires
        old_tier < usize::MAX,
        new_tier < usize::MAX,
    ensures
        s@ == old_display@ + "\u{2192}"@ + new_display@ + " ["@ + tier_text(old_tier as nat) + "\u{2192}"@
            + tier_text(new_tier as nat) + "]"@,
{
    let mut out: Vec<char> = Vec::new();
    push_str(&mut out, old_display);
    push_str(&mut out, "\u{2192}");
    push_str(&mut out, new_display);
    push_str(&mut out, " [");
    let o = tier_tag(old_tier);
    push_str(&mut out, o.as_str());
    push_str(&mut out, "\u{2192}");
    let n = tier_tag(new_tier);
    push_str(&mut out, n.as_str());
    push_str(&mut out, "]");
    string_from_chars(&out)
}

/// Which orb popup to show for the flow.
#[derive(Clone, Copy, PartialEq, Eq, Structural, Debug)]
pub enum OrbPopupKind {
    Hidden,
    SlotChoice,
    /// The preview, with the behaviour of the orb (Alteration if it is unknown).
    Preview(OrbBehavior),
}

/// Which orb popup the flow calls for.
pub fn orb_popup(flow: &OrbFlowState, reg: &OrbRegistry) -> (r: OrbPopupKind)
    ensures
        r == (match *flow {
            OrbFlowState::Idle => OrbPopupKind::Hidden,
            OrbFlowState::SelectSlot { .. } => OrbPopupKind::SlotChoice,
            OrbFlowState::Preview { orb_id, .. } => OrbPopupKind::Preview(match reg.def(orb_id) {
                Some(d) => d.behavior,
                None => OrbBehavior::Alteration,
            }),
        }),
{
    match flow {
        OrbFlowState::Idle => OrbPopupKind::Hidden,
        OrbFlowState::SelectSlot { .. } => OrbPopupKind::SlotChoice,
        OrbFlowState::Preview { orb_id, .. } => OrbPopupKind::Preview(match reg.behavior(*orb_id) {
            Some(b) => b,
            None => OrbBehavior::Alteration,
        }),
    }
}

} // verus!
