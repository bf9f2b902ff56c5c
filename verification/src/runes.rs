use vstd::prelude::*;

use crate::economy::PlayerMoney;

verus! {

/// A cell of the hexagonal rune grid, in axial coordinates.
#[derive(Clone, Copy, PartialEq, Eq, Structural, Debug, Hash)]
pub struct HexCoord {
    pub q: i32,
    pub r: i32,
}

/// What a rune does.
#[derive(Clone, Copy, PartialEq, Eq, Structural, Debug, Hash)]
pub enum RuneKind {
    Spike,
    HeartStone,
    Resonator,
}

/// A rune: its identity, its shop price, its kind, and whether it is a joker
/// (which lives in the joker slots instead of the grid).
#[derive(Clone, Copy, PartialEq, Eq, Structural, Debug)]
pub struct Rune {
    pub id: u32,
    pub cost: u32,
    pub kind: Option<RuneKind>,
    pub joker: bool,
}

/// Where a rune sits: a shop slot, a grid cell, or a joker slot.
#[derive(Clone, Copy, PartialEq, Eq, Structural, Debug, Hash)]
pub enum RuneSource {
    Shop(usize),
    Grid(HexCoord),
    Joker(usize),
}

/// The rune in the cell `c` of the grid list `cells` (the last entry for `c`).
pub open spec fn lookup(cells: Seq<(HexCoord, Rune)>, c: HexCoord) -> Option<Rune>
    decreases cells.len(),
{
    if cells.len() == 0 {
        None
    } else if cells.last().0 == c {
        Some(cells.last().1)
    } else {
        lookup(cells.drop_last(), c)
    }
}

/// No cell appears twice in `cells`.
pub open spec fn distinct_cells(cells: Seq<(HexCoord, Rune)>) -> bool {
    forall|i: int, j: int| 0 <= i < j < cells.len() ==> #[trigger] cells[i].0 != #[trigger] cells[j].0
}

/// The runes placed on the grid, one per cell.
pub struct RuneGrid {
    cells: Vec<(HexCoord, Rune)>,
}

proof fn lemma_take_push<T>(s: Seq<T>, k: int)
    requires
        0 <= k < s.len(),
    ensures
        s.take(k + 1) == s.take(k).push(s[k]),
{
    assert(s.take(k + 1) =~= s.take(k).push(s[k]));
}

proof fn lemma_lookup_at(cells: Seq<(HexCoord, Rune)>, i: int)
    requires
        distinct_cells(cells),
        0 <= i < cells.len(),
    ensures
        lookup(cells, cells[i].0) == Some(cells[i].1),
    decreases cells.len(),
{
    if i < cells.len() - 1 {
        let init = cells.drop_last();
        assert(cells.last().0 != cells[i].0);
        assert(init[i] == cells[i]);
        lemma_lookup_at(init, i);
    }
}

proof fn lemma_lookup_absent(cells: Seq<(HexCoord, Rune)>, c: HexCoord)
    requires
        forall|i: int| 0 <= i < cells.len() ==> #[trigger] cells[i].0 != c,
    ensures
        lookup(cells, c) is None,
    decreases cells.len(),
{
    if cells.len() > 0 {
        let init = cells.drop_last();
        assert forall|i: int| 0 <= i < init.len() implies #[trigger] init[i].0 != c by {
            assert(init[i] == cells[i]);
        }
        lemma_lookup_absent(init, c);
    }
}

/// Where `c` is in `cells`, if anywhere.
pub open spec fn has_cell_at(cells: Seq<(HexCoord, Rune)>, c: HexCoord, i: int) -> bool {
    0 <= i < cells.len() && cells[i].0 == c
}

impl RuneGrid {
    /// The cell list has no repeated cell.
    pub closed spec fn wf(&self) -> bool {
        distinct_cells(self.cells@)
    }

    /// The rune in cell `c`.
    pub closed spec fn at(&self, c: HexCoord) -> Option<Rune> {
        lookup(self.cells@, c)
    }

    /// The filled cells with their runes, in placement order.
    pub closed spec fn entries(&self) -> Seq<(HexCoord, Rune)> {
        self.cells@
    }

    /// Every listed entry is the rune of its cell, and every rune is listed.
    pub proof fn lemma_entries(&self)
        requires
            self.wf(),
        ensures
            forall|i: int| 0 <= i < self.entries().len() ==> self.at(#[trigger] self.entries()[i].0) == Some(self.entries()[i].1),
            forall|i: int, j: int| 0 <= i < j < self.entries().len() ==> #[trigger] self.entries()[i].0 != #[trigger] self.entries()[j].0,
            forall|c: HexCoord| #[trigger] self.at(c) is Some ==> exists|i: int| 0 <= i < self.entries().len() && self.entries()[i].0 == c,
    {
        assert forall|i: int| 0 <= i < self.entries().len() implies self.at(#[trigger] self.entries()[i].0) == Some(self.entries()[i].1) by {
            lemma_lookup_at(self.cells@, i);
        }
        assert forall|c: HexCoord| #[trigger] self.at(c) is Some implies exists|i: int| 0 <= i < self.entries().len() && self.entries()[i].0 == c by {
            if !(exists|i: int| 0 <= i < self.entries().len() && self.entries()[i].0 == c) {
                lemma_lookup_absent(self.cells@, c);
            }
        }
    }

    /// An empty grid.
    pub fn new() -> (g: RuneGrid)
        ensures
            g.wf(),
            forall|c: HexCoord| #[trigger] g.at(c) is None,
            g.entries().len() == 0,
    {
        RuneGrid { cells: Vec::new() }
    }

    /// The filled cells with their runes, in placement order.
    pub fn cells(&self) -> (r: &Vec<(HexCoord, Rune)>)
        ensures
            r@ == self.entries(),
    {
        &self.cells
    }

    fn position(&self, c: HexCoord) -> (r: Option<usize>)
        requires
            self.wf(),
        ensures
            r matches Some(i) ==> has_cell_at(self.cells@, c, i as int),
            r is None ==> forall|i: int| 0 <= i < self.cells.len() ==> #[trigger] self.cells@[i].0 != c,
    {
        let mut i: usize = 0;
        while i < self.cells.len()
            invariant
                0 <= i <= self.cells.len(),
                forall|j: int| 0 <= j < i ==> #[trigger] self.cells@[j].0 != c,
            decreases self.cells.len() - i,
        {
            if self.cells[i].0 == c {
                return Some(i);
            }
            i = i + 1;
        }
        None
    }

    /// The rune in cell `c`, if any.
    pub fn get(&self, c: HexCoord) -> (r: Option<Rune>)
        requires
            self.wf(),
        ensures
            r == self.at(c),
    {
        match self.position(c) {
            Some(i) => {
                proof {
                    lemma_lookup_at(self.cells@, i as int);
                }
                Some(self.cells[i].1)
            },
            None => {
                proof {
                    lemma_lookup_absent(self.cells@, c);
                }
                None
            },
        }
    }

    /// Puts `rune` in cell `c`, replacing what was there.
    pub fn insert(&mut self, c: HexCoord, rune: Rune)
        requires
            old(self).wf(),
        ensures
            final(self).wf(),
            forall|x: HexCoord| #[trigger] final(self).at(x) == (if x == c { Some(rune) } else { old(self).at(x) }),
    {
        let ghost before = self.cells@;
        match self.position(c) {
            Some(i) => {
                self.cells.set(i, (c, rune));
                proof {
                    assert forall|x: HexCoord| #[trigger] self.at(x) == (if x == c { Some(rune) } else { lookup(before, x) }) by {
                        if x == c {
                            lemma_lookup_at(self.cells@, i as int);
                        } else {
                            lemma_lookup_other(before, self.cells@, i as int, x);
                        }
                    }
                }
            },
            None => {
                self.cells.push((c, rune));
                proof {
                    assert(self.cells@.drop_last() =~= before);
                }
            },
        }
    }

    /// Empties cell `c` and gives back the rune that was there.
    pub fn remove(&mut self, c: HexCoord) -> (r: Option<Rune>)
        requires
            old(self).wf(),
        ensures
            final(self).wf(),
            r == old(self).at(c),
            forall|x: HexCoord| #[trigger] final(self).at(x) == (if x == c { None } else { old(self).at(x) }),
    {
        let ghost before = self.cells@;
        match self.position(c) {
            Some(i) => {
                proof {
                    lemma_lookup_at(before, i as int);
                }
                let (_, rune) = self.cells.remove(i);
                proof {
                    assert forall|x: HexCoord| #[trigger] self.at(x) == (if x == c { None } else { lookup(before, x) }) by {
                        lemma_lookup_removed(before, i as int, x);
                    }
                }
                Some(rune)
            },
            None => {
                proof {
                    lemma_lookup_absent(before, c);
                }
                None
            },
        }
    }
}

/// Overwriting the entry at `i` (same cell) leaves the other cells alone.
proof fn lemma_lookup_other(before: Seq<(HexCoord, Rune)>, after: Seq<(HexCoord, Rune)>, i: int, x: HexCoord)
    requires
        distinct_cells(before),
        0 <= i < before.len(),
        after.len() == before.len(),
        after[i].0 == before[i].0,
        forall|j: int| 0 <= j < before.len() && j != i ==> #[trigger] after[j] == before[j],
        x != before[i].0,
    ensures
        lookup(after, x) == lookup(before, x),
    decreases before.len(),
{
    if before.len() > 0 {
        let n = before.len() - 1;
        if n == i {
            assert(after.drop_last() =~= before.drop_last());
        } else {
            assert(after[n] == before[n]);
            if before[n].0 != x {
                lemma_lookup_other(before.drop_last(), after.drop_last(), i, x);
            }
        }
    }
}

/// Removing the entry at `i` empties its cell and leaves the others alone.
proof fn lemma_lookup_removed(before: Seq<(HexCoord, Rune)>, i: int, x: HexCoord)
    requires
        distinct_cells(before),
        0 <= i < before.len(),
    ensures
        distinct_cells(before.remove(i)),
        lookup(before.remove(i), x) == (if x == before[i].0 { None } else { lookup(before, x) }),
    decreases before.len(),
{
    let after = before.remove(i);
    assert forall|a: int, b: int| 0 <= a < b < after.len() implies #[trigger] after[a].0 != #[trigger] after[b].0 by {
        let a2 = if a < i { a } else { a + 1 };
        let b2 = if b < i { b } else { b + 1 };
        assert(after[a] == before[a2]);
        assert(after[b] == before[b2]);
    }
    if x == before[i].0 {
        assert forall|j: int| 0 <= j < after.len() implies #[trigger] after[j].0 != x by {
            let j2 = if j < i { j } else { j + 1 };
            assert(after[j] == before[j2]);
        }
        lemma_lookup_absent(after, x);
    } else {
        let n = before.len() - 1;
        if n == i {
            assert(after =~= before.drop_last());
        } else {
            assert(after.last() == before.last());
            if before.last().0 != x {
                assert(after.drop_last() =~= before.drop_last().remove(i));
                lemma_lookup_removed(before.drop_last(), i, x);
            }
        }
    }
}

/// The runes offered in the shop, one optional rune per slot.
pub struct ShopOffer {
    pub stubs: Vec<Option<Rune>>,
}

/// The joker slots, one optional rune per slot.
pub struct JokerSlots {
    pub stubs: Vec<Option<Rune>>,
}

/// `src` names a slot that exists (grid cells always do).
pub open spec fn in_range(src: RuneSource, shop: &ShopOffer, jokers: &JokerSlots) -> bool {
    match src {
        RuneSource::Shop(i) => i < shop.stubs.len(),
        RuneSource::Grid(_) => true,
        RuneSource::Joker(i) => i < jokers.stubs.len(),
    }
}

/// The rune at `src`, if any.
pub open spec fn slot_of(src: RuneSource, shop: &ShopOffer, grid: &RuneGrid, jokers: &JokerSlots) -> Option<Rune> {
    match src {
        RuneSource::Shop(i) => if i < shop.stubs.len() { shop.stubs@[i as int] } else { None },
        RuneSource::Grid(c) => grid.at(c),
        RuneSource::Joker(i) => if i < jokers.stubs.len() { jokers.stubs@[i as int] } else { None },
    }
}

/// Every rune on the board (shop, grid and jokers), by where it sits.
pub open spec fn board(shop: &ShopOffer, grid: &RuneGrid, jokers: &JokerSlots) -> Map<RuneSource, Rune> {
    Map::new(|s: RuneSource| slot_of(s, shop, grid, jokers) is Some, |s: RuneSource| slot_of(s, shop, grid, jokers)->0)
}

/// The rune at `src`, if any, left in place.
pub fn peek_rune(src: RuneSource, shop: &ShopOffer, grid: &RuneGrid, jokers: &JokerSlots) -> (r: Option<Rune>)
    requires
        grid.wf(),
        in_range(src, shop, jokers),
    ensures
        r == slot_of(src, shop, grid, jokers),
{
    match src {
        RuneSource::Shop(idx) => shop.stubs[idx],
        RuneSource::Grid(c) => grid.get(c),
        RuneSource::Joker(idx) => jokers.stubs[idx],
    }
}

/// Takes the rune at `src` off the board, leaving the slot empty.
pub fn take_rune(src: RuneSource, shop: &mut ShopOffer, grid: &mut RuneGrid, jokers: &mut JokerSlots) -> (r: Option<Rune>)
    requires
        old(grid).wf(),
        in_range(src, &*old(shop), &*old(jokers)),
    ensures
        final(grid).wf(),
        r == slot_of(src, &*old(shop), &*old(grid), &*old(jokers)),
        final(shop).stubs.len() == old(shop).stubs.len(),
        final(jokers).stubs.len() == old(jokers).stubs.len(),
        board(&*final(shop), &*final(grid), &*final(jokers)) == board(&*old(shop), &*old(grid), &*old(jokers)).remove(src),
{
    let r = match src {
        RuneSource::Shop(idx) => {
            let r = shop.stubs[idx];
            shop.stubs.set(idx, None);
            r
        },
        RuneSource::Grid(c) => grid.remove(c),
        RuneSource::Joker(idx) => {
            let r = jokers.stubs[idx];
            jokers.stubs.set(idx, None);
            r
        },
    };
    proof {
        assert(board(&*shop, &*grid, &*jokers) =~= board(&*old(shop), &*old(grid), &*old(jokers)).remove(src));
    }
    r
}

/// Puts `rune` at `src`, replacing what was there.
pub fn place_rune(src: RuneSource, rune: Rune, shop: &mut ShopOffer, grid: &mut RuneGrid, jokers: &mut JokerSlots)
    requires
        old(grid).wf(),
        in_range(src, &*old(shop), &*old(jokers)),
    ensures
        final(grid).wf(),
        final(shop).stubs.len() == old(shop).stubs.len(),
        final(jokers).stubs.len() == old(jokers).stubs.len(),
        board(&*final(shop), &*final(grid), &*final(jokers)) == board(&*old(shop), &*old(grid), &*old(jokers)).insert(src, rune),
{
    match src {
        RuneSource::Shop(idx) => {
            shop.stubs.set(idx, Some(rune));
        },
        RuneSource::Grid(c) => {
            grid.insert(c, rune);
        },
        RuneSource::Joker(idx) => {
            jokers.stubs.set(idx, Some(rune));
        },
    }
    proof {
        assert(board(&*shop, &*grid, &*jokers) =~= board(&*old(shop), &*old(grid), &*old(jokers)).insert(src, rune));
    }
}

/// Taking a rune and putting it back where it was leaves the board as it was.
pub proof fn lemma_take_then_put_back(b: Map<RuneSource, Rune>, src: RuneSource)
    requires
        b.dom().contains(src),
    ensures
        b.remove(src).insert(src, b[src]) == b,
{
    assert(b.remove(src).insert(src, b[src]) =~= b);
}

/// How a press on a rune started (or did not start) a drag.
#[derive(Clone, Copy, PartialEq, Eq, Structural, Debug)]
pub enum DragStart {
    /// A shop rune the player cannot pay for: it shakes and stays.
    TooExpensive,
    /// The slot was empty.
    Empty,
    /// The rune was lifted off the board.
    Lifted(Rune),
}

/// A press on the rune at `src`: a shop rune is lifted only if the player can
/// pay its price; a lifted rune leaves the board.
pub fn start_drag(
    src: RuneSource,
    money: &PlayerMoney,
    shop: &mut ShopOffer,
    grid: &mut RuneGrid,
    jokers: &mut JokerSlots,
) -> (r: DragStart)
    requires
        old(grid).wf(),
        in_range(src, &*old(shop), &*old(jokers)),
    ensures
        final(grid).wf(),
        final(shop).stubs.len() == old(shop).stubs.len(),
        final(jokers).stubs.len() == old(jokers).stubs.len(),
        ({
            let before = board(&*old(shop), &*old(grid), &*old(jokers));
            let after = board(&*final(shop), &*final(grid), &*final(jokers));
            let price = match slot_of(src, &*old(shop), &*old(grid), &*old(jokers)) {
                Some(x) => x.cost,
                None => 0,
            };
            if src is Shop && money.0 < price {
                r == DragStart::TooExpensive && after == before
            } else {
                match slot_of(src, &*old(shop), &*old(grid), &*old(jokers)) {
                    Some(x) => r == DragStart::Lifted(x) && after == before.remove(src),
                    None => r == DragStart::Empty && after == before,
                }
            }
        }),
{
    if let RuneSource::Shop(_) = src {
        let cost = match peek_rune(src, shop, grid, jokers) {
            Some(r) => r.cost,
            None => 0,
        };
        if !money.can_afford(cost) {
            return DragStart::TooExpensive;
        }
    }
    let ghost before = board(&*shop, &*grid, &*jokers);
    match take_rune(src, shop, grid, jokers) {
        Some(rune) => DragStart::Lifted(rune),
        None => {
            proof {
                assert(before.remove(src) =~= before);
            }
            DragStart::Empty
        },
    }
}

/// How many slots of `m` hold the rune `x`.
pub open spec fn tally(m: Map<RuneSource, Rune>, x: Rune) -> nat {
    m.dom().filter(holds(m, x)).len()
}

/// The slots of `m` that hold `x`.
pub open spec fn holds(m: Map<RuneSource, Rune>, x: Rune) -> spec_fn(RuneSource) -> bool {
    |s: RuneSource| m[s] == x
}

/// The count of `x` after writing `v` at `k` in a board with finitely many runes.
proof fn lemma_tally_insert(m: Map<RuneSource, Rune>, k: RuneSource, v: Rune, x: Rune)
    requires
        m.dom().finite(),
    ensures
        m.insert(k, v).dom().finite(),
        tally(m.insert(k, v), x) == tally(m, x) - (if m.dom().contains(k) && m[k] == x { 1int } else { 0 })
            + (if v == x { 1int } else { 0 }),
{
    let f = m.dom().filter(holds(m, x));
    let m2 = m.insert(k, v);
    let f2 = m2.dom().filter(holds(m2, x));
    m.dom().lemma_len_filter(holds(m, x));
    assert(f.finite());
    let g = f.remove(k);
    vstd::set::axiom_set_remove_finite(f, k);
    vstd::set::axiom_set_remove_len(f, k);
    assert(f.contains(k) <==> (m.dom().contains(k) && m[k] == x));
    if v == x {
        assert(f2 =~= g.insert(k));
        vstd::set::axiom_set_insert_len(g, k);
    } else {
        assert(f2 =~= g);
    }
}

/// Every board with its rune slots holds finitely many runes.
pub proof fn lemma_board_finite(shop: &ShopOffer, grid: &RuneGrid, jokers: &JokerSlots)
    requires
        grid.wf(),
    ensures
        board(shop, grid, jokers).dom().finite(),
{
    lemma_board_list(shop, grid, jokers);
    let l = board_list(shop, grid, jokers);
    let b = board(shop, grid, jokers);
    let srcs = l.map_values(|e: (RuneSource, Rune)| e.0).to_set();
    l.map_values(|e: (RuneSource, Rune)| e.0).lemma_cardinality_of_set();
    assert forall|s: RuneSource| b.dom().contains(s) implies srcs.contains(s) by {
        let x = choose|x: int| 0 <= x < l.len() && l[x].0 == s;
        assert(l.map_values(|e: (RuneSource, Rune)| e.0)[x] == s);
    }
    assert(b.dom().subset_of(srcs));
    vstd::set_lib::lemma_set_subset_finite(srcs, b.dom());
}

/// A rune dropped back into its empty origin, or onto a target (the rune it
/// displaces going to the empty origin), adds exactly that rune to the
/// board: every other rune is still there as often as before.
pub proof fn lemma_drop_keeps_runes(before: Map<RuneSource, Rune>, from: RuneSource, t: RuneSource, rune: Rune, x: Rune)
    requires
        before.dom().finite(),
        !before.dom().contains(from),
        t != from,
    ensures
        tally(before.insert(from, rune), x) == tally(before, x) + (if rune == x { 1int } else { 0 }),
        !before.dom().contains(t) ==> tally(before.insert(t, rune), x) == tally(before, x) + (if rune == x { 1int } else { 0 }),
        before.dom().contains(t) ==> tally(before.insert(t, rune).insert(from, before[t]), x)
            == tally(before, x) + (if rune == x { 1int } else { 0 }),
{
    lemma_tally_insert(before, from, rune, x);
    lemma_tally_insert(before, t, rune, x);
    if before.dom().contains(t) {
        let m1 = before.insert(t, rune);
        lemma_tally_insert(m1, from, before[t], x);
        assert(!m1.dom().contains(from));
    }
}

/// How a dropped rune ended up.
#[derive(Clone, Copy, PartialEq, Eq, Structural, Debug)]
pub enum DropOutcome {
    /// The rune went to `target`; if `swapped`, the rune that was there went to the dragged rune's origin.
    Placed { target: RuneSource, swapped: bool },
    /// The rune went back where it came from.
    Returned,
}

/// Whether a rune dragged from `from` may be dropped on `target`: the target
/// must differ from the origin; a rune bought from the shop may only go to an
/// empty slot; a rune that is there may only be swapped back to the origin
/// if `displaced_fits` (the board's placement rule for it) allows.
pub open spec fn drop_allowed(
    from: RuneSource,
    target: Option<RuneSource>,
    displaced_fits: bool,
    shop: &ShopOffer,
    grid: &RuneGrid,
    jokers: &JokerSlots,
) -> bool {
    match target {
        Some(t) => t != from && match slot_of(t, shop, grid, jokers) {
            Some(_) => !(from is Shop) && displaced_fits,
            None => true,
        },
        None => false,
    }
}

/// A released drag of `rune`, lifted from `from`, over `target` (if the
/// cursor is over a slot that takes it). If the drop is allowed, a rune from
/// the shop is paid for, the rune goes to the target, and the rune it
/// displaces goes to the origin; otherwise the rune goes back to its origin.
pub fn finish_drop(
    from: RuneSource,
    rune: Rune,
    target: Option<RuneSource>,
    displaced_fits: bool,
    money: &mut PlayerMoney,
    shop: &mut ShopOffer,
    grid: &mut RuneGrid,
    jokers: &mut JokerSlots,
) -> (out: DropOutcome)
    requires
        old(grid).wf(),
        in_range(from, &*old(shop), &*old(jokers)),
        target matches Some(t) ==> in_range(t, &*old(shop), &*old(jokers)),
    ensures
        final(grid).wf(),
        final(shop).stubs.len() == old(shop).stubs.len(),
        final(jokers).stubs.len() == old(jokers).stubs.len(),
        ({
            let before = board(&*old(shop), &*old(grid), &*old(jokers));
            let after = board(&*final(shop), &*final(grid), &*final(jokers));
            if drop_allowed(from, target, displaced_fits, &*old(shop), &*old(grid), &*old(jokers)) {
                let t = target->0;
                let displaced = slot_of(t, &*old(shop), &*old(grid), &*old(jokers));
                &&& out == DropOutcome::Placed { target: t, swapped: displaced is Some }
                &&& after == (match displaced {
                    Some(d) => before.insert(t, rune).insert(from, d),
                    None => before.insert(t, rune),
                })
                &&& final(money).0 == (if from is Shop && old(money).0 >= rune.cost {
                    old(money).0 - rune.cost
                } else {
                    old(money).0 as int
                })
            } else {
                &&& out == DropOutcome::Returned
                &&& after == before.insert(from, rune)
                &&& final(money).0 == old(money).0
            }
        }),
        slot_of(from, &*old(shop), &*old(grid), &*old(jokers)) is None ==> forall|x: Rune|
            #[trigger] tally(board(&*final(shop), &*final(grid), &*final(jokers)), x)
                == tally(board(&*old(shop), &*old(grid), &*old(jokers)), x) + (if rune == x { 1int } else { 0 }),
{
    let ghost start = board(&*shop, &*grid, &*jokers);
    proof {
        lemma_board_finite(&*shop, &*grid, &*jokers);
    }
    let from_shop = match from {
        RuneSource::Shop(_) => true,
        _ => false,
    };
    let allowed = match target {
        Some(t) => {
            if t == from {
                false
            } else {
                match peek_rune(t, shop, grid, jokers) {
                    Some(_) => !from_shop && displaced_fits,
                    None => true,
                }
            }
        },
        None => false,
    };
    if allowed {
        let t = target.unwrap();
        if from_shop {
            let _ = money.spend(rune.cost);
        }
        let ghost before = board(&*shop, &*grid, &*jokers);
        let displaced = take_rune(t, shop, grid, jokers);
        place_rune(t, rune, shop, grid, jokers);
        match displaced {
            Some(d) => {
                place_rune(from, d, shop, grid, jokers);
                proof {
                    assert(before.remove(t).insert(t, rune).insert(from, d) =~= before.insert(t, rune).insert(from, d));
                    if !start.dom().contains(from) {
                        assert forall|x: Rune| #[trigger] tally(board(&*shop, &*grid, &*jokers), x)
                            == tally(start, x) + (if rune == x { 1int } else { 0 }) by {
                            lemma_drop_keeps_runes(start, from, t, rune, x);
                        }
                    }
                }
                DropOutcome::Placed { target: t, swapped: true }
            },
            None => {
                proof {
                    assert(before.remove(t).insert(t, rune) =~= before.insert(t, rune));
                    if !start.dom().contains(from) {
                        assert forall|x: Rune| #[trigger] tally(board(&*shop, &*grid, &*jokers), x)
                            == tally(start, x) + (if rune == x { 1int } else { 0 }) by {
                            lemma_drop_keeps_runes(start, from, t, rune, x);
                        }
                    }
                }
                DropOutcome::Placed { target: t, swapped: false }
            },
        }
    } else {
        place_rune(from, rune, shop, grid, jokers);
        proof {
            if !start.dom().contains(from) {
                assert forall|x: Rune| #[trigger] tally(board(&*shop, &*grid, &*jokers), x)
                    == tally(start, x) + (if rune == x { 1int } else { 0 }) by {
                    lemma_tally_insert(start, from, rune, x);
                }
            }
        }
        DropOutcome::Returned
    }
}

/// The rune at `src`, if any; slots that do not exist hold nothing.
pub fn rune_at(src: RuneSource, shop: &ShopOffer, grid: &RuneGrid, jokers: &JokerSlots) -> (r: Option<Rune>)
    requires
        grid.wf(),
    ensures
        r == slot_of(src, shop, grid, jokers),
{
    match src {
        RuneSource::Shop(idx) => if idx < shop.stubs.len() { shop.stubs[idx] } else { None },
        RuneSource::Grid(c) => grid.get(c),
        RuneSource::Joker(idx) => if idx < jokers.stubs.len() { jokers.stubs[idx] } else { None },
    }
}

/// A drawn rune: its entity, the slot it is drawn at, and the id of the rune it shows.
pub type RuneViewEntry = (u64, RuneSource, u32);

/// View `k` is the last one drawn at its slot.
pub open spec fn latest(views: Seq<RuneViewEntry>, k: int) -> bool {
    forall|j: int| k < j < views.len() ==> #[trigger] views[j].1 != views[k].1
}

/// View `k` stays: it is the last one at its slot and that slot holds the rune it shows.
pub open spec fn keeps(views: Seq<RuneViewEntry>, b: Map<RuneSource, Rune>, k: int) -> bool {
    &&& latest(views, k)
    &&& b.dom().contains(views[k].1)
    &&& b[views[k].1].id == views[k].2
}

/// Some view that stays is drawn at `s`.
#[verifier::opaque]
pub open spec fn has_keeper(views: Seq<RuneViewEntry>, b: Map<RuneSource, Rune>, s: RuneSource) -> bool {
    exists|k: int| 0 <= k < views.len() && #[trigger] keeps(views, b, k) && views[k].1 == s
}

/// The entities of the first `n` views that do not stay, in order.
pub open spec fn despawned(views: Seq<RuneViewEntry>, b: Map<RuneSource, Rune>, n: int) -> Seq<u64>
    decreases n,
{
    if n <= 0 {
        Seq::empty()
    } else if keeps(views, b, n - 1) {
        despawned(views, b, n - 1)
    } else {
        despawned(views, b, n - 1).push(views[n - 1].0)
    }
}

/// The runes of the shop slots `stubs`, with their slots, in slot order.
pub open spec fn shop_entries(stubs: Seq<Option<Rune>>) -> Seq<(RuneSource, Rune)>
    decreases stubs.len(),
{
    if stubs.len() == 0 {
        Seq::empty()
    } else {
        let rest = shop_entries(stubs.drop_last());
        match stubs.last() {
            Some(r) => rest.push((RuneSource::Shop((stubs.len() - 1) as usize), r)),
            None => rest,
        }
    }
}

/// The runes of the joker slots `stubs`, with their slots, in slot order.
pub open spec fn joker_entries(stubs: Seq<Option<Rune>>) -> Seq<(RuneSource, Rune)>
    decreases stubs.len(),
{
    if stubs.len() == 0 {
        Seq::empty()
    } else {
        let rest = joker_entries(stubs.drop_last());
        match stubs.last() {
            Some(r) => rest.push((RuneSource::Joker((stubs.len() - 1) as usize), r)),
            None => rest,
        }
    }
}

/// The runes of the grid cells `cells`, with their slots, in the same order.
pub open spec fn grid_entries(cells: Seq<(HexCoord, Rune)>) -> Seq<(RuneSource, Rune)>
    decreases cells.len(),
{
    if cells.len() == 0 {
        Seq::empty()
    } else {
        grid_entries(cells.drop_last()).push((RuneSource::Grid(cells.last().0), cells.last().1))
    }
}

/// Every rune on the board with its slot: shop slots, grid cells, joker slots.
pub open spec fn board_list(shop: &ShopOffer, grid: &RuneGrid, jokers: &JokerSlots) -> Seq<(RuneSource, Rune)> {
    shop_entries(shop.stubs@) + grid_entries(grid.entries()) + joker_entries(jokers.stubs@)
}

/// The entries of `list` whose slot has no staying view, in order.
pub open spec fn unkept(views: Seq<RuneViewEntry>, b: Map<RuneSource, Rune>, list: Seq<(RuneSource, Rune)>) -> Seq<(RuneSource, Rune)>
    decreases list.len(),
{
    if list.len() == 0 {
        Seq::empty()
    } else {
        let rest = unkept(views, b, list.drop_last());
        if has_keeper(views, b, list.last().0) { rest } else { rest.push(list.last()) }
    }
}

proof fn lemma_unkept_concat(views: Seq<RuneViewEntry>, b: Map<RuneSource, Rune>, l1: Seq<(RuneSource, Rune)>, l2: Seq<(RuneSource, Rune)>)
    ensures
        unkept(views, b, l1 + l2) == unkept(views, b, l1) + unkept(views, b, l2),
    decreases l2.len(),
{
    if l2.len() == 0 {
        assert(l1 + l2 =~= l1);
        assert(unkept(views, b, l1) + unkept(views, b, l2) =~= unkept(views, b, l1));
    } else {
        lemma_unkept_concat(views, b, l1, l2.drop_last());
        assert((l1 + l2).drop_last() =~= l1 + l2.drop_last());
        assert((l1 + l2).last() == l2.last());
        let u1 = unkept(views, b, l1);
        let u2 = unkept(views, b, l2.drop_last());
        assert((u1 + u2).push(l2.last()) =~= u1 + u2.push(l2.last()));
    }
}

proof fn lemma_unkept_push(views: Seq<RuneViewEntry>, b: Map<RuneSource, Rune>, l: Seq<(RuneSource, Rune)>, e: (RuneSource, Rune))
    ensures
        unkept(views, b, l.push(e)) == (if has_keeper(views, b, e.0) { unkept(views, b, l) } else { unkept(views, b, l).push(e) }),
{
    assert(l.push(e).drop_last() =~= l);
}

/// What to do to bring the drawn runes in line with the board.
pub struct ReconcilePlan {
    /// Entities to remove.
    pub despawn: Vec<u64>,
    /// Runes to draw, with their slots.
    pub spawn: Vec<(RuneSource, Rune)>,
}

/// Which views stay, and the entities of those that do not, in view order.
fn stay_flags(views: &Vec<RuneViewEntry>, shop: &ShopOffer, grid: &RuneGrid, jokers: &JokerSlots) -> (r: (Vec<bool>, Vec<u64>))
    requires
        grid.wf(),
    ensures
        r.0.len() == views.len(),
        forall|m: int| 0 <= m < views.len() ==> #[trigger] r.0@[m] == keeps(views@, board(shop, grid, jokers), m),
        r.1@ == despawned(views@, board(shop, grid, jokers), views.len() as int),
{
    let ghost b = board(shop, grid, jokers);
    let n = views.len();
    let mut keep: Vec<bool> = Vec::new();
    let mut despawn: Vec<u64> = Vec::new();
    let mut k: usize = 0;
    while k < n
        invariant
            0 <= k <= n,
            n == views.len(),
            grid.wf(),
            b == board(shop, grid, jokers),
            keep.len() == k,
            forall|m: int| 0 <= m < k ==> #[trigger] keep@[m] == keeps(views@, b, m),
            despawn@ == despawned(views@, b, k as int),
        decreases n - k,
    {
        let (entity, src, id) = views[k];
        let mut is_latest = true;
        let mut j: usize = k + 1;
        while j < n
            invariant
                k < n,
                k + 1 <= j <= n,
                n == views.len(),
                src == views@[k as int].1,
                is_latest == (forall|m: int| k < m < j ==> #[trigger] views@[m].1 != views@[k as int].1),
            decreases n - j,
        {
            if views[j].1 == src {
                is_latest = false;
            }
            j = j + 1;
        }
        let stays = is_latest && match rune_at(src, shop, grid, jokers) {
            Some(r) => r.id == id,
            None => false,
        };
        keep.push(stays);
        if !stays {
            despawn.push(entity);
        }
        k = k + 1;
    }
    (keep, despawn)
}

/// Appends `(s, r)` to `spawn` unless a staying view is drawn at `s`.
fn spawn_if_missing(
    spawn: &mut Vec<(RuneSource, Rune)>,
    s: RuneSource,
    r: Rune,
    views: &Vec<RuneViewEntry>,
    keep: &Vec<bool>,
    Ghost(b): Ghost<Map<RuneSource, Rune>>,
)
    requires
        keep.len() == views.len(),
        forall|m: int| 0 <= m < views.len() ==> #[trigger] keep@[m] == keeps(views@, b, m),
    ensures
        final(spawn)@ == (if has_keeper(views@, b, s) { old(spawn)@ } else { old(spawn)@.push((s, r)) }),
{
    if !kept_at(views, keep, s, Ghost(b)) {
        spawn.push((s, r));
    }
}

/// Compares the drawn runes `views` with the board: a view stays if it is the
/// last one at its slot and shows the rune there; every other view is
/// removed; every rune on the board without a staying view is drawn (shop
/// slots first, then grid cells, then joker slots).
pub fn reconcile_rune_entities(
    views: &Vec<RuneViewEntry>,
    shop: &ShopOffer,
    grid: &RuneGrid,
    jokers: &JokerSlots,
) -> (plan: ReconcilePlan)
    requires
        grid.wf(),
    ensures
        plan.despawn@ == despawned(views@, board(shop, grid, jokers), views.len() as int),
        plan.spawn@ == unkept(views@, board(shop, grid, jokers), board_list(shop, grid, jokers)),
{
    let ghost b = board(shop, grid, jokers);
    let (keep, despawn) = stay_flags(views, shop, grid, jokers);
    let mut spawn: Vec<(RuneSource, Rune)> = Vec::new();
    let mut i: usize = 0;
    while i < shop.stubs.len()
        invariant
            0 <= i <= shop.stubs.len(),
            keep.len() == views.len(),
            forall|m: int| 0 <= m < views.len() ==> #[trigger] keep@[m] == keeps(views@, b, m),
            spawn@ == unkept(views@, b, shop_entries(shop.stubs@.take(i as int))),
        decreases shop.stubs.len() - i,
    {
        proof {
            lemma_take_push(shop.stubs@, i as int);
            assert(shop.stubs@.take(i as int + 1).drop_last() =~= shop.stubs@.take(i as int));
        }
        if let Some(r) = shop.stubs[i] {
            proof {
                lemma_unkept_push(views@, b, shop_entries(shop.stubs@.take(i as int)), (RuneSource::Shop(i), r));
            }
            spawn_if_missing(&mut spawn, RuneSource::Shop(i), r, views, &keep, Ghost(b));
        }
        i = i + 1;
    }
    assert(shop.stubs@.take(shop.stubs.len() as int) =~= shop.stubs@);
    let ghost spawned_shop = spawn@;
    let cells = grid.cells();
    let mut c: usize = 0;
    while c < cells.len()
        invariant
            0 <= c <= cells.len(),
            cells@ == grid.entries(),
            keep.len() == views.len(),
            forall|m: int| 0 <= m < views.len() ==> #[trigger] keep@[m] == keeps(views@, b, m),
            spawned_shop == unkept(views@, b, shop_entries(shop.stubs@)),
            spawn@ == spawned_shop + unkept(views@, b, grid_entries(cells@.take(c as int))),
        decreases cells.len() - c,
    {
        let (g, r) = cells[c];
        proof {
            lemma_take_push(cells@, c as int);
            assert(cells@.take(c as int + 1).drop_last() =~= cells@.take(c as int));
            lemma_unkept_push(views@, b, grid_entries(cells@.take(c as int)), (RuneSource::Grid(g), r));
        }
        let ghost before = spawn@;
        spawn_if_missing(&mut spawn, RuneSource::Grid(g), r, views, &keep, Ghost(b));
        proof {
            let u = unkept(views@, b, grid_entries(cells@.take(c as int)));
            assert((spawned_shop + u).push((RuneSource::Grid(g), r)) =~= spawned_shop + u.push((RuneSource::Grid(g), r)));
        }
        c = c + 1;
    }
    assert(cells@.take(cells.len() as int) =~= cells@);
    let ghost spawned_grid = spawn@;
    let mut ji: usize = 0;
    while ji < jokers.stubs.len()
        invariant
            0 <= ji <= jokers.stubs.len(),
            keep.len() == views.len(),
            forall|m: int| 0 <= m < views.len() ==> #[trigger] keep@[m] == keeps(views@, b, m),
            spawn@ == spawned_grid + unkept(views@, b, joker_entries(jokers.stubs@.take(ji as int))),
        decreases jokers.stubs.len() - ji,
    {
        proof {
            lemma_take_push(jokers.stubs@, ji as int);
            assert(jokers.stubs@.take(ji as int + 1).drop_last() =~= jokers.stubs@.take(ji as int));
        }
        if let Some(r) = jokers.stubs[ji] {
            proof {
                lemma_unkept_push(views@, b, joker_entries(jokers.stubs@.take(ji as int)), (RuneSource::Joker(ji), r));
                let u = unkept(views@, b, joker_entries(jokers.stubs@.take(ji as int)));
                assert((spawned_grid + u).push((RuneSource::Joker(ji), r)) =~= spawned_grid + u.push((RuneSource::Joker(ji), r)));
            }
            spawn_if_missing(&mut spawn, RuneSource::Joker(ji), r, views, &keep, Ghost(b));
        }
        ji = ji + 1;
    }
    assert(jokers.stubs@.take(jokers.stubs.len() as int) =~= jokers.stubs@);
    proof {
        lemma_unkept_concat(views@, b, shop_entries(shop.stubs@), grid_entries(grid.entries()));
        lemma_unkept_concat(views@, b, shop_entries(shop.stubs@) + grid_entries(grid.entries()), joker_entries(jokers.stubs@));
    }
    ReconcilePlan { despawn, spawn }
}

/// Whether a view that stays is drawn at `s`, given which views stay.
fn kept_at(views: &Vec<RuneViewEntry>, keep: &Vec<bool>, s: RuneSource, Ghost(b): Ghost<Map<RuneSource, Rune>>) -> (r: bool)
    requires
        keep.len() == views.len(),
        forall|m: int| 0 <= m < views.len() ==> #[trigger] keep@[m] == keeps(views@, b, m),
    ensures
        r == has_keeper(views@, b, s),
{
    proof {
        reveal(has_keeper);
    }
    let mut k: usize = 0;
    while k < views.len()
        invariant
            0 <= k <= views.len(),
            keep.len() == views.len(),
            forall|m: int| 0 <= m < views.len() ==> #[trigger] keep@[m] == keeps(views@, b, m),
            forall|m: int| 0 <= m < k ==> !(#[trigger] keeps(views@, b, m) && views@[m].1 == s),
        decreases views.len() - k,
    {
        if keep[k] && views[k].1 == s {
            proof {
                reveal(has_keeper);
                assert(keeps(views@, b, k as int) && views@[k as int].1 == s);
            }
            return true;
        }
        k = k + 1;
    }
    false
}

/// After a reconcile, the views that stay are one per slot and each shows
/// the rune of its slot; with the drawn runes, every rune on the board has
/// exactly one view.
pub proof fn lemma_reconcile_one_view_per_rune(views: Seq<RuneViewEntry>, b: Map<RuneSource, Rune>)
    ensures
        forall|k1: int, k2: int| 0 <= k1 < k2 < views.len() && #[trigger] keeps(views, b, k1) && #[trigger] keeps(views, b, k2)
            ==> views[k1].1 != views[k2].1,
        forall|k: int| 0 <= k < views.len() && #[trigger] keeps(views, b, k) ==> b.dom().contains(views[k].1)
            && b[views[k].1].id == views[k].2,
{
    assert forall|k1: int, k2: int| 0 <= k1 < k2 < views.len() && #[trigger] keeps(views, b, k1) && #[trigger] keeps(views, b, k2)
        implies views[k1].1 != views[k2].1 by {
        assert(views[k2].1 != views[k1].1);
    }
}

/// The sources of `l` are pairwise different.
pub open spec fn distinct_sources(l: Seq<(RuneSource, Rune)>) -> bool {
    forall|x: int, y: int| 0 <= x < y < l.len() ==> #[trigger] l[x].0 != #[trigger] l[y].0
}

/// `e` is the rune of shop or joker slot `e.0` among `stubs` (by `is_joker`).
pub open spec fn slot_entry(stubs: Seq<Option<Rune>>, e: (RuneSource, Rune), is_joker: bool) -> bool {
    match e.0 {
        RuneSource::Shop(i) => !is_joker && i < stubs.len() && stubs[i as int] == Some(e.1),
        RuneSource::Joker(i) => is_joker && i < stubs.len() && stubs[i as int] == Some(e.1),
        RuneSource::Grid(_) => false,
    }
}

/// The slot index of a shop or joker source.
pub open spec fn slot_index(s: RuneSource) -> int {
    match s {
        RuneSource::Shop(i) => i as int,
        RuneSource::Joker(i) => i as int,
        RuneSource::Grid(_) => -1,
    }
}

/// The list of slot runes made by `shop_entries` or `joker_entries`.
pub open spec fn slot_entries(stubs: Seq<Option<Rune>>, is_joker: bool) -> Seq<(RuneSource, Rune)> {
    if is_joker { joker_entries(stubs) } else { shop_entries(stubs) }
}

/// The slot that entry `n` of a slot list gets.
pub open spec fn slot_source(n: int, is_joker: bool) -> RuneSource {
    if is_joker { RuneSource::Joker(n as usize) } else { RuneSource::Shop(n as usize) }
}

proof fn lemma_slot_entries_push(stubs: Seq<Option<Rune>>, is_joker: bool)
    requires
        stubs.len() > 0,
        stubs.len() <= usize::MAX,
    ensures
        stubs.last() is Some ==> slot_entries(stubs, is_joker) == slot_entries(stubs.drop_last(), is_joker).push(
            (slot_source(stubs.len() - 1, is_joker), stubs.last()->0),
        ),
        stubs.last() is None ==> slot_entries(stubs, is_joker) == slot_entries(stubs.drop_last(), is_joker),
        stubs.last() == stubs[stubs.len() - 1],
        slot_entry(stubs, (slot_source(stubs.len() - 1, is_joker), stubs.last()->0), is_joker) == (stubs.last() is Some),
        slot_index(slot_source(stubs.len() - 1, is_joker)) == stubs.len() - 1,
{
}

#[verifier::rlimit(30)]
proof fn lemma_slot_entries_sound(stubs: Seq<Option<Rune>>, is_joker: bool)
    requires
        stubs.len() <= usize::MAX,
    ensures
        forall|x: int| 0 <= x < slot_entries(stubs, is_joker).len() ==> slot_entry(stubs, #[trigger] slot_entries(stubs, is_joker)[x], is_joker),
        forall|x: int| 0 <= x < slot_entries(stubs, is_joker).len() ==> slot_index((#[trigger] slot_entries(stubs, is_joker)[x]).0) < stubs.len(),
        forall|x: int, y: int| 0 <= x < y < slot_entries(stubs, is_joker).len() ==> slot_index((#[trigger] slot_entries(stubs, is_joker)[x]).0)
            < slot_index((#[trigger] slot_entries(stubs, is_joker)[y]).0),
    decreases stubs.len(),
{
    if stubs.len() > 0 {
        let init = stubs.drop_last();
        lemma_slot_entries_sound(init, is_joker);
        lemma_slot_entries_push(stubs, is_joker);
        let rest = slot_entries(init, is_joker);
        let full = slot_entries(stubs, is_joker);
        let n = stubs.len() - 1;
        assert forall|x: int| 0 <= x < full.len() implies slot_entry(stubs, #[trigger] full[x], is_joker)
            && slot_index(full[x].0) < stubs.len() by {
            if x < rest.len() {
                assert(full[x] == rest[x]);
                assert(slot_entry(init, rest[x], is_joker));
                assert(init[slot_index(rest[x].0)] == stubs[slot_index(rest[x].0)]);
            } else {
                assert(full[x] == (slot_source(n, is_joker), stubs.last()->0));
            }
        }
        assert forall|x: int, y: int| 0 <= x < y < full.len() implies slot_index((#[trigger] full[x]).0)
            < slot_index((#[trigger] full[y]).0) by {
            assert(full[x] == rest[x]);
            if y < rest.len() {
                assert(full[y] == rest[y]);
            } else {
                assert(full[y] == (slot_source(n, is_joker), stubs.last()->0));
            }
        }
    }
}

#[verifier::rlimit(30)]
proof fn lemma_slot_entries_complete(stubs: Seq<Option<Rune>>, is_joker: bool, i: int)
    requires
        stubs.len() <= usize::MAX,
        0 <= i < stubs.len(),
        stubs[i] is Some,
    ensures
        exists|x: int| 0 <= x < slot_entries(stubs, is_joker).len() && slot_index(slot_entries(stubs, is_joker)[x].0) == i
            && (slot_entries(stubs, is_joker)[x].0 is Joker) == is_joker && slot_entries(stubs, is_joker)[x].0 !is Grid,
    decreases stubs.len(),
{
    let init = stubs.drop_last();
    lemma_slot_entries_push(stubs, is_joker);
    let rest = slot_entries(init, is_joker);
    let full = slot_entries(stubs, is_joker);
    if i < stubs.len() - 1 {
        assert(init[i] == stubs[i]);
        lemma_slot_entries_complete(init, is_joker, i);
        let x = choose|x: int| 0 <= x < rest.len() && slot_index(rest[x].0) == i && (rest[x].0 is Joker) == is_joker && rest[x].0 !is Grid;
        assert(full[x] == rest[x]);
    } else {
        assert(full[rest.len() as int] == (slot_source(i, is_joker), stubs.last()->0));
    }
}

proof fn lemma_grid_entries(cells: Seq<(HexCoord, Rune)>)
    ensures
        grid_entries(cells).len() == cells.len(),
        forall|x: int| 0 <= x < cells.len() ==> #[trigger] grid_entries(cells)[x] == (RuneSource::Grid(cells[x].0), cells[x].1),
    decreases cells.len(),
{
    if cells.len() > 0 {
        let init = cells.drop_last();
        lemma_grid_entries(init);
        assert forall|x: int| 0 <= x < cells.len() implies #[trigger] grid_entries(cells)[x] == (RuneSource::Grid(cells[x].0), cells[x].1) by {
            if x < init.len() {
                assert(init[x] == cells[x]);
            }
        }
    }
}

/// The board list holds every rune of the board once, with its slot.
pub proof fn lemma_board_list(shop: &ShopOffer, grid: &RuneGrid, jokers: &JokerSlots)
    requires
        grid.wf(),
    ensures
        ({
            let l = board_list(shop, grid, jokers);
            let b = board(shop, grid, jokers);
            &&& forall|x: int| 0 <= x < l.len() ==> b.dom().contains((#[trigger] l[x]).0) && b[l[x].0] == l[x].1
            &&& forall|s: RuneSource| #[trigger] b.dom().contains(s) ==> exists|x: int| 0 <= x < l.len() && l[x].0 == s
            &&& distinct_sources(l)
        }),
{
    let se = shop_entries(shop.stubs@);
    let ge = grid_entries(grid.entries());
    let je = joker_entries(jokers.stubs@);
    let l = board_list(shop, grid, jokers);
    let b = board(shop, grid, jokers);
    assert(shop.stubs@.len() == shop.stubs.len() && shop.stubs.len() <= usize::MAX);
    assert(jokers.stubs@.len() == jokers.stubs.len() && jokers.stubs.len() <= usize::MAX);
    lemma_slot_entries_sound(shop.stubs@, false);
    lemma_slot_entries_sound(jokers.stubs@, true);
    lemma_grid_entries(grid.entries());
    grid.lemma_entries();
    assert(l =~= se + ge + je);
    assert forall|x: int| 0 <= x < l.len() implies b.dom().contains((#[trigger] l[x]).0) && b[l[x].0] == l[x].1 by {
        if x < se.len() {
            assert(l[x] == se[x]);
            assert(slot_entries(shop.stubs@, false)[x] == se[x]);
            assert(slot_entry(shop.stubs@, se[x], false));
            assert(slot_of(se[x].0, shop, grid, jokers) == Some(se[x].1));
        } else if x < se.len() + ge.len() {
            assert(l[x] == ge[x - se.len()]);
        } else {
            assert(l[x] == je[x - se.len() - ge.len()]);
            assert(slot_entries(jokers.stubs@, true)[x - se.len() - ge.len()] == je[x - se.len() - ge.len()]);
            assert(slot_entry(jokers.stubs@, je[x - se.len() - ge.len()], true));
            assert(slot_of(l[x].0, shop, grid, jokers) == Some(l[x].1));
        }
    }
    assert forall|s: RuneSource| #[trigger] b.dom().contains(s) implies exists|x: int| 0 <= x < l.len() && l[x].0 == s by {
        match s {
            RuneSource::Shop(i) => {
                assert(shop.stubs@[i as int] is Some);
                assert(shop.stubs@.len() == shop.stubs.len() && shop.stubs.len() <= usize::MAX);
                lemma_slot_entries_complete(shop.stubs@, false, i as int);
                let x = choose|x: int| 0 <= x < se.len() && slot_index(se[x].0) == i && (se[x].0 is Joker) == false && se[x].0 !is Grid;
                assert(l[x] == se[x]);
            },
            RuneSource::Grid(g) => {
                let e = choose|e: int| 0 <= e < grid.entries().len() && grid.entries()[e].0 == g;
                assert(l[se.len() + e] == ge[e]);
            },
            RuneSource::Joker(i) => {
                assert(jokers.stubs@[i as int] is Some);
                assert(jokers.stubs@.len() == jokers.stubs.len() && jokers.stubs.len() <= usize::MAX);
                lemma_slot_entries_complete(jokers.stubs@, true, i as int);
                let x = choose|x: int| 0 <= x < je.len() && slot_index(je[x].0) == i && (je[x].0 is Joker) == true && je[x].0 !is Grid;
                assert(l[se.len() + ge.len() + x] == je[x]);
            },
        }
    }
    assert forall|x: int, y: int| 0 <= x < y < l.len() implies #[trigger] l[x].0 != #[trigger] l[y].0 by {
        if y < se.len() {
            assert(l[x] == se[x] && l[y] == se[y]);
        } else if x < se.len() {
            assert(l[x] == se[x]);
        } else if y < se.len() + ge.len() {
            assert(l[x] == ge[x - se.len()] && l[y] == ge[y - se.len()]);
        } else if x < se.len() + ge.len() {
            assert(l[x] == ge[x - se.len()]);
            assert(l[y] == je[y - se.len() - ge.len()]);
        } else {
            assert(l[x] == je[x - se.len() - ge.len()] && l[y] == je[y - se.len() - ge.len()]);
        }
    }
}

proof fn lemma_unkept_sound(views: Seq<RuneViewEntry>, b: Map<RuneSource, Rune>, l: Seq<(RuneSource, Rune)>)
    ensures
        forall|x: int| 0 <= x < unkept(views, b, l).len() ==> !has_keeper(views, b, (#[trigger] unkept(views, b, l)[x]).0)
            && exists|y: int| 0 <= y < l.len() && l[y] == unkept(views, b, l)[x],
    decreases l.len(),
{
    if l.len() > 0 {
        let init = l.drop_last();
        lemma_unkept_sound(views, b, init);
        let u0 = unkept(views, b, init);
        let u = unkept(views, b, l);
        assert forall|x: int| 0 <= x < u.len() implies !has_keeper(views, b, (#[trigger] u[x]).0)
            && exists|y: int| 0 <= y < l.len() && l[y] == u[x] by {
            if x < u0.len() {
                assert(u[x] == u0[x]);
                let y = choose|y: int| 0 <= y < init.len() && init[y] == u0[x];
                assert(l[y] == init[y]);
            } else {
                assert(u[x] == l.last());
                assert(l[l.len() - 1] == l.last());
            }
        }
    }
}

proof fn lemma_unkept_complete(views: Seq<RuneViewEntry>, b: Map<RuneSource, Rune>, l: Seq<(RuneSource, Rune)>, y: int)
    requires
        0 <= y < l.len(),
        !has_keeper(views, b, l[y].0),
    ensures
        exists|x: int| 0 <= x < unkept(views, b, l).len() && unkept(views, b, l)[x] == l[y],
    decreases l.len(),
{
    let init = l.drop_last();
    let u0 = unkept(views, b, init);
    let u = unkept(views, b, l);
    if y < init.len() {
        assert(init[y] == l[y]);
        lemma_unkept_complete(views, b, init, y);
        let x = choose|x: int| 0 <= x < u0.len() && u0[x] == init[y];
        assert(u[x] == u0[x]);
    } else {
        assert(u[u0.len() as int] == l[y]);
    }
}

proof fn lemma_unkept_distinct(views: Seq<RuneViewEntry>, b: Map<RuneSource, Rune>, l: Seq<(RuneSource, Rune)>)
    requires
        distinct_sources(l),
    ensures
        distinct_sources(unkept(views, b, l)),
    decreases l.len(),
{
    if l.len() > 0 {
        let init = l.drop_last();
        assert forall|x: int, y: int| 0 <= x < y < init.len() implies #[trigger] init[x].0 != #[trigger] init[y].0 by {
            assert(init[x] == l[x] && init[y] == l[y]);
        }
        lemma_unkept_distinct(views, b, init);
        lemma_unkept_sound(views, b, init);
        let u0 = unkept(views, b, init);
        let u = unkept(views, b, l);
        assert forall|x: int, y: int| 0 <= x < y < u.len() implies #[trigger] u[x].0 != #[trigger] u[y].0 by {
            if y < u0.len() {
                assert(u[x] == u0[x] && u[y] == u0[y]);
            } else {
                assert(u[x] == u0[x]);
                let yy = choose|yy: int| 0 <= yy < init.len() && init[yy] == u0[x];
                assert(l[yy] == init[yy]);
                assert(u[y] == l[l.len() - 1]);
            }
        }
    }
}

/// After a reconcile, every rune on the board is shown by exactly one view:
/// either one view stays at its slot (showing that rune), or the rune is
/// drawn anew, once; nothing is drawn twice or for an empty slot.
pub proof fn lemma_reconcile_covers_board(views: Seq<RuneViewEntry>, shop: &ShopOffer, grid: &RuneGrid, jokers: &JokerSlots)
    requires
        grid.wf(),
    ensures
        ({
            let b = board(shop, grid, jokers);
            let spawn = unkept(views, b, board_list(shop, grid, jokers));
            &&& forall|x: int| 0 <= x < spawn.len() ==> b.dom().contains((#[trigger] spawn[x]).0) && b[spawn[x].0] == spawn[x].1
                && !has_keeper(views, b, spawn[x].0)
            &&& forall|s: RuneSource| #[trigger] b.dom().contains(s) ==> has_keeper(views, b, s)
                || exists|x: int| 0 <= x < spawn.len() && spawn[x].0 == s
            &&& distinct_sources(spawn)
        }),
{
    let b = board(shop, grid, jokers);
    let l = board_list(shop, grid, jokers);
    let spawn = unkept(views, b, l);
    lemma_board_list(shop, grid, jokers);
    lemma_unkept_sound(views, b, l);
    lemma_unkept_distinct(views, b, l);
    assert forall|x: int| 0 <= x < spawn.len() implies b.dom().contains((#[trigger] spawn[x]).0) && b[spawn[x].0] == spawn[x].1
        && !has_keeper(views, b, spawn[x].0) by {
        let y = choose|y: int| 0 <= y < l.len() && l[y] == spawn[x];
        assert(b.dom().contains(l[y].0));
    }
    assert forall|s: RuneSource| #[trigger] b.dom().contains(s) implies has_keeper(views, b, s)
        || exists|x: int| 0 <= x < spawn.len() && spawn[x].0 == s by {
        let y = choose|y: int| 0 <= y < l.len() && l[y].0 == s;
        if !has_keeper(views, b, s) {
            lemma_unkept_complete(views, b, l, y);
            let x = choose|x: int| 0 <= x < spawn.len() && spawn[x] == l[y];
        }
    }
}

impl RuneGrid {
    /// A copy of the grid.
    pub fn duplicate(&self) -> (g: RuneGrid)
        requires
            self.wf(),
        ensures
            g.wf(),
            g.entries() == self.entries(),
            forall|c: HexCoord| #[trigger] g.at(c) == self.at(c),
    {
        let mut cells: Vec<(HexCoord, Rune)> = Vec::new();
        let mut i: usize = 0;
        while i < self.cells.len()
            invariant
                0 <= i <= self.cells.len(),
                cells@ == self.cells@.take(i as int),
            decreases self.cells.len() - i,
        {
            cells.push(self.cells[i]);
            i = i + 1;
            assert(cells@ =~= self.cells@.take(i as int));
        }
        assert(cells@ =~= self.cells@);
        RuneGrid { cells }
    }
}

/// The rune the stats count in cell `c` while `drag` is held: a rune lifted
/// from the grid still counts in its cell until it is dropped.
pub open spec fn committed_at(grid: &RuneGrid, drag: Option<(RuneSource, Rune)>, c: HexCoord) -> Option<Rune> {
    match drag {
        Some((RuneSource::Grid(fc), rune)) => if c == fc { Some(rune) } else { grid.at(c) },
        _ => grid.at(c),
    }
}

/// Whether the stats panel previews a drop of `drag` on `target`: the target
/// is a grid cell other than the origin, and a rune from the shop would not
/// land on a filled cell.
pub open spec fn drop_previewed(grid: &RuneGrid, drag: Option<(RuneSource, Rune)>, target: Option<RuneSource>) -> bool {
    match (drag, target) {
        (Some((from, _)), Some(RuneSource::Grid(tc))) => RuneSource::Grid(tc) != from
            && !(from is Shop && grid.at(tc) is Some),
        _ => false,
    }
}

/// The rune in cell `c` after the previewed drop: the dragged rune in the
/// target cell, the rune it displaces in the origin cell (if the origin is a
/// grid cell), every other cell as it is.
pub open spec fn previewed_at(grid: &RuneGrid, drag: Option<(RuneSource, Rune)>, target: Option<RuneSource>, c: HexCoord) -> Option<Rune> {
    match (drag, target) {
        (Some((from, rune)), Some(RuneSource::Grid(tc))) => if c == tc {
            Some(rune)
        } else if from == RuneSource::Grid(c) {
            grid.at(tc)
        } else {
            grid.at(c)
        },
        _ => grid.at(c),
    }
}

/// Lifting a rune off the grid does not change the stats shown while it is
/// held: the committed grid is the grid as it was before the lift.
pub proof fn lemma_lift_keeps_committed_grid(before: &RuneGrid, after: &RuneGrid, c: HexCoord, rune: Rune, x: HexCoord)
    requires
        before.at(c) == Some(rune),
        forall|y: HexCoord| #[trigger] after.at(y) == (if y == c { None } else { before.at(y) }),
    ensures
        committed_at(after, Some((RuneSource::Grid(c), rune)), x) == before.at(x),
{
    assert(after.at(x) == (if x == c { None } else { before.at(x) }));
}

/// The grids the stats panel computes stats for while `drag` (its origin and
/// the lifted rune) is held over `target`: the committed grid, and the grid
/// after the drop when the drop is previewed.
pub fn stats_grids(grid: &RuneGrid, drag: Option<(RuneSource, Rune)>, target: Option<RuneSource>) -> (r: (RuneGrid, Option<RuneGrid>))
    requires
        grid.wf(),
    ensures
        r.0.wf(),
        forall|c: HexCoord| #[trigger] r.0.at(c) == committed_at(grid, drag, c),
        r.1 is Some <==> drop_previewed(grid, drag, target),
        r.1 matches Some(p) ==> p.wf() && forall|c: HexCoord| #[trigger] p.at(c) == previewed_at(grid, drag, target, c),
{
    let mut committed = grid.duplicate();
    if let Some((RuneSource::Grid(fc), rune)) = drag {
        committed.insert(fc, rune);
    }
    let (from, rune) = match drag {
        Some(d) => d,
        None => {
            return (committed, None);
        },
    };
    let tc = match target {
        Some(RuneSource::Grid(tc)) => tc,
        _ => {
            return (committed, None);
        },
    };
    if RuneSource::Grid(tc) == from {
        return (committed, None);
    }
    let mut preview = committed.duplicate();
    if let RuneSource::Grid(fc) = from {
        let _ = preview.remove(fc);
    }
    let displaced = preview.get(tc);
    let from_shop = match from {
        RuneSource::Shop(_) => true,
        _ => false,
    };
    if from_shop && displaced.is_some() {
        return (committed, None);
    }
    preview.insert(tc, rune);
    if let (Some(b), RuneSource::Grid(fc)) = (displaced, from) {
        preview.insert(fc, b);
    }
    (committed, Some(preview))
}

/// The name of a rune kind.
pub fn rune_name(kind: RuneKind) -> (s: &'static str)
    ensures
        s@ == (match kind {
            RuneKind::Spike => "Spike"@,
            RuneKind::HeartStone => "HeartStone"@,
            RuneKind::Resonator => "Resonator"@,
        }),
{
    match kind {
        RuneKind::Spike => "Spike",
        RuneKind::HeartStone => "HeartStone",
        RuneKind::Resonator => "Resonator",
    }
}

/// How rare a rune kind is.
#[derive(Clone, Copy, PartialEq, Eq, Structural, Debug)]
pub enum Tier {
    Common,
    Rare,
}

/// The name of a rarity tier.
pub fn tier_label(tier: Tier) -> (s: &'static str)
    ensures
        s@ == (match tier {
            Tier::Common => "Common"@,
            Tier::Rare => "Rare"@,
        }),
{
    match tier {
        Tier::Common => "Common",
        Tier::Rare => "Rare",
    }
}

/// The first rune among the shop slots `slots` (in order; missing slots
/// hold nothing), from position `from` on.
pub open spec fn first_stocked(slots: Seq<usize>, stubs: Seq<Option<Rune>>, from: int) -> Option<Rune>
    decreases slots.len() - from,
{
    if from < 0 || from >= slots.len() {
        None
    } else if slots[from] < stubs.len() && stubs[slots[from] as int] is Some {
        stubs[slots[from] as int]
    } else {
        first_stocked(slots, stubs, from + 1)
    }
}

/// The rune the shop tooltip describes, and the grid cell whose incoming
/// effects scale it (if any). While a rune is dragged, the dragged rune,
/// scaled by the cell it is over; otherwise the first rune in the shop slots
/// under the pointer (`hovered_slots`), unscaled; otherwise the rune in the
/// grid cell under the pointer, scaled by that cell.
pub open spec fn tooltip_subject(
    drag: Option<(Rune, Option<RuneSource>)>,
    hovered_slots: Seq<usize>,
    hovered_cell: Option<HexCoord>,
    shop: &ShopOffer,
    grid: &RuneGrid,
) -> Option<(Rune, Option<HexCoord>)> {
    match drag {
        Some((rune, target)) => Some((rune, match target {
            Some(RuneSource::Grid(c)) => Some(c),
            _ => None,
        })),
        None => match first_stocked(hovered_slots, shop.stubs@, 0) {
            Some(r) => Some((r, None)),
            None => match hovered_cell {
                Some(c) => match grid.at(c) {
                    Some(r) => Some((r, Some(c))),
                    None => None,
                },
                None => None,
            },
        },
    }
}

/// Which rune the shop tooltip describes (see `tooltip_subject`).
pub fn tooltip_rune(
    drag: Option<(Rune, Option<RuneSource>)>,
    hovered_slots: &Vec<usize>,
    hovered_cell: Option<HexCoord>,
    shop: &ShopOffer,
    grid: &RuneGrid,
) -> (r: Option<(Rune, Option<HexCoord>)>)
    requires
        grid.wf(),
    ensures
        r == tooltip_subject(drag, hovered_slots@, hovered_cell, shop, grid),
{
    if let Some((rune, target)) = drag {
        let cell = match target {
            Some(RuneSource::Grid(c)) => Some(c),
            _ => None,
        };
        return Some((rune, cell));
    }
    let mut i: usize = 0;
    while i < hovered_slots.len()
        invariant
            0 <= i <= hovered_slots.len(),
            drag is None,
            first_stocked(hovered_slots@, shop.stubs@, 0) == first_stocked(hovered_slots@, shop.stubs@, i as int),
        decreases hovered_slots.len() - i,
    {
        let idx = hovered_slots[i];
        if idx < shop.stubs.len() {
            if let Some(r) = shop.stubs[idx] {
                return Some((r, None));
            }
        }
        i = i + 1;
    }
    match hovered_cell {
        Some(c) => match grid.get(c) {
            Some(r) => Some((r, Some(c))),
            None => None,
        },
        None => None,
    }
}

/// The price label of shop slot `index`: the price of the rune there, or
/// hidden (`None`) when the slot is empty or missing.
pub fn price_label(offer: &ShopOffer, index: usize) -> (r: Option<u32>)
    ensures
        r == (if index < offer.stubs.len() {
            match offer.stubs@[index as int] {
                Some(rune) => Some(rune.cost),
                None => None::<u32>,
            }
        } else {
            None::<u32>
        }),
{
    if index < offer.stubs.len() {
        match offer.stubs[index] {
            Some(rune) => Some(rune.cost),
            None => None,
        }
    } else {
        None
    }
}

} // verus!
