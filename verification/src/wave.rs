use vstd::prelude::*;

use crate::chance::{random_below, shuffle_kinds, thread_rng};
use rand::rngs::ThreadRng;

verus! {

/// How many times an actor has been made invulnerable; it is vulnerable again
/// once every grant has been taken back.
pub struct InvulnerableStack(pub u32);

impl InvulnerableStack {
    /// Adds one grant of invulnerability.
    pub fn increment(&mut self)
        requires
            old(self).0 < u32::MAX,
        ensures
            final(self).0 == old(self).0 + 1,
    {
        self.0 = self.0 + 1;
    }

    /// Takes back one grant (never below zero) and tells whether none is left.
    pub fn decrement(&mut self) -> (now_vulnerable: bool)
        ensures
            final(self).0 == (if old(self).0 == 0 { 0 } else { old(self).0 - 1 }),
            now_vulnerable == (final(self).0 == 0),
    {
        self.0 = self.0.saturating_sub(1);
        self.0 == 0
    }
}

/// The enemy kinds that waves spawn.
#[derive(Clone, Copy, PartialEq, Eq, Structural, Debug, Hash)]
pub enum MobKind {
    Phantom,
    Tower,
    SlimeSmall,
    Spinner,
    Jumper,
}

/// Every enemy kind, in their fixed order.
pub open spec fn all_kinds() -> Seq<MobKind> {
    seq![MobKind::Phantom, MobKind::Tower, MobKind::SlimeSmall, MobKind::Spinner, MobKind::Jumper]
}

impl MobKind {
    /// Every enemy kind, in their fixed order.
    pub fn all() -> (v: Vec<MobKind>)
        ensures
            v@ == all_kinds(),
    {
        let v = vec![MobKind::Phantom, MobKind::Tower, MobKind::SlimeSmall, MobKind::Spinner, MobKind::Jumper];
        assert(v@ =~= all_kinds());
        v
    }
}

/// The wave at which each enemy kind starts to appear (0: never).
pub struct MobUnlocks {
    pub phantom: u32,
    pub tower: u32,
    pub slime_small: u32,
    pub spinner: u32,
    pub jumper: u32,
}

/// The settings of one wave that the spawning rules read.
pub struct WaveDef {
    pub enemy_variety: u32,
    pub max_concurrent: u32,
}

/// Enemy unlocks and per-wave settings.
pub struct WavesConfig {
    pub mob_unlocks: MobUnlocks,
    pub waves: Vec<WaveDef>,
}

/// The wave at which `k` unlocks.
pub open spec fn unlock_of(u: MobUnlocks, k: MobKind) -> u32 {
    match k {
        MobKind::Phantom => u.phantom,
        MobKind::Tower => u.tower,
        MobKind::SlimeSmall => u.slime_small,
        MobKind::Spinner => u.spinner,
        MobKind::Jumper => u.jumper,
    }
}

/// The kinds of `ks` that are unlocked at `wave` (unlock wave set and reached), in order.
pub open spec fn unlocked_among(ks: Seq<MobKind>, u: MobUnlocks, wave: u32) -> Seq<MobKind>
    decreases ks.len(),
{
    if ks.len() == 0 {
        Seq::empty()
    } else {
        let rest = unlocked_among(ks.drop_last(), u, wave);
        let w = unlock_of(u, ks.last());
        if w <= wave && w > 0 { rest.push(ks.last()) } else { rest }
    }
}

/// The kinds of `ks` that unlocked at `wave` or the wave before, in order.
pub open spec fn fresh_among(ks: Seq<MobKind>, u: MobUnlocks, wave: u32) -> Seq<MobKind>
    decreases ks.len(),
{
    if ks.len() == 0 {
        Seq::empty()
    } else {
        let rest = fresh_among(ks.drop_last(), u, wave);
        let w = unlock_of(u, ks.last());
        if w == wave || w + 1 == wave { rest.push(ks.last()) } else { rest }
    }
}

/// The kinds of `ks` that are not in `out`, in order.
pub open spec fn kinds_not_in(ks: Seq<MobKind>, out: Seq<MobKind>) -> Seq<MobKind>
    decreases ks.len(),
{
    if ks.len() == 0 {
        Seq::empty()
    } else {
        let rest = kinds_not_in(ks.drop_last(), out);
        if out.contains(ks.last()) { rest } else { rest.push(ks.last()) }
    }
}

/// Index of the settings used for `wave` (waves past the list reuse its last entry).
pub open spec fn wave_index(wave: u32, count: nat) -> int {
    let w = if wave == 0 { 0 } else { wave - 1 };
    let last = if count == 0 { 0 } else { count - 1 };
    if w < last { w } else { last }
}

proof fn lemma_take_push_kind(s: Seq<MobKind>, k: int)
    requires
        0 <= k < s.len(),
    ensures
        s.take(k + 1) == s.take(k).push(s[k]),
        s.take(k + 1).drop_last() == s.take(k),
        s.take(k + 1).last() == s[k],
{
    assert(s.take(k + 1) =~= s.take(k).push(s[k]));
}

impl WavesConfig {
    /// The settings of `wave`: waves count from 1, wave 0 uses the first
    /// entry, and waves past the list use its last entry.
    pub fn for_wave(&self, wave: u32) -> (d: &WaveDef)
        requires
            self.waves.len() > 0,
        ensures
            *d == self.waves@[wave_index(wave, self.waves.len() as nat)],
    {
        let w = wave.saturating_sub(1) as usize;
        let last = self.waves.len().saturating_sub(1);
        let idx = if w < last { w } else { last };
        &self.waves[idx]
    }

    /// The wave at which `kind` unlocks.
    pub fn unlock_wave(&self, kind: MobKind) -> (w: u32)
        ensures
            w == unlock_of(self.mob_unlocks, kind),
    {
        match kind {
            MobKind::Phantom => self.mob_unlocks.phantom,
            MobKind::Tower => self.mob_unlocks.tower,
            MobKind::SlimeSmall => self.mob_unlocks.slime_small,
            MobKind::Spinner => self.mob_unlocks.spinner,
            MobKind::Jumper => self.mob_unlocks.jumper,
        }
    }

    /// The kinds a wave must spawn (unlocked at this wave or the one before)
    /// and the other unlocked kinds it may add, both in kind order.
    pub fn pool_candidates(&self, wave: u32) -> (r: (Vec<MobKind>, Vec<MobKind>))
        ensures
            r.0@ == fresh_among(unlocked_among(all_kinds(), self.mob_unlocks, wave), self.mob_unlocks, wave),
            r.1@ == kinds_not_in(unlocked_among(all_kinds(), self.mob_unlocks, wave), r.0@),
    {
        let kinds = MobKind::all();
        let mut unlocked: Vec<MobKind> = Vec::new();
        let mut i: usize = 0;
        while i < kinds.len()
            invariant
                0 <= i <= kinds.len(),
                kinds@ == all_kinds(),
                unlocked@ == unlocked_among(kinds@.take(i as int), self.mob_unlocks, wave),
            decreases kinds.len() - i,
        {
            proof {
                lemma_take_push_kind(kinds@, i as int);
            }
            let k = kinds[i];
            let w = self.unlock_wave(k);
            if w <= wave && w > 0 {
                unlocked.push(k);
            }
            i = i + 1;
        }
        assert(kinds@.take(kinds.len() as int) =~= kinds@);
        proof {
            lemma_unlocked_bound(kinds@, self.mob_unlocks, wave);
        }
        let mut picked: Vec<MobKind> = Vec::new();
        let mut j: usize = 0;
        while j < unlocked.len()
            invariant
                0 <= j <= unlocked.len(),
                picked@ == fresh_among(unlocked@.take(j as int), self.mob_unlocks, wave),
                forall|x: int| 0 <= x < unlocked.len() ==> 0 < #[trigger] unlock_of(self.mob_unlocks, unlocked@[x]) <= wave,
            decreases unlocked.len() - j,
        {
            proof {
                lemma_take_push_kind(unlocked@, j as int);
            }
            let k = unlocked[j];
            let u = self.unlock_wave(k);
            assert(0 < unlock_of(self.mob_unlocks, unlocked@[j as int]) <= wave);
            if u == wave || u + 1 == wave {
                picked.push(k);
            }
            j = j + 1;
        }
        assert(unlocked@.take(unlocked.len() as int) =~= unlocked@);
        let mut remaining: Vec<MobKind> = Vec::new();
        let mut m: usize = 0;
        while m < unlocked.len()
            invariant
                0 <= m <= unlocked.len(),
                remaining@ == kinds_not_in(unlocked@.take(m as int), picked@),
            decreases unlocked.len() - m,
        {
            proof {
                lemma_take_push_kind(unlocked@, m as int);
            }
            let k = unlocked[m];
            if !contains_kind(&picked, k) {
                remaining.push(k);
            }
            m = m + 1;
        }
        assert(unlocked@.take(unlocked.len() as int) =~= unlocked@);
        (picked, remaining)
    }
}

proof fn lemma_unlocked_bound(ks: Seq<MobKind>, u: MobUnlocks, wave: u32)
    ensures
        forall|x: int| 0 <= x < unlocked_among(ks, u, wave).len() ==> 0 < #[trigger] unlock_of(u, unlocked_among(ks, u, wave)[x]) <= wave,
    decreases ks.len(),
{
    if ks.len() > 0 {
        lemma_unlocked_bound(ks.drop_last(), u, wave);
        let rest = unlocked_among(ks.drop_last(), u, wave);
        let full = unlocked_among(ks, u, wave);
        assert forall|x: int| 0 <= x < full.len() implies 0 < #[trigger] unlock_of(u, full[x]) <= wave by {
            if x < rest.len() {
                assert(full[x] == rest[x]);
            }
        }
    }
}

/// Whether `k` is in `v`.
pub fn contains_kind(v: &Vec<MobKind>, k: MobKind) -> (r: bool)
    ensures
        r == v@.contains(k),
{
    let mut i: usize = 0;
    while i < v.len()
        invariant
            0 <= i <= v.len(),
            forall|j: int| 0 <= j < i ==> v@[j] != k,
        decreases v.len() - i,
    {
        if v[i] == k {
            assert(v@[i as int] == k);
            return true;
        }
        i = i + 1;
    }
    false
}

/// The kinds a wave must spawn: those unlocked at this wave or the one before.
pub open spec fn pool_fresh(cfg: &WavesConfig, wave: u32) -> Seq<MobKind> {
    fresh_among(unlocked_among(all_kinds(), cfg.mob_unlocks, wave), cfg.mob_unlocks, wave)
}

/// The other unlocked kinds a wave may add to reach its variety.
pub open spec fn pool_rest(cfg: &WavesConfig, wave: u32) -> Seq<MobKind> {
    kinds_not_in(unlocked_among(all_kinds(), cfg.mob_unlocks, wave), pool_fresh(cfg, wave))
}

/// How many of the other kinds a pool takes: what `variety` still lacks after `fresh`, within what is there.
pub open spec fn extra_count(variety: u32, fresh: nat, rest: nat) -> int {
    let need = if variety >= fresh { variety - fresh } else { 0 };
    if need < rest { need } else { rest as int }
}

/// The pool of a wave: the `picked` kinds, then the first of the `shuffled`
/// other kinds until `variety` kinds are reached (or they run out).
pub fn fill_pool(picked: Vec<MobKind>, shuffled: Vec<MobKind>, variety: u32) -> (pool: Vec<MobKind>)
    ensures
        pool@ == picked@ + shuffled@.take(extra_count(variety, picked.len() as nat, shuffled.len() as nat)),
{
    let need = (variety as usize).saturating_sub(picked.len());
    let mut pool = picked;
    let ghost start = pool@;
    let mut i: usize = 0;
    while i < shuffled.len() && i < need
        invariant
            0 <= i <= shuffled.len(),
            i <= need,
            need == (if variety as int >= start.len() { variety - start.len() } else { 0 }),
            pool@ == start + shuffled@.take(i as int),
        decreases shuffled.len() - i,
    {
        pool.push(shuffled[i]);
        i = i + 1;
        assert(pool@ =~= start + shuffled@.take(i as int));
    }
    pool
}

impl WavesConfig {
    /// The enemy kinds of `wave`: every kind unlocked at this wave or the one
    /// before, then other unlocked kinds drawn at random until the wave's
    /// variety is reached.
    pub fn resolve_pool(&self, wave: u32, rng: &mut ThreadRng) -> (pool: Vec<MobKind>)
        requires
            self.waves.len() > 0,
        ensures
            exists|s: Seq<MobKind>| #![trigger s.to_multiset()]
                s.to_multiset() == pool_rest(self, wave).to_multiset()
                && pool@ == pool_fresh(self, wave) + s.take(extra_count(
                    self.waves@[wave_index(wave, self.waves.len() as nat)].enemy_variety,
                    pool_fresh(self, wave).len(),
                    s.len(),
                )),
    {
        let (picked, mut remaining) = self.pool_candidates(wave);
        let variety = self.for_wave(wave).enemy_variety;
        shuffle_kinds(&mut remaining, rng);
        fill_pool(picked, remaining, variety)
    }
}

/// Which enemy kinds may spawn.
pub struct EnemySpawnPool {
    pub enabled: Vec<(MobKind, bool)>,
}

/// The kinds switched on in `enabled`, in order.
pub open spec fn active_of(enabled: Seq<(MobKind, bool)>) -> Seq<MobKind>
    decreases enabled.len(),
{
    if enabled.len() == 0 {
        Seq::empty()
    } else {
        let rest = active_of(enabled.drop_last());
        if enabled.last().1 { rest.push(enabled.last().0) } else { rest }
    }
}

impl Default for EnemySpawnPool {
    /// Every kind, switched on.
    fn default() -> (p: EnemySpawnPool)
        ensures
            p.enabled@ == all_kinds().map_values(|k: MobKind| (k, true)),
    {
        let kinds = MobKind::all();
        let mut enabled: Vec<(MobKind, bool)> = Vec::new();
        let mut i: usize = 0;
        while i < kinds.len()
            invariant
                0 <= i <= kinds.len(),
                kinds@ == all_kinds(),
                enabled@ == kinds@.take(i as int).map_values(|k: MobKind| (k, true)),
            decreases kinds.len() - i,
        {
            enabled.push((kinds[i], true));
            i = i + 1;
            assert(enabled@ =~= kinds@.take(i as int).map_values(|k: MobKind| (k, true)));
        }
        assert(kinds@.take(kinds.len() as int) =~= kinds@);
        EnemySpawnPool { enabled }
    }
}

impl EnemySpawnPool {
    /// The kinds switched on, in order.
    pub fn active_kinds(&self) -> (v: Vec<MobKind>)
        ensures
            v@ == active_of(self.enabled@),
    {
        let mut v: Vec<MobKind> = Vec::new();
        let mut i: usize = 0;
        while i < self.enabled.len()
            invariant
                0 <= i <= self.enabled.len(),
                v@ == active_of(self.enabled@.take(i as int)),
            decreases self.enabled.len() - i,
        {
            proof {
                assert(self.enabled@.take(i as int + 1).drop_last() =~= self.enabled@.take(i as int));
            }
            let (k, on) = self.enabled[i];
            if on {
                v.push(k);
            }
            i = i + 1;
        }
        assert(self.enabled@.take(self.enabled.len() as int) =~= self.enabled@);
        v
    }

    /// Switches on exactly the kinds in `active`, listing every kind in order.
    pub fn set_active(&mut self, active: &Vec<MobKind>)
        ensures
            final(self).enabled@ == all_kinds().map_values(|k: MobKind| (k, active@.contains(k))),
    {
        let kinds = MobKind::all();
        let mut enabled: Vec<(MobKind, bool)> = Vec::new();
        let mut i: usize = 0;
        while i < kinds.len()
            invariant
                0 <= i <= kinds.len(),
                kinds@ == all_kinds(),
                enabled@ == kinds@.take(i as int).map_values(|k: MobKind| (k, active@.contains(k))),
            decreases kinds.len() - i,
        {
            let on = contains_kind(active, kinds[i]);
            enabled.push((kinds[i], on));
            i = i + 1;
            assert(enabled@ =~= kinds@.take(i as int).map_values(|k: MobKind| (k, active@.contains(k))));
        }
        assert(kinds@.take(kinds.len() as int) =~= kinds@);
        self.enabled = enabled;
    }

    /// Flips entry `index` on or off; nothing happens past the end. Returns
    /// the entry's kind and new state, if it exists.
    pub fn toggle(&mut self, index: usize) -> (r: Option<(MobKind, bool)>)
        ensures
            index < old(self).enabled.len() ==> final(self).enabled@ == old(self).enabled@.update(
                index as int,
                (old(self).enabled@[index as int].0, !old(self).enabled@[index as int].1),
            ) && r == Some(final(self).enabled@[index as int]),
            index >= old(self).enabled.len() ==> final(self).enabled@ == old(self).enabled@ && r is None,
    {
        if index < self.enabled.len() {
            let (k, on) = self.enabled[index];
            self.enabled.set(index, (k, !on));
            Some((k, !on))
        } else {
            None
        }
    }

    /// Switches every entry on (or off).
    pub fn set_all(&mut self, on: bool)
        ensures
            final(self).enabled.len() == old(self).enabled.len(),
            forall|i: int| 0 <= i < old(self).enabled.len() ==> #[trigger] final(self).enabled@[i] == (old(self).enabled@[i].0, on),
    {
        let mut i: usize = 0;
        while i < self.enabled.len()
            invariant
                0 <= i <= self.enabled.len(),
                self.enabled.len() == old(self).enabled.len(),
                forall|j: int| 0 <= j < i ==> #[trigger] self.enabled@[j] == (old(self).enabled@[j].0, on),
                forall|j: int| i <= j < self.enabled.len() ==> #[trigger] self.enabled@[j] == old(self).enabled@[j],
            decreases self.enabled.len() - i,
        {
            let (k, _) = self.enabled[i];
            self.enabled.set(i, (k, on));
            i = i + 1;
        }
    }

    /// The kind of the next enemy: one of the switched-on kinds, drawn at
    /// random, or none if all are off.
    pub fn pick_kind(&self, rng: &mut ThreadRng) -> (r: Option<MobKind>)
        ensures
            r is None <==> active_of(self.enabled@).len() == 0,
            r matches Some(k) ==> active_of(self.enabled@).contains(k),
    {
        let active = self.active_kinds();
        if active.len() == 0 {
            None
        } else {
            let i = random_below(rng, active.len());
            assert(active@.contains(active@[i as int]));
            Some(active[i])
        }
    }
}

/// Starting values of a wave from the game balance.
pub struct WaveBalance {
    pub start_enemies: u32,
}

/// Counts of the current wave.
pub struct WaveState {
    pub spawned_count: u32,
    pub killed_count: u32,
    pub summoning_count: u32,
    pub max_concurrent: u32,
}

/// How many enemies may still be spawned now: the cap minus those alive, never below zero.
pub open spec fn deficit_of(s: WaveState) -> int {
    let alive = s.spawned_count - s.killed_count;
    if s.max_concurrent >= alive { s.max_concurrent - alive } else { 0 }
}

impl WaveState {
    /// A fresh wave: nothing spawned or killed, the cap from the balance.
    pub fn new(balance: &WaveBalance) -> (s: WaveState)
        ensures
            s.spawned_count == 0,
            s.killed_count == 0,
            s.summoning_count == 0,
            s.max_concurrent == balance.start_enemies,
    {
        WaveState { spawned_count: 0, killed_count: 0, summoning_count: 0, max_concurrent: balance.start_enemies }
    }

    /// How many enemies may be spawned now to keep the cap.
    pub fn spawn_deficit(&self) -> (d: u32)
        requires
            self.killed_count <= self.spawned_count,
        ensures
            d == deficit_of(*self),
    {
        let alive = self.spawned_count - self.killed_count;
        self.max_concurrent.saturating_sub(alive)
    }

    /// An enemy began to spawn.
    pub fn record_spawn(&mut self)
        requires
            old(self).spawned_count < u32::MAX,
            old(self).summoning_count < u32::MAX,
        ensures
            final(self).spawned_count == old(self).spawned_count + 1,
            final(self).summoning_count == old(self).summoning_count + 1,
            final(self).killed_count == old(self).killed_count,
            final(self).max_concurrent == old(self).max_concurrent,
    {
        self.spawned_count = self.spawned_count + 1;
        self.summoning_count = self.summoning_count + 1;
    }

    /// The deaths of this frame: one kill for each death of a wave enemy.
    pub fn track_kills(&mut self, wave_enemy_deaths: &Vec<bool>)
        requires
            old(self).killed_count + wave_enemy_deaths.len() <= u32::MAX,
        ensures
            final(self).killed_count == old(self).killed_count + wave_enemy_deaths@.filter(|d: bool| d).len(),
            final(self).spawned_count == old(self).spawned_count,
            final(self).summoning_count == old(self).summoning_count,
            final(self).max_concurrent == old(self).max_concurrent,
    {
        let mut i: usize = 0;
        while i < wave_enemy_deaths.len()
            invariant
                0 <= i <= wave_enemy_deaths.len(),
                old(self).killed_count + wave_enemy_deaths.len() <= u32::MAX,
                self.killed_count == old(self).killed_count + wave_enemy_deaths@.take(i as int).filter(|d: bool| d).len(),
                self.spawned_count == old(self).spawned_count,
                self.summoning_count == old(self).summoning_count,
                self.max_concurrent == old(self).max_concurrent,
            decreases wave_enemy_deaths.len() - i,
        {
            proof {
                let t = wave_enemy_deaths@.take(i as int);
                assert(wave_enemy_deaths@.take(i as int + 1) =~= t.push(wave_enemy_deaths@[i as int]));
                t.lemma_filter_len_push(|d: bool| d, wave_enemy_deaths@[i as int]);
            }
            if wave_enemy_deaths[i] {
                self.killed_count = self.killed_count + 1;
            }
            i = i + 1;
        }
        assert(wave_enemy_deaths@.take(wave_enemy_deaths.len() as int) =~= wave_enemy_deaths@);
    }
}

/// One frame of spawning: as many enemies as the cap allows, each of a kind
/// drawn from the switched-on kinds, and none if every kind is off. Returns
/// the kinds to spawn, in order; each is counted as spawned and summoning.
pub fn spawn_batch(state: &mut WaveState, pool: &EnemySpawnPool, rng: &mut ThreadRng) -> (kinds: Vec<MobKind>)
    requires
        old(state).killed_count <= old(state).spawned_count,
        old(state).spawned_count + deficit_of(*old(state)) <= u32::MAX,
        old(state).summoning_count + deficit_of(*old(state)) <= u32::MAX,
    ensures
        kinds.len() == (if active_of(pool.enabled@).len() == 0 { 0 } else { deficit_of(*old(state)) }),
        forall|i: int| 0 <= i < kinds.len() ==> active_of(pool.enabled@).contains(#[trigger] kinds@[i]),
        final(state).spawned_count == old(state).spawned_count + kinds.len(),
        final(state).summoning_count == old(state).summoning_count + kinds.len(),
        final(state).killed_count == old(state).killed_count,
        final(state).max_concurrent == old(state).max_concurrent,
        active_of(pool.enabled@).len() > 0 ==> deficit_of(*final(state)) == 0,
{
    let deficit = state.spawn_deficit();
    let mut kinds: Vec<MobKind> = Vec::new();
    let mut i: u32 = 0;
    while i < deficit
        invariant
            0 <= i <= deficit,
            deficit == deficit_of(*old(state)),
            kinds.len() == i,
            forall|j: int| 0 <= j < kinds.len() ==> active_of(pool.enabled@).contains(#[trigger] kinds@[j]),
            state.spawned_count == old(state).spawned_count + i,
            state.summoning_count == old(state).summoning_count + i,
            state.killed_count == old(state).killed_count,
            state.max_concurrent == old(state).max_concurrent,
            old(state).spawned_count + deficit_of(*old(state)) <= u32::MAX,
            old(state).summoning_count + deficit_of(*old(state)) <= u32::MAX,
            i > 0 ==> active_of(pool.enabled@).len() > 0,
        ensures
            i == deficit || (i == 0 && active_of(pool.enabled@).len() == 0),
        decreases deficit - i,
    {
        match pool.pick_kind(rng) {
            None => {
                break;
            },
            Some(k) => {
                state.record_spawn();
                kinds.push(k);
                i = i + 1;
            },
        }
    }
    proof {
        lemma_deficit_filled(*old(state));
    }
    kinds
}

/// Spawning the whole deficit fills the cap: afterwards no more may be
/// spawned until an enemy dies.
pub proof fn lemma_deficit_filled(s: WaveState)
    requires
        s.killed_count <= s.spawned_count,
        s.spawned_count + deficit_of(s) <= u32::MAX,
    ensures
        deficit_of(WaveState { spawned_count: (s.spawned_count + deficit_of(s)) as u32, ..s }) == 0,
{
}

/// A wave's settings are applied: the cap of the wave and its enemy pool.
pub fn apply_wave_config(wave: u32, waves: &WavesConfig, state: &mut WaveState, pool: &mut EnemySpawnPool)
    requires
        waves.waves.len() > 0,
    ensures
        final(state).max_concurrent == waves.waves@[wave_index(wave, waves.waves.len() as nat)].max_concurrent,
        final(state).spawned_count == old(state).spawned_count,
        final(state).killed_count == old(state).killed_count,
        final(state).summoning_count == old(state).summoning_count,
        exists|s: Seq<MobKind>| #![trigger s.to_multiset()]
            s.to_multiset() == pool_rest(waves, wave).to_multiset()
            && final(pool).enabled@ == all_kinds().map_values(|k: MobKind| (k, (pool_fresh(waves, wave) + s.take(extra_count(
                waves.waves@[wave_index(wave, waves.waves.len() as nat)].enemy_variety,
                pool_fresh(waves, wave).len(),
                s.len(),
            ))).contains(k))),
{
    let def = waves.for_wave(wave);
    state.max_concurrent = def.max_concurrent;
    let mut rng = thread_rng();
    let active = waves.resolve_pool(wave, &mut rng);
    pool.set_active(&active);
}

/// The dev-menu label of an enemy kind: `[x] name` when on, `[  ] name` when off.
pub fn enemy_toggle_label(name: &str, enabled: bool) -> (label: String)
    ensures
        label@ == (if enabled { "[x] "@ } else { "[  ] "@ }) + name@,
{
    let mut out: Vec<char> = Vec::new();
    if enabled {
        crate::text::push_str(&mut out, "[x] ");
    } else {
        crate::text::push_str(&mut out, "[  ] ");
    }
    crate::text::push_str(&mut out, name);
    crate::text::string_from_chars(&out)
}

} // verus!
