use vstd::prelude::*;

use crate::text::{chars_of, ends_with, has_suffix, push_str, string_from_chars};

verus! {

/// A stat with a fixed value or a value range, as the content files write it.
pub enum StatRangeRaw<V> {
    Fixed { stat: String, value: V },
    Range { stat: String, min: V, max: V },
}

/// A modifier as the content files write it: the stats it changes.
pub struct ModifierDefRaw<V> {
    pub stats: Vec<StatRangeRaw<V>>,
}

/// The stat a stat range is about.
pub open spec fn stat_of<V>(r: StatRangeRaw<V>) -> Seq<char> {
    match r {
        StatRangeRaw::Fixed { stat, .. } => stat@,
        StatRangeRaw::Range { stat, .. } => stat@,
    }
}

/// The names of all known stats.
pub struct StatNameSet {
    names: Vec<String>,
}

impl StatNameSet {
    /// The known stat names.
    pub closed spec fn view(&self) -> Set<Seq<char>> {
        Set::new(|n: Seq<char>| exists|i: int| 0 <= i < self.names.len() && self.names@[i]@ == n)
    }

    /// The set of the names `names` (repeats allowed).
    pub fn from_names(names: Vec<String>) -> (s: StatNameSet)
        ensures
            forall|n: Seq<char>| s.view().contains(n) <==> exists|i: int| 0 <= i < names.len() && names@[i]@ == n,
    {
        StatNameSet { names }
    }

    /// Whether `name` is a known stat.
    pub fn contains(&self, name: &String) -> (r: bool)
        ensures
            r == self.view().contains(name@),
    {
        let mut i: usize = 0;
        while i < self.names.len()
            invariant
                0 <= i <= self.names.len(),
                forall|j: int| 0 <= j < i ==> self.names@[j]@ != name@,
            decreases self.names.len() - i,
        {
            if self.names[i] == *name {
                return true;
            }
            i = i + 1;
        }
        false
    }
}

/// The complaint about an unknown stat: `<context>: unknown stat '<stat>'`.
pub open spec fn unknown_stat_message(context: Seq<char>, stat: Seq<char>) -> Seq<char> {
    context + ": unknown stat '"@ + stat + "'"@
}

/// The complaints for the unknown stats among `stats`, in order.
pub open spec fn stat_errors<V>(context: Seq<char>, stats: Seq<StatRangeRaw<V>>, known: Set<Seq<char>>) -> Seq<Seq<char>>
    decreases stats.len(),
{
    if stats.len() == 0 {
        Seq::empty()
    } else {
        let rest = stat_errors(context, stats.drop_last(), known);
        let s = stat_of(stats.last());
        if known.contains(s) { rest } else { rest.push(unknown_stat_message(context, s)) }
    }
}

/// The complaints for the unknown stats of `modifiers`, modifier by modifier, in order.
pub open spec fn modifier_errors<V>(context: Seq<char>, modifiers: Seq<ModifierDefRaw<V>>, known: Set<Seq<char>>) -> Seq<Seq<char>>
    decreases modifiers.len(),
{
    if modifiers.len() == 0 {
        Seq::empty()
    } else {
        modifier_errors(context, modifiers.drop_last(), known) + stat_errors(context, modifiers.last().stats@, known)
    }
}

/// The texts of a list of strings.
pub open spec fn texts(v: Seq<String>) -> Seq<Seq<char>> {
    v.map_values(|s: String| s@)
}

/// Checks that every stat named by `modifiers` is a known stat; each unknown
/// one adds `<context>: unknown stat '<stat>'` to `errors`.
pub fn validate_modifier_stats<V>(context: &str, modifiers: &[ModifierDefRaw<V>], stat_names: &StatNameSet, errors: &mut Vec<String>)
    ensures
        texts(final(errors)@) == texts(old(errors)@) + modifier_errors(context@, modifiers@, stat_names.view()),
{
    let mut m: usize = 0;
    while m < modifiers.len()
        invariant
            0 <= m <= modifiers.len(),
            texts(errors@) == texts(old(errors)@) + modifier_errors(context@, modifiers@.take(m as int), stat_names.view()),
        decreases modifiers.len() - m,
    {
        proof {
            assert(modifiers@.take(m as int + 1).drop_last() =~= modifiers@.take(m as int));
        }
        let stats = &modifiers[m].stats;
        let ghost mid = texts(errors@);
        let mut k: usize = 0;
        while k < stats.len()
            invariant
                0 <= k <= stats.len(),
                texts(errors@) == mid + stat_errors(context@, stats@.take(k as int), stat_names.view()),
            decreases stats.len() - k,
        {
            proof {
                assert(stats@.take(k as int + 1).drop_last() =~= stats@.take(k as int));
            }
            let stat = match &stats[k] {
                StatRangeRaw::Fixed { stat, .. } => stat,
                StatRangeRaw::Range { stat, .. } => stat,
            };
            if !stat_names.contains(stat) {
                let mut msg: Vec<char> = Vec::new();
                push_str(&mut msg, context);
                push_str(&mut msg, ": unknown stat '");
                push_str(&mut msg, stat.as_str());
                push_str(&mut msg, "'");
                let ghost before = errors@;
                errors.push(string_from_chars(&msg));
                proof {
                    assert(texts(errors@) =~= texts(before).push(msg@));
                }
            }
            k = k + 1;
            proof {
                assert(texts(errors@) =~= mid + stat_errors(context@, stats@.take(k as int), stat_names.view()));
            }
        }
        assert(stats@.take(stats.len() as int) =~= stats@);
        m = m + 1;
        proof {
            assert(texts(errors@) =~= texts(old(errors)@) + modifier_errors(context@, modifiers@.take(m as int), stat_names.view()));
        }
    }
    assert(modifiers@.take(modifiers.len() as int) =~= modifiers@);
}

/// The stats of `modifiers`, modifier by modifier, in order.
pub open spec fn all_stats<V>(modifiers: Seq<ModifierDefRaw<V>>) -> Seq<StatRangeRaw<V>>
    decreases modifiers.len(),
{
    if modifiers.len() == 0 {
        Seq::empty()
    } else {
        all_stats(modifiers.drop_last()) + modifiers.last().stats@
    }
}

/// A stat range names a stat outside `known`.
pub open spec fn names_unknown<V>(known: Set<Seq<char>>) -> spec_fn(StatRangeRaw<V>) -> bool {
    |r: StatRangeRaw<V>| !known.contains(stat_of(r))
}

/// The complaint about the stat a range names, in `context`.
pub open spec fn complaint<V>(context: Seq<char>) -> spec_fn(StatRangeRaw<V>) -> Seq<char> {
    |r: StatRangeRaw<V>| context + ": unknown stat '"@ + stat_of(r) + "'"@
}

proof fn lemma_stat_errors_filter<V>(context: Seq<char>, stats: Seq<StatRangeRaw<V>>, known: Set<Seq<char>>)
    ensures
        stat_errors(context, stats, known) == stats.filter(names_unknown(known)).map_values(complaint(context)),
    decreases stats.len(),
{
    reveal(Seq::filter);
    if stats.len() > 0 {
        lemma_stat_errors_filter(context, stats.drop_last(), known);
        let f = stats.drop_last().filter(names_unknown(known));
        assert(f.push(stats.last()).map_values(complaint(context)) =~= f.map_values(complaint(context)).push(
            complaint(context)(stats.last()),
        ));
    }
}

/// Every stat that the known stats do not name gets a complaint of its own,
/// in order, and no other complaint is made: the complaints are exactly the
/// unknown stats of all modifiers, each written as
/// `<context>: unknown stat '<stat>'`.
pub proof fn lemma_every_unknown_stat_reported<V>(context: Seq<char>, modifiers: Seq<ModifierDefRaw<V>>, known: Set<Seq<char>>)
    ensures
        modifier_errors(context, modifiers, known) == all_stats(modifiers).filter(names_unknown(known)).map_values(
            complaint(context),
        ),
        modifier_errors(context, modifiers, known).len() == all_stats(modifiers).filter(names_unknown(known)).len(),
    decreases modifiers.len(),
{
    if modifiers.len() > 0 {
        lemma_every_unknown_stat_reported(context, modifiers.drop_last(), known);
        let a = all_stats(modifiers.drop_last());
        let b = modifiers.last().stats@;
        lemma_stat_errors_filter(context, b, known);
        Seq::filter_distributes_over_add(a, b, names_unknown(known));
        let fa = a.filter(names_unknown(known));
        let fb = b.filter(names_unknown(known));
        assert((fa + fb).map_values(complaint(context)) =~= fa.map_values(complaint(context)) + fb.map_values(
            complaint(context),
        ));
    }
}

/// A directory listing as read from disk: sub-directories with their own
/// listing, and files with their path and file name.
pub enum DirEntry {
    Dir(Vec<DirEntry>),
    File { path: String, name: String },
}

/// The paths of the files whose name ends with `suffix`, directory by
/// directory, in listing order (a sub-directory's files where it is listed).
pub open spec fn files_with_suffix(entries: Seq<DirEntry>, suffix: Seq<char>) -> Seq<Seq<char>>
    decreases entries,
{
    if entries.len() == 0 {
        Seq::empty()
    } else {
        let last = entries[entries.len() - 1];
        files_with_suffix(entries.drop_last(), suffix) + match last {
            DirEntry::Dir(sub) => files_with_suffix(sub@, suffix),
            DirEntry::File { path, name } => if has_suffix(name@, suffix) { seq![path@] } else { Seq::empty() },
        }
    }
}

/// The paths of every file under `entries`, at any depth, in listing order.
pub open spec fn all_files(entries: Seq<DirEntry>) -> Seq<Seq<char>>
    decreases entries,
{
    if entries.len() == 0 {
        Seq::empty()
    } else {
        let last = entries[entries.len() - 1];
        all_files(entries.drop_last()) + match last {
            DirEntry::Dir(sub) => all_files(sub@),
            DirEntry::File { path, .. } => seq![path@],
        }
    }
}

proof fn lemma_suffix_of_suffix(name: Seq<char>, long: Seq<char>, short: Seq<char>)
    requires
        has_suffix(name, long),
        has_suffix(long, short),
    ensures
        has_suffix(name, short),
{
    let n = name.len() as int;
    let l = long.len() as int;
    let k = short.len() as int;
    assert forall|j: int| 0 <= j < k implies name.subrange(n - k, n)[j] == short[j] by {
        assert(name.subrange(n - l, n)[l - k + j] == long[l - k + j]);
        assert(long.subrange(l - k, l)[j] == short[j]);
    }
    assert(name.subrange(n - k, n) =~= short);
}

/// A longer suffix finds fewer files: every file whose name ends with `long`
/// is found with `short`, a suffix of `long`, too.
pub proof fn lemma_files_suffix_monotone(entries: Seq<DirEntry>, long: Seq<char>, short: Seq<char>)
    requires
        has_suffix(long, short),
    ensures
        forall|p: Seq<char>| files_with_suffix(entries, long).contains(p) ==> #[trigger] files_with_suffix(entries, short).contains(p),
    decreases entries,
{
    if entries.len() > 0 {
        let init = entries.drop_last();
        let last = entries[entries.len() - 1];
        lemma_files_suffix_monotone(init, long, short);
        let a_long = files_with_suffix(init, long);
        let a_short = files_with_suffix(init, short);
        let b_long = match last {
            DirEntry::Dir(sub) => files_with_suffix(sub@, long),
            DirEntry::File { path, name } => if has_suffix(name@, long) { seq![path@] } else { Seq::empty() },
        };
        let b_short = match last {
            DirEntry::Dir(sub) => files_with_suffix(sub@, short),
            DirEntry::File { path, name } => if has_suffix(name@, short) { seq![path@] } else { Seq::empty() },
        };
        match last {
            DirEntry::Dir(sub) => {
                assert(decreases_to!(entries => last));
                lemma_files_suffix_monotone(sub@, long, short);
            },
            DirEntry::File { path, name } => {
                if has_suffix(name@, long) {
                    lemma_suffix_of_suffix(name@, long, short);
                }
            },
        }
        assert forall|p: Seq<char>| files_with_suffix(entries, long).contains(p) implies #[trigger] files_with_suffix(entries, short).contains(p) by {
            assert(files_with_suffix(entries, long) == a_long + b_long);
            assert(files_with_suffix(entries, short) == a_short + b_short);
            let i = choose|i: int| 0 <= i < (a_long + b_long).len() && (a_long + b_long)[i] == p;
            if i < a_long.len() {
                assert(a_long[i] == p);
                assert(a_long.contains(p));
                assert(a_short.contains(p));
                let j = choose|j: int| 0 <= j < a_short.len() && a_short[j] == p;
                assert((a_short + b_short)[j] == p);
            } else {
                assert(b_long[i - a_long.len()] == p);
                assert(b_long.contains(p));
                match last {
                    DirEntry::Dir(sub) => {
                        assert(files_with_suffix(sub@, long).contains(p));
                        assert(files_with_suffix(sub@, short).contains(p));
                    },
                    DirEntry::File { path, name } => {
                        assert(b_short[0] == p);
                    },
                }
                assert(b_short.contains(p));
                let j = choose|j: int| 0 <= j < b_short.len() && b_short[j] == p;
                assert((a_short + b_short)[a_short.len() + j] == p);
            }
        }
    }
}

/// The empty suffix finds every file.
pub proof fn lemma_files_empty_suffix(entries: Seq<DirEntry>)
    ensures
        files_with_suffix(entries, Seq::empty()) == all_files(entries),
    decreases entries,
{
    if entries.len() > 0 {
        let last = entries[entries.len() - 1];
        lemma_files_empty_suffix(entries.drop_last());
        match last {
            DirEntry::Dir(sub) => {
                assert(decreases_to!(entries => last));
                lemma_files_empty_suffix(sub@);
            },
            DirEntry::File { path, name } => {
                assert(name@.subrange(name@.len() as int, name@.len() as int) =~= Seq::<char>::empty());
            },
        }
    }
}

/// The paths of the files under `dir` (at any depth) whose name ends with
/// `suffix`, in listing order.
pub fn find_ron_files(dir: &Vec<DirEntry>, suffix: &str) -> (files: Vec<String>)
    ensures
        texts(files@) == files_with_suffix(dir@, suffix@),
{
    let mut files: Vec<String> = Vec::new();
    find_ron_files_recursive(dir, suffix, &mut files);
    assert(texts(files@) =~= files_with_suffix(dir@, suffix@));
    files
}

/// Adds to `out` the paths of the files under `dir` whose name ends with `suffix`.
pub fn find_ron_files_recursive(dir: &Vec<DirEntry>, suffix: &str, out: &mut Vec<String>)
    ensures
        texts(final(out)@) == texts(old(out)@) + files_with_suffix(dir@, suffix@),
    decreases dir@,
{
    let tail = chars_of(suffix);
    let mut k: usize = 0;
    while k < dir.len()
        invariant
            0 <= k <= dir.len(),
            tail@ == suffix@,
            texts(out@) == texts(old(out)@) + files_with_suffix(dir@.take(k as int), suffix@),
        decreases dir.len() - k,
    {
        proof {
            assert(dir@.take(k as int + 1).drop_last() =~= dir@.take(k as int));
            assert(dir@.take(k as int + 1)[k as int] == dir@[k as int]);
        }
        let ghost before = texts(out@);
        match &dir[k] {
            DirEntry::Dir(sub) => {
                proof {
                    assert(decreases_to!(dir@ => dir@[k as int]));
                }
                find_ron_files_recursive(sub, suffix, out);
            },
            DirEntry::File { path, name } => {
                let name_chars = chars_of(name.as_str());
                if ends_with(&name_chars, &tail) {
                    out.push(path.clone());
                    proof {
                        assert(texts(out@) =~= before.push(path@));
                    }
                }
            },
        }
        k = k + 1;
        proof {
            assert(texts(out@) =~= texts(old(out)@) + files_with_suffix(dir@.take(k as int), suffix@));
        }
    }
    assert(dir@.take(dir.len() as int) =~= dir@);
}

} // verus!
