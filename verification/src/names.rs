use vstd::prelude::*;

use crate::text::{chars_of, ends_with, string_from_chars};

verus! {

/// `c` in upper case if it is an ASCII lower-case letter, else `c`.
pub open spec fn ascii_upper(c: char) -> char {
    if 'a' <= c && c <= 'z' { ((c as u32) - 32) as char } else { c }
}

/// Character `k` of the display form of the identifier `s`: underscores
/// become spaces, and the first character of each word is upper-cased.
pub open spec fn title_char(s: Seq<char>, k: int) -> char {
    if s[k] == '_' {
        ' '
    } else if k == 0 || s[k - 1] == '_' {
        ascii_upper(s[k])
    } else {
        s[k]
    }
}

/// The display form of the identifier `s`: words split at `_`, each starting
/// with an ASCII capital, joined by single spaces.
pub open spec fn title_words(s: Seq<char>) -> Seq<char> {
    Seq::new(s.len(), |k: int| title_char(s, k))
}

/// `s` without a trailing `_base`, or else without a trailing `_more`.
pub open spec fn strip_stat_suffix(s: Seq<char>) -> Seq<char> {
    if s.len() >= 5 && s.subrange(s.len() - 5, s.len() as int) == "_base"@ {
        s.subrange(0, s.len() - 5)
    } else if s.len() >= 5 && s.subrange(s.len() - 5, s.len() as int) == "_more"@ {
        s.subrange(0, s.len() - 5)
    } else {
        s
    }
}

fn upper_ascii(c: char) -> (r: char)
    ensures
        r == ascii_upper(c),
{
    if 'a' <= c && c <= 'z' {
        let b = (c as u32) - 32;
        assert(b < 128);
        (b as u8) as char
    } else {
        c
    }
}

fn title_chars(s: &Vec<char>) -> (r: Vec<char>)
    ensures
        r@ == title_words(s@),
{
    let mut out: Vec<char> = Vec::new();
    let mut k: usize = 0;
    while k < s.len()
        invariant
            0 <= k <= s.len(),
            out.len() == k,
            forall|j: int| 0 <= j < k ==> #[trigger] out@[j] == title_char(s@, j),
        decreases s.len() - k,
    {
        let c = s[k];
        let t = if c == '_' {
            ' '
        } else if k == 0 || s[k - 1] == '_' {
            upper_ascii(c)
        } else {
            c
        };
        out.push(t);
        k = k + 1;
    }
    assert(out@ =~= title_words(s@));
    out
}

/// The display name of a stat identifier: a trailing `_base` or `_more` is
/// dropped, words are split at `_`, capitalised and joined by spaces.
pub fn format_stat_name(raw: &str) -> (name: String)
    ensures
        name@ == title_words(strip_stat_suffix(raw@)),
{
    let s = chars_of(raw);
    let base = chars_of("_base");
    let more = chars_of("_more");
    proof {
        reveal_strlit("_base");
        reveal_strlit("_more");
    }
    let stem: Vec<char> = if ends_with(&s, &base) {
        take_prefix(&s, s.len() - 5)
    } else if ends_with(&s, &more) {
        take_prefix(&s, s.len() - 5)
    } else {
        s
    };
    string_from_chars(&title_chars(&stem))
}

/// The display name of an ability identifier: words split at `_`,
/// capitalised and joined by spaces.
pub fn format_ability_name(name: &str) -> (r: String)
    ensures
        r@ == title_words(name@),
{
    string_from_chars(&title_chars(&chars_of(name)))
}

fn take_prefix(s: &Vec<char>, n: usize) -> (r: Vec<char>)
    requires
        n <= s.len(),
    ensures
        r@ == s@.subrange(0, n as int),
{
    let mut out: Vec<char> = Vec::new();
    let mut i: usize = 0;
    while i < n
        invariant
            0 <= i <= n,
            n <= s.len(),
            out@ == s@.subrange(0, i as int),
        decreases n - i,
    {
        out.push(s[i]);
        i = i + 1;
        assert(out@ =~= s@.subrange(0, i as int));
    }
    out
}

/// `a` sorts before `b` as `String`s compare: the first differing character
/// decides, by code point (UTF-8 bytes compare in code point order), and a
/// proper prefix sorts first.
pub open spec fn lex_lt(a: Seq<char>, b: Seq<char>) -> bool
    decreases a.len(),
{
    if a.len() == 0 {
        b.len() > 0
    } else if b.len() == 0 {
        false
    } else if a[0] != b[0] {
        a[0] < b[0]
    } else {
        lex_lt(a.drop_first(), b.drop_first())
    }
}

proof fn lemma_lex_asym(a: Seq<char>, b: Seq<char>)
    ensures
        lex_lt(a, b) ==> !lex_lt(b, a),
    decreases a.len(),
{
    if a.len() > 0 && b.len() > 0 && a[0] == b[0] {
        lemma_lex_asym(a.drop_first(), b.drop_first());
    }
}

proof fn lemma_lex_trans(a: Seq<char>, b: Seq<char>, c: Seq<char>)
    ensures
        lex_lt(a, b) && lex_lt(b, c) ==> lex_lt(a, c),
    decreases a.len(),
{
    if a.len() > 0 && b.len() > 0 && c.len() > 0 && a[0] == b[0] && b[0] == c[0] {
        lemma_lex_trans(a.drop_first(), b.drop_first(), c.drop_first());
    }
}

proof fn lemma_lex_total(a: Seq<char>, b: Seq<char>)
    ensures
        a != b ==> lex_lt(a, b) || lex_lt(b, a),
    decreases a.len(),
{
    if a.len() > 0 && b.len() > 0 && a[0] == b[0] {
        lemma_lex_total(a.drop_first(), b.drop_first());
        if a.drop_first() == b.drop_first() {
            assert(a =~= seq![a[0]] + a.drop_first());
            assert(b =~= seq![b[0]] + b.drop_first());
        }
    } else if a.len() == 0 && b.len() == 0 {
        assert(a =~= b);
    }
}

/// The texts of `names`.
pub open spec fn name_texts(names: Seq<String>) -> Seq<Seq<char>> {
    names.map_values(|s: String| s@)
}

/// Entry `i` of `names` is listed before entry `j`: its name sorts first, or
/// the names are equal and it comes first (the sort is stable).
pub open spec fn listed_before(names: Seq<Seq<char>>, i: int, j: int) -> bool {
    lex_lt(names[i], names[j]) || (names[i] == names[j] && i < j)
}

proof fn lemma_listed_order(names: Seq<Seq<char>>, i: int, j: int, k: int)
    ensures
        !listed_before(names, i, i),
        listed_before(names, i, j) ==> !listed_before(names, j, i),
        listed_before(names, i, j) && listed_before(names, j, k) ==> listed_before(names, i, k),
        i != j ==> listed_before(names, i, j) || listed_before(names, j, i),
{
    lemma_lex_asym(names[i], names[i]);
    lemma_lex_asym(names[i], names[j]);
    lemma_lex_asym(names[i], names[k]);
    lemma_lex_trans(names[i], names[j], names[k]);
    lemma_lex_total(names[i], names[j]);
    if names[i] == names[j] {
        assert(lex_lt(names[j], names[k]) == lex_lt(names[i], names[k]));
    }
    if names[j] == names[k] {
        assert(lex_lt(names[i], names[j]) == lex_lt(names[i], names[k]));
    }
}

fn lex_less(a: &Vec<char>, b: &Vec<char>) -> (r: bool)
    ensures
        r == lex_lt(a@, b@),
{
    let mut i: usize = 0;
    assert(a@.skip(0) =~= a@ && b@.skip(0) =~= b@);
    while i < a.len() && i < b.len()
        invariant
            i <= a.len(),
            i <= b.len(),
            lex_lt(a@, b@) == lex_lt(a@.skip(i as int), b@.skip(i as int)),
        decreases a.len() - i,
    {
        if a[i] != b[i] {
            assert(a@.skip(i as int)[0] == a[i as int] && b@.skip(i as int)[0] == b[i as int]);
            return a[i] < b[i];
        }
        assert(a@.skip(i as int)[0] == b@.skip(i as int)[0]);
        assert(a@.skip(i as int).drop_first() =~= a@.skip(i as int + 1));
        assert(b@.skip(i as int).drop_first() =~= b@.skip(i as int + 1));
        i = i + 1;
    }
    i < b.len()
}

fn listed_first(cs: &Vec<Vec<char>>, i: usize, j: usize, Ghost(names): Ghost<Seq<Seq<char>>>) -> (r: bool)
    requires
        i < cs.len(),
        j < cs.len(),
        names.len() == cs.len(),
        forall|k: int| 0 <= k < cs.len() ==> #[trigger] cs@[k]@ == names[k],
    ensures
        r == listed_before(names, i as int, j as int),
{
    if lex_less(&cs[i], &cs[j]) {
        true
    } else if lex_less(&cs[j], &cs[i]) {
        proof {
            lemma_lex_asym(names[j as int], names[i as int]);
        }
        false
    } else {
        proof {
            lemma_lex_total(names[i as int], names[j as int]);
        }
        i < j
    }
}

/// The order in which the hero panel lists stat modifiers: by name, names
/// that are equal keeping their order. Returns the indices of `names` in
/// listing order.
pub fn name_order(names: &Vec<String>) -> (order: Vec<usize>)
    ensures
        order.len() == names.len(),
        forall|p: int| 0 <= p < order.len() ==> #[trigger] order@[p] < names.len(),
        forall|p: int, q: int| 0 <= p < q < order.len() ==> #[trigger] order@[p] != #[trigger] order@[q],
        forall|p: int, q: int| 0 <= p < q < order.len()
            ==> listed_before(name_texts(names@), #[trigger] order@[p] as int, #[trigger] order@[q] as int),
{
    let ghost ns = name_texts(names@);
    let mut cs: Vec<Vec<char>> = Vec::new();
    let mut k: usize = 0;
    while k < names.len()
        invariant
            0 <= k <= names.len(),
            ns == name_texts(names@),
            cs.len() == k,
            forall|m: int| 0 <= m < k ==> #[trigger] cs@[m]@ == ns[m],
        decreases names.len() - k,
    {
        cs.push(chars_of(names[k].as_str()));
        k = k + 1;
    }
    let mut order: Vec<usize> = Vec::new();
    let mut i: usize = 0;
    while i < names.len()
        invariant
            0 <= i <= names.len(),
            ns == name_texts(names@),
            ns.len() == names.len(),
            cs.len() == names.len(),
            forall|m: int| 0 <= m < cs.len() ==> #[trigger] cs@[m]@ == ns[m],
            order.len() == i,
            forall|p: int| 0 <= p < order.len() ==> #[trigger] order@[p] < i,
            forall|p: int, q: int| 0 <= p < q < order.len()
                ==> listed_before(ns, #[trigger] order@[p] as int, #[trigger] order@[q] as int),
        decreases names.len() - i,
    {
        let mut p: usize = 0;
        while p < order.len() && listed_first(&cs, order[p], i, Ghost(ns))
            invariant
                0 <= p <= order.len(),
                i < names.len(),
                ns.len() == names.len(),
                cs.len() == names.len(),
                forall|m: int| 0 <= m < cs.len() ==> #[trigger] cs@[m]@ == ns[m],
                forall|r: int| 0 <= r < order.len() ==> #[trigger] order@[r] < i,
                forall|r: int| 0 <= r < p ==> listed_before(ns, #[trigger] order@[r] as int, i as int),
            decreases order.len() - p,
        {
            p = p + 1;
        }
        let ghost before = order@;
        proof {
            if p < before.len() {
                lemma_listed_order(ns, before[p as int] as int, i as int, i as int);
                assert(listed_before(ns, i as int, before[p as int] as int));
                assert forall|r: int| p <= r < before.len() implies listed_before(ns, i as int, #[trigger] before[r] as int) by {
                    if r > p {
                        lemma_listed_order(ns, i as int, before[p as int] as int, before[r] as int);
                    }
                }
            }
        }
        order.insert(p, i);
        proof {
            assert forall|a: int, b: int| 0 <= a < b < order.len()
                implies listed_before(ns, #[trigger] order@[a] as int, #[trigger] order@[b] as int) by {
                if a < p && b < p {
                    assert(order@[a] == before[a] && order@[b] == before[b]);
                } else if a < p && b == p {
                    assert(order@[a] == before[a]);
                } else if a < p {
                    assert(order@[a] == before[a] && order@[b] == before[b - 1]);
                } else if a == p {
                    assert(order@[b] == before[b - 1]);
                } else {
                    assert(order@[a] == before[a - 1] && order@[b] == before[b - 1]);
                }
            }
        }
        i = i + 1;
    }
    proof {
        assert forall|p: int, q: int| 0 <= p < q < order.len() implies #[trigger] order@[p] != #[trigger] order@[q] by {
            lemma_listed_order(ns, order@[p] as int, order@[q] as int, order@[q] as int);
        }
    }
    order
}

} // verus!
