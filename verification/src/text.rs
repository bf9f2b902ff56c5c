use vstd::prelude::*;

verus! {

/// The characters of `s`, in order.
pub fn chars_of(s: &str) -> (v: Vec<char>)
    ensures
        v@ == s@,
{
    broadcast use vstd::string::axiom_spec_iter;
    let mut v: Vec<char> = Vec::new();
    for c in it: s.chars()
        invariant
            v@ == it.seq().take(it.index() as int),
    {
        v.push(c);
    }
    v
}

/// The string made of `v`'s characters, in order (`String::from_iter`).
#[verifier::external_body]
pub(crate) fn string_from_chars(v: &Vec<char>) -> (s: String)
    ensures
        s@ == v@,
{
    String::from_iter(v.iter())
}

/// The character of a decimal digit.
pub open spec fn digit_char(d: nat) -> char {
    if d == 0 { '0' }
    else if d == 1 { '1' }
    else if d == 2 { '2' }
    else if d == 3 { '3' }
    else if d == 4 { '4' }
    else if d == 5 { '5' }
    else if d == 6 { '6' }
    else if d == 7 { '7' }
    else if d == 8 { '8' }
    else { '9' }
}

/// The decimal notation of `n`, without sign or leading zeros.
pub open spec fn decimal(n: nat) -> Seq<char>
    decreases n,
{
    if n < 10 {
        seq![digit_char(n)]
    } else {
        decimal(n / 10).push(digit_char(n % 10))
    }
}

fn digit(d: u64) -> (c: char)
    requires
        d < 10,
    ensures
        c == digit_char(d as nat),
{
    if d == 0 { '0' }
    else if d == 1 { '1' }
    else if d == 2 { '2' }
    else if d == 3 { '3' }
    else if d == 4 { '4' }
    else if d == 5 { '5' }
    else if d == 6 { '6' }
    else if d == 7 { '7' }
    else if d == 8 { '8' }
    else { '9' }
}

/// Appends the decimal notation of `n` to `out`.
pub fn push_decimal(out: &mut Vec<char>, n: u64)
    ensures
        final(out)@ == old(out)@ + decimal(n as nat),
    decreases n,
{
    if n >= 10 {
        push_decimal(out, n / 10);
        out.push(digit(n % 10));
        assert(out@ =~= old(out)@ + decimal(n as nat));
    } else {
        out.push(digit(n));
        assert(out@ =~= old(out)@ + decimal(n as nat));
    }
}

/// Appends all of `s` to `out`.
pub fn push_str(out: &mut Vec<char>, s: &str)
    ensures
        final(out)@ == old(out)@ + s@,
{
    let cs = chars_of(s);
    let mut i: usize = 0;
    while i < cs.len()
        invariant
            0 <= i <= cs.len(),
            cs@ == s@,
            out@ == old(out)@ + cs@.take(i as int),
        decreases cs.len() - i,
    {
        out.push(cs[i]);
        i = i + 1;
        assert(out@ =~= old(out)@ + cs@.take(i as int));
    }
    assert(cs@.take(cs.len() as int) =~= cs@);
}

/// `c` is one of `0`..`9`.
pub open spec fn is_ascii_digit(c: char) -> bool {
    '0' <= c && c <= '9'
}

/// The number written by the decimal digits `s` (leading zeros allowed).
pub open spec fn digits_value(s: Seq<char>) -> nat
    decreases s.len(),
{
    if s.len() == 0 {
        0
    } else {
        digits_value(s.drop_last()) * 10 + ((s.last() as int) - ('0' as int)) as nat
    }
}

/// `s` without a leading `+`, if it has one.
pub open spec fn sign_stripped(s: Seq<char>) -> Seq<char> {
    if s.len() > 0 && s[0] == '+' { s.drop_first() } else { s }
}

/// Every character of `s` is an ASCII digit.
pub open spec fn all_digits(s: Seq<char>) -> bool {
    forall|k: int| 0 <= k < s.len() ==> #[trigger] is_ascii_digit(s[k])
}

/// What `str::parse::<u32>` gives: an optional `+`, then one or more ASCII
/// digits whose value fits in a `u32`; anything else is an error.
pub open spec fn parsed_u32(s: Seq<char>) -> Option<u32> {
    let body = sign_stripped(s);
    if body.len() > 0 && all_digits(body) && digits_value(body) <= u32::MAX {
        Some(digits_value(body) as u32)
    } else {
        None
    }
}

proof fn lemma_digits_prefix(s: Seq<char>, k: int)
    requires
        0 <= k <= s.len(),
    ensures
        digits_value(s) >= digits_value(s.take(k)),
    decreases s.len(),
{
    if k < s.len() {
        lemma_digits_prefix(s.drop_last(), k);
        assert(s.drop_last().take(k) =~= s.take(k));
    } else {
        assert(s.take(k) =~= s);
    }
}

/// The `u32` written in `s` as `str::parse::<u32>` reads it: an optional
/// `+`, then one or more ASCII digits whose value fits; `None` otherwise.
pub fn parse_u32(s: &str) -> (r: Option<u32>)
    ensures
        r == parsed_u32(s@),
{
    let cs = chars_of(s);
    let start: usize = if cs.len() > 0 && cs[0] == '+' { 1 } else { 0 };
    let ghost body = sign_stripped(s@);
    assert(body =~= cs@.skip(start as int));
    if start == cs.len() {
        return None;
    }
    let mut v: u32 = 0;
    let mut i: usize = start;
    assert(cs@.subrange(start as int, start as int) =~= Seq::<char>::empty());
    while i < cs.len()
        invariant
            start <= i <= cs.len(),
            body == cs@.skip(start as int),
            body == sign_stripped(s@),
            forall|k: int| start <= k < i ==> #[trigger] is_ascii_digit(cs@[k]),
            v == digits_value(cs@.subrange(start as int, i as int)),
        decreases cs.len() - i,
    {
        let c = cs[i];
        if !('0' <= c && c <= '9') {
            assert(body[i - start] == c);
            assert(!is_ascii_digit(body[i - start]));
            return None;
        }
        let d: u32 = (c as u32) - ('0' as u32);
        let ghost next = cs@.subrange(start as int, i as int + 1);
        assert(next.drop_last() =~= cs@.subrange(start as int, i as int));
        assert(next.last() == c);
        assert(digits_value(next) == v * 10 + d);
        match v.checked_mul(10) {
            None => {
                proof {
                    assert(body.take((i + 1 - start) as int) =~= next);
                    if all_digits(body) {
                        lemma_digits_prefix(body, (i + 1 - start) as int);
                    }
                }
                return None;
            },
            Some(t) => match t.checked_add(d) {
                None => {
                    proof {
                        assert(body.take((i + 1 - start) as int) =~= next);
                        if all_digits(body) {
                            lemma_digits_prefix(body, (i + 1 - start) as int);
                        }
                    }
                    return None;
                },
                Some(w) => {
                    v = w;
                },
            },
        }
        i = i + 1;
    }
    assert(cs@.subrange(start as int, cs.len() as int) =~= body);
    assert forall|k: int| 0 <= k < body.len() implies #[trigger] is_ascii_digit(body[k]) by {
        assert(body[k] == cs@[start + k]);
    }
    Some(v)
}

/// `s` ends with `tail`.
pub open spec fn has_suffix(s: Seq<char>, tail: Seq<char>) -> bool {
    s.len() >= tail.len() && s.subrange(s.len() - tail.len(), s.len() as int) == tail
}

/// Whether `s` ends with `tail`.
pub fn ends_with(s: &Vec<char>, tail: &Vec<char>) -> (r: bool)
    ensures
        r == has_suffix(s@, tail@),
{
    if s.len() < tail.len() {
        return false;
    }
    let off = s.len() - tail.len();
    let mut i: usize = 0;
    while i < tail.len()
        invariant
            0 <= i <= tail.len(),
            off == s.len() - tail.len(),
            forall|j: int| 0 <= j < i ==> s@[off + j] == tail@[j],
        decreases tail.len() - i,
    {
        if s[off + i] != tail[i] {
            assert(s@.subrange(off as int, s.len() as int)[i as int] != tail@[i as int]);
            return false;
        }
        i = i + 1;
    }
    assert(s@.subrange(off as int, s.len() as int) =~= tail@);
    true
}

} // verus!
