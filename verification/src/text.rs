//! Text helpers shared by the other modules.
//!
//! Strings are handled through their view, a sequence of characters. The
//! conversions in this module move between `String` and `Vec<char>` so that
//! the rest of the crate can work on indexable data.

use vstd::prelude::*;

verus! {

/// The views of a list of strings.
pub open spec fn strs(v: Seq<String>) -> Seq<Seq<char>> {
    v.map_values(|s: String| s@)
}

/// The view of an optional string.
pub open spec fn opt_str(o: Option<String>) -> Option<Seq<char>> {
    match o {
        Some(s) => Some(s@),
        None => None,
    }
}

/// The views of a list of pairs of strings.
pub open spec fn pairs(v: Seq<(String, String)>) -> Seq<(Seq<char>, Seq<char>)> {
    v.map_values(|p: (String, String)| (p.0@, p.1@))
}

/// `String::push` appends one character to the end of the string.
pub assume_specification[ String::push ](s: &mut String, c: char)
    ensures
        final(s)@ == old(s)@.push(c),
;

/// The characters of `s`, in order.
pub fn chars_of(s: &str) -> (out: Vec<char>)
    ensures
        out@ == s@,
{
    let mut out: Vec<char> = Vec::new();
    for c in it: s.chars()
        invariant
            it.seq() == s@,
            out@ == it.seq().take(it.index()),
    {
        out.push(c);
    }
    out
}

/// The character `c`, or `to` where `c` is `from`.
pub open spec fn swap(from: char, to: char) -> spec_fn(char) -> char {
    |c: char|
        if c == from {
            to
        } else {
            c
        }
}

/// `s` with every `from` replaced by `to`.
pub fn replace_char(s: &str, from: char, to: char) -> (out: String)
    ensures
        out@ == s@.map_values(swap(from, to)),
{
    let v = chars_of(s);
    let mut out = String::new();
    let mut i: usize = 0;
    while i < v.len()
        invariant
            i <= v.len(),
            v@ == s@,
            out@ == s@.map_values(swap(from, to)).take(i as int),
        decreases v.len() - i,
    {
        let c = if v[i] == from {
            to
        } else {
            v[i]
        };
        proof {
            let all = s@.map_values(swap(from, to));
            assert(all.take(i + 1) =~= all.take(i as int).push(c));
        }
        out.push(c);
        i += 1;
    }
    assert(s@.map_values(swap(from, to)).take(v.len() as int) =~= s@.map_values(swap(from, to)));
    out
}

/// Whether two strings hold the same characters.
pub fn same(a: &str, b: &str) -> (r: bool)
    ensures
        r == (a@ == b@),
{
    let x = a.to_owned();
    let y = b.to_owned();
    x == y
}

/// Whether `s` starts with `prefix`.
#[verifier::loop_isolation(false)]
pub fn starts_with(s: &str, prefix: &str) -> (b: bool)
    ensures
        b == prefix@.is_prefix_of(s@),
{
    let text = chars_of(s);
    let head = chars_of(prefix);
    if head.len() > text.len() {
        return false;
    }
    let mut i: usize = 0;
    while i < head.len()
        invariant
            i <= head.len() <= text.len(),
            forall|k: int| 0 <= k < i ==> head@[k] == text@[k],
        decreases head.len() - i,
    {
        if head[i] != text[i] {
            assert(text@.subrange(0, head.len() as int)[i as int] != head@[i as int]);
            return false;
        }
        i += 1;
    }
    assert(head@ =~= text@.subrange(0, head.len() as int));
    true
}

/// Whether `s` ends with `suffix`.
#[verifier::loop_isolation(false)]
pub fn ends_with(s: &str, suffix: &str) -> (b: bool)
    ensures
        b == suffix@.is_suffix_of(s@),
{
    let text = chars_of(s);
    let tail = chars_of(suffix);
    if tail.len() > text.len() {
        return false;
    }
    let from: usize = text.len() - tail.len();
    let mut i: usize = 0;
    while i < tail.len()
        invariant
            i <= tail.len() <= text.len(),
            from == text.len() - tail.len(),
            forall|k: int| 0 <= k < i ==> tail@[k] == text@[from + k],
        decreases tail.len() - i,
    {
        if tail[i] != text[from + i] {
            assert(text@.subrange(from as int, text.len() as int)[i as int] != tail@[i as int]);
            return false;
        }
        i += 1;
    }
    assert(tail@ =~= text@.subrange(from as int, text.len() as int));
    true
}

/// Index of the first `c` in `s`, or the length of `s` when there is none.
pub open spec fn first_index(s: Seq<char>, c: char) -> int
    decreases s.len(),
{
    if s.len() == 0 {
        0
    } else if s[0] == c {
        0
    } else {
        1 + first_index(s.skip(1), c)
    }
}

/// `first_index` is the one position that holds `c` with no `c` before it,
/// or the length when `c` does not occur.
pub proof fn lemma_first_index(s: Seq<char>, c: char)
    ensures
        0 <= first_index(s, c) <= s.len(),
        first_index(s, c) < s.len() ==> s[first_index(s, c)] == c,
        forall|j: int| 0 <= j < first_index(s, c) ==> s[j] != c,
    decreases s.len(),
{
    if s.len() > 0 && s[0] != c {
        lemma_first_index(s.skip(1), c);
        assert forall|j: int| 0 <= j < first_index(s, c) implies s[j] != c by {
            if j > 0 {
                assert(s.skip(1)[j - 1] == s[j]);
            }
        }
    }
}

/// A position that holds `c` with no `c` before it is the first index.
pub proof fn lemma_first_index_unique(s: Seq<char>, c: char, i: int)
    requires
        0 <= i <= s.len(),
        i < s.len() ==> s[i] == c,
        forall|j: int| 0 <= j < i ==> s[j] != c,
    ensures
        first_index(s, c) == i,
{
    lemma_first_index(s, c);
    let k = first_index(s, c);
    if k < i {
        assert(s[k] != c);
    }
}

/// `s` cut at its first `sep`: what stands before it and what stands after
/// it, or `None` when `sep` does not occur.
pub open spec fn split_once_spec(s: Seq<char>, sep: char) -> Option<(Seq<char>, Seq<char>)> {
    let i = first_index(s, sep);
    if i < s.len() {
        Some((s.take(i), s.skip(i + 1)))
    } else {
        None
    }
}

/// Position of the first `c` in `v`, or `v.len()` when there is none.
pub fn find_char(v: &Vec<char>, c: char) -> (i: usize)
    ensures
        i == first_index(v@, c),
{
    let mut i: usize = 0;
    while i < v.len() && v[i] != c
        invariant
            i <= v.len(),
            forall|j: int| 0 <= j < i ==> v@[j] != c,
        decreases v.len() - i,
    {
        i += 1;
    }
    proof {
        lemma_first_index_unique(v@, c, i as int);
    }
    i
}

/// The characters of `v` from `from` up to `to`, as a string.
pub fn substring(v: &Vec<char>, from: usize, to: usize) -> (out: String)
    requires
        from <= to <= v.len(),
    ensures
        out@ == v@.subrange(from as int, to as int),
{
    let mut out = String::new();
    let mut i: usize = from;
    while i < to
        invariant
            from <= i <= to <= v.len(),
            out@ == v@.subrange(from as int, i as int),
        decreases to - i,
    {
        out.push(v[i]);
        i += 1;
    }
    out
}

/// Splits `s` at the first `sep`. The separator itself is dropped.
pub fn split_once(s: &str, sep: char) -> (r: Option<(String, String)>)
    ensures
        match r {
            Some((head, tail)) => split_once_spec(s@, sep) == Some((head@, tail@)),
            None => split_once_spec(s@, sep) is None,
        },
{
    let v = chars_of(s);
    let i = find_char(&v, sep);
    if i < v.len() {
        let head = substring(&v, 0, i);
        let tail = substring(&v, i + 1, v.len());
        Some((head, tail))
    } else {
        None
    }
}

/// Appends copies of the strings of `v` to `out`.
pub fn extend_strings(out: &mut Vec<String>, v: &Vec<String>)
    ensures
        strs(final(out)@) == strs(old(out)@) + strs(v@),
{
    let ghost before = strs(out@);
    let mut i: usize = 0;
    assert(strs(out@) =~= before + strs(v@).take(0));
    while i < v.len()
        invariant
            i <= v.len(),
            strs(out@) == before + strs(v@).take(i as int),
        decreases v.len() - i,
    {
        let item = v[i].clone();
        proof {
            assert(strs(out@.push(item)) =~= strs(out@).push(item@));
            assert(strs(v@).take(i + 1) =~= strs(v@).take(i as int).push(v@[i as int]@));
            assert((before + strs(v@).take(i as int)).push(item@) =~= before + strs(v@).take(
                i + 1,
            ));
        }
        out.push(item);
        i += 1;
    }
    assert(strs(v@).take(v.len() as int) =~= strs(v@));
}

/// A copy of a list of strings.
pub fn clone_strings(v: &Vec<String>) -> (out: Vec<String>)
    ensures
        strs(out@) == strs(v@),
{
    let mut out: Vec<String> = Vec::new();
    assert(strs(out@) =~= Seq::empty());
    extend_strings(&mut out, v);
    assert(Seq::<Seq<char>>::empty() + strs(v@) =~= strs(v@));
    out
}

/// A copy of an optional string.
pub fn clone_opt(o: &Option<String>) -> (out: Option<String>)
    ensures
        opt_str(out) == opt_str(*o),
{
    match o {
        Some(s) => Some(s.clone()),
        None => None,
    }
}

/// The character for a digit below 16: `0` to `9`, then `a` to `f`.
pub open spec fn digit_char(d: nat) -> char {
    seq!['0', '1', '2', '3', '4', '5', '6', '7', '8', '9', 'a', 'b', 'c', 'd', 'e', 'f'][d as int]
}

/// The digits of `n` in a base between 2 and 16, most significant first,
/// without leading zeros; `0` is a single digit.
pub open spec fn digits(n: nat, base: nat) -> Seq<char>
    decreases n,
    via digits_decreases
{
    if base < 2 || n < base {
        seq![digit_char(n)]
    } else {
        digits(n / base, base).push(digit_char(n % base))
    }
}

#[via_fn]
proof fn digits_decreases(n: nat, base: nat) {
    if !(base < 2 || n < base) {
        assert(n / base < n) by (nonlinear_arith)
            requires
                base >= 2,
                n >= base,
        ;
    }
}

/// How a number below the base, and one not below it, divide by the base.
proof fn lemma_div_base(m: nat, base: nat)
    requires
        base >= 2,
    ensures
        m < base ==> m / base == 0 && m % base == m,
        m >= base ==> m / base > 0,
        m % base < base,
{
    assert(m < base ==> m / base == 0 && m % base == m) by (nonlinear_arith)
        requires
            base >= 2,
    ;
    assert(m >= base ==> m / base > 0) by (nonlinear_arith)
        requires
            base >= 2,
    ;
    assert(m % base < base) by (nonlinear_arith)
        requires
            base >= 2,
    ;
}

/// The character for a digit below 16.
fn digit(d: u64) -> (c: char)
    requires
        d < 16,
    ensures
        c == digit_char(d as nat),
{
    if d == 0 {
        '0'
    } else if d == 1 {
        '1'
    } else if d == 2 {
        '2'
    } else if d == 3 {
        '3'
    } else if d == 4 {
        '4'
    } else if d == 5 {
        '5'
    } else if d == 6 {
        '6'
    } else if d == 7 {
        '7'
    } else if d == 8 {
        '8'
    } else if d == 9 {
        '9'
    } else if d == 10 {
        'a'
    } else if d == 11 {
        'b'
    } else if d == 12 {
        'c'
    } else if d == 13 {
        'd'
    } else if d == 14 {
        'e'
    } else {
        'f'
    }
}

/// Appends the digits of `n` in the given base to `out`.
fn push_digits(out: &mut String, n: u64, base: u64)
    requires
        2 <= base <= 16,
    ensures
        final(out)@ == old(out)@ + digits(n as nat, base as nat),
{
    let mut low: Vec<char> = Vec::new();
    proof {
        lemma_div_base(n as nat, base as nat);
    }
    low.push(digit(n % base));
    let mut m: u64 = n / base;
    let ghost mut tail: Seq<char> = seq![digit_char((n % base) as nat)];
    assert(digits(n as nat, base as nat) =~= if m == 0 {
        tail
    } else {
        digits(m as nat, base as nat) + tail
    });
    while m > 0
        invariant
            2 <= base <= 16,
            low.len() == tail.len(),
            low.len() >= 1,
            forall|i: int| 0 <= i < low.len() ==> low@[i] == tail[tail.len() - 1 - i],
            digits(n as nat, base as nat) == if m == 0 {
                tail
            } else {
                digits(m as nat, base as nat) + tail
            },
        decreases m,
    {
        proof {
            lemma_div_base(m as nat, base as nat);
        }
        let c = digit(m % base);
        proof {
            let next = seq![c] + tail;
            assert(digits(m as nat, base as nat) + tail =~= if m / base == 0 {
                next
            } else {
                digits((m / base) as nat, base as nat) + next
            });
            assert forall|i: int| 0 <= i < low.len() + 1 implies low@.push(c)[i] == next[next.len()
                - 1 - i] by {
                if i < low.len() {
                    assert(next[next.len() - 1 - i] == tail[tail.len() - 1 - i]);
                }
            }
            tail = next;
        }
        low.push(c);
        m = m / base;
    }
    let ghost before = out@;
    let mut i: usize = low.len();
    while i > 0
        invariant
            i <= low.len(),
            low.len() == tail.len(),
            forall|k: int| 0 <= k < low.len() ==> low@[k] == tail[tail.len() - 1 - k],
            out@ == before + tail.take(low.len() - i),
        decreases i,
    {
        i -= 1;
        proof {
            assert(tail.take(low.len() - i) =~= tail.take(low.len() - i - 1).push(low@[i as int]));
        }
        out.push(low[i]);
    }
    assert(tail.take(low.len() as int) =~= tail);
}

/// `n` in decimal.
pub fn decimal(n: u64) -> (out: String)
    ensures
        out@ == digits(n as nat, 10),
{
    let mut out = String::new();
    push_digits(&mut out, n, 10);
    assert(Seq::<char>::empty() + digits(n as nat, 10) =~= digits(n as nat, 10));
    out
}

/// `n` in lower-case hexadecimal.
pub fn hex(n: u64) -> (out: String)
    ensures
        out@ == digits(n as nat, 16),
{
    let mut out = String::new();
    push_digits(&mut out, n, 16);
    assert(Seq::<char>::empty() + digits(n as nat, 16) =~= digits(n as nat, 16));
    out
}

/// Whether `a` comes before `b` in the order of strings: character by
/// character, by code point; a proper prefix comes first.
pub open spec fn before(a: Seq<char>, b: Seq<char>) -> bool
    decreases a.len(),
{
    if b.len() == 0 {
        false
    } else if a.len() == 0 {
        true
    } else if a[0] != b[0] {
        (a[0] as u32) < (b[0] as u32)
    } else {
        before(a.skip(1), b.skip(1))
    }
}

/// The order of strings is transitive.
pub proof fn lemma_before_transitive(a: Seq<char>, b: Seq<char>, c: Seq<char>)
    requires
        before(a, b),
        before(b, c),
    ensures
        before(a, c),
    decreases a.len(),
{
    if a.len() > 0 && a[0] == b[0] && b[0] == c[0] {
        lemma_before_transitive(a.skip(1), b.skip(1), c.skip(1));
    }
}

/// No string comes before itself.
pub proof fn lemma_before_irreflexive(a: Seq<char>)
    ensures
        !before(a, a),
    decreases a.len(),
{
    if a.len() > 0 {
        lemma_before_irreflexive(a.skip(1));
    }
}

/// Whether `a` comes before `b` in the order of strings.
pub fn precedes(a: &str, b: &str) -> (r: bool)
    ensures
        r == before(a@, b@),
{
    let x = chars_of(a);
    let y = chars_of(b);
    let mut i: usize = 0;
    assert(x@.skip(0) =~= x@ && y@.skip(0) =~= y@);
    while i < x.len() && i < y.len() && x[i] == y[i]
        invariant
            i <= x.len(),
            i <= y.len(),
            before(x@, y@) == before(x@.skip(i as int), y@.skip(i as int)),
        decreases x.len() - i,
    {
        proof {
            assert(x@.skip(i as int).skip(1) =~= x@.skip(i + 1));
            assert(y@.skip(i as int).skip(1) =~= y@.skip(i + 1));
        }
        i += 1;
    }
    if i >= y.len() {
        false
    } else if i >= x.len() {
        true
    } else {
        (x[i] as u32) < (y[i] as u32)
    }
}

} // verus!
