//! Verified string utilities for attribute-key construction: prefix and
//! substring tests, decimal rendering of counters, and dot-joining of
//! key-path segments.

use vstd::prelude::*;

verus! {

/// True exactly when `s` begins with `prefix`.
pub fn starts_with(s: &str, prefix: &str) -> (r: bool)
    ensures
        r == (s@.len() >= prefix@.len() && s@.subrange(0, prefix@.len() as int) == prefix@),
{
    let n = prefix.unicode_len();
    let m = s.unicode_len();
    if m < n {
        return false;
    }
    let mut i: usize = 0;
    while i < n
        invariant
            0 <= i <= n,
            n == prefix@.len(),
            m == s@.len(),
            m >= n,
            forall|j: int| 0 <= j < i ==> s@[j] == prefix@[j],
        decreases n - i,
    {
        if s.get_char(i) != prefix.get_char(i) {
            assert(s@.subrange(0, prefix@.len() as int)[i as int] != prefix@[i as int]);
            return false;
        }
        i += 1;
    }
    assert(s@.subrange(0, prefix@.len() as int) =~= prefix@);
    true
}

/// True exactly when the two string slices hold the same characters.
pub fn str_eq(a: &str, b: &str) -> (r: bool)
    ensures
        r == (a@ == b@),
{
    let n = a.unicode_len();
    if b.unicode_len() != n {
        return false;
    }
    let mut i: usize = 0;
    while i < n
        invariant
            0 <= i <= n,
            n == a@.len() == b@.len(),
            forall|j: int| 0 <= j < i ==> a@[j] == b@[j],
        decreases n - i,
    {
        if a.get_char(i) != b.get_char(i) {
            return false;
        }
        i += 1;
    }
    assert(a@ =~= b@);
    true
}

/// True exactly when `s` is non-empty and begins with the character `c`.
pub fn first_char_is(s: &str, c: char) -> (r: bool)
    ensures
        r == (s@.len() > 0 && s@[0] == c),
{
    if s.is_empty() {
        false
    } else {
        s.get_char(0) == c
    }
}

/// True exactly when `s` is non-empty and ends with the character `c`.
pub fn last_char_is(s: &str, c: char) -> (r: bool)
    ensures
        r == (s@.len() > 0 && s@[s@.len() - 1] == c),
{
    let n = s.unicode_len();
    if n == 0 {
        false
    } else {
        s.get_char(n - 1) == c
    }
}

/// What it means for `hay` to contain `needle` as a contiguous run.
pub open spec fn contains_seq(hay: Seq<char>, needle: Seq<char>) -> bool {
    exists|i: int|
        0 <= i && i + needle.len() <= hay.len() && #[trigger] hay.subrange(
            i,
            i + needle.len() as int,
        ) == needle
}

/// True exactly when `needle` occurs somewhere inside `hay`.
pub fn contains_sub(hay: &str, needle: &str) -> (r: bool)
    ensures
        r == contains_seq(hay@, needle@),
{
    let n = needle.unicode_len();
    let m = hay.unicode_len();
    if n > m {
        return false;
    }
    if n == 0 {
        assert(contains_seq(hay@, needle@)) by {
            assert(hay@.subrange(0, 0 + needle@.len() as int) =~= needle@);
        }
        return true;
    }
    let mut start: usize = 0;
    while start <= m - n
        invariant
            0 <= start <= m - n + 1,
            0 < n <= m,
            n == needle@.len(),
            m == hay@.len(),
            forall|i: int|
                0 <= i < start ==> #[trigger] hay@.subrange(i, i + needle@.len() as int)
                    != needle@,
        decreases m - start,
    {
        let mut j: usize = 0;
        let mut matched = true;
        while j < n
            invariant
                0 <= j <= n,
                n == needle@.len(),
                m == hay@.len(),
                start + n <= m,
                matched ==> forall|k: int| 0 <= k < j ==> hay@[start + k] == needle@[k],
                !matched ==> exists|k: int|
                    0 <= k < needle@.len() && #[trigger] hay@[start + k] != needle@[k],
            decreases n - j,
        {
            if hay.get_char(start + j) != needle.get_char(j) {
                assert(hay@[start + j] != needle@[j as int]);
                matched = false;
                j = n;
            } else {
                j += 1;
            }
        }
        if matched {
            assert(hay@.subrange(start as int, start + needle@.len() as int) =~= needle@);
            return true;
        } else {
            assert(hay@.subrange(start as int, start + needle@.len() as int) != needle@) by {
                assert(exists|k: int|
                    0 <= k < needle@.len() && hay@[start + k] != needle@[k]);
                let k = choose|k: int|
                    0 <= k < needle@.len() && hay@[start + k] != needle@[k];
                assert(hay@.subrange(start as int, start + needle@.len() as int)[k] != needle@[k]);
            }
        }
        start += 1;
    }
    false
}

/// The decimal digits of `n`, most significant first.
pub open spec fn decimal_str(n: nat) -> Seq<char>
    decreases n,
{
    if n < 10 {
        seq![digit_char(n)]
    } else {
        decimal_str(n / 10).push(digit_char(n % 10))
    }
}

/// The character for a single decimal digit.
pub open spec fn digit_char(n: nat) -> char {
    if n == 0 {
        '0'
    } else if n == 1 {
        '1'
    } else if n == 2 {
        '2'
    } else if n == 3 {
        '3'
    } else if n == 4 {
        '4'
    } else if n == 5 {
        '5'
    } else if n == 6 {
        '6'
    } else if n == 7 {
        '7'
    } else if n == 8 {
        '8'
    } else {
        '9'
    }
}

/// A one-character string slice for a single decimal digit.
fn digit_str(d: u64) -> (r: &'static str)
    requires
        d < 10,
    ensures
        r@ =~= seq![digit_char(d as nat)],
{
    proof {
        reveal_strlit("0");
        reveal_strlit("1");
        reveal_strlit("2");
        reveal_strlit("3");
        reveal_strlit("4");
        reveal_strlit("5");
        reveal_strlit("6");
        reveal_strlit("7");
        reveal_strlit("8");
        reveal_strlit("9");
    }
    if d == 0 {
        "0"
    } else if d == 1 {
        "1"
    } else if d == 2 {
        "2"
    } else if d == 3 {
        "3"
    } else if d == 4 {
        "4"
    } else if d == 5 {
        "5"
    } else if d == 6 {
        "6"
    } else if d == 7 {
        "7"
    } else if d == 8 {
        "8"
    } else {
        "9"
    }
}

/// Appends the decimal rendering of `v` to `out`.
pub fn push_decimal(v: u64, out: &mut String)
    ensures
        final(out)@ == old(out)@ + decimal_str(v as nat),
    decreases v,
{
    if v >= 10 {
        push_decimal(v / 10, out);
    }
    out.append(digit_str(v % 10));
}

/// The segments joined by a single `.` between neighbours.
pub open spec fn join_dot(segs: Seq<Seq<char>>) -> Seq<char>
    decreases segs.len(),
{
    if segs.len() == 0 {
        Seq::empty()
    } else if segs.len() == 1 {
        segs[0]
    } else {
        join_dot(segs.drop_last()) + "."@ + segs.last()
    }
}

/// The segments that are not empty, in order.
pub open spec fn nonempty_segs(segs: Seq<Seq<char>>) -> Seq<Seq<char>> {
    segs.filter(|s: Seq<char>| s.len() > 0)
}

/// The fully qualified attribute key: the non-empty stack segments, then
/// `suffix`, joined by `.`.
pub open spec fn full_key(stack: Seq<Seq<char>>, suffix: Seq<char>) -> Seq<char> {
    join_dot(nonempty_segs(stack).push(suffix))
}

proof fn lemma_nonempty_segs_push(s: Seq<Seq<char>>, x: Seq<char>)
    ensures
        nonempty_segs(s.push(x)) == if x.len() > 0 {
            nonempty_segs(s).push(x)
        } else {
            nonempty_segs(s)
        },
{
    reveal(Seq::filter);
    assert(s.push(x).drop_last() =~= s);
}

proof fn lemma_join_dot_push(segs: Seq<Seq<char>>, x: Seq<char>)
    ensures
        join_dot(segs.push(x)) == if segs.len() == 0 {
            x
        } else {
            join_dot(segs) + "."@ + x
        },
{
    assert(segs.push(x).drop_last() =~= segs);
    if segs.len() == 0 {
        assert(join_dot(segs.push(x)) == segs.push(x)[0]);
    }
}

/// Joins the non-empty entries of `stack`, then `suffix`, with `.`.
pub fn join_key(stack: &Vec<String>, suffix: &str) -> (r: String)
    ensures
        r@ == full_key(stack.deep_view(), suffix@),
{
    let ghost all: Seq<Seq<char>> = stack.deep_view();
    let mut r = String::new();
    let mut any = false;
    let mut i: usize = 0;
    while i < stack.len()
        invariant
            0 <= i <= stack.len(),
            all == stack.deep_view(),
            all.len() == stack.len(),
            forall|j: int| 0 <= j < all.len() ==> all[j] == stack@[j]@,
            any == (nonempty_segs(all.take(i as int)).len() > 0),
            r@ == join_dot(nonempty_segs(all.take(i as int))),
        decreases stack.len() - i,
    {
        let ghost pre = nonempty_segs(all.take(i as int));
        proof {
            assert(all.take(i + 1).drop_last() =~= all.take(i as int));
            assert(all.take(i + 1) =~= all.take(i as int).push(all[i as int]));
            lemma_nonempty_segs_push(all.take(i as int), all[i as int]);
        }
        let seg = &stack[i];
        if !seg.as_str().is_empty() {
            proof {
                lemma_join_dot_push(pre, all[i as int]);
            }
            if any {
                r.append(".");
            }
            r.append(seg.as_str());
            any = true;
        }
        i += 1;
    }
    proof {
        assert(all.take(all.len() as int) =~= all);
        lemma_join_dot_push(nonempty_segs(all), suffix@);
    }
    if any {
        r.append(".");
    }
    r.append(suffix);
    r
}

/// Holds no `.` anywhere.
pub open spec fn dot_free(s: Seq<char>) -> bool {
    forall|i: int| 0 <= i < s.len() ==> s[i] != '.'
}

/// Position `i` holds the last `.` of `s`.
pub open spec fn is_last_dot(s: Seq<char>, i: int) -> bool {
    0 <= i < s.len() && s[i] == '.' && (forall|j: int| i < j < s.len() ==> s[j] != '.')
}

/// Splitting on the last `.`: a dot-free string is one segment; otherwise
/// the segments of everything before the last `.`, then everything after it.
pub open spec fn split_dot(s: Seq<char>) -> Seq<Seq<char>>
    decreases s.len(),
{
    if exists|i: int| is_last_dot(s, i) {
        let i = choose|i: int| is_last_dot(s, i);
        split_dot(s.subrange(0, i)).push(s.subrange(i + 1, s.len() as int))
    } else {
        seq![s]
    }
}

/// The last dot's position is unique.
proof fn lemma_last_dot_unique(s: Seq<char>, a: int, b: int)
    requires
        is_last_dot(s, a),
        is_last_dot(s, b),
    ensures
        a == b,
{
    if a < b {
        assert(s[b] == '.');
    }
    if b < a {
        assert(s[a] == '.');
    }
}

/// Key paths round-trip: joining non-empty, dot-free segments with `.` and
/// re-parsing by splitting on `.` recovers exactly the original segments —
/// their count (the nesting depth, plus the prefix components) and their
/// order. Flattened attribute keys are exactly such joins of the key-path
/// components the traversal pushed, one per nesting level in sibling order,
/// so re-parsing a flattened key recovers the nesting depth and order of the
/// fields on its path.
pub proof fn lemma_split_join_round_trip(segs: Seq<Seq<char>>)
    requires
        segs.len() > 0,
        forall|i: int| 0 <= i < segs.len() ==> (#[trigger] segs[i]).len() > 0,
        forall|i: int| 0 <= i < segs.len() ==> dot_free(#[trigger] segs[i]),
    ensures
        split_dot(join_dot(segs)) == segs,
    decreases segs.len(),
{
    let s = join_dot(segs);
    if segs.len() == 1 {
        assert(s == segs[0]);
        assert(forall|i: int| !is_last_dot(s, i)) by {
            assert(dot_free(s));
        }
        assert(split_dot(s) =~= segs);
    } else {
        let dl = segs.drop_last();
        let last = segs.last();
        let pre = join_dot(dl);
        assert(s == pre + "."@ + last);
        reveal_strlit(".");
        assert("."@.len() == 1);
        assert("."@[0] == '.');
        let di = pre.len() as int;
        assert(s[di] == '.');
        assert(forall|j: int| di < j < s.len() ==> s[j] == last[j - di - 1]);
        assert(forall|j: int| di < j < s.len() ==> s[j] != '.');
        assert(is_last_dot(s, di));
        let i = choose|i: int| is_last_dot(s, i);
        lemma_last_dot_unique(s, i, di);
        assert(s.subrange(0, di) =~= pre);
        assert(s.subrange(di + 1, s.len() as int) =~= last);
        lemma_split_join_round_trip(dl);
        assert(split_dot(s) == split_dot(pre).push(last));
        assert(split_dot(s) =~= segs);
    }
}

/// A flattened attribute key splits back into its path: the fully qualified
/// key of a scalar is `full_key(stack, suffix)` — the non-empty key-path
/// components on the stack (the prefix, then one resolved structure name per
/// nesting level, in sibling order) joined with `.`, then the leaf's
/// resolved name. When the components are dot-free (field names never
/// contain `.`, and synthesized anonymous names are dot-free too), splitting
/// the key on `.` recovers exactly those components — and with them the
/// nesting depth and the order of the fields on the leaf's path.
pub proof fn lemma_flattened_key_recovers_path(stack: Seq<Seq<char>>, suffix: Seq<char>)
    requires
        suffix.len() > 0,
        dot_free(suffix),
        forall|i: int| 0 <= i < stack.len() ==> dot_free(#[trigger] stack[i]),
    ensures
        split_dot(full_key(stack, suffix)) == nonempty_segs(stack).push(suffix),
{
    let segs = nonempty_segs(stack).push(suffix);
    assert forall|i: int| 0 <= i < segs.len() implies (#[trigger] segs[i]).len() > 0 && dot_free(
        segs[i],
    ) by {
        if i < nonempty_segs(stack).len() {
            stack.lemma_filter_pred(|s: Seq<char>| s.len() > 0, i);
            lemma_nonempty_segs_elems(stack, i);
            let j = choose|j: int| 0 <= j < stack.len() && stack[j] == nonempty_segs(stack)[i];
            assert(dot_free(stack[j]));
        }
    }
    lemma_split_join_round_trip(segs);
}

/// Every filtered segment comes from the original stack.
proof fn lemma_nonempty_segs_elems(stack: Seq<Seq<char>>, i: int)
    requires
        0 <= i < nonempty_segs(stack).len(),
    ensures
        exists|j: int| 0 <= j < stack.len() && stack[j] == nonempty_segs(stack)[i],
    decreases stack.len(),
{
    reveal(Seq::filter);
    if stack.len() > 0 {
        let dl = stack.drop_last();
        let fdl = nonempty_segs(dl);
        if i < fdl.len() {
            lemma_nonempty_segs_elems(dl, i);
            let j = choose|j: int| 0 <= j < dl.len() && dl[j] == nonempty_segs(dl)[i];
            assert(stack[j] == dl[j]);
            assert(stack[j] == nonempty_segs(stack)[i]);
        } else {
            assert(stack[stack.len() - 1] == nonempty_segs(stack)[i]);
        }
    }
}

/// Decimal renderings are non-empty and never contain `.`, so a counter
/// rendered into a synthesized key never adds a path separator.
pub proof fn lemma_decimal_str_dot_free(n: nat)
    ensures
        decimal_str(n).len() > 0,
        dot_free(decimal_str(n)),
    decreases n,
{
    if n >= 10 {
        lemma_decimal_str_dot_free(n / 10);
        assert forall|i: int| 0 <= i < decimal_str(n).len() implies decimal_str(n)[i] != '.' by {
            if i < decimal_str(n / 10).len() {
                assert(decimal_str(n)[i] == decimal_str(n / 10)[i]);
            }
        }
    }
}

/// The decimal rendering of `v` as a fresh string.
pub fn u64_to_string(v: u64) -> (r: String)
    ensures
        r@ == decimal_str(v as nat),
{
    let mut out = String::new();
    push_decimal(v, &mut out);
    proof {
        assert(out@ =~= decimal_str(v as nat));
    }
    out
}

} // verus!
