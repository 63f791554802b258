//! Verified character-sequence utilities.
//!
//! All structural string work in this crate (searching, splitting,
//! trimming, removing) is done on `Vec<char>` values whose views are
//! `Seq<char>`, so that every operation has an exact specification.

use vstd::prelude::*;

verus! {

// --- locating a character ---

/// Index of the first occurrence of `c` in `s` at or after `i`.
pub open spec fn find_ch_from(s: Seq<char>, c: char, i: int) -> Option<int>
    decreases s.len() - i,
{
    if !(0 <= i < s.len()) {
        None
    } else if s[i] == c {
        Some(i)
    } else {
        find_ch_from(s, c, i + 1)
    }
}

/// Index of the first occurrence of `c` in `s`.
pub open spec fn find_ch(s: Seq<char>, c: char) -> Option<int> {
    find_ch_from(s, c, 0)
}

pub proof fn lemma_find_ch_from_props(s: Seq<char>, c: char, i: int)
    ensures
        match find_ch_from(s, c, i) {
            Some(j) => i <= j < s.len() && s[j] == c,
            None => true,
        },
    decreases s.len() - i,
{
    if 0 <= i < s.len() && s[i] != c {
        lemma_find_ch_from_props(s, c, i + 1);
    }
}

pub fn find_char(s: &Vec<char>, c: char) -> (r: Option<usize>)
    ensures
        match r {
            Some(j) => find_ch(s@, c) == Some(j as int) && j < s@.len() && s@[j as int] == c,
            None => find_ch(s@, c) is None,
        },
{
    let mut i: usize = 0;
    while i < s.len()
        invariant
            i <= s@.len(),
            find_ch_from(s@, c, 0) == find_ch_from(s@, c, i as int),
        decreases s@.len() - i,
    {
        if s[i] == c {
            assert(find_ch_from(s@, c, i as int) == Some(i as int));
            return Some(i);
        }
        i = i + 1;
    }
    None
}

// --- counting a character ---

/// Number of occurrences of `c` among the first `i` characters of `s`.
pub open spec fn count_ch_upto(s: Seq<char>, c: char, i: int) -> nat
    decreases i,
{
    if i <= 0 {
        0
    } else {
        count_ch_upto(s, c, i - 1) + (if s[i - 1] == c {
            1nat
        } else {
            0nat
        })
    }
}

pub open spec fn count_ch(s: Seq<char>, c: char) -> nat {
    count_ch_upto(s, c, s.len() as int)
}

pub fn count_char(s: &Vec<char>, c: char) -> (n: usize)
    ensures
        n == count_ch(s@, c),
{
    let mut n: usize = 0;
    let mut i: usize = 0;
    while i < s.len()
        invariant
            i <= s@.len(),
            n <= i,
            n == count_ch_upto(s@, c, i as int),
        decreases s@.len() - i,
    {
        if s[i] == c {
            n = n + 1;
        }
        i = i + 1;
    }
    n
}

// --- equality ---

pub fn chars_eq(a: &Vec<char>, b: &Vec<char>) -> (r: bool)
    ensures
        r == (a@ == b@),
{
    if a.len() != b.len() {
        return false;
    }
    let mut i: usize = 0;
    while i < a.len()
        invariant
            a@.len() == b@.len(),
            i <= a@.len(),
            forall|k: int| 0 <= k < i ==> a@[k] == b@[k],
        decreases a@.len() - i,
    {
        if a[i] != b[i] {
            return false;
        }
        i = i + 1;
    }
    proof {
        assert(a@ =~= b@);
    }
    true
}

/// Equality of two string slices, decided character by character.
pub fn str_eq(a: &str, b: &str) -> (r: bool)
    ensures
        r == (a@ == b@),
{
    let ac = to_chars(a);
    let bc = to_chars(b);
    chars_eq(&ac, &bc)
}

// --- locating a subsequence ---

/// `n` occurs in `h` starting at index `i`.
pub open spec fn occurs_at(h: Seq<char>, n: Seq<char>, i: int) -> bool {
    0 <= i && i + n.len() <= h.len() && h.subrange(i, i + n.len() as int) == n
}

/// Index of the first occurrence of `n` in `h` at or after `i`.
pub open spec fn find_sub_from(h: Seq<char>, n: Seq<char>, i: int) -> Option<int>
    decreases h.len() - i,
{
    if n.len() == 0 || !(0 <= i && i + n.len() <= h.len()) {
        None
    } else if occurs_at(h, n, i) {
        Some(i)
    } else {
        find_sub_from(h, n, i + 1)
    }
}

pub open spec fn find_sub(h: Seq<char>, n: Seq<char>) -> Option<int> {
    find_sub_from(h, n, 0)
}

pub open spec fn has_sub(h: Seq<char>, n: Seq<char>) -> bool {
    find_sub(h, n) is Some
}

pub proof fn lemma_find_sub_from_props(h: Seq<char>, n: Seq<char>, i: int)
    ensures
        match find_sub_from(h, n, i) {
            Some(j) => i <= j && occurs_at(h, n, j),
            None => true,
        },
    decreases h.len() - i,
{
    if n.len() > 0 && 0 <= i && i + n.len() <= h.len() && !occurs_at(h, n, i) {
        lemma_find_sub_from_props(h, n, i + 1);
    }
}

/// Whether `n` occurs in `h` at position `i`, checked character by character.
pub fn matches_at(h: &Vec<char>, n: &Vec<char>, i: usize) -> (r: bool)
    requires
        i + n@.len() <= h@.len(),
    ensures
        r == occurs_at(h@, n@, i as int),
{
    let hl: usize = h.len();
    let mut j: usize = 0;
    while j < n.len()
        invariant
            i + n@.len() <= h@.len(),
            hl == h@.len(),
            j <= n@.len(),
            forall|k: int| 0 <= k < j ==> h@[i + k] == n@[k],
        decreases n@.len() - j,
    {
        proof {
            assert(i + j < h@.len());
        }
        if h[i + j] != n[j] {
            proof {
                assert(h@.subrange(i as int, i + n@.len() as int)[j as int] == h@[i + j]);
            }
            return false;
        }
        j = j + 1;
    }
    proof {
        assert(h@.subrange(i as int, i + n@.len() as int) =~= n@);
    }
    true
}

pub fn find_subseq(h: &Vec<char>, n: &Vec<char>) -> (r: Option<usize>)
    ensures
        match r {
            Some(j) => find_sub(h@, n@) == Some(j as int) && occurs_at(h@, n@, j as int),
            None => find_sub(h@, n@) is None,
        },
{
    if n.len() == 0 || n.len() > h.len() {
        return None;
    }
    let mut i: usize = 0;
    let last = h.len() - n.len();
    while i <= last
        invariant
            1 <= n@.len() <= h@.len(),
            h@.len() <= usize::MAX,
            last == h@.len() - n@.len(),
            i <= last + 1,
            find_sub_from(h@, n@, 0) == find_sub_from(h@, n@, i as int),
        decreases last - i + 1,
    {
        if matches_at(h, n, i) {
            assert(find_sub_from(h@, n@, i as int) == Some(i as int));
            return Some(i);
        }
        i = i + 1;
    }
    None
}

pub fn has_subseq(h: &Vec<char>, n: &Vec<char>) -> (r: bool)
    ensures
        r == has_sub(h@, n@),
{
    find_subseq(h, n).is_some()
}

// --- building blocks: subranges and concatenation ---

pub fn sub_chars(s: &Vec<char>, a: usize, b: usize) -> (r: Vec<char>)
    requires
        a <= b <= s@.len(),
    ensures
        r@ == s@.subrange(a as int, b as int),
{
    let mut r: Vec<char> = Vec::new();
    let mut k: usize = a;
    while k < b
        invariant
            a <= k <= b <= s@.len(),
            r@ == s@.subrange(a as int, k as int),
        decreases b - k,
    {
        r.push(s[k]);
        proof {
            assert(s@.subrange(a as int, k + 1) =~= s@.subrange(a as int, k as int).push(
                s@[k as int],
            ));
        }
        k = k + 1;
    }
    r
}

pub fn concat_chars(a: &Vec<char>, b: &Vec<char>) -> (r: Vec<char>)
    ensures
        r@ == a@ + b@,
{
    let mut r: Vec<char> = Vec::new();
    let mut i: usize = 0;
    while i < a.len()
        invariant
            i <= a@.len(),
            r@ == a@.subrange(0, i as int),
        decreases a@.len() - i,
    {
        r.push(a[i]);
        proof {
            assert(a@.subrange(0, i + 1) =~= a@.subrange(0, i as int).push(a@[i as int]));
        }
        i = i + 1;
    }
    let mut j: usize = 0;
    while j < b.len()
        invariant
            j <= b@.len(),
            r@ == a@ + b@.subrange(0, j as int),
        decreases b@.len() - j,
    {
        proof {
            assert(a@ + b@.subrange(0, j + 1) =~= (a@ + b@.subrange(0, j as int)).push(
                b@[j as int],
            ));
        }
        r.push(b[j]);
        j = j + 1;
    }
    proof {
        assert(a@.subrange(0, a@.len() as int) =~= a@);
        assert(b@.subrange(0, b@.len() as int) =~= b@);
        assert(a@ + b@.subrange(0, b@.len() as int) =~= a@ + b@);
    }
    r
}

// --- conversions between strings and character vectors ---

pub fn to_chars(s: &str) -> (r: Vec<char>)
    ensures
        r@ == s@,
{
    let n = s.unicode_len();
    let mut r: Vec<char> = Vec::new();
    let mut i: usize = 0;
    while i < n
        invariant
            n == s@.len(),
            i <= n,
            r@ == s@.subrange(0, i as int),
        decreases n - i,
    {
        r.push(s.get_char(i));
        proof {
            assert(s@.subrange(0, i + 1) =~= s@.subrange(0, i as int).push(s@[i as int]));
        }
        i = i + 1;
    }
    proof {
        assert(s@.subrange(0, s@.len() as int) =~= s@);
    }
    r
}

/// Relies on `String`'s `FromIterator` impl: collecting characters
/// yields the string of exactly those characters, in order.
#[verifier::external_body]
pub fn chars_to_string(v: &Vec<char>) -> (r: String)
    ensures
        r@ == v@,
{
    v.iter().collect()
}

// --- removing characters and subsequences ---

/// `s` restricted to its first `i` characters, with every `c` removed.
pub open spec fn remove_ch_upto(s: Seq<char>, c: char, i: int) -> Seq<char>
    decreases i,
{
    if i <= 0 {
        Seq::empty()
    } else {
        remove_ch_upto(s, c, i - 1) + (if s[i - 1] == c {
            Seq::<char>::empty()
        } else {
            seq![s[i - 1]]
        })
    }
}

/// `s` with every occurrence of `c` removed.
pub open spec fn remove_ch(s: Seq<char>, c: char) -> Seq<char> {
    remove_ch_upto(s, c, s.len() as int)
}

pub fn remove_char(s: &Vec<char>, c: char) -> (r: Vec<char>)
    ensures
        r@ == remove_ch(s@, c),
{
    let mut r: Vec<char> = Vec::new();
    let mut i: usize = 0;
    while i < s.len()
        invariant
            i <= s@.len(),
            r@ == remove_ch_upto(s@, c, i as int),
        decreases s@.len() - i,
    {
        if s[i] != c {
            r.push(s[i]);
            proof {
                assert(remove_ch_upto(s@, c, i + 1) =~= remove_ch_upto(s@, c, i as int).push(
                    s@[i as int],
                ));
            }
        } else {
            proof {
                assert(remove_ch_upto(s@, c, i + 1) =~= remove_ch_upto(s@, c, i as int));
            }
        }
        i = i + 1;
    }
    r
}

/// `s` with the first occurrence of `c` (if any) removed.
pub open spec fn remove_first_ch(s: Seq<char>, c: char) -> Seq<char> {
    match find_ch(s, c) {
        Some(i) => s.subrange(0, i) + s.subrange(i + 1, s.len() as int),
        None => s,
    }
}

pub fn remove_first_char(s: &Vec<char>, c: char) -> (r: Vec<char>)
    ensures
        r@ == remove_first_ch(s@, c),
{
    let sl = s.len();
    match find_char(s, c) {
        Some(i) => {
            let before = sub_chars(s, 0, i);
            let after = sub_chars(s, i + 1, sl);
            concat_chars(&before, &after)
        },
        None => sub_chars(s, 0, sl),
    }
}

/// `h` with every (left-most, non-overlapping) occurrence of `n` removed.
pub open spec fn remove_all_sub(h: Seq<char>, n: Seq<char>) -> Seq<char>
    decreases h.len(),
{
    if n.len() == 0 || h.len() == 0 {
        h
    } else if occurs_at(h, n, 0) {
        remove_all_sub(h.skip(n.len() as int), n)
    } else {
        seq![h[0]] + remove_all_sub(h.skip(1), n)
    }
}

pub fn remove_all_subseq(h: &Vec<char>, n: &Vec<char>) -> (r: Vec<char>)
    ensures
        r@ == remove_all_sub(h@, n@),
{
    let hl = h.len();
    if n.len() == 0 {
        let r = sub_chars(h, 0, hl);
        proof {
            assert(h@.subrange(0, h@.len() as int) =~= h@);
        }
        return r;
    }
    let mut out: Vec<char> = Vec::new();
    let mut i: usize = 0;
    proof {
        assert(h@.skip(0) =~= h@);
        assert(out@ + remove_all_sub(h@, n@) =~= remove_all_sub(h@, n@));
    }
    while i < h.len()
        invariant
            1 <= n@.len(),
            h@.len() <= usize::MAX,
            i <= h@.len(),
            remove_all_sub(h@, n@) == out@ + remove_all_sub(h@.skip(i as int), n@),
        decreases h@.len() - i,
    {
        let ghost cur = h@.skip(i as int);
        if n.len() <= h.len() - i && matches_at(h, n, i) {
            proof {
                assert(cur.subrange(0, n@.len() as int) =~= h@.subrange(i as int, i + n@.len()));
                assert(occurs_at(cur, n@, 0));
                assert(cur.skip(n@.len() as int) =~= h@.skip(i + n@.len()));
                assert(out@ + remove_all_sub(cur, n@) == out@ + remove_all_sub(
                    h@.skip(i + n@.len()),
                    n@,
                ));
            }
            i = i + n.len();
        } else {
            proof {
                if n@.len() <= h@.len() - i {
                    assert(cur.subrange(0, n@.len() as int) =~= h@.subrange(
                        i as int,
                        i + n@.len(),
                    ));
                    assert(!occurs_at(cur, n@, 0));
                } else {
                    assert(!occurs_at(cur, n@, 0));
                }
                assert(cur[0] == h@[i as int]);
                assert(cur.skip(1) =~= h@.skip(i + 1));
                assert(out@ + remove_all_sub(cur, n@) =~= out@.push(h@[i as int])
                    + remove_all_sub(h@.skip(i + 1), n@));
            }
            out.push(h[i]);
            i = i + 1;
        }
    }
    proof {
        assert(h@.skip(h@.len() as int) =~= Seq::<char>::empty());
        assert(out@ + remove_all_sub(h@.skip(i as int), n@) =~= out@);
    }
    out
}

// --- splitting ---

/// The pieces of `s` between occurrences of the separator `c`.
/// Always has one more piece than there are separators.
pub open spec fn split_ch(s: Seq<char>, c: char) -> Seq<Seq<char>>
    decreases s.len(),
    via split_ch_decreases
{
    match find_ch(s, c) {
        Some(i) => seq![s.subrange(0, i)] + split_ch(s.subrange(i + 1, s.len() as int), c),
        None => seq![s],
    }
}

#[via_fn]
proof fn split_ch_decreases(s: Seq<char>, c: char) {
    lemma_find_ch_from_props(s, c, 0);
}

pub proof fn lemma_split_ch_nonempty(s: Seq<char>, c: char)
    ensures
        split_ch(s, c).len() >= 1,
    decreases s.len(),
{
    lemma_find_ch_from_props(s, c, 0);
}

pub fn split_char(s: &Vec<char>, c: char) -> (r: Vec<Vec<char>>)
    ensures
        r@.len() == split_ch(s@, c).len(),
        forall|k: int| 0 <= k < r@.len() ==> #[trigger] r@[k]@ == split_ch(s@, c)[k],
{
    let mut parts: Vec<Vec<char>> = Vec::new();
    let mut cur: Vec<char> = sub_chars(s, 0, s.len());
    proof {
        assert(s@.subrange(0, s@.len() as int) =~= s@);
    }
    loop
        invariant
            split_ch(s@, c).len() == parts@.len() + split_ch(cur@, c).len(),
            forall|k: int|
                0 <= k < parts@.len() ==> #[trigger] parts@[k]@ == split_ch(s@, c)[k],
            forall|k: int|
                0 <= k < split_ch(cur@, c).len() ==> #[trigger] split_ch(cur@, c)[k] == split_ch(
                    s@,
                    c,
                )[parts@.len() + k],
        decreases cur@.len(),
    {
        let cl = cur.len();
        match find_char(&cur, c) {
            Some(i) => {
                let piece = sub_chars(&cur, 0, i);
                let rest = sub_chars(&cur, i + 1, cl);
                let ghost old_parts = parts@;
                let ghost old_cur = cur@;
                proof {
                    assert(split_ch(old_cur, c) == seq![old_cur.subrange(0, i as int)]
                        + split_ch(rest@, c));
                    lemma_split_ch_nonempty(rest@, c);
                    assert(split_ch(old_cur, c)[0] == piece@);
                }
                parts.push(piece);
                cur = rest;
                proof {
                    assert forall|k: int| 0 <= k < parts@.len() implies #[trigger] parts@[k]@
                        == split_ch(s@, c)[k] by {
                        if k < old_parts.len() {
                            assert(parts@[k] == old_parts[k]);
                        } else {
                            assert(parts@[k] == piece);
                            assert(split_ch(old_cur, c)[0] == split_ch(s@, c)[
                                old_parts.len() as int]);
                        }
                    }
                    assert forall|k: int| 0 <= k < split_ch(cur@, c).len() implies #[trigger]
                        split_ch(cur@, c)[k] == split_ch(s@, c)[parts@.len() + k] by {
                        assert(split_ch(cur@, c)[k] == split_ch(old_cur, c)[k + 1]);
                        assert(split_ch(old_cur, c)[k + 1] == split_ch(s@, c)[old_parts.len() + k
                            + 1]);
                    }
                }
            },
            None => {
                let ghost old_parts = parts@;
                let ghost old_cur = cur@;
                proof {
                    assert(split_ch(old_cur, c) =~= seq![old_cur]);
                    assert(split_ch(old_cur, c)[0] == split_ch(s@, c)[old_parts.len() as int]);
                }
                parts.push(cur);
                proof {
                    assert forall|k: int| 0 <= k < parts@.len() implies #[trigger] parts@[k]@
                        == split_ch(s@, c)[k] by {
                        if k < old_parts.len() {
                            assert(parts@[k] == old_parts[k]);
                        } else {
                            assert(parts@[k]@ == old_cur);
                        }
                    }
                }
                return parts;
            },
        }
    }
}

// --- trimming ---

pub open spec fn is_space(c: char) -> bool {
    c == ' ' || c == '\t' || c == '\n' || c == '\r'
}

pub open spec fn trim_left(s: Seq<char>) -> Seq<char>
    decreases s.len(),
{
    if s.len() > 0 && is_space(s[0]) {
        trim_left(s.skip(1))
    } else {
        s
    }
}

pub open spec fn trim_right(s: Seq<char>) -> Seq<char>
    decreases s.len(),
{
    if s.len() > 0 && is_space(s[s.len() - 1]) {
        trim_right(s.take(s.len() - 1))
    } else {
        s
    }
}

/// `s` with the spaces on both ends removed.
pub open spec fn trimmed(s: Seq<char>) -> Seq<char> {
    trim_right(trim_left(s))
}

fn space_char(c: char) -> (r: bool)
    ensures
        r == is_space(c),
{
    c == ' ' || c == '\t' || c == '\n' || c == '\r'
}

pub fn trim_chars(s: &Vec<char>) -> (r: Vec<char>)
    ensures
        r@ == trimmed(s@),
{
    let mut a: usize = 0;
    proof {
        assert(s@.skip(0) =~= s@);
    }
    while a < s.len() && space_char(s[a])
        invariant
            a <= s@.len(),
            trim_left(s@) == trim_left(s@.skip(a as int)),
        decreases s@.len() - a,
    {
        proof {
            assert(s@.skip(a as int).skip(1) =~= s@.skip(a + 1));
        }
        a = a + 1;
    }
    proof {
        assert(trim_left(s@) == s@.skip(a as int));
    }
    let mut b: usize = s.len();
    while b > a && space_char(s[b - 1])
        invariant
            a <= b <= s@.len(),
            trim_left(s@) == s@.skip(a as int),
            trim_right(s@.skip(a as int)) == trim_right(s@.subrange(a as int, b as int)),
        decreases b,
    {
        proof {
            assert(s@.subrange(a as int, b as int).take(b - a - 1) =~= s@.subrange(
                a as int,
                b - 1,
            ));
            assert(s@.subrange(a as int, b as int)[b - a - 1] == s@[b - 1]);
        }
        b = b - 1;
    }
    proof {
        if b > a {
            assert(s@.subrange(a as int, b as int)[b - a - 1] == s@[b - 1]);
        }
        assert(trim_right(s@.subrange(a as int, b as int)) == s@.subrange(a as int, b as int));
    }
    sub_chars(s, a, b)
}

// --- ASCII lower-casing ---

pub open spec fn lower_ch(c: char) -> char {
    if 'A' <= c && c <= 'Z' {
        (((c as u32) + 32) as u8) as char
    } else {
        c
    }
}

pub open spec fn lower_all(s: Seq<char>) -> Seq<char> {
    s.map_values(|c: char| lower_ch(c))
}

pub fn lower_chars(s: &Vec<char>) -> (r: Vec<char>)
    ensures
        r@ == lower_all(s@),
{
    let mut r: Vec<char> = Vec::new();
    let mut i: usize = 0;
    while i < s.len()
        invariant
            i <= s@.len(),
            r@ == lower_all(s@.subrange(0, i as int)),
        decreases s@.len() - i,
    {
        let c = s[i];
        let lc: char = if c >= 'A' && c <= 'Z' {
            (((c as u32) + 32) as u8) as char
        } else {
            c
        };
        r.push(lc);
        proof {
            assert(lower_all(s@.subrange(0, i + 1)) =~= lower_all(s@.subrange(0, i as int)).push(
                lower_ch(s@[i as int]),
            ));
        }
        i = i + 1;
    }
    proof {
        assert(s@.subrange(0, s@.len() as int) =~= s@);
    }
    r
}

} // verus!
