//! Character-level text utilities: whitespace, trimming, substring search,
//! UTF-8 byte lengths, and the conversions between `str`, `String` and
//! `Vec<char>` that the rest of the library is written against.
use vstd::prelude::*;
use vstd::utf8::*;

verus! {

// ---------------------------------------------------------------------------
// Whitespace
// ---------------------------------------------------------------------------

/// Unicode `White_Space`, the property that `char::is_whitespace` tests.
pub open spec fn is_ws(c: char) -> bool {
    let u = c as u32;
    ||| (0x09 <= u && u <= 0x0D)
    ||| u == 0x20
    ||| u == 0x85
    ||| u == 0xA0
    ||| u == 0x1680
    ||| (0x2000 <= u && u <= 0x200A)
    ||| u == 0x2028
    ||| u == 0x2029
    ||| u == 0x202F
    ||| u == 0x205F
    ||| u == 0x3000
}

/// Whether `c` is Unicode whitespace.
pub fn char_is_ws(c: char) -> (b: bool)
    ensures
        b == is_ws(c),
{
    let u = c as u32;
    (0x09 <= u && u <= 0x0D) || u == 0x20 || u == 0x85 || u == 0xA0 || u == 0x1680 || (0x2000
        <= u && u <= 0x200A) || u == 0x2028 || u == 0x2029 || u == 0x202F || u == 0x205F || u
        == 0x3000
}

/// Number of whitespace characters at the front of `s`.
pub open spec fn leading_ws(s: Seq<char>) -> nat
    decreases s.len(),
{
    if s.len() > 0 && is_ws(s[0]) {
        1 + leading_ws(s.drop_first())
    } else {
        0
    }
}

/// Number of whitespace characters at the back of `s`.
pub open spec fn trailing_ws(s: Seq<char>) -> nat
    decreases s.len(),
{
    if s.len() > 0 && is_ws(s.last()) {
        1 + trailing_ws(s.drop_last())
    } else {
        0
    }
}

/// `s` without its leading whitespace (`str::trim_start`).
pub open spec fn trim_start(s: Seq<char>) -> Seq<char> {
    s.skip(leading_ws(s) as int)
}

/// `s` without its trailing whitespace (`str::trim_end`).
pub open spec fn trim_end(s: Seq<char>) -> Seq<char> {
    s.take(s.len() - trailing_ws(s))
}

/// `s` without whitespace at either end (`str::trim`).
pub open spec fn trim(s: Seq<char>) -> Seq<char> {
    trim_end(trim_start(s))
}

pub proof fn lemma_leading_ws_bound(s: Seq<char>)
    ensures
        leading_ws(s) <= s.len(),
        forall|j: int| 0 <= j < leading_ws(s) ==> is_ws(#[trigger] s[j]),
        leading_ws(s) < s.len() ==> !is_ws(s[leading_ws(s) as int]),
    decreases s.len(),
{
    if s.len() > 0 && is_ws(s[0]) {
        lemma_leading_ws_bound(s.drop_first());
        assert forall|j: int| 0 <= j < leading_ws(s) implies is_ws(#[trigger] s[j]) by {
            if j > 0 {
                assert(s[j] == s.drop_first()[j - 1]);
            }
        }
    }
}

/// `leading_ws` is the first index that is not whitespace.
pub proof fn lemma_leading_ws_is(s: Seq<char>, k: int)
    requires
        0 <= k <= s.len(),
        forall|j: int| 0 <= j < k ==> is_ws(#[trigger] s[j]),
        k < s.len() ==> !is_ws(s[k]),
    ensures
        leading_ws(s) == k,
    decreases k,
{
    if k > 0 {
        let t = s.drop_first();
        assert forall|j: int| 0 <= j < k - 1 implies is_ws(#[trigger] t[j]) by {
            assert(t[j] == s[j + 1]);
        }
        if k - 1 < t.len() {
            assert(t[k - 1] == s[k]);
        }
        lemma_leading_ws_is(t, k - 1);
    }
}

pub proof fn lemma_trailing_ws_bound(s: Seq<char>)
    ensures
        trailing_ws(s) <= s.len(),
        forall|j: int| s.len() - trailing_ws(s) <= j < s.len() ==> is_ws(#[trigger] s[j]),
        trailing_ws(s) < s.len() ==> !is_ws(s[s.len() - trailing_ws(s) - 1]),
    decreases s.len(),
{
    if s.len() > 0 && is_ws(s.last()) {
        lemma_trailing_ws_bound(s.drop_last());
        assert forall|j: int| s.len() - trailing_ws(s) <= j < s.len() implies is_ws(
            #[trigger] s[j],
        ) by {
            if j < s.len() - 1 {
                assert(s[j] == s.drop_last()[j]);
            }
        }
        if trailing_ws(s) < s.len() {
            assert(s[s.len() - trailing_ws(s) - 1] == s.drop_last()[s.len() - trailing_ws(s) - 1]);
        }
    }
}

/// `trailing_ws` counts the whitespace run that ends the sequence.
pub proof fn lemma_trailing_ws_is(s: Seq<char>, k: int)
    requires
        0 <= k <= s.len(),
        forall|j: int| s.len() - k <= j < s.len() ==> is_ws(#[trigger] s[j]),
        k < s.len() ==> !is_ws(s[s.len() - k - 1]),
    ensures
        trailing_ws(s) == k,
    decreases k,
{
    if k > 0 {
        let t = s.drop_last();
        assert forall|j: int| t.len() - (k - 1) <= j < t.len() implies is_ws(#[trigger] t[j]) by {
            assert(t[j] == s[j]);
        }
        if k - 1 < t.len() {
            assert(t[t.len() - (k - 1) - 1] == s[s.len() - k - 1]);
        }
        assert(is_ws(s[s.len() - 1]));
        lemma_trailing_ws_is(t, k - 1);
    }
}

/// The bounds `(lo, hi)` of the trimmed part of `v[from..to]`.
pub fn trim_bounds(v: &Vec<char>, from: usize, to: usize) -> (r: (usize, usize))
    requires
        from <= to <= v.len(),
    ensures
        from <= r.0 <= r.1 <= to,
        v@.subrange(r.0 as int, r.1 as int) == trim(v@.subrange(from as int, to as int)),
        v@.subrange(r.0 as int, to as int) == trim_start(v@.subrange(from as int, to as int)),
{
    let ghost s = v@.subrange(from as int, to as int);
    let mut lo = from;
    while lo < to && char_is_ws(v[lo])
        invariant
            from <= lo <= to <= v.len(),
            forall|j: int| from <= j < lo ==> is_ws(#[trigger] v@[j]),
        decreases to - lo,
    {
        lo = lo + 1;
    }
    proof {
        assert forall|j: int| 0 <= j < lo - from implies is_ws(#[trigger] s[j]) by {
            assert(s[j] == v@[from + j]);
        }
        if lo < to {
            assert(s[lo - from] == v@[lo as int]);
        }
        lemma_leading_ws_is(s, lo - from);
        assert(trim_start(s) =~= v@.subrange(lo as int, to as int));
    }
    let mut hi = to;
    while hi > lo && char_is_ws(v[hi - 1])
        invariant
            from <= lo <= hi <= to <= v.len(),
            forall|j: int| hi <= j < to ==> is_ws(#[trigger] v@[j]),
        decreases hi - lo,
    {
        hi = hi - 1;
    }
    proof {
        let t = trim_start(s);
        assert forall|j: int| t.len() - (to - hi) <= j < t.len() implies is_ws(#[trigger] t[j]) by {
            assert(t[j] == v@[lo + j]);
        }
        if to - hi < t.len() {
            assert(t[t.len() - (to - hi) - 1] == v@[hi - 1]);
        }
        lemma_trailing_ws_is(t, to - hi);
        assert(trim(s) =~= v@.subrange(lo as int, hi as int));
    }
    (lo, hi)
}

// ---------------------------------------------------------------------------
// Substring search
// ---------------------------------------------------------------------------

/// `needle` occurs in `hay` starting at index `i`.
pub open spec fn occurs_at(hay: Seq<char>, needle: Seq<char>, i: int) -> bool {
    0 <= i && i + needle.len() <= hay.len() && hay.subrange(i, i + needle.len()) == needle
}

/// `needle` occurs somewhere in `hay` (`str::contains`).
pub open spec fn contains(hay: Seq<char>, needle: Seq<char>) -> bool {
    exists|i: int| occurs_at(hay, needle, i)
}

/// `i` is where the first occurrence of `needle` in `hay` starts.
pub open spec fn first_at(hay: Seq<char>, needle: Seq<char>, i: int) -> bool {
    occurs_at(hay, needle, i) && forall|j: int| 0 <= j < i ==> !occurs_at(hay, needle, j)
}

/// The character index of the first occurrence of `needle` in `hay`
/// (`str::find`, counted in characters rather than bytes).
pub open spec fn find(hay: Seq<char>, needle: Seq<char>) -> Option<int> {
    if exists|i: int| first_at(hay, needle, i) {
        Some(choose|i: int| first_at(hay, needle, i))
    } else {
        None
    }
}

/// `hay` starts with `prefix` (`str::starts_with`).
pub open spec fn starts_with(hay: Seq<char>, prefix: Seq<char>) -> bool {
    prefix.len() <= hay.len() && hay.take(prefix.len() as int) == prefix
}

pub proof fn lemma_first_at_unique(hay: Seq<char>, needle: Seq<char>, i: int)
    requires
        first_at(hay, needle, i),
    ensures
        find(hay, needle) == Some(i),
{
    let k = choose|k: int| first_at(hay, needle, k);
    assert(first_at(hay, needle, k));
    if k < i {
        assert(!occurs_at(hay, needle, k));
    } else if i < k {
        assert(!occurs_at(hay, needle, i));
    }
}

/// A sequence that contains `needle` has a first occurrence of it.
pub proof fn lemma_contains_find(hay: Seq<char>, needle: Seq<char>)
    ensures
        contains(hay, needle) <==> find(hay, needle) is Some,
        find(hay, needle) matches Some(i) ==> first_at(hay, needle, i),
{
    if contains(hay, needle) {
        let i = choose|i: int| occurs_at(hay, needle, i);
        lemma_first_exists(hay, needle, i, i);
    }
}

proof fn lemma_first_exists(hay: Seq<char>, needle: Seq<char>, i: int, bound: int)
    requires
        occurs_at(hay, needle, i),
        0 <= i <= bound,
        forall|j: int| bound < j < i ==> !occurs_at(hay, needle, j),
    ensures
        exists|k: int| first_at(hay, needle, k),
    decreases bound,
{
    if forall|j: int| 0 <= j < i ==> !occurs_at(hay, needle, j) {
        assert(first_at(hay, needle, i));
    } else {
        let j = choose|j: int| 0 <= j < i && occurs_at(hay, needle, j);
        assert forall|m: int| i - 1 < m < j implies !occurs_at(hay, needle, m) by {}
        lemma_first_exists_below(hay, needle, j);
    }
}

proof fn lemma_first_exists_below(hay: Seq<char>, needle: Seq<char>, i: int)
    requires
        occurs_at(hay, needle, i),
    ensures
        exists|k: int| first_at(hay, needle, k),
    decreases i,
{
    if forall|j: int| 0 <= j < i ==> !occurs_at(hay, needle, j) {
        assert(first_at(hay, needle, i));
    } else {
        let j = choose|j: int| 0 <= j < i && occurs_at(hay, needle, j);
        lemma_first_exists_below(hay, needle, j);
    }
}

/// Whether `needle` occurs in `hay` at index `i`.
pub fn matches_at(hay: &Vec<char>, needle: &Vec<char>, i: usize) -> (b: bool)
    ensures
        b == occurs_at(hay@, needle@, i as int),
{
    if i > hay.len() || needle.len() > hay.len() - i {
        return false;
    }
    let mut k: usize = 0;
    while k < needle.len()
        invariant
            i + needle.len() <= hay.len(),
            k <= needle.len(),
            forall|m: int| 0 <= m < k ==> hay@[i + m] == needle@[m],
        decreases needle.len() - k,
    {
        if hay[i + k] != needle[k] {
            proof {
                assert(hay@.subrange(i as int, i + needle.len())[k as int] == hay@[i + k]);
            }
            return false;
        }
        k = k + 1;
    }
    proof {
        assert(hay@.subrange(i as int, i + needle.len()) =~= needle@);
    }
    true
}

/// The first index at or after `from` where `needle` occurs in `hay`.
pub fn find_from(hay: &Vec<char>, needle: &Vec<char>, from: usize) -> (r: Option<usize>)
    ensures
        match r {
            Some(i) => from <= i && occurs_at(hay@, needle@, i as int) && forall|j: int|
                from <= j < i ==> !occurs_at(hay@, needle@, j),
            None => forall|j: int| from <= j ==> !occurs_at(hay@, needle@, j),
        },
{
    if from > hay.len() {
        return None;
    }
    let mut i = from;
    loop
        invariant
            from <= i <= hay.len(),
            forall|j: int| from <= j < i ==> !occurs_at(hay@, needle@, j),
        decreases hay.len() - i,
    {
        if matches_at(hay, needle, i) {
            return Some(i);
        }
        if i == hay.len() {
            return None;
        }
        i = i + 1;
    }
}

/// The character index of the first occurrence of `needle` in `hay`.
pub fn find_chars(hay: &Vec<char>, needle: &Vec<char>) -> (r: Option<usize>)
    ensures
        r matches Some(i) ==> find(hay@, needle@) == Some(i as int),
        r is None ==> find(hay@, needle@) is None,
        r is Some <==> contains(hay@, needle@),
{
    let r = find_from(hay, needle, 0);
    proof {
        lemma_contains_find(hay@, needle@);
        if let Some(i) = r {
            lemma_first_at_unique(hay@, needle@, i as int);
        }
    }
    r
}

/// Whether `needle` occurs in `hay`.
pub fn contains_chars(hay: &Vec<char>, needle: &Vec<char>) -> (b: bool)
    ensures
        b == contains(hay@, needle@),
{
    let r = find_chars(hay, needle);
    r.is_some()
}

/// Whether `v[from..to]` starts with `prefix`.
pub fn starts_with_at(v: &Vec<char>, from: usize, to: usize, prefix: &Vec<char>) -> (b: bool)
    requires
        from <= to <= v.len(),
    ensures
        b == starts_with(v@.subrange(from as int, to as int), prefix@),
{
    let ghost s = v@.subrange(from as int, to as int);
    if prefix.len() > to - from {
        return false;
    }
    let b = matches_at(v, prefix, from);
    proof {
        assert(s.take(prefix.len() as int) =~= v@.subrange(from as int, from + prefix.len()));
    }
    b
}

// ---------------------------------------------------------------------------
// UTF-8 byte lengths
// ---------------------------------------------------------------------------

/// Length in bytes of the UTF-8 encoding of `s` (what `str::len` reports).
pub open spec fn byte_len(s: Seq<char>) -> nat {
    encode_utf8(s).len()
}

/// Length in bytes of the UTF-8 encoding of one character.
pub open spec fn char_width(c: char) -> nat {
    encode_scalar(c as u32).len()
}

pub proof fn lemma_encode_utf8_concat(a: Seq<char>, b: Seq<char>)
    ensures
        encode_utf8(a + b) == encode_utf8(a) + encode_utf8(b),
    decreases a.len(),
{
    if a.len() == 0 {
        assert(a + b =~= b);
        assert(encode_utf8(a) =~= Seq::<u8>::empty());
        assert(encode_utf8(a) + encode_utf8(b) =~= encode_utf8(b));
    } else {
        assert((a + b).drop_first() =~= a.drop_first() + b);
        lemma_encode_utf8_concat(a.drop_first(), b);
        assert((a + b)[0] == a[0]);
        assert(encode_utf8(a + b) =~= encode_scalar(a[0] as u32) + encode_utf8(a.drop_first() + b));
        assert(encode_utf8(a) + encode_utf8(b) =~= encode_scalar(a[0] as u32) + (encode_utf8(
            a.drop_first(),
        ) + encode_utf8(b)));
    }
}

pub proof fn lemma_byte_len_push(s: Seq<char>, c: char)
    ensures
        byte_len(s.push(c)) == byte_len(s) + char_width(c),
{
    lemma_encode_utf8_concat(s, seq![c]);
    assert(s.push(c) =~= s + seq![c]);
    assert(seq![c].drop_first() =~= Seq::<char>::empty());
    assert(encode_utf8(seq![c]) =~= encode_scalar(c as u32) + encode_utf8(Seq::<char>::empty()));
}

pub proof fn lemma_byte_len_concat(a: Seq<char>, b: Seq<char>)
    ensures
        byte_len(a + b) == byte_len(a) + byte_len(b),
{
    lemma_encode_utf8_concat(a, b);
}

/// Bytes taken by `c` in UTF-8 (`char::len_utf8`).
pub fn char_utf8_width(c: char) -> (n: usize)
    ensures
        n == char_width(c),
        1 <= n <= 4,
{
    proof {
        char_is_scalar(c);
    }
    let u = c as u32;
    if u <= 0x7F {
        1
    } else if u <= 0x7FF {
        2
    } else if u <= 0xFFFF {
        3
    } else {
        4
    }
}

/// Byte length of `v[from..to]`.
pub fn byte_len_of(v: &Vec<char>, from: usize, to: usize) -> (n: usize)
    requires
        from <= to <= v.len(),
        v.len() <= usize::MAX / 4,
    ensures
        n == byte_len(v@.subrange(from as int, to as int)),
{
    let mut n: usize = 0;
    let mut i = from;
    proof {
        assert(v@.subrange(from as int, from as int) =~= Seq::<char>::empty());
    }
    while i < to
        invariant
            from <= i <= to <= v.len() <= usize::MAX / 4,
            n == byte_len(v@.subrange(from as int, i as int)),
            n <= 4 * (i - from),
        decreases to - i,
    {
        let w = char_utf8_width(v[i]);
        proof {
            lemma_byte_len_push(v@.subrange(from as int, i as int), v@[i as int]);
            assert(v@.subrange(from as int, i + 1) =~= v@.subrange(from as int, i as int).push(
                v@[i as int],
            ));
        }
        n = n + w;
        i = i + 1;
    }
    n
}

/// A non-empty sequence takes at least one byte.
pub proof fn lemma_byte_len_nonempty(s: Seq<char>)
    requires
        s.len() > 0,
    ensures
        byte_len(s) >= 1,
{
    assert(encode_utf8(s) == encode_scalar(s[0] as u32) + encode_utf8(s.drop_first()));
}

/// Byte lengths of prefixes of `s[start..]` grow strictly with the prefix.
pub proof fn lemma_byte_len_mono(s: Seq<char>, start: int, j1: int, j2: int)
    requires
        0 <= start <= j1 <= j2 <= s.len(),
    ensures
        byte_len(s.subrange(start, j1)) <= byte_len(s.subrange(start, j2)),
        j1 < j2 ==> byte_len(s.subrange(start, j1)) < byte_len(s.subrange(start, j2)),
{
    assert(s.subrange(start, j2) =~= s.subrange(start, j1) + s.subrange(j1, j2));
    lemma_byte_len_concat(s.subrange(start, j1), s.subrange(j1, j2));
    if j1 < j2 {
        lemma_byte_len_nonempty(s.subrange(j1, j2));
    }
}

/// `s[start..j]` is exactly `n` bytes long.
pub open spec fn byte_span_ends_at(s: Seq<char>, start: int, n: nat, j: int) -> bool {
    start <= j <= s.len() && byte_len(s.subrange(start, j)) == n
}

/// Some character boundary lies exactly `n` bytes after `start`, so that the
/// byte slice `[start..start + n]` of `s` is valid.
pub open spec fn has_byte_span(s: Seq<char>, start: int, n: nat) -> bool {
    exists|j: int| byte_span_ends_at(s, start, n, j)
}

/// The character index `n` bytes after `start`.
pub open spec fn byte_span_end(s: Seq<char>, start: int, n: nat) -> int {
    choose|j: int| byte_span_ends_at(s, start, n, j)
}

pub proof fn lemma_byte_span_unique(s: Seq<char>, start: int, n: nat, j: int)
    requires
        0 <= start,
        byte_span_ends_at(s, start, n, j),
    ensures
        has_byte_span(s, start, n),
        byte_span_end(s, start, n) == j,
{
    let k = byte_span_end(s, start, n);
    assert(byte_span_ends_at(s, start, n, k));
    if k < j {
        lemma_byte_len_mono(s, start, k, j);
    } else if j < k {
        lemma_byte_len_mono(s, start, j, k);
    }
}

/// The character index that lies `n` bytes after `start` in `v`, if a
/// character boundary lies there.
pub fn find_byte_span(v: &Vec<char>, start: usize, n: usize) -> (r: Option<usize>)
    requires
        start <= v.len(),
        n <= usize::MAX - 4,
    ensures
        r matches Some(j) ==> byte_span_ends_at(v@, start as int, n as nat, j as int)
            && byte_span_end(v@, start as int, n as nat) == j,
        r is None ==> !has_byte_span(v@, start as int, n as nat),
{
    let mut acc: usize = 0;
    let mut i = start;
    proof {
        assert(v@.subrange(start as int, start as int) =~= Seq::<char>::empty());
    }
    while i < v.len() && acc < n
        invariant
            start <= i <= v.len(),
            n <= usize::MAX - 4,
            acc == byte_len(v@.subrange(start as int, i as int)),
            i > start ==> byte_len(v@.subrange(start as int, i - 1)) < n,
        decreases v.len() - i,
    {
        let w = char_utf8_width(v[i]);
        proof {
            lemma_byte_len_push(v@.subrange(start as int, i as int), v@[i as int]);
            assert(v@.subrange(start as int, i + 1) =~= v@.subrange(start as int, i as int).push(
                v@[i as int],
            ));
        }
        acc = acc + w;
        i = i + 1;
    }
    if acc == n {
        proof {
            lemma_byte_span_unique(v@, start as int, n as nat, i as int);
        }
        Some(i)
    } else {
        proof {
            assert forall|j: int| !byte_span_ends_at(v@, start as int, n as nat, j) by {
                if start <= j <= v.len() {
                    if j < i {
                        if i > start {
                            lemma_byte_len_mono(v@, start as int, j, i - 1);
                        }
                    } else {
                        lemma_byte_len_mono(v@, start as int, i as int, j);
                    }
                }
            }
        }
        None
    }
}

/// The longest prefix of `s` whose UTF-8 encoding fits in `n` bytes: the
/// first `n` bytes of `s`, cut back to a character boundary.
pub open spec fn take_bytes(s: Seq<char>, n: nat) -> Seq<char>
    decreases s.len(),
{
    if s.len() == 0 || char_width(s[0]) > n {
        Seq::empty()
    } else {
        seq![s[0]] + take_bytes(s.drop_first(), (n - char_width(s[0])) as nat)
    }
}

proof fn lemma_byte_len_cons(c: char, t: Seq<char>)
    ensures
        byte_len(seq![c] + t) == char_width(c) + byte_len(t),
{
    lemma_byte_len_concat(seq![c], t);
    lemma_byte_len_push(Seq::<char>::empty(), c);
    assert(Seq::<char>::empty().push(c) =~= seq![c]);
    assert(encode_utf8(Seq::<char>::empty()) =~= Seq::<u8>::empty());
}

/// `take_bytes(s, n)` is the longest prefix of `s` that fits in `n` bytes:
/// it is a prefix, it fits, and one more character would not.
pub proof fn lemma_take_bytes(s: Seq<char>, n: nat)
    ensures
        take_bytes(s, n).len() <= s.len(),
        take_bytes(s, n) == s.take(take_bytes(s, n).len() as int),
        byte_len(take_bytes(s, n)) <= n,
        take_bytes(s, n).len() < s.len() ==> byte_len(s.take(take_bytes(s, n).len() + 1int)) > n,
    decreases s.len(),
{
    if s.len() == 0 || char_width(s[0]) > n {
        assert(take_bytes(s, n) =~= Seq::<char>::empty());
        assert(s.take(0) =~= Seq::<char>::empty());
        assert(encode_utf8(Seq::<char>::empty()) =~= Seq::<u8>::empty());
        if s.len() > 0 {
            assert(s.take(1) =~= seq![s[0]] + Seq::<char>::empty());
            lemma_byte_len_cons(s[0], Seq::<char>::empty());
        }
    } else {
        let w = char_width(s[0]);
        let rest = s.drop_first();
        let t = take_bytes(rest, (n - w) as nat);
        lemma_take_bytes(rest, (n - w) as nat);
        assert(take_bytes(s, n) == seq![s[0]] + t);
        assert(seq![s[0]] + t =~= s.take(t.len() + 1int));
        lemma_byte_len_cons(s[0], t);
        if t.len() < rest.len() {
            assert(s.take(t.len() + 2int) =~= seq![s[0]] + rest.take(t.len() + 1int));
            lemma_byte_len_cons(s[0], rest.take(t.len() + 1int));
        }
    }
}

/// The index `j` such that `v[from..j]` is `take_bytes(v[from..], n)`.
pub fn take_bytes_end(v: &Vec<char>, from: usize, n: usize) -> (j: usize)
    requires
        from <= v.len(),
    ensures
        from <= j <= v.len(),
        v@.subrange(from as int, j as int) == take_bytes(v@.skip(from as int), n as nat),
{
    let mut i = from;
    let mut budget = n;
    proof {
        assert(v@.skip(from as int) =~= v@.subrange(from as int, v.len() as int));
        assert(v@.subrange(from as int, from as int) + take_bytes(
            v@.subrange(from as int, v.len() as int),
            n as nat,
        ) =~= take_bytes(v@.subrange(from as int, v.len() as int), n as nat));
    }
    while i < v.len()
        invariant
            from <= i <= v.len(),
            take_bytes(v@.skip(from as int), n as nat) == v@.subrange(from as int, i as int)
                + take_bytes(v@.subrange(i as int, v.len() as int), budget as nat),
        decreases v.len() - i,
    {
        let w = char_utf8_width(v[i]);
        let ghost rest = v@.subrange(i as int, v.len() as int);
        proof {
            assert(rest[0] == v@[i as int]);
        }
        if w > budget {
            proof {
                assert(take_bytes(rest, budget as nat) =~= Seq::<char>::empty());
                assert(v@.subrange(from as int, i as int) + Seq::<char>::empty()
                    =~= v@.subrange(from as int, i as int));
            }
            return i;
        }
        proof {
            assert(rest.drop_first() =~= v@.subrange(i + 1, v.len() as int));
            assert(take_bytes(rest, budget as nat) == seq![v@[i as int]] + take_bytes(
                v@.subrange(i + 1, v.len() as int),
                (budget - w) as nat,
            ));
            assert(v@.subrange(from as int, i as int) + (seq![v@[i as int]] + take_bytes(
                v@.subrange(i + 1, v.len() as int),
                (budget - w) as nat,
            )) =~= v@.subrange(from as int, i + 1) + take_bytes(
                v@.subrange(i + 1, v.len() as int),
                (budget - w) as nat,
            ));
        }
        budget = budget - w;
        i = i + 1;
    }
    proof {
        assert(v@.subrange(v.len() as int, v.len() as int) =~= Seq::<char>::empty());
        assert(v@.subrange(from as int, i as int) + Seq::<char>::empty()
            =~= v@.subrange(from as int, i as int));
    }
    i
}

/// Whether `v[from..to]` takes fewer than `limit` bytes.
pub fn byte_len_lt(v: &Vec<char>, from: usize, to: usize, limit: usize) -> (b: bool)
    requires
        from <= to <= v.len(),
        limit <= usize::MAX - 4,
    ensures
        b == (byte_len(v@.subrange(from as int, to as int)) < limit),
{
    if limit == 0 {
        return false;
    }
    let mut n: usize = 0;
    let mut i = from;
    proof {
        assert(v@.subrange(from as int, from as int) =~= Seq::<char>::empty());
    }
    while i < to
        invariant
            from <= i <= to <= v.len(),
            limit <= usize::MAX - 4,
            n == byte_len(v@.subrange(from as int, i as int)),
            n < limit,
        decreases to - i,
    {
        let w = char_utf8_width(v[i]);
        proof {
            lemma_byte_len_push(v@.subrange(from as int, i as int), v@[i as int]);
            assert(v@.subrange(from as int, i + 1) =~= v@.subrange(from as int, i as int).push(
                v@[i as int],
            ));
        }
        n = n + w;
        i = i + 1;
        if n >= limit {
            proof {
                lemma_byte_len_mono(v@, from as int, i as int, to as int);
            }
            return false;
        }
    }
    true
}

// ---------------------------------------------------------------------------
// Lines
// ---------------------------------------------------------------------------

/// Index of the first `'\n'` at or after `pos`, or the length of `s`.
pub open spec fn line_end(s: Seq<char>, pos: int) -> int
    decreases s.len() - pos,
{
    if pos < 0 || pos >= s.len() || s[pos] == '\n' {
        pos
    } else {
        line_end(s, pos + 1)
    }
}

pub proof fn lemma_line_end_bounds(s: Seq<char>, pos: int)
    requires
        0 <= pos <= s.len(),
    ensures
        pos <= line_end(s, pos) <= s.len(),
        forall|j: int| pos <= j < line_end(s, pos) ==> s[j] != '\n',
        line_end(s, pos) < s.len() ==> s[line_end(s, pos)] == '\n',
    decreases s.len() - pos,
{
    if pos < s.len() && s[pos] != '\n' {
        lemma_line_end_bounds(s, pos + 1);
    }
}

pub proof fn lemma_line_end(s: Seq<char>, pos: int, e: int)
    requires
        0 <= pos <= e <= s.len(),
        forall|j: int| pos <= j < e ==> s[j] != '\n',
        e < s.len() ==> s[e] == '\n',
    ensures
        line_end(s, pos) == e,
    decreases e - pos,
{
    if pos < e {
        lemma_line_end(s, pos + 1, e);
    }
}

/// The line that starts at `pos`: up to the next `'\n'`, without the `'\r'`
/// of a `"\r\n"` ending.
pub open spec fn line_at(s: Seq<char>, pos: int) -> Seq<char> {
    let e = line_end(s, pos);
    let piece = s.subrange(pos, e);
    if e < s.len() && piece.len() > 0 && piece.last() == '\r' {
        piece.drop_last()
    } else {
        piece
    }
}

/// The lines of `s` from `pos` on.
pub open spec fn lines_from(s: Seq<char>, pos: int) -> Seq<Seq<char>>
    decreases s.len() + 1 - pos,
{
    if pos < 0 || pos >= s.len() {
        Seq::empty()
    } else {
        proof {
            lemma_line_end_bounds(s, pos);
        }
        seq![line_at(s, pos)] + lines_from(s, line_end(s, pos) + 1)
    }
}

/// The lines of `s` (`str::lines`): split at `'\n'` or `"\r\n"`, with no
/// empty line after a final line ending.
pub open spec fn lines(s: Seq<char>) -> Seq<Seq<char>> {
    lines_from(s, 0)
}

/// Bounds of the line of `v` that starts at `pos`, and where the next line
/// starts.
pub fn line_bounds(v: &Vec<char>, pos: usize) -> (r: (usize, usize, usize))
    requires
        pos < v.len(),
    ensures
        pos <= r.0 <= r.1 <= v.len(),
        r.0 == pos,
        v@.subrange(r.0 as int, r.1 as int) == line_at(v@, pos as int),
        r.2 == line_end(v@, pos as int) + 1 || (r.2 == v.len() && line_end(v@, pos as int) == v.len()),
        pos < r.2 <= v.len(),
        lines_from(v@, pos as int) == seq![line_at(v@, pos as int)] + lines_from(v@, r.2 as int),
{
    let mut e = pos;
    while e < v.len() && v[e] != '\n'
        invariant
            pos <= e <= v.len(),
            forall|j: int| pos <= j < e ==> v@[j] != '\n',
        decreases v.len() - e,
    {
        e = e + 1;
    }
    proof {
        lemma_line_end(v@, pos as int, e as int);
        lemma_line_end_bounds(v@, pos as int);
    }
    let mut hi = e;
    if e < v.len() && e > pos && v[e - 1] == '\r' {
        hi = e - 1;
    }
    proof {
        let piece = v@.subrange(pos as int, e as int);
        if e < v.len() && e > pos && v@[e - 1] == '\r' {
            assert(piece.last() == v@[e - 1]);
            assert(piece.drop_last() =~= v@.subrange(pos as int, hi as int));
        } else {
            if e < v.len() && piece.len() > 0 {
                assert(piece.last() == v@[e - 1]);
            }
        }
    }
    let next = if e < v.len() {
        e + 1
    } else {
        e
    };
    proof {
        if e == v.len() {
            assert(lines_from(v@, e + 1) =~= Seq::<Seq<char>>::empty());
            assert(lines_from(v@, e as int) =~= Seq::<Seq<char>>::empty());
        }
    }
    (pos, hi, next)
}

// ---------------------------------------------------------------------------
// Decimal numbers
// ---------------------------------------------------------------------------

/// The ASCII digit for `d < 10`.
pub open spec fn digit_char(d: nat) -> char {
    (48 + d) as char
}

/// The decimal digits of `n` (what `{}` formatting writes for an unsigned
/// integer).
pub open spec fn decimal(n: nat) -> Seq<char>
    decreases n,
{
    if n < 10 {
        seq![digit_char(n)]
    } else {
        decimal(n / 10).push(digit_char(n % 10))
    }
}

/// Appends the decimal digits of `n` to `out`.
pub fn push_decimal(out: &mut Vec<char>, n: u64)
    ensures
        final(out)@ == old(out)@ + decimal(n as nat),
    decreases n,
{
    if n >= 10 {
        push_decimal(out, n / 10);
    }
    let d = (n % 10) as u8;
    let c = (48u8 + d) as char;
    let ghost before = out@;
    out.push(c);
    proof {
        assert(c == digit_char((n % 10) as nat));
        if n >= 10 {
            assert(out@ =~= old(out)@ + decimal((n / 10) as nat).push(digit_char((n % 10) as nat)));
        } else {
            assert(out@ =~= old(out)@ + seq![digit_char(n as nat)]);
        }
    }
}

/// `n` in decimal, with a leading `-` when it is negative.
pub open spec fn signed_decimal(n: int) -> Seq<char> {
    if n < 0 {
        seq!['-'] + decimal((-n) as nat)
    } else {
        decimal(n as nat)
    }
}

/// Appends `n` in decimal (see `signed_decimal`).
pub fn push_signed_decimal(out: &mut Vec<char>, n: i32)
    ensures
        final(out)@ == old(out)@ + signed_decimal(n as int),
{
    if n < 0 {
        out.push('-');
        let wide: i64 = n as i64;
        let m: u64 = (0 - wide) as u64;
        push_decimal(out, m);
        proof {
            assert(out@ =~= old(out)@ + (seq!['-'] + decimal(m as nat)));
        }
    } else {
        push_decimal(out, n as u64);
    }
}

/// Byte length of all of `v`, counted wide enough never to overflow.
pub fn byte_len_wide(v: &Vec<char>) -> (n: u128)
    ensures
        n == byte_len(v@),
{
    let mut n: u128 = 0;
    let mut i: usize = 0;
    proof {
        assert(v@.subrange(0, 0) =~= Seq::<char>::empty());
    }
    while i < v.len()
        invariant
            i <= v.len(),
            n == byte_len(v@.subrange(0, i as int)),
            n <= 4 * i,
        decreases v.len() - i,
    {
        let w = char_utf8_width(v[i]);
        proof {
            lemma_byte_len_push(v@.subrange(0, i as int), v@[i as int]);
            assert(v@.subrange(0, i + 1) =~= v@.subrange(0, i as int).push(v@[i as int]));
        }
        n = n + w as u128;
        i = i + 1;
    }
    proof {
        assert(v@.subrange(0, v@.len() as int) =~= v@);
    }
    n
}

/// Appends the decimal digits of `n` to `out`.
pub fn push_decimal_wide(out: &mut Vec<char>, n: u128)
    ensures
        final(out)@ == old(out)@ + decimal(n as nat),
    decreases n,
{
    if n >= 10 {
        push_decimal_wide(out, n / 10);
    }
    let d = (n % 10) as u8;
    let c = (48u8 + d) as char;
    out.push(c);
    proof {
        assert(c == digit_char((n % 10) as nat));
        if n >= 10 {
            assert(out@ =~= old(out)@ + decimal((n / 10) as nat).push(digit_char((n % 10) as nat)));
        } else {
            assert(out@ =~= old(out)@ + seq![digit_char(n as nat)]);
        }
    }
}

// ---------------------------------------------------------------------------
// Joining and prefixes
// ---------------------------------------------------------------------------

/// `parts` joined with `sep` between neighbours (`join(sep)`).
pub open spec fn join(parts: Seq<Seq<char>>, sep: Seq<char>) -> Seq<char>
    decreases parts.len(),
{
    if parts.len() == 0 {
        Seq::empty()
    } else if parts.len() == 1 {
        parts[0]
    } else {
        join(parts.drop_last(), sep) + sep + parts.last()
    }
}

/// Appends `part` to `out`, which holds `join(done, sep)`, so that it then
/// holds `join(done.push(part), sep)`.
pub fn push_joined(out: &mut Vec<char>, first: bool, sep: &str, part: &Vec<char>, Ghost(done): Ghost<
    Seq<Seq<char>>,
>)
    requires
        old(out)@ == join(done, sep@),
        first == (done.len() == 0),
    ensures
        final(out)@ == join(done.push(part@), sep@),
{
    if !first {
        push_str(out, sep);
    }
    push_range(out, part, 0, part.len());
    proof {
        assert(part@.subrange(0, part@.len() as int) =~= part@);
        assert(done.push(part@).drop_last() =~= done);
        if first {
            assert(out@ =~= part@);
        }
    }
}

/// `s` with every leading repetition of `p` removed (`trim_start_matches`).
pub open spec fn strip_prefixes(s: Seq<char>, p: Seq<char>) -> Seq<char>
    decreases s.len(),
{
    if p.len() > 0 && starts_with(s, p) {
        strip_prefixes(s.skip(p.len() as int), p)
    } else {
        s
    }
}

/// The index in `v[from..]` after every leading repetition of `p`.
pub fn strip_prefixes_from(v: &Vec<char>, from: usize, p: &Vec<char>) -> (i: usize)
    requires
        from <= v.len(),
    ensures
        from <= i <= v.len(),
        v@.skip(i as int) == strip_prefixes(v@.skip(from as int), p@),
{
    let mut i = from;
    if p.len() == 0 {
        return i;
    }
    while starts_with_at(v, i, v.len(), p)
        invariant
            from <= i <= v.len(),
            p.len() > 0,
            strip_prefixes(v@.skip(i as int), p@) == strip_prefixes(v@.skip(from as int), p@),
        decreases v.len() - i,
    {
        proof {
            assert(v@.subrange(i as int, v@.len() as int) =~= v@.skip(i as int));
            assert(v@.skip(i as int).skip(p@.len() as int) =~= v@.skip(i + p.len()));
        }
        i = i + p.len();
    }
    proof {
        assert(v@.subrange(i as int, v@.len() as int) =~= v@.skip(i as int));
    }
    i
}

// ---------------------------------------------------------------------------
// Byte prefixes
// ---------------------------------------------------------------------------

/// The first `n` bytes of `s` as a string slice (`&s[..s.len().min(n)]`):
/// all of `s` when it is at most `n` bytes long.
pub open spec fn byte_prefix(s: Seq<char>, n: nat) -> Seq<char> {
    if byte_len(s) <= n {
        s
    } else {
        s.take(byte_span_end(s, 0, n))
    }
}

/// The byte prefix is defined: a string longer than `n` bytes has a
/// character boundary at byte `n` (else the slice panics).
pub open spec fn byte_prefix_defined(s: Seq<char>, n: nat) -> bool {
    byte_len(s) > n ==> has_byte_span(s, 0, n)
}

/// Whether `byte_prefix(s, n)` is defined.
pub fn byte_prefix_ok(s: &str, n: usize) -> (b: bool)
    requires
        n < usize::MAX - 4,
    ensures
        b == byte_prefix_defined(s@, n as nat),
{
    let v = chars_of(s);
    let short = byte_len_lt(&v, 0, v.len(), n + 1);
    proof {
        assert(v@.subrange(0, v@.len() as int) =~= v@);
    }
    short || find_byte_span(&v, 0, n).is_some()
}

/// Appends the first `n` bytes of `s` to `out`.
pub fn push_byte_prefix(out: &mut Vec<char>, s: &str, n: usize)
    requires
        n < usize::MAX - 4,
        byte_prefix_defined(s@, n as nat),
    ensures
        final(out)@ == old(out)@ + byte_prefix(s@, n as nat),
{
    let v = chars_of(s);
    let short = byte_len_lt(&v, 0, v.len(), n + 1);
    proof {
        assert(v@.subrange(0, v@.len() as int) =~= v@);
    }
    let end = if short {
        v.len()
    } else {
        match find_byte_span(&v, 0, n) {
            Some(j) => j,
            None => {
                proof {
                    assert(false);
                }
                0
            },
        }
    };
    push_range(out, &v, 0, end);
    proof {
        if short {
            assert(v@.subrange(0, end as int) =~= v@);
        } else {
            assert(v@.subrange(0, end as int) =~= v@.take(end as int));
        }
    }
}

// ---------------------------------------------------------------------------
// Conversions
// ---------------------------------------------------------------------------

/// The characters of `s`, in order.
pub fn chars_of(s: &str) -> (out: Vec<char>)
    ensures
        out@ == s@,
{
    let mut out: Vec<char> = Vec::new();
    for c in it: s.chars()
        invariant
            out@ == it.seq().take(it.index() as int),
            it.seq() == s@,
    {
        out.push(c);
    }
    out
}

/// Appends the characters of `s` to `v`.
pub fn push_str(v: &mut Vec<char>, s: &str)
    ensures
        final(v)@ == old(v)@ + s@,
{
    let ghost start = v@;
    for c in it: s.chars()
        invariant
            v@ == start + it.seq().take(it.index() as int),
            it.seq() == s@,
    {
        v.push(c);
        proof {
            assert(it.seq().take(it.index() + 1) =~= it.seq().take(it.index() as int).push(c));
        }
    }
}

/// Appends `v[from..to]` to `out`.
pub fn push_range(out: &mut Vec<char>, v: &Vec<char>, from: usize, to: usize)
    requires
        from <= to <= v.len(),
    ensures
        final(out)@ == old(out)@ + v@.subrange(from as int, to as int),
{
    let ghost start = out@;
    let mut i = from;
    while i < to
        invariant
            from <= i <= to <= v.len(),
            out@ == start + v@.subrange(from as int, i as int),
        decreases to - i,
    {
        out.push(v[i]);
        i = i + 1;
        proof {
            assert(v@.subrange(from as int, i as int) =~= v@.subrange(from as int, i - 1).push(
                v@[i - 1],
            ));
        }
    }
}

/// Whether `v` holds exactly the characters of `s`.
pub fn seq_eq_chars(v: &Vec<char>, s: &str) -> (b: bool)
    ensures
        b == (v@ == s@),
{
    let w = chars_of(s);
    if v.len() != w.len() {
        return false;
    }
    let mut i: usize = 0;
    while i < v.len()
        invariant
            v.len() == w.len(),
            w@ == s@,
            i <= v.len(),
            forall|j: int| 0 <= j < i ==> v@[j] == w@[j],
        decreases v.len() - i,
    {
        if v[i] != w[i] {
            return false;
        }
        i = i + 1;
    }
    proof {
        assert(v@ =~= w@);
    }
    true
}

/// The first `n` characters of `s` (`chars().take(n)`).
pub open spec fn take_chars(s: Seq<char>, n: nat) -> Seq<char> {
    if s.len() <= n {
        s
    } else {
        s.take(n as int)
    }
}

/// Appends the first `n` characters of `v`.
pub fn push_prefix(out: &mut Vec<char>, v: &Vec<char>, n: usize)
    ensures
        final(out)@ == old(out)@ + take_chars(v@, n as nat),
{
    let end = if v.len() <= n {
        v.len()
    } else {
        n
    };
    push_range(out, v, 0, end);
    proof {
        if v.len() <= n {
            assert(v@.subrange(0, end as int) =~= v@);
        } else {
            assert(v@.subrange(0, end as int) =~= v@.take(n as int));
        }
    }
}

/// A `String` holding the characters of `v`.
#[verifier::external_body]
pub(crate) fn string_of(v: &Vec<char>) -> (s: String)
    ensures
        s@ == v@,
{
    v.iter().collect()
}

} // verus!
