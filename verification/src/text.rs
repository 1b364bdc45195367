//! Character-level text primitives shared by the protocol codecs.
//!
//! Text is modelled as the sequence of Unicode scalar values (`Seq<char>`),
//! which is what `str` and `String` views are.
use vstd::prelude::*;

verus! {

/// ASCII letter.
pub open spec fn is_ascii_alpha(c: char) -> bool {
    ('a' <= c && c <= 'z') || ('A' <= c && c <= 'Z')
}

/// ASCII decimal digit.
pub open spec fn is_ascii_digit(c: char) -> bool {
    '0' <= c && c <= '9'
}

/// ASCII letter or digit.
pub open spec fn is_ascii_alnum(c: char) -> bool {
    is_ascii_alpha(c) || is_ascii_digit(c)
}

/// A code point below 128.
pub open spec fn is_ascii_char(c: char) -> bool {
    (c as u32) < 128
}

/// Every character of `s` is ASCII.
pub open spec fn is_ascii_seq(s: Seq<char>) -> bool {
    forall|i: int| 0 <= i < s.len() ==> is_ascii_char(#[trigger] s[i])
}

/// ASCII control character (C0 controls and DEL).
pub open spec fn is_ascii_control(c: char) -> bool {
    (c as u32) < 32 || (c as u32) == 127
}

/// Unicode general category Cc (what `char::is_control` tests).
pub open spec fn is_control(c: char) -> bool {
    (c as u32) < 32 || (127 <= (c as u32) && (c as u32) <= 159)
}

/// Unicode `White_Space` (what `char::is_whitespace` and `str::trim` use).
pub open spec fn is_whitespace(c: char) -> bool {
    let u = c as u32;
    (9 <= u && u <= 13) || u == 32 || u == 0x85 || u == 0xA0 || u == 0x1680 || (0x2000 <= u
        && u <= 0x200A) || u == 0x2028 || u == 0x2029 || u == 0x202F || u == 0x205F || u == 0x3000
}

/// ASCII upper-casing of one character; every other character is unchanged.
pub open spec fn upper_char(c: char) -> char {
    if 'a' <= c && c <= 'z' {
        ((c as u32) - 32) as char
    } else {
        c
    }
}

/// ASCII upper-casing of a text.
pub open spec fn upper(s: Seq<char>) -> Seq<char> {
    s.map_values(|c: char| upper_char(c))
}

/// ASCII case-insensitive equality.
pub open spec fn eq_ignore_case(a: Seq<char>, b: Seq<char>) -> bool {
    upper(a) == upper(b)
}

/// `s` with its leading white space removed.
pub open spec fn trim_start(s: Seq<char>) -> Seq<char>
    decreases s.len(),
{
    if s.len() > 0 && is_whitespace(s[0]) {
        trim_start(s.drop_first())
    } else {
        s
    }
}

/// `s` with its trailing white space removed.
pub open spec fn trim_end(s: Seq<char>) -> Seq<char>
    decreases s.len(),
{
    if s.len() > 0 && is_whitespace(s.last()) {
        trim_end(s.drop_last())
    } else {
        s
    }
}

/// `s` with white space removed at both ends.
pub open spec fn trim(s: Seq<char>) -> Seq<char> {
    trim_end(trim_start(s))
}

/// `p` is a prefix of `s`.
pub open spec fn starts_with(s: Seq<char>, p: Seq<char>) -> bool {
    p.len() <= s.len() && s.take(p.len() as int) == p
}

/// `p` is a suffix of `s`.
pub open spec fn ends_with<T>(s: Seq<T>, p: Seq<T>) -> bool {
    p.len() <= s.len() && s.skip(s.len() - p.len()) == p
}

/// `n` occurs in `h` at index `i`.
pub open spec fn occurs_at<T>(h: Seq<T>, n: Seq<T>, i: int) -> bool {
    0 <= i && i + n.len() <= h.len() && h.subrange(i, i + n.len()) == n
}

/// Index of the first occurrence of `n` in `h` (what `str::find` gives, in characters).
pub open spec fn find_sub<T>(h: Seq<T>, n: Seq<T>) -> Option<int>
    decreases h.len(),
{
    if h.len() < n.len() {
        None
    } else if h.take(n.len() as int) == n {
        Some(0)
    } else if h.len() == 0 {
        None
    } else {
        match find_sub(h.drop_first(), n) {
            Some(i) => Some(i + 1),
            None => None,
        }
    }
}

/// `n` occurs somewhere in `h`.
pub open spec fn contains_sub<T>(h: Seq<T>, n: Seq<T>) -> bool {
    find_sub(h, n) is Some
}

/// Shift an optional index.
pub open spec fn shift(r: Option<int>, by: int) -> Option<int> {
    match r {
        Some(i) => Some(i + by),
        None => None,
    }
}

/// What `find_sub` gives: the first occurrence, or none at all.
pub proof fn lemma_find_sub<T>(h: Seq<T>, n: Seq<T>)
    ensures
        find_sub(h, n) matches Some(i) ==> occurs_at(h, n, i) && forall|j: int|
            0 <= j < i ==> !occurs_at(h, n, j),
        find_sub(h, n) is None ==> forall|j: int| !occurs_at(h, n, j),
    decreases h.len(),
{
    if h.len() < n.len() {
    } else if h.take(n.len() as int) == n {
        assert(h.subrange(0, n.len() as int) == h.take(n.len() as int));
    } else if h.len() == 0 {
        assert(h.take(n.len() as int) =~= n);
    } else {
        let t = h.drop_first();
        lemma_find_sub(t, n);
        assert(!occurs_at(h, n, 0)) by {
            assert(h.subrange(0, n.len() as int) == h.take(n.len() as int));
        }
        assert forall|j: int| j >= 1 implies #[trigger] occurs_at(h, n, j) == occurs_at(
            t,
            n,
            j - 1,
        ) by {
            if j + n.len() <= h.len() {
                assert(h.subrange(j, j + n.len()) =~= t.subrange(j - 1, j - 1 + n.len()));
            }
        }
        match find_sub(t, n) {
            Some(i) => {
                assert(occurs_at(h, n, i + 1));
                assert forall|j: int| 0 <= j < i + 1 implies !occurs_at(h, n, j) by {
                    if j >= 1 {
                        assert(!occurs_at(t, n, j - 1));
                    }
                }
            },
            None => {
                assert forall|j: int| !occurs_at(h, n, j) by {
                    if j >= 1 {
                        assert(!occurs_at(t, n, j - 1));
                    }
                }
            },
        }
    }
}

/// A sequence with no occurrence of `n` at any index has no first occurrence.
pub proof fn lemma_find_sub_unique<T>(h: Seq<T>, n: Seq<T>, i: int)
    requires
        occurs_at(h, n, i),
        forall|j: int| 0 <= j < i ==> !occurs_at(h, n, j),
    ensures
        find_sub(h, n) == Some(i),
{
    lemma_find_sub(h, n);
    match find_sub(h, n) {
        Some(k) => {
            if k < i {
            } else if k > i {
            }
        },
        None => {},
    }
}

/// `std::string::String::push`: appends one character.
#[verifier::external_body]
pub(crate) fn push_char(s: &mut String, c: char)
    ensures
        final(s)@ == old(s)@.push(c),
{
    s.push(c);
}

/// The characters of `s`, in order.
pub fn chars_of(s: &str) -> (v: Vec<char>)
    ensures
        v@ == s@,
{
    let mut v: Vec<char> = Vec::new();
    for c in it: s.chars()
        invariant
            v@ == it.seq().take(it.index() as int),
    {
        v.push(c);
    }
    v
}

/// A `String` holding `v[from..to]`.
pub fn string_of(v: &[char], from: usize, to: usize) -> (s: String)
    requires
        from <= to <= v@.len(),
    ensures
        s@ == v@.subrange(from as int, to as int),
{
    let mut s = String::new();
    let mut i = from;
    while i < to
        invariant
            from <= i <= to <= v@.len(),
            s@ == v@.subrange(from as int, i as int),
        decreases to - i,
    {
        push_char(&mut s, v[i]);
        assert(v@.subrange(from as int, i + 1) =~= v@.subrange(from as int, i as int).push(v@[i as int]));
        i += 1;
    }
    s
}

/// Appends `v[from..to]` to `s`.
pub fn push_range(s: &mut String, v: &[char], from: usize, to: usize)
    requires
        from <= to <= v@.len(),
    ensures
        final(s)@ == old(s)@ + v@.subrange(from as int, to as int),
{
    let ghost start = s@;
    let mut i = from;
    while i < to
        invariant
            from <= i <= to <= v@.len(),
            s@ == start + v@.subrange(from as int, i as int),
        decreases to - i,
    {
        push_char(s, v[i]);
        assert(v@.subrange(from as int, i + 1) =~= v@.subrange(from as int, i as int).push(v@[i as int]));
        assert(start + v@.subrange(from as int, i + 1) =~= (start + v@.subrange(from as int, i as int)).push(v@[i as int]));
        i += 1;
    }
}

/// Appends all of `t` to `s`.
pub fn push_str(s: &mut String, t: &str)
    ensures
        final(s)@ == old(s)@ + t@,
{
    let v = chars_of(t);
    push_range(s, &v, 0, v.len());
    assert(v@.subrange(0, v@.len() as int) =~= v@);
}

pub fn is_ascii_alpha_exec(c: char) -> (b: bool)
    ensures
        b == is_ascii_alpha(c),
{
    ('a' <= c && c <= 'z') || ('A' <= c && c <= 'Z')
}

pub fn is_ascii_digit_exec(c: char) -> (b: bool)
    ensures
        b == is_ascii_digit(c),
{
    '0' <= c && c <= '9'
}

pub fn is_ascii_char_exec(c: char) -> (b: bool)
    ensures
        b == is_ascii_char(c),
{
    (c as u32) < 128
}

pub fn is_ascii_control_exec(c: char) -> (b: bool)
    ensures
        b == is_ascii_control(c),
{
    (c as u32) < 32 || (c as u32) == 127
}

pub fn is_control_exec(c: char) -> (b: bool)
    ensures
        b == is_control(c),
{
    (c as u32) < 32 || (127 <= (c as u32) && (c as u32) <= 159)
}

pub fn is_whitespace_exec(c: char) -> (b: bool)
    ensures
        b == is_whitespace(c),
{
    let u = c as u32;
    (9 <= u && u <= 13) || u == 32 || u == 0x85 || u == 0xA0 || u == 0x1680 || (0x2000 <= u
        && u <= 0x200A) || u == 0x2028 || u == 0x2029 || u == 0x202F || u == 0x205F || u == 0x3000
}

pub fn upper_char_exec(c: char) -> (r: char)
    ensures
        r == upper_char(c),
{
    if 'a' <= c && c <= 'z' {
        let b: u8 = c as u8;
        (b - 32) as char
    } else {
        c
    }
}

/// ASCII upper-cased copy of `v`.
pub fn upper_vec(v: &[char]) -> (r: Vec<char>)
    ensures
        r@ == upper(v@),
{
    let mut r: Vec<char> = Vec::new();
    let mut i: usize = 0;
    while i < v.len()
        invariant
            i <= v@.len(),
            r@ == upper(v@.take(i as int)),
        decreases v@.len() - i,
    {
        r.push(upper_char_exec(v[i]));
        assert(upper(v@.take(i + 1)) =~= upper(v@.take(i as int)).push(upper_char(v@[i as int])));
        i += 1;
    }
    assert(v@.take(v@.len() as int) =~= v@);
    r
}

/// ASCII upper-cased copy of `s` (what `str::to_ascii_uppercase` gives).
pub fn to_upper(s: &str) -> (r: String)
    ensures
        r@ == upper(s@),
{
    let v = chars_of(s);
    let u = upper_vec(&v);
    string_of(&u, 0, u.len())
}

/// Whether `p` is a prefix of `h[at..to]`.
pub fn matches_at(h: &[char], p: &[char], at: usize, to: usize) -> (b: bool)
    requires
        at <= to <= h@.len(),
    ensures
        b == starts_with(h@.subrange(at as int, to as int), p@),
{
    if p.len() > to - at {
        return false;
    }
    let mut k: usize = 0;
    while k < p.len()
        invariant
            k <= p@.len(),
            at + p@.len() <= to <= h@.len(),
            forall|j: int| 0 <= j < k ==> h@[at + j] == p@[j],
        decreases p@.len() - k,
    {
        if h[at + k] != p[k] {
            assert(h@.subrange(at as int, to as int).take(p@.len() as int)[k as int] != p@[k as int]);
            return false;
        }
        k += 1;
    }
    assert(h@.subrange(at as int, to as int).take(p@.len() as int) =~= p@);
    true
}

/// Whether `h[from..to]` equals `p`.
pub fn range_eq(h: &[char], from: usize, to: usize, p: &[char]) -> (b: bool)
    requires
        from <= to <= h@.len(),
    ensures
        b == (h@.subrange(from as int, to as int) == p@),
{
    if to - from != p.len() {
        return false;
    }
    let b = matches_at(h, p, from, to);
    assert(h@.subrange(from as int, to as int).take(p@.len() as int) =~= h@.subrange(
        from as int,
        to as int,
    ));
    b
}

/// First occurrence of `n` in `h[from..to]`, as an index into `h`.
pub fn find_in(h: &[char], n: &[char], from: usize, to: usize) -> (r: Option<usize>)
    requires
        from <= to <= h@.len(),
    ensures
        match r {
            Some(i) => shift(find_sub(h@.subrange(from as int, to as int), n@), from as int)
                == Some(i as int) && from <= i && i + n@.len() <= to,
            None => find_sub(h@.subrange(from as int, to as int), n@) is None,
        },
{
    let mut i = from;
    loop
        invariant
            from <= i <= to <= h@.len(),
            find_sub(h@.subrange(from as int, to as int), n@) == shift(
                find_sub(h@.subrange(i as int, to as int), n@),
                i - from,
            ),
        decreases to - i,
    {
        if n.len() > to - i {
            return None;
        }
        if n.len() == 0 {
            assert(h@.subrange(i as int, to as int).take(0) =~= n@);
        }
        if matches_at(h, n, i, to) {
            return Some(i);
        }
        assert(h@.subrange(i as int, to as int).drop_first() =~= h@.subrange(i + 1, to as int));
        i += 1;
    }
}

/// Appends `v[from..to]` to `out`.
pub fn vec_extend(out: &mut Vec<char>, v: &[char], from: usize, to: usize)
    requires
        from <= to <= v@.len(),
    ensures
        final(out)@ == old(out)@ + v@.subrange(from as int, to as int),
{
    let ghost start = out@;
    let mut i = from;
    while i < to
        invariant
            from <= i <= to <= v@.len(),
            out@ == start + v@.subrange(from as int, i as int),
        decreases to - i,
    {
        out.push(v[i]);
        assert(start + v@.subrange(from as int, i + 1) =~= (start + v@.subrange(
            from as int,
            i as int,
        )).push(v@[i as int]));
        i += 1;
    }
}

/// Bounds `(a, b)` with `v[a..b]` the white-space-trimmed `v[from..to]`.
pub fn trim_bounds(v: &[char], from: usize, to: usize) -> (r: (usize, usize))
    requires
        from <= to <= v@.len(),
    ensures
        from <= r.0 <= r.1 <= to,
        v@.subrange(r.0 as int, r.1 as int) == trim(v@.subrange(from as int, to as int)),
        v@.subrange(r.0 as int, to as int) == trim_start(v@.subrange(from as int, to as int)),
{
    let mut a = from;
    while a < to && is_whitespace_exec(v[a])
        invariant
            from <= a <= to <= v@.len(),
            trim_start(v@.subrange(from as int, to as int)) == trim_start(
                v@.subrange(a as int, to as int),
            ),
        decreases to - a,
    {
        assert(v@.subrange(a as int, to as int).drop_first() =~= v@.subrange(a + 1, to as int));
        a += 1;
    }
    let mut b = to;
    while b > a && is_whitespace_exec(v[b - 1])
        invariant
            from <= a <= b <= to <= v@.len(),
            trim_end(v@.subrange(a as int, to as int)) == trim_end(v@.subrange(a as int, b as int)),
        decreases b - a,
    {
        assert(v@.subrange(a as int, b as int).drop_last() =~= v@.subrange(a as int, b - 1));
        b -= 1;
    }
    (a, b)
}

/// Whether `h[from..to]` equals `p` up to ASCII case.
pub fn eq_ignore_case_range(h: &[char], from: usize, to: usize, p: &[char]) -> (b: bool)
    requires
        from <= to <= h@.len(),
    ensures
        b == eq_ignore_case(h@.subrange(from as int, to as int), p@),
{
    let ghost a = h@.subrange(from as int, to as int);
    if to - from != p.len() {
        assert(upper(a).len() != upper(p@).len());
        return false;
    }
    let mut k: usize = 0;
    while k < p.len()
        invariant
            k <= p@.len(),
            from + p@.len() == to <= h@.len(),
            a == h@.subrange(from as int, to as int),
            forall|j: int| 0 <= j < k ==> upper(a)[j] == upper(p@)[j],
        decreases p@.len() - k,
    {
        if upper_char_exec(h[from + k]) != upper_char_exec(p[k]) {
            assert(upper(a)[k as int] != upper(p@)[k as int]);
            return false;
        }
        k += 1;
    }
    assert(upper(a) =~= upper(p@));
    true
}

/// Trimming the start never lengthens a text, and leaves a suffix of it.
pub proof fn lemma_trim_start_suffix(s: Seq<char>)
    ensures
        trim_start(s).len() <= s.len(),
        trim_start(s) == s.skip(s.len() - trim_start(s).len()),
    decreases s.len(),
{
    if s.len() > 0 && is_whitespace(s[0]) {
        lemma_trim_start_suffix(s.drop_first());
        assert(s.drop_first().skip(s.drop_first().len() - trim_start(s).len()) =~= s.skip(
            s.len() - trim_start(s).len(),
        ));
    } else {
        assert(s.skip(0) =~= s);
    }
}

/// Whether `part` stands somewhere in `doc` as a contiguous run.
pub open spec fn occurs(doc: Seq<char>, part: Seq<char>) -> bool {
    exists|i: int| #[trigger] occurs_at(doc, part, i)
}

/// A run stays in a text that grows at either end, a text ends with its
/// last run, and every text holds itself.
pub proof fn lemma_occurs_grow()
    ensures
        forall|x: Seq<char>, y: Seq<char>, p: Seq<char>| occurs(x, p) ==> #[trigger] occurs(x + y, p),
        forall|x: Seq<char>, y: Seq<char>, p: Seq<char>| occurs(y, p) ==> #[trigger] occurs(x + y, p),
        forall|x: Seq<char>, p: Seq<char>| #[trigger] occurs(x + p, p),
        forall|p: Seq<char>| #[trigger] occurs(p, p),
{
    assert forall|x: Seq<char>, y: Seq<char>, p: Seq<char>| occurs(x, p) implies #[trigger] occurs(x + y, p) by {
        let i = choose|i: int| #[trigger] occurs_at(x, p, i);
        assert((x + y).subrange(i, i + p.len()) =~= x.subrange(i, i + p.len()));
        assert(occurs_at(x + y, p, i));
    }
    assert forall|x: Seq<char>, y: Seq<char>, p: Seq<char>| occurs(y, p) implies #[trigger] occurs(x + y, p) by {
        let i = choose|i: int| #[trigger] occurs_at(y, p, i);
        assert((x + y).subrange(x.len() + i, x.len() + i + p.len()) =~= y.subrange(i, i + p.len()));
        assert(occurs_at(x + y, p, x.len() + i));
    }
    assert forall|x: Seq<char>, p: Seq<char>| #[trigger] occurs(x + p, p) by {
        assert((x + p).subrange(x.len() as int, (x.len() + p.len()) as int) =~= p);
        assert(occurs_at(x + p, p, x.len() as int));
    }
    assert forall|p: Seq<char>| #[trigger] occurs(p, p) by {
        assert(p.subrange(0, p.len() as int) =~= p);
        assert(occurs_at(p, p, 0));
    }
}

} // verus!
