//! Tagged-text primitives of the N3FJP station network: field names, entity
//! escaping, `<KEY>value</KEY>` tags and the reading of paired leaf tags.
use vstd::prelude::*;
use crate::error::Error;
use crate::number::{parse_bounded, parse_bounded_exec};
use crate::text::{
    chars_of, contains_sub, find_in, find_sub, is_ascii_alpha, is_ascii_alpha_exec, is_ascii_digit,
    is_ascii_digit_exec, is_control, is_control_exec, lemma_find_sub, lemma_find_sub_unique,
    matches_at, occurs_at, range_eq,
    starts_with, string_of, vec_extend,
};

verus! {

/// Character `c` may stand at index `i` of a field name.
pub open spec fn name_char(c: char, i: int) -> bool {
    is_ascii_alpha(c) || c == '_' || (i > 0 && is_ascii_digit(c))
}

/// A protocol field name: ASCII letters and `_`, digits after the first character.
pub open spec fn is_name(s: Seq<char>) -> bool {
    s.len() > 0 && forall|i: int| 0 <= i < s.len() ==> name_char(#[trigger] s[i], i)
}

/// A control character that a field value may not hold (all but CR, LF and TAB).
pub open spec fn forbidden_char(c: char) -> bool {
    is_control(c) && c != '\n' && c != '\r' && c != '\t'
}

/// `s` holds a forbidden control character.
pub open spec fn has_forbidden(s: Seq<char>) -> bool {
    exists|i: int| 0 <= i < s.len() && forbidden_char(#[trigger] s[i])
}

/// The entity text that stands for `c` in an escaped value.
pub open spec fn escape_char(c: char) -> Seq<char> {
    if c == '&' {
        seq!['&', 'a', 'm', 'p', ';']
    } else if c == '<' {
        seq!['&', 'l', 't', ';']
    } else if c == '>' {
        seq!['&', 'g', 't', ';']
    } else if c == '"' {
        seq!['&', 'q', 'u', 'o', 't', ';']
    } else if c == '\'' {
        seq!['&', 'a', 'p', 'o', 's', ';']
    } else {
        seq![c]
    }
}

/// `s` with `& < > " '` replaced by their entities.
pub open spec fn escaped(s: Seq<char>) -> Seq<char>
    decreases s.len(),
{
    if s.len() == 0 {
        seq![]
    } else {
        escaped(s.drop_last()) + escape_char(s.last())
    }
}

/// What escaping a field value gives.
pub open spec fn escape_spec(s: Seq<char>) -> Result<Seq<char>, Error> {
    if has_forbidden(s) {
        Err(Error::ControlCharacter)
    } else {
        Ok(escaped(s))
    }
}

/// The character that `n` names, if it is a Unicode scalar value.
pub open spec fn scalar(n: nat) -> Option<char> {
    if n <= 0x10FFFF && !(0xD800 <= n && n <= 0xDFFF) {
        Some(n as char)
    } else {
        None
    }
}

/// The character that the entity text between `&` and `;` stands for.
pub open spec fn entity_char(e: Seq<char>) -> Option<char> {
    if e == seq!['a', 'm', 'p'] {
        Some('&')
    } else if e == seq!['l', 't'] {
        Some('<')
    } else if e == seq!['g', 't'] {
        Some('>')
    } else if e == seq!['q', 'u', 'o', 't'] {
        Some('"')
    } else if e == seq!['a', 'p', 'o', 's'] {
        Some('\'')
    } else if starts_with(e, seq!['#', 'x']) {
        match parse_bounded(e.skip(2), 16, u32::MAX as nat) {
            Some(n) => scalar(n),
            None => None,
        }
    } else if starts_with(e, seq!['#']) {
        match parse_bounded(e.skip(1), 10, u32::MAX as nat) {
            Some(n) => scalar(n),
            None => None,
        }
    } else {
        None
    }
}

/// `o` prepended to a successful result.
pub open spec fn prepend(o: Seq<char>, r: Result<Seq<char>, Error>) -> Result<Seq<char>, Error> {
    match r {
        Ok(t) => Ok(o + t),
        Err(e) => Err(e),
    }
}

/// Entities of `s` replaced, left to right, by the characters they stand for.
pub open spec fn unescape_chars(s: Seq<char>) -> Result<Seq<char>, Error>
    decreases s.len(),
{
    match find_sub(s, seq!['&']) {
        None => Ok(s),
        Some(i) => {
            let rest = s.skip(i + 1);
            match find_sub(rest, seq![';']) {
                None => Err(Error::UnterminatedEntity),
                Some(e) => match entity_char(rest.take(e)) {
                    None => Err(Error::InvalidEntity),
                    Some(c) => {
                        proof {
                            lemma_find_sub(s, seq!['&']);
                            lemma_find_sub(rest, seq![';']);
                        }
                        prepend(s.take(i).push(c), unescape_chars(rest.skip(e + 1)))
                    },
                },
            }
        },
    }
}

/// What unescaping a received value gives: the unescaped text, which must
/// itself be a valid field value.
pub open spec fn unescape_spec(s: Seq<char>) -> Result<Seq<char>, Error> {
    match unescape_chars(s) {
        Ok(out) => if has_forbidden(out) {
            Err(Error::ControlCharacter)
        } else {
            Ok(out)
        },
        Err(e) => Err(e),
    }
}

/// The text `<key>escaped value</key>`.
pub open spec fn tag_text(key: Seq<char>, value: Seq<char>) -> Seq<char> {
    seq!['<'] + key + seq!['>'] + escaped(value) + seq!['<', '/'] + key + seq!['>']
}

/// What building one tag gives.
pub open spec fn tag_spec(key: Seq<char>, value: Seq<char>) -> Result<Seq<char>, Error> {
    if !is_name(key) {
        Err(Error::InvalidFieldName)
    } else if has_forbidden(value) {
        Err(Error::ControlCharacter)
    } else {
        Ok(tag_text(key, value))
    }
}

/// A `(key, value)` field, as text.
pub type FieldView = (Seq<char>, Seq<char>);

/// `fs` prepended to a successful list of fields.
pub open spec fn prepend_fields(fs: Seq<FieldView>, r: Result<Seq<FieldView>, Error>) -> Result<
    Seq<FieldView>,
    Error,
> {
    match r {
        Ok(t) => Ok(fs + t),
        Err(e) => Err(e),
    }
}

/// The paired leaf tags of `rest`, in order. Closing tags and containers that
/// hold other tags are passed over; a leaf value is unescaped.
pub open spec fn leaves_spec(rest: Seq<char>) -> Result<Seq<FieldView>, Error>
    decreases rest.len(),
{
    match find_sub(rest, seq!['<']) {
        None => Ok(seq![]),
        Some(start) => {
            let r = rest.skip(start + 1);
            match find_sub(r, seq!['>']) {
                None => Err(Error::UnterminatedTag),
                Some(end) => {
                    proof {
                        lemma_find_sub(rest, seq!['<']);
                        lemma_find_sub(r, seq!['>']);
                    }
                    let key = r.take(end);
                    let r2 = r.skip(end + 1);
                    if starts_with(key, seq!['/']) {
                        leaves_spec(r2)
                    } else if !is_name(key) {
                        Err(Error::InvalidTag)
                    } else {
                        let closing = seq!['<', '/'] + key + seq!['>'];
                        match find_sub(r2, closing) {
                            Some(e) => {
                                proof {
                                    lemma_find_sub(r2, closing);
                                }
                                if contains_sub(r2.take(e), seq!['<']) {
                                    leaves_spec(r2)
                                } else {
                                    match unescape_spec(r2.take(e)) {
                                        Err(x) => Err(x),
                                        Ok(v) => prepend_fields(
                                            seq![(key, v)],
                                            leaves_spec(r2.skip(e + closing.len())),
                                        ),
                                    }
                                }
                            },
                            None => leaves_spec(r2),
                        }
                    }
                },
            }
        },
    }
}

/// The view of a result holding a `String`.
pub open spec fn string_result(r: Result<String, Error>) -> Result<Seq<char>, Error> {
    match r {
        Ok(s) => Ok(s@),
        Err(e) => Err(e),
    }
}

/// The view of a list of `(key, value)` strings.
pub open spec fn fields_view(fs: Seq<(String, String)>) -> Seq<FieldView> {
    fs.map_values(|f: (String, String)| (f.0@, f.1@))
}

/// The view of a result holding fields.
pub open spec fn fields_result(r: Result<Vec<(String, String)>, Error>) -> Result<
    Seq<FieldView>,
    Error,
> {
    match r {
        Ok(fs) => Ok(fields_view(fs@)),
        Err(e) => Err(e),
    }
}

/// `std::char::from_u32`: the character with the given code point, unless the
/// code point is a surrogate or beyond U+10FFFF.
#[verifier::external_body]
pub(crate) fn char_from_u32(n: u32) -> (r: Option<char>)
    ensures
        r == scalar(n as nat),
{
    char::from_u32(n)
}

/// Escaping distributes over concatenation.
proof fn lemma_escaped_concat(a: Seq<char>, b: Seq<char>)
    ensures
        escaped(a + b) == escaped(a) + escaped(b),
    decreases b.len(),
{
    if b.len() == 0 {
        assert(a + b =~= a);
        assert(escaped(a) + escaped(b) =~= escaped(a));
    } else {
        lemma_escaped_concat(a, b.drop_last());
        assert((a + b).drop_last() =~= a + b.drop_last());
        assert(escaped(a) + escaped(b) =~= escaped(a) + escaped(b.drop_last()) + escape_char(b.last()));
    }
}

/// A character that escaping replaces by an entity.
pub open spec fn special(c: char) -> bool {
    c == '&' || c == '<' || c == '>' || c == '"' || c == '\''
}

/// Unescaping passes over a prefix without `&` unchanged.
proof fn lemma_unescape_plain_prefix(p: Seq<char>, x: Seq<char>)
    requires
        forall|i: int| 0 <= i < p.len() ==> p[i] != '&',
    ensures
        unescape_chars(p + x) == prepend(p, unescape_chars(x)),
{
    let amp = seq!['&'];
    let h = p + x;
    lemma_find_sub(x, amp);
    lemma_find_sub(h, amp);
    assert forall|j: int| 0 <= j < p.len() implies !occurs_at(h, amp, j) by {
        if occurs_at(h, amp, j) {
            assert(h.subrange(j, j + 1)[0] == h[j]);
        }
    }
    assert forall|j: int| p.len() <= j implies #[trigger] occurs_at(h, amp, j) == occurs_at(
        x,
        amp,
        j - p.len(),
    ) by {
        if j + 1 <= h.len() {
            assert(h.subrange(j, j + 1) =~= x.subrange(j - p.len(), j - p.len() + 1));
        }
    }
    match find_sub(x, amp) {
        Some(k) => {
            assert(occurs_at(h, amp, p.len() + k));
            assert forall|j: int| 0 <= j < p.len() + k implies !occurs_at(h, amp, j) by {
                if j >= p.len() {
                    assert(!occurs_at(x, amp, j - p.len()));
                }
            }
            lemma_find_sub_unique(h, amp, p.len() + k);
            assert(h.skip(p.len() + k + 1) =~= x.skip(k + 1));
            assert(h.take(p.len() + k) =~= p + x.take(k));
            let rest = x.skip(k + 1);
            match find_sub(rest, seq![';']) {
                None => {},
                Some(e) => match entity_char(rest.take(e)) {
                    None => {},
                    Some(c) => {
                        assert((p + x.take(k)).push(c) =~= p + x.take(k).push(c));
                        match unescape_chars(rest.skip(e + 1)) {
                            Ok(t) => {
                                assert((p + x.take(k)).push(c) + t =~= p + (x.take(k).push(c) + t));
                            },
                            Err(_) => {},
                        }
                    },
                },
            }
        },
        None => {
            assert forall|j: int| !occurs_at(h, amp, j) by {
                if j >= p.len() {
                    assert(!occurs_at(x, amp, j - p.len()));
                }
            }
            if find_sub(h, amp) is Some {
                lemma_find_sub(h, amp);
            }
            assert(find_sub(h, amp) is None);
        },
    }
}

/// Unescaping turns the entity of a special character back into it.
proof fn lemma_unescape_entity(c: char, x: Seq<char>)
    requires
        special(c),
    ensures
        unescape_chars(escape_char(c) + x) == prepend(seq![c], unescape_chars(x)),
{
    let ent = escape_char(c);
    let h = ent + x;
    let name = ent.subrange(1, ent.len() - 1);
    assert(h.take(1) =~= seq!['&']);
    assert(find_sub(h, seq!['&']) == Some(0int));
    let rest = h.skip(1);
    assert(rest =~= name + seq![';'] + x);
    assert(forall|i: int| 0 <= i < name.len() ==> name[i] != ';');
    lemma_find_sub(rest, seq![';']);
    assert forall|j: int| 0 <= j < name.len() implies !occurs_at(rest, seq![';'], j) by {
        if occurs_at(rest, seq![';'], j) {
            assert(rest.subrange(j, j + 1)[0] == rest[j]);
        }
    }
    assert(occurs_at(rest, seq![';'], name.len() as int)) by {
        assert(rest.subrange(name.len() as int, name.len() as int + 1) =~= seq![';']);
    }
    lemma_find_sub_unique(rest, seq![';'], name.len() as int);
    assert(rest.take(name.len() as int) =~= name);
    if c == '&' {
        assert(name =~= seq!['a', 'm', 'p']);
    } else if c == '<' {
        assert(name =~= seq!['l', 't']);
    } else if c == '>' {
        assert(name =~= seq!['g', 't']);
    } else if c == '"' {
        assert(name =~= seq!['q', 'u', 'o', 't']);
    } else {
        assert(name =~= seq!['a', 'p', 'o', 's']);
    }
    assert(entity_char(name) == Some(c));
    assert(rest.skip(name.len() as int + 1) =~= x);
    assert(h.take(0).push(c) =~= seq![c]);
}

/// Reading back an escaped value gives the value: unescaping undoes escaping
/// for every text without a forbidden control character.
pub proof fn lemma_unescape_escaped(s: Seq<char>)
    requires
        !has_forbidden(s),
    ensures
        unescape_spec(escaped(s)) == Ok::<Seq<char>, Error>(s),
{
    lemma_unescape_chars_escaped(s);
}

/// `unescape_chars` undoes `escaped`.
proof fn lemma_unescape_chars_escaped(s: Seq<char>)
    ensures
        unescape_chars(escaped(s)) == Ok::<Seq<char>, Error>(s),
    decreases s.len(),
{
    assert(escaped(Seq::<char>::empty()) =~= Seq::<char>::empty());
    if s.len() == 0 {
        assert(find_sub(Seq::<char>::empty(), seq!['&']) is None);
        assert(s =~= Seq::<char>::empty());
    } else {
        let c = s[0];
        let t = s.drop_first();
        assert(s =~= seq![c] + t);
        lemma_escaped_concat(seq![c], t);
        assert(escaped(seq![c]) =~= escape_char(c)) by {
            assert(seq![c].drop_last() =~= Seq::<char>::empty());
            assert(Seq::<char>::empty() + escape_char(c) =~= escape_char(c));
        }
        lemma_unescape_chars_escaped(t);
        if special(c) {
            lemma_unescape_entity(c, escaped(t));
        } else {
            assert(escape_char(c) =~= seq![c]);
            lemma_unescape_plain_prefix(seq![c], escaped(t));
        }
        assert(escaped(s) == escape_char(c) + escaped(t));
    }
}

/// An escaped text holds no angle bracket.
pub proof fn lemma_escaped_no_angle(s: Seq<char>)
    ensures
        forall|i: int| 0 <= i < escaped(s).len() ==> #[trigger] escaped(s)[i] != '<' && escaped(s)[i] != '>',
    decreases s.len(),
{
    if s.len() > 0 {
        lemma_escaped_no_angle(s.drop_last());
        let a = escaped(s.drop_last());
        let b = escape_char(s.last());
        assert forall|i: int| 0 <= i < escaped(s).len() implies #[trigger] escaped(s)[i] != '<'
            && escaped(s)[i] != '>' by {
            if i >= a.len() {
                assert(escaped(s)[i] == b[i - a.len()]);
            } else {
                assert(escaped(s)[i] == a[i]);
            }
        }
    }
}

/// A field written as a tag reads back as that field, ahead of whatever
/// follows it.
pub proof fn lemma_leaves_tag(key: Seq<char>, value: Seq<char>, x: Seq<char>)
    requires
        is_name(key),
        !has_forbidden(value),
    ensures
        leaves_spec(tag_text(key, value) + x) == prepend_fields(seq![(key, value)], leaves_spec(x)),
{
    let e = escaped(value);
    let h = tag_text(key, value) + x;
    let lt = seq!['<'];
    let gt = seq!['>'];
    let closing = seq!['<', '/'] + key + seq!['>'];
    lemma_escaped_no_angle(value);
    assert(h.take(1) =~= lt);
    assert(find_sub(h, lt) == Some(0int));
    let r = h.skip(1);
    assert(r =~= key + seq!['>'] + e + closing + x);
    assert(occurs_at(r, gt, key.len() as int)) by {
        assert(r.subrange(key.len() as int, key.len() as int + 1) =~= gt);
    }
    assert forall|j: int| 0 <= j < key.len() implies !occurs_at(r, gt, j) by {
        assert(name_char(key[j], j));
        if occurs_at(r, gt, j) {
            assert(r.subrange(j, j + 1)[0] == r[j]);
        }
    }
    lemma_find_sub_unique(r, gt, key.len() as int);
    assert(r.take(key.len() as int) =~= key);
    let r2 = r.skip(key.len() as int + 1);
    assert(r2 =~= e + closing + x);
    assert(name_char(key[0], 0));
    assert(!starts_with(key, seq!['/'])) by {
        if starts_with(key, seq!['/']) {
            assert(key.take(1)[0] == key[0]);
        }
    }
    assert(occurs_at(r2, closing, e.len() as int)) by {
        assert(r2.subrange(e.len() as int, (e.len() + closing.len()) as int) =~= closing);
    }
    assert forall|j: int| 0 <= j < e.len() implies !occurs_at(r2, closing, j) by {
        if occurs_at(r2, closing, j) {
            assert(r2.subrange(j, j + closing.len())[0] == r2[j]);
            assert(r2[j] == e[j]);
        }
    }
    lemma_find_sub_unique(r2, closing, e.len() as int);
    assert(r2.take(e.len() as int) =~= e);
    lemma_find_sub(e, lt);
    if contains_sub(e, lt) {
        let i = find_sub(e, lt)->Some_0;
        assert(e.subrange(i, i + 1)[0] == e[i]);
    }
    lemma_unescape_escaped(value);
    assert(r2.skip((e.len() + closing.len()) as int) =~= x);
}

/// The tags of `fs` when all of them can be written, first tag first.
pub proof fn lemma_tags_front(fs: Seq<FieldView>)
    requires
        fs.len() > 0,
        tags_ok(fs),
    ensures
        tags_text(fs) == tag_text(fs[0].0, fs[0].1) + tags_text(fs.drop_first()),
    decreases fs.len(),
{
    if fs.len() > 1 {
        lemma_tags_front(fs.drop_last());
        assert(fs.drop_last().drop_first() =~= fs.drop_first().drop_last());
        assert(fs.drop_first().last() == fs.last());
    } else {
        assert(fs.drop_last() =~= Seq::<FieldView>::empty());
        assert(fs.drop_first() =~= Seq::<FieldView>::empty());
    }
}

/// Every field of `fs` can be written as a tag.
pub open spec fn tags_ok(fs: Seq<FieldView>) -> bool {
    forall|i: int| 0 <= i < fs.len() ==> is_name(#[trigger] fs[i].0) && !has_forbidden(fs[i].1)
}

/// The tags of `fs`, in order.
pub open spec fn tags_text(fs: Seq<FieldView>) -> Seq<char>
    decreases fs.len(),
{
    if fs.len() == 0 {
        seq![]
    } else {
        tags_text(fs.drop_last()) + tag_text(fs.last().0, fs.last().1)
    }
}

/// Fields written as tags read back as those fields, in order, ahead of
/// whatever follows them.
pub proof fn lemma_leaves_tags(fs: Seq<FieldView>, x: Seq<char>)
    requires
        tags_ok(fs),
    ensures
        leaves_spec(tags_text(fs) + x) == prepend_fields(fs, leaves_spec(x)),
    decreases fs.len(),
{
    if fs.len() == 0 {
        assert(tags_text(fs) + x =~= x);
        match leaves_spec(x) {
            Ok(t) => {
                assert(fs + t =~= t);
            },
            Err(_) => {},
        }
    } else {
        let rest = fs.drop_first();
        assert(tags_ok(rest)) by {
            assert forall|i: int| 0 <= i < rest.len() implies is_name(#[trigger] rest[i].0)
                && !has_forbidden(rest[i].1) by {
                assert(rest[i] == fs[i + 1]);
            }
        }
        assert(is_name(fs[0].0) && !has_forbidden(fs[0].1));
        lemma_tags_front(fs);
        lemma_leaves_tags(rest, x);
        assert(tags_text(fs) + x =~= tag_text(fs[0].0, fs[0].1) + (tags_text(rest) + x));
        lemma_leaves_tag(fs[0].0, fs[0].1, tags_text(rest) + x);
        match leaves_spec(x) {
            Ok(t) => {
                assert(seq![(fs[0].0, fs[0].1)] + (rest + t) =~= fs + t);
            },
            Err(_) => {},
        }
    }
}

/// Whether `v[from..to]` is a field name.
pub fn name_range(v: &[char], from: usize, to: usize) -> (b: bool)
    requires
        from <= to <= v@.len(),
    ensures
        b == is_name(v@.subrange(from as int, to as int)),
{
    let ghost s = v@.subrange(from as int, to as int);
    if from == to {
        return false;
    }
    let mut i = from;
    while i < to
        invariant
            from <= i <= to <= v@.len(),
            s == v@.subrange(from as int, to as int),
            forall|j: int| 0 <= j < i - from ==> name_char(#[trigger] s[j], j),
        decreases to - i,
    {
        let c = v[i];
        if !(is_ascii_alpha_exec(c) || c == '_' || (i > from && is_ascii_digit_exec(c))) {
            assert(!name_char(s[i - from], i - from));
            return false;
        }
        i += 1;
    }
    true
}

/// Whether `value` is a field name.
pub(crate) fn name(value: &str) -> (b: bool)
    ensures
        b == is_name(value@),
{
    let v = chars_of(value);
    let b = name_range(&v, 0, v.len());
    assert(v@.subrange(0, v@.len() as int) =~= v@);
    b
}

/// Whether `v[from..to]` holds a forbidden control character.
pub fn has_forbidden_range(v: &[char], from: usize, to: usize) -> (b: bool)
    requires
        from <= to <= v@.len(),
    ensures
        b == has_forbidden(v@.subrange(from as int, to as int)),
{
    let ghost s = v@.subrange(from as int, to as int);
    let mut i = from;
    while i < to
        invariant
            from <= i <= to <= v@.len(),
            s == v@.subrange(from as int, to as int),
            forall|j: int| 0 <= j < i - from ==> !forbidden_char(#[trigger] s[j]),
        decreases to - i,
    {
        let c = v[i];
        if is_control_exec(c) && c != '\n' && c != '\r' && c != '\t' {
            assert(forbidden_char(s[i - from]));
            return true;
        }
        i += 1;
    }
    false
}

/// Appends the entity text for `c` to `out`.
fn push_escape_char(out: &mut Vec<char>, c: char)
    ensures
        final(out)@ == old(out)@ + escape_char(c),
{
    let ghost start = out@;
    if c == '&' {
        out.push('&');
        out.push('a');
        out.push('m');
        out.push('p');
        out.push(';');
    } else if c == '<' {
        out.push('&');
        out.push('l');
        out.push('t');
        out.push(';');
    } else if c == '>' {
        out.push('&');
        out.push('g');
        out.push('t');
        out.push(';');
    } else if c == '"' {
        out.push('&');
        out.push('q');
        out.push('u');
        out.push('o');
        out.push('t');
        out.push(';');
    } else if c == '\'' {
        out.push('&');
        out.push('a');
        out.push('p');
        out.push('o');
        out.push('s');
        out.push(';');
    } else {
        out.push(c);
    }
    assert(out@ =~= start + escape_char(c));
}

/// Appends the escaped `v[from..to]` to `out`.
pub fn push_escaped(out: &mut Vec<char>, v: &[char], from: usize, to: usize)
    requires
        from <= to <= v@.len(),
    ensures
        final(out)@ == old(out)@ + escaped(v@.subrange(from as int, to as int)),
{
    let ghost start = out@;
    let mut i = from;
    assert(escaped(v@.subrange(from as int, from as int)) =~= Seq::<char>::empty());
    while i < to
        invariant
            from <= i <= to <= v@.len(),
            out@ == start + escaped(v@.subrange(from as int, i as int)),
        decreases to - i,
    {
        push_escape_char(out, v[i]);
        assert(v@.subrange(from as int, i + 1).drop_last() =~= v@.subrange(from as int, i as int));
        assert(escaped(v@.subrange(from as int, i + 1)) == escaped(v@.subrange(from as int, i as int))
            + escape_char(v@[i as int]));
        assert(start + escaped(v@.subrange(from as int, i + 1)) =~= start + escaped(
            v@.subrange(from as int, i as int),
        ) + escape_char(v@[i as int]));
        i += 1;
    }
}

/// A field value with `& < > " '` replaced by entities; control characters
/// other than CR, LF and TAB are refused.
pub(crate) fn escape(value: &str) -> (r: Result<String, Error>)
    ensures
        string_result(r) == escape_spec(value@),
{
    let v = chars_of(value);
    assert(v@.subrange(0, v@.len() as int) =~= v@);
    if has_forbidden_range(&v, 0, v.len()) {
        return Err(Error::ControlCharacter);
    }
    let mut out: Vec<char> = Vec::new();
    push_escaped(&mut out, &v, 0, v.len());
    assert(Seq::<char>::empty() + escaped(v@) =~= escaped(v@));
    assert(out@.subrange(0, out@.len() as int) =~= out@);
    Ok(string_of(&out, 0, out.len()))
}

/// The character that the entity text `v[from..to]` stands for.
fn entity_char_exec(v: &[char], from: usize, to: usize) -> (r: Option<char>)
    requires
        from <= to <= v@.len(),
    ensures
        r == entity_char(v@.subrange(from as int, to as int)),
{
    let ghost e = v@.subrange(from as int, to as int);
    let amp = ['a', 'm', 'p'];
    let lt = ['l', 't'];
    let gt = ['g', 't'];
    let quot = ['q', 'u', 'o', 't'];
    let apos = ['a', 'p', 'o', 's'];
    let hex = ['#', 'x'];
    let dec = ['#'];
    assert(amp@ == seq!['a', 'm', 'p']);
    assert(lt@ == seq!['l', 't']);
    assert(gt@ == seq!['g', 't']);
    assert(quot@ == seq!['q', 'u', 'o', 't']);
    assert(apos@ == seq!['a', 'p', 'o', 's']);
    assert(hex@ == seq!['#', 'x']);
    assert(dec@ == seq!['#']);
    if range_eq(v, from, to, &amp) {
        Some('&')
    } else if range_eq(v, from, to, &lt) {
        Some('<')
    } else if range_eq(v, from, to, &gt) {
        Some('>')
    } else if range_eq(v, from, to, &quot) {
        Some('"')
    } else if range_eq(v, from, to, &apos) {
        Some('\'')
    } else if matches_at(v, &hex, from, to) {
        assert(e.skip(2) =~= v@.subrange(from + 2, to as int));
        match parse_bounded_exec(v, from + 2, to, 16, 0xFFFF_FFFF) {
            Some(n) => char_from_u32(n as u32),
            None => None,
        }
    } else if matches_at(v, &dec, from, to) {
        assert(e.skip(1) =~= v@.subrange(from + 1, to as int));
        match parse_bounded_exec(v, from + 1, to, 10, 0xFFFF_FFFF) {
            Some(n) => char_from_u32(n as u32),
            None => None,
        }
    } else {
        None
    }
}

/// Entities of `v[from..to]` replaced by the characters they stand for.
pub fn unescape_range(v: &[char], from: usize, to: usize) -> (r: Result<String, Error>)
    requires
        from <= to <= v@.len(),
    ensures
        string_result(r) == unescape_spec(v@.subrange(from as int, to as int)),
{
    let mut out: Vec<char> = Vec::new();
    let mut pos = from;
    let amp = ['&'];
    let semi = [';'];
    assert(amp@ == seq!['&']);
    assert(semi@ == seq![';']);
    loop
        invariant
            from <= pos <= to <= v@.len(),
            amp@ == seq!['&'],
            semi@ == seq![';'],
            unescape_chars(v@.subrange(from as int, to as int)) == prepend(
                out@,
                unescape_chars(v@.subrange(pos as int, to as int)),
            ),
        decreases to - pos,
    {
        let ghost s = v@.subrange(pos as int, to as int);
        match find_in(v, &amp, pos, to) {
            None => {
                vec_extend(&mut out, v, pos, to);
                if has_forbidden_range(&out, 0, out.len()) {
                    assert(out@.subrange(0, out@.len() as int) =~= out@);
                    return Err(Error::ControlCharacter);
                }
                assert(out@.subrange(0, out@.len() as int) =~= out@);
                return Ok(string_of(&out, 0, out.len()));
            },
            Some(a) => {
                let ghost i: int = a - pos;
                proof {
                    lemma_find_sub(s, seq!['&']);
                }
                assert(s.skip(i + 1) =~= v@.subrange(a + 1, to as int));
                match find_in(v, &semi, a + 1, to) {
                    None => {
                        return Err(Error::UnterminatedEntity);
                    },
                    Some(b) => {
                        let ghost rest = s.skip(i + 1);
                        let ghost e = b - (a + 1);
                        proof {
                            lemma_find_sub(rest, seq![';']);
                        }
                        assert(rest.take(e) =~= v@.subrange(a + 1, b as int));
                        match entity_char_exec(v, a + 1, b) {
                            None => {
                                return Err(Error::InvalidEntity);
                            },
                            Some(c) => {
                                assert(rest.skip(e + 1) =~= v@.subrange(b + 1, to as int));
                                assert(s.take(i) =~= v@.subrange(pos as int, a as int));
                                let ghost old_out = out@;
                                vec_extend(&mut out, v, pos, a);
                                out.push(c);
                                assert(out@ =~= old_out + s.take(i).push(c));
                                assert(unescape_chars(s) == prepend(
                                    s.take(i).push(c),
                                    unescape_chars(v@.subrange(b + 1, to as int)),
                                ));
                                proof {
                                    match unescape_chars(v@.subrange(b + 1, to as int)) {
                                        Ok(t) => {
                                            assert(old_out + (s.take(i).push(c) + t) =~= out@ + t);
                                        },
                                        Err(_) => {},
                                    }
                                }
                                pos = b + 1;
                            },
                        }
                    },
                }
            },
        }
    }
}

/// A received value with its entities replaced by the characters they stand for.
pub(crate) fn unescape(value: &str) -> (r: Result<String, Error>)
    ensures
        string_result(r) == unescape_spec(value@),
{
    let v = chars_of(value);
    assert(v@.subrange(0, v@.len() as int) =~= v@);
    unescape_range(&v, 0, v.len())
}

/// Appends `<key>escaped value</key>` for `key[kf..kt]` and `value[vf..vt]` to `out`.
pub fn push_tag(
    out: &mut Vec<char>,
    key: &[char],
    kf: usize,
    kt: usize,
    value: &[char],
    vf: usize,
    vt: usize,
) -> (r: Result<(), Error>)
    requires
        kf <= kt <= key@.len(),
        vf <= vt <= value@.len(),
    ensures
        match tag_spec(key@.subrange(kf as int, kt as int), value@.subrange(vf as int, vt as int)) {
            Ok(t) => r is Ok && final(out)@ == old(out)@ + t,
            Err(e) => r == Err::<(), Error>(e),
        },
{
    if !name_range(key, kf, kt) {
        return Err(Error::InvalidFieldName);
    }
    if has_forbidden_range(value, vf, vt) {
        return Err(Error::ControlCharacter);
    }
    let ghost start = out@;
    let ghost k = key@.subrange(kf as int, kt as int);
    let ghost val = value@.subrange(vf as int, vt as int);
    out.push('<');
    vec_extend(out, key, kf, kt);
    out.push('>');
    push_escaped(out, value, vf, vt);
    out.push('<');
    out.push('/');
    vec_extend(out, key, kf, kt);
    out.push('>');
    assert(out@ =~= start + tag_text(k, val));
    Ok(())
}

/// The text `<key>escaped value</key>`.
pub(crate) fn tag(key: &str, value: &str) -> (r: Result<String, Error>)
    ensures
        string_result(r) == tag_spec(key@, value@),
{
    let k = chars_of(key);
    let v = chars_of(value);
    assert(k@.subrange(0, k@.len() as int) =~= k@);
    assert(v@.subrange(0, v@.len() as int) =~= v@);
    let mut out: Vec<char> = Vec::new();
    match push_tag(&mut out, &k, 0, k.len(), &v, 0, v.len()) {
        Ok(()) => {
            assert(Seq::<char>::empty() + tag_text(k@, v@) =~= tag_text(k@, v@));
            assert(out@.subrange(0, out@.len() as int) =~= out@);
            Ok(string_of(&out, 0, out.len()))
        },
        Err(e) => Err(e),
    }
}

/// The paired leaf tags of `v[from..to]`, in order.
pub fn leaves_range(v: &[char], from: usize, to: usize) -> (r: Result<Vec<(String, String)>, Error>)
    requires
        from <= to <= v@.len(),
    ensures
        fields_result(r) == leaves_spec(v@.subrange(from as int, to as int)),
{
    let mut fields: Vec<(String, String)> = Vec::new();
    let mut pos = from;
    let lt = ['<'];
    let gt = ['>'];
    loop
        invariant
            from <= pos <= to <= v@.len(),
            lt@ == seq!['<'],
            gt@ == seq!['>'],
            leaves_spec(v@.subrange(from as int, to as int)) == prepend_fields(
                fields_view(fields@),
                leaves_spec(v@.subrange(pos as int, to as int)),
            ),
        decreases to - pos,
    {
        let ghost rest = v@.subrange(pos as int, to as int);
        match find_in(v, &lt, pos, to) {
            None => {
                assert(fields_view(fields@) + Seq::<FieldView>::empty() =~= fields_view(fields@));
                return Ok(fields);
            },
            Some(s) => {
                proof {
                    lemma_find_sub(rest, seq!['<']);
                }
                let ghost r0 = rest.skip(s - pos + 1);
                assert(r0 =~= v@.subrange(s + 1, to as int));
                match find_in(v, &gt, s + 1, to) {
                    None => {
                        return Err(Error::UnterminatedTag);
                    },
                    Some(e) => {
                        proof {
                            lemma_find_sub(r0, seq!['>']);
                        }
                        let ghost key = r0.take(e - (s + 1));
                        let ghost r2 = r0.skip(e - (s + 1) + 1);
                        assert(key =~= v@.subrange(s + 1, e as int));
                        assert(r2 =~= v@.subrange(e + 1, to as int));
                        if e > s + 1 && v[s + 1] == '/' {
                            assert(starts_with(key, seq!['/'])) by {
                                assert(key.take(1) =~= seq!['/']);
                            }
                            pos = e + 1;
                        } else {
                            assert(!starts_with(key, seq!['/'])) by {
                                if key.len() >= 1 {
                                    assert(key.take(1)[0] == key[0]);
                                }
                            }
                            if !name_range(v, s + 1, e) {
                                return Err(Error::InvalidTag);
                            }
                            let mut closing: Vec<char> = Vec::new();
                            closing.push('<');
                            closing.push('/');
                            vec_extend(&mut closing, v, s + 1, e);
                            closing.push('>');
                            assert(closing@ =~= seq!['<', '/'] + key + seq!['>']);
                            match find_in(v, &closing, e + 1, to) {
                                None => {
                                    pos = e + 1;
                                },
                                Some(c) => {
                                    proof {
                                        lemma_find_sub(r2, closing@);
                                    }
                                    assert(r2.take(c - (e + 1)) =~= v@.subrange(e + 1, c as int));
                                    if find_in(v, &lt, e + 1, c).is_some() {
                                        pos = e + 1;
                                    } else {
                                        match unescape_range(v, e + 1, c) {
                                            Err(x) => {
                                                return Err(x);
                                            },
                                            Ok(value) => {
                                                let k = string_of(v, s + 1, e);
                                                let ghost old_fields = fields@;
                                                fields.push((k, value));
                                                let next = c + closing.len();
                                                assert(r2.skip(c - (e + 1) + closing@.len())
                                                    =~= v@.subrange(next as int, to as int));
                                                assert(fields_view(fields@) =~= fields_view(
                                                    old_fields,
                                                ) + seq![(key, value@)]);
                                                proof {
                                                    match leaves_spec(
                                                        v@.subrange(next as int, to as int),
                                                    ) {
                                                        Ok(t) => {
                                                            assert(fields_view(old_fields) + (seq![
                                                                (key, value@),
                                                            ] + t) =~= fields_view(fields@) + t);
                                                        },
                                                        Err(_) => {},
                                                    }
                                                }
                                                pos = next;
                                            },
                                        }
                                    }
                                },
                            }
                        }
                    },
                }
            },
        }
    }
}

/// The paired leaf tags of `body`, in order; the captured protocol's unclosed
/// containers are tolerated.
pub(crate) fn leaves(body: &str) -> (r: Result<Vec<(String, String)>, Error>)
    ensures
        fields_result(r) == leaves_spec(body@),
{
    let v = chars_of(body);
    assert(v@.subrange(0, v@.len() as int) =~= v@);
    leaves_range(&v, 0, v.len())
}

} // verus!
