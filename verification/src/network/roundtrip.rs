//! What reading gives back of writing: a message body, read again, is the
//! message that was written.
use vstd::prelude::*;
use crate::error::Error;
use crate::text::{is_whitespace, starts_with, trim, trim_end, trim_start};
use crate::wire::{
    escaped, has_forbidden, is_name, leaves_spec, lemma_escaped_no_angle, lemma_leaves_tag,
    lemma_leaves_tags, lemma_tags_front, lemma_unescape_escaped, name_char, tag_text, tags_ok,
    tags_text, FieldView,
};
use super::codec::{
    bor_mark, decode_utf16, encode_spec, encode_utf16, eor_mark, extract_spec, feed_spec, frame_end,
    frame_text, le_bytes, lemma_feed_split, lemma_le_bytes_concat, payload_spec, step_spec,
    units_of, utf16_of,
};
use super::message::{
    body_spec, get_field, greeting_text, kind_name, kind_of, parse_spec, station_tags,
    stations_of, tags_spec, xml_data, MessageView, TransactionView,
};

verus! {

/// `<c>inner</c>`.
pub open spec fn container(c: Seq<char>, inner: Seq<char>) -> Seq<char> {
    seq!['<'] + c + seq!['>'] + inner + seq!['<', '/'] + c + seq!['>']
}

/// Written tags are exactly the tags of fields that can be written.
proof fn lemma_tags_spec(fs: Seq<FieldView>)
    ensures
        tags_spec(fs) is Ok <==> tags_ok(fs),
        tags_ok(fs) ==> tags_spec(fs) == Ok::<Seq<char>, Error>(tags_text(fs)),
    decreases fs.len(),
{
    if fs.len() > 0 {
        lemma_tags_spec(fs.drop_last());
        assert(tags_ok(fs) <==> tags_ok(fs.drop_last()) && is_name(fs.last().0) && !has_forbidden(
            fs.last().1,
        )) by {
            if tags_ok(fs.drop_last()) && is_name(fs.last().0) && !has_forbidden(fs.last().1) {
                assert forall|i: int| 0 <= i < fs.len() implies is_name(#[trigger] fs[i].0)
                    && !has_forbidden(fs[i].1) by {
                    if i < fs.len() - 1 {
                        assert(fs[i] == fs.drop_last()[i]);
                        assert(is_name(fs.drop_last()[i].0) && !has_forbidden(fs.drop_last()[i].1));
                    } else {
                        assert(fs[i] == fs.last());
                    }
                }
            }
            if tags_ok(fs) {
                assert forall|i: int| 0 <= i < fs.drop_last().len() implies is_name(
                    #[trigger] fs.drop_last()[i].0,
                ) && !has_forbidden(fs.drop_last()[i].1) by {
                    assert(fs[i] == fs.drop_last()[i]);
                }
                assert(is_name(fs[fs.len() - 1].0));
            }
        }
    } else {
        assert(tags_text(fs) =~= Seq::<char>::empty());
    }
}

/// A text that starts and ends with a character other than white space is
/// its own trim.
proof fn lemma_trim_fixed(s: Seq<char>)
    requires
        s.len() > 0,
        !is_whitespace(s[0]),
        !is_whitespace(s.last()),
    ensures
        trim(s) == s,
{
    assert(trim_start(s) == s);
    assert(trim_end(s) == s);
}

/// A closing tag is passed over.
proof fn lemma_leaves_close(c: Seq<char>, x: Seq<char>)
    requires
        is_name(c),
    ensures
        leaves_spec(seq!['<', '/'] + c + seq!['>'] + x) == leaves_spec(x),
{
    let n = c.len() as int;
    let h = seq!['<', '/'] + c + seq!['>'] + x;
    let lt = seq!['<'];
    let gt = seq!['>'];
    assert(h.take(1) =~= lt);
    assert(crate::text::find_sub(h, lt) == Some(0int));
    let r = h.skip(1);
    assert(r =~= seq!['/'] + c + seq!['>'] + x);
    assert(crate::text::occurs_at(r, gt, n + 1)) by {
        assert(r.subrange(n + 1, n + 2) =~= gt);
    }
    assert forall|j: int| 0 <= j < n + 1 implies !crate::text::occurs_at(r, gt, j) by {
        if j > 0 {
            assert(name_char(c[j - 1], j - 1));
        }
        if crate::text::occurs_at(r, gt, j) {
            assert(r.subrange(j, j + 1)[0] == r[j]);
        }
    }
    crate::text::lemma_find_sub_unique(r, gt, n + 1);
    let key = r.take(n + 1);
    assert(key.take(1) =~= seq!['/']);
    assert(starts_with(key, seq!['/']));
    assert(r.skip(n + 2) =~= x);
}

/// A container is read as its content followed by its closing tag, when the
/// content starts with an opening tag.
proof fn lemma_leaves_open(c: Seq<char>, inner: Seq<char>, x: Seq<char>)
    requires
        is_name(c),
        inner.len() >= 2,
        inner[0] == '<',
        inner[1] != '/',
    ensures
        leaves_spec(container(c, inner) + x) == leaves_spec(inner + seq!['<', '/'] + c + seq!['>'] + x),
{
    let n = c.len() as int;
    let h = container(c, inner) + x;
    let lt = seq!['<'];
    let gt = seq!['>'];
    let closing = seq!['<', '/'] + c + seq!['>'];
    assert(h.take(1) =~= lt);
    assert(crate::text::find_sub(h, lt) == Some(0int));
    let r = h.skip(1);
    assert(r =~= c + seq!['>'] + (inner + closing + x));
    assert(crate::text::occurs_at(r, gt, n)) by {
        assert(r.subrange(n, n + 1) =~= gt);
    }
    assert forall|j: int| 0 <= j < n implies !crate::text::occurs_at(r, gt, j) by {
        assert(name_char(c[j], j));
        if crate::text::occurs_at(r, gt, j) {
            assert(r.subrange(j, j + 1)[0] == r[j]);
        }
    }
    crate::text::lemma_find_sub_unique(r, gt, n);
    assert(r.take(n) =~= c);
    assert(name_char(c[0], 0));
    assert(!starts_with(c, seq!['/'])) by {
        if starts_with(c, seq!['/']) {
            assert(c.take(1)[0] == c[0]);
        }
    }
    let r2 = r.skip(n + 1);
    assert(r2 =~= inner + closing + x);
    assert(inner + closing + x =~= inner + seq!['<', '/'] + c + seq!['>'] + x);
    crate::text::lemma_find_sub(r2, closing);
    match crate::text::find_sub(r2, closing) {
        Some(e) => {
            if e == 0 {
                assert(r2.subrange(0, closing.len() as int)[1] == r2[1]);
            }
            assert(crate::text::occurs_at(r2.take(e), lt, 0)) by {
                assert(r2.take(e).subrange(0, 1) =~= lt);
            }
            crate::text::lemma_find_sub(r2.take(e), lt);
        },
        None => {},
    }
}


/// A text whose second character differs from that of `p` does not start with `p`.
proof fn lemma_not_starts(b: Seq<char>, p: Seq<char>)
    requires
        b.len() >= 2,
        p.len() >= 2,
        b[1] != p[1],
    ensures
        !starts_with(b, p),
{
    if starts_with(b, p) {
        assert(b.take(p.len() as int)[1] == b[1]);
    }
}

/// The fields that a body of tags in a container reads back as.
proof fn lemma_read_container(c: Seq<char>, fs: Seq<FieldView>)
    requires
        is_name(c),
        tags_ok(fs),
        fs.len() > 0,
    ensures
        leaves_spec(container(c, tags_text(fs))) == Ok::<Seq<FieldView>, Error>(fs),
        trim(container(c, tags_text(fs))) == container(c, tags_text(fs)),
{
    let t = tags_text(fs);
    let closing = seq!['<', '/'] + c + seq!['>'];
    lemma_tags_front(fs);
    let first = tag_text(fs[0].0, fs[0].1);
    assert(is_name(fs[0].0));
    assert(name_char(fs[0].0[0], 0));
    assert(t[0] == '<' && t[1] == fs[0].0[0]) by {
        assert(t[0] == first[0]);
        assert(t[1] == first[1]);
    }
    assert(container(c, t) + Seq::<char>::empty() =~= container(c, t));
    lemma_leaves_open(c, t, Seq::<char>::empty());
    assert(t + seq!['<', '/'] + c + seq!['>'] + Seq::<char>::empty() =~= t + closing);
    lemma_leaves_tags(fs, closing);
    assert(closing + Seq::<char>::empty() =~= closing);
    lemma_leaves_close(c, Seq::<char>::empty());
    assert(leaves_spec(Seq::<char>::empty()) == Ok::<Seq<FieldView>, Error>(seq![])) by {
        assert(crate::text::find_sub(Seq::<char>::empty(), seq!['<']) is None);
    }
    assert(fs + Seq::<FieldView>::empty() =~= fs);
    let b = container(c, t);
    assert(b[0] == '<');
    assert(b.last() == '>');
    lemma_trim_fixed(b);
}

/// The tag names of the message families are field names.
proof fn lemma_names()
    ensures
        is_name("TO"@),
        is_name("FROM"@),
        is_name("MSGTXT"@),
        is_name("MESG"@),
        is_name("HELLO"@),
        is_name("STATION"@),
        is_name("BAND"@),
        is_name("MODE"@),
        is_name("BAMS"@),
        is_name("SCLK"@),
        is_name("WHO"@),
        is_name("NTWK"@),
        is_name("OPEN"@),
        is_name("CHECK"@),
        is_name("TRANSACTION"@),
        is_name("XMLDATA"@),
{
    reveal_strlit("TO");
    reveal_strlit("FROM");
    reveal_strlit("MSGTXT");
    reveal_strlit("MESG");
    reveal_strlit("HELLO");
    reveal_strlit("STATION");
    reveal_strlit("BAND");
    reveal_strlit("MODE");
    reveal_strlit("BAMS");
    reveal_strlit("SCLK");
    reveal_strlit("WHO");
    reveal_strlit("NTWK");
    reveal_strlit("OPEN");
    reveal_strlit("CHECK");
    reveal_strlit("TRANSACTION");
    reveal_strlit("XMLDATA");
    assert forall|i: int| 0 <= i < "TO"@.len() implies name_char(#[trigger] "TO"@[i], i) by {}
    assert forall|i: int| 0 <= i < "FROM"@.len() implies name_char(#[trigger] "FROM"@[i], i) by {}
    assert forall|i: int| 0 <= i < "MSGTXT"@.len() implies name_char(#[trigger] "MSGTXT"@[i], i) by {}
    assert forall|i: int| 0 <= i < "MESG"@.len() implies name_char(#[trigger] "MESG"@[i], i) by {}
    assert forall|i: int| 0 <= i < "HELLO"@.len() implies name_char(#[trigger] "HELLO"@[i], i) by {}
    assert forall|i: int| 0 <= i < "STATION"@.len() implies name_char(#[trigger] "STATION"@[i], i) by {}
    assert forall|i: int| 0 <= i < "BAND"@.len() implies name_char(#[trigger] "BAND"@[i], i) by {}
    assert forall|i: int| 0 <= i < "MODE"@.len() implies name_char(#[trigger] "MODE"@[i], i) by {}
    assert forall|i: int| 0 <= i < "BAMS"@.len() implies name_char(#[trigger] "BAMS"@[i], i) by {}
    assert forall|i: int| 0 <= i < "SCLK"@.len() implies name_char(#[trigger] "SCLK"@[i], i) by {}
    assert forall|i: int| 0 <= i < "WHO"@.len() implies name_char(#[trigger] "WHO"@[i], i) by {}
    assert forall|i: int| 0 <= i < "NTWK"@.len() implies name_char(#[trigger] "NTWK"@[i], i) by {}
    assert forall|i: int| 0 <= i < "OPEN"@.len() implies name_char(#[trigger] "OPEN"@[i], i) by {}
    assert forall|i: int| 0 <= i < "CHECK"@.len() implies name_char(#[trigger] "CHECK"@[i], i) by {}
    assert forall|i: int| 0 <= i < "TRANSACTION"@.len() implies name_char(#[trigger] "TRANSACTION"@[i], i) by {}
    assert forall|i: int| 0 <= i < "XMLDATA"@.len() implies name_char(#[trigger] "XMLDATA"@[i], i) by {}
}

/// A chat message reads back as itself.
proof fn lemma_chat_round_trip(to: Seq<char>, from: Seq<char>, text: Seq<char>)
    requires
        body_spec(MessageView::Chat { to, from, text }) is Ok,
    ensures
        parse_spec(body_spec(MessageView::Chat { to, from, text })->Ok_0) == Ok::<MessageView, Error>(
            MessageView::Chat { to, from, text },
        ),
{
    reveal_strlit("<MESG>");
    reveal_strlit("</MESG>");
    reveal_strlit("TO");
    reveal_strlit("FROM");
    reveal_strlit("MSGTXT");
    reveal_strlit("<BAMS>");
    reveal_strlit("<NTWK>");
    reveal_strlit("<WHO>");
    let fs: Seq<FieldView> = seq![("TO"@, to), ("FROM"@, from), ("MSGTXT"@, text)];
    reveal_strlit("MESG");
    lemma_names();
    assert(!has_forbidden(to) && !has_forbidden(from) && !has_forbidden(text));
    assert(tags_ok(fs));
    assert(tags_text(fs) =~= tag_text("TO"@, to) + tag_text("FROM"@, from) + tag_text("MSGTXT"@, text)) by {
        reveal_with_fuel(tags_text, 4);
        assert(fs.drop_last().drop_last().drop_last() =~= Seq::<FieldView>::empty());
    }
    let b = container("MESG"@, tags_text(fs));
    assert(body_spec(MessageView::Chat { to, from, text })->Ok_0 =~= b);
    lemma_read_container("MESG"@, fs);
    lemma_not_starts(b, "<BAMS>"@);
    lemma_not_starts(b, "<NTWK>"@);
    lemma_not_starts(b, "<WHO>"@);
    assert(starts_with(b, "<MESG>"@)) by {
        assert(b.take(6) =~= "<MESG>"@);
    }
    assert(get_field(fs, "FROM"@) == Some(from)) by {
        reveal_with_fuel(get_field, 3);
        assert(fs.drop_first()[0].0 == "FROM"@);
    }
    assert(get_field(fs, "MSGTXT"@) == Some(text)) by {
        reveal_with_fuel(get_field, 4);
        assert(fs.drop_first().drop_first()[0].0 == "MSGTXT"@);
    }
    assert(get_field(fs, "TO"@) == Some(to));
}


/// The `STATION` fields of a roster.
pub open spec fn station_fields(ss: Seq<Seq<char>>) -> Seq<FieldView> {
    ss.map_values(|s: Seq<char>| ("STATION"@, s))
}

/// A roster's tags are the tags of its `STATION` fields, and reading its
/// fields back gives the roster.
proof fn lemma_station_tags(ss: Seq<Seq<char>>)
    ensures
        station_tags(ss) == tags_spec(station_fields(ss)),
        stations_of(station_fields(ss)) == ss,
    decreases ss.len(),
{
    if ss.len() > 0 {
        lemma_station_tags(ss.drop_last());
        assert(station_fields(ss).drop_last() =~= station_fields(ss.drop_last()));
    } else {
        assert(station_fields(ss) =~= Seq::<FieldView>::empty());
    }
}

/// Nothing is read from an empty text.
proof fn lemma_leaves_empty()
    ensures
        leaves_spec(Seq::<char>::empty()) == Ok::<Seq<FieldView>, Error>(seq![]),
{
    assert(crate::text::find_sub(Seq::<char>::empty(), seq!['<']) is None);
}

/// A single tag with nothing after it reads back as its field.
proof fn lemma_read_tag(key: Seq<char>, value: Seq<char>)
    requires
        is_name(key),
        !has_forbidden(value),
    ensures
        leaves_spec(tag_text(key, value)) == Ok::<Seq<FieldView>, Error>(seq![(key, value)]),
        trim(tag_text(key, value)) == tag_text(key, value),
{
    assert(tag_text(key, value) + Seq::<char>::empty() =~= tag_text(key, value));
    lemma_leaves_tag(key, value, Seq::<char>::empty());
    lemma_leaves_empty();
    assert(seq![(key, value)] + Seq::<FieldView>::empty() =~= seq![(key, value)]);
    let b = tag_text(key, value);
    assert(b[0] == '<');
    assert(b.last() == '>');
    lemma_trim_fixed(b);
}

/// A greeting reads back as itself.
proof fn lemma_hello_round_trip(text: Seq<char>)
    requires
        body_spec(MessageView::Hello(text)) is Ok,
    ensures
        parse_spec(body_spec(MessageView::Hello(text))->Ok_0) == Ok::<MessageView, Error>(
            MessageView::Hello(text),
        ),
{
    reveal_strlit("HELLO");
    reveal_strlit("<HELLO>");
    reveal_strlit("<BAMS>");
    reveal_strlit("<NTWK>");
    reveal_strlit("<WHO>");
    reveal_strlit("<MESG>");
    reveal_strlit("<SCLK>");
    lemma_names();
    let b = tag_text("HELLO"@, text);
    lemma_read_tag("HELLO"@, text);
    lemma_not_starts(b, "<BAMS>"@);
    lemma_not_starts(b, "<NTWK>"@);
    lemma_not_starts(b, "<WHO>"@);
    lemma_not_starts(b, "<MESG>"@);
    lemma_not_starts(b, "<SCLK>"@);
    assert(starts_with(b, "<HELLO>"@)) by {
        assert(b.take(7) =~= "<HELLO>"@);
    }
    let e = escaped(text);
    let g = b.skip(7);
    assert(g =~= e + seq!['<', '/'] + "HELLO"@ + seq!['>']);
    lemma_escaped_no_angle(text);
    assert(crate::text::occurs_at(g, seq!['<'], e.len() as int)) by {
        assert(g.subrange(e.len() as int, e.len() as int + 1) =~= seq!['<']);
    }
    assert forall|j: int| 0 <= j < e.len() implies !crate::text::occurs_at(g, seq!['<'], j) by {
        if crate::text::occurs_at(g, seq!['<'], j) {
            assert(g.subrange(j, j + 1)[0] == g[j]);
            assert(g[j] == e[j]);
        }
    }
    crate::text::lemma_find_sub_unique(g, seq!['<'], e.len() as int);
    assert(greeting_text(b) =~= e);
    lemma_unescape_escaped(text);
}

/// A band and mode announcement reads back as itself.
proof fn lemma_bams_round_trip(station: Seq<char>, band: Seq<char>, mode: Seq<char>)
    requires
        body_spec(MessageView::BandMode { station, band, mode }) is Ok,
    ensures
        parse_spec(body_spec(MessageView::BandMode { station, band, mode })->Ok_0) == Ok::<
            MessageView,
            Error,
        >(MessageView::BandMode { station, band, mode }),
{
    reveal_strlit("<BAMS>");
    reveal_strlit("</BAMS>");
    reveal_strlit("BAMS");
    reveal_strlit("STATION");
    reveal_strlit("BAND");
    reveal_strlit("MODE");
    lemma_names();
    let fs: Seq<FieldView> = seq![("STATION"@, station), ("BAND"@, band), ("MODE"@, mode)];
    assert(tags_ok(fs));
    assert(tags_text(fs) =~= tag_text("STATION"@, station) + tag_text("BAND"@, band) + tag_text(
        "MODE"@,
        mode,
    )) by {
        reveal_with_fuel(tags_text, 4);
        assert(fs.drop_last().drop_last().drop_last() =~= Seq::<FieldView>::empty());
    }
    let b = container("BAMS"@, tags_text(fs));
    assert(body_spec(MessageView::BandMode { station, band, mode })->Ok_0 =~= b);
    lemma_read_container("BAMS"@, fs);
    assert(starts_with(b, "<BAMS>"@)) by {
        assert(b.take(6) =~= "<BAMS>"@);
    }
    assert(get_field(fs, "STATION"@) == Some(station));
    assert(get_field(fs, "BAND"@) == Some(band)) by {
        reveal_with_fuel(get_field, 3);
    }
    assert(get_field(fs, "MODE"@) == Some(mode)) by {
        reveal_with_fuel(get_field, 4);
        assert("BAND"@[0] != "MODE"@[0]);
        assert(fs.drop_first().drop_first()[0].0 == "MODE"@);
    }
}

/// A clock message with at least one field reads back as itself.
proof fn lemma_clock_round_trip(fs: Seq<FieldView>)
    requires
        body_spec(MessageView::Clock(fs)) is Ok,
        fs.len() > 0,
    ensures
        parse_spec(body_spec(MessageView::Clock(fs))->Ok_0) == Ok::<MessageView, Error>(
            MessageView::Clock(fs),
        ),
{
    reveal_strlit("<SCLK>");
    reveal_strlit("</SCLK>");
    reveal_strlit("SCLK");
    reveal_strlit("<BAMS>");
    reveal_strlit("<NTWK>");
    reveal_strlit("<WHO>");
    reveal_strlit("<MESG>");
    lemma_names();
    lemma_tags_spec(fs);
    let b = container("SCLK"@, tags_text(fs));
    assert(body_spec(MessageView::Clock(fs))->Ok_0 =~= b);
    lemma_read_container("SCLK"@, fs);
    lemma_not_starts(b, "<BAMS>"@);
    lemma_not_starts(b, "<NTWK>"@);
    lemma_not_starts(b, "<WHO>"@);
    lemma_not_starts(b, "<MESG>"@);
    assert(starts_with(b, "<SCLK>"@)) by {
        assert(b.take(6) =~= "<SCLK>"@);
    }
}

/// A roster reads back as itself.
proof fn lemma_who_round_trip(ss: Seq<Seq<char>>)
    requires
        body_spec(MessageView::Who(ss)) is Ok,
    ensures
        parse_spec(body_spec(MessageView::Who(ss))->Ok_0) == Ok::<MessageView, Error>(
            MessageView::Who(ss),
        ),
{
    reveal_strlit("<WHO>");
    reveal_strlit("</WHO>");
    reveal_strlit("WHO");
    reveal_strlit("STATION");
    reveal_strlit("<BAMS>");
    reveal_strlit("<NTWK>");
    lemma_names();
    lemma_station_tags(ss);
    let fs = station_fields(ss);
    lemma_tags_spec(fs);
    if ss.len() > 0 {
        let b = container("WHO"@, tags_text(fs));
        assert(body_spec(MessageView::Who(ss))->Ok_0 =~= b);
        lemma_read_container("WHO"@, fs);
        lemma_not_starts(b, "<BAMS>"@);
        lemma_not_starts(b, "<NTWK>"@);
        assert(starts_with(b, "<WHO>"@)) by {
            assert(b.take(5) =~= "<WHO>"@);
        }
    } else {
        assert(tags_text(fs) =~= Seq::<char>::empty());
        let b = tag_text("WHO"@, Seq::<char>::empty());
        assert(escaped(Seq::<char>::empty()) =~= Seq::<char>::empty());
        assert(body_spec(MessageView::Who(ss))->Ok_0 =~= b);
        assert(!has_forbidden(Seq::<char>::empty()));
        lemma_read_tag("WHO"@, Seq::<char>::empty());
        lemma_not_starts(b, "<BAMS>"@);
        lemma_not_starts(b, "<NTWK>"@);
        assert(starts_with(b, "<WHO>"@)) by {
            assert(b.take(5) =~= "<WHO>"@);
        }
        let got: Seq<FieldView> = seq![("WHO"@, Seq::<char>::empty())];
        assert(stations_of(got) =~= Seq::<Seq<char>>::empty()) by {
            reveal_with_fuel(stations_of, 2);
            assert(got.drop_last() =~= Seq::<FieldView>::empty());
            assert("WHO"@.len() != "STATION"@.len());
            assert(got.last().0 != "STATION"@);
        }
        assert(ss =~= Seq::<Seq<char>>::empty());
    }
}


/// A one-field control body `<NTWK><name></name></NTWK>` and what it reads as.
proof fn lemma_control_body(name: Seq<char>)
    requires
        is_name(name),
    ensures
        leaves_spec(container("NTWK"@, tag_text(name, Seq::<char>::empty()))) == Ok::<
            Seq<FieldView>,
            Error,
        >(seq![(name, Seq::<char>::empty())]),
        trim(container("NTWK"@, tag_text(name, Seq::<char>::empty()))) == container(
            "NTWK"@,
            tag_text(name, Seq::<char>::empty()),
        ),
{
    lemma_names();
    assert(!has_forbidden(Seq::<char>::empty()));
    let fs: Seq<FieldView> = seq![(name, Seq::<char>::empty())];
    assert(tags_ok(fs));
    assert(tags_text(fs) =~= tag_text(name, Seq::<char>::empty())) by {
        reveal_with_fuel(tags_text, 2);
        assert(fs.drop_last() =~= Seq::<FieldView>::empty());
    }
    lemma_read_container("NTWK"@, fs);
}

/// `OPEN` reads back as itself.
#[verifier::rlimit(30)]
proof fn lemma_open_round_trip()
    ensures
        parse_spec(body_spec(MessageView::Open)->Ok_0) == Ok::<MessageView, Error>(MessageView::Open),
{
    reveal_strlit("<NTWK><OPEN></OPEN></NTWK>");
    reveal_strlit("<BAMS>");
    reveal_strlit("<NTWK>");
    reveal_strlit("<OPEN>");
    reveal_strlit("NTWK");
    reveal_strlit("OPEN");
    reveal_strlit("TRANSACTION");
    lemma_names();
    let e = Seq::<char>::empty();
    assert(escaped(e) =~= e);
    let b = container("NTWK"@, tag_text("OPEN"@, e));
    assert(body_spec(MessageView::Open)->Ok_0 =~= b);
    lemma_control_body("OPEN"@);
    lemma_not_starts(b, "<BAMS>"@);
    assert(starts_with(b, "<NTWK>"@)) by {
        assert(b.take(6) =~= "<NTWK>"@);
    }
    assert(get_field(seq![("OPEN"@, e)], "TRANSACTION"@) is None) by {
        reveal_with_fuel(get_field, 2);
        assert(seq![("OPEN"@, e)].drop_first() =~= Seq::<FieldView>::empty());
    }
    crate::text::lemma_find_sub(b, "<OPEN>"@);
    assert(crate::text::occurs_at(b, "<OPEN>"@, 6)) by {
        assert(b.subrange(6, 12) =~= "<OPEN>"@);
    }
}

/// `CHECK` reads back as itself.
#[verifier::rlimit(30)]
proof fn lemma_check_round_trip()
    ensures
        parse_spec(body_spec(MessageView::Check)->Ok_0) == Ok::<MessageView, Error>(MessageView::Check),
{
    reveal_strlit("<NTWK><CHECK></CHECK></NTWK>");
    reveal_strlit("<BAMS>");
    reveal_strlit("<NTWK>");
    reveal_strlit("<OPEN>");
    reveal_strlit("<CHECK>");
    reveal_strlit("NTWK");
    reveal_strlit("CHECK");
    reveal_strlit("TRANSACTION");
    lemma_names();
    let e = Seq::<char>::empty();
    assert(escaped(e) =~= e);
    let b = container("NTWK"@, tag_text("CHECK"@, e));
    assert(body_spec(MessageView::Check)->Ok_0 =~= b);
    lemma_control_body("CHECK"@);
    lemma_not_starts(b, "<BAMS>"@);
    assert(starts_with(b, "<NTWK>"@)) by {
        assert(b.take(6) =~= "<NTWK>"@);
    }
    assert(get_field(seq![("CHECK"@, e)], "TRANSACTION"@) is None) by {
        reveal_with_fuel(get_field, 2);
        assert(seq![("CHECK"@, e)].drop_first() =~= Seq::<FieldView>::empty());
    }
    crate::text::lemma_find_sub(b, "<OPEN>"@);
    assert forall|j: int| !crate::text::occurs_at(b, "<OPEN>"@, j) by {
        if crate::text::occurs_at(b, "<OPEN>"@, j) {
            assert(b.subrange(j, j + 6)[1] == b[j + 1]);
            assert(b =~= "<NTWK><CHECK></CHECK></NTWK>"@);
        }
    }
    crate::text::lemma_find_sub(b, "<CHECK>"@);
    assert(crate::text::occurs_at(b, "<CHECK>"@, 6)) by {
        assert(b.subrange(6, 13) =~= "<CHECK>"@);
    }
}


/// In a tag, each `<` is followed by the key's first character or by `/`,
/// and a `<` followed by `/` starts the closing tag.
proof fn lemma_tag_lt(k: Seq<char>, v: Seq<char>)
    requires
        is_name(k),
    ensures
        forall|i: int|
            0 <= i < tag_text(k, v).len() && #[trigger] tag_text(k, v)[i] == '<' ==> i + 1 < tag_text(
                k,
                v,
            ).len() && (tag_text(k, v)[i + 1] == k[0] || tag_text(k, v)[i + 1] == '/'),
        forall|i: int|
            0 <= i && i + 1 < tag_text(k, v).len() && #[trigger] tag_text(k, v)[i] == '<' && tag_text(
                k,
                v,
            )[i + 1] == '/' ==> i == k.len() + escaped(v).len() + 2,
{
    let e = escaped(v);
    let t = tag_text(k, v);
    let n = k.len() as int;
    let m = e.len() as int;
    lemma_escaped_no_angle(v);
    assert(t.len() == 2 * n + m + 5);
    assert forall|i: int| 0 <= i < t.len() && #[trigger] t[i] == '<' implies i + 1 < t.len() && (
    t[i + 1] == k[0] || t[i + 1] == '/') && (t[i + 1] == '/' ==> i == n + m + 2) by {
        if i == 0 {
            assert(t[1] == k[0]);
        } else if i <= n {
            assert(t[i] == k[i - 1]);
            assert(name_char(k[i - 1], i - 1));
        } else if i == n + 1 {
            assert(t[i] == '>');
        } else if i < n + m + 2 {
            assert(t[i] == e[i - n - 2]);
        } else if i == n + m + 2 {
            assert(t[i + 1] == '/');
        } else if i == n + m + 3 {
            assert(t[i] == '/');
        } else if i < 2 * n + m + 4 {
            assert(t[i] == k[i - n - m - 4]);
            assert(name_char(k[i - n - m - 4], i - n - m - 4));
        } else {
            assert(t[i] == '>');
        }
    }
}

/// A tag holds no closing tag of another name, whatever follows it.
proof fn lemma_tag_no_close(k: Seq<char>, v: Seq<char>, name: Seq<char>, y: Seq<char>)
    requires
        is_name(k),
        is_name(name),
        k != name,
    ensures
        forall|j: int| 0 <= j < tag_text(k, v).len() ==> !crate::text::occurs_at(
            #[trigger] (tag_text(k, v) + y),
            seq!['<', '/'] + name + seq!['>'],
            j,
        ),
{
    let t = tag_text(k, v);
    let h = t + y;
    let pat = seq!['<', '/'] + name + seq!['>'];
    let n = k.len() as int;
    let e = escaped(v);
    let c = n + e.len() + 2;
    lemma_tag_lt(k, v);
    assert forall|j: int| 0 <= j < t.len() implies !crate::text::occurs_at(h, pat, j) by {
        if crate::text::occurs_at(h, pat, j) {
            let sub = h.subrange(j, j + pat.len());
            assert(sub[0] == h[j] && sub[1] == h[j + 1]);
            assert(h[j] == t[j]);
            assert(t[j] == '<');
            assert(j + 1 < t.len());
            assert(h[j + 1] == t[j + 1]);
            assert(j == c);
            let l = name.len() as int;
            if l < n {
                assert(sub[2 + l] == h[c + 2 + l]);
                assert(h[c + 2 + l] == t[c + 2 + l]);
                assert(t[c + 2 + l] == k[l]);
                assert(name_char(k[l], l));
            } else if l > n {
                assert(sub[2 + n] == h[c + 2 + n]);
                assert(h[c + 2 + n] == t[c + 2 + n]);
                assert(name_char(name[n], n));
            } else {
                assert forall|i: int| 0 <= i < n implies k[i] == name[i] by {
                    assert(sub[2 + i] == h[c + 2 + i]);
                    assert(h[c + 2 + i] == t[c + 2 + i]);
                }
                assert(k =~= name);
            }
        }
    }
}

/// Tags whose keys all differ from `name` hold no closing tag of `name`,
/// whatever follows them.
proof fn lemma_tags_no_close(fs: Seq<FieldView>, name: Seq<char>, y: Seq<char>)
    requires
        tags_ok(fs),
        is_name(name),
        forall|i: int| 0 <= i < fs.len() ==> #[trigger] fs[i].0 != name,
    ensures
        forall|j: int| 0 <= j < tags_text(fs).len() ==> !crate::text::occurs_at(
            #[trigger] (tags_text(fs) + y),
            seq!['<', '/'] + name + seq!['>'],
            j,
        ),
    decreases fs.len(),
{
    if fs.len() > 0 {
        let a = fs.drop_last();
        assert(tags_ok(a)) by {
            assert forall|i: int| 0 <= i < a.len() implies is_name(#[trigger] a[i].0) && !has_forbidden(
                a[i].1,
            ) by {
                assert(a[i] == fs[i]);
            }
        }
        assert forall|i: int| 0 <= i < a.len() implies #[trigger] a[i].0 != name by {
            assert(a[i] == fs[i]);
        }
        let last = fs.last();
        assert(is_name(fs[fs.len() - 1].0) && fs[fs.len() - 1].0 != name);
        let t = tag_text(last.0, last.1);
        lemma_tags_no_close(a, name, t + y);
        lemma_tag_no_close(last.0, last.1, name, y);
        let pat = seq!['<', '/'] + name + seq!['>'];
        assert(tags_text(fs) + y =~= tags_text(a) + (t + y));
        assert forall|j: int| 0 <= j < tags_text(fs).len() implies !crate::text::occurs_at(
            #[trigger] (tags_text(fs) + y),
            pat,
            j,
        ) by {
            let h = tags_text(fs) + y;
            if j < tags_text(a).len() {
                assert(!crate::text::occurs_at(tags_text(a) + (t + y), pat, j));
            } else {
                let j2 = j - tags_text(a).len();
                assert(!crate::text::occurs_at(t + y, pat, j2));
                if crate::text::occurs_at(h, pat, j) {
                    assert(h.subrange(j, j + pat.len()) =~= (t + y).subrange(j2, j2 + pat.len()));
                }
            }
        }
    }
}


/// Where the `<XMLDATA>` of a transaction body begins: after the `<NTWK>`,
/// `FROM` and `TRANSACTION` tags, none of which holds an earlier `<XMLDATA>`.
proof fn lemma_xml_data_start(from: Seq<char>, kind: Seq<char>, rest: Seq<char>)
    requires
        !has_forbidden(from),
        !has_forbidden(kind),
    ensures
        crate::text::find_sub(
            "<NTWK>"@ + tag_text("FROM"@, from) + tag_text("TRANSACTION"@, kind) + ("<XMLDATA>"@ + rest),
            "<XMLDATA>"@,
        ) == Some((6 + tag_text("FROM"@, from).len() + tag_text("TRANSACTION"@, kind).len()) as int),
{
    reveal_strlit("<NTWK>");
    reveal_strlit("<XMLDATA>");
    reveal_strlit("FROM");
    reveal_strlit("TRANSACTION");
    lemma_names();
    let tf = tag_text("FROM"@, from);
    let tt = tag_text("TRANSACTION"@, kind);
    let pre = "<NTWK>"@ + tf + tt;
    let b = pre + ("<XMLDATA>"@ + rest);
    let x = "<XMLDATA>"@;
    let p = pre.len() as int;
    lemma_tag_lt("FROM"@, from);
    lemma_tag_lt("TRANSACTION"@, kind);
    assert(crate::text::occurs_at(b, x, p)) by {
        assert(b.subrange(p, p + 9) =~= x);
    }
    assert forall|j: int| 0 <= j < p implies !crate::text::occurs_at(b, x, j) by {
        if crate::text::occurs_at(b, x, j) {
            let sub = b.subrange(j, j + 9);
            assert(sub[0] == b[j] && sub[1] == b[j + 1]);
            assert(b[j] == '<' && b[j + 1] == 'X');
            if j < 6 {
                assert(b[j] == "<NTWK>"@[j]);
                if j == 0 {
                    assert(b[1] == 'N');
                }
            } else if j < 6 + tf.len() {
                assert(b[j] == tf[j - 6]);
                assert(b[j + 1] == tf[j - 5]);
            } else {
                assert(b[j] == tt[j - 6 - tf.len()]);
                assert(b[j + 1] == tt[j - 5 - tf.len()]);
            }
        }
    }
    crate::text::lemma_find_sub_unique(b, x, p);
}

/// Whether a transaction reads back as itself: its kind is the one its
/// name stands for, and no data field is named `XMLDATA`.
pub open spec fn transaction_reads_back(kind: TransactionView, fields: Seq<FieldView>) -> bool {
    &&& kind_of(kind_name(kind)) == kind
    &&& forall|i: int| 0 <= i < fields.len() ==> #[trigger] fields[i].0 != "XMLDATA"@
}

/// The body of a transaction with `from`, kind name `kn` and `fields`.
pub open spec fn transaction_body(from: Seq<char>, kn: Seq<char>, fields: Seq<FieldView>) -> Seq<char> {
    container(
        "NTWK"@,
        tag_text("FROM"@, from) + tag_text("TRANSACTION"@, kn) + container("XMLDATA"@, tags_text(fields)),
    )
}

/// The fields that `<XMLDATA>` delimits: the data fields, or a bare
/// `XMLDATA` field when there are none.
pub open spec fn data_fields(fields: Seq<FieldView>) -> Seq<FieldView> {
    if fields.len() > 0 {
        fields
    } else {
        seq![("XMLDATA"@, Seq::<char>::empty())]
    }
}

/// The leaf fields of a transaction body.
#[verifier::rlimit(40)]
proof fn lemma_transaction_leaves(from: Seq<char>, kn: Seq<char>, fields: Seq<FieldView>)
    requires
        !has_forbidden(from),
        !has_forbidden(kn),
        tags_ok(fields),
    ensures
        leaves_spec(transaction_body(from, kn, fields)) == Ok::<Seq<FieldView>, Error>(
            seq![("FROM"@, from), ("TRANSACTION"@, kn)] + data_fields(fields),
        ),
        trim(transaction_body(from, kn, fields)) == transaction_body(from, kn, fields),
{
    reveal_strlit("NTWK");
    reveal_strlit("XMLDATA");
    reveal_strlit("FROM");
    reveal_strlit("TRANSACTION");
    lemma_names();
    let tf = tag_text("FROM"@, from);
    let tt = tag_text("TRANSACTION"@, kn);
    let t = tags_text(fields);
    let x = container("XMLDATA"@, t);
    let inner = tf + tt + x;
    let b = container("NTWK"@, inner);
    let e = Seq::<char>::empty();
    let close_ntwk = seq!['<', '/'] + "NTWK"@ + seq!['>'];
    let close_xml = seq!['<', '/'] + "XMLDATA"@ + seq!['>'];
    let head: Seq<FieldView> = seq![("FROM"@, from), ("TRANSACTION"@, kn)];
    assert(tags_ok(head));
    assert(tags_text(head) =~= tf + tt) by {
        reveal_with_fuel(tags_text, 3);
        assert(head.drop_last().drop_last() =~= Seq::<FieldView>::empty());
    }
    assert(inner[0] == '<' && inner[1] == 'F');
    assert(b + e =~= b);
    lemma_leaves_open("NTWK"@, inner, e);
    assert(inner + seq!['<', '/'] + "NTWK"@ + seq!['>'] + e =~= tags_text(head) + (x + close_ntwk));
    lemma_leaves_tags(head, x + close_ntwk);
    lemma_leaves_empty();
    if fields.len() > 0 {
        lemma_tags_front(fields);
        assert(is_name(fields[0].0));
        assert(name_char(fields[0].0[0], 0));
        let first = tag_text(fields[0].0, fields[0].1);
        assert(t[0] == first[0] && t[1] == first[1]);
        lemma_leaves_open("XMLDATA"@, t, close_ntwk);
        assert(t + seq!['<', '/'] + "XMLDATA"@ + seq!['>'] + close_ntwk =~= t + (close_xml + close_ntwk));
        lemma_leaves_tags(fields, close_xml + close_ntwk);
        lemma_leaves_close("XMLDATA"@, close_ntwk);
        assert(close_ntwk + e =~= close_ntwk);
        lemma_leaves_close("NTWK"@, e);
        assert(fields + Seq::<FieldView>::empty() =~= fields);
    } else {
        assert(t =~= e);
        assert(escaped(e) =~= e);
        assert(x =~= tag_text("XMLDATA"@, e));
        assert(!has_forbidden(e));
        lemma_leaves_tag("XMLDATA"@, e, close_ntwk);
        assert(close_ntwk + e =~= close_ntwk);
        lemma_leaves_close("NTWK"@, e);
        assert(seq![("XMLDATA"@, e)] + Seq::<FieldView>::empty() =~= seq![("XMLDATA"@, e)]);
    }
    lemma_trim_fixed(b);
}

/// The data that `<XMLDATA>` delimits in a transaction body, and what it reads as.
#[verifier::rlimit(40)]
proof fn lemma_transaction_data(from: Seq<char>, kn: Seq<char>, fields: Seq<FieldView>)
    requires
        !has_forbidden(from),
        !has_forbidden(kn),
        tags_ok(fields),
        forall|i: int| 0 <= i < fields.len() ==> #[trigger] fields[i].0 != "XMLDATA"@,
    ensures
        xml_data(transaction_body(from, kn, fields)) == Some(tags_text(fields)),
        leaves_spec(tags_text(fields)) == Ok::<Seq<FieldView>, Error>(fields),
{
    reveal_strlit("<NTWK>");
    reveal_strlit("<XMLDATA>");
    reveal_strlit("</XMLDATA></NTWK>");
    reveal_strlit("</XMLDATA>");
    reveal_strlit("NTWK");
    reveal_strlit("XMLDATA");
    lemma_names();
    let tf = tag_text("FROM"@, from);
    let tt = tag_text("TRANSACTION"@, kn);
    let t = tags_text(fields);
    let b = transaction_body(from, kn, fields);
    let e = Seq::<char>::empty();
    let close_ntwk = seq!['<', '/'] + "NTWK"@ + seq!['>'];
    let close_xml = seq!['<', '/'] + "XMLDATA"@ + seq!['>'];
    assert(b =~= "<NTWK>"@ + tf + tt + ("<XMLDATA>"@ + (t + "</XMLDATA></NTWK>"@)));
    lemma_xml_data_start(from, kn, t + "</XMLDATA></NTWK>"@);
    let p = 6 + tf.len() + tt.len();
    let rest = b.skip(p as int + 9);
    assert(rest =~= t + "</XMLDATA></NTWK>"@);
    assert("</XMLDATA></NTWK>"@ =~= close_xml + close_ntwk);
    lemma_tags_no_close(fields, "XMLDATA"@, close_xml + close_ntwk);
    assert(crate::text::occurs_at(rest, close_xml, t.len() as int)) by {
        assert(rest.subrange(t.len() as int, t.len() as int + 10) =~= close_xml);
    }
    assert forall|j: int| 0 <= j < t.len() implies !crate::text::occurs_at(rest, close_xml, j) by {
        assert(!crate::text::occurs_at(t + (close_xml + close_ntwk), close_xml, j));
        assert(rest =~= t + (close_xml + close_ntwk));
    }
    crate::text::lemma_find_sub_unique(rest, close_xml, t.len() as int);
    assert(close_xml =~= "</XMLDATA>"@);
    assert(rest.take(t.len() as int) =~= t);
    assert(t + e =~= t);
    lemma_leaves_tags(fields, e);
    lemma_leaves_empty();
    assert(fields + Seq::<FieldView>::empty() =~= fields);
}

/// A transaction reads back as itself.
#[verifier::rlimit(40)]
proof fn lemma_transaction_round_trip(from: Seq<char>, kind: TransactionView, fields: Seq<FieldView>)
    requires
        body_spec(MessageView::Transaction { from, kind, fields }) is Ok,
        transaction_reads_back(kind, fields),
    ensures
        parse_spec(body_spec(MessageView::Transaction { from, kind, fields })->Ok_0) == Ok::<
            MessageView,
            Error,
        >(MessageView::Transaction { from, kind, fields }),
{
    reveal_strlit("<NTWK>");
    reveal_strlit("<XMLDATA>");
    reveal_strlit("</XMLDATA></NTWK>");
    reveal_strlit("<BAMS>");
    reveal_strlit("FROM");
    reveal_strlit("TRANSACTION");
    lemma_names();
    lemma_tags_spec(fields);
    reveal_strlit("NTWK");
    reveal_strlit("XMLDATA");
    let kn = kind_name(kind);
    let b = transaction_body(from, kn, fields);
    let tf = tag_text("FROM"@, from);
    let tt = tag_text("TRANSACTION"@, kn);
    let x = container("XMLDATA"@, tags_text(fields));
    assert(b == container("NTWK"@, tf + tt + x));
    assert(body_spec(MessageView::Transaction { from, kind, fields })->Ok_0 =~= container(
        "NTWK"@,
        tf + tt + x,
    ));
    assert(!has_forbidden(from) && !has_forbidden(kn));
    lemma_transaction_leaves(from, kn, fields);
    lemma_transaction_data(from, kn, fields);
    let all = seq![("FROM"@, from), ("TRANSACTION"@, kn)] + data_fields(fields);
    lemma_not_starts(b, "<BAMS>"@);
    assert(starts_with(b, "<NTWK>"@)) by {
        assert(b.take(6) =~= "<NTWK>"@);
    }
    assert(get_field(all, "TRANSACTION"@) == Some(kn)) by {
        reveal_with_fuel(get_field, 3);
        assert(all[0].0 == "FROM"@);
        assert(all.drop_first()[0] == ("TRANSACTION"@, kn));
    }
    assert(get_field(all, "FROM"@) == Some(from)) by {
        assert(all[0] == ("FROM"@, from));
    }
}

/// The messages that read back as themselves: a clock needs at least one
/// field, a transaction a kind that its name stands for and no data field
/// named `XMLDATA`, and an unrecognized body must be trimmed, readable, and
/// not open like one of the message families.
pub open spec fn reads_back(m: MessageView) -> bool {
    match m {
        MessageView::Clock(fs) => fs.len() > 0,
        MessageView::Transaction { kind, fields, .. } => transaction_reads_back(kind, fields),
        MessageView::Unknown(b) => {
            &&& trim(b) == b
            &&& leaves_spec(b) is Ok
            &&& !starts_with(b, "<BAMS>"@)
            &&& !starts_with(b, "<NTWK>"@)
            &&& !starts_with(b, "<WHO>"@)
            &&& !starts_with(b, "<MESG>"@)
            &&& !starts_with(b, "<SCLK>"@)
            &&& !starts_with(b, "<HELLO>"@)
        },
        _ => true,
    }
}

/// Reading back a written message body gives the message that was written,
/// for every message that can be written and reads back (see `reads_back`).
pub proof fn lemma_parse_body(m: MessageView)
    requires
        body_spec(m) is Ok,
        reads_back(m),
    ensures
        parse_spec(body_spec(m)->Ok_0) == Ok::<MessageView, Error>(m),
{
    match m {
        MessageView::Hello(text) => lemma_hello_round_trip(text),
        MessageView::BandMode { station, band, mode } => lemma_bams_round_trip(station, band, mode),
        MessageView::Open => lemma_open_round_trip(),
        MessageView::Check => lemma_check_round_trip(),
        MessageView::Who(ss) => lemma_who_round_trip(ss),
        MessageView::Chat { to, from, text } => lemma_chat_round_trip(to, from, text),
        MessageView::Clock(fs) => lemma_clock_round_trip(fs),
        MessageView::Transaction { from, kind, fields } => lemma_transaction_round_trip(from, kind, fields),
        MessageView::Unknown(b) => {},
    }
}


/// Code units written as little-endian bytes read back as the same units.
pub proof fn lemma_units_of_le_bytes(us: Seq<u16>)
    ensures
        units_of(le_bytes(us)) == us,
    decreases us.len(),
{
    if us.len() > 0 {
        let u = us[0];
        let r = us.drop_first();
        assert(us =~= seq![u] + r);
        lemma_le_bytes_concat(seq![u], r);
        assert(seq![u].drop_last() =~= Seq::<u16>::empty());
        let two = seq![(u % 256) as u8, (u / 256) as u8];
        assert(le_bytes(seq![u]) =~= two) by {
            reveal_with_fuel(le_bytes, 2);
        }
        lemma_units_of_le_bytes(r);
        let all = two + le_bytes(r);
        assert(all.skip(2) =~= le_bytes(r));
        assert(((u % 256) as u8) + 256 * ((u / 256) as u8) == u);
    } else {
        assert(le_bytes(us) =~= Seq::<u8>::empty());
        assert(us =~= Seq::<u16>::empty());
    }
}

/// `encode_utf16` of a concatenation.
proof fn lemma_encode_utf16_concat(a: Seq<char>, b: Seq<char>)
    ensures
        encode_utf16(a + b) == encode_utf16(a) + encode_utf16(b),
    decreases b.len(),
{
    if b.len() == 0 {
        assert(a + b =~= a);
        assert(encode_utf16(a) + encode_utf16(b) =~= encode_utf16(a));
    } else {
        assert((a + b).drop_last() =~= a + b.drop_last());
        lemma_encode_utf16_concat(a, b.drop_last());
        assert(encode_utf16(a + b) =~= encode_utf16(a) + encode_utf16(b));
    }
}

/// Text written as UTF-16 reads back as the same text.
pub proof fn lemma_decode_encode_utf16(s: Seq<char>)
    ensures
        decode_utf16(encode_utf16(s)) == Some(s),
    decreases s.len(),
{
    if s.len() == 0 {
        assert(encode_utf16(s) =~= Seq::<u16>::empty());
        assert(s =~= Seq::<char>::empty());
    } else {
        let c = s[0];
        let r = s.drop_first();
        assert(s =~= seq![c] + r);
        lemma_encode_utf16_concat(seq![c], r);
        assert(seq![c].drop_last() =~= Seq::<char>::empty());
        assert(encode_utf16(seq![c]) =~= utf16_of(c)) by {
            reveal_with_fuel(encode_utf16, 2);
        }
        lemma_decode_encode_utf16(r);
        let us = utf16_of(c) + encode_utf16(r);
        let v = c as u32;
        vstd::utf8::char_u32_cast(c, v);
        vstd::utf8::char_is_scalar(c);
        if v < 0x10000 {
            assert(us[0] == v as u16);
            assert(us.skip(1) =~= encode_utf16(r));
            assert((v as u16) as u32 == v);
            assert(seq![c] + r =~= s);
        } else {
            let w = v - 0x10000;
            let hi = (0xD800 + w / 0x400) as u16;
            let lo = (0xDC00 + w % 0x400) as u16;
            assert(us[0] == hi && us[1] == lo);
            assert(us.skip(2) =~= encode_utf16(r));
            assert(0xD800 <= hi <= 0xDBFF);
            assert(0xDC00 <= lo <= 0xDFFF);
            assert(0x10000 + (hi - 0xD800) * 0x400 + (lo - 0xDC00) == v);
            assert(v as char == c);
            assert(seq![c] + r =~= s);
        }
    }
}


/// The bytes of a framed body.
pub open spec fn frame_bytes(body: Seq<char>) -> Seq<u8> {
    le_bytes(encode_utf16(frame_text(body)))
}

/// The bytes of a body inside its frame.
pub open spec fn payload_bytes(body: Seq<char>) -> Seq<u8> {
    le_bytes(encode_utf16(body))
}

/// Whether a frame holds no marker but its own: `<BOR>` only at its start
/// and `<EOR>` only after the body, at any byte alignment.
pub open spec fn own_markers_only(body: Seq<char>) -> bool {
    &&& forall|j: int| #[trigger] crate::text::occurs_at(frame_bytes(body), bor_mark(), j) ==> j == 0
    &&& forall|j: int|
        #[trigger] crate::text::occurs_at(frame_bytes(body), eor_mark(), j) ==> j == 10
            + payload_bytes(body).len()
}

/// The bytes left after a frame: its ETX EOT BEL trailer.
pub open spec fn trailer_bytes() -> Seq<u8> {
    seq![3u8, 0, 4, 0, 7, 0]
}

/// UTF-16 of text in the basic plane: one unit per character.
proof fn lemma_encode_bmp(s: Seq<char>)
    requires
        forall|i: int| 0 <= i < s.len() ==> (#[trigger] s[i] as u32) < 0x10000,
    ensures
        encode_utf16(s) == Seq::new(s.len(), |i: int| (s[i] as u32) as u16),
    decreases s.len(),
{
    if s.len() > 0 {
        lemma_encode_bmp(s.drop_last());
        assert(encode_utf16(s) =~= Seq::new(s.len(), |i: int| (s[i] as u32) as u16));
    } else {
        assert(encode_utf16(s) =~= Seq::new(s.len(), |i: int| (s[i] as u32) as u16));
    }
}

/// Little-endian bytes of units below 256: each unit, then a zero.
proof fn lemma_le_bytes_small(us: Seq<u16>)
    requires
        forall|i: int| 0 <= i < us.len() ==> #[trigger] us[i] < 256,
    ensures
        le_bytes(us) == Seq::new(2 * us.len(), |i: int| if i % 2 == 0 { us[i / 2] as u8 } else { 0u8 }),
    decreases us.len(),
{
    if us.len() > 0 {
        lemma_le_bytes_small(us.drop_last());
        assert(le_bytes(us) =~= Seq::new(
            2 * us.len(),
            |i: int| if i % 2 == 0 { us[i / 2] as u8 } else { 0u8 },
        ));
    } else {
        assert(le_bytes(us) =~= Seq::new(
            2 * us.len(),
            |i: int| if i % 2 == 0 { us[i / 2] as u8 } else { 0u8 },
        ));
    }
}

/// `<BOR>` as UTF-16LE bytes.
proof fn lemma_bor_bytes()
    ensures
        le_bytes(encode_utf16("<BOR>"@)) == bor_mark(),
        encode_utf16("<BOR>"@) == seq![60u16, 66, 79, 82, 62],
{
    reveal_strlit("<BOR>");
    let a = "<BOR>"@;
    lemma_encode_bmp(a);
    let ua = encode_utf16(a);
    assert(ua =~= seq![60u16, 66, 79, 82, 62]);
    lemma_le_bytes_small(ua);
    assert(le_bytes(ua) =~= bor_mark());
}

/// `<EOR>` and the trailer as UTF-16LE bytes.
proof fn lemma_eor_bytes()
    ensures
        le_bytes(encode_utf16("<EOR>\u{3}\u{4}\u{7}"@)) == eor_mark() + trailer_bytes(),
        encode_utf16("<EOR>\u{3}\u{4}\u{7}"@) == seq![60u16, 69, 79, 82, 62, 3, 4, 7],
{
    reveal_strlit("<EOR>\u{3}\u{4}\u{7}");
    let c = "<EOR>\u{3}\u{4}\u{7}"@;
    lemma_encode_bmp(c);
    let uc = encode_utf16(c);
    assert(uc =~= seq![60u16, 69, 79, 82, 62, 3, 4, 7]);
    lemma_le_bytes_small(uc);
    assert(le_bytes(uc) =~= eor_mark() + trailer_bytes());
}

/// The layout of a frame's bytes: `<BOR>`, the body, `<EOR>`, the trailer.
proof fn lemma_frame_layout(body: Seq<char>)
    ensures
        frame_bytes(body) == bor_mark() + payload_bytes(body) + eor_mark() + trailer_bytes(),
{
    let a = "<BOR>"@;
    let c = "<EOR>\u{3}\u{4}\u{7}"@;
    lemma_encode_utf16_concat(a, body);
    lemma_encode_utf16_concat(a + body, c);
    assert(frame_text(body) =~= a + body + c);
    let ua = encode_utf16(a);
    let ub = encode_utf16(body);
    let uc = encode_utf16(c);
    lemma_le_bytes_concat(ua, ub);
    lemma_le_bytes_concat(ua + ub, uc);
    lemma_bor_bytes();
    lemma_eor_bytes();
    assert(frame_bytes(body) =~= bor_mark() + payload_bytes(body) + (eor_mark() + trailer_bytes()));
}

/// Feeding one byte.
proof fn lemma_feed_one(buf: Seq<u8>, limit: nat, x: u8)
    ensures
        feed_spec(buf, limit, seq![x]) == match step_spec(buf, limit, x) {
            Err(e) => (Err::<Seq<MessageView>, Error>(e), Seq::<u8>::empty()),
            Ok((ms, b2)) => (Ok::<Seq<MessageView>, Error>(ms), b2),
        },
{
    reveal_with_fuel(feed_spec, 2);
    assert(seq![x].drop_first() =~= Seq::<u8>::empty());
    assert(seq![x][0] == x);
    match step_spec(buf, limit, x) {
        Err(e) => {},
        Ok((ms, b2)) => {
            assert(ms + Seq::<MessageView>::empty() =~= ms);
        },
    }
}

/// `s` ends with the ten bytes `p` exactly where they occur in a longer text.
proof fn lemma_ends_with_at(f: Seq<u8>, k: int, p: Seq<u8>)
    requires
        p.len() == 10,
        10 <= k <= f.len(),
    ensures
        crate::text::ends_with(f.take(k), p) == crate::text::occurs_at(f, p, k - 10),
{
    assert(f.take(k).skip(k - 10) =~= f.subrange(k - 10, k));
}

/// What feeding the first `k` bytes of a frame gives: nothing and the bytes
/// so far until the frame ends, then its message and the trailer bytes so far.
#[verifier::rlimit(60)]
proof fn lemma_feed_frame_prefix(body: Seq<char>, m: MessageView, limit: nat, k: int)
    requires
        own_markers_only(body),
        parse_spec(body) == Ok::<MessageView, Error>(m),
        limit >= 20 + payload_bytes(body).len(),
        0 <= k <= frame_bytes(body).len(),
    ensures
        k < 20 + payload_bytes(body).len() ==> feed_spec(seq![], limit, frame_bytes(body).take(k)) == (
            Ok::<Seq<MessageView>, Error>(seq![]),
            frame_bytes(body).take(k),
        ),
        k >= 20 + payload_bytes(body).len() ==> feed_spec(seq![], limit, frame_bytes(body).take(k))
            == (
            Ok::<Seq<MessageView>, Error>(seq![m]),
            frame_bytes(body).subrange(20 + payload_bytes(body).len() as int, k),
        ),
    decreases k,
{
    let f = frame_bytes(body);
    let p = payload_bytes(body);
    let d = 20 + p.len();
    lemma_frame_layout(body);
    assert(f.len() == d + 6);
    if k == 0 {
        assert(f.take(0) =~= Seq::<u8>::empty());
    } else {
        let j = k - 1;
        lemma_feed_frame_prefix(body, m, limit, j);
        let a = f.take(j);
        let x = f[j];
        assert(f.take(k) =~= a + seq![x]);
        lemma_feed_split(seq![], limit, a, seq![x]);
        let prev = feed_spec(seq![], limit, a);
        lemma_feed_one(prev.1, limit, x);
        reveal(step_spec);
        let b1 = prev.1.push(x);
        if k < d {
            assert(b1 =~= f.take(k));
            if k < 10 {
            } else if k == 10 {
                lemma_ends_with_at(f, k, bor_mark());
                assert(crate::text::occurs_at(f, bor_mark(), 0)) by {
                    assert(f.subrange(0, 10) =~= bor_mark());
                }
                assert(b1.take(10) =~= bor_mark());
                assert(crate::text::find_sub(b1, bor_mark()) == Some(0int));
                assert(b1.skip(0) =~= b1);
                assert(b1.skip(10) =~= Seq::<u8>::empty());
                assert(crate::text::find_sub(Seq::<u8>::empty(), eor_mark()) is None);
                assert(crate::text::find_sub(Seq::<u8>::empty(), bor_mark()) is None);
            } else {
                lemma_ends_with_at(f, k, bor_mark());
                lemma_ends_with_at(f, k, eor_mark());
            }
            assert(Seq::<MessageView>::empty() + Seq::<MessageView>::empty() =~= Seq::<MessageView>::empty());
        } else if k == d {
            assert(b1 =~= f.take(k));
            lemma_ends_with_at(f, k, eor_mark());
            assert(crate::text::occurs_at(f, eor_mark(), 10 + p.len() as int)) by {
                assert(f.subrange(10 + p.len() as int, d as int) =~= eor_mark());
            }
            // The frame starts at the buffer's start.
            assert(crate::text::occurs_at(b1, bor_mark(), 0)) by {
                assert(b1.subrange(0, 10) =~= bor_mark());
            }
            crate::text::lemma_find_sub_unique(b1, bor_mark(), 0);
            assert(b1.skip(0) =~= b1);
            let tail = b1.skip(10);
            assert(tail =~= p + eor_mark());
            // Its end is the `<EOR>` after the body, and no `<BOR>` follows.
            assert forall|i: int| crate::text::occurs_at(tail, eor_mark(), i) implies i == p.len() by {
                assert(tail.subrange(i, i + 10) =~= f.subrange(i + 10, i + 20));
                assert(crate::text::occurs_at(f, eor_mark(), i + 10));
            }
            assert(crate::text::occurs_at(tail, eor_mark(), p.len() as int)) by {
                assert(tail.subrange(p.len() as int, p.len() as int + 10) =~= eor_mark());
            }
            crate::text::lemma_find_sub_unique(tail, eor_mark(), p.len() as int);
            crate::text::lemma_find_sub(tail, bor_mark());
            if crate::text::find_sub(tail, bor_mark()) is Some {
                let i = crate::text::find_sub(tail, bor_mark())->Some_0;
                assert(tail.subrange(i, i + 10) =~= f.subrange(i + 10, i + 20));
                assert(crate::text::occurs_at(f, bor_mark(), i + 10));
            }
            assert(frame_end(tail) == Some((p.len() as int, 10int)));
            assert(tail.take(p.len() as int) =~= p);
            lemma_units_of_le_bytes(encode_utf16(body));
            lemma_decode_encode_utf16(body);
            assert(p.len() % 2 == 0) by {
                lemma_le_bytes_len(encode_utf16(body));
            }
            assert(payload_spec(p) == Ok::<MessageView, Error>(m));
            assert(b1.skip(20 + p.len() as int) =~= Seq::<u8>::empty());
            assert(extract_spec(b1) == Ok::<(Seq<MessageView>, Seq<u8>), Error>((seq![m], Seq::<u8>::empty())));
            assert(f.subrange(d as int, k) =~= Seq::<u8>::empty());
            assert(Seq::<MessageView>::empty() + seq![m] =~= seq![m]);
        } else {
            assert(b1 =~= f.subrange(d as int, k));
            assert(seq![m] + Seq::<MessageView>::empty() =~= seq![m]);
        }
    }
}

/// The length of little-endian bytes.
proof fn lemma_le_bytes_len(us: Seq<u16>)
    ensures
        le_bytes(us).len() == 2 * us.len(),
    decreases us.len(),
{
    if us.len() > 0 {
        lemma_le_bytes_len(us.drop_last());
    }
}

/// Feeding the bytes of a frame gives the message that its body reads as,
/// when the frame holds no marker but its own and fits the limit; its
/// trailer stays buffered until the next `<BOR>`.
pub proof fn lemma_feed_frame(body: Seq<char>, m: MessageView, limit: nat)
    requires
        own_markers_only(body),
        parse_spec(body) == Ok::<MessageView, Error>(m),
        limit >= 20 + payload_bytes(body).len(),
    ensures
        feed_spec(seq![], limit, frame_bytes(body)) == (Ok::<Seq<MessageView>, Error>(seq![m]), trailer_bytes()),
{
    let f = frame_bytes(body);
    lemma_frame_layout(body);
    lemma_feed_frame_prefix(body, m, limit, f.len() as int);
    assert(f.take(f.len() as int) =~= f);
    assert(f.subrange(20 + payload_bytes(body).len() as int, f.len() as int) =~= trailer_bytes());
}

/// Decoding an encoded message gives it back: for every message that
/// encodes, reads back (see `reads_back`), whose frame holds no marker but
/// its own, and whose frame fits the decoder's limit.
pub proof fn lemma_decode_encoded(m: MessageView, limit: nat)
    requires
        body_spec(m) is Ok,
        reads_back(m),
        own_markers_only(body_spec(m)->Ok_0),
        limit >= 20 + payload_bytes(body_spec(m)->Ok_0).len(),
    ensures
        encode_spec(m) == Ok::<Seq<u8>, Error>(frame_bytes(body_spec(m)->Ok_0)),
        feed_spec(seq![], limit, encode_spec(m)->Ok_0) == (Ok::<Seq<MessageView>, Error>(seq![m]), trailer_bytes()),
{
    lemma_parse_body(m);
    lemma_feed_frame(body_spec(m)->Ok_0, m, limit);
}


/// A UTF-16 code unit that cannot pose as part of a marker at an odd byte
/// offset: any but U+4200 and U+4500, whose bytes are `00 42` and `00 45`.
pub open spec fn unit_ok(u: u16) -> bool {
    u != 0x4200 && u != 0x4500
}

/// `<BOR>` as code units.
pub open spec fn bor_units() -> Seq<u16> {
    seq![60u16, 66, 79, 82, 62]
}

/// `<EOR>` as code units.
pub open spec fn eor_units() -> Seq<u16> {
    seq![60u16, 69, 79, 82, 62]
}

/// A body whose UTF-16 holds neither marker, and no code unit that could
/// form one across a unit boundary (every surrogate, and so every character
/// outside the basic plane, passes).
pub open spec fn plain_units(body: Seq<char>) -> bool {
    let us = encode_utf16(body);
    &&& forall|i: int| 0 <= i < us.len() ==> unit_ok(#[trigger] us[i])
    &&& forall|j: int| !(#[trigger] crate::text::occurs_at(us, bor_units(), j))
    &&& forall|j: int| !(#[trigger] crate::text::occurs_at(us, eor_units(), j))
}

/// The bytes of code units, one by one.
proof fn lemma_le_bytes_index(us: Seq<u16>)
    ensures
        le_bytes(us).len() == 2 * us.len(),
        forall|i: int|
            0 <= i < us.len() ==> le_bytes(us)[2 * i] == us[i] % 256 && le_bytes(us)[2 * i + 1] == us[i]
                / 256,
    decreases us.len(),
{
    if us.len() > 0 {
        lemma_le_bytes_index(us.drop_last());
        let p = le_bytes(us.drop_last());
        assert forall|i: int| 0 <= i < us.len() implies le_bytes(us)[2 * i] == us[i] % 256 && le_bytes(
            us,
        )[2 * i + 1] == us[i] / 256 by {
            if i < us.len() - 1 {
                assert(le_bytes(us)[2 * i] == p[2 * i]);
                assert(le_bytes(us)[2 * i + 1] == p[2 * i + 1]);
                assert(us.drop_last()[i] == us[i]);
            }
        }
    }
}

/// A frame holds no marker but its own when its body's UTF-16 is plain.
pub proof fn lemma_own_markers(body: Seq<char>)
    requires
        plain_units(body),
    ensures
        own_markers_only(body),
{
    let a = "<BOR>"@;
    let c = "<EOR>\u{3}\u{4}\u{7}"@;
    lemma_encode_utf16_concat(a, body);
    lemma_encode_utf16_concat(a + body, c);
    assert(frame_text(body) =~= a + body + c);
    lemma_bor_bytes();
    lemma_eor_bytes();
    let ub = encode_utf16(body);
    let n = ub.len() as int;
    let u = encode_utf16(frame_text(body));
    assert(u =~= seq![60u16, 66, 79, 82, 62] + ub + seq![60u16, 69, 79, 82, 62, 3, 4, 7]);
    assert(u.len() == n + 13);
    let f = frame_bytes(body);
    lemma_le_bytes_index(u);
    lemma_le_bytes_len(ub);
    assert(payload_bytes(body).len() == 2 * n);
    assert forall|i: int| 0 <= i < u.len() implies unit_ok(#[trigger] u[i]) by {
        if 5 <= i < 5 + n {
            assert(u[i] == ub[i - 5]);
        }
    }
    assert forall|m: int| 0 <= m < u.len() implies #[trigger] u[m] == f[2 * m] + 256 * f[2 * m + 1] by {}
    assert forall|j: int| crate::text::occurs_at(f, bor_mark(), j) || crate::text::occurs_at(
        f,
        eor_mark(),
        j,
    ) implies (crate::text::occurs_at(f, bor_mark(), j) ==> j == 0) && (crate::text::occurs_at(
        f,
        eor_mark(),
        j,
    ) ==> j == 10 + 2 * n) by {
        let is_bor = crate::text::occurs_at(f, bor_mark(), j);
        let mark = if is_bor { bor_mark() } else { eor_mark() };
        let pat = if is_bor { bor_units() } else { eor_units() };
        assert(crate::text::occurs_at(f, mark, j));
        let sub = f.subrange(j, j + 10);
        assert(sub == mark);
        assert forall|t: int| 0 <= t < 10 implies #[trigger] f[j + t] == mark[t] by {
            assert(sub[t] == f[j + t]);
        }
        if j % 2 == 1 {
            let i = (j + 1) / 2;
            assert(f[j + 1] == mark[1] && f[j + 2] == mark[2]);
            assert(2 * i == j + 1);
            assert(u[i] % 256 == f[2 * i]);
            assert(u[i] / 256 == f[2 * i + 1]);
            assert(unit_ok(u[i]));
        } else {
            let k = j / 2;
            assert forall|t: int| 0 <= t < 5 implies #[trigger] u[k + t] == pat[t] by {
                assert(u[k + t] == f[2 * (k + t)] + 256 * f[2 * (k + t) + 1]);
                assert(f[j + 2 * t] == mark[2 * t]);
                assert(f[j + 2 * t + 1] == mark[2 * t + 1]);
            }
            assert(u[k] == 60);
            if 1 <= k <= 4 {
            } else if 5 <= k && k + 5 <= 5 + n {
                assert(crate::text::occurs_at(ub, pat, k - 5)) by {
                    assert forall|t: int| 0 <= t < 5 implies ub.subrange(k - 5, k)[t] == pat[t] by {
                        assert(u[k + t] == ub[k - 5 + t]);
                    }
                    assert(ub.subrange(k - 5, k) =~= pat);
                }
            } else if 5 <= k < 5 + n {
                let m = 5 + n - k;
                assert(u[k + m] == 60);
                assert(pat[m] == u[k + m]);
            } else if k == 0 {
                assert(u[k + 1] == 66);
            } else if k == 5 + n {
                assert(u[k + 1] == 69);
            } else {
                assert(k > 5 + n);
                assert(u[k] != 60);
            }
        }
    }
}

} // verus!
