//! What a message reads as once it has been written, and what reading gives to write.
use vstd::prelude::*;

use crate::message;
use crate::message::MessageView;
use crate::strmap;
use crate::text;

verus! {

/// A header that survives the wire: nothing to trim at either side, no line end, and no separator
/// inside the key.
#[verifier::opaque]
pub open spec fn is_plain_header(p: (Seq<char>, Seq<char>)) -> bool {
    &&& text::is_trimmed(p.0)
    &&& text::is_trimmed(p.1)
    &&& !p.0.contains('\n')
    &&& !p.1.contains('\n')
    &&& forall|i: int| !text::occurs_at(p.0, message::separator(), i)
}

/// Headers that survive the wire.
pub open spec fn are_plain_headers(hs: Seq<(Seq<char>, Seq<char>)>) -> bool {
    forall|i: int| 0 <= i < hs.len() ==> is_plain_header(#[trigger] hs[i])
}

/// The text of a plain header holds no line end, and is no fence.
proof fn lemma_header_text(p: (Seq<char>, Seq<char>))
    requires
        is_plain_header(p),
    ensures
        forall|j: int|
            0 <= j < message::header_text(p).len() ==> message::header_text(p)[j] != '\n',
        p.0.len() < message::header_text(p).len(),
        message::header_text(p)[p.0.len() as int] == ':',
{
    reveal(is_plain_header);
    let t = message::header_text(p);
    let n = p.0.len() as int;
    assert forall|j: int| 0 <= j < t.len() implies t[j] != '\n' by {
        if j < n {
            assert(t[j] == p.0[j]);
        } else if j >= n + 2 {
            assert(t[j] == p.1[j - n - 2]);
        }
    }
}

/// The text of a plain header splits into its key and its value.
proof fn lemma_header_text_splits(p: (Seq<char>, Seq<char>))
    requires
        is_plain_header(p),
    ensures
        text::split_once(message::header_text(p), message::separator()) == Some(p),
{
    reveal(is_plain_header);
    let t = message::header_text(p);
    let sep = message::separator();
    let n = p.0.len() as int;
    assert(t.subrange(n, n + 2) =~= sep);
    assert forall|j: int| 0 <= j < n implies !text::occurs_at(t, sep, j) by {
        if text::occurs_at(t, sep, j) {
            assert(t.subrange(j, j + 2)[0] == ':' && t.subrange(j, j + 2)[1] == ' ');
            assert(t[j + 1] == ' ');
            assert(j + 1 < n);
            assert(p.0.subrange(j, j + 2) =~= sep);
            assert(text::occurs_at(p.0, sep, j));
        }
    }
    assert(text::first_at(t, sep, n));
    text::lemma_split_once_at(t, sep, n);
    assert(t.take(n) =~= p.0);
    assert(t.skip(n + 2) =~= p.1);
}

/// Inside the header lines no closing fence stands before their end.
proof fn lemma_no_early_closing(hs: Seq<(Seq<char>, Seq<char>)>, tail: Seq<char>, j: int)
    requires
        are_plain_headers(hs),
        0 <= j < message::header_lines(hs).len() - 1,
    ensures
        !text::occurs_at(message::header_lines(hs) + tail, message::closing(), j),
    decreases hs.len(),
{
    let s = message::header_lines(hs) + tail;
    let line = message::header_text(hs[0]);
    let rest = message::header_lines(hs.drop_first());
    let n = line.len() as int;
    assert(is_plain_header(hs[0]));
    lemma_header_text(hs[0]);
    assert(s =~= line.push('\n') + (rest + tail));
    assert forall|i: int| 0 <= i < hs.drop_first().len() implies is_plain_header(
        #[trigger] hs.drop_first()[i],
    ) by {
        assert(hs.drop_first()[i] == hs[i + 1]);
    }
    if text::occurs_at(s, message::closing(), j) {
        let w = s.subrange(j, j + 5);
        assert(w[0] == '\n' && w[1] == '-' && w[2] == '-' && w[3] == '-' && w[4] == '\n');
        assert(s[j] == '\n' && s[j + 1] == '-' && s[j + 2] == '-' && s[j + 3] == '-' && s[j + 4]
            == '\n');
        if j < n {
            assert(s[j] == line[j]);
        } else if j == n {
            let hs2 = hs.drop_first();
            if hs2.len() > 0 {
                let next = message::header_text(hs2[0]);
                assert(is_plain_header(hs2[0]));
                lemma_header_text(hs2[0]);
                assert(rest =~= next.push('\n') + message::header_lines(hs2.drop_first()));
                let c = hs2[0].0.len() as int;
                assert forall|i: int| 0 <= i < next.len() implies s[n + 1 + i] == next[i] by {}
                if next.len() >= 4 {
                    assert(s[n + 1 + 3] == next[3]);
                } else {
                    assert(s[n + 1 + c] == next[c]);
                }
            }
        } else {
            let k = j - n - 1;
            assert((rest + tail).subrange(k, k + 5) =~= s.subrange(j, j + 5));
            lemma_no_early_closing(hs.drop_first(), tail, k);
        }
    }
}

/// The header lines, cut at their line ends, are the texts of the headers.
proof fn lemma_lines_of_headers(hs: Seq<(Seq<char>, Seq<char>)>)
    requires
        are_plain_headers(hs),
        hs.len() > 0,
    ensures
        message::header_lines(hs).len() > 0,
        message::header_lines(hs).last() == '\n',
        text::split_on(message::header_lines(hs).drop_last(), '\n') == hs.map_values(
            |p: (Seq<char>, Seq<char>)| message::header_text(p),
        ),
    decreases hs.len(),
{
    let f = |p: (Seq<char>, Seq<char>)| message::header_text(p);
    let all = message::header_lines(hs);
    let line = message::header_text(hs[0]);
    let hs2 = hs.drop_first();
    let rest = message::header_lines(hs2);
    let front = all.drop_last();
    let n = line.len() as int;
    assert(is_plain_header(hs[0]));
    lemma_header_text(hs[0]);
    assert forall|i: int| 0 <= i < hs2.len() implies is_plain_header(#[trigger] hs2[i]) by {
        assert(hs2[i] == hs[i + 1]);
    }
    if hs2.len() == 0 {
        assert(rest =~= Seq::<char>::empty());
        assert(front =~= line);
        text::lemma_split_on_none(front, '\n');
        assert(seq![line] =~= hs.map_values(f));
    } else {
        lemma_lines_of_headers(hs2);
        assert(all.last() == rest.last());
        assert(front =~= line.push('\n') + rest.drop_last());
        text::lemma_split_on_at(front, '\n', n);
        assert(front.take(n) =~= line);
        assert(front.skip(n + 1) =~= rest.drop_last());
        assert(seq![line] + hs2.map_values(f) =~= hs.map_values(f));
    }
}

/// Reading the texts of plain headers gives the headers.
proof fn lemma_read_header_texts(hs: Seq<(Seq<char>, Seq<char>)>)
    requires
        are_plain_headers(hs),
        strmap::distinct_keys(hs),
    ensures
        message::read_lines(
            hs.map_values(|p: (Seq<char>, Seq<char>)| message::header_text(p)),
        ) == hs,
    decreases hs.len(),
{
    let f = |p: (Seq<char>, Seq<char>)| message::header_text(p);
    let lines = hs.map_values(f);
    if hs.len() == 0 {
        assert(message::read_lines(lines) =~= hs);
    } else {
        let init = hs.drop_last();
        let p = hs.last();
        assert forall|i: int| 0 <= i < init.len() implies is_plain_header(#[trigger] init[i]) by {
            assert(init[i] == hs[i]);
        }
        assert(strmap::distinct_keys(init)) by {
            assert forall|i: int, j: int| 0 <= i < j < init.len() implies init[i].0 != init[j].0 by {
                assert(init[i] == hs[i] && init[j] == hs[j]);
            }
        }
        lemma_read_header_texts(init);
        assert(lines.drop_last() =~= init.map_values(f));
        assert(is_plain_header(p));
        reveal(is_plain_header);
        lemma_header_text_splits(p);
        text::lemma_trim(p.0);
        text::lemma_trim(p.1);
        assert(!strmap::has_key(init, p.0)) by {
            if strmap::has_key(init, p.0) {
                let i = strmap::slot(init, p.0);
                assert(hs[i].0 == hs[hs.len() - 1].0);
            }
        }
        assert(init.push(p) =~= hs);
    }
}

/// The written message starts with a fence, which header lines, fence and body follow.
proof fn lemma_wire_content(m: MessageView)
    ensures
        text::strip_prefix(message::wire(m), message::fence()) == Some(
            message::header_lines(m.headers) + (message::fence() + message::wire_body(m.body)),
        ),
{
    let raw = message::wire(m);
    assert(raw.subrange(0, 4) =~= message::fence());
    assert(raw.skip(4) =~= message::header_lines(m.headers) + (message::fence()
        + message::wire_body(m.body)));
}

/// Reading what was written, without headers.
proof fn lemma_write_read_no_headers(m: MessageView)
    requires
        m.headers.len() == 0,
    ensures
        message::parse_message(message::wire(m)) == Some(
            MessageView { headers: m.headers, body: message::wire_body(m.body) },
        ),
{
    lemma_wire_content(m);
    let body = message::wire_body(m.body);
    let content = message::header_lines(m.headers) + (message::fence() + body);
    assert(content =~= message::fence() + body);
    assert(content.subrange(0, 4) =~= message::fence());
    assert(content.skip(4) =~= body);
    assert(m.headers =~= Seq::<(Seq<char>, Seq<char>)>::empty());
}

/// Header lines do not start with the fence.
proof fn lemma_no_fence_first(hs: Seq<(Seq<char>, Seq<char>)>, tail: Seq<char>)
    requires
        are_plain_headers(hs),
        hs.len() > 0,
    ensures
        !text::occurs_at(message::header_lines(hs) + tail, message::fence(), 0),
{
    let content = message::header_lines(hs) + tail;
    let first = message::header_text(hs[0]);
    let n = first.len() as int;
    lemma_header_text(hs[0]);
    let k = hs[0].0.len() as int;
    assert(n >= k + 2);
    if text::occurs_at(content, message::fence(), 0) {
        let w = content.subrange(0, 4);
        assert(w[0] == '-' && w[1] == '-' && w[2] == '-' && w[3] == '\n');
        assert forall|j: int| 0 <= j < n implies #[trigger] content[j] == first[j] by {}
        if n > 3 {
            assert(content[3] == w[3]);
            assert(first[3] != '\n');
        } else {
            assert(k < 3);
            assert(content[k] == w[k]);
            assert(first[k] == ':');
        }
    }
}

/// The closing fence behind the header lines is the leftmost.
proof fn lemma_closing_place(hs: Seq<(Seq<char>, Seq<char>)>, body: Seq<char>)
    requires
        are_plain_headers(hs),
        hs.len() > 0,
    ensures
        text::split_once(
            message::header_lines(hs) + (message::fence() + body),
            message::closing(),
        ) == Some((message::header_lines(hs).drop_last(), body)),
{
    let all = message::header_lines(hs);
    let tail = message::fence() + body;
    let content = all + tail;
    let n = all.len() - 1;
    lemma_lines_of_headers(hs);
    assert(content.subrange(n, n + 5) =~= message::closing());
    assert forall|j: int| 0 <= j < n implies !text::occurs_at(content, message::closing(), j) by {
        lemma_no_early_closing(hs, tail, j);
    }
    assert(text::first_at(content, message::closing(), n));
    text::lemma_split_once_at(content, message::closing(), n);
    assert(content.take(n) =~= all.drop_last());
    assert(content.skip(n + 5) =~= body);
}

/// Reading what was written, with headers.
proof fn lemma_write_read_headers(m: MessageView)
    requires
        strmap::distinct_keys(m.headers),
        are_plain_headers(m.headers),
        m.headers.len() > 0,
    ensures
        message::parse_message(message::wire(m)) == Some(
            MessageView { headers: m.headers, body: message::wire_body(m.body) },
        ),
{
    lemma_wire_content(m);
    lemma_no_fence_first(m.headers, message::fence() + message::wire_body(m.body));
    lemma_closing_place(m.headers, message::wire_body(m.body));
    lemma_lines_of_headers(m.headers);
    lemma_read_header_texts(m.headers);
}

/// A message whose headers are plain reads as itself once it has been written; its body then ends
/// its last line.
pub proof fn law_write_read(m: MessageView)
    requires
        strmap::distinct_keys(m.headers),
        are_plain_headers(m.headers),
    ensures
        message::parse_message(message::wire(m)) == Some(
            MessageView { headers: m.headers, body: message::wire_body(m.body) },
        ),
{
    if m.headers.len() == 0 {
        lemma_write_read_no_headers(m);
    } else {
        lemma_write_read_headers(m);
    }
}

/// The empty message is the eight characters `---\n---\n`, both ways.
pub proof fn law_empty_message()
    ensures
        message::wire(MessageView { headers: Seq::empty(), body: Seq::empty() })
            == message::EMPTY_MESSAGE@,
        message::EMPTY_MESSAGE@.len() == 8,
        message::parse_message(message::EMPTY_MESSAGE@) == Some(
            MessageView { headers: Seq::empty(), body: Seq::empty() },
        ),
{
    let m = MessageView { headers: Seq::empty(), body: Seq::empty() };
    reveal_strlit("---\n---\n");
    assert(message::wire(m) =~= message::EMPTY_MESSAGE@);
    law_write_read(m);
}

/// A part of text without `pat` is without it too.
proof fn lemma_part_without<T>(s: Seq<T>, pat: Seq<T>, from: int, to: int, i: int)
    requires
        0 <= from <= to <= s.len(),
        forall|j: int| !text::occurs_at(s, pat, j),
    ensures
        !text::occurs_at(s.subrange(from, to), pat, i),
{
    if text::occurs_at(s.subrange(from, to), pat, i) {
        assert(s.subrange(from, to).subrange(i, i + pat.len()) =~= s.subrange(
            from + i,
            from + i + pat.len(),
        ));
        assert(text::occurs_at(s, pat, from + i));
    }
}

/// A line without line ends sets a plain header, if any, and keeps keys distinct.
proof fn lemma_read_line_plain(hs: Seq<(Seq<char>, Seq<char>)>, line: Seq<char>)
    requires
        are_plain_headers(hs),
        strmap::distinct_keys(hs),
        !line.contains('\n'),
    ensures
        are_plain_headers(message::read_line(hs, line)),
        strmap::distinct_keys(message::read_line(hs, line)),
{
    let sep = message::separator();
    if text::split_once(line, sep) is Some {
        let i = text::lemma_split_once_some(line, sep);
        let k = line.take(i);
        let v = line.skip(i + 2);
        text::lemma_trim(k);
        text::lemma_trim(v);
        text::lemma_trim_is_part(k);
        let (a, b) = choose|a: int, b: int|
            0 <= a <= b <= k.len() && text::trim(k) == #[trigger] k.subrange(a, b);
        assert forall|j: int| !text::occurs_at(k, sep, j) by {
            if text::occurs_at(k, sep, j) {
                assert(line.subrange(j, j + 2) =~= k.subrange(j, j + 2));
                assert(text::occurs_at(line, sep, j));
            }
        }
        assert forall|j: int| !text::occurs_at(text::trim(k), sep, j) by {
            lemma_part_without(k, sep, a, b, j);
        }
        assert(!k.contains('\n')) by {
            if k.contains('\n') {
                let j = choose|j: int| 0 <= j < k.len() && k[j] == '\n';
                assert(line[j] == '\n');
            }
        }
        assert(!v.contains('\n')) by {
            if v.contains('\n') {
                let j = choose|j: int| 0 <= j < v.len() && v[j] == '\n';
                assert(line[j + i + 2] == '\n');
            }
        }
        let p = (text::trim(k), text::trim(v));
        assert(is_plain_header(p)) by {
            reveal(is_plain_header);
        }
        strmap::lemma_put(hs, p.0, p.1);
        let new = strmap::put(hs, p.0, p.1);
        assert forall|j: int| 0 <= j < new.len() implies is_plain_header(#[trigger] new[j]) by {
            if new[j] != p {
                assert(new[j] == hs[j]);
            }
        }
    }
}

/// The lines of a text hold no line end.
proof fn lemma_split_on_parts(s: Seq<char>)
    ensures
        forall|i: int|
            0 <= i < text::split_on(s, '\n').len() ==> !(#[trigger] text::split_on(
                s,
                '\n',
            )[i]).contains('\n'),
    decreases s.len(),
{
    if s.contains('\n') {
        text::lemma_first_index(s, '\n');
        let n = text::first_index(s, '\n');
        text::lemma_split_on_at(s, '\n', n);
        lemma_split_on_parts(s.skip(n + 1));
        let rest = text::split_on(s.skip(n + 1), '\n');
        let all = text::split_on(s, '\n');
        assert forall|i: int| 0 <= i < all.len() implies !(#[trigger] all[i]).contains('\n') by {
            if i == 0 {
                assert(all[0] =~= s.take(n));
                if all[0].contains('\n') {
                    let j = choose|j: int| 0 <= j < n && s.take(n)[j] == '\n';
                    assert(s[j] == '\n');
                }
            } else {
                assert(all[i] == rest[i - 1]);
            }
        }
    } else {
        text::lemma_split_on_none(s, '\n');
    }
}

/// Lines without line ends set plain headers with distinct keys.
proof fn lemma_read_lines_plain(lines: Seq<Seq<char>>)
    requires
        forall|i: int| 0 <= i < lines.len() ==> !(#[trigger] lines[i]).contains('\n'),
    ensures
        are_plain_headers(message::read_lines(lines)),
        strmap::distinct_keys(message::read_lines(lines)),
    decreases lines.len(),
{
    if lines.len() > 0 {
        let init = lines.drop_last();
        assert forall|i: int| 0 <= i < init.len() implies !(#[trigger] init[i]).contains('\n') by {
            assert(init[i] == lines[i]);
        }
        lemma_read_lines_plain(init);
        assert(!lines[lines.len() - 1].contains('\n'));
        lemma_read_line_plain(message::read_lines(init), lines.last());
    }
}

/// Every message that was read has plain headers, each key once.
pub proof fn law_read_is_plain(raw: Seq<char>)
    ensures
        message::parse_message(raw) matches Some(m) ==> are_plain_headers(m.headers)
            && strmap::distinct_keys(m.headers),
{
    if let Some(content) = text::strip_prefix(raw, message::fence()) {
        if text::strip_prefix(content, message::fence()) is Some {
        } else if let Some((front, body)) = text::split_once(content, message::closing()) {
            lemma_split_on_parts(front);
            lemma_read_lines_plain(text::split_on(front, '\n'));
        } else if let Some(front) = text::strip_suffix(content, message::fence()) {
            lemma_split_on_parts(front);
            lemma_read_lines_plain(text::split_on(front, '\n'));
        }
    }
}

/// A message that was read can be passed on from node to node: written and read again it is the
/// same, its body ended by a line end.
pub proof fn law_forward(raw: Seq<char>)
    ensures
        message::parse_message(raw) matches Some(m) ==> message::parse_message(message::wire(m))
            == Some(MessageView { headers: m.headers, body: message::wire_body(m.body) }),
{
    law_read_is_plain(raw);
    if let Some(m) = message::parse_message(raw) {
        law_write_read(m);
    }
}

/// Text that does not start with the fence, or in which no later fence closes the frontmatter, is
/// no message.
pub proof fn law_no_frontmatter(raw: Seq<char>)
    ensures
        !text::occurs_at(raw, message::fence(), 0) ==> message::parse_message(raw) is None,
        (forall|i: int| i > 0 ==> !text::occurs_at(raw, message::fence(), i))
            ==> message::parse_message(raw) is None,
{
    if let Some(content) = text::strip_prefix(raw, message::fence()) {
        if message::parse_message(raw) is Some {
            let i = lemma_closed(raw);
            assert(text::occurs_at(raw, message::fence(), i));
        }
    }
}

/// Text that starts with the fence is a message where another fence stands on a line of its own:
/// at once, or behind the line end at `i`.
pub proof fn law_closed_frontmatter(raw: Seq<char>, i: int)
    requires
        text::occurs_at(raw, message::fence(), 0),
        i >= 3,
        text::occurs_at(raw, message::closing(), i),
    ensures
        message::parse_message(raw) is Some,
{
    let content = raw.skip(4);
    let w = raw.subrange(i, i + 5);
    if i == 3 {
        assert forall|k: int| 0 <= k < 4 implies content.subrange(0, 4)[k] == message::fence()[k] by {
            assert(content.subrange(0, 4)[k] == w[k + 1]);
        }
        assert(content.subrange(0, 4) =~= message::fence());
    } else {
        assert(content.subrange(i - 4, i + 1) =~= w);
        text::lemma_split_once_found(content, message::closing(), i - 4);
    }
}

/// A message holds a fence behind the one it starts with.
proof fn lemma_closed(raw: Seq<char>) -> (i: int)
    requires
        message::parse_message(raw) is Some,
    ensures
        i > 0,
        text::occurs_at(raw, message::fence(), i),
{
    let content = raw.skip(4);
    if text::occurs_at(content, message::fence(), 0) {
        assert(raw.subrange(4, 8) =~= content.subrange(0, 4));
        4
    } else if text::split_once(content, message::closing()) is Some {
        let i = text::lemma_split_once_some(content, message::closing());
        lemma_closing_holds_fence(raw, i);
        i + 5
    } else {
        let n = content.len() - 4;
        assert(raw.subrange(n + 4, n + 8) =~= content.subrange(n, n + 4));
        n + 4
    }
}

/// A closing fence behind the first four characters is a fence of the whole text.
proof fn lemma_closing_holds_fence(raw: Seq<char>, i: int)
    requires
        raw.len() >= 4,
        text::occurs_at(raw.skip(4), message::closing(), i),
    ensures
        text::occurs_at(raw, message::fence(), i + 5),
{
    let w = raw.skip(4).subrange(i, i + 5);
    assert(w == message::closing());
    assert(raw.subrange(i + 5, i + 9) =~= message::fence()) by {
        assert forall|k: int| 0 <= k < 4 implies raw.subrange(i + 5, i + 9)[k] == message::fence()[k] by {
            assert(raw.subrange(i + 5, i + 9)[k] == w[k + 1]);
        }
    }
}

/// What is written of a message is what is written of it without its body, then the whole body, and
/// at most one line end behind it: one where the body does not end its last line.
pub proof fn law_body_is_written_whole(m: MessageView)
    ensures
        ({
            let front = message::wire(MessageView { headers: m.headers, body: Seq::empty() });
            let end = message::fence();
            &&& front.len() >= 8 && front.take(4) == end && front.skip(front.len() - 4) == end
            &&& message::wire(m) == front + m.body || message::wire(m) == front + m.body + seq!['\n']
            &&& message::wire(m) == front + m.body <==> m.body.len() == 0 || m.body.last() == '\n'
        }),
{
    let front = message::wire(MessageView { headers: m.headers, body: Seq::empty() });
    assert(front =~= message::fence() + message::header_lines(m.headers) + message::fence());
    assert(front.take(4) =~= message::fence());
    assert(front.skip(front.len() - 4) =~= message::fence());
    if m.body.len() == 0 || m.body.last() == '\n' {
        assert(message::wire(m) =~= front + m.body);
    } else {
        assert(message::wire(m) =~= front + m.body + seq!['\n']);
        assert(message::wire(m).len() != (front + m.body).len());
    }
}

/// Reading what was written gives back the whole body, with at most one character behind it, and
/// exactly the body where that ends its last line.
pub proof fn law_body_arrives_whole(m: MessageView)
    requires
        strmap::distinct_keys(m.headers),
        are_plain_headers(m.headers),
    ensures
        match message::parse_message(message::wire(m)) {
            Some(got) => {
                &&& got.headers == m.headers
                &&& m.body.is_prefix_of(got.body)
                &&& got.body.len() <= m.body.len() + 1
                &&& got.body.len() > m.body.len() ==> got.body.last() == '\n' && m.body.len() > 0
                    && m.body.last() != '\n'
                &&& got.body.len() > 0 ==> got.body.last() == '\n'
            },
            None => false,
        },
{
    law_write_read(m);
}

/// A header has a value exactly where it stands among the headers with it.
pub proof fn law_headers_are_found(m: MessageView, k: Seq<char>, v: Seq<char>)
    requires
        strmap::distinct_keys(m.headers),
    ensures
        message::header(m, k) == Some(v) <==> m.headers.contains((k, v)),
        message::header(m, k) is None <==> forall|i: int|
            0 <= i < m.headers.len() ==> (#[trigger] m.headers[i]).0 != k,
{
    strmap::law_entries(m.headers, k, v);
    if strmap::has_key(m.headers, k) {
        let i = strmap::slot(m.headers, k);
        assert(m.headers[i].0 == k);
    }
}

/// Headers are written one by one, in order, each as its key, a colon, a blank, its value and a line
/// end.
pub proof fn law_header_lines_add_up(
    a: Seq<(Seq<char>, Seq<char>)>,
    b: Seq<(Seq<char>, Seq<char>)>,
    k: Seq<char>,
    v: Seq<char>,
)
    ensures
        message::header_lines(a + b) == message::header_lines(a) + message::header_lines(b),
        message::header_lines(seq![(k, v)]) == k + ": "@ + v + "\n"@,
        message::wire(MessageView { headers: a, body: Seq::empty() }) == "---\n"@
            + message::header_lines(a) + "---\n"@,
    decreases a.len(),
{
    reveal_strlit(": ");
    reveal_strlit("\n");
    reveal_strlit("---\n");
    assert(": "@ =~= message::separator());
    assert("---\n"@ =~= message::fence());
    let one = seq![(k, v)];
    assert(one.drop_first() =~= Seq::<(Seq<char>, Seq<char>)>::empty());
    assert(message::header_lines(one.drop_first()) =~= Seq::<char>::empty());
    assert(message::header_lines(one) =~= k + ": "@ + v + "\n"@);
    assert(message::wire(MessageView { headers: a, body: Seq::empty() }) =~= "---\n"@
        + message::header_lines(a) + "---\n"@);
    if a.len() == 0 {
        assert(a + b =~= b);
        assert(message::header_lines(a) + message::header_lines(b) =~= message::header_lines(b));
    } else {
        law_header_lines_add_up(a.drop_first(), b, k, v);
        assert((a + b).drop_first() =~= a.drop_first() + b);
        assert((a + b)[0] == a[0]);
        assert(message::header_lines(a + b) =~= message::header_lines(a) + message::header_lines(
            b,
        ));
    }
}

/// A line with a colon and a blank sets the header before the leftmost of them to what is behind it,
/// white space around either left out, and changes no other header; a line without them changes
/// nothing.
pub proof fn law_lines_set_headers(
    hs: Seq<(Seq<char>, Seq<char>)>,
    k: Seq<char>,
    v: Seq<char>,
    line: Seq<char>,
    other: Seq<char>,
)
    requires
        strmap::distinct_keys(hs),
        forall|j: int| 0 <= j < k.len() ==> !text::occurs_at(k + ": "@ + v, ": "@, j),
    ensures
        ({
            let before = MessageView { headers: hs, body: Seq::empty() };
            let after = MessageView {
                headers: message::read_line(hs, k + ": "@ + v),
                body: Seq::empty(),
            };
            &&& message::header(after, text::trim(k)) == Some(text::trim(v))
            &&& other != text::trim(k) ==> message::header(after, other) == message::header(
                before,
                other,
            )
            &&& strmap::distinct_keys(after.headers)
            &&& after.headers == strmap::put(hs, text::trim(k), text::trim(v))
        }),
        (forall|j: int| !text::occurs_at(line, ": "@, j)) ==> message::read_line(hs, line) == hs,
{
    reveal_strlit(": ");
    let sep = message::separator();
    assert(": "@ =~= sep);
    let full = k + sep + v;
    let n = k.len() as int;
    assert(full.subrange(n, n + 2) =~= sep);
    assert(text::first_at(full, sep, n));
    text::lemma_split_once_at(full, sep, n);
    assert(full.take(n) =~= k);
    assert(full.skip(n + 2) =~= v);
    let key = text::trim(k);
    let value = text::trim(v);
    strmap::lemma_put(hs, key, value);
    let new = strmap::put(hs, key, value);
    assert(strmap::as_map(new) == strmap::as_map(hs).insert(key, value));
    assert(strmap::as_map(new).contains_key(key));
    assert(strmap::has_key(new, key));
    assert(strmap::as_map(new)[key] == value);
    if other != key {
        assert(strmap::as_map(new).contains_key(other) == strmap::as_map(hs).contains_key(other));
        if strmap::has_key(hs, other) {
            assert(strmap::as_map(new)[other] == strmap::as_map(hs)[other]);
        }
    }
    if forall|j: int| !text::occurs_at(line, ": "@, j) {
        text::lemma_split_once_none(line, sep);
    }
}

/// Lines are read one by one, in order: a later one has the last word.
pub proof fn law_later_lines_count(lines: Seq<Seq<char>>, line: Seq<char>)
    ensures
        message::read_lines(lines.push(line)) == message::read_line(
            message::read_lines(lines),
            line,
        ),
        message::read_lines(Seq::<Seq<char>>::empty()).len() == 0,
{
    assert(lines.push(line).drop_last() =~= lines);
}

/// Of headers given as pairs, the later of two with one key counts, and no key is there twice.
pub proof fn law_later_pairs_count(
    ps: Seq<(Seq<char>, Seq<char>)>,
    k: Seq<char>,
    v: Seq<char>,
    other: Seq<char>,
)
    ensures
        strmap::distinct_keys(message::collect_pairs(ps)),
        ({
            let before = MessageView { headers: message::collect_pairs(ps), body: Seq::empty() };
            let after = MessageView {
                headers: message::collect_pairs(ps.push((k, v))),
                body: Seq::empty(),
            };
            &&& message::header(after, k) == Some(v)
            &&& other != k ==> message::header(after, other) == message::header(before, other)
        }),
        message::collect_pairs(Seq::<(Seq<char>, Seq<char>)>::empty()).len() == 0,
    decreases ps.len(),
{
    assert(ps.push((k, v)).drop_last() =~= ps);
    assert(ps.push((k, v)).last() == (k, v));
    if ps.len() > 0 {
        law_later_pairs_count(ps.drop_last(), k, v, other);
        strmap::lemma_put(message::collect_pairs(ps.drop_last()), ps.last().0, ps.last().1);
    }
    let hs = message::collect_pairs(ps);
    strmap::lemma_put(hs, k, v);
    let new = strmap::put(hs, k, v);
    assert(strmap::as_map(new).contains_key(k));
    assert(strmap::as_map(new)[k] == v);
    if other != k {
        assert(strmap::as_map(new).contains_key(other) == strmap::as_map(hs).contains_key(other));
        if strmap::has_key(hs, other) {
            assert(strmap::as_map(new)[other] == strmap::as_map(hs)[other]);
        }
    }
}

/// What stands between line ends, or the ends of the text, is one of its lines.
proof fn lemma_line_is_part(s: Seq<char>, start: int, end: int)
    requires
        0 <= start <= end <= s.len(),
        start == 0 || s[start - 1] == '\n',
        end == s.len() || s[end] == '\n',
        forall|j: int| start <= j < end ==> s[j] != '\n',
    ensures
        text::split_on(s, '\n').contains(s.subrange(start, end)),
    decreases s.len(),
{
    let all = text::split_on(s, '\n');
    if s.contains('\n') {
        text::lemma_first_index(s, '\n');
        let n = text::first_index(s, '\n');
        text::lemma_split_on_at(s, '\n', n);
        if start == 0 {
            assert(end == n);
            assert(all[0] == s.take(n));
            assert(s.take(n) =~= s.subrange(start, end));
        } else {
            assert(start >= n + 1);
            let tail = s.skip(n + 1);
            let rest = text::split_on(tail, '\n');
            lemma_line_is_part(tail, start - n - 1, end - n - 1);
            let part = tail.subrange(start - n - 1, end - n - 1);
            assert(part =~= s.subrange(start, end));
            let i = choose|i: int| 0 <= i < rest.len() && rest[i] == part;
            assert(all[i + 1] == part);
        }
    } else {
        assert forall|j: int| 0 <= j < s.len() implies s[j] != '\n' by {
            assert(s.contains(s[j]));
        }
        text::lemma_split_on_none(s, '\n');
        assert(all[0] == s);
        assert(s =~= s.subrange(start, end));
    }
}

/// Text none of whose lines is a fence does not start with one.
proof fn lemma_no_fence_in_front(front: Seq<char>, tail: Seq<char>)
    requires
        !text::split_on(front, '\n').contains(seq!['-', '-', '-']),
        tail.len() > 0,
        tail[0] == '\n',
    ensures
        !text::occurs_at(front + tail, message::fence(), 0),
{
    let s = front + tail;
    let n = front.len() as int;
    assert(s[n] == '\n');
    if text::occurs_at(s, message::fence(), 0) {
        let w = s.subrange(0, 4);
        assert(w == message::fence());
        assert(s[0] == w[0] && s[1] == w[1] && s[2] == w[2] && s[3] == w[3]);
        assert(s[0] == '-' && s[1] == '-' && s[2] == '-' && s[3] == '\n');
        assert(n >= 3);
        lemma_line_is_part(front, 0, 3);
        assert(front.subrange(0, 3) =~= seq!['-', '-', '-']);
    }
}

/// Inside text none of whose lines is a fence, none closes.
proof fn lemma_no_closing_in_front(front: Seq<char>, tail: Seq<char>, j: int)
    requires
        !text::split_on(front, '\n').contains(seq!['-', '-', '-']),
        tail.len() > 0,
        tail[0] == '\n',
        0 <= j < front.len(),
    ensures
        !text::occurs_at(front + tail, message::closing(), j),
{
    let s = front + tail;
    let n = front.len() as int;
    assert(s[n] == '\n');
    if text::occurs_at(s, message::closing(), j) {
        let w = s.subrange(j, j + 5);
        assert(w == message::closing());
        assert(s[j] == w[0] && s[j + 1] == w[1] && s[j + 2] == w[2] && s[j + 3] == w[3] && s[j + 4]
            == w[4]);
        assert(s[j] == '\n' && s[j + 1] == '-' && s[j + 2] == '-' && s[j + 3] == '-' && s[j + 4]
            == '\n');
        assert(n >= j + 4);
        lemma_line_is_part(front, j + 1, j + 4);
        assert(front.subrange(j + 1, j + 4) =~= seq!['-', '-', '-']);
    }
}

/// A message is the lines between its fences, read in order, and everything behind the closing
/// fence, as it is: whatever lines these are, as long as none of them is a fence, and whatever the
/// body is.
pub proof fn law_message_is_lines_and_body(lines: Seq<Seq<char>>, body: Seq<char>)
    requires
        lines.len() > 0,
        forall|i: int|
            0 <= i < lines.len() ==> !(#[trigger] lines[i]).contains('\n') && lines[i] != seq![
                '-',
                '-',
                '-',
            ],
    ensures
        message::parse_message(
            "---\n"@ + text::join(lines, "\n"@) + "\n---\n"@ + body,
        ) == Some(MessageView { headers: message::read_lines(lines), body }),
{
    reveal_strlit("---\n");
    reveal_strlit("\n---\n");
    reveal_strlit("\n");
    let fence = message::fence();
    let closing = message::closing();
    assert("---\n"@ =~= fence);
    assert("\n---\n"@ =~= closing);
    assert("\n"@ =~= seq!['\n']);
    let front = text::join(lines, seq!['\n']);
    let raw = fence + front + closing + body;
    let content = front + closing + body;
    let n = front.len() as int;
    text::law_join_split(lines, '\n');
    assert(raw.subrange(0, 4) =~= fence);
    assert(raw.skip(4) =~= content);
    assert(content[n] == '\n');
    let dashes = seq!['-', '-', '-'];
    assert(!lines.contains(dashes)) by {
        if lines.contains(dashes) {
            let i = choose|i: int| 0 <= i < lines.len() && lines[i] == dashes;
            assert(lines[i] != dashes);
        }
    }
    let tail = closing + body;
    assert(content =~= front + tail);
    assert(tail[0] == '\n');
    lemma_no_fence_in_front(front, tail);
    assert(content.subrange(n, n + 5) =~= closing);
    assert forall|j: int| 0 <= j < n implies !text::occurs_at(content, closing, j) by {
        lemma_no_closing_in_front(front, tail, j);
    }
    assert(text::first_at(content, closing, n));
    text::lemma_split_once_at(content, closing, n);
    assert(content.take(n) =~= front);
    assert(content.skip(n + 5) =~= body);
}

/// The body of a message is the end of its text, and a fence stands before it.
pub proof fn law_body_is_the_end(raw: Seq<char>)
    ensures
        message::parse_message(raw) matches Some(m) ==> {
            let n = raw.len() - m.body.len();
            &&& n >= 8
            &&& raw.skip(n) == m.body
            &&& raw.take(4) == "---\n"@
            &&& raw.subrange(n - 4, n) == "---\n"@
        },
{
    reveal_strlit("---\n");
    assert("---\n"@ =~= message::fence());
    if let Some(m) = message::parse_message(raw) {
        let content = raw.skip(4);
        assert(raw.take(4) =~= raw.subrange(0, 4));
        if text::occurs_at(content, message::fence(), 0) {
            assert(raw.skip(8) =~= m.body);
            assert(raw.subrange(4, 8) =~= content.subrange(0, 4));
        } else if text::split_once(content, message::closing()) is Some {
            let i = text::lemma_split_once_some(content, message::closing());
            lemma_closing_holds_fence(raw, i);
            assert(raw.skip(i + 9) =~= m.body);
        } else {
            let l = content.len() - 4;
            assert(raw.subrange(l + 4, l + 8) =~= content.subrange(l, l + 4));
            assert(raw.skip(raw.len() as int) =~= m.body);
        }
    }
}

/// A fence right behind the first closes a frontmatter without headers: all behind it is the body.
pub proof fn law_no_headers(body: Seq<char>)
    ensures
        message::parse_message("---\n---\n"@ + body) == Some(
            MessageView { headers: Seq::empty(), body },
        ),
{
    reveal_strlit("---\n---\n");
    let raw = "---\n---\n"@ + body;
    assert(raw.subrange(0, 4) =~= message::fence());
    assert(raw.skip(4).subrange(0, 4) =~= message::fence());
    assert(raw.skip(4).skip(4) =~= body);
}

/// Text is a message exactly where it starts with a fence and another fence follows: at once, on a
/// line of its own, or at the very end.
pub proof fn law_what_is_a_message(raw: Seq<char>)
    ensures
        message::parse_message(raw) is Some <==> {
            &&& text::occurs_at(raw, "---\n"@, 0)
            &&& {
                ||| text::occurs_at(raw, "---\n"@, 4)
                ||| exists|i: int| i >= 4 && text::occurs_at(raw, "\n---\n"@, i)
                ||| raw.len() >= 8 && text::occurs_at(raw, "---\n"@, raw.len() - 4)
            }
        },
{
    reveal_strlit("---\n");
    reveal_strlit("\n---\n");
    let fence = message::fence();
    let closing = message::closing();
    assert("---\n"@ =~= fence);
    assert("\n---\n"@ =~= closing);
    if text::occurs_at(raw, fence, 0) {
        let content = raw.skip(4);
        assert(text::occurs_at(content, fence, 0) <==> text::occurs_at(raw, fence, 4)) by {
            if content.len() >= 4 {
                assert(content.subrange(0, 4) =~= raw.subrange(4, 8));
            }
        }
        if raw.len() >= 8 {
            let l = content.len() - 4;
            assert(content.subrange(l, l + 4) =~= raw.subrange(l + 4, l + 8));
        }
        if text::split_once(content, closing) is Some {
            let i = text::lemma_split_once_some(content, closing);
            assert(content.subrange(i, i + 5) =~= raw.subrange(i + 4, i + 9));
            assert(text::occurs_at(raw, closing, i + 4));
        }
        if exists|i: int| i >= 4 && text::occurs_at(raw, closing, i) {
            let i = choose|i: int| i >= 4 && text::occurs_at(raw, closing, i);
            assert(content.subrange(i - 4, i + 1) =~= raw.subrange(i, i + 5));
            text::lemma_split_once_found(content, closing, i - 4);
        }
    }
}

/// A fence that ends the text without a line of its own closes it too: what is between is read as
/// lines, and there is no body.
pub proof fn law_last_fence_closes(front: Seq<char>)
    requires
        !text::occurs_at(front + "---\n"@, "---\n"@, 0),
        forall|j: int| !text::occurs_at(front + "---\n"@, "\n---\n"@, j),
    ensures
        message::parse_message("---\n"@ + front + "---\n"@) == Some(
            MessageView {
                headers: message::read_lines(text::split_on(front, '\n')),
                body: Seq::empty(),
            },
        ),
{
    reveal_strlit("---\n");
    reveal_strlit("\n---\n");
    let fence = message::fence();
    let closing = message::closing();
    assert("---\n"@ =~= fence);
    assert("\n---\n"@ =~= closing);
    let raw = fence + front + fence;
    let content = front + fence;
    let n = front.len() as int;
    assert(raw.subrange(0, 4) =~= fence);
    assert(raw.skip(4) =~= content);
    text::lemma_split_once_none(content, closing);
    assert(content.subrange(n, n + 4) =~= fence);
    assert(content.take(n) =~= front);
}

} // verus!
