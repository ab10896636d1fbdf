//! Messages of the mesh and their wire format.
use vstd::prelude::*;

use crate::json;
use crate::strmap;
use crate::strmap::StrMap;
use crate::text;

verus! {

/// An AMP wire message: frontmatter headers + optional markdown body.
///
/// Wire format:
/// ```text
/// ---
/// key: value
/// key: value
/// ---
/// optional body text
/// ```
///
/// The empty message `---\n---\n` (8 bytes) is valid - used as heartbeat/ACK/NOP.
#[derive(Debug)]
pub struct AmpMessage {
    pub headers: StrMap<String>,
    pub body: String,
}

/// What an [`AmpMessage`] says: its headers in order, and its body.
pub struct MessageView {
    pub headers: Seq<(Seq<char>, Seq<char>)>,
    pub body: Seq<char>,
}

/// The minimum valid AMP message - heartbeat, ACK, or keepalive.
pub const EMPTY_MESSAGE: &'static str = "---\n---\n";

/// Entries with the text of their values.
pub open spec fn text_pairs(es: Seq<(Seq<char>, String)>) -> Seq<(Seq<char>, Seq<char>)> {
    es.map_values(|e: (Seq<char>, String)| (e.0, e.1@))
}

impl View for AmpMessage {
    type V = MessageView;

    open spec fn view(&self) -> MessageView {
        MessageView { headers: text_pairs(self.headers.entries()), body: self.body@ }
    }
}

/// The value of the header `k`.
pub open spec fn header(m: MessageView, k: Seq<char>) -> Option<Seq<char>> {
    if strmap::has_key(m.headers, k) {
        Some(m.headers[strmap::slot(m.headers, k)].1)
    } else {
        None
    }
}

/// The pairs as headers: of two with one key the later counts.
pub open spec fn collect_pairs(ps: Seq<(Seq<char>, Seq<char>)>) -> Seq<(Seq<char>, Seq<char>)>
    decreases ps.len(),
{
    if ps.len() == 0 {
        Seq::empty()
    } else {
        strmap::put(collect_pairs(ps.drop_last()), ps.last().0, ps.last().1)
    }
}

/// The line that opens and closes the frontmatter.
pub open spec fn fence() -> Seq<char> {
    seq!['-', '-', '-', '\n']
}

/// The end of the last header line and the closing fence.
pub open spec fn closing() -> Seq<char> {
    seq!['\n', '-', '-', '-', '\n']
}

/// What separates a header's key from its value.
pub open spec fn separator() -> Seq<char> {
    seq![':', ' ']
}

/// A header on the wire, without its line end.
pub open spec fn header_text(p: (Seq<char>, Seq<char>)) -> Seq<char> {
    p.0 + separator() + p.1
}

/// The header lines of a message.
pub open spec fn header_lines(hs: Seq<(Seq<char>, Seq<char>)>) -> Seq<char>
    decreases hs.len(),
{
    if hs.len() == 0 {
        Seq::empty()
    } else {
        header_text(hs[0]).push('\n') + header_lines(hs.drop_first())
    }
}

/// A body on the wire: nothing, or text that ends its last line.
pub open spec fn wire_body(body: Seq<char>) -> Seq<char> {
    if body.len() == 0 || body.last() == '\n' {
        body
    } else {
        body.push('\n')
    }
}

/// A message on the wire.
pub open spec fn wire(m: MessageView) -> Seq<char> {
    fence() + header_lines(m.headers) + fence() + wire_body(m.body)
}

/// The headers once `line` has been read: a line with a separator sets a header, any other is
/// passed over.
pub open spec fn read_line(
    hs: Seq<(Seq<char>, Seq<char>)>,
    line: Seq<char>,
) -> Seq<(Seq<char>, Seq<char>)> {
    match text::split_once(line, separator()) {
        Some((k, v)) => strmap::put(hs, text::trim(k), text::trim(v)),
        None => hs,
    }
}

/// The headers that the lines set.
pub open spec fn read_lines(lines: Seq<Seq<char>>) -> Seq<(Seq<char>, Seq<char>)>
    decreases lines.len(),
{
    if lines.len() == 0 {
        Seq::empty()
    } else {
        read_line(read_lines(lines.drop_last()), lines.last())
    }
}

/// The headers that a frontmatter sets. The carriage return of a line end `\r\n` goes with the
/// white space around the value.
pub open spec fn read_front(front: Seq<char>) -> Seq<(Seq<char>, Seq<char>)> {
    read_lines(text::split_on(front, '\n'))
}

/// The message that `raw` spells. A frontmatter whose closing fence follows the opening one at once
/// holds no header.
pub open spec fn parse_message(raw: Seq<char>) -> Option<MessageView> {
    match text::strip_prefix(raw, fence()) {
        None => None,
        Some(content) => match text::strip_prefix(content, fence()) {
            Some(body) => Some(MessageView { headers: Seq::empty(), body }),
            None => match text::split_once(content, closing()) {
                Some((front, body)) => Some(MessageView { headers: read_front(front), body }),
                None => match text::strip_suffix(content, fence()) {
                    Some(front) => Some(
                        MessageView { headers: read_front(front), body: Seq::empty() },
                    ),
                    None => None,
                },
            },
        },
    }
}

/// Looking at the text of the values keeps keys where they are.
pub proof fn lemma_text_pairs(es: Seq<(Seq<char>, String)>, k: Seq<char>)
    requires
        strmap::distinct_keys(es),
    ensures
        strmap::distinct_keys(text_pairs(es)),
        strmap::has_key(text_pairs(es), k) == strmap::has_key(es, k),
        strmap::has_key(es, k) ==> strmap::slot(text_pairs(es), k) == strmap::slot(es, k),
        forall|v: String| text_pairs(#[trigger] strmap::put(es, k, v)) == strmap::put(
            text_pairs(es),
            k,
            v@,
        ),
{
    let ps = text_pairs(es);
    assert(ps.len() == es.len());
    assert forall|i: int| 0 <= i < es.len() implies #[trigger] ps[i].0 == es[i].0 by {}
    assert forall|i: int, j: int| 0 <= i < j < ps.len() implies ps[i].0 != ps[j].0 by {
        assert(es[i].0 != es[j].0);
    }
    if strmap::has_key(es, k) {
        let i = strmap::slot(es, k);
        assert(ps[i].0 == k);
        strmap::lemma_slot(ps, i);
    }
    if strmap::has_key(ps, k) {
        let i = strmap::slot(ps, k);
        assert(es[i].0 == k);
    }
    assert forall|v: String| text_pairs(#[trigger] strmap::put(es, k, v)) == strmap::put(ps, k, v@) by {
        assert(text_pairs(strmap::put(es, k, v)) =~= strmap::put(ps, k, v@));
    }
}

/// Pairs with keys of their own are headers as they stand.
pub proof fn lemma_collect_distinct(ps: Seq<(Seq<char>, Seq<char>)>)
    requires
        strmap::distinct_keys(ps),
    ensures
        collect_pairs(ps) == ps,
    decreases ps.len(),
{
    if ps.len() > 0 {
        let before = ps.drop_last();
        assert forall|i: int, j: int| 0 <= i < j < before.len() implies before[i].0
            != before[j].0 by {
            assert(ps[i].0 != ps[j].0);
        }
        lemma_collect_distinct(before);
        assert(!strmap::has_key(before, ps.last().0)) by {
            if strmap::has_key(before, ps.last().0) {
                let i = strmap::slot(before, ps.last().0);
                assert(ps[i].0 != ps[ps.len() - 1].0);
            }
        }
        assert(strmap::put(before, ps.last().0, ps.last().1) =~= ps);
    }
}

/// Sets the header that `cs[from..to]` spells, if it spells one.
fn read_line_into(headers: &mut StrMap<String>, cs: &Vec<char>, from: usize, to: usize)
    requires
        from <= to <= cs.len(),
    ensures
        text_pairs(final(headers).entries()) == read_line(
            text_pairs(old(headers).entries()),
            cs@.subrange(from as int, to as int),
        ),
{
    let line: Vec<char> = text::chars_of(text::text_of(cs, from, to).as_str());
    let sep: Vec<char> = text::chars_of(": ");
    proof {
        reveal_strlit(": ");
        assert(sep@ =~= separator());
    }
    if let Some(i) = text::find(&line, &sep) {
        let k: (usize, usize) = text::trim_range(&line, 0, i);
        let v: (usize, usize) = text::trim_range(&line, i + 2, line.len());
        let key: String = text::text_of(&line, k.0, k.1);
        let value: String = text::text_of(&line, v.0, v.1);
        proof {
            assert(line@.subrange(0, i as int) =~= line@.take(i as int));
            assert(line@.subrange(i + 2, line.len() as int) =~= line@.skip(i + 2));
        }
        let ghost k_view = key@;
        let ghost v_val = value;
        headers.insert(key, value);
        proof {
            lemma_text_pairs(old(headers).entries(), k_view);
        }
    }
}

/// The position of the first line end in `cs[from..to]`.
fn next_line_end(cs: &Vec<char>, from: usize, to: usize) -> (r: Option<usize>)
    requires
        from <= to <= cs.len(),
    ensures
        match r {
            Some(i) => from <= i < to && cs[i as int] == '\n' && forall|j: int|
                from <= j < i ==> cs[j] != '\n',
            None => forall|j: int| from <= j < to ==> cs[j] != '\n',
        },
{
    let mut i: usize = from;
    while i < to
        invariant
            from <= i <= to <= cs.len(),
            forall|j: int| from <= j < i ==> cs[j] != '\n',
        decreases to - i,
    {
        if cs[i] == '\n' {
            return Some(i);
        }
        i += 1;
    }
    None
}

/// Reading one line more.
proof fn lemma_read_lines_push(lines: Seq<Seq<char>>, line: Seq<char>)
    ensures
        read_lines(lines.push(line)) == read_line(read_lines(lines), line),
{
    assert(lines.push(line).drop_last() =~= lines);
}

/// The line that starts at `start` and ends at `i` is the next part of the frontmatter.
proof fn lemma_line_read(cs: Seq<char>, end: int, start: int, i: int)
    requires
        0 <= start <= i < end <= cs.len(),
        cs[i] == '\n',
        forall|j: int| start <= j < i ==> cs[j] != '\n',
    ensures
        text::split_on(cs.take(end).skip(start), '\n') == seq![cs.subrange(start, i)]
            + text::split_on(cs.take(end).skip(i + 1), '\n'),
{
    let rest = cs.take(end).skip(start);
    let n = i - start;
    assert forall|j: int| 0 <= j < n implies rest[j] != '\n' by {
        assert(rest[j] == cs[start + j]);
    }
    text::lemma_split_on_at(rest, '\n', n);
    assert(rest.take(n) =~= cs.subrange(start, i));
    assert(rest.skip(n + 1) =~= cs.take(end).skip(i + 1));
}

/// The headers that the frontmatter `cs[..end]` sets.
fn read_front_of(cs: &Vec<char>, end: usize) -> (r: StrMap<String>)
    requires
        end <= cs.len(),
    ensures
        text_pairs(r.entries()) == read_front(cs@.take(end as int)),
{
    let mut headers: StrMap<String> = StrMap::new();
    let mut start: usize = 0;
    let ghost front = cs@.take(end as int);
    let ghost mut done: Seq<Seq<char>> = Seq::empty();
    proof {
        assert(front.skip(0) =~= front);
        assert(done + text::split_on(front, '\n') =~= text::split_on(front, '\n'));
        assert(text_pairs(headers.entries()) =~= read_lines(done));
    }
    loop
        invariant
            start <= end <= cs.len(),
            front == cs@.take(end as int),
            text::split_on(front, '\n') == done + text::split_on(front.skip(start as int), '\n'),
            text_pairs(headers.entries()) == read_lines(done),
        decreases end - start,
    {
        let ghost rest = front.skip(start as int);
        match next_line_end(cs, start, end) {
            Some(i) => {
                read_line_into(&mut headers, cs, start, i);
                proof {
                    let line = cs@.subrange(start as int, i as int);
                    lemma_line_read(cs@, end as int, start as int, i as int);
                    lemma_read_lines_push(done, line);
                    assert(text::split_on(front, '\n') =~= done.push(line) + text::split_on(
                        front.skip(i + 1),
                        '\n',
                    ));
                    done = done.push(line);
                }
                start = i + 1;
            },
            None => {
                read_line_into(&mut headers, cs, start, end);
                proof {
                    let line = cs@.subrange(start as int, end as int);
                    assert(rest =~= line);
                    text::lemma_split_on_none(rest, '\n');
                    lemma_read_lines_push(done, line);
                    assert(text::split_on(front, '\n') =~= done.push(line));
                }
                return headers;
            },
        }
    }
}

impl Clone for AmpMessage {
    fn clone(&self) -> (r: AmpMessage)
        ensures
            r@ == self@,
    {
        let mut headers: StrMap<String> = StrMap::new();
        let n: usize = self.headers.len();
        let mut i: usize = 0;
        while i < n
            invariant
                i <= n,
                n == self.headers.entries().len(),
                strmap::distinct_keys(self.headers.entries()),
                headers.entries() == self.headers.entries().take(i as int),
            decreases n - i,
        {
            let ghost es = self.headers.entries();
            assert(!strmap::has_key(es.take(i as int), es[i as int].0));
            headers.insert(self.headers.key(i).clone(), self.headers.value(i).clone());
            assert(es.take(i as int).push(es[i as int]) =~= es.take(i + 1));
            i += 1;
        }
        assert(self.headers.entries().take(n as int) =~= self.headers.entries());
        AmpMessage { headers, body: self.body.clone() }
    }
}

/// Every header of `a` is one of `b`, with the same value.
pub open spec fn has_headers_of(
    b: Seq<(Seq<char>, Seq<char>)>,
    a: Seq<(Seq<char>, Seq<char>)>,
) -> bool {
    forall|i: int|
        0 <= i < a.len() ==> strmap::has_key(b, (#[trigger] a[i]).0) && b[strmap::slot(b, a[i].0)].1
            == a[i].1
}

/// Whether every header of `a` is one of `b`, with the same value.
fn covers(b: &StrMap<String>, a: &StrMap<String>) -> (r: bool)
    ensures
        r == has_headers_of(text_pairs(b.entries()), text_pairs(a.entries())),
        strmap::distinct_keys(a.entries()),
{
    let ghost pa = text_pairs(a.entries());
    let ghost pb = text_pairs(b.entries());
    let n: usize = a.len();
    let mut i: usize = 0;
    while i < n
        invariant
            i <= n,
            n == a.entries().len(),
            strmap::distinct_keys(a.entries()),
            pa == text_pairs(a.entries()),
            pb == text_pairs(b.entries()),
            forall|j: int|
                0 <= j < i ==> strmap::has_key(pb, (#[trigger] pa[j]).0) && pb[strmap::slot(
                    pb,
                    pa[j].0,
                )].1 == pa[j].1,
        decreases n - i,
    {
        let found: Option<&String> = b.get(a.key(i).as_str());
        proof {
            lemma_text_pairs(b.entries(), pa[i as int].0);
        }
        let same: bool = match found {
            Some(v) => text::str_eq(v.as_str(), a.value(i).as_str()),
            None => false,
        };
        if !same {
            assert(!(strmap::has_key(pb, pa[i as int].0) && pb[strmap::slot(pb, pa[i as int].0)].1
                == pa[i as int].1));
            return false;
        }
        i += 1;
    }
    true
}

/// Headers that are each other's are the same, whatever their order.
proof fn lemma_same_headers(a: Seq<(Seq<char>, Seq<char>)>, b: Seq<(Seq<char>, Seq<char>)>)
    requires
        strmap::distinct_keys(a),
        strmap::distinct_keys(b),
    ensures
        (has_headers_of(a, b) && has_headers_of(b, a)) == (strmap::as_map(a) == strmap::as_map(b)),
{
    let ma = strmap::as_map(a);
    let mb = strmap::as_map(b);
    if has_headers_of(a, b) && has_headers_of(b, a) {
        assert forall|k: Seq<char>| #[trigger] ma.contains_key(k) == mb.contains_key(k) by {
            if strmap::has_key(a, k) {
                let i = strmap::slot(a, k);
                assert(strmap::has_key(b, a[i].0));
            }
            if strmap::has_key(b, k) {
                let i = strmap::slot(b, k);
                assert(strmap::has_key(a, b[i].0));
            }
        }
        assert forall|k: Seq<char>| #[trigger] ma.contains_key(k) implies ma[k] == mb[k] by {
            let i = strmap::slot(a, k);
            assert(b[strmap::slot(b, a[i].0)].1 == a[i].1);
        }
        assert(ma =~= mb);
    }
    if ma == mb {
        assert forall|i: int| 0 <= i < a.len() implies strmap::has_key(b, (#[trigger] a[i]).0)
            && b[strmap::slot(b, a[i].0)].1 == a[i].1 by {
            strmap::lemma_slot(a, i);
            assert(ma.contains_key(a[i].0));
            assert(mb.contains_key(a[i].0));
            assert(ma[a[i].0] == mb[a[i].0]);
        }
        assert forall|i: int| 0 <= i < b.len() implies strmap::has_key(a, (#[trigger] b[i]).0)
            && a[strmap::slot(a, b[i].0)].1 == b[i].1 by {
            strmap::lemma_slot(b, i);
            assert(mb.contains_key(b[i].0));
            assert(ma.contains_key(b[i].0));
            assert(ma[b[i].0] == mb[b[i].0]);
        }
    }
}

/// Messages are equal if they have the same headers, in whatever order, and the same body.
impl PartialEq for AmpMessage {
    fn eq(&self, other: &AmpMessage) -> (r: bool) {
        let forth: bool = covers(&self.headers, &other.headers);
        let back: bool = covers(&other.headers, &self.headers);
        proof {
            lemma_text_pairs(self.headers.entries(), Seq::empty());
            lemma_text_pairs(other.headers.entries(), Seq::empty());
            lemma_same_headers(self@.headers, other@.headers);
        }
        forth && back && text::str_eq(self.body.as_str(), other.body.as_str())
    }
}

impl vstd::std_specs::cmp::PartialEqSpecImpl for AmpMessage {
    open spec fn obeys_eq_spec() -> bool {
        true
    }

    open spec fn eq_spec(&self, other: &AmpMessage) -> bool {
        strmap::as_map(self@.headers) == strmap::as_map(other@.headers) && self@.body == other@.body
    }
}

impl AmpMessage {
    /// Create a new message with headers and body.
    pub fn new(headers: StrMap<String>, body: &str) -> (r: AmpMessage)
        ensures
            r.headers == headers,
            r.body@ == body@,
    {
        AmpMessage { headers, body: body.to_owned() }
    }

    /// Create the empty AMP message (heartbeat/keepalive).
    pub fn empty() -> (r: AmpMessage)
        ensures
            r@ == (MessageView { headers: Seq::empty(), body: Seq::empty() }),
    {
        let r: AmpMessage = AmpMessage { headers: StrMap::new(), body: String::new() };
        assert(r@.headers =~= Seq::<(Seq<char>, Seq<char>)>::empty());
        r
    }

    /// Create a command message (headers only, no body).
    pub fn command(headers: Vec<(&'static str, String)>) -> (r: AmpMessage)
        ensures
            r@.headers == collect_pairs(headers@.map_values(|p: (&'static str, String)| (p.0@, p.1@))),
            r@.body == Seq::<char>::empty(),
    {
        let ghost ps = headers@.map_values(|p: (&'static str, String)| (p.0@, p.1@));
        let mut map: StrMap<String> = StrMap::new();
        let mut i: usize = 0;
        assert(text_pairs(map.entries()) =~= collect_pairs(ps.take(0)));
        while i < headers.len()
            invariant
                i <= headers.len(),
                ps == headers@.map_values(|p: (&'static str, String)| (p.0@, p.1@)),
                text_pairs(map.entries()) == collect_pairs(ps.take(i as int)),
            decreases headers.len() - i,
        {
            let ghost before = map.entries();
            map.insert(headers[i].0.to_owned(), headers[i].1.clone());
            proof {
                lemma_text_pairs(before, ps[i as int].0);
                assert(ps.take(i + 1).drop_last() =~= ps.take(i as int));
            }
            i += 1;
        }
        assert(ps.take(headers.len() as int) =~= ps);
        AmpMessage { headers: map, body: String::new() }
    }

    /// Parse a raw AMP wire message.
    ///
    /// Returns `None` if the input doesn't start with `---\n` or lacks a closing `---\n`.
    pub fn parse(raw: &str) -> (r: Option<AmpMessage>)
        ensures
            match r {
                Some(m) => parse_message(raw@) == Some(m@),
                None => parse_message(raw@) is None,
            },
    {
        proof {
            reveal_strlit("---\n");
            reveal_strlit("\n---\n");
            assert("---\n"@ =~= fence());
            assert("\n---\n"@ =~= closing());
        }
        let cs: Vec<char> = text::chars_of(raw);
        let open: Vec<char> = text::chars_of("---\n");
        if !text::stands_at(&cs, &open, 0) {
            return None;
        }
        let content: Vec<char> = text::chars_of(text::text_of(&cs, 4, cs.len()).as_str());
        assert(content@ =~= raw@.skip(4));
        if text::stands_at(&content, &open, 0) {
            let body: String = text::text_of(&content, 4, content.len());
            assert(body@ =~= content@.skip(4));
            let headers: StrMap<String> = StrMap::new();
            assert(text_pairs(headers.entries()) =~= Seq::<(Seq<char>, Seq<char>)>::empty());
            return Some(AmpMessage { headers, body });
        }
        let close: Vec<char> = text::chars_of("\n---\n");
        match text::find(&content, &close) {
            Some(i) => {
                let body: String = text::text_of(&content, i + 5, content.len());
                assert(body@ =~= content@.skip(i + 5));
                Some(AmpMessage { headers: read_front_of(&content, i), body })
            },
            None => {
                if content.len() < 4 || !text::stands_at(&content, &open, content.len() - 4) {
                    return None;
                }
                Some(
                    AmpMessage {
                        headers: read_front_of(&content, content.len() - 4),
                        body: String::new(),
                    },
                )
            },
        }
    }

    /// Serialize to AMP wire format.
    pub fn to_wire(&self) -> (r: String)
        ensures
            r@ == wire(self@),
    {
        proof {
            reveal_strlit("---\n");
            reveal_strlit(": ");
            assert("---\n"@ =~= fence());
            assert(": "@ =~= separator());
        }
        let ghost hs = self@.headers;
        let mut out: String = "---\n".to_owned();
        let n: usize = self.headers.len();
        let mut i: usize = 0;
        assert(hs.take(0) =~= Seq::<(Seq<char>, Seq<char>)>::empty());
        assert(out@ =~= fence() + header_lines(hs.take(0)));
        while i < n
            invariant
                i <= n,
                n == self.headers.entries().len(),
                hs == self@.headers,
                ": "@ == separator(),
                out@ == fence() + header_lines(hs.take(i as int)),
            decreases n - i,
        {
            let ghost before = out@;
            out.append(self.headers.key(i).as_str());
            out.append(": ");
            out.append(self.headers.value(i).as_str());
            out.push('\n');
            proof {
                lemma_header_lines_push(hs.take(i as int), hs[i as int]);
                assert(hs.take(i as int).push(hs[i as int]) =~= hs.take(i + 1));
                assert(out@ =~= before + header_text(hs[i as int]).push('\n'));
                assert(out@ =~= fence() + header_lines(hs.take(i + 1)));
            }
            i += 1;
        }
        assert(hs.take(n as int) =~= hs);
        out.append("---\n");
        let ghost front = out@;
        if !self.body.as_str().is_empty() {
            out.append(self.body.as_str());
            let cs: Vec<char> = text::chars_of(self.body.as_str());
            if cs[cs.len() - 1] != '\n' {
                out.push('\n');
            }
        }
        assert(out@ =~= front + wire_body(self.body@));
        out
    }

    /// Check if this is the empty message (heartbeat/keepalive).
    pub fn is_empty_message(&self) -> (r: bool)
        ensures
            r == (self@.headers.len() == 0 && self@.body.len() == 0),
    {
        self.headers.is_empty() && self.body.as_str().is_empty()
    }

    /// Get a header value.
    pub fn get(&self, key: &str) -> (r: Option<&str>)
        ensures
            match r {
                Some(v) => header(self@, key@) == Some(v@),
                None => header(self@, key@) is None,
            },
    {
        let found: Option<&String> = self.headers.get(key);
        proof {
            lemma_text_pairs(self.headers.entries(), key@);
        }
        match found {
            Some(v) => Some(v.as_str()),
            None => None,
        }
    }

    /// Get the `from` address.
    pub fn from_addr(&self) -> (r: Option<&str>)
        ensures
            match r {
                Some(v) => header(self@, "from"@) == Some(v@),
                None => header(self@, "from"@) is None,
            },
    {
        self.get("from")
    }

    /// Get the `to` address.
    pub fn to_addr(&self) -> (r: Option<&str>)
        ensures
            match r {
                Some(v) => header(self@, "to"@) == Some(v@),
                None => header(self@, "to"@) is None,
            },
    {
        self.get("to")
    }

    /// Get the `command`.
    pub fn command_name(&self) -> (r: Option<&str>)
        ensures
            match r {
                Some(v) => header(self@, "command"@) == Some(v@),
                None => header(self@, "command"@) is None,
            },
    {
        self.get("command")
    }

    /// Get the `type` (request/response/event/stream).
    pub fn message_type(&self) -> (r: Option<&str>)
        ensures
            match r {
                Some(v) => header(self@, "type"@) == Some(v@),
                None => header(self@, "type"@) is None,
            },
    {
        self.get("type")
    }

    /// Get `args` as parsed JSON.
    pub fn args(&self) -> (r: Option<serde_json::Value>)
        ensures
            r == (match header(self@, "args"@) {
                Some(s) => match json::json_value(s) {
                    Ok(value) => Some(value),
                    Err(_) => None,
                },
                None => None,
            }),
    {
        match self.get("args") {
            Some(s) => match json::read_json(s) {
                Ok(value) => Some(value),
                Err(_) => None,
            },
            None => None,
        }
    }

    /// Get `json` payload as parsed JSON.
    pub fn json_payload(&self) -> (r: Option<serde_json::Value>)
        ensures
            r == (match header(self@, "json"@) {
                Some(s) => match json::json_value(s) {
                    Ok(value) => Some(value),
                    Err(_) => None,
                },
                None => None,
            }),
    {
        match self.get("json") {
            Some(s) => match json::read_json(s) {
                Ok(value) => Some(value),
                Err(_) => None,
            },
            None => None,
        }
    }
}

/// One more header is one more line.
proof fn lemma_header_lines_push(hs: Seq<(Seq<char>, Seq<char>)>, p: (Seq<char>, Seq<char>))
    ensures
        header_lines(hs.push(p)) == header_lines(hs) + header_text(p).push('\n'),
    decreases hs.len(),
{
    let more = hs.push(p);
    if hs.len() == 0 {
        assert(header_lines(more.drop_first()) =~= Seq::<char>::empty());
        assert(header_lines(more) =~= header_lines(hs) + header_text(p).push('\n'));
    } else {
        lemma_header_lines_push(hs.drop_first(), p);
        assert(more.drop_first() =~= hs.drop_first().push(p));
        assert(header_lines(more) =~= header_lines(hs) + header_text(p).push('\n'));
    }
}

/// A message says its headers in order, each with its value, and its body.
pub proof fn law_messages_say_what_they_hold(m: AmpMessage, i: int)
    ensures
        m@.headers.len() == m.headers.entries().len(),
        0 <= i < m@.headers.len() ==> m@.headers[i].0 == m.headers.entries()[i].0
            && m@.headers[i].1 == m.headers.entries()[i].1@,
        m@.body == m.body@,
{
}

/// Two messages are equal exactly where they have the same headers with the same values, in whatever
/// order, and the same body.
pub proof fn law_equal_messages(a: AmpMessage, b: AmpMessage)
    requires
        strmap::distinct_keys(a@.headers),
        strmap::distinct_keys(b@.headers),
    ensures
        vstd::std_specs::cmp::PartialEqSpec::eq_spec(&a, &b) <==> a@.body == b@.body && (forall|
            k: Seq<char>,
        | #[trigger]
            header(a@, k) == header(b@, k)),
{
    let ma = strmap::as_map(a@.headers);
    let mb = strmap::as_map(b@.headers);
    if ma == mb {
        assert forall|k: Seq<char>| #[trigger] header(a@, k) == header(b@, k) by {
            assert(ma.contains_key(k) == mb.contains_key(k));
            if ma.contains_key(k) {
                assert(ma[k] == mb[k]);
            }
        }
    }
    if forall|k: Seq<char>| #[trigger] header(a@, k) == header(b@, k) {
        assert forall|k: Seq<char>| #[trigger] ma.contains_key(k) == mb.contains_key(k) by {
            assert(header(a@, k) == header(b@, k));
        }
        assert forall|k: Seq<char>| #[trigger] ma.contains_key(k) implies ma[k] == mb[k] by {
            assert(header(a@, k) == header(b@, k));
        }
        assert(ma =~= mb);
    }
}

} // verus!
