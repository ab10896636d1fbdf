//! Text as it comes out of documents, and how it is cleaned.
use vstd::prelude::*;

use crate::text;

verus! {

/// The last character of `s` is a line end behind two others.
pub open spec fn ends_in_third_newline(s: Seq<char>) -> bool {
    let n = s.len();
    n >= 3 && s[n - 1] == '\n' && s[n - 2] == '\n' && s[n - 3] == '\n'
}

/// `s` without every line end that stands behind two others.
pub open spec fn squeezed(s: Seq<char>) -> Seq<char>
    decreases s.len(),
{
    if s.len() == 0 {
        Seq::empty()
    } else if ends_in_third_newline(s) {
        squeezed(s.drop_last())
    } else {
        squeezed(s.drop_last()).push(s.last())
    }
}

/// `s` with at most one empty line in a row, and no white space around it.
pub open spec fn normalized(s: Seq<char>) -> Seq<char> {
    text::trim(squeezed(s))
}

/// Limits line ends in a row to two, and trims.
pub fn normalize_whitespace(s: &str) -> (r: String)
    ensures
        r@ == normalized(s@),
{
    let cs: Vec<char> = text::chars_of(s);
    let mut out: String = String::new();
    let mut newlines: u8 = 0;
    let mut i: usize = 0;
    assert(cs@.take(0) =~= Seq::<char>::empty());
    while i < cs.len()
        invariant
            i <= cs.len(),
            newlines <= 2,
            out@ == squeezed(cs@.take(i as int)),
            newlines >= 1 <==> i >= 1 && cs[i - 1] == '\n',
            newlines == 2 <==> i >= 2 && cs[i - 1] == '\n' && cs[i - 2] == '\n',
        decreases cs.len() - i,
    {
        let c: char = cs[i];
        proof {
            assert(cs@.take(i + 1).drop_last() =~= cs@.take(i as int));
        }
        if c == '\n' {
            if newlines < 2 {
                out.push('\n');
                newlines += 1;
            }
        } else {
            newlines = 0;
            out.push(c);
        }
        i += 1;
    }
    assert(cs@.take(cs.len() as int) =~= cs@);
    text::trimmed(out.as_str())
}

/// No three line ends in a row.
pub open spec fn is_squeezed(s: Seq<char>) -> bool {
    forall|i: int|
        0 <= i && i + 2 < s.len() ==> !(#[trigger] s[i] == '\n' && s[i + 1] == '\n' && s[i + 2]
            == '\n')
}

/// How many line ends `s` ends in, up to two.
pub open spec fn trailing(s: Seq<char>) -> int {
    let n = s.len();
    if n >= 1 && s[n - 1] == '\n' {
        if n >= 2 && s[n - 2] == '\n' {
            2
        } else {
            1
        }
    } else {
        0
    }
}

/// What is left ends as the text did, and holds no three line ends in a row.
proof fn lemma_squeezed(s: Seq<char>)
    ensures
        is_squeezed(squeezed(s)),
        trailing(squeezed(s)) == trailing(s),
    decreases s.len(),
{
    if s.len() > 0 {
        let init = s.drop_last();
        lemma_squeezed(init);
        let before = squeezed(init);
        let after = squeezed(s);
        if !ends_in_third_newline(s) {
            assert forall|i: int| 0 <= i && i + 2 < after.len() implies !(#[trigger] after[i] == '\n'
                && after[i + 1] == '\n' && after[i + 2] == '\n') by {
                if i + 2 < before.len() {
                    assert(after[i] == before[i] && after[i + 1] == before[i + 1] && after[i + 2]
                        == before[i + 2]);
                    assert(!(before[i] == '\n' && before[i + 1] == '\n' && before[i + 2] == '\n'));
                } else {
                    assert(after[i] == before[i] && after[i + 1] == before[i + 1]);
                    if after[i] == '\n' && after[i + 1] == '\n' && after[i + 2] == '\n' {
                        assert(trailing(before) == 2);
                        assert(trailing(init) == 2);
                        assert(init[init.len() - 1] == s[s.len() - 2]);
                        assert(init[init.len() - 2] == s[s.len() - 3]);
                    }
                }
            }
        }
    }
}

/// Text without three line ends in a row stays as it is.
proof fn lemma_squeezed_stays(s: Seq<char>)
    requires
        is_squeezed(s),
    ensures
        squeezed(s) == s,
    decreases s.len(),
{
    if s.len() > 0 {
        let init = s.drop_last();
        assert forall|i: int| 0 <= i && i + 2 < init.len() implies !(#[trigger] init[i] == '\n'
            && init[i + 1] == '\n' && init[i + 2] == '\n') by {
            assert(init[i] == s[i] && init[i + 1] == s[i + 1] && init[i + 2] == s[i + 2]);
            assert(!(s[i] == '\n' && s[i + 1] == '\n' && s[i + 2] == '\n'));
        }
        lemma_squeezed_stays(init);
        assert(!ends_in_third_newline(s)) by {
            if ends_in_third_newline(s) {
                let i = s.len() - 3;
                assert(s[i] == '\n' && s[i + 1] == '\n' && s[i + 2] == '\n');
            }
        }
        assert(init.push(s.last()) =~= s);
    } else {
        assert(squeezed(s) =~= s);
    }
}

/// Normalized text holds no three line ends in a row and has nothing to trim; text that is so
/// already stays as it is. So normalizing twice is normalizing once.
pub proof fn law_normalized(s: Seq<char>)
    ensures
        is_squeezed(normalized(s)),
        text::is_trimmed(normalized(s)),
        is_squeezed(s) && text::is_trimmed(s) ==> normalized(s) == s,
        normalized(normalized(s)) == normalized(s),
{
    lemma_squeezed(s);
    let q = squeezed(s);
    text::lemma_trim(q);
    text::lemma_trim_is_part(q);
    let t = text::trim(q);
    let (from, to) = choose|a: int, b: int|
        0 <= a <= b <= q.len() && t == #[trigger] q.subrange(a, b);
    assert forall|i: int| 0 <= i && i + 2 < t.len() implies !(#[trigger] t[i] == '\n' && t[i + 1]
        == '\n' && t[i + 2] == '\n') by {
        assert(t[i] == q[from + i] && t[i + 1] == q[from + i + 1] && t[i + 2] == q[from + i + 2]);
        assert(!(q[from + i] == '\n' && q[from + i + 1] == '\n' && q[from + i + 2] == '\n'));
    }
    lemma_squeezed_stays(t);
    text::lemma_trim(t);
    if is_squeezed(s) && text::is_trimmed(s) {
        lemma_squeezed_stays(s);
        text::lemma_trim(s);
    }
}

/// Behind `s` the text is inside a tag: the last angle bracket opens one.
pub open spec fn ends_in_tag(s: Seq<char>) -> bool
    decreases s.len(),
{
    if s.len() == 0 {
        false
    } else if s.last() == '<' {
        true
    } else if s.last() == '>' {
        false
    } else {
        ends_in_tag(s.drop_last())
    }
}

/// The text outside the tags of `s`.
pub open spec fn untagged(s: Seq<char>) -> Seq<char>
    decreases s.len(),
{
    if s.len() == 0 {
        Seq::empty()
    } else if s.last() == '<' || s.last() == '>' || ends_in_tag(s.drop_last()) {
        untagged(s.drop_last())
    } else {
        untagged(s.drop_last()).push(s.last())
    }
}

/// Leaves out everything from a `<` to the next `>`.
pub fn strip_html_tags(html: &str) -> (r: String)
    ensures
        r@ == untagged(html@),
{
    let cs: Vec<char> = text::chars_of(html);
    let mut out: String = String::new();
    let mut in_tag: bool = false;
    let mut i: usize = 0;
    assert(cs@.take(0) =~= Seq::<char>::empty());
    while i < cs.len()
        invariant
            i <= cs.len(),
            out@ == untagged(cs@.take(i as int)),
            in_tag == ends_in_tag(cs@.take(i as int)),
        decreases cs.len() - i,
    {
        let c: char = cs[i];
        proof {
            assert(cs@.take(i + 1).drop_last() =~= cs@.take(i as int));
        }
        if c == '<' {
            in_tag = true;
        } else if c == '>' {
            in_tag = false;
        } else if !in_tag {
            out.push(c);
        }
        i += 1;
    }
    assert(cs@.take(cs.len() as int) =~= cs@);
    out
}

/// Text without angle brackets.
pub open spec fn has_no_brackets(s: Seq<char>) -> bool {
    forall|i: int| 0 <= i < s.len() ==> (#[trigger] s[i]) != '<' && s[i] != '>'
}

/// Text without angle brackets is outside every tag.
proof fn lemma_untagged_stays(s: Seq<char>)
    requires
        has_no_brackets(s),
    ensures
        !ends_in_tag(s),
        untagged(s) == s,
    decreases s.len(),
{
    if s.len() > 0 {
        let init = s.drop_last();
        assert forall|i: int| 0 <= i < init.len() implies (#[trigger] init[i]) != '<' && init[i]
            != '>' by {
            assert(init[i] == s[i]);
        }
        lemma_untagged_stays(init);
        assert(s[s.len() - 1] != '<' && s[s.len() - 1] != '>');
        assert(init.push(s.last()) =~= s);
    } else {
        assert(untagged(s) =~= s);
    }
}

/// No angle bracket is left once the tags are left out; text without angle brackets stays as it is.
pub proof fn law_untagged(s: Seq<char>)
    ensures
        has_no_brackets(untagged(s)),
        has_no_brackets(s) ==> untagged(s) == s,
    decreases s.len(),
{
    if s.len() > 0 {
        law_untagged(s.drop_last());
    }
    if has_no_brackets(s) {
        lemma_untagged_stays(s);
    }
}

/// How often `pat` stands in the first `n` places of `s`.
pub open spec fn occurrences(s: Seq<u8>, pat: Seq<u8>, n: int) -> nat
    decreases n,
{
    if n <= 0 {
        0
    } else if text::occurs_at(s, pat, n - 1) {
        occurrences(s, pat, n - 1) + 1
    } else {
        occurrences(s, pat, n - 1)
    }
}

/// `/Type/Page` stands at place `i` of `s`, and not as the start of `/Type/Pages`, which declares a
/// node of the page tree.
pub open spec fn is_packed_page_at(s: Seq<u8>, i: int) -> bool {
    text::occurs_at(s, packed_page(), i) && !text::occurs_at(
        s,
        packed_page().push('s' as u8),
        i,
    )
}

/// How often `/Type/Page` stands in the first `n` places of `s`, not as the start of `/Type/Pages`.
pub open spec fn packed_pages(s: Seq<u8>, n: int) -> nat
    decreases n,
{
    if n <= 0 {
        0
    } else if is_packed_page_at(s, n - 1) {
        packed_pages(s, n - 1) + 1
    } else {
        packed_pages(s, n - 1)
    }
}

/// How often a page is declared.
pub open spec fn page_marks(bytes: Seq<u8>) -> nat {
    let n = bytes.len() as int;
    occurrences(bytes, spaced_page('\n' as u8), n) + occurrences(bytes, spaced_page('\r' as u8), n)
        + occurrences(bytes, spaced_page(' ' as u8), n) + packed_pages(bytes, n)
}

/// `/Type /Page` and one more byte.
pub open spec fn spaced_page(end: u8) -> Seq<u8> {
    seq![
        '/' as u8,
        'T' as u8,
        'y' as u8,
        'p' as u8,
        'e' as u8,
        ' ' as u8,
        '/' as u8,
        'P' as u8,
        'a' as u8,
        'g' as u8,
        'e' as u8,
        end,
    ]
}

/// `/Type/Page`.
pub open spec fn packed_page() -> Seq<u8> {
    seq![
        '/' as u8,
        'T' as u8,
        'y' as u8,
        'p' as u8,
        'e' as u8,
        '/' as u8,
        'P' as u8,
        'a' as u8,
        'g' as u8,
        'e' as u8,
    ]
}

/// Whether `pat` stands in `s` at place `i`.
fn bytes_stand_at(s: &Vec<u8>, pat: &Vec<u8>, i: usize) -> (r: bool)
    ensures
        r == text::occurs_at(s@, pat@, i as int),
{
    if i > s.len() || pat.len() > s.len() - i {
        return false;
    }
    let mut j: usize = 0;
    while j < pat.len()
        invariant
            i + pat.len() <= s.len(),
            j <= pat.len(),
            forall|k: int| 0 <= k < j ==> s[i + k] == pat[k],
        decreases pat.len() - j,
    {
        if s[i + j] != pat[j] {
            assert(s@.subrange(i as int, i + pat.len())[j as int] != pat@[j as int]);
            return false;
        }
        j += 1;
    }
    assert(s@.subrange(i as int, i + pat.len()) =~= pat@);
    true
}

/// How often `pat` stands in `s`.
fn count_occurrences(s: &Vec<u8>, pat: &Vec<u8>) -> (r: usize)
    ensures
        r == occurrences(s@, pat@, s.len() as int),
        r <= s.len(),
{
    let mut n: usize = 0;
    let mut i: usize = 0;
    while i < s.len()
        invariant
            i <= s.len(),
            n <= i,
            n == occurrences(s@, pat@, i as int),
        decreases s.len() - i,
    {
        if bytes_stand_at(s, pat, i) {
            n += 1;
        }
        i += 1;
    }
    n
}

/// How often `/Type/Page` stands in `s`, not as the start of `/Type/Pages`.
fn count_packed_pages(s: &Vec<u8>) -> (r: usize)
    ensures
        r == packed_pages(s@, s.len() as int),
        r <= s.len(),
{
    let page: Vec<u8> = vec![47, 84, 121, 112, 101, 47, 80, 97, 103, 101];
    let tree: Vec<u8> = vec![47, 84, 121, 112, 101, 47, 80, 97, 103, 101, 115];
    assert(page@ =~= packed_page());
    assert(tree@ =~= packed_page().push('s' as u8));
    let mut n: usize = 0;
    let mut i: usize = 0;
    while i < s.len()
        invariant
            i <= s.len(),
            n <= i,
            n == packed_pages(s@, i as int),
            page@ == packed_page(),
            tree@ == packed_page().push('s' as u8),
        decreases s.len() - i,
    {
        if bytes_stand_at(s, &page, i) && !bytes_stand_at(s, &tree, i) {
            n += 1;
        }
        i += 1;
    }
    n
}

/// The number of pages that a PDF file declares, cut to 32 bits, if it declares any.
pub open spec fn pages_in(bytes: Seq<u8>) -> Option<u32> {
    if page_marks(bytes) > 0 {
        Some((page_marks(bytes) % 0x1_0000_0000) as u32)
    } else {
        None
    }
}

/// Counts the pages that a PDF file declares: how often `/Type /Page` stands in it before a space or
/// a line end, and how often `/Type/Page` does. Nodes of the page tree, of the type `/Pages`, are
/// not counted.
pub fn count_pdf_pages(bytes: &Vec<u8>) -> (r: Option<u32>)
    ensures
        r == pages_in(bytes@),
{
    let mut pat: Vec<u8> = vec![47, 84, 121, 112, 101, 32, 47, 80, 97, 103, 101, 10];
    assert(pat@ =~= spaced_page('\n' as u8));
    let a: usize = count_occurrences(bytes, &pat);
    pat.set(11, 13);
    assert(pat@ =~= spaced_page('\r' as u8));
    let b: usize = count_occurrences(bytes, &pat);
    pat.set(11, 32);
    assert(pat@ =~= spaced_page(' ' as u8));
    let c: usize = count_occurrences(bytes, &pat);
    let d: usize = count_packed_pages(bytes);
    let count: u128 = a as u128 + b as u128 + c as u128 + d as u128;
    if count > 0 {
        Some((count % 0x1_0000_0000) as u32)
    } else {
        None
    }
}

/// Where a node of the page tree is declared, no page is counted.
pub proof fn law_tree_nodes_are_no_pages(bytes: Seq<u8>, i: int, end: u8)
    requires
        text::occurs_at(bytes, packed_page().push('s' as u8), i) || text::occurs_at(
            bytes,
            spaced_page('s' as u8),
            i,
        ),
        end == '\n' as u8 || end == '\r' as u8 || end == ' ' as u8,
    ensures
        !is_packed_page_at(bytes, i),
        !text::occurs_at(bytes, spaced_page(end), i),
{
    if text::occurs_at(bytes, packed_page().push('s' as u8), i) {
        let w = bytes.subrange(i, i + 11);
        assert(w[5] == '/' as u8);
        if text::occurs_at(bytes, spaced_page(end), i) {
            assert(bytes.subrange(i, i + 12)[5] == w[5]);
            assert(spaced_page(end)[5] == ' ' as u8);
        }
    } else {
        let w = bytes.subrange(i, i + 12);
        assert(w[5] == ' ' as u8 && w[11] == 's' as u8);
        if text::occurs_at(bytes, spaced_page(end), i) {
            assert(spaced_page(end)[11] == end);
        }
        if text::occurs_at(bytes, packed_page(), i) {
            assert(bytes.subrange(i, i + 10)[5] == w[5]);
            assert(packed_page()[5] == '/' as u8);
        }
    }
}

/// Two occurrences of a page mark share no byte: reading on behind one misses none.
pub proof fn law_page_marks_are_apart(bytes: Seq<u8>, end: u8, i: int, j: int)
    requires
        i < j,
    ensures
        text::occurs_at(bytes, spaced_page(end), i) && text::occurs_at(bytes, spaced_page(end), j)
            && end != '/' as u8 ==> i + spaced_page(end).len() <= j,
        text::occurs_at(bytes, packed_page(), i) && text::occurs_at(bytes, packed_page(), j) ==> i
            + packed_page().len() <= j,
{
    let p = spaced_page(end);
    if text::occurs_at(bytes, p, i) && text::occurs_at(bytes, p, j) && end != '/' as u8 && j < i + 12 {
        let a = bytes.subrange(i, i + 12);
        let b = bytes.subrange(j, j + 12);
        assert(a[j - i] == b[0]);
        assert(p[j - i] == p[0]);
        assert(j - i == 6);
        assert(a[7] == b[1]);
        assert(p[7] == p[1]);
    }
    let q = packed_page();
    if text::occurs_at(bytes, q, i) && text::occurs_at(bytes, q, j) && j < i + 10 {
        let a = bytes.subrange(i, i + 10);
        let b = bytes.subrange(j, j + 10);
        assert(a[j - i] == b[0]);
        assert(q[j - i] == q[0]);
        assert(j - i == 5);
        assert(a[6] == b[1]);
        assert(q[6] == q[1]);
    }
}

/// Characters other than line ends are kept where they are, and a line end adds itself or nothing.
pub proof fn law_squeezed_step(s: Seq<char>, c: char)
    ensures
        c != '\n' ==> squeezed(s.push(c)) == squeezed(s).push(c),
        squeezed(s.push('\n')) == squeezed(s).push('\n') || squeezed(s.push('\n')) == squeezed(s),
        squeezed(s.push('\n')) == squeezed(s) <==> s.len() >= 2 && s[s.len() - 1] == '\n' && s[s.len()
            - 2] == '\n',
        squeezed(Seq::<char>::empty()).len() == 0,
        is_squeezed(squeezed(s)),
{
    assert(s.push(c).drop_last() =~= s);
    assert(s.push('\n').drop_last() =~= s);
    lemma_squeezed(s);
    assert(squeezed(s).push('\n').len() != squeezed(s).len());
}

/// Normalizing keeps every character that is not white space, in order.
pub proof fn law_normalized_keeps_the_words(s: Seq<char>)
    ensures
        normalized(s).filter(|c: char| !text::is_white_space(c)) == s.filter(
            |c: char| !text::is_white_space(c),
        ),
{
    let f = |c: char| !text::is_white_space(c);
    lemma_squeezed_keeps(s);
    let q = squeezed(s);
    text::law_trim(q);
    let t = normalized(s);
    let (a, b) = choose|a: int, b: int|
        0 <= a <= b <= q.len() && t == #[trigger] q.subrange(a, b) && (forall|i: int|
            0 <= i < a || b <= i < q.len() ==> text::is_white_space(#[trigger] q[i]));
    let before = q.take(a);
    let after = q.skip(b);
    assert(q =~= before + t + after);
    lemma_white_is_left_out(before);
    lemma_white_is_left_out(after);
    Seq::filter_distributes_over_add(before + t, after, f);
    Seq::filter_distributes_over_add(before, t, f);
    assert(q.filter(f) =~= t.filter(f));
}

/// White space alone has no words.
proof fn lemma_white_is_left_out(s: Seq<char>)
    requires
        forall|i: int| 0 <= i < s.len() ==> text::is_white_space(#[trigger] s[i]),
    ensures
        s.filter(|c: char| !text::is_white_space(c)) == Seq::<char>::empty(),
    decreases s.len(),
{
    reveal(Seq::filter);
    if s.len() > 0 {
        let init = s.drop_last();
        assert forall|i: int| 0 <= i < init.len() implies text::is_white_space(#[trigger] init[i]) by {
            assert(init[i] == s[i]);
        }
        lemma_white_is_left_out(init);
        assert(text::is_white_space(s[s.len() - 1]));
    }
}

/// Limiting line ends keeps every character that is not white space.
proof fn lemma_squeezed_keeps(s: Seq<char>)
    ensures
        squeezed(s).filter(|c: char| !text::is_white_space(c)) == s.filter(
            |c: char| !text::is_white_space(c),
        ),
    decreases s.len(),
{
    reveal(Seq::filter);
    if s.len() > 0 {
        lemma_squeezed_keeps(s.drop_last());
        if !ends_in_third_newline(s) {
            let before = squeezed(s.drop_last());
            assert(before.push(s.last()).drop_last() =~= before);
            assert(before.push(s.last()).last() == s.last());
        }
    }
}

/// Text behind a bracket, with `a` and `<` before it.
proof fn lemma_untagged_parts(a: Seq<char>, t: Seq<char>)
    requires
        has_no_brackets(a),
        forall|i: int| 0 <= i < t.len() ==> (#[trigger] t[i]) != '>',
    ensures
        ends_in_tag(a + seq!['<'] + t),
        untagged(a + seq!['<'] + t) == a,
    decreases t.len(),
{
    let s = a + seq!['<'] + t;
    if t.len() == 0 {
        assert(s =~= a.push('<'));
        assert(s.drop_last() =~= a);
        lemma_untagged_stays(a);
    } else {
        let init = t.drop_last();
        assert forall|i: int| 0 <= i < init.len() implies (#[trigger] init[i]) != '>' by {
            assert(init[i] == t[i]);
        }
        lemma_untagged_parts(a, init);
        assert(s.drop_last() =~= a + seq!['<'] + init);
        assert(s.last() == t[t.len() - 1]);
    }
}

/// Text behind a closed bracket reads as if it stood alone.
proof fn lemma_untagged_behind(a: Seq<char>, b: Seq<char>)
    requires
        !ends_in_tag(a),
    ensures
        ends_in_tag(a + b) == ends_in_tag(b),
        untagged(a + b) == untagged(a) + untagged(b),
    decreases b.len(),
{
    let s = a + b;
    if b.len() == 0 {
        assert(s =~= a);
        assert(untagged(a) + untagged(b) =~= untagged(a));
    } else {
        lemma_untagged_behind(a, b.drop_last());
        assert(s.drop_last() =~= a + b.drop_last());
        assert(s.last() == b.last());
        assert(untagged(s) =~= untagged(a) + untagged(b));
    }
}

/// Tags are left out and everything outside them is kept: from a `<` to the next `>`, or to the end
/// where there is none. A `>` outside a tag is left out alone.
pub proof fn law_tags_are_left_out(a: Seq<char>, t: Seq<char>, b: Seq<char>)
    requires
        has_no_brackets(a),
        forall|i: int| 0 <= i < t.len() ==> (#[trigger] t[i]) != '>',
    ensures
        untagged(a + seq!['<'] + t + seq!['>'] + b) == a + untagged(b),
        untagged(a + seq!['<'] + t) == a,
        untagged(a + seq!['>'] + b) == a + untagged(b),
        untagged(a) == a,
{
    lemma_untagged_stays(a);
    lemma_untagged_parts(a, t);
    let open = a + seq!['<'] + t;
    let shut = open + seq!['>'];
    assert(shut =~= open.push('>'));
    assert(shut.drop_last() =~= open);
    assert(!ends_in_tag(shut) && untagged(shut) == a);
    lemma_untagged_behind(shut, b);
    let stray = a + seq!['>'];
    assert(stray =~= a.push('>'));
    assert(stray.drop_last() =~= a);
    assert(!ends_in_tag(stray) && untagged(stray) == a);
    lemma_untagged_behind(stray, b);
}

/// A page is declared at place `i`: `/Type /Page` before a space or a line end, or `/Type/Page` that
/// does not start `/Type/Pages`.
pub open spec fn declares_page(bytes: Seq<u8>, i: int) -> bool {
    ||| text::occurs_at(bytes, spaced_page('\n' as u8), i)
    ||| text::occurs_at(bytes, spaced_page('\r' as u8), i)
    ||| text::occurs_at(bytes, spaced_page(' ' as u8), i)
    ||| text::occurs_at(bytes, packed_page(), i) && !(i + 10 < bytes.len() && bytes[i + 10]
        == 's' as u8)
}

/// The places among the first `n` at which a page is declared.
pub open spec fn page_places(bytes: Seq<u8>, n: int) -> Set<int> {
    Set::new(|i: int| 0 <= i < n && declares_page(bytes, i))
}

/// At one place at most one sort of declaration stands.
proof fn lemma_one_mark(bytes: Seq<u8>, i: int, a: u8, b: u8)
    requires
        a != b,
    ensures
        !(text::occurs_at(bytes, spaced_page(a), i) && text::occurs_at(bytes, spaced_page(b), i)),
        !(text::occurs_at(bytes, spaced_page(a), i) && text::occurs_at(bytes, packed_page(), i)),
        is_packed_page_at(bytes, i) <==> text::occurs_at(bytes, packed_page(), i) && !(i + 10
            < bytes.len() && bytes[i + 10] == 's' as u8),
{
    if text::occurs_at(bytes, spaced_page(a), i) {
        let w = bytes.subrange(i, i + 12);
        assert(w[11] == a && w[5] == ' ' as u8);
        if text::occurs_at(bytes, spaced_page(b), i) {
            assert(spaced_page(b)[11] == b);
        }
        if text::occurs_at(bytes, packed_page(), i) {
            assert(bytes.subrange(i, i + 10)[5] == w[5]);
            assert(packed_page()[5] == '/' as u8);
        }
    }
    let tree = packed_page().push('s' as u8);
    if text::occurs_at(bytes, tree, i) {
        let w = bytes.subrange(i, i + 11);
        assert(w[10] == tree[10]);
        assert(bytes[i + 10] == 's' as u8);
    }
    if text::occurs_at(bytes, packed_page(), i) && i + 10 < bytes.len() && bytes[i + 10]
        == 's' as u8 {
        assert(bytes.subrange(i, i + 11) =~= bytes.subrange(i, i + 10).push('s' as u8));
    }
}

/// Counting up to `n` counts the places up to `n`.
proof fn lemma_page_places(bytes: Seq<u8>, n: int)
    requires
        n >= 0,
    ensures
        page_places(bytes, n).finite(),
        page_places(bytes, n).len() == occurrences(bytes, spaced_page('\n' as u8), n) + occurrences(
            bytes,
            spaced_page('\r' as u8),
            n,
        ) + occurrences(bytes, spaced_page(' ' as u8), n) + packed_pages(bytes, n),
    decreases n,
{
    if n == 0 {
        assert(page_places(bytes, 0) =~= Set::<int>::empty());
    } else {
        let i = n - 1;
        lemma_page_places(bytes, i);
        lemma_one_mark(bytes, i, '\n' as u8, '\r' as u8);
        lemma_one_mark(bytes, i, '\r' as u8, ' ' as u8);
        lemma_one_mark(bytes, i, ' ' as u8, '\n' as u8);
        let before = page_places(bytes, i);
        if declares_page(bytes, i) {
            assert(page_places(bytes, n) =~= before.insert(i));
        } else {
            assert(page_places(bytes, n) =~= before);
        }
    }
}

/// The pages of a PDF file are counted by the places at which one is declared, each once; a file
/// without such a place has no count.
pub proof fn law_pages_are_places(bytes: Seq<u8>)
    ensures
        page_marks(bytes) == page_places(bytes, bytes.len() as int).len(),
        pages_in(bytes) is Some <==> exists|i: int|
            0 <= i < bytes.len() && #[trigger] declares_page(bytes, i),
        pages_in(bytes) matches Some(count) ==> count as nat == page_places(
            bytes,
            bytes.len() as int,
        ).len() % 0x1_0000_0000,
{
    let n = bytes.len() as int;
    lemma_page_places(bytes, n);
    let all = page_places(bytes, n);
    if all.len() > 0 {
        let i = all.choose();
        assert(all.contains(i));
        assert(0 <= i < n && declares_page(bytes, i));
    } else {
        assert forall|i: int| 0 <= i < n implies !#[trigger] declares_page(bytes, i) by {
            if declares_page(bytes, i) {
                assert(all.contains(i));
                assert(all.remove(i).len() == all.len() - 1);
            }
        }
    }
}

/// The marks of a page are these texts, byte by byte.
pub proof fn law_page_marks_are_spelled(end: u8)
    ensures
        spaced_page(end).drop_last() == "/Type /Page"@.map_values(|c: char| c as u8),
        spaced_page(end).last() == end,
        packed_page() == "/Type/Page"@.map_values(|c: char| c as u8),
{
    reveal_strlit("/Type /Page");
    reveal_strlit("/Type/Page");
    assert(spaced_page(end).drop_last() =~= "/Type /Page"@.map_values(|c: char| c as u8));
    assert(packed_page() =~= "/Type/Page"@.map_values(|c: char| c as u8));
}

} // verus!
