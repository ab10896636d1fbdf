//! Text as a sequence of characters: searching, splitting, trimming and
//! comparing, each function stated over [`Seq<char>`].
use vstd::prelude::*;

verus! {

/// Appending one character to a [`String`] with [`String::push`] leaves the text as it was and
/// puts that character behind it.
pub assume_specification[ String::push ](string: &mut String, c: char)
    ensures
        final(string)@ == old(string)@.push(c),
;

/// The text of an optional string.
pub open spec fn text_option(s: Option<String>) -> Option<Seq<char>> {
    match s {
        Some(s) => Some(s@),
        None => None,
    }
}

/// A copy of an optional string.
pub(crate) fn copy_option(s: &Option<String>) -> (r: Option<String>)
    ensures
        r == *s,
{
    match s {
        Some(t) => Some(t.clone()),
        None => None,
    }
}

/// The text of a result's error.
pub open spec fn text_error<T>(r: Result<T, String>) -> Result<T, Seq<char>> {
    match r {
        Ok(v) => Ok(v),
        Err(e) => Err(e@),
    }
}

/// `pat` stands in `s` at position `i`.
pub open spec fn occurs_at<T>(s: Seq<T>, pat: Seq<T>, i: int) -> bool {
    0 <= i && i + pat.len() <= s.len() && s.subrange(i, i + pat.len()) == pat
}

/// The leftmost place where `pat` stands in `s` is `i`.
pub open spec fn first_at<T>(s: Seq<T>, pat: Seq<T>, i: int) -> bool {
    occurs_at(s, pat, i) && forall|j: int| 0 <= j < i ==> !occurs_at(s, pat, j)
}

/// What stands before and after the leftmost `pat` in `s`.
#[verifier::opaque]
pub open spec fn split_once<T>(s: Seq<T>, pat: Seq<T>) -> Option<(Seq<T>, Seq<T>)> {
    if exists|i: int| first_at(s, pat, i) {
        let i = choose|i: int| first_at(s, pat, i);
        Some((s.take(i), s.skip(i + pat.len())))
    } else {
        None
    }
}

/// `s` without the `pat` it starts with.
pub open spec fn strip_prefix<T>(s: Seq<T>, pat: Seq<T>) -> Option<Seq<T>> {
    if occurs_at(s, pat, 0) {
        Some(s.skip(pat.len() as int))
    } else {
        None
    }
}

/// `s` without the `pat` it ends with.
pub open spec fn strip_suffix<T>(s: Seq<T>, pat: Seq<T>) -> Option<Seq<T>> {
    if occurs_at(s, pat, s.len() - pat.len()) {
        Some(s.take(s.len() - pat.len()))
    } else {
        None
    }
}

/// The parts of `s` between the occurrences of `sep`, in order.
#[verifier::opaque]
pub open spec fn split_on<T>(s: Seq<T>, sep: T) -> Seq<Seq<T>>
    decreases s.len(),
{
    if s.contains(sep) {
        let i = first_index(s, sep);
        if 0 <= i < s.len() {
            seq![s.take(i)] + split_on(s.skip(i + 1), sep)
        } else {
            seq![s]
        }
    } else {
        seq![s]
    }
}

/// The position of the leftmost `x` in `s`.
pub open spec fn first_index<T>(s: Seq<T>, x: T) -> int {
    choose|i: int| 0 <= i < s.len() && s[i] == x && forall|j: int| 0 <= j < i ==> s[j] != x
}

/// The characters with the Unicode property `White_Space`.
pub open spec fn is_white_space(c: char) -> bool {
    let u = c as u32;
    ||| 0x09 <= u <= 0x0d
    ||| u == 0x20
    ||| u == 0x85
    ||| u == 0xa0
    ||| u == 0x1680
    ||| 0x2000 <= u <= 0x200a
    ||| u == 0x2028
    ||| u == 0x2029
    ||| u == 0x202f
    ||| u == 0x205f
    ||| u == 0x3000
}

/// `s` without leading white space.
pub open spec fn trim_start(s: Seq<char>) -> Seq<char>
    decreases s.len(),
{
    if s.len() > 0 && is_white_space(s[0]) {
        trim_start(s.drop_first())
    } else {
        s
    }
}

/// `s` without trailing white space.
pub open spec fn trim_end(s: Seq<char>) -> Seq<char>
    decreases s.len(),
{
    if s.len() > 0 && is_white_space(s.last()) {
        trim_end(s.drop_last())
    } else {
        s
    }
}

/// `s` without white space at either end.
pub open spec fn trim(s: Seq<char>) -> Seq<char> {
    trim_end(trim_start(s))
}

/// `s` has no white space at either end.
pub open spec fn is_trimmed(s: Seq<char>) -> bool {
    s.len() > 0 ==> !is_white_space(s[0]) && !is_white_space(s.last())
}

/// The items of `parts` with `sep` between neighbours.
pub open spec fn join<T>(parts: Seq<Seq<T>>, sep: Seq<T>) -> Seq<T>
    decreases parts.len(),
{
    if parts.len() == 0 {
        Seq::empty()
    } else if parts.len() == 1 {
        parts[0]
    } else {
        join(parts.drop_last(), sep) + sep + parts.last()
    }
}

/// There is at most one leftmost place.
pub proof fn lemma_first_at_unique<T>(s: Seq<T>, pat: Seq<T>, i: int, j: int)
    requires
        first_at(s, pat, i),
        first_at(s, pat, j),
    ensures
        i == j,
{
    if i < j {
        assert(!occurs_at(s, pat, i));
    } else if j < i {
        assert(!occurs_at(s, pat, j));
    }
}

/// A known leftmost place decides what [`split_once`] gives.
pub proof fn lemma_split_once_at<T>(s: Seq<T>, pat: Seq<T>, i: int)
    requires
        first_at(s, pat, i),
    ensures
        split_once(s, pat) == Some((s.take(i), s.skip(i + pat.len()))),
{
    reveal(split_once);
    let k = choose|k: int| first_at(s, pat, k);
    lemma_first_at_unique(s, pat, i, k);
}

/// Text without `pat` does not split.
pub proof fn lemma_split_once_none<T>(s: Seq<T>, pat: Seq<T>)
    requires
        forall|i: int| !occurs_at(s, pat, i),
    ensures
        split_once(s, pat) is None,
{
    reveal(split_once);
    if exists|i: int| first_at(s, pat, i) {
        let i = choose|i: int| first_at(s, pat, i);
        assert(occurs_at(s, pat, i));
    }
}

/// Text with `pat` in it splits.
pub proof fn lemma_split_once_found<T>(s: Seq<T>, pat: Seq<T>, i: int)
    requires
        occurs_at(s, pat, i),
    ensures
        split_once(s, pat) is Some,
    decreases i,
{
    if exists|j: int| 0 <= j < i && occurs_at(s, pat, j) {
        let j = choose|j: int| 0 <= j < i && occurs_at(s, pat, j);
        lemma_split_once_found(s, pat, j);
    } else {
        assert(first_at(s, pat, i));
        lemma_split_once_at(s, pat, i);
    }
}

/// Text that splits does so at a leftmost place.
pub proof fn lemma_split_once_some<T>(s: Seq<T>, pat: Seq<T>) -> (i: int)
    requires
        split_once(s, pat) is Some,
    ensures
        first_at(s, pat, i),
        split_once(s, pat) == Some((s.take(i), s.skip(i + pat.len()))),
{
    reveal(split_once);
    choose|i: int| first_at(s, pat, i)
}

/// A known leftmost position decides [`first_index`].
pub proof fn lemma_first_index_at<T>(s: Seq<T>, x: T, i: int)
    requires
        0 <= i < s.len(),
        s[i] == x,
        forall|j: int| 0 <= j < i ==> s[j] != x,
    ensures
        first_index(s, x) == i,
        s.contains(x),
{
    let k = first_index(s, x);
    assert(0 <= k < s.len() && s[k] == x && forall|j: int| 0 <= j < k ==> s[j] != x);
    if i < k {
        assert(s[i] != x);
    } else if k < i {
        assert(s[k] != x);
    }
}

/// A sequence that holds `x` has a leftmost `x`.
pub proof fn lemma_first_index<T>(s: Seq<T>, x: T)
    requires
        s.contains(x),
    ensures
        0 <= first_index(s, x) < s.len(),
        s[first_index(s, x)] == x,
        forall|j: int| 0 <= j < first_index(s, x) ==> s[j] != x,
    decreases s.len(),
{
    let last = s.len() - 1;
    let init = s.drop_last();
    if init.contains(x) {
        lemma_first_index(init, x);
        let i = first_index(init, x);
        assert forall|j: int| 0 <= j < i implies s[j] != x by {
            assert(init[j] == s[j]);
        }
        lemma_first_index_at(s, x, i);
    } else {
        let i = choose|i: int| 0 <= i < s.len() && s[i] == x;
        assert(i == last) by {
            if i < last {
                assert(init[i] == x);
            }
        }
        assert forall|j: int| 0 <= j < last implies s[j] != x by {
            assert(init[j] == s[j]);
        }
        lemma_first_index_at(s, x, last);
    }
}

/// The leftmost separator ends the first part.
pub proof fn lemma_split_on_at<T>(s: Seq<T>, sep: T, n: int)
    requires
        0 <= n < s.len(),
        s[n] == sep,
        forall|j: int| 0 <= j < n ==> s[j] != sep,
    ensures
        split_on(s, sep) == seq![s.take(n)] + split_on(s.skip(n + 1), sep),
{
    reveal_with_fuel(split_on, 1);
    lemma_first_index_at(s, sep, n);
}

/// Without a separator there is one part.
pub proof fn lemma_split_on_none<T>(s: Seq<T>, sep: T)
    requires
        forall|j: int| 0 <= j < s.len() ==> s[j] != sep,
    ensures
        split_on(s, sep) == seq![s],
{
    reveal_with_fuel(split_on, 1);
    assert(!s.contains(sep));
}

/// The characters of a string, in order.
pub fn chars_of(s: &str) -> (r: Vec<char>)
    ensures
        r@ == s@,
{
    let mut r: Vec<char> = Vec::new();
    for c in it: s.chars()
        invariant
            it.seq() == s@,
            r@ == s@.take(it.index()),
    {
        r.push(c);
        assert(s@.take(it.index() + 1) =~= s@.take(it.index()).push(c));
    }
    assert(s@.take(s@.len() as int) =~= s@);
    r
}

/// The text made of `cs[from..to]`.
pub fn text_of(cs: &Vec<char>, from: usize, to: usize) -> (r: String)
    requires
        from <= to <= cs.len(),
    ensures
        r@ == cs@.subrange(from as int, to as int),
{
    let mut r: String = String::new();
    let mut i: usize = from;
    while i < to
        invariant
            from <= i <= to <= cs.len(),
            r@ == cs@.subrange(from as int, i as int),
        decreases to - i,
    {
        r.push(cs[i]);
        assert(cs@.subrange(from as int, i + 1) =~= cs@.subrange(from as int, i as int).push(
            cs@[i as int],
        ));
        i += 1;
    }
    r
}

/// Whether two strings hold the same characters.
pub fn str_eq(a: &str, b: &str) -> (r: bool)
    ensures
        r == (a@ == b@),
{
    let x: Vec<char> = chars_of(a);
    let y: Vec<char> = chars_of(b);
    if x.len() != y.len() {
        return false;
    }
    let mut i: usize = 0;
    while i < x.len()
        invariant
            x@ == a@,
            y@ == b@,
            x.len() == y.len(),
            i <= x.len(),
            forall|j: int| 0 <= j < i ==> x[j] == y[j],
        decreases x.len() - i,
    {
        if x[i] != y[i] {
            return false;
        }
        i += 1;
    }
    assert(a@ =~= b@);
    true
}

/// Whether `pat` stands in `cs` at position `i`.
pub fn stands_at(cs: &Vec<char>, pat: &Vec<char>, i: usize) -> (r: bool)
    ensures
        r == occurs_at(cs@, pat@, i as int),
{
    if i > cs.len() || pat.len() > cs.len() - i {
        return false;
    }
    let mut j: usize = 0;
    while j < pat.len()
        invariant
            i + pat.len() <= cs.len(),
            j <= pat.len(),
            forall|k: int| 0 <= k < j ==> cs[i + k] == pat[k],
        decreases pat.len() - j,
    {
        if cs[i + j] != pat[j] {
            assert(cs@.subrange(i as int, i + pat.len())[j as int] != pat@[j as int]);
            return false;
        }
        j += 1;
    }
    assert(cs@.subrange(i as int, i + pat.len()) =~= pat@);
    true
}

/// The leftmost place of `pat` in `cs`.
pub fn find(cs: &Vec<char>, pat: &Vec<char>) -> (r: Option<usize>)
    ensures
        match r {
            Some(i) => first_at(cs@, pat@, i as int) && split_once(cs@, pat@) == Some(
                (cs@.take(i as int), cs@.skip(i + pat.len())),
            ),
            None => forall|i: int| !occurs_at(cs@, pat@, i),
        },
        r is None ==> split_once(cs@, pat@) is None,
{
    if pat.len() > cs.len() {
        proof {
            lemma_split_once_none(cs@, pat@);
        }
        return None;
    }
    let last: usize = cs.len() - pat.len();
    let mut i: usize = 0;
    while i <= last
        invariant_except_break
            i <= last + 1,
            forall|j: int| 0 <= j < i ==> !occurs_at(cs@, pat@, j),
        invariant
            last == cs.len() - pat.len(),
        ensures
            forall|j: int| !occurs_at(cs@, pat@, j),
        decreases last + 1 - i,
    {
        if stands_at(cs, pat, i) {
            proof {
                lemma_split_once_at(cs@, pat@, i as int);
            }
            return Some(i);
        }
        if i == last {
            break;
        }
        i += 1;
    }
    proof {
        lemma_split_once_none(cs@, pat@);
    }
    None
}

/// Whether a character has the Unicode property `White_Space`.
pub fn white_space(c: char) -> (r: bool)
    ensures
        r == is_white_space(c),
{
    let u: u32 = c as u32;
    (0x09 <= u && u <= 0x0d) || u == 0x20 || u == 0x85 || u == 0xa0 || u == 0x1680 || (0x2000 <= u
        && u <= 0x200a) || u == 0x2028 || u == 0x2029 || u == 0x202f || u == 0x205f || u == 0x3000
}

/// The bounds of `cs[from..to]` without the white space at its ends.
pub fn trim_range(cs: &Vec<char>, from: usize, to: usize) -> (r: (usize, usize))
    requires
        from <= to <= cs.len(),
    ensures
        from <= r.0 <= r.1 <= to,
        cs@.subrange(r.0 as int, r.1 as int) == trim(cs@.subrange(from as int, to as int)),
{
    let ghost whole = cs@.subrange(from as int, to as int);
    let mut a: usize = from;
    while a < to && white_space(cs[a])
        invariant
            from <= a <= to <= cs.len(),
            whole == cs@.subrange(from as int, to as int),
            trim_start(cs@.subrange(a as int, to as int)) == trim_start(whole),
        decreases to - a,
    {
        assert(cs@.subrange(a as int, to as int).drop_first() =~= cs@.subrange(
            a + 1,
            to as int,
        ));
        a += 1;
    }
    let mut b: usize = to;
    assert(trim_start(whole) == cs@.subrange(a as int, b as int));
    while b > a && white_space(cs[b - 1])
        invariant
            from <= a <= b <= to <= cs.len(),
            trim_end(cs@.subrange(a as int, b as int)) == trim_end(trim_start(whole)),
        decreases b,
    {
        assert(cs@.subrange(a as int, b as int).drop_last() =~= cs@.subrange(a as int, b - 1));
        assert(cs@.subrange(a as int, b as int).last() == cs@[b - 1]);
        b -= 1;
    }
    (a, b)
}

/// A string without the white space at its ends.
pub fn trimmed(s: &str) -> (r: String)
    ensures
        r@ == trim(s@),
{
    let cs: Vec<char> = chars_of(s);
    let range: (usize, usize) = trim_range(&cs, 0, cs.len());
    assert(cs@.subrange(0, cs.len() as int) =~= s@);
    text_of(&cs, range.0, range.1)
}

/// Two strings, one behind the other.
pub fn concat(a: &str, b: &str) -> (r: String)
    ensures
        r@ == a@ + b@,
{
    let mut r: String = a.to_owned();
    r.append(b);
    r
}

/// `s` without `suffix`, if it ends with it.
pub fn without_suffix(s: &str, suffix: &str) -> (r: Option<String>)
    ensures
        (match r {
            Some(t) => Some(t@),
            None => None,
        }) == strip_suffix(s@, suffix@),
{
    let cs: Vec<char> = chars_of(s);
    let pat: Vec<char> = chars_of(suffix);
    if cs.len() < pat.len() || !stands_at(&cs, &pat, cs.len() - pat.len()) {
        return None;
    }
    let r: String = text_of(&cs, 0, cs.len() - pat.len());
    assert(r@ =~= s@.take(s@.len() - suffix@.len()));
    Some(r)
}

/// The strings of `parts` with `sep` between neighbours.
pub fn join_strings(parts: &Vec<String>, sep: &str) -> (r: String)
    ensures
        r@ == join(parts@.map_values(|p: String| p@), sep@),
{
    let ghost views = parts@.map_values(|p: String| p@);
    let mut r: String = String::new();
    let mut i: usize = 0;
    while i < parts.len()
        invariant
            i <= parts.len(),
            views == parts@.map_values(|p: String| p@),
            r@ == join(views.take(i as int), sep@),
        decreases parts.len() - i,
    {
        if i > 0 {
            r.append(sep);
        }
        r.append(parts[i].as_str());
        proof {
            let more = views.take(i + 1);
            assert(more.drop_last() =~= views.take(i as int));
            assert(more.last() == parts@[i as int]@);
            if i == 0 {
                assert(r@ =~= more[0]);
            }
        }
        i += 1;
    }
    assert(views.take(parts.len() as int) =~= views);
    r
}

/// Trimming leaves nothing to trim, and trimmed text as it is.
pub proof fn lemma_trim(s: Seq<char>)
    ensures
        is_trimmed(trim(s)),
        is_trimmed(s) ==> trim(s) == s,
        forall|c: char| trim(s).contains(c) ==> s.contains(c),
{
    lemma_trim_start(s);
    lemma_trim_end(trim_start(s));
}

/// Trimmed text is a part of the text.
pub proof fn lemma_trim_is_part(s: Seq<char>)
    ensures
        exists|a: int, b: int| 0 <= a <= b <= s.len() && trim(s) == #[trigger] s.subrange(a, b),
{
    lemma_trim_start(s);
    lemma_trim_end(trim_start(s));
    let a = s.len() - trim_start(s).len();
    let b = a + trim(s).len();
    assert(trim(s) =~= s.subrange(a, b));
}

proof fn lemma_trim_start(s: Seq<char>)
    ensures
        trim_start(s).len() > 0 ==> !is_white_space(trim_start(s)[0]),
        trim_start(s).len() <= s.len(),
        trim_start(s) == s.skip(s.len() - trim_start(s).len()),
        forall|c: char| trim_start(s).contains(c) ==> s.contains(c),
    decreases s.len(),
{
    if s.len() > 0 && is_white_space(s[0]) {
        let t = s.drop_first();
        lemma_trim_start(t);
        assert(t.skip(t.len() - trim_start(t).len()) =~= s.skip(s.len() - trim_start(t).len()));
        assert forall|c: char| trim_start(s).contains(c) implies s.contains(c) by {
            let i = choose|i: int| 0 <= i < t.len() && t[i] == c;
            assert(s[i + 1] == c);
        }
    } else {
        assert(s.skip(0) =~= s);
    }
}

proof fn lemma_trim_end(s: Seq<char>)
    ensures
        trim_end(s).len() > 0 ==> !is_white_space(trim_end(s).last()),
        trim_end(s).len() <= s.len(),
        trim_end(s) == s.take(trim_end(s).len() as int),
        forall|c: char| trim_end(s).contains(c) ==> s.contains(c),
    decreases s.len(),
{
    if s.len() > 0 && is_white_space(s.last()) {
        let t = s.drop_last();
        lemma_trim_end(t);
        assert(t.take(trim_end(t).len() as int) =~= s.take(trim_end(t).len() as int));
        assert forall|c: char| trim_end(s).contains(c) implies s.contains(c) by {
            let i = choose|i: int| 0 <= i < t.len() && t[i] == c;
            assert(s[i] == c);
        }
    } else {
        assert(s.take(s.len() as int) =~= s);
    }
}

/// `pat` stands at a place exactly where the text is what is before it, `pat`, and what is behind.
pub proof fn law_occurs<T>(s: Seq<T>, pat: Seq<T>, i: int, a: Seq<T>, b: Seq<T>)
    ensures
        occurs_at(s, pat, i) <==> 0 <= i && i + pat.len() <= s.len() && s == s.take(i) + pat + s.skip(
            i + pat.len(),
        ),
        occurs_at(a + pat + b, pat, a.len() as int),
{
    let w = a + pat + b;
    assert(w.subrange(a.len() as int, a.len() as int + pat.len()) =~= pat);
    if 0 <= i && i + pat.len() <= s.len() {
        let t = s.take(i) + pat + s.skip(i + pat.len());
        if s.subrange(i, i + pat.len()) == pat {
            assert(s =~= t);
        }
        if s == t {
            assert(s.subrange(i, i + pat.len()) =~= t.subrange(i, i + pat.len()));
            assert(t.subrange(i, i + pat.len()) =~= pat);
        }
    }
}

/// Text splits exactly where `pat` stands in it: what is before and behind the leftmost place, with
/// `pat` between, is the text.
pub proof fn law_split_once<T>(s: Seq<T>, pat: Seq<T>)
    ensures
        split_once(s, pat) is Some <==> exists|i: int| occurs_at(s, pat, i),
        split_once(s, pat) matches Some((a, b)) ==> s == a + pat + b && forall|j: int|
            0 <= j < a.len() ==> !occurs_at(s, pat, j),
{
    if split_once(s, pat) is Some {
        let i = lemma_split_once_some(s, pat);
        assert(s =~= s.take(i) + pat + s.skip(i + pat.len()));
    }
    if exists|i: int| occurs_at(s, pat, i) {
        let i = choose|i: int| occurs_at(s, pat, i);
        lemma_split_once_found(s, pat, i);
    }
}

/// What is left without a prefix or suffix is what makes the text with it.
pub proof fn law_strip<T>(s: Seq<T>, pat: Seq<T>, t: Seq<T>)
    ensures
        strip_prefix(s, pat) == Some(t) <==> s == pat + t,
        strip_suffix(s, pat) == Some(t) <==> s == t + pat,
{
    if s == pat + t {
        assert(s.subrange(0, pat.len() as int) =~= pat);
        assert(s.skip(pat.len() as int) =~= t);
    }
    if strip_prefix(s, pat) == Some(t) {
        assert(s.subrange(0, pat.len() as int) == pat);
        assert(s =~= s.subrange(0, pat.len() as int) + s.skip(pat.len() as int));
    }
    let n = s.len() - pat.len();
    if s == t + pat {
        assert(s.subrange(n, n + pat.len()) =~= pat);
        assert(s.take(n) =~= t);
    }
    if strip_suffix(s, pat) == Some(t) {
        assert(s.subrange(n, n + pat.len()) == pat);
        assert(s =~= s.take(n) + s.subrange(n, n + pat.len()));
    }
}

/// Parts with a separator between neighbours: one part stands alone, and each further one follows a
/// separator.
pub proof fn law_join<T>(parts: Seq<Seq<T>>, part: Seq<T>, sep: Seq<T>)
    ensures
        join(Seq::<Seq<T>>::empty(), sep).len() == 0,
        join(seq![part], sep) == part,
        parts.len() > 0 ==> join(parts.push(part), sep) == join(parts, sep) + sep + part,
        parts.len() > 0 ==> join(seq![part] + parts, sep) == part + sep + join(parts, sep),
    decreases parts.len(),
{
    assert(parts.push(part).drop_last() =~= parts);
    if parts.len() > 0 {
        let all = seq![part] + parts;
        if parts.len() == 1 {
            assert(all.drop_last() =~= seq![part]);
            assert(join(seq![part], sep) == part);
            assert(all.last() == parts[0]);
            assert(join(all, sep) =~= part + sep + join(parts, sep));
        } else {
            law_join(parts.drop_last(), part, sep);
            assert(all.drop_last() =~= seq![part] + parts.drop_last());
            assert(all.last() == parts.last());
            assert(join(all, sep) =~= part + sep + join(parts, sep));
        }
    }
}

/// The parts between separators hold none, and with separators between they are the text again.
pub proof fn law_split_join<T>(s: Seq<T>, sep: T)
    ensures
        split_on(s, sep).len() > 0,
        forall|i: int| 0 <= i < split_on(s, sep).len() ==> !(#[trigger] split_on(s, sep)[i]).contains(
            sep,
        ),
        join(split_on(s, sep), seq![sep]) == s,
    decreases s.len(),
{
    let one = seq![sep];
    if s.contains(sep) {
        lemma_first_index(s, sep);
        let n = first_index(s, sep);
        lemma_split_on_at(s, sep, n);
        let first = s.take(n);
        let tail = s.skip(n + 1);
        law_split_join(tail, sep);
        let rest = split_on(tail, sep);
        let all = split_on(s, sep);
        law_join(rest, first, one);
        assert(s =~= first + one + tail);
        assert forall|i: int| 0 <= i < all.len() implies !(#[trigger] all[i]).contains(sep) by {
            if i == 0 {
                assert(all[0] == first);
                if first.contains(sep) {
                    let j = choose|j: int| 0 <= j < n && first[j] == sep;
                    assert(s[j] == sep);
                }
            } else {
                assert(all[i] == rest[i - 1]);
            }
        }
    } else {
        assert forall|j: int| 0 <= j < s.len() implies s[j] != sep by {
            assert(s.contains(s[j]));
        }
        lemma_split_on_none(s, sep);
        law_join(Seq::<Seq<T>>::empty(), s, one);
    }
}

/// Parts without separators are found again between the separators that were put there.
pub proof fn law_join_split<T>(parts: Seq<Seq<T>>, sep: T)
    requires
        parts.len() > 0,
        forall|i: int| 0 <= i < parts.len() ==> !(#[trigger] parts[i]).contains(sep),
    ensures
        split_on(join(parts, seq![sep]), sep) == parts,
    decreases parts.len(),
{
    let one = seq![sep];
    let first = parts[0];
    let rest = parts.drop_first();
    assert forall|j: int| 0 <= j < first.len() implies first[j] != sep by {
        assert(first.contains(first[j]));
    }
    if parts.len() == 1 {
        lemma_split_on_none(first, sep);
        assert(parts =~= seq![first]);
    } else {
        assert forall|i: int| 0 <= i < rest.len() implies !(#[trigger] rest[i]).contains(sep) by {
            assert(rest[i] == parts[i + 1]);
        }
        law_join_split(rest, sep);
        law_join(rest, first, one);
        assert(parts =~= seq![first] + rest);
        let s = join(parts, one);
        let n = first.len() as int;
        assert(s == first + one + join(rest, one));
        assert(s[n] == sep);
        assert forall|j: int| 0 <= j < n implies s[j] != sep by {
            assert(s[j] == first[j]);
        }
        lemma_split_on_at(s, sep, n);
        assert(s.take(n) =~= first);
        assert(s.skip(n + 1) =~= join(rest, one));
    }
}

/// Trimming takes white space from both ends and nothing else: the text is white space, what is left,
/// and white space, and what is left has none at its ends.
pub proof fn law_trim(s: Seq<char>)
    ensures
        is_trimmed(trim(s)),
        trim(s).len() > 0 ==> !is_white_space(trim(s)[0]) && !is_white_space(trim(s).last()),
        exists|a: int, b: int|
            0 <= a <= b <= s.len() && trim(s) == #[trigger] s.subrange(a, b) && (forall|i: int|
                0 <= i < a || b <= i < s.len() ==> is_white_space(#[trigger] s[i])),
{
    lemma_trim(s);
    let t = trim_start(s);
    lemma_trim_start(s);
    lemma_trim_start_is_white(s);
    lemma_trim_end(t);
    lemma_trim_end_is_white(t);
    let a = s.len() - t.len();
    let b = a + trim(s).len();
    assert(trim(s) =~= s.subrange(a, b));
    assert forall|i: int| 0 <= i < a || b <= i < s.len() implies is_white_space(#[trigger] s[i]) by {
        if i >= b {
            assert(t[i - a] == s[i]);
        }
    }
}

/// What is taken from the start is white space.
proof fn lemma_trim_start_is_white(s: Seq<char>)
    ensures
        forall|i: int| 0 <= i < s.len() - trim_start(s).len() ==> is_white_space(#[trigger] s[i]),
    decreases s.len(),
{
    if s.len() > 0 && is_white_space(s[0]) {
        let t = s.drop_first();
        lemma_trim_start_is_white(t);
        assert forall|i: int| 0 <= i < s.len() - trim_start(s).len() implies is_white_space(
            #[trigger] s[i],
        ) by {
            if i > 0 {
                assert(t[i - 1] == s[i]);
            }
        }
    }
}

/// What is taken from the end is white space.
proof fn lemma_trim_end_is_white(s: Seq<char>)
    ensures
        forall|i: int| trim_end(s).len() <= i < s.len() ==> is_white_space(#[trigger] s[i]),
    decreases s.len(),
{
    if s.len() > 0 && is_white_space(s.last()) {
        let t = s.drop_last();
        lemma_trim_end_is_white(t);
        assert forall|i: int| trim_end(s).len() <= i < s.len() implies is_white_space(
            #[trigger] s[i],
        ) by {
            if i < t.len() {
                assert(t[i] == s[i]);
            }
        }
    }
}

/// Blanks, tabs and line ends are white space, as are the wider blanks of Unicode; letters, digits
/// and marks are not.
pub proof fn law_white_space(c: char)
    ensures
        c == ' ' || c == '\t' || c == '\n' || c == '\r' ==> is_white_space(c),
        c as u32 == 0x85 || c as u32 == 0xA0 || c as u32 == 0x1680 || c as u32 == 0x3000
            ==> is_white_space(c),
        0x2000 <= c as u32 <= 0x200A || c as u32 == 0x2028 || c as u32 == 0x2029 || c as u32
            == 0x202F || c as u32 == 0x205F ==> is_white_space(c),
        0x21 <= c as u32 <= 0x7F ==> !is_white_space(c),
        c as u32 <= 0x08 || 0x0E <= c as u32 <= 0x1F ==> !is_white_space(c),
        0x80 <= c as u32 <= 0x1FFF && c as u32 != 0x85 && c as u32 != 0xA0 && c as u32 != 0x1680
            ==> !is_white_space(c),
        0x200B <= c as u32 <= 0x2FFF && c as u32 != 0x2028 && c as u32 != 0x2029 && c as u32
            != 0x202F && c as u32 != 0x205F ==> !is_white_space(c),
        c as u32 > 0x3000 ==> !is_white_space(c),
{
}

/// An optional string has its text where it is there, and a result keeps its value, or the text of
/// its error.
pub proof fn law_texts_are_kept<T>(s: String, v: T)
    ensures
        text_option(Some(s)) == Some(s@),
        text_option(None::<String>) is None,
        text_error(Ok::<T, String>(v)) == Ok::<T, Seq<char>>(v),
        text_error(Err::<T, String>(s)) == Err::<T, Seq<char>>(s@),
{
}

} // verus!
