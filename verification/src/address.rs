//! Addresses of the mesh.
use vstd::prelude::*;

use crate::text;

verus! {

/// An AMP address: `port.app.node.amp`
///
/// Examples:
/// - `clipboard.appmesh.cachyos.amp`
/// - `agent.markweb.mko.amp`
/// - `inbox.stalwart.mmc.amp`
///
/// The `.amp` suffix is the mesh TLD. Addresses are hierarchical:
/// - `node.amp` - the node itself
/// - `app.node.amp` - an application on a node
/// - `port.app.node.amp` - a specific port/endpoint within an app
#[derive(Debug, Clone, PartialEq, Eq, Hash)]
pub struct AmpAddress {
    pub port: Option<String>,
    pub app: Option<String>,
    pub node: String,
}

/// What an [`AmpAddress`] says.
pub struct AddressView {
    pub port: Option<Seq<char>>,
    pub app: Option<Seq<char>>,
    pub node: Seq<char>,
}

impl View for AmpAddress {
    type V = AddressView;

    open spec fn view(&self) -> AddressView {
        AddressView {
            port: match self.port {
                Some(p) => Some(p@),
                None => None,
            },
            app: match self.app {
                Some(a) => Some(a@),
                None => None,
            },
            node: self.node@,
        }
    }
}

/// The mesh TLD, with its dot.
pub open spec fn tld() -> Seq<char> {
    seq!['.', 'a', 'm', 'p']
}

/// The address that the text before the TLD spells: up to two dots separate port, application and
/// node, and the node takes the rest.
pub open spec fn address_of_labels(labels: Seq<char>) -> AddressView {
    match text::split_once(labels, seq!['.']) {
        None => AddressView { port: None, app: None, node: labels },
        Some((first, rest)) => match text::split_once(rest, seq!['.']) {
            None => AddressView { port: None, app: Some(first), node: rest },
            Some((second, node)) => AddressView { port: Some(first), app: Some(second), node },
        },
    }
}

/// The address that `s` spells, if it ends in the TLD.
pub open spec fn parse_address(s: Seq<char>) -> Option<AddressView> {
    match text::strip_suffix(s, tld()) {
        Some(labels) => Some(address_of_labels(labels)),
        None => None,
    }
}

/// A label with the dot that separates it from the next.
pub open spec fn label(part: Option<Seq<char>>) -> Seq<char> {
    match part {
        Some(p) => p.push('.'),
        None => Seq::empty(),
    }
}

/// The text of an address.
pub open spec fn format_address(a: AddressView) -> Seq<char> {
    label(a.port) + label(a.app) + a.node + tld()
}

/// An address whose text reads as that address: a port only beside an application, no dot in
/// port or application, and a dot in the node only behind both.
pub open spec fn is_plain_address(a: AddressView) -> bool {
    &&& a.port is Some ==> a.app is Some
    &&& a.port matches Some(p) ==> !p.contains('.')
    &&& a.app matches Some(p) ==> !p.contains('.')
    &&& a.port is None ==> !a.node.contains('.')
}

impl AmpAddress {
    /// Parse an AMP address string.
    ///
    /// Accepts:
    /// - `node.amp` → node only
    /// - `app.node.amp` → app + node
    /// - `port.app.node.amp` → port + app + node
    pub fn parse(s: &str) -> (r: Option<AmpAddress>)
        ensures
            match r {
                Some(a) => parse_address(s@) == Some(a@),
                None => parse_address(s@) is None,
            },
    {
        proof {
            reveal_strlit(".amp");
            reveal_strlit(".");
            assert(".amp"@ =~= tld());
            assert("."@ =~= seq!['.']);
        }
        let cs: Vec<char> = text::chars_of(s);
        let tld: Vec<char> = text::chars_of(".amp");
        if cs.len() < tld.len() {
            return None;
        }
        let end: usize = cs.len() - tld.len();
        if !text::stands_at(&cs, &tld, end) {
            return None;
        }
        let dot: Vec<char> = text::chars_of(".");
        let labels: Vec<char> = text::chars_of(text::text_of(&cs, 0, end).as_str());
        let ghost before = s@.take(end as int);
        assert(labels@ =~= before);
        match text::find(&labels, &dot) {
            None => {
                let node: String = text::text_of(&labels, 0, labels.len());
                assert(node@ =~= before);
                Some(AmpAddress { port: None, app: None, node })
            },
            Some(i) => {
                let first: String = text::text_of(&labels, 0, i);
                let rest: Vec<char> = text::chars_of(
                    text::text_of(&labels, i + 1, labels.len()).as_str(),
                );
                assert(first@ =~= before.take(i as int));
                assert(rest@ =~= before.skip(i + 1));
                match text::find(&rest, &dot) {
                    None => {
                        let node: String = text::text_of(&rest, 0, rest.len());
                        assert(node@ =~= rest@);
                        Some(AmpAddress { port: None, app: Some(first), node })
                    },
                    Some(j) => {
                        let second: String = text::text_of(&rest, 0, j);
                        let node: String = text::text_of(&rest, j + 1, rest.len());
                        assert(second@ =~= rest@.take(j as int));
                        assert(node@ =~= rest@.skip(j + 1));
                        Some(AmpAddress { port: Some(first), app: Some(second), node })
                    },
                }
            },
        }
    }

    /// Check if this address targets a specific node.
    pub fn is_for_node(&self, node_name: &str) -> (r: bool)
        ensures
            r == (self@.node == node_name@),
    {
        text::str_eq(self.node.as_str(), node_name)
    }

    /// Get the full address string.
    pub fn to_string_full(&self) -> (r: String)
        ensures
            r@ == format_address(self@),
    {
        proof {
            reveal_strlit(".amp");
            assert(".amp"@ =~= tld());
        }
        let mut out: String = String::new();
        if let Some(port) = &self.port {
            out.append(port.as_str());
            out.push('.');
        }
        assert(out@ =~= label(self@.port));
        if let Some(app) = &self.app {
            out.append(app.as_str());
            out.push('.');
        }
        assert(out@ =~= label(self@.port) + label(self@.app));
        out.append(self.node.as_str());
        out.append(".amp");
        out
    }
}

/// The leftmost dot of `a.b` stands behind `a` where `a` holds none.
proof fn lemma_split_at_dot(a: Seq<char>, b: Seq<char>)
    requires
        !a.contains('.'),
    ensures
        text::split_once(a.push('.') + b, seq!['.']) == Some((a, b)),
{
    let s = a.push('.') + b;
    let dot = seq!['.'];
    let n = a.len() as int;
    assert(s.subrange(n, n + 1) =~= dot);
    assert forall|j: int| 0 <= j < n implies !text::occurs_at(s, dot, j) by {
        assert(a.contains(a[j]));
        if text::occurs_at(s, dot, j) {
            assert(s.subrange(j, j + 1)[0] == '.');
        }
    }
    assert(text::first_at(s, dot, n));
    text::lemma_split_once_at(s, dot, n);
    assert(s.take(n) =~= a);
    assert(s.skip(n + 1) =~= b);
}

/// Text splits at a dot exactly when it holds one.
proof fn lemma_no_dot(a: Seq<char>)
    ensures
        text::split_once(a, seq!['.']) is None <==> !a.contains('.'),
{
    let dot = seq!['.'];
    if a.contains('.') {
        text::lemma_first_index(a, '.');
        let i = text::first_index(a, '.');
        assert(a.subrange(i, i + 1) =~= dot);
        assert forall|j: int| 0 <= j < i implies !text::occurs_at(a, dot, j) by {
            if text::occurs_at(a, dot, j) {
                assert(a.subrange(j, j + 1)[0] == '.');
            }
        }
        text::lemma_split_once_at(a, dot, i);
    } else {
        assert forall|i: int| !text::occurs_at(a, dot, i) by {
            if text::occurs_at(a, dot, i) {
                assert(a.subrange(i, i + 1)[0] == '.');
                assert(a.contains(a[i]));
            }
        }
        text::lemma_split_once_none(a, dot);
    }
}

/// The text of a plain address reads as that address.
pub proof fn law_format_parse(a: AddressView)
    requires
        is_plain_address(a),
    ensures
        parse_address(format_address(a)) == Some(a),
{
    let labels = label(a.port) + label(a.app) + a.node;
    let s = format_address(a);
    let n = labels.len() as int;
    assert(s.subrange(n, n + 4) =~= tld());
    assert(s.take(n) =~= labels);
    match a.port {
        Some(p) => {
            let app = a.app->0;
            lemma_split_at_dot(p, label(a.app) + a.node);
            lemma_split_at_dot(app, a.node);
            assert(labels =~= p.push('.') + (app.push('.') + a.node));
        },
        None => match a.app {
            Some(app) => {
                lemma_split_at_dot(app, a.node);
                lemma_no_dot(a.node);
                assert(labels =~= app.push('.') + a.node);
            },
            None => {
                lemma_no_dot(a.node);
                assert(labels =~= a.node);
            },
        },
    }
}

/// An address that was read is written as the text it was read from, and is plain.
pub proof fn law_parse_format(s: Seq<char>)
    ensures
        parse_address(s) is Some <==> text::occurs_at(s, tld(), s.len() - 4),
        parse_address(s) matches Some(a) ==> format_address(a) == s && is_plain_address(a),
{
    if text::occurs_at(s, tld(), s.len() - 4) {
        let labels = s.take(s.len() - 4);
        let a = address_of_labels(labels);
        let dot = seq!['.'];
        assert(s =~= labels + tld());
        lemma_no_dot(labels);
        if labels.contains('.') {
            let i = text::lemma_split_once_some(labels, dot);
            let first = labels.take(i);
            let rest = labels.skip(i + 1);
            assert(labels.subrange(i, i + 1)[0] == '.');
            assert(labels =~= first.push('.') + rest);
            lemma_before_first_dot(labels, i);
            lemma_no_dot(rest);
            if rest.contains('.') {
                let j = text::lemma_split_once_some(rest, dot);
                assert(rest.subrange(j, j + 1)[0] == '.');
                assert(rest =~= rest.take(j).push('.') + rest.skip(j + 1));
                lemma_before_first_dot(rest, j);
                assert(format_address(a) =~= s);
            } else {
                assert(format_address(a) =~= s);
            }
        } else {
            assert(format_address(a) =~= s);
        }
    }
}

/// No dot stands before the leftmost one.
proof fn lemma_before_first_dot(s: Seq<char>, i: int)
    requires
        text::first_at(s, seq!['.'], i),
    ensures
        !s.take(i).contains('.'),
{
    if s.take(i).contains('.') {
        let j = choose|j: int| 0 <= j < i && s.take(i)[j] == '.';
        assert(s.subrange(j, j + 1) =~= seq!['.']);
        assert(text::occurs_at(s, seq!['.'], j));
    }
}

/// A text is an address exactly where it ends in `.amp`.
pub proof fn law_addresses_end_in_the_suffix(s: Seq<char>)
    ensures
        parse_address(s) is Some <==> s.len() >= 4 && s.skip(s.len() - 4) == ".amp"@,
{
    reveal_strlit(".amp");
    assert(".amp"@ =~= tld());
    if s.len() >= 4 {
        assert(s.skip(s.len() - 4) =~= s.subrange(s.len() - 4, s.len() as int));
    }
}

/// The parts of an address stand in the order port, application, node, with dots between.
pub proof fn law_address_order(port: Seq<char>, app: Seq<char>, node: Seq<char>)
    ensures
        format_address(AddressView { port: None, app: None, node }) == node + ".amp"@,
        format_address(AddressView { port: None, app: Some(app), node }) == app + "."@ + node
            + ".amp"@,
        format_address(AddressView { port: Some(port), app: Some(app), node }) == port + "."@ + app
            + "."@ + node + ".amp"@,
{
    reveal_strlit(".amp");
    reveal_strlit(".");
    assert(format_address(AddressView { port: None, app: None, node }) =~= node + ".amp"@);
    assert(format_address(AddressView { port: None, app: Some(app), node }) =~= app + "."@ + node
        + ".amp"@);
    assert(format_address(AddressView { port: Some(port), app: Some(app), node }) =~= port + "."@
        + app + "."@ + node + ".amp"@);
}

/// What a text says as an address: no dot before the suffix names a node, one an application on a
/// node, and two a port of an application; whatever stands behind two dots is the node.
pub proof fn law_address_parts(port: Seq<char>, app: Seq<char>, node: Seq<char>)
    requires
        !port.contains('.'),
        !app.contains('.'),
    ensures
        parse_address(port + "."@ + app + "."@ + node + ".amp"@) == Some(
            AddressView { port: Some(port), app: Some(app), node },
        ),
        !node.contains('.') ==> parse_address(app + "."@ + node + ".amp"@) == Some(
            AddressView { port: None, app: Some(app), node },
        ),
        !node.contains('.') ==> parse_address(node + ".amp"@) == Some(
            AddressView { port: None, app: None, node },
        ),
{
    law_address_order(port, app, node);
    law_format_parse(AddressView { port: Some(port), app: Some(app), node });
    if !node.contains('.') {
        law_format_parse(AddressView { port: None, app: Some(app), node });
        law_format_parse(AddressView { port: None, app: None, node });
    }
}

/// An address says its port, its application and its node.
pub proof fn law_addresses_say_their_parts(a: AmpAddress)
    ensures
        a@.port == text::text_option(a.port),
        a@.app == text::text_option(a.app),
        a@.node == a.node@,
{
}

} // verus!
