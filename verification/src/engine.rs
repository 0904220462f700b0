//! The grammar engine: it turns text into the parse tree that the grammar
//! gives for it.

use crate::error::SyntaxError;
use crate::grammar::{
    address_end, address_leaf, address_part, after, angle_at, bare_form, closing, comment_at,
    comment_tail, contact_at, display_form, empty_angle, entries_from, garbage_form, group_name_at,
    group_of, group_start, is_address, is_display, is_filler, is_group_name, is_plain, is_quote,
    is_separator, leaf, parse_tree, quoted_at, quoted_form, scan, skip_filler, span, structured_at,
    Class, Entries,
};
use crate::text::{drop_space_to, space, substring, to_chars};
use crate::tree::{lemma_node_children, lemma_trees_push, trees, Node, Rule, Tree};
use vstd::prelude::*;

verus! {

pub fn separator(c: char) -> (r: bool)
    ensures
        r == is_separator(c),
{
    c == ',' || c == ';'
}

pub fn quote(c: char) -> (r: bool)
    ensures
        r == is_quote(c),
{
    c == '"' || c == '\''
}

pub fn address(c: char) -> (r: bool)
    ensures
        r == is_address(c),
{
    !space(c) && !separator(c) && !quote(c) && c != ':' && c != '<' && c != '>' && c != '(' && c
        != ')'
}

pub fn display(c: char) -> (r: bool)
    ensures
        r == is_display(c),
{
    c != '<' && c != '>' && c != '@' && c != '"'
}

pub fn group_name(c: char) -> (r: bool)
    ensures
        r == is_group_name(c),
{
    !separator(c) && !quote(c) && c != ':' && c != '<' && c != '>' && c != '@' && c != '(' && c
        != ')'
}

pub fn filler(c: char) -> (r: bool)
    ensures
        r == is_filler(c),
{
    space(c) || separator(c) || c == '>'
}

impl Class {
    /// Whether the character is of the class.
    pub fn holds(&self, c: char) -> (r: bool)
        ensures
            r == self.has(c),
    {
        match self {
            Class::Space => space(c),
            Class::Quote => quote(c),
            Class::SpaceOrQuote => space(c) || quote(c),
            Class::SpaceOrComma => space(c) || c == ',',
            Class::Address => address(c),
            Class::Domain => address(c) && c != '@',
            Class::Display => display(c),
            Class::GroupName => group_name(c),
            Class::Entry => !separator(c),
            Class::Only(x) => c == *x,
            Class::Except(x) => c != *x,
        }
    }
}

/// A scan stays inside the text, passes over characters of the class only
/// and stops at the first that is not of it.
pub proof fn lemma_scan(s: Seq<char>, p: int, class: Class)
    requires
        0 <= p <= s.len(),
    ensures
        p <= scan(s, p, class) <= s.len(),
        forall|i: int| p <= i < scan(s, p, class) ==> class.has(#[trigger] s[i]),
        scan(s, p, class) < s.len() ==> !class.has(s[scan(s, p, class)]),
    decreases s.len() - p,
{
    if p < s.len() && class.has(s[p]) {
        lemma_scan(s, p + 1, class);
    }
}

/// Runs a scan.
pub(crate) fn run(s: &[char], p: usize, class: Class) -> (q: usize)
    requires
        p <= s@.len(),
    ensures
        q == scan(s@, p as int, class),
        p <= q <= s@.len() <= usize::MAX,
{
    let mut q: usize = p;
    while q < s.len() && class.holds(s[q])
        invariant
            p <= q <= s@.len(),
            scan(s@, p as int, class) == scan(s@, q as int, class),
        decreases s@.len() - q,
    {
        q += 1;
    }
    q
}

fn is_at(s: &[char], p: usize, c: char) -> (r: bool)
    ensures
        r == crate::grammar::at(s@, p as int, c),
        r ==> p < s@.len() <= usize::MAX,
{
    p < s.len() && s[p] == c
}

fn leaf_node(rule: Rule, s: &[char], from: usize, to: usize) -> (node: Node)
    requires
        from <= to <= s@.len(),
    ensures
        node@ == leaf(rule, s@, from as int, to as int),
{
    let node = Node { rule, text: substring(s, from, to), children: Vec::new() };
    proof {
        lemma_node_children(node);
        assert(trees(node.children@) =~= Seq::<Tree>::empty());
    }
    node
}

fn branch(rule: Rule, s: &[char], from: usize, to: usize, children: Vec<Node>) -> (node: Node)
    requires
        from <= to <= s@.len(),
    ensures
        node@ == (Tree {
            rule,
            text: span(s@, from as int, to as int),
            children: trees(children@),
        }),
{
    let node = Node { rule, text: substring(s, from, to), children };
    proof {
        lemma_node_children(node);
    }
    node
}

fn single(node: Node) -> (nodes: Vec<Node>)
    ensures
        trees(nodes@) == seq![node@],
{
    let mut nodes: Vec<Node> = Vec::new();
    nodes.push(node);
    assert(trees(nodes@) =~= seq![node@]);
    nodes
}

fn pair(first: Node, second: Node) -> (nodes: Vec<Node>)
    ensures
        trees(nodes@) == seq![first@, second@],
{
    let mut nodes: Vec<Node> = Vec::new();
    nodes.push(first);
    nodes.push(second);
    assert(trees(nodes@) =~= seq![first@, second@]);
    nodes
}

fn joined(front: Vec<Node>, back: Vec<Node>) -> (nodes: Vec<Node>)
    ensures
        trees(nodes@) == trees(front@) + trees(back@),
{
    let mut nodes = front;
    let mut rest = back;
    nodes.append(&mut rest);
    assert(trees(nodes@) =~= trees(front@) + trees(back@));
    nodes
}

fn address_stop(s: &[char], p: usize) -> (r: Option<usize>)
    requires
        p <= s@.len(),
    ensures
        match r {
            Some(end) => address_end(s@, p as int) == Some(end as int) && p < end <= s@.len(),
            None => address_end(s@, p as int) is None,
        },
{
    let end = run(s, p, Class::Address);
    let sign = run(s, p, Class::Domain);
    if p < sign && sign < end && sign + 1 < end {
        Some(end)
    } else {
        None
    }
}

fn plain(s: &[char], from: usize, to: usize) -> (r: bool)
    requires
        from <= to <= s@.len(),
    ensures
        r == is_plain(s@, from as int, to as int),
{
    let mut i: usize = from;
    while i < to
        invariant
            from <= i <= to <= s@.len(),
            is_plain(s@, from as int, i as int),
        decreases to - i,
    {
        if s[i] as u32 >= 128 {
            return false;
        }
        i += 1;
    }
    true
}

/// The leaf of the address between two positions, and whether it is ASCII.
fn address_node(s: &[char], from: usize, to: usize) -> (r: (Node, bool))
    requires
        from <= to <= s@.len(),
    ensures
        r.0@ == address_leaf(s@, from as int, to as int),
        r.1 == is_plain(s@, from as int, to as int),
{
    if plain(s, from, to) {
        (leaf_node(Rule::Mailbox, s, from, to), true)
    } else {
        (leaf_node(Rule::Email, s, from, to), false)
    }
}

fn comment_span(s: &[char], p: usize) -> (r: Option<(usize, usize)>)
    requires
        p <= s@.len(),
    ensures
        match r {
            Some((from, to)) => comment_at(s@, p as int) == Some((from as int, to as int)) && p
                < from <= to < s@.len() <= usize::MAX,
            None => comment_at(s@, p as int) is None,
        },
{
    if !is_at(s, p, '(') {
        return None;
    }
    let mut q: usize = p + 1;
    let mut depth: usize = 1;
    while q < s.len()
        invariant
            p < q <= s@.len(),
            crate::grammar::at(s@, p as int, '('),
            1 <= depth <= q - p,
            closing(s@, p + 1, 1) == closing(s@, q as int, depth as int),
        decreases s@.len() - q,
    {
        let c = s[q];
        if c == '(' {
            depth += 1;
        } else if c == ')' {
            if depth <= 1 {
                return Some((p + 1, q));
            }
            depth -= 1;
        }
        q += 1;
    }
    None
}

fn quoted_span(s: &[char], p: usize) -> (r: Option<(usize, usize, usize)>)
    requires
        p <= s@.len(),
    ensures
        match r {
            Some((from, to, end)) => quoted_at(s@, p as int) == Some(
                (from as int, to as int, end as int),
            ) && p < from < to < end <= s@.len(),
            None => quoted_at(s@, p as int) is None,
        },
{
    if p < s.len() && quote(s[p]) {
        let mark = s[p];
        let from = run(s, p, Class::Only(mark));
        let to = run(s, from, Class::Except(mark));
        if from < to && to < s.len() {
            let end = run(s, to, Class::Only(mark));
            proof {
                lemma_scan(s@, p as int, Class::Only(mark));
                lemma_scan(s@, from as int, Class::Except(mark));
                lemma_scan(s@, to as int, Class::Only(mark));
            }
            Some((from, to, end))
        } else {
            None
        }
    } else {
        None
    }
}

fn empty_angle_end(s: &[char], p: usize) -> (r: Option<usize>)
    requires
        p <= s@.len(),
    ensures
        match r {
            Some(end) => empty_angle(s@, p as int) == Some(end as int) && p < end <= s@.len(),
            None => empty_angle(s@, p as int) is None,
        },
{
    if is_at(s, p, '<') {
        let close = run(s, p + 1, Class::Space);
        if is_at(s, close, '>') {
            return Some(close + 1);
        }
    }
    None
}

/// The start of the next entry of a list.
fn next_entry(s: &[char], p: usize) -> (q: usize)
    requires
        p <= s@.len(),
    ensures
        q == skip_filler(s@, p as int),
        p <= q <= s@.len(),
        q < s@.len() ==> !is_filler(s@[q as int]),
{
    let mut q: usize = p;
    loop
        invariant
            p <= q <= s@.len(),
            skip_filler(s@, p as int) == skip_filler(s@, q as int),
        decreases s@.len() - q,
    {
        if q >= s.len() {
            return q;
        }
        if filler(s[q]) {
            q += 1;
        } else {
            match empty_angle_end(s, q) {
                Some(end) => {
                    q = end;
                },
                None => {
                    return q;
                },
            }
        }
    }
}

fn match_angle(s: &[char], p: usize) -> (r: Option<(Vec<Node>, usize)>)
    requires
        p <= s@.len(),
    ensures
        match r {
            Some((nodes, end)) => angle_at(s@, p as int) == Some((trees(nodes@), end as int)) && p
                < end <= s@.len(),
            None => angle_at(s@, p as int) is None,
        },
{
    if !is_at(s, p, '<') {
        return None;
    }
    let from = run(s, p + 1, Class::SpaceOrQuote);
    match address_stop(s, from) {
        None => None,
        Some(to) => {
            let quotes = run(s, to, Class::Quote);
            let rest = run(s, quotes, Class::Space);
            let rest_end = run(s, rest, Class::Domain);
            let close = run(s, rest_end, Class::Space);
            let (inner, is_mailbox) = address_node(s, from, to);
            if quotes < rest && rest < rest_end && is_at(s, close, '>') {
                let nodes = pair(inner, leaf_node(Rule::GarbageNongreedy, s, rest, rest_end));
                Some((nodes, close + 1))
            } else {
                let trail = run(s, quotes, Class::SpaceOrComma);
                let end = if is_at(s, trail, '>') {
                    trail + 1
                } else {
                    trail
                };
                let rule = if is_mailbox {
                    Rule::MailboxAngle
                } else {
                    Rule::EmailAngle
                };
                let nodes = single(branch(rule, s, p, end, single(inner)));
                Some((nodes, end))
            }
        },
    }
}

fn match_comment_tail(s: &[char], p: usize) -> (r: (Vec<Node>, usize))
    requires
        p <= s@.len(),
    ensures
        comment_tail(s@, p as int) == (trees(r.0@), r.1 as int),
        p <= r.1 <= s@.len(),
{
    match comment_span(s, run(s, p, Class::Space)) {
        Some((from, to)) => (single(leaf_node(Rule::Comment, s, from, to)), to + 1),
        None => {
            let nodes: Vec<Node> = Vec::new();
            assert(trees(nodes@) =~= Seq::<Tree>::empty());
            (nodes, p)
        },
    }
}

fn match_address_part(s: &[char], p: usize) -> (r: Option<(Vec<Node>, usize)>)
    requires
        p <= s@.len(),
    ensures
        match r {
            Some((nodes, end)) => address_part(s@, p as int) == Some((trees(nodes@), end as int))
                && p < end <= s@.len(),
            None => address_part(s@, p as int) is None,
        },
{
    match match_angle(s, p) {
        None => None,
        Some((nodes, end)) => {
            let (tail, last) = match_comment_tail(s, end);
            Some((joined(nodes, tail), last))
        },
    }
}

fn match_bare(s: &[char], p: usize) -> (r: Option<(Vec<Node>, usize)>)
    requires
        p <= s@.len(),
    ensures
        match r {
            Some((nodes, end)) => bare_form(s@, p as int) == Some((trees(nodes@), end as int)) && p
                < end <= s@.len(),
            None => bare_form(s@, p as int) is None,
        },
{
    match address_stop(s, p) {
        None => None,
        Some(to) => {
            let next = run(s, to, Class::Space);
            let (inner, _) = address_node(s, p, to);
            match match_address_part(s, next) {
                Some((nodes, end)) => Some((joined(single(inner), nodes), end)),
                None => match comment_span(s, next) {
                    Some((from, close)) => Some(
                        (
                            pair(inner, leaf_node(Rule::MalformedCommentName, s, from, close)),
                            close + 1,
                        ),
                    ),
                    None => Some((single(inner), to)),
                },
            }
        },
    }
}

fn quoted_name_node(s: &[char], p: usize, from: usize, to: usize, end: usize) -> (node: Node)
    requires
        p <= from <= to <= end <= s@.len(),
    ensures
        node@ == crate::grammar::quoted_name(s@, p as int, from as int, to as int, end as int),
{
    branch(Rule::Name, s, p, end, single(leaf_node(Rule::Value, s, from, to)))
}

fn match_quoted(s: &[char], p: usize) -> (r: Option<(Vec<Node>, usize)>)
    requires
        p <= s@.len(),
    ensures
        match r {
            Some((nodes, end)) => quoted_form(s@, p as int) == Some((trees(nodes@), end as int))
                && p < end <= s@.len(),
            None => quoted_form(s@, p as int) is None,
        },
{
    match quoted_span(s, p) {
        None => None,
        Some((from, to, end)) => {
            let (comment, next) = match_comment_tail(s, end);
            match match_address_part(s, run(s, next, Class::Space)) {
                Some((nodes, last)) => {
                    let name = single(quoted_name_node(s, p, from, to, end));
                    Some((joined(joined(name, comment), nodes), last))
                },
                None => match address_stop(s, from) {
                    Some(stop) => if stop == to {
                        Some((single(address_node(s, from, to).0), end))
                    } else {
                        None
                    },
                    None => None,
                },
            }
        },
    }
}

fn match_display(s: &[char], p: usize) -> (r: Option<(Vec<Node>, usize)>)
    requires
        p <= s@.len(),
    ensures
        match r {
            Some((nodes, end)) => display_form(s@, p as int) == Some((trees(nodes@), end as int))
                && p < end <= s@.len(),
            None => display_form(s@, p as int) is None,
        },
{
    let to = run(s, p, Class::Display);
    if to <= p {
        return None;
    }
    match match_address_part(s, to) {
        Some((nodes, end)) => Some(
            (joined(single(leaf_node(Rule::Malformed, s, p, to)), nodes), end),
        ),
        None => match empty_angle_end(s, to) {
            None => None,
            Some(after) => {
                let from = run(s, after, Class::Space);
                match address_stop(s, from) {
                    None => None,
                    Some(end) => Some(
                        (
                            pair(
                                leaf_node(Rule::Malformed, s, p, to),
                                address_node(s, from, end).0,
                            ),
                            end,
                        ),
                    ),
                }
            },
        },
    }
}

fn match_structured(s: &[char], p: usize) -> (r: Option<(Vec<Node>, usize)>)
    requires
        p <= s@.len(),
    ensures
        match r {
            Some((nodes, end)) => structured_at(s@, p as int) == Some((trees(nodes@), end as int))
                && p < end <= s@.len(),
            None => structured_at(s@, p as int) is None,
        },
{
    match match_address_part(s, p) {
        Some(found) => Some(found),
        None => match match_bare(s, p) {
            Some(found) => Some(found),
            None => match match_quoted(s, p) {
                Some(found) => Some(found),
                None => match_display(s, p),
            },
        },
    }
}

fn match_garbage(s: &[char], p: usize) -> (r: (Vec<Node>, usize))
    requires
        p < s@.len(),
        !is_separator(s@[p as int]),
    ensures
        garbage_form(s@, p as int) == (trees(r.0@), r.1 as int),
        p < r.1 <= s@.len(),
{
    let end = run(s, p, Class::Entry);
    proof {
        lemma_scan(s@, p + 1, Class::Entry);
    }
    (single(leaf_node(Rule::Garbage, s, p, end)), end)
}

/// The contact that starts at `p`, where an entry starts.
fn match_contact(s: &[char], p: usize) -> (r: (Node, usize))
    requires
        p < s@.len(),
        !is_filler(s@[p as int]),
    ensures
        r.0@ == crate::grammar::contact_node(
            s@,
            p as int,
            contact_at(s@, p as int).1,
            contact_at(s@, p as int).0,
        ),
        r.1 == contact_at(s@, p as int).1,
        p < r.1 <= s@.len(),
{
    let (children, end) = match match_structured(s, p) {
        Some(found) => found,
        None => match_garbage(s, p),
    };
    (branch(Rule::Contact, s, p, end, children), end)
}

proof fn lemma_after_after(front: Seq<Tree>, middle: Seq<Tree>, entries: Entries)
    ensures
        after(front, after(middle, entries)) == after(front + middle, entries),
{
    match entries {
        Ok(rest) => {
            assert(front + (middle + rest) =~= (front + middle) + rest);
        },
        Err(_) => {},
    }
}

/// The contacts of the list that starts at `p`.
fn match_entries(s: &[char], p: usize, strict: bool) -> (r: Result<Vec<Node>, usize>)
    requires
        p <= s@.len(),
    ensures
        match r {
            Ok(nodes) => entries_from(s@, p as int, strict) == Ok::<Seq<Tree>, int>(trees(nodes@)),
            Err(position) => entries_from(s@, p as int, strict) == Err::<Seq<Tree>, int>(
                position as int,
            ) && position <= s@.len(),
        },
        !strict ==> r is Ok,
{
    let mut nodes: Vec<Node> = Vec::new();
    let mut q: usize = p;
    assert(trees(nodes@) =~= Seq::<Tree>::empty());
    proof {
        match entries_from(s@, p as int, strict) {
            Ok(rest) => {
                assert(Seq::<Tree>::empty() + rest =~= rest);
            },
            Err(_) => {},
        }
    }
    loop
        invariant
            p <= q <= s@.len(),
            entries_from(s@, p as int, strict) == after(
                trees(nodes@),
                entries_from(s@, q as int, strict),
            ),
        decreases s@.len() - q,
    {
        let start = next_entry(s, q);
        if start >= s.len() {
            assert(trees(nodes@) + Seq::<Tree>::empty() =~= trees(nodes@));
            return Ok(nodes);
        }
        let found = match_structured(s, start);
        let (children, end) = match found {
            Some(found) => found,
            None => {
                if strict {
                    return Err(start);
                }
                match_garbage(s, start)
            },
        };
        let node = branch(Rule::Contact, s, start, end, children);
        proof {
            lemma_trees_push(nodes@, node);
            lemma_after_after(trees(nodes@), seq![node@], entries_from(s@, end as int, strict));
            assert(trees(nodes@) + seq![node@] =~= trees(nodes@).push(node@));
        }
        nodes.push(node);
        q = end;
    }
}

fn list_branch(s: &[char], p: usize, contacts: Vec<Node>) -> (node: Node)
    requires
        p <= s@.len(),
    ensures
        node@ == crate::grammar::list_node(s@, p as int, trees(contacts@)),
{
    branch(Rule::ContactList, s, p, s.len(), contacts)
}

fn match_group_name(s: &[char], p: usize) -> (r: Result<(Node, usize), usize>)
    requires
        p <= s@.len(),
    ensures
        match r {
            Ok((name, end)) => group_name_at(s@, p as int) == Ok::<(Tree, int), int>(
                (name@, end as int),
            ) && end <= s@.len(),
            Err(position) => group_name_at(s@, p as int) == Err::<(Tree, int), int>(
                position as int,
            ) && position <= s@.len(),
        },
{
    if p < s.len() && quote(s[p]) {
        match quoted_span(s, p) {
            Some((from, to, end)) => Ok((quoted_name_node(s, p, from, to, end), end)),
            None => Err(p),
        }
    } else {
        let end = run(s, p, Class::GroupName);
        let to = drop_space_to(s, p, end);
        if p < to {
            Ok((branch(Rule::Name, s, p, to, single(leaf_node(Rule::Value, s, p, to))), end))
        } else {
            Err(p)
        }
    }
}

fn match_group(s: &[char]) -> (r: Result<Node, usize>)
    ensures
        match r {
            Ok(group) => group_of(s@) == Ok::<Tree, int>(group@),
            Err(position) => group_of(s@) == Err::<Tree, int>(position as int) && position
                <= s@.len(),
        },
{
    let first = run(s, 0, Class::Space);
    let start = if is_at(s, first, '<') {
        run(s, first + 1, Class::Space)
    } else {
        first
    };
    assert(start == group_start(s@));
    match match_group_name(s, start) {
        Err(position) => Err(position),
        Ok((name, end)) => {
            let colon = run(s, end, Class::Space);
            if !is_at(s, colon, ':') {
                Err(colon)
            } else {
                match match_entries(s, colon + 1, true) {
                    Err(position) => Err(position),
                    Ok(members) => {
                        let list = list_branch(s, colon + 1, members);
                        Ok(branch(Rule::Group, s, start, s.len(), pair(name, list)))
                    },
                }
            }
        },
    }
}

fn match_contact_list(s: &[char]) -> (node: Node)
    ensures
        node@ == crate::grammar::contact_list_of(s@),
{
    match match_entries(s, 0, false) {
        Ok(contacts) => list_branch(s, 0, contacts),
        Err(_) => {
            let contacts: Vec<Node> = Vec::new();
            assert(trees(contacts@) =~= Seq::<Tree>::empty());
            list_branch(s, 0, contacts)
        },
    }
}

fn match_address_list(s: &[char]) -> (node: Node)
    ensures
        node@ == crate::grammar::address_list_of(s@),
{
    let inner = match match_group(s) {
        Ok(group) => group,
        Err(_) => match_contact_list(s),
    };
    let node = branch(Rule::AddressList, s, 0, s.len(), single(inner));
    assert(span(s@, 0, s@.len() as int) =~= s@);
    node
}

fn match_first_contact(s: &[char]) -> (node: Node)
    ensures
        node@ == crate::grammar::contact_of(s@),
{
    let start = next_entry(s, 0);
    if start < s.len() {
        match_contact(s, start).0
    } else {
        branch(Rule::Contact, s, start, start, single(leaf_node(Rule::Garbage, s, start, start)))
    }
}

/// Parses the text under a rule of the grammar.
///
/// Address lists, lists of contacts and contacts match any text: the result
/// is the tree that the grammar gives. A group fails on a text that is not
/// one, at the position where it stopped being one. No other rule can be
/// asked for.
pub fn parse(rule: Rule, text: &str) -> (r: Result<Node, SyntaxError>)
    ensures
        match r {
            Ok(node) => parse_tree(rule, text@) == Ok::<Tree, SyntaxError>(node@),
            Err(error) => parse_tree(rule, text@) == Err::<Tree, SyntaxError>(error),
        },
        rule == Rule::AddressList || rule == Rule::ContactList || rule == Rule::Contact ==> r
            is Ok,
{
    let chars = to_chars(text);
    let s = chars.as_slice();
    match rule {
        Rule::AddressList => Ok(match_address_list(s)),
        Rule::ContactList => Ok(match_contact_list(s)),
        Rule::Contact => Ok(match_first_contact(s)),
        Rule::Group => match match_group(s) {
            Ok(group) => Ok(group),
            Err(position) => Err(SyntaxError { rule, position }),
        },
        _ => Err(SyntaxError { rule, position: 0 }),
    }
}

} // verus!
