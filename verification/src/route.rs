//! The route table: declared path patterns compiled into a prefix trie, and
//! the resolution of a request path against it.
//!
//! A pattern and a path are both read as the non-empty pieces between
//! slashes. A piece of a pattern that is wrapped in braces is a capture and
//! takes any piece of a path; any other piece is a literal and takes only
//! itself. At every node a literal is tried before the capture.

use vstd::prelude::*;
use crate::text::{find_char, from_chars, index_of, lemma_find_char, str_eq, to_chars, views};

verus! {

/// One piece of a pattern.
pub enum Segment {
    Literal(Seq<char>),
    Capture(Seq<char>),
}

/// The pieces of `s` from `from` on: what stands between slashes, empty pieces left out.
pub open spec fn segments_from(s: Seq<char>, from: int) -> Seq<Seq<char>>
    decreases s.len() - from,
    via segments_from_decreases
{
    if from < 0 || from >= s.len() {
        Seq::empty()
    } else {
        let to = find_char(s, '/', from);
        let rest = if to < s.len() {
            segments_from(s, to + 1)
        } else {
            Seq::empty()
        };
        if to > from {
            seq![s.subrange(from, to)] + rest
        } else {
            rest
        }
    }
}

#[via_fn]
proof fn segments_from_decreases(s: Seq<char>, from: int) {
    if 0 <= from < s.len() {
        lemma_find_char(s, '/', from);
    }
}

/// The pieces of a path or of a pattern.
pub open spec fn path_segments(s: Seq<char>) -> Seq<Seq<char>> {
    segments_from(s, 0)
}

/// Every piece is non-empty and holds no slash.
pub proof fn lemma_pieces(s: Seq<char>, from: int)
    requires
        0 <= from,
    ensures
        forall|k: int|
            0 <= k < segments_from(s, from).len() ==> {
                let piece = #[trigger] segments_from(s, from)[k];
                piece.len() > 0 && forall|i: int| 0 <= i < piece.len() ==> piece[i] != '/'
            },
    decreases s.len() - from,
{
    if from < s.len() {
        let to = find_char(s, '/', from);
        lemma_find_char(s, '/', from);
        if to < s.len() {
            lemma_pieces(s, to + 1);
        }
        let rest = if to < s.len() {
            segments_from(s, to + 1)
        } else {
            Seq::empty()
        };
        if to > from {
            let head = s.subrange(from, to);
            assert forall|k: int| 0 <= k < segments_from(s, from).len() implies {
                let piece = #[trigger] segments_from(s, from)[k];
                piece.len() > 0 && forall|i: int| 0 <= i < piece.len() ==> piece[i] != '/'
            } by {
                if k == 0 {
                    assert(segments_from(s, from)[0] == head);
                } else {
                    assert(segments_from(s, from)[k] == rest[k - 1]);
                }
            }
        }
    }
}

/// Whether a piece of a pattern is a capture.
pub open spec fn is_capture(piece: Seq<char>) -> bool {
    piece.len() >= 2 && piece[0] == '{' && piece[piece.len() - 1] == '}'
}

/// A piece of a pattern, read as a literal or as a capture with its name.
pub open spec fn segment_of(piece: Seq<char>) -> Segment {
    if is_capture(piece) {
        Segment::Capture(piece.subrange(1, piece.len() - 1))
    } else {
        Segment::Literal(piece)
    }
}

/// A pattern, piece by piece.
pub open spec fn pattern_of(route: Seq<char>) -> Seq<Segment> {
    Seq::new(path_segments(route).len(), |k: int| segment_of(path_segments(route)[k]))
}

/// The declared routes, each as a pattern.
pub open spec fn patterns_of(declared: Seq<Seq<char>>) -> Seq<Seq<Segment>> {
    Seq::new(declared.len(), |j: int| pattern_of(declared[j]))
}

/// Whether `pattern` begins with `prefix`.
pub open spec fn starts_with(pattern: Seq<Segment>, prefix: Seq<Segment>) -> bool {
    prefix.len() <= pattern.len() && forall|k: int|
        0 <= k < prefix.len() ==> prefix[k] == pattern[k]
}

/// Whether one of the patterns begins with `prefix`.
pub open spec fn has_prefix(patterns: Seq<Seq<Segment>>, prefix: Seq<Segment>) -> bool {
    exists|j: int| 0 <= j < patterns.len() && starts_with(#[trigger] patterns[j], prefix)
}

/// No two patterns that agree up to some place hold captures of different
/// names at that place.
pub open spec fn conflict_free(patterns: Seq<Seq<Segment>>) -> bool {
    forall|prefix: Seq<Segment>, a: Seq<char>, b: Seq<char>|
        has_prefix(patterns, #[trigger] prefix.push(Segment::Capture(a))) && has_prefix(
            patterns,
            #[trigger] prefix.push(Segment::Capture(b)),
        ) ==> a == b
}

/// The name of the capture that some pattern holds behind `prefix`.
pub open spec fn capture_name(patterns: Seq<Seq<Segment>>, prefix: Seq<Segment>) -> Option<
    Seq<char>,
> {
    if exists|n: Seq<char>| has_prefix(patterns, #[trigger] prefix.push(Segment::Capture(n))) {
        Some(
            choose|n: Seq<char>| has_prefix(patterns, #[trigger] prefix.push(Segment::Capture(n))),
        )
    } else {
        None
    }
}

/// The piece of a pattern that takes `piece` behind `prefix`: the literal
/// where some pattern goes on with it, else the capture where some pattern
/// goes on with one, else nothing.
pub open spec fn step(patterns: Seq<Seq<Segment>>, prefix: Seq<Segment>, piece: Seq<char>) -> Option<
    Segment,
> {
    if has_prefix(patterns, prefix.push(Segment::Literal(piece))) {
        Some(Segment::Literal(piece))
    } else {
        match capture_name(patterns, prefix) {
            Some(n) => Some(Segment::Capture(n)),
            None => None,
        }
    }
}

/// How far a path has been followed: the pieces of pattern taken, and what the captures hold.
pub struct Walk {
    pub prefix: Seq<Segment>,
    pub args: Map<Seq<char>, Seq<char>>,
}

/// The walk along the first `n` pieces of `path`; nothing once a piece is not taken.
pub open spec fn walk(patterns: Seq<Seq<Segment>>, path: Seq<Seq<char>>, n: int) -> Option<Walk>
    decreases n,
{
    if n <= 0 {
        Some(Walk { prefix: Seq::empty(), args: Map::empty() })
    } else {
        match walk(patterns, path, n - 1) {
            None => None,
            Some(w) => match step(patterns, w.prefix, path[n - 1]) {
                None => None,
                Some(Segment::Literal(l)) => Some(
                    Walk { prefix: w.prefix.push(Segment::Literal(l)), args: w.args },
                ),
                Some(Segment::Capture(name)) => Some(
                    Walk {
                        prefix: w.prefix.push(Segment::Capture(name)),
                        args: w.args.insert(name, path[n - 1]),
                    },
                ),
            },
        }
    }
}

/// The last of the first `upto` declared routes whose pattern is `pattern`;
/// the empty string where there is none.
pub open spec fn target_of(declared: Seq<Seq<char>>, pattern: Seq<Segment>, upto: int) -> Seq<char>
    decreases upto,
{
    if upto <= 0 {
        Seq::empty()
    } else if pattern_of(declared[upto - 1]) == pattern {
        declared[upto - 1]
    } else {
        target_of(declared, pattern, upto - 1)
    }
}

/// What a path resolves to.
pub struct RouteMatchView {
    /// The declared route that the path belongs to; empty where it belongs to none.
    pub target: Seq<char>,
    /// The piece of the path that each capture took.
    pub args: Map<Seq<char>, Seq<char>>,
}

/// The resolution of `path` against the declared routes. A path that
/// belongs to no declared route resolves to nothing and captures nothing:
/// be it that a piece is not taken, or that all pieces are taken and no
/// declared route ends where the path ends. There is no partial match.
pub open spec fn resolve(declared: Seq<Seq<char>>, path: Seq<char>) -> RouteMatchView {
    let pieces = path_segments(path);
    let nothing = RouteMatchView { target: Seq::empty(), args: Map::empty() };
    match walk(patterns_of(declared), pieces, pieces.len() as int) {
        None => nothing,
        Some(w) => {
            let target = target_of(declared, w.prefix, declared.len() as int);
            if target.len() == 0 {
                nothing
            } else {
                RouteMatchView { target, args: w.args }
            }
        },
    }
}

/// What the captures hold, from the list of them in the order they were taken.
pub open spec fn args_of(taken: Seq<(Seq<char>, Seq<char>)>) -> Map<Seq<char>, Seq<char>>
    decreases taken.len(),
{
    if taken.len() == 0 {
        Map::empty()
    } else {
        args_of(taken.drop_last()).insert(taken.last().0, taken.last().1)
    }
}

/// The pieces of `path`.
pub fn split_path(path: &str) -> (r: Vec<String>)
    ensures
        views(r@) == path_segments(path@),
{
    let chars = to_chars(path);
    let mut pieces: Vec<String> = Vec::new();
    let mut i: usize = 0;
    while i < chars.len()
        invariant
            chars@ == path@,
            path_segments(path@) == views(pieces@) + segments_from(path@, i as int),
        decreases chars.len() - i,
    {
        let to = index_of(&chars, '/', i);
        proof {
            lemma_find_char(chars@, '/', i as int);
        }
        let ghost before = views(pieces@);
        if to > i {
            let piece = from_chars(&chars, i, to);
            pieces.push(piece);
            assert(views(pieces@) =~= before + seq![path@.subrange(i as int, to as int)]);
        }
        if to >= chars.len() {
            assert(views(pieces@) + Seq::<Seq<char>>::empty() =~= views(pieces@));
            return pieces;
        }
        assert(before + (seq![path@.subrange(i as int, to as int)] + segments_from(path@, to + 1))
            =~= (before + seq![path@.subrange(i as int, to as int)]) + segments_from(
            path@,
            to + 1,
        ));
        i = to + 1;
    }
    assert(views(pieces@) + Seq::<Seq<char>>::empty() =~= views(pieces@));
    pieces
}


/// One piece of a pattern, as the table reads it.
enum RouteSegment {
    Literal(String),
    Capture(String),
}

impl RouteSegment {
    spec fn model(&self) -> Segment {
        match self {
            RouteSegment::Literal(l) => Segment::Literal(l@),
            RouteSegment::Capture(n) => Segment::Capture(n@),
        }
    }
}

/// The views of the pieces of a pattern.
spec fn segments_view(v: Seq<RouteSegment>) -> Seq<Segment> {
    Seq::new(v.len(), |k: int| v[k].model())
}

/// Reads a declared route as a pattern.
fn parse_pattern(route: &str) -> (r: Vec<RouteSegment>)
    ensures
        segments_view(r@) == pattern_of(route@),
{
    let pieces = split_path(route);
    let mut r: Vec<RouteSegment> = Vec::new();
    let mut k: usize = 0;
    while k < pieces.len()
        invariant
            k <= pieces.len(),
            r.len() == k,
            views(pieces@) == path_segments(route@),
            forall|j: int| 0 <= j < k ==> (#[trigger] r@[j]).model() == segment_of(views(pieces@)[j]),
        decreases pieces.len() - k,
    {
        let chars = to_chars(pieces[k].as_str());
        assert(chars@ == views(pieces@)[k as int]);
        let n = chars.len();
        if n >= 2 && chars[0] == '{' && chars[n - 1] == '}' {
            r.push(RouteSegment::Capture(from_chars(&chars, 1, n - 1)));
        } else {
            r.push(RouteSegment::Literal(pieces[k].clone()));
        }
        k += 1;
    }
    assert(segments_view(r@) =~= pattern_of(route@));
    r
}

/// An edge of the trie: the literal piece or the capture's name, and the node it leads to.
struct Edge {
    label: String,
    child: usize,
}

/// A node of the trie.
struct RouteNode {
    /// The declared route that ends here; empty where none does.
    target: String,
    /// The literal edges.
    static_routes: Vec<Edge>,
    /// The capture edge.
    dynamic_route: Option<Edge>,
}

/// Whether `node` has an edge for `seg`.
spec fn has_edge(node: RouteNode, seg: Segment) -> bool {
    match seg {
        Segment::Literal(l) => exists|e: int|
            0 <= e < node.static_routes@.len() && (#[trigger] node.static_routes@[e]).label@ == l,
        Segment::Capture(n) => match node.dynamic_route {
            Some(edge) => edge.label@ == n,
            None => false,
        },
    }
}

/// Every node stands for a sequence of pattern pieces, the root for the empty
/// one, and every edge leads to the node of the sequence that it extends.
spec fn edges_sound(nodes: Seq<RouteNode>, prefixes: Seq<Seq<Segment>>) -> bool {
    &&& nodes.len() == prefixes.len()
    &&& nodes.len() >= 1
    &&& prefixes[0].len() == 0
    &&& forall|i: int, e: int|
        0 <= i < nodes.len() && 0 <= e < nodes[i].static_routes@.len() ==> {
            let edge = #[trigger] nodes[i].static_routes@[e];
            edge.child < nodes.len() && prefixes[edge.child as int] == prefixes[i].push(
                Segment::Literal(edge.label@),
            )
        }
    &&& forall|i: int|
        0 <= i < nodes.len() ==> match (#[trigger] nodes[i]).dynamic_route {
            Some(edge) => edge.child < nodes.len() && prefixes[edge.child as int] == prefixes[i].push(
                Segment::Capture(edge.label@),
            ),
            None => true,
        }
}

/// No two nodes stand for the same sequence.
spec fn distinct(prefixes: Seq<Seq<Segment>>) -> bool {
    forall|i: int, j: int|
        0 <= i < prefixes.len() && 0 <= j < prefixes.len() && #[trigger] prefixes[i]
            == #[trigger] prefixes[j] ==> i == j
}

/// Wherever a pattern goes on behind a node, the node has the edge.
spec fn complete(
    nodes: Seq<RouteNode>,
    prefixes: Seq<Seq<Segment>>,
    patterns: Seq<Seq<Segment>>,
) -> bool {
    forall|i: int, seg: Segment|
        0 <= i < nodes.len() && has_prefix(patterns, #[trigger] prefixes[i].push(seg))
            ==> has_edge(nodes[i], seg)
}

/// Every node holds the route that resolution gives for its sequence.
spec fn targets_right(
    nodes: Seq<RouteNode>,
    prefixes: Seq<Seq<Segment>>,
    declared: Seq<Seq<char>>,
) -> bool {
    forall|i: int|
        0 <= i < nodes.len() ==> (#[trigger] nodes[i]).target@ == target_of(
            declared,
            prefixes[i],
            declared.len() as int,
        )
}

/// The trie is that of the declared routes.
spec fn table_wf(
    nodes: Seq<RouteNode>,
    prefixes: Seq<Seq<Segment>>,
    declared: Seq<Seq<char>>,
) -> bool {
    let patterns = patterns_of(declared);
    &&& edges_sound(nodes, prefixes)
    &&& distinct(prefixes)
    &&& forall|i: int| 1 <= i < prefixes.len() ==> has_prefix(patterns, #[trigger] prefixes[i])
    &&& complete(nodes, prefixes, patterns)
    &&& targets_right(nodes, prefixes, declared)
    &&& conflict_free(patterns)
}

/// The captures of a match, as pairs of views.
pub open spec fn pairs_view(v: Seq<(String, String)>) -> Seq<(Seq<char>, Seq<char>)> {
    Seq::new(v.len(), |k: int| (v[k].0@, v[k].1@))
}

/// What a path resolved to.
#[derive(Clone, Debug)]
pub struct RouteMatch {
    target: String,
    args: Vec<(String, String)>,
}

impl View for RouteMatch {
    type V = RouteMatchView;

    closed spec fn view(&self) -> RouteMatchView {
        RouteMatchView { target: self.target@, args: args_of(pairs_view(self.args@)) }
    }
}

proof fn lemma_args_absent(taken: Seq<(Seq<char>, Seq<char>)>, name: Seq<char>)
    requires
        forall|j: int| 0 <= j < taken.len() ==> (#[trigger] taken[j]).0 != name,
    ensures
        !args_of(taken).contains_key(name),
    decreases taken.len(),
{
    if taken.len() > 0 {
        lemma_args_absent(taken.drop_last(), name);
    }
}

proof fn lemma_args_last(taken: Seq<(Seq<char>, Seq<char>)>, name: Seq<char>, i: int)
    requires
        0 <= i < taken.len(),
        taken[i].0 == name,
        forall|j: int| i < j < taken.len() ==> (#[trigger] taken[j]).0 != name,
    ensures
        args_of(taken).contains_key(name),
        args_of(taken)[name] == taken[i].1,
    decreases taken.len(),
{
    if i < taken.len() - 1 {
        lemma_args_last(taken.drop_last(), name, i);
    }
}

impl RouteMatch {
    /// The declared route that the path belongs to; empty where it belongs to none.
    pub fn target(&self) -> (r: &str)
        ensures
            r@ == self@.target,
    {
        self.target.as_str()
    }

    /// Whether the path belongs to a declared route.
    pub fn is_found(&self) -> (r: bool)
        ensures
            r == (self@.target.len() > 0),
    {
        let chars = to_chars(self.target.as_str());
        chars.len() > 0
    }

    /// The piece of the path that the capture called `name` took.
    pub fn get(&self, name: &str) -> (r: Option<String>)
        ensures
            r is Some == self@.args.contains_key(name@),
            r is Some ==> r->0@ == self@.args[name@],
    {
        let ghost taken = pairs_view(self.args@);
        let mut i: usize = self.args.len();
        while i > 0
            invariant
                i <= self.args.len(),
                taken == pairs_view(self.args@),
                forall|j: int| i <= j < taken.len() ==> (#[trigger] taken[j]).0 != name@,
            decreases i,
        {
            i -= 1;
            if str_eq(self.args[i].0.as_str(), name) {
                proof {
                    lemma_args_last(taken, name@, i as int);
                }
                return Some(self.args[i].1.clone());
            }
        }
        proof {
            lemma_args_absent(taken, name@);
        }
        None
    }

    /// Whether no capture took anything.
    pub fn args_is_empty(&self) -> (r: bool)
        ensures
            r == (self@.args == Map::<Seq<char>, Seq<char>>::empty()),
    {
        let ghost taken = pairs_view(self.args@);
        proof {
            if taken.len() > 0 {
                assert(args_of(taken).contains_key(taken.last().0));
            }
        }
        self.args.len() == 0
    }
}


/// The routes of a server, compiled once and then only read.
pub struct RouteTable {
    routes: Vec<String>,
    nodes: Vec<RouteNode>,
    prefixes: Ghost<Seq<Seq<Segment>>>,
}

/// The child that the literal edge for `label` leads to.
fn find_static(node: &RouteNode, label: &str) -> (r: Option<usize>)
    ensures
        match r {
            Some(c) => exists|e: int|
                0 <= e < node.static_routes@.len() && (#[trigger] node.static_routes@[e]).label@
                    == label@ && node.static_routes@[e].child == c,
            None => !has_edge(*node, Segment::Literal(label@)),
        },
{
    let mut e: usize = 0;
    while e < node.static_routes.len()
        invariant
            e <= node.static_routes.len(),
            forall|k: int| 0 <= k < e ==> (#[trigger] node.static_routes@[k]).label@ != label@,
        decreases node.static_routes.len() - e,
    {
        if str_eq(node.static_routes[e].label.as_str(), label) {
            return Some(node.static_routes[e].child);
        }
        e += 1;
    }
    None
}

proof fn lemma_walk_stays_none(
    patterns: Seq<Seq<Segment>>,
    path: Seq<Seq<char>>,
    from: int,
    to: int,
)
    requires
        from <= to,
        walk(patterns, path, from) is None,
    ensures
        walk(patterns, path, to) is None,
    decreases to - from,
{
    if from < to {
        lemma_walk_stays_none(patterns, path, from, to - 1);
    }
}

/// A literal edge is the step that resolution takes.
proof fn lemma_step_static(
    nodes: Seq<RouteNode>,
    prefixes: Seq<Seq<Segment>>,
    declared: Seq<Seq<char>>,
    cur: int,
    e: int,
)
    requires
        table_wf(nodes, prefixes, declared),
        0 <= cur < nodes.len(),
        0 <= e < nodes[cur].static_routes@.len(),
    ensures
        step(patterns_of(declared), prefixes[cur], nodes[cur].static_routes@[e].label@) == Some(
            Segment::Literal(nodes[cur].static_routes@[e].label@),
        ),
        nodes[cur].static_routes@[e].child < nodes.len(),
        prefixes[nodes[cur].static_routes@[e].child as int] == prefixes[cur].push(
            Segment::Literal(nodes[cur].static_routes@[e].label@),
        ),
{
    let edge = nodes[cur].static_routes@[e];
    let c = edge.child as int;
    assert(prefixes[c].len() == prefixes[cur].len() + 1);
    assert(c != 0);
    assert(has_prefix(patterns_of(declared), prefixes[c]));
}

/// Where no literal edge fits, the capture edge is the step that resolution takes.
proof fn lemma_step_dynamic(
    nodes: Seq<RouteNode>,
    prefixes: Seq<Seq<Segment>>,
    declared: Seq<Seq<char>>,
    cur: int,
    piece: Seq<char>,
)
    requires
        table_wf(nodes, prefixes, declared),
        0 <= cur < nodes.len(),
        !has_edge(nodes[cur], Segment::Literal(piece)),
        nodes[cur].dynamic_route is Some,
    ensures
        step(patterns_of(declared), prefixes[cur], piece) == Some(
            Segment::Capture(nodes[cur].dynamic_route->0.label@),
        ),
        nodes[cur].dynamic_route->0.child < nodes.len(),
        prefixes[nodes[cur].dynamic_route->0.child as int] == prefixes[cur].push(
            Segment::Capture(nodes[cur].dynamic_route->0.label@),
        ),
{
    let patterns = patterns_of(declared);
    let edge = nodes[cur].dynamic_route->0;
    let c = edge.child as int;
    let pre = prefixes[cur];
    assert(prefixes[c].len() == pre.len() + 1);
    assert(c != 0);
    assert(has_prefix(patterns, prefixes[c]));
    assert(has_prefix(patterns, pre.push(Segment::Capture(edge.label@))));
    if has_prefix(patterns, pre.push(Segment::Literal(piece))) {
        assert(has_edge(nodes[cur], Segment::Literal(piece)));
    }
    let n = choose|n: Seq<char>| has_prefix(patterns, #[trigger] pre.push(Segment::Capture(n)));
    assert(has_prefix(patterns, pre.push(Segment::Capture(n))));
    assert(has_edge(nodes[cur], Segment::Capture(n)));
}

/// Where no edge fits, resolution takes no step.
proof fn lemma_step_none(
    nodes: Seq<RouteNode>,
    prefixes: Seq<Seq<Segment>>,
    declared: Seq<Seq<char>>,
    cur: int,
    piece: Seq<char>,
)
    requires
        table_wf(nodes, prefixes, declared),
        0 <= cur < nodes.len(),
        !has_edge(nodes[cur], Segment::Literal(piece)),
        nodes[cur].dynamic_route is None,
    ensures
        step(patterns_of(declared), prefixes[cur], piece) is None,
{
    let patterns = patterns_of(declared);
    let pre = prefixes[cur];
    if has_prefix(patterns, pre.push(Segment::Literal(piece))) {
        assert(has_edge(nodes[cur], Segment::Literal(piece)));
    }
    if exists|n: Seq<char>| has_prefix(patterns, #[trigger] pre.push(Segment::Capture(n))) {
        let n = choose|n: Seq<char>| has_prefix(patterns, #[trigger] pre.push(Segment::Capture(n)));
        assert(has_edge(nodes[cur], Segment::Capture(n)));
    }
}

impl RouteTable {
    #[verifier::type_invariant]
    spec fn wf(self) -> bool {
        table_wf(self.nodes@, self.prefixes@, views(self.routes@))
    }

    /// The declared routes, in the order of declaration.
    pub closed spec fn declared(&self) -> Seq<Seq<char>> {
        views(self.routes@)
    }

    /// The number of declared routes.
    pub fn len(&self) -> (r: usize)
        ensures
            r == self.declared().len(),
    {
        self.routes.len()
    }

    /// Resolves a request path. The table is only read.
    pub fn route_path(&self, path: &str) -> (r: RouteMatch)
        ensures
            r@ == resolve(self.declared(), path@),
    {
        proof {
            use_type_invariant(self);
        }
        let pieces = split_path(path);
        let ghost declared = views(self.routes@);
        let ghost patterns = patterns_of(declared);
        let ghost segs = path_segments(path@);
        let mut cur: usize = 0;
        let mut args: Vec<(String, String)> = Vec::new();
        let mut i: usize = 0;
        proof {
            assert(self.prefixes@[0] =~= Seq::<Segment>::empty());
            assert(pairs_view(args@) =~= Seq::<(Seq<char>, Seq<char>)>::empty());
        }
        while i < pieces.len()
            invariant
                table_wf(self.nodes@, self.prefixes@, declared),
                declared == views(self.routes@),
                patterns == patterns_of(declared),
                segs == views(pieces@),
                segs == path_segments(path@),
                i <= pieces.len(),
                cur < self.nodes.len(),
                walk(patterns, segs, i as int) == Some(
                    Walk { prefix: self.prefixes@[cur as int], args: args_of(pairs_view(args@)) },
                ),
            decreases pieces.len() - i,
        {
            let piece = &pieces[i];
            assert(segs[i as int] == piece@);
            match find_static(&self.nodes[cur], piece.as_str()) {
                Some(c) => {
                    proof {
                        let e = choose|e: int|
                            0 <= e < self.nodes@[cur as int].static_routes@.len() && (
                            #[trigger] self.nodes@[cur as int].static_routes@[e]).label@ == piece@
                                && self.nodes@[cur as int].static_routes@[e].child == c;
                        lemma_step_static(self.nodes@, self.prefixes@, declared, cur as int, e);
                    }
                    cur = c;
                },
                None => match &self.nodes[cur].dynamic_route {
                    Some(edge) => {
                        proof {
                            lemma_step_dynamic(
                                self.nodes@,
                                self.prefixes@,
                                declared,
                                cur as int,
                                piece@,
                            );
                        }
                        let ghost before = pairs_view(args@);
                        args.push((edge.label.clone(), piece.clone()));
                        proof {
                            assert(pairs_view(args@).drop_last() =~= before);
                        }
                        cur = edge.child;
                    },
                    None => {
                        proof {
                            lemma_step_none(
                                self.nodes@,
                                self.prefixes@,
                                declared,
                                cur as int,
                                piece@,
                            );
                            lemma_walk_stays_none(patterns, segs, i + 1, segs.len() as int);
                            assert(pairs_view(Seq::<(String, String)>::empty()) =~= Seq::<
                                (Seq<char>, Seq<char>),
                            >::empty());
                        }
                        return RouteMatch { target: String::new(), args: Vec::new() };
                    },
                },
            }
            i += 1;
        }
        if self.nodes[cur].target.as_str().is_empty() {
            proof {
                assert(pairs_view(Seq::<(String, String)>::empty()) =~= Seq::<
                    (Seq<char>, Seq<char>),
                >::empty());
            }
            return RouteMatch { target: String::new(), args: Vec::new() };
        }
        RouteMatch { target: self.nodes[cur].target.clone(), args }
    }
}


/// Why a list of routes is refused.
#[derive(Clone, Debug, PartialEq, Eq)]
pub enum RouteError {
    /// This route holds a capture where an earlier route, equal up to there,
    /// holds a capture of another name.
    CaptureConflict(String),
}

impl View for RouteError {
    type V = Seq<char>;

    open spec fn view(&self) -> Seq<char> {
        match self {
            RouteError::CaptureConflict(route) => route@,
        }
    }
}

impl RouteError {
    /// The route that was refused.
    pub fn route(&self) -> (r: &str)
        ensures
            r@ == self@,
    {
        match self {
            RouteError::CaptureConflict(route) => route.as_str(),
        }
    }
}

/// The trie while the route of pattern `q` is put in: its first `d` pieces lead to `cur`.
spec fn building(
    nodes: Seq<RouteNode>,
    prefixes: Seq<Seq<Segment>>,
    declared: Seq<Seq<char>>,
    q: Seq<Segment>,
    d: int,
    cur: int,
) -> bool {
    let patterns = patterns_of(declared);
    &&& edges_sound(nodes, prefixes)
    &&& distinct(prefixes)
    &&& forall|i: int|
        1 <= i < prefixes.len() ==> has_prefix(patterns, #[trigger] prefixes[i]) || (starts_with(
            q,
            prefixes[i],
        ) && prefixes[i].len() <= d)
    &&& complete(nodes, prefixes, patterns)
    &&& forall|i: int, seg: Segment|
        0 <= i < nodes.len() && prefixes[i].len() < d && starts_with(
            q,
            #[trigger] prefixes[i].push(seg),
        ) ==> has_edge(nodes[i], seg)
    &&& targets_right(nodes, prefixes, declared)
    &&& conflict_free(patterns)
    &&& forall|prefix: Seq<Segment>, a: Seq<char>, b: Seq<char>|
        prefix.len() < d && has_prefix(patterns, #[trigger] prefix.push(Segment::Capture(a)))
            && starts_with(q, #[trigger] prefix.push(Segment::Capture(b))) ==> a == b
    &&& 0 <= cur < nodes.len()
    &&& 0 <= d <= q.len()
    &&& prefixes[cur].len() == d
    &&& starts_with(q, prefixes[cur])
}

proof fn lemma_has_prefix_push(patterns: Seq<Seq<Segment>>, q: Seq<Segment>, x: Seq<Segment>)
    ensures
        has_prefix(patterns.push(q), x) == (has_prefix(patterns, x) || starts_with(q, x)),
{
    let more = patterns.push(q);
    if has_prefix(more, x) {
        let j = choose|j: int| 0 <= j < more.len() && starts_with(#[trigger] more[j], x);
        if j < patterns.len() {
            assert(starts_with(patterns[j], x));
        }
    }
    if has_prefix(patterns, x) {
        let j = choose|j: int| 0 <= j < patterns.len() && starts_with(#[trigger] patterns[j], x);
        assert(starts_with(more[j], x));
    }
    if starts_with(q, x) {
        assert(starts_with(more[patterns.len() as int], x));
    }
}

proof fn lemma_prefix_closed(patterns: Seq<Seq<Segment>>, x: Seq<Segment>, seg: Segment)
    requires
        has_prefix(patterns, x.push(seg)),
    ensures
        has_prefix(patterns, x),
{
    let j = choose|j: int|
        0 <= j < patterns.len() && starts_with(#[trigger] patterns[j], x.push(seg));
    assert forall|k: int| 0 <= k < x.len() implies x[k] == patterns[j][k] by {
        assert(x.push(seg)[k] == patterns[j][k]);
    }
    assert(starts_with(patterns[j], x));
}

proof fn lemma_patterns_push(declared: Seq<Seq<char>>, route: Seq<char>)
    ensures
        patterns_of(declared.push(route)) == patterns_of(declared).push(pattern_of(route)),
{
    assert(patterns_of(declared.push(route)) =~= patterns_of(declared).push(pattern_of(route)));
}

proof fn lemma_target_push(
    declared: Seq<Seq<char>>,
    route: Seq<char>,
    pattern: Seq<Segment>,
    upto: int,
)
    requires
        upto <= declared.len(),
    ensures
        target_of(declared.push(route), pattern, upto) == target_of(declared, pattern, upto),
    decreases upto,
{
    if upto > 0 {
        assert(declared.push(route)[upto - 1] == declared[upto - 1]);
        lemma_target_push(declared, route, pattern, upto - 1);
    }
}

proof fn lemma_target_absent(declared: Seq<Seq<char>>, pattern: Seq<Segment>, upto: int)
    requires
        upto <= declared.len(),
        !has_prefix(patterns_of(declared), pattern),
    ensures
        target_of(declared, pattern, upto) == Seq::<char>::empty(),
    decreases upto,
{
    if upto > 0 {
        if pattern_of(declared[upto - 1]) == pattern {
            assert(starts_with(patterns_of(declared)[upto - 1], pattern));
        }
        lemma_target_absent(declared, pattern, upto - 1);
    }
}

proof fn lemma_start(
    nodes: Seq<RouteNode>,
    prefixes: Seq<Seq<Segment>>,
    declared: Seq<Seq<char>>,
    q: Seq<Segment>,
)
    requires
        table_wf(nodes, prefixes, declared),
    ensures
        building(nodes, prefixes, declared, q, 0, 0),
{
}

/// Two sequences that `q` begins with and that are equally long are the same.
proof fn lemma_same_prefix(q: Seq<Segment>, x: Seq<Segment>, y: Seq<Segment>)
    requires
        starts_with(q, x),
        starts_with(q, y),
        x.len() == y.len(),
    ensures
        x == y,
{
    assert(x =~= y);
}

proof fn lemma_starts_with_push(q: Seq<Segment>, x: Seq<Segment>, seg: Segment)
    ensures
        starts_with(q, x.push(seg)) == (starts_with(q, x) && x.len() < q.len() && q[x.len() as int]
            == seg),
{
    if starts_with(q, x.push(seg)) {
        assert forall|k: int| 0 <= k < x.len() implies x[k] == q[k] by {
            assert(x.push(seg)[k] == q[k]);
        }
        assert(x.push(seg)[x.len() as int] == q[x.len() as int]);
    }
}

/// Going along an edge that is there.
proof fn lemma_follow(
    nodes: Seq<RouteNode>,
    prefixes: Seq<Seq<Segment>>,
    declared: Seq<Seq<char>>,
    q: Seq<Segment>,
    d: int,
    cur: int,
    c: int,
)
    requires
        building(nodes, prefixes, declared, q, d, cur),
        d < q.len(),
        0 <= c < nodes.len(),
        prefixes[c] == prefixes[cur].push(q[d]),
        has_edge(nodes[cur], q[d]),
    ensures
        building(nodes, prefixes, declared, q, d + 1, c),
{
    let patterns = patterns_of(declared);
    lemma_starts_with_push(q, prefixes[cur], q[d]);
    assert forall|i: int, seg: Segment|
        0 <= i < nodes.len() && prefixes[i].len() < d + 1 && starts_with(
            q,
            #[trigger] prefixes[i].push(seg),
        ) implies has_edge(nodes[i], seg) by {
        if prefixes[i].len() == d {
            lemma_starts_with_push(q, prefixes[i], seg);
            lemma_same_prefix(q, prefixes[i], prefixes[cur]);
        }
    }
    assert forall|prefix: Seq<Segment>, a: Seq<char>, b: Seq<char>|
        prefix.len() < d + 1 && has_prefix(patterns, #[trigger] prefix.push(Segment::Capture(a)))
            && starts_with(q, #[trigger] prefix.push(Segment::Capture(b))) implies a == b by {
        if prefix.len() == d {
            lemma_starts_with_push(q, prefix, Segment::Capture(b));
            lemma_same_prefix(q, prefix, prefixes[cur]);
            assert(has_prefix(patterns, prefixes[cur].push(Segment::Capture(a))));
            assert(has_edge(nodes[cur], Segment::Capture(a)));
        }
    }
}

/// Making the edge that is missing, and the node it leads to.
proof fn lemma_grow(
    nodes: Seq<RouteNode>,
    prefixes: Seq<Seq<Segment>>,
    nodes2: Seq<RouteNode>,
    declared: Seq<Seq<char>>,
    q: Seq<Segment>,
    d: int,
    cur: int,
)
    requires
        building(nodes, prefixes, declared, q, d, cur),
        d < q.len(),
        !has_edge(nodes[cur], q[d]),
        q[d] is Capture ==> nodes[cur].dynamic_route is None,
        nodes2.len() == nodes.len() + 1,
        forall|i: int| 0 <= i < nodes.len() && i != cur ==> nodes2[i] == nodes[i],
        nodes2[cur].target == nodes[cur].target,
        edges_sound(nodes2, prefixes.push(prefixes[cur].push(q[d]))),
        forall|seg: Segment|
            has_edge(nodes[cur], seg) || seg == q[d] ==> #[trigger] has_edge(nodes2[cur], seg),
        nodes2[nodes.len() as int].target@ == Seq::<char>::empty(),
    ensures
        building(
            nodes2,
            prefixes.push(prefixes[cur].push(q[d])),
            declared,
            q,
            d + 1,
            nodes.len() as int,
        ),
{
    let patterns = patterns_of(declared);
    let x = prefixes[cur].push(q[d]);
    let prefixes2 = prefixes.push(x);
    let c = nodes.len() as int;
    lemma_starts_with_push(q, prefixes[cur], q[d]);
    assert(!has_prefix(patterns, x)) by {
        if has_prefix(patterns, x) {
            assert(has_edge(nodes[cur], q[d]));
        }
    }
    assert(distinct(prefixes2)) by {
        assert forall|i: int, j: int|
            0 <= i < prefixes2.len() && 0 <= j < prefixes2.len() && #[trigger] prefixes2[i]
                == #[trigger] prefixes2[j] implies i == j by {
            if i < c && j < c {
                assert(prefixes[i] == prefixes[j]);
            } else if i < c {
                assert(prefixes[i] == x);
                assert(i != 0);
            } else if j < c {
                assert(prefixes[j] == x);
                assert(j != 0);
            }
        }
    }
    assert forall|i: int| 1 <= i < prefixes2.len() implies has_prefix(
        patterns,
        #[trigger] prefixes2[i],
    ) || (starts_with(q, prefixes2[i]) && prefixes2[i].len() <= d + 1) by {
        if i < c {
            assert(prefixes2[i] == prefixes[i]);
        }
    }
    assert(complete(nodes2, prefixes2, patterns)) by {
        assert forall|i: int, seg: Segment|
            0 <= i < nodes2.len() && has_prefix(
                patterns,
                #[trigger] prefixes2[i].push(seg),
            ) implies has_edge(nodes2[i], seg) by {
            if i < c {
                assert(prefixes2[i] == prefixes[i]);
                assert(has_edge(nodes[i], seg));
            } else {
                lemma_prefix_closed(patterns, x, seg);
            }
        }
    }
    assert forall|i: int, seg: Segment|
        0 <= i < nodes2.len() && prefixes2[i].len() < d + 1 && starts_with(
            q,
            #[trigger] prefixes2[i].push(seg),
        ) implies has_edge(nodes2[i], seg) by {
        if i < c {
            assert(prefixes2[i] == prefixes[i]);
            if prefixes[i].len() == d {
                lemma_starts_with_push(q, prefixes[i], seg);
                lemma_same_prefix(q, prefixes[i], prefixes[cur]);
            } else {
                assert(has_edge(nodes[i], seg));
            }
        }
    }
    assert(targets_right(nodes2, prefixes2, declared)) by {
        assert forall|i: int| 0 <= i < nodes2.len() implies (#[trigger] nodes2[i]).target@
            == target_of(declared, prefixes2[i], declared.len() as int) by {
            if i < c {
                assert(prefixes2[i] == prefixes[i]);
                assert(nodes[i].target@ == target_of(declared, prefixes[i], declared.len() as int));
            } else {
                lemma_target_absent(declared, x, declared.len() as int);
            }
        }
    }
    assert forall|prefix: Seq<Segment>, a: Seq<char>, b: Seq<char>|
        prefix.len() < d + 1 && has_prefix(patterns, #[trigger] prefix.push(Segment::Capture(a)))
            && starts_with(q, #[trigger] prefix.push(Segment::Capture(b))) implies a == b by {
        if prefix.len() == d {
            lemma_starts_with_push(q, prefix, Segment::Capture(b));
            lemma_same_prefix(q, prefix, prefixes[cur]);
            assert(has_prefix(patterns, prefixes[cur].push(Segment::Capture(a))));
            assert(has_edge(nodes[cur], Segment::Capture(a)));
        }
    }
}

/// A capture of another name stands where the route holds one.
proof fn lemma_conflict(
    nodes: Seq<RouteNode>,
    prefixes: Seq<Seq<Segment>>,
    declared: Seq<Seq<char>>,
    route: Seq<char>,
    d: int,
    cur: int,
)
    requires
        building(nodes, prefixes, declared, pattern_of(route), d, cur),
        d < pattern_of(route).len(),
        pattern_of(route)[d] is Capture,
        nodes[cur].dynamic_route is Some,
        nodes[cur].dynamic_route->0.label@ != pattern_of(route)[d]->Capture_0,
    ensures
        !conflict_free(patterns_of(declared.push(route))),
{
    let q = pattern_of(route);
    let patterns = patterns_of(declared);
    let edge = nodes[cur].dynamic_route->0;
    let c = edge.child as int;
    let a = edge.label@;
    let b = q[d]->Capture_0;
    let pre = prefixes[cur];
    lemma_patterns_push(declared, route);
    assert(prefixes[c] == pre.push(Segment::Capture(a)));
    assert(prefixes[c].len() == d + 1);
    assert(c != 0);
    assert(has_prefix(patterns, prefixes[c]));
    lemma_has_prefix_push(patterns, q, pre.push(Segment::Capture(a)));
    lemma_starts_with_push(q, pre, Segment::Capture(b));
    lemma_has_prefix_push(patterns, q, pre.push(Segment::Capture(b)));
}

/// Marking the node that the route ends at.
proof fn lemma_finish(
    nodes: Seq<RouteNode>,
    prefixes: Seq<Seq<Segment>>,
    nodes2: Seq<RouteNode>,
    declared: Seq<Seq<char>>,
    route: Seq<char>,
    cur: int,
)
    requires
        building(
            nodes,
            prefixes,
            declared,
            pattern_of(route),
            pattern_of(route).len() as int,
            cur,
        ),
        nodes2.len() == nodes.len(),
        forall|i: int| 0 <= i < nodes.len() && i != cur ==> nodes2[i] == nodes[i],
        nodes2[cur].static_routes == nodes[cur].static_routes,
        nodes2[cur].dynamic_route == nodes[cur].dynamic_route,
        nodes2[cur].target@ == route,
    ensures
        table_wf(nodes2, prefixes, declared.push(route)),
{
    let q = pattern_of(route);
    let d = q.len() as int;
    let patterns = patterns_of(declared);
    let declared2 = declared.push(route);
    let patterns2 = patterns_of(declared2);
    lemma_patterns_push(declared, route);
    assert forall|i: int| 0 <= i < nodes.len() implies (#[trigger] nodes2[i]).static_routes
        == nodes[i].static_routes && nodes2[i].dynamic_route == nodes[i].dynamic_route by {}
    assert(edges_sound(nodes2, prefixes)) by {
        assert forall|i: int, e: int|
            0 <= i < nodes2.len() && 0 <= e < nodes2[i].static_routes@.len() implies {
            let edge = #[trigger] nodes2[i].static_routes@[e];
            edge.child < nodes2.len() && prefixes[edge.child as int] == prefixes[i].push(
                Segment::Literal(edge.label@),
            )
        } by {
            assert(nodes2[i].static_routes@[e] == nodes[i].static_routes@[e]);
        }
        assert forall|i: int| 0 <= i < nodes2.len() implies match (
        #[trigger] nodes2[i]).dynamic_route {
            Some(edge) => edge.child < nodes2.len() && prefixes[edge.child as int]
                == prefixes[i].push(Segment::Capture(edge.label@)),
            None => true,
        } by {
            assert(nodes2[i].dynamic_route == nodes[i].dynamic_route);
        }
    }
    assert forall|i: int| 1 <= i < prefixes.len() implies has_prefix(
        patterns2,
        #[trigger] prefixes[i],
    ) by {
        lemma_has_prefix_push(patterns, q, prefixes[i]);
    }
    assert(complete(nodes2, prefixes, patterns2)) by {
        assert forall|i: int, seg: Segment|
            0 <= i < nodes2.len() && has_prefix(
                patterns2,
                #[trigger] prefixes[i].push(seg),
            ) implies has_edge(nodes2[i], seg) by {
            lemma_has_prefix_push(patterns, q, prefixes[i].push(seg));
            if starts_with(q, prefixes[i].push(seg)) {
                lemma_starts_with_push(q, prefixes[i], seg);
            }
            assert(has_edge(nodes[i], seg));
            assert(nodes2[i].static_routes == nodes[i].static_routes);
            assert(nodes2[i].dynamic_route == nodes[i].dynamic_route);
        }
    }
    assert(prefixes[cur] =~= q);
    assert(targets_right(nodes2, prefixes, declared2)) by {
        assert forall|i: int| 0 <= i < nodes2.len() implies (#[trigger] nodes2[i]).target@
            == target_of(declared2, prefixes[i], declared2.len() as int) by {
            lemma_target_push(declared, route, prefixes[i], declared.len() as int);
            assert(declared2[declared.len() as int] == route);
            if i != cur {
                assert(prefixes[i] != prefixes[cur]);
                assert(nodes[i].target@ == target_of(declared, prefixes[i], declared.len() as int));
            }
        }
    }
    assert(conflict_free(patterns2)) by {
        assert forall|prefix: Seq<Segment>, a: Seq<char>, b: Seq<char>|
            has_prefix(patterns2, #[trigger] prefix.push(Segment::Capture(a))) && has_prefix(
                patterns2,
                #[trigger] prefix.push(Segment::Capture(b)),
            ) implies a == b by {
            lemma_has_prefix_push(patterns, q, prefix.push(Segment::Capture(a)));
            lemma_has_prefix_push(patterns, q, prefix.push(Segment::Capture(b)));
            lemma_starts_with_push(q, prefix, Segment::Capture(a));
            lemma_starts_with_push(q, prefix, Segment::Capture(b));
        }
    }
}


/// Puts one more route into the trie.
fn add_route(
    nodes: &mut Vec<RouteNode>,
    Ghost(prefixes): Ghost<Seq<Seq<Segment>>>,
    Ghost(declared): Ghost<Seq<Seq<char>>>,
    route: &str,
) -> (r: Result<Ghost<Seq<Seq<Segment>>>, RouteError>)
    requires
        table_wf(old(nodes)@, prefixes, declared),
    ensures
        match r {
            Ok(p) => table_wf(final(nodes)@, p@, declared.push(route@)),
            Err(e) => e@ == route@ && !conflict_free(patterns_of(declared.push(route@))),
        },
{
    let segs = parse_pattern(route);
    let ghost q = pattern_of(route@);
    let ghost mut pre = prefixes;
    let mut cur: usize = 0;
    let mut d: usize = 0;
    proof {
        lemma_start(nodes@, pre, declared, q);
    }
    while d < segs.len()
        invariant
            building(nodes@, pre, declared, q, d as int, cur as int),
            segments_view(segs@) == q,
            q == pattern_of(route@),
            d <= segs.len(),
        decreases segs.len() - d,
    {
        assert(segs@[d as int].model() == q[d as int]);
        let ghost nodes0 = nodes@;
        let ghost x = pre[cur as int].push(q[d as int]);
        match &segs[d] {
            RouteSegment::Literal(label) => {
                match find_static(&nodes[cur], label.as_str()) {
                    Some(c) => {
                        proof {
                            lemma_follow(nodes@, pre, declared, q, d as int, cur as int, c as int);
                        }
                        cur = c;
                    },
                    None => {
                        let c = nodes.len();
                        nodes.push(
                            RouteNode {
                                target: String::new(),
                                static_routes: Vec::new(),
                                dynamic_route: None,
                            },
                        );
                        nodes[cur].static_routes.push(Edge { label: label.clone(), child: c });
                        proof {
                            let edges0 = nodes0[cur as int].static_routes@;
                            let edges2 = nodes@[cur as int].static_routes@;
                            assert(edges2[edges0.len() as int].label@ == label@);
                            assert forall|seg: Segment|
                                has_edge(nodes0[cur as int], seg) || seg
                                    == q[d as int] implies #[trigger] has_edge(
                                nodes@[cur as int],
                                seg,
                            ) by {
                                if seg == q[d as int] {
                                } else if seg is Literal {
                                    let e = choose|e: int|
                                        0 <= e < edges0.len() && (#[trigger] edges0[e]).label@
                                            == seg->Literal_0;
                                    assert(edges2[e] == edges0[e]);
                                }
                            }
                            let pre2 = pre.push(x);
                            assert(edges_sound(nodes@, pre2)) by {
                                assert forall|i: int, e: int|
                                    0 <= i < nodes@.len() && 0 <= e
                                        < nodes@[i].static_routes@.len() implies {
                                    let edge = #[trigger] nodes@[i].static_routes@[e];
                                    edge.child < nodes@.len() && pre2[edge.child as int]
                                        == pre2[i].push(Segment::Literal(edge.label@))
                                } by {
                                    if i == cur && e == edges0.len() {
                                    } else if i < c {
                                        assert(nodes@[i].static_routes@[e]
                                            == nodes0[i].static_routes@[e]);
                                    }
                                }
                                assert forall|i: int| 0 <= i < nodes@.len() implies match (
                                #[trigger] nodes@[i]).dynamic_route {
                                    Some(edge) => edge.child < nodes@.len()
                                        && pre2[edge.child as int] == pre2[i].push(
                                        Segment::Capture(edge.label@),
                                    ),
                                    None => true,
                                } by {
                                    if i < c {
                                        assert(nodes@[i].dynamic_route
                                            == nodes0[i].dynamic_route);
                                    }
                                }
                            }
                            lemma_grow(nodes0, pre, nodes@, declared, q, d as int, cur as int);
                            pre = pre2;
                        }
                        cur = c;
                    },
                }
            },
            RouteSegment::Capture(name) => {
                let existing: Option<(bool, usize)> = match &nodes[cur].dynamic_route {
                    Some(edge) => Some((str_eq(edge.label.as_str(), name.as_str()), edge.child)),
                    None => None,
                };
                match existing {
                    Some((same, c)) => {
                        if !same {
                            proof {
                                lemma_conflict(nodes@, pre, declared, route@, d as int, cur as int);
                            }
                            return Err(RouteError::CaptureConflict(route.to_owned()));
                        }
                        proof {
                            lemma_follow(nodes@, pre, declared, q, d as int, cur as int, c as int);
                        }
                        cur = c;
                    },
                    None => {
                        let c = nodes.len();
                        nodes.push(
                            RouteNode {
                                target: String::new(),
                                static_routes: Vec::new(),
                                dynamic_route: None,
                            },
                        );
                        nodes[cur].dynamic_route = Some(Edge { label: name.clone(), child: c });
                        proof {
                            assert forall|seg: Segment|
                                has_edge(nodes0[cur as int], seg) || seg
                                    == q[d as int] implies #[trigger] has_edge(
                                nodes@[cur as int],
                                seg,
                            ) by {
                                if seg is Literal && seg != q[d as int] {
                                    let edges0 = nodes0[cur as int].static_routes@;
                                    let e = choose|e: int|
                                        0 <= e < edges0.len() && (#[trigger] edges0[e]).label@
                                            == seg->Literal_0;
                                    assert(nodes@[cur as int].static_routes@[e] == edges0[e]);
                                }
                            }
                            let pre2 = pre.push(x);
                            assert(edges_sound(nodes@, pre2)) by {
                                assert forall|i: int, e: int|
                                    0 <= i < nodes@.len() && 0 <= e
                                        < nodes@[i].static_routes@.len() implies {
                                    let edge = #[trigger] nodes@[i].static_routes@[e];
                                    edge.child < nodes@.len() && pre2[edge.child as int]
                                        == pre2[i].push(Segment::Literal(edge.label@))
                                } by {
                                    if i < c {
                                        assert(nodes@[i].static_routes@[e]
                                            == nodes0[i].static_routes@[e]);
                                    }
                                }
                                assert forall|i: int| 0 <= i < nodes@.len() implies match (
                                #[trigger] nodes@[i]).dynamic_route {
                                    Some(edge) => edge.child < nodes@.len()
                                        && pre2[edge.child as int] == pre2[i].push(
                                        Segment::Capture(edge.label@),
                                    ),
                                    None => true,
                                } by {
                                    if i < c && i != cur {
                                        assert(nodes@[i].dynamic_route
                                            == nodes0[i].dynamic_route);
                                    }
                                }
                            }
                            lemma_grow(nodes0, pre, nodes@, declared, q, d as int, cur as int);
                            pre = pre2;
                        }
                        cur = c;
                    },
                }
            },
        }
        d += 1;
    }
    let ghost nodes1 = nodes@;
    nodes[cur].target = route.to_owned();
    proof {
        lemma_finish(nodes1, pre, nodes@, declared, route@, cur as int);
    }
    Ok(Ghost(pre))
}

/// A conflict among the first routes of a list is one of the whole list.
proof fn lemma_conflict_stays(declared: Seq<Seq<char>>, n: int)
    requires
        0 <= n <= declared.len(),
        !conflict_free(patterns_of(declared.take(n))),
    ensures
        !conflict_free(patterns_of(declared)),
{
    let part = patterns_of(declared.take(n));
    let whole = patterns_of(declared);
    assert forall|x: Seq<Segment>| has_prefix(part, x) implies has_prefix(whole, x) by {
        let j = choose|j: int| 0 <= j < part.len() && starts_with(#[trigger] part[j], x);
        assert(whole[j] == part[j]);
    }
}

/// Compiles the declared routes into a table. A list in which two routes
/// that agree up to some place hold captures of different names at that
/// place is refused, with the first route that so differs from an earlier
/// one.
pub fn init_routes(routes: &Vec<String>) -> (r: Result<RouteTable, RouteError>)
    ensures
        r is Ok == conflict_free(patterns_of(views(routes@))),
        match r {
            Ok(table) => table.declared() == views(routes@),
            Err(e) => exists|j: int|
                0 <= j < routes.len() && e@ == (#[trigger] routes@[j])@ && conflict_free(
                    patterns_of(views(routes@).take(j)),
                ) && !conflict_free(patterns_of(views(routes@).take(j + 1))),
        },
{
    let ghost declared = views(routes@);
    let mut nodes: Vec<RouteNode> = Vec::new();
    nodes.push(RouteNode { target: String::new(), static_routes: Vec::new(), dynamic_route: None });
    let mut kept: Vec<String> = Vec::new();
    let ghost mut pre: Seq<Seq<Segment>> = seq![Seq::<Segment>::empty()];
    let mut j: usize = 0;
    proof {
        assert(declared.take(0) =~= Seq::<Seq<char>>::empty());
        assert(views(kept@) =~= declared.take(0));
        assert(patterns_of(declared.take(0)) =~= Seq::<Seq<Segment>>::empty());
    }
    while j < routes.len()
        invariant
            j <= routes.len(),
            declared == views(routes@),
            views(kept@) == declared.take(j as int),
            table_wf(nodes@, pre, declared.take(j as int)),
        decreases routes.len() - j,
    {
        let route = &routes[j];
        proof {
            assert(declared.take(j as int).push(route@) =~= declared.take(j + 1));
        }
        match add_route(&mut nodes, Ghost(pre), Ghost(declared.take(j as int)), route.as_str()) {
            Err(e) => {
                proof {
                    lemma_conflict_stays(declared, j + 1);
                }
                return Err(e);
            },
            Ok(p) => {
                proof {
                    pre = p@;
                }
            },
        }
        kept.push(route.clone());
        proof {
            assert(views(kept@) =~= declared.take(j + 1));
        }
        j += 1;
    }
    proof {
        assert(declared.take(j as int) =~= declared);
    }
    Ok(RouteTable { routes: kept, nodes, prefixes: Ghost(pre) })
}


/// Whether no piece of `route` is a capture.
pub open spec fn is_static_route(route: Seq<char>) -> bool {
    forall|k: int|
        0 <= k < path_segments(route).len() ==> !is_capture(#[trigger] path_segments(route)[k])
}

proof fn lemma_walk_static(declared: Seq<Seq<char>>, j: int, n: int)
    requires
        0 <= j < declared.len(),
        is_static_route(declared[j]),
        0 <= n <= path_segments(declared[j]).len(),
    ensures
        walk(patterns_of(declared), path_segments(declared[j]), n) == Some(
            Walk {
                prefix: pattern_of(declared[j]).take(n),
                args: Map::<Seq<char>, Seq<char>>::empty(),
            },
        ),
    decreases n,
{
    let patterns = patterns_of(declared);
    let pieces = path_segments(declared[j]);
    let p = pattern_of(declared[j]);
    if n == 0 {
        assert(p.take(0) =~= Seq::<Segment>::empty());
    } else {
        lemma_walk_static(declared, j, n - 1);
        let pre = p.take(n - 1);
        assert(p[n - 1] == Segment::Literal(pieces[n - 1]));
        assert(pre.push(Segment::Literal(pieces[n - 1])) =~= p.take(n));
        assert(starts_with(patterns[j], p.take(n)));
    }
}

proof fn lemma_target_present(declared: Seq<Seq<char>>, pattern: Seq<Segment>, j: int, upto: int)
    requires
        0 <= j < upto <= declared.len(),
        pattern_of(declared[j]) == pattern,
    ensures
        exists|i: int|
            j <= i < upto && target_of(declared, pattern, upto) == #[trigger] declared[i]
                && pattern_of(declared[i]) == pattern,
        (forall|i: int| j < i < upto ==> pattern_of(#[trigger] declared[i]) != pattern)
            ==> target_of(declared, pattern, upto) == declared[j],
    decreases upto,
{
    if pattern_of(declared[upto - 1]) == pattern {
        assert(target_of(declared, pattern, upto) == declared[upto - 1]);
    } else {
        lemma_target_present(declared, pattern, j, upto - 1);
    }
}

/// The path of a declared route that holds no capture resolves to that
/// route and captures nothing. Where several declared routes have the same
/// pieces, the path resolves to the last of them.
pub proof fn lemma_static_route_resolves(declared: Seq<Seq<char>>, j: int)
    requires
        0 <= j < declared.len(),
        is_static_route(declared[j]),
    ensures
        resolve(declared, declared[j]).args == Map::<Seq<char>, Seq<char>>::empty(),
        exists|i: int|
            j <= i < declared.len() && resolve(declared, declared[j]).target
                == #[trigger] declared[i] && pattern_of(declared[i]) == pattern_of(declared[j]),
        (forall|i: int|
            j < i < declared.len() ==> pattern_of(#[trigger] declared[i]) != pattern_of(
                declared[j],
            )) ==> resolve(declared, declared[j]).target == declared[j],
{
    let pieces = path_segments(declared[j]);
    let p = pattern_of(declared[j]);
    lemma_walk_static(declared, j, pieces.len() as int);
    assert(p.take(pieces.len() as int) =~= p);
    lemma_target_present(declared, p, j, declared.len() as int);
}

/// A path that resolves to no route has captured nothing.
pub proof fn lemma_not_found_captures_nothing(declared: Seq<Seq<char>>, path: Seq<char>)
    requires
        resolve(declared, path).target.len() == 0,
    ensures
        resolve(declared, path).args == Map::<Seq<char>, Seq<char>>::empty(),
{
}

/// A literal shadows the capture: where some declared route goes on with
/// the piece itself, resolution takes that way, whatever captures stand
/// beside it.
pub proof fn lemma_literal_shadows_capture(
    patterns: Seq<Seq<Segment>>,
    prefix: Seq<Segment>,
    piece: Seq<char>,
)
    requires
        has_prefix(patterns, prefix.push(Segment::Literal(piece))),
    ensures
        step(patterns, prefix, piece) == Some(Segment::Literal(piece)),
{
}

/// A path with a piece that no declared route takes resolves to nothing and
/// captures nothing, whatever the pieces before it were.
pub proof fn lemma_unmatched_is_not_found(declared: Seq<Seq<char>>, path: Seq<char>, n: int)
    requires
        0 <= n <= path_segments(path).len(),
        walk(patterns_of(declared), path_segments(path), n) is None,
    ensures
        resolve(declared, path).target == Seq::<char>::empty(),
        resolve(declared, path).args == Map::<Seq<char>, Seq<char>>::empty(),
{
    lemma_walk_stays_none(
        patterns_of(declared),
        path_segments(path),
        n,
        path_segments(path).len() as int,
    );
}


/// Every character of a piece is one of the text.
proof fn lemma_piece_chars(s: Seq<char>, from: int)
    requires
        0 <= from,
    ensures
        forall|k: int, i: int|
            0 <= k < segments_from(s, from).len() && 0 <= i < segments_from(s, from)[k].len()
                ==> exists|j: int| 0 <= j < s.len() && s[j] == #[trigger] segments_from(
                s,
                from,
            )[k][i],
    decreases s.len() - from,
{
    if from < s.len() {
        let to = find_char(s, '/', from);
        lemma_find_char(s, '/', from);
        if to < s.len() {
            lemma_piece_chars(s, to + 1);
        }
        let rest = if to < s.len() {
            segments_from(s, to + 1)
        } else {
            Seq::empty()
        };
        assert forall|k: int, i: int|
            0 <= k < segments_from(s, from).len() && 0 <= i < segments_from(
                s,
                from,
            )[k].len() implies exists|j: int|
            0 <= j < s.len() && s[j] == #[trigger] segments_from(s, from)[k][i] by {
            if to > from {
                if k == 0 {
                    assert(s[from + i] == segments_from(s, from)[k][i]);
                } else {
                    assert(segments_from(s, from)[k] == rest[k - 1]);
                    let j = choose|j: int| 0 <= j < s.len() && s[j] == rest[k - 1][i];
                    assert(s[j] == segments_from(s, from)[k][i]);
                }
            } else {
                assert(segments_from(s, from)[k] == rest[k]);
                let j = choose|j: int| 0 <= j < s.len() && s[j] == rest[k][i];
                assert(s[j] == segments_from(s, from)[k][i]);
            }
        }
    }
}

/// A route without an opening brace holds no capture.
pub proof fn lemma_no_brace_is_static(route: Seq<char>)
    requires
        forall|j: int| 0 <= j < route.len() ==> route[j] != '{',
    ensures
        is_static_route(route),
{
    lemma_piece_chars(route, 0);
    assert forall|k: int| 0 <= k < path_segments(route).len() implies !is_capture(
        #[trigger] path_segments(route)[k],
    ) by {
        let piece = path_segments(route)[k];
        if is_capture(piece) {
            let j = choose|j: int| 0 <= j < route.len() && route[j] == segments_from(route, 0)[k][0];
            assert(route[j] == '{');
        }
    }
}

/// Routes without captures are never in conflict.
pub proof fn lemma_static_routes_conflict_free(declared: Seq<Seq<char>>)
    requires
        forall|j: int| 0 <= j < declared.len() ==> is_static_route(#[trigger] declared[j]),
    ensures
        conflict_free(patterns_of(declared)),
{
    let patterns = patterns_of(declared);
    assert forall|prefix: Seq<Segment>, a: Seq<char>, b: Seq<char>|
        has_prefix(patterns, #[trigger] prefix.push(Segment::Capture(a))) && has_prefix(
            patterns,
            #[trigger] prefix.push(Segment::Capture(b)),
        ) implies a == b by {
        let x = prefix.push(Segment::Capture(a));
        let j = choose|j: int| 0 <= j < patterns.len() && starts_with(#[trigger] patterns[j], x);
        let k = prefix.len() as int;
        assert(x[k] == patterns[j][k]);
        assert(is_static_route(declared[j]));
        assert(!is_capture(path_segments(declared[j])[k]));
    }
}

} // verus!
