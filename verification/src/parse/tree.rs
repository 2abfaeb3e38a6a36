//! The escaped, sentinel-delimited node stream that the item index and the
//! map share: three marker bytes, of which one escapes the byte after it.
//!
//! Where the definition of a node goes on behind a child, it first tests
//! that the bytes have become fewer. The test only shows that the
//! definition ends: `lemma_node_moves_forward` proves that it never fails.

use vstd::prelude::*;
use super::cursor::{le16, le32, outcome, outcome_view, ByteCursor};
use super::Error;

verus! {

/// The byte that opens a node.
pub const NODE_START: u8 = 0xFE;

/// The byte that closes a node.
pub const NODE_END: u8 = 0xFF;

/// The byte that makes the byte after it plain data.
pub const ESCAPE: u8 = 0xFD;

/// One unit of the node stream.
#[derive(Debug, Clone, Copy, PartialEq, Eq, Structural)]
pub enum Token {
    /// An unescaped start marker.
    Start,
    /// An unescaped end marker.
    End,
    /// A data byte: any other byte, or the byte behind an escape.
    Data(u8),
}

/// The first token of `s` and the bytes after it.
pub open spec fn token(s: Seq<u8>) -> Result<(Token, Seq<u8>), Error> {
    if s.len() < 1 {
        Err(Error::Truncated)
    } else if s[0] == ESCAPE {
        if s.len() < 2 {
            Err(Error::Truncated)
        } else {
            Ok((Token::Data(s[1]), s.skip(2)))
        }
    } else if s[0] == NODE_START {
        Ok((Token::Start, s.skip(1)))
    } else if s[0] == NODE_END {
        Ok((Token::End, s.skip(1)))
    } else {
        Ok((Token::Data(s[0]), s.skip(1)))
    }
}

/// The data byte at the head of `s`. A marker where data is due is
/// `Malformed`.
pub open spec fn data_u8(s: Seq<u8>) -> Result<(u8, Seq<u8>), Error> {
    match token(s) {
        Err(e) => Err(e),
        Ok((Token::Data(b), rest)) => Ok((b, rest)),
        Ok(_) => Err(Error::Malformed),
    }
}

/// The little-endian `u16` that the two data bytes at the head of `s` spell.
pub open spec fn data_u16(s: Seq<u8>) -> Result<(u16, Seq<u8>), Error> {
    match data_u8(s) {
        Err(e) => Err(e),
        Ok((b0, r0)) => match data_u8(r0) {
            Err(e) => Err(e),
            Ok((b1, r1)) => Ok((le16(b0, b1) as u16, r1)),
        },
    }
}

/// The little-endian `u32` that the four data bytes at the head of `s`
/// spell.
pub open spec fn data_u32(s: Seq<u8>) -> Result<(u32, Seq<u8>), Error> {
    match data_u16(s) {
        Err(e) => Err(e),
        Ok((lo, r0)) => match data_u16(r0) {
            Err(e) => Err(e),
            Ok((hi, r1)) => Ok(((lo as int + 65536 * (hi as int)) as u32, r1)),
        },
    }
}

/// The bytes of `s` after its first `n` data bytes.
pub open spec fn data_skip(s: Seq<u8>, n: nat) -> Result<Seq<u8>, Error>
    decreases n,
{
    if n == 0 {
        Ok(s)
    } else {
        match data_u8(s) {
            Err(e) => Err(e),
            Ok((_, rest)) => data_skip(rest, (n - 1) as nat),
        }
    }
}

/// The bytes of `s` after a string: a `u16` length and that many data bytes.
pub open spec fn data_skip_string(s: Seq<u8>) -> Result<Seq<u8>, Error> {
    match data_u16(s) {
        Err(e) => Err(e),
        Ok((n, rest)) => data_skip(rest, n as nat),
    }
}

/// The bytes of `s` after the end marker that closes the node which `s` is
/// inside of, at `depth` open nodes below it.
pub open spec fn skip_node(s: Seq<u8>, depth: nat) -> Result<Seq<u8>, Error>
    decreases s.len(),
{
    match token(s) {
        Err(e) => Err(e),
        Ok((Token::Start, rest)) => skip_node(rest, depth + 1),
        Ok((Token::End, rest)) => if depth == 0 {
            Ok(rest)
        } else {
            skip_node(rest, (depth - 1) as nat)
        },
        Ok((Token::Data(_), rest)) => skip_node(rest, depth),
    }
}

/// Passing over data bytes never moves backward, and moves forward when
/// there is a byte to pass over.
pub proof fn lemma_data_skip_moves_forward(s: Seq<u8>, n: nat)
    ensures
        data_skip(s, n) matches Ok(rest) ==> rest.len() <= s.len() && (n > 0 ==> rest.len()
            < s.len()),
    decreases n,
{
    if n > 0 {
        match data_u8(s) {
            Ok((_, rest)) => lemma_data_skip_moves_forward(rest, (n - 1) as nat),
            Err(_) => {},
        }
    }
}

/// Passing over the rest of a node moves forward.
pub proof fn lemma_skip_node_moves_forward(s: Seq<u8>, depth: nat)
    ensures
        skip_node(s, depth) matches Ok(rest) ==> rest.len() < s.len(),
    decreases s.len(),
{
    match token(s) {
        Ok((Token::Start, rest)) => lemma_skip_node_moves_forward(rest, depth + 1),
        Ok((Token::End, rest)) => if depth > 0 {
            lemma_skip_node_moves_forward(rest, (depth - 1) as nat);
        },
        Ok((Token::Data(_), rest)) => lemma_skip_node_moves_forward(rest, depth),
        Err(_) => {},
    }
}

/// Reads one token: see [`token`].
pub fn read_token(cursor: &mut ByteCursor) -> (r: Result<Token, Error>)
    ensures
        outcome(token(old(cursor)@), r, final(cursor)@),
        r is Ok ==> final(cursor)@.len() < old(cursor)@.len(),
{
    let byte = cursor.read_u8()?;
    if byte == ESCAPE {
        let literal = cursor.read_u8()?;
        assert(cursor@ =~= old(cursor)@.skip(2));
        Ok(Token::Data(literal))
    } else if byte == NODE_START {
        Ok(Token::Start)
    } else if byte == NODE_END {
        Ok(Token::End)
    } else {
        Ok(Token::Data(byte))
    }
}

/// Reads one data byte: see [`data_u8`].
pub fn read_data_u8(cursor: &mut ByteCursor) -> (r: Result<u8, Error>)
    ensures
        outcome(data_u8(old(cursor)@), r, final(cursor)@),
        r is Ok ==> final(cursor)@.len() < old(cursor)@.len(),
{
    match read_token(cursor)? {
        Token::Data(b) => Ok(b),
        _ => Err(Error::Malformed),
    }
}

/// Reads a little-endian `u16` from data bytes: see [`data_u16`].
pub fn read_data_u16(cursor: &mut ByteCursor) -> (r: Result<u16, Error>)
    ensures
        outcome(data_u16(old(cursor)@), r, final(cursor)@),
        r is Ok ==> final(cursor)@.len() < old(cursor)@.len(),
{
    let b0 = read_data_u8(cursor)?;
    let b1 = read_data_u8(cursor)?;
    Ok(b0 as u16 + 256 * (b1 as u16))
}

/// Reads a little-endian `u32` from data bytes: see [`data_u32`].
pub fn read_data_u32(cursor: &mut ByteCursor) -> (r: Result<u32, Error>)
    ensures
        outcome(data_u32(old(cursor)@), r, final(cursor)@),
        r is Ok ==> final(cursor)@.len() < old(cursor)@.len(),
{
    let lo = read_data_u16(cursor)?;
    let hi = read_data_u16(cursor)?;
    Ok(lo as u32 + 65536 * (hi as u32))
}

/// Moves past `n` data bytes: see [`data_skip`].
pub fn skip_data(cursor: &mut ByteCursor, n: u16) -> (r: Result<(), Error>)
    ensures
        match data_skip(old(cursor)@, n as nat) {
            Ok(rest) => r is Ok && final(cursor)@ == rest,
            Err(e) => r == Err::<(), Error>(e),
        },
        r is Ok ==> final(cursor)@.len() <= old(cursor)@.len(),
{
    let mut left = n;
    while left > 0
        invariant
            data_skip(cursor@, left as nat) == data_skip(old(cursor)@, n as nat),
            cursor@.len() <= old(cursor)@.len(),
        decreases left,
    {
        let _byte = read_data_u8(cursor)?;
        left = left - 1;
    }
    Ok(())
}

/// Moves past a length-prefixed string: see [`data_skip_string`].
pub fn skip_data_string(cursor: &mut ByteCursor) -> (r: Result<(), Error>)
    ensures
        match data_skip_string(old(cursor)@) {
            Ok(rest) => r is Ok && final(cursor)@ == rest,
            Err(e) => r == Err::<(), Error>(e),
        },
        r is Ok ==> final(cursor)@.len() < old(cursor)@.len(),
{
    let n = read_data_u16(cursor)?;
    skip_data(cursor, n)
}

/// Moves past the rest of the node that the cursor is inside of, its end
/// marker included: see [`skip_node`].
pub fn skip_rest_of_node(cursor: &mut ByteCursor) -> (r: Result<(), Error>)
    ensures
        match skip_node(old(cursor)@, 0) {
            Ok(rest) => r is Ok && final(cursor)@ == rest,
            Err(e) => r == Err::<(), Error>(e),
        },
        r is Ok ==> final(cursor)@.len() < old(cursor)@.len(),
{
    let total = cursor.remaining();
    let mut depth: usize = 0;
    loop
        invariant
            skip_node(cursor@, depth as nat) == skip_node(old(cursor)@, 0),
            cursor@.len() + depth <= old(cursor)@.len() == total,
        decreases cursor@.len(),
    {
        match read_token(cursor)? {
            Token::Start => {
                depth = depth + 1;
            },
            Token::End => {
                if depth == 0 {
                    return Ok(());
                }
                depth = depth - 1;
            },
            Token::Data(_) => {},
        }
    }
}

/// A node of the generic tree: its own payload, unescaped, and its children
/// in stream order.
#[derive(Debug)]
pub struct Node {
    pub payload: Vec<u8>,
    pub children: Vec<Node>,
}

/// The mathematical value of a [`Node`].
pub struct NodeView {
    pub payload: Seq<u8>,
    pub children: Seq<NodeView>,
}

/// The value of a node: its payload and the values of its children.
pub open spec fn node_view(node: Node) -> NodeView
    decreases node,
{
    NodeView {
        payload: node.payload@,
        children: Seq::new(
            node.children@.len(),
            |i: int|
                if 0 <= i < node.children@.len() {
                    node_view(node.children@[i])
                } else {
                    arbitrary()
                },
        ),
    }
}

/// The values of a list of nodes.
pub open spec fn node_views(nodes: Seq<Node>) -> Seq<NodeView> {
    Seq::new(nodes.len(), |i: int| node_view(nodes[i]))
}

impl View for Node {
    type V = NodeView;

    open spec fn view(&self) -> NodeView {
        node_view(*self)
    }
}

/// The payload at the head of `s`, after the bytes `payload` already read:
/// every data byte up to the next marker. Gives the payload, whether that
/// marker opens a child, and the bytes after the marker.
pub open spec fn payload_from(s: Seq<u8>, payload: Seq<u8>) -> Result<
    ((Seq<u8>, bool), Seq<u8>),
    Error,
>
    decreases s.len(),
{
    match token(s) {
        Err(e) => Err(e),
        Ok((Token::Data(b), rest)) => payload_from(rest, payload.push(b)),
        Ok((Token::Start, rest)) => Ok(((payload, true), rest)),
        Ok((Token::End, rest)) => Ok(((payload, false), rest)),
    }
}

/// The node whose start marker stands just before `s`: its payload, then
/// its children, then its end marker.
pub open spec fn node_from(s: Seq<u8>) -> Result<(NodeView, Seq<u8>), Error>
    decreases s.len(), 1int,
{
    match payload_from(s, Seq::empty()) {
        Err(e) => Err(e),
        Ok(((payload, opens), rest)) => if rest.len() < s.len() {
            match children_from(rest, opens, Seq::empty()) {
                Err(e) => Err(e),
                Ok((children, rest2)) => Ok((NodeView { payload, children }, rest2)),
            }
        } else {
            Err(Error::Malformed)
        },
    }
}

/// The children that follow the list `children` inside one node. `opens`
/// says whether the marker just before `s` opened another child or closed
/// the node. Between two children and after the last one only a marker may
/// stand: a data byte there is `Malformed`.
pub open spec fn children_from(s: Seq<u8>, opens: bool, children: Seq<NodeView>) -> Result<
    (Seq<NodeView>, Seq<u8>),
    Error,
>
    decreases s.len(), 2int,
{
    if !opens {
        Ok((children, s))
    } else {
        match node_from(s) {
            Err(e) => Err(e),
            Ok((child, rest)) => match token(rest) {
                Err(e) => Err(e),
                Ok((Token::Data(_), _)) => Err(Error::Malformed),
                Ok((marker, rest2)) => if rest2.len() < s.len() {
                    children_from(rest2, marker == Token::Start, children.push(child))
                } else {
                    Err(Error::Malformed)
                },
            },
        }
    }
}

/// Reading a payload moves forward.
pub proof fn lemma_payload_moves_forward(s: Seq<u8>, payload: Seq<u8>)
    ensures
        payload_from(s, payload) matches Ok((_, rest)) ==> rest.len() < s.len(),
    decreases s.len(),
{
    match token(s) {
        Ok((Token::Data(b), rest)) => lemma_payload_moves_forward(rest, payload.push(b)),
        _ => {},
    }
}

/// Reading a node moves forward, and reading the rest of a list of
/// children never moves backward: the tests of the lengths in
/// [`node_from`] and [`children_from`] never fail.
pub proof fn lemma_node_moves_forward(s: Seq<u8>, opens: bool, children: Seq<NodeView>)
    ensures
        node_from(s) matches Ok((_, rest)) ==> rest.len() < s.len(),
        children_from(s, opens, children) matches Ok((_, rest)) ==> rest.len() <= s.len(),
    decreases s.len(),
{
    lemma_payload_moves_forward(s, Seq::empty());
    match payload_from(s, Seq::empty()) {
        Ok(((_, o), rest)) => {
            lemma_node_moves_forward(rest, o, Seq::empty());
        },
        _ => {},
    }
    if opens {
        match node_from(s) {
            Ok((child, rest)) => match token(rest) {
                Ok((Token::Data(_), _)) => {},
                Ok((marker, rest2)) => {
                    lemma_node_moves_forward(rest2, marker == Token::Start, children.push(child));
                },
                _ => {},
            },
            _ => {},
        }
    }
}

/// Reads a node's payload up to the next marker: see [`payload_from`].
fn read_payload(cursor: &mut ByteCursor) -> (r: Result<(Vec<u8>, bool), Error>)
    ensures
        match (payload_from(old(cursor)@, Seq::empty()), r) {
            (Ok(((payload, opens), rest)), Ok((p, o))) => p@ == payload && o == opens
                && final(cursor)@ == rest,
            (Err(e), Err(x)) => x == e,
            _ => false,
        },
{
    let mut payload: Vec<u8> = Vec::new();
    loop
        invariant
            payload_from(cursor@, payload@) == payload_from(old(cursor)@, Seq::empty()),
        decreases cursor@.len(),
    {
        match read_token(cursor)? {
            Token::Data(b) => {
                payload.push(b);
            },
            Token::Start => {
                return Ok((payload, true));
            },
            Token::End => {
                return Ok((payload, false));
            },
        }
    }
}

/// A node with the payload `payload` and the children that `children`
/// gives, or the error that it gives.
pub open spec fn closed_node(payload: Seq<u8>, children: Result<(Seq<NodeView>, Seq<u8>), Error>) -> Result<
    (NodeView, Seq<u8>),
    Error,
> {
    match children {
        Err(e) => Err(e),
        Ok((all, rest)) => Ok((NodeView { payload, children: all }, rest)),
    }
}

/// What becomes of the nodes `open`, each still waiting for a child, once
/// the innermost child is read with the outcome `child`: the child joins
/// the children of the last open node, which goes on with its own
/// children and, once closed, is the child of the open node before it.
/// The first open node is the result.
pub open spec fn resumed(open: Seq<NodeView>, child: Result<(NodeView, Seq<u8>), Error>) -> Result<
    (NodeView, Seq<u8>),
    Error,
>
    decreases open.len(),
{
    if open.len() == 0 {
        child
    } else {
        match child {
            Err(e) => Err(e),
            Ok((node, rest)) => match token(rest) {
                Err(e) => Err(e),
                Ok((Token::Data(_), _)) => Err(Error::Malformed),
                Ok((marker, rest2)) => resumed(
                    open.drop_last(),
                    closed_node(
                        open.last().payload,
                        children_from(
                            rest2,
                            marker == Token::Start,
                            open.last().children.push(node),
                        ),
                    ),
                ),
            },
        }
    }
}

/// To go on with the children of a node that opens another child is to
/// put the node among the open ones and read the child.
pub proof fn lemma_resumed_child(
    open: Seq<NodeView>,
    payload: Seq<u8>,
    children: Seq<NodeView>,
    s: Seq<u8>,
)
    ensures
        resumed(open, closed_node(payload, children_from(s, true, children))) == resumed(
            open.push(NodeView { payload, children }),
            node_from(s),
        ),
{
    let wider = open.push(NodeView { payload, children });
    assert(wider.drop_last() =~= open);
    lemma_node_moves_forward(s, true, children);
    match node_from(s) {
        Ok((_, rest)) => match token(rest) {
            Ok((Token::Data(_), _)) => {},
            Ok((_, _)) => {},
            Err(_) => {},
        },
        Err(_) => {},
    }
}

/// Reads the node whose start marker was just read: see [`node_from`].
///
/// Nodes that are still open are kept on a stack of their own, so that a
/// stream of deeply nested nodes does not nest calls; where reading fails,
/// what was read is taken apart in the same way.
pub fn read_node(cursor: &mut ByteCursor) -> (r: Result<Node, Error>)
    ensures
        outcome_view(node_from(old(cursor)@), r, final(cursor)@),
{
    let mut open: Vec<Node> = Vec::new();
    assert(node_views(open@) =~= Seq::<NodeView>::empty());
    loop
        invariant
            resumed(node_views(open@), node_from(cursor@)) == node_from(old(cursor)@),
        decreases cursor@.len(),
    {
        let ghost fresh = cursor@;
        proof {
            lemma_payload_moves_forward(fresh, Seq::empty());
        }
        let (payload, opens) = match read_payload(cursor) {
            Ok(read) => read,
            Err(e) => {
                return give_up(open, None, e);
            },
        };
        let mut node = Node { payload, children: Vec::new() };
        assert(node_view(node).children =~= Seq::<NodeView>::empty());
        if opens {
            proof {
                lemma_resumed_child(node_views(open@), node@.payload, Seq::empty(), cursor@);
            }
            let ghost waiting = open@;
            open.push(node);
            assert(node_views(open@) =~= node_views(waiting).push(node@));
        } else {
            loop
                invariant_except_break
                    resumed(node_views(open@), Ok((node@, cursor@))) == node_from(old(cursor)@),
                invariant
                    cursor@.len() < fresh.len(),
                ensures
                    resumed(node_views(open@), node_from(cursor@)) == node_from(old(cursor)@),
                decreases open@.len(),
            {
                let ghost waiting = open@;
                let ghost child = node@;
                let ghost at = cursor@;
                match open.pop() {
                    None => {
                        return Ok(node);
                    },
                    Some(parent) => {
                        let mut parent = parent;
                        assert(node_views(open@) =~= node_views(waiting).drop_last());
                        assert(node_views(waiting).last() == parent@);
                        let ghost before = parent@;
                        parent.children.push(node);
                        assert(node_view(parent).children =~= before.children.push(child));
                        assert(node_view(parent).payload == before.payload);
                        match read_token(cursor) {
                            Err(e) => {
                                return give_up(open, Some(parent), e);
                            },
                            Ok(Token::Data(_)) => {
                                return give_up(open, Some(parent), Error::Malformed);
                            },
                            Ok(Token::End) => {
                                node = parent;
                            },
                            Ok(Token::Start) => {
                                proof {
                                    lemma_resumed_child(
                                        node_views(open@),
                                        before.payload,
                                        before.children.push(child),
                                        cursor@,
                                    );
                                }
                                let ghost rest = open@;
                                open.push(parent);
                                assert(node_views(open@) =~= node_views(rest).push(parent@));
                                break ;
                            },
                        }
                    },
                }
            }
        }
    }
}

/// The number of nodes of a tree.
pub open spec fn node_count(node: Node) -> nat
    decreases node, 0int,
{
    1 + nodes_count(node.children@, node.children@.len() as int)
}

/// The number of nodes of the first `n` trees of a list.
pub open spec fn nodes_count(nodes: Seq<Node>, n: int) -> nat
    decreases nodes, n,
{
    if n <= 0 || n > nodes.len() {
        0
    } else {
        nodes_count(nodes, n - 1) + node_count(nodes[n - 1])
    }
}

/// Takes trees apart node by node, so that no node is dropped while it
/// still has children: however deep the trees are, dropping them this way
/// does not nest calls.
pub(crate) fn dismantle_all(nodes: Vec<Node>) {
    let mut work = nodes;
    loop
        invariant
            true,
        decreases nodes_count(work@, work@.len() as int),
    {
        let ghost before = work@;
        match work.pop() {
            None => {
                return ;
            },
            Some(next) => {
                let mut next = next;
                assert(before.drop_last() =~= work@);
                assert(nodes_count(before, before.len() as int) == nodes_count(
                    before,
                    before.len() - 1,
                ) + node_count(next));
                proof {
                    lemma_nodes_count_prefix(before, work@, work@.len() as int);
                }
                let ghost target = nodes_count(before, before.len() as int) - 1;
                loop
                    invariant
                        nodes_count(work@, work@.len() as int) + nodes_count(
                            next.children@,
                            next.children@.len() as int,
                        ) == target,
                    ensures
                        nodes_count(work@, work@.len() as int) == target,
                    decreases next.children@.len(),
                {
                    let ghost left = next.children@;
                    let ghost done = work@;
                    match next.children.pop() {
                        None => {
                            break ;
                        },
                        Some(child) => {
                            proof {
                                lemma_nodes_count_prefix(left, next.children@, left.len() - 1);
                            }
                            work.push(child);
                            proof {
                                lemma_nodes_count_prefix(work@, done, done.len() as int);
                            }
                        },
                    }
                }
            },
        }
    }
}

/// Takes one tree apart: see [`dismantle_all`].
pub(crate) fn dismantle(node: Node) {
    let mut work: Vec<Node> = Vec::new();
    work.push(node);
    dismantle_all(work);
}

/// Fails with `error`, after taking apart what was read so far.
fn give_up(open: Vec<Node>, node: Option<Node>, error: Error) -> (r: Result<Node, Error>)
    ensures
        r == Err::<Node, Error>(error),
{
    dismantle_all(open);
    match node {
        Some(n) => dismantle(n),
        None => {},
    }
    Err(error)
}

/// The number of nodes of the first `n` trees of a list depends on those
/// trees only.
pub proof fn lemma_nodes_count_prefix(a: Seq<Node>, b: Seq<Node>, n: int)
    requires
        0 <= n <= a.len(),
        n <= b.len(),
        forall|i: int| 0 <= i < n ==> a[i] == b[i],
    ensures
        nodes_count(a, n) == nodes_count(b, n),
    decreases n,
{
    if n > 0 {
        lemma_nodes_count_prefix(a, b, n - 1);
    }
}

} // verus!
