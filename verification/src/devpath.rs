//! Synthesizing the addressing path of the boot file.
//!
//! An addressing path is an ordered sequence of nodes, each carrying a
//! four-byte header (type, sub-type, 16-bit little-endian total length)
//! followed by its payload. The synthesizer copies every node of the
//! partition's own path, appends one file node naming the boot file in
//! wide characters, and closes the path with the canonical terminator
//! node — all within a bounded scratch capacity, failing cleanly when
//! the nodes would not fit.

use vstd::prelude::*;

verus! {

/// One node of an addressing path: header fields plus payload bytes.
pub struct PathNode {
    pub node_type: u8,
    pub sub_type: u8,
    pub data: Vec<u8>,
}

impl PathNode {
    /// The node's total length fits its 16-bit header field.
    pub open spec fn wf(&self) -> bool {
        self.data@.len() + 4 <= 0xFFFF
    }

    /// Total wire size of the node: header plus payload.
    pub open spec fn size(&self) -> int {
        self.data@.len() as int + 4
    }
}

/// A 16-bit value as its two little-endian bytes.
pub open spec fn le16_bytes(v: u16) -> Seq<u8> {
    seq![(v % 256) as u8, (v / 256) as u8]
}

/// The wire form of one node.
pub open spec fn node_bytes(n: PathNode) -> Seq<u8> {
    seq![n.node_type, n.sub_type] + le16_bytes(n.size() as u16) + n.data@
}

/// Total wire size of a node sequence.
pub open spec fn nodes_size(s: Seq<PathNode>) -> int
    decreases s.len(),
{
    if s.len() == 0 {
        0
    } else {
        nodes_size(s.drop_last()) + s.last().size()
    }
}

/// The wire form of a node sequence: each node's bytes in order.
pub open spec fn path_bytes(s: Seq<PathNode>) -> Seq<u8>
    decreases s.len(),
{
    if s.len() == 0 {
        Seq::empty()
    } else {
        path_bytes(s.drop_last()) + node_bytes(s.last())
    }
}

/// A wide-character string as little-endian byte pairs.
pub open spec fn wide_bytes(s: Seq<u16>) -> Seq<u8>
    decreases s.len(),
{
    if s.len() == 0 {
        Seq::empty()
    } else {
        wide_bytes(s.drop_last()) + le16_bytes(s.last())
    }
}

/// The node naming the boot file: media type, file-path sub-type, and
/// the null-terminated wide pathname as payload.
pub open spec fn is_file_node(n: PathNode, path: Seq<u16>) -> bool {
    n.node_type == 4 && n.sub_type == 4 && n.data@ == wide_bytes(path.push(0))
}

/// The canonical end-of-path terminator node.
pub open spec fn is_end_node(n: PathNode) -> bool {
    n.node_type == 0x7f && n.sub_type == 0xff && n.data@.len() == 0
}

/// Two nodes carry the same header fields and the same payload bytes.
pub open spec fn node_eq(a: PathNode, b: PathNode) -> bool {
    a.node_type == b.node_type && a.sub_type == b.sub_type && a.data@ == b.data@
}

/// Appending one element extends the wide byte form by its two bytes.
proof fn lemma_wide_bytes_push(s: Seq<u16>, x: u16)
    ensures
        wide_bytes(s.push(x)) == wide_bytes(s) + le16_bytes(x),
{
    assert(s.push(x).drop_last() =~= s);
}

/// The wide byte form is twice as long as the string.
proof fn lemma_wide_bytes_len(s: Seq<u16>)
    ensures
        wide_bytes(s).len() == 2 * s.len(),
    decreases s.len(),
{
    if s.len() > 0 {
        lemma_wide_bytes_len(s.drop_last());
    }
}

/// Appending one node adds its size to the total.
proof fn lemma_nodes_size_push(s: Seq<PathNode>, x: PathNode)
    ensures
        nodes_size(s.push(x)) == nodes_size(s) + x.size(),
{
    assert(s.push(x).drop_last() =~= s);
}

/// Appending one node extends the wire form by its bytes.
proof fn lemma_path_bytes_push(s: Seq<PathNode>, x: PathNode)
    ensures
        path_bytes(s.push(x)) == path_bytes(s) + node_bytes(x),
{
    assert(s.push(x).drop_last() =~= s);
}

/// A prefix of a node sequence never outweighs the whole.
proof fn lemma_nodes_size_prefix(s: Seq<PathNode>, i: int)
    requires
        0 <= i <= s.len(),
    ensures
        nodes_size(s.take(i)) <= nodes_size(s),
    decreases s.len() - i,
{
    if i == s.len() {
        assert(s.take(i) =~= s);
    } else {
        assert(s.take(i + 1).drop_last() =~= s.take(i));
        assert(s.take(i + 1) =~= s.take(i).push(s[i]));
        lemma_nodes_size_push(s.take(i), s[i]);
        lemma_nodes_size_prefix(s, i + 1);
    }
}

/// Copy one node, byte for byte.
fn copy_node(n: &PathNode) -> (r: PathNode)
    ensures
        node_eq(r, *n),
{
    let mut data: Vec<u8> = Vec::new();
    let mut i: usize = 0;
    while i < n.data.len()
        invariant
            i <= n.data@.len(),
            data@ == n.data@.take(i as int),
        decreases n.data@.len() - i,
    {
        data.push(n.data[i]);
        proof {
            assert(n.data@.take(i + 1) =~= n.data@.take(i as int).push(n.data@[i as int]));
        }
        i += 1;
    }
    proof {
        assert(n.data@.take(n.data@.len() as int) =~= n.data@);
    }
    PathNode { node_type: n.node_type, sub_type: n.sub_type, data }
}

/// Build the node naming the boot file from its wide pathname.
fn make_file_node(path: &Vec<u16>) -> (r: PathNode)
    requires
        2 * path@.len() + 6 <= 0xFFFF,
    ensures
        is_file_node(r, path@),
        r.wf(),
        r.size() == 2 * path@.len() + 6,
{
    let mut data: Vec<u8> = Vec::new();
    let mut i: usize = 0;
    while i < path.len()
        invariant
            i <= path@.len(),
            2 * path@.len() + 6 <= 0xFFFF,
            data@ == wide_bytes(path@.take(i as int)),
        decreases path@.len() - i,
    {
        let c: u16 = path[i];
        data.push((c % 256) as u8);
        data.push((c / 256) as u8);
        proof {
            assert(path@.take(i + 1) =~= path@.take(i as int).push(path@[i as int]));
            lemma_wide_bytes_push(path@.take(i as int), path@[i as int]);
            assert(data@ =~= wide_bytes(path@.take(i + 1)));
        }
        i += 1;
    }
    proof {
        assert(path@.take(path@.len() as int) =~= path@);
    }
    data.push(0);
    data.push(0);
    proof {
        lemma_wide_bytes_push(path@, 0u16);
        assert(data@ =~= wide_bytes(path@.push(0)));
        lemma_wide_bytes_len(path@.push(0));
    }
    PathNode { node_type: 4, sub_type: 4, data }
}

/// Build the end-of-path terminator node.
fn make_end_node() -> (r: PathNode)
    ensures
        is_end_node(r),
        r.wf(),
        r.size() == 4,
{
    PathNode { node_type: 0x7f, sub_type: 0xff, data: Vec::new() }
}

/// Why path construction failed.
#[derive(Clone, Copy, Debug, PartialEq, Eq, Structural)]
pub enum PathError {
    /// The nodes would not fit the bounded scratch capacity.
    CapacityExceeded,
}

/// A complete synthesized addressing path.
pub struct TargetPath {
    pub nodes: Vec<PathNode>,
}

impl TargetPath {
    /// Every node's length fits its header field.
    pub open spec fn wf(&self) -> bool {
        forall|i: int| 0 <= i < self.nodes@.len() ==> (#[trigger] self.nodes@[i]).wf()
    }

    /// Serialize the path to its wire form, node bytes in order.
    pub fn to_bytes(&self) -> (r: Vec<u8>)
        requires
            self.wf(),
        ensures
            r@ == path_bytes(self.nodes@),
    {
        let mut out: Vec<u8> = Vec::new();
        let mut i: usize = 0;
        while i < self.nodes.len()
            invariant
                i <= self.nodes@.len(),
                self.wf(),
                out@ == path_bytes(self.nodes@.take(i as int)),
            decreases self.nodes@.len() - i,
        {
            let node = &self.nodes[i];
            let len: usize = node.data.len() + 4;
            out.push(node.node_type);
            out.push(node.sub_type);
            out.push((len % 256) as u8);
            out.push((len / 256) as u8);
            let mut j: usize = 0;
            while j < node.data.len()
                invariant
                    j <= node.data@.len(),
                    node == self.nodes@[i as int],
                    i < self.nodes@.len(),
                    self.wf(),
                    out@ == path_bytes(self.nodes@.take(i as int)) + seq![
                        node.node_type,
                        node.sub_type,
                    ] + le16_bytes(node.size() as u16) + node.data@.take(j as int),
                decreases node.data@.len() - j,
            {
                out.push(node.data[j]);
                proof {
                    assert(node.data@.take(j + 1) =~= node.data@.take(j as int).push(
                        node.data@[j as int],
                    ));
                    assert(out@ =~= path_bytes(self.nodes@.take(i as int)) + seq![
                        node.node_type,
                        node.sub_type,
                    ] + le16_bytes(node.size() as u16) + node.data@.take(j + 1));
                }
                j += 1;
            }
            proof {
                assert(node.data@.take(node.data@.len() as int) =~= node.data@);
                assert(self.nodes@.take(i + 1) =~= self.nodes@.take(i as int).push(
                    self.nodes@[i as int],
                ));
                lemma_path_bytes_push(self.nodes@.take(i as int), self.nodes@[i as int]);
                assert(out@ =~= path_bytes(self.nodes@.take(i + 1)));
            }
            i += 1;
        }
        proof {
            assert(self.nodes@.take(self.nodes@.len() as int) =~= self.nodes@);
        }
        out
    }
}

/// The shape of a correctly synthesized path: every source node copied
/// in order and unchanged, then the file node, then the terminator.
pub open spec fn synthesized(p: TargetPath, source: Seq<PathNode>, file_path: Seq<u16>) -> bool {
    &&& p.wf()
    &&& p.nodes@.len() == source.len() + 2
    &&& (forall|i: int| 0 <= i < source.len() ==> node_eq(#[trigger] p.nodes@[i], source[i]))
    &&& is_file_node(p.nodes@[source.len() as int], file_path)
    &&& is_end_node(p.nodes@[source.len() as int + 1])
}

/// Synthesize the complete addressing path of the boot file: every
/// source node copied in order, then the file node, then the
/// terminator, all within the scratch capacity.
///
/// Succeeds exactly when the three parts together fit the capacity;
/// a path that would overflow the scratch buffer is rejected rather
/// than truncated.
pub fn synthesize_path(source: &Vec<PathNode>, file_path: &Vec<u16>, capacity: usize) -> (r: Result<
    TargetPath,
    PathError,
>)
    requires
        forall|i: int| 0 <= i < source@.len() ==> (#[trigger] source@[i]).wf(),
        2 * file_path@.len() + 6 <= 0xFFFF,
    ensures
        r is Ok <==> nodes_size(source@) + 2 * file_path@.len() + 10 <= capacity,
        r matches Ok(p) ==> synthesized(p, source@, file_path@) && nodes_size(p.nodes@)
            == nodes_size(source@) + 2 * file_path@.len() + 10,
{
    let mut nodes: Vec<PathNode> = Vec::new();
    let mut used: usize = 0;
    let mut i: usize = 0;
    while i < source.len()
        invariant
            i <= source@.len(),
            forall|k: int| 0 <= k < source@.len() ==> (#[trigger] source@[k]).wf(),
            nodes@.len() == i,
            forall|k: int| 0 <= k < i ==> node_eq(#[trigger] nodes@[k], source@[k]),
            used == nodes_size(source@.take(i as int)),
            nodes_size(nodes@) == used,
            used <= capacity,
        decreases source@.len() - i,
    {
        let sz: usize = source[i].data.len() + 4;
        if sz > capacity - used {
            proof {
                assert(source@.take(i + 1) =~= source@.take(i as int).push(source@[i as int]));
                lemma_nodes_size_push(source@.take(i as int), source@[i as int]);
                lemma_nodes_size_prefix(source@, i + 1);
            }
            return Err(PathError::CapacityExceeded);
        }
        used = used + sz;
        let c = copy_node(&source[i]);
        proof {
            assert(source@.take(i + 1) =~= source@.take(i as int).push(source@[i as int]));
            lemma_nodes_size_push(source@.take(i as int), source@[i as int]);
            lemma_nodes_size_push(nodes@, c);
        }
        nodes.push(c);
        i += 1;
    }
    proof {
        assert(source@.take(source@.len() as int) =~= source@);
    }
    let file_size: usize = 2 * file_path.len() + 6;
    if file_size > capacity - used {
        return Err(PathError::CapacityExceeded);
    }
    let file_node = make_file_node(file_path);
    used = used + file_size;
    proof {
        lemma_nodes_size_push(nodes@, file_node);
    }
    nodes.push(file_node);
    if 4 > capacity - used {
        return Err(PathError::CapacityExceeded);
    }
    let end_node = make_end_node();
    proof {
        lemma_nodes_size_push(nodes@, end_node);
    }
    nodes.push(end_node);
    Ok(TargetPath { nodes })
}

} // verus!
