//! The commands between database and indexer, and how they are framed on
//! the pipe: a four-byte little-endian length, then the encoded command.
use vstd::prelude::*;
use crate::types::DenseVector;

verus! {

/// The nearest-neighbour measures.
#[derive(Debug, Clone, Copy, PartialEq, Eq, Structural)]
pub enum KNNType {
    Euclidean,
    Manhattan,
    Hamming,
    Cosine,
}

/// The number a measure travels as (its position in the declaration).
pub open spec fn knn_code(t: KNNType) -> i32 {
    match t {
        KNNType::Euclidean => 0,
        KNNType::Manhattan => 1,
        KNNType::Hamming => 2,
        KNNType::Cosine => 3,
    }
}

impl KNNType {
    pub fn code(self) -> (r: i32)
        ensures
            r == knn_code(self),
    {
        match self {
            KNNType::Euclidean => 0,
            KNNType::Manhattan => 1,
            KNNType::Hamming => 2,
            KNNType::Cosine => 3,
        }
    }

    /// The measure a received number stands for, if any.
    pub fn from_code(code: i32) -> (r: Option<KNNType>)
        ensures
            r matches Some(t) ==> knn_code(t) == code,
            r is None <==> !(0 <= code <= 3),
    {
        if code == 0 {
            Some(KNNType::Euclidean)
        } else if code == 1 {
            Some(KNNType::Manhattan)
        } else if code == 2 {
            Some(KNNType::Hamming)
        } else if code == 3 {
            Some(KNNType::Cosine)
        } else {
            None
        }
    }
}

/// A command for the indexer.
#[derive(Debug)]
pub enum Command {
    AddNode { key: String, depth: u32, vector: DenseVector },
    DeleteNode { key: String },
    GetKnn { knn_type: i32, k_value: u32, vector: DenseVector },
    PrintTree,
}

/// Adds a keyed vector to the tree, starting the descent at `depth`.
pub fn add_node_pipe(data: (String, DenseVector), depth: usize) -> (r: Command)
    ensures
        r matches Command::AddNode { key, depth: d, vector } && key@ == data.0@ && vector@ == data.1@
            && d as int == depth as int % 0x1_0000_0000,
{
    let d = ((depth as u64) % 0x1_0000_0000) as u32;
    Command::AddNode { key: data.0, depth: d, vector: data.1 }
}

/// Deletes the node with this key.
pub fn delete_node_pipe(data: String) -> (r: Command)
    ensures
        r matches Command::DeleteNode { key } && key@ == data@,
{
    Command::DeleteNode { key: data }
}

/// Asks for the `k_value` nearest neighbours of `vector_data`.
pub fn get_knn_pipe(knn_type: u8, k_value: usize, vector_data: DenseVector) -> (r: Command)
    ensures
        r matches Command::GetKnn { knn_type: t, k_value: k, vector } && t == knn_type as i32
            && k as int == k_value as int % 0x1_0000_0000 && vector@ == vector_data@,
{
    let k = ((k_value as u64) % 0x1_0000_0000) as u32;
    Command::GetKnn { knn_type: knn_type as i32, k_value: k, vector: vector_data }
}

/// Asks the indexer to print its tree.
pub fn print_tree_debug_pipe() -> (r: Command)
    ensures
        r is PrintTree,
{
    Command::PrintTree
}

/// The four little-endian bytes of `n`.
pub open spec fn le_bytes(n: u32) -> Seq<u8> {
    seq![(n % 256) as u8, ((n / 256) % 256) as u8, ((n / 65536) % 256) as u8, (n / 16777216) as u8]
}

/// The number four little-endian bytes stand for.
pub open spec fn le_value(b: Seq<u8>) -> int {
    b[0] + b[1] * 256 + b[2] * 65536 + b[3] * 16777216
}

/// A body on the pipe: its length (modulo 2^32) as four little-endian
/// bytes, then the body.
pub open spec fn framed(body: Seq<u8>) -> Seq<u8> {
    le_bytes((body.len() % 0x1_0000_0000) as u32) + body
}

/// The first frame of a byte stream and what follows it; `None` when the
/// stream ends before the frame does.
pub open spec fn first_frame(bytes: Seq<u8>) -> Option<(Seq<u8>, Seq<u8>)> {
    if bytes.len() < 4 {
        None
    } else {
        let n = le_value(bytes);
        if bytes.len() < 4 + n {
            None
        } else {
            Some((bytes.subrange(4, 4 + n), bytes.skip(4 + n)))
        }
    }
}

/// Frames an encoded command for the pipe.
pub fn frame_message(body: &Vec<u8>) -> (r: Vec<u8>)
    ensures
        r@ == framed(body@),
{
    let n: u32 = ((body.len() as u64) % 0x1_0000_0000) as u32;
    let mut out: Vec<u8> = Vec::new();
    out.push((n % 256) as u8);
    out.push(((n / 256) % 256) as u8);
    out.push(((n / 65536) % 256) as u8);
    out.push((n / 16777216) as u8);
    let mut i: usize = 0;
    while i < body.len()
        invariant
            i <= body@.len(),
            out@ =~= le_bytes(n) + body@.take(i as int),
        decreases body@.len() - i,
    {
        out.push(body[i]);
        i = i + 1;
        assert(out@ =~= le_bytes(n) + body@.take(i as int));
    }
    assert(body@.take(body@.len() as int) =~= body@);
    out
}

/// The length a frame announces in its first four bytes.
pub fn frame_length(prefix: &[u8]) -> (r: u64)
    requires
        prefix@.len() >= 4,
    ensures
        r as int == le_value(prefix@),
{
    (prefix[0] as u64) + (prefix[1] as u64) * 256 + (prefix[2] as u64) * 65536 + (prefix[3] as u64) * 16777216
}

/// Splits the first frame off a byte stream.
pub fn split_frame(bytes: &Vec<u8>) -> (r: Option<(Vec<u8>, Vec<u8>)>)
    ensures
        match (r, first_frame(bytes@)) {
            (Some((body, rest)), Some((b, t))) => body@ == b && rest@ == t,
            (None, None) => true,
            _ => false,
        },
{
    if bytes.len() < 4 {
        return None;
    }
    let n = frame_length(bytes.as_slice());
    if (bytes.len() as u64) - 4 < n {
        return None;
    }
    let end = 4 + n as usize;
    let mut body: Vec<u8> = Vec::new();
    let mut i: usize = 4;
    while i < end
        invariant
            4 <= i <= end,
            end <= bytes@.len(),
            end == 4 + le_value(bytes@),
            body@ =~= bytes@.subrange(4, i as int),
        decreases end - i,
    {
        body.push(bytes[i]);
        i = i + 1;
        assert(body@ =~= bytes@.subrange(4, i as int));
    }
    let mut rest: Vec<u8> = Vec::new();
    let mut j: usize = end;
    while j < bytes.len()
        invariant
            end <= j <= bytes@.len(),
            rest@ =~= bytes@.subrange(end as int, j as int),
        decreases bytes@.len() - j,
    {
        rest.push(bytes[j]);
        j = j + 1;
        assert(rest@ =~= bytes@.subrange(end as int, j as int));
    }
    assert(rest@ =~= bytes@.skip(end as int));
    Some((body, rest))
}

/// A frame read back from the pipe gives the body that was framed, and the
/// stream continues right after it.
pub proof fn lemma_frame_roundtrip(body: Seq<u8>, rest: Seq<u8>)
    requires
        body.len() < 0x1_0000_0000,
    ensures
        first_frame(framed(body) + rest) == Some((body, rest)),
{
    let n = (body.len() % 0x1_0000_0000) as u32;
    assert(n == body.len());
    let s = framed(body) + rest;
    assert(s.len() == 4 + body.len() + rest.len());
    assert(s[0] == (n % 256) as u8 && s[1] == ((n / 256) % 256) as u8
        && s[2] == ((n / 65536) % 256) as u8 && s[3] == (n / 16777216) as u8);
    assert((n % 256) + ((n / 256) % 256) * 256 + ((n / 65536) % 256) * 65536 + (n / 16777216) * 16777216 == n)
        by (nonlinear_arith);
    assert(le_value(s) == n);
    assert(s.subrange(4, 4 + n as int) =~= body);
    assert(s.skip(4 + n as int) =~= rest);
}

/// Each measure travels as a number of its own, from 0 to 3, so that the
/// number read back names the measure sent.
pub proof fn law_knn_codes_distinct(a: KNNType, b: KNNType)
    ensures
        0 <= knn_code(a) <= 3,
        knn_code(a) == knn_code(b) ==> a == b,
{
}

} // verus!
