//! Bodies of HTTP messages: how one is sent and how one is received.

use vstd::prelude::*;
use vstd::slice::*;
use vstd::string::*;

verus! {

/// The most bytes of a body that are written at once.
pub const WRITE_CHUNK: usize = 4096;

/// The most bytes of a body that are asked for at once.
pub const READ_CHUNK: u64 = 65536;

/// A response as it goes over the wire.
#[derive(Debug)]
pub struct WireResponse {
    pub status: u16,
    pub header_name: String,
    pub header_value: Vec<u8>,
    /// The body, in the pieces in which it is written.
    pub chunks: Vec<Vec<u8>>,
}

/// The bytes of the pieces.
pub open spec fn chunk_views(chunks: Seq<Vec<u8>>) -> Seq<Seq<u8>> {
    chunks.map_values(|c: Vec<u8>| c@)
}

/// The end of piece `k` of a body of `len` bytes.
pub open spec fn chunk_end(len: int, k: int) -> int {
    if (k + 1) * WRITE_CHUNK <= len {
        (k + 1) * WRITE_CHUNK
    } else {
        len
    }
}

/// `body` in pieces of 4096 bytes; the last one may be shorter.
pub open spec fn chunked(body: Seq<u8>) -> Seq<Seq<u8>> {
    Seq::new(
        ((body.len() + WRITE_CHUNK - 1) / WRITE_CHUNK as int) as nat,
        |k: int| body.subrange(k * WRITE_CHUNK, chunk_end(body.len() as int, k)),
    )
}

/// Lays out a response for sending.
pub fn send_response(status: u16, content_type: &str, body_bytes: &[u8]) -> (r: WireResponse)
    ensures
        r.status == status,
        r.header_name@ == "content-type"@,
        r.header_value@ == content_type.spec_bytes(),
        chunk_views(r.chunks@) == chunked(body_bytes@),
{
    let mut chunks: Vec<Vec<u8>> = Vec::new();
    let n = body_bytes.len();
    let mut start: usize = 0;
    let ghost mut k: int = 0;
    while start < n
        invariant
            n == body_bytes@.len(),
            k >= 0,
            start == k * WRITE_CHUNK || (start == n && start < k * WRITE_CHUNK),
            start <= n,
            start > (k - 1) * WRITE_CHUNK,
            chunk_views(chunks@) == chunked(body_bytes@).take(k),
            k <= chunked(body_bytes@).len(),
        decreases n - start,
    {
        let end: usize = if n - start <= WRITE_CHUNK {
            n
        } else {
            start + WRITE_CHUNK
        };
        let piece = slice_to_vec(slice_subrange(body_bytes, start, end));
        let ghost done = chunk_views(chunks@);
        assert(end == chunk_end(n as int, k));
        assert(piece@ == chunked(body_bytes@)[k]);
        chunks.push(piece);
        assert(chunk_views(chunks@) =~= done.push(piece@));
        start = end;
        proof {
            k = k + 1;
        }
    }
    assert(k == chunked(body_bytes@).len());
    assert(chunked(body_bytes@).take(k) == chunked(body_bytes@));
    WireResponse {
        status,
        header_name: "content-type".to_owned(),
        header_value: content_type.as_bytes_vec(),
        chunks,
    }
}

/// The pieces of a body, one after the other, are the body; none is empty or longer than 4096
/// bytes.
pub proof fn chunks_make_up_the_body(body: Seq<u8>)
    ensures
        chunked(body).flatten() == body,
        forall|k: int|
            0 <= k < chunked(body).len() ==> 0 < (#[trigger] chunked(body)[k]).len()
                <= WRITE_CHUNK,
{
    let all = chunked(body);
    assert forall|k: int| 0 <= k < all.len() implies 0 < (#[trigger] all[k]).len()
        <= WRITE_CHUNK by {}
    chunk_prefix(body, all.len() as int);
    assert(all.take(all.len() as int) == all);
    if all.len() > 0 {
        assert(chunk_end(body.len() as int, all.len() - 1) == body.len());
    }
}

proof fn chunk_prefix(body: Seq<u8>, k: int)
    requires
        0 <= k <= chunked(body).len(),
    ensures
        chunked(body).take(k).flatten() == body.take(
            if k == 0 {
                0
            } else {
                chunk_end(body.len() as int, k - 1)
            },
        ),
    decreases k,
{
    let all = chunked(body);
    if k == 0 {
        assert(all.take(0) =~= Seq::<Seq<u8>>::empty());
        assert(body.take(0) =~= Seq::<u8>::empty());
    } else {
        chunk_prefix(body, k - 1);
        let before = all.take(k - 1);
        assert(all.take(k) == before.push(all[k - 1]));
        before.lemma_flatten_push(all[k - 1]);
        let start = if k == 1 {
            0
        } else {
            chunk_end(body.len() as int, k - 2)
        };
        assert(start == (k - 1) * WRITE_CHUNK);
        assert(body.take(start) + all[k - 1] =~= body.take(chunk_end(body.len() as int, k - 1)));
    }
}

/// What one read adds to the body received so far, and whether there may be more: an empty piece
/// or a failed read ends the body.
pub open spec fn read_step(body: Seq<u8>, read: Option<Seq<u8>>) -> (Seq<u8>, bool) {
    match read {
        Some(chunk) => (body + chunk, chunk.len() > 0),
        None => (body, false),
    }
}

/// Takes what one read of the request body gave into `body`; tells whether to read on.
pub fn read_request_body(body: &mut Vec<u8>, read: Option<Vec<u8>>) -> (more: bool)
    ensures
        (final(body)@, more) == read_step(
            old(body)@,
            match read {
                Some(chunk) => Some(chunk@),
                None => None,
            },
        ),
{
    match read {
        Some(chunk) => {
            let mut chunk = chunk;
            let more = chunk.len() > 0;
            body.append(&mut chunk);
            more
        },
        None => false,
    }
}

/// The body that a series of reads yields, up to the first that ends it.
pub open spec fn received(body: Seq<u8>, reads: Seq<Option<Seq<u8>>>) -> Seq<u8>
    decreases reads.len(),
{
    if reads.len() == 0 {
        body
    } else {
        let (next, more) = read_step(body, reads[0]);
        if more {
            received(next, reads.skip(1))
        } else {
            next
        }
    }
}

/// Any split of a body into non-empty pieces is received as that body, whatever is read after
/// the piece that ends it.
pub proof fn pieces_are_received_whole(
    body: Seq<u8>,
    pieces: Seq<Seq<u8>>,
    end: Option<Seq<u8>>,
    rest: Seq<Option<Seq<u8>>>,
)
    requires
        forall|i: int| 0 <= i < pieces.len() ==> (#[trigger] pieces[i]).len() > 0,
        end is None || end->0.len() == 0,
    ensures
        received(body, pieces.map_values(|p: Seq<u8>| Some(p)).push(end) + rest) == body
            + pieces.flatten(),
    decreases pieces.len(),
{
    let reads = pieces.map_values(|p: Seq<u8>| Some(p)).push(end) + rest;
    if pieces.len() == 0 {
        assert(reads[0] == end);
        assert(pieces.flatten() =~= Seq::<u8>::empty());
        assert(body + pieces.flatten() =~= body);
        assert(read_step(body, end).0 =~= body);
    } else {
        let tail = pieces.skip(1);
        assert(reads[0] == Some(pieces[0]));
        assert(reads.skip(1) =~= tail.map_values(|p: Seq<u8>| Some(p)).push(end) + rest);
        pieces_are_received_whole(body + pieces[0], tail, end, rest);
        assert(pieces.flatten() == pieces[0] + tail.flatten());
        assert((body + pieces[0]) + tail.flatten() =~= body + (pieces[0] + tail.flatten()));
    }
}

/// A body is written in pieces of exactly 4096 bytes but for the last one, and read in pieces of
/// at most 65536.
pub proof fn pieces_have_their_size(body: Seq<u8>, chunks: Seq<Vec<u8>>, k: int)
    requires
        0 <= k < chunked(body).len(),
    ensures
        READ_CHUNK == 65536,
        k < chunked(body).len() - 1 ==> chunked(body)[k].len() == 4096,
        chunked(body)[k].len() <= 4096,
        forall|i: int|
            0 <= i < chunked(body)[k].len() ==> #[trigger] chunked(body)[k][i] == body[4096 * k
                + i],
        chunk_views(chunks).len() == chunks.len(),
        forall|i: int| 0 <= i < chunks.len() ==> #[trigger] chunk_views(chunks)[i] == chunks[i]@,
{
}

/// A piece that was read is added to the end of the body, and reading goes on exactly if it was
/// not empty. A read that failed adds nothing and ends the body.
pub proof fn reads_add_to_the_body(body: Seq<u8>, piece: Seq<u8>)
    ensures
        read_step(body, Some(piece)).0.len() == body.len() + piece.len(),
        read_step(body, Some(piece)).0.take(body.len() as int) == body,
        read_step(body, Some(piece)).0.skip(body.len() as int) == piece,
        read_step(body, Some(piece)).1 <==> piece.len() != 0,
        read_step(body, None).0 == body,
        !read_step(body, None).1,
{
    assert((body + piece).take(body.len() as int) =~= body);
    assert((body + piece).skip(body.len() as int) =~= piece);
}

} // verus!
