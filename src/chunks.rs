//! Framing of document bytes in the streaming RPCs: downloads in fixed-size
//! chunks, uploads concatenated back into one value.
use vstd::prelude::*;
use crate::wal::copy_range;

verus! {

/// Size of a download chunk: 256 KiB.
pub const DEFAULT_CHUNK_SIZE: usize = 262144;

/// One chunk of a download. Only the first carries `found`, the total size and
/// (for checkpoints) the resolved position.
#[derive(Debug, Clone)]
pub struct DataChunk {
    pub data: Vec<u8>,
    pub is_last: bool,
    pub found: bool,
    pub total_size: u64,
    pub position: u64,
}

/// The tenant a request acts for.
#[derive(Debug, Clone)]
pub struct TenantContext {
    pub tenant_id: String,
}

/// One chunk of an upload. The first names the tenant and the target.
#[derive(Debug, Clone)]
pub struct UploadChunk {
    pub context: Option<TenantContext>,
    pub session_id: String,
    pub position: u64,
    pub data: Vec<u8>,
    pub is_last: bool,
}

/// An upload put back together.
#[derive(Debug, Clone)]
pub struct Upload {
    pub tenant_id: String,
    pub session_id: String,
    pub position: u64,
    pub data: Vec<u8>,
}

/// Why an upload stream is refused.
#[derive(Debug, Clone, PartialEq, Eq)]
pub enum UploadError {
    /// The first chunk names no tenant (or there is no chunk).
    MissingTenant,
    /// The first chunk names no session.
    MissingSession,
}

pub open spec fn concat_data(cs: Seq<DataChunk>) -> Seq<u8>
    decreases cs.len(),
{
    if cs.len() == 0 {
        seq![]
    } else {
        concat_data(cs.drop_last()) + cs.last().data@
    }
}

/// The chunks of a download of `found` (bytes and resolved position), or the
/// single not-found chunk.
pub open spec fn download_framing(found: Option<(Seq<u8>, u64)>, cs: Seq<DataChunk>, chunk_size: nat) -> bool {
    match found {
        None => cs.len() == 1 && cs[0].data@.len() == 0 && cs[0].is_last && !cs[0].found && cs[0].total_size
            == 0 && cs[0].position == 0,
        Some((d, pos)) => {
            &&& cs.len() >= 1
            &&& concat_data(cs) == d
            &&& cs[0].found && cs[0].total_size == d.len() && cs[0].position == pos
            &&& forall|i: int| 1 <= i < cs.len() ==> !(#[trigger] cs[i]).found && cs[i].total_size == 0 && cs[i].position == 0
            &&& forall|i: int| 0 <= i < cs.len() ==> ((#[trigger] cs[i]).is_last <==> i == cs.len() - 1)
            &&& forall|i: int| 0 <= i < cs.len() - 1 ==> (#[trigger] cs[i]).data@.len() == chunk_size
            &&& cs.last().data@.len() <= chunk_size
            &&& (d.len() > 0 ==> cs.last().data@.len() > 0)
        },
    }
}

/// Splits a load result into download chunks of `chunk_size` bytes.
pub fn download_chunks(found: Option<(Vec<u8>, u64)>, chunk_size: usize) -> (r: Vec<DataChunk>)
    requires
        chunk_size > 0,
    ensures
        download_framing(
            match found {
                Some((d, p)) => Some((d@, p)),
                None => None,
            },
            r@,
            chunk_size as nat,
        ),
{
    let mut r: Vec<DataChunk> = Vec::new();
    match found {
        None => {
            r.push(DataChunk { data: Vec::new(), is_last: true, found: false, total_size: 0, position: 0 });
            r
        },
        Some((d, pos)) => {
            let n = d.len();
            if n == 0 {
                r.push(DataChunk { data: Vec::new(), is_last: true, found: true, total_size: 0, position: pos });
                proof {
                    assert(r@.drop_last() =~= Seq::<DataChunk>::empty());
                    assert(concat_data(r@) == concat_data(r@.drop_last()) + r@.last().data@);
                    assert(concat_data(r@) =~= d@);
                }
                return r;
            }
            let mut start: usize = 0;
            while start < n
                invariant
                    n == d@.len(),
                    n > 0,
                    chunk_size > 0,
                    start <= n,
                    start == 0 <==> r@.len() == 0,
                    concat_data(r@) == d@.subrange(0, start as int),
                    r@.len() > 0 ==> r@[0].found && r@[0].total_size == n && r@[0].position == pos,
                    forall|i: int| 1 <= i < r@.len() ==> !(#[trigger] r@[i]).found && r@[i].total_size == 0 && r@[i].position == 0,
                    forall|i: int| 0 <= i < r@.len() ==> ((#[trigger] r@[i]).is_last <==> (i == r@.len() - 1 && start == n)),
                    forall|i: int| 0 <= i < r@.len() ==> (#[trigger] r@[i]).data@.len() <= chunk_size && r@[i].data@.len() > 0,
                    forall|i: int| 0 <= i < r@.len() - 1 ==> (#[trigger] r@[i]).data@.len() == chunk_size,
                    r@.len() > 0 && start < n ==> r@.last().data@.len() == chunk_size,
                decreases n - start,
            {
                let end: usize = if n - start <= chunk_size {
                    n
                } else {
                    start + chunk_size
                };
                let first = start == 0;
                let ghost r0 = r@;
                let c = DataChunk {
                    data: copy_range(d.as_slice(), start, end),
                    is_last: end == n,
                    found: first,
                    total_size: if first { n as u64 } else { 0 },
                    position: if first { pos } else { 0 },
                };
                r.push(c);
                proof {
                    assert(r@.drop_last() =~= r0);
                    if r0.len() == 0 {
                        assert(concat_data(r0) =~= seq![]);
                    }
                    assert(concat_data(r@) =~= d@.subrange(0, end as int));
                    assert forall|i: int| 1 <= i < r@.len() implies !(#[trigger] r@[i]).found && r@[i].total_size == 0 && r@[i].position == 0 by {
                        if i < r0.len() {
                            assert(r@[i] == r0[i]);
                        }
                    }
                    assert forall|i: int| 0 <= i < r@.len() implies ((#[trigger] r@[i]).is_last <==> (i == r@.len() - 1 && end == n)) by {
                        if i < r0.len() {
                            assert(r@[i] == r0[i]);
                        }
                    }
                    assert forall|i: int| 0 <= i < r@.len() implies (#[trigger] r@[i]).data@.len() <= chunk_size && r@[i].data@.len() > 0 by {
                        if i < r0.len() {
                            assert(r@[i] == r0[i]);
                        }
                    }
                    assert forall|i: int| 0 <= i < r@.len() - 1 implies (#[trigger] r@[i]).data@.len() == chunk_size by {
                        assert(r@[i] == r0[i]);
                    }
                }
                start = end;
            }
            proof {
                assert(d@.subrange(0, n as int) =~= d@);
            }
            r
        },
    }
}

pub open spec fn upload_data(cs: Seq<UploadChunk>) -> Seq<u8>
    decreases cs.len(),
{
    if cs.len() == 0 {
        seq![]
    } else {
        upload_data(cs.drop_last()) + cs.last().data@
    }
}

/// Puts an upload stream back together: the first chunk names the tenant, the
/// session and (for a checkpoint) the position; the data of the chunks up to
/// and including the first marked last is concatenated.
pub fn assemble_upload(chunks: &Vec<UploadChunk>) -> (r: Result<Upload, UploadError>)
    ensures
        chunks@.len() == 0 || chunks@[0].context is None ==> r == Err::<Upload, UploadError>(UploadError::MissingTenant),
        chunks@.len() > 0 && chunks@[0].context is Some && chunks@[0].session_id@.len() == 0 ==> r == Err::<
            Upload,
            UploadError,
        >(UploadError::MissingSession),
        chunks@.len() > 0 && chunks@[0].context is Some && chunks@[0].session_id@.len() > 0 ==> (r matches Ok(
            u,
        ) && u.tenant_id@ == chunks@[0].context->Some_0.tenant_id@ && u.session_id@ == chunks@[0].session_id@
            && u.position == chunks@[0].position && exists|k: int|
            1 <= k <= chunks@.len() && u.data@ == upload_data(chunks@.subrange(0, k))
                && (forall|j: int| 0 <= j < k - 1 ==> !(#[trigger] chunks@[j]).is_last)
                && (k < chunks@.len() ==> chunks@[k - 1].is_last)),
{
    if chunks.len() == 0 {
        return Err(UploadError::MissingTenant);
    }
    let tenant_id = match &chunks[0].context {
        Some(c) => String::from_str(c.tenant_id.as_str()),
        None => return Err(UploadError::MissingTenant),
    };
    if chunks[0].session_id.unicode_len() == 0 {
        return Err(UploadError::MissingSession);
    }
    let mut data: Vec<u8> = Vec::new();
    let mut k: usize = 0;
    let n = chunks.len();
    loop
        invariant
            n == chunks@.len(),
            chunks@[0].context is Some,
            chunks@[0].session_id@.len() > 0,
            tenant_id@ == chunks@[0].context->Some_0.tenant_id@,
            k < chunks@.len(),
            data@ == upload_data(chunks@.subrange(0, k as int)),
            forall|j: int| 0 <= j < k ==> !(#[trigger] chunks@[j]).is_last,
        decreases chunks@.len() - k,
    {
        let c = &chunks[k];
        let ghost before = data@;
        crate::wal::push_range(&mut data, c.data.as_slice(), 0, c.data.len());
        proof {
            assert(c.data@.subrange(0, c.data@.len() as int) =~= c.data@);
            assert(chunks@.subrange(0, k + 1).drop_last() =~= chunks@.subrange(0, k as int));
            assert(data@ == upload_data(chunks@.subrange(0, k + 1)));
        }
        if c.is_last || k + 1 == n {
            return Ok(Upload {
                tenant_id,
                session_id: String::from_str(chunks[0].session_id.as_str()),
                position: chunks[0].position,
                data,
            });
        }
        k += 1;
    }
}

/// Bytes saved through an upload stream and loaded back through a download
/// come back byte for byte: the upload keeps exactly the concatenated chunk
/// data, and the download's chunks concatenate to exactly the stored bytes.
pub proof fn lemma_save_load_round_trip(
    chunks: Seq<UploadChunk>,
    stored: Upload,
    position: u64,
    download: Seq<DataChunk>,
    chunk_size: nat,
)
    requires
        chunks.len() > 0,
        forall|j: int| 0 <= j < chunks.len() - 1 ==> !(#[trigger] chunks[j]).is_last,
        stored.data@ == upload_data(chunks.subrange(0, chunks.len() as int)),
        download_framing(Some((stored.data@, position)), download, chunk_size),
    ensures
        concat_data(download) == upload_data(chunks),
{
    assert(chunks.subrange(0, chunks.len() as int) =~= chunks);
}

} // verus!
