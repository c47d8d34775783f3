//! The embedding pipeline without its I/O: chunking of the rows, the
//! request that goes out for a chunk, the retry rules under rate limiting,
//! and the packing of vectors for the store.

use crate::text::texts;
use vstd::prelude::*;

verus! {

/// The number of rows that one request carries.
pub const CHUNK_SIZE: usize = 2048;

/// The number of requests that may be under way at once.
pub const PARALLELISM: usize = 5;

/// The number of times a rate-limited request is sent again.
pub const MAX_RETRIES: u32 = 3;

/// The dimension of the vectors that the remote model returns.
pub const DIMENSIONS: u64 = 1536;

/// The name of the remote model.
pub const MODEL: &'static str = "text-embedding-3-small";

/// The seconds after which a request to the provider is given up.
pub const REQUEST_TIMEOUT_SECS: u64 = 5;

/// How the provider is to write the numbers of a vector.
#[derive(Debug, Clone, Copy, PartialEq, Eq, Structural)]
pub enum EncodingFormat {
    Float,
    Base64,
}

impl EncodingFormat {
    /// The name of the format on the wire.
    pub open spec fn wire_text(self) -> Seq<char> {
        match self {
            EncodingFormat::Float => "float"@,
            EncodingFormat::Base64 => "base64"@,
        }
    }

    /// The name of the format on the wire: the variant's name in lower
    /// case.
    pub fn wire_name(&self) -> (out: &'static str)
        ensures
            out@ == self.wire_text(),
    {
        match self {
            EncodingFormat::Float => "float",
            EncodingFormat::Base64 => "base64",
        }
    }
}

/// What the provider reports to have consumed.
#[derive(Debug, Clone, Copy, PartialEq, Eq, Structural)]
pub struct TokenUsage {
    pub prompt_tokens: u64,
    pub total_tokens: u64,
}

/// The body of an embedding request.
#[derive(Debug)]
pub struct RequestBody {
    pub input: Vec<String>,
    pub model: String,
    pub encoding_format: Option<EncodingFormat>,
    pub dimensions: Option<u64>,
}

impl RequestBody {
    /// The request for the given texts: the remote model, numbers written
    /// as floats, vectors of [`DIMENSIONS`] numbers.
    pub fn new(input: Vec<String>) -> (out: RequestBody)
        ensures
            out.input == input,
            out.model@ == MODEL@,
            out.encoding_format == Some(EncodingFormat::Float),
            out.dimensions == Some(DIMENSIONS),
    {
        RequestBody {
            input,
            model: MODEL.to_owned(),
            encoding_format: Some(EncodingFormat::Float),
            dimensions: Some(DIMENSIONS),
        }
    }
}

/// Why no embedding came back.
#[derive(Debug, Clone, Copy, PartialEq, Eq, Structural)]
pub enum EmbeddingError {
    /// The request did not get through, or was answered with a status that
    /// is neither a success nor a rate limit.
    RequestError,
    /// The provider asked to slow down.
    RateLimit,
    /// The provider asked to slow down once more than is put up with.
    MaxRetriesExceeded,
    /// A vector has another dimension than the store.
    DimensionMismatch,
    /// The provider answered without any vector.
    EmptyResponse,
}

impl EmbeddingError {
    /// The message shown for the error.
    pub fn message(&self) -> (out: &'static str)
        ensures
            out@ == match self {
                EmbeddingError::RequestError => "Request falló"@,
                EmbeddingError::RateLimit => "Rate limit excecido"@,
                EmbeddingError::MaxRetriesExceeded => "Maximo número de intentos excedido"@,
                EmbeddingError::DimensionMismatch => "La dimensión del embedding no coincide"@,
                EmbeddingError::EmptyResponse => "No se encontró un embedding en la respuesta"@,
            },
    {
        match self {
            EmbeddingError::RequestError => "Request falló",
            EmbeddingError::RateLimit => "Rate limit excecido",
            EmbeddingError::MaxRetriesExceeded => "Maximo número de intentos excedido",
            EmbeddingError::DimensionMismatch => "La dimensión del embedding no coincide",
            EmbeddingError::EmptyResponse => "No se encontró un embedding en la respuesta",
        }
    }
}

/// What came of one request, as far as the retry rules care.
#[derive(Debug, Clone, Copy, PartialEq, Eq, Structural)]
pub enum ProviderReply {
    Success,
    RateLimited,
    Failed,
}

/// The reply that an HTTP status stands for.
pub open spec fn reply_of(status: u16) -> ProviderReply {
    if 200 <= status && status <= 299 {
        ProviderReply::Success
    } else if status == 429 {
        ProviderReply::RateLimited
    } else {
        ProviderReply::Failed
    }
}

/// Sorts an HTTP status: 200 to 299 is a success, 429 a rate limit, and
/// anything else a failure.
pub fn classify_status(status: u16) -> (out: ProviderReply)
    ensures
        out == reply_of(status),
{
    if 200 <= status && status <= 299 {
        ProviderReply::Success
    } else if status == 429 {
        ProviderReply::RateLimited
    } else {
        ProviderReply::Failed
    }
}

/// `base` to the power of `e`.
pub open spec fn power(base: nat, e: nat) -> nat
    decreases e,
{
    if e == 0 {
        1
    } else {
        base * power(base, (e - 1) as nat)
    }
}

/// The milliseconds to wait before the attempt with the given number: none
/// before the first, which has number zero, and `base^(n-1)` seconds before
/// the `n`-th retry.
pub open spec fn wait_before(base: nat, attempt: nat) -> nat {
    if attempt == 0 {
        0
    } else {
        1000 * power(base, (attempt - 1) as nat)
    }
}

/// What to do next for a chunk.
#[derive(Debug, Clone, Copy, PartialEq, Eq, Structural)]
pub enum RetryStep {
    /// Wait `wait_ms` milliseconds, then send the request as attempt number
    /// `attempt`.
    Send { attempt: u32, wait_ms: u64 },
    /// The embeddings are there.
    Finish,
    /// The chunk is dropped.
    GiveUp(EmbeddingError),
}

/// How often and how patiently a rate-limited request is sent again.
#[derive(Debug, Clone, Copy)]
pub struct RetryPolicy {
    max_retries: u32,
    time_backoff: u64,
}

/// Whether every wait of a policy with these numbers fits in 64 bits.
pub open spec fn waits_fit(max_retries: u32, time_backoff: u64) -> bool {
    forall|n: nat| n <= max_retries ==> #[trigger] wait_before(time_backoff as nat, n) <= u64::MAX
}

proof fn lemma_power_small(base: nat, e: nat)
    requires
        base <= 1,
    ensures
        power(base, e) <= 1,
    decreases e,
{
    if e > 0 {
        lemma_power_small(base, (e - 1) as nat);
        assert(base * power(base, (e - 1) as nat) <= 1) by (nonlinear_arith)
            requires
                base <= 1,
                power(base, (e - 1) as nat) <= 1,
        ;
    }
}

impl RetryPolicy {
    /// The number of retries.
    pub closed spec fn retries(self) -> u32 {
        self.max_retries
    }

    /// The base of the backoff, in seconds.
    pub closed spec fn backoff(self) -> u64 {
        self.time_backoff
    }

    /// The invariant of the type: every wait fits in 64 bits.
    pub closed spec fn wf(self) -> bool {
        waits_fit(self.max_retries, self.time_backoff)
    }

    /// What follows the reply to attempt number `attempt`. A success ends
    /// the work. A rate limit leads to the next attempt after its wait, or
    /// to giving up if this was the last retry. Any other failure drops the
    /// chunk at once.
    pub open spec fn step(self, attempt: u32, reply: ProviderReply) -> RetryStep {
        match reply {
            ProviderReply::Success => RetryStep::Finish,
            ProviderReply::RateLimited => if attempt >= self.retries() {
                RetryStep::GiveUp(EmbeddingError::MaxRetriesExceeded)
            } else {
                RetryStep::Send {
                    attempt: (attempt + 1) as u32,
                    wait_ms: wait_before(self.backoff() as nat, (attempt + 1) as nat) as u64,
                }
            },
            ProviderReply::Failed => RetryStep::GiveUp(EmbeddingError::RequestError),
        }
    }

    /// The number of requests that go out from attempt number `attempt`
    /// on, when the provider answers with `replies` in turn.
    pub open spec fn sends(self, attempt: u32, replies: Seq<ProviderReply>) -> nat
        decreases replies.len(),
    {
        if replies.len() == 0 {
            0
        } else {
            1 + match self.step(attempt, replies[0]) {
                RetryStep::Send { attempt: next, .. } => self.sends(next, replies.drop_first()),
                _ => 0,
            }
        }
    }

    /// A policy with the given numbers, unless one of its waits would not
    /// fit in 64 bits.
    pub fn new(max_retries: u32, time_backoff: u64) -> (out: Option<RetryPolicy>)
        ensures
            out is Some <==> waits_fit(max_retries, time_backoff),
            out matches Some(p) ==> p.wf() && p.retries() == max_retries && p.backoff()
                == time_backoff,
    {
        let policy = RetryPolicy { max_retries, time_backoff };
        if time_backoff <= 1 {
            proof {
                assert forall|n: nat| n <= max_retries implies #[trigger] wait_before(
                    time_backoff as nat,
                    n,
                ) <= u64::MAX by {
                    if n > 0 {
                        lemma_power_small(time_backoff as nat, (n - 1) as nat);
                    }
                }
            }
            return Some(policy);
        }
        let mut n: u32 = 0;
        let mut acc: u64 = 1;
        let ghost base = time_backoff as nat;
        while n < max_retries
            invariant
                n <= max_retries,
                base == time_backoff,
                acc == power(base, n as nat),
                forall|m: nat| m <= n ==> #[trigger] wait_before(base, m) <= u64::MAX,
            decreases max_retries - n,
        {
            // `acc` is the power for the wait before attempt `n + 1`.
            assert(wait_before(base, (n + 1) as nat) == 1000 * acc);
            if acc.checked_mul(1000).is_none() {
                assert(acc * 1000 == 1000 * acc);
                return None;
            }
            assert forall|m: nat| m <= n + 1 implies #[trigger] wait_before(base, m)
                <= u64::MAX by {
                if m == n + 1 {
                    assert(acc * 1000 == 1000 * acc);
                }
            }
            n += 1;
            if n == max_retries {
                return Some(RetryPolicy { max_retries, time_backoff });
            }
            proof {
                assert(power(base, (n + 1) as nat) == base * power(base, n as nat));
                assert(wait_before(base, (n + 1) as nat) == 1000 * (base * acc));
                assert(acc * time_backoff == base * acc) by (nonlinear_arith)
                    requires
                        base == time_backoff,
                ;
            }
            match acc.checked_mul(time_backoff) {
                None => {
                    return None;
                },
                Some(next) => {
                    acc = next;
                },
            }
        }
        Some(policy)
    }

    /// The number of retries.
    pub fn max_retries(&self) -> (out: u32)
        ensures
            out == self.retries(),
    {
        self.max_retries
    }

    /// The base of the backoff, in seconds.
    pub fn time_backoff(&self) -> (out: u64)
        ensures
            out == self.backoff(),
    {
        self.time_backoff
    }

    /// The first step for a chunk: send at once.
    pub fn first(&self) -> (out: RetryStep)
        ensures
            out == (RetryStep::Send { attempt: 0, wait_ms: 0 }),
    {
        RetryStep::Send { attempt: 0, wait_ms: 0 }
    }

    /// The milliseconds to wait before attempt number `attempt`.
    pub fn wait_ms(&self, attempt: u32) -> (out: u64)
        requires
            self.wf(),
            attempt <= self.retries(),
        ensures
            out == wait_before(self.backoff() as nat, attempt as nat),
    {
        if attempt == 0 {
            return 0;
        }
        let ghost base = self.time_backoff as nat;
        let mut acc: u64 = 1;
        let mut k: u32 = 1;
        while k < attempt
            invariant
                1 <= k <= attempt <= self.max_retries,
                base == self.time_backoff,
                waits_fit(self.max_retries, self.time_backoff),
                acc == power(base, (k - 1) as nat),
            decreases attempt - k,
        {
            proof {
                let e = k as nat;
                assert(wait_before(base, (k + 1) as nat) <= u64::MAX);
                assert(power(base, e) == base * power(base, (e - 1) as nat));
                assert(acc * self.time_backoff == base * acc) by (nonlinear_arith)
                    requires
                        base == self.time_backoff,
                ;
            }
            acc = acc * self.time_backoff;
            k += 1;
        }
        assert(wait_before(base, attempt as nat) <= u64::MAX);
        acc * 1000
    }

    /// What to do after the reply to attempt number `attempt`.
    pub fn next(&self, attempt: u32, reply: ProviderReply) -> (out: RetryStep)
        requires
            self.wf(),
            attempt <= self.retries(),
        ensures
            out == self.step(attempt, reply),
    {
        match reply {
            ProviderReply::Success => RetryStep::Finish,
            ProviderReply::RateLimited => {
                if attempt >= self.max_retries {
                    RetryStep::GiveUp(EmbeddingError::MaxRetriesExceeded)
                } else {
                    RetryStep::Send { attempt: attempt + 1, wait_ms: self.wait_ms(attempt + 1) }
                }
            },
            ProviderReply::Failed => RetryStep::GiveUp(EmbeddingError::RequestError),
        }
    }
}

/// However the provider answers, a chunk is sent at most once more than
/// the policy has retries; counted from attempt number `attempt`, at most
/// as often as attempts are left.
pub proof fn lemma_retry_bound(policy: RetryPolicy, attempt: u32, replies: Seq<ProviderReply>)
    requires
        attempt <= policy.retries(),
    ensures
        policy.sends(attempt, replies) <= policy.retries() - attempt + 1,
    decreases replies.len(),
{
    if replies.len() > 0 {
        match policy.step(attempt, replies[0]) {
            RetryStep::Send { attempt: next, .. } => {
                lemma_retry_bound(policy, next, replies.drop_first());
            },
            _ => {},
        }
    }
}

/// The rows of one request: their ids and, in the same order, their texts.
#[derive(Debug)]
pub struct EmbeddingChunk {
    pub indices: Vec<u64>,
    pub input: Vec<String>,
}

/// The ids of a list of rows, in order.
pub open spec fn row_ids(rows: Seq<(u64, String)>) -> Seq<u64> {
    rows.map_values(|r: (u64, String)| r.0)
}

/// The texts of a list of rows, in order.
pub open spec fn row_texts(rows: Seq<(u64, String)>) -> Seq<Seq<char>> {
    rows.map_values(|r: (u64, String)| r.1@)
}

/// The index after the last row of chunk number `c`.
pub open spec fn chunk_end(len: int, size: int, c: int) -> int {
    if (c + 1) * size <= len {
        (c + 1) * size
    } else {
        len
    }
}

/// The number of chunks of `size` rows that `len` rows make.
pub open spec fn chunk_count(len: int, size: int) -> int {
    (len + size - 1) / size
}

/// Whether `chunk` holds the rows of chunk number `c`: the ids and the
/// texts of the rows from index `c * size` up to [`chunk_end`].
pub open spec fn is_chunk(rows: Seq<(u64, String)>, size: int, c: int, chunk: EmbeddingChunk) -> bool {
    &&& 0 <= c * size < rows.len()
    &&& chunk.indices@ == row_ids(rows).subrange(c * size, chunk_end(rows.len() as int, size, c))
    &&& texts(chunk.input@) == row_texts(rows).subrange(
        c * size,
        chunk_end(rows.len() as int, size, c),
    )
}

/// Cuts the rows into chunks of `chunk_size` consecutive rows, the last of
/// which may hold fewer. No row is left out, none stands twice, and their
/// order is kept.
pub fn chunk_requests(rows: &Vec<(u64, String)>, chunk_size: usize) -> (out: Vec<EmbeddingChunk>)
    requires
        chunk_size > 0,
    ensures
        out.len() == chunk_count(rows.len() as int, chunk_size as int),
        forall|c: int| 0 <= c < out.len() ==> is_chunk(rows@, chunk_size as int, c, #[trigger] out@[c]),
{
    let n = rows.len();
    let mut out: Vec<EmbeddingChunk> = Vec::new();
    let mut start: usize = 0;
    let ghost size = chunk_size as int;
    assert(0 * size == 0);
    while start < n
        invariant
            n == rows.len(),
            size == chunk_size,
            size > 0,
            start <= n,
            start < n ==> start == out.len() * size,
            start == n ==> (out.len() == 0 && n == 0) || ((out.len() - 1) * size < n && n
                <= out.len() * size),
            forall|c: int| 0 <= c < out.len() ==> is_chunk(rows@, size, c, #[trigger] out@[c]),
        decreases n - start,
    {
        let end = if n - start < chunk_size {
            n
        } else {
            start + chunk_size
        };
        let ghost c = out.len() as int;
        proof {
            assert((c + 1) * size == c * size + size) by (nonlinear_arith);
            assert((c + 1 - 1) * size == c * size);
            assert(end == chunk_end(n as int, size, c));
        }
        let mut indices: Vec<u64> = Vec::new();
        let mut input: Vec<String> = Vec::new();
        let mut i: usize = start;
        assert(indices@ =~= row_ids(rows@).subrange(start as int, i as int));
        assert(texts(input@) =~= row_texts(rows@).subrange(start as int, i as int));
        while i < end
            invariant
                start <= i <= end <= n,
                n == rows.len(),
                indices@ == row_ids(rows@).subrange(start as int, i as int),
                texts(input@) == row_texts(rows@).subrange(start as int, i as int),
            decreases end - i,
        {
            let ghost before = input@;
            indices.push(rows[i].0);
            input.push(rows[i].1.clone());
            proof {
                assert(indices@ =~= row_ids(rows@).subrange(start as int, i + 1));
                assert(texts(input@) =~= texts(before).push(rows@[i as int].1@));
                assert(texts(input@) =~= row_texts(rows@).subrange(start as int, i + 1));
            }
            i += 1;
        }
        let ghost done = out@;
        let chunk = EmbeddingChunk { indices, input };
        assert(is_chunk(rows@, size, c, chunk));
        out.push(chunk);
        proof {
            assert forall|k: int| 0 <= k < out.len() implies is_chunk(
                rows@,
                size,
                k,
                #[trigger] out@[k],
            ) by {
                if k < c {
                    assert(out@[k] == done[k]);
                }
            }
        }
        start = end;
    }
    proof {
        let len = n as int;
        let count = out.len() as int;
        if n == 0 {
            assert((len + size - 1) / size == 0) by (nonlinear_arith)
                requires
                    len == 0,
                    size > 0,
            ;
        } else {
            assert((len + size - 1) / size == count) by (nonlinear_arith)
                requires
                    (count - 1) * size < len <= count * size,
                    size > 0,
            ;
        }
    }
    out
}

/// The four bytes of a 32-bit pattern, the lowest first.
pub open spec fn le_bytes(x: u32) -> Seq<u8> {
    seq![
        (x % 256) as u8,
        (x / 256 % 256) as u8,
        (x / 65536 % 256) as u8,
        (x / 16777216) as u8,
    ]
}

/// A vector of 32-bit patterns as bytes: each pattern's four bytes, the
/// lowest first.
pub open spec fn packed(bits: Seq<u32>) -> Seq<u8>
    decreases bits.len(),
{
    if bits.len() == 0 {
        Seq::empty()
    } else {
        packed(bits.drop_last()) + le_bytes(bits.last())
    }
}

/// Packs a vector, given as the bit patterns of its 32-bit floats, into
/// little-endian bytes, four for each number.
pub fn pack_vector(bits: &Vec<u32>) -> (out: Vec<u8>)
    ensures
        out@ == packed(bits@),
        out.len() == 4 * bits.len(),
{
    let mut out: Vec<u8> = Vec::new();
    let mut i: usize = 0;
    while i < bits.len()
        invariant
            i <= bits.len(),
            out@ == packed(bits@.take(i as int)),
            out.len() == 4 * i,
        decreases bits.len() - i,
    {
        let x = bits[i];
        let ghost before = out@;
        out.push((x % 256) as u8);
        out.push((x / 256 % 256) as u8);
        out.push((x / 65536 % 256) as u8);
        out.push((x / 16777216) as u8);
        proof {
            assert(bits@.take(i + 1).drop_last() =~= bits@.take(i as int));
            assert(out@ =~= before + le_bytes(x));
        }
        i += 1;
    }
    assert(bits@.take(bits.len() as int) == bits@);
    out
}

/// One row of the vector index.
#[derive(Debug)]
pub struct EmbeddingRow {
    pub row_id: u64,
    pub payload: Vec<u8>,
}

/// The number of ids that have a vector: the shorter of the two lengths.
pub open spec fn paired(ids: int, vectors: int) -> int {
    if ids <= vectors {
        ids
    } else {
        vectors
    }
}

/// The bit patterns of a list of vectors.
pub open spec fn vector_bits(vectors: Seq<Vec<u32>>) -> Seq<Seq<u32>> {
    vectors.map_values(|v: Vec<u32>| v@)
}

/// Whether each of the first `n` vectors has `dimension` numbers.
pub open spec fn dimensions_match(vectors: Seq<Seq<u32>>, n: int, dimension: int) -> bool {
    forall|i: int| 0 <= i < n ==> (#[trigger] vectors[i]).len() == dimension
}

/// Pairs each id with the vector at the same position and packs it for
/// the store. Ids without a vector and vectors without an id are left
/// out. Fails if one of the paired vectors has not `dimension` numbers;
/// otherwise every row carries exactly `4 * dimension` bytes.
pub fn persistable(indices: &Vec<u64>, vectors: &Vec<Vec<u32>>, dimension: usize) -> (out: Result<
    Vec<EmbeddingRow>,
    EmbeddingError,
>)
    ensures
        out is Ok <==> dimensions_match(
            vector_bits(vectors@),
            paired(indices.len() as int, vectors.len() as int),
            dimension as int,
        ),
        out matches Ok(rows) ==> {
            &&& rows.len() == paired(indices.len() as int, vectors.len() as int)
            &&& forall|i: int|
                0 <= i < rows.len() ==> {
                    &&& (#[trigger] rows[i]).row_id == indices[i]
                    &&& rows[i].payload@ == packed(vectors[i]@)
                    &&& rows[i].payload.len() == 4 * dimension
                }
        },
        out matches Err(e) ==> e == EmbeddingError::DimensionMismatch,
{
    let n = if indices.len() <= vectors.len() {
        indices.len()
    } else {
        vectors.len()
    };
    let mut rows: Vec<EmbeddingRow> = Vec::new();
    let mut i: usize = 0;
    while i < n
        invariant
            i <= n,
            n == paired(indices.len() as int, vectors.len() as int),
            rows.len() == i,
            dimensions_match(vector_bits(vectors@), i as int, dimension as int),
            forall|k: int|
                0 <= k < i ==> {
                    &&& (#[trigger] rows[k]).row_id == indices[k]
                    &&& rows[k].payload@ == packed(vectors[k]@)
                    &&& rows[k].payload.len() == 4 * dimension
                },
        decreases n - i,
    {
        if vectors[i].len() != dimension {
            assert(vector_bits(vectors@)[i as int].len() != dimension);
            return Err(EmbeddingError::DimensionMismatch);
        }
        let ghost done = rows@;
        rows.push(EmbeddingRow { row_id: indices[i], payload: pack_vector(&vectors[i]) });
        proof {
            assert forall|k: int| 0 <= k < i + 1 implies {
                &&& (#[trigger] rows[k]).row_id == indices[k]
                &&& rows[k].payload@ == packed(vectors[k]@)
                &&& rows[k].payload.len() == 4 * dimension
            } by {
                if k < i {
                    assert(rows[k] == done[k]);
                }
            }
            assert(vector_bits(vectors@)[i as int] == vectors[i as int]@);
        }
        i += 1;
    }
    Ok(rows)
}

/// The running totals of a synchronisation, counted in chunks but for
/// `inserted`, which counts rows.
#[derive(Debug, Clone, Copy, PartialEq, Eq, Structural)]
pub struct SyncCounters {
    pub sent: u64,
    pub succeeded: u64,
    pub inserted: u64,
    pub failed: u64,
}

impl SyncCounters {
    /// Nothing sent yet.
    pub fn new() -> (out: SyncCounters)
        ensures
            out == (SyncCounters { sent: 0, succeeded: 0, inserted: 0, failed: 0 }),
    {
        SyncCounters { sent: 0, succeeded: 0, inserted: 0, failed: 0 }
    }

    /// Counts a chunk that came back and whose `rows` rows were stored. A
    /// total that has reached the largest number stays there.
    pub fn chunk_stored(&mut self, rows: u64)
        ensures
            final(self).sent == step_up(old(self).sent, 1),
            final(self).succeeded == step_up(old(self).succeeded, 1),
            final(self).inserted == step_up(old(self).inserted, rows),
            final(self).failed == old(self).failed,
    {
        self.sent = self.sent.saturating_add(1);
        self.succeeded = self.succeeded.saturating_add(1);
        self.inserted = self.inserted.saturating_add(rows);
    }

    /// Counts a chunk that was dropped.
    pub fn chunk_dropped(&mut self)
        ensures
            final(self).sent == step_up(old(self).sent, 1),
            final(self).failed == step_up(old(self).failed, 1),
            final(self).succeeded == old(self).succeeded,
            final(self).inserted == old(self).inserted,
    {
        self.sent = self.sent.saturating_add(1);
        self.failed = self.failed.saturating_add(1);
    }
}

/// `total + by`, or the largest number where that does not fit.
pub open spec fn step_up(total: u64, by: u64) -> u64 {
    if total + by > u64::MAX {
        u64::MAX
    } else {
        (total + by) as u64
    }
}

/// One vector of a provider's answer, given as the bit patterns of its
/// 32-bit floats, with the position of its input where the provider tells
/// it.
#[derive(Debug)]
pub struct EmbeddingObject {
    pub index: Option<usize>,
    pub embedding: Vec<u32>,
}

/// The position, at or after `from`, of the first object that names input
/// `p` as its own, or the number of objects if there is none.
pub open spec fn holder(objects: Seq<EmbeddingObject>, p: int, from: int) -> int
    decreases objects.len() - from,
{
    if from < 0 || from >= objects.len() {
        objects.len() as int
    } else if objects[from].index matches Some(k) && k == p {
        from
    } else {
        holder(objects, p, from + 1)
    }
}

/// Whether every input is named by one of the objects.
pub open spec fn answers_all(objects: Seq<EmbeddingObject>) -> bool {
    forall|p: int| 0 <= p < objects.len() ==> #[trigger] holder(objects, p, 0) < objects.len()
}

/// The vectors of an answer in the order of the inputs: for each input the
/// vector of the first object that names it, where every input is named;
/// the vectors as they came, where one is not.
pub open spec fn in_input_order(objects: Seq<EmbeddingObject>) -> Seq<Seq<u32>> {
    Seq::new(
        objects.len(),
        |p: int|
            if answers_all(objects) {
                objects[holder(objects, p, 0)].embedding@
            } else {
                objects[p].embedding@
            },
    )
}

/// Computes [`holder`] from the first object on.
fn find_holder(objects: &Vec<EmbeddingObject>, p: usize) -> (h: usize)
    ensures
        h == holder(objects@, p as int, 0),
        h <= objects.len(),
{
    let mut i: usize = 0;
    while i < objects.len()
        invariant
            i <= objects.len(),
            holder(objects@, p as int, 0) == holder(objects@, p as int, i as int),
        decreases objects.len() - i,
    {
        match objects[i].index {
            Some(k) => {
                if k == p {
                    return i;
                }
            },
            None => {},
        }
        i += 1;
    }
    i
}

/// A copy of a vector.
fn copy_bits(v: &Vec<u32>) -> (out: Vec<u32>)
    ensures
        out@ == v@,
{
    let mut out: Vec<u32> = Vec::new();
    let mut i: usize = 0;
    while i < v.len()
        invariant
            i <= v.len(),
            out@ == v@.take(i as int),
        decreases v.len() - i,
    {
        out.push(v[i]);
        i += 1;
    }
    assert(v@.take(v.len() as int) == v@);
    out
}

impl EmbeddingObject {
    /// The vectors of an answer, in the order of the inputs.
    pub fn embeddings_iter(objects: &Vec<EmbeddingObject>) -> (out: Vec<Vec<u32>>)
        ensures
            vector_bits(out@) == in_input_order(objects@),
    {
        let n = objects.len();
        let mut slots: Vec<usize> = Vec::new();
        let mut named = true;
        while slots.len() < n && named
            invariant
                n == objects.len(),
                slots.len() <= n,
                named ==> forall|q: int|
                    0 <= q < slots.len() ==> #[trigger] slots[q] == holder(objects@, q, 0)
                        && slots[q] < n,
                !named ==> !answers_all(objects@),
            decreases n - slots.len() + (if named {
                1int
            } else {
                0int
            }),
        {
            let h = find_holder(objects, slots.len());
            if h < n {
                slots.push(h);
            } else {
                named = false;
            }
        }
        proof {
            if named {
                assert forall|p: int| 0 <= p < n implies #[trigger] holder(objects@, p, 0) < n by {
                    assert(slots[p] == holder(objects@, p, 0));
                }
            }
        }
        let mut out: Vec<Vec<u32>> = Vec::new();
        let mut i: usize = 0;
        while i < n
            invariant
                i <= n,
                n == objects.len(),
                out.len() == i,
                named == answers_all(objects@),
                named ==> slots.len() == n && forall|q: int|
                    0 <= q < n ==> #[trigger] slots[q] == holder(objects@, q, 0) && slots[q] < n,
                forall|q: int| 0 <= q < i ==> (#[trigger] out[q])@ == in_input_order(objects@)[q],
            decreases n - i,
        {
            let from = if named {
                slots[i]
            } else {
                i
            };
            let ghost done = out@;
            out.push(copy_bits(&objects[from].embedding));
            proof {
                assert forall|q: int| 0 <= q < i + 1 implies (#[trigger] out[q])@
                    == in_input_order(objects@)[q] by {
                    if q < i {
                        assert(out[q] == done[q]);
                    }
                }
            }
            i += 1;
        }
        assert(vector_bits(out@) =~= in_input_order(objects@));
        out
    }
}

/// What an answer to a request for one text comes to.
pub open spec fn single(reply: ProviderReply, objects: Seq<EmbeddingObject>) -> Result<
    Seq<u32>,
    EmbeddingError,
> {
    if reply != ProviderReply::Success {
        Err(EmbeddingError::RequestError)
    } else if objects.len() == 0 {
        Err(EmbeddingError::EmptyResponse)
    } else {
        Ok(in_input_order(objects)[0])
    }
}

/// The embedding of the one text of a request: the vector of the first
/// input, if the request succeeded and was answered with any vector.
pub fn single_embedding(reply: ProviderReply, objects: &Vec<EmbeddingObject>) -> (out: Result<
    Vec<u32>,
    EmbeddingError,
>)
    ensures
        match out {
            Ok(v) => single(reply, objects@) == Ok::<_, EmbeddingError>(v@),
            Err(e) => single(reply, objects@) == Err::<Seq<u32>, _>(e),
        },
{
    match reply {
        ProviderReply::Success => {
            let vectors = EmbeddingObject::embeddings_iter(objects);
            assert(vector_bits(vectors@).len() == vectors.len());
            assert(in_input_order(objects@).len() == objects.len());
            if vectors.len() == 0 {
                Err(EmbeddingError::EmptyResponse)
            } else {
                assert(vector_bits(vectors@)[0] == vectors[0]@);
                Ok(copy_bits(&vectors[0]))
            }
        },
        _ => Err(EmbeddingError::RequestError),
    }
}

} // verus!
