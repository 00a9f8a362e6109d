//! Agent memory held in the process: the short-term ring buffer of recent
//! entries, the scoping of entries to a workspace by their tags, and the
//! result types that the memory services hand back.
use vstd::prelude::*;
use std::collections::VecDeque;
use crate::text::{
    char_is_ws, chars_of, concat2, contains_str, copy_strings, is_ws, owned, slice_vec, str_views,
    string_of, strip_prefix, strip_prefix_spec, words, words_vec,
};

verus! {

// ───────────────────────────── entries ─────────────────────────────

/// A piece of information stored in runtime memory. `timestamp` counts
/// seconds since the Unix epoch.
#[derive(Debug)]
pub struct MemoryEntry {
    pub id: String,
    pub content: String,
    pub timestamp: i64,
    pub tags: Vec<String>,
}

pub struct EntryView {
    pub id: Seq<char>,
    pub content: Seq<char>,
    pub timestamp: i64,
    pub tags: Seq<Seq<char>>,
}

impl View for MemoryEntry {
    type V = EntryView;

    open spec fn view(&self) -> EntryView {
        EntryView {
            id: self.id@,
            content: self.content@,
            timestamp: self.timestamp,
            tags: str_views(self.tags@),
        }
    }
}

impl MemoryEntry {
    pub fn copy(&self) -> (r: Self)
        ensures
            r@ == self@,
    {
        MemoryEntry {
            id: self.id.clone(),
            content: self.content.clone(),
            timestamp: self.timestamp,
            tags: copy_strings(&self.tags),
        }
    }
}

pub open spec fn entry_views(s: Seq<MemoryEntry>) -> Seq<EntryView> {
    s.map_values(|e: MemoryEntry| e@)
}

/// The sequence read from its last element to its first.
pub open spec fn newest_first<T>(s: Seq<T>) -> Seq<T> {
    Seq::new(s.len(), |i: int| s[s.len() - 1 - i])
}

pub open spec fn min_nat(a: nat, b: nat) -> nat {
    if a <= b {
        a
    } else {
        b
    }
}

/// The entries of a ring buffer of at most `max_size` entries after `e` is
/// added: the oldest entry leaves first when the buffer is full; a buffer
/// made to hold no entry keeps none.
pub open spec fn after_add(entries: Seq<EntryView>, max_size: nat, e: EntryView) -> Seq<EntryView> {
    if max_size == 0 {
        entries
    } else if entries.len() >= max_size {
        entries.drop_first().push(e)
    } else {
        entries.push(e)
    }
}

/// Copies `buffer[lo..]` read backwards, at most `count` of them.
fn newest_copies(buffer: &VecDeque<MemoryEntry>, count: usize) -> (r: Vec<MemoryEntry>)
    ensures
        entry_views(r@) == newest_first(entry_views(buffer@)).take(
            min_nat(count as nat, buffer@.len()) as int,
        ),
{
    let n = buffer.len();
    let k = if count < n {
        count
    } else {
        n
    };
    let ghost all = newest_first(entry_views(buffer@));
    let mut r: Vec<MemoryEntry> = Vec::new();
    let mut i: usize = 0;
    while i < k
        invariant
            k <= n,
            n == buffer@.len(),
            all == newest_first(entry_views(buffer@)),
            i <= k,
            entry_views(r@) == all.take(i as int),
        decreases k - i,
    {
        let e = buffer[n - 1 - i].copy();
        proof {
            assert(entry_views(r@.push(e)) =~= entry_views(r@).push(e@));
            assert(all.take(i + 1) =~= all.take(i as int).push(all[i as int]));
        }
        r.push(e);
        i = i + 1;
    }
    r
}

// ───────────────────────────── short-term ring buffer ─────────────────────────────

/// Short-term memory: a ring buffer of the most recent entries. When it is
/// full, adding an entry evicts the oldest one.
#[derive(Debug)]
pub struct ShortTermMemory {
    buffer: VecDeque<MemoryEntry>,
    max_size: usize,
}

impl ShortTermMemory {
    /// The buffer never holds more entries than it was made for.
    #[verifier::type_invariant]
    spec fn within_capacity(&self) -> bool {
        self.buffer@.len() <= self.max_size
    }

    /// The entries held, oldest first.
    pub closed spec fn entries(&self) -> Seq<EntryView> {
        entry_views(self.buffer@)
    }

    pub closed spec fn max_size_spec(&self) -> nat {
        self.max_size as nat
    }

    /// An empty buffer that holds at most `max_size` entries.
    pub fn new(max_size: usize) -> (r: Self)
        ensures
            r.entries() == Seq::<EntryView>::empty(),
            r.max_size_spec() == max_size,
    {
        let r = ShortTermMemory { buffer: VecDeque::with_capacity(max_size), max_size };
        assert(r.entries() =~= Seq::<EntryView>::empty());
        r
    }

    /// Adds `entry`, evicting the oldest entry first when the buffer is full;
    /// a buffer made to hold no entry stays empty.
    pub fn add(&mut self, entry: MemoryEntry)
        ensures
            final(self).entries() == after_add(old(self).entries(), old(self).max_size_spec(), entry@),
            final(self).max_size_spec() == old(self).max_size_spec(),
            final(self).entries().len() <= final(self).max_size_spec(),
    {
        proof {
            use_type_invariant(&*self);
        }
        if self.max_size == 0 {
            return;
        }
        let ghost e = entry@;
        let ghost o = entry_views(self.buffer@);
        let max_size = self.max_size;
        let mut taken = ShortTermMemory { buffer: VecDeque::new(), max_size };
        std::mem::swap(self, &mut taken);
        proof {
            use_type_invariant(&taken);
        }
        let ShortTermMemory { buffer: mut buffer, max_size: _ } = taken;
        if buffer.len() >= max_size {
            let _ = buffer.pop_front();
        }
        buffer.push_back(entry);
        proof {
            if o.len() >= max_size {
                assert(entry_views(buffer@) =~= o.drop_first().push(e));
            } else {
                assert(entry_views(buffer@) =~= o.push(e));
            }
        }
        *self = ShortTermMemory { buffer, max_size };
    }

    /// The most recent entries, newest first, at most `count` of them.
    pub fn get_recent(&self, count: usize) -> (r: Vec<MemoryEntry>)
        ensures
            entry_views(r@) == newest_first(self.entries()).take(
                min_nat(count as nat, self.entries().len()) as int,
            ),
    {
        newest_copies(&self.buffer, count)
    }

    /// All entries, newest first.
    pub fn get_all(&self) -> (r: Vec<MemoryEntry>)
        ensures
            entry_views(r@) == newest_first(self.entries()),
    {
        let r = newest_copies(&self.buffer, self.buffer.len());
        assert(newest_first(self.entries()).take(self.entries().len() as int) =~= newest_first(
            self.entries(),
        ));
        r
    }

    /// Removes every entry.
    pub fn clear(&mut self)
        ensures
            final(self).entries() == Seq::<EntryView>::empty(),
            final(self).max_size_spec() == old(self).max_size_spec(),
    {
        *self = ShortTermMemory { buffer: VecDeque::new(), max_size: self.max_size };
        assert(self.entries() =~= Seq::<EntryView>::empty());
    }

    /// The number of entries held.
    pub fn size(&self) -> (n: usize)
        ensures
            n == self.entries().len(),
            n <= self.max_size_spec(),
    {
        proof {
            use_type_invariant(self);
        }
        self.buffer.len()
    }

    pub fn is_empty(&self) -> (b: bool)
        ensures
            b == (self.entries().len() == 0),
    {
        self.buffer.len() == 0
    }

    /// The capacity that the buffer was made with.
    pub fn capacity(&self) -> (n: usize)
        ensures
            n == self.max_size_spec(),
    {
        self.max_size
    }
}

/// A ring buffer never holds more than its bound: adding to a buffer within
/// the bound keeps it within the bound.
pub proof fn law_ring_buffer_bounded(entries: Seq<EntryView>, max_size: nat, e: EntryView)
    requires
        entries.len() <= max_size,
    ensures
        after_add(entries, max_size, e).len() <= max_size,
{
}

/// The entry added last is the first that `get_recent` hands back, and the
/// other entries keep their order behind it.
pub proof fn law_added_entry_is_most_recent(entries: Seq<EntryView>, max_size: nat, e: EntryView)
    requires
        max_size >= 1,
    ensures
        newest_first(after_add(entries, max_size, e))[0] == e,
        after_add(entries, max_size, e).len() >= 1,
        forall|i: int|
            1 <= i < after_add(entries, max_size, e).len() ==> #[trigger] newest_first(
                after_add(entries, max_size, e),
            )[i] == newest_first(entries)[i - 1],
{
}


// ───────────────────────────── workspace scoping by tags ─────────────────────────────

/// The workspace that an entry's tags name: the rest of the first tag that
/// begins with `workspace:` or `agent:`, else `global`.
pub open spec fn workspace_of(tags: Seq<Seq<char>>) -> Seq<char>
    decreases tags.len(),
{
    if tags.len() == 0 {
        "global"@
    } else if strip_prefix_spec(tags[0], "workspace:"@) is Some {
        strip_prefix_spec(tags[0], "workspace:"@)->0
    } else if strip_prefix_spec(tags[0], "agent:"@) is Some {
        strip_prefix_spec(tags[0], "agent:"@)->0
    } else {
        workspace_of(tags.drop_first())
    }
}

/// The source that an entry's tags name: the rest of the first tag that
/// begins with `source:`, else `memory_manager`.
pub open spec fn source_of(tags: Seq<Seq<char>>) -> Seq<char>
    decreases tags.len(),
{
    if tags.len() == 0 {
        "memory_manager"@
    } else if strip_prefix_spec(tags[0], "source:"@) is Some {
        strip_prefix_spec(tags[0], "source:"@)->0
    } else {
        source_of(tags.drop_first())
    }
}

pub fn derive_workspace_id(tags: &Vec<String>) -> (r: String)
    ensures
        r@ == workspace_of(str_views(tags@)),
{
    let mut i: usize = 0;
    assert(str_views(tags@).skip(0) =~= str_views(tags@));
    while i < tags.len()
        invariant
            i <= tags.len(),
            workspace_of(str_views(tags@)) == workspace_of(str_views(tags@).skip(i as int)),
        decreases tags.len() - i,
    {
        let ghost rest = str_views(tags@).skip(i as int);
        assert(rest[0] == tags@[i as int]@);
        assert(rest.drop_first() =~= str_views(tags@).skip(i + 1));
        match strip_prefix(tags[i].as_str(), "workspace:") {
            Some(t) => {
                return t;
            },
            None => {},
        }
        match strip_prefix(tags[i].as_str(), "agent:") {
            Some(t) => {
                return t;
            },
            None => {},
        }
        i = i + 1;
    }
    assert(str_views(tags@).skip(i as int).len() == 0);
    owned("global")
}

pub fn derive_source(tags: &Vec<String>) -> (r: String)
    ensures
        r@ == source_of(str_views(tags@)),
{
    let mut i: usize = 0;
    assert(str_views(tags@).skip(0) =~= str_views(tags@));
    while i < tags.len()
        invariant
            i <= tags.len(),
            source_of(str_views(tags@)) == source_of(str_views(tags@).skip(i as int)),
        decreases tags.len() - i,
    {
        let ghost rest = str_views(tags@).skip(i as int);
        assert(rest[0] == tags@[i as int]@);
        assert(rest.drop_first() =~= str_views(tags@).skip(i + 1));
        match strip_prefix(tags[i].as_str(), "source:") {
            Some(t) => {
                return t;
            },
            None => {},
        }
        i = i + 1;
    }
    assert(str_views(tags@).skip(i as int).len() == 0);
    owned("memory_manager")
}

/// The entries, newest first, that carry `tag`.
pub open spec fn tagged_newest_first(s: Seq<EntryView>, tag: Seq<char>) -> Seq<EntryView>
    decreases s.len(),
{
    if s.len() == 0 {
        seq![]
    } else if s.last().tags.contains(tag) {
        seq![s.last()] + tagged_newest_first(s.drop_last(), tag)
    } else {
        tagged_newest_first(s.drop_last(), tag)
    }
}

/// The tag that scopes an entry to a workspace.
pub open spec fn workspace_tag(workspace_id: Seq<char>) -> Seq<char> {
    "workspace:"@ + workspace_id
}

/// How a semantic search found its entries.
#[derive(Debug, Clone, Copy, PartialEq, Eq, Structural)]
pub enum SemanticRetrievalMode {
    Ann,
    Exact,
    LexicalFallback,
    SimpleBuffer,
}

impl SemanticRetrievalMode {
    pub open spec fn name_spec(&self) -> Seq<char> {
        match self {
            SemanticRetrievalMode::Ann => "ann"@,
            SemanticRetrievalMode::Exact => "exact"@,
            SemanticRetrievalMode::LexicalFallback => "lexical_fallback"@,
            SemanticRetrievalMode::SimpleBuffer => "simple_buffer"@,
        }
    }

    /// The name by which the mode is reported.
    pub fn as_str(&self) -> (r: &'static str)
        ensures
            r@ == self.name_spec(),
    {
        match self {
            SemanticRetrievalMode::Ann => "ann",
            SemanticRetrievalMode::Exact => "exact",
            SemanticRetrievalMode::LexicalFallback => "lexical_fallback",
            SemanticRetrievalMode::SimpleBuffer => "simple_buffer",
        }
    }
}

/// The embedding provider that a configured provider name selects: Gemini
/// for `g`, `google` or `gemini` (trimmed, any case); none for any other.
pub open spec fn embedder_provider_spec(raw: Seq<char>) -> Option<Seq<char>> {
    let l = unicode_lowercase(crate::text::trim(raw));
    if l == "g"@ || l == "google"@ || l == "gemini"@ {
        Some("gemini"@)
    } else {
        None
    }
}

pub fn embedder_provider(raw: &str) -> (r: Option<String>)
    ensures
        crate::manifest::opt_view(r) == embedder_provider_spec(raw@),
{
    let t = crate::text::trim_str(raw);
    let l = to_lowercase(t.as_str());
    if crate::text::str_eq(l.as_str(), "g") || crate::text::str_eq(l.as_str(), "google") || crate::text::str_eq(l.as_str(), "gemini") {
        Some(owned("gemini"))
    } else {
        None
    }
}

/// How many ranked entries a search with `limit` keeps: `limit` (at least
/// one), or all where there are fewer.
pub open spec fn kept_count(limit: usize, ranked_len: nat) -> nat {
    let l: nat = if limit == 0 { 1 } else { limit as nat };
    if ranked_len < l { ranked_len } else { l }
}

pub open spec fn confidential_ids(ranked: Seq<(Seq<char>, crate::vault::MemorySensitivity)>) -> Seq<Seq<char>>
    decreases ranked.len(),
{
    if ranked.len() == 0 {
        seq![]
    } else {
        let rest = confidential_ids(ranked.drop_last());
        if ranked.last().1 == crate::vault::MemorySensitivity::Confidential {
            rest.push(ranked.last().0)
        } else {
            rest
        }
    }
}

/// The top of a ranked search: how many entries it keeps and, in rank
/// order, the ids of the confidential ones among them. `ranked` holds each
/// entry's id and sensitivity, best first.
pub fn ranked_top(ranked: &Vec<(String, crate::vault::MemorySensitivity)>, limit: usize) -> (r: (usize, Vec<String>))
    ensures
        r.0 == kept_count(limit, ranked@.len()),
        str_views(r.1@) == confidential_ids(ranked@.map_values(|e: (String, crate::vault::MemorySensitivity)| (e.0@, e.1)).take(r.0 as int)),
{
    let l: usize = if limit == 0 { 1 } else { limit };
    let k: usize = if ranked.len() < l { ranked.len() } else { l };
    let ghost rv = ranked@.map_values(|e: (String, crate::vault::MemorySensitivity)| (e.0@, e.1));
    let mut ids: Vec<String> = Vec::new();
    let mut i: usize = 0;
    while i < k
        invariant
            k <= ranked@.len(),
            i <= k,
            rv == ranked@.map_values(|e: (String, crate::vault::MemorySensitivity)| (e.0@, e.1)),
            str_views(ids@) == confidential_ids(rv.take(i as int)),
        decreases k - i,
    {
        assert(rv.take(i + 1).drop_last() =~= rv.take(i as int));
        assert(rv.take(i + 1).last() == rv[i as int]);
        if ranked[i].1 == crate::vault::MemorySensitivity::Confidential {
            let id = ranked[i].0.clone();
            assert(str_views(ids@.push(id)) =~= str_views(ids@).push(id@));
            ids.push(id);
        }
        i = i + 1;
    }
    (k, ids)
}

/// Whether the embedding service could be set up for a search.
#[derive(Debug)]
pub enum EmbedderStatus {
    Available,
    /// No API key is configured.
    Missing,
    /// Setting it up failed with this reason.
    Failed(String),
}

/// How embedding the query went.
#[derive(Debug)]
pub enum QueryEmbeddingOutcome {
    Embedded,
    /// The request failed with this error text.
    Failed(String),
    /// No answer came within the time allowed.
    TimedOut,
}

/// How a semantic search goes on.
#[derive(Debug)]
pub enum RetrievalStep {
    /// Read the short-term buffer only (`search_simple_buffer`).
    SimpleBuffer,
    /// Search the vault lexically, giving this reason for the fallback.
    Lexical(String),
    /// Embed the query (the service is there).
    EmbedQuery,
    /// Search the vault's vectors with the query's embedding.
    VectorSearch,
}

pub enum RetrievalStepView {
    SimpleBuffer,
    Lexical(Seq<char>),
    EmbedQuery,
    VectorSearch,
}

impl View for RetrievalStep {
    type V = RetrievalStepView;

    open spec fn view(&self) -> RetrievalStepView {
        match self {
            RetrievalStep::SimpleBuffer => RetrievalStepView::SimpleBuffer,
            RetrievalStep::Lexical(r) => RetrievalStepView::Lexical(r@),
            RetrievalStep::EmbedQuery => RetrievalStepView::EmbedQuery,
            RetrievalStep::VectorSearch => RetrievalStepView::VectorSearch,
        }
    }
}

/// The first step of a semantic search with `strategy`: the buffer alone
/// for `simple_buffer`; else the query is embedded where the embedding
/// service is there, and the vault is searched lexically where it is not.
pub fn retrieval_start(strategy: &str, embedder: EmbedderStatus) -> (r: RetrievalStep)
    ensures
        strategy@ == "simple_buffer"@ ==> r is SimpleBuffer,
        strategy@ != "simple_buffer"@ ==> match embedder {
            EmbedderStatus::Available => r is EmbedQuery,
            EmbedderStatus::Missing => r@ == RetrievalStepView::Lexical("Missing Gemini embedding API key"@),
            EmbedderStatus::Failed(reason) => r@ == RetrievalStepView::Lexical(reason@),
        },
{
    if crate::text::str_eq(strategy, "simple_buffer") {
        return RetrievalStep::SimpleBuffer;
    }
    match embedder {
        EmbedderStatus::Available => RetrievalStep::EmbedQuery,
        EmbedderStatus::Missing => RetrievalStep::Lexical(owned("Missing Gemini embedding API key")),
        EmbedderStatus::Failed(reason) => RetrievalStep::Lexical(reason),
    }
}

/// The step after the query was sent to be embedded: the vectors are
/// searched where it was embedded; a failure or a timeout falls back to the
/// lexical search, saying why.
pub fn after_query_embedding(outcome: QueryEmbeddingOutcome) -> (r: RetrievalStep)
    ensures
        match outcome {
            QueryEmbeddingOutcome::Embedded => r is VectorSearch,
            QueryEmbeddingOutcome::Failed(e) => r@ == RetrievalStepView::Lexical("Gemini embedding request failed: "@ + e@),
            QueryEmbeddingOutcome::TimedOut => r@ == RetrievalStepView::Lexical("Semantic search timed out; using lexical fallback"@),
        },
{
    match outcome {
        QueryEmbeddingOutcome::Embedded => RetrievalStep::VectorSearch,
        QueryEmbeddingOutcome::Failed(e) => RetrievalStep::Lexical(concat2("Gemini embedding request failed: ", e.as_str())),
        QueryEmbeddingOutcome::TimedOut => RetrievalStep::Lexical(owned("Semantic search timed out; using lexical fallback")),
    }
}

/// What a batch request for the embeddings of a document's chunks gave.
#[derive(Debug)]
pub enum BatchEmbedding {
    /// This many vectors.
    Vectors(usize),
    /// The request failed with this error text.
    Failed(String),
}

pub open spec fn batch_complete(chunk_count: usize, b: BatchEmbedding) -> bool {
    b matches BatchEmbedding::Vectors(n) && n == chunk_count
}

/// Whether ingestion asks the fallback model for the chunks' embeddings
/// after the active model's answer: as well where the active model gave a
/// vector per chunk, and instead where its request failed.
pub open spec fn asks_fallback_spec(chunk_count: usize, primary: BatchEmbedding) -> bool {
    batch_complete(chunk_count, primary) || primary is Failed
}

pub fn asks_fallback(chunk_count: usize, primary: &BatchEmbedding) -> (r: bool)
    ensures
        r == asks_fallback_spec(chunk_count, *primary),
{
    match primary {
        BatchEmbedding::Vectors(n) => *n == chunk_count,
        BatchEmbedding::Failed(_) => true,
    }
}

/// How a document's chunks are stored: with the vectors of which model, if
/// any; with the fallback model's vectors beside them, or not; and the
/// warning the ingestion reports, if any.
#[derive(Debug)]
pub struct IngestEmbeddingPlan {
    pub embedding_model: Option<String>,
    pub with_fallback_vectors: bool,
    pub warning: Option<String>,
}

pub struct PlanView {
    pub embedding_model: Option<Seq<char>>,
    pub with_fallback_vectors: bool,
    pub warning: Option<Seq<char>>,
}

impl View for IngestEmbeddingPlan {
    type V = PlanView;

    open spec fn view(&self) -> PlanView {
        PlanView {
            embedding_model: crate::manifest::opt_view(self.embedding_model),
            with_fallback_vectors: self.with_fallback_vectors,
            warning: crate::manifest::opt_view(self.warning),
        }
    }
}

/// The plan from the two batch answers (the fallback's where it was asked).
pub open spec fn ingest_plan(chunk_count: usize, primary: BatchEmbedding, fallback: Option<BatchEmbedding>) -> PlanView {
    match primary {
        BatchEmbedding::Vectors(n) => if n == chunk_count {
            match fallback {
                Some(BatchEmbedding::Vectors(m)) => if m == chunk_count {
                    PlanView { embedding_model: Some("gemini-embedding-2-preview"@), with_fallback_vectors: true, warning: None }
                } else {
                    PlanView { embedding_model: Some("gemini-embedding-2-preview"@), with_fallback_vectors: false,
                        warning: Some("Fallback batch embeddings size mismatch during ingestion"@) }
                },
                Some(BatchEmbedding::Failed(e)) => PlanView { embedding_model: Some("gemini-embedding-2-preview"@), with_fallback_vectors: false,
                    warning: Some("Fallback batch embeddings failed during ingestion: "@ + e@) },
                None => PlanView { embedding_model: Some("gemini-embedding-2-preview"@), with_fallback_vectors: false, warning: None },
            }
        } else {
            PlanView { embedding_model: None, with_fallback_vectors: false,
                warning: Some("Primary batch embeddings size mismatch during ingestion; using fallback path"@) }
        },
        BatchEmbedding::Failed(err) => match fallback {
            Some(BatchEmbedding::Vectors(m)) => if m == chunk_count {
                PlanView { embedding_model: Some("gemini-embedding-001"@), with_fallback_vectors: false,
                    warning: Some("Primary batch embedding failed; used fallback model 'gemini-embedding-001': "@ + err@) }
            } else {
                PlanView { embedding_model: None, with_fallback_vectors: false,
                    warning: Some("Fallback batch embeddings size mismatch during ingestion"@) }
            },
            Some(BatchEmbedding::Failed(fe)) => PlanView { embedding_model: None, with_fallback_vectors: false,
                warning: Some("Batch embeddings unavailable; storing without embeddings: "@ + err@ + " | "@ + fe@) },
            None => PlanView { embedding_model: None, with_fallback_vectors: false, warning: None },
        },
    }
}

/// How the chunks of a document are embedded, from the active model's batch
/// answer and, where `asks_fallback` said so, the fallback model's.
pub fn ingest_embedding_plan(chunk_count: usize, primary: BatchEmbedding, fallback: Option<BatchEmbedding>) -> (r: IngestEmbeddingPlan)
    requires
        fallback is Some <==> asks_fallback_spec(chunk_count, primary),
    ensures
        r@ == ingest_plan(chunk_count, primary, fallback),
{
    let active = "gemini-embedding-2-preview";
    match primary {
        BatchEmbedding::Vectors(n) => {
            if n != chunk_count {
                return IngestEmbeddingPlan {
                    embedding_model: None,
                    with_fallback_vectors: false,
                    warning: Some(owned("Primary batch embeddings size mismatch during ingestion; using fallback path")),
                };
            }
            match fallback {
                Some(BatchEmbedding::Vectors(m)) => if m == chunk_count {
                    IngestEmbeddingPlan { embedding_model: Some(owned(active)), with_fallback_vectors: true, warning: None }
                } else {
                    IngestEmbeddingPlan { embedding_model: Some(owned(active)), with_fallback_vectors: false,
                        warning: Some(owned("Fallback batch embeddings size mismatch during ingestion")) }
                },
                Some(BatchEmbedding::Failed(e)) => IngestEmbeddingPlan { embedding_model: Some(owned(active)), with_fallback_vectors: false,
                    warning: Some(concat2("Fallback batch embeddings failed during ingestion: ", e.as_str())) },
                None => IngestEmbeddingPlan { embedding_model: Some(owned(active)), with_fallback_vectors: false, warning: None },
            }
        },
        BatchEmbedding::Failed(err) => match fallback {
            Some(BatchEmbedding::Vectors(m)) => if m == chunk_count {
                IngestEmbeddingPlan { embedding_model: Some(owned("gemini-embedding-001")), with_fallback_vectors: false,
                    warning: Some(concat2("Primary batch embedding failed; used fallback model 'gemini-embedding-001': ", err.as_str())) }
            } else {
                IngestEmbeddingPlan { embedding_model: None, with_fallback_vectors: false,
                    warning: Some(owned("Fallback batch embeddings size mismatch during ingestion")) }
            },
            Some(BatchEmbedding::Failed(fe)) => {
                let a = concat2("Batch embeddings unavailable; storing without embeddings: ", err.as_str());
                let b = crate::text::concat3(a.as_str(), " | ", fe.as_str());
                IngestEmbeddingPlan { embedding_model: None, with_fallback_vectors: false, warning: Some(b) }
            },
            None => IngestEmbeddingPlan { embedding_model: None, with_fallback_vectors: false, warning: None },
        },
    }
}

/// Entries found by a search, how they were found and why the search fell
/// back, where it did.
#[derive(Debug)]
pub struct SemanticSearchResult {
    pub entries: Vec<MemoryEntry>,
    pub mode: SemanticRetrievalMode,
    pub reason: Option<String>,
    pub confidential_entry_ids: Vec<String>,
}

/// What an ingestion stored.
#[derive(Debug)]
pub struct IngestionResult {
    pub chunks_ingested: usize,
    pub chunks_embedded: usize,
    pub embedding_mode: String,
    pub warnings: Vec<String>,
}

/// Statistics of a memory store.
#[derive(Debug, Clone, Copy, PartialEq, Eq, Structural)]
pub struct MemoryStats {
    pub total_entries: usize,
    pub total_size: u64,
}

/// Errors of the memory services. `Io` holds the message of the I/O error.
#[derive(Debug)]
pub enum MemoryError {
    Io(String),
    Other(String),
}

impl MemoryError {
    pub open spec fn message_spec(&self) -> Seq<char> {
        match self {
            MemoryError::Io(m) => "IO error: "@ + m@,
            MemoryError::Other(m) => m@,
        }
    }

    /// The error's message.
    pub fn to_string(&self) -> (r: String)
        ensures
            r@ == self.message_spec(),
    {
        match self {
            MemoryError::Io(m) => concat2("IO error: ", m.as_str()),
            MemoryError::Other(m) => m.clone(),
        }
    }
}

/// Persistent memory placeholder: storage is not wired in, so every store
/// succeeds and every lookup finds nothing.
#[derive(Debug)]
pub struct LongTermMemory {
    db_path: String,
}

impl LongTermMemory {
    pub closed spec fn db_path_spec(&self) -> Seq<char> {
        self.db_path@
    }

    pub fn new(db_path: String) -> (r: Self)
        ensures
            r.db_path_spec() == db_path@,
    {
        LongTermMemory { db_path }
    }

    pub fn db_path(&self) -> (r: &str)
        ensures
            r@ == self.db_path_spec(),
    {
        self.db_path.as_str()
    }

    pub fn store(&self, entry: MemoryEntry) -> (r: Result<(), MemoryError>)
        ensures
            r is Ok,
    {
        Ok(())
    }

    pub fn search(&self, query: &str, limit: usize) -> (r: Result<Vec<MemoryEntry>, MemoryError>)
        ensures
            r matches Ok(v) && v@.len() == 0,
    {
        Ok(Vec::new())
    }

    pub fn get(&self, id: &str) -> (r: Result<Option<MemoryEntry>, MemoryError>)
        ensures
            r matches Ok(o) && o is None,
    {
        Ok(None)
    }

    pub fn delete(&self, id: &str) -> (r: Result<(), MemoryError>)
        ensures
            r is Ok,
    {
        Ok(())
    }

    pub fn get_stats(&self) -> (r: Result<MemoryStats, MemoryError>)
        ensures
            r matches Ok(s) && s.total_entries == 0 && s.total_size == 0,
    {
        Ok(MemoryStats { total_entries: 0, total_size: 0 })
    }
}

// ───────────────────────────── the manager's short-term buffer ─────────────────────────────

/// The last `cap` elements of `s`, or all of them where there are fewer.
pub open spec fn keep_last<T>(s: Seq<T>, cap: nat) -> Seq<T> {
    if s.len() > cap {
        s.skip(s.len() - cap)
    } else {
        s
    }
}

/// The in-process part of the memory manager: its short-term buffer of
/// recent entries, and the directory of its encrypted vault.
#[derive(Debug)]
pub struct MemoryManager {
    short_term: VecDeque<MemoryEntry>,
    short_term_capacity: usize,
    vault_dir: String,
}

impl MemoryManager {
    /// Where the memories of a workspace are pruned at `now` (seconds since
    /// the Unix epoch) under a retention of `retention_days`: the creation
    /// time before which its vault entries go. A retention of 0 days prunes
    /// nothing (the count pruned is 0).
    pub fn prune_expired(&self, retention_days: u32, now: i64) -> (r: Option<i64>)
        requires
            now >= i64::MIN + 86400 * 4294967295,
        ensures
            retention_days == 0 ==> r is None,
            retention_days > 0 ==> r == Some((now - retention_days * 86400) as i64),
    {
        crate::vault::retention_cutoff(now, retention_days)
    }

    pub const MAX_INGEST_CHUNKS: usize = 2048;
    pub const DEFAULT_CHUNK_CHARS: usize = 1500;

    /// The short-term entries, oldest first.
    pub closed spec fn short_term_spec(&self) -> Seq<EntryView> {
        entry_views(self.short_term@)
    }

    pub closed spec fn capacity_spec(&self) -> nat {
        self.short_term_capacity as nat
    }

    pub closed spec fn vault_dir_spec(&self) -> Seq<char> {
        self.vault_dir@
    }

    /// A manager whose short-term buffer keeps `short_term_size` entries, and
    /// at least one (a size of 0 is taken as 1).
    pub fn new(short_term_size: usize, vault_dir: String) -> (r: Self)
        ensures
            r.short_term_spec() == Seq::<EntryView>::empty(),
            r.capacity_spec() == if short_term_size == 0 { 1 } else { short_term_size },
            r.vault_dir_spec() == vault_dir@,
    {
        let cap = if short_term_size == 0 {
            1
        } else {
            short_term_size
        };
        let r = MemoryManager {
            short_term: VecDeque::with_capacity(short_term_size),
            short_term_capacity: cap,
            vault_dir,
        };
        assert(r.short_term_spec() =~= Seq::<EntryView>::empty());
        r
    }

    pub fn vault_dir(&self) -> (r: &str)
        ensures
            r@ == self.vault_dir_spec(),
    {
        self.vault_dir.as_str()
    }

    pub fn short_term_capacity(&self) -> (r: usize)
        ensures
            r == self.capacity_spec(),
    {
        self.short_term_capacity
    }

    /// Appends `entry` to the short-term buffer and drops the oldest entries
    /// beyond its capacity. This is the buffer's part of every store.
    pub fn remember(&mut self, entry: MemoryEntry)
        ensures
            final(self).short_term_spec() == keep_last(
                old(self).short_term_spec().push(entry@),
                old(self).capacity_spec(),
            ),
            final(self).capacity_spec() == old(self).capacity_spec(),
            final(self).vault_dir_spec() == old(self).vault_dir_spec(),
    {
        let ghost all = old(self).short_term_spec().push(entry@);
        self.short_term.push_back(entry);
        assert(self.short_term_spec() =~= all);
        while self.short_term.len() > self.short_term_capacity
            invariant
                self.short_term_capacity == old(self).short_term_capacity,
                self.vault_dir == old(self).vault_dir,
                self.short_term_spec().len() <= all.len(),
                self.short_term_spec() == all.skip(all.len() - self.short_term_spec().len()),
                self.short_term_spec().len() == all.len() || self.short_term_spec().len()
                    >= self.short_term_capacity,
            decreases self.short_term@.len(),
        {
            let ghost before = self.short_term_spec();
            let _ = self.short_term.pop_front();
            assert(self.short_term_spec() =~= before.drop_first());
            assert(all.skip(all.len() - self.short_term_spec().len()) =~= before.drop_first());
        }
        proof {
            if self.short_term_spec().len() == all.len() {
                assert(all.skip(0) =~= all);
            }
        }
    }

    /// The most recent short-term entries, newest first, at most `count`.
    pub fn get_recent(&self, count: usize) -> (r: Vec<MemoryEntry>)
        ensures
            entry_views(r@) == newest_first(self.short_term_spec()).take(
                min_nat(count as nat, self.short_term_spec().len()) as int,
            ),
    {
        newest_copies(&self.short_term, count)
    }

    /// All short-term entries, oldest first.
    pub fn get_all_short_term(&self) -> (r: Vec<MemoryEntry>)
        ensures
            entry_views(r@) == self.short_term_spec(),
    {
        let mut r: Vec<MemoryEntry> = Vec::new();
        let mut i: usize = 0;
        while i < self.short_term.len()
            invariant
                i <= self.short_term@.len(),
                entry_views(r@) == self.short_term_spec().take(i as int),
            decreases self.short_term@.len() - i,
        {
            let e = self.short_term[i].copy();
            proof {
                assert(entry_views(r@.push(e)) =~= entry_views(r@).push(e@));
                assert(self.short_term_spec().take(i + 1) =~= self.short_term_spec().take(
                    i as int,
                ).push(self.short_term_spec()[i as int]));
            }
            r.push(e);
            i = i + 1;
        }
        assert(self.short_term_spec().take(i as int) =~= self.short_term_spec());
        r
    }

    pub fn clear_short_term(&mut self)
        ensures
            final(self).short_term_spec() == Seq::<EntryView>::empty(),
            final(self).capacity_spec() == old(self).capacity_spec(),
            final(self).vault_dir_spec() == old(self).vault_dir_spec(),
    {
        self.short_term.clear();
        assert(self.short_term_spec() =~= Seq::<EntryView>::empty());
    }

    pub fn short_term_size(&self) -> (n: usize)
        ensures
            n == self.short_term_spec().len(),
    {
        self.short_term.len()
    }

    pub fn is_short_term_empty(&self) -> (b: bool)
        ensures
            b == (self.short_term_spec().len() == 0),
    {
        self.short_term.len() == 0
    }

    /// The `simple_buffer` search: the short-term entries of `workspace_id`
    /// only, newest first, at most `limit`. No vault is read.
    pub fn search_simple_buffer(&self, workspace_id: &str, limit: usize) -> (r: SemanticSearchResult)
        ensures
            entry_views(r.entries@) == tagged_newest_first(
                self.short_term_spec(),
                workspace_tag(workspace_id@),
            ).take(
                min_nat(
                    limit as nat,
                    tagged_newest_first(self.short_term_spec(), workspace_tag(workspace_id@)).len(),
                ) as int,
            ),
            r.mode == SemanticRetrievalMode::SimpleBuffer,
            r.reason is None,
            r.confidential_entry_ids@.len() == 0,
    {
        let tag = concat2("workspace:", workspace_id);
        let ghost e = self.short_term_spec();
        let ghost want = tagged_newest_first(e, tag@);
        let mut out: Vec<MemoryEntry> = Vec::new();
        let mut i: usize = self.short_term.len();
        assert(e.take(i as int) =~= e);
        assert(entry_views(out@) + tagged_newest_first(e, tag@) =~= want);
        while i > 0 && out.len() < limit
            invariant
                i <= self.short_term@.len(),
                e == self.short_term_spec(),
                want == tagged_newest_first(e, tag@),
                out@.len() <= limit,
                entry_views(out@) + tagged_newest_first(e.take(i as int), tag@) == want,
            decreases i,
        {
            let ghost pre = e.take(i as int);
            assert(pre.drop_last() =~= e.take(i - 1));
            assert(pre.last() == e[i - 1]);
            let x = &self.short_term[i - 1];
            if contains_str(&x.tags, tag.as_str()) {
                let c = x.copy();
                proof {
                    assert(entry_views(out@.push(c)) =~= entry_views(out@).push(c@));
                    assert(entry_views(out@).push(c@) + tagged_newest_first(e.take(i - 1), tag@)
                        =~= entry_views(out@) + tagged_newest_first(pre, tag@));
                }
                out.push(c);
            }
            i = i - 1;
        }
        proof {
            if i == 0 {
                assert(e.take(0) =~= Seq::<EntryView>::empty());
                assert(entry_views(out@) + Seq::<EntryView>::empty() =~= entry_views(out@));
                assert(want.take(want.len() as int) =~= want);
            } else {
                assert(want.take(out@.len() as int) =~= entry_views(out@));
            }
        }
        SemanticSearchResult {
            entries: out,
            mode: SemanticRetrievalMode::SimpleBuffer,
            reason: None,
            confidential_entry_ids: Vec::new(),
        }
    }
}

/// A store into a manager's buffer keeps it within its capacity.
pub proof fn law_manager_buffer_bounded(entries: Seq<EntryView>, cap: nat, e: EntryView)
    requires
        cap >= 1,
    ensures
        keep_last(entries.push(e), cap).len() <= cap,
        keep_last(entries.push(e), cap).last() == e,
{
}

/// A `simple_buffer` search never hands back an entry of another workspace:
/// every entry it returns carries the searched workspace's tag.
pub proof fn law_simple_buffer_stays_in_workspace(entries: Seq<EntryView>, workspace_id: Seq<char>)
    ensures
        forall|i: int|
            0 <= i < tagged_newest_first(entries, workspace_tag(workspace_id)).len()
                ==> (#[trigger] tagged_newest_first(entries, workspace_tag(workspace_id))[i]).tags.contains(
                workspace_tag(workspace_id),
            ),
    decreases entries.len(),
{
    if entries.len() > 0 {
        let t = workspace_tag(workspace_id);
        law_simple_buffer_stays_in_workspace(entries.drop_last(), workspace_id);
        let res = tagged_newest_first(entries, t);
        let rest = tagged_newest_first(entries.drop_last(), t);
        if entries.last().tags.contains(t) {
            assert forall|i: int| 0 <= i < res.len() implies (#[trigger] res[i]).tags.contains(t) by {
                if i > 0 {
                    assert(res[i] == rest[i - 1]);
                }
            }
        }
    }
}


// ───────────────────────────── document chunking ─────────────────────────────

/// Whether `c` holds a character that is not white space.
pub open spec fn visible(c: Seq<char>) -> bool {
    exists|i: int| 0 <= i < c.len() && !is_ws(#[trigger] c[i])
}

/// The chunks of `n` characters that `s` is cut into (the last may be
/// shorter), without the chunks that are white space only.
pub open spec fn visible_chunks(s: Seq<char>, n: nat) -> Seq<Seq<char>>
    decreases s.len(),
{
    if s.len() == 0 || n == 0 {
        seq![]
    } else {
        let k = if s.len() <= n {
            s.len()
        } else {
            n
        };
        let c = s.take(k as int);
        let rest = visible_chunks(s.skip(k as int), n);
        if visible(c) {
            seq![c] + rest
        } else {
            rest
        }
    }
}

/// The number of chunks of `n` characters that `len` characters make.
pub open spec fn chunk_count(len: nat, n: nat) -> nat {
    if len % n == 0 {
        len / n
    } else {
        len / n + 1
    }
}

fn has_visible(c: &Vec<char>) -> (r: bool)
    ensures
        r == visible(c@),
{
    let mut i: usize = 0;
    while i < c.len()
        invariant
            i <= c.len(),
            forall|j: int| 0 <= j < i ==> is_ws(#[trigger] c@[j]),
        decreases c.len() - i,
    {
        if !char_is_ws(c[i]) {
            return true;
        }
        i = i + 1;
    }
    false
}

/// The chunks that an ingested document is stored as: 1500 characters each,
/// blank chunks left out, at most 2048 of them.
pub fn document_chunks(text: &str) -> (r: Vec<String>)
    ensures
        str_views(r@) == visible_chunks(text@, 1500).take(
            min_nat(2048, visible_chunks(text@, 1500).len()) as int,
        ),
{
    let v = chars_of(text);
    let ghost all = visible_chunks(v@, 1500);
    let mut out: Vec<String> = Vec::new();
    let mut pos: usize = 0;
    assert(v@.skip(0) =~= v@);
    assert(str_views(out@) + all =~= all);
    while pos < v.len() && out.len() < MemoryManager::MAX_INGEST_CHUNKS
        invariant
            pos <= v@.len(),
            all == visible_chunks(v@, 1500),
            out@.len() <= 2048,
            str_views(out@) + visible_chunks(v@.skip(pos as int), 1500) == all,
        decreases v@.len() - pos,
    {
        let end = if v.len() - pos > MemoryManager::DEFAULT_CHUNK_CHARS {
            pos + MemoryManager::DEFAULT_CHUNK_CHARS
        } else {
            v.len()
        };
        let c = slice_vec(&v, pos, end);
        let ghost rest = v@.skip(pos as int);
        assert(rest.take(end - pos) =~= c@);
        assert(rest.skip(end - pos) =~= v@.skip(end as int));
        if has_visible(&c) {
            let t = string_of(c.as_slice());
            proof {
                assert(str_views(out@.push(t)) =~= str_views(out@).push(t@));
                assert(str_views(out@).push(t@) + visible_chunks(v@.skip(end as int), 1500)
                    =~= str_views(out@) + visible_chunks(rest, 1500));
            }
            out.push(t);
        }
        pos = end;
    }
    proof {
        if pos >= v.len() {
            assert(v@.skip(pos as int).len() == 0);
            assert(str_views(out@) + Seq::<Seq<char>>::empty() =~= str_views(out@));
            assert(all.take(all.len() as int) =~= all);
        } else {
            assert(all.take(2048) =~= str_views(out@));
        }
    }
    out
}

/// Whether a document is longer than the chunks that ingestion keeps.
pub fn exceeds_chunk_limit(text: &str) -> (r: bool)
    ensures
        r == (chunk_count(text@.len(), 1500) > 2048),
{
    let n = chars_of(text).len();
    let count = if n % MemoryManager::DEFAULT_CHUNK_CHARS == 0 {
        n / MemoryManager::DEFAULT_CHUNK_CHARS
    } else {
        n / MemoryManager::DEFAULT_CHUNK_CHARS + 1
    };
    count > MemoryManager::MAX_INGEST_CHUNKS
}

/// The warning that an ingestion reports where the document was cut short.
pub fn truncation_warning(text: &str) -> (r: Option<String>)
    ensures
        r is Some <==> chunk_count(text@.len(), 1500) > 2048,
        r matches Some(w) ==> w@ == "Document exceeded max chunk limit (2048); ingestion truncated"@,
{
    if exceeds_chunk_limit(text) {
        Some(owned("Document exceeded max chunk limit (2048); ingestion truncated"))
    } else {
        None
    }
}

/// The warnings of an ingestion, in order: the missing embedding service,
/// the truncation, then the embedding plan's warning.
pub open spec fn ingestion_warnings(text: Seq<char>, embedder_present: bool, plan_warning: Option<Seq<char>>) -> Seq<Seq<char>> {
    (if embedder_present { seq![] } else { seq!["Gemini embedding API key unavailable; storing chunks without embeddings"@] })
        + (if chunk_count(text.len(), 1500) > 2048 { seq!["Document exceeded max chunk limit (2048); ingestion truncated"@] } else { seq![] })
        + (match plan_warning { Some(w) => seq![w], None => seq![] })
}

/// What ingesting `text` reports once every chunk is stored: the chunks
/// stored; those stored with vectors (all of them where the embedding plan
/// names a model, else none); the embedding mode (`gemini:` and the active
/// model where any chunk was embedded, else `none`); and the warnings.
/// `plan` is the embedding plan, made exactly where the embedding service
/// is there.
pub fn ingestion_result(text: &str, embedder_present: bool, plan: Option<IngestEmbeddingPlan>) -> (r: IngestionResult)
    requires
        embedder_present == plan is Some,
    ensures
        r.chunks_ingested == min_nat(2048, visible_chunks(text@, 1500).len()),
        r.chunks_embedded == (if plan matches Some(p) && p.embedding_model is Some { r.chunks_ingested } else { 0 }),
        r.embedding_mode@ == (if r.chunks_embedded > 0 { "gemini:gemini-embedding-2-preview"@ } else { "none"@ }),
        str_views(r.warnings@) == ingestion_warnings(text@, embedder_present, match plan {
            Some(p) => crate::manifest::opt_view(p.warning),
            None => None,
        }),
{
    let chunks = document_chunks(text);
    let n = chunks.len();
    assert(str_views(chunks@).len() == chunks@.len());
    assert(n == min_nat(2048, visible_chunks(text@, 1500).len()));
    let mut warnings: Vec<String> = Vec::new();
    if !embedder_present {
        warnings.push(owned("Gemini embedding API key unavailable; storing chunks without embeddings"));
    }
    match truncation_warning(text) {
        Some(w) => warnings.push(w),
        None => {},
    }
    let embedded = match plan {
        Some(p) => {
            let e = if p.embedding_model.is_some() { n } else { 0 };
            match p.warning {
                Some(w) => {
                    warnings.push(w);
                },
                None => {},
            }
            e
        },
        None => 0,
    };
    let mode = if embedded > 0 { owned("gemini:gemini-embedding-2-preview") } else { owned("none") };
    let r = IngestionResult { chunks_ingested: n, chunks_embedded: embedded, embedding_mode: mode, warnings };
    assert(str_views(r.warnings@) =~= ingestion_warnings(text@, embedder_present, match plan {
        Some(p) => crate::manifest::opt_view(p.warning),
        None => None,
    }));
    r
}

/// The tags that every chunk of an ingested document carries: its workspace,
/// its source, its type and its document id, then the caller's own tags.
pub open spec fn ingestion_tags_spec(
    workspace_id: Seq<char>,
    source_path: Seq<char>,
    doc_id: Seq<char>,
    user_tags: Seq<Seq<char>>,
) -> Seq<Seq<char>> {
    seq![
        "workspace:"@ + workspace_id,
        "source:"@ + source_path,
        "type:document"@,
        "doc:"@ + doc_id,
    ] + user_tags
}

pub fn ingestion_tags(
    workspace_id: &str,
    source_path: &str,
    doc_id: &str,
    user_tags: Option<Vec<String>>,
) -> (r: Vec<String>)
    ensures
        str_views(r@) == ingestion_tags_spec(
            workspace_id@,
            source_path@,
            doc_id@,
            match user_tags {
                Some(t) => str_views(t@),
                None => seq![],
            },
        ),
{
    let mut out: Vec<String> = Vec::new();
    out.push(concat2("workspace:", workspace_id));
    out.push(concat2("source:", source_path));
    out.push(owned("type:document"));
    out.push(concat2("doc:", doc_id));
    let ghost head = str_views(out@);
    match user_tags {
        Some(t) => {
            let mut i: usize = 0;
            while i < t.len()
                invariant
                    i <= t@.len(),
                    str_views(out@) == head + str_views(t@).take(i as int),
                decreases t@.len() - i,
            {
                let x = t[i].clone();
                proof {
                    assert(str_views(out@.push(x)) =~= str_views(out@).push(x@));
                    assert(str_views(t@).take(i + 1) =~= str_views(t@).take(i as int).push(
                        t@[i as int]@,
                    ));
                }
                out.push(x);
                i = i + 1;
            }
            assert(str_views(t@).take(i as int) =~= str_views(t@));
        },
        None => {},
    }
    assert(str_views(out@) =~= ingestion_tags_spec(
        workspace_id@,
        source_path@,
        doc_id@,
        match user_tags {
            Some(t) => str_views(t@),
            None => seq![],
        },
    ));
    out
}


// ───────────────────────────── query tokens ─────────────────────────────

/// What `str::to_lowercase` returns: the Unicode lowercase mapping of every
/// character, with the language-independent special cases.
pub uninterp spec fn unicode_lowercase(s: Seq<char>) -> Seq<char>;

/// Whether `char::is_alphanumeric` holds: the Unicode `Alphabetic` or
/// `Numeric` property.
pub uninterp spec fn unicode_alphanumeric(c: char) -> bool;

/// `str::to_lowercase` (std). Its result is named by `unicode_lowercase`.
#[verifier::external_body]
pub(crate) fn to_lowercase(s: &str) -> (r: String)
    ensures
        r@ == unicode_lowercase(s@),
{
    s.to_lowercase()
}

/// `char::is_alphanumeric` (std). Its result is named by `unicode_alphanumeric`.
#[verifier::external_body]
fn is_alphanumeric(c: char) -> (r: bool)
    ensures
        r == unicode_alphanumeric(c),
{
    c.is_alphanumeric()
}

/// `s` without the characters at its start that are not alphanumeric.
pub open spec fn strip_front(s: Seq<char>) -> Seq<char>
    decreases s.len(),
{
    if s.len() > 0 && !unicode_alphanumeric(s[0]) {
        strip_front(s.drop_first())
    } else {
        s
    }
}

/// `s` without the characters at its end that are not alphanumeric.
pub open spec fn strip_back(s: Seq<char>) -> Seq<char>
    decreases s.len(),
{
    if s.len() > 0 && !unicode_alphanumeric(s.last()) {
        strip_back(s.drop_last())
    } else {
        s
    }
}

/// `trim_matches(|c| !c.is_alphanumeric())`.
pub open spec fn alnum_core(s: Seq<char>) -> Seq<char> {
    strip_back(strip_front(s))
}

/// The non-empty cores of `words`, in order.
pub open spec fn tokens_of(ws: Seq<Seq<char>>) -> Seq<Seq<char>>
    decreases ws.len(),
{
    if ws.len() == 0 {
        seq![]
    } else {
        let t = alnum_core(ws[0]);
        (if t.len() > 0 {
            seq![t]
        } else {
            seq![]
        }) + tokens_of(ws.drop_first())
    }
}

proof fn lemma_strip_front_skip(s: Seq<char>, i: int)
    requires
        0 <= i <= s.len(),
        forall|j: int| 0 <= j < i ==> !unicode_alphanumeric(#[trigger] s[j]),
    ensures
        strip_front(s) == strip_front(s.skip(i)),
    decreases i,
{
    if i > 0 {
        lemma_strip_front_skip(s.drop_first(), i - 1);
        assert(s.drop_first().skip(i - 1) == s.skip(i));
    } else {
        assert(s.skip(0) == s);
    }
}

proof fn lemma_strip_back_take(s: Seq<char>, i: int)
    requires
        0 <= i <= s.len(),
        forall|j: int| i <= j < s.len() ==> !unicode_alphanumeric(#[trigger] s[j]),
    ensures
        strip_back(s) == strip_back(s.take(i)),
    decreases s.len() - i,
{
    if i < s.len() {
        lemma_strip_back_take(s.drop_last(), i);
        assert(s.drop_last().take(i) == s.take(i));
    } else {
        assert(s.take(i) == s);
    }
}

fn alnum_core_vec(v: &Vec<char>) -> (r: Vec<char>)
    ensures
        r@ == alnum_core(v@),
{
    let n = v.len();
    let mut lo: usize = 0;
    while lo < n && !is_alphanumeric(v[lo])
        invariant
            lo <= n == v.len(),
            forall|j: int| 0 <= j < lo ==> !unicode_alphanumeric(#[trigger] v@[j]),
        decreases n - lo,
    {
        lo = lo + 1;
    }
    proof {
        lemma_strip_front_skip(v@, lo as int);
    }
    let mut hi: usize = n;
    while hi > lo && !is_alphanumeric(v[hi - 1])
        invariant
            lo <= hi <= n == v.len(),
            forall|j: int| hi <= j < n ==> !unicode_alphanumeric(#[trigger] v@[j]),
        decreases hi,
    {
        hi = hi - 1;
    }
    proof {
        let t = v@.skip(lo as int);
        assert(strip_front(t) == t) by {
            if t.len() > 0 {
                assert(t[0] == v@[lo as int]);
            }
        }
        assert forall|j: int| (hi - lo) <= j < t.len() implies !unicode_alphanumeric(
            #[trigger] t[j],
        ) by {
            assert(t[j] == v@[lo + j]);
        }
        lemma_strip_back_take(t, hi - lo);
        let u = t.take(hi - lo);
        assert(strip_back(u) == u) by {
            if u.len() > 0 {
                assert(u.last() == v@[hi - 1]);
            }
        }
        assert(u == v@.subrange(lo as int, hi as int));
    }
    slice_vec(v, lo, hi)
}

/// The tokens that a lexical search matches: the query lowercased, split on
/// white space, each word trimmed of the characters at its ends that are not
/// alphanumeric, the empty ones left out.
pub fn normalize_query_tokens(query: &str) -> (r: Vec<String>)
    ensures
        str_views(r@) == tokens_of(words(unicode_lowercase(query@))),
{
    let lower = to_lowercase(query);
    let v = chars_of(lower.as_str());
    let ws = words_vec(&v);
    let ghost wv = words(v@);
    let mut out: Vec<String> = Vec::new();
    let mut i: usize = 0;
    assert(wv.skip(0) =~= wv);
    assert(str_views(out@) + tokens_of(wv) =~= tokens_of(wv));
    while i < ws.len()
        invariant
            i <= ws@.len(),
            ws@.len() == wv.len(),
            forall|k: int| 0 <= k < ws@.len() ==> #[trigger] ws@[k]@ == wv[k],
            str_views(out@) + tokens_of(wv.skip(i as int)) == tokens_of(wv),
        decreases ws@.len() - i,
    {
        let core = alnum_core_vec(&ws[i]);
        let ghost rest = wv.skip(i as int);
        assert(rest[0] == wv[i as int]);
        assert(rest.drop_first() =~= wv.skip(i + 1));
        if core.len() > 0 {
            let t = string_of(core.as_slice());
            proof {
                assert(str_views(out@.push(t)) =~= str_views(out@).push(t@));
                assert(str_views(out@).push(t@) + tokens_of(wv.skip(i + 1)) =~= str_views(out@)
                    + tokens_of(rest));
            }
            out.push(t);
        } else {
            assert(tokens_of(rest) =~= tokens_of(wv.skip(i + 1)));
        }
        i = i + 1;
    }
    proof {
        assert(wv.skip(i as int).len() == 0);
        assert(str_views(out@) + Seq::<Seq<char>>::empty() =~= str_views(out@));
    }
    out
}


// ───────────────────────────── recall ─────────────────────────────

/// The namespace that explicit agent memories are kept in, across chats.
pub const USER_GLOBAL_NS: &'static str = "user:global";

/// The entries whose id was not met earlier in the list: the first of each id stays.
pub open spec fn first_of_each_id(s: Seq<EntryView>) -> Seq<EntryView>
    decreases s.len(),
{
    if s.len() == 0 {
        s
    } else {
        let t = first_of_each_id(s.drop_last());
        if exists|j: int| 0 <= j < s.len() - 1 && #[trigger] s[j].id == s.last().id {
            t
        } else {
            t.push(s.last())
        }
    }
}

/// Where a stable insertion, newest first, puts `x` into `t`.
pub open spec fn time_insert_pos(t: Seq<EntryView>, x: EntryView) -> int
    decreases t.len(),
{
    if t.len() == 0 {
        0
    } else if t[0].timestamp < x.timestamp {
        0
    } else {
        1 + time_insert_pos(t.drop_first(), x)
    }
}

/// The entries newest first; entries of the same time keep their order.
pub open spec fn newest_first_stable(s: Seq<EntryView>) -> Seq<EntryView>
    decreases s.len(),
{
    if s.len() == 0 {
        s
    } else {
        let t = newest_first_stable(s.drop_last());
        t.insert(time_insert_pos(t, s.last()), s.last())
    }
}

/// What `recall_memory` returns: the hits of the global namespace, then
/// those of the workspace, each id once, newest first, at most `limit`.
pub open spec fn recall_spec(global: Seq<EntryView>, workspace: Seq<EntryView>, limit: nat) -> Seq<EntryView> {
    let all = newest_first_stable(first_of_each_id(global + workspace));
    all.take(min_nat(limit, all.len()) as int)
}

proof fn lemma_time_insert_pos_skip(t: Seq<EntryView>, x: EntryView, i: int)
    requires
        0 <= i <= t.len(),
        forall|j: int| 0 <= j < i ==> !((#[trigger] t[j]).timestamp < x.timestamp),
    ensures
        time_insert_pos(t, x) == i + time_insert_pos(t.skip(i), x),
    decreases i,
{
    if i == 0 {
        assert(t.skip(0) =~= t);
    } else {
        lemma_time_insert_pos_skip(t.drop_first(), x, i - 1);
        assert(t.drop_first().skip(i - 1) =~= t.skip(i));
    }
}

fn id_seen_before(v: &Vec<MemoryEntry>, i: usize) -> (r: bool)
    requires
        i < v.len(),
    ensures
        r == exists|j: int| 0 <= j < i && #[trigger] v@[j]@.id == v@[i as int]@.id,
{
    let mut j: usize = 0;
    while j < i
        invariant
            i < v.len(),
            j <= i,
            forall|k: int| 0 <= k < j ==> (#[trigger] v@[k]@).id != v@[i as int]@.id,
        decreases i - j,
    {
        if crate::text::str_eq(v[j].id.as_str(), v[i].id.as_str()) {
            assert(v@[j as int]@.id == v@[i as int]@.id);
            return true;
        }
        j = j + 1;
    }
    false
}

/// Merges the recall hits of the global namespace and of the workspace.
pub fn merge_recall(global_hits: &Vec<MemoryEntry>, workspace_hits: &Vec<MemoryEntry>, limit: usize) -> (r: Vec<MemoryEntry>)
    ensures
        entry_views(r@) == recall_spec(entry_views(global_hits@), entry_views(workspace_hits@), limit as nat),
{
    let mut all: Vec<MemoryEntry> = Vec::new();
    let mut i: usize = 0;
    while i < global_hits.len()
        invariant
            i <= global_hits@.len(),
            entry_views(all@) == entry_views(global_hits@).take(i as int),
        decreases global_hits@.len() - i,
    {
        let e = global_hits[i].copy();
        proof {
            assert(entry_views(all@.push(e)) =~= entry_views(all@).push(e@));
            assert(entry_views(global_hits@).take(i + 1) =~= entry_views(global_hits@).take(i as int).push(global_hits@[i as int]@));
        }
        all.push(e);
        i = i + 1;
    }
    assert(entry_views(global_hits@).take(i as int) =~= entry_views(global_hits@));
    let mut k: usize = 0;
    while k < workspace_hits.len()
        invariant
            k <= workspace_hits@.len(),
            entry_views(all@) == entry_views(global_hits@) + entry_views(workspace_hits@).take(k as int),
        decreases workspace_hits@.len() - k,
    {
        let e = workspace_hits[k].copy();
        proof {
            assert(entry_views(all@.push(e)) =~= entry_views(all@).push(e@));
            assert(entry_views(workspace_hits@).take(k + 1) =~= entry_views(workspace_hits@).take(k as int).push(workspace_hits@[k as int]@));
        }
        all.push(e);
        k = k + 1;
    }
    assert(entry_views(workspace_hits@).take(k as int) =~= entry_views(workspace_hits@));
    let ghost fv = entry_views(all@);
    let mut uniq: Vec<MemoryEntry> = Vec::new();
    let mut a: usize = 0;
    while a < all.len()
        invariant
            a <= all@.len(),
            fv == entry_views(all@),
            entry_views(uniq@) == first_of_each_id(fv.take(a as int)),
        decreases all@.len() - a,
    {
        let ghost pre = fv.take(a + 1);
        assert(pre.drop_last() =~= fv.take(a as int));
        assert(pre.last() == all@[a as int]@);
        let dup = id_seen_before(&all, a);
        proof {
            if dup {
                let j = choose|j: int| 0 <= j < a && #[trigger] all@[j]@.id == all@[a as int]@.id;
                assert(pre[j] == all@[j]@);
            } else {
                assert forall|j: int| 0 <= j < pre.len() - 1 implies #[trigger] pre[j].id != pre.last().id by {
                    assert(pre[j] == all@[j]@);
                }
            }
        }
        if !dup {
            let c = all[a].copy();
            proof {
                assert(entry_views(uniq@.push(c)) =~= entry_views(uniq@).push(c@));
            }
            uniq.push(c);
        }
        a = a + 1;
    }
    assert(fv.take(a as int) =~= fv);
    let ghost u = entry_views(uniq@);
    let mut out: Vec<MemoryEntry> = Vec::new();
    let mut b: usize = 0;
    while b < uniq.len()
        invariant
            b <= uniq@.len(),
            u == entry_views(uniq@),
            entry_views(out@) == newest_first_stable(u.take(b as int)),
        decreases uniq@.len() - b,
    {
        let x = uniq[b].copy();
        let mut p: usize = 0;
        while p < out.len() && !(out[p].timestamp < x.timestamp)
            invariant
                p <= out@.len(),
                forall|j: int| 0 <= j < p ==> !((#[trigger] entry_views(out@)[j]).timestamp < x@.timestamp),
            decreases out@.len() - p,
        {
            p = p + 1;
        }
        proof {
            let t = entry_views(out@);
            lemma_time_insert_pos_skip(t, x@, p as int);
            if p < out@.len() {
                assert(t.skip(p as int)[0] == t[p as int]);
            }
            assert(time_insert_pos(t, x@) == p);
            assert(u.take(b + 1).drop_last() =~= u.take(b as int));
            assert(u.take(b + 1).last() == x@);
            assert(entry_views(out@.insert(p as int, x)) =~= t.insert(p as int, x@));
        }
        out.insert(p, x);
        b = b + 1;
    }
    assert(u.take(b as int) =~= u);
    let ghost sorted = entry_views(out@);
    let n = if limit < out.len() {
        limit
    } else {
        out.len()
    };
    out.truncate(n);
    assert(entry_views(out@) =~= sorted.take(n as int));
    out
}

/// The content of a `save_memory` call, which must not be blank.
pub fn save_memory_content(content: Option<&str>) -> (r: Result<String, String>)
    ensures
        match content {
            Some(c) => if crate::text::trim(c@).len() > 0 {
                r matches Ok(s) && s@ == c@
            } else {
                r matches Err(e) && e@ == "save_memory requires a non-empty 'content' field"@
            },
            None => r matches Err(e) && e@ == "save_memory requires a non-empty 'content' field"@,
        },
{
    match content {
        Some(c) => if crate::text::trim_vec(&chars_of(c)).len() > 0 {
            Ok(owned(c))
        } else {
            Err(owned("save_memory requires a non-empty 'content' field"))
        },
        None => Err(owned("save_memory requires a non-empty 'content' field")),
    }
}

/// A recall never hands back an id twice.
pub proof fn law_first_of_each_id_is_distinct(s: Seq<EntryView>)
    ensures
        forall|i: int, j: int|
            0 <= i < j < first_of_each_id(s).len() ==> #[trigger] first_of_each_id(s)[i].id != #[trigger] first_of_each_id(s)[j].id,
    decreases s.len(),
{
    if s.len() > 0 {
        law_first_of_each_id_is_distinct(s.drop_last());
        lemma_first_of_each_id_from(s.drop_last());
        let t = first_of_each_id(s.drop_last());
        if !(exists|j: int| 0 <= j < s.len() - 1 && #[trigger] s[j].id == s.last().id) {
            let r = t.push(s.last());
            assert forall|i: int, j: int| 0 <= i < j < r.len() implies #[trigger] r[i].id != #[trigger] r[j].id by {
                if j == r.len() - 1 {
                    let k = choose|k: int| 0 <= k < s.drop_last().len() && s.drop_last()[k] == t[i];
                    assert(s[k] == s.drop_last()[k]);
                }
            }
        }
    }
}

proof fn lemma_first_of_each_id_from(s: Seq<EntryView>)
    ensures
        forall|i: int| 0 <= i < first_of_each_id(s).len() ==> exists|k: int| 0 <= k < s.len() && s[k] == #[trigger] first_of_each_id(s)[i],
    decreases s.len(),
{
    if s.len() > 0 {
        lemma_first_of_each_id_from(s.drop_last());
        let t = first_of_each_id(s.drop_last());
        let r = first_of_each_id(s);
        assert forall|i: int| 0 <= i < r.len() implies exists|k: int| 0 <= k < s.len() && s[k] == #[trigger] r[i] by {
            if i < t.len() {
                let k = choose|k: int| 0 <= k < s.drop_last().len() && s.drop_last()[k] == #[trigger] t[i];
                assert(s[k] == s.drop_last()[k]);
            } else {
                assert(r[i] == s[s.len() - 1]);
            }
        }
    }
}

} // verus!
