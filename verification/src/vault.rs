//! The encrypted memory vault's plain parts: the labels stored beside each
//! entry, the embedding profiles, the column layout of the entries table,
//! and the filtered, paginated queries on it.
use vstd::prelude::*;
use crate::text::{decimal, decimal_string, join, join_vecs, owned, push_all, str_eq, views};

verus! {

// ───────────────────────────── labels ─────────────────────────────

/// Who may see a memory entry.
#[derive(Debug, Clone, Copy, PartialEq, Eq, Structural)]
pub enum MemorySensitivity {
    Public,
    Internal,
    Confidential,
}

impl MemorySensitivity {
    pub open spec fn name_spec(&self) -> Seq<char> {
        match self {
            MemorySensitivity::Public => "public"@,
            MemorySensitivity::Internal => "internal"@,
            MemorySensitivity::Confidential => "confidential"@,
        }
    }

    /// The label as the vault stores it.
    pub fn as_str(&self) -> (r: &'static str)
        ensures
            r@ == self.name_spec(),
    {
        match self {
            MemorySensitivity::Public => "public",
            MemorySensitivity::Internal => "internal",
            MemorySensitivity::Confidential => "confidential",
        }
    }

    pub open spec fn from_db_spec(value: Seq<char>) -> MemorySensitivity {
        if value == "public"@ {
            MemorySensitivity::Public
        } else if value == "confidential"@ {
            MemorySensitivity::Confidential
        } else {
            MemorySensitivity::Internal
        }
    }

    /// The label read back from the vault; anything unknown is `Internal`.
    pub fn from_db(value: &str) -> (r: Self)
        ensures
            r == Self::from_db_spec(value@),
    {
        if str_eq(value, "public") {
            MemorySensitivity::Public
        } else if str_eq(value, "confidential") {
            MemorySensitivity::Confidential
        } else {
            MemorySensitivity::Internal
        }
    }
}

/// What kind of knowledge a distilled memory holds.
#[derive(Debug, Clone, Copy, PartialEq, Eq, Structural)]
pub enum MemoryCategory {
    Preference,
    Correction,
    Fact,
    Procedure,
    Observation,
}

impl MemoryCategory {
    pub open spec fn name_spec(&self) -> Seq<char> {
        match self {
            MemoryCategory::Preference => "preference"@,
            MemoryCategory::Correction => "correction"@,
            MemoryCategory::Fact => "fact"@,
            MemoryCategory::Procedure => "procedure"@,
            MemoryCategory::Observation => "observation"@,
        }
    }

    pub fn as_str(&self) -> (r: &'static str)
        ensures
            r@ == self.name_spec(),
    {
        match self {
            MemoryCategory::Preference => "preference",
            MemoryCategory::Correction => "correction",
            MemoryCategory::Fact => "fact",
            MemoryCategory::Procedure => "procedure",
            MemoryCategory::Observation => "observation",
        }
    }

    pub open spec fn from_str_loose_spec(s: Seq<char>) -> MemoryCategory {
        if s == "preference"@ {
            MemoryCategory::Preference
        } else if s == "correction"@ {
            MemoryCategory::Correction
        } else if s == "fact"@ {
            MemoryCategory::Fact
        } else if s == "procedure"@ {
            MemoryCategory::Procedure
        } else {
            MemoryCategory::Observation
        }
    }

    /// The category named by `s`; anything unknown is `Observation`.
    pub fn from_str_loose(s: &str) -> (r: Self)
        ensures
            r == Self::from_str_loose_spec(s@),
    {
        if str_eq(s, "preference") {
            MemoryCategory::Preference
        } else if str_eq(s, "correction") {
            MemoryCategory::Correction
        } else if str_eq(s, "fact") {
            MemoryCategory::Fact
        } else if str_eq(s, "procedure") {
            MemoryCategory::Procedure
        } else {
            MemoryCategory::Observation
        }
    }
}

/// Reading a label back gives the label that was written.
pub proof fn law_sensitivity_round_trip(s: MemorySensitivity)
    ensures
        MemorySensitivity::from_db_spec(s.name_spec()) == s,
{
    reveal_strlit("public");
    reveal_strlit("internal");
    reveal_strlit("confidential");
    assert("internal"@[0] != "public"@[0]);
    assert("internal"@[0] != "confidential"@[0]);
    assert("confidential"@[0] != "public"@[0]);
}

/// Reading a category name back gives the category that was written.
pub proof fn law_category_round_trip(c: MemoryCategory)
    ensures
        MemoryCategory::from_str_loose_spec(c.name_spec()) == c,
{
    reveal_strlit("preference");
    reveal_strlit("correction");
    reveal_strlit("fact");
    reveal_strlit("procedure");
    reveal_strlit("observation");
    assert("preference"@[0] != "correction"@[0]);
    assert("preference"@[0] != "fact"@[0]);
    assert("preference"@[2] != "procedure"@[2]);
    assert("correction"@[0] != "fact"@[0]);
    assert("correction"@[0] != "procedure"@[0]);
    assert("fact"@[0] != "procedure"@[0]);
    assert("observation"@[0] != "preference"@[0]);
    assert("observation"@[0] != "correction"@[0]);
    assert("observation"@[0] != "fact"@[0]);
    assert("observation"@[0] != "procedure"@[0]);
}

/// How a vector search ran: through the index, or by scanning.
#[derive(Debug, Clone, Copy, PartialEq, Eq, Structural)]
pub enum VectorSearchMode {
    Ann,
    Exact,
}

// ───────────────────────────── embedding profiles ─────────────────────────────

/// An embedding model and the dimension of its vectors.
#[derive(Debug, Clone, Copy)]
pub struct EmbeddingProfile {
    pub model: &'static str,
    pub dim: usize,
}

pub const EMBEDDING_PROVIDER: &'static str = "gemini";

pub const EMBEDDING_DIM: usize = 3072;

pub fn gemini_embedding_2_preview() -> (r: EmbeddingProfile)
    ensures
        r.model@ == "gemini-embedding-2-preview"@,
        r.dim == 3072,
{
    EmbeddingProfile { model: "gemini-embedding-2-preview", dim: 3072 }
}

pub fn gemini_embedding_001() -> (r: EmbeddingProfile)
    ensures
        r.model@ == "gemini-embedding-001"@,
        r.dim == 3072,
{
    EmbeddingProfile { model: "gemini-embedding-001", dim: 3072 }
}

/// The profile that new entries are embedded with.
pub fn active_embedding_profile() -> (r: EmbeddingProfile)
    ensures
        r.model@ == "gemini-embedding-2-preview"@,
        r.dim == EMBEDDING_DIM,
{
    gemini_embedding_2_preview()
}

/// The profile whose vectors are kept beside the active ones.
pub fn fallback_embedding_profile() -> (r: EmbeddingProfile)
    ensures
        r.model@ == "gemini-embedding-001"@,
        r.dim == EMBEDDING_DIM,
{
    gemini_embedding_001()
}

// ───────────────────────────── retention ─────────────────────────────

/// The creation time (seconds since the Unix epoch) before which entries
/// are pruned at `now` under a retention of `retention_days`: none where
/// the retention is 0 days, which keeps everything.
pub fn retention_cutoff(now: i64, retention_days: u32) -> (r: Option<i64>)
    requires
        now >= i64::MIN + 86400 * 4294967295,
    ensures
        retention_days == 0 ==> r is None,
        retention_days > 0 ==> r == Some((now - retention_days * 86400) as i64),
{
    if retention_days == 0 {
        None
    } else {
        Some(now - (retention_days as i64) * 86400)
    }
}

// ───────────────────────────── re-embedding old entries ─────────────────────────────

/// The rows that lack current vectors are collected in pages of this many.
pub const BACKFILL_PAGE_SIZE: usize = 500;

/// The entries are re-embedded in batches of this many.
pub const BACKFILL_BATCH_SIZE: usize = 16;

/// The offset of the next page of ids to collect after a page of
/// `page_count` rows at `offset`: none once a page comes back short.
pub fn next_backfill_offset(page_count: usize, offset: usize) -> (r: Option<usize>)
    requires
        offset + BACKFILL_PAGE_SIZE <= usize::MAX,
    ensures
        page_count < BACKFILL_PAGE_SIZE ==> r is None,
        page_count >= BACKFILL_PAGE_SIZE ==> r == Some((offset + BACKFILL_PAGE_SIZE) as usize),
{
    if page_count < BACKFILL_PAGE_SIZE {
        None
    } else {
        Some(offset + BACKFILL_PAGE_SIZE)
    }
}

/// An entry needs new vectors unless it was embedded with the active
/// model at its dimension.
pub fn needs_reembed(embedding_dim: Option<usize>, embedding_model: Option<&str>) -> (r: bool)
    ensures
        r == !(embedding_dim == Some(EMBEDDING_DIM) && match embedding_model {
            Some(m) => m@ == "gemini-embedding-2-preview"@,
            None => false,
        }),
{
    let dim_ok = match embedding_dim {
        Some(d) => d == EMBEDDING_DIM,
        None => false,
    };
    let model_ok = match embedding_model {
        Some(m) => crate::text::str_eq(m, "gemini-embedding-2-preview"),
        None => false,
    };
    !(dim_ok && model_ok)
}

/// Whether a batch of entries takes its vectors from the batch answer:
/// only where the batch request gave one vector per entry (`returned` is
/// the number it gave, `None` where it failed); otherwise each entry is
/// embedded on its own.
pub fn use_batch_vectors(returned: Option<usize>, entries: usize) -> (r: bool)
    ensures
        r == (returned == Some(entries)),
{
    match returned {
        Some(n) => n == entries,
        None => false,
    }
}

/// The batches of `n` ids, in order: ranges of 16, the last one shorter.
pub fn backfill_batches(n: usize) -> (r: Vec<(usize, usize)>)
    ensures
        r@.len() == (n + 15) / 16,
        forall|i: int| 0 <= i < r@.len() ==> (#[trigger] r@[i]).0 == 16 * i
            && r@[i].1 == if 16 * i + 16 <= n { 16 * i + 16 } else { n as int },
{
    let count: usize = n / 16 + if n % 16 != 0 { 1 } else { 0 };
    assert(count == (n + 15) / 16) by (nonlinear_arith)
        requires
            count == n / 16 + if n % 16 != 0 { 1int } else { 0int },
    ;
    let mut r: Vec<(usize, usize)> = Vec::new();
    let mut k: usize = 0;
    while k < count
        invariant
            k <= count,
            count == (n + 15) / 16,
            r@.len() == k,
            forall|i: int| 0 <= i < r@.len() ==> (#[trigger] r@[i]).0 == 16 * i
                && r@[i].1 == if 16 * i + 16 <= n { 16 * i + 16 } else { n as int },
        decreases count - k,
    {
        assert(16 * k < n) by (nonlinear_arith)
            requires
                k < count,
                count == (n + 15) / 16,
        ;
        let lo = 16 * k;
        let hi = if n - lo >= 16 { lo + 16 } else { n };
        r.push((lo, hi));
        k = k + 1;
    }
    r
}

// ───────────────────────────── rows and statistics ─────────────────────────────

/// A row of the entries table, content still encrypted.
#[derive(Debug)]
pub struct VaultRow {
    pub id: String,
    pub workspace_id: String,
    pub source: String,
    pub sensitivity: String,
    pub created_at: i64,
    pub last_accessed: i64,
    pub access_count: i64,
    pub content_ciphertext: Vec<u8>,
    pub content_nonce: Vec<u8>,
    pub tags_ciphertext: Vec<u8>,
    pub tags_nonce: Vec<u8>,
    pub metadata_ciphertext: Option<Vec<u8>>,
    pub metadata_nonce: Option<Vec<u8>>,
    pub embedding: Option<Vec<u8>>,
    pub embedding_model: Option<String>,
    pub embedding_provider: Option<String>,
    pub embedding_dim: Option<usize>,
}

#[derive(Debug, Clone, Copy)]
pub struct MemoryVaultStats {
    pub total_entries: usize,
    pub workspace_entries: usize,
}

#[derive(Debug)]
pub struct WorkspaceSummary {
    pub workspace_id: String,
    pub entry_count: usize,
}

/// A turn of conversation, before it is distilled into memories.
#[derive(Debug)]
pub struct RawMemoryTurn {
    pub content: String,
    pub role: String,
    pub source: String,
    pub workspace_id: String,
    pub timestamp: i64,
}

/// Detailed statistics of the vault. The counts by sensitivity and by
/// source are pairs of label and count.
#[derive(Debug)]
pub struct VaultDetailedStats {
    pub total_entries: usize,
    pub workspace_entries: usize,
    pub entries_by_sensitivity: Vec<(String, usize)>,
    pub entries_by_source: Vec<(String, usize)>,
    pub has_embeddings: usize,
    pub missing_embeddings: usize,
    pub oldest_entry: Option<i64>,
    pub newest_entry: Option<i64>,
}

// ───────────────────────────── column layout ─────────────────────────────

/// The columns of every query on the entries table, in the order that
/// positional access relies on.
pub open spec fn vault_columns() -> Seq<Seq<char>> {
    seq![
        "id"@,
        "workspace_id"@,
        "source"@,
        "sensitivity"@,
        "created_at"@,
        "last_accessed"@,
        "access_count"@,
        "content_ciphertext"@,
        "content_nonce"@,
        "tags_ciphertext"@,
        "tags_nonce"@,
        "metadata_ciphertext"@,
        "metadata_nonce"@,
        "embedding"@,
        "embedding_model"@,
        "embedding_provider"@,
        "embedding_dim"@,
    ]
}

fn vault_column_names() -> (r: Vec<&'static str>)
    ensures
        r@.map_values(|s: &str| s@) == vault_columns(),
{
    let r: Vec<&'static str> = vec![
        "id",
        "workspace_id",
        "source",
        "sensitivity",
        "created_at",
        "last_accessed",
        "access_count",
        "content_ciphertext",
        "content_nonce",
        "tags_ciphertext",
        "tags_nonce",
        "metadata_ciphertext",
        "metadata_nonce",
        "embedding",
        "embedding_model",
        "embedding_provider",
        "embedding_dim",
    ];
    assert(r@.map_values(|s: &str| s@) =~= vault_columns());
    r
}

/// Maps column names to their positions in a row.
#[derive(Debug)]
pub struct ColumnMap {
    names: Vec<String>,
}

/// The position of the first `field` among `names`.
pub open spec fn position_of(names: Seq<Seq<char>>, field: Seq<char>) -> Option<int>
    decreases names.len(),
{
    if names.len() == 0 {
        None
    } else if names[0] == field {
        Some(0)
    } else {
        match position_of(names.drop_first(), field) {
            Some(i) => Some(i + 1),
            None => None,
        }
    }
}

proof fn lemma_position_skip(names: Seq<Seq<char>>, field: Seq<char>, i: int)
    requires
        0 <= i < names.len(),
        names[i] != field,
    ensures
        position_of(names.skip(i), field) == match position_of(names.skip(i + 1), field) {
            Some(j) => Some(j + 1),
            None => None::<int>,
        },
{
    assert(names.skip(i)[0] == names[i]);
    assert(names.skip(i).drop_first() =~= names.skip(i + 1));
}

impl ColumnMap {
    pub closed spec fn names_spec(&self) -> Seq<Seq<char>> {
        self.names@.map_values(|s: String| s@)
    }

    pub fn from_columns(cols: &[&str]) -> (r: Self)
        ensures
            r.names_spec() == cols@.map_values(|s: &str| s@),
    {
        let mut names: Vec<String> = Vec::new();
        let mut i: usize = 0;
        while i < cols.len()
            invariant
                i <= cols@.len(),
                names@.map_values(|s: String| s@) == cols@.map_values(|s: &str| s@).take(i as int),
            decreases cols@.len() - i,
        {
            let x = owned(cols[i]);
            proof {
                assert(names@.push(x).map_values(|s: String| s@) =~= names@.map_values(
                    |s: String| s@,
                ).push(x@));
                assert(cols@.map_values(|s: &str| s@).take(i + 1) =~= cols@.map_values(
                    |s: &str| s@,
                ).take(i as int).push(cols@[i as int]@));
            }
            names.push(x);
            i = i + 1;
        }
        assert(cols@.map_values(|s: &str| s@).take(i as int) =~= cols@.map_values(|s: &str| s@));
        ColumnMap { names }
    }

    pub open spec fn unknown_field_message(field: Seq<char>) -> Seq<char> {
        "ColumnMap: unknown field '"@ + field + "'"@
    }

    /// The position of `field` in a row, or the error that names it.
    pub fn index_of(&self, field: &str) -> (r: Result<usize, String>)
        ensures
            match position_of(self.names_spec(), field@) {
                Some(i) => r == Ok::<usize, String>(i as usize),
                None => r matches Err(e) && e@ == Self::unknown_field_message(field@),
            },
    {
        let ghost ns = self.names_spec();
        let mut i: usize = 0;
        assert(ns.skip(0) =~= ns);
        while i < self.names.len()
            invariant
                i <= self.names@.len(),
                ns == self.names_spec(),
                position_of(ns, field@) == match position_of(ns.skip(i as int), field@) {
                    Some(j) => Some(j + i),
                    None => None::<int>,
                },
            decreases self.names@.len() - i,
        {
            if str_eq(self.names[i].as_str(), field) {
                assert(ns.skip(i as int)[0] == ns[i as int]);
                return Ok(i);
            }
            proof {
                lemma_position_skip(ns, field@, i as int);
            }
            i = i + 1;
        }
        assert(ns.skip(i as int).len() == 0);
        let mut msg: Vec<char> = Vec::new();
        push_all(&mut msg, &crate::text::chars_of("ColumnMap: unknown field '"));
        push_all(&mut msg, &crate::text::chars_of(field));
        push_all(&mut msg, &crate::text::chars_of("'"));
        assert(msg@ =~= Self::unknown_field_message(field@));
        Err(crate::text::string_of(msg.as_slice()))
    }
}

/// The column map of the entries table.
pub fn vault_column_map() -> (r: ColumnMap)
    ensures
        r.names_spec() == vault_columns(),
{
    let cols = vault_column_names();
    ColumnMap::from_columns(cols.as_slice())
}

/// The column list of a `SELECT` on the entries table.
pub fn vault_select_columns() -> (r: String)
    ensures
        r@ == join(vault_columns(), ", "@),
{
    let cols = vault_column_names();
    let mut parts: Vec<Vec<char>> = Vec::new();
    let mut i: usize = 0;
    while i < cols.len()
        invariant
            i <= cols@.len(),
            cols@.map_values(|s: &str| s@) == vault_columns(),
            views(parts@) == vault_columns().take(i as int),
        decreases cols@.len() - i,
    {
        let x = crate::text::chars_of(cols[i]);
        proof {
            assert(views(parts@.push(x)) =~= views(parts@).push(x@));
            assert(vault_columns().take(i + 1) =~= vault_columns().take(i as int).push(
                vault_columns()[i as int],
            ));
        }
        parts.push(x);
        i = i + 1;
    }
    assert(vault_columns().take(i as int) =~= vault_columns());
    let sep = crate::text::chars_of(", ");
    let joined = join_vecs(&parts, &sep);
    crate::text::string_of(joined.as_slice())
}

// ───────────────────────────── queries ─────────────────────────────

/// The order of a listing.
#[derive(Debug, Clone, Copy, PartialEq, Eq, Structural)]
pub enum OrderBy {
    CreatedDesc,
    LastAccessedDesc,
    AccessCountDesc,
}

impl OrderBy {
    pub open spec fn sql_spec(&self) -> Seq<char> {
        match self {
            OrderBy::CreatedDesc => "created_at DESC"@,
            OrderBy::LastAccessedDesc => "last_accessed DESC"@,
            OrderBy::AccessCountDesc => "access_count DESC"@,
        }
    }

    pub fn as_sql(&self) -> (r: &'static str)
        ensures
            r@ == self.sql_spec(),
    {
        match self {
            OrderBy::CreatedDesc => "created_at DESC",
            OrderBy::LastAccessedDesc => "last_accessed DESC",
            OrderBy::AccessCountDesc => "access_count DESC",
        }
    }

    pub open spec fn from_str_loose_spec(s: Seq<char>) -> OrderBy {
        if s == "last_accessed"@ {
            OrderBy::LastAccessedDesc
        } else if s == "access_count"@ {
            OrderBy::AccessCountDesc
        } else {
            OrderBy::CreatedDesc
        }
    }

    /// The order named by `s`; anything unknown is newest first.
    pub fn from_str_loose(s: &str) -> (r: Self)
        ensures
            r == Self::from_str_loose_spec(s@),
    {
        if str_eq(s, "last_accessed") {
            OrderBy::LastAccessedDesc
        } else if str_eq(s, "access_count") {
            OrderBy::AccessCountDesc
        } else {
            OrderBy::CreatedDesc
        }
    }
}

/// A value bound to a query parameter.
#[derive(Debug)]
pub enum QueryValue {
    Text(String),
    Integer(i64),
}

pub enum QueryValueView {
    Text(Seq<char>),
    Integer(i64),
}

impl View for QueryValue {
    type V = QueryValueView;

    open spec fn view(&self) -> QueryValueView {
        match self {
            QueryValue::Text(s) => QueryValueView::Text(s@),
            QueryValue::Integer(i) => QueryValueView::Integer(*i),
        }
    }
}

pub open spec fn values_view(v: Seq<QueryValue>) -> Seq<QueryValueView> {
    v.map_values(|x: QueryValue| x@)
}

/// Options of a filtered listing, as a caller sends them.
#[derive(Debug)]
pub struct ListFilteredOpts {
    pub workspace_id: Option<String>,
    pub sensitivity: Option<String>,
    pub source_prefix: Option<String>,
    pub created_after: Option<i64>,
    pub created_before: Option<i64>,
    pub order_by: Option<String>,
    pub limit: Option<usize>,
    pub offset: Option<usize>,
}

/// A filtered, paginated query on the entries table.
#[derive(Debug)]
pub struct VaultQuery {
    pub workspace_id: Option<String>,
    pub sensitivity: Option<String>,
    pub source_prefix: Option<String>,
    pub created_after: Option<i64>,
    pub created_before: Option<i64>,
    pub order_by: OrderBy,
    pub limit: usize,
    pub offset: usize,
}

/// One filter of a query: the clause before its parameter number, and the
/// value bound to that parameter.
pub open spec fn filters(q: VaultQuery) -> Seq<(Seq<char>, QueryValueView)> {
    (match q.workspace_id {
        Some(w) => seq![("workspace_id = ?"@, QueryValueView::Text(w@))],
        None => seq![],
    }) + (match q.sensitivity {
        Some(s) => seq![("sensitivity = ?"@, QueryValueView::Text(s@))],
        None => seq![],
    }) + (match q.source_prefix {
        Some(p) => seq![("source LIKE ?"@, QueryValueView::Text(p@ + "%"@))],
        None => seq![],
    }) + (match q.created_after {
        Some(a) => seq![("created_at >= ?"@, QueryValueView::Integer(a))],
        None => seq![],
    }) + (match q.created_before {
        Some(b) => seq![("created_at <= ?"@, QueryValueView::Integer(b))],
        None => seq![],
    })
}

/// The clauses of the filters, each with its parameter number (from one).
pub open spec fn numbered_clauses(f: Seq<(Seq<char>, QueryValueView)>) -> Seq<Seq<char>> {
    Seq::new(f.len(), |i: int| f[i].0 + decimal((i + 1) as nat))
}

/// The `WHERE` clause of a query, empty where nothing is filtered.
pub open spec fn where_clause(q: VaultQuery) -> Seq<char> {
    if filters(q).len() == 0 {
        seq![]
    } else {
        "WHERE "@ + join(numbered_clauses(filters(q)), " AND "@)
    }
}

pub open spec fn where_values(q: VaultQuery) -> Seq<QueryValueView> {
    filters(q).map_values(|f: (Seq<char>, QueryValueView)| f.1)
}

/// The `SELECT` of one page of the query's rows.
pub open spec fn select_sql(q: VaultQuery) -> Seq<char> {
    "SELECT "@ + join(vault_columns(), ", "@) + " FROM memory_vault_entries "@ + where_clause(q)
        + " ORDER BY "@ + q.order_by.sql_spec() + " LIMIT ?"@ + decimal(
        (filters(q).len() + 1) as nat,
    ) + " OFFSET ?"@ + decimal((filters(q).len() + 2) as nat)
}

/// The parameters of the page's `SELECT`: the filters' values, then the
/// limit and the offset.
pub open spec fn select_values(q: VaultQuery) -> Seq<QueryValueView> {
    where_values(q).push(QueryValueView::Integer(q.limit as i64)).push(
        QueryValueView::Integer(q.offset as i64),
    )
}

/// The `SELECT` that counts the query's rows, whatever the page.
pub open spec fn count_sql(q: VaultQuery) -> Seq<char> {
    "SELECT COUNT(*) FROM memory_vault_entries "@ + where_clause(q)
}

/// Pushes one filter's clause and value.
fn push_filter(
    clauses: &mut Vec<Vec<char>>,
    values: &mut Vec<QueryValue>,
    head: &str,
    value: QueryValue,
)
    requires
        old(clauses)@.len() == old(values)@.len(),
        old(values)@.len() < 5,
    ensures
        views(final(clauses)@) == views(old(clauses)@).push(
            head@ + decimal((old(values)@.len() + 1) as nat),
        ),
        values_view(final(values)@) == values_view(old(values)@).push(value@),
        final(clauses)@.len() == old(clauses)@.len() + 1,
        final(values)@.len() == old(values)@.len() + 1,
{
    let ghost v = value@;
    values.push(value);
    let mut c = crate::text::chars_of(head);
    crate::text::push_decimal(&mut c, values.len() as u64);
    clauses.push(c);
    assert(views(clauses@) =~= views(old(clauses)@).push(
        head@ + decimal((old(values)@.len() + 1) as nat),
    ));
    assert(values_view(values@) =~= values_view(old(values)@).push(v));
}

impl VaultQuery {
    /// The query of a listing: at most one hundred rows a page, twenty where
    /// no limit is asked, from the start where no offset is, newest first
    /// where no known order is.
    pub fn from_opts(opts: ListFilteredOpts) -> (r: Self)
        ensures
            r.workspace_id == opts.workspace_id,
            r.sensitivity == opts.sensitivity,
            r.source_prefix == opts.source_prefix,
            r.created_after == opts.created_after,
            r.created_before == opts.created_before,
            r.order_by == OrderBy::from_str_loose_spec(
                match opts.order_by {
                    Some(o) => o@,
                    None => "created_at"@,
                },
            ),
            r.limit == match opts.limit {
                Some(l) => if l < 100 {
                    l
                } else {
                    100
                },
                None => 20,
            },
            r.offset == match opts.offset {
                Some(o) => o,
                None => 0,
            },
    {
        let limit = match opts.limit {
            Some(l) => if l < 100 {
                l
            } else {
                100
            },
            None => 20,
        };
        let offset = match opts.offset {
            Some(o) => o,
            None => 0,
        };
        let order_by = match &opts.order_by {
            Some(o) => OrderBy::from_str_loose(o.as_str()),
            None => OrderBy::from_str_loose("created_at"),
        };
        VaultQuery {
            workspace_id: opts.workspace_id,
            sensitivity: opts.sensitivity,
            source_prefix: opts.source_prefix,
            created_after: opts.created_after,
            created_before: opts.created_before,
            order_by,
            limit,
            offset,
        }
    }

    /// The `WHERE` clause and the values of its parameters.
    pub fn build_where(&self) -> (r: (String, Vec<QueryValue>))
        ensures
            r.0@ == where_clause(*self),
            values_view(r.1@) == where_values(*self),
            r.1@.len() == filters(*self).len(),
            r.1@.len() <= 5,
    {
        let mut clauses: Vec<Vec<char>> = Vec::new();
        let mut values: Vec<QueryValue> = Vec::new();
        let ghost f = filters(*self);
        match &self.workspace_id {
            Some(w) => push_filter(&mut clauses, &mut values, "workspace_id = ?", QueryValue::Text(w.clone())),
            None => {},
        }
        match &self.sensitivity {
            Some(s) => push_filter(&mut clauses, &mut values, "sensitivity = ?", QueryValue::Text(s.clone())),
            None => {},
        }
        match &self.source_prefix {
            Some(p) => {
                let t = crate::text::concat2(p.as_str(), "%");
                push_filter(&mut clauses, &mut values, "source LIKE ?", QueryValue::Text(t));
            },
            None => {},
        }
        match self.created_after {
            Some(a) => push_filter(&mut clauses, &mut values, "created_at >= ?", QueryValue::Integer(a)),
            None => {},
        }
        match self.created_before {
            Some(b) => push_filter(&mut clauses, &mut values, "created_at <= ?", QueryValue::Integer(b)),
            None => {},
        }
        assert(views(clauses@) =~= numbered_clauses(f));
        assert(values_view(values@) =~= where_values(*self));
        if clauses.len() == 0 {
            (String::new(), values)
        } else {
            let mut out = crate::text::chars_of("WHERE ");
            let sep = crate::text::chars_of(" AND ");
            let joined = join_vecs(&clauses, &sep);
            push_all(&mut out, &joined);
            (crate::text::string_of(out.as_slice()), values)
        }
    }

    /// The `SELECT` of one page and the values of its parameters.
    pub fn select_statement(&self) -> (r: (String, Vec<QueryValue>))
        ensures
            r.0@ == select_sql(*self),
            values_view(r.1@) == select_values(*self),
    {
        let (w, mut values) = self.build_where();
        let n = values.len();
        let mut out = crate::text::chars_of("SELECT ");
        push_all(&mut out, &crate::text::chars_of(vault_select_columns().as_str()));
        push_all(&mut out, &crate::text::chars_of(" FROM memory_vault_entries "));
        push_all(&mut out, &crate::text::chars_of(w.as_str()));
        push_all(&mut out, &crate::text::chars_of(" ORDER BY "));
        push_all(&mut out, &crate::text::chars_of(self.order_by.as_sql()));
        push_all(&mut out, &crate::text::chars_of(" LIMIT ?"));
        crate::text::push_decimal(&mut out, (n + 1) as u64);
        push_all(&mut out, &crate::text::chars_of(" OFFSET ?"));
        crate::text::push_decimal(&mut out, (n + 2) as u64);
        assert(out@ =~= select_sql(*self));
        let ghost before = values_view(values@);
        values.push(QueryValue::Integer(self.limit as i64));
        values.push(QueryValue::Integer(self.offset as i64));
        assert(values_view(values@) =~= select_values(*self));
        (crate::text::string_of(out.as_slice()), values)
    }

    /// The `SELECT` that counts the matching rows, and its parameters.
    pub fn count_statement(&self) -> (r: (String, Vec<QueryValue>))
        ensures
            r.0@ == count_sql(*self),
            values_view(r.1@) == where_values(*self),
    {
        let (w, values) = self.build_where();
        let mut out = crate::text::chars_of("SELECT COUNT(*) FROM memory_vault_entries ");
        push_all(&mut out, &crate::text::chars_of(w.as_str()));
        assert(out@ =~= count_sql(*self));
        (crate::text::string_of(out.as_slice()), values)
    }
}

impl Default for VaultQuery {
    fn default() -> (r: Self)
        ensures
            r.workspace_id is None,
            r.sensitivity is None,
            r.source_prefix is None,
            r.created_after is None,
            r.created_before is None,
            r.order_by == OrderBy::CreatedDesc,
            r.limit == 20,
            r.offset == 0,
    {
        VaultQuery {
            workspace_id: None,
            sensitivity: None,
            source_prefix: None,
            created_after: None,
            created_before: None,
            order_by: OrderBy::CreatedDesc,
            limit: 20,
            offset: 0,
        }
    }
}

/// Every parameter that a query's `SELECT` names is bound: the statement
/// numbers its parameters from one to the count of its values.
pub proof fn law_select_parameters_bound(q: VaultQuery)
    ensures
        select_values(q).len() == filters(q).len() + 2,
        numbered_clauses(filters(q)).len() == where_values(q).len(),
{
}

} // verus!
