//! User settings: the preferences that the desktop app keeps, their
//! defaults, the migration of stale embedding models, and the per-workspace
//! tool policy floors and MCP server list. Reading and writing the settings
//! file is the caller's part: every setter changes the settings held here,
//! which the caller then persists.
use vstd::prelude::*;
use crate::executor::{ToolAccessPolicy, ToolPolicyView};
use crate::text::{eq_ignore_ascii_case, eq_ignore_case, chars_of, concat3, owned, str_eq};
use crate::order::{lex_le, lex_le_vec};
use crate::third_party::{first_where, lemma_first_where_props, lemma_first_where_skip};

verus! {

// ───────────────────────────── keyed lists ─────────────────────────────

/// Does a pair have key `k`?
pub open spec fn key_is<V>(k: Seq<char>) -> spec_fn((Seq<char>, V)) -> bool {
    |e: (Seq<char>, V)| e.0 == k
}

/// The position of the first pair whose key is `k`.
pub open spec fn key_pos<V>(s: Seq<(Seq<char>, V)>, k: Seq<char>) -> Option<int> {
    first_where(s, key_is::<V>(k))
}

/// The value that a list of pairs holds for `k`: that of the first pair with
/// that key.
pub open spec fn lookup<V>(s: Seq<(Seq<char>, V)>, k: Seq<char>) -> Option<V> {
    match key_pos(s, k) {
        Some(i) => Some(s[i].1),
        None => None,
    }
}

/// The list with `k` bound to `v`: the first pair with key `k` replaced,
/// else a pair appended.
pub open spec fn assign<V>(s: Seq<(Seq<char>, V)>, k: Seq<char>, v: V) -> Seq<(Seq<char>, V)> {
    match key_pos(s, k) {
        Some(i) => s.update(i, (k, v)),
        None => s.push((k, v)),
    }
}

/// What a binding reads back: the value just bound for its key, and the old
/// value for every other key.
pub proof fn law_assign_then_lookup<V>(s: Seq<(Seq<char>, V)>, k: Seq<char>, v: V, k2: Seq<char>)
    ensures
        lookup(assign(s, k, v), k) == Some(v),
        k2 != k ==> lookup(assign(s, k, v), k2) == lookup(s, k2),
{
    let p = key_is::<V>(k);
    let p2 = key_is::<V>(k2);
    let a = assign(s, k, v);
    lemma_first_where_props(s, p);
    lemma_first_where_props(a, p);
    lemma_first_where_props(s, p2);
    lemma_first_where_props(a, p2);
    match key_pos(s, k) {
        Some(i) => {
            assert(p(a[i]));
            match first_where(a, p) {
                Some(j) => {
                    if j < i {
                        assert(a[j] == s[j]);
                    }
                    if j > i {
                        assert(!p(a[i]));
                    }
                },
                None => {
                    assert(!p(a[i]));
                },
            }
        },
        None => {
            let n = s.len() as int;
            assert(p(a[n]));
            match first_where(a, p) {
                Some(j) => {
                    if j < n {
                        assert(a[j] == s[j]);
                    }
                },
                None => {
                    assert(!p(a[n]));
                },
            }
        },
    }
    if k2 != k {
        match first_where(s, p2) {
            Some(i) => {
                assert(a[i] == s[i]) by {
                    match key_pos(s, k) {
                        Some(ik) => {
                            assert(ik != i);
                        },
                        None => {},
                    }
                }
                match first_where(a, p2) {
                    Some(j) => {
                        if j < i {
                            assert(!p2(s[j]));
                            match key_pos(s, k) {
                                Some(ik) => {
                                    if j == ik {
                                        assert(a[j].0 == k);
                                    } else {
                                        assert(a[j] == s[j]);
                                    }
                                },
                                None => {
                                    assert(a[j] == s[j]);
                                },
                            }
                        }
                        if j > i {
                            assert(!p2(a[i]));
                        }
                    },
                    None => {
                        assert(!p2(a[i]));
                    },
                }
            },
            None => {
                match first_where(a, p2) {
                    Some(j) => {
                        match key_pos(s, k) {
                            Some(ik) => {
                                if j == ik {
                                    assert(a[j].0 == k);
                                } else {
                                    assert(a[j] == s[j]);
                                }
                            },
                            None => {
                                if j < s.len() {
                                    assert(a[j] == s[j]);
                                } else {
                                    assert(a[j].0 == k);
                                }
                            },
                        }
                    },
                    None => {},
                }
            },
        }
    }
}

/// A list of pairs with its keys taken by their views.
pub open spec fn pairs_view<V>(s: Seq<(String, V)>) -> Seq<(Seq<char>, V)> {
    s.map_values(|e: (String, V)| (e.0@, e.1))
}

fn find_key<V>(s: &Vec<(String, V)>, k: &str) -> (r: Option<usize>)
    ensures
        match key_pos(pairs_view(s@), k@) {
            Some(i) => r matches Some(x) && x as int == i && 0 <= i < s@.len(),
            None => r is None,
        },
{
    let ghost sv = pairs_view(s@);
    let ghost p = key_is::<V>(k@);
    let mut i: usize = 0;
    while i < s.len()
        invariant
            i <= s@.len(),
            sv == pairs_view(s@),
            p == key_is::<V>(k@),
            forall|j: int| 0 <= j < i ==> !p(#[trigger] sv[j]),
        decreases s@.len() - i,
    {
        if str_eq(s[i].0.as_str(), k) {
            proof {
                lemma_first_where_skip(sv, p, i as int);
                assert(sv.skip(i as int)[0] == sv[i as int]);
            }
            return Some(i);
        }
        i = i + 1;
    }
    proof {
        lemma_first_where_skip(sv, p, i as int);
        assert(sv.skip(i as int).len() == 0);
    }
    None
}

// ───────────────────────────── settings types ─────────────────────────────

/// An AI model that the user can select.
#[derive(Debug)]
pub struct ModelOption {
    pub id: String,
    pub name: String,
    pub description: String,
    pub thinking_level: String,
    pub is_premium: bool,
    pub is_available: bool,
    pub provider: String,
}

pub struct ModelOptionView {
    pub id: Seq<char>,
    pub name: Seq<char>,
    pub description: Seq<char>,
    pub thinking_level: Seq<char>,
    pub is_premium: bool,
    pub is_available: bool,
    pub provider: Seq<char>,
}

impl View for ModelOption {
    type V = ModelOptionView;

    open spec fn view(&self) -> ModelOptionView {
        ModelOptionView {
            id: self.id@,
            name: self.name@,
            description: self.description@,
            thinking_level: self.thinking_level@,
            is_premium: self.is_premium,
            is_available: self.is_available,
            provider: self.provider@,
        }
    }
}

pub open spec fn model_views(s: Seq<ModelOption>) -> Seq<ModelOptionView> {
    s.map_values(|m: ModelOption| m@)
}

impl ModelOption {
    pub fn copy(&self) -> (r: Self)
        ensures
            r@ == self@,
    {
        ModelOption {
            id: self.id.clone(),
            name: self.name.clone(),
            description: self.description.clone(),
            thinking_level: self.thinking_level.clone(),
            is_premium: self.is_premium,
            is_available: self.is_available,
            provider: self.provider.clone(),
        }
    }
}

/// A model of the built-in catalog, as the catalog lookup gives it.
#[derive(Debug)]
pub struct CatalogModel {
    pub slug: String,
    pub name: String,
    pub description: String,
    pub thinking_level: Option<String>,
}

/// A capability flag of a model listed by the Rainy API: a plain switch, or
/// a detailed description of the capability.
#[derive(Debug)]
pub enum CapabilityFlag {
    Bool(bool),
    Detailed,
}

/// A model as the Rainy API's model catalog lists it: what the options read.
#[derive(Debug)]
pub struct ModelCatalogItem {
    pub id: String,
    pub name: Option<String>,
    pub reasoning: Option<CapabilityFlag>,
}

/// What the Rainy API gave when asked for its models.
#[derive(Debug)]
pub enum ModelListing {
    /// The detailed catalog, each item with its entry in the built-in catalog, if any.
    Catalog(Vec<(ModelCatalogItem, Option<CatalogModel>)>),
    /// Only the model slugs, each with its entry in the built-in catalog, if any.
    Slugs(Vec<(String, Option<CatalogModel>)>),
    /// Nothing: no provider, or both requests failed.
    Unavailable,
}

/// The option of a model that the built-in catalog knows.
pub open spec fn catalog_option(e: CatalogModel) -> ModelOptionView {
    ModelOptionView {
        id: e.slug@,
        name: e.name@,
        description: e.description@,
        thinking_level: match e.thinking_level {
            Some(t) => t@,
            None => "n/a"@,
        },
        is_premium: true,
        is_available: true,
        provider: "Rainy API"@,
    }
}

/// The option of a model discovered by its slug alone.
pub open spec fn slug_option(slug: Seq<char>, e: Option<CatalogModel>) -> ModelOptionView {
    match e {
        Some(e) => catalog_option(e),
        None => ModelOptionView {
            id: slug,
            name: slug,
            description: "Discovered dynamically from Rainy API v3."@,
            thinking_level: "n/a"@,
            is_premium: true,
            is_available: true,
            provider: "Rainy API"@,
        },
    }
}

/// The option of a model listed in the detailed catalog.
pub open spec fn item_option(item: ModelCatalogItem, e: Option<CatalogModel>) -> ModelOptionView {
    match e {
        Some(e) => catalog_option(e),
        None => ModelOptionView {
            id: item.id@,
            name: match item.name {
                Some(n) => n@,
                None => item.id@,
            },
            description: "Discovered dynamically from Rainy API v3."@,
            thinking_level: if item.reasoning matches Some(CapabilityFlag::Bool(true)) {
                "dynamic"@
            } else {
                "n/a"@
            },
            is_premium: true,
            is_available: true,
            provider: "Rainy API"@,
        },
    }
}

fn catalog_option_exec(e: &CatalogModel) -> (r: ModelOption)
    ensures
        r@ == catalog_option(*e),
{
    ModelOption {
        id: e.slug.clone(),
        name: e.name.clone(),
        description: e.description.clone(),
        thinking_level: match &e.thinking_level {
            Some(t) => t.clone(),
            None => owned("n/a"),
        },
        is_premium: true,
        is_available: true,
        provider: owned("Rainy API"),
    }
}

/// Whether a capability flag is the plain switch set on.
pub fn capability_flag_enabled(flag: Option<&CapabilityFlag>) -> (r: bool)
    ensures
        r == (flag matches Some(CapabilityFlag::Bool(true))),
{
    match flag {
        Some(CapabilityFlag::Bool(b)) => *b,
        _ => false,
    }
}

/// The option of a model discovered by its slug; `catalog` is the built-in
/// catalog's entry for the slug, if it has one.
pub fn dynamic_model_option(slug: &str, catalog: Option<&CatalogModel>) -> (r: ModelOption)
    ensures
        r@ == slug_option(slug@, match catalog {
            Some(e) => Some(*e),
            None => None,
        }),
{
    match catalog {
        Some(e) => catalog_option_exec(e),
        None => ModelOption {
            id: owned(slug),
            name: owned(slug),
            description: owned("Discovered dynamically from Rainy API v3."),
            thinking_level: owned("n/a"),
            is_premium: true,
            is_available: true,
            provider: owned("Rainy API"),
        },
    }
}

/// The option of a model listed in the detailed catalog; `catalog` is the
/// built-in catalog's entry for its id, if it has one.
pub fn dynamic_model_option_from_catalog(item: &ModelCatalogItem, catalog: Option<&CatalogModel>) -> (r: ModelOption)
    ensures
        r@ == item_option(*item, match catalog {
            Some(e) => Some(*e),
            None => None,
        }),
{
    match catalog {
        Some(e) => catalog_option_exec(e),
        None => {
            let thinking = if capability_flag_enabled(
                match &item.reasoning {
                    Some(f) => Some(f),
                    None => None,
                },
            ) {
                owned("dynamic")
            } else {
                owned("n/a")
            };
            ModelOption {
                id: item.id.clone(),
                name: match &item.name {
                    Some(n) => n.clone(),
                    None => item.id.clone(),
                },
                description: owned("Discovered dynamically from Rainy API v3."),
                thinking_level: thinking,
                is_premium: true,
                is_available: true,
                provider: owned("Rainy API"),
            }
        },
    }
}

/// Order of the model list: by name (`str::cmp`).
pub open spec fn name_insert_pos(t: Seq<ModelOptionView>, x: ModelOptionView) -> int
    decreases t.len(),
{
    if t.len() == 0 {
        0
    } else if !lex_le(t[0].name, x.name) {
        0
    } else {
        1 + name_insert_pos(t.drop_first(), x)
    }
}

/// The options sorted by name; options of equal names keep their order.
pub open spec fn by_name(s: Seq<ModelOptionView>) -> Seq<ModelOptionView>
    decreases s.len(),
{
    if s.len() == 0 {
        s
    } else {
        let t = by_name(s.drop_last());
        t.insert(name_insert_pos(t, s.last()), s.last())
    }
}

/// The options without those whose id equals the id of the option just
/// before them in the list (the first of each run stays).
pub open spec fn dedup_ids(s: Seq<ModelOptionView>) -> Seq<ModelOptionView>
    decreases s.len(),
{
    if s.len() == 0 {
        s
    } else {
        let t = dedup_ids(s.drop_last());
        if s.len() >= 2 && s[s.len() - 2].id == s.last().id {
            t
        } else {
            t.push(s.last())
        }
    }
}

/// The options of a listing, in the listing's order.
pub open spec fn listing_options(l: ModelListing) -> Seq<ModelOptionView> {
    match l {
        ModelListing::Catalog(items) => Seq::new(items@.len(), |i: int| item_option(items@[i].0, items@[i].1)),
        ModelListing::Slugs(slugs) => Seq::new(slugs@.len(), |i: int| slug_option(slugs@[i].0@, slugs@[i].1)),
        ModelListing::Unavailable => Seq::empty(),
    }
}

proof fn lemma_name_insert_pos_skip(t: Seq<ModelOptionView>, x: ModelOptionView, i: int)
    requires
        0 <= i <= t.len(),
        forall|j: int| 0 <= j < i ==> lex_le(#[trigger] t[j].name, x.name),
    ensures
        name_insert_pos(t, x) == i + name_insert_pos(t.skip(i), x),
    decreases i,
{
    if i == 0 {
        assert(t.skip(0) =~= t);
    } else {
        lemma_name_insert_pos_skip(t.drop_first(), x, i - 1);
        assert(t.drop_first().skip(i - 1) =~= t.skip(i));
    }
}

fn sort_options_by_name(v: Vec<ModelOption>) -> (r: Vec<ModelOption>)
    ensures
        model_views(r@) == by_name(model_views(v@)),
{
    let ghost u = model_views(v@);
    let mut out: Vec<ModelOption> = Vec::new();
    let mut k: usize = 0;
    while k < v.len()
        invariant
            k <= v.len(),
            u == model_views(v@),
            model_views(out@) == by_name(u.take(k as int)),
        decreases v.len() - k,
    {
        let x = v[k].copy();
        let xn = chars_of(x.name.as_str());
        let mut p: usize = 0;
        while p < out.len() && lex_le_vec(&chars_of(out[p].name.as_str()), &xn)
            invariant
                p <= out.len(),
                xn@ == x@.name,
                forall|j: int| 0 <= j < p ==> lex_le(#[trigger] model_views(out@)[j].name, x@.name),
            decreases out.len() - p,
        {
            p = p + 1;
        }
        proof {
            let t = model_views(out@);
            lemma_name_insert_pos_skip(t, x@, p as int);
            if p < out.len() {
                assert(t.skip(p as int)[0] == t[p as int]);
            }
            assert(name_insert_pos(t, x@) == p);
            assert(u.take(k + 1).drop_last() =~= u.take(k as int));
            assert(u.take(k + 1).last() == x@);
            assert(model_views(out@.insert(p as int, x)) =~= t.insert(p as int, x@));
        }
        out.insert(p, x);
        k = k + 1;
    }
    assert(u.take(k as int) =~= u);
    out
}

fn dedup_options(v: Vec<ModelOption>) -> (r: Vec<ModelOption>)
    ensures
        model_views(r@) == dedup_ids(model_views(v@)),
{
    let ghost u = model_views(v@);
    let mut out: Vec<ModelOption> = Vec::new();
    let mut k: usize = 0;
    while k < v.len()
        invariant
            k <= v.len(),
            u == model_views(v@),
            model_views(out@) == dedup_ids(u.take(k as int)),
        decreases v.len() - k,
    {
        let ghost pre = u.take(k + 1);
        assert(pre.drop_last() =~= u.take(k as int));
        assert(pre.last() == u[k as int]);
        let repeat = k > 0 && str_eq(v[k - 1].id.as_str(), v[k].id.as_str());
        proof {
            if k > 0 {
                assert(pre[pre.len() - 2] == u[k - 1]);
            }
        }
        if !repeat {
            let x = v[k].copy();
            assert(model_views(out@.push(x)) =~= model_views(out@).push(x@));
            out.push(x);
        }
        k = k + 1;
    }
    assert(u.take(k as int) =~= u);
    out
}

/// The models the user can select: the options of the listing, sorted by
/// name, without an option whose id repeats the one just before it.
pub fn get_available_models(listing: &ModelListing) -> (r: Vec<ModelOption>)
    ensures
        model_views(r@) == dedup_ids(by_name(listing_options(*listing))),
{
    let mut models: Vec<ModelOption> = Vec::new();
    match listing {
        ModelListing::Catalog(items) => {
            let mut i: usize = 0;
            while i < items.len()
                invariant
                    i <= items.len(),
                    *listing == ModelListing::Catalog(*items),
                    model_views(models@) == listing_options(*listing).take(i as int),
                decreases items.len() - i,
            {
                let entry: Option<&CatalogModel> = match &items[i].1 {
                    Some(e) => Some(e),
                    None => None,
                };
                assert(match entry { Some(e) => Some(*e), None => None } == items@[i as int].1);
                let m = dynamic_model_option_from_catalog(&items[i].0, entry);
                assert(m@ == listing_options(*listing)[i as int]);
                assert(model_views(models@.push(m)) =~= model_views(models@).push(m@));
                assert(listing_options(*listing).take(i + 1) =~= listing_options(*listing).take(i as int).push(listing_options(*listing)[i as int]));
                models.push(m);
                i = i + 1;
            }
            assert(listing_options(*listing).take(i as int) =~= listing_options(*listing));
        },
        ModelListing::Slugs(slugs) => {
            let mut i: usize = 0;
            while i < slugs.len()
                invariant
                    i <= slugs.len(),
                    *listing == ModelListing::Slugs(*slugs),
                    model_views(models@) == listing_options(*listing).take(i as int),
                decreases slugs.len() - i,
            {
                let entry: Option<&CatalogModel> = match &slugs[i].1 {
                    Some(e) => Some(e),
                    None => None,
                };
                assert(match entry { Some(e) => Some(*e), None => None } == slugs@[i as int].1);
                let m = dynamic_model_option(slugs[i].0.as_str(), entry);
                assert(m@ == listing_options(*listing)[i as int]);
                assert(model_views(models@.push(m)) =~= model_views(models@).push(m@));
                assert(listing_options(*listing).take(i + 1) =~= listing_options(*listing).take(i as int).push(listing_options(*listing)[i as int]));
                models.push(m);
                i = i + 1;
            }
            assert(listing_options(*listing).take(i as int) =~= listing_options(*listing));
        },
        ModelListing::Unavailable => {
            assert(model_views(models@) =~= listing_options(*listing));
        },
    }
    let sorted = sort_options_by_name(models);
    dedup_options(sorted)
}

/// Who the user is, for personalisation and cloud identity.
#[derive(Debug)]
pub struct UserProfile {
    pub display_name: String,
    pub email: String,
    pub organization: String,
    pub role: String,
}

pub struct ProfileView {
    pub display_name: Seq<char>,
    pub email: Seq<char>,
    pub organization: Seq<char>,
    pub role: Seq<char>,
}

impl View for UserProfile {
    type V = ProfileView;

    open spec fn view(&self) -> ProfileView {
        ProfileView {
            display_name: self.display_name@,
            email: self.email@,
            organization: self.organization@,
            role: self.role@,
        }
    }
}

impl UserProfile {
    pub fn copy(&self) -> (r: Self)
        ensures
            r@ == self@,
    {
        UserProfile {
            display_name: self.display_name.clone(),
            email: self.email.clone(),
            organization: self.organization.clone(),
            role: self.role.clone(),
        }
    }
}

impl Default for UserProfile {
    fn default() -> (r: Self)
        ensures
            r.display_name@ == "Rainy User"@,
            r.email@ == ""@,
            r.organization@ == ""@,
            r.role@ == "Builder"@,
    {
        UserProfile {
            display_name: owned("Rainy User"),
            email: owned(""),
            organization: owned(""),
            role: owned("Builder"),
        }
    }
}

/// A workspace's tool access policy with the version and fingerprint it was
/// accepted at.
#[derive(Debug)]
pub struct WorkspaceToolPolicyState {
    pub tool_access_policy: ToolAccessPolicy,
    pub tool_access_policy_version: u64,
    pub tool_access_policy_hash: String,
}

pub struct PolicyStateView {
    pub policy: ToolPolicyView,
    pub version: u64,
    pub hash: Seq<char>,
}

impl View for WorkspaceToolPolicyState {
    type V = PolicyStateView;

    open spec fn view(&self) -> PolicyStateView {
        PolicyStateView {
            policy: self.tool_access_policy@,
            version: self.tool_access_policy_version,
            hash: self.tool_access_policy_hash@,
        }
    }
}

impl WorkspaceToolPolicyState {
    pub fn copy(&self) -> (r: Self)
        ensures
            r@ == self@,
    {
        WorkspaceToolPolicyState {
            tool_access_policy: self.tool_access_policy.copy(),
            tool_access_policy_version: self.tool_access_policy_version,
            tool_access_policy_hash: self.tool_access_policy_hash.clone(),
        }
    }
}

/// An MCP server that the user registered: its name, which identifies it
/// without regard to ASCII case, and the rest of its configuration as JSON.
#[derive(Debug)]
pub struct PersistedMcpServerConfig {
    pub name: String,
    pub config_json: String,
}

pub struct McpServerView {
    pub name: Seq<char>,
    pub config_json: Seq<char>,
}

impl View for PersistedMcpServerConfig {
    type V = McpServerView;

    open spec fn view(&self) -> McpServerView {
        McpServerView { name: self.name@, config_json: self.config_json@ }
    }
}

impl PersistedMcpServerConfig {
    pub fn copy(&self) -> (r: Self)
        ensures
            r@ == self@,
    {
        PersistedMcpServerConfig { name: self.name.clone(), config_json: self.config_json.clone() }
    }
}

pub open spec fn servers_view(s: Seq<PersistedMcpServerConfig>) -> Seq<McpServerView> {
    s.map_values(|c: PersistedMcpServerConfig| c@)
}

pub open spec fn floors_view(s: Seq<(String, u64)>) -> Seq<(Seq<char>, u64)> {
    pairs_view(s)
}

pub open spec fn policies_view(s: Seq<(String, WorkspaceToolPolicyState)>) -> Seq<
    (Seq<char>, WorkspaceToolPolicyState),
> {
    pairs_view(s)
}

/// The user's settings. The per-workspace maps are lists of pairs, keyed by
/// workspace id.
#[derive(Debug)]
pub struct UserSettings {
    pub selected_model: String,
    pub theme: String,
    pub notifications_enabled: bool,
    pub profile: UserProfile,
    pub auto_reconnect_cloud: bool,
    pub tool_policy_version_floor: Vec<(String, u64)>,
    pub workspace_tool_access_policies: Vec<(String, WorkspaceToolPolicyState)>,
    pub embedder_provider: String,
    pub embedder_model: String,
    /// The MCP permission mode by its serialized name; `ask` by default.
    pub mcp_permission_mode: String,
    pub mcp_servers: Vec<PersistedMcpServerConfig>,
}

impl Default for UserSettings {
    fn default() -> (r: Self)
        ensures
            r.selected_model@ == "gemini-3-flash-preview"@,
            r.theme@ == "system"@,
            r.notifications_enabled,
            r.profile.display_name@ == "Rainy User"@,
            r.profile.email@ == ""@,
            r.profile.organization@ == ""@,
            r.profile.role@ == "Builder"@,
            r.auto_reconnect_cloud,
            r.tool_policy_version_floor@.len() == 0,
            r.workspace_tool_access_policies@.len() == 0,
            r.embedder_provider@ == "gemini"@,
            r.embedder_model@ == "gemini-embedding-2-preview"@,
            r.mcp_permission_mode@ == "ask"@,
            r.mcp_servers@.len() == 0,
    {
        UserSettings {
            selected_model: owned("gemini-3-flash-preview"),
            theme: owned("system"),
            notifications_enabled: true,
            profile: UserProfile::default(),
            auto_reconnect_cloud: true,
            tool_policy_version_floor: Vec::new(),
            workspace_tool_access_policies: Vec::new(),
            embedder_provider: owned("gemini"),
            embedder_model: owned("gemini-embedding-2-preview"),
            mcp_permission_mode: owned("ask"),
            mcp_servers: Vec::new(),
        }
    }
}

/// The embedding model that stored settings are migrated to: current Gemini
/// models stay, retired ones become `gemini-embedding-001`, anything else the
/// active model. Other providers keep their model.
pub open spec fn migrated_embedder_model(provider: Seq<char>, model: Seq<char>) -> Seq<char> {
    if provider != "gemini"@ {
        model
    } else if model == "gemini-embedding-2-preview"@ || model == "gemini-embedding-001"@ {
        model
    } else if model == "text-embedding-004"@ || model == "embedding-001"@ || model
        == "embedding-gecko-001"@ || model == "gemini-embedding-exp"@ || model
        == "gemini-embedding-exp-03-07"@ {
        "gemini-embedding-001"@
    } else {
        "gemini-embedding-2-preview"@
    }
}

pub fn migrate_embedder_model(provider: &str, model: &str) -> (r: String)
    ensures
        r@ == migrated_embedder_model(provider@, model@),
{
    if !str_eq(provider, "gemini") {
        owned(model)
    } else if str_eq(model, "gemini-embedding-2-preview") || str_eq(model, "gemini-embedding-001") {
        owned(model)
    } else if str_eq(model, "text-embedding-004") || str_eq(model, "embedding-001") || str_eq(
        model,
        "embedding-gecko-001",
    ) || str_eq(model, "gemini-embedding-exp") || str_eq(model, "gemini-embedding-exp-03-07") {
        owned("gemini-embedding-001")
    } else {
        owned("gemini-embedding-2-preview")
    }
}

/// Loading keeps a current Gemini embedding model: for provider `gemini` and model
/// `gemini-embedding-2-preview` or `gemini-embedding-001` the model stays as it was (so stored
/// default settings come back unchanged); every Gemini model ends as one of these two; and a
/// migrated model is left alone by a second migration.
pub proof fn law_current_embedder_models_stay(provider: Seq<char>, model: Seq<char>)
    ensures
        provider == "gemini"@ && (model == "gemini-embedding-2-preview"@ || model
            == "gemini-embedding-001"@) ==> migrated_embedder_model(provider, model) == model,
        provider == "gemini"@ ==> (migrated_embedder_model(provider, model)
            == "gemini-embedding-2-preview"@ || migrated_embedder_model(provider, model)
            == "gemini-embedding-001"@),
        provider != "gemini"@ ==> migrated_embedder_model(provider, model) == model,
        migrated_embedder_model(provider, migrated_embedder_model(provider, model))
            == migrated_embedder_model(provider, model),
        provider == "gemini"@ && set![
            "text-embedding-004"@,
            "embedding-001"@,
            "embedding-gecko-001"@,
            "gemini-embedding-exp"@,
            "gemini-embedding-exp-03-07"@,
        ].contains(model) ==> migrated_embedder_model(provider, model) == "gemini-embedding-001"@,
{
    lemma_embedder_model_names();
}

/// Lengths, and where a length is shared a telling character, of the embedding model names.
proof fn lemma_embedder_model_names()
    ensures
        "gemini-embedding-2-preview"@.len() == 26 && "gemini-embedding-2-preview"@[17] == '2',
        "gemini-embedding-001"@.len() == 20 && "gemini-embedding-001"@[17] == '0',
        "text-embedding-004"@.len() == 18,
        "embedding-001"@.len() == 13,
        "embedding-gecko-001"@.len() == 19,
        "gemini-embedding-exp"@.len() == 20 && "gemini-embedding-exp"@[17] == 'e',
        "gemini-embedding-exp-03-07"@.len() == 26 && "gemini-embedding-exp-03-07"@[17] == 'e',
{
    reveal_strlit("gemini-embedding-2-preview");
    reveal_strlit("gemini-embedding-001");
    reveal_strlit("text-embedding-004");
    reveal_strlit("embedding-001");
    reveal_strlit("embedding-gecko-001");
    reveal_strlit("gemini-embedding-exp");
    reveal_strlit("gemini-embedding-exp-03-07");
}

// ───────────────────────────── MCP server list ─────────────────────────────

/// Is a server named `name`, ASCII case aside?
pub open spec fn named_server(name: Seq<char>) -> spec_fn(McpServerView) -> bool {
    |c: McpServerView| eq_ignore_case(c.name, name)
}

/// The position of the first server whose name equals `name` without regard
/// to ASCII case.
pub open spec fn server_pos(s: Seq<McpServerView>, name: Seq<char>) -> Option<int> {
    first_where(s, named_server(name))
}

/// The list after `c` is upserted: it replaces the first server of the same
/// name, or is appended.
pub open spec fn upsert_server(s: Seq<McpServerView>, c: McpServerView) -> Seq<McpServerView> {
    match server_pos(s, c.name) {
        Some(i) => s.update(i, c),
        None => s.push(c),
    }
}

/// The list without the servers named `name`.
pub open spec fn without_server(s: Seq<McpServerView>, name: Seq<char>) -> Seq<McpServerView>
    decreases s.len(),
{
    if s.len() == 0 {
        seq![]
    } else if eq_ignore_case(s.last().name, name) {
        without_server(s.drop_last(), name)
    } else {
        without_server(s.drop_last(), name).push(s.last())
    }
}

pub open spec fn has_server(s: Seq<McpServerView>, name: Seq<char>) -> bool {
    exists|i: int| 0 <= i < s.len() && eq_ignore_case(#[trigger] s[i].name, name)
}

pub open spec fn server_not_found(name: Seq<char>) -> Seq<char> {
    "MCP server '"@ + name + "' not found"@
}

proof fn lemma_without_server(s: Seq<McpServerView>, name: Seq<char>)
    ensures
        without_server(s, name).len() <= s.len(),
        without_server(s, name).len() == s.len() <==> !has_server(s, name),
        !has_server(without_server(s, name), name),
    decreases s.len(),
{
    if s.len() > 0 {
        let d = s.drop_last();
        lemma_without_server(d, name);
        let w = without_server(d, name);
        if has_server(d, name) {
            let i = choose|i: int| 0 <= i < d.len() && eq_ignore_case(#[trigger] d[i].name, name);
            assert(s[i] == d[i]);
        }
        if eq_ignore_case(s.last().name, name) {
            assert(eq_ignore_case(s[s.len() - 1].name, name));
        } else {
            let ww = w.push(s.last());
            if has_server(ww, name) {
                let i = choose|i: int| 0 <= i < ww.len() && eq_ignore_case(#[trigger] ww[i].name, name);
                assert(ww[i] == w[i]);
            }
            if has_server(s, name) {
                let i = choose|i: int| 0 <= i < s.len() && eq_ignore_case(#[trigger] s[i].name, name);
                assert(d[i] == s[i]);
            }
        }
    }
}

// ───────────────────────────── the manager ─────────────────────────────

/// The settings in force and the path of the file they are kept in.
#[derive(Debug)]
pub struct SettingsManager {
    settings_path: String,
    settings: UserSettings,
}

impl SettingsManager {
    pub closed spec fn path_spec(&self) -> Seq<char> {
        self.settings_path@
    }

    pub closed spec fn settings_spec(&self) -> UserSettings {
        self.settings
    }

    /// The manager of the settings file at `settings_path`. `stored` is what
    /// the file held, where it could be read and parsed: its embedding model
    /// is migrated. Without it the defaults are in force.
    pub fn new(settings_path: String, stored: Option<UserSettings>) -> (r: Self)
        ensures
            r.path_spec() == settings_path@,
            match stored {
                Some(s) => {
                    &&& r.settings_spec().selected_model == s.selected_model
                    &&& r.settings_spec().theme == s.theme
                    &&& r.settings_spec().notifications_enabled == s.notifications_enabled
                    &&& r.settings_spec().profile == s.profile
                    &&& r.settings_spec().auto_reconnect_cloud == s.auto_reconnect_cloud
                    &&& r.settings_spec().tool_policy_version_floor == s.tool_policy_version_floor
                    &&& r.settings_spec().workspace_tool_access_policies
                        == s.workspace_tool_access_policies
                    &&& r.settings_spec().embedder_provider == s.embedder_provider
                    &&& r.settings_spec().embedder_model@ == migrated_embedder_model(
                        s.embedder_provider@,
                        s.embedder_model@,
                    )
                    &&& r.settings_spec().mcp_permission_mode == s.mcp_permission_mode
                    &&& r.settings_spec().mcp_servers == s.mcp_servers
                },
                None => {
                    &&& r.settings_spec().selected_model@ == "gemini-3-flash-preview"@
                    &&& r.settings_spec().theme@ == "system"@
                    &&& r.settings_spec().notifications_enabled
                    &&& r.settings_spec().profile.display_name@ == "Rainy User"@
                    &&& r.settings_spec().profile.email@ == ""@
                    &&& r.settings_spec().profile.organization@ == ""@
                    &&& r.settings_spec().profile.role@ == "Builder"@
                    &&& r.settings_spec().auto_reconnect_cloud
                    &&& r.settings_spec().tool_policy_version_floor@.len() == 0
                    &&& r.settings_spec().workspace_tool_access_policies@.len() == 0
                    &&& r.settings_spec().embedder_provider@ == "gemini"@
                    &&& r.settings_spec().embedder_model@ == "gemini-embedding-2-preview"@
                    &&& r.settings_spec().mcp_permission_mode@ == "ask"@
                    &&& r.settings_spec().mcp_servers@.len() == 0
                },
            },
    {
        let settings = match stored {
            Some(mut s) => {
                let m = migrate_embedder_model(s.embedder_provider.as_str(), s.embedder_model.as_str());
                s.embedder_model = m;
                s
            },
            None => UserSettings::default(),
        };
        SettingsManager { settings_path, settings }
    }

    /// The path of the settings file.
    pub fn settings_path(&self) -> (r: &str)
        ensures
            r@ == self.path_spec(),
    {
        self.settings_path.as_str()
    }

    pub fn get_settings(&self) -> (r: &UserSettings)
        ensures
            *r == self.settings_spec(),
    {
        &self.settings
    }

    pub fn get_selected_model(&self) -> (r: &str)
        ensures
            r@ == self.settings_spec().selected_model@,
    {
        self.settings.selected_model.as_str()
    }

    /// Selects `model` where the model catalog supports it. `supported` is
    /// the catalog's answer for `model`: its refusal is handed back and the
    /// settings stay as they were.
    pub fn set_selected_model(&mut self, model: String, supported: Result<(), String>) -> (r: Result<(), String>)
        ensures
            match supported {
                Err(e) => r matches Err(x) && x@ == e@ && final(self).settings_spec() == old(self).settings_spec(),
                Ok(()) => r is Ok && final(self).settings_spec() == (UserSettings { selected_model: model, ..old(self).settings_spec() }),
            },
            final(self).path_spec() == old(self).path_spec(),
    {
        match supported {
            Err(e) => Err(e),
            Ok(()) => {
                self.settings.selected_model = model;
                Ok(())
            },
        }
    }

    pub fn set_theme(&mut self, theme: String)
        ensures
            final(self).settings_spec() == (UserSettings { theme: theme, ..old(self).settings_spec() }),
            final(self).path_spec() == old(self).path_spec(),
    {
        self.settings.theme = theme;
    }

    pub fn set_notifications(&mut self, enabled: bool)
        ensures
            final(self).settings_spec() == (UserSettings { notifications_enabled: enabled, ..old(self).settings_spec() }),
            final(self).path_spec() == old(self).path_spec(),
    {
        self.settings.notifications_enabled = enabled;
    }

    pub fn get_profile(&self) -> (r: &UserProfile)
        ensures
            *r == self.settings_spec().profile,
    {
        &self.settings.profile
    }

    pub fn set_profile(&mut self, profile: UserProfile)
        ensures
            final(self).settings_spec() == (UserSettings { profile: profile, ..old(self).settings_spec() }),
            final(self).path_spec() == old(self).path_spec(),
    {
        self.settings.profile = profile;
    }

    pub fn get_embedder_provider(&self) -> (r: &str)
        ensures
            r@ == self.settings_spec().embedder_provider@,
    {
        self.settings.embedder_provider.as_str()
    }

    pub fn set_embedder_provider(&mut self, provider: String)
        ensures
            final(self).settings_spec() == (UserSettings { embedder_provider: provider, ..old(self).settings_spec() }),
            final(self).path_spec() == old(self).path_spec(),
    {
        self.settings.embedder_provider = provider;
    }

    pub fn get_embedder_model(&self) -> (r: &str)
        ensures
            r@ == self.settings_spec().embedder_model@,
    {
        self.settings.embedder_model.as_str()
    }

    pub fn set_embedder_model(&mut self, model: String)
        ensures
            final(self).settings_spec() == (UserSettings { embedder_model: model, ..old(self).settings_spec() }),
            final(self).path_spec() == old(self).path_spec(),
    {
        self.settings.embedder_model = model;
    }

    /// The lowest tool policy version that the workspace still accepts; zero
    /// where none was recorded.
    pub fn get_tool_policy_floor(&self, workspace_id: &str) -> (r: u64)
        ensures
            r == match lookup(floors_view(self.settings_spec().tool_policy_version_floor@), workspace_id@) {
                Some(v) => v,
                None => 0,
            },
    {
        match find_key(&self.settings.tool_policy_version_floor, workspace_id) {
            Some(i) => {
                assert(floors_view(self.settings.tool_policy_version_floor@)[i as int].1
                    == self.settings.tool_policy_version_floor@[i as int].1);
                self.settings.tool_policy_version_floor[i].1
            },
            None => 0,
        }
    }

    pub fn set_tool_policy_floor(&mut self, workspace_id: &str, version: u64)
        ensures
            floors_view(final(self).settings_spec().tool_policy_version_floor@) == assign(
                floors_view(old(self).settings_spec().tool_policy_version_floor@),
                workspace_id@,
                version,
            ),
            final(self).settings_spec() == (UserSettings {
                tool_policy_version_floor: final(self).settings_spec().tool_policy_version_floor,
                ..old(self).settings_spec()
            }),
            final(self).path_spec() == old(self).path_spec(),
    {
        let ghost before = floors_view(self.settings.tool_policy_version_floor@);
        match find_key(&self.settings.tool_policy_version_floor, workspace_id) {
            Some(i) => {
                self.settings.tool_policy_version_floor.set(i, (owned(workspace_id), version));
            },
            None => {
                self.settings.tool_policy_version_floor.push((owned(workspace_id), version));
            },
        }
        assert(floors_view(self.settings.tool_policy_version_floor@) =~= assign(before, workspace_id@, version));
    }

    /// The policy state recorded for the workspace.
    pub fn get_workspace_tool_policy_state(&self, workspace_id: &str) -> (r: Option<WorkspaceToolPolicyState>)
        ensures
            match lookup(policies_view(self.settings_spec().workspace_tool_access_policies@), workspace_id@) {
                Some(v) => r matches Some(x) && x@ == v@,
                None => r is None,
            },
    {
        match find_key(&self.settings.workspace_tool_access_policies, workspace_id) {
            Some(i) => {
                assert(policies_view(self.settings.workspace_tool_access_policies@)[i as int].1
                    == self.settings.workspace_tool_access_policies@[i as int].1);
                Some(self.settings.workspace_tool_access_policies[i].1.copy())
            },
            None => None,
        }
    }

    /// The tool access policy recorded for the workspace.
    pub fn get_workspace_tool_policy(&self, workspace_id: &str) -> (r: Option<ToolAccessPolicy>)
        ensures
            match lookup(policies_view(self.settings_spec().workspace_tool_access_policies@), workspace_id@) {
                Some(v) => r matches Some(x) && x@ == v.tool_access_policy@,
                None => r is None,
            },
    {
        match self.get_workspace_tool_policy_state(workspace_id) {
            Some(s) => Some(s.tool_access_policy),
            None => None,
        }
    }

    pub fn set_workspace_tool_policy_state(&mut self, workspace_id: &str, state: WorkspaceToolPolicyState)
        ensures
            policies_view(final(self).settings_spec().workspace_tool_access_policies@) == assign(
                policies_view(old(self).settings_spec().workspace_tool_access_policies@),
                workspace_id@,
                state,
            ),
            final(self).settings_spec() == (UserSettings {
                workspace_tool_access_policies: final(self).settings_spec().workspace_tool_access_policies,
                ..old(self).settings_spec()
            }),
            final(self).path_spec() == old(self).path_spec(),
    {
        let ghost before = policies_view(self.settings.workspace_tool_access_policies@);
        let ghost st = state;
        match find_key(&self.settings.workspace_tool_access_policies, workspace_id) {
            Some(i) => {
                self.settings.workspace_tool_access_policies.set(i, (owned(workspace_id), state));
            },
            None => {
                self.settings.workspace_tool_access_policies.push((owned(workspace_id), state));
            },
        }
        assert(policies_view(self.settings.workspace_tool_access_policies@) =~= assign(before, workspace_id@, st));
    }

    pub fn get_mcp_permission_mode(&self) -> (r: String)
        ensures
            r@ == self.settings_spec().mcp_permission_mode@,
    {
        self.settings.mcp_permission_mode.clone()
    }

    pub fn set_mcp_permission_mode(&mut self, mode: String)
        ensures
            final(self).settings_spec() == (UserSettings { mcp_permission_mode: mode, ..old(self).settings_spec() }),
            final(self).path_spec() == old(self).path_spec(),
    {
        self.settings.mcp_permission_mode = mode;
    }

    pub fn get_mcp_servers(&self) -> (r: Vec<PersistedMcpServerConfig>)
        ensures
            servers_view(r@) == servers_view(self.settings_spec().mcp_servers@),
    {
        let mut r: Vec<PersistedMcpServerConfig> = Vec::new();
        let mut i: usize = 0;
        while i < self.settings.mcp_servers.len()
            invariant
                i <= self.settings.mcp_servers@.len(),
                servers_view(r@) == servers_view(self.settings.mcp_servers@).take(i as int),
            decreases self.settings.mcp_servers@.len() - i,
        {
            let c = self.settings.mcp_servers[i].copy();
            proof {
                assert(servers_view(r@.push(c)) =~= servers_view(r@).push(c@));
                assert(servers_view(self.settings.mcp_servers@).take(i + 1) =~= servers_view(
                    self.settings.mcp_servers@,
                ).take(i as int).push(self.settings.mcp_servers@[i as int]@));
            }
            r.push(c);
            i = i + 1;
        }
        assert(servers_view(self.settings.mcp_servers@).take(i as int) =~= servers_view(
            self.settings.mcp_servers@,
        ));
        r
    }

    /// Registers `config`, in place of the server of the same name (ASCII
    /// case aside) where there is one.
    pub fn upsert_mcp_server(&mut self, config: PersistedMcpServerConfig)
        ensures
            servers_view(final(self).settings_spec().mcp_servers@) == upsert_server(
                servers_view(old(self).settings_spec().mcp_servers@),
                config@,
            ),
            final(self).settings_spec() == (UserSettings {
                mcp_servers: final(self).settings_spec().mcp_servers,
                ..old(self).settings_spec()
            }),
            final(self).path_spec() == old(self).path_spec(),
    {
        let ghost sv = servers_view(self.settings.mcp_servers@);
        let ghost cv = config@;
        let ghost p = named_server(cv.name);
        let name = chars_of(config.name.as_str());
        let mut i: usize = 0;
        while i < self.settings.mcp_servers.len()
            invariant
                i <= self.settings.mcp_servers@.len(),
                self.settings == old(self).settings,
                self.settings_path == old(self).settings_path,
                sv == servers_view(self.settings.mcp_servers@),
                name@ == cv.name,
                cv == config@,
                p == named_server(cv.name),
                forall|j: int| 0 <= j < i ==> !p(#[trigger] sv[j]),
            decreases self.settings.mcp_servers@.len() - i,
        {
            if eq_ignore_ascii_case(&chars_of(self.settings.mcp_servers[i].name.as_str()), &name) {
                proof {
                    assert(sv[i as int] == self.settings.mcp_servers@[i as int]@);
                    assert(p(sv[i as int]));
                    lemma_first_where_skip(sv, p, i as int);
                    assert(sv.skip(i as int)[0] == sv[i as int]);
                    assert(first_where(sv.skip(i as int), p) == Some(0int));
                    assert(server_pos(sv, cv.name) == Some(i as int));
                }
                self.settings.mcp_servers.set(i, config);
                assert(self.settings.mcp_servers@ == old(self).settings.mcp_servers@.update(i as int, config));
                assert(servers_view(self.settings.mcp_servers@) =~= sv.update(i as int, cv)) by {
                    assert forall|j: int| 0 <= j < sv.len() implies #[trigger] servers_view(self.settings.mcp_servers@)[j] == sv.update(i as int, cv)[j] by {
                        if j != i {
                            assert(self.settings.mcp_servers@[j] == old(self).settings.mcp_servers@[j]);
                        }
                    }
                }
                assert(servers_view(self.settings.mcp_servers@) =~= upsert_server(sv, cv));
                return;
            }
            i = i + 1;
        }
        proof {
            lemma_first_where_skip(sv, p, i as int);
            assert(sv.skip(i as int).len() == 0);
        }
        self.settings.mcp_servers.push(config);
        assert(servers_view(self.settings.mcp_servers@) =~= upsert_server(sv, cv));
    }

    /// Removes every server named `name` (ASCII case aside); an error where
    /// there is none.
    pub fn remove_mcp_server(&mut self, name: &str) -> (r: Result<(), String>)
        ensures
            has_server(servers_view(old(self).settings_spec().mcp_servers@), name@) ==> {
                &&& r is Ok
                &&& servers_view(final(self).settings_spec().mcp_servers@) == without_server(
                    servers_view(old(self).settings_spec().mcp_servers@),
                    name@,
                )
            },
            !has_server(servers_view(old(self).settings_spec().mcp_servers@), name@) ==> {
                &&& r matches Err(e) && e@ == server_not_found(name@)
                &&& servers_view(final(self).settings_spec().mcp_servers@) == servers_view(
                    old(self).settings_spec().mcp_servers@,
                )
            },
            final(self).settings_spec() == (UserSettings {
                mcp_servers: final(self).settings_spec().mcp_servers,
                ..old(self).settings_spec()
            }),
            final(self).path_spec() == old(self).path_spec(),
    {
        let ghost sv = servers_view(self.settings.mcp_servers@);
        let target = chars_of(name);
        let mut kept: Vec<PersistedMcpServerConfig> = Vec::new();
        let mut old_list: Vec<PersistedMcpServerConfig> = Vec::new();
        std::mem::swap(&mut old_list, &mut self.settings.mcp_servers);
        assert(servers_view(old_list@) == sv);
        let mut i: usize = 0;
        while i < old_list.len()
            invariant
                i <= old_list@.len(),
                servers_view(old_list@) == sv,
                target@ == name@,
                servers_view(kept@) == without_server(sv.take(i as int), name@),
            decreases old_list@.len() - i,
        {
            let c = old_list[i].copy();
            let ghost pre = sv.take(i + 1);
            assert(pre.drop_last() =~= sv.take(i as int));
            assert(pre.last() == sv[i as int]);
            if !eq_ignore_ascii_case(&chars_of(c.name.as_str()), &target) {
                proof {
                    assert(servers_view(kept@.push(c)) =~= servers_view(kept@).push(c@));
                }
                kept.push(c);
            }
            i = i + 1;
        }
        assert(sv.take(i as int) =~= sv);
        proof {
            lemma_without_server(sv, name@);
        }
        if kept.len() == old_list.len() {
            self.settings.mcp_servers = old_list;
            return Err(concat3("MCP server '", name, "' not found"));
        }
        self.settings.mcp_servers = kept;
        Ok(())
    }
}

/// A removed server is gone: after a removal that succeeded, no server of
/// that name is left.
pub proof fn law_removed_server_is_gone(s: Seq<McpServerView>, name: Seq<char>)
    ensures
        !has_server(without_server(s, name), name),
        without_server(s, name).len() < s.len() <==> has_server(s, name),
{
    lemma_without_server(s, name);
}

/// An upserted server is found by its name afterwards, and the list grows
/// only where no server had that name.
pub proof fn law_upserted_server_is_found(s: Seq<McpServerView>, c: McpServerView)
    ensures
        has_server(upsert_server(s, c), c.name),
        upsert_server(s, c).len() == s.len() + (if has_server(s, c.name) {
            0int
        } else {
            1int
        }),
{
    let p = named_server(c.name);
    lemma_first_where_props(s, p);
    let u = upsert_server(s, c);
    match server_pos(s, c.name) {
        Some(i) => {
            assert(u[i] == c);
            assert(eq_ignore_case(u[i].name, c.name));
            assert(eq_ignore_case(s[i].name, c.name));
        },
        None => {
            assert(u[s.len() as int] == c);
            assert(eq_ignore_case(u[s.len() as int].name, c.name));
            if has_server(s, c.name) {
                let i = choose|i: int| 0 <= i < s.len() && eq_ignore_case(#[trigger] s[i].name, c.name);
                assert(p(s[i]));
            }
        },
    }
}

/// No two servers share a name, without regard to ASCII case.
pub open spec fn distinct_server_names(s: Seq<McpServerView>) -> bool {
    forall|i: int, j: int| 0 <= i < j < s.len() ==> !eq_ignore_case(#[trigger] s[i].name, #[trigger] s[j].name)
}

/// An upsert keeps one server per name: where a server had the new one's
/// name it is replaced in place, else the new one is appended; every other
/// server stays where it was, and the new one is the only server with its
/// name.
pub proof fn law_upsert_keeps_one_per_name(s: Seq<McpServerView>, c: McpServerView)
    requires
        distinct_server_names(s),
    ensures
        upsert_server(s, c).len() == s.len() + (if has_server(s, c.name) { 0int } else { 1int }),
        has_server(s, c.name) ==> exists|k: int| 0 <= k < s.len() && eq_ignore_case(#[trigger] s[k].name, c.name) && upsert_server(s, c)[k] == c,
        !has_server(s, c.name) ==> upsert_server(s, c)[s.len() as int] == c,
        forall|i: int| 0 <= i < s.len() && !eq_ignore_case(s[i].name, c.name) ==> #[trigger] upsert_server(s, c)[i] == s[i],
        forall|i: int| 0 <= i < upsert_server(s, c).len() && eq_ignore_case(upsert_server(s, c)[i].name, c.name) ==> #[trigger] upsert_server(s, c)[i] == c,
        distinct_server_names(upsert_server(s, c)),
{
    law_upserted_server_is_found(s, c);
    let p = named_server(c.name);
    lemma_first_where_props(s, p);
    let u = upsert_server(s, c);
    match server_pos(s, c.name) {
        Some(k) => {
            assert(p(s[k]));
            assert forall|i: int| 0 <= i < u.len() && eq_ignore_case(u[i].name, c.name) implies #[trigger] u[i] == c by {
                if i != k {
                    assert(u[i] == s[i]);
                    if i < k {
                        assert(!eq_ignore_case(s[i].name, s[k].name));
                    } else {
                        assert(!eq_ignore_case(s[k].name, s[i].name));
                    }
                }
            }
            assert(u[k] == c);
        },
        None => {
            assert forall|i: int| 0 <= i < u.len() && eq_ignore_case(u[i].name, c.name) implies #[trigger] u[i] == c by {
                if i < s.len() {
                    assert(u[i] == s[i]);
                    assert(!p(s[i]));
                }
            }
        },
    }
    assert forall|i: int, j: int| 0 <= i < j < u.len() implies !eq_ignore_case(#[trigger] u[i].name, #[trigger] u[j].name) by {
        let ui = u[i];
        let uj = u[j];
        if eq_ignore_case(ui.name, c.name) && eq_ignore_case(uj.name, c.name) {
            match server_pos(s, c.name) {
                Some(k) => {
                    if i != k {
                        if i < k {
                            assert(!eq_ignore_case(s[i].name, s[k].name));
                        } else {
                            assert(!eq_ignore_case(s[k].name, s[i].name));
                        }
                        assert(u[i] == s[i]);
                    } else {
                        if j < k {
                            assert(!eq_ignore_case(s[j].name, s[k].name));
                        } else {
                            assert(!eq_ignore_case(s[k].name, s[j].name));
                        }
                        assert(u[j] == s[j]);
                    }
                },
                None => {
                    assert(u[i] == s[i]);
                    assert(!p(s[i]));
                },
            }
        } else {
            if i < s.len() && u[i] == s[i] && j < s.len() && u[j] == s[j] {
                assert(!eq_ignore_case(s[i].name, s[j].name));
            }
        }
    }
}

} // verus!
