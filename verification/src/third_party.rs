//! Registry of installed third-party (WASI) skills: the index of skills, its
//! updates, method lookups and the manifests it publishes.
//!
//! The index lives in memory here; reading and writing `registry.json` is the
//! caller's business.
use vstd::prelude::*;
use crate::text::{chars_of, concat2, copy_strings, owned, push_all, str_eq, str_views, string_of, vec_eq};
use crate::order::{lex_le, lex_le_vec};
use crate::tool_policy::AirlockLevel;
use crate::manifest::{
    copy_params, manifests_view, methods_view, params_view, ParameterSchemaView, SkillManifest,
    SkillMethod,
};

verus! {

// ───────────────────────────── types ─────────────────────────────

/// A host directory that a skill may open, and how.
#[derive(Debug)]
pub struct SkillPermissionFs {
    pub guest_path: String,
    pub host_path: String,
    /// `read` or `read_write`.
    pub mode: String,
}

/// What a skill may reach outside its sandbox.
#[derive(Debug)]
pub struct SkillPermissions {
    pub filesystem: Vec<SkillPermissionFs>,
    pub network_domains: Vec<String>,
}

/// A method that an installed skill offers.
#[derive(Debug)]
pub struct InstalledThirdPartyMethod {
    pub name: String,
    pub description: String,
    pub airlock_level: AirlockLevel,
    pub parameters: Vec<(String, crate::manifest::ParameterSchema)>,
}

/// An installed skill, as the registry index records it.
#[derive(Debug)]
pub struct InstalledThirdPartySkill {
    pub id: String,
    pub name: String,
    pub version: String,
    pub author: String,
    pub description: String,
    pub runtime: String,
    pub binary_path: String,
    pub binary_sha256: String,
    pub enabled: bool,
    /// `verified` or `unsigned_dev`.
    pub trust_state: String,
    /// `atm` or `local_dev`.
    pub install_source: String,
    pub installed_at: i64,
    pub permissions: SkillPermissions,
    pub methods: Vec<InstalledThirdPartyMethod>,
}

pub struct FsPermView {
    pub guest_path: Seq<char>,
    pub host_path: Seq<char>,
    pub mode: Seq<char>,
}

pub struct MethodView {
    pub name: Seq<char>,
    pub description: Seq<char>,
    pub airlock_level: AirlockLevel,
    pub parameters: Seq<(Seq<char>, ParameterSchemaView)>,
}

pub struct SkillView {
    pub id: Seq<char>,
    pub name: Seq<char>,
    pub version: Seq<char>,
    pub author: Seq<char>,
    pub description: Seq<char>,
    pub runtime: Seq<char>,
    pub binary_path: Seq<char>,
    pub binary_sha256: Seq<char>,
    pub enabled: bool,
    pub trust_state: Seq<char>,
    pub install_source: Seq<char>,
    pub installed_at: i64,
    pub filesystem: Seq<FsPermView>,
    pub network_domains: Seq<Seq<char>>,
    pub methods: Seq<MethodView>,
}

impl View for SkillPermissionFs {
    type V = FsPermView;

    open spec fn view(&self) -> FsPermView {
        FsPermView { guest_path: self.guest_path@, host_path: self.host_path@, mode: self.mode@ }
    }
}

impl View for InstalledThirdPartyMethod {
    type V = MethodView;

    open spec fn view(&self) -> MethodView {
        MethodView {
            name: self.name@,
            description: self.description@,
            airlock_level: self.airlock_level,
            parameters: params_view(self.parameters@),
        }
    }
}

pub open spec fn fs_view(v: Seq<SkillPermissionFs>) -> Seq<FsPermView> {
    v.map_values(|x: SkillPermissionFs| x@)
}

pub open spec fn method_views(v: Seq<InstalledThirdPartyMethod>) -> Seq<MethodView> {
    v.map_values(|x: InstalledThirdPartyMethod| x@)
}

impl View for InstalledThirdPartySkill {
    type V = SkillView;

    open spec fn view(&self) -> SkillView {
        SkillView {
            id: self.id@,
            name: self.name@,
            version: self.version@,
            author: self.author@,
            description: self.description@,
            runtime: self.runtime@,
            binary_path: self.binary_path@,
            binary_sha256: self.binary_sha256@,
            enabled: self.enabled,
            trust_state: self.trust_state@,
            install_source: self.install_source@,
            installed_at: self.installed_at,
            filesystem: fs_view(self.permissions.filesystem@),
            network_domains: str_views(self.permissions.network_domains@),
            methods: method_views(self.methods@),
        }
    }
}

pub open spec fn skills_view(v: Seq<InstalledThirdPartySkill>) -> Seq<SkillView> {
    v.map_values(|x: InstalledThirdPartySkill| x@)
}

// ───────────────────────────── copies ─────────────────────────────

impl SkillPermissionFs {
    pub fn copy(&self) -> (r: Self)
        ensures
            r@ == self@,
    {
        SkillPermissionFs {
            guest_path: self.guest_path.clone(),
            host_path: self.host_path.clone(),
            mode: self.mode.clone(),
        }
    }
}

impl InstalledThirdPartyMethod {
    pub fn copy(&self) -> (r: Self)
        ensures
            r@ == self@,
    {
        InstalledThirdPartyMethod {
            name: self.name.clone(),
            description: self.description.clone(),
            airlock_level: self.airlock_level,
            parameters: copy_params(&self.parameters),
        }
    }
}

fn copy_fs(v: &Vec<SkillPermissionFs>) -> (r: Vec<SkillPermissionFs>)
    ensures
        fs_view(r@) == fs_view(v@),
{
    let mut r: Vec<SkillPermissionFs> = Vec::new();
    let mut i: usize = 0;
    while i < v.len()
        invariant
            i <= v.len(),
            fs_view(r@) == fs_view(v@).take(i as int),
        decreases v.len() - i,
    {
        let x = v[i].copy();
        proof {
            assert(fs_view(r@.push(x)) =~= fs_view(r@).push(x@));
            assert(fs_view(v@).take(i + 1) =~= fs_view(v@).take(i as int).push(v@[i as int]@));
        }
        r.push(x);
        i = i + 1;
    }
    assert(fs_view(v@).take(v@.len() as int) =~= fs_view(v@));
    r
}

fn copy_methods(v: &Vec<InstalledThirdPartyMethod>) -> (r: Vec<InstalledThirdPartyMethod>)
    ensures
        method_views(r@) == method_views(v@),
{
    let mut r: Vec<InstalledThirdPartyMethod> = Vec::new();
    let mut i: usize = 0;
    while i < v.len()
        invariant
            i <= v.len(),
            method_views(r@) == method_views(v@).take(i as int),
        decreases v.len() - i,
    {
        let x = v[i].copy();
        proof {
            assert(method_views(r@.push(x)) =~= method_views(r@).push(x@));
            assert(method_views(v@).take(i + 1) =~= method_views(v@).take(i as int).push(
                v@[i as int]@,
            ));
        }
        r.push(x);
        i = i + 1;
    }
    assert(method_views(v@).take(v@.len() as int) =~= method_views(v@));
    r
}

impl InstalledThirdPartySkill {
    pub fn copy(&self) -> (r: Self)
        ensures
            r@ == self@,
    {
        InstalledThirdPartySkill {
            id: self.id.clone(),
            name: self.name.clone(),
            version: self.version.clone(),
            author: self.author.clone(),
            description: self.description.clone(),
            runtime: self.runtime.clone(),
            binary_path: self.binary_path.clone(),
            binary_sha256: self.binary_sha256.clone(),
            enabled: self.enabled,
            trust_state: self.trust_state.clone(),
            install_source: self.install_source.clone(),
            installed_at: self.installed_at,
            permissions: SkillPermissions {
                filesystem: copy_fs(&self.permissions.filesystem),
                network_domains: copy_strings(&self.permissions.network_domains),
            },
            methods: copy_methods(&self.methods),
        }
    }
}

// ───────────────────────────── searching ─────────────────────────────

/// Index of the first element of `s` that satisfies `p`.
pub open spec fn first_where<T>(s: Seq<T>, p: spec_fn(T) -> bool) -> Option<int>
    decreases s.len(),
{
    if s.len() == 0 {
        None
    } else if p(s[0]) {
        Some(0)
    } else {
        match first_where(s.drop_first(), p) {
            Some(k) => Some(k + 1),
            None => None,
        }
    }
}

pub proof fn lemma_first_where_skip<T>(s: Seq<T>, p: spec_fn(T) -> bool, i: int)
    requires
        0 <= i <= s.len(),
        forall|j: int| 0 <= j < i ==> !p(#[trigger] s[j]),
    ensures
        first_where(s, p) == match first_where(s.skip(i), p) {
            Some(k) => Some(k + i),
            None => None::<int>,
        },
    decreases i,
{
    if i == 0 {
        assert(s.skip(0) =~= s);
        match first_where(s, p) {
            Some(k) => {},
            None => {},
        }
    } else {
        lemma_first_where_skip(s.drop_first(), p, i - 1);
        assert(s.drop_first().skip(i - 1) =~= s.skip(i));
    }
}

pub proof fn lemma_first_where_props<T>(s: Seq<T>, p: spec_fn(T) -> bool)
    ensures
        match first_where(s, p) {
            Some(k) => 0 <= k < s.len() && p(s[k]) && forall|j: int| 0 <= j < k ==> !p(#[trigger] s[j]),
            None => forall|j: int| 0 <= j < s.len() ==> !p(#[trigger] s[j]),
        },
    decreases s.len(),
{
    if s.len() > 0 {
        lemma_first_where_props(s.drop_first(), p);
        if !p(s[0]) {
            match first_where(s.drop_first(), p) {
                Some(k) => {
                    assert forall|j: int| 0 <= j < k + 1 implies !p(#[trigger] s[j]) by {
                        if j > 0 {
                            assert(s[j] == s.drop_first()[j - 1]);
                        }
                    }
                },
                None => {
                    assert forall|j: int| 0 <= j < s.len() implies !p(#[trigger] s[j]) by {
                        if j > 0 {
                            assert(s[j] == s.drop_first()[j - 1]);
                        }
                    }
                },
            }
        }
    }
}

pub open spec fn named(m: Seq<char>) -> spec_fn(MethodView) -> bool {
    |x: MethodView| x.name == m
}

pub open spec fn has_method(ms: Seq<MethodView>, m: Seq<char>) -> bool {
    exists|k: int| 0 <= k < ms.len() && (#[trigger] ms[k]).name == m
}

/// Do two method lists share a method name?
pub open spec fn shares_method(a: Seq<MethodView>, b: Seq<MethodView>) -> bool {
    exists|i: int, j: int|
        0 <= i < a.len() && 0 <= j < b.len() && (#[trigger] a[i]).name == (#[trigger] b[j]).name
}

/// Would installing `s` give a method name a second owner?
pub open spec fn collides(skills: Seq<SkillView>, s: SkillView) -> bool {
    exists|k: int|
        0 <= k < skills.len() && (#[trigger] skills[k]).id != s.id && shares_method(
            skills[k].methods,
            s.methods,
        )
}

/// Every method name has a single owning skill id.
pub open spec fn distinct_method_owners(skills: Seq<SkillView>) -> bool {
    forall|i: int, j: int|
        0 <= i < skills.len() && 0 <= j < skills.len() && (#[trigger] skills[i]).id != (
        #[trigger] skills[j]).id ==> !shares_method(skills[i].methods, skills[j].methods)
}

pub open spec fn release(id: Seq<char>, version: Seq<char>) -> spec_fn(SkillView) -> bool {
    |x: SkillView| x.id == id && x.version == version
}

pub open spec fn collision_message() -> Seq<char> {
    "Method name collision with another installed third-party skill"@
}

pub open spec fn not_found_message(id: Seq<char>, version: Seq<char>) -> Seq<char> {
    "Skill "@ + id + "@"@ + version + " not found"@
}

/// Index after installing `s`: refused on a method-name collision; a skill
/// with the same id and version is replaced in place, else `s` is appended.
pub open spec fn upsert_result(skills: Seq<SkillView>, s: SkillView) -> Result<Seq<SkillView>, Seq<char>> {
    if collides(skills, s) {
        Err(collision_message())
    } else {
        match first_where(skills, release(s.id, s.version)) {
            Some(k) => Ok(skills.update(k, s)),
            None => Ok(skills.push(s)),
        }
    }
}

/// Index after switching a release on or off.
pub open spec fn set_enabled_result(skills: Seq<SkillView>, id: Seq<char>, version: Seq<char>, enabled: bool) -> Result<Seq<SkillView>, Seq<char>> {
    match first_where(skills, release(id, version)) {
        Some(k) => Ok(skills.update(k, SkillView { enabled, ..skills[k] })),
        None => Err(not_found_message(id, version)),
    }
}

/// Index after removing every copy of a release.
pub open spec fn remove_result(skills: Seq<SkillView>, id: Seq<char>, version: Seq<char>) -> Result<Seq<SkillView>, Seq<char>> {
    let kept = skills.filter(|x: SkillView| !release(id, version)(x));
    if kept.len() == skills.len() {
        Err(not_found_message(id, version))
    } else {
        Ok(kept)
    }
}

/// Enabled skill with id `id` that offers `m`.
pub open spec fn resolvable(id: Seq<char>, m: Seq<char>) -> spec_fn(SkillView) -> bool {
    |x: SkillView| x.id == id && x.enabled && has_method(x.methods, m)
}

/// Enabled skill that offers `m`.
pub open spec fn offers(m: Seq<char>) -> spec_fn(SkillView) -> bool {
    |x: SkillView| x.enabled && has_method(x.methods, m)
}

/// The first method named `m` of `ms`.
pub open spec fn method_of(ms: Seq<MethodView>, m: Seq<char>) -> MethodView {
    ms[first_where(ms, named(m))->0]
}

/// Airlock level of `m` among enabled skills: the level of its only owner,
/// `Dangerous` when two enabled skills offer it (fail closed).
pub open spec fn method_airlock(skills: Seq<SkillView>, m: Seq<char>) -> Option<AirlockLevel> {
    let hits = skills.filter(offers(m));
    if hits.len() == 0 {
        None
    } else if hits.len() == 1 {
        Some(method_of(hits[0].methods, m).airlock_level)
    } else {
        Some(AirlockLevel::Dangerous)
    }
}

// ───────────────────────────── executable searches ─────────────────────────────

fn first_method(ms: &Vec<InstalledThirdPartyMethod>, m: &str) -> (r: Option<usize>)
    ensures
        match first_where(method_views(ms@), named(m@)) {
            Some(k) => r matches Some(x) && x as int == k,
            None => r is None,
        },
{
    let ghost v = method_views(ms@);
    let mut i: usize = 0;
    while i < ms.len()
        invariant
            i <= ms.len(),
            v == method_views(ms@),
            forall|j: int| 0 <= j < i ==> !named(m@)(#[trigger] v[j]),
        decreases ms.len() - i,
    {
        if str_eq(ms[i].name.as_str(), m) {
            proof {
                lemma_first_where_skip(v, named(m@), i as int);
                assert(v.skip(i as int)[0] == v[i as int]);
            }
            return Some(i);
        }
        i = i + 1;
    }
    proof {
        lemma_first_where_skip(v, named(m@), i as int);
    }
    None
}

fn has_method_exec(ms: &Vec<InstalledThirdPartyMethod>, m: &str) -> (r: bool)
    ensures
        r == has_method(method_views(ms@), m@),
{
    let r = first_method(ms, m);
    proof {
        lemma_first_where_props(method_views(ms@), named(m@));
    }
    r.is_some()
}

fn shares_method_exec(a: &Vec<InstalledThirdPartyMethod>, b: &Vec<InstalledThirdPartyMethod>) -> (r: bool)
    ensures
        r == shares_method(method_views(a@), method_views(b@)),
{
    let ghost va = method_views(a@);
    let ghost vb = method_views(b@);
    let mut i: usize = 0;
    while i < a.len()
        invariant
            i <= a.len(),
            va == method_views(a@),
            vb == method_views(b@),
            forall|x: int, y: int| 0 <= x < i && 0 <= y < vb.len() ==> (#[trigger] va[x]).name != (#[trigger] vb[y]).name,
        decreases a.len() - i,
    {
        if has_method_exec(b, a[i].name.as_str()) {
            proof {
                let y = choose|y: int| 0 <= y < vb.len() && (#[trigger] vb[y]).name == a@[i as int].name@;
                assert(va[i as int].name == vb[y].name);
            }
            return true;
        }
        i = i + 1;
    }
    false
}

fn same_release(x: &InstalledThirdPartySkill, id: &str, version: &str) -> (r: bool)
    ensures
        r == release(id@, version@)(x@),
{
    str_eq(x.id.as_str(), id) && str_eq(x.version.as_str(), version)
}

fn first_release(skills: &Vec<InstalledThirdPartySkill>, id: &str, version: &str) -> (r: Option<usize>)
    ensures
        match first_where(skills_view(skills@), release(id@, version@)) {
            Some(k) => r matches Some(x) && x as int == k,
            None => r is None,
        },
{
    let ghost v = skills_view(skills@);
    let mut i: usize = 0;
    while i < skills.len()
        invariant
            i <= skills.len(),
            v == skills_view(skills@),
            forall|j: int| 0 <= j < i ==> !release(id@, version@)(#[trigger] v[j]),
        decreases skills.len() - i,
    {
        if same_release(&skills[i], id, version) {
            proof {
                lemma_first_where_skip(v, release(id@, version@), i as int);
                assert(v.skip(i as int)[0] == v[i as int]);
            }
            return Some(i);
        }
        i = i + 1;
    }
    proof {
        lemma_first_where_skip(v, release(id@, version@), i as int);
    }
    None
}

fn collides_exec(skills: &Vec<InstalledThirdPartySkill>, s: &InstalledThirdPartySkill) -> (r: bool)
    ensures
        r == collides(skills_view(skills@), s@),
{
    let ghost v = skills_view(skills@);
    let mut i: usize = 0;
    while i < skills.len()
        invariant
            i <= skills.len(),
            v == skills_view(skills@),
            forall|k: int| 0 <= k < i ==> !((#[trigger] v[k]).id != s@.id && shares_method(v[k].methods, s@.methods)),
        decreases skills.len() - i,
    {
        if shares_method_exec(&skills[i].methods, &s.methods) && !(skills[i].id == s.id) {
            assert(v[i as int].id != s@.id && shares_method(v[i as int].methods, s@.methods));
            return true;
        }
        i = i + 1;
    }
    false
}

// ───────────────────────────── ordering of the index listing ─────────────────────────────

pub open spec fn lex_lt(a: Seq<char>, b: Seq<char>) -> bool {
    lex_le(a, b) && a != b
}

/// Order of the listing: by id, then by version.
pub open spec fn key_le(a: SkillView, b: SkillView) -> bool {
    lex_lt(a.id, b.id) || (a.id == b.id && lex_le(a.version, b.version))
}

/// Where a stable insertion puts `x` into `t`: after every element not greater than it.
pub open spec fn insert_pos(t: Seq<SkillView>, x: SkillView) -> int
    decreases t.len(),
{
    if t.len() == 0 {
        0
    } else if !key_le(t[0], x) {
        0
    } else {
        1 + insert_pos(t.drop_first(), x)
    }
}

/// The index in listing order: a stable sort by (id, version).
pub open spec fn listing(s: Seq<SkillView>) -> Seq<SkillView>
    decreases s.len(),
{
    if s.len() == 0 {
        s
    } else {
        let t = listing(s.drop_last());
        t.insert(insert_pos(t, s.last()), s.last())
    }
}

proof fn lemma_insert_pos_skip(t: Seq<SkillView>, x: SkillView, i: int)
    requires
        0 <= i <= t.len(),
        forall|j: int| 0 <= j < i ==> key_le(#[trigger] t[j], x),
    ensures
        insert_pos(t, x) == i + insert_pos(t.skip(i), x),
        0 <= insert_pos(t.skip(i), x) <= t.len() - i,
    decreases i,
{
    if i == 0 {
        assert(t.skip(0) =~= t);
        lemma_insert_pos_bounds(t, x);
    } else {
        lemma_insert_pos_skip(t.drop_first(), x, i - 1);
        assert(t.drop_first().skip(i - 1) =~= t.skip(i));
    }
}

proof fn lemma_insert_pos_bounds(t: Seq<SkillView>, x: SkillView)
    ensures
        0 <= insert_pos(t, x) <= t.len(),
    decreases t.len(),
{
    if t.len() > 0 {
        lemma_insert_pos_bounds(t.drop_first(), x);
    }
}

fn key_le_exec(a: &InstalledThirdPartySkill, b: &InstalledThirdPartySkill) -> (r: bool)
    ensures
        r == key_le(a@, b@),
{
    let aid = chars_of(a.id.as_str());
    let bid = chars_of(b.id.as_str());
    if vec_eq(&aid, &bid) {
        lex_le_vec(&chars_of(a.version.as_str()), &chars_of(b.version.as_str()))
    } else {
        lex_le_vec(&aid, &bid)
    }
}

fn sort_listing(skills: &Vec<InstalledThirdPartySkill>) -> (r: Vec<InstalledThirdPartySkill>)
    ensures
        skills_view(r@) == listing(skills_view(skills@)),
{
    let ghost v = skills_view(skills@);
    let mut out: Vec<InstalledThirdPartySkill> = Vec::new();
    let mut i: usize = 0;
    while i < skills.len()
        invariant
            i <= skills.len(),
            v == skills_view(skills@),
            skills_view(out@) == listing(v.take(i as int)),
        decreases skills.len() - i,
    {
        let x = skills[i].copy();
        let mut p: usize = 0;
        while p < out.len() && key_le_exec(&out[p], &x)
            invariant
                p <= out.len(),
                forall|j: int| 0 <= j < p ==> key_le(#[trigger] skills_view(out@)[j], x@),
            decreases out.len() - p,
        {
            p = p + 1;
        }
        proof {
            let t = skills_view(out@);
            lemma_insert_pos_skip(t, x@, p as int);
            if p < out.len() {
                assert(t.skip(p as int)[0] == t[p as int]);
            }
            assert(insert_pos(t, x@) == p);
            assert(v.take(i + 1).drop_last() =~= v.take(i as int));
            assert(v.take(i + 1).last() == x@);
            assert(skills_view(out@.insert(p as int, x)) =~= t.insert(p as int, x@));
        }
        out.insert(p, x);
        i = i + 1;
    }
    assert(v.take(skills.len() as int) =~= v);
    out
}

// ───────────────────────────── the registry ─────────────────────────────

/// Clock of the registry: seconds since the Unix epoch, 0 if the clock is
/// before it.  Trusted: nothing is promised of the value.
#[verifier::external_body]
pub(crate) fn unix_seconds() -> (r: i64) {
    std::time::SystemTime::now().duration_since(std::time::UNIX_EPOCH).map(|d| d.as_secs() as i64).unwrap_or(0)
}

/// Registry of installed third-party skills under `root_dir`, with its index.
pub struct ThirdPartySkillRegistry {
    root_dir: String,
    index_path: String,
    skills: Vec<InstalledThirdPartySkill>,
}

impl ThirdPartySkillRegistry {
    pub closed spec fn root_spec(&self) -> Seq<char> {
        self.root_dir@
    }

    pub closed spec fn index_spec(&self) -> Seq<SkillView> {
        skills_view(self.skills@)
    }

    /// Registry rooted at `root_dir`, with the index `skills` (as read from
    /// `<root_dir>/registry.json`).
    pub fn with_index(root_dir: String, skills: Vec<InstalledThirdPartySkill>) -> (r: Self)
        ensures
            r.root_spec() == root_dir@,
            r.index_spec() == skills_view(skills@),
            r.index_path_spec() == root_dir@ + "/registry.json"@,
    {
        let index_path = concat2(root_dir.as_str(), "/registry.json");
        ThirdPartySkillRegistry { root_dir, index_path, skills }
    }

    /// Registry rooted at `root_dir` with an empty index.
    pub fn new_with_root(root_dir: String) -> (r: Self)
        ensures
            r.root_spec() == root_dir@,
            r.index_spec() == Seq::<SkillView>::empty(),
    {
        let r = Self::with_index(root_dir, Vec::new());
        assert(r.index_spec() =~= Seq::<SkillView>::empty());
        r
    }

    pub closed spec fn index_path_spec(&self) -> Seq<char> {
        self.index_path@
    }

    /// Directory that holds the skills and the index.
    pub fn root_dir(&self) -> (r: &str)
        ensures
            r@ == self.root_spec(),
    {
        self.root_dir.as_str()
    }

    /// Path of the index file.
    pub fn index_path(&self) -> (r: &str)
        ensures
            r@ == self.index_path_spec(),
    {
        self.index_path.as_str()
    }

    /// The index as stored, in insertion order.
    pub fn index(&self) -> (r: &Vec<InstalledThirdPartySkill>)
        ensures
            skills_view(r@) == self.index_spec(),
    {
        &self.skills
    }

    /// Seconds since the Unix epoch.
    pub fn now_ts() -> i64 {
        unix_seconds()
    }

    /// Installed skills, sorted by id and then version.
    pub fn list_skills(&self) -> (r: Vec<InstalledThirdPartySkill>)
        ensures
            skills_view(r@) == listing(self.index_spec()),
    {
        sort_listing(&self.skills)
    }

    /// Installs `skill`, replacing the same id and version.  Refused when one of
    /// its method names belongs to a skill with another id.
    pub fn upsert_skill(&mut self, skill: InstalledThirdPartySkill) -> (r: Result<(), String>)
        ensures
            match upsert_result(old(self).index_spec(), skill@) {
                Ok(n) => r is Ok && final(self).index_spec() == n,
                Err(e) => r matches Err(m) && m@ == e && final(self).index_spec() == old(self).index_spec(),
            },
            final(self).root_spec() == old(self).root_spec(),
            final(self).index_path_spec() == old(self).index_path_spec(),
    {
        if collides_exec(&self.skills, &skill) {
            return Err(owned("Method name collision with another installed third-party skill"));
        }
        match first_release(&self.skills, skill.id.as_str(), skill.version.as_str()) {
            Some(k) => {
                proof {
                    lemma_first_where_props(skills_view(self.skills@), release(skill@.id, skill@.version));
                }
                let ghost before = self.skills@;
                self.skills.set(k, skill);
                assert(skills_view(self.skills@) =~= skills_view(before).update(k as int, skill@));
            },
            None => {
                let ghost before = self.skills@;
                self.skills.push(skill);
                assert(skills_view(self.skills@) =~= skills_view(before).push(skill@));
            },
        }
        assert(!collides(skills_view(old(self).skills@), skill@));
        assert(upsert_result(old(self).index_spec(), skill@) is Ok);
        Ok(())
    }

    /// Switches a release on or off.
    pub fn set_enabled(&mut self, skill_id: &str, version: &str, enabled: bool) -> (r: Result<(), String>)
        ensures
            match set_enabled_result(old(self).index_spec(), skill_id@, version@, enabled) {
                Ok(n) => r is Ok && final(self).index_spec() == n,
                Err(e) => r matches Err(m) && m@ == e && final(self).index_spec() == old(self).index_spec(),
            },
            final(self).root_spec() == old(self).root_spec(),
            final(self).index_path_spec() == old(self).index_path_spec(),
    {
        match first_release(&self.skills, skill_id, version) {
            Some(k) => {
                proof {
                    lemma_first_where_props(skills_view(self.skills@), release(skill_id@, version@));
                }
                let ghost before = self.skills@;
                let mut s = self.skills[k].copy();
                s.enabled = enabled;
                self.skills.set(k, s);
                assert(skills_view(self.skills@) =~= skills_view(before).update(
                    k as int,
                    SkillView { enabled, ..skills_view(before)[k as int] },
                ));
                Ok(())
            },
            None => Err(not_found(skill_id, version)),
        }
    }

    /// Removes every copy of a release.
    pub fn remove(&mut self, skill_id: &str, version: &str) -> (r: Result<(), String>)
        ensures
            match remove_result(old(self).index_spec(), skill_id@, version@) {
                Ok(n) => r is Ok && final(self).index_spec() == n,
                Err(e) => r matches Err(m) && m@ == e && final(self).index_spec() == old(self).index_spec(),
            },
            final(self).root_spec() == old(self).root_spec(),
            final(self).index_path_spec() == old(self).index_path_spec(),
    {
        let ghost v = self.index_spec();
        let ghost keep = |x: SkillView| !release(skill_id@, version@)(x);
        let mut kept: Vec<InstalledThirdPartySkill> = Vec::new();
        let mut i: usize = 0;
        while i < self.skills.len()
            invariant
                i <= self.skills.len(),
                v == skills_view(self.skills@),
                keep == (|x: SkillView| !release(skill_id@, version@)(x)),
                skills_view(kept@) == v.take(i as int).filter(keep),
            decreases self.skills.len() - i,
        {
            proof {
                assert(v.take(i + 1) =~= v.take(i as int).push(v[i as int]));
                v.take(i as int).lemma_filter_push(v[i as int], keep);
            }
            if !same_release(&self.skills[i], skill_id, version) {
                let x = self.skills[i].copy();
                proof {
                    assert(skills_view(kept@.push(x)) =~= skills_view(kept@).push(x@));
                }
                kept.push(x);
            }
            i = i + 1;
        }
        assert(v.take(v.len() as int) =~= v);
        if kept.len() == self.skills.len() {
            return Err(not_found(skill_id, version));
        }
        self.skills = kept;
        Ok(())
    }

    /// The first enabled skill with id `skill_id` that offers `method`, with that method.
    pub fn resolve_method(&self, skill_id: &str, method: &str) -> (r: Option<
        (InstalledThirdPartySkill, InstalledThirdPartyMethod),
    >)
        ensures
            match first_where(self.index_spec(), resolvable(skill_id@, method@)) {
                Some(k) => r matches Some((s, m)) && s@ == self.index_spec()[k] && m@ == method_of(
                    self.index_spec()[k].methods,
                    method@,
                ),
                None => r is None,
            },
    {
        let ghost v = self.index_spec();
        let mut i: usize = 0;
        while i < self.skills.len()
            invariant
                i <= self.skills.len(),
                v == skills_view(self.skills@),
                forall|j: int| 0 <= j < i ==> !resolvable(skill_id@, method@)(#[trigger] v[j]),
            decreases self.skills.len() - i,
        {
            let s = &self.skills[i];
            if str_eq(s.id.as_str(), skill_id) && s.enabled {
                match first_method(&s.methods, method) {
                    Some(mi) => {
                        proof {
                            lemma_first_where_props(method_views(s.methods@), named(method@));
                            assert(named(method@)(method_views(s.methods@)[mi as int]));
                            assert(method_views(s.methods@)[mi as int].name == method@);
                            assert(resolvable(skill_id@, method@)(v[i as int]));
                            lemma_first_where_skip(v, resolvable(skill_id@, method@), i as int);
                            assert(v.skip(i as int)[0] == v[i as int]);
                        }
                        return Some((s.copy(), s.methods[mi].copy()));
                    },
                    None => {
                        proof {
                            lemma_first_where_props(method_views(s.methods@), named(method@));
                        }
                    },
                }
            }
            i = i + 1;
        }
        proof {
            lemma_first_where_skip(v, resolvable(skill_id@, method@), i as int);
        }
        None
    }

    /// Airlock level that `method` needs among enabled skills; `Dangerous` when
    /// more than one enabled skill offers it.
    pub fn find_method_airlock_level(&self, method: &str) -> (r: Option<AirlockLevel>)
        ensures
            r == method_airlock(self.index_spec(), method@),
    {
        let ghost v = self.index_spec();
        let ghost pred = offers(method@);
        let mut found: Option<AirlockLevel> = None;
        let mut i: usize = 0;
        while i < self.skills.len()
            invariant
                i <= self.skills.len(),
                v == skills_view(self.skills@),
                pred == offers(method@),
                v.take(i as int).filter(pred).len() <= 1,
                match found {
                    None => v.take(i as int).filter(pred).len() == 0,
                    Some(l) => v.take(i as int).filter(pred).len() == 1 && l == method_of(
                        v.take(i as int).filter(pred)[0].methods,
                        method@,
                    ).airlock_level,
                },
            decreases self.skills.len() - i,
        {
            proof {
                assert(v.take(i + 1) =~= v.take(i as int).push(v[i as int]));
                v.take(i as int).lemma_filter_push(v[i as int], pred);
            }
            let s = &self.skills[i];
            if s.enabled {
                match first_method(&s.methods, method) {
                    Some(mi) => {
                        proof {
                            lemma_first_where_props(method_views(s.methods@), named(method@));
                            assert(named(method@)(method_views(s.methods@)[mi as int]));
                            assert(method_views(s.methods@)[mi as int].name == method@);
                            assert(pred(v[i as int]));
                        }
                        if found.is_some() {
                            proof {
                                v.lemma_filter_take_len(pred, i + 1);
                            }
                            return Some(AirlockLevel::Dangerous);
                        }
                        found = Some(s.methods[mi].airlock_level);
                        proof {
                            assert(v.take(i + 1).filter(pred) =~= seq![v[i as int]]);
                        }
                    },
                    None => {
                        proof {
                            lemma_first_where_props(method_views(s.methods@), named(method@));
                        }
                    },
                }
            }
            i = i + 1;
        }
        assert(v.take(v.len() as int) =~= v);
        found
    }

    /// Manifests of the enabled skills, in listing order: the skill id as
    /// name, its version and its methods.
    pub fn dynamic_skill_manifests(&self) -> (r: Vec<SkillManifest>)
        ensures
            manifests_view(r@) == listing(self.index_spec()).filter(|s: SkillView| s.enabled).map_values(
                |s: SkillView| manifest_of(s),
            ),
    {
        let listed = self.list_skills();
        let ghost v = skills_view(listed@);
        let ghost pred = |s: SkillView| s.enabled;
        let ghost f = |s: SkillView| manifest_of(s);
        let mut out: Vec<SkillManifest> = Vec::new();
        let mut i: usize = 0;
        while i < listed.len()
            invariant
                i <= listed.len(),
                v == skills_view(listed@),
                pred == (|s: SkillView| s.enabled),
                f == (|s: SkillView| manifest_of(s)),
                manifests_view(out@) == v.take(i as int).filter(pred).map_values(f),
            decreases listed.len() - i,
        {
            proof {
                assert(v.take(i + 1) =~= v.take(i as int).push(v[i as int]));
                v.take(i as int).lemma_filter_push(v[i as int], pred);
            }
            let s = &listed[i];
            if s.enabled {
                let m = SkillManifest {
                    name: s.id.clone(),
                    version: s.version.clone(),
                    methods: manifest_methods(&s.methods),
                };
                proof {
                    assert(m@ == manifest_of(v[i as int]));
                    assert(manifests_view(out@.push(m)) =~= manifests_view(out@).push(m@));
                    assert(v.take(i as int).filter(pred).push(v[i as int]).map_values(f) =~= v.take(
                        i as int,
                    ).filter(pred).map_values(f).push(f(v[i as int])));
                }
                out.push(m);
            }
            i = i + 1;
        }
        assert(v.take(v.len() as int) =~= v);
        out
    }
}

pub open spec fn manifest_method_of(m: MethodView) -> crate::manifest::SkillMethodView {
    crate::manifest::SkillMethodView {
        name: m.name,
        description: m.description,
        airlock_level: m.airlock_level,
        parameters: m.parameters,
    }
}

pub open spec fn manifest_of(s: SkillView) -> crate::manifest::SkillManifestView {
    crate::manifest::SkillManifestView {
        name: s.id,
        version: s.version,
        methods: s.methods.map_values(|m: MethodView| manifest_method_of(m)),
    }
}

fn manifest_methods(ms: &Vec<InstalledThirdPartyMethod>) -> (r: Vec<SkillMethod>)
    ensures
        methods_view(r@) == method_views(ms@).map_values(|m: MethodView| manifest_method_of(m)),
{
    let ghost v = method_views(ms@);
    let ghost f = |m: MethodView| manifest_method_of(m);
    let mut out: Vec<SkillMethod> = Vec::new();
    let mut i: usize = 0;
    while i < ms.len()
        invariant
            i <= ms.len(),
            v == method_views(ms@),
            f == (|m: MethodView| manifest_method_of(m)),
            methods_view(out@) == v.take(i as int).map_values(f),
        decreases ms.len() - i,
    {
        let m = &ms[i];
        let x = SkillMethod {
            name: m.name.clone(),
            description: m.description.clone(),
            airlock_level: m.airlock_level,
            parameters: copy_params(&m.parameters),
        };
        proof {
            assert(methods_view(out@.push(x)) =~= methods_view(out@).push(x@));
            assert(v.take(i + 1).map_values(f) =~= v.take(i as int).map_values(f).push(f(v[i as int])));
        }
        out.push(x);
        i = i + 1;
    }
    assert(v.take(v.len() as int) =~= v);
    out
}

fn not_found(id: &str, version: &str) -> (r: String)
    ensures
        r@ == not_found_message(id@, version@),
{
    let mut v = chars_of("Skill ");
    push_all(&mut v, &chars_of(id));
    push_all(&mut v, &chars_of("@"));
    push_all(&mut v, &chars_of(version));
    push_all(&mut v, &chars_of(" not found"));
    string_of(v.as_slice())
}

// ───────────────────────────── laws ─────────────────────────────

proof fn lemma_shares_symmetric(a: Seq<MethodView>, b: Seq<MethodView>)
    ensures
        shares_method(a, b) == shares_method(b, a),
{
    if shares_method(a, b) {
        let (i, j) = choose|i: int, j: int|
            0 <= i < a.len() && 0 <= j < b.len() && (#[trigger] a[i]).name == (#[trigger] b[j]).name;
        assert(b[j].name == a[i].name);
    }
    if shares_method(b, a) {
        let (i, j) = choose|i: int, j: int|
            0 <= i < b.len() && 0 <= j < a.len() && (#[trigger] b[i]).name == (#[trigger] a[j]).name;
        assert(a[j].name == b[i].name);
    }
}

/// Installing never gives a method name a second owner: if every method name
/// had one owning skill id before a successful install, it has one after.
pub proof fn law_upsert_keeps_method_owners_distinct(skills: Seq<SkillView>, s: SkillView)
    requires
        distinct_method_owners(skills),
    ensures
        upsert_result(skills, s) matches Ok(n) ==> distinct_method_owners(n),
{
    if let Ok(n) = upsert_result(skills, s) {
        lemma_first_where_props(skills, release(s.id, s.version));
        assert forall|i: int, j: int|
            0 <= i < n.len() && 0 <= j < n.len() && (#[trigger] n[i]).id != (#[trigger] n[j]).id implies !shares_method(
            n[i].methods,
            n[j].methods,
        ) by {
            let slot = match first_where(skills, release(s.id, s.version)) {
                Some(k) => k,
                None => skills.len() as int,
            };
            if i != slot && j != slot {
                assert(n[i] == skills[i] && n[j] == skills[j]);
            } else if i == slot {
                assert(n[i] == s);
                assert(n[j] == skills[j]);
                assert(!(skills[j].id != s.id && shares_method(skills[j].methods, s.methods)));
                lemma_shares_symmetric(skills[j].methods, s.methods);
            } else {
                assert(n[j] == s);
                assert(n[i] == skills[i]);
                assert(!(skills[i].id != s.id && shares_method(skills[i].methods, s.methods)));
            }
        }
    }
}

/// What is installed can be found: after a successful install the index holds
/// the skill, and it is the first entry with its id and version.
pub proof fn law_upsert_then_found(skills: Seq<SkillView>, s: SkillView)
    ensures
        upsert_result(skills, s) matches Ok(n) ==> (first_where(n, release(s.id, s.version)) matches Some(
            k,
        ) && n[k] == s),
{
    if let Ok(n) = upsert_result(skills, s) {
        lemma_first_where_props(skills, release(s.id, s.version));
        match first_where(skills, release(s.id, s.version)) {
            Some(k) => {
                assert(forall|j: int| 0 <= j < k ==> #[trigger] n[j] == skills[j]);
                lemma_first_where_skip(n, release(s.id, s.version), k);
                assert(n.skip(k)[0] == s);
            },
            None => {
                assert(forall|j: int| 0 <= j < skills.len() ==> #[trigger] n[j] == skills[j]);
                lemma_first_where_skip(n, release(s.id, s.version), skills.len() as int);
                assert(n.skip(skills.len() as int)[0] == s);
            },
        }
    }
}

/// After a successful removal no entry has that id and version.
pub proof fn law_remove_then_gone(skills: Seq<SkillView>, id: Seq<char>, version: Seq<char>)
    ensures
        remove_result(skills, id, version) matches Ok(n) ==> first_where(n, release(id, version)) is None,
{
    if let Ok(n) = remove_result(skills, id, version) {
        let keep = |x: SkillView| !release(id, version)(x);
        broadcast use vstd::seq_lib::group_filter_ensures;
        assert(n == skills.filter(keep));
        lemma_first_where_props(n, release(id, version));
        if first_where(n, release(id, version)) is Some {
            let k = first_where(n, release(id, version))->0;
            assert(keep(n[k]));
        }
    }
}

/// Fail closed: when two enabled skills offer a method, it needs the
/// `Dangerous` level; when none does, it has no level.
pub proof fn law_airlock_fail_closed(skills: Seq<SkillView>, m: Seq<char>)
    ensures
        skills.filter(offers(m)).len() >= 2 ==> method_airlock(skills, m) == Some(AirlockLevel::Dangerous),
        skills.filter(offers(m)).len() == 0 ==> method_airlock(skills, m) is None,
{
}

} // verus!
