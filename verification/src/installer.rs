//! `skill.toml`, the manifest of a third-party skill package: its checks and
//! its conversion into a registry entry.
use vstd::prelude::*;
use crate::text::{chars_of, concat3, owned, str_eq, str_views, trim, trim_str};
use crate::tool_policy::AirlockLevel;
use crate::manifest::{copy_opt_string, opt_view, ParameterSchema, ParameterSchemaView};
use crate::third_party::{
    fs_view, method_views, FsPermView, InstalledThirdPartyMethod, InstalledThirdPartySkill,
    MethodView, SkillPermissionFs, SkillPermissions, ThirdPartySkillRegistry,
};

verus! {

/// Runtime a package runs on when `skill.toml` names none.
pub fn default_runtime() -> (r: String)
    ensures
        r@ == "wasi-core-v1"@,
{
    owned("wasi-core-v1")
}

#[derive(Debug)]
pub struct SkillBinary {
    pub path: String,
    pub sha256: String,
}

#[derive(Debug)]
pub struct SkillTomlFsPerm {
    pub guest_path: String,
    pub host_path: String,
    pub mode: String,
}

#[derive(Debug)]
pub struct SkillTomlNetworkPerm {
    pub domains: Vec<String>,
}

#[derive(Debug)]
pub struct SkillTomlPermissions {
    pub filesystem: Vec<SkillTomlFsPerm>,
    pub network: SkillTomlNetworkPerm,
}

#[derive(Debug)]
pub struct SkillTomlParameter {
    pub param_type: String,
    pub required: Option<bool>,
    pub description: Option<String>,
}

#[derive(Debug)]
pub struct SkillTomlMethod {
    pub name: String,
    pub description: String,
    pub airlock_level: AirlockLevel,
    pub parameters: Vec<(String, SkillTomlParameter)>,
}

#[derive(Debug)]
pub struct SkillTomlSignature {
    pub algorithm: String,
    pub digest: String,
}

/// Contents of a `skill.toml`.
#[derive(Debug)]
pub struct SkillToml {
    pub id: String,
    pub name: String,
    pub version: String,
    pub author: String,
    pub description: String,
    pub runtime: String,
    pub binary: SkillBinary,
    pub permissions: SkillTomlPermissions,
    pub methods: Vec<SkillTomlMethod>,
    pub signature: Option<SkillTomlSignature>,
}

pub open spec fn toml_params_view(p: Seq<(String, SkillTomlParameter)>) -> Seq<(Seq<char>, ParameterSchemaView)> {
    p.map_values(|e: (String, SkillTomlParameter)| (e.0@, ParameterSchemaView {
        param_type: e.1.param_type@,
        required: e.1.required,
        description: opt_view(e.1.description),
    }))
}

pub open spec fn toml_method_view(m: SkillTomlMethod) -> MethodView {
    MethodView {
        name: m.name@,
        description: m.description@,
        airlock_level: m.airlock_level,
        parameters: toml_params_view(m.parameters@),
    }
}

pub open spec fn toml_fs_view(f: SkillTomlFsPerm) -> FsPermView {
    FsPermView { guest_path: f.guest_path@, host_path: f.host_path@, mode: f.mode@ }
}

/// Why a `skill.toml` is refused, if it is.
pub open spec fn toml_problem(t: SkillToml) -> Option<Seq<char>> {
    if trim(t.id@).len() == 0 || trim(t.name@).len() == 0 || trim(t.version@).len() == 0 {
        Some("skill.toml requires id, name, version"@)
    } else if t.runtime@ != "wasi-core-v1"@ {
        Some("Unsupported runtime '"@ + t.runtime@ + "'; expected wasi-core-v1"@)
    } else if t.methods@.len() == 0 {
        Some("skill.toml must declare at least one method"@)
    } else {
        None
    }
}

impl SkillToml {
    /// Checks the identity, the runtime and that some method is declared.
    pub fn validate(&self) -> (r: Result<(), String>)
        ensures
            match toml_problem(*self) {
                None => r is Ok,
                Some(e) => r matches Err(m) && m@ == e,
            },
    {
        if trim_str(self.id.as_str()).as_str().is_empty() || trim_str(self.name.as_str()).as_str().is_empty()
            || trim_str(self.version.as_str()).as_str().is_empty() {
            return Err(owned("skill.toml requires id, name, version"));
        }
        if !str_eq(self.runtime.as_str(), "wasi-core-v1") {
            return Err(concat3("Unsupported runtime '", self.runtime.as_str(), "'; expected wasi-core-v1"));
        }
        if self.methods.len() == 0 {
            return Err(owned("skill.toml must declare at least one method"));
        }
        Ok(())
    }

    /// Registry entry for this package, enabled, with the given binary path,
    /// origin and trust state, stamped with the current time.
    pub fn into_installed(self, binary_path: String, install_source: &str, trust_state: &str) -> (r: InstalledThirdPartySkill)
        ensures
            r@.id == self.id@,
            r@.name == self.name@,
            r@.version == self.version@,
            r@.author == self.author@,
            r@.description == self.description@,
            r@.runtime == self.runtime@,
            r@.binary_path == binary_path@,
            r@.binary_sha256 == self.binary.sha256@,
            r@.enabled,
            r@.trust_state == trust_state@,
            r@.install_source == install_source@,
            r@.filesystem == self.permissions.filesystem@.map_values(|f: SkillTomlFsPerm| toml_fs_view(f)),
            r@.network_domains == str_views(self.permissions.network.domains@),
            r@.methods == self.methods@.map_values(|m: SkillTomlMethod| toml_method_view(m)),
    {
        let installed_at = ThirdPartySkillRegistry::now_ts();
        let filesystem = convert_fs(self.permissions.filesystem);
        let methods = convert_methods(self.methods);
        InstalledThirdPartySkill {
            id: self.id,
            name: self.name,
            version: self.version,
            author: self.author,
            description: self.description,
            runtime: self.runtime,
            binary_path,
            binary_sha256: self.binary.sha256,
            enabled: true,
            trust_state: owned(trust_state),
            install_source: owned(install_source),
            installed_at,
            permissions: SkillPermissions {
                filesystem,
                network_domains: self.permissions.network.domains,
            },
            methods,
        }
    }
}

fn convert_fs(v: Vec<SkillTomlFsPerm>) -> (r: Vec<SkillPermissionFs>)
    ensures
        fs_view(r@) == v@.map_values(|f: SkillTomlFsPerm| toml_fs_view(f)),
{
    let ghost src = v@;
    let ghost f = |f: SkillTomlFsPerm| toml_fs_view(f);
    let mut out: Vec<SkillPermissionFs> = Vec::new();
    let mut i: usize = 0;
    while i < v.len()
        invariant
            i <= v.len(),
            src == v@,
            f == (|f: SkillTomlFsPerm| toml_fs_view(f)),
            fs_view(out@) == src.take(i as int).map_values(f),
        decreases v.len() - i,
    {
        let p = &v[i];
        let x = SkillPermissionFs {
            guest_path: p.guest_path.clone(),
            host_path: p.host_path.clone(),
            mode: p.mode.clone(),
        };
        proof {
            assert(fs_view(out@.push(x)) =~= fs_view(out@).push(x@));
            assert(src.take(i + 1).map_values(f) =~= src.take(i as int).map_values(f).push(f(src[i as int])));
        }
        out.push(x);
        i = i + 1;
    }
    assert(src.take(src.len() as int) =~= src);
    out
}

fn convert_params(v: &Vec<(String, SkillTomlParameter)>) -> (r: Vec<(String, ParameterSchema)>)
    ensures
        crate::manifest::params_view(r@) == toml_params_view(v@),
{
    let mut out: Vec<(String, ParameterSchema)> = Vec::new();
    let mut i: usize = 0;
    while i < v.len()
        invariant
            i <= v.len(),
            crate::manifest::params_view(out@) == toml_params_view(v@).take(i as int),
        decreases v.len() - i,
    {
        let (k, p) = (&v[i].0, &v[i].1);
        let x = (
            k.clone(),
            ParameterSchema {
                param_type: p.param_type.clone(),
                required: p.required,
                description: copy_opt_string(&p.description),
            },
        );
        proof {
            assert(crate::manifest::params_view(out@.push(x)) =~= crate::manifest::params_view(
                out@,
            ).push((x.0@, x.1@)));
            assert(toml_params_view(v@).take(i + 1) =~= toml_params_view(v@).take(i as int).push(
                toml_params_view(v@)[i as int],
            ));
        }
        out.push(x);
        i = i + 1;
    }
    assert(toml_params_view(v@).take(v@.len() as int) =~= toml_params_view(v@));
    out
}

fn convert_methods(v: Vec<SkillTomlMethod>) -> (r: Vec<InstalledThirdPartyMethod>)
    ensures
        method_views(r@) == v@.map_values(|m: SkillTomlMethod| toml_method_view(m)),
{
    let ghost src = v@;
    let ghost f = |m: SkillTomlMethod| toml_method_view(m);
    let mut out: Vec<InstalledThirdPartyMethod> = Vec::new();
    let mut i: usize = 0;
    while i < v.len()
        invariant
            i <= v.len(),
            src == v@,
            f == (|m: SkillTomlMethod| toml_method_view(m)),
            method_views(out@) == src.take(i as int).map_values(f),
        decreases v.len() - i,
    {
        let m = &v[i];
        let x = InstalledThirdPartyMethod {
            name: m.name.clone(),
            description: m.description.clone(),
            airlock_level: m.airlock_level,
            parameters: convert_params(&m.parameters),
        };
        proof {
            assert(method_views(out@.push(x)) =~= method_views(out@).push(x@));
            assert(src.take(i + 1).map_values(f) =~= src.take(i as int).map_values(f).push(f(src[i as int])));
        }
        out.push(x);
        i = i + 1;
    }
    assert(src.take(src.len() as int) =~= src);
    out
}

} // verus!
