//! The check every queued command clears before a tool runs: the workspace
//! it belongs to, the tool policy in force and its fingerprint and version,
//! the scopes it may reach, and the skill that serves it. For third-party
//! skills the check also covers the Airlock level and the skill's declared
//! permissions against the command's scopes.
use vstd::prelude::*;
use crate::executor::{hash_tool_policy, is_tool_allowed, policy_fingerprint, tool_allowed, ToolAccessPolicy};
use crate::net::{any_domain_rule_matches, any_rule_matches};
use crate::paths::{
    blocked_by, comps, inside_some_root, is_abs, is_path_blocked, normalize, normalize_absolute_path,
    render,
};
use crate::text::{
    chars_of, chars_of_all, copy_strings, decimal, owned, push_all, push_decimal, str_eq, str_views,
    string_of, views,
};
use crate::third_party::{InstalledThirdPartyMethod, InstalledThirdPartySkill};
use crate::tool_policy::AirlockLevel;

verus! {

/// What a queued command asks for, and the scopes and policy it carries.
#[derive(Debug)]
pub struct CommandPayload {
    pub skill: Option<String>,
    pub method: Option<String>,
    pub tool_access_policy: Option<ToolAccessPolicy>,
    pub tool_access_policy_hash: Option<String>,
    pub tool_access_policy_version: Option<u64>,
    pub allowed_paths: Vec<String>,
    pub blocked_paths: Vec<String>,
    pub allowed_domains: Vec<String>,
    pub blocked_domains: Vec<String>,
}

/// The security policy that the workspace's settings give, used where a
/// command carries none of its own.
#[derive(Debug)]
pub struct EffectiveSecurityPolicy {
    pub tool_access_policy: ToolAccessPolicy,
    pub allowed_paths: Vec<String>,
    pub blocked_paths: Vec<String>,
    pub allowed_domains: Vec<String>,
    pub blocked_domains: Vec<String>,
}

/// The built-in skill that serves a command, or a third-party one.
#[derive(Debug, Clone, Copy, PartialEq, Eq, Structural)]
pub enum SkillRoute {
    Filesystem,
    Shell,
    Web,
    Browser,
    Memory,
    Documents,
    Workspace,
    Evm,
    ThirdParty,
}

pub open spec fn route_of(skill: Seq<char>) -> SkillRoute {
    if skill == "filesystem"@ {
        SkillRoute::Filesystem
    } else if skill == "shell"@ {
        SkillRoute::Shell
    } else if skill == "web"@ {
        SkillRoute::Web
    } else if skill == "browser"@ {
        SkillRoute::Browser
    } else if skill == "memory"@ {
        SkillRoute::Memory
    } else if skill == "documents"@ {
        SkillRoute::Documents
    } else if skill == "workspace"@ {
        SkillRoute::Workspace
    } else if skill == "evm"@ {
        SkillRoute::Evm
    } else {
        SkillRoute::ThirdParty
    }
}

pub fn route_for(skill: &str) -> (r: SkillRoute)
    ensures
        r == route_of(skill@),
{
    if str_eq(skill, "filesystem") {
        SkillRoute::Filesystem
    } else if str_eq(skill, "shell") {
        SkillRoute::Shell
    } else if str_eq(skill, "web") {
        SkillRoute::Web
    } else if str_eq(skill, "browser") {
        SkillRoute::Browser
    } else if str_eq(skill, "memory") {
        SkillRoute::Memory
    } else if str_eq(skill, "documents") {
        SkillRoute::Documents
    } else if str_eq(skill, "workspace") {
        SkillRoute::Workspace
    } else if str_eq(skill, "evm") {
        SkillRoute::Evm
    } else {
        SkillRoute::ThirdParty
    }
}

/// A command that was admitted: where it goes, and the scopes it runs in.
#[derive(Debug)]
pub struct Admission {
    pub workspace_id: String,
    pub skill: String,
    pub method: String,
    pub route: SkillRoute,
    pub allowed_paths: Vec<String>,
    pub blocked_paths: Vec<String>,
    pub allowed_domains: Vec<String>,
    pub blocked_domains: Vec<String>,
    /// The policy version that the workspace's floor must rise to.
    pub raise_floor_to: Option<u64>,
}

/// Whether the workspace's own policy is needed: the command carries no
/// tool policy, or no allowed paths.
pub open spec fn needs_fallback(p: CommandPayload) -> bool {
    p.tool_access_policy is None || p.allowed_paths@.len() == 0
}

pub fn needs_fallback_policy(p: &CommandPayload) -> (r: bool)
    ensures
        r == needs_fallback(*p),
{
    p.tool_access_policy.is_none() || p.allowed_paths.len() == 0
}

/// The workspace policy that counts: the one given, where it is needed.
pub open spec fn fallback_used(p: CommandPayload, fb: Option<EffectiveSecurityPolicy>) -> Option<EffectiveSecurityPolicy> {
    if needs_fallback(p) {
        fb
    } else {
        None
    }
}

/// The tool policy in force: the command's, else the workspace's.
pub open spec fn policy_in_force(p: CommandPayload, fb: Option<EffectiveSecurityPolicy>) -> Option<ToolAccessPolicy> {
    match p.tool_access_policy {
        Some(t) => Some(t),
        None => match fallback_used(p, fb) {
            Some(f) => Some(f.tool_access_policy),
            None => None,
        },
    }
}

/// A scope list in force: the command's where it names any, else the
/// workspace's, else none.
pub open spec fn scope_in_force(own: Seq<Seq<char>>, fallback: Option<Seq<Seq<char>>>) -> Seq<Seq<char>> {
    if own.len() > 0 {
        own
    } else {
        match fallback {
            Some(f) => f,
            None => seq![],
        }
    }
}

pub open spec fn name_or_unknown(o: Option<String>) -> Seq<char> {
    match o {
        Some(s) => s@,
        None => "unknown"@,
    }
}

/// Why admission stops a command of a known workspace, in the order it checks.
pub open spec fn admission_refusal(p: CommandPayload, fb: Option<EffectiveSecurityPolicy>, floor: u64) -> Option<Seq<char>> {
    let pol = policy_in_force(p, fb);
    if pol is Some && p.tool_access_policy_hash is Some && policy_fingerprint(pol->0)
        != p.tool_access_policy_hash->0@ {
        Some("Tool policy hash mismatch; rejecting command"@)
    } else if p.tool_access_policy_version is Some && p.tool_access_policy_version->0 < floor {
        Some("Stale tool policy version "@ + decimal(p.tool_access_policy_version->0 as nat)
            + " (latest seen "@ + decimal(floor as nat) + ")"@)
    } else if !tool_allowed(name_or_unknown(p.method), pol) {
        Some("Tool '"@ + name_or_unknown(p.method) + "' is blocked by workspace tool policy"@)
    } else {
        None
    }
}

fn pick_scope(own: &Vec<String>, fallback: Option<&Vec<String>>) -> (r: Vec<String>)
    ensures
        str_views(r@) == scope_in_force(
            str_views(own@),
            match fallback {
                Some(f) => Some(str_views(f@)),
                None => None,
            },
        ),
{
    if own.len() > 0 {
        copy_strings(own)
    } else {
        match fallback {
            Some(f) => copy_strings(f),
            None => {
                let r: Vec<String> = Vec::new();
                assert(str_views(r@) =~= Seq::<Seq<char>>::empty());
                r
            },
        }
    }
}

fn name_of(o: &Option<String>) -> (r: String)
    ensures
        r@ == name_or_unknown(*o),
{
    match o {
        Some(s) => s.clone(),
        None => owned("unknown"),
    }
}

/// Admission. `fallback` is the workspace's policy, consulted only where the
/// command needs it; `floor` is the lowest policy version the workspace
/// still accepts.
pub fn admit_command(
    workspace_id: &Option<String>,
    payload: &CommandPayload,
    fallback: &Option<EffectiveSecurityPolicy>,
    floor: u64,
) -> (r: Result<Admission, String>)
    ensures
        workspace_id is None ==> (r matches Err(e) && e@ == "Missing workspace ID in command"@),
        workspace_id is Some ==> match admission_refusal(*payload, *fallback, floor) {
            Some(msg) => r matches Err(e) && e@ == msg,
            None => r matches Ok(a) && {
                let fb = fallback_used(*payload, *fallback);
                &&& a.workspace_id@ == workspace_id->0@
                &&& a.skill@ == name_or_unknown(payload.skill)
                &&& a.method@ == name_or_unknown(payload.method)
                &&& a.route == route_of(name_or_unknown(payload.skill))
                &&& str_views(a.allowed_paths@) == scope_in_force(str_views(payload.allowed_paths@), match fb { Some(f) => Some(str_views(f.allowed_paths@)), None => None })
                &&& str_views(a.blocked_paths@) == scope_in_force(str_views(payload.blocked_paths@), match fb { Some(f) => Some(str_views(f.blocked_paths@)), None => None })
                &&& str_views(a.allowed_domains@) == scope_in_force(str_views(payload.allowed_domains@), match fb { Some(f) => Some(str_views(f.allowed_domains@)), None => None })
                &&& str_views(a.blocked_domains@) == scope_in_force(str_views(payload.blocked_domains@), match fb { Some(f) => Some(str_views(f.blocked_domains@)), None => None })
                &&& a.raise_floor_to == match payload.tool_access_policy_version {
                    Some(v) => if v > floor { Some(v) } else { None },
                    None => None,
                }
            },
        },
{
    let ws = match workspace_id {
        Some(w) => w.clone(),
        None => return Err(owned("Missing workspace ID in command")),
    };
    let fb: Option<&EffectiveSecurityPolicy> = if needs_fallback_policy(payload) {
        match fallback {
            Some(f) => Some(f),
            None => None,
        }
    } else {
        None
    };
    let policy: Option<&ToolAccessPolicy> = match &payload.tool_access_policy {
        Some(t) => Some(t),
        None => match fb {
            Some(f) => Some(&f.tool_access_policy),
            None => None,
        },
    };
    match (policy, &payload.tool_access_policy_hash) {
        (Some(p), Some(expected)) => {
            let actual = hash_tool_policy(p);
            if !str_eq(actual.as_str(), expected.as_str()) {
                return Err(owned("Tool policy hash mismatch; rejecting command"));
            }
        },
        _ => {},
    }
    let mut raise: Option<u64> = None;
    match payload.tool_access_policy_version {
        Some(v) => {
            if v < floor {
                let mut m = chars_of("Stale tool policy version ");
                push_decimal(&mut m, v);
                push_all(&mut m, &chars_of(" (latest seen "));
                push_decimal(&mut m, floor);
                push_all(&mut m, &chars_of(")"));
                return Err(string_of(m.as_slice()));
            }
            if v > floor {
                raise = Some(v);
            }
        },
        None => {},
    }
    let method = name_of(&payload.method);
    if !is_tool_allowed(method.as_str(), policy) {
        let mut m = chars_of("Tool '");
        push_all(&mut m, &chars_of(method.as_str()));
        push_all(&mut m, &chars_of("' is blocked by workspace tool policy"));
        return Err(string_of(m.as_slice()));
    }
    let skill = name_of(&payload.skill);
    let route = route_for(skill.as_str());
    Ok(Admission {
        workspace_id: ws,
        skill,
        method,
        route,
        allowed_paths: pick_scope(&payload.allowed_paths, match fb { Some(f) => Some(&f.allowed_paths), None => None }),
        blocked_paths: pick_scope(&payload.blocked_paths, match fb { Some(f) => Some(&f.blocked_paths), None => None }),
        allowed_domains: pick_scope(&payload.allowed_domains, match fb { Some(f) => Some(&f.allowed_domains), None => None }),
        blocked_domains: pick_scope(&payload.blocked_domains, match fb { Some(f) => Some(&f.blocked_domains), None => None }),
        raise_floor_to: raise,
    })
}

/// A command whose policy is older than the workspace's floor never passes.
pub proof fn law_stale_policies_never_pass(p: CommandPayload, fb: Option<EffectiveSecurityPolicy>, floor: u64)
    ensures
        (p.tool_access_policy_version matches Some(v) && v < floor) ==> admission_refusal(p, fb, floor) is Some,
{
}

/// A tool that the policy in force denies is never admitted.
pub proof fn law_denied_tools_never_pass(p: CommandPayload, fb: Option<EffectiveSecurityPolicy>, floor: u64)
    ensures
        !tool_allowed(name_or_unknown(p.method), policy_in_force(p, fb)) ==> admission_refusal(p, fb, floor) is Some,
{
}

// ───────────────────────────── third-party skills ─────────────────────────────

/// Why a skill's declared filesystem permissions fall outside the command's
/// scopes: the first that does not normalise, lies outside the allowed paths,
/// or is blocked.
pub open spec fn fs_refusal(
    id: Seq<char>,
    hosts: Seq<Seq<char>>,
    allowed: Seq<Seq<char>>,
    blocked: Seq<Seq<char>>,
) -> Option<Seq<char>>
    decreases hosts.len(),
{
    if hosts.len() == 0 {
        None
    } else {
        let h = hosts[0];
        match normalize(h) {
            None => Some("Invalid third-party skill filesystem permission: "@ + (if is_abs(h) {
                "Invalid path '"@ + h + "'"@
            } else {
                "Path '"@ + h + "' must be absolute"@
            })),
            Some(t) => if allowed.len() > 0 && !inside_some_root(allowed, t) {
                Some("Third-party skill '"@ + id + "' filesystem permission '"@ + h
                    + "' is outside command allowed paths"@)
            } else if is_abs(render(t)) && blocked_by(comps(render(t)), blocked, allowed) {
                Some("Third-party skill '"@ + id + "' filesystem permission '"@ + h
                    + "' is blocked by Airlock scopes"@)
            } else {
                fs_refusal(id, hosts.drop_first(), allowed, blocked)
            },
        }
    }
}

/// Why a skill's declared network domains fall outside the command's scopes.
pub open spec fn domain_refusal(
    id: Seq<char>,
    domains: Seq<Seq<char>>,
    allowed: Seq<Seq<char>>,
    blocked: Seq<Seq<char>>,
) -> Option<Seq<char>>
    decreases domains.len(),
{
    if domains.len() == 0 {
        None
    } else {
        let d = domains[0];
        if any_rule_matches(d, blocked) {
            Some("Third-party skill '"@ + id + "' network domain '"@ + d
                + "' is blocked by Airlock scopes"@)
        } else if allowed.len() > 0 && !any_rule_matches(d, allowed) {
            Some("Third-party skill '"@ + id + "' network domain '"@ + d
                + "' is outside Airlock allowed_domains"@)
        } else {
            domain_refusal(id, domains.drop_first(), allowed, blocked)
        }
    }
}

pub open spec fn scope_refusal(
    s: crate::third_party::SkillView,
    allowed_paths: Seq<Seq<char>>,
    blocked_paths: Seq<Seq<char>>,
    allowed_domains: Seq<Seq<char>>,
    blocked_domains: Seq<Seq<char>>,
) -> Option<Seq<char>> {
    match fs_refusal(s.id, s.filesystem.map_values(|f: crate::third_party::FsPermView| f.host_path), allowed_paths, blocked_paths) {
        Some(e) => Some(e),
        None => domain_refusal(s.id, s.network_domains, allowed_domains, blocked_domains),
    }
}

fn msg4(a: &str, b: &str, c: &str, d: &str, e: &str) -> (r: String)
    ensures
        r@ == a@ + b@ + c@ + d@ + e@,
{
    let mut m = chars_of(a);
    push_all(&mut m, &chars_of(b));
    push_all(&mut m, &chars_of(c));
    push_all(&mut m, &chars_of(d));
    push_all(&mut m, &chars_of(e));
    assert(m@ =~= a@ + b@ + c@ + d@ + e@);
    string_of(m.as_slice())
}

/// Checks a third-party skill's declared permissions against the scopes of
/// the command that calls it.
pub fn validate_third_party_scopes(
    skill: &InstalledThirdPartySkill,
    allowed_paths: &Vec<String>,
    blocked_paths: &Vec<String>,
    allowed_domains: &Vec<String>,
    blocked_domains: &Vec<String>,
) -> (r: Result<(), String>)
    ensures
        match scope_refusal(skill@, str_views(allowed_paths@), str_views(blocked_paths@), str_views(allowed_domains@), str_views(blocked_domains@)) {
            Some(e) => r matches Err(m) && m@ == e,
            None => r is Ok,
        },
{
    let ghost sv = skill@;
    let ghost hosts = sv.filesystem.map_values(|f: crate::third_party::FsPermView| f.host_path);
    let ghost al = str_views(allowed_paths@);
    let ghost bl = str_views(blocked_paths@);
    let allowed_v = chars_of_all(allowed_paths);
    let fs = &skill.permissions.filesystem;
    let mut i: usize = 0;
    assert(hosts.skip(0) =~= hosts);
    while i < fs.len()
        invariant
            i <= fs@.len(),
            sv == skill@,
            hosts == sv.filesystem.map_values(|f: crate::third_party::FsPermView| f.host_path),
            hosts.len() == fs@.len(),
            forall|k: int| 0 <= k < fs@.len() ==> #[trigger] hosts[k] == fs@[k].host_path@,
            al == str_views(allowed_paths@),
            bl == str_views(blocked_paths@),
            views(allowed_v@) == al,
            fs_refusal(sv.id, hosts, al, bl) == fs_refusal(sv.id, hosts.skip(i as int), al, bl),
        decreases fs@.len() - i,
    {
        let host = fs[i].host_path.as_str();
        let ghost rest = hosts.skip(i as int);
        assert(rest[0] == host@);
        assert(rest.drop_first() =~= hosts.skip(i + 1));
        let target = match normalize_absolute_path(host) {
            Ok(t) => t,
            Err(e) => {
                return Err(crate::text::concat2("Invalid third-party skill filesystem permission: ", e.as_str()));
            },
        };
        let parts = match crate::paths::normalize_vec(&chars_of(host)) {
            Some(p) => p,
            None => {
                return Err(target);
            },
        };
        if allowed_paths.len() > 0 && !crate::paths::inside_some_root_exec(&allowed_v, &parts) {
            return Err(msg4("Third-party skill '", skill.id.as_str(), "' filesystem permission '", host, "' is outside command allowed paths"));
        }
        if is_path_blocked(target.as_str(), blocked_paths, allowed_paths) {
            return Err(msg4("Third-party skill '", skill.id.as_str(), "' filesystem permission '", host, "' is blocked by Airlock scopes"));
        }
        i = i + 1;
    }
    let doms = &skill.permissions.network_domains;
    let ghost ds = sv.network_domains;
    let mut j: usize = 0;
    assert(ds.skip(0) =~= ds);
    assert(hosts.skip(i as int).len() == 0);
    while j < doms.len()
        invariant
            j <= doms@.len(),
            sv == skill@,
            ds == sv.network_domains,
            ds == str_views(doms@),
            hosts == sv.filesystem.map_values(|f: crate::third_party::FsPermView| f.host_path),
            al == str_views(allowed_paths@),
            bl == str_views(blocked_paths@),
            fs_refusal(sv.id, hosts, al, bl) is None,
            domain_refusal(sv.id, ds, str_views(allowed_domains@), str_views(blocked_domains@))
                == domain_refusal(sv.id, ds.skip(j as int), str_views(allowed_domains@), str_views(blocked_domains@)),
        decreases doms@.len() - j,
    {
        let d = doms[j].as_str();
        let ghost rest = ds.skip(j as int);
        assert(rest[0] == d@);
        assert(rest.drop_first() =~= ds.skip(j + 1));
        if any_domain_rule_matches(d, blocked_domains) {
            return Err(msg4("Third-party skill '", skill.id.as_str(), "' network domain '", d, "' is blocked by Airlock scopes"));
        }
        if allowed_domains.len() > 0 && !any_domain_rule_matches(d, allowed_domains) {
            return Err(msg4("Third-party skill '", skill.id.as_str(), "' network domain '", d, "' is outside Airlock allowed_domains"));
        }
        j = j + 1;
    }
    assert(ds.skip(j as int).len() == 0);
    Ok(())
}

/// Admission of a third-party method: the command's Airlock level must reach
/// the method's, then the skill's permissions must fit the command's scopes.
pub fn admit_third_party_call(
    command_level: AirlockLevel,
    skill: &InstalledThirdPartySkill,
    method: &InstalledThirdPartyMethod,
    allowed_paths: &Vec<String>,
    blocked_paths: &Vec<String>,
    allowed_domains: &Vec<String>,
    blocked_domains: &Vec<String>,
) -> (r: Result<(), String>)
    ensures
        command_level.rank_spec() < method.airlock_level.rank_spec() ==> (r matches Err(e) && e@
            == "Command Airlock level "@ + command_level.debug_name() + " is lower than third-party method '"@
            + method.name@ + "' required level "@ + method.airlock_level.debug_name()),
        command_level.rank_spec() >= method.airlock_level.rank_spec() ==> match scope_refusal(skill@, str_views(allowed_paths@), str_views(blocked_paths@), str_views(allowed_domains@), str_views(blocked_domains@)) {
            Some(e) => r matches Err(m) && m@ == e,
            None => r is Ok,
        },
{
    if command_level.is_below(&method.airlock_level) {
        return Err(msg4("Command Airlock level ", command_level.debug_str(), " is lower than third-party method '", method.name.as_str(), &crate::text::concat2("' required level ", method.airlock_level.debug_str())));
    }
    validate_third_party_scopes(skill, allowed_paths, blocked_paths, allowed_domains, blocked_domains)
}

} // verus!
