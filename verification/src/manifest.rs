//! Skill manifests: the description of a skill's methods that the runtime
//! publishes, with the parameter schema of each method.
use vstd::prelude::*;
use crate::tool_policy::AirlockLevel;

verus! {

/// Schema of one method parameter.
#[derive(Debug)]
pub struct ParameterSchema {
    pub param_type: String,
    pub required: Option<bool>,
    pub description: Option<String>,
}

pub struct ParameterSchemaView {
    pub param_type: Seq<char>,
    pub required: Option<bool>,
    pub description: Option<Seq<char>>,
}

pub open spec fn opt_view(o: Option<String>) -> Option<Seq<char>> {
    match o {
        Some(s) => Some(s@),
        None => None,
    }
}

pub fn copy_opt_string(o: &Option<String>) -> (r: Option<String>)
    ensures
        opt_view(r) == opt_view(*o),
{
    match o {
        Some(s) => Some(s.clone()),
        None => None,
    }
}

impl View for ParameterSchema {
    type V = ParameterSchemaView;

    open spec fn view(&self) -> ParameterSchemaView {
        ParameterSchemaView {
            param_type: self.param_type@,
            required: self.required,
            description: opt_view(self.description),
        }
    }
}

impl ParameterSchema {
    pub fn copy(&self) -> (r: Self)
        ensures
            r@ == self@,
    {
        ParameterSchema {
            param_type: self.param_type.clone(),
            required: self.required,
            description: copy_opt_string(&self.description),
        }
    }
}

/// Named parameters of a method.
pub open spec fn params_view(p: Seq<(String, ParameterSchema)>) -> Seq<(Seq<char>, ParameterSchemaView)> {
    p.map_values(|e: (String, ParameterSchema)| (e.0@, e.1@))
}

pub fn copy_params(p: &Vec<(String, ParameterSchema)>) -> (r: Vec<(String, ParameterSchema)>)
    ensures
        params_view(r@) == params_view(p@),
{
    let mut r: Vec<(String, ParameterSchema)> = Vec::new();
    let mut i: usize = 0;
    while i < p.len()
        invariant
            i <= p.len(),
            params_view(r@) == params_view(p@).take(i as int),
        decreases p.len() - i,
    {
        let e = (p[i].0.clone(), p[i].1.copy());
        proof {
            assert(params_view(r@.push(e)) =~= params_view(r@).push((e.0@, e.1@)));
            assert(params_view(p@).take(i + 1) =~= params_view(p@).take(i as int).push(
                (p@[i as int].0@, p@[i as int].1@),
            ));
        }
        r.push(e);
        i = i + 1;
    }
    assert(params_view(p@).take(p@.len() as int) =~= params_view(p@));
    r
}

/// One method of a skill manifest.
#[derive(Debug)]
pub struct SkillMethod {
    pub name: String,
    pub description: String,
    pub airlock_level: AirlockLevel,
    pub parameters: Vec<(String, ParameterSchema)>,
}

pub struct SkillMethodView {
    pub name: Seq<char>,
    pub description: Seq<char>,
    pub airlock_level: AirlockLevel,
    pub parameters: Seq<(Seq<char>, ParameterSchemaView)>,
}

impl View for SkillMethod {
    type V = SkillMethodView;

    open spec fn view(&self) -> SkillMethodView {
        SkillMethodView {
            name: self.name@,
            description: self.description@,
            airlock_level: self.airlock_level,
            parameters: params_view(self.parameters@),
        }
    }
}

/// Manifest of a skill: its name, version and methods.
#[derive(Debug)]
pub struct SkillManifest {
    pub name: String,
    pub version: String,
    pub methods: Vec<SkillMethod>,
}

pub struct SkillManifestView {
    pub name: Seq<char>,
    pub version: Seq<char>,
    pub methods: Seq<SkillMethodView>,
}

pub open spec fn methods_view(m: Seq<SkillMethod>) -> Seq<SkillMethodView> {
    m.map_values(|x: SkillMethod| x@)
}

impl View for SkillManifest {
    type V = SkillManifestView;

    open spec fn view(&self) -> SkillManifestView {
        SkillManifestView {
            name: self.name@,
            version: self.version@,
            methods: methods_view(self.methods@),
        }
    }
}

pub open spec fn manifests_view(m: Seq<SkillManifest>) -> Seq<SkillManifestView> {
    m.map_values(|x: SkillManifest| x@)
}

} // verus!
