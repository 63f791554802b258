//! The adapter contract: the four resolution operations over the
//! snapshot, dispatching by the schema type name the caller supplies.
//!
//! The batch operations take a sequence of contexts — opaque traversal
//! tokens paired with a current vertex — and answer one result per
//! context, order- and cardinality-preserving. The snapshot is built
//! once, at construction, and only read afterwards.

use vstd::prelude::*;

use crate::chars;
use crate::edges::{
    api_config_edge, lambda_edge, module_edge, resolve_api_config_edge, resolve_lambda_edge,
    resolve_module_edge, resolve_template_variable_edge, resolve_terraform_edge,
    template_variable_edge, terraform_edge,
};
use crate::extract::{
    copy_api_config, copy_lambda, copy_module, module_of_entry, pipeline_of, seq_views,
    snapshot_of,
};
use crate::model::{ErrorModel, ExtractError, HclModel, LambdaModel, Module, ModuleModel, HCL};
use crate::properties::{
    api_config_property, backend_property, lambda_property, module_property,
    permissions_property, required_provider_property, resolve_api_config_property,
    resolve_backend_property, resolve_lambda_property, resolve_module_property,
    resolve_permissions_property, resolve_required_provider_property,
    resolve_template_variable_property, resolve_terraform_property, resolve_variable_property,
    template_variable_property, terraform_property, variable_property, PropertyValue,
    PropertyValueModel,
};
use crate::value::{hcl_get, value_get, HclValue, ValueModel};
use crate::vertex::{typename_of, Vertex, VertexModel};

verus! {

/// The parameters of a starting edge: an optional module name and an
/// optional tag qualifier.
#[derive(Debug, Clone, PartialEq)]
pub struct StartParams {
    pub name: Option<String>,
    pub tag: Option<String>,
}

pub struct StartParamsModel {
    pub name: Option<Seq<char>>,
    pub tag: Option<Seq<char>>,
}

impl View for StartParams {
    type V = StartParamsModel;

    open spec fn view(&self) -> StartParamsModel {
        StartParamsModel {
            name: match self.name {
                Some(ref s) => Some(s@),
                None => None,
            },
            tag: match self.tag {
                Some(ref s) => Some(s@),
                None => None,
            },
        }
    }
}

// --- dispatch by type name ---

/// The value of one property of one vertex, under the declared type
/// name. `__typename` answers on every type; an unknown (type, name)
/// pair yields nothing and is a schema/adapter mismatch.
pub open spec fn vertex_property(
    v: VertexModel,
    tname: Seq<char>,
    property_name: Seq<char>,
) -> Option<PropertyValueModel> {
    if property_name == "__typename"@ {
        Some(PropertyValueModel::Str(typename_of(v)))
    } else if tname == "ApiConfig"@ && v is ApiConfig {
        api_config_property(v->ApiConfig_0, property_name)
    } else if tname == "Backend"@ && v is Backend {
        backend_property(v->Backend_0, property_name)
    } else if tname == "Lambda"@ && v is Lambda {
        lambda_property(v->Lambda_0, property_name)
    } else if tname == "Module"@ && v is Module {
        module_property(v->Module_0, property_name)
    } else if tname == "Permissions"@ && v is Permissions {
        permissions_property(v->Permissions_0, property_name)
    } else if tname == "RequiredProvider"@ && v is RequiredProvider {
        required_provider_property(v->RequiredProvider_0, property_name)
    } else if tname == "TemplateVariable"@ && v is TemplateVariable {
        template_variable_property(v->TemplateVariable_0, property_name)
    } else if tname == "Terraform"@ && v is Terraform {
        terraform_property(v->Terraform_0, property_name)
    } else if tname == "Variable"@ && v is Variable {
        variable_property(v->Variable_0, property_name)
    } else {
        None
    }
}

/// The neighbors of one vertex via one edge, under the declared type.
pub open spec fn vertex_edge(v: VertexModel, tname: Seq<char>, edge_name: Seq<char>) -> Option<
    Seq<VertexModel>,
> {
    if tname == "ApiConfig"@ && v is ApiConfig {
        api_config_edge(v->ApiConfig_0, edge_name)
    } else if tname == "Lambda"@ && v is Lambda {
        lambda_edge(v->Lambda_0, edge_name)
    } else if tname == "Module"@ && v is Module {
        module_edge(v->Module_0, edge_name)
    } else if tname == "TemplateVariable"@ && v is TemplateVariable {
        template_variable_edge(v->TemplateVariable_0, edge_name)
    } else if tname == "Terraform"@ && v is Terraform {
        terraform_edge(v->Terraform_0, edge_name)
    } else {
        None
    }
}

/// One property of one vertex, dispatched by type name.
pub fn resolve_vertex_property(vertex: &Vertex, tname: &str, property_name: &str) -> (r:
    PropertyValue)
    requires
        vertex_property(vertex@, tname@, property_name@) is Some,
    ensures
        r@ == vertex_property(vertex@, tname@, property_name@)->Some_0,
{
    proof {
        reveal_strlit("__typename");
        reveal_strlit("ApiConfig");
        reveal_strlit("Backend");
        reveal_strlit("Lambda");
        reveal_strlit("Module");
        reveal_strlit("Permissions");
        reveal_strlit("RequiredProvider");
        reveal_strlit("TemplateVariable");
        reveal_strlit("Terraform");
        reveal_strlit("Variable");
        assert("__typename"@.len() == 10);
        assert("ApiConfig"@.len() == 9);
        assert("Backend"@.len() == 7);
        assert("Lambda"@.len() == 6);
        assert("Module"@.len() == 6);
        assert("Permissions"@.len() == 11);
        assert("RequiredProvider"@.len() == 16);
        assert("TemplateVariable"@.len() == 16);
        assert("Terraform"@.len() == 9);
        assert("Variable"@.len() == 8);
        assert("Lambda"@[0] == 'L');
        assert("Module"@[0] == 'M');
        assert("ApiConfig"@[0] == 'A');
        assert("Terraform"@[0] == 'T');
        assert("RequiredProvider"@[0] == 'R');
        assert("TemplateVariable"@[0] == 'T');
    }
    if chars::str_eq(property_name, "__typename") {
        PropertyValue::Str(crate::extract::string_lit(vertex.typename()))
    } else if chars::str_eq(tname, "ApiConfig") {
        resolve_api_config_property(vertex, property_name)
    } else if chars::str_eq(tname, "Backend") {
        resolve_backend_property(vertex, property_name)
    } else if chars::str_eq(tname, "Lambda") {
        resolve_lambda_property(vertex, property_name)
    } else if chars::str_eq(tname, "Module") {
        resolve_module_property(vertex, property_name)
    } else if chars::str_eq(tname, "Permissions") {
        resolve_permissions_property(vertex, property_name)
    } else if chars::str_eq(tname, "RequiredProvider") {
        resolve_required_provider_property(vertex, property_name)
    } else if chars::str_eq(tname, "TemplateVariable") {
        resolve_template_variable_property(vertex, property_name)
    } else if chars::str_eq(tname, "Terraform") {
        resolve_terraform_property(vertex, property_name)
    } else if chars::str_eq(tname, "Variable") {
        resolve_variable_property(vertex, property_name)
    } else {
        proof {
            assert(false);
        }
        unreached()
    }
}

/// The neighbors of one vertex via one edge, dispatched by type name.
pub fn resolve_vertex_edge(vertex: &Vertex, tname: &str, edge_name: &str) -> (r: Vec<Vertex>)
    requires
        vertex_edge(vertex@, tname@, edge_name@) is Some,
    ensures
        seq_views(r@) == vertex_edge(vertex@, tname@, edge_name@)->Some_0,
{
    proof {
        reveal_strlit("__typename");
        reveal_strlit("ApiConfig");
        reveal_strlit("Backend");
        reveal_strlit("Lambda");
        reveal_strlit("Module");
        reveal_strlit("Permissions");
        reveal_strlit("RequiredProvider");
        reveal_strlit("TemplateVariable");
        reveal_strlit("Terraform");
        reveal_strlit("Variable");
        assert("__typename"@.len() == 10);
        assert("ApiConfig"@.len() == 9);
        assert("Backend"@.len() == 7);
        assert("Lambda"@.len() == 6);
        assert("Module"@.len() == 6);
        assert("Permissions"@.len() == 11);
        assert("RequiredProvider"@.len() == 16);
        assert("TemplateVariable"@.len() == 16);
        assert("Terraform"@.len() == 9);
        assert("Variable"@.len() == 8);
        assert("Lambda"@[0] == 'L');
        assert("Module"@[0] == 'M');
        assert("ApiConfig"@[0] == 'A');
        assert("Terraform"@[0] == 'T');
        assert("RequiredProvider"@[0] == 'R');
        assert("TemplateVariable"@[0] == 'T');
    }
    if chars::str_eq(tname, "ApiConfig") {
        resolve_api_config_edge(vertex, edge_name)
    } else if chars::str_eq(tname, "Lambda") {
        resolve_lambda_edge(vertex, edge_name)
    } else if chars::str_eq(tname, "Module") {
        resolve_module_edge(vertex, edge_name)
    } else if chars::str_eq(tname, "TemplateVariable") {
        resolve_template_variable_edge(vertex, edge_name)
    } else if chars::str_eq(tname, "Terraform") {
        resolve_terraform_edge(vertex, edge_name)
    } else {
        proof {
            assert(false);
        }
        unreached()
    }
}

// --- the batch operations over contexts ---

/// Property resolution over a sequence of contexts: exactly one paired
/// value per context, in the same relative order — never filtering.
#[verifier::loop_isolation(false)]
pub fn resolve_property_batch<C>(
    contexts: Vec<(C, Vertex)>,
    tname: &str,
    property_name: &str,
) -> (r: Vec<(C, PropertyValue)>)
    requires
        forall|i: int|
            0 <= i < contexts@.len() ==> vertex_property(
                #[trigger] contexts@[i].1@,
                tname@,
                property_name@,
            ) is Some,
    ensures
        r@.len() == contexts@.len(),
        forall|i: int|
            #![trigger r@[i]]
            0 <= i < r@.len() ==> r@[i].0 == contexts@[i].0 && r@[i].1@ == vertex_property(
                contexts@[i].1@,
                tname@,
                property_name@,
            )->Some_0,
{
    let ghost orig = contexts@;
    let mut rest = contexts;
    let mut out: Vec<(C, PropertyValue)> = Vec::new();
    proof {
        assert(rest@ =~= orig.skip(0));
    }
    while rest.len() > 0
        invariant
            out@.len() + rest@.len() == orig.len(),
            rest@ == orig.skip(out@.len() as int),
            forall|i: int|
                #![trigger out@[i]]
                0 <= i < out@.len() ==> out@[i].0 == orig[i].0 && out@[i].1@ == vertex_property(
                    orig[i].1@,
                    tname@,
                    property_name@,
                )->Some_0,
        decreases rest@.len(),
    {
        let ghost k = out@.len();
        let (c, v) = rest.remove(0);
        proof {
            assert(orig.skip(k as int)[0] == orig[k as int]);
            assert(orig.skip(k as int).remove(0) =~= orig.skip(k as int + 1));
        }
        let pv = resolve_vertex_property(&v, tname, property_name);
        out.push((c, pv));
    }
    out
}

/// Neighbor resolution over a sequence of contexts: zero or more
/// neighbors per context, one entry per context, order preserved.
#[verifier::loop_isolation(false)]
pub fn resolve_neighbors_batch<C>(
    contexts: Vec<(C, Vertex)>,
    tname: &str,
    edge_name: &str,
) -> (r: Vec<(C, Vec<Vertex>)>)
    requires
        forall|i: int|
            0 <= i < contexts@.len() ==> vertex_edge(
                #[trigger] contexts@[i].1@,
                tname@,
                edge_name@,
            ) is Some,
    ensures
        r@.len() == contexts@.len(),
        forall|i: int|
            #![trigger r@[i]]
            0 <= i < r@.len() ==> r@[i].0 == contexts@[i].0 && seq_views(r@[i].1@) == vertex_edge(
                contexts@[i].1@,
                tname@,
                edge_name@,
            )->Some_0,
{
    let ghost orig = contexts@;
    let mut rest = contexts;
    let mut out: Vec<(C, Vec<Vertex>)> = Vec::new();
    proof {
        assert(rest@ =~= orig.skip(0));
    }
    while rest.len() > 0
        invariant
            out@.len() + rest@.len() == orig.len(),
            rest@ == orig.skip(out@.len() as int),
            forall|i: int|
                #![trigger out@[i]]
                0 <= i < out@.len() ==> out@[i].0 == orig[i].0 && seq_views(out@[i].1@)
                    == vertex_edge(orig[i].1@, tname@, edge_name@)->Some_0,
        decreases rest@.len(),
    {
        let ghost k = out@.len();
        let (c, v) = rest.remove(0);
        proof {
            assert(orig.skip(k as int)[0] == orig[k as int]);
            assert(orig.skip(k as int).remove(0) =~= orig.skip(k as int + 1));
        }
        let ns = resolve_vertex_edge(&v, tname, edge_name);
        out.push((c, ns));
    }
    out
}

/// Coercion over a sequence of contexts: whether each vertex's dynamic
/// variant is the requested type. The schema of this domain declares no
/// subtype relationships, so membership is name equality.
#[verifier::loop_isolation(false)]
pub fn resolve_coercion_batch<C>(contexts: Vec<(C, Vertex)>, coerce_to_type: &str) -> (r: Vec<
    (C, bool),
>)
    ensures
        r@.len() == contexts@.len(),
        forall|i: int|
            #![trigger r@[i]]
            0 <= i < r@.len() ==> r@[i].0 == contexts@[i].0 && r@[i].1 == (typename_of(
                contexts@[i].1@,
            ) == coerce_to_type@),
{
    let ghost orig = contexts@;
    let mut rest = contexts;
    let mut out: Vec<(C, bool)> = Vec::new();
    proof {
        assert(rest@ =~= orig.skip(0));
    }
    while rest.len() > 0
        invariant
            out@.len() + rest@.len() == orig.len(),
            rest@ == orig.skip(out@.len() as int),
            forall|i: int|
                #![trigger out@[i]]
                0 <= i < out@.len() ==> out@[i].0 == orig[i].0 && out@[i].1 == (typename_of(
                    orig[i].1@,
                ) == coerce_to_type@),
        decreases rest@.len(),
    {
        let ghost k = out@.len();
        let (c, v) = rest.remove(0);
        proof {
            assert(orig.skip(k as int)[0] == orig[k as int]);
            assert(orig.skip(k as int).remove(0) =~= orig.skip(k as int + 1));
        }
        let b = chars::str_eq(v.typename(), coerce_to_type);
        proof {
            assert(v == orig[k as int].1);
            assert(b == (typename_of(orig[k as int].1@) == coerce_to_type@));
        }
        let ghost old_out = out@;
        out.push((c, b));
        proof {
            assert forall|i: int|
                #![trigger out@[i]]
                0 <= i < out@.len() implies out@[i].0 == orig[i].0 && out@[i].1 == (typename_of(
                orig[i].1@,
            ) == coerce_to_type@) by {
                if i < k {
                    assert(out@[i] == old_out[i]);
                } else {
                    assert(out@[i] == (c, b));
                }
            }
        }
    }
    out
}

// --- starting vertices ---

/// The module vertices found in the raw values of the first `i` files
/// under the named key (and tag, when given), in file order.
pub open spec fn module_start(
    raw: Seq<ValueModel>,
    name: Seq<char>,
    tag: Option<Seq<char>>,
    i: int,
) -> Result<Seq<VertexModel>, ErrorModel>
    decreases i,
{
    if i <= 0 {
        Ok(Seq::empty())
    } else {
        match module_start(raw, name, tag, i - 1) {
            Err(e) => Err(e),
            Ok(acc) => {
                let target = match tag {
                    Some(t) => match value_get(raw[i - 1], name) {
                        Some(x) => value_get(x, t),
                        None => None,
                    },
                    None => value_get(raw[i - 1], name),
                };
                match target {
                    None => Ok(acc),
                    Some(mv) => match module_of_entry(
                        match tag {
                            Some(t) => t,
                            None => name,
                        },
                        mv,
                    ) {
                        Err(e) => Err(e),
                        Ok(m) => Ok(acc.push(VertexModel::Module(m))),
                    },
                }
            },
        }
    }
}

pub proof fn lemma_module_start_err(
    raw: Seq<ValueModel>,
    name: Seq<char>,
    tag: Option<Seq<char>>,
    i: int,
    j: int,
)
    requires
        0 <= i <= j,
        module_start(raw, name, tag, i) is Err,
    ensures
        module_start(raw, name, tag, j) == module_start(raw, name, tag, i),
    decreases j - i,
{
    if i < j {
        lemma_module_start_err(raw, name, tag, i, j - 1);
    }
}

/// Which starting edges exist, and what parameters they need.
pub open spec fn start_edge_ok(edge: Seq<char>, p: StartParamsModel) -> bool {
    ||| edge == "ApiConfig"@
    ||| edge == "Lambda"@
    ||| edge == "Modules"@
    ||| (edge == "Module"@ && p.name is Some)
}

/// The initial vertex set of one named root entry point: deterministic
/// in the snapshot and the parameters.
pub open spec fn start_of(h: HclModel, edge: Seq<char>, p: StartParamsModel) -> Result<
    Seq<VertexModel>,
    ErrorModel,
> {
    if edge == "ApiConfig"@ {
        Ok(
            match h.api_config {
                Some(c) => seq![VertexModel::ApiConfig(c)],
                None => Seq::empty(),
            },
        )
    } else if edge == "Lambda"@ {
        Ok(h.lambda.map_values(|l: LambdaModel| VertexModel::Lambda(l)))
    } else if edge == "Modules"@ {
        Ok(h.modules.map_values(|m: ModuleModel| VertexModel::Module(m)))
    } else {
        module_start(h.raw, p.name->Some_0, p.tag, h.raw.len() as int)
    }
}

/// The adapter: built once over the extracted snapshot, then read-only.
#[derive(Debug)]
pub struct HclAdapter {
    pub data: HCL,
}

impl HclAdapter {
    /// An adapter over already-parsed configuration values.
    pub fn new_with_values(values: Vec<HclValue>) -> (r: Result<HclAdapter, ExtractError>)
        ensures
            match r {
                Ok(a) => snapshot_of(seq_views(values@)) == Ok::<_, ErrorModel>(a.data@),
                Err(e) => snapshot_of(seq_views(values@)) == Err::<HclModel, _>(e@),
            },
    {
        match crate::extract::extract_data_from_values(values) {
            Ok(h) => Ok(HclAdapter { data: h }),
            Err(e) => Err(e),
        }
    }

    /// An adapter built by running the whole pipeline over raw sources.
    pub fn new_with_sources(sources: &Vec<String>) -> (r: Result<HclAdapter, ExtractError>)
        ensures
            match r {
                Ok(a) => pipeline_of(seq_views(sources@)) == Ok::<_, ErrorModel>(a.data@),
                Err(e) => pipeline_of(seq_views(sources@)) == Err::<HclModel, _>(e@),
            },
    {
        match crate::extract::extract_data_from_hcl(sources) {
            Ok(h) => Ok(HclAdapter { data: h }),
            Err(e) => Err(e),
        }
    }

    /// The initial vertices of a named root entry point.
    #[verifier::loop_isolation(false)]
    pub fn resolve_starting_vertices(&self, edge_name: &str, parameters: &StartParams) -> (r:
        Result<Vec<Vertex>, ExtractError>)
        requires
            start_edge_ok(edge_name@, parameters@),
        ensures
            match r {
                Ok(vs) => start_of(self.data@, edge_name@, parameters@) == Ok::<
                    _,
                    ErrorModel,
                >(seq_views(vs@)),
                Err(e) => start_of(self.data@, edge_name@, parameters@) == Err::<
                    Seq<VertexModel>,
                    _,
                >(e@),
            },
    {
        proof {
            reveal_strlit("ApiConfig");
            reveal_strlit("Lambda");
            reveal_strlit("Modules");
            reveal_strlit("Module");
            assert("ApiConfig"@.len() == 9);
            assert("Lambda"@.len() == 6);
            assert("Modules"@.len() == 7);
            assert("Module"@.len() == 6);
            assert("Lambda"@[0] == 'L');
            assert("Module"@[0] == 'M');
        }
        if chars::str_eq(edge_name, "ApiConfig") {
            let mut out: Vec<Vertex> = Vec::new();
            match &self.data.api_config {
                Some(c) => {
                    out.push(Vertex::ApiConfig(copy_api_config(c)));
                },
                None => {},
            }
            proof {
                assert(seq_views(out@) =~= start_of(self.data@, edge_name@, parameters@)
                    ->Ok_0);
            }
            Ok(out)
        } else if chars::str_eq(edge_name, "Lambda") {
            let mut out: Vec<Vertex> = Vec::new();
            let mut i: usize = 0;
            while i < self.data.lambda.len()
                invariant
                    i <= self.data.lambda@.len(),
                    out@.len() == i,
                    forall|j: int|
                        0 <= j < i ==> #[trigger] out@[j]@ == VertexModel::Lambda(
                            self.data.lambda@[j]@,
                        ),
                decreases self.data.lambda@.len() - i,
            {
                out.push(Vertex::Lambda(copy_lambda(&self.data.lambda[i])));
                i = i + 1;
            }
            proof {
                assert(seq_views(out@) =~= start_of(self.data@, edge_name@, parameters@)
                    ->Ok_0);
            }
            Ok(out)
        } else if chars::str_eq(edge_name, "Modules") {
            let mut out: Vec<Vertex> = Vec::new();
            let mut i: usize = 0;
            while i < self.data.modules.len()
                invariant
                    i <= self.data.modules@.len(),
                    out@.len() == i,
                    forall|j: int|
                        0 <= j < i ==> #[trigger] out@[j]@ == VertexModel::Module(
                            self.data.modules@[j]@,
                        ),
                decreases self.data.modules@.len() - i,
            {
                out.push(Vertex::Module(copy_module(&self.data.modules[i])));
                i = i + 1;
            }
            proof {
                assert(seq_views(out@) =~= start_of(self.data@, edge_name@, parameters@)
                    ->Ok_0);
            }
            Ok(out)
        } else {
            let name = match &parameters.name {
                Some(n) => n.clone(),
                None => {
                    proof {
                        assert(false);
                    }
                    unreached()
                },
            };
            let ghost raw = self.data@.raw;
            let ghost nm = name@;
            let ghost tg = parameters@.tag;
            let mut out: Vec<Vertex> = Vec::new();
            proof {
                assert(seq_views(out@) =~= Seq::<VertexModel>::empty());
            }
            let mut i: usize = 0;
            while i < self.data.raw.len()
                invariant
                    i <= self.data.raw@.len(),
                    module_start(raw, nm, tg, i as int) == Ok::<_, ErrorModel>(seq_views(out@)),
                decreases self.data.raw@.len() - i,
            {
                proof {
                    assert(raw[i as int] == self.data.raw@[i as int]@);
                }
                let target = match &parameters.tag {
                    Some(t) => match hcl_get(&self.data.raw[i], name.as_str()) {
                        Some(x) => hcl_get(x, t.as_str()),
                        None => None,
                    },
                    None => hcl_get(&self.data.raw[i], name.as_str()),
                };
                match target {
                    None => {},
                    Some(mv) => {
                        let label = match &parameters.tag {
                            Some(t) => t.clone(),
                            None => name.clone(),
                        };
                        match crate::extract::module_from_value(label, mv) {
                            Ok(m) => {
                                let ghost old_out = out@;
                                out.push(Vertex::Module(m));
                                proof {
                                    assert(seq_views(out@) =~= seq_views(old_out).push(
                                        VertexModel::Module(m@),
                                    ));
                                }
                            },
                            Err(e) => {
                                proof {
                                    lemma_module_start_err(raw, nm, tg, i + 1,
                                    raw.len() as int);
                                }
                                return Err(e);
                            },
                        }
                    },
                }
                i = i + 1;
            }
            Ok(out)
        }
    }

    /// Property resolution, batched over contexts.
    pub fn resolve_property<C>(
        &self,
        contexts: Vec<(C, Vertex)>,
        tname: &str,
        property_name: &str,
    ) -> (r: Vec<(C, PropertyValue)>)
        requires
            forall|i: int|
                0 <= i < contexts@.len() ==> vertex_property(
                    #[trigger] contexts@[i].1@,
                    tname@,
                    property_name@,
                ) is Some,
        ensures
            r@.len() == contexts@.len(),
            forall|i: int|
                #![trigger r@[i]]
                0 <= i < r@.len() ==> r@[i].0 == contexts@[i].0 && r@[i].1@ == vertex_property(
                    contexts@[i].1@,
                    tname@,
                    property_name@,
                )->Some_0,
    {
        resolve_property_batch(contexts, tname, property_name)
    }

    /// Neighbor resolution, batched over contexts.
    pub fn resolve_neighbors<C>(
        &self,
        contexts: Vec<(C, Vertex)>,
        tname: &str,
        edge_name: &str,
    ) -> (r: Vec<(C, Vec<Vertex>)>)
        requires
            forall|i: int|
                0 <= i < contexts@.len() ==> vertex_edge(
                    #[trigger] contexts@[i].1@,
                    tname@,
                    edge_name@,
                ) is Some,
        ensures
            r@.len() == contexts@.len(),
            forall|i: int|
                #![trigger r@[i]]
                0 <= i < r@.len() ==> r@[i].0 == contexts@[i].0 && seq_views(r@[i].1@)
                    == vertex_edge(contexts@[i].1@, tname@, edge_name@)->Some_0,
    {
        resolve_neighbors_batch(contexts, tname, edge_name)
    }

    /// Coercion, batched over contexts.
    pub fn resolve_coercion<C>(&self, contexts: Vec<(C, Vertex)>, coerce_to_type: &str) -> (r:
        Vec<(C, bool)>)
        ensures
            r@.len() == contexts@.len(),
            forall|i: int|
                #![trigger r@[i]]
                0 <= i < r@.len() ==> r@[i].0 == contexts@[i].0 && r@[i].1 == (typename_of(
                    contexts@[i].1@,
                ) == coerce_to_type@),
    {
        resolve_coercion_batch(contexts, coerce_to_type)
    }
}

} // verus!
