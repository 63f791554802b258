//! Edge resolution, one resolver per vertex type with outgoing edges.
//!
//! Each resolver yields the neighbor vertices reached from one vertex
//! via a named edge: zero or more per vertex. As with properties, an
//! unknown (type, edge) pair is excluded by precondition.

use vstd::prelude::*;

use crate::chars;
use crate::extract::{
    copy_backend, copy_lambda, copy_provider, copy_template_variable, copy_variable, seq_views,
};
use crate::model::{ApiConfigModel, LambdaModel, ModuleModel, TemplateVariableModel,
    TerraformModel};
use crate::vertex::{Vertex, VertexModel};

verus! {

pub open spec fn api_config_edge(c: ApiConfigModel, edge: Seq<char>) -> Option<Seq<VertexModel>> {
    if edge == "template_variables"@ {
        Some(
            c.template_variables.map_values(
                |t: TemplateVariableModel| VertexModel::TemplateVariable(t),
            ),
        )
    } else {
        None
    }
}

pub open spec fn lambda_edge(l: LambdaModel, edge: Seq<char>) -> Option<Seq<VertexModel>> {
    if edge == "permissions"@ {
        Some(
            l.permissions.map_values(
                |p: crate::model::PermissionsModel| VertexModel::Permissions(p),
            ),
        )
    } else {
        None
    }
}

pub open spec fn module_edge(m: ModuleModel, edge: Seq<char>) -> Option<Seq<VertexModel>> {
    if edge == "variables"@ {
        Some(m.variables.map_values(|v: crate::model::VariableModel| VertexModel::Variable(v)))
    } else {
        None
    }
}

pub open spec fn template_variable_edge(t: TemplateVariableModel, edge: Seq<char>) -> Option<
    Seq<VertexModel>,
> {
    if edge == "lambda"@ {
        Some(
            match t.lambda {
                Some(l) => seq![VertexModel::Lambda(l)],
                None => Seq::empty(),
            },
        )
    } else {
        None
    }
}

pub open spec fn terraform_edge(t: TerraformModel, edge: Seq<char>) -> Option<Seq<VertexModel>> {
    if edge == "backend"@ {
        Some(
            match t.backend {
                Some(b) => seq![VertexModel::Backend(b)],
                None => Seq::empty(),
            },
        )
    } else if edge == "required_providers"@ {
        Some(
            t.required_providers.map_values(
                |p: crate::model::RequiredProviderModel| VertexModel::RequiredProvider(p),
            ),
        )
    } else {
        None
    }
}

#[verifier::loop_isolation(false)]
pub fn resolve_api_config_edge(vertex: &Vertex, edge_name: &str) -> (r: Vec<Vertex>)
    requires
        vertex@ is ApiConfig,
        api_config_edge(vertex@->ApiConfig_0, edge_name@) is Some,
    ensures
        seq_views(r@) == api_config_edge(vertex@->ApiConfig_0, edge_name@)->Some_0,
{
    let c = match vertex {
        Vertex::ApiConfig(c) => c,
        _ => {
            proof {
                assert(false);
            }
            unreached()
        },
    };
    let mut out: Vec<Vertex> = Vec::new();
    let mut i: usize = 0;
    while i < c.template_variables.len()
        invariant
            i <= c.template_variables@.len(),
            out@.len() == i,
            forall|j: int|
                0 <= j < i ==> #[trigger] out@[j]@ == VertexModel::TemplateVariable(
                    c.template_variables@[j]@,
                ),
        decreases c.template_variables@.len() - i,
    {
        out.push(Vertex::TemplateVariable(copy_template_variable(&c.template_variables[i])));
        i = i + 1;
    }
    proof {
        assert(seq_views(out@) =~= api_config_edge(vertex@->ApiConfig_0, edge_name@)->Some_0);
    }
    out
}

#[verifier::loop_isolation(false)]
pub fn resolve_lambda_edge(vertex: &Vertex, edge_name: &str) -> (r: Vec<Vertex>)
    requires
        vertex@ is Lambda,
        lambda_edge(vertex@->Lambda_0, edge_name@) is Some,
    ensures
        seq_views(r@) == lambda_edge(vertex@->Lambda_0, edge_name@)->Some_0,
{
    let l = match vertex {
        Vertex::Lambda(l) => l,
        _ => {
            proof {
                assert(false);
            }
            unreached()
        },
    };
    let mut out: Vec<Vertex> = Vec::new();
    let mut i: usize = 0;
    while i < l.permissions.len()
        invariant
            i <= l.permissions@.len(),
            out@.len() == i,
            forall|j: int|
                0 <= j < i ==> #[trigger] out@[j]@ == VertexModel::Permissions(
                    l.permissions@[j]@,
                ),
        decreases l.permissions@.len() - i,
    {
        out.push(Vertex::Permissions(crate::extract::copy_permission(&l.permissions[i])));
        i = i + 1;
    }
    proof {
        assert(seq_views(out@) =~= lambda_edge(vertex@->Lambda_0, edge_name@)->Some_0);
    }
    out
}

#[verifier::loop_isolation(false)]
pub fn resolve_module_edge(vertex: &Vertex, edge_name: &str) -> (r: Vec<Vertex>)
    requires
        vertex@ is Module,
        module_edge(vertex@->Module_0, edge_name@) is Some,
    ensures
        seq_views(r@) == module_edge(vertex@->Module_0, edge_name@)->Some_0,
{
    let m = match vertex {
        Vertex::Module(m) => m,
        _ => {
            proof {
                assert(false);
            }
            unreached()
        },
    };
    let mut out: Vec<Vertex> = Vec::new();
    let mut i: usize = 0;
    while i < m.variables.len()
        invariant
            i <= m.variables@.len(),
            out@.len() == i,
            forall|j: int|
                0 <= j < i ==> #[trigger] out@[j]@ == VertexModel::Variable(m.variables@[j]@),
        decreases m.variables@.len() - i,
    {
        out.push(Vertex::Variable(copy_variable(&m.variables[i])));
        i = i + 1;
    }
    proof {
        assert(seq_views(out@) =~= module_edge(vertex@->Module_0, edge_name@)->Some_0);
    }
    out
}

pub fn resolve_template_variable_edge(vertex: &Vertex, edge_name: &str) -> (r: Vec<Vertex>)
    requires
        vertex@ is TemplateVariable,
        template_variable_edge(vertex@->TemplateVariable_0, edge_name@) is Some,
    ensures
        seq_views(r@) == template_variable_edge(vertex@->TemplateVariable_0, edge_name@)
            ->Some_0,
{
    let t = match vertex {
        Vertex::TemplateVariable(t) => t,
        _ => {
            proof {
                assert(false);
            }
            unreached()
        },
    };
    let mut out: Vec<Vertex> = Vec::new();
    match &t.lambda {
        Some(l) => {
            out.push(Vertex::Lambda(copy_lambda(l)));
        },
        None => {},
    }
    proof {
        assert(seq_views(out@) =~= template_variable_edge(
            vertex@->TemplateVariable_0,
            edge_name@,
        )->Some_0);
    }
    out
}

#[verifier::loop_isolation(false)]
pub fn resolve_terraform_edge(vertex: &Vertex, edge_name: &str) -> (r: Vec<Vertex>)
    requires
        vertex@ is Terraform,
        terraform_edge(vertex@->Terraform_0, edge_name@) is Some,
    ensures
        seq_views(r@) == terraform_edge(vertex@->Terraform_0, edge_name@)->Some_0,
{
    let t = match vertex {
        Vertex::Terraform(t) => t,
        _ => {
            proof {
                assert(false);
            }
            unreached()
        },
    };
    let mut out: Vec<Vertex> = Vec::new();
    if chars::str_eq(edge_name, "backend") {
        match &t.backend {
            Some(b) => {
                out.push(Vertex::Backend(copy_backend(b)));
            },
            None => {},
        }
        proof {
            assert(seq_views(out@) =~= terraform_edge(vertex@->Terraform_0, edge_name@)
                ->Some_0);
        }
        out
    } else {
        let mut i: usize = 0;
        while i < t.required_providers.len()
            invariant
                i <= t.required_providers@.len(),
                out@.len() == i,
                forall|j: int|
                    0 <= j < i ==> #[trigger] out@[j]@ == VertexModel::RequiredProvider(
                        t.required_providers@[j]@,
                    ),
            decreases t.required_providers@.len() - i,
        {
            out.push(Vertex::RequiredProvider(copy_provider(&t.required_providers[i])));
            i = i + 1;
        }
        proof {
            assert(seq_views(out@) =~= terraform_edge(vertex@->Terraform_0, edge_name@)
                ->Some_0);
        }
        out
    }
}

} // verus!
