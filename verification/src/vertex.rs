//! The vertex taxonomy of the configuration graph.
//!
//! A closed set of variants, one per entity kind, with typed accessors:
//! each accessor yields the wrapped value only when the vertex is of
//! the expected variant.

use vstd::prelude::*;

use crate::model::{
    ApiConfig, ApiConfigModel, Backend, BackendModel, Lambda, LambdaModel, Module, ModuleModel,
    Permissions, PermissionsModel, RequiredProvider, RequiredProviderModel, TemplateVariable,
    TemplateVariableModel, Terraform, TerraformModel, Variable, VariableModel,
};

verus! {

/// One typed node of the traversable graph.
#[derive(Debug, Clone, PartialEq)]
pub enum Vertex {
    ApiConfig(ApiConfig),
    Backend(Backend),
    Lambda(Lambda),
    Module(Module),
    Permissions(Permissions),
    RequiredProvider(RequiredProvider),
    TemplateVariable(TemplateVariable),
    Terraform(Terraform),
    Variable(Variable),
}

pub enum VertexModel {
    ApiConfig(ApiConfigModel),
    Backend(BackendModel),
    Lambda(LambdaModel),
    Module(ModuleModel),
    Permissions(PermissionsModel),
    RequiredProvider(RequiredProviderModel),
    TemplateVariable(TemplateVariableModel),
    Terraform(TerraformModel),
    Variable(VariableModel),
}

impl View for Vertex {
    type V = VertexModel;

    open spec fn view(&self) -> VertexModel {
        match self {
            Vertex::ApiConfig(x) => VertexModel::ApiConfig(x@),
            Vertex::Backend(x) => VertexModel::Backend(x@),
            Vertex::Lambda(x) => VertexModel::Lambda(x@),
            Vertex::Module(x) => VertexModel::Module(x@),
            Vertex::Permissions(x) => VertexModel::Permissions(x@),
            Vertex::RequiredProvider(x) => VertexModel::RequiredProvider(x@),
            Vertex::TemplateVariable(x) => VertexModel::TemplateVariable(x@),
            Vertex::Terraform(x) => VertexModel::Terraform(x@),
            Vertex::Variable(x) => VertexModel::Variable(x@),
        }
    }
}

/// The schema type name of a vertex's dynamic variant.
pub open spec fn typename_of(v: VertexModel) -> Seq<char> {
    match v {
        VertexModel::ApiConfig(_) => "ApiConfig"@,
        VertexModel::Backend(_) => "Backend"@,
        VertexModel::Lambda(_) => "Lambda"@,
        VertexModel::Module(_) => "Module"@,
        VertexModel::Permissions(_) => "Permissions"@,
        VertexModel::RequiredProvider(_) => "RequiredProvider"@,
        VertexModel::TemplateVariable(_) => "TemplateVariable"@,
        VertexModel::Terraform(_) => "Terraform"@,
        VertexModel::Variable(_) => "Variable"@,
    }
}

impl Vertex {
    /// The schema type name of this vertex's variant.
    pub fn typename(&self) -> (r: &'static str)
        ensures
            r@ == typename_of(self@),
    {
        match self {
            Vertex::ApiConfig(_) => "ApiConfig",
            Vertex::Backend(_) => "Backend",
            Vertex::Lambda(_) => "Lambda",
            Vertex::Module(_) => "Module",
            Vertex::Permissions(_) => "Permissions",
            Vertex::RequiredProvider(_) => "RequiredProvider",
            Vertex::TemplateVariable(_) => "TemplateVariable",
            Vertex::Terraform(_) => "Terraform",
            Vertex::Variable(_) => "Variable",
        }
    }

    pub fn as_api_config(&self) -> (r: Option<&ApiConfig>)
        ensures
            match r {
                Some(x) => self@ is ApiConfig && x@ == self@->ApiConfig_0,
                None => !(self@ is ApiConfig),
            },
    {
        match self {
            Vertex::ApiConfig(x) => Some(x),
            _ => None,
        }
    }

    pub fn as_backend(&self) -> (r: Option<&Backend>)
        ensures
            match r {
                Some(x) => self@ is Backend && x@ == self@->Backend_0,
                None => !(self@ is Backend),
            },
    {
        match self {
            Vertex::Backend(x) => Some(x),
            _ => None,
        }
    }

    pub fn as_lambda(&self) -> (r: Option<&Lambda>)
        ensures
            match r {
                Some(x) => self@ is Lambda && x@ == self@->Lambda_0,
                None => !(self@ is Lambda),
            },
    {
        match self {
            Vertex::Lambda(x) => Some(x),
            _ => None,
        }
    }

    pub fn as_module(&self) -> (r: Option<&Module>)
        ensures
            match r {
                Some(x) => self@ is Module && x@ == self@->Module_0,
                None => !(self@ is Module),
            },
    {
        match self {
            Vertex::Module(x) => Some(x),
            _ => None,
        }
    }

    pub fn as_permissions(&self) -> (r: Option<&Permissions>)
        ensures
            match r {
                Some(x) => self@ is Permissions && x@ == self@->Permissions_0,
                None => !(self@ is Permissions),
            },
    {
        match self {
            Vertex::Permissions(x) => Some(x),
            _ => None,
        }
    }

    pub fn as_required_provider(&self) -> (r: Option<&RequiredProvider>)
        ensures
            match r {
                Some(x) => self@ is RequiredProvider && x@ == self@->RequiredProvider_0,
                None => !(self@ is RequiredProvider),
            },
    {
        match self {
            Vertex::RequiredProvider(x) => Some(x),
            _ => None,
        }
    }

    pub fn as_template_variable(&self) -> (r: Option<&TemplateVariable>)
        ensures
            match r {
                Some(x) => self@ is TemplateVariable && x@ == self@->TemplateVariable_0,
                None => !(self@ is TemplateVariable),
            },
    {
        match self {
            Vertex::TemplateVariable(x) => Some(x),
            _ => None,
        }
    }

    pub fn as_terraform(&self) -> (r: Option<&Terraform>)
        ensures
            match r {
                Some(x) => self@ is Terraform && x@ == self@->Terraform_0,
                None => !(self@ is Terraform),
            },
    {
        match self {
            Vertex::Terraform(x) => Some(x),
            _ => None,
        }
    }

    pub fn as_variable(&self) -> (r: Option<&Variable>)
        ensures
            match r {
                Some(x) => self@ is Variable && x@ == self@->Variable_0,
                None => !(self@ is Variable),
            },
    {
        match self {
            Vertex::Variable(x) => Some(x),
            _ => None,
        }
    }
}

} // verus!
