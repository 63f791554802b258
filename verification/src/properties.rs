//! Property resolution, one resolver per vertex type.
//!
//! Each resolver answers a named property of one vertex. The caller is
//! driven by the schema and is trusted to pair the right type with the
//! right property name: an unknown pair is excluded by precondition, as
//! a schema/adapter mismatch rather than a data error.

use vstd::prelude::*;

use crate::chars;
use crate::model::{
    ApiConfigModel, BackendModel, LambdaModel, ModuleModel, PermissionsModel,
    RequiredProviderModel, TemplateVariableModel, TerraformModel, VariableModel,
};
use crate::vertex::Vertex;

verus! {

/// The value of one resolved property.
#[derive(Debug, Clone, PartialEq)]
pub enum PropertyValue {
    Null,
    Str(String),
    Uint(u64),
    StrList(Vec<String>),
}

pub enum PropertyValueModel {
    Null,
    Str(Seq<char>),
    Uint(u64),
    StrList(Seq<Seq<char>>),
}

impl View for PropertyValue {
    type V = PropertyValueModel;

    open spec fn view(&self) -> PropertyValueModel {
        match self {
            PropertyValue::Null => PropertyValueModel::Null,
            PropertyValue::Str(s) => PropertyValueModel::Str(s@),
            PropertyValue::Uint(u) => PropertyValueModel::Uint(*u),
            PropertyValue::StrList(v) => PropertyValueModel::StrList(
                Seq::new(v.len() as nat, |i: int| v[i]@),
            ),
        }
    }
}

/// An optional string as a property value: absent is null.
pub open spec fn opt_str_value(o: Option<Seq<char>>) -> PropertyValueModel {
    match o {
        Some(s) => PropertyValueModel::Str(s),
        None => PropertyValueModel::Null,
    }
}

pub open spec fn api_config_property(c: ApiConfigModel, name: Seq<char>) -> Option<
    PropertyValueModel,
> {
    if name == "source"@ {
        Some(PropertyValueModel::Str(c.source))
    } else if name == "template_file"@ {
        Some(PropertyValueModel::Str(c.template_file))
    } else if name == "version"@ {
        Some(PropertyValueModel::Str(c.version))
    } else {
        None
    }
}

pub open spec fn backend_property(b: BackendModel, name: Seq<char>) -> Option<
    PropertyValueModel,
> {
    if name == "name"@ {
        Some(PropertyValueModel::Str(b.name))
    } else {
        None
    }
}

pub open spec fn lambda_property(l: LambdaModel, name: Seq<char>) -> Option<PropertyValueModel> {
    if name == "description"@ {
        Some(PropertyValueModel::Str(l.description))
    } else if name == "handler"@ {
        Some(PropertyValueModel::Str(l.handler))
    } else if name == "name"@ {
        Some(PropertyValueModel::Str(l.name))
    } else {
        None
    }
}

pub open spec fn module_property(m: ModuleModel, name: Seq<char>) -> Option<PropertyValueModel> {
    if name == "source"@ {
        Some(PropertyValueModel::Str(m.source))
    } else if name == "version"@ {
        Some(PropertyValueModel::Str(m.version))
    } else {
        None
    }
}

pub open spec fn permissions_property(p: PermissionsModel, name: Seq<char>) -> Option<
    PropertyValueModel,
> {
    if name == "http_method"@ {
        Some(opt_str_value(p.http_method))
    } else if name == "http_path"@ {
        Some(opt_str_value(p.http_path))
    } else if name == "principal"@ {
        Some(PropertyValueModel::Str(p.principal))
    } else if name == "source_arn"@ {
        Some(PropertyValueModel::Str(p.source_arn))
    } else if name == "statement_id"@ {
        Some(PropertyValueModel::Str(p.statement_id))
    } else {
        None
    }
}

pub open spec fn required_provider_property(p: RequiredProviderModel, name: Seq<char>) -> Option<
    PropertyValueModel,
> {
    if name == "name"@ {
        Some(PropertyValueModel::Str(p.name))
    } else if name == "source"@ {
        Some(PropertyValueModel::Str(p.source))
    } else if name == "version"@ {
        Some(PropertyValueModel::Str(p.version))
    } else {
        None
    }
}

pub open spec fn template_variable_property(t: TemplateVariableModel, name: Seq<char>) -> Option<
    PropertyValueModel,
> {
    if name == "name"@ {
        Some(PropertyValueModel::Str(t.name))
    } else if name == "value"@ {
        Some(PropertyValueModel::Str(t.value))
    } else {
        None
    }
}

pub open spec fn terraform_property(t: TerraformModel, name: Seq<char>) -> Option<
    PropertyValueModel,
> {
    if name == "required_version"@ {
        Some(opt_str_value(t.required_version))
    } else {
        None
    }
}

pub open spec fn variable_property(v: VariableModel, name: Seq<char>) -> Option<
    PropertyValueModel,
> {
    if name == "name"@ {
        Some(PropertyValueModel::Str(v.name))
    } else if name == "value"@ {
        Some(PropertyValueModel::Str(v.value))
    } else {
        None
    }
}

fn opt_str_exec(o: &Option<String>) -> (r: PropertyValue)
    ensures
        r@ == opt_str_value(match o {
            Some(s) => Some(s@),
            None => None,
        }),
{
    match o {
        Some(s) => PropertyValue::Str(s.clone()),
        None => PropertyValue::Null,
    }
}

pub fn resolve_api_config_property(vertex: &Vertex, property_name: &str) -> (r: PropertyValue)
    requires
        vertex@ is ApiConfig,
        api_config_property(vertex@->ApiConfig_0, property_name@) is Some,
    ensures
        r@ == api_config_property(vertex@->ApiConfig_0, property_name@)->Some_0,
{
    let c = match vertex {
        Vertex::ApiConfig(c) => c,
        _ => {
            proof {
                assert(false);
            }
            unreached()
        },
    };
    if chars::str_eq(property_name, "source") {
        PropertyValue::Str(c.source.clone())
    } else if chars::str_eq(property_name, "template_file") {
        PropertyValue::Str(c.template_file.clone())
    } else {
        PropertyValue::Str(c.version.clone())
    }
}

pub fn resolve_backend_property(vertex: &Vertex, property_name: &str) -> (r: PropertyValue)
    requires
        vertex@ is Backend,
        backend_property(vertex@->Backend_0, property_name@) is Some,
    ensures
        r@ == backend_property(vertex@->Backend_0, property_name@)->Some_0,
{
    let b = match vertex {
        Vertex::Backend(b) => b,
        _ => {
            proof {
                assert(false);
            }
            unreached()
        },
    };
    PropertyValue::Str(b.name.clone())
}

pub fn resolve_lambda_property(vertex: &Vertex, property_name: &str) -> (r: PropertyValue)
    requires
        vertex@ is Lambda,
        lambda_property(vertex@->Lambda_0, property_name@) is Some,
    ensures
        r@ == lambda_property(vertex@->Lambda_0, property_name@)->Some_0,
{
    let l = match vertex {
        Vertex::Lambda(l) => l,
        _ => {
            proof {
                assert(false);
            }
            unreached()
        },
    };
    if chars::str_eq(property_name, "description") {
        PropertyValue::Str(l.description.clone())
    } else if chars::str_eq(property_name, "handler") {
        PropertyValue::Str(l.handler.clone())
    } else {
        PropertyValue::Str(l.name.clone())
    }
}

pub fn resolve_module_property(vertex: &Vertex, property_name: &str) -> (r: PropertyValue)
    requires
        vertex@ is Module,
        module_property(vertex@->Module_0, property_name@) is Some,
    ensures
        r@ == module_property(vertex@->Module_0, property_name@)->Some_0,
{
    let m = match vertex {
        Vertex::Module(m) => m,
        _ => {
            proof {
                assert(false);
            }
            unreached()
        },
    };
    if chars::str_eq(property_name, "source") {
        PropertyValue::Str(m.source.clone())
    } else {
        PropertyValue::Str(m.version.clone())
    }
}

pub fn resolve_permissions_property(vertex: &Vertex, property_name: &str) -> (r: PropertyValue)
    requires
        vertex@ is Permissions,
        permissions_property(vertex@->Permissions_0, property_name@) is Some,
    ensures
        r@ == permissions_property(vertex@->Permissions_0, property_name@)->Some_0,
{
    let p = match vertex {
        Vertex::Permissions(p) => p,
        _ => {
            proof {
                assert(false);
            }
            unreached()
        },
    };
    if chars::str_eq(property_name, "http_method") {
        opt_str_exec(&p.http_method)
    } else if chars::str_eq(property_name, "http_path") {
        opt_str_exec(&p.http_path)
    } else if chars::str_eq(property_name, "principal") {
        PropertyValue::Str(p.principal.clone())
    } else if chars::str_eq(property_name, "source_arn") {
        PropertyValue::Str(p.source_arn.clone())
    } else {
        PropertyValue::Str(p.statement_id.clone())
    }
}

pub fn resolve_required_provider_property(vertex: &Vertex, property_name: &str) -> (r:
    PropertyValue)
    requires
        vertex@ is RequiredProvider,
        required_provider_property(vertex@->RequiredProvider_0, property_name@) is Some,
    ensures
        r@ == required_provider_property(vertex@->RequiredProvider_0, property_name@)->Some_0,
{
    let p = match vertex {
        Vertex::RequiredProvider(p) => p,
        _ => {
            proof {
                assert(false);
            }
            unreached()
        },
    };
    if chars::str_eq(property_name, "name") {
        PropertyValue::Str(p.name.clone())
    } else if chars::str_eq(property_name, "source") {
        PropertyValue::Str(p.source.clone())
    } else {
        PropertyValue::Str(p.version.clone())
    }
}

pub fn resolve_template_variable_property(vertex: &Vertex, property_name: &str) -> (r:
    PropertyValue)
    requires
        vertex@ is TemplateVariable,
        template_variable_property(vertex@->TemplateVariable_0, property_name@) is Some,
    ensures
        r@ == template_variable_property(vertex@->TemplateVariable_0, property_name@)->Some_0,
{
    let t = match vertex {
        Vertex::TemplateVariable(t) => t,
        _ => {
            proof {
                assert(false);
            }
            unreached()
        },
    };
    if chars::str_eq(property_name, "name") {
        PropertyValue::Str(t.name.clone())
    } else {
        PropertyValue::Str(t.value.clone())
    }
}

pub fn resolve_terraform_property(vertex: &Vertex, property_name: &str) -> (r: PropertyValue)
    requires
        vertex@ is Terraform,
        terraform_property(vertex@->Terraform_0, property_name@) is Some,
    ensures
        r@ == terraform_property(vertex@->Terraform_0, property_name@)->Some_0,
{
    let t = match vertex {
        Vertex::Terraform(t) => t,
        _ => {
            proof {
                assert(false);
            }
            unreached()
        },
    };
    opt_str_exec(&t.required_version)
}

pub fn resolve_variable_property(vertex: &Vertex, property_name: &str) -> (r: PropertyValue)
    requires
        vertex@ is Variable,
        variable_property(vertex@->Variable_0, property_name@) is Some,
    ensures
        r@ == variable_property(vertex@->Variable_0, property_name@)->Some_0,
{
    let v = match vertex {
        Vertex::Variable(v) => v,
        _ => {
            proof {
                assert(false);
            }
            unreached()
        },
    };
    if chars::str_eq(property_name, "name") {
        PropertyValue::Str(v.name.clone())
    } else {
        PropertyValue::Str(v.value.clone())
    }
}

} // verus!
