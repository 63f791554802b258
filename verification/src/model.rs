//! The extracted configuration domain model and the error taxonomy.

use vstd::prelude::*;

use crate::value::{HclValue, ValueModel};

verus! {

// --- errors ---

/// Why extraction or resolution failed.
#[derive(Debug, Clone, PartialEq, Eq)]
pub enum ExtractError {
    /// The root path or file set to extract from is missing.
    ConfigurationNotFound,
    /// A file failed generic parsing, or a parsed value did not have the
    /// structure the pipeline requires.
    MalformedSource,
    /// A module block lacks one of its required fields.
    MissingRequiredField { module: String, field: String },
    /// More than one backend is declared across the whole file set.
    AmbiguousBackend,
    /// A fully wildcarded route: it must be declared explicitly, not inferred.
    UnsupportedRoutePattern,
    /// No route inference rule covers the integration string.
    UnrecognizedRouteShape,
    /// An on-demand file read failed during resolution.
    UnreadableResource,
}

pub enum ErrorModel {
    ConfigurationNotFound,
    MalformedSource,
    MissingRequiredField { module: Seq<char>, field: Seq<char> },
    AmbiguousBackend,
    UnsupportedRoutePattern,
    UnrecognizedRouteShape,
    UnreadableResource,
}

impl View for ExtractError {
    type V = ErrorModel;

    open spec fn view(&self) -> ErrorModel {
        match self {
            ExtractError::ConfigurationNotFound => ErrorModel::ConfigurationNotFound,
            ExtractError::MalformedSource => ErrorModel::MalformedSource,
            ExtractError::MissingRequiredField { module, field } => {
                ErrorModel::MissingRequiredField { module: module@, field: field@ }
            },
            ExtractError::AmbiguousBackend => ErrorModel::AmbiguousBackend,
            ExtractError::UnsupportedRoutePattern => ErrorModel::UnsupportedRoutePattern,
            ExtractError::UnrecognizedRouteShape => ErrorModel::UnrecognizedRouteShape,
            ExtractError::UnreadableResource => ErrorModel::UnreadableResource,
        }
    }
}

impl ExtractError {
    /// A short description of the error, for callers that print it.
    pub fn describe(&self) -> String {
        match self {
            ExtractError::ConfigurationNotFound => crate::chars::chars_to_string(
                &crate::chars::to_chars("configuration not found"),
            ),
            ExtractError::MalformedSource => crate::chars::chars_to_string(
                &crate::chars::to_chars("malformed source"),
            ),
            ExtractError::MissingRequiredField { module, field } => {
                let mut out = crate::chars::to_chars("missing required field ");
                let fc = crate::chars::to_chars(field.as_str());
                let mc = crate::chars::to_chars(module.as_str());
                let sep = crate::chars::to_chars(" in module ");
                let a = crate::chars::concat_chars(&out, &fc);
                let b = crate::chars::concat_chars(&a, &sep);
                let c = crate::chars::concat_chars(&b, &mc);
                crate::chars::chars_to_string(&c)
            },
            ExtractError::AmbiguousBackend => crate::chars::chars_to_string(
                &crate::chars::to_chars("more than one backend declared"),
            ),
            ExtractError::UnsupportedRoutePattern => crate::chars::chars_to_string(
                &crate::chars::to_chars("fully wildcarded route must be declared explicitly"),
            ),
            ExtractError::UnrecognizedRouteShape => crate::chars::chars_to_string(
                &crate::chars::to_chars("route shape not recognized"),
            ),
            ExtractError::UnreadableResource => crate::chars::chars_to_string(
                &crate::chars::to_chars("resource could not be read"),
            ),
        }
    }
}

// --- domain entities ---

/// A sibling key/value pair inside a module's declaring block.
#[derive(Debug, Clone, PartialEq)]
pub struct Variable {
    pub name: String,
    pub value: String,
}

pub struct VariableModel {
    pub name: Seq<char>,
    pub value: Seq<char>,
}

impl View for Variable {
    type V = VariableModel;

    open spec fn view(&self) -> VariableModel {
        VariableModel { name: self.name@, value: self.value@ }
    }
}

/// A declared module: name, source, version and its flattened variables.
#[derive(Debug, Clone, PartialEq)]
pub struct Module {
    pub name: String,
    pub source: String,
    pub version: String,
    pub variables: Vec<Variable>,
}

pub struct ModuleModel {
    pub name: Seq<char>,
    pub source: Seq<char>,
    pub version: Seq<char>,
    pub variables: Seq<VariableModel>,
}

impl View for Module {
    type V = ModuleModel;

    open spec fn view(&self) -> ModuleModel {
        ModuleModel {
            name: self.name@,
            source: self.source@,
            version: self.version@,
            variables: Seq::new(self.variables.len() as nat, |i: int| self.variables[i]@),
        }
    }
}

/// The backend named inside a terraform block.
#[derive(Debug, Clone, PartialEq)]
pub struct Backend {
    pub name: String,
}

pub struct BackendModel {
    pub name: Seq<char>,
}

impl View for Backend {
    type V = BackendModel;

    open spec fn view(&self) -> BackendModel {
        BackendModel { name: self.name@ }
    }
}

/// One required provider of a terraform block.
#[derive(Debug, Clone, PartialEq)]
pub struct RequiredProvider {
    pub name: String,
    pub source: String,
    pub version: String,
}

pub struct RequiredProviderModel {
    pub name: Seq<char>,
    pub source: Seq<char>,
    pub version: Seq<char>,
}

impl View for RequiredProvider {
    type V = RequiredProviderModel;

    open spec fn view(&self) -> RequiredProviderModel {
        RequiredProviderModel {
            name: self.name@,
            source: self.source@,
            version: self.version@,
        }
    }
}

/// A terraform block: optional required version, at most one backend,
/// and its required providers.
#[derive(Debug, Clone, PartialEq)]
pub struct Terraform {
    pub required_version: Option<String>,
    pub backend: Option<Backend>,
    pub required_providers: Vec<RequiredProvider>,
}

pub struct TerraformModel {
    pub required_version: Option<Seq<char>>,
    pub backend: Option<BackendModel>,
    pub required_providers: Seq<RequiredProviderModel>,
}

impl View for Terraform {
    type V = TerraformModel;

    open spec fn view(&self) -> TerraformModel {
        TerraformModel {
            required_version: match self.required_version {
                Some(ref s) => Some(s@),
                None => None,
            },
            backend: match self.backend {
                Some(ref b) => Some(b@),
                None => None,
            },
            required_providers: Seq::new(
                self.required_providers.len() as nat,
                |i: int| self.required_providers[i]@,
            ),
        }
    }
}

/// One permission of a lambda. The route fields are either both present
/// or both absent: they are filled together by route inference.
#[derive(Debug, Clone, PartialEq)]
pub struct Permissions {
    pub statement_id: String,
    pub principal: String,
    pub source_arn: String,
    pub http_method: Option<String>,
    pub http_path: Option<String>,
}

pub struct PermissionsModel {
    pub statement_id: Seq<char>,
    pub principal: Seq<char>,
    pub source_arn: Seq<char>,
    pub http_method: Option<Seq<char>>,
    pub http_path: Option<Seq<char>>,
}

impl View for Permissions {
    type V = PermissionsModel;

    open spec fn view(&self) -> PermissionsModel {
        PermissionsModel {
            statement_id: self.statement_id@,
            principal: self.principal@,
            source_arn: self.source_arn@,
            http_method: match self.http_method {
                Some(ref s) => Some(s@),
                None => None,
            },
            http_path: match self.http_path {
                Some(ref s) => Some(s@),
                None => None,
            },
        }
    }
}

/// A lambda function with its permissions.
#[derive(Debug, Clone, PartialEq)]
pub struct Lambda {
    pub name: String,
    pub description: String,
    pub handler: String,
    pub permissions: Vec<Permissions>,
}

pub struct LambdaModel {
    pub name: Seq<char>,
    pub description: Seq<char>,
    pub handler: Seq<char>,
    pub permissions: Seq<PermissionsModel>,
}

impl View for Lambda {
    type V = LambdaModel;

    open spec fn view(&self) -> LambdaModel {
        LambdaModel {
            name: self.name@,
            description: self.description@,
            handler: self.handler@,
            permissions: Seq::new(self.permissions.len() as nat, |i: int| self.permissions[i]@),
        }
    }
}

/// One `name=value` interpolation assignment of an api-config body,
/// possibly linked to the lambda its value names.
#[derive(Debug, Clone, PartialEq)]
pub struct TemplateVariable {
    pub name: String,
    pub value: String,
    pub lambda: Option<Lambda>,
}

pub struct TemplateVariableModel {
    pub name: Seq<char>,
    pub value: Seq<char>,
    pub lambda: Option<LambdaModel>,
}

impl View for TemplateVariable {
    type V = TemplateVariableModel;

    open spec fn view(&self) -> TemplateVariableModel {
        TemplateVariableModel {
            name: self.name@,
            value: self.value@,
            lambda: match self.lambda {
                Some(ref l) => Some(l@),
                None => None,
            },
        }
    }
}

/// The api-gateway configuration of the service module.
#[derive(Debug, Clone, PartialEq)]
pub struct ApiConfig {
    pub source: String,
    pub version: String,
    pub template_file: String,
    pub template_variables: Vec<TemplateVariable>,
}

pub struct ApiConfigModel {
    pub source: Seq<char>,
    pub version: Seq<char>,
    pub template_file: Seq<char>,
    pub template_variables: Seq<TemplateVariableModel>,
}

impl View for ApiConfig {
    type V = ApiConfigModel;

    open spec fn view(&self) -> ApiConfigModel {
        ApiConfigModel {
            source: self.source@,
            version: self.version@,
            template_file: self.template_file@,
            template_variables: Seq::new(
                self.template_variables.len() as nat,
                |i: int| self.template_variables[i]@,
            ),
        }
    }
}

/// The immutable snapshot built once per adapter instance.
#[derive(Debug, PartialEq)]
pub struct HCL {
    pub modules: Vec<Module>,
    pub terraform: Vec<Terraform>,
    pub api_config: Option<ApiConfig>,
    pub lambda: Vec<Lambda>,
    pub raw: Vec<HclValue>,
}

pub struct HclModel {
    pub modules: Seq<ModuleModel>,
    pub terraform: Seq<TerraformModel>,
    pub api_config: Option<ApiConfigModel>,
    pub lambda: Seq<LambdaModel>,
    pub raw: Seq<ValueModel>,
}

impl View for HCL {
    type V = HclModel;

    open spec fn view(&self) -> HclModel {
        HclModel {
            modules: Seq::new(self.modules.len() as nat, |i: int| self.modules[i]@),
            terraform: Seq::new(self.terraform.len() as nat, |i: int| self.terraform[i]@),
            api_config: match self.api_config {
                Some(ref c) => Some(c@),
                None => None,
            },
            lambda: Seq::new(self.lambda.len() as nat, |i: int| self.lambda[i]@),
            raw: Seq::new(self.raw.len() as nat, |i: int| self.raw[i]@),
        }
    }
}

// --- HTTP methods ---

/// The HTTP methods a route can use.
#[derive(Debug, PartialEq, Eq, PartialOrd, Ord, Clone, Copy)]
pub enum HttpMethod {
    Get,
    Post,
    Put,
    Delete,
    Patch,
    Head,
    Options,
    Trace,
    Connect,
    /// Any HTTP method is allowed.
    Any,
}

/// The canonical (upper-case) name of a method; the wildcard for `Any`.
pub open spec fn method_name(m: HttpMethod) -> Seq<char> {
    match m {
        HttpMethod::Get => "GET"@,
        HttpMethod::Post => "POST"@,
        HttpMethod::Put => "PUT"@,
        HttpMethod::Delete => "DELETE"@,
        HttpMethod::Patch => "PATCH"@,
        HttpMethod::Head => "HEAD"@,
        HttpMethod::Options => "OPTIONS"@,
        HttpMethod::Trace => "TRACE"@,
        HttpMethod::Connect => "CONNECT"@,
        HttpMethod::Any => "*"@,
    }
}

/// Which method a (case-insensitive) name denotes.
pub open spec fn parse_method(s: Seq<char>) -> Option<HttpMethod> {
    let l = crate::chars::lower_all(s);
    if l == "get"@ {
        Some(HttpMethod::Get)
    } else if l == "post"@ {
        Some(HttpMethod::Post)
    } else if l == "put"@ {
        Some(HttpMethod::Put)
    } else if l == "delete"@ {
        Some(HttpMethod::Delete)
    } else if l == "patch"@ {
        Some(HttpMethod::Patch)
    } else if l == "head"@ {
        Some(HttpMethod::Head)
    } else if l == "options"@ {
        Some(HttpMethod::Options)
    } else if l == "trace"@ {
        Some(HttpMethod::Trace)
    } else if l == "connect"@ {
        Some(HttpMethod::Connect)
    } else if l == "*"@ {
        Some(HttpMethod::Any)
    } else {
        None
    }
}

impl HttpMethod {
    /// The method's canonical name, as its textual form.
    pub fn name(&self) -> (r: &'static str)
        ensures
            r@ == method_name(*self),
    {
        match self {
            HttpMethod::Get => "GET",
            HttpMethod::Post => "POST",
            HttpMethod::Put => "PUT",
            HttpMethod::Delete => "DELETE",
            HttpMethod::Patch => "PATCH",
            HttpMethod::Head => "HEAD",
            HttpMethod::Options => "OPTIONS",
            HttpMethod::Trace => "TRACE",
            HttpMethod::Connect => "CONNECT",
            HttpMethod::Any => "*",
        }
    }

    /// The method denoted by `s`, in any casing of its name.
    pub fn parse(s: &str) -> (r: Option<HttpMethod>)
        ensures
            r == parse_method(s@),
    {
        let sc = crate::chars::to_chars(s);
        let l = crate::chars::lower_chars(&sc);
        if crate::chars::chars_eq(&l, &crate::chars::to_chars("get")) {
            Some(HttpMethod::Get)
        } else if crate::chars::chars_eq(&l, &crate::chars::to_chars("post")) {
            Some(HttpMethod::Post)
        } else if crate::chars::chars_eq(&l, &crate::chars::to_chars("put")) {
            Some(HttpMethod::Put)
        } else if crate::chars::chars_eq(&l, &crate::chars::to_chars("delete")) {
            Some(HttpMethod::Delete)
        } else if crate::chars::chars_eq(&l, &crate::chars::to_chars("patch")) {
            Some(HttpMethod::Patch)
        } else if crate::chars::chars_eq(&l, &crate::chars::to_chars("head")) {
            Some(HttpMethod::Head)
        } else if crate::chars::chars_eq(&l, &crate::chars::to_chars("options")) {
            Some(HttpMethod::Options)
        } else if crate::chars::chars_eq(&l, &crate::chars::to_chars("trace")) {
            Some(HttpMethod::Trace)
        } else if crate::chars::chars_eq(&l, &crate::chars::to_chars("connect")) {
            Some(HttpMethod::Connect)
        } else if crate::chars::chars_eq(&l, &crate::chars::to_chars("*")) {
            Some(HttpMethod::Any)
        } else {
            None
        }
    }
}

} // verus!
