//! The extraction pipeline.
//!
//! One pass over the parsed file set builds the immutable snapshot:
//! modules, terraform blocks, lambdas with their permissions, and the
//! optional api-gateway configuration. Extraction is fail-fast: the
//! first structural or inference failure aborts the whole pipeline.

use vstd::prelude::*;

use crate::chars;
use crate::model::{
    ApiConfig, ApiConfigModel, Backend, BackendModel, ErrorModel, ExtractError, HclModel,
    Lambda, LambdaModel, Module, ModuleModel, Permissions, PermissionsModel, RequiredProvider,
    RequiredProviderModel, TemplateVariable, Terraform, TerraformModel, Variable, VariableModel,
    HCL,
};
use crate::value::{hcl_get, render, render_value, value_get, HclValue, ValueModel};

verus! {

/// The views of a sequence of values.
pub open spec fn seq_views<T: View>(s: Seq<T>) -> Seq<T::V> {
    s.map_values(|x: T| x@)
}

// --- modules ---

/// The flattened variables of a module block: every key/value entry of
/// the block itself, the value in its rendered textual form.
pub open spec fn vars_of(mv: ValueModel) -> Seq<VariableModel> {
    match mv {
        ValueModel::Obj(entries) => entries.map_values(
            |e: (Seq<char>, ValueModel)| VariableModel { name: e.0, value: render(e.1) },
        ),
        _ => Seq::empty(),
    }
}

/// One named module entry: requires the fields `source` and `version`.
pub open spec fn module_of_entry(name: Seq<char>, mv: ValueModel) -> Result<
    ModuleModel,
    ErrorModel,
> {
    if value_get(mv, "source"@) is None {
        Err(ErrorModel::MissingRequiredField { module: name, field: "source"@ })
    } else if value_get(mv, "version"@) is None {
        Err(ErrorModel::MissingRequiredField { module: name, field: "version"@ })
    } else {
        Ok(
            ModuleModel {
                name: name,
                source: render(value_get(mv, "source"@)->Some_0),
                version: render(value_get(mv, "version"@)->Some_0),
                variables: vars_of(mv),
            },
        )
    }
}

/// The modules of the first `i` entries of one `module` block.
pub open spec fn modules_of_entries(entries: Seq<(Seq<char>, ValueModel)>, i: int) -> Result<
    Seq<ModuleModel>,
    ErrorModel,
>
    decreases i,
{
    if i <= 0 {
        Ok(Seq::empty())
    } else {
        match modules_of_entries(entries, i - 1) {
            Err(e) => Err(e),
            Ok(acc) => match module_of_entry(entries[i - 1].0, entries[i - 1].1) {
                Err(e) => Err(e),
                Ok(m) => Ok(acc.push(m)),
            },
        }
    }
}

/// The modules declared by one file.
pub open spec fn file_modules(v: ValueModel) -> Result<Seq<ModuleModel>, ErrorModel> {
    match value_get(v, "module"@) {
        None => Ok(Seq::empty()),
        Some(mv) => match mv {
            ValueModel::Obj(entries) => modules_of_entries(entries, entries.len() as int),
            _ => Err(ErrorModel::MalformedSource),
        },
    }
}

/// The modules of the first `i` files, in file order.
pub open spec fn modules_of(vs: Seq<ValueModel>, i: int) -> Result<Seq<ModuleModel>, ErrorModel>
    decreases i,
{
    if i <= 0 {
        Ok(Seq::empty())
    } else {
        match modules_of(vs, i - 1) {
            Err(e) => Err(e),
            Ok(acc) => match file_modules(vs[i - 1]) {
                Err(e) => Err(e),
                Ok(ms) => Ok(acc + ms),
            },
        }
    }
}

pub proof fn lemma_modules_of_err(vs: Seq<ValueModel>, i: int, j: int)
    requires
        0 <= i <= j,
        modules_of(vs, i) is Err,
    ensures
        modules_of(vs, j) == modules_of(vs, i),
    decreases j - i,
{
    if i < j {
        lemma_modules_of_err(vs, i, j - 1);
    }
}

/// A literal's text as an owned string.
pub fn string_lit(s: &str) -> (r: String)
    ensures
        r@ == s@,
{
    chars::chars_to_string(&chars::to_chars(s))
}

/// One module read from a raw value under the given label; the label
/// becomes the module's name.
pub fn module_from_value(name: String, mv: &HclValue) -> (r: Result<Module, ExtractError>)
    ensures
        match r {
            Ok(m) => module_of_entry(name@, mv@) == Ok::<_, ErrorModel>(m@),
            Err(e) => module_of_entry(name@, mv@) == Err::<ModuleModel, _>(e@),
        },
{
    let source = match hcl_get(mv, "source") {
        Some(sv) => chars::chars_to_string(&render_value(sv)),
        None => {
            return Err(
                ExtractError::MissingRequiredField { module: name, field: string_lit("source") },
            );
        },
    };
    let version = match hcl_get(mv, "version") {
        Some(vv) => chars::chars_to_string(&render_value(vv)),
        None => {
            return Err(
                ExtractError::MissingRequiredField { module: name, field: string_lit("version") },
            );
        },
    };
    let variables = collect_variables(mv);
    let m = Module { name, source, version, variables };
    proof {
        assert(m@ == module_of_entry(m.name@, mv@)->Ok_0) by {
            assert(m@.variables =~= vars_of(mv@));
        }
    }
    Ok(m)
}

/// The variables of one module block, flattened.
#[verifier::loop_isolation(false)]
fn collect_variables(mv: &HclValue) -> (r: Vec<Variable>)
    ensures
        seq_views(r@) == vars_of(mv@),
{
    match mv {
        HclValue::Obj(entries) => {
            let ghost es = mv@->Obj_0;
            proof {
                crate::value::lemma_entry_models_upto(*entries, entries@.len() as int);
            }
            let mut out: Vec<Variable> = Vec::new();
            let mut k: usize = 0;
            while k < entries.len()
                invariant
                    k <= entries@.len(),
                    out@.len() == k,
                    forall|j: int|
                        0 <= j < k ==> #[trigger] out@[j]@ == (VariableModel {
                            name: es[j].0,
                            value: render(es[j].1),
                        }),
                decreases entries@.len() - k,
            {
                let name = entries[k].0.clone();
                let value = chars::chars_to_string(&render_value(&entries[k].1));
                out.push(Variable { name, value });
                k = k + 1;
            }
            proof {
                assert(seq_views(out@) =~= vars_of(mv@));
            }
            out
        },
        _ => {
            let out: Vec<Variable> = Vec::new();
            proof {
                assert(seq_views(out@) =~= vars_of(mv@));
            }
            out
        },
    }
}

/// The modules of the whole file set, in file order; fails on the first
/// module missing `source` or `version`, naming it.
#[verifier::loop_isolation(false)]
pub fn extract_modules(values: &Vec<HclValue>) -> (r: Result<Vec<Module>, ExtractError>)
    ensures
        match r {
            Ok(ms) => modules_of(seq_views(values@), values@.len() as int) == Ok::<
                _,
                ErrorModel,
            >(seq_views(ms@)),
            Err(e) => modules_of(seq_views(values@), values@.len() as int) == Err::<
                Seq<ModuleModel>,
                _,
            >(e@),
        },
{
    let ghost vs = seq_views(values@);
    let mut out: Vec<Module> = Vec::new();
    proof {
        assert(seq_views(out@) =~= Seq::<ModuleModel>::empty());
    }
    let mut i: usize = 0;
    while i < values.len()
        invariant
            i <= values@.len(),
            modules_of(vs, i as int) == Ok::<_, ErrorModel>(seq_views(out@)),
        decreases values@.len() - i,
    {
        let ghost fv = vs[i as int];
        proof {
            assert(fv == values@[i as int]@);
        }
        match hcl_get(&values[i], "module") {
            None => {
                proof {
                    assert(seq_views(out@) + Seq::<ModuleModel>::empty() =~= seq_views(out@));
                }
            },
            Some(mv) => {
                match mv {
                    HclValue::Obj(entries) => {
                        let ghost es = mv@->Obj_0;
                        proof {
                            crate::value::lemma_entry_models_upto(
                                *entries,
                                entries@.len() as int,
                            );
                        }
                        let ghost prev = out@;
                        proof {
                            assert(seq_views(out@).skip(prev.len() as int) =~= Seq::<
                                ModuleModel,
                            >::empty());
                            assert(out@.subrange(0, prev.len() as int) =~= prev);
                        }
                        let mut k: usize = 0;
                        while k < entries.len()
                            invariant
                                k <= entries@.len(),
                                out@.len() == prev.len() + k,
                                out@.subrange(0, prev.len() as int) == prev,
                                modules_of(vs, i as int) == Ok::<_, ErrorModel>(
                                    seq_views(prev),
                                ),
                                modules_of_entries(es, k as int) == Ok::<_, ErrorModel>(
                                    seq_views(out@).skip(prev.len() as int),
                                ),
                            decreases entries@.len() - k,
                        {
                            let ename = entries[k].0.clone();
                            let ev = &entries[k].1;
                            proof {
                                assert(es[k as int] == (entries@[k as int].0@,
                                entries@[k as int].1@));
                            }
                            match hcl_get(ev, "source") {
                                None => {
                                    proof {
                                        assert(modules_of_entries(es, k + 1) == Err::<
                                            Seq<ModuleModel>,
                                            _,
                                        >(
                                            ErrorModel::MissingRequiredField {
                                                module: ename@,
                                                field: "source"@,
                                            },
                                        ));
                                        assert(modules_of_entries(es, es.len() as int)
                                            == modules_of_entries(es, k + 1)) by {
                                            lemma_modules_of_entries_err(es, k + 1,
                                            es.len() as int);
                                        }
                                        assert(modules_of(vs, i + 1) == file_modules(fv));
                                        lemma_modules_of_err(vs, i + 1, vs.len() as int);
                                    }
                                    return Err(
                                        ExtractError::MissingRequiredField {
                                            module: ename,
                                            field: string_lit("source"),
                                        },
                                    );
                                },
                                Some(sv) => {
                                    match hcl_get(ev, "version") {
                                        None => {
                                            proof {
                                                assert(modules_of_entries(es, k + 1) == Err::<
                                                    Seq<ModuleModel>,
                                                    _,
                                                >(
                                                    ErrorModel::MissingRequiredField {
                                                        module: ename@,
                                                        field: "version"@,
                                                    },
                                                ));
                                                lemma_modules_of_entries_err(es, k + 1,
                                                es.len() as int);
                                                assert(modules_of(vs, i + 1) == file_modules(
                                                    fv,
                                                ));
                                                lemma_modules_of_err(vs, i + 1,
                                                vs.len() as int);
                                            }
                                            return Err(
                                                ExtractError::MissingRequiredField {
                                                    module: ename,
                                                    field: string_lit("version"),
                                                },
                                            );
                                        },
                                        Some(vv) => {
                                            let source = chars::chars_to_string(
                                                &render_value(sv),
                                            );
                                            let version = chars::chars_to_string(
                                                &render_value(vv),
                                            );
                                            let variables = collect_variables(ev);
                                            let m = Module { name: ename, source, version, variables };
                                            proof {
                                                assert(m@ == module_of_entry(es[k as int].0,
                                                es[k as int].1)->Ok_0) by {
                                                    assert(m@.variables =~= vars_of(
                                                        es[k as int].1,
                                                    ));
                                                }
                                            }
                                            let ghost old_out = out@;
                                            out.push(m);
                                            proof {
                                                assert(seq_views(out@).skip(
                                                    prev.len() as int,
                                                ) =~= seq_views(old_out).skip(
                                                    prev.len() as int,
                                                ).push(m@));
                                                assert(out@.subrange(0, prev.len() as int)
                                                    =~= old_out.subrange(
                                                    0,
                                                    prev.len() as int,
                                                ));
                                            }
                                        },
                                    }
                                },
                            }
                            k = k + 1;
                        }
                        proof {
                            assert(file_modules(fv) == modules_of_entries(es, es.len() as int));
                            assert(seq_views(prev) + seq_views(out@).skip(prev.len() as int)
                                =~= seq_views(out@));
                        }
                    },
                    _ => {
                        proof {
                            assert(file_modules(fv) == Err::<Seq<ModuleModel>, _>(
                                ErrorModel::MalformedSource,
                            ));
                            lemma_modules_of_err(vs, i + 1, vs.len() as int);
                        }
                        return Err(ExtractError::MalformedSource);
                    },
                }
            },
        }
        i = i + 1;
    }
    Ok(out)
}

pub proof fn lemma_modules_of_entries_err(entries: Seq<(Seq<char>, ValueModel)>, i: int, j: int)
    requires
        0 <= i <= j,
        modules_of_entries(entries, i) is Err,
    ensures
        modules_of_entries(entries, j) == modules_of_entries(entries, i),
    decreases j - i,
{
    if i < j {
        lemma_modules_of_entries_err(entries, i, j - 1);
    }
}

// --- terraform blocks ---

/// The backend of one terraform block: the single key of its nested
/// `backend` object names it; an empty object declares none.
pub open spec fn backend_of(tv: ValueModel) -> Result<Option<BackendModel>, ErrorModel> {
    match value_get(tv, "backend"@) {
        None => Ok(None),
        Some(b) => match b {
            ValueModel::Obj(es) => if es.len() == 0 {
                Ok(None)
            } else if es.len() == 1 {
                Ok(Some(BackendModel { name: es[0].0 }))
            } else {
                Err(ErrorModel::AmbiguousBackend)
            },
            _ => Err(ErrorModel::MalformedSource),
        },
    }
}

/// One required provider: name, source and version.
pub open spec fn provider_of_entry(name: Seq<char>, v: ValueModel) -> Result<
    RequiredProviderModel,
    ErrorModel,
> {
    if value_get(v, "source"@) is None {
        Err(ErrorModel::MalformedSource)
    } else if value_get(v, "version"@) is None {
        Err(ErrorModel::MalformedSource)
    } else {
        Ok(
            RequiredProviderModel {
                name: name,
                source: render(value_get(v, "source"@)->Some_0),
                version: render(value_get(v, "version"@)->Some_0),
            },
        )
    }
}

pub open spec fn providers_of_entries(entries: Seq<(Seq<char>, ValueModel)>, i: int) -> Result<
    Seq<RequiredProviderModel>,
    ErrorModel,
>
    decreases i,
{
    if i <= 0 {
        Ok(Seq::empty())
    } else {
        match providers_of_entries(entries, i - 1) {
            Err(e) => Err(e),
            Ok(acc) => match provider_of_entry(entries[i - 1].0, entries[i - 1].1) {
                Err(e) => Err(e),
                Ok(p) => Ok(acc.push(p)),
            },
        }
    }
}

pub proof fn lemma_providers_of_entries_err(
    entries: Seq<(Seq<char>, ValueModel)>,
    i: int,
    j: int,
)
    requires
        0 <= i <= j,
        providers_of_entries(entries, i) is Err,
    ensures
        providers_of_entries(entries, j) == providers_of_entries(entries, i),
    decreases j - i,
{
    if i < j {
        lemma_providers_of_entries_err(entries, i, j - 1);
    }
}

pub open spec fn providers_of(tv: ValueModel) -> Result<Seq<RequiredProviderModel>, ErrorModel> {
    match value_get(tv, "required_providers"@) {
        None => Ok(Seq::empty()),
        Some(p) => match p {
            ValueModel::Obj(es) => providers_of_entries(es, es.len() as int),
            _ => Err(ErrorModel::MalformedSource),
        },
    }
}

/// The terraform block of one file, if it declares one.
pub open spec fn file_terraform(v: ValueModel) -> Result<Option<TerraformModel>, ErrorModel> {
    match value_get(v, "terraform"@) {
        None => Ok(None),
        Some(tv) => match tv {
            ValueModel::Obj(_) => {
                let rv = match value_get(tv, "required_version"@) {
                    None => None,
                    Some(x) => Some(render(x)),
                };
                match backend_of(tv) {
                    Err(e) => Err(e),
                    Ok(b) => match providers_of(tv) {
                        Err(e) => Err(e),
                        Ok(ps) => Ok(
                            Some(
                                TerraformModel {
                                    required_version: rv,
                                    backend: b,
                                    required_providers: ps,
                                },
                            ),
                        ),
                    },
                }
            },
            _ => Err(ErrorModel::MalformedSource),
        },
    }
}

/// The terraform blocks of the first `i` files, in file order.
pub open spec fn terraform_of(vs: Seq<ValueModel>, i: int) -> Result<
    Seq<TerraformModel>,
    ErrorModel,
>
    decreases i,
{
    if i <= 0 {
        Ok(Seq::empty())
    } else {
        match terraform_of(vs, i - 1) {
            Err(e) => Err(e),
            Ok(acc) => match file_terraform(vs[i - 1]) {
                Err(e) => Err(e),
                Ok(None) => Ok(acc),
                Ok(Some(t)) => Ok(acc.push(t)),
            },
        }
    }
}

pub proof fn lemma_terraform_of_err(vs: Seq<ValueModel>, i: int, j: int)
    requires
        0 <= i <= j,
        terraform_of(vs, i) is Err,
    ensures
        terraform_of(vs, j) == terraform_of(vs, i),
    decreases j - i,
{
    if i < j {
        lemma_terraform_of_err(vs, i, j - 1);
    }
}

/// How many of the blocks declare a backend.
pub open spec fn backend_count(ts: Seq<TerraformModel>, i: int) -> nat
    decreases i,
{
    if i <= 0 {
        0
    } else {
        backend_count(ts, i - 1) + (if ts[i - 1].backend is Some {
            1nat
        } else {
            0nat
        })
    }
}

/// The required providers of one terraform block.
#[verifier::loop_isolation(false)]
fn collect_providers(tv: &HclValue) -> (r: Result<Vec<RequiredProvider>, ExtractError>)
    ensures
        match r {
            Ok(ps) => providers_of(tv@) == Ok::<_, ErrorModel>(seq_views(ps@)),
            Err(e) => providers_of(tv@) == Err::<Seq<RequiredProviderModel>, _>(e@),
        },
{
    match hcl_get(tv, "required_providers") {
        None => {
            let out: Vec<RequiredProvider> = Vec::new();
            proof {
                assert(seq_views(out@) =~= Seq::<RequiredProviderModel>::empty());
            }
            Ok(out)
        },
        Some(p) => {
            match p {
                HclValue::Obj(entries) => {
                    let ghost es = p@->Obj_0;
                    proof {
                        crate::value::lemma_entry_models_upto(*entries, entries@.len() as int);
                    }
                    let mut out: Vec<RequiredProvider> = Vec::new();
                    proof {
                        assert(seq_views(out@) =~= Seq::<RequiredProviderModel>::empty());
                    }
                    let mut k: usize = 0;
                    while k < entries.len()
                        invariant
                            k <= entries@.len(),
                            providers_of_entries(es, k as int) == Ok::<_, ErrorModel>(
                                seq_views(out@),
                            ),
                        decreases entries@.len() - k,
                    {
                        proof {
                            assert(es[k as int] == (entries@[k as int].0@,
                            entries@[k as int].1@));
                        }
                        let ev = &entries[k].1;
                        let source = match hcl_get(ev, "source") {
                            Some(sv) => chars::chars_to_string(&render_value(sv)),
                            None => {
                                proof {
                                    lemma_providers_of_entries_err(es, k + 1, es.len() as int);
                                }
                                return Err(ExtractError::MalformedSource);
                            },
                        };
                        let version = match hcl_get(ev, "version") {
                            Some(vv) => chars::chars_to_string(&render_value(vv)),
                            None => {
                                proof {
                                    lemma_providers_of_entries_err(es, k + 1, es.len() as int);
                                }
                                return Err(ExtractError::MalformedSource);
                            },
                        };
                        let rp = RequiredProvider { name: entries[k].0.clone(), source, version };
                        let ghost old_out = out@;
                        out.push(rp);
                        proof {
                            assert(seq_views(out@) =~= seq_views(old_out).push(rp@));
                        }
                        k = k + 1;
                    }
                    Ok(out)
                },
                _ => Err(ExtractError::MalformedSource),
            }
        },
    }
}

/// The terraform blocks of the whole file set, in file order.
#[verifier::loop_isolation(false)]
pub fn extract_terraform(values: &Vec<HclValue>) -> (r: Result<Vec<Terraform>, ExtractError>)
    ensures
        match r {
            Ok(ts) => terraform_of(seq_views(values@), values@.len() as int) == Ok::<
                _,
                ErrorModel,
            >(seq_views(ts@)),
            Err(e) => terraform_of(seq_views(values@), values@.len() as int) == Err::<
                Seq<TerraformModel>,
                _,
            >(e@),
        },
{
    let ghost vs = seq_views(values@);
    let mut out: Vec<Terraform> = Vec::new();
    proof {
        assert(seq_views(out@) =~= Seq::<TerraformModel>::empty());
    }
    let mut i: usize = 0;
    while i < values.len()
        invariant
            i <= values@.len(),
            terraform_of(vs, i as int) == Ok::<_, ErrorModel>(seq_views(out@)),
        decreases values@.len() - i,
    {
        let ghost fv = vs[i as int];
        proof {
            assert(fv == values@[i as int]@);
        }
        match hcl_get(&values[i], "terraform") {
            None => {},
            Some(tv) => {
                match tv {
                    HclValue::Obj(_) => {
                        let required_version = match hcl_get(tv, "required_version") {
                            Some(x) => Some(chars::chars_to_string(&render_value(x))),
                            None => None,
                        };
                        let backend = match hcl_get(tv, "backend") {
                            None => None,
                            Some(b) => {
                                match b {
                                    HclValue::Obj(bes) => {
                                        let ghost bm = b@->Obj_0;
                                        proof {
                                            crate::value::lemma_entry_models_upto(
                                                *bes,
                                                bes@.len() as int,
                                            );
                                        }
                                        if bes.len() == 0 {
                                            None
                                        } else if bes.len() == 1 {
                                            Some(Backend { name: bes[0].0.clone() })
                                        } else {
                                            proof {
                                                lemma_terraform_of_err(vs, i + 1,
                                                vs.len() as int);
                                            }
                                            return Err(ExtractError::AmbiguousBackend);
                                        }
                                    },
                                    _ => {
                                        proof {
                                            lemma_terraform_of_err(vs, i + 1, vs.len() as int);
                                        }
                                        return Err(ExtractError::MalformedSource);
                                    },
                                }
                            },
                        };
                        let required_providers = match collect_providers(tv) {
                            Ok(ps) => ps,
                            Err(e) => {
                                proof {
                                    lemma_terraform_of_err(vs, i + 1, vs.len() as int);
                                }
                                return Err(e);
                            },
                        };
                        let t = Terraform { required_version, backend, required_providers };
                        proof {
                            assert(t@ == file_terraform(fv)->Ok_0->Some_0) by {
                                assert(t@.required_providers =~= providers_of(tv@)->Ok_0);
                            }
                        }
                        let ghost old_out = out@;
                        out.push(t);
                        proof {
                            assert(seq_views(out@) =~= seq_views(old_out).push(t@));
                        }
                    },
                    _ => {
                        proof {
                            lemma_terraform_of_err(vs, i + 1, vs.len() as int);
                        }
                        return Err(ExtractError::MalformedSource);
                    },
                }
            },
        }
        i = i + 1;
    }
    Ok(out)
}

// --- lambdas ---

/// One named lambda entry: name, description and handler; permissions
/// start empty and are attached by the later passes.
pub open spec fn lambda_of_entry(name: Seq<char>, v: ValueModel) -> Result<
    LambdaModel,
    ErrorModel,
> {
    if value_get(v, "description"@) is None {
        Err(ErrorModel::MissingRequiredField { module: name, field: "description"@ })
    } else if value_get(v, "handler"@) is None {
        Err(ErrorModel::MissingRequiredField { module: name, field: "handler"@ })
    } else {
        Ok(
            LambdaModel {
                name: name,
                description: render(value_get(v, "description"@)->Some_0),
                handler: render(value_get(v, "handler"@)->Some_0),
                permissions: Seq::empty(),
            },
        )
    }
}

pub open spec fn lambdas_of_entries(entries: Seq<(Seq<char>, ValueModel)>, i: int) -> Result<
    Seq<LambdaModel>,
    ErrorModel,
>
    decreases i,
{
    if i <= 0 {
        Ok(Seq::empty())
    } else {
        match lambdas_of_entries(entries, i - 1) {
            Err(e) => Err(e),
            Ok(acc) => match lambda_of_entry(entries[i - 1].0, entries[i - 1].1) {
                Err(e) => Err(e),
                Ok(l) => Ok(acc.push(l)),
            },
        }
    }
}

pub proof fn lemma_lambdas_of_entries_err(entries: Seq<(Seq<char>, ValueModel)>, i: int, j: int)
    requires
        0 <= i <= j,
        lambdas_of_entries(entries, i) is Err,
    ensures
        lambdas_of_entries(entries, j) == lambdas_of_entries(entries, i),
    decreases j - i,
{
    if i < j {
        lemma_lambdas_of_entries_err(entries, i, j - 1);
    }
}

/// The value under `locals.<key>` of one file, if any.
pub open spec fn locals_sub(v: ValueModel, key: Seq<char>) -> Option<ValueModel> {
    match value_get(v, "locals"@) {
        None => None,
        Some(l) => value_get(l, key),
    }
}

/// The lambdas declared by one file's `locals.lambdas` block.
pub open spec fn file_lambdas(v: ValueModel) -> Result<Seq<LambdaModel>, ErrorModel> {
    match locals_sub(v, "lambdas"@) {
        None => Ok(Seq::empty()),
        Some(lv) => match lv {
            ValueModel::Obj(entries) => lambdas_of_entries(entries, entries.len() as int),
            _ => Err(ErrorModel::MalformedSource),
        },
    }
}

/// The lambdas of the first `i` files, before permissions are attached.
pub open spec fn base_lambdas(vs: Seq<ValueModel>, i: int) -> Result<Seq<LambdaModel>, ErrorModel>
    decreases i,
{
    if i <= 0 {
        Ok(Seq::empty())
    } else {
        match base_lambdas(vs, i - 1) {
            Err(e) => Err(e),
            Ok(acc) => match file_lambdas(vs[i - 1]) {
                Err(e) => Err(e),
                Ok(ls) => Ok(acc + ls),
            },
        }
    }
}

pub proof fn lemma_base_lambdas_err(vs: Seq<ValueModel>, i: int, j: int)
    requires
        0 <= i <= j,
        base_lambdas(vs, i) is Err,
    ensures
        base_lambdas(vs, j) == base_lambdas(vs, i),
    decreases j - i,
{
    if i < j {
        lemma_base_lambdas_err(vs, i, j - 1);
    }
}

// --- permissions ---

/// A required textual field of a permission entry.
pub open spec fn req_text(v: ValueModel, key: Seq<char>) -> Result<Seq<char>, ErrorModel> {
    match value_get(v, key) {
        Some(ValueModel::Text(s)) => Ok(s),
        _ => Err(ErrorModel::MalformedSource),
    }
}

/// An optional textual field of a permission entry.
pub open spec fn opt_text(v: ValueModel, key: Seq<char>) -> Result<
    Option<Seq<char>>,
    ErrorModel,
> {
    match value_get(v, key) {
        None => Ok(None),
        Some(ValueModel::Text(s)) => Ok(Some(s)),
        Some(_) => Err(ErrorModel::MalformedSource),
    }
}

/// One permission, decoded from its parsed value.
pub open spec fn permission_of(v: ValueModel) -> Result<PermissionsModel, ErrorModel> {
    match req_text(v, "statement_id"@) {
        Err(e) => Err(e),
        Ok(sid) => match req_text(v, "principal"@) {
            Err(e) => Err(e),
            Ok(pr) => match req_text(v, "source_arn"@) {
                Err(e) => Err(e),
                Ok(arn) => match opt_text(v, "http_method"@) {
                    Err(e) => Err(e),
                    Ok(m) => match opt_text(v, "http_path"@) {
                        Err(e) => Err(e),
                        Ok(p) => Ok(
                            PermissionsModel {
                                statement_id: sid,
                                principal: pr,
                                source_arn: arn,
                                http_method: m,
                                http_path: p,
                            },
                        ),
                    },
                },
            },
        },
    }
}

pub open spec fn permissions_of_items(items: Seq<ValueModel>, i: int) -> Result<
    Seq<PermissionsModel>,
    ErrorModel,
>
    decreases i,
{
    if i <= 0 {
        Ok(Seq::empty())
    } else {
        match permissions_of_items(items, i - 1) {
            Err(e) => Err(e),
            Ok(acc) => match permission_of(items[i - 1]) {
                Err(e) => Err(e),
                Ok(p) => Ok(acc.push(p)),
            },
        }
    }
}

pub proof fn lemma_permissions_of_items_err(items: Seq<ValueModel>, i: int, j: int)
    requires
        0 <= i <= j,
        permissions_of_items(items, i) is Err,
    ensures
        permissions_of_items(items, j) == permissions_of_items(items, i),
    decreases j - i,
{
    if i < j {
        lemma_permissions_of_items_err(items, i, j - 1);
    }
}

/// The permission list of one lambda, decoded from its parsed value.
pub open spec fn permissions_of(v: ValueModel) -> Result<Seq<PermissionsModel>, ErrorModel> {
    match v {
        ValueModel::Arr(items) => permissions_of_items(items, items.len() as int),
        _ => Err(ErrorModel::MalformedSource),
    }
}

/// A lambda with further permissions appended (unioned, not replaced).
pub open spec fn lambda_with_perms(l: LambdaModel, ps: Seq<PermissionsModel>) -> LambdaModel {
    LambdaModel { permissions: l.permissions + ps, ..l }
}

/// One file's permission block applied to the first `i` lambdas, each
/// matched by name.
pub open spec fn apply_perms_file(ls: Seq<LambdaModel>, pv: ValueModel, i: int) -> Result<
    Seq<LambdaModel>,
    ErrorModel,
>
    decreases i,
{
    if i <= 0 {
        Ok(Seq::empty())
    } else {
        match apply_perms_file(ls, pv, i - 1) {
            Err(e) => Err(e),
            Ok(acc) => match value_get(pv, ls[i - 1].name) {
                None => Ok(acc.push(ls[i - 1])),
                Some(x) => match permissions_of(x) {
                    Err(e) => Err(e),
                    Ok(ps) => Ok(acc.push(lambda_with_perms(ls[i - 1], ps))),
                },
            },
        }
    }
}

pub proof fn lemma_apply_perms_file_err(ls: Seq<LambdaModel>, pv: ValueModel, i: int, j: int)
    requires
        0 <= i <= j,
        apply_perms_file(ls, pv, i) is Err,
    ensures
        apply_perms_file(ls, pv, j) == apply_perms_file(ls, pv, i),
    decreases j - i,
{
    if i < j {
        lemma_apply_perms_file_err(ls, pv, i, j - 1);
    }
}

/// The permission blocks of the first `i` files applied in file order.
pub open spec fn apply_perms(vs: Seq<ValueModel>, ls: Seq<LambdaModel>, i: int) -> Result<
    Seq<LambdaModel>,
    ErrorModel,
>
    decreases i,
{
    if i <= 0 {
        Ok(ls)
    } else {
        match apply_perms(vs, ls, i - 1) {
            Err(e) => Err(e),
            Ok(cur) => match locals_sub(vs[i - 1], "lambdas_permissions"@) {
                None => Ok(cur),
                Some(pv) => apply_perms_file(cur, pv, cur.len() as int),
            },
        }
    }
}

pub proof fn lemma_apply_perms_err(vs: Seq<ValueModel>, ls: Seq<LambdaModel>, i: int, j: int)
    requires
        0 <= i <= j,
        apply_perms(vs, ls, i) is Err,
    ensures
        apply_perms(vs, ls, j) == apply_perms(vs, ls, i),
    decreases j - i,
{
    if i < j {
        lemma_apply_perms_err(vs, ls, i, j - 1);
    }
}

// --- route inference ---

/// A permission after route inference: both route fields are set
/// together when the source references the execution identifier, and
/// left untouched otherwise.
pub open spec fn infer_permission(p: PermissionsModel) -> Result<PermissionsModel, ErrorModel> {
    if chars::has_sub(p.source_arn, "module.service_api.rest_api_execution_arn"@) {
        match crate::routes::route_of(p.source_arn) {
            Ok(rp) => Ok(
                PermissionsModel { http_method: Some(rp.0), http_path: Some(rp.1), ..p },
            ),
            Err(e) => Err(e),
        }
    } else {
        Ok(p)
    }
}

pub open spec fn infer_perms(ps: Seq<PermissionsModel>, i: int) -> Result<
    Seq<PermissionsModel>,
    ErrorModel,
>
    decreases i,
{
    if i <= 0 {
        Ok(Seq::empty())
    } else {
        match infer_perms(ps, i - 1) {
            Err(e) => Err(e),
            Ok(acc) => match infer_permission(ps[i - 1]) {
                Err(e) => Err(e),
                Ok(p) => Ok(acc.push(p)),
            },
        }
    }
}

pub proof fn lemma_infer_perms_err(ps: Seq<PermissionsModel>, i: int, j: int)
    requires
        0 <= i <= j,
        infer_perms(ps, i) is Err,
    ensures
        infer_perms(ps, j) == infer_perms(ps, i),
    decreases j - i,
{
    if i < j {
        lemma_infer_perms_err(ps, i, j - 1);
    }
}

pub open spec fn infer_lambdas(ls: Seq<LambdaModel>, i: int) -> Result<
    Seq<LambdaModel>,
    ErrorModel,
>
    decreases i,
{
    if i <= 0 {
        Ok(Seq::empty())
    } else {
        match infer_lambdas(ls, i - 1) {
            Err(e) => Err(e),
            Ok(acc) => match infer_perms(ls[i - 1].permissions, ls[i - 1].permissions.len() as int) {
                Err(e) => Err(e),
                Ok(ps) => Ok(acc.push(LambdaModel { permissions: ps, ..ls[i - 1] })),
            },
        }
    }
}

pub proof fn lemma_infer_lambdas_err(ls: Seq<LambdaModel>, i: int, j: int)
    requires
        0 <= i <= j,
        infer_lambdas(ls, i) is Err,
    ensures
        infer_lambdas(ls, j) == infer_lambdas(ls, i),
    decreases j - i,
{
    if i < j {
        lemma_infer_lambdas_err(ls, i, j - 1);
    }
}

/// The lambdas of the whole file set: declared entries, then the
/// permission blocks of every file unioned in, then route inference.
pub open spec fn lambdas_of(vs: Seq<ValueModel>) -> Result<Seq<LambdaModel>, ErrorModel> {
    match base_lambdas(vs, vs.len() as int) {
        Err(e) => Err(e),
        Ok(ls) => match apply_perms(vs, ls, vs.len() as int) {
            Err(e) => Err(e),
            Ok(ls2) => infer_lambdas(ls2, ls2.len() as int),
        },
    }
}

// --- copies that keep the view ---

fn clone_opt_string(o: &Option<String>) -> (r: Option<String>)
    ensures
        r == *o,
{
    match o {
        Some(s) => Some(s.clone()),
        None => None,
    }
}

pub(crate) fn copy_permission(p: &Permissions) -> (r: Permissions)
    ensures
        r == *p,
{
    Permissions {
        statement_id: p.statement_id.clone(),
        principal: p.principal.clone(),
        source_arn: p.source_arn.clone(),
        http_method: clone_opt_string(&p.http_method),
        http_path: clone_opt_string(&p.http_path),
    }
}

#[verifier::loop_isolation(false)]
fn copy_permissions_vec(v: &Vec<Permissions>) -> (r: Vec<Permissions>)
    ensures
        r@ == v@,
{
    let mut r: Vec<Permissions> = Vec::new();
    let mut i: usize = 0;
    while i < v.len()
        invariant
            i <= v@.len(),
            r@ == v@.subrange(0, i as int),
        decreases v@.len() - i,
    {
        r.push(copy_permission(&v[i]));
        proof {
            assert(v@.subrange(0, i + 1) =~= v@.subrange(0, i as int).push(v@[i as int]));
        }
        i = i + 1;
    }
    proof {
        assert(v@.subrange(0, v@.len() as int) =~= v@);
    }
    r
}

pub(crate) fn copy_lambda(l: &Lambda) -> (r: Lambda)
    ensures
        r@ == l@,
{
    let r = Lambda {
        name: l.name.clone(),
        description: l.description.clone(),
        handler: l.handler.clone(),
        permissions: copy_permissions_vec(&l.permissions),
    };
    proof {
        assert(r@.permissions =~= l@.permissions);
    }
    r
}

pub(crate) fn copy_variable(v: &Variable) -> (r: Variable)
    ensures
        r == *v,
{
    Variable { name: v.name.clone(), value: v.value.clone() }
}

#[verifier::loop_isolation(false)]
pub(crate) fn copy_module(m: &Module) -> (r: Module)
    ensures
        r@ == m@,
{
    let mut variables: Vec<Variable> = Vec::new();
    let mut i: usize = 0;
    while i < m.variables.len()
        invariant
            i <= m.variables@.len(),
            variables@ == m.variables@.subrange(0, i as int),
        decreases m.variables@.len() - i,
    {
        variables.push(copy_variable(&m.variables[i]));
        proof {
            assert(m.variables@.subrange(0, i + 1) =~= m.variables@.subrange(0, i as int).push(
                m.variables@[i as int],
            ));
        }
        i = i + 1;
    }
    proof {
        assert(m.variables@.subrange(0, m.variables@.len() as int) =~= m.variables@);
    }
    let r = Module {
        name: m.name.clone(),
        source: m.source.clone(),
        version: m.version.clone(),
        variables,
    };
    proof {
        assert(r@.variables =~= m@.variables);
    }
    r
}

pub(crate) fn copy_backend(b: &Backend) -> (r: Backend)
    ensures
        r == *b,
{
    Backend { name: b.name.clone() }
}

pub(crate) fn copy_provider(p: &RequiredProvider) -> (r: RequiredProvider)
    ensures
        r == *p,
{
    RequiredProvider { name: p.name.clone(), source: p.source.clone(), version: p.version.clone() }
}

#[verifier::loop_isolation(false)]
pub(crate) fn copy_terraform(t: &Terraform) -> (r: Terraform)
    ensures
        r@ == t@,
{
    let mut required_providers: Vec<RequiredProvider> = Vec::new();
    let mut i: usize = 0;
    while i < t.required_providers.len()
        invariant
            i <= t.required_providers@.len(),
            required_providers@ == t.required_providers@.subrange(0, i as int),
        decreases t.required_providers@.len() - i,
    {
        required_providers.push(copy_provider(&t.required_providers[i]));
        proof {
            assert(t.required_providers@.subrange(0, i + 1) =~= t.required_providers@.subrange(
                0,
                i as int,
            ).push(t.required_providers@[i as int]));
        }
        i = i + 1;
    }
    proof {
        assert(t.required_providers@.subrange(0, t.required_providers@.len() as int)
            =~= t.required_providers@);
    }
    let r = Terraform {
        required_version: clone_opt_string(&t.required_version),
        backend: match &t.backend {
            Some(b) => Some(copy_backend(b)),
            None => None,
        },
        required_providers,
    };
    proof {
        assert(r@.required_providers =~= t@.required_providers);
    }
    r
}

pub(crate) fn copy_template_variable(t: &TemplateVariable) -> (r: TemplateVariable)
    ensures
        r@ == t@,
{
    TemplateVariable {
        name: t.name.clone(),
        value: t.value.clone(),
        lambda: match &t.lambda {
            Some(l) => Some(copy_lambda(l)),
            None => None,
        },
    }
}

#[verifier::loop_isolation(false)]
pub(crate) fn copy_api_config(c: &ApiConfig) -> (r: ApiConfig)
    ensures
        r@ == c@,
{
    let mut template_variables: Vec<TemplateVariable> = Vec::new();
    let mut i: usize = 0;
    while i < c.template_variables.len()
        invariant
            i <= c.template_variables@.len(),
            template_variables@.len() == i,
            forall|j: int|
                0 <= j < i ==> #[trigger] template_variables@[j]@ == c.template_variables@[j]@,
        decreases c.template_variables@.len() - i,
    {
        template_variables.push(copy_template_variable(&c.template_variables[i]));
        i = i + 1;
    }
    let r = ApiConfig {
        source: c.source.clone(),
        version: c.version.clone(),
        template_file: c.template_file.clone(),
        template_variables,
    };
    proof {
        assert(r@.template_variables =~= c@.template_variables);
    }
    r
}

// --- the lambda passes, executable ---

/// The declared lambdas of one file.
#[verifier::loop_isolation(false)]
fn file_lambdas_exec(v: &HclValue) -> (r: Result<Vec<Lambda>, ExtractError>)
    ensures
        match r {
            Ok(ls) => file_lambdas(v@) == Ok::<_, ErrorModel>(seq_views(ls@)),
            Err(e) => file_lambdas(v@) == Err::<Seq<LambdaModel>, _>(e@),
        },
{
    let lv = match hcl_get(v, "locals") {
        Some(l) => hcl_get(l, "lambdas"),
        None => None,
    };
    match lv {
        None => {
            let out: Vec<Lambda> = Vec::new();
            proof {
                assert(seq_views(out@) =~= Seq::<LambdaModel>::empty());
            }
            Ok(out)
        },
        Some(block) => {
            match block {
                HclValue::Obj(entries) => {
                    let ghost es = block@->Obj_0;
                    proof {
                        crate::value::lemma_entry_models_upto(*entries, entries@.len() as int);
                    }
                    let mut out: Vec<Lambda> = Vec::new();
                    proof {
                        assert(seq_views(out@) =~= Seq::<LambdaModel>::empty());
                    }
                    let mut k: usize = 0;
                    while k < entries.len()
                        invariant
                            k <= entries@.len(),
                            lambdas_of_entries(es, k as int) == Ok::<_, ErrorModel>(
                                seq_views(out@),
                            ),
                        decreases entries@.len() - k,
                    {
                        proof {
                            assert(es[k as int] == (entries@[k as int].0@,
                            entries@[k as int].1@));
                        }
                        let ename = entries[k].0.clone();
                        let ev = &entries[k].1;
                        let description = match hcl_get(ev, "description") {
                            Some(x) => chars::chars_to_string(&render_value(x)),
                            None => {
                                proof {
                                    lemma_lambdas_of_entries_err(es, k + 1, es.len() as int);
                                }
                                return Err(
                                    ExtractError::MissingRequiredField {
                                        module: ename,
                                        field: string_lit("description"),
                                    },
                                );
                            },
                        };
                        let handler = match hcl_get(ev, "handler") {
                            Some(x) => chars::chars_to_string(&render_value(x)),
                            None => {
                                proof {
                                    lemma_lambdas_of_entries_err(es, k + 1, es.len() as int);
                                }
                                return Err(
                                    ExtractError::MissingRequiredField {
                                        module: ename,
                                        field: string_lit("handler"),
                                    },
                                );
                            },
                        };
                        let l = Lambda {
                            name: ename,
                            description,
                            handler,
                            permissions: Vec::new(),
                        };
                        proof {
                            assert(l@ == lambda_of_entry(es[k as int].0, es[k as int].1)->Ok_0)
                                by {
                                assert(l@.permissions =~= Seq::<PermissionsModel>::empty());
                            }
                        }
                        let ghost old_out = out@;
                        out.push(l);
                        proof {
                            assert(seq_views(out@) =~= seq_views(old_out).push(l@));
                        }
                        k = k + 1;
                    }
                    Ok(out)
                },
                _ => Err(ExtractError::MalformedSource),
            }
        },
    }
}

/// One permission, decoded.
fn decode_permission(v: &HclValue) -> (r: Result<Permissions, ExtractError>)
    ensures
        match r {
            Ok(p) => permission_of(v@) == Ok::<_, ErrorModel>(p@),
            Err(e) => permission_of(v@) == Err::<PermissionsModel, _>(e@),
        },
{
    let statement_id = match hcl_get(v, "statement_id") {
        Some(x) => match x {
            HclValue::Text(s) => s.clone(),
            _ => {
                return Err(ExtractError::MalformedSource);
            },
        },
        None => {
            return Err(ExtractError::MalformedSource);
        },
    };
    let principal = match hcl_get(v, "principal") {
        Some(x) => match x {
            HclValue::Text(s) => s.clone(),
            _ => {
                return Err(ExtractError::MalformedSource);
            },
        },
        None => {
            return Err(ExtractError::MalformedSource);
        },
    };
    let source_arn = match hcl_get(v, "source_arn") {
        Some(x) => match x {
            HclValue::Text(s) => s.clone(),
            _ => {
                return Err(ExtractError::MalformedSource);
            },
        },
        None => {
            return Err(ExtractError::MalformedSource);
        },
    };
    let http_method = match hcl_get(v, "http_method") {
        None => None,
        Some(x) => match x {
            HclValue::Text(s) => Some(s.clone()),
            _ => {
                return Err(ExtractError::MalformedSource);
            },
        },
    };
    let http_path = match hcl_get(v, "http_path") {
        None => None,
        Some(x) => match x {
            HclValue::Text(s) => Some(s.clone()),
            _ => {
                return Err(ExtractError::MalformedSource);
            },
        },
    };
    Ok(Permissions { statement_id, principal, source_arn, http_method, http_path })
}

/// One lambda's permission list, decoded.
#[verifier::loop_isolation(false)]
fn decode_permissions(v: &HclValue) -> (r: Result<Vec<Permissions>, ExtractError>)
    ensures
        match r {
            Ok(ps) => permissions_of(v@) == Ok::<_, ErrorModel>(seq_views(ps@)),
            Err(e) => permissions_of(v@) == Err::<Seq<PermissionsModel>, _>(e@),
        },
{
    match v {
        HclValue::Arr(items) => {
            let ghost ms = v@->Arr_0;
            proof {
                crate::value::lemma_models_upto(*items, items@.len() as int);
            }
            let mut out: Vec<Permissions> = Vec::new();
            proof {
                assert(seq_views(out@) =~= Seq::<PermissionsModel>::empty());
            }
            let mut k: usize = 0;
            while k < items.len()
                invariant
                    k <= items@.len(),
                    permissions_of_items(ms, k as int) == Ok::<_, ErrorModel>(seq_views(out@)),
                decreases items@.len() - k,
            {
                proof {
                    assert(ms[k as int] == items@[k as int]@);
                }
                match decode_permission(&items[k]) {
                    Ok(p) => {
                        let ghost old_out = out@;
                        out.push(p);
                        proof {
                            assert(seq_views(out@) =~= seq_views(old_out).push(p@));
                        }
                    },
                    Err(e) => {
                        proof {
                            lemma_permissions_of_items_err(ms, k + 1, ms.len() as int);
                        }
                        return Err(e);
                    },
                }
                k = k + 1;
            }
            Ok(out)
        },
        _ => Err(ExtractError::MalformedSource),
    }
}

/// One file's permission block applied to every lambda, by name.
#[verifier::loop_isolation(false)]
fn apply_perms_one_file(lambdas: &Vec<Lambda>, pv: &HclValue) -> (r: Result<
    Vec<Lambda>,
    ExtractError,
>)
    ensures
        match r {
            Ok(ls) => apply_perms_file(seq_views(lambdas@), pv@, lambdas@.len() as int) == Ok::<
                _,
                ErrorModel,
            >(seq_views(ls@)),
            Err(e) => apply_perms_file(seq_views(lambdas@), pv@, lambdas@.len() as int) == Err::<
                Seq<LambdaModel>,
                _,
            >(e@),
        },
{
    let ghost ls = seq_views(lambdas@);
    let mut out: Vec<Lambda> = Vec::new();
    proof {
        assert(seq_views(out@) =~= Seq::<LambdaModel>::empty());
    }
    let mut j: usize = 0;
    while j < lambdas.len()
        invariant
            j <= lambdas@.len(),
            apply_perms_file(ls, pv@, j as int) == Ok::<_, ErrorModel>(seq_views(out@)),
        decreases lambdas@.len() - j,
    {
        proof {
            assert(ls[j as int] == lambdas@[j as int]@);
        }
        let l = &lambdas[j];
        let name = l.name.clone();
        match hcl_get(pv, name.as_str()) {
            None => {
                let c = copy_lambda(l);
                let ghost old_out = out@;
                out.push(c);
                proof {
                    assert(seq_views(out@) =~= seq_views(old_out).push(c@));
                }
            },
            Some(x) => {
                match decode_permissions(x) {
                    Ok(ps) => {
                        let mut merged = copy_permissions_vec(&l.permissions);
                        let mut extra = ps;
                        merged.append(&mut extra);
                        let nl = Lambda {
                            name: l.name.clone(),
                            description: l.description.clone(),
                            handler: l.handler.clone(),
                            permissions: merged,
                        };
                        proof {
                            assert(nl@ == lambda_with_perms(
                                ls[j as int],
                                permissions_of(x@)->Ok_0,
                            )) by {
                                assert(nl@.permissions =~= ls[j as int].permissions
                                    + permissions_of(x@)->Ok_0);
                            }
                        }
                        let ghost old_out = out@;
                        out.push(nl);
                        proof {
                            assert(seq_views(out@) =~= seq_views(old_out).push(nl@));
                        }
                    },
                    Err(e) => {
                        proof {
                            lemma_apply_perms_file_err(ls, pv@, j + 1, ls.len() as int);
                        }
                        return Err(e);
                    },
                }
            },
        }
        j = j + 1;
    }
    Ok(out)
}

/// Route inference over one permission list.
#[verifier::loop_isolation(false)]
fn infer_perms_exec(perms: &Vec<Permissions>) -> (r: Result<Vec<Permissions>, ExtractError>)
    ensures
        match r {
            Ok(ps) => infer_perms(seq_views(perms@), perms@.len() as int) == Ok::<
                _,
                ErrorModel,
            >(seq_views(ps@)),
            Err(e) => infer_perms(seq_views(perms@), perms@.len() as int) == Err::<
                Seq<PermissionsModel>,
                _,
            >(e@),
        },
{
    let ghost pms = seq_views(perms@);
    let marker = chars::to_chars("module.service_api.rest_api_execution_arn");
    let mut out: Vec<Permissions> = Vec::new();
    proof {
        assert(seq_views(out@) =~= Seq::<PermissionsModel>::empty());
    }
    let mut i: usize = 0;
    while i < perms.len()
        invariant
            i <= perms@.len(),
            infer_perms(pms, i as int) == Ok::<_, ErrorModel>(seq_views(out@)),
        decreases perms@.len() - i,
    {
        proof {
            assert(pms[i as int] == perms@[i as int]@);
        }
        let p = &perms[i];
        let arnc = chars::to_chars(p.source_arn.as_str());
        if chars::has_subseq(&arnc, &marker) {
            match crate::routes::handle_api_gateway_lambda(p.source_arn.clone()) {
                Ok(route) => {
                    let method = route[0].clone();
                    let path = route[1].clone();
                    let np = Permissions {
                        statement_id: p.statement_id.clone(),
                        principal: p.principal.clone(),
                        source_arn: p.source_arn.clone(),
                        http_method: Some(method),
                        http_path: Some(path),
                    };
                    proof {
                        assert(np@ == infer_permission(pms[i as int])->Ok_0);
                    }
                    let ghost old_out = out@;
                    out.push(np);
                    proof {
                        assert(seq_views(out@) =~= seq_views(old_out).push(np@));
                    }
                },
                Err(e) => {
                    proof {
                        lemma_infer_perms_err(pms, i + 1, pms.len() as int);
                    }
                    return Err(e);
                },
            }
        } else {
            let c = copy_permission(p);
            let ghost old_out = out@;
            out.push(c);
            proof {
                assert(seq_views(out@) =~= seq_views(old_out).push(c@));
            }
        }
        i = i + 1;
    }
    Ok(out)
}

/// The base pass: the declared lambdas of every file, in order.
#[verifier::loop_isolation(false)]
fn collect_base_lambdas(values: &Vec<HclValue>) -> (r: Result<Vec<Lambda>, ExtractError>)
    ensures
        match r {
            Ok(ls) => base_lambdas(seq_views(values@), values@.len() as int) == Ok::<
                _,
                ErrorModel,
            >(seq_views(ls@)),
            Err(e) => base_lambdas(seq_views(values@), values@.len() as int) == Err::<
                Seq<LambdaModel>,
                _,
            >(e@),
        },
{
    let ghost vs = seq_views(values@);
    let mut base: Vec<Lambda> = Vec::new();
    proof {
        assert(seq_views(base@) =~= Seq::<LambdaModel>::empty());
    }
    let mut i: usize = 0;
    while i < values.len()
        invariant
            i <= values@.len(),
            base_lambdas(vs, i as int) == Ok::<_, ErrorModel>(seq_views(base@)),
        decreases values@.len() - i,
    {
        proof {
            assert(vs[i as int] == values@[i as int]@);
        }
        match file_lambdas_exec(&values[i]) {
            Ok(fl) => {
                let ghost old_base = base@;
                let mut fl = fl;
                base.append(&mut fl);
                proof {
                    assert(seq_views(base@) =~= seq_views(old_base) + file_lambdas(
                        vs[i as int],
                    )->Ok_0);
                }
            },
            Err(e) => {
                proof {
                    lemma_base_lambdas_err(vs, i + 1, vs.len() as int);
                }
                return Err(e);
            },
        }
        i = i + 1;
    }
    Ok(base)
}

/// The permission pass: every file's permission block applied in order.
#[verifier::loop_isolation(false)]
fn apply_all_perms(values: &Vec<HclValue>, base: Vec<Lambda>) -> (r: Result<
    Vec<Lambda>,
    ExtractError,
>)
    ensures
        match r {
            Ok(ls) => apply_perms(seq_views(values@), seq_views(base@), values@.len() as int)
                == Ok::<_, ErrorModel>(seq_views(ls@)),
            Err(e) => apply_perms(seq_views(values@), seq_views(base@), values@.len() as int)
                == Err::<Seq<LambdaModel>, _>(e@),
        },
{
    let ghost vs = seq_views(values@);
    let ghost ls0 = seq_views(base@);
    let mut cur = base;
    let mut f: usize = 0;
    while f < values.len()
        invariant
            f <= values@.len(),
            apply_perms(vs, ls0, f as int) == Ok::<_, ErrorModel>(seq_views(cur@)),
        decreases values@.len() - f,
    {
        proof {
            assert(vs[f as int] == values@[f as int]@);
        }
        let pv = match hcl_get(&values[f], "locals") {
            Some(l) => hcl_get(l, "lambdas_permissions"),
            None => None,
        };
        match pv {
            None => {},
            Some(block) => {
                match apply_perms_one_file(&cur, block) {
                    Ok(nls) => {
                        cur = nls;
                    },
                    Err(e) => {
                        proof {
                            lemma_apply_perms_err(vs, ls0, f + 1, vs.len() as int);
                        }
                        return Err(e);
                    },
                }
            },
        }
        f = f + 1;
    }
    Ok(cur)
}

/// The inference pass: route inference over every lambda's permissions.
#[verifier::loop_isolation(false)]
fn infer_all_lambdas(cur: &Vec<Lambda>) -> (r: Result<Vec<Lambda>, ExtractError>)
    ensures
        match r {
            Ok(ls) => infer_lambdas(seq_views(cur@), cur@.len() as int) == Ok::<
                _,
                ErrorModel,
            >(seq_views(ls@)),
            Err(e) => infer_lambdas(seq_views(cur@), cur@.len() as int) == Err::<
                Seq<LambdaModel>,
                _,
            >(e@),
        },
{
    let ghost ls1 = seq_views(cur@);
    let mut out: Vec<Lambda> = Vec::new();
    proof {
        assert(seq_views(out@) =~= Seq::<LambdaModel>::empty());
    }
    let mut k: usize = 0;
    while k < cur.len()
        invariant
            k <= cur@.len(),
            infer_lambdas(ls1, k as int) == Ok::<_, ErrorModel>(seq_views(out@)),
        decreases cur@.len() - k,
    {
        proof {
            assert(ls1[k as int] == cur@[k as int]@);
        }
        let l = &cur[k];
        match infer_perms_exec(&l.permissions) {
            Ok(nps) => {
                let nl = Lambda {
                    name: l.name.clone(),
                    description: l.description.clone(),
                    handler: l.handler.clone(),
                    permissions: nps,
                };
                proof {
                    assert(seq_views(l.permissions@) =~= ls1[k as int].permissions);
                    assert(nl@ == (LambdaModel {
                        permissions: infer_perms(
                            ls1[k as int].permissions,
                            ls1[k as int].permissions.len() as int,
                        )->Ok_0,
                        ..ls1[k as int]
                    })) by {
                        assert(nl@.permissions =~= infer_perms(
                            ls1[k as int].permissions,
                            ls1[k as int].permissions.len() as int,
                        )->Ok_0);
                    }
                }
                let ghost old_out = out@;
                out.push(nl);
                proof {
                    assert(seq_views(out@) =~= seq_views(old_out).push(nl@));
                }
            },
            Err(e) => {
                proof {
                    assert(seq_views(l.permissions@) =~= ls1[k as int].permissions);
                    lemma_infer_lambdas_err(ls1, k + 1, ls1.len() as int);
                }
                return Err(e);
            },
        }
        k = k + 1;
    }
    Ok(out)
}

/// The lambdas of the whole file set, with permissions attached and
/// routes inferred, in declaration order.
pub fn extract_lambda(values: &Vec<HclValue>) -> (r: Result<Vec<Lambda>, ExtractError>)
    ensures
        match r {
            Ok(ls) => lambdas_of(seq_views(values@)) == Ok::<_, ErrorModel>(seq_views(ls@)),
            Err(e) => lambdas_of(seq_views(values@)) == Err::<Seq<LambdaModel>, _>(e@),
        },
{
    let base = match collect_base_lambdas(values) {
        Ok(b) => b,
        Err(e) => {
            return Err(e);
        },
    };
    let cur = match apply_all_perms(values, base) {
        Ok(c) => c,
        Err(e) => {
            return Err(e);
        },
    };
    match infer_all_lambdas(&cur) {
        Ok(ls) => Ok(ls),
        Err(e) => Err(e),
    }
}

/// How many of the extracted blocks declare a backend.
#[verifier::loop_isolation(false)]
pub fn count_backends(ts: &Vec<Terraform>) -> (n: usize)
    ensures
        n == backend_count(seq_views(ts@), ts@.len() as int),
{
    let mut n: usize = 0;
    let mut i: usize = 0;
    while i < ts.len()
        invariant
            i <= ts@.len(),
            n <= i,
            n == backend_count(seq_views(ts@), i as int),
        decreases ts@.len() - i,
    {
        if ts[i].backend.is_some() {
            n = n + 1;
        }
        i = i + 1;
    }
    n
}


// --- the api configuration ---

/// The `service_api` module of the first file that declares one, at or
/// after file `i`.
pub open spec fn service_api_from(vs: Seq<ValueModel>, i: int) -> Option<ValueModel>
    decreases vs.len() - i,
{
    if !(0 <= i < vs.len()) {
        None
    } else {
        match value_get(vs[i], "module"@) {
            Some(m) => match value_get(m, "service_api"@) {
                Some(s) => Some(s),
                None => service_api_from(vs, i + 1),
            },
            None => service_api_from(vs, i + 1),
        }
    }
}

/// The api configuration of the file set, against the extracted
/// lambdas: absent when no file declares one (not an error).
pub open spec fn api_config_of(vs: Seq<ValueModel>, ls: Seq<LambdaModel>) -> Result<
    Option<ApiConfigModel>,
    ErrorModel,
> {
    match service_api_from(vs, 0) {
        None => Ok(None),
        Some(s) => match value_get(s, "api_config"@) {
            None => Ok(None),
            Some(d) => match value_get(d, "body"@) {
                Some(ValueModel::Text(body)) => match crate::template::template_of(body, ls) {
                    Err(e) => Err(e),
                    Ok(tp) => if value_get(s, "source"@) is None {
                        Err(
                            ErrorModel::MissingRequiredField {
                                module: "service_api"@,
                                field: "source"@,
                            },
                        )
                    } else if value_get(s, "version"@) is None {
                        Err(
                            ErrorModel::MissingRequiredField {
                                module: "service_api"@,
                                field: "version"@,
                            },
                        )
                    } else {
                        Ok(
                            Some(
                                ApiConfigModel {
                                    source: render(value_get(s, "source"@)->Some_0),
                                    version: render(value_get(s, "version"@)->Some_0),
                                    template_file: tp.0,
                                    template_variables: tp.1,
                                },
                            ),
                        )
                    },
                },
                _ => Err(ErrorModel::MalformedSource),
            },
        },
    }
}

/// The api configuration, extracted from the file set.
#[verifier::loop_isolation(false)]
pub fn extract_api_config(values: &Vec<HclValue>, lambdas: &Vec<Lambda>) -> (r: Result<
    Option<ApiConfig>,
    ExtractError,
>)
    ensures
        match r {
            Ok(Some(c)) => api_config_of(seq_views(values@), seq_views(lambdas@)) == Ok::<
                _,
                ErrorModel,
            >(Some(c@)),
            Ok(None) => api_config_of(seq_views(values@), seq_views(lambdas@)) == Ok::<
                Option<ApiConfigModel>,
                ErrorModel,
            >(None),
            Err(e) => api_config_of(seq_views(values@), seq_views(lambdas@)) == Err::<
                Option<ApiConfigModel>,
                _,
            >(e@),
        },
{
    let ghost vs = seq_views(values@);
    let ghost lsm = seq_views(lambdas@);
    let mut i: usize = 0;
    let mut found: Option<&HclValue> = None;
    while i < values.len() && found.is_none()
        invariant
            i <= values@.len(),
            match found {
                Some(s) => 0 < i && service_api_from(vs, 0) == Some(s@),
                None => service_api_from(vs, 0) == service_api_from(vs, i as int),
            },
        decreases values@.len() - i,
    {
        proof {
            assert(vs[i as int] == values@[i as int]@);
        }
        let sa = match hcl_get(&values[i], "module") {
            Some(m) => hcl_get(m, "service_api"),
            None => None,
        };
        match sa {
            Some(s) => {
                found = Some(s);
            },
            None => {},
        }
        i = i + 1;
    }
    let s = match found {
        Some(s) => s,
        None => {
            return Ok(None);
        },
    };
    let d = match hcl_get(s, "api_config") {
        Some(d) => d,
        None => {
            return Ok(None);
        },
    };
    let body = match hcl_get(d, "body") {
        Some(b) => match b {
            HclValue::Text(t) => t,
            _ => {
                return Err(ExtractError::MalformedSource);
            },
        },
        None => {
            return Err(ExtractError::MalformedSource);
        },
    };
    let tp = match crate::template::link_template(body.as_str(), lambdas) {
        Ok(tp) => tp,
        Err(e) => {
            return Err(e);
        },
    };
    let source = match hcl_get(s, "source") {
        Some(x) => chars::chars_to_string(&render_value(x)),
        None => {
            return Err(
                ExtractError::MissingRequiredField {
                    module: string_lit("service_api"),
                    field: string_lit("source"),
                },
            );
        },
    };
    let version = match hcl_get(s, "version") {
        Some(x) => chars::chars_to_string(&render_value(x)),
        None => {
            return Err(
                ExtractError::MissingRequiredField {
                    module: string_lit("service_api"),
                    field: string_lit("version"),
                },
            );
        },
    };
    let c = ApiConfig {
        source,
        version,
        template_file: tp.0,
        template_variables: tp.1,
    };
    proof {
        assert(c@ == api_config_of(vs, lsm)->Ok_0->Some_0) by {
            assert(c@.template_variables =~= seq_views(tp.1@));
        }
    }
    Ok(Some(c))
}

// --- the whole pipeline ---

/// The snapshot of a parsed file set: modules, terraform blocks (with
/// the cross-file backend check), lambdas, api configuration, and the
/// raw values themselves.
pub open spec fn snapshot_of(vs: Seq<ValueModel>) -> Result<HclModel, ErrorModel> {
    match modules_of(vs, vs.len() as int) {
        Err(e) => Err(e),
        Ok(modules) => match terraform_of(vs, vs.len() as int) {
            Err(e) => Err(e),
            Ok(ts) => if backend_count(ts, ts.len() as int) > 1 {
                Err(ErrorModel::AmbiguousBackend)
            } else {
                match lambdas_of(vs) {
                    Err(e) => Err(e),
                    Ok(ls) => match api_config_of(vs, ls) {
                        Err(e) => Err(e),
                        Ok(ac) => Ok(
                            HclModel {
                                modules: modules,
                                terraform: ts,
                                api_config: ac,
                                lambda: ls,
                                raw: vs,
                            },
                        ),
                    },
                }
            },
        },
    }
}

/// The parsed values of the first `i` sources; a parse failure is a
/// malformed source.
pub open spec fn parsed_values(sources: Seq<Seq<char>>, i: int) -> Result<
    Seq<ValueModel>,
    ErrorModel,
>
    decreases i,
{
    if i <= 0 {
        Ok(Seq::empty())
    } else {
        match parsed_values(sources, i - 1) {
            Err(e) => Err(e),
            Ok(acc) => match crate::parse::parsed_hcl(sources[i - 1]) {
                None => Err(ErrorModel::MalformedSource),
                Some(v) => Ok(acc.push(v)),
            },
        }
    }
}

pub proof fn lemma_parsed_values_err(sources: Seq<Seq<char>>, i: int, j: int)
    requires
        0 <= i <= j,
        parsed_values(sources, i) is Err,
    ensures
        parsed_values(sources, j) == parsed_values(sources, i),
    decreases j - i,
{
    if i < j {
        lemma_parsed_values_err(sources, i, j - 1);
    }
}

/// What the whole pipeline makes of a set of raw sources.
pub open spec fn pipeline_of(sources: Seq<Seq<char>>) -> Result<HclModel, ErrorModel> {
    match parsed_values(sources, sources.len() as int) {
        Err(e) => Err(e),
        Ok(vs) => snapshot_of(vs),
    }
}

/// The snapshot built from already-parsed values.
pub fn extract_data_from_values(values: Vec<HclValue>) -> (r: Result<HCL, ExtractError>)
    ensures
        match r {
            Ok(h) => snapshot_of(seq_views(values@)) == Ok::<_, ErrorModel>(h@),
            Err(e) => snapshot_of(seq_views(values@)) == Err::<HclModel, _>(e@),
        },
{
    let modules = match extract_modules(&values) {
        Ok(ms) => ms,
        Err(e) => {
            return Err(e);
        },
    };
    let terraform = match extract_terraform(&values) {
        Ok(ts) => ts,
        Err(e) => {
            return Err(e);
        },
    };
    if count_backends(&terraform) > 1 {
        return Err(ExtractError::AmbiguousBackend);
    }
    let lambda = match extract_lambda(&values) {
        Ok(ls) => ls,
        Err(e) => {
            return Err(e);
        },
    };
    let api_config = match extract_api_config(&values, &lambda) {
        Ok(ac) => ac,
        Err(e) => {
            return Err(e);
        },
    };
    let h = HCL { modules, terraform, api_config, lambda, raw: values };
    proof {
        assert(h@ == snapshot_of(seq_views(h.raw@))->Ok_0) by {
            assert(h@.modules =~= seq_views(h.modules@));
            assert(h@.terraform =~= seq_views(h.terraform@));
            assert(h@.lambda =~= seq_views(h.lambda@));
            assert(h@.raw =~= seq_views(h.raw@));
        }
    }
    Ok(h)
}

/// The whole pipeline: each source parsed, then the snapshot built.
/// Runs once, eagerly; the result is a pure function of the sources.
#[verifier::loop_isolation(false)]
pub fn extract_data_from_hcl(sources: &Vec<String>) -> (r: Result<HCL, ExtractError>)
    ensures
        match r {
            Ok(h) => pipeline_of(seq_views(sources@)) == Ok::<_, ErrorModel>(h@),
            Err(e) => pipeline_of(seq_views(sources@)) == Err::<HclModel, _>(e@),
        },
{
    let ghost srcs = seq_views(sources@);
    let mut values: Vec<HclValue> = Vec::new();
    proof {
        assert(seq_views(values@) =~= Seq::<ValueModel>::empty());
    }
    let mut i: usize = 0;
    while i < sources.len()
        invariant
            i <= sources@.len(),
            parsed_values(srcs, i as int) == Ok::<_, ErrorModel>(seq_views(values@)),
        decreases sources@.len() - i,
    {
        proof {
            assert(srcs[i as int] == sources@[i as int]@);
        }
        match crate::parse::parse_hcl(sources[i].as_str()) {
            Some(v) => {
                let ghost old_values = values@;
                values.push(v);
                proof {
                    assert(seq_views(values@) =~= seq_views(old_values).push(v@));
                }
            },
            None => {
                proof {
                    lemma_parsed_values_err(srcs, i + 1, srcs.len() as int);
                }
                return Err(ExtractError::MalformedSource);
            },
        }
        i = i + 1;
    }
    extract_data_from_values(values)
}

} // verus!
