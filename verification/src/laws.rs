//! Laws of the extraction pipeline and the linker, stated and proved
//! against the same specifications the executable contracts use.

use vstd::prelude::*;

use crate::extract::{
    backend_count, lemma_modules_of_entries_err, lemma_modules_of_err, modules_of,
    modules_of_entries, module_of_entry, snapshot_of, terraform_of, pipeline_of,
};
use crate::model::{ErrorModel, HclModel, LambdaModel, TerraformModel};
use crate::template::{find_lambda_from, link_of};
use crate::value::{value_get, ValueModel};

verus! {

/// The pipeline is a pure function of its sources: running it twice
/// over an unchanged file set yields value-equal snapshots.
pub proof fn lemma_pipeline_deterministic(s1: Seq<Seq<char>>, s2: Seq<Seq<char>>)
    requires
        s1 == s2,
    ensures
        pipeline_of(s1) == pipeline_of(s2),
{
}

pub proof fn lemma_backend_count_mono(ts: Seq<TerraformModel>, a: int, b: int)
    requires
        a <= b,
    ensures
        backend_count(ts, a) <= backend_count(ts, b),
    decreases b - a,
{
    if a < b {
        lemma_backend_count_mono(ts, a, b - 1);
    }
}

pub proof fn lemma_backend_pair(ts: Seq<TerraformModel>, i: int, j: int)
    requires
        0 <= i < j < ts.len(),
        ts[i].backend is Some,
        ts[j].backend is Some,
    ensures
        backend_count(ts, ts.len() as int) >= 2,
{
    assert(backend_count(ts, i + 1) >= 1);
    lemma_backend_count_mono(ts, i + 1, j);
    assert(backend_count(ts, j + 1) >= 2);
    lemma_backend_count_mono(ts, j + 1, ts.len() as int);
}

/// When two terraform blocks of the same file set both declare a
/// backend, extraction fails with the backend-ambiguity error. (On a
/// file set that fails module extraction first — a module missing
/// `source` or `version` — the pipeline reports that failure instead,
/// so module extraction is assumed to succeed here.)
pub proof fn lemma_ambiguous_backend(
    vs: Seq<ValueModel>,
    ts: Seq<TerraformModel>,
    i: int,
    j: int,
)
    requires
        modules_of(vs, vs.len() as int) is Ok,
        terraform_of(vs, vs.len() as int) == Ok::<_, ErrorModel>(ts),
        0 <= i < j < ts.len(),
        ts[i].backend is Some,
        ts[j].backend is Some,
    ensures
        snapshot_of(vs) == Err::<HclModel, ErrorModel>(ErrorModel::AmbiguousBackend),
{
    lemma_backend_pair(ts, i, j);
}

/// One module entry of one file's `module` block lacks the named
/// required field.
pub open spec fn entry_missing(
    vs: Seq<ValueModel>,
    k: int,
    e: int,
    module: Seq<char>,
    field: Seq<char>,
) -> bool {
    &&& 0 <= k < vs.len()
    &&& value_get(vs[k], "module"@) is Some
    &&& value_get(vs[k], "module"@)->Some_0 is Obj
    &&& 0 <= e < (value_get(vs[k], "module"@)->Some_0->Obj_0).len()
    &&& (value_get(vs[k], "module"@)->Some_0->Obj_0)[e].0 == module
    &&& (field == "source"@ || field == "version"@)
    &&& value_get((value_get(vs[k], "module"@)->Some_0->Obj_0)[e].1, field) is None
}

/// Some module of the file set lacks the named required field.
pub open spec fn names_missing_field(
    vs: Seq<ValueModel>,
    module: Seq<char>,
    field: Seq<char>,
) -> bool {
    exists|k: int, e: int| #[trigger] entry_missing(vs, k, e, module, field)
}

/// A module entry that lacks a required field makes the whole
/// extraction fail: there is no partial snapshot.
pub proof fn lemma_missing_field_fails(vs: Seq<ValueModel>, k: int, e: int)
    requires
        0 <= k < vs.len(),
        value_get(vs[k], "module"@) is Some,
        value_get(vs[k], "module"@)->Some_0 is Obj,
        0 <= e < (value_get(vs[k], "module"@)->Some_0->Obj_0).len(),
        module_of_entry(
            (value_get(vs[k], "module"@)->Some_0->Obj_0)[e].0,
            (value_get(vs[k], "module"@)->Some_0->Obj_0)[e].1,
        ) is Err,
    ensures
        modules_of(vs, vs.len() as int) is Err,
        snapshot_of(vs) is Err,
{
    let entries = value_get(vs[k], "module"@)->Some_0->Obj_0;
    assert(modules_of_entries(entries, e + 1) is Err);
    lemma_modules_of_entries_err(entries, e + 1, entries.len() as int);
    assert(modules_of(vs, k + 1) is Err);
    lemma_modules_of_err(vs, k + 1, vs.len() as int);
}

proof fn lemma_mrf_genuine_entries(entries: Seq<(Seq<char>, ValueModel)>, i: int) -> (w: int)
    requires
        0 <= i <= entries.len(),
        modules_of_entries(entries, i) is Err,
        modules_of_entries(entries, i)->Err_0 is MissingRequiredField,
    ensures
        0 <= w < entries.len(),
        0 <= w < i,
        module_of_entry(entries[w].0, entries[w].1) is Err,
        module_of_entry(entries[w].0, entries[w].1)->Err_0 == modules_of_entries(
            entries,
            i,
        )->Err_0,
    decreases i,
{
    if modules_of_entries(entries, i - 1) is Err {
        lemma_mrf_genuine_entries(entries, i - 1)
    } else {
        i - 1
    }
}

proof fn lemma_mrf_genuine_files(vs: Seq<ValueModel>, i: int) -> (w: (int, int))
    requires
        0 <= i <= vs.len(),
        modules_of(vs, i) is Err,
        modules_of(vs, i)->Err_0 is MissingRequiredField,
    ensures
        entry_missing(
            vs,
            w.0,
            w.1,
            modules_of(vs, i)->Err_0->MissingRequiredField_module,
            modules_of(vs, i)->Err_0->MissingRequiredField_field,
        ),
    decreases i,
{
    if modules_of(vs, i - 1) is Err {
        lemma_mrf_genuine_files(vs, i - 1)
    } else {
        let entries = value_get(vs[i - 1], "module"@)->Some_0->Obj_0;
        let e = lemma_mrf_genuine_entries(entries, entries.len() as int);
        assert(entry_missing(
            vs,
            i - 1,
            e,
            modules_of(vs, i)->Err_0->MissingRequiredField_module,
            modules_of(vs, i)->Err_0->MissingRequiredField_field,
        ));
        (i - 1, e)
    }
}

/// When extraction fails with a missing required field, the error names
/// a module of the file set that really lacks that field.
pub proof fn lemma_missing_field_named(vs: Seq<ValueModel>)
    requires
        modules_of(vs, vs.len() as int) is Err,
        modules_of(vs, vs.len() as int)->Err_0 is MissingRequiredField,
    ensures
        names_missing_field(
            vs,
            modules_of(vs, vs.len() as int)->Err_0->MissingRequiredField_module,
            modules_of(vs, vs.len() as int)->Err_0->MissingRequiredField_field,
        ),
{
    let w = lemma_mrf_genuine_files(vs, vs.len() as int);
}

pub proof fn lemma_find_lambda_props(ls: Seq<LambdaModel>, name: Seq<char>, i: int)
    requires
        0 <= i,
    ensures
        match find_lambda_from(ls, name, i) {
            Some(l) => l.name == name && exists|idx: int|
                #![trigger ls[idx]]
                i <= idx < ls.len() && ls[idx] == l,
            None => forall|idx: int|
                #![trigger ls[idx]]
                i <= idx < ls.len() ==> ls[idx].name != name,
        },
    decreases ls.len() - i,
{
    if 0 <= i < ls.len() {
        if ls[i].name == name {
            assert(ls[i] == find_lambda_from(ls, name, i)->Some_0);
        } else {
            lemma_find_lambda_props(ls, name, i + 1);
        }
    }
}

/// The linker's law: a value that names a lambda module links to the
/// first lambda of the quoted name when one exists, and to nothing when
/// none does — an absent lambda is no error.
pub proof fn lemma_template_link(value: Seq<char>, ls: Seq<LambdaModel>)
    requires
        crate::chars::has_sub(value, "module.lambda"@),
        crate::chars::split_ch(value, '"').len() >= 2,
    ensures
        ({
            let n = crate::chars::split_ch(value, '"')[1];
            match link_of(value, ls) {
                Ok(Some(l)) => l.name == n && exists|idx: int|
                    #![trigger ls[idx]]
                    0 <= idx < ls.len() && ls[idx] == l,
                Ok(None) => forall|idx: int|
                    #![trigger ls[idx]]
                    0 <= idx < ls.len() ==> ls[idx].name != n,
                Err(_) => false,
            }
        }),
{
    let n = crate::chars::split_ch(value, '"')[1];
    lemma_find_lambda_props(ls, n, 0);
}

} // verus!
