//! The template-variable linker.
//!
//! An api-config body holds literal template text between the first two
//! quotes, followed by a comma-separated tail of `name=value`
//! interpolation assignments wrapped in delimiter tokens. The linker
//! separates the two, parses the assignments, and links each value that
//! names a lambda module to the lambda it names, when one exists.

use vstd::prelude::*;

use crate::chars;
use crate::model::{ErrorModel, ExtractError, Lambda, LambdaModel, TemplateVariable,
    TemplateVariableModel};

verus! {

/// The literal text between the first two quotes, and the tail after
/// the second quote; nothing with fewer than two quotes.
pub open spec fn body_parts(body: Seq<char>) -> Option<(Seq<char>, Seq<char>)> {
    match chars::find_ch(body, '"') {
        Some(i) => {
            let rest = body.subrange(i + 1, body.len() as int);
            match chars::find_ch(rest, '"') {
                Some(j) => Some((rest.subrange(0, j), rest.subrange(j + 1, rest.len() as int))),
                None => None,
            }
        },
        None => None,
    }
}

/// The assignment tail with its wrapper tokens stripped: the first
/// comma, every `)}`, and every brace.
pub open spec fn assignments_text(tail: Seq<char>) -> Seq<char> {
    let t1 = chars::remove_first_ch(tail, ',');
    let t2 = chars::remove_all_sub(t1, ")}"@);
    let t3 = chars::remove_ch(t2, '{');
    chars::remove_ch(t3, '}')
}

/// The first lambda named `name`, at or after `i`.
pub open spec fn find_lambda_from(ls: Seq<LambdaModel>, name: Seq<char>, i: int) -> Option<
    LambdaModel,
>
    decreases ls.len() - i,
{
    if !(0 <= i < ls.len()) {
        None
    } else if ls[i].name == name {
        Some(ls[i])
    } else {
        find_lambda_from(ls, name, i + 1)
    }
}

/// The lambda linked to one assignment value: when the value names a
/// lambda module, the quoted name is looked up; an absent lambda is no
/// error, the link stays empty.
pub open spec fn link_of(value: Seq<char>, ls: Seq<LambdaModel>) -> Result<
    Option<LambdaModel>,
    ErrorModel,
> {
    if chars::has_sub(value, "module.lambda"@) {
        let qs = chars::split_ch(value, '"');
        if qs.len() < 2 {
            Err(ErrorModel::MalformedSource)
        } else {
            Ok(find_lambda_from(ls, qs[1], 0))
        }
    } else {
        Ok(None)
    }
}

/// One `name=value` assignment, trimmed, with its link.
pub open spec fn tv_of(part: Seq<char>, ls: Seq<LambdaModel>) -> Result<
    TemplateVariableModel,
    ErrorModel,
> {
    let ps = chars::split_ch(part, '=');
    if ps.len() < 2 {
        Err(ErrorModel::MalformedSource)
    } else {
        match link_of(chars::trimmed(ps[1]), ls) {
            Err(e) => Err(e),
            Ok(l) => Ok(
                TemplateVariableModel {
                    name: chars::trimmed(ps[0]),
                    value: chars::trimmed(ps[1]),
                    lambda: l,
                },
            ),
        }
    }
}

/// The first `i` assignments of the tail.
pub open spec fn tvs_of(parts: Seq<Seq<char>>, ls: Seq<LambdaModel>, i: int) -> Result<
    Seq<TemplateVariableModel>,
    ErrorModel,
>
    decreases i,
{
    if i <= 0 {
        Ok(Seq::empty())
    } else {
        match tvs_of(parts, ls, i - 1) {
            Err(e) => Err(e),
            Ok(acc) => match tv_of(parts[i - 1], ls) {
                Err(e) => Err(e),
                Ok(tv) => Ok(acc.push(tv)),
            },
        }
    }
}

pub proof fn lemma_tvs_of_err(parts: Seq<Seq<char>>, ls: Seq<LambdaModel>, i: int, j: int)
    requires
        0 <= i <= j,
        tvs_of(parts, ls, i) is Err,
    ensures
        tvs_of(parts, ls, j) == tvs_of(parts, ls, i),
    decreases j - i,
{
    if i < j {
        lemma_tvs_of_err(parts, ls, i, j - 1);
    }
}

/// What the linker makes of a body: the literal template text and the
/// parsed, linked assignments.
pub open spec fn template_of(body: Seq<char>, ls: Seq<LambdaModel>) -> Result<
    (Seq<char>, Seq<TemplateVariableModel>),
    ErrorModel,
> {
    match body_parts(body) {
        None => Err(ErrorModel::MalformedSource),
        Some(bp) => {
            let parts = chars::split_ch(assignments_text(bp.1), ',');
            match tvs_of(parts, ls, parts.len() as int) {
                Err(e) => Err(e),
                Ok(tvs) => Ok((bp.0, tvs)),
            }
        },
    }
}

/// The first lambda of the given name, copied.
#[verifier::loop_isolation(false)]
fn find_lambda(ls: &Vec<Lambda>, name: &Vec<char>) -> (r: Option<Lambda>)
    ensures
        match r {
            Some(l) => find_lambda_from(crate::extract::seq_views(ls@), name@, 0) == Some(l@),
            None => find_lambda_from(crate::extract::seq_views(ls@), name@, 0) is None,
        },
{
    let ghost lsm = crate::extract::seq_views(ls@);
    let mut i: usize = 0;
    while i < ls.len()
        invariant
            i <= ls@.len(),
            find_lambda_from(lsm, name@, 0) == find_lambda_from(lsm, name@, i as int),
        decreases ls@.len() - i,
    {
        proof {
            assert(lsm[i as int] == ls@[i as int]@);
        }
        let nm = chars::to_chars(ls[i].name.as_str());
        if chars::chars_eq(&nm, name) {
            let c = crate::extract::copy_lambda(&ls[i]);
            return Some(c);
        }
        i = i + 1;
    }
    None
}

/// The link of one assignment value.
fn link_exec(value: &Vec<char>, ls: &Vec<Lambda>) -> (r: Result<Option<Lambda>, ExtractError>)
    ensures
        match r {
            Ok(Some(l)) => link_of(value@, crate::extract::seq_views(ls@)) == Ok::<
                _,
                ErrorModel,
            >(Some(l@)),
            Ok(None) => link_of(value@, crate::extract::seq_views(ls@)) == Ok::<
                Option<LambdaModel>,
                ErrorModel,
            >(None),
            Err(e) => link_of(value@, crate::extract::seq_views(ls@)) == Err::<
                Option<LambdaModel>,
                _,
            >(e@),
        },
{
    let marker = chars::to_chars("module.lambda");
    if chars::has_subseq(value, &marker) {
        let qs = chars::split_char(value, '"');
        if qs.len() < 2 {
            Err(ExtractError::MalformedSource)
        } else {
            match find_lambda(ls, &qs[1]) {
                Some(l) => Ok(Some(l)),
                None => Ok(None),
            }
        }
    } else {
        Ok(None)
    }
}

/// One assignment, parsed and linked.
fn tv_exec(part: &Vec<char>, ls: &Vec<Lambda>) -> (r: Result<TemplateVariable, ExtractError>)
    ensures
        match r {
            Ok(tv) => tv_of(part@, crate::extract::seq_views(ls@)) == Ok::<_, ErrorModel>(tv@),
            Err(e) => tv_of(part@, crate::extract::seq_views(ls@)) == Err::<
                TemplateVariableModel,
                _,
            >(e@),
        },
{
    let ps = chars::split_char(part, '=');
    if ps.len() < 2 {
        Err(ExtractError::MalformedSource)
    } else {
        let name = chars::trim_chars(&ps[0]);
        let value = chars::trim_chars(&ps[1]);
        match link_exec(&value, ls) {
            Ok(link) => {
                let tv = TemplateVariable {
                    name: chars::chars_to_string(&name),
                    value: chars::chars_to_string(&value),
                    lambda: link,
                };
                Ok(tv)
            },
            Err(e) => Err(e),
        }
    }
}

/// The linker: the literal template text and the parsed assignments of
/// one body, against the already-extracted lambdas.
#[verifier::loop_isolation(false)]
pub fn link_template(body: &str, ls: &Vec<Lambda>) -> (r: Result<
    (String, Vec<TemplateVariable>),
    ExtractError,
>)
    ensures
        match r {
            Ok(p) => template_of(body@, crate::extract::seq_views(ls@)) == Ok::<
                _,
                ErrorModel,
            >((p.0@, crate::extract::seq_views(p.1@))),
            Err(e) => template_of(body@, crate::extract::seq_views(ls@)) == Err::<
                (Seq<char>, Seq<TemplateVariableModel>),
                _,
            >(e@),
        },
{
    let ghost lsm = crate::extract::seq_views(ls@);
    let bc = chars::to_chars(body);
    let bl = bc.len();
    let first = match chars::find_char(&bc, '"') {
        Some(i) => i,
        None => {
            return Err(ExtractError::MalformedSource);
        },
    };
    let rest = chars::sub_chars(&bc, first + 1, bl);
    let rl = rest.len();
    let second = match chars::find_char(&rest, '"') {
        Some(j) => j,
        None => {
            return Err(ExtractError::MalformedSource);
        },
    };
    let template_file = chars::sub_chars(&rest, 0, second);
    let tail = chars::sub_chars(&rest, second + 1, rl);
    let t1 = chars::remove_first_char(&tail, ',');
    let t2 = chars::remove_all_subseq(&t1, &chars::to_chars(")}"));
    let t3 = chars::remove_char(&t2, '{');
    let t4 = chars::remove_char(&t3, '}');
    let parts = chars::split_char(&t4, ',');
    let ghost pm = chars::split_ch(t4@, ',');
    let mut tvs: Vec<TemplateVariable> = Vec::new();
    proof {
        assert(crate::extract::seq_views(tvs@) =~= Seq::<TemplateVariableModel>::empty());
    }
    let mut k: usize = 0;
    while k < parts.len()
        invariant
            k <= parts@.len(),
            parts@.len() == pm.len(),
            forall|j: int| 0 <= j < pm.len() ==> #[trigger] parts@[j]@ == pm[j],
            tvs_of(pm, lsm, k as int) == Ok::<_, ErrorModel>(crate::extract::seq_views(tvs@)),
        decreases parts@.len() - k,
    {
        match tv_exec(&parts[k], ls) {
            Ok(tv) => {
                let ghost old_tvs = tvs@;
                tvs.push(tv);
                proof {
                    assert(crate::extract::seq_views(tvs@) =~= crate::extract::seq_views(
                        old_tvs,
                    ).push(tv@));
                }
            },
            Err(e) => {
                proof {
                    lemma_tvs_of_err(pm, lsm, k + 1, pm.len() as int);
                }
                return Err(e);
            },
        }
        k = k + 1;
    }
    Ok((chars::chars_to_string(&template_file), tvs))
}

} // verus!
