//! Inference of an HTTP method and path from a cloud integration string.
//!
//! A permission's source string may reference the REST API execution
//! identifier followed by a stage/method/path pattern. The rules, in
//! strict priority order: a fully wildcarded `/*/*/*` pattern is
//! rejected; one wildcard marks the method position; the adjacent
//! `/*/*` pattern wildcards stage and method (the method becomes the
//! sentinel `any`); otherwise an explicit verb is looked for, in the
//! order GET, POST, PUT, DELETE, PATCH. Anything else is refused.

use vstd::prelude::*;

use crate::chars;
use crate::model::{method_name, ErrorModel, ExtractError, HttpMethod};

verus! {

/// Rule: a single `*` marks the method position; after it come
/// `/method/path`, and the path gets back its leading slash.
pub open spec fn route_single_star(s: Seq<char>) -> Result<(Seq<char>, Seq<char>), ErrorModel> {
    match chars::find_ch(s, '*') {
        Some(i) => {
            let r = s.subrange(i + 1, s.len() as int);
            if r.len() >= 1 && r[0] == '/' {
                let t = r.subrange(1, r.len() as int);
                match chars::find_ch(t, '/') {
                    Some(j) => Ok(
                        (t.subrange(0, j), seq!['/'] + t.subrange(j + 1, t.len() as int)),
                    ),
                    None => Err(ErrorModel::UnrecognizedRouteShape),
                }
            } else {
                Err(ErrorModel::UnrecognizedRouteShape)
            }
        },
        None => Err(ErrorModel::UnrecognizedRouteShape),
    }
}

/// Rule: `/*/*` wildcards both the stage and the method; the method is
/// the sentinel `any` and the path comes from the trailing segment.
pub open spec fn route_double_star(s: Seq<char>) -> Result<(Seq<char>, Seq<char>), ErrorModel> {
    match chars::find_sub(s, "/*/*"@) {
        Some(i) => {
            let tail = s.subrange(i + 4, s.len() as int);
            Ok(("any"@, seq!['/'] + chars::remove_first_ch(tail, '/')))
        },
        None => Err(ErrorModel::UnrecognizedRouteShape),
    }
}

/// An explicit verb inside `line`: the verb's name, and `line` with
/// every `/VERB` occurrence removed as the path.
pub open spec fn verb_route(line: Seq<char>, m: HttpMethod) -> Option<(Seq<char>, Seq<char>)> {
    if chars::has_sub(line, method_name(m)) {
        Some((method_name(m), chars::remove_all_sub(line, seq!['/'] + method_name(m))))
    } else {
        None
    }
}

/// The explicit verbs, tried in fixed priority order.
pub open spec fn scan_verbs(line: Seq<char>) -> Result<(Seq<char>, Seq<char>), ErrorModel> {
    if verb_route(line, HttpMethod::Get) is Some {
        Ok(verb_route(line, HttpMethod::Get)->Some_0)
    } else if verb_route(line, HttpMethod::Post) is Some {
        Ok(verb_route(line, HttpMethod::Post)->Some_0)
    } else if verb_route(line, HttpMethod::Put) is Some {
        Ok(verb_route(line, HttpMethod::Put)->Some_0)
    } else if verb_route(line, HttpMethod::Delete) is Some {
        Ok(verb_route(line, HttpMethod::Delete)->Some_0)
    } else if verb_route(line, HttpMethod::Patch) is Some {
        Ok(verb_route(line, HttpMethod::Patch)->Some_0)
    } else {
        Err(ErrorModel::UnrecognizedRouteShape)
    }
}

/// Rule: with no wildcard, the text between the first closing brace and
/// the next (or the end), trimmed, is scanned for an explicit verb.
pub open spec fn route_verb_scan(s: Seq<char>) -> Result<(Seq<char>, Seq<char>), ErrorModel> {
    match chars::find_ch(s, '}') {
        Some(k) => {
            let rest = s.subrange(k + 1, s.len() as int);
            let line_raw = match chars::find_ch(rest, '}') {
                Some(m) => rest.subrange(0, m),
                None => rest,
            };
            scan_verbs(chars::trimmed(line_raw))
        },
        None => Err(ErrorModel::UnrecognizedRouteShape),
    }
}

/// The method/path pair inferred from an integration string, or the
/// error that rejects it. Quote characters are ignored throughout.
pub open spec fn route_of(arn: Seq<char>) -> Result<(Seq<char>, Seq<char>), ErrorModel> {
    let s = chars::remove_ch(arn, '"');
    if chars::has_sub(s, "/*/*/*"@) {
        Err(ErrorModel::UnsupportedRoutePattern)
    } else if chars::count_ch(s, '*') == 1 {
        route_single_star(s)
    } else if chars::count_ch(s, '*') == 2 && chars::has_sub(s, "/*/*"@) {
        route_double_star(s)
    } else {
        route_verb_scan(s)
    }
}

fn verb_route_chars(line: &Vec<char>, m: HttpMethod) -> (r: Option<(Vec<char>, Vec<char>)>)
    ensures
        match r {
            Some(p) => verb_route(line@, m) == Some((p.0@, p.1@)),
            None => verb_route(line@, m) is None,
        },
{
    let name = chars::to_chars(m.name());
    if chars::has_subseq(line, &name) {
        let mut slash: Vec<char> = Vec::new();
        slash.push('/');
        let pat = chars::concat_chars(&slash, &name);
        proof {
            assert(pat@ =~= seq!['/'] + method_name(m));
        }
        let path = chars::remove_all_subseq(line, &pat);
        Some((name, path))
    } else {
        None
    }
}

/// The same verb scan, on a plain string: the verb's name and the path,
/// or nothing when the verb does not occur in `line`.
pub fn extract_api_and_method(line: &str, method: HttpMethod) -> (r: Option<(String, String)>)
    ensures
        match r {
            Some(p) => verb_route(line@, method) == Some((p.0@, p.1@)),
            None => verb_route(line@, method) is None,
        },
{
    let lc = chars::to_chars(line);
    match verb_route_chars(&lc, method) {
        Some(p) => Some((chars::chars_to_string(&p.0), chars::chars_to_string(&p.1))),
        None => None,
    }
}

/// Decomposes an integration string into its `[method, path]` pair,
/// following the inference rules of `route_of` exactly.
pub fn handle_api_gateway_lambda(source_arn: String) -> (r: Result<Vec<String>, ExtractError>)
    ensures
        match r {
            Ok(v) => {
                &&& route_of(source_arn@) is Ok
                &&& v@.len() == 2
                &&& v@[0]@ == route_of(source_arn@)->Ok_0.0
                &&& v@[1]@ == route_of(source_arn@)->Ok_0.1
            },
            Err(e) => route_of(source_arn@) is Err && e@ == route_of(source_arn@)->Err_0,
        },
{
    let arn = chars::to_chars(source_arn.as_str());
    let s = chars::remove_char(&arn, '"');
    let triple = chars::to_chars("/*/*/*");
    if chars::has_subseq(&s, &triple) {
        return Err(ExtractError::UnsupportedRoutePattern);
    }
    let stars = chars::count_char(&s, '*');
    let sl = s.len();
    if stars == 1 {
        match chars::find_char(&s, '*') {
            Some(i) => {
                let rv = chars::sub_chars(&s, i + 1, sl);
                if rv.len() >= 1 && rv[0] == '/' {
                    let rl = rv.len();
                    let t = chars::sub_chars(&rv, 1, rl);
                    match chars::find_char(&t, '/') {
                        Some(j) => {
                            let tl = t.len();
                            let method = chars::sub_chars(&t, 0, j);
                            let rest = chars::sub_chars(&t, j + 1, tl);
                            let mut slash: Vec<char> = Vec::new();
                            slash.push('/');
                            let path = chars::concat_chars(&slash, &rest);
                            proof {
                                assert(slash@ =~= seq!['/']);
                            }
                            let mut out: Vec<String> = Vec::new();
                            out.push(chars::chars_to_string(&method));
                            out.push(chars::chars_to_string(&path));
                            Ok(out)
                        },
                        None => Err(ExtractError::UnrecognizedRouteShape),
                    }
                } else {
                    Err(ExtractError::UnrecognizedRouteShape)
                }
            },
            None => Err(ExtractError::UnrecognizedRouteShape),
        }
    } else if stars == 2 {
        let pair = chars::to_chars("/*/*");
        match chars::find_subseq(&s, &pair) {
            Some(i) => {
                proof {
                    reveal_strlit("/*/*");
                    assert(i + 4 <= s@.len());
                }
                let tail = chars::sub_chars(&s, i + 4, sl);
                let stripped = chars::remove_first_char(&tail, '/');
                let mut slash: Vec<char> = Vec::new();
                slash.push('/');
                let path = chars::concat_chars(&slash, &stripped);
                proof {
                    assert(slash@ =~= seq!['/']);
                }
                let mut out: Vec<String> = Vec::new();
                out.push(chars::chars_to_string(&chars::to_chars("any")));
                out.push(chars::chars_to_string(&path));
                Ok(out)
            },
            None => scan_route_tail(&s),
        }
    } else {
        scan_route_tail(&s)
    }
}

/// The verb-scan rule, applied to the already quote-stripped string.
fn scan_route_tail(s: &Vec<char>) -> (r: Result<Vec<String>, ExtractError>)
    ensures
        match r {
            Ok(v) => {
                &&& route_verb_scan(s@) is Ok
                &&& v@.len() == 2
                &&& v@[0]@ == route_verb_scan(s@)->Ok_0.0
                &&& v@[1]@ == route_verb_scan(s@)->Ok_0.1
            },
            Err(e) => route_verb_scan(s@) is Err && e@ == route_verb_scan(s@)->Err_0,
        },
{
    let sl = s.len();
    match chars::find_char(s, '}') {
        Some(k) => {
            let rest = chars::sub_chars(s, k + 1, sl);
            let rest_len = rest.len();
            let line_raw = match chars::find_char(&rest, '}') {
                Some(m) => chars::sub_chars(&rest, 0, m),
                None => rest,
            };
            let line = chars::trim_chars(&line_raw);
            match verb_route_chars(&line, HttpMethod::Get) {
                Some(p) => {
                    let mut out: Vec<String> = Vec::new();
                    out.push(chars::chars_to_string(&p.0));
                    out.push(chars::chars_to_string(&p.1));
                    return Ok(out);
                },
                None => {},
            }
            match verb_route_chars(&line, HttpMethod::Post) {
                Some(p) => {
                    let mut out: Vec<String> = Vec::new();
                    out.push(chars::chars_to_string(&p.0));
                    out.push(chars::chars_to_string(&p.1));
                    return Ok(out);
                },
                None => {},
            }
            match verb_route_chars(&line, HttpMethod::Put) {
                Some(p) => {
                    let mut out: Vec<String> = Vec::new();
                    out.push(chars::chars_to_string(&p.0));
                    out.push(chars::chars_to_string(&p.1));
                    return Ok(out);
                },
                None => {},
            }
            match verb_route_chars(&line, HttpMethod::Delete) {
                Some(p) => {
                    let mut out: Vec<String> = Vec::new();
                    out.push(chars::chars_to_string(&p.0));
                    out.push(chars::chars_to_string(&p.1));
                    return Ok(out);
                },
                None => {},
            }
            match verb_route_chars(&line, HttpMethod::Patch) {
                Some(p) => {
                    let mut out: Vec<String> = Vec::new();
                    out.push(chars::chars_to_string(&p.0));
                    out.push(chars::chars_to_string(&p.1));
                    return Ok(out);
                },
                None => {},
            }
            Err(ExtractError::UnrecognizedRouteShape)
        },
        None => Err(ExtractError::UnrecognizedRouteShape),
    }
}

} // verus!
