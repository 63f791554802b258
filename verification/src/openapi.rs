//! The API-document domain: routes, their operations, and the gateway
//! integration attached to an operation.
//!
//! Reading the document itself is an outside concern; these types hold
//! what the resolution contract reads, as plain values. The integration
//! URI's supplementary data — what triggers the integration, and the
//! identifier inside its braces — is derived here.

use vstd::prelude::*;

use crate::chars;

verus! {

/// The gateway integration of one operation.
#[derive(Debug, Clone, PartialEq)]
pub struct AmazonApigatewayIntegration {
    pub r_type: String,
    pub http_method: String,
    pub uri: String,
    pub pass_through_behavior: String,
    pub timeout_in_millis: Option<u64>,
    pub integration_trigger: String,
    pub arn: String,
}

pub struct AmazonApigatewayIntegrationModel {
    pub r_type: Seq<char>,
    pub http_method: Seq<char>,
    pub uri: Seq<char>,
    pub pass_through_behavior: Seq<char>,
    pub timeout_in_millis: Option<u64>,
    pub integration_trigger: Seq<char>,
    pub arn: Seq<char>,
}

impl View for AmazonApigatewayIntegration {
    type V = AmazonApigatewayIntegrationModel;

    open spec fn view(&self) -> AmazonApigatewayIntegrationModel {
        AmazonApigatewayIntegrationModel {
            r_type: self.r_type@,
            http_method: self.http_method@,
            uri: self.uri@,
            pass_through_behavior: self.pass_through_behavior@,
            timeout_in_millis: self.timeout_in_millis,
            integration_trigger: self.integration_trigger@,
            arn: self.arn@,
        }
    }
}

/// One operation of a route.
#[derive(Debug, Clone, PartialEq)]
pub struct Operator {
    pub method: String,
    pub summary: Option<String>,
    pub description: Option<String>,
    pub tags: Option<Vec<String>>,
    pub aws: Option<AmazonApigatewayIntegration>,
}

/// One route of the API document, with at most one operation per verb.
#[derive(Debug, Clone, PartialEq)]
pub struct Route {
    pub path: String,
    pub get: Option<Operator>,
    pub post: Option<Operator>,
    pub put: Option<Operator>,
    pub delete: Option<Operator>,
    pub patch: Option<Operator>,
    pub options: Option<Operator>,
}

/// The colon-separated service segment of the URI names what the
/// integration triggers.
pub open spec fn uri_service(uri: Seq<char>) -> Seq<char> {
    chars::split_ch(uri, ':')[4]
}

/// Whether the supplementary data of a URI can be derived: there are
/// at least five colon-separated segments, and a lambda URI carries a
/// braced identifier in its last segment.
pub open spec fn supplementary_ok(uri: Seq<char>) -> bool {
    let parts = chars::split_ch(uri, ':');
    &&& parts.len() >= 5
    &&& (parts[4] == "lambda"@ ==> {
        let last = parts[parts.len() - 1];
        match chars::find_ch(last, '{') {
            Some(i) => chars::find_ch(last.subrange(i + 1, last.len() as int), '}') is Some,
            None => false,
        }
    })
}

/// What triggers the integration: a lambda, a step function, or the
/// service segment itself.
pub open spec fn supp_trigger(uri: Seq<char>) -> Seq<char> {
    if uri_service(uri) == "lambda"@ {
        "Lambda"@
    } else if uri_service(uri) == "state"@ {
        "Step Function"@
    } else {
        uri_service(uri)
    }
}

/// The identifier between the braces of a lambda URI's last segment;
/// any other URI keeps the identifier it had.
pub open spec fn supp_arn(uri: Seq<char>, old_arn: Seq<char>) -> Seq<char> {
    let parts = chars::split_ch(uri, ':');
    if parts[4] == "lambda"@ {
        let last = parts[parts.len() - 1];
        match chars::find_ch(last, '{') {
            Some(i) => {
                let after = last.subrange(i + 1, last.len() as int);
                match chars::find_ch(after, '}') {
                    Some(j) => after.subrange(0, j),
                    None => old_arn,
                }
            },
            None => old_arn,
        }
    } else {
        old_arn
    }
}

impl AmazonApigatewayIntegration {
    /// Derives the trigger and braced identifier from the URI; every
    /// other field keeps its value.
    pub fn extract_supplementary_data(&mut self)
        requires
            supplementary_ok(old(self).uri@),
        ensures
            final(self).r_type == old(self).r_type,
            final(self).http_method == old(self).http_method,
            final(self).uri == old(self).uri,
            final(self).pass_through_behavior == old(self).pass_through_behavior,
            final(self).timeout_in_millis == old(self).timeout_in_millis,
            final(self).integration_trigger@ == supp_trigger(old(self).uri@),
            final(self).arn@ == supp_arn(old(self).uri@, old(self).arn@),
    {
        let uc = chars::to_chars(self.uri.as_str());
        let parts = chars::split_char(&uc, ':');
        let service = &parts[4];
        if chars::chars_eq(service, &chars::to_chars("lambda")) {
            let last = &parts[parts.len() - 1];
            let ll = last.len();
            match chars::find_char(last, '{') {
                Some(i) => {
                    let after = chars::sub_chars(last, i + 1, ll);
                    let al = after.len();
                    match chars::find_char(&after, '}') {
                        Some(j) => {
                            let ident = chars::sub_chars(&after, 0, j);
                            self.integration_trigger = chars::chars_to_string(
                                &chars::to_chars("Lambda"),
                            );
                            self.arn = chars::chars_to_string(&ident);
                        },
                        None => {
                            proof {
                                assert(false);
                            }
                        },
                    }
                },
                None => {
                    proof {
                        assert(false);
                    }
                },
            }
        } else if chars::chars_eq(service, &chars::to_chars("state")) {
            self.integration_trigger = chars::chars_to_string(&chars::to_chars("Step Function"));
        } else {
            self.integration_trigger = chars::chars_to_string(service);
        }
    }
}

} // verus!
