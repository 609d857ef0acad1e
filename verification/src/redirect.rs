//! Following a shortlink: resolving the requested path and answering with a
//! redirect, with a link's metadata, or with an error notice.

use vstd::prelude::*;
use vstd::string::*;

use crate::state::store::{longurl_table, LinkStore};
use crate::state::{Link, LinkModel, State};
use crate::util::flash::Alert;
use crate::util::text::{concat, concat3};

verus! {

/// What the resolver made of a requested path.
#[derive(Debug)]
pub enum Resolution {
    /// A request, ending in `+`, for the metadata of this shortlink.
    Metadata(String),
    /// A request to go to `url`, found under `shortlink`.
    Redirect { url: String, shortlink: String },
}

/// Why the resolver could not resolve a requested path.
#[derive(Debug)]
pub enum ResolveError {
    InvalidInput,
    NotFound(String),
    TemplateError(String),
}

/// A resolver's outcome, with its strings as sequences of characters.
pub enum ResolutionModel {
    Metadata(Seq<char>),
    Redirect(Seq<char>, Seq<char>),
    InvalidInput,
    NotFound(Seq<char>),
    TemplateError(Seq<char>),
}

pub open spec fn resolution_model(r: Result<Resolution, ResolveError>) -> ResolutionModel {
    match r {
        Ok(Resolution::Metadata(s)) => ResolutionModel::Metadata(s@),
        Ok(Resolution::Redirect { url, shortlink }) => ResolutionModel::Redirect(url@, shortlink@),
        Err(ResolveError::InvalidInput) => ResolutionModel::InvalidInput,
        Err(ResolveError::NotFound(s)) => ResolutionModel::NotFound(s@),
        Err(ResolveError::TemplateError(s)) => ResolutionModel::TemplateError(s@),
    }
}

/// What `golink::resolve` answers for a requested path when each shortname
/// expands as `table` says.
pub uninterp spec fn golink_resolution(input: Seq<char>, table: Map<Seq<char>, Seq<char>>) -> ResolutionModel;

/// Calls `golink::resolve` with a lookup that reads the store. Its answer
/// depends on the path and on what the lookup returns, so on the store's
/// table of long URLs. As its source shows, a redirect names a shortlink for
/// which the lookup found a URL, and "not found" names one for which it found
/// none.
#[verifier::external_body]
fn golink_resolve(input: &str, links: &LinkStore) -> (r: Result<Resolution, ResolveError>)
    ensures
        resolution_model(r) == golink_resolution(input@, longurl_table(links@)),
        r matches Ok(Resolution::Redirect { shortlink, .. }) ==> links@.contains_key(shortlink@),
        r matches Err(ResolveError::NotFound(s)) ==> !links@.contains_key(s@),
{
    match golink::resolve(input, |key: &str| links.lookup_longurl(key)) {
        Ok(golink::GolinkResolution::MetadataRequest(s)) => Ok(Resolution::Metadata(s)),
        Ok(golink::GolinkResolution::RedirectRequest { url, shortlink }) => Ok(
            Resolution::Redirect { url, shortlink },
        ),
        Err(golink::GolinkError::InvalidInput) => Err(ResolveError::InvalidInput),
        Err(golink::GolinkError::NotFound(s)) => Err(ResolveError::NotFound(s)),
        Err(golink::GolinkError::TemplateError(s)) => Err(ResolveError::TemplateError(s)),
    }
}

/// The text that the resolver's error displays.
pub open spec fn resolve_error_text(e: ResolutionModel) -> Seq<char> {
    match e {
        ResolutionModel::InvalidInput => "Invalid input"@,
        ResolutionModel::NotFound(s) => "Shortlink '"@ + s + "' not found"@,
        ResolutionModel::TemplateError(s) => "Template error: "@ + s,
        _ => Seq::empty(),
    }
}

impl ResolveError {
    /// The text this error displays.
    pub fn to_string(&self) -> (r: String)
        ensures
            r@ == resolve_error_text(resolution_model(Err(*self))),
    {
        match self {
            ResolveError::InvalidInput => String::from_str("Invalid input"),
            ResolveError::NotFound(s) => concat3("Shortlink '", s.as_str(), "' not found"),
            ResolveError::TemplateError(s) => concat("Template error: ", s.as_str()),
        }
    }
}

/// How the service answers a request for a shortlink.
#[derive(Debug)]
pub enum RedirectResponse {
    /// A temporary redirect to this URL.
    Redirect(String),
    /// The metadata of this link, as JSON.
    Metadata(Link),
    /// This notice is flashed and the browser is sent to the front page.
    Failed(Alert),
}

/// The links once a visit of `shortname` is counted.
pub open spec fn clicked(links: Map<Seq<char>, LinkModel>, shortname: Seq<char>) -> Map<Seq<char>, LinkModel> {
    if links.contains_key(shortname) {
        links.insert(
            shortname,
            LinkModel { clicks: (links[shortname].clicks + 1) as usize, ..links[shortname] },
        )
    } else {
        links
    }
}

/// The service can answer the resolver's outcome: metadata is asked of a
/// stored link, and a visit does not overflow the link's count.
pub open spec fn resolution_applicable(links: Map<Seq<char>, LinkModel>, r: ResolutionModel) -> bool {
    match r {
        ResolutionModel::Metadata(s) => links.contains_key(s),
        ResolutionModel::Redirect(_, s) => links.contains_key(s) ==> links[s].clicks < usize::MAX,
        _ => true,
    }
}

/// The answer `response` and the links `after` are those owed to the
/// resolver's outcome `r` when the links were `before`.
pub open spec fn answers(
    before: Map<Seq<char>, LinkModel>,
    r: ResolutionModel,
    after: Map<Seq<char>, LinkModel>,
    response: RedirectResponse,
) -> bool {
    match r {
        ResolutionModel::Redirect(url, s) => after == clicked(before, s) && (response matches RedirectResponse::Redirect(u) && u@ == url),
        ResolutionModel::Metadata(s) => after == before && (response matches RedirectResponse::Metadata(l) && l@ == before[s]),
        _ => after == before && (response matches RedirectResponse::Failed(Alert::Error(m)) && m@ == resolve_error_text(r)),
    }
}

impl State {
    /// Answers the resolver's outcome: a redirect counts a visit of the link,
    /// a metadata request shows the link, an error is flashed.
    pub fn apply_resolution(&mut self, resolution: Result<Resolution, ResolveError>) -> (r: RedirectResponse)
        requires
            resolution_applicable(old(self).links_view(), resolution_model(resolution)),
        ensures
            final(self).password_hash_view() == old(self).password_hash_view(),
            answers(old(self).links_view(), resolution_model(resolution), final(self).links_view(), r),
    {
        match resolution {
            Ok(Resolution::Redirect { url, shortlink }) => {
                self.links.record_click(shortlink.as_str());
                RedirectResponse::Redirect(url)
            },
            Ok(Resolution::Metadata(shortname)) => {
                match self.links.get(shortname.as_str()) {
                    Some(link) => RedirectResponse::Metadata(link.clone()),
                    None => {
                        proof {
                            assert(false);
                        }
                        RedirectResponse::Failed(Alert::Error(String::new()))
                    },
                }
            },
            Err(e) => RedirectResponse::Failed(Alert::Error(e.to_string())),
        }
    }

    /// Answers a request for the path `uri`. `None` stands for a request the
    /// service cannot answer: metadata asked of a link it does not hold, or a
    /// visit that would overflow a link's count; the state is then unchanged.
    pub fn redirect(&mut self, uri: &str) -> (r: Option<RedirectResponse>)
        ensures
            final(self).password_hash_view() == old(self).password_hash_view(),
            r is None <==> !resolution_applicable(
                old(self).links_view(),
                golink_resolution(uri@, longurl_table(old(self).links_view())),
            ),
            r is None ==> final(self).links_view() == old(self).links_view(),
            request_step(old(self).links_view(), final(self).links_view()),
            r matches Some(response) ==> answers(
                old(self).links_view(),
                golink_resolution(uri@, longurl_table(old(self).links_view())),
                final(self).links_view(),
                response,
            ),
    {
        let resolution = golink_resolve(uri, &self.links);
        let applicable = match &resolution {
            Ok(Resolution::Metadata(s)) => self.links.get(s.as_str()).is_some(),
            Ok(Resolution::Redirect { shortlink, .. }) => match self.links.get(shortlink.as_str()) {
                Some(link) => link.clicks < usize::MAX,
                None => true,
            },
            Err(_) => true,
        };
        if applicable {
            Some(self.apply_resolution(resolution))
        } else {
            None
        }
    }
}


/// Following a stored link counts exactly one visit of it: its count goes up
/// by one, the rest of it stays, and every other link is untouched.
pub proof fn law_visit_counts_once(links: Map<Seq<char>, LinkModel>, shortname: Seq<char>, other: Seq<char>)
    requires
        links.contains_key(shortname),
        links[shortname].clicks < usize::MAX,
    ensures
        clicked(links, shortname).contains_key(shortname),
        clicked(links, shortname)[shortname].clicks == links[shortname].clicks + 1,
        clicked(links, shortname)[shortname].shortname == links[shortname].shortname,
        clicked(links, shortname)[shortname].longurl == links[shortname].longurl,
        clicked(links, shortname)[shortname].created_at == links[shortname].created_at,
        other != shortname ==> clicked(links, shortname).contains_key(other) == links.contains_key(other),
        other != shortname && links.contains_key(other) ==> clicked(links, shortname)[other] == links[other],
{
}

/// A path that names no stored link is answered with an error and changes nothing.
pub proof fn law_unknown_link_changes_nothing(links: Map<Seq<char>, LinkModel>, r: ResolutionModel, after: Map<Seq<char>, LinkModel>, response: RedirectResponse)
    requires
        r matches ResolutionModel::NotFound(_),
        answers(links, r, after, response),
    ensures
        after == links,
        response matches RedirectResponse::Failed(Alert::Error(_)),
{
}


/// The total of the visit counts of the links filed under `keys`.
pub open spec fn clicks_in(links: Map<Seq<char>, LinkModel>, keys: Set<Seq<char>>) -> int
    decreases keys.len(),
    when keys.finite()
{
    if keys.len() == 0 {
        0
    } else {
        let k = keys.choose();
        links[k].clicks + clicks_in(links, keys.remove(k))
    }
}

/// The total of the visit counts of all links.
pub open spec fn total_clicks(links: Map<Seq<char>, LinkModel>) -> int {
    clicks_in(links, links.dom())
}

proof fn lemma_clicks_agree(a: Map<Seq<char>, LinkModel>, b: Map<Seq<char>, LinkModel>, keys: Set<Seq<char>>)
    requires
        keys.finite(),
        forall|k: Seq<char>| #[trigger] keys.contains(k) ==> a[k].clicks == b[k].clicks,
    ensures
        clicks_in(a, keys) == clicks_in(b, keys),
    decreases keys.len(),
{
    if keys.len() != 0 {
        let k = keys.choose();
        lemma_clicks_agree(a, b, keys.remove(k));
    }
}

proof fn lemma_clicks_remove(links: Map<Seq<char>, LinkModel>, keys: Set<Seq<char>>, k0: Seq<char>)
    requires
        keys.finite(),
        keys.contains(k0),
    ensures
        clicks_in(links, keys) == links[k0].clicks + clicks_in(links, keys.remove(k0)),
    decreases keys.len(),
{
    let k = keys.choose();
    if k != k0 {
        lemma_clicks_remove(links, keys.remove(k), k0);
        lemma_clicks_remove(links, keys.remove(k0), k);
        assert(keys.remove(k).remove(k0) =~= keys.remove(k0).remove(k));
    }
}

/// A visit of a stored link adds one to the total of the counts.
proof fn lemma_clicked_total(links: Map<Seq<char>, LinkModel>, shortname: Seq<char>)
    requires
        links.dom().finite(),
        links.contains_key(shortname),
        links[shortname].clicks < usize::MAX,
    ensures
        clicked(links, shortname).dom() == links.dom(),
        total_clicks(clicked(links, shortname)) == total_clicks(links) + 1,
{
    let after = clicked(links, shortname);
    assert(after.dom() =~= links.dom());
    lemma_clicks_remove(links, links.dom(), shortname);
    lemma_clicks_remove(after, links.dom(), shortname);
    lemma_clicks_agree(links, after, links.dom().remove(shortname));
    assert(after[shortname].clicks == links[shortname].clicks + 1);
    assert(total_clicks(after) == clicks_in(after, links.dom()));
}

/// One answered request for a shortlink keeps the set of links, lowers no
/// count, and adds at most one to the total of the counts.
pub proof fn law_request_counts_at_most_one(
    before: Map<Seq<char>, LinkModel>,
    r: ResolutionModel,
    after: Map<Seq<char>, LinkModel>,
    response: RedirectResponse,
)
    requires
        before.dom().finite(),
        resolution_applicable(before, r),
        answers(before, r, after, response),
    ensures
        after.dom() == before.dom(),
        forall|k: Seq<char>| #[trigger] before.contains_key(k) ==> before[k].clicks <= after[k].clicks,
        total_clicks(before) <= total_clicks(after) <= total_clicks(before) + 1,
{
    if let ResolutionModel::Redirect(_, s) = r {
        if before.contains_key(s) {
            lemma_clicked_total(before, s);
            assert forall|k: Seq<char>| #[trigger] before.contains_key(k) implies before[k].clicks
                <= after[k].clicks by {
                if k != s {
                    assert(after[k] == before[k]);
                }
            }
        }
    }
}

/// The links before and after one request for a shortlink: unchanged, or
/// changed as the answer to the resolver's outcome owes.
pub open spec fn request_step(before: Map<Seq<char>, LinkModel>, after: Map<Seq<char>, LinkModel>) -> bool {
    after == before || exists|r: ResolutionModel, response: RedirectResponse|
        resolution_applicable(before, r) && answers(before, r, after, response)
}

/// Over any run of requests for shortlinks, the links stay the same, no
/// count goes down, and the total of the counts grows by at most one per
/// request.
pub proof fn law_requests_count_at_most_one_each(states: Seq<Map<Seq<char>, LinkModel>>)
    requires
        states.len() >= 1,
        states[0].dom().finite(),
        forall|i: int| 0 <= i < states.len() - 1 ==> #[trigger] request_step(states[i], states[i + 1]),
    ensures
        states.last().dom() == states[0].dom(),
        forall|k: Seq<char>| #[trigger] states[0].contains_key(k) ==> states[0][k].clicks <= states.last()[k].clicks,
        total_clicks(states[0]) <= total_clicks(states.last()) <= total_clicks(states[0]) + states.len() - 1,
    decreases states.len(),
{
    if states.len() > 1 {
        let front = states.drop_last();
        assert forall|i: int| 0 <= i < front.len() - 1 implies #[trigger] request_step(front[i], front[i + 1]) by {
            assert(request_step(states[i], states[i + 1]));
        }
        law_requests_count_at_most_one_each(front);
        let n = states.len() - 1;
        let before = states[n - 1];
        let after = states[n];
        assert(front.last() == before);
        let i = n - 1;
        assert(request_step(states[i], states[i + 1]));
        if after != before {
            let (r, response) = choose|r: ResolutionModel, response: RedirectResponse|
                resolution_applicable(before, r) && answers(before, r, after, response);
            law_request_counts_at_most_one(before, r, after, response);
        }
    }
}

} // verus!
