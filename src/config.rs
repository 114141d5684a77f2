//! The aggregation run: which endpoint to fetch next, what each response
//! becomes, and the output once every endpoint has answered.
//!
//! The run does no I/O. Its driver asks `Run::action` what to do, fetches
//! the URL it is given, hands the status and body to `Run::receive`, and
//! stops at the first error.

use vstd::prelude::*;

use crate::codec::{json_doc_of, json_valid, parse_json, render_yaml, yaml_of, ConfigError};
use crate::select::{select_endpoints, select_specs, Endpoint, Schema, ValidatedSpec};
use crate::transform::{fragment_of, transform};

verus! {

/// A 2xx status.
pub open spec fn success(status: u16) -> bool {
    200 <= status < 300
}

/// The rendered fragments, one after another, separated by a line break.
pub open spec fn joined(docs: Seq<Seq<char>>) -> Seq<char>
    decreases docs.len(),
{
    if docs.len() == 0 {
        seq![]
    } else if docs.len() == 1 {
        docs[0]
    } else {
        joined(docs.drop_last()) + seq!['\n'] + docs.last()
    }
}

pub open spec fn views(v: Seq<String>) -> Seq<Seq<char>> {
    v.map_values(|s: String| s@)
}

/// The document rendered for the endpoint `e` that answered with `body`.
pub open spec fn rendered_doc(e: (Seq<char>, Option<Schema>), body: Seq<char>) -> Seq<char> {
    yaml_of(fragment_of(e.1->Some_0, e.0, json_doc_of(body)))
}

/// The documents rendered for the first endpoints of `eps`, which answered
/// with `bodies`, one each and in order.
pub open spec fn rendered(eps: Seq<(Seq<char>, Option<Schema>)>, bodies: Seq<Seq<char>>) -> Seq<
    Seq<char>,
> {
    Seq::new(bodies.len(), |i: int| rendered_doc(eps[i], bodies[i]))
}

/// Whether `status` is a 2xx status.
pub fn is_success(status: u16) -> (r: bool)
    ensures
        r == success(status),
{
    200 <= status && status < 300
}

/// Joins the fragments, each followed by the next on a new line.
pub fn join_docs(docs: &Vec<String>) -> (r: String)
    ensures
        r@ == joined(views(docs@)),
{
    let mut out = String::new();
    let mut i: usize = 0;
    while i < docs.len()
        invariant
            i <= docs@.len(),
            out@ == joined(views(docs@.subrange(0, i as int))),
        decreases docs.len() - i,
    {
        let ghost before = out@;
        if i > 0 {
            out.append("\n");
        }
        out.append(docs[i].as_str());
        proof {
            reveal_strlit("\n");
            let s = views(docs@.subrange(0, i + 1));
            assert(s.drop_last() =~= views(docs@.subrange(0, i as int)));
            assert(s.last() == docs@[i as int]@);
            if i == 0 {
                assert(out@ =~= s[0]);
            } else {
                assert(out@ =~= before + seq!['\n'] + s.last());
            }
        }
        i = i + 1;
    }
    assert(docs@.subrange(0, i as int) =~= docs@);
    out
}

/// Where the running configuration is read from: a server, the API
/// descriptions of its services in order, and a path prefix that a selected
/// endpoint's path must begin with (empty by default).
pub struct RunningConfig<'a> {
    server: &'a str,
    specs: &'a [ValidatedSpec],
    path: String,
}

/// What the driver of a run does next.
#[derive(Debug)]
pub enum Action {
    /// Fetch this URL and hand its status and body to `Run::receive`.
    Fetch(String),
    /// Stop with this error.
    Fail(ConfigError),
    /// Stop with this output.
    Done(String),
}

/// A run in progress: the selected endpoints, how many have answered, and
/// the fragment rendered for each of them.
pub struct Run<'a> {
    server: &'a str,
    endpoints: Vec<Endpoint>,
    next: usize,
    docs: Vec<String>,
    bodies: Ghost<Seq<Seq<char>>>,
}

impl<'a> RunningConfig<'a> {
    pub closed spec fn server_view(&self) -> Seq<char> {
        self.server@
    }

    pub closed spec fn specs_view(&self) -> Seq<ValidatedSpec> {
        self.specs@
    }

    pub closed spec fn prefix_view(&self) -> Seq<char> {
        self.path@
    }

    pub fn new(server: &'a str, specs: &'a [ValidatedSpec]) -> (r: Self)
        ensures
            r.server_view() == server@,
            r.specs_view() == specs@,
            r.prefix_view() == Seq::<char>::empty(),
    {
        RunningConfig { server, specs, path: String::new() }
    }

    pub fn set_path_prefix(&mut self, path: String)
        ensures
            final(self).server_view() == old(self).server_view(),
            final(self).specs_view() == old(self).specs_view(),
            final(self).prefix_view() == path@,
    {
        self.path = path;
    }

    /// A run over the endpoints selected from the descriptions, in order,
    /// none of which has answered yet.
    pub fn start(&self) -> (r: Run<'a>)
        ensures
            r.wf(),
            r.server_view() == self.server_view(),
            r.endpoints_view() == select_specs(self.specs_view(), self.prefix_view()),
            r.answered() == 0,
            r.bodies_view().len() == 0,
            r.docs_view() == rendered(r.endpoints_view(), r.bodies_view()),
    {
        let endpoints = select_endpoints(self.specs, self.path.as_str());
        let r = Run {
            server: self.server,
            endpoints,
            next: 0,
            docs: Vec::new(),
            bodies: Ghost(Seq::empty()),
        };
        assert(r.docs_view() =~= rendered(r.endpoints_view(), r.bodies_view()));
        r
    }
}

impl<'a> Run<'a> {
    pub closed spec fn server_view(&self) -> Seq<char> {
        self.server@
    }

    pub closed spec fn endpoints_view(&self) -> Seq<(Seq<char>, Option<Schema>)> {
        self.endpoints@.map_values(|e: Endpoint| e@)
    }

    /// How many endpoints have answered.
    pub closed spec fn answered(&self) -> nat {
        self.next as nat
    }

    /// The fragments rendered so far, one per answered endpoint.
    pub closed spec fn docs_view(&self) -> Seq<Seq<char>> {
        views(self.docs@)
    }

    /// The bodies of the answers so far, one per answered endpoint.
    pub closed spec fn bodies_view(&self) -> Seq<Seq<char>> {
        self.bodies@
    }

    pub closed spec fn wf(&self) -> bool {
        &&& self.next <= self.endpoints@.len()
        &&& self.docs@.len() == self.next
        &&& self.bodies@.len() == self.next
        &&& self.docs_view() == rendered(self.endpoints_view(), self.bodies@)
    }

    /// The run waits for the response of an endpoint whose schema is known.
    pub open spec fn waiting(&self) -> bool {
        &&& self.answered() < self.endpoints_view().len()
        &&& self.endpoints_view()[self.answered() as int].1 is Some
    }

    /// Whether the run waits for a response.
    pub fn is_waiting(&self) -> (r: bool)
        requires
            self.wf(),
        ensures
            r == self.waiting(),
    {
        self.next < self.endpoints.len() && self.endpoints[self.next].schema.is_some()
    }

    /// What to do next: fetch the next endpoint; fail where it has no
    /// schema; or, once all have answered, finish with the fragments joined.
    pub fn action(&self) -> (r: Action)
        requires
            self.wf(),
        ensures
            self.waiting() ==> r is Fetch && r->Fetch_0@ == self.server_view()
                + self.endpoints_view()[self.answered() as int].0,
            self.answered() < self.endpoints_view().len() && !self.waiting() ==> r is Fail
                && r->Fail_0 is MissingSchema && r->Fail_0->MissingSchema_0@
                == self.endpoints_view()[self.answered() as int].0,
            self.answered() == self.endpoints_view().len() ==> r is Done && r->Done_0@ == joined(
                self.docs_view(),
            ) && r->Done_0@ == joined(rendered(self.endpoints_view(), self.bodies_view())),
    {
        if self.next < self.endpoints.len() {
            let e = &self.endpoints[self.next];
            if e.schema.is_some() {
                let mut url = String::from_str(self.server);
                url.append(e.path.as_str());
                Action::Fetch(url)
            } else {
                Action::Fail(ConfigError::MissingSchema(e.path.clone()))
            }
        } else {
            Action::Done(join_docs(&self.docs))
        }
    }

    /// Takes the response of the endpoint the run waits for. A status
    /// outside 2xx, a body that is not JSON, or a fragment that cannot be
    /// rendered is an error, and leaves the run as it was; otherwise the
    /// body, reshaped as the endpoint's schema says, is rendered and kept.
    pub fn receive(&mut self, status: u16, body: String) -> (r: Result<(), ConfigError>)
        requires
            old(self).wf(),
            old(self).waiting(),
        ensures
            final(self).wf(),
            final(self).server_view() == old(self).server_view(),
            final(self).endpoints_view() == old(self).endpoints_view(),
            !success(status) ==> r is Err && r->Err_0 is HTTP && r->Err_0->HTTP_0 == status
                && r->Err_0->HTTP_1@ == body@,
            success(status) && !json_valid(body@) ==> r is Err && r->Err_0 is JSON,
            success(status) && json_valid(body@) <==> r is Ok,
            r is Err ==> *final(self) == *old(self),
            r is Ok ==> final(self).answered() == old(self).answered() + 1
                && final(self).bodies_view() == old(self).bodies_view().push(body@)
                && final(self).docs_view() == old(self).docs_view().push(
                rendered_doc(old(self).endpoints_view()[old(self).answered() as int], body@),
            ),
            final(self).docs_view() == rendered(
                final(self).endpoints_view(),
                final(self).bodies_view(),
            ),
    {
        assert(self.endpoints_view().len() == self.endpoints@.len());
        let count = self.endpoints.len();
        if !is_success(status) {
            return Err(ConfigError::HTTP(status, body));
        }
        let doc = match parse_json(body.as_str()) {
            Ok(doc) => doc,
            Err(e) => return Err(ConfigError::JSON(e)),
        };
        let schema = match self.endpoints[self.next].schema {
            Some(s) => s,
            None => return Err(ConfigError::MissingSchema(self.endpoints[self.next].path.clone())),
        };
        let fragment = transform(schema, self.endpoints[self.next].path.as_str(), doc);
        let text = match render_yaml(fragment) {
            Ok(t) => t,
            Err(e) => return Err(ConfigError::Yaml(e)),
        };
        let ghost before = self.docs@;
        let ghost old_bodies = self.bodies@;
        let ghost eps = self.endpoints_view();
        assert(self.next < count);
        self.docs.push(text);
        self.next = self.next + 1;
        self.bodies = Ghost(self.bodies@.push(body@));
        assert(views(self.docs@) =~= views(before).push(text@));
        assert(views(self.docs@) =~= rendered(eps, self.bodies@));
        Ok(())
    }
}

} // verus!
