//! An operation over a list of identifiers, one request for each, in which a
//! request that the backend refuses only drops its identifier.

use vstd::prelude::*;
use crate::error::Error;
use crate::field_map::FieldMap;
use crate::http::{is_success, HttpRequest, Method, Reply};
use crate::json::JsonValue;
use crate::location::{parse_url, url_parse};
use crate::provider::identifier::Identifier;

verus! {

/// The identifiers of `ids` whose place in `outcomes` holds `true`, in the
/// order of `ids`.
pub open spec fn selected(ids: Seq<Identifier>, outcomes: Seq<bool>) -> Seq<Identifier>
    recommends
        ids.len() == outcomes.len(),
    decreases ids.len(),
{
    if ids.len() == 0 {
        Seq::empty()
    } else {
        let front = selected(ids.drop_last(), outcomes.drop_last());
        if outcomes.last() {
            front.push(ids.last())
        } else {
            front
        }
    }
}

/// The selection holds exactly the identifiers with a good outcome: an
/// identifier is in it if and only if it stands at some place of `ids` whose
/// outcome is `true`. It is never longer than `ids`.
pub proof fn lemma_selected_exact(ids: Seq<Identifier>, outcomes: Seq<bool>, id: Identifier)
    requires
        ids.len() == outcomes.len(),
    ensures
        selected(ids, outcomes).contains(id) <==> exists|i: int|
            0 <= i < ids.len() && outcomes[i] && #[trigger] ids[i] == id,
        selected(ids, outcomes).len() <= ids.len(),
    decreases ids.len(),
{
    if ids.len() > 0 {
        let front_ids = ids.drop_last();
        let front_outcomes = outcomes.drop_last();
        let front = selected(front_ids, front_outcomes);
        let last = ids.len() - 1;
        lemma_selected_exact(front_ids, front_outcomes, id);
        if selected(ids, outcomes).contains(id) {
            let k = choose|k: int|
                0 <= k < selected(ids, outcomes).len() && selected(ids, outcomes)[k] == id;
            if outcomes.last() && k == front.len() {
                assert(outcomes[last] && ids[last] == id);
            } else {
                assert(front[k] == id);
                let i = choose|i: int|
                    0 <= i < front_ids.len() && front_outcomes[i] && #[trigger] front_ids[i] == id;
                assert(outcomes[i] && ids[i] == id);
            }
        }
        if exists|i: int| 0 <= i < ids.len() && outcomes[i] && #[trigger] ids[i] == id {
            let i = choose|i: int| 0 <= i < ids.len() && outcomes[i] && #[trigger] ids[i] == id;
            if i == last {
                assert(selected(ids, outcomes)[front.len() as int] == id);
            } else {
                assert(front_outcomes[i] && front_ids[i] == id);
                let k = choose|k: int| 0 <= k < front.len() && front[k] == id;
                assert(selected(ids, outcomes)[k] == id);
            }
        }
    }
}

/// Where every request succeeds, the selection is the whole list; where none
/// does, it is empty.
pub proof fn lemma_selected_all_or_none(ids: Seq<Identifier>, outcomes: Seq<bool>)
    requires
        ids.len() == outcomes.len(),
    ensures
        (forall|i: int| 0 <= i < outcomes.len() ==> outcomes[i]) ==> selected(ids, outcomes)
            == ids,
        (forall|i: int| 0 <= i < outcomes.len() ==> !outcomes[i]) ==> selected(ids, outcomes)
            == Seq::<Identifier>::empty(),
    decreases ids.len(),
{
    if ids.len() > 0 {
        lemma_selected_all_or_none(ids.drop_last(), outcomes.drop_last());
        if forall|i: int| 0 <= i < outcomes.len() ==> outcomes[i] {
            assert forall|i: int| 0 <= i < outcomes.drop_last().len() implies outcomes.drop_last()[i] by {
                assert(outcomes[i]);
            }
            assert(outcomes[outcomes.len() - 1]);
            assert(ids.drop_last().push(ids.last()) =~= ids);
        }
        if forall|i: int| 0 <= i < outcomes.len() ==> !outcomes[i] {
            assert forall|i: int| 0 <= i < outcomes.drop_last().len() implies !outcomes.drop_last()[i] by {
                assert(!outcomes[i]);
            }
            assert(!outcomes[outcomes.len() - 1]);
        }
    } else {
        assert(ids =~= Seq::<Identifier>::empty());
    }
}

/// A batch operation under way: the identifiers asked for, how many of them
/// are settled, and which of those the backend accepted.
pub struct Batch {
    method: Method,
    prefix: String,
    data: Option<FieldMap<JsonValue>>,
    ids: Vec<Identifier>,
    settled: usize,
    kept: Vec<Identifier>,
    outcomes: Ghost<Seq<bool>>,
}

impl Batch {
    #[verifier::type_invariant]
    spec fn coherent(self) -> bool {
        &&& self.settled <= self.ids@.len()
        &&& self.outcomes@.len() == self.settled
        &&& self.kept@ == selected(self.ids@.take(self.settled as int), self.outcomes@)
    }

    /// The verb of each request.
    pub closed spec fn method(self) -> Method {
        self.method
    }

    /// The text before the identifier in the location of each request.
    pub closed spec fn prefix(self) -> Seq<char> {
        self.prefix@
    }

    /// The body of each request.
    pub closed spec fn data(self) -> Option<FieldMap<JsonValue>> {
        self.data
    }

    /// The identifiers asked for, in the caller's order.
    pub closed spec fn ids(self) -> Seq<Identifier> {
        self.ids@
    }

    /// For each settled identifier, in order, whether the backend accepted
    /// its request.
    pub closed spec fn outcomes(self) -> Seq<bool> {
        self.outcomes@
    }

    /// The settled identifiers that the backend accepted.
    pub closed spec fn kept(self) -> Seq<Identifier> {
        self.kept@
    }

    /// Whether every identifier is settled.
    pub open spec fn finished(self) -> bool {
        self.outcomes().len() == self.ids().len()
    }

    /// The identifier whose request is due.
    pub open spec fn current(self) -> Identifier
        recommends
            !self.finished(),
    {
        self.ids()[self.outcomes().len() as int]
    }

    /// A batch in which nothing is settled yet.
    pub(crate) fn start(
        method: Method,
        prefix: String,
        data: Option<FieldMap<JsonValue>>,
        ids: Vec<Identifier>,
    ) -> (batch: Batch)
        ensures
            batch.method() == method,
            batch.prefix() == prefix@,
            batch.data() == data,
            batch.ids() == ids@,
            batch.outcomes() == Seq::<bool>::empty(),
            batch.kept() == Seq::<Identifier>::empty(),
    {
        proof {
            assert(ids@.take(0) =~= Seq::<Identifier>::empty());
        }
        Batch { method, prefix, data, ids, settled: 0, kept: Vec::new(), outcomes: Ghost(Seq::empty()) }
    }

    /// Whether every identifier is settled. Of every batch it holds that no
    /// more identifiers are settled than were asked for, and that the ones
    /// kept are those of the settled identifiers whose request the backend
    /// accepted.
    pub fn is_finished(&self) -> (b: bool)
        ensures
            b == self.finished(),
            self.outcomes().len() <= self.ids().len(),
            self.kept() == selected(
                self.ids().take(self.outcomes().len() as int),
                self.outcomes(),
            ),
    {
        proof {
            use_type_invariant(self);
        }
        self.settled == self.ids.len()
    }

    /// The request that is due: none where every identifier is settled, else
    /// the request for the first identifier that is not, to the location
    /// that the prefix and the identifier's text compose. A location that is
    /// malformed fails the batch.
    pub fn request(&self) -> (res: Result<Option<HttpRequest<'_>>, Error>)
        ensures
            self.finished() ==> res matches Ok(None),
            !self.finished() ==> match url_parse(self.prefix() + self.current().text()) {
                Some(url) => res matches Ok(Some(request)) && request.method == self.method()
                    && request.url@ == url && (match self.data() {
                    Some(data) => request.body matches Some(body) && *body == data,
                    None => request.body is None,
                }),
                None => res matches Err(Error::Url(_)),
            },
    {
        proof {
            use_type_invariant(self);
        }
        if self.settled == self.ids.len() {
            return Ok(None);
        }
        let mut location = self.prefix.clone();
        let id_text = self.ids[self.settled].to_text();
        location.append(id_text.as_str());
        let body = match &self.data {
            Some(data) => Some(data),
            None => None,
        };
        match HttpRequest::to_parsed(self.method, parse_url(location.as_str()), body) {
            Ok(request) => Ok(Some(request)),
            Err(e) => Err(e),
        }
    }

    /// Takes in the reply to the request that was due. A backend that was not
    /// reached fails the batch. An answer settles the identifier: with a
    /// status of success the identifier is kept, with any other it is
    /// dropped. Where no request was due, the batch fails.
    pub fn settle(self, reply: Reply) -> (res: Result<Batch, Error>)
        ensures
            match reply {
                Reply::Failure(text) => res == Err::<Batch, Error>(Error::Request(text)),
                Reply::Response(response) => if self.finished() {
                    res matches Err(Error::Unknown(_))
                } else {
                    &&& res matches Ok(next)
                    &&& next.method() == self.method()
                    &&& next.prefix() == self.prefix()
                    &&& next.data() == self.data()
                    &&& next.ids() == self.ids()
                    &&& next.outcomes() == self.outcomes().push(is_success(response.status))
                    &&& next.kept() == if is_success(response.status) {
                        self.kept().push(self.current())
                    } else {
                        self.kept()
                    }
                },
            },
    {
        proof {
            use_type_invariant(&self);
        }
        match reply {
            Reply::Failure(text) => Err(Error::Request(text)),
            Reply::Response(response) => {
                if self.settled == self.ids.len() {
                    return Err(Error::Unknown(String::from_str("no request of the batch is due")));
                }
                let Batch { method, prefix, data, ids, settled, kept, outcomes } = self;
                let accepted = response.is_success();
                let mut kept = kept;
                if accepted {
                    kept.push(ids[settled].clone());
                }
                proof {
                    let before = ids@.take(settled as int);
                    let now = ids@.take(settled as int + 1);
                    assert(now.drop_last() =~= before);
                    assert(outcomes@.push(accepted).drop_last() =~= outcomes@);
                }
                Ok(
                    Batch {
                        method,
                        prefix,
                        data,
                        ids,
                        settled: settled + 1,
                        kept,
                        outcomes: Ghost(outcomes@.push(accepted)),
                    },
                )
            },
        }
    }

    /// Ends the batch and hands out the identifiers kept.
    pub fn into_kept(self) -> (kept: Vec<Identifier>)
        ensures
            kept@ == self.kept(),
            self.finished() ==> kept@ == selected(self.ids(), self.outcomes()),
    {
        proof {
            use_type_invariant(&self);
            if self.finished() {
                assert(self.ids@.take(self.settled as int) =~= self.ids@);
            }
        }
        self.kept
    }
}

} // verus!
