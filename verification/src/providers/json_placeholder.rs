//! The REST provider: one collection endpoint for each resource, a sub-path
//! for each record, and JSON bodies.
//!
//! Each operation comes in two halves. The first, named after the operation,
//! composes the request. The second, named `my_` and the operation, reads
//! the reply to that request. Between the two the caller sends the request.

use vstd::prelude::*;
use crate::error::Error;
use crate::field_map::FieldMap;
use crate::http::{is_success, HttpRequest, HttpResponse, Method, Reply};
use crate::json::{json_parse, JsonValue};
use crate::location::{form_encode, form_encoded, parse_url, url_parse};
use crate::provider::identifier::Identifier;
use crate::provider::params::{
    CreateParams, CreateResult, DeleteManyParams, DeleteManyResult, DeleteParams, DeleteResult,
    FilterPayload, GetListParams, GetListResult, GetManyParams, GetManyReferenceParams,
    GetManyReferenceResult, GetManyResult, GetOneParams, GetOneResult, PaginationPayload,
    SortOrder, SortPayload, UpdateManyParams, UpdateManyResult, UpdateParams, UpdateResult,
};
use crate::provider::record::{
    decoded_record, lemma_decoded_all_len, record_in, records_in, Record,
};
use crate::provider::resource::Resource;
use crate::providers::batch::{selected, Batch};
use crate::text::{chain, decimal, decimal_text, join, joined, named, pair_text, texts};

verus! {

/// The base as a directory: the base itself where it ends with a slash, else
/// the base and a slash.
pub open spec fn directory(base: Seq<char>) -> Seq<char> {
    if base.len() > 0 && base.last() == '/' {
        base
    } else {
        base.push('/')
    }
}

/// The path of one record below the base: the resource, a slash, and the
/// identifier's text.
pub open spec fn record_path(resource: Seq<char>, id: Identifier) -> Seq<char> {
    resource + seq!['/'] + id.text()
}

/// The pair that asks for the record `id`: the key `id` and the
/// identifier's text.
pub open spec fn id_pair(id: Identifier) -> Seq<char> {
    named("id"@, id.text())
}

/// The pairs that ask for the records of `ids`, in the order given.
pub open spec fn id_pairs(ids: Seq<Identifier>) -> Seq<Seq<char>> {
    Seq::new(ids.len(), |i: int| id_pair(ids[i]))
}

/// The query that asks for the records of `ids`: the key `id` once for each
/// identifier, in the order given, with `&` between the pairs.
pub open spec fn ids_query(ids: Seq<Identifier>) -> Seq<char> {
    joined(id_pairs(ids), seq!['&'])
}

/// The text of a sort order.
pub open spec fn order_text(order: SortOrder) -> Seq<char> {
    match order {
        SortOrder::Asc => "asc"@,
        SortOrder::Desc => "desc"@,
    }
}

/// The pairs of a page: its number and its length.
pub open spec fn pagination_pairs(pagination: Option<PaginationPayload>) -> Seq<Seq<char>> {
    match pagination {
        Some(p) => seq![
            named("page"@, decimal(p.page as nat)),
            named("per_page"@, decimal(p.per_page as nat)),
        ],
        None => Seq::empty(),
    }
}

/// The pairs of a sort: the field, form-encoded, and the order.
pub open spec fn sort_pairs(sort: Option<SortPayload>) -> Seq<Seq<char>> {
    match sort {
        Some(s) => seq![
            named("sort"@, form_encoded(s.field@)),
            named("order"@, order_text(s.order)),
        ],
        None => Seq::empty(),
    }
}

/// The pair of one entry of a filter: the field and the value, both
/// form-encoded.
pub open spec fn filter_pair(entry: (String, String)) -> Seq<char> {
    named(form_encoded(entry.0@), form_encoded(entry.1@))
}

/// The pairs of a filter, in the order of its entries.
pub open spec fn filter_pairs(filter: Option<FilterPayload>) -> Seq<Seq<char>> {
    match filter {
        Some(f) => Seq::new(f.listed().len(), |i: int| filter_pair(f.listed()[i])),
        None => Seq::empty(),
    }
}

/// The pairs that pagination, sort and filter of a list request give, in
/// this order.
pub open spec fn list_pairs(params: GetListParams) -> Seq<Seq<char>> {
    pagination_pairs(params.pagination) + sort_pairs(params.sort) + filter_pairs(params.filter)
}

/// The path of a list request below the base: the resource alone, unless
/// the provider writes the list query and there is a pair to write; then
/// the resource, a question mark, and the pairs with `&` between them.
pub open spec fn list_path(resource: Seq<char>, params: GetListParams, written: bool) -> Seq<
    char,
> {
    if written && list_pairs(params).len() > 0 {
        resource + seq!['?'] + joined(list_pairs(params), seq!['&'])
    } else {
        resource
    }
}

/// The path of the records of `ids` below the base: the resource, a question
/// mark, and the query.
pub open spec fn many_path(resource: Seq<char>, ids: Seq<Identifier>) -> Seq<char> {
    resource + seq!['?'] + ids_query(ids)
}

/// The path of the records of `target` that belong to the record `id`: the
/// record's path, a slash, and the target.
pub open spec fn reference_path(resource: Seq<char>, id: Identifier, target: Seq<char>) -> Seq<
    char,
> {
    record_path(resource, id) + seq!['/'] + target
}

/// The segment that follows the resource and its slash in a record's path is
/// the identifier as it is written: the decimal numeral of a numeric
/// identifier, a text identifier letter for letter.
pub proof fn lemma_record_path_segment(resource: Seq<char>, id: Identifier)
    ensures
        record_path(resource, id).take(resource.len() as int) == resource,
        record_path(resource, id)[resource.len() as int] == '/',
        record_path(resource, id).skip(resource.len() as int + 1) == id.text(),
        id matches Identifier::Num(n) ==> id.text() == decimal(n as nat),
        id matches Identifier::Str(s) ==> id.text() == s@,
{
    assert(record_path(resource, id).take(resource.len() as int) =~= resource);
    assert(record_path(resource, id).skip(resource.len() as int + 1) =~= id.text());
}

/// The message of a status error.
pub open spec fn status_message(status: u16) -> Seq<char> {
    "Received non-200 response: "@ + decimal(status as nat)
}

/// Whether the backend answered with a status of success.
pub open spec fn accepted(reply: Reply) -> bool {
    reply matches Reply::Response(response) && is_success(response.status)
}

/// Whether `e` is the error of a reply that is not accepted: the transport's
/// failure as it was described, or the status that the backend answered
/// with, whatever its body holds.
pub open spec fn refusal(reply: Reply, e: Error) -> bool {
    match reply {
        Reply::Failure(text) => e == Error::Request(text),
        Reply::Response(response) => {
            &&& e matches Error::RequestStatus(status, message)
            &&& status == response.status
            &&& message@ == status_message(response.status)
        },
    }
}

/// Whether `res` is the failure of an operation whose reply is not accepted.
pub open spec fn is_refusal<T>(reply: Reply, res: Result<T, Error>) -> bool {
    res matches Err(e) && refusal(reply, e)
}

/// Whether `res` is the request with the verb `method` and the body `body`
/// to the URL that the parser makes of `location`; the URL error where it
/// makes none.
pub open spec fn request_to(
    location: Seq<char>,
    method: Method,
    body: Option<&FieldMap<JsonValue>>,
    res: Result<HttpRequest, Error>,
) -> bool {
    match url_parse(location) {
        Some(url) => {
            &&& res matches Ok(request)
            &&& request.method == method
            &&& request.url@ == url
            &&& request.body == body
        },
        None => res matches Err(Error::Url(_)),
    }
}

/// A provider for a REST backend, known by its base URL. Whether it writes
/// pagination, sort and filter into the query of a list request is its
/// caller's choice; as it is made, it does not.
#[derive(Debug)]
pub struct JsonPlaceholder {
    url: String,
    list_query: bool,
}

impl JsonPlaceholder {
    /// The base URL, as the parser wrote it.
    pub closed spec fn base(self) -> Seq<char> {
        self.url@
    }

    /// Whether the provider writes pagination, sort and filter into the
    /// query of a list request.
    pub closed spec fn writes_list_query(self) -> bool {
        self.list_query
    }

    /// The location of `path` below the base, before the parser reads it.
    pub open spec fn location(self, path: Seq<char>) -> Seq<char> {
        directory(self.base()) + path
    }

    /// A provider for the backend at `url`, which has to be an absolute URL.
    pub fn new(url: &str) -> (res: Result<Self, Error>)
        ensures
            match url_parse(url@) {
                Some(base) => res matches Ok(provider) && provider.base() == base
                    && !provider.writes_list_query(),
                None => res matches Err(Error::Url(_)),
            },
    {
        match parse_url(url) {
            Ok(text) => Ok(JsonPlaceholder { url: text, list_query: false }),
            Err(e) => Err(Error::Url(e)),
        }
    }

    /// The same provider, which writes pagination, sort and filter into the
    /// query of a list request if `written` says so.
    pub fn with_list_query(self, written: bool) -> (provider: Self)
        ensures
            provider.base() == self.base(),
            provider.writes_list_query() == written,
    {
        JsonPlaceholder { url: self.url, list_query: written }
    }

    /// Whether the provider writes pagination, sort and filter into the
    /// query of a list request.
    pub fn has_list_query(&self) -> (written: bool)
        ensures
            written == self.writes_list_query(),
    {
        self.list_query
    }

    /// The base URL.
    pub fn base_url(&self) -> (text: &str)
        ensures
            text@ == self.base(),
    {
        self.url.as_str()
    }

    /// The base as a directory, as text.
    fn directory_text(&self) -> (text: String)
        ensures
            text@ == directory(self.base()),
    {
        let n: usize = self.url.as_str().unicode_len();
        let mut text = self.url.clone();
        if n == 0 || self.url.as_str().get_char(n - 1) != '/' {
            proof {
                reveal_strlit("/");
                assert(text@ + "/"@ =~= text@.push('/'));
            }
            text.append("/");
        }
        text
    }

    /// The request with the verb `method` and the body `body` for `path`
    /// below the base.
    fn request<'a>(&self, method: Method, path: &str, body: Option<&'a FieldMap<JsonValue>>) -> (res:
        Result<HttpRequest<'a>, Error>)
        ensures
            request_to(self.location(path@), method, body, res),
    {
        let mut location = self.directory_text();
        location.append(path);
        HttpRequest::to_parsed(method, parse_url(location.as_str()), body)
    }

    /// The path of one record, as text.
    fn record_path_text(resource: &Resource, id: &Identifier) -> (path: String)
        ensures
            path@ == record_path(resource.resource@, *id),
    {
        let mut path = resource.resource.clone();
        proof {
            reveal_strlit("/");
            assert("/"@ =~= seq!['/']);
        }
        path.append("/");
        path.append(id.to_text().as_str());
        path
    }

    /// The query for the records of `ids`, as text.
    fn ids_query_text(ids: &Vec<Identifier>) -> (query: String)
        ensures
            query@ == ids_query(ids@),
    {
        let mut pairs: Vec<String> = Vec::new();
        let mut i: usize = 0;
        while i < ids.len()
            invariant
                i <= ids@.len(),
                texts(pairs@) == id_pairs(ids@).take(i as int),
            decreases ids@.len() - i,
        {
            let text = ids[i].to_text();
            let ghost before = pairs@;
            pairs.push(pair_text("id", text.as_str()));
            proof {
                let goal = id_pairs(ids@).take(i as int + 1);
                assert(texts(before).len() == id_pairs(ids@).take(i as int).len());
                assert(texts(pairs@).len() == goal.len());
                assert forall|j: int| 0 <= j < goal.len() implies texts(pairs@)[j] == goal[j] by {
                    if j < i {
                        assert(texts(before)[j] == id_pairs(ids@).take(i as int)[j]);
                    }
                }
                assert(texts(pairs@) =~= goal);
            }
            i += 1;
        }
        proof {
            reveal_strlit("&");
            assert("&"@ =~= seq!['&']);
            assert(id_pairs(ids@).take(i as int) =~= id_pairs(ids@));
        }
        join(&pairs, "&")
    }

    /// The pairs of a list request, as texts.
    fn list_pairs_text(params: &GetListParams) -> (pairs: Vec<String>)
        ensures
            texts(pairs@) == list_pairs(*params),
    {
        let mut pairs: Vec<String> = Vec::new();
        match &params.pagination {
            Some(p) => {
                pairs.push(pair_text("page", decimal_text(p.page).as_str()));
                pairs.push(pair_text("per_page", decimal_text(p.per_page).as_str()));
            },
            None => {},
        }
        match &params.sort {
            Some(s) => {
                pairs.push(pair_text("sort", form_encode(s.field.as_str()).as_str()));
                let order = match s.order {
                    SortOrder::Asc => "asc",
                    SortOrder::Desc => "desc",
                };
                pairs.push(pair_text("order", order));
            },
            None => {},
        }
        proof {
            assert(texts(pairs@) =~= pagination_pairs(params.pagination) + sort_pairs(params.sort));
        }
        match &params.filter {
            Some(f) => {
                let entries = f.entries();
                let ghost front = texts(pairs@);
                let mut i: usize = 0;
                while i < entries.len()
                    invariant
                        i <= entries@.len(),
                        entries@ == f.listed(),
                        params.filter == Some(*f),
                        texts(pairs@) == front + filter_pairs(params.filter).take(i as int),
                    decreases entries@.len() - i,
                {
                    let name = form_encode(entries[i].0.as_str());
                    let value = form_encode(entries[i].1.as_str());
                    let ghost before = pairs@;
                    pairs.push(pair_text(name.as_str(), value.as_str()));
                    proof {
                        let was = front + filter_pairs(params.filter).take(i as int);
                        let goal = front + filter_pairs(params.filter).take(i as int + 1);
                        assert(texts(before).len() == was.len());
                        assert(texts(pairs@).len() == goal.len());
                        assert forall|j: int| 0 <= j < goal.len() implies texts(pairs@)[j]
                            == goal[j] by {
                            if j < before.len() {
                                assert(texts(before)[j] == was[j]);
                            }
                        }
                        assert(texts(pairs@) =~= goal);
                    }
                    i += 1;
                }
                proof {
                    assert(filter_pairs(params.filter).take(i as int) =~= filter_pairs(
                        params.filter,
                    ));
                }
            },
            None => {
                proof {
                    assert(texts(pairs@) =~= list_pairs(*params));
                }
            },
        }
        pairs
    }

    /// Tells a status of success from any other: the other is an error that
    /// carries the status code and a message.
    pub fn check_status(&self, response: &HttpResponse) -> (res: Result<(), Error>)
        ensures
            is_success(response.status) ==> res is Ok,
            !is_success(response.status) ==> is_refusal(Reply::Response(*response), res),
    {
        if response.is_success() {
            Ok(())
        } else {
            let code = decimal_text(response.status as usize);
            let message = chain("Received non-200 response: ", code.as_str());
            Err(Error::RequestStatus(response.status, message))
        }
    }

    /// The body of a reply that is accepted; the error of one that is not.
    /// The status is looked at first: the body of an answer with another
    /// status than success is never read.
    pub fn body_of(&self, reply: Reply) -> (res: Result<String, Error>)
        ensures
            match res {
                Ok(body) => accepted(reply) && body == reply->Response_0.body,
                Err(e) => !accepted(reply) && refusal(reply, e),
            },
    {
        match reply {
            Reply::Failure(text) => Err(Error::Request(text)),
            Reply::Response(response) => match self.check_status(&response) {
                Ok(()) => Ok(response.body),
                Err(e) => Err(e),
            },
        }
    }

    /// The request that lists the records of `resource`: a GET of the
    /// resource below the base. Pagination, sort and filter go into its
    /// query only where the provider was told to write them.
    pub fn get_list(&self, resource: &Resource, params: &GetListParams) -> (res: Result<
        HttpRequest<'static>,
        Error,
    >)
        ensures
            request_to(
                self.location(list_path(resource.resource@, *params, self.writes_list_query())),
                Method::Get,
                None,
                res,
            ),
    {
        let mut path = resource.resource.clone();
        if self.list_query {
            let pairs = Self::list_pairs_text(params);
            if pairs.len() > 0 {
                proof {
                    reveal_strlit("?");
                    reveal_strlit("&");
                    assert("?"@ =~= seq!['?']);
                    assert("&"@ =~= seq!['&']);
                }
                path.append("?");
                path.append(join(&pairs, "&").as_str());
            }
        }
        self.request(Method::Get, path.as_str(), None)
    }

    /// The request that fetches one record: a GET of the record's path.
    pub fn get_one(&self, resource: &Resource, params: &GetOneParams) -> (res: Result<
        HttpRequest<'static>,
        Error,
    >)
        ensures
            request_to(
                self.location(record_path(resource.resource@, params.id)),
                Method::Get,
                None,
                res,
            ),
    {
        let path = Self::record_path_text(resource, &params.id);
        self.request(Method::Get, path.as_str(), None)
    }

    /// The request that fetches the records of some identifiers: a GET of
    /// the resource with the key `id` once for each identifier, in the
    /// caller's order.
    pub fn get_many(&self, resource: &Resource, params: &GetManyParams) -> (res: Result<
        HttpRequest<'static>,
        Error,
    >)
        ensures
            request_to(
                self.location(many_path(resource.resource@, params.ids@)),
                Method::Get,
                None,
                res,
            ),
    {
        let mut path = resource.resource.clone();
        proof {
            reveal_strlit("?");
            assert("?"@ =~= seq!['?']);
        }
        path.append("?");
        path.append(Self::ids_query_text(&params.ids).as_str());
        self.request(Method::Get, path.as_str(), None)
    }

    /// The request that lists the records of `params.target` that belong to
    /// the record `params.id`: a GET of the target below the record's path.
    pub fn get_many_reference(&self, resource: &Resource, params: &GetManyReferenceParams) -> (res:
        Result<HttpRequest<'static>, Error>)
        ensures
            request_to(
                self.location(reference_path(resource.resource@, params.id, params.target@)),
                Method::Get,
                None,
                res,
            ),
    {
        let mut path = Self::record_path_text(resource, &params.id);
        proof {
            reveal_strlit("/");
            assert("/"@ =~= seq!['/']);
        }
        path.append("/");
        path.append(params.target.as_str());
        self.request(Method::Get, path.as_str(), None)
    }

    /// The request that creates a record: a POST of the fields to the
    /// resource.
    pub fn create<'a>(&self, resource: &Resource, params: &'a CreateParams) -> (res: Result<
        HttpRequest<'a>,
        Error,
    >)
        ensures
            request_to(
                self.location(resource.resource@),
                Method::Post,
                Some(&params.data),
                res,
            ),
    {
        self.request(Method::Post, resource.resource.as_str(), Some(&params.data))
    }

    /// The request that updates a record: a PUT of the fields to the
    /// record's path. The previous record is not looked at.
    pub fn update<'a>(&self, resource: &Resource, params: &'a UpdateParams) -> (res: Result<
        HttpRequest<'a>,
        Error,
    >)
        ensures
            request_to(
                self.location(record_path(resource.resource@, params.id)),
                Method::Put,
                Some(&params.data),
                res,
            ),
    {
        let path = Self::record_path_text(resource, &params.id);
        self.request(Method::Put, path.as_str(), Some(&params.data))
    }

    /// The request that deletes a record: a DELETE of the record's path.
    pub fn delete(&self, resource: &Resource, params: &DeleteParams) -> (res: Result<
        HttpRequest<'static>,
        Error,
    >)
        ensures
            request_to(
                self.location(record_path(resource.resource@, params.id)),
                Method::Delete,
                None,
                res,
            ),
    {
        let path = Self::record_path_text(resource, &params.id);
        self.request(Method::Delete, path.as_str(), None)
    }

    /// The text before the identifier in the location of a record of
    /// `resource`.
    fn record_prefix(&self, resource: &Resource) -> (prefix: String)
        ensures
            forall|id: Identifier|
                prefix@ + id.text() == #[trigger] self.location(record_path(resource.resource@, id)),
    {
        let mut prefix = self.directory_text();
        proof {
            reveal_strlit("/");
            assert("/"@ =~= seq!['/']);
        }
        prefix.append(resource.resource.as_str());
        prefix.append("/");
        proof {
            assert forall|id: Identifier|
                prefix@ + id.text() == #[trigger] self.location(
                    record_path(resource.resource@, id),
                ) by {
                assert(prefix@ + id.text() =~= self.location(record_path(resource.resource@, id)));
            }
        }
        prefix
    }

    /// Starts the update of the records of `params.ids`: one PUT of the
    /// fields to each record's path, in the caller's order.
    pub fn update_many(&self, resource: &Resource, params: UpdateManyParams) -> (batch: Batch)
        ensures
            batch.method() == Method::Put,
            batch.data() == Some(params.data),
            batch.ids() == params.ids@,
            batch.outcomes() == Seq::<bool>::empty(),
            batch.kept() == Seq::<Identifier>::empty(),
            forall|id: Identifier|
                batch.prefix() + id.text() == #[trigger] self.location(
                    record_path(resource.resource@, id),
                ),
    {
        Batch::start(Method::Put, self.record_prefix(resource), Some(params.data), params.ids)
    }

    /// Starts the deletion of the records of `params.ids`: one DELETE of
    /// each record's path, in the caller's order.
    pub fn delete_many(&self, resource: &Resource, params: DeleteManyParams) -> (batch: Batch)
        ensures
            batch.method() == Method::Delete,
            batch.data() is None,
            batch.ids() == params.ids@,
            batch.outcomes() == Seq::<bool>::empty(),
            batch.kept() == Seq::<Identifier>::empty(),
            forall|id: Identifier|
                batch.prefix() + id.text() == #[trigger] self.location(
                    record_path(resource.resource@, id),
                ),
    {
        Batch::start(Method::Delete, self.record_prefix(resource), None, params.ids)
    }

    /// Reads the reply to a list request: the records of the body, and their
    /// number as the total.
    pub fn my_get_list(&self, reply: Reply) -> (res: Result<GetListResult, Error>)
        ensures
            !accepted(reply) ==> is_refusal(reply, res),
            accepted(reply) ==> match res {
                Ok(result) => {
                    &&& records_in(reply->Response_0.body@, Ok(result.data))
                    &&& result.total == Some(result.data.len())
                    &&& result.page_info is None
                    &&& result.meta is None
                    &&& result.counts_its_records()
                },
                Err(e) => records_in(reply->Response_0.body@, Err(e)),
            },
            accepted(reply) ==> match json_parse(reply->Response_0.body@) {
                Some(JsonValue::Array(items)) => (res matches Ok(result) ==> result.data.len()
                    == items.len() && result.total == Some(items.len())),
                _ => true,
            },
    {
        let body = self.body_of(reply)?;
        let records = Record::list_from_text(body.as_str())?;
        proof {
            match json_parse(body@) {
                Some(JsonValue::Array(items)) => {
                    lemma_decoded_all_len(items@);
                },
                _ => {},
            }
        }
        let total: usize = records.len();
        Ok(GetListResult { data: records, total: Some(total), page_info: None, meta: None })
    }

    /// Reads the reply to a request for one record.
    pub fn my_get_one(&self, reply: Reply) -> (res: Result<GetOneResult, Error>)
        ensures
            !accepted(reply) ==> is_refusal(reply, res),
            accepted(reply) ==> match res {
                Ok(result) => record_in(reply->Response_0.body@, Ok(result.data)),
                Err(e) => record_in(reply->Response_0.body@, Err(e)),
            },
    {
        let body = self.body_of(reply)?;
        let record = Record::from_text(body.as_str())?;
        Ok(GetOneResult { data: record })
    }

    /// Reads the reply to a request for the records of some identifiers:
    /// the records of the body, whichever of the identifiers they answer.
    pub fn my_get_many(&self, reply: Reply) -> (res: Result<GetManyResult, Error>)
        ensures
            !accepted(reply) ==> is_refusal(reply, res),
            accepted(reply) ==> match res {
                Ok(result) => records_in(reply->Response_0.body@, Ok(result.data)),
                Err(e) => records_in(reply->Response_0.body@, Err(e)),
            },
    {
        let body = self.body_of(reply)?;
        let records = Record::list_from_text(body.as_str())?;
        Ok(GetManyResult { data: records })
    }

    /// Reads the reply to a request for related records: the records of the
    /// body, and their number as the total where there is any.
    pub fn my_get_many_reference(&self, reply: Reply) -> (res: Result<
        GetManyReferenceResult,
        Error,
    >)
        ensures
            !accepted(reply) ==> is_refusal(reply, res),
            accepted(reply) ==> match res {
                Ok(result) => {
                    &&& records_in(reply->Response_0.body@, Ok(result.data))
                    &&& result.total == if result.data.len() > 0 {
                        Some(result.data.len())
                    } else {
                        None
                    }
                    &&& result.page_info is None
                    &&& result.meta is None
                },
                Err(e) => records_in(reply->Response_0.body@, Err(e)),
            },
    {
        let body = self.body_of(reply)?;
        let records = Record::list_from_text(body.as_str())?;
        let total: usize = records.len();
        Ok(
            GetManyReferenceResult {
                data: records,
                total: if total > 0 {
                    Some(total)
                } else {
                    None
                },
                page_info: None,
                meta: None,
            },
        )
    }

    /// Reads the reply to a create request: the record that the backend
    /// made, with the identifier that it gave.
    pub fn my_create(&self, reply: Reply) -> (res: Result<CreateResult, Error>)
        ensures
            !accepted(reply) ==> is_refusal(reply, res),
            accepted(reply) ==> match res {
                Ok(result) => record_in(reply->Response_0.body@, Ok(result.data)),
                Err(e) => record_in(reply->Response_0.body@, Err(e)),
            },
    {
        let body = self.body_of(reply)?;
        let record = Record::from_text(body.as_str())?;
        Ok(CreateResult { data: record })
    }

    /// Reads the reply to an update request: the record as it is now.
    pub fn my_update(&self, reply: Reply) -> (res: Result<UpdateResult, Error>)
        ensures
            !accepted(reply) ==> is_refusal(reply, res),
            accepted(reply) ==> match res {
                Ok(result) => record_in(reply->Response_0.body@, Ok(result.data)),
                Err(e) => record_in(reply->Response_0.body@, Err(e)),
            },
    {
        let body = self.body_of(reply)?;
        let record = Record::from_text(body.as_str())?;
        Ok(UpdateResult { data: record })
    }

    /// The record that a delete returns, given what decoding the body of its
    /// reply gave: the record of the body where there is one, else the
    /// record that the caller knew, else an error.
    pub fn deleted_record(from_body: Result<Record, Error>, previous_data: Option<Record>) -> (res:
        Result<DeleteResult, Error>)
        ensures
            match (from_body, previous_data) {
                (Ok(record), _) => res matches Ok(result) && result.data == record,
                (Err(_), Some(record)) => res matches Ok(result) && result.data == record,
                (Err(_), None) => res matches Err(Error::Unknown(_)),
            },
    {
        match from_body {
            Ok(record) => Ok(DeleteResult { data: record }),
            Err(_) => match previous_data {
                Some(record) => Ok(DeleteResult { data: record }),
                None => Err(
                    Error::Unknown(
                        String::from_str(
                            "the deleted record is neither in the response nor in the parameters",
                        ),
                    ),
                ),
            },
        }
    }

    /// Reads the reply to a delete request: the deleted record, from the
    /// body where the body holds a record, else from `previous_data`. Where
    /// neither has it, the operation fails.
    pub fn my_delete(&self, reply: Reply, previous_data: Option<Record>) -> (res: Result<
        DeleteResult,
        Error,
    >)
        ensures
            !accepted(reply) ==> is_refusal(reply, res),
            accepted(reply) ==> match json_parse(reply->Response_0.body@) {
                Some(value) if decoded_record(value) is Ok => res matches Ok(result)
                    && result.data@ == decoded_record(value)->Ok_0,
                _ => match previous_data {
                    Some(record) => res matches Ok(result) && result.data == record,
                    None => res matches Err(Error::Unknown(_)),
                },
            },
    {
        let body = self.body_of(reply)?;
        Self::deleted_record(Record::from_text(body.as_str()), previous_data)
    }

    /// Ends an update of many records: the identifiers whose request the
    /// backend accepted, in the caller's order.
    pub fn my_update_many(&self, batch: Batch) -> (result: UpdateManyResult)
        ensures
            result.data@ == batch.kept(),
            batch.finished() ==> result.data@ == selected(batch.ids(), batch.outcomes()),
    {
        UpdateManyResult { data: batch.into_kept() }
    }

    /// Ends a deletion of many records: the identifiers whose request the
    /// backend accepted, in the caller's order.
    pub fn my_delete_many(&self, batch: Batch) -> (result: DeleteManyResult)
        ensures
            result.data@ == batch.kept(),
            batch.finished() ==> result.data@ == selected(batch.ids(), batch.outcomes()),
    {
        DeleteManyResult { data: batch.into_kept() }
    }
}

} // verus!
