//! The client of a Lemonade server: what it asks for, and what it makes of the
//! answers.

use vstd::prelude::*;

use crate::config::Config;
use crate::error::{other_error, outcome, ClientError, ErrorKind, ErrorView};
use crate::http::{is_success_code, status_phrase, status_text, Exchange};
use crate::json::{
    fields_map, json_text, parse_json, parsed_json, write_object, FieldValue, Json, JsonView,
};
use crate::text::{decimal, lemma_trim_end_shape, texts, trim_end, trim_end_char};

verus! {

/// The identifier of the built-in provider.
pub const LEMONADE_OSS_PROVIDER_ID: &'static str = "lemonade";

/// What the user is told where the server cannot be reached.
pub const LEMONADE_CONNECTION_ERROR: &'static str =
    "Lemonade Server is not responding. Install it with `winget install --id AMD.LemonadeServer` and start LemonadeServer.exe.";

/// What the user is told where the server was started and stays silent.
pub const LEMONADE_START_TIMEOUT_ERROR: &'static str =
    "Lemonade Server did not become ready within 30 seconds.";

/// How long a connection may take, in seconds.
pub const CONNECT_TIMEOUT_SECS: u64 = 5;

/// The type of a request's body.
pub const JSON_CONTENT_TYPE: &'static str = "application/json";

/// What `reqwest` calls a body that is no document.
pub const DECODE_ERROR: &'static str = "error decoding response body";

/// A failure of kind `InvalidData`.
pub open spec fn invalid_data(message: Seq<char>) -> ErrorView {
    ErrorView { kind: ErrorKind::InvalidData, message }
}

/// A failure of kind `NotFound`.
pub open spec fn not_found(message: Seq<char>) -> ErrorView {
    ErrorView { kind: ErrorKind::NotFound, message }
}

/// The address of `path` on the server at `base`: slashes at the end of `base`
/// do not count.
pub open spec fn endpoint(base: Seq<char>, path: Seq<char>) -> Seq<char> {
    trim_end(base, '/') + path
}

/// The identifiers in a list of models: those of its elements that have a
/// string under `id`, in their order.
pub open spec fn model_ids(items: Seq<JsonView>) -> Seq<Seq<char>> {
    items.filter(|item: JsonView| item.member("id"@) is Text).map_values(
        |item: JsonView| item.member("id"@)->Text_0,
    )
}

/// The models that a document lists: those in the array under `data`.
pub open spec fn listed_models(doc: JsonView) -> Option<Seq<Seq<char>>> {
    match doc.member("data"@) {
        JsonView::Array(items) => Some(model_ids(items)),
        _ => None,
    }
}

/// What a document comes to as an answer to the request for models.
pub open spec fn models_in(doc: JsonView) -> Result<Seq<Seq<char>>, ErrorView> {
    match listed_models(doc) {
        Some(ids) => Ok(ids),
        None => Err(invalid_data("No 'data' array in response"@)),
    }
}

/// What a body comes to as an answer to the request for models.
pub open spec fn models_in_body(body: Result<Vec<u8>, String>) -> Result<
    Seq<Seq<char>>,
    ErrorView,
> {
    match body {
        Err(reason) => Err(invalid_data("JSON parse error: "@ + reason@)),
        Ok(bytes) => match parsed_json(bytes@) {
            None => Err(invalid_data("JSON parse error: "@ + DECODE_ERROR@)),
            Some(doc) => models_in(doc),
        },
    }
}

/// Whether the body of an answer is read.
pub open spec fn body_counts(exchange: Exchange) -> bool {
    exchange matches Ok(status) && is_success_code(status.code())
}

/// What an exchange comes to as a request for models.
pub open spec fn fetched(exchange: Exchange, body: Result<Vec<u8>, String>) -> Result<
    Seq<Seq<char>>,
    ErrorView,
> {
    match exchange {
        Err(reason) => Err(other_error("Request failed: "@ + reason@)),
        Ok(status) => if is_success_code(status.code()) {
            models_in_body(body)
        } else {
            Err(other_error("Failed to fetch models: "@ + status_text(status.code())))
        },
    }
}

/// A list of models, or why there is none.
pub type Models = Result<Vec<String>, ClientError>;

/// The view of a list of models.
pub open spec fn models_view(r: Models) -> Result<Seq<Seq<char>>, ErrorView> {
    match r {
        Ok(models) => Ok(texts(models@)),
        Err(e) => Err(e@),
    }
}

/// What an exchange says of the server.
pub open spec fn server_state(exchange: Exchange) -> Result<(), ErrorView> {
    match exchange {
        Err(_) => Err(other_error(LEMONADE_CONNECTION_ERROR@)),
        Ok(status) => if is_success_code(status.code()) {
            Ok(())
        } else {
            Err(
                other_error(
                    "Server returned error: "@ + status_text(status.code()) + " "@
                        + LEMONADE_CONNECTION_ERROR@,
                ),
            )
        },
    }
}

/// What an exchange comes to as a request to load a model.
pub open spec fn loaded_via_http(exchange: Exchange) -> Result<(), ErrorView> {
    match exchange {
        Err(reason) => Err(other_error("Request failed: "@ + reason@)),
        Ok(status) => if is_success_code(status.code()) {
            Ok(())
        } else {
            Err(other_error("Failed to load model: "@ + status_text(status.code())))
        },
    }
}

/// The members of the document that asks for a model to be loaded.
pub open spec fn load_members(model: Seq<char>) -> Map<Seq<char>, JsonView> {
    map![
        "model"@ => JsonView::Text(model),
        "input"@ => JsonView::Text(Seq::empty()),
        "max_output_tokens"@ => JsonView::Number(Some(1u64)),
    ]
}

/// A client of the server at a base address.
pub struct LemonadeClient {
    base_url: String,
}

impl Clone for LemonadeClient {
    fn clone(&self) -> (r: LemonadeClient)
        ensures
            r.base() == self.base(),
    {
        LemonadeClient { base_url: self.base_url.clone() }
    }
}

impl LemonadeClient {
    /// The address of the server.
    pub closed spec fn base(&self) -> Seq<char> {
        self.base_url@
    }

    /// A client of the built-in provider.
    pub fn try_from_provider(config: &Config) -> (r: Result<LemonadeClient, ClientError>)
        ensures
            match r {
                Ok(client) => config.providers().contains_key(LEMONADE_OSS_PROVIDER_ID@)
                    && config.providers()[LEMONADE_OSS_PROVIDER_ID@] == Some(client.base()),
                Err(e) => if config.providers().contains_key(LEMONADE_OSS_PROVIDER_ID@) {
                    &&& config.providers()[LEMONADE_OSS_PROVIDER_ID@] is None
                    &&& e.kind == ErrorKind::InvalidData
                    &&& e.message@ == "oss provider must have a base_url"@
                } else {
                    &&& e.kind == ErrorKind::NotFound
                    &&& e.message@ == "Built-in provider "@ + LEMONADE_OSS_PROVIDER_ID@
                        + " not found"@
                },
            },
    {
        match config.provider(LEMONADE_OSS_PROVIDER_ID) {
            None => Err(
                ClientError {
                    kind: ErrorKind::NotFound,
                    message: "Built-in provider ".to_owned().concat(
                        LEMONADE_OSS_PROVIDER_ID,
                    ).concat(" not found"),
                },
            ),
            Some(info) => match &info.base_url {
                None => Err(
                    ClientError {
                        kind: ErrorKind::InvalidData,
                        message: "oss provider must have a base_url".to_owned(),
                    },
                ),
                Some(base_url) => Ok(LemonadeClient { base_url: base_url.clone() }),
            },
        }
    }

    /// A client of the server at `base_url`.
    pub fn from_base_url(base_url: String) -> (r: LemonadeClient)
        ensures
            r.base() == base_url@,
    {
        LemonadeClient { base_url }
    }

    fn endpoint_url(&self, path: &str) -> (r: String)
        ensures
            r@ == endpoint(self.base(), path@),
    {
        trim_end_char(self.base_url.as_str(), '/').to_owned().concat(path)
    }

    /// Where the server lists its models.
    pub fn models_url(&self) -> (r: String)
        ensures
            r@ == endpoint(self.base(), "/models"@),
    {
        self.endpoint_url("/models")
    }

    /// Where the server answers requests.
    pub fn responses_url(&self) -> (r: String)
        ensures
            r@ == endpoint(self.base(), "/responses"@),
    {
        self.endpoint_url("/responses")
    }

    /// Whether the server is up, from what came of a request for its models.
    pub fn check_server(&self, exchange: &Exchange) -> (r: Result<(), ClientError>)
        ensures
            outcome(r) == server_state(*exchange),
    {
        match exchange {
            Err(_) => Err(ClientError::other(LEMONADE_CONNECTION_ERROR.to_owned())),
            Ok(status) => if status.is_success() {
                Ok(())
            } else {
                let text = status.text();
                Err(
                    ClientError::other(
                        "Server returned error: ".to_owned().concat(text.as_str()).concat(
                            " ",
                        ).concat(LEMONADE_CONNECTION_ERROR),
                    ),
                )
            },
        }
    }

    /// The body of the request that loads `model`: it asks for one token in
    /// answer to nothing.
    pub fn load_request_body(model: &str) -> (r: Vec<u8>)
        ensures
            r@ == json_text(JsonView::Object(load_members(model@))),
            parsed_json(r@) == Some(JsonView::Object(load_members(model@))),
    {
        let mut fields: Vec<(String, FieldValue)> = Vec::new();
        let ghost f0 = fields@;
        fields.push(("model".to_owned(), FieldValue::Text(model.to_owned())));
        let ghost f1 = fields@;
        fields.push(("input".to_owned(), FieldValue::Text(String::new())));
        let ghost f2 = fields@;
        fields.push(("max_output_tokens".to_owned(), FieldValue::Number(1)));
        proof {
            assert(fields@.drop_last() == f2);
            assert(f2.drop_last() == f1);
            assert(f1.drop_last() == f0);
            reveal_with_fuel(fields_map, 4);
            assert(fields_map(fields@) =~= load_members(model@));
        }
        match write_object(&fields) {
            Ok(text) => text,
            Err(_) => Vec::new(),
        }
    }

    /// Whether a model was loaded, from what came of the request to load it.
    pub fn load_model_via_http(&self, exchange: &Exchange) -> (r: Result<(), ClientError>)
        ensures
            outcome(r) == loaded_via_http(*exchange),
    {
        match exchange {
            Err(reason) => Err(
                ClientError::other("Request failed: ".to_owned().concat(reason.as_str())),
            ),
            Ok(status) => if status.is_success() {
                Ok(())
            } else {
                let text = status.text();
                Err(
                    ClientError::other(
                        "Failed to load model: ".to_owned().concat(text.as_str()),
                    ),
                )
            },
        }
    }

    /// The models that a document lists.
    pub fn models_of(doc: &Json) -> (r: Models)
        ensures
            models_view(r) == models_in(doc@),
    {
        let items = match doc.member("data") {
            Some(data) => data.as_array(),
            None => None,
        };
        match items {
            None => Err(
                ClientError {
                    kind: ErrorKind::InvalidData,
                    message: "No 'data' array in response".to_owned(),
                },
            ),
            Some(items) => {
                let ghost all = doc@.member("data"@)->Array_0;
                let mut ids: Vec<String> = Vec::new();
                let mut i: usize = 0;
                assert(texts(ids@) =~= model_ids(all.take(0))) by {
                    reveal(Seq::filter);
                }
                while i < items.len()
                    invariant
                        i <= items@.len(),
                        all.len() == items@.len(),
                        forall|j: int| 0 <= j < items@.len() ==> #[trigger] items@[j]@ == all[j],
                        texts(ids@) == model_ids(all.take(i as int)),
                    decreases items.len() - i,
                {
                    let id = match items[i].member("id") {
                        Some(id) => id.as_text(),
                        None => None,
                    };
                    let ghost before = ids@;
                    proof {
                        assert(items@[i as int]@ == all[i as int]);
                        lemma_model_ids_step(all, i as int);
                    }
                    match id {
                        Some(id) => {
                            ids.push(id.clone());
                            assert(texts(ids@) =~= texts(before).push(id@));
                        },
                        None => {},
                    }
                    i = i + 1;
                }
                assert(all.take(i as int) == all);
                Ok(ids)
            },
        }
    }

    /// Whether the body of an answer is to be read.
    pub fn wants_body(exchange: &Exchange) -> (r: bool)
        ensures
            r == body_counts(*exchange),
    {
        match exchange {
            Ok(status) => status.is_success(),
            Err(_) => false,
        }
    }

    /// The models of the server, from what came of the request for them and of
    /// reading the answer's body.
    pub fn fetch_models(&self, exchange: &Exchange, body: &Result<Vec<u8>, String>) -> (r: Models)
        ensures
            models_view(r) == fetched(*exchange, *body),
    {
        match exchange {
            Err(reason) => Err(
                ClientError::other("Request failed: ".to_owned().concat(reason.as_str())),
            ),
            Ok(status) => if status.is_success() {
                match body {
                    Err(reason) => Err(
                        ClientError {
                            kind: ErrorKind::InvalidData,
                            message: "JSON parse error: ".to_owned().concat(reason.as_str()),
                        },
                    ),
                    Ok(bytes) => match parse_json(bytes.as_slice()) {
                        None => Err(
                            ClientError {
                                kind: ErrorKind::InvalidData,
                                message: "JSON parse error: ".to_owned().concat(DECODE_ERROR),
                            },
                        ),
                        Some(doc) => LemonadeClient::models_of(&doc),
                    },
                }
            } else {
                let text = status.text();
                Err(
                    ClientError::other(
                        "Failed to fetch models: ".to_owned().concat(text.as_str()),
                    ),
                )
            },
        }
    }
}

/// Slashes at the end of the server's address do not count, however many.
pub proof fn law_trailing_slashes_do_not_count(base: Seq<char>, slashes: nat, path: Seq<char>)
    ensures
        endpoint(base + Seq::new(slashes, |i: int| '/'), path) == endpoint(base, path),
    decreases slashes,
{
    let run = Seq::new(slashes, |i: int| '/');
    if slashes == 0 {
        assert(base + run == base);
    } else {
        let fewer = (slashes - 1) as nat;
        assert((base + run).last() == '/');
        assert((base + run).drop_last() == base + Seq::new(fewer, |i: int| '/'));
        law_trailing_slashes_do_not_count(base, fewer, path);
    }
}

/// The address of a path is the server's address up to its last character that
/// is no slash, and then the path.
pub proof fn law_endpoint_joins_once(base: Seq<char>, path: Seq<char>)
    ensures
        ({
            let kept = trim_end(base, '/');
            &&& endpoint(base, path) == base.take(kept.len() as int) + path
            &&& kept.len() <= base.len()
            &&& kept.len() > 0 ==> base[kept.len() - 1] != '/'
            &&& forall|i: int| kept.len() <= i < base.len() ==> base[i] == '/'
        }),
{
    lemma_trim_end_shape(base, '/');
}

/// A body makes no difference where it is not read.
pub proof fn law_unread_body_does_not_count(
    exchange: Exchange,
    body: Result<Vec<u8>, String>,
    other: Result<Vec<u8>, String>,
)
    requires
        !body_counts(exchange),
    ensures
        fetched(exchange, body) == fetched(exchange, other),
{
}

/// Models are listed only after a successful exchange whose body is a document
/// with an array under `data`.
pub proof fn law_models_need_a_data_array(exchange: Exchange, body: Result<Vec<u8>, String>)
    ensures
        fetched(exchange, body) is Ok <==> body_counts(exchange) && body is Ok && (parsed_json(
            body->Ok_0@,
        ) matches Some(doc) && doc.member("data"@) is Array),
{
}

/// Where every element of the list has a string under `id`, the list names them
/// all in order.
pub proof fn law_every_named_model_is_listed(items: Seq<JsonView>)
    requires
        forall|i: int| 0 <= i < items.len() ==> (#[trigger] items[i]).member("id"@) is Text,
    ensures
        model_ids(items) == Seq::new(
            items.len(),
            |i: int| items[i].member("id"@)->Text_0,
        ),
    decreases items.len(),
{
    if items.len() == 0 {
        reveal(Seq::filter);
        assert(model_ids(items) =~= Seq::<Seq<char>>::empty());
    } else {
        let n = items.len() - 1;
        assert(items.drop_last() == items.take(n));
        law_every_named_model_is_listed(items.take(n));
        lemma_model_ids_step(items, n);
        assert(items.take(n + 1) == items);
        assert(items[n].member("id"@) is Text);
    }
    assert(model_ids(items) =~= Seq::new(items.len(), |i: int| items[i].member("id"@)->Text_0));
}

/// Every model that is listed is named by an element of the list.
pub proof fn law_listed_models_are_named(items: Seq<JsonView>, id: Seq<char>)
    ensures
        model_ids(items).contains(id) <==> exists|i: int|
            0 <= i < items.len() && #[trigger] items[i].member("id"@) == JsonView::Text(id),
    decreases items.len(),
{
    if items.len() == 0 {
        reveal(Seq::filter);
        assert(model_ids(items) =~= Seq::<Seq<char>>::empty());
    } else {
        let n = items.len() - 1;
        let rest = items.take(n);
        law_listed_models_are_named(rest, id);
        lemma_model_ids_step(items, n);
        assert(items.take(n + 1) == items);
        let before = model_ids(rest);
        let after = model_ids(items);
        if after.contains(id) {
            let k = choose|k: int| 0 <= k < after.len() && after[k] == id;
            if k < before.len() {
                assert(before[k] == id);
                let i = choose|i: int|
                    0 <= i < rest.len() && #[trigger] rest[i].member("id"@) == JsonView::Text(id);
                assert(items[i].member("id"@) == JsonView::Text(id));
            } else {
                assert(items[n].member("id"@) == JsonView::Text(id));
            }
        }
        if exists|i: int|
            0 <= i < items.len() && #[trigger] items[i].member("id"@) == JsonView::Text(id) {
            let i = choose|i: int|
                0 <= i < items.len() && #[trigger] items[i].member("id"@) == JsonView::Text(id);
            if i < n {
                assert(rest[i].member("id"@) == JsonView::Text(id));
                let k = choose|k: int| 0 <= k < before.len() && before[k] == id;
                assert(after[k] == id);
            } else {
                assert(after[after.len() - 1] == id);
            }
        }
    }
}

proof fn lemma_model_ids_step(items: Seq<JsonView>, i: int)
    requires
        0 <= i < items.len(),
    ensures
        model_ids(items.take(i + 1)) == if items[i].member("id"@) is Text {
            model_ids(items.take(i)).push(items[i].member("id"@)->Text_0)
        } else {
            model_ids(items.take(i))
        },
{
    reveal(Seq::filter);
    assert(items.take(i + 1).drop_last() == items.take(i));
    assert(model_ids(items.take(i + 1)) =~= if items[i].member("id"@) is Text {
        model_ids(items.take(i)).push(items[i].member("id"@)->Text_0)
    } else {
        model_ids(items.take(i))
    });
}

/// The identifiers of a list are the strings under `id` of its elements: of all
/// that have one, each once, and in the order of the elements. `at` tells where
/// each of them comes from.
pub proof fn law_models_are_the_ids_in_order(items: Seq<JsonView>) -> (at: Seq<int>)
    ensures
        at.len() == model_ids(items).len(),
        forall|k: int|
            0 <= k < at.len() ==> 0 <= #[trigger] at[k] < items.len() && (items[at[k]] matches
                JsonView::Object(m) && m.contains_key("id"@) && m["id"@] == JsonView::Text(
                model_ids(items)[k],
            )),
        forall|a: int, b: int| 0 <= a < b < at.len() ==> at[a] < at[b],
        forall|i: int|
            0 <= i < items.len() && (#[trigger] items[i] matches JsonView::Object(m)
                && m.contains_key("id"@) && m["id"@] is Text) ==> at.contains(i),
    decreases items.len(),
{
    if items.len() == 0 {
        reveal(Seq::filter);
        assert(model_ids(items) =~= Seq::<Seq<char>>::empty());
        Seq::empty()
    } else {
        let n = items.len() - 1;
        let rest = items.take(n);
        let before = law_models_are_the_ids_in_order(rest);
        lemma_model_ids_step(items, n);
        assert(items.take(n + 1) == items);
        let at = if items[n].member("id"@) is Text {
            before.push(n)
        } else {
            before
        };
        assert forall|k: int| 0 <= k < at.len() implies 0 <= #[trigger] at[k] < items.len() && (
        items[at[k]] matches JsonView::Object(m) && m.contains_key("id"@) && m["id"@]
            == JsonView::Text(model_ids(items)[k])) by {
            if k < before.len() {
                assert(at[k] == before[k]);
                assert(rest[before[k]] == items[at[k]]);
            }
        }
        assert forall|i: int|
            0 <= i < items.len() && (#[trigger] items[i] matches JsonView::Object(m)
                && m.contains_key("id"@) && m["id"@] is Text) implies at.contains(i) by {
            if i < n {
                assert(rest[i] == items[i]);
                let k = choose|k: int| 0 <= k < before.len() && before[k] == i;
                assert(at[k] == i);
            } else {
                assert(at[at.len() - 1] == n);
            }
        }
        at
    }
}

/// After a successful exchange whose body is a document with an array under
/// `data`, the models are the strings under `id` of the elements of that array: of
/// all that have one, each once, and in the order of the elements.
pub proof fn law_fetching_lists_every_id(
    exchange: Exchange,
    body: Result<Vec<u8>, String>,
    items: Seq<JsonView>,
    result: Models,
) -> (at: Seq<int>)
    requires
        models_view(result) == fetched(exchange, body),
        exchange matches Ok(status) && 200 <= status.code() <= 299,
        body is Ok,
        parsed_json(body->Ok_0@) matches Some(JsonView::Object(members)) && members.contains_key(
            "data"@,
        ) && members["data"@] == JsonView::Array(items),
    ensures
        result is Ok,
        at.len() == result->Ok_0@.len(),
        forall|k: int|
            0 <= k < at.len() ==> 0 <= #[trigger] at[k] < items.len() && (items[at[k]] matches
                JsonView::Object(m) && m.contains_key("id"@) && m["id"@] == JsonView::Text(
                result->Ok_0@[k]@,
            )),
        forall|a: int, b: int| 0 <= a < b < at.len() ==> at[a] < at[b],
        forall|i: int|
            0 <= i < items.len() && (#[trigger] items[i] matches JsonView::Object(m)
                && m.contains_key("id"@) && m["id"@] is Text) ==> at.contains(i),
{
    let at = law_models_are_the_ids_in_order(items);
    let ids = texts(result->Ok_0@);
    assert(ids == model_ids(items));
    assert forall|k: int| 0 <= k < at.len() implies 0 <= #[trigger] at[k] < items.len() && (
    items[at[k]] matches JsonView::Object(m) && m.contains_key("id"@) && m["id"@]
        == JsonView::Text(result->Ok_0@[k]@)) by {
        assert(ids[k] == result->Ok_0@[k]@);
    }
    at
}

/// Where every element of the array has a string under `id`, there are as many
/// models as elements, and each model is the one of its element.
pub proof fn law_fetching_keeps_every_place(
    exchange: Exchange,
    body: Result<Vec<u8>, String>,
    items: Seq<JsonView>,
    result: Models,
)
    requires
        models_view(result) == fetched(exchange, body),
        exchange matches Ok(status) && 200 <= status.code() <= 299,
        body is Ok,
        parsed_json(body->Ok_0@) matches Some(JsonView::Object(members)) && members.contains_key(
            "data"@,
        ) && members["data"@] == JsonView::Array(items),
        forall|i: int|
            0 <= i < items.len() ==> (#[trigger] items[i] matches JsonView::Object(m)
                && m.contains_key("id"@) && m["id"@] is Text),
    ensures
        result is Ok,
        result->Ok_0@.len() == items.len(),
        forall|i: int|
            0 <= i < items.len() ==> (#[trigger] items[i] matches JsonView::Object(m) && m["id"@]
                == JsonView::Text(result->Ok_0@[i]@)),
{
    assert forall|i: int| 0 <= i < items.len() implies (#[trigger] items[i]).member(
        "id"@,
    ) is Text by {}
    law_every_named_model_is_listed(items);
    let ids = texts(result->Ok_0@);
    assert(ids == model_ids(items));
    assert forall|i: int| 0 <= i < items.len() implies (#[trigger] items[i] matches
        JsonView::Object(m) && m["id"@] == JsonView::Text(result->Ok_0@[i]@)) by {
        assert(ids[i] == result->Ok_0@[i]@);
    }
}

/// Each way in which the models cannot be listed has its own failure: there was no
/// answer, the answer does not report success, its body could not be read, the
/// body is no document, or the document has no array under `data`.
pub proof fn law_fetching_fails(
    exchange: Exchange,
    body: Result<Vec<u8>, String>,
    result: Models,
)
    requires
        models_view(result) == fetched(exchange, body),
    ensures
        exchange matches Err(reason) ==> (result matches Err(e) && e.kind == ErrorKind::Other
            && e.message@ == "Request failed: "@ + reason@),
        exchange matches Ok(status) ==> !(200 <= status.code() <= 299) ==> (result matches Err(e)
            && e.kind == ErrorKind::Other && e.message@ == "Failed to fetch models: "@ + decimal(
            status.code() as int,
        ) + seq![' '] + status_phrase(status.code())),
        exchange matches Ok(status) ==> 200 <= status.code() <= 299 ==> (body matches Err(reason)
            ==> (result matches Err(e) && e.kind == ErrorKind::InvalidData && e.message@
            == "JSON parse error: "@ + reason@)),
        exchange matches Ok(status) ==> 200 <= status.code() <= 299 ==> (body matches Ok(bytes)
            ==> parsed_json(bytes@) is None ==> (result matches Err(e) && e.kind
            == ErrorKind::InvalidData && e.message@ == "JSON parse error: "@
            + "error decoding response body"@)),
        exchange matches Ok(status) ==> 200 <= status.code() <= 299 ==> (body matches Ok(bytes)
            ==> (parsed_json(bytes@) matches Some(doc) ==> !(doc matches JsonView::Object(m)
            && m.contains_key("data"@) && m["data"@] is Array) ==> (result matches Err(e) && e.kind
            == ErrorKind::InvalidData && e.message@ == "No 'data' array in response"@))),
{
    if let Ok(status) = exchange {
        assert("Failed to fetch models: "@ + status_text(status.code())
            =~= "Failed to fetch models: "@ + decimal(status.code() as int) + seq![' ']
            + status_phrase(status.code()));
    }
}

/// The server is up if and only if it answered and reported success; else the user
/// is told what it reported, and how to install and start it.
pub proof fn law_server_is_up(exchange: Exchange, result: Result<(), ClientError>)
    requires
        outcome(result) == server_state(exchange),
    ensures
        result is Ok <==> (exchange matches Ok(status) && 200 <= status.code() <= 299),
        exchange is Err ==> (result matches Err(e) && e.kind == ErrorKind::Other && e.message@
            == "Lemonade Server is not responding. Install it with `winget install --id AMD.LemonadeServer` and start LemonadeServer.exe."@),
        exchange matches Ok(status) ==> !(200 <= status.code() <= 299) ==> (result matches Err(e)
            && e.kind == ErrorKind::Other && e.message@ == "Server returned error: "@ + decimal(
            status.code() as int,
        ) + seq![' '] + status_phrase(status.code()) + " "@
            + "Lemonade Server is not responding. Install it with `winget install --id AMD.LemonadeServer` and start LemonadeServer.exe."@),
{
    if let Ok(status) = exchange {
        assert("Server returned error: "@ + status_text(status.code())
            =~= "Server returned error: "@ + decimal(status.code() as int) + seq![' ']
            + status_phrase(status.code()));
    }
}

/// The server loaded a model if and only if it answered and reported success; else
/// the failure tells what it reported, or why there is no answer.
pub proof fn law_server_loads(exchange: Exchange, result: Result<(), ClientError>)
    requires
        outcome(result) == loaded_via_http(exchange),
    ensures
        result is Ok <==> (exchange matches Ok(status) && 200 <= status.code() <= 299),
        exchange matches Err(reason) ==> (result matches Err(e) && e.kind == ErrorKind::Other
            && e.message@ == "Request failed: "@ + reason@),
        exchange matches Ok(status) ==> !(200 <= status.code() <= 299) ==> (result matches Err(e)
            && e.kind == ErrorKind::Other && e.message@ == "Failed to load model: "@ + decimal(
            status.code() as int,
        ) + seq![' '] + status_phrase(status.code())),
{
    if let Ok(status) = exchange {
        assert("Failed to load model: "@ + status_text(status.code())
            =~= "Failed to load model: "@ + decimal(status.code() as int) + seq![' ']
            + status_phrase(status.code()));
    }
}

/// The body of an answer is read if and only if there is one that reports success.
pub proof fn law_body_is_read_on_success(exchange: Exchange)
    ensures
        body_counts(exchange) <==> (exchange matches Ok(status) && 200 <= status.code() <= 299),
{
}

/// The request to load a model names the model, asks about nothing, wants one
/// token, and says no more.
pub proof fn law_load_request(model: Seq<char>, key: Seq<char>)
    ensures
        load_members(model).contains_key(key) <==> key == "model"@ || key == "input"@ || key
            == "max_output_tokens"@,
        load_members(model)["model"@] == JsonView::Text(model),
        load_members(model)["input"@] == JsonView::Text(Seq::empty()),
        load_members(model)["max_output_tokens"@] == JsonView::Number(Some(1)),
{
    reveal_strlit("model");
    reveal_strlit("input");
    reveal_strlit("max_output_tokens");
    assert("model"@[0] != "input"@[0]);
    assert("model"@.len() != "max_output_tokens"@.len());
    assert("input"@.len() != "max_output_tokens"@.len());
}

/// Where the first `n` characters of the server's address are what is left of it
/// without the slashes at its end, a path is joined to those.
pub proof fn law_path_follows_the_address(base: Seq<char>, n: int, path: Seq<char>)
    requires
        0 <= n <= base.len(),
        n > 0 ==> base[n - 1] != '/',
        forall|i: int| n <= i < base.len() ==> base[i] == '/',
    ensures
        endpoint(base, path) == base.take(n) + path,
{
    lemma_trim_end_shape(base, '/');
    let kept = trim_end(base, '/').len() as int;
    if kept < n {
        assert(base[n - 1] == '/');
    }
    if n < kept {
        assert(trim_end(base, '/').last() == base[kept - 1]);
    }
}

/// A failure is of the kind that is named, with the message that is given.
pub proof fn law_failure_kinds(message: Seq<char>)
    ensures
        invalid_data(message).kind == ErrorKind::InvalidData,
        invalid_data(message).message == message,
        not_found(message).kind == ErrorKind::NotFound,
        not_found(message).message == message,
{
}

/// The provider, the time limit and the type of a body that every client goes by.
pub proof fn law_client_settings()
    ensures
        LEMONADE_OSS_PROVIDER_ID@ == "lemonade"@,
        CONNECT_TIMEOUT_SECS == 5,
        JSON_CONTENT_TYPE@ == "application/json"@,
{
}

} // verus!
