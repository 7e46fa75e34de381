use vstd::prelude::*;

use crate::model::stats::OllamaModel;
use crate::ollama::json::{value_get, JsonNumber, JsonValue};

verus! {

/// Why a model list could not be read from a server's reply.
#[derive(Debug, Clone, Copy, PartialEq, Eq, Structural)]
pub enum ListModelsError {
    /// The reply has no `models` array.
    MissingModelsArray,
}

/// `suffix` ends `text`.
pub open spec fn ends_with(text: Seq<char>, suffix: Seq<char>) -> bool {
    suffix.len() <= text.len() && text.subrange(text.len() - suffix.len(), text.len() as int) == suffix
}

/// The base URL used for a host: the host itself, without a trailing
/// `/api/tags` where it has one.
pub open spec fn base_url_of(host: Seq<char>) -> Seq<char> {
    if ends_with(host, "/api/tags"@) {
        host.subrange(0, host.len() - "/api/tags"@.len())
    } else {
        host
    }
}

/// The model that a list entry describes, if it describes one: an object with
/// a string `name`, an unsigned integer `parameters`, a `quantization` member
/// (a string, or anything else for none), a numeric `size` and a string
/// `modified_at`.
pub open spec fn model_of(entry: JsonValue) -> Option<OllamaModel> {
    match (
        value_get(entry, "name"@),
        value_get(entry, "parameters"@),
        value_get(entry, "quantization"@),
        value_get(entry, "size"@),
        value_get(entry, "modified_at"@),
    ) {
        (
            Some(JsonValue::Text(name)),
            Some(JsonValue::Number(parameters)),
            Some(quantization),
            Some(JsonValue::Number(size)),
            Some(JsonValue::Text(modified_at)),
        ) => match (parameters.as_u64, size.as_f64_bits) {
            (Some(p), Some(s)) => Some(
                OllamaModel {
                    name,
                    parameters: p,
                    quantization: match quantization {
                        JsonValue::Text(q) => Some(q),
                        _ => None,
                    },
                    size: s,
                    modified_at,
                },
            ),
            _ => None,
        },
        _ => None,
    }
}

/// The models that a list of entries describes, in order, skipping the
/// entries that describe none.
pub open spec fn decoded_models(entries: Seq<JsonValue>) -> Seq<OllamaModel>
    decreases entries.len(),
{
    if entries.len() == 0 {
        Seq::empty()
    } else {
        let earlier = decoded_models(entries.drop_last());
        match model_of(entries.last()) {
            Some(m) => earlier.push(m),
            None => earlier,
        }
    }
}

/// `a` and `b` hold the same text.
fn same_text(a: &str, b: &str) -> (res: bool)
    ensures
        res == (a@ == b@),
{
    String::from_str(a) == String::from_str(b)
}

/// Whether `text` ends with `suffix`.
fn text_ends_with(text: &str, suffix: &str) -> (res: bool)
    ensures
        res == ends_with(text@, suffix@),
{
    let n = text.unicode_len();
    let k = suffix.unicode_len();
    if k <= n {
        same_text(text.substring_char(n - k, n), suffix)
    } else {
        false
    }
}

/// `text` followed by `tail`.
fn joined(text: &str, tail: &str) -> (res: String)
    ensures
        res@ == text@ + tail@,
{
    let mut out = String::from_str(text);
    out.append(tail);
    out
}

/// The host that the client talks to: the configured one, or the local default.
pub fn host_setting(configured: Option<String>) -> (res: String)
    ensures
        res@ == match configured {
            Some(h) => h@,
            None => "http://localhost:11434"@,
        },
{
    match configured {
        Some(h) => h,
        None => String::from_str("http://localhost:11434"),
    }
}

/// An HTTP status code reports success: it lies in the 2xx range.
pub open spec fn is_success_code(code: u16) -> bool {
    200 <= code < 300
}

/// Whether a request answered with the status `code` succeeded.
pub fn status_is_success(code: u16) -> (res: bool)
    ensures
        res == is_success_code(code),
{
    200 <= code && code < 300
}

/// The base URL for an Ollama host.
pub fn base_url_for_host(host: &str) -> (res: String)
    ensures
        res@ == base_url_of(host@),
{
    if text_ends_with(host, "/api/tags") {
        let n = host.unicode_len();
        let k = "/api/tags".unicode_len();
        String::from_str(host.substring_char(0, n - k))
    } else {
        String::from_str(host)
    }
}

/// The URL from which the model list is fetched: the base URL followed by `/api/tags`.
pub fn tags_url(base_url: &str) -> (res: String)
    ensures
        res@ == base_url@ + "/api/tags"@,
{
    joined(base_url, "/api/tags")
}

/// The URL to which generate requests go: the base URL followed by `/api/generate`.
pub fn generate_url(base_url: &str) -> (res: String)
    ensures
        res@ == base_url@ + "/api/generate"@,
{
    joined(base_url, "/api/generate")
}

/// The body of a generate request for a model: the prompt `test`, without streaming.
pub fn generate_request(model_name: &str) -> (res: JsonValue)
    ensures
        is_text_member(res, 0, "model"@, model_name@),
        is_text_member(res, 1, "prompt"@, "test"@),
        is_member(res, 2, "stream"@, JsonValue::Bool(false)),
        res matches JsonValue::Object(members) && members@.len() == 3,
{
    let mut members: Vec<(String, JsonValue)> = Vec::new();
    members.push((String::from_str("model"), JsonValue::Text(String::from_str(model_name))));
    members.push((String::from_str("prompt"), JsonValue::Text(String::from_str("test"))));
    members.push((String::from_str("stream"), JsonValue::Bool(false)));
    JsonValue::Object(members)
}

/// Member `i` of the object `value` has key `key` and value `member`.
pub open spec fn is_member(value: JsonValue, i: int, key: Seq<char>, member: JsonValue) -> bool {
    match value {
        JsonValue::Object(members) => 0 <= i < members@.len() && members@[i].0@ == key && members@[i].1 == member,
        _ => false,
    }
}

/// Member `i` of the object `value` has key `key` and the string `text` as value.
pub open spec fn is_text_member(value: JsonValue, i: int, key: Seq<char>, text: Seq<char>) -> bool {
    match value {
        JsonValue::Object(members) => {
            &&& 0 <= i < members@.len()
            &&& members@[i].0@ == key
            &&& members@[i].1 matches JsonValue::Text(t) && t@ == text
        },
        _ => false,
    }
}

/// The model that a list entry describes, if any.
fn model_from_entry(entry: &JsonValue) -> (res: Option<OllamaModel>)
    ensures
        res == model_of(*entry),
{
    let name = match entry.get("name") {
        Some(v) => match v.as_str() {
            Some(s) => s.clone(),
            None => return None,
        },
        None => return None,
    };
    let parameters = match entry.get("parameters") {
        Some(v) => match v.as_u64() {
            Some(p) => p,
            None => return None,
        },
        None => return None,
    };
    let quantization = match entry.get("quantization") {
        Some(v) => match v.as_str() {
            Some(q) => Some(q.clone()),
            None => None,
        },
        None => return None,
    };
    let size = match entry.get("size") {
        Some(v) => match v.as_f64_bits() {
            Some(s) => s,
            None => return None,
        },
        None => return None,
    };
    let modified_at = match entry.get("modified_at") {
        Some(v) => match v.as_str() {
            Some(m) => m.clone(),
            None => return None,
        },
        None => return None,
    };
    Some(OllamaModel { name, parameters, quantization, size, modified_at })
}

/// The models listed in a reply of the tags endpoint.
pub fn models_from_json(data: &JsonValue) -> (res: Result<Vec<OllamaModel>, ListModelsError>)
    ensures
        match value_get(*data, "models"@) {
            Some(JsonValue::Array(entries)) => res matches Ok(models) && models@ == decoded_models(entries@),
            _ => res == Err::<Vec<OllamaModel>, ListModelsError>(ListModelsError::MissingModelsArray),
        },
{
    let entries = match data.get("models") {
        Some(v) => match v.as_array() {
            Some(items) => items,
            None => return Err(ListModelsError::MissingModelsArray),
        },
        None => return Err(ListModelsError::MissingModelsArray),
    };
    let n = entries.len();
    let mut models: Vec<OllamaModel> = Vec::new();
    let mut i: usize = 0;
    while i < n
        invariant
            n == entries@.len(),
            i <= n,
            models@ == decoded_models(entries@.subrange(0, i as int)),
        decreases n - i,
    {
        assert(entries@.subrange(0, i + 1).drop_last() =~= entries@.subrange(0, i as int));
        match model_from_entry(&entries[i]) {
            Some(m) => models.push(m),
            None => {},
        }
        i = i + 1;
    }
    assert(entries@.subrange(0, n as int) =~= entries@);
    Ok(models)
}

/// A trailing `/api/tags` on a host changes none of the requests: the list
/// and generate URLs of `host` and of `host` followed by `/api/tags` agree,
/// for every host that does not itself end in `/api/tags`.
pub proof fn lemma_tagged_host_gives_same_urls(host: Seq<char>)
    requires
        !ends_with(host, "/api/tags"@),
    ensures
        base_url_of(host + "/api/tags"@) == base_url_of(host),
        base_url_of(host + "/api/tags"@) + "/api/tags"@ == base_url_of(host) + "/api/tags"@,
        base_url_of(host + "/api/tags"@) + "/api/generate"@ == base_url_of(host) + "/api/generate"@,
{
    let suffix = "/api/tags"@;
    let with = host + suffix;
    assert(with.subrange(with.len() - suffix.len(), with.len() as int) =~= suffix);
    assert(with.subrange(0, with.len() - suffix.len()) =~= host);
}

/// Entries decode one by one: the models of two runs of entries are the
/// models of the first run followed by those of the second.
pub proof fn lemma_decoding_is_entrywise(first: Seq<JsonValue>, second: Seq<JsonValue>)
    ensures
        decoded_models(first + second) == decoded_models(first) + decoded_models(second),
    decreases second.len(),
{
    if second.len() == 0 {
        assert(first + second =~= first);
        assert(decoded_models(first) + decoded_models(second) =~= decoded_models(first));
    } else {
        let all = first + second;
        lemma_decoding_is_entrywise(first, second.drop_last());
        assert(all.drop_last() =~= first + second.drop_last());
        assert(all.last() == second.last());
        match model_of(second.last()) {
            Some(m) => {
                assert(decoded_models(first) + decoded_models(second) =~= (decoded_models(first)
                    + decoded_models(second.drop_last())).push(m));
            },
            None => {},
        }
    }
}

} // verus!
