//! Requests, and how a submitted payload is read as one.

use crate::json::{entry_views, find, item_views, lemma_view_of_lists, lookup, Json, JsonView};
use crate::text::{spells, text_view};
use vstd::prelude::*;

verus! {

/// Descriptive metadata of a request. The queue carries it and never reads it.
#[derive(Debug, PartialEq, Eq)]
pub struct RequestTag {
    pub datapointer: String,
    pub callback: Option<String>,
    pub extension: Option<String>,
}

impl Clone for RequestTag {
    /// A copy that says what this tag says.
    fn clone(&self) -> (copy: RequestTag)
        ensures
            copy@ == self@,
    {
        RequestTag {
            datapointer: self.datapointer.clone(),
            callback: match &self.callback {
                Some(s) => Some(s.clone()),
                None => None,
            },
            extension: match &self.extension {
                Some(s) => Some(s.clone()),
                None => None,
            },
        }
    }
}

/// What a `RequestTag` says.
pub struct RequestTagView {
    pub datapointer: Seq<char>,
    pub callback: Option<Seq<char>>,
    pub extension: Option<Seq<char>>,
}

impl View for RequestTag {
    type V = RequestTagView;

    open spec fn view(&self) -> RequestTagView {
        RequestTagView {
            datapointer: self.datapointer@,
            callback: text_view(self.callback),
            extension: text_view(self.extension),
        }
    }
}

/// One outbound call: a command, its named parameters and an optional tag.
#[derive(Debug, PartialEq)]
pub struct ApiRequest {
    pub cmd: String,
    pub params: Vec<(String, Json)>,
    pub tag: Option<RequestTag>,
}

impl Clone for ApiRequest {
    /// A copy that says what this request says.
    fn clone(&self) -> (copy: ApiRequest)
        ensures
            copy@ == self@,
    {
        let mut params: Vec<(String, Json)> = Vec::new();
        let mut i: usize = 0;
        while i < self.params.len()
            invariant
                i <= self.params.len(),
                entry_views(params@) == entry_views(self.params@).take(i as int),
            decreases self.params.len() - i,
        {
            let entry = (self.params[i].0.clone(), self.params[i].1.clone());
            proof {
                assert(entry_views(params@.push(entry)) =~= entry_views(params@).push(
                    (entry.0@, entry.1@),
                ));
                assert(entry_views(self.params@).take(i + 1) =~= entry_views(self.params@).take(
                    i as int,
                ).push((self.params@[i as int].0@, self.params@[i as int].1@)));
            }
            params.push(entry);
            i += 1;
        }
        proof {
            assert(entry_views(params@) =~= entry_views(self.params@));
        }
        ApiRequest {
            cmd: self.cmd.clone(),
            params,
            tag: match &self.tag {
                Some(tag) => Some(tag.clone()),
                None => None,
            },
        }
    }
}

/// What an `ApiRequest` says: the parameters stand in the order in which
/// they were written down.
pub struct ApiRequestView {
    pub cmd: Seq<char>,
    pub params: Seq<(Seq<char>, JsonView)>,
    pub tag: Option<RequestTagView>,
}

impl View for ApiRequest {
    type V = ApiRequestView;

    open spec fn view(&self) -> ApiRequestView {
        ApiRequestView {
            cmd: self.cmd@,
            params: entry_views(self.params@),
            tag: match self.tag {
                Some(tag) => Some(tag@),
                None => None,
            },
        }
    }
}

/// The views of a sequence of requests.
pub open spec fn views(requests: Seq<ApiRequest>) -> Seq<ApiRequestView> {
    requests.map_values(|r: ApiRequest| r@)
}

/// Why a submitted payload is not a request.
#[derive(Debug, Clone, Copy, PartialEq, Eq, Structural)]
pub enum DecodeError {
    /// The payload is not a JSON object.
    NotAnObject,
    /// The object has no `_cmd` entry.
    MissingCommand,
    /// The `_cmd` entry is not a string.
    InvalidCommand,
    /// The `_tag` entry is there and is not a well-formed tag.
    InvalidTag,
}

impl DecodeError {
    /// The sentence that tells the error.
    pub open spec fn message_of(self) -> Seq<char> {
        match self {
            DecodeError::NotAnObject => "request is not an object"@,
            DecodeError::MissingCommand => "missing field `_cmd`"@,
            DecodeError::InvalidCommand => "field `_cmd` is not a string"@,
            DecodeError::InvalidTag => "field `_tag` is not a request tag"@,
        }
    }

    /// The sentence that tells the error.
    pub fn message(&self) -> (text: &'static str)
        ensures
            text@ == self.message_of(),
    {
        match self {
            DecodeError::NotAnObject => "request is not an object",
            DecodeError::MissingCommand => "missing field `_cmd`",
            DecodeError::InvalidCommand => "field `_cmd` is not a string",
            DecodeError::InvalidTag => "field `_tag` is not a request tag",
        }
    }
}

/// The key of the command name.
pub open spec fn cmd_key() -> Seq<char> {
    "_cmd"@
}

/// The key of the tag.
pub open spec fn tag_key() -> Seq<char> {
    "_tag"@
}

/// Whether an optional entry counts as left out: it is missing, or null.
pub open spec fn left_out(value: Option<JsonView>) -> bool {
    value is None || value == Some(JsonView::Null)
}

/// Whether an optional entry is acceptable where a text may stand: it is left
/// out, or a string.
pub open spec fn text_or_left_out(value: Option<JsonView>) -> bool {
    left_out(value) || (value matches Some(JsonView::Text(_)))
}

/// The text that an optional entry holds.
pub open spec fn text_of(value: Option<JsonView>) -> Option<Seq<char>> {
    match value {
        Some(JsonView::Text(s)) => Some(s),
        _ => None,
    }
}

/// The tag that a list of fields spells out, where it does: `datapointer` must
/// be a string, `callback` and `extension` may each be left out or be a
/// string, and other fields are passed over.
pub open spec fn tag_of_fields(fields: Seq<(Seq<char>, JsonView)>) -> Option<RequestTagView> {
    let datapointer = lookup(fields, "datapointer"@);
    let callback = lookup(fields, "callback"@);
    let extension = lookup(fields, "extension"@);
    if (datapointer matches Some(JsonView::Text(_))) && text_or_left_out(callback) && text_or_left_out(
        extension,
    ) {
        Some(
            RequestTagView {
                datapointer: text_of(datapointer)->0,
                callback: text_of(callback),
                extension: text_of(extension),
            },
        )
    } else {
        None
    }
}

/// The tag that a payload's `_tag` entry stands for: none where the entry is
/// left out, the tag that an object spells out, and an error otherwise.
pub open spec fn tag_of_entry(value: Option<JsonView>) -> Result<Option<RequestTagView>, DecodeError> {
    if left_out(value) {
        Ok(None)
    } else {
        match value {
            Some(JsonView::Object(fields)) => match tag_of_fields(fields) {
                Some(tag) => Ok(Some(tag)),
                None => Err(DecodeError::InvalidTag),
            },
            _ => Err(DecodeError::InvalidTag),
        }
    }
}

/// The parameters among a payload's entries: all but those filed under `_cmd`
/// or `_tag`, in their order.
pub open spec fn parameters(entries: Seq<(Seq<char>, JsonView)>) -> Seq<(Seq<char>, JsonView)> {
    entries.filter(|e: (Seq<char>, JsonView)| e.0 != cmd_key() && e.0 != tag_key())
}

/// The request that a payload stands for, or the reason why it stands for
/// none. Where a key occurs more than once, its first entry counts.
pub open spec fn decoded(payload: JsonView) -> Result<ApiRequestView, DecodeError> {
    match payload {
        JsonView::Object(entries) => match lookup(entries, cmd_key()) {
            None => Err(DecodeError::MissingCommand),
            Some(JsonView::Text(cmd)) => match tag_of_entry(lookup(entries, tag_key())) {
                Ok(tag) => Ok(ApiRequestView { cmd, params: parameters(entries), tag }),
                Err(e) => Err(e),
            },
            Some(_) => Err(DecodeError::InvalidCommand),
        },
        _ => Err(DecodeError::NotAnObject),
    }
}

/// Reads an entry of a tag where a text may stand.
fn optional_text(fields: &Vec<(String, Json)>, key: &str) -> (text: Option<Option<String>>)
    ensures
        match text {
            Some(read) => text_or_left_out(lookup(entry_views(fields@), key@)) && text_view(read)
                == text_of(lookup(entry_views(fields@), key@)),
            None => !text_or_left_out(lookup(entry_views(fields@), key@)),
        },
{
    match find(fields, key) {
        None => Some(None),
        Some(Json::Null) => Some(None),
        Some(Json::Text(s)) => Some(Some(s.clone())),
        Some(_) => None,
    }
}

impl RequestTag {
    /// Reads a tag from the fields of a JSON object.
    pub fn from_fields(fields: &Vec<(String, Json)>) -> (tag: Option<RequestTag>)
        ensures
            match tag {
                Some(read) => tag_of_fields(entry_views(fields@)) == Some(read@),
                None => tag_of_fields(entry_views(fields@)) is None,
            },
    {
        let datapointer = match find(fields, "datapointer") {
            Some(Json::Text(s)) => s.clone(),
            _ => { return None; },
        };
        let callback = match optional_text(fields, "callback") {
            Some(read) => read,
            None => { return None; },
        };
        let extension = match optional_text(fields, "extension") {
            Some(read) => read,
            None => { return None; },
        };
        Some(RequestTag { datapointer, callback, extension })
    }
}

/// Keeps the entries that are parameters, in their order.
fn keep_parameters(entries: Vec<(String, Json)>) -> (params: Vec<(String, Json)>)
    ensures
        entry_views(params@) == parameters(entry_views(entries@)),
{
    let mut params: Vec<(String, Json)> = Vec::new();
    let ghost all = entry_views(entries@);
    proof {
        assert(entry_views(params@) =~= parameters(all.take(0)));
    }
    for entry in it: entries
        invariant
            all == entry_views(it.seq()),
            entry_views(params@) == parameters(all.take(it.index() as int)),
    {
        proof {
            let i = it.index() as int;
            reveal(Seq::filter);
            assert(all.take(i + 1).drop_last() =~= all.take(i));
            assert(all.take(i + 1).last() == (entry.0@, entry.1@));
            assert(entry_views(params@.push(entry)) =~= entry_views(params@).push(
                (entry.0@, entry.1@),
            ));
        }
        if !spells(&entry.0, "_cmd") && !spells(&entry.0, "_tag") {
            params.push(entry);
        }
    }
    proof {
        assert(all.take(all.len() as int) =~= all);
    }
    params
}

impl ApiRequest {
    /// Reads a submitted payload as a request: an object with a string under
    /// `_cmd`, optionally a tag under `_tag`, and parameters under all other
    /// keys. The payload is used up; its parameter values pass into the
    /// request as they are.
    pub fn decode(payload: Json) -> (request: Result<ApiRequest, DecodeError>)
        ensures
            match request {
                Ok(read) => decoded(payload@) == Ok::<ApiRequestView, DecodeError>(read@),
                Err(e) => decoded(payload@) == Err::<ApiRequestView, DecodeError>(e),
            },
    {
        proof {
            lemma_view_of_lists(payload);
        }
        let entries = match payload {
            Json::Object(entries) => entries,
            _ => { return Err(DecodeError::NotAnObject); },
        };
        let cmd = match find(&entries, "_cmd") {
            None => { return Err(DecodeError::MissingCommand); },
            Some(Json::Text(s)) => s.clone(),
            Some(_) => { return Err(DecodeError::InvalidCommand); },
        };
        let tag_entry = find(&entries, "_tag");
        proof {
            if let Some(found) = tag_entry {
                lemma_view_of_lists(*found);
            }
        }
        let tag = match tag_entry {
            None => None,
            Some(Json::Null) => None,
            Some(Json::Object(fields)) => match RequestTag::from_fields(fields) {
                Some(read) => Some(read),
                None => { return Err(DecodeError::InvalidTag); },
            },
            Some(_) => { return Err(DecodeError::InvalidTag); },
        };
        let params = keep_parameters(entries);
        Ok(ApiRequest { cmd, params, tag })
    }
}

/// The entry that an optional text is written as: none where it is missing.
pub open spec fn optional_field(key: Seq<char>, text: Option<Seq<char>>) -> Seq<
    (Seq<char>, JsonView),
> {
    match text {
        Some(s) => seq![(key, JsonView::Text(s))],
        None => Seq::empty(),
    }
}

/// The fields that a tag is written as: `datapointer`, then `callback` and
/// `extension` where they are there.
pub open spec fn tag_fields(tag: RequestTagView) -> Seq<(Seq<char>, JsonView)> {
    seq![("datapointer"@, JsonView::Text(tag.datapointer))] + optional_field(
        "callback"@,
        tag.callback,
    ) + optional_field("extension"@, tag.extension)
}

/// The entry that an optional tag is written as: none where it is missing.
pub open spec fn tag_entry(tag: Option<RequestTagView>) -> Seq<(Seq<char>, JsonView)> {
    match tag {
        Some(t) => seq![(tag_key(), JsonView::Object(tag_fields(t)))],
        None => Seq::empty(),
    }
}

/// The payload that a request is written as: the command under `_cmd`, then
/// the parameters in their order, then the tag under `_tag` where there is one.
pub open spec fn encoded(request: ApiRequestView) -> JsonView {
    JsonView::Object(
        seq![(cmd_key(), JsonView::Text(request.cmd))] + request.params + tag_entry(request.tag),
    )
}

/// The array that a batch is written as: each request as its payload, in the
/// order of the batch.
pub open spec fn encoded_batch(batch: Seq<ApiRequestView>) -> JsonView {
    JsonView::Array(batch.map_values(|r: ApiRequestView| encoded(r)))
}

/// Appends the entry of an optional text.
fn push_optional(fields: &mut Vec<(String, Json)>, key: &str, text: Option<String>)
    ensures
        entry_views(final(fields)@) == entry_views(old(fields)@) + optional_field(
            key@,
            text_view(text),
        ),
{
    match text {
        Some(s) => {
            let entry = (key.to_owned(), Json::Text(s));
            proof {
                assert(entry_views(fields@.push(entry)) =~= entry_views(fields@) + seq![
                    (key@, JsonView::Text(s@)),
                ]);
            }
            fields.push(entry);
        },
        None => {
            proof {
                assert(entry_views(fields@) =~= entry_views(fields@) + Seq::empty());
            }
        },
    }
}

impl RequestTag {
    /// Writes the tag as the fields of a JSON object.
    pub fn into_fields(self) -> (fields: Vec<(String, Json)>)
        ensures
            entry_views(fields@) == tag_fields(self@),
    {
        let mut fields: Vec<(String, Json)> = Vec::new();
        let first = ("datapointer".to_owned(), Json::Text(self.datapointer));
        proof {
            assert(entry_views(fields@.push(first)) =~= seq![
                ("datapointer"@, JsonView::Text(self.datapointer@)),
            ]);
        }
        fields.push(first);
        push_optional(&mut fields, "callback", self.callback);
        push_optional(&mut fields, "extension", self.extension);
        fields
    }
}

impl ApiRequest {
    /// Writes the request as a payload, in the shape that `decode` reads.
    pub fn encode(self) -> (payload: Json)
        ensures
            payload@ == encoded(self@),
    {
        let mut entries: Vec<(String, Json)> = Vec::new();
        let first = ("_cmd".to_owned(), Json::Text(self.cmd));
        proof {
            assert(entry_views(entries@.push(first)) =~= seq![
                (cmd_key(), JsonView::Text(self.cmd@)),
            ]);
        }
        entries.push(first);
        let mut params = self.params;
        let ghost head = entries@;
        let ghost tail = params@;
        entries.append(&mut params);
        proof {
            assert(entry_views(head + tail) =~= entry_views(head) + entry_views(tail));
        }
        match self.tag {
            Some(tag) => {
                let fields = tag.into_fields();
                let last = ("_tag".to_owned(), Json::Object(fields));
                proof {
                    lemma_view_of_lists(last.1);
                    assert(entry_views(entries@.push(last)) =~= entry_views(entries@) + seq![
                        (tag_key(), JsonView::Object(tag_fields(tag@))),
                    ]);
                }
                entries.push(last);
            },
            None => {
                proof {
                    assert(entry_views(entries@) =~= entry_views(entries@) + Seq::empty());
                }
            },
        }
        let payload = Json::Object(entries);
        proof {
            lemma_view_of_lists(payload);
        }
        payload
    }
}

/// Writes a batch as a JSON array of payloads, in the order of the batch.
pub fn encode_batch(batch: Vec<ApiRequest>) -> (payload: Json)
    ensures
        payload@ == encoded_batch(views(batch@)),
{
    let mut items: Vec<Json> = Vec::new();
    let ghost all = batch@;
    let ghost wanted = views(all).map_values(|r: ApiRequestView| encoded(r));
    for request in it: batch
        invariant
            it.seq() == all,
            wanted == views(all).map_values(|r: ApiRequestView| encoded(r)),
            item_views(items@) == wanted.take(it.index() as int),
    {
        let ghost i = it.index() as int;
        let item = request.encode();
        proof {
            assert(item_views(items@.push(item)) =~= item_views(items@).push(item@));
            assert(wanted.take(i + 1) =~= wanted.take(i).push(wanted[i]));
        }
        items.push(item);
    }
    proof {
        assert(wanted.take(all.len() as int) =~= wanted);
    }
    let payload = Json::Array(items);
    proof {
        lemma_view_of_lists(payload);
    }
    payload
}

} // verus!
