//! How messages are written as JSON, and how JSON is read as a message.
//!
//! Reading tries the kinds of message in a fixed order and takes the first that fits: batch,
//! request, notification, response, invalid request.
//!
//! Parameters, results and error data can be of any shape. Where a text repeats a name inside one of
//! these, the last value counts.
use crate::error::{JsonRpcError, JsonRpcErrorView};
use crate::json::{
    last_values, law_names_of_last_values_differ, lemma_last_values_of_different_names,
    names_differ, option_json, Json, JsonNumber, JsonValue,
};
use crate::types::{
    lemma_batch_view, messages_view, ErrorCode, ErrorDetails, ErrorDetailsView, Id, IdView,
    InvalidRequest, Message, MessageView, Notification, NotificationView, Request, RequestView,
    Response, ResponsePayload, ResponsePayloadView, ResponseView,
};
use vstd::prelude::*;

verus! {

/// The members of a JSON object.
pub type Members = Seq<(Seq<char>, Json)>;

/// What an object holds under a name.
pub enum FieldView {
    /// Nothing.
    Absent,
    /// One value.
    One(Json),
    /// Several values.
    Repeated,
}

/// What `members` hold under `name`.
pub open spec fn field(members: Members, name: Seq<char>) -> FieldView
    decreases members.len(),
{
    if members.len() == 0 {
        FieldView::Absent
    } else {
        let before = field(members.drop_last(), name);
        if members.last().0 != name {
            before
        } else if before is Absent {
            FieldView::One(members.last().1)
        } else {
            FieldView::Repeated
        }
    }
}

/// Every name in `members` is one of `names`.
pub open spec fn only(members: Members, names: Seq<Seq<char>>) -> bool {
    forall|i: int| 0 <= i < members.len() ==> names.contains((#[trigger] members[i]).0)
}

/// The integer that a number is, if it is one.
pub open spec fn integer(number: JsonNumber) -> Option<int> {
    match number {
        JsonNumber::PosInt(n) => Some(n as int),
        JsonNumber::NegInt(i) => Some(i as int),
        JsonNumber::Float(_) => None,
    }
}

/// Reads the protocol version marker.
pub open spec fn is_version(json: Json) -> bool {
    json == Json::String("2.0"@)
}

/// Reads an id: null, an integer from zero up that fits 64 bits, or a string.
pub open spec fn read_id(json: Json) -> Option<IdView> {
    match json {
        Json::Null => Some(IdView::Null),
        Json::Number(number) => match integer(number) {
            Some(i) => if 0 <= i <= u64::MAX {
                Some(IdView::Number(i as u64))
            } else {
                None
            },
            None => None,
        },
        Json::String(s) => Some(IdView::Str(s)),
        _ => None,
    }
}

/// Reads a string.
pub open spec fn read_string(json: Json) -> Option<Seq<char>> {
    match json {
        Json::String(s) => Some(s),
        _ => None,
    }
}

/// Reads an error code: an integer that fits 32 bits.
pub open spec fn read_code(json: Json) -> Option<ErrorCode> {
    match json {
        Json::Number(number) => match integer(number) {
            Some(i) => if i32::MIN <= i <= i32::MAX {
                Some(ErrorCode::from_number(i as i32))
            } else {
                None
            },
            None => None,
        },
        _ => None,
    }
}

/// Reads a value of any shape that may be left out; null stands for a value that was left out.
pub open spec fn read_optional(json: Json) -> Option<Json> {
    match json {
        Json::Null => None,
        _ => Some(last_values(json)),
    }
}

/// Reads a member that may be left out, unless it is repeated.
pub open spec fn optional_field(members: Members, name: Seq<char>) -> Option<Option<Json>> {
    match field(members, name) {
        FieldView::Absent => Some(None),
        FieldView::One(json) => Some(read_optional(json)),
        FieldView::Repeated => None,
    }
}

/// Reads a member that must occur once.
pub open spec fn required_field(members: Members, name: Seq<char>) -> Option<Json> {
    match field(members, name) {
        FieldView::One(json) => Some(json),
        _ => None,
    }
}

/// The parts of a request, read together.
pub open spec fn request_of(
    version: Option<Json>,
    id: Option<Json>,
    method: Option<Json>,
    params: Option<Option<Json>>,
) -> Option<RequestView> {
    match (version, id, method, params) {
        (Some(version), Some(id), Some(method), Some(params)) => match (
            read_id(id),
            read_string(method),
        ) {
            (Some(id), Some(method)) => if is_version(version) {
                Some(RequestView { id, method, params })
            } else {
                None
            },
            _ => None,
        },
        _ => None,
    }
}

/// Reads a request: an object with `jsonrpc`, `id`, `method`, perhaps `params`, and nothing else;
/// or an array of the four in this order.
pub open spec fn read_request(json: Json) -> Option<RequestView> {
    match json {
        Json::Object(members) => if only(
            members,
            seq!["jsonrpc"@, "id"@, "method"@, "params"@],
        ) {
            request_of(
                required_field(members, "jsonrpc"@),
                required_field(members, "id"@),
                required_field(members, "method"@),
                optional_field(members, "params"@),
            )
        } else {
            None
        },
        Json::Array(items) => if items.len() == 4 {
            request_of(
                Some(items[0]),
                Some(items[1]),
                Some(items[2]),
                Some(read_optional(items[3])),
            )
        } else {
            None
        },
        _ => None,
    }
}

/// The parts of a notification, read together.
pub open spec fn notification_of(
    version: Option<Json>,
    method: Option<Json>,
    params: Option<Option<Json>>,
) -> Option<NotificationView> {
    match (version, method, params) {
        (Some(version), Some(method), Some(params)) => match read_string(method) {
            Some(method) => if is_version(version) {
                Some(NotificationView { method, params })
            } else {
                None
            },
            None => None,
        },
        _ => None,
    }
}

/// Reads a notification: an object with `jsonrpc`, `method`, perhaps `params`, and nothing else;
/// or an array of the three in this order.
pub open spec fn read_notification(json: Json) -> Option<NotificationView> {
    match json {
        Json::Object(members) => if only(members, seq!["jsonrpc"@, "method"@, "params"@]) {
            notification_of(
                required_field(members, "jsonrpc"@),
                required_field(members, "method"@),
                optional_field(members, "params"@),
            )
        } else {
            None
        },
        Json::Array(items) => if items.len() == 3 {
            notification_of(Some(items[0]), Some(items[1]), Some(read_optional(items[2])))
        } else {
            None
        },
        _ => None,
    }
}

/// The parts of error details, read together.
pub open spec fn details_of(
    code: Option<Json>,
    message: Option<Json>,
    data: Option<Option<Json>>,
) -> Option<ErrorDetailsView> {
    match (code, message, data) {
        (Some(code), Some(message), Some(data)) => match (read_code(code), read_string(message)) {
            (Some(code), Some(message)) => Some(ErrorDetailsView { code, message, data }),
            _ => None,
        },
        _ => None,
    }
}

/// Reads error details: an object with `code`, `message`, perhaps `data`, and perhaps more; or an
/// array of the three in this order.
pub open spec fn read_details(json: Json) -> Option<ErrorDetailsView> {
    match json {
        Json::Object(members) => details_of(
            required_field(members, "code"@),
            required_field(members, "message"@),
            optional_field(members, "data"@),
        ),
        Json::Array(items) => if items.len() == 3 {
            details_of(Some(items[0]), Some(items[1]), Some(read_optional(items[2])))
        } else {
            None
        },
        _ => None,
    }
}

/// Reads the payload of a response: error details under `error`, else a result under `result`.
pub open spec fn read_payload(members: Members) -> Option<ResponsePayloadView> {
    let error = match required_field(members, "error"@) {
        Some(json) => read_details(json),
        None => None,
    };
    match error {
        Some(error) => Some(ResponsePayloadView::Error(error)),
        None => match required_field(members, "result"@) {
            Some(result) => Some(ResponsePayloadView::Success(last_values(result))),
            None => None,
        },
    }
}

/// The parts of a response, read together.
pub open spec fn response_of(
    version: Option<Json>,
    id: Option<Json>,
    payload: Option<ResponsePayloadView>,
) -> Option<ResponseView> {
    match (version, id, payload) {
        (Some(version), Some(id), Some(payload)) => match read_id(id) {
            Some(id) => if is_version(version) {
                Some(ResponseView { payload, id })
            } else {
                None
            },
            None => None,
        },
        _ => None,
    }
}

/// Reads a response: an object with `jsonrpc`, `id`, a payload, and perhaps more.
pub open spec fn read_response(json: Json) -> Option<ResponseView> {
    match json {
        Json::Object(members) => response_of(
            required_field(members, "jsonrpc"@),
            required_field(members, "id"@),
            read_payload(members),
        ),
        _ => None,
    }
}

/// Reads an invalid request: an object with `id` and perhaps more, or an array of an id.
pub open spec fn read_invalid(json: Json) -> Option<IdView> {
    match json {
        Json::Object(members) => match required_field(members, "id"@) {
            Some(id) => read_id(id),
            None => None,
        },
        Json::Array(items) => if items.len() == 1 {
            read_id(items[0])
        } else {
            None
        },
        _ => None,
    }
}

/// Reads anything but a batch.
pub open spec fn read_single(json: Json) -> Option<MessageView> {
    if let Some(request) = read_request(json) {
        Some(MessageView::Request(request))
    } else if let Some(notification) = read_notification(json) {
        Some(MessageView::Notification(notification))
    } else if let Some(response) = read_response(json) {
        Some(MessageView::Response(response))
    } else if let Some(id) = read_invalid(json) {
        Some(MessageView::InvalidRequest(id))
    } else {
        None
    }
}

/// Reads each of `items` as a message, if all of them are.
pub open spec fn read_all(items: Seq<Json>) -> Option<Seq<MessageView>>
    decreases items,
{
    if items.len() == 0 {
        Some(Seq::empty())
    } else {
        match (read_all(items.drop_last()), read_message(items.last())) {
            (Some(messages), Some(message)) => Some(messages.push(message)),
            _ => None,
        }
    }
}

/// Reads a message, if `json` is one.
///
/// An array each item of which is a message is a batch.
pub open spec fn read_message(json: Json) -> Option<MessageView>
    decreases json,
{
    match json {
        Json::Array(items) => match read_all(items) {
            Some(messages) => Some(MessageView::Batch(messages)),
            None => read_single(json),
        },
        _ => read_single(json),
    }
}

enum Field<'a> {
    Absent,
    One(&'a JsonValue),
    Repeated,
}

impl<'a> Field<'a> {
    spec fn of(self) -> FieldView {
        match self {
            Field::Absent => FieldView::Absent,
            Field::One(json) => FieldView::One(json@),
            Field::Repeated => FieldView::Repeated,
        }
    }
}

spec fn members_view(members: Seq<(String, JsonValue)>) -> Members {
    members.map_values(|member: (String, JsonValue)| (member.0@, member.1@))
}

proof fn lemma_object_view(members: Vec<(String, JsonValue)>)
    ensures
        JsonValue::Object(members)@ == Json::Object(members_view(members@)),
{
    assert(JsonValue::Object(members)@->Object_0 =~= members_view(members@));
}

proof fn lemma_array_view(items: Vec<JsonValue>)
    ensures
        JsonValue::Array(items)@ == Json::Array(items@.map_values(|item: JsonValue| item@)),
{
    assert(JsonValue::Array(items)@->Array_0 =~= items@.map_values(|item: JsonValue| item@));
}

fn find_field<'a>(members: &'a Vec<(String, JsonValue)>, name: &str) -> (found: Field<'a>)
    ensures
        found.of() == field(members_view(members@), name@),
{
    let name = name.to_string();
    let mut found: Field<'a> = Field::Absent;
    let mut i: usize = 0;
    assert(members_view(members@).take(0).len() == 0);
    while i < members.len()
        invariant
            i <= members@.len(),
            found.of() == field(members_view(members@).take(i as int), name@),
        decreases members@.len() - i,
    {
        proof {
            let more = members_view(members@).take(i + 1);
            assert(more.drop_last() =~= members_view(members@).take(i as int));
            assert(more.last() == (members@[i as int].0@, members@[i as int].1@));
        }
        if members[i].0 == name {
            found = match found {
                Field::Absent => Field::One(&members[i].1),
                _ => Field::Repeated,
            };
        }
        i += 1;
    }
    assert(members_view(members@).take(members@.len() as int) =~= members_view(members@));
    found
}

fn find_required<'a>(members: &'a Vec<(String, JsonValue)>, name: &str) -> (found: Option<
    &'a JsonValue,
>)
    ensures
        match found {
            Some(json) => required_field(members_view(members@), name@) == Some(json@),
            None => required_field(members_view(members@), name@) is None,
        },
{
    match find_field(members, name) {
        Field::One(json) => Some(json),
        _ => None,
    }
}

fn keep_optional(json: &JsonValue) -> (kept: Option<JsonValue>)
    ensures
        option_json(kept) == read_optional(json@),
{
    match json {
        JsonValue::Null => None,
        other => Some(other.with_last_values()),
    }
}

fn find_optional(members: &Vec<(String, JsonValue)>, name: &str) -> (found: Option<
    Option<JsonValue>,
>)
    ensures
        match found {
            Some(json) => optional_field(members_view(members@), name@) == Some(option_json(json)),
            None => optional_field(members_view(members@), name@) is None,
        },
{
    match find_field(members, name) {
        Field::Absent => Some(None),
        Field::One(json) => Some(keep_optional(json)),
        Field::Repeated => None,
    }
}

fn has_version(json: &JsonValue) -> (yes: bool)
    ensures
        yes == is_version(json@),
{
    match json {
        JsonValue::String(s) => *s == "2.0".to_string(),
        _ => false,
    }
}

fn id_from_json(json: &JsonValue) -> (id: Option<Id>)
    ensures
        match id {
            Some(id) => read_id(json@) == Some(id@),
            None => read_id(json@) is None,
        },
{
    match json {
        JsonValue::Null => Some(Id::Null),
        JsonValue::Number(JsonNumber::PosInt(n)) => Some(Id::Number(*n)),
        JsonValue::Number(JsonNumber::NegInt(i)) => if *i >= 0 {
            Some(Id::Number(*i as u64))
        } else {
            None
        },
        JsonValue::String(s) => Some(Id::Str(s.clone())),
        _ => None,
    }
}

fn string_from_json(json: &JsonValue) -> (text: Option<String>)
    ensures
        match text {
            Some(text) => read_string(json@) == Some(text@),
            None => read_string(json@) is None,
        },
{
    match json {
        JsonValue::String(s) => Some(s.clone()),
        _ => None,
    }
}

fn code_from_json(json: &JsonValue) -> (code: Option<ErrorCode>)
    ensures
        code == read_code(json@),
{
    match json {
        JsonValue::Number(JsonNumber::PosInt(n)) => if *n <= i32::MAX as u64 {
            Some(ErrorCode::from(*n as i32))
        } else {
            None
        },
        JsonValue::Number(JsonNumber::NegInt(i)) => if i32::MIN as i64 <= *i && *i
            <= i32::MAX as i64 {
            Some(ErrorCode::from(*i as i32))
        } else {
            None
        },
        _ => None,
    }
}

fn holds_only(members: &Vec<(String, JsonValue)>, names: &Vec<String>) -> (yes: bool)
    ensures
        yes == only(members_view(members@), names@.map_values(|name: String| name@)),
{
    let ghost wanted = names@.map_values(|name: String| name@);
    let mut i: usize = 0;
    while i < members.len()
        invariant
            i <= members@.len(),
            wanted == names@.map_values(|name: String| name@),
            forall|k: int| 0 <= k < i ==> wanted.contains((#[trigger] members@[k]).0@),
        decreases members@.len() - i,
    {
        let mut known = false;
        let mut j: usize = 0;
        while j < names.len()
            invariant
                j <= names@.len(),
                i < members@.len(),
                wanted == names@.map_values(|name: String| name@),
                known == exists|k: int| 0 <= k < j && #[trigger] wanted[k] == members@[i as int].0@,
            decreases names@.len() - j,
        {
            if members[i].0 == names[j] {
                known = true;
                assert(wanted[j as int] == members@[i as int].0@);
            }
            j += 1;
        }
        if !known {
            assert(!wanted.contains(members_view(members@)[i as int].0));
            return false;
        }
        i += 1;
    }
    assert forall|k: int| 0 <= k < members_view(members@).len() implies wanted.contains(
        (#[trigger] members_view(members@)[k]).0,
    ) by {
        assert(wanted.contains(members@[k].0@));
    }
    true
}

fn names_of(first: &str, second: &str, third: &str) -> (names: Vec<String>)
    ensures
        names@.len() == 3,
        names@[0]@ == first@,
        names@[1]@ == second@,
        names@[2]@ == third@,
{
    let mut names: Vec<String> = Vec::new();
    names.push(first.to_string());
    names.push(second.to_string());
    names.push(third.to_string());
    names
}

fn request_from_parts(
    version: Option<&JsonValue>,
    id: Option<&JsonValue>,
    method: Option<&JsonValue>,
    params: Option<Option<JsonValue>>,
) -> (request: Option<Request>)
    ensures
        (match request {
            Some(request) => Some(request@),
            None => None,
        }) == request_of(
            option_ref(version),
            option_ref(id),
            option_ref(method),
            match params {
                Some(params) => Some(option_json(params)),
                None => None,
            },
        ),
{
    match (version, id, method, params) {
        (Some(version), Some(id), Some(method), Some(params)) => {
            match (id_from_json(id), string_from_json(method)) {
                (Some(id), Some(method)) => if has_version(version) {
                    Some(Request::new(id, method, params))
                } else {
                    None
                },
                _ => None,
            }
        },
        _ => None,
    }
}

spec fn option_ref(json: Option<&JsonValue>) -> Option<Json> {
    match json {
        Some(json) => Some(json@),
        None => None,
    }
}

impl Request {
    /// Reads a request, if `json` is one.
    pub fn from_json(json: &JsonValue) -> (request: Option<Request>)
        ensures
            match request {
                Some(request) => read_request(json@) == Some(request@),
                None => read_request(json@) is None,
            },
    {
        match json {
            JsonValue::Object(members) => {
                let mut names = names_of("jsonrpc", "id", "method");
                names.push("params".to_string());
                proof {
                    lemma_object_view(*members);
                    assert(names@.map_values(|name: String| name@) =~= seq![
                        "jsonrpc"@,
                        "id"@,
                        "method"@,
                        "params"@,
                    ]);
                }
                if holds_only(members, &names) {
                    request_from_parts(
                        find_required(members, "jsonrpc"),
                        find_required(members, "id"),
                        find_required(members, "method"),
                        find_optional(members, "params"),
                    )
                } else {
                    None
                }
            },
            JsonValue::Array(items) => {
                proof {
                    lemma_array_view(*items);
                }
                if items.len() == 4 {
                    request_from_parts(
                        Some(&items[0]),
                        Some(&items[1]),
                        Some(&items[2]),
                        Some(keep_optional(&items[3])),
                    )
                } else {
                    None
                }
            },
            _ => None,
        }
    }
}

fn notification_from_parts(
    version: Option<&JsonValue>,
    method: Option<&JsonValue>,
    params: Option<Option<JsonValue>>,
) -> (notification: Option<Notification>)
    ensures
        (match notification {
            Some(notification) => Some(notification@),
            None => None,
        }) == notification_of(
            option_ref(version),
            option_ref(method),
            match params {
                Some(params) => Some(option_json(params)),
                None => None,
            },
        ),
{
    match (version, method, params) {
        (Some(version), Some(method), Some(params)) => {
            match string_from_json(method) {
                Some(method) => if has_version(version) {
                    Some(Notification::new(method, params))
                } else {
                    None
                },
                None => None,
            }
        },
        _ => None,
    }
}

impl Notification {
    /// Reads a notification, if `json` is one.
    pub fn from_json(json: &JsonValue) -> (notification: Option<Notification>)
        ensures
            match notification {
                Some(notification) => read_notification(json@) == Some(notification@),
                None => read_notification(json@) is None,
            },
    {
        match json {
            JsonValue::Object(members) => {
                let names = names_of("jsonrpc", "method", "params");
                proof {
                    lemma_object_view(*members);
                    assert(names@.map_values(|name: String| name@) =~= seq![
                        "jsonrpc"@,
                        "method"@,
                        "params"@,
                    ]);
                }
                if holds_only(members, &names) {
                    notification_from_parts(
                        find_required(members, "jsonrpc"),
                        find_required(members, "method"),
                        find_optional(members, "params"),
                    )
                } else {
                    None
                }
            },
            JsonValue::Array(items) => {
                proof {
                    lemma_array_view(*items);
                }
                if items.len() == 3 {
                    notification_from_parts(
                        Some(&items[0]),
                        Some(&items[1]),
                        Some(keep_optional(&items[2])),
                    )
                } else {
                    None
                }
            },
            _ => None,
        }
    }
}

fn details_from_parts(
    code: Option<&JsonValue>,
    message: Option<&JsonValue>,
    data: Option<Option<JsonValue>>,
) -> (error: Option<ErrorDetails>)
    ensures
        (match error {
            Some(error) => Some(error@),
            None => None,
        }) == details_of(
            option_ref(code),
            option_ref(message),
            match data {
                Some(data) => Some(option_json(data)),
                None => None,
            },
        ),
{
    match (code, message, data) {
        (Some(code), Some(message), Some(data)) => {
            match (code_from_json(code), string_from_json(message)) {
                (Some(code), Some(message)) => Some(ErrorDetails::new(code, message, data)),
                _ => None,
            }
        },
        _ => None,
    }
}

impl ErrorDetails {
    /// Reads error details, if `json` holds them.
    pub fn from_json(json: &JsonValue) -> (error: Option<ErrorDetails>)
        ensures
            match error {
                Some(error) => read_details(json@) == Some(error@),
                None => read_details(json@) is None,
            },
    {
        match json {
            JsonValue::Object(members) => {
                proof {
                    lemma_object_view(*members);
                }
                details_from_parts(
                    find_required(members, "code"),
                    find_required(members, "message"),
                    find_optional(members, "data"),
                )
            },
            JsonValue::Array(items) => {
                proof {
                    lemma_array_view(*items);
                }
                if items.len() == 3 {
                    details_from_parts(
                        Some(&items[0]),
                        Some(&items[1]),
                        Some(keep_optional(&items[2])),
                    )
                } else {
                    None
                }
            },
            _ => None,
        }
    }
}

fn payload_from_members(members: &Vec<(String, JsonValue)>) -> (payload: Option<ResponsePayload>)
    ensures
        match payload {
            Some(payload) => read_payload(members_view(members@)) == Some(payload@),
            None => read_payload(members_view(members@)) is None,
        },
{
    let error = match find_required(members, "error") {
        Some(json) => ErrorDetails::from_json(json),
        None => None,
    };
    match error {
        Some(error) => Some(ResponsePayload::error(error)),
        None => match find_required(members, "result") {
            Some(result) => Some(ResponsePayload::success(result.with_last_values())),
            None => None,
        },
    }
}

impl Response {
    /// Reads a response, if `json` is one.
    pub fn from_json(json: &JsonValue) -> (response: Option<Response>)
        ensures
            match response {
                Some(response) => read_response(json@) == Some(response@),
                None => read_response(json@) is None,
            },
    {
        match json {
            JsonValue::Object(members) => {
                proof {
                    lemma_object_view(*members);
                }
                match (
                    find_required(members, "jsonrpc"),
                    find_required(members, "id"),
                    payload_from_members(members),
                ) {
                    (Some(version), Some(id), Some(payload)) => match id_from_json(id) {
                        Some(id) => if has_version(version) {
                            Some(Response::new(id, payload))
                        } else {
                            None
                        },
                        None => None,
                    },
                    _ => None,
                }
            },
            _ => None,
        }
    }
}

impl InvalidRequest {
    /// Reads an invalid request, if `json` has the id for one.
    pub fn from_json(json: &JsonValue) -> (invalid: Option<InvalidRequest>)
        ensures
            match invalid {
                Some(invalid) => read_invalid(json@) == Some(invalid.id@),
                None => read_invalid(json@) is None,
            },
    {
        let id = match json {
            JsonValue::Object(members) => {
                proof {
                    lemma_object_view(*members);
                }
                match find_required(members, "id") {
                    Some(id) => id_from_json(id),
                    None => None,
                }
            },
            JsonValue::Array(items) => {
                proof {
                    lemma_array_view(*items);
                }
                if items.len() == 1 {
                    id_from_json(&items[0])
                } else {
                    None
                }
            },
            _ => None,
        };
        match id {
            Some(id) => Some(InvalidRequest { id }),
            None => None,
        }
    }
}

fn single_from_json(json: &JsonValue) -> (message: Option<Message>)
    ensures
        match message {
            Some(message) => read_single(json@) == Some(message@),
            None => read_single(json@) is None,
        },
{
    if let Some(request) = Request::from_json(json) {
        return Some(Message::Request(request));
    }
    if let Some(notification) = Notification::from_json(json) {
        return Some(Message::Notification(notification));
    }
    if let Some(response) = Response::from_json(json) {
        return Some(Message::Response(response));
    }
    if let Some(invalid) = InvalidRequest::from_json(json) {
        return Some(Message::InvalidRequest(invalid));
    }
    None
}

proof fn lemma_read_all_prefix(items: Seq<Json>, n: int)
    requires
        0 <= n <= items.len(),
        read_all(items.take(n)) is None,
    ensures
        read_all(items) is None,
    decreases items.len() - n,
{
    if n == items.len() {
        assert(items.take(n) =~= items);
    } else {
        assert(items.take(n + 1).drop_last() =~= items.take(n));
        lemma_read_all_prefix(items, n + 1);
    }
}

impl Message {
    /// Reads a message, if `json` is one.
    pub fn from_json(json: &JsonValue) -> (message: Option<Message>)
        ensures
            match message {
                Some(message) => read_message(json@) == Some(message@),
                None => read_message(json@) is None,
            },
        decreases json,
    {
        match json {
            JsonValue::Array(items) => {
                let ghost views = json@->Array_0;
                let mut messages: Vec<Message> = Vec::new();
                let mut i: usize = 0;
                proof {
                    lemma_array_view(*items);
                    assert(messages_view(messages@) =~= Seq::<MessageView>::empty());
                }
                while i < items.len()
                    invariant
                        i <= items@.len(),
                        *json == JsonValue::Array(*items),
                        json@ == Json::Array(views),
                        views == items@.map_values(|item: JsonValue| item@),
                        read_all(views.take(i as int)) == Some(messages_view(messages@)),
                    decreases items@.len() - i,
                {
                    proof {
                        assert(decreases_to!(json => json->Array_0));
                        assert(decreases_to!(json->Array_0 => json->Array_0@));
                        assert(decreases_to!(json => json->Array_0@[i as int]));
                        assert(views.take(i + 1).drop_last() =~= views.take(i as int));
                        assert(views.take(i + 1).last() == items@[i as int]@);
                    }
                    match Message::from_json(&items[i]) {
                        Some(message) => {
                            let ghost before = messages@;
                            messages.push(message);
                            assert(messages_view(messages@) =~= messages_view(before).push(
                                message@,
                            ));
                        },
                        None => {
                            proof {
                                lemma_read_all_prefix(views, i + 1);
                            }
                            return single_from_json(json);
                        },
                    }
                    i += 1;
                }
                proof {
                    assert(views.take(views.len() as int) =~= views);
                    lemma_batch_view(messages);
                }
                Some(Message::Batch(messages))
            },
            _ => single_from_json(json),
        }
    }
}

/// Writes an id.
pub open spec fn write_id(id: IdView) -> Json {
    match id {
        IdView::Null => Json::Null,
        IdView::Number(n) => Json::Number(JsonNumber::PosInt(n)),
        IdView::Str(s) => Json::String(s),
    }
}

/// Writes an error code as its number.
pub open spec fn write_code(code: ErrorCode) -> Json {
    let number = code.number();
    if number >= 0 {
        Json::Number(JsonNumber::PosInt(number as u64))
    } else {
        Json::Number(JsonNumber::NegInt(number as i64))
    }
}

/// Adds a member, unless it is left out.
pub open spec fn with_optional(members: Members, name: Seq<char>, value: Option<Json>) -> Members {
    match value {
        Some(value) => members.push((name, value)),
        None => members,
    }
}

/// The member that every message but an invalid request begins with.
pub open spec fn version_member() -> Members {
    seq![("jsonrpc"@, Json::String("2.0"@))]
}

/// Writes a request.
pub open spec fn write_request(request: RequestView) -> Json {
    Json::Object(
        with_optional(
            version_member().push(("id"@, write_id(request.id))).push(
                ("method"@, Json::String(request.method)),
            ),
            "params"@,
            request.params,
        ),
    )
}

/// Writes a notification.
pub open spec fn write_notification(notification: NotificationView) -> Json {
    Json::Object(
        with_optional(
            version_member().push(("method"@, Json::String(notification.method))),
            "params"@,
            notification.params,
        ),
    )
}

/// Writes error details.
pub open spec fn write_details(error: ErrorDetailsView) -> Json {
    Json::Object(
        with_optional(
            seq![("code"@, write_code(error.code)), ("message"@, Json::String(error.message))],
            "data"@,
            error.data,
        ),
    )
}

/// Writes the payload of a response as a member.
pub open spec fn payload_member(payload: ResponsePayloadView) -> (Seq<char>, Json) {
    match payload {
        ResponsePayloadView::Error(error) => ("error"@, write_details(error)),
        ResponsePayloadView::Success(result) => ("result"@, result),
    }
}

/// Writes a response.
pub open spec fn write_response(response: ResponseView) -> Json {
    Json::Object(
        version_member().push(payload_member(response.payload)).push(
            ("id"@, write_id(response.id)),
        ),
    )
}

/// Writes a message.
pub open spec fn write_message(message: MessageView) -> Json
    decreases message,
{
    match message {
        MessageView::Batch(messages) => Json::Array(write_all(messages)),
        MessageView::Request(request) => write_request(request),
        MessageView::Notification(notification) => write_notification(notification),
        MessageView::Response(response) => write_response(response),
        MessageView::InvalidRequest(id) => Json::Object(seq![("id"@, write_id(id))]),
    }
}

/// Writes each of `messages`.
pub open spec fn write_all(messages: Seq<MessageView>) -> Seq<Json>
    decreases messages,
{
    if messages.len() == 0 {
        Seq::empty()
    } else {
        write_all(messages.drop_last()).push(write_message(messages.last()))
    }
}

fn add_member(members: &mut Vec<(String, JsonValue)>, name: &str, value: JsonValue)
    ensures
        members_view(final(members)@) == members_view(old(members)@).push((name@, value@)),
{
    let ghost before = members@;
    members.push((name.to_string(), value));
    assert(members_view(members@) =~= members_view(before).push((name@, value@)));
}

fn add_optional(members: &mut Vec<(String, JsonValue)>, name: &str, value: &Option<JsonValue>)
    ensures
        members_view(final(members)@) == with_optional(
            members_view(old(members)@),
            name@,
            option_json(*value),
        ),
{
    if let Some(value) = value {
        add_member(members, name, value.clone());
    }
}

fn members_with_version() -> (members: Vec<(String, JsonValue)>)
    ensures
        members_view(members@) == version_member(),
{
    let mut members: Vec<(String, JsonValue)> = Vec::new();
    assert(members_view(members@) =~= Seq::<(Seq<char>, Json)>::empty());
    add_member(&mut members, "jsonrpc", JsonValue::String("2.0".to_string()));
    members
}

impl Id {
    /// Writes the id.
    pub fn to_json(&self) -> (json: JsonValue)
        ensures
            json@ == write_id(self@),
    {
        match self {
            Id::Null => JsonValue::Null,
            Id::Number(n) => JsonValue::Number(JsonNumber::PosInt(*n)),
            Id::Str(s) => JsonValue::String(s.clone()),
        }
    }
}

fn code_to_json(code: &ErrorCode) -> (json: JsonValue)
    ensures
        json@ == write_code(*code),
{
    let number: i32 = code.code();
    if number >= 0 {
        JsonValue::Number(JsonNumber::PosInt(number as u64))
    } else {
        JsonValue::Number(JsonNumber::NegInt(number as i64))
    }
}

impl Request {
    /// Writes the request.
    pub fn to_json(&self) -> (json: JsonValue)
        ensures
            json@ == write_request(self@),
    {
        let mut members = members_with_version();
        add_member(&mut members, "id", self.id.to_json());
        add_member(&mut members, "method", JsonValue::String(self.method.clone()));
        add_optional(&mut members, "params", &self.params);
        proof {
            lemma_object_view(members);
        }
        JsonValue::Object(members)
    }
}

impl Notification {
    /// Writes the notification.
    pub fn to_json(&self) -> (json: JsonValue)
        ensures
            json@ == write_notification(self@),
    {
        let mut members = members_with_version();
        add_member(&mut members, "method", JsonValue::String(self.method.clone()));
        add_optional(&mut members, "params", &self.params);
        proof {
            lemma_object_view(members);
        }
        JsonValue::Object(members)
    }
}

impl ErrorDetails {
    /// Writes the details.
    pub fn to_json(&self) -> (json: JsonValue)
        ensures
            json@ == write_details(self@),
    {
        let mut members: Vec<(String, JsonValue)> = Vec::new();
        assert(members_view(members@) =~= Seq::<(Seq<char>, Json)>::empty());
        add_member(&mut members, "code", code_to_json(&self.code));
        add_member(&mut members, "message", JsonValue::String(self.message.clone()));
        assert(members_view(members@) =~= seq![
            ("code"@, write_code(self.code)),
            ("message"@, Json::String(self.message@)),
        ]);
        add_optional(&mut members, "data", &self.data);
        proof {
            lemma_object_view(members);
        }
        JsonValue::Object(members)
    }
}

impl Response {
    /// Writes the response.
    pub fn to_json(&self) -> (json: JsonValue)
        ensures
            json@ == write_response(self@),
    {
        let mut members = members_with_version();
        match &self.payload {
            ResponsePayload::Error(response) => {
                add_member(&mut members, "error", response.error.to_json());
            },
            ResponsePayload::Success(response) => {
                add_member(&mut members, "result", response.result.clone());
            },
        }
        add_member(&mut members, "id", self.id.to_json());
        proof {
            lemma_object_view(members);
        }
        JsonValue::Object(members)
    }
}

impl InvalidRequest {
    /// Writes the invalid request.
    pub fn to_json(&self) -> (json: JsonValue)
        ensures
            json@ == write_message(MessageView::InvalidRequest(self.id@)),
    {
        let mut members: Vec<(String, JsonValue)> = Vec::new();
        assert(members_view(members@) =~= Seq::<(Seq<char>, Json)>::empty());
        add_member(&mut members, "id", self.id.to_json());
        proof {
            lemma_object_view(members);
        }
        JsonValue::Object(members)
    }
}

impl Message {
    /// Writes the message.
    pub fn to_json(&self) -> (json: JsonValue)
        ensures
            json@ == write_message(self@),
        decreases self,
    {
        match self {
            Message::Batch(messages) => {
                let ghost views = messages_view(messages@);
                let mut items: Vec<JsonValue> = Vec::new();
                let mut i: usize = 0;
                proof {
                    lemma_batch_view(*messages);
                    assert(items@.map_values(|item: JsonValue| item@) =~= Seq::<Json>::empty());
                }
                while i < messages.len()
                    invariant
                        i <= messages@.len(),
                        *self == Message::Batch(*messages),
                        views == messages_view(messages@),
                        items@.map_values(|item: JsonValue| item@) == write_all(
                            views.take(i as int),
                        ),
                    decreases messages@.len() - i,
                {
                    let ghost before = items@;
                    proof {
                        assert(decreases_to!(self => self->Batch_0));
                        assert(decreases_to!(self->Batch_0 => self->Batch_0@));
                        assert(decreases_to!(self => self->Batch_0@[i as int]));
                        assert(views.take(i + 1).drop_last() =~= views.take(i as int));
                        assert(views.take(i + 1).last() == messages@[i as int]@);
                    }
                    items.push(messages[i].to_json());
                    proof {
                        assert(items@.map_values(|item: JsonValue| item@) =~= before.map_values(
                            |item: JsonValue| item@,
                        ).push(write_message(messages@[i as int]@)));
                    }
                    i += 1;
                }
                proof {
                    assert(views.take(views.len() as int) =~= views);
                    lemma_array_view(items);
                }
                JsonValue::Array(items)
            },
            Message::Request(request) => request.to_json(),
            Message::Notification(notification) => notification.to_json(),
            Message::Response(response) => response.to_json(),
            Message::InvalidRequest(invalid) => invalid.to_json(),
        }
    }
}

/// What a value that may be left out reads as once it was written: null reads as left out, and of a
/// repeated name the last value is left.
pub open spec fn read_back_optional(value: Option<Json>) -> Option<Json> {
    match value {
        Some(value) => read_optional(value),
        None => None,
    }
}

/// What error details read as once they were written.
pub open spec fn read_back_details(error: ErrorDetailsView) -> ErrorDetailsView {
    ErrorDetailsView {
        code: ErrorCode::from_number(error.code.number()),
        message: error.message,
        data: read_back_optional(error.data),
    }
}

/// What a message reads as once it was written.
pub open spec fn read_back(message: MessageView) -> MessageView
    decreases message,
{
    match message {
        MessageView::Batch(messages) => MessageView::Batch(read_back_all(messages)),
        MessageView::Request(request) => MessageView::Request(
            RequestView { params: read_back_optional(request.params), ..request },
        ),
        MessageView::Notification(notification) => MessageView::Notification(
            NotificationView { params: read_back_optional(notification.params), ..notification },
        ),
        MessageView::Response(response) => MessageView::Response(
            ResponseView {
                payload: match response.payload {
                    ResponsePayloadView::Error(error) => ResponsePayloadView::Error(
                        read_back_details(error),
                    ),
                    ResponsePayloadView::Success(result) => ResponsePayloadView::Success(
                        last_values(result),
                    ),
                },
                ..response
            },
        ),
        MessageView::InvalidRequest(id) => message,
    }
}

/// What each of `messages` reads as once it was written.
pub open spec fn read_back_all(messages: Seq<MessageView>) -> Seq<MessageView>
    decreases messages,
{
    if messages.len() == 0 {
        Seq::empty()
    } else {
        read_back_all(messages.drop_last()).push(read_back(messages.last()))
    }
}

/// The names of the parts of messages differ from one another.
pub proof fn lemma_names()
    ensures
        "jsonrpc"@ != "id"@,
        "jsonrpc"@ != "method"@,
        "jsonrpc"@ != "params"@,
        "jsonrpc"@ != "result"@,
        "jsonrpc"@ != "error"@,
        "id"@ != "method"@,
        "id"@ != "params"@,
        "id"@ != "result"@,
        "id"@ != "error"@,
        "method"@ != "params"@,
        "method"@ != "result"@,
        "method"@ != "error"@,
        "params"@ != "result"@,
        "params"@ != "error"@,
        "result"@ != "error"@,
        "code"@ != "message"@,
        "code"@ != "data"@,
        "message"@ != "data"@,
{
    reveal_strlit("jsonrpc");
    reveal_strlit("id");
    reveal_strlit("method");
    reveal_strlit("params");
    reveal_strlit("result");
    reveal_strlit("error");
    reveal_strlit("code");
    reveal_strlit("message");
    reveal_strlit("data");
    assert("jsonrpc"@.len() == 7);
    assert("id"@.len() == 2);
    assert("method"@.len() == 6);
    assert("params"@.len() == 6);
    assert("result"@.len() == 6);
    assert("error"@.len() == 5);
    assert("code"@.len() == 4);
    assert("message"@.len() == 7);
    assert("data"@.len() == 4);
    assert("method"@[0] != "params"@[0]);
    assert("method"@[0] != "result"@[0]);
    assert("params"@[0] != "result"@[0]);
    assert("code"@[0] != "data"@[0]);
}

proof fn lemma_field_push(members: Members, member: (Seq<char>, Json), name: Seq<char>)
    ensures
        field(members.push(member), name) == if member.0 != name {
            field(members, name)
        } else if field(members, name) is Absent {
            FieldView::One(member.1)
        } else {
            FieldView::Repeated
        },
{
    assert(members.push(member).drop_last() =~= members);
}

proof fn lemma_field_version(name: Seq<char>)
    ensures
        field(version_member(), name) == if name == "jsonrpc"@ {
            FieldView::One(Json::String("2.0"@))
        } else {
            FieldView::Absent
        },
{
    let none = Seq::<(Seq<char>, Json)>::empty();
    assert(version_member() =~= none.push(("jsonrpc"@, Json::String("2.0"@))));
    lemma_field_push(none, ("jsonrpc"@, Json::String("2.0"@)), name);
}

proof fn lemma_write_read_id(id: IdView)
    ensures
        read_id(write_id(id)) == Some(id),
{
}

proof fn lemma_write_read_details(error: ErrorDetailsView)
    ensures
        read_details(write_details(error)) == Some(read_back_details(error)),
{
    lemma_names();
    let none = Seq::<(Seq<char>, Json)>::empty();
    let code = ("code"@, write_code(error.code));
    let message = ("message"@, Json::String(error.message));
    let two = none.push(code).push(message);
    assert(seq![code, message] =~= two);
    assert forall|name: Seq<char>|
        #![trigger field(two, name)]
        field(two, name) == if name == "code"@ {
            FieldView::One(code.1)
        } else if name == "message"@ {
            FieldView::One(message.1)
        } else {
            FieldView::Absent
        } by {
        lemma_field_push(none, code, name);
        lemma_field_push(none.push(code), message, name);
    }
    if let Some(data) = error.data {
        lemma_field_push(two, ("data"@, data), "code"@);
        lemma_field_push(two, ("data"@, data), "message"@);
        lemma_field_push(two, ("data"@, data), "data"@);
    }
    assert(field(two, "data"@) is Absent);
    assert(read_code(write_code(error.code)) == Some(
        ErrorCode::from_number(error.code.number()),
    ));
}

proof fn lemma_write_read_request(request: RequestView)
    ensures
        read_request(write_request(request)) == Some(
            RequestView { params: read_back_optional(request.params), ..request },
        ),
{
    lemma_names();
    let id = ("id"@, write_id(request.id));
    let method = ("method"@, Json::String(request.method));
    let two = version_member().push(id);
    let three = two.push(method);
    let all = with_optional(three, "params"@, request.params);
    assert forall|name: Seq<char>|
        #![trigger field(three, name)]
        field(three, name) == if name == "jsonrpc"@ {
            FieldView::One(Json::String("2.0"@))
        } else if name == "id"@ {
            FieldView::One(id.1)
        } else if name == "method"@ {
            FieldView::One(method.1)
        } else {
            FieldView::Absent
        } by {
        lemma_field_version(name);
        lemma_field_push(version_member(), id, name);
        lemma_field_push(two, method, name);
    }
    if let Some(params) = request.params {
        lemma_field_push(three, ("params"@, params), "jsonrpc"@);
        lemma_field_push(three, ("params"@, params), "id"@);
        lemma_field_push(three, ("params"@, params), "method"@);
        lemma_field_push(three, ("params"@, params), "params"@);
    }
    assert(field(three, "params"@) is Absent);
    let names = seq!["jsonrpc"@, "id"@, "method"@, "params"@];
    assert(names[0] == "jsonrpc"@ && names[1] == "id"@ && names[2] == "method"@ && names[3]
        == "params"@);
    assert(only(all, names));
    lemma_write_read_id(request.id);
}

proof fn lemma_write_read_notification(notification: NotificationView)
    ensures
        read_request(write_notification(notification)) is None,
        read_notification(write_notification(notification)) == Some(
            NotificationView { params: read_back_optional(notification.params), ..notification },
        ),
{
    lemma_names();
    let method = ("method"@, Json::String(notification.method));
    let two = version_member().push(method);
    let all = with_optional(two, "params"@, notification.params);
    assert forall|name: Seq<char>|
        #![trigger field(two, name)]
        field(two, name) == if name == "jsonrpc"@ {
            FieldView::One(Json::String("2.0"@))
        } else if name == "method"@ {
            FieldView::One(method.1)
        } else {
            FieldView::Absent
        } by {
        lemma_field_version(name);
        lemma_field_push(version_member(), method, name);
    }
    if let Some(params) = notification.params {
        lemma_field_push(two, ("params"@, params), "jsonrpc"@);
        lemma_field_push(two, ("params"@, params), "id"@);
        lemma_field_push(two, ("params"@, params), "method"@);
        lemma_field_push(two, ("params"@, params), "params"@);
    }
    assert(field(two, "params"@) is Absent);
    assert(field(two, "id"@) is Absent);
    let names = seq!["jsonrpc"@, "method"@, "params"@];
    assert(names[0] == "jsonrpc"@ && names[1] == "method"@ && names[2] == "params"@);
    assert(only(all, names));
}

proof fn lemma_write_read_response(response: ResponseView)
    ensures
        read_request(write_response(response)) is None,
        read_notification(write_response(response)) is None,
        read_response(write_response(response)) == Some(
            read_back(MessageView::Response(response))->Response_0,
        ),
{
    lemma_names();
    let payload = payload_member(response.payload);
    let id = ("id"@, write_id(response.id));
    let two = version_member().push(payload);
    let all = two.push(id);
    assert forall|name: Seq<char>|
        #![trigger field(all, name)]
        field(all, name) == if name == "jsonrpc"@ {
            FieldView::One(Json::String("2.0"@))
        } else if name == payload.0 {
            FieldView::One(payload.1)
        } else if name == "id"@ {
            FieldView::One(id.1)
        } else {
            FieldView::Absent
        } by {
        lemma_field_version(name);
        lemma_field_push(version_member(), payload, name);
        lemma_field_push(two, id, name);
    }
    assert(field(all, "jsonrpc"@) is One);
    assert(field(all, "error"@) is One || field(all, "result"@) is One);
    assert(field(all, "method"@) is Absent);
    lemma_write_read_id(response.id);
    if let ResponsePayloadView::Error(error) = response.payload {
        lemma_write_read_details(error);
    } else {
        assert(field(all, "error"@) is Absent);
    }
}

proof fn lemma_write_read_invalid(id: IdView)
    ensures
        read_message(write_message(MessageView::InvalidRequest(id))) == Some(
            MessageView::InvalidRequest(id),
        ),
{
    lemma_names();
    let none = Seq::<(Seq<char>, Json)>::empty();
    let member = ("id"@, write_id(id));
    let all = none.push(member);
    assert(seq![member] =~= all);
    lemma_field_push(none, member, "jsonrpc"@);
    lemma_field_push(none, member, "method"@);
    lemma_field_push(none, member, "id"@);
    assert(field(none, "jsonrpc"@) is Absent);
    assert(field(all, "jsonrpc"@) is Absent);
    lemma_write_read_id(id);
}

/// Reading what was written gives the message back.
///
/// Three things do not survive: an explicit null for parameters or error data reads as left out, of
/// a name that is repeated inside parameters, a result or error data the last value is left, and an
/// error code reads as the code that its number stands for.
pub proof fn law_read_what_was_written(message: MessageView)
    ensures
        read_message(write_message(message)) == Some(read_back(message)),
    decreases message,
{
    match message {
        MessageView::Batch(messages) => {
            lemma_write_read_all(messages);
        },
        MessageView::Request(request) => {
            lemma_write_read_request(request);
        },
        MessageView::Notification(notification) => {
            lemma_write_read_notification(notification);
        },
        MessageView::Response(response) => {
            lemma_write_read_response(response);
        },
        MessageView::InvalidRequest(id) => {
            lemma_write_read_invalid(id);
        },
    }
}

proof fn lemma_write_read_all(messages: Seq<MessageView>)
    ensures
        read_all(write_all(messages)) == Some(read_back_all(messages)),
    decreases messages,
{
    if messages.len() > 0 {
        lemma_write_read_all(messages.drop_last());
        law_read_what_was_written(messages.last());
        assert(write_all(messages).drop_last() =~= write_all(messages.drop_last()));
    }
}

/// The value survives being written and read: it is no explicit null, and repeats no name.
pub open spec fn survives_optional(value: Option<Json>) -> bool {
    value matches Some(value) ==> !(value is Null) && names_differ(value)
}

/// Every part of the message survives being written and read: nothing is an explicit null where it
/// could be left out, no name is repeated, and each error code is the one that its number stands
/// for.
pub open spec fn survives(message: MessageView) -> bool
    decreases message,
{
    match message {
        MessageView::Batch(messages) => all_survive(messages),
        MessageView::Request(request) => survives_optional(request.params),
        MessageView::Notification(notification) => survives_optional(notification.params),
        MessageView::Response(response) => match response.payload {
            ResponsePayloadView::Error(error) => survives_optional(error.data)
                && ErrorCode::from_number(error.code.number()) == error.code,
            ResponsePayloadView::Success(result) => names_differ(result),
        },
        MessageView::InvalidRequest(_) => true,
    }
}

/// Each of `messages` survives being written and read.
pub open spec fn all_survive(messages: Seq<MessageView>) -> bool
    decreases messages,
{
    messages.len() == 0 || (all_survive(messages.drop_last()) && survives(messages.last()))
}

/// A message of which every part survives reads as itself once it was written.
pub proof fn law_surviving_message_reads_as_itself(message: MessageView)
    requires
        survives(message),
    ensures
        read_message(write_message(message)) == Some(message),
{
    law_read_what_was_written(message);
    lemma_read_back_surviving(message);
}

proof fn lemma_read_back_surviving(message: MessageView)
    requires
        survives(message),
    ensures
        read_back(message) == message,
    decreases message,
{
    match message {
        MessageView::Batch(messages) => {
            lemma_read_back_all_surviving(messages);
        },
        MessageView::Request(request) => {
            lemma_read_back_optional_surviving(request.params);
        },
        MessageView::Notification(notification) => {
            lemma_read_back_optional_surviving(notification.params);
        },
        MessageView::Response(response) => match response.payload {
            ResponsePayloadView::Error(error) => {
                lemma_read_back_optional_surviving(error.data);
            },
            ResponsePayloadView::Success(result) => {
                lemma_last_values_of_different_names(result);
            },
        },
        MessageView::InvalidRequest(_) => {},
    }
}

proof fn lemma_read_back_optional_surviving(value: Option<Json>)
    requires
        survives_optional(value),
    ensures
        read_back_optional(value) == value,
{
    if let Some(value) = value {
        lemma_last_values_of_different_names(value);
    }
}

proof fn lemma_read_back_all_surviving(messages: Seq<MessageView>)
    requires
        all_survive(messages),
    ensures
        read_back_all(messages) == messages,
    decreases messages,
{
    if messages.len() > 0 {
        lemma_read_back_all_surviving(messages.drop_last());
        lemma_read_back_surviving(messages.last());
        assert(messages.drop_last().push(messages.last()) =~= messages);
    } else {
        assert(messages =~= Seq::<MessageView>::empty());
    }
}

proof fn lemma_read_optional_survives(json: Json)
    ensures
        survives_optional(read_optional(json)),
{
    law_names_of_last_values_differ(json);
}

proof fn lemma_optional_field_survives(members: Members, name: Seq<char>)
    ensures
        optional_field(members, name) matches Some(value) ==> survives_optional(value),
{
    if let FieldView::One(json) = field(members, name) {
        lemma_read_optional_survives(json);
    }
}

proof fn lemma_read_details_survive(json: Json)
    ensures
        read_details(json) matches Some(error) ==> survives_optional(error.data)
            && ErrorCode::from_number(error.code.number()) == error.code,
{
    match json {
        Json::Object(members) => {
            lemma_optional_field_survives(members, "data"@);
        },
        Json::Array(items) => {
            lemma_read_optional_survives(items[2]);
        },
        _ => {},
    }
}

proof fn lemma_read_single_survives(json: Json)
    ensures
        read_single(json) matches Some(message) ==> survives(message),
{
    match json {
        Json::Object(members) => {
            lemma_optional_field_survives(members, "params"@);
            if let Some(error) = required_field(members, "error"@) {
                lemma_read_details_survive(error);
            }
            if let Some(result) = required_field(members, "result"@) {
                law_names_of_last_values_differ(result);
            }
        },
        Json::Array(items) => {
            lemma_read_optional_survives(items[2]);
            lemma_read_optional_survives(items[3]);
        },
        _ => {},
    }
}

/// What was read reads as itself once it was written.
pub proof fn law_what_was_read_survives(json: Json)
    ensures
        read_message(json) matches Some(message) ==> survives(message) && read_message(
            write_message(message),
        ) == Some(message),
{
    lemma_what_was_read_survives(json);
    if let Some(message) = read_message(json) {
        law_surviving_message_reads_as_itself(message);
    }
}

proof fn lemma_what_was_read_survives(json: Json)
    ensures
        read_message(json) matches Some(message) ==> survives(message),
    decreases json,
{
    lemma_read_single_survives(json);
    if let Json::Array(items) = json {
        lemma_all_that_were_read_survive(items);
    }
}

proof fn lemma_all_that_were_read_survive(items: Seq<Json>)
    ensures
        read_all(items) matches Some(messages) ==> all_survive(messages),
    decreases items,
{
    if items.len() > 0 {
        lemma_all_that_were_read_survive(items.drop_last());
        lemma_what_was_read_survives(items.last());
        if let Some(messages) = read_all(items) {
            let front = read_all(items.drop_last())->Some_0;
            assert(messages.drop_last() =~= front);
        }
    }
}

/// An error code survives being written and read unless it says that the server is busy, or is a
/// server error under the number of another code.
pub proof fn law_surviving_error_codes(code: ErrorCode)
    ensures
        ErrorCode::from_number(code.number()) == code <==> match code {
            ErrorCode::ServerIsBusy => false,
            ErrorCode::ServerError(n) => n != -32700 && n != -32007 && n != -32600 && n != -32601
                && n != -32602 && n != -32603,
            _ => true,
        },
{
}

/// What a text reads as, given the JSON that it holds or why it holds none.
pub open spec fn read_text(text: Seq<char>, json: Result<Json, Seq<char>>) -> Result<
    MessageView,
    JsonRpcErrorView,
> {
    match json {
        Ok(json) => match read_message(json) {
            Some(message) => Ok(message),
            None => Err(
                JsonRpcErrorView::ParseJson {
                    source: "data did not match any variant of untagged enum Message"@,
                    json: text,
                },
            ),
        },
        Err(source) => Err(JsonRpcErrorView::ParseJson { source, json: text }),
    }
}

impl Message {
    /// Reads the message that `text` holds, given the JSON that it holds or why it holds none.
    pub fn from_str(text: &str, json: Result<JsonValue, String>) -> (result: Result<
        Message,
        JsonRpcError,
    >)
        ensures
            (match result {
                Ok(message) => Ok(message@),
                Err(error) => Err(error@),
            }) == read_text(
                text@,
                match json {
                    Ok(json) => Ok(json@),
                    Err(source) => Err(source@),
                },
            ),
    {
        match json {
            Ok(json) => match Message::from_json(&json) {
                Some(message) => Ok(message),
                None => Err(
                    JsonRpcError::ParseJson {
                        source:
                            "data did not match any variant of untagged enum Message".to_string(),
                        json: text.to_string(),
                    },
                ),
            },
            Err(source) => Err(JsonRpcError::ParseJson { source, json: text.to_string() }),
        }
    }

    /// Writes the message as text, with `print` to turn JSON into text.
    pub fn into_string<F: FnOnce(&JsonValue) -> Result<String, String>>(self, print: F) -> (result:
        Result<String, JsonRpcError>)
        requires
            forall|json: &JsonValue| json@ == write_message(self@) ==> call_requires(print, (json,)),
        ensures
            exists|json: &JsonValue, printed: Result<String, String>|
                {
                    &&& json@ == write_message(self@)
                    &&& #[trigger] call_ensures(print, (json,), printed)
                    &&& match printed {
                        Ok(text) => result == Ok::<String, JsonRpcError>(text),
                        Err(source) => result matches Err(error) && error@ == (
                        JsonRpcErrorView::SerResponse {
                            source: source@,
                            type_label: "mcpox_jsonrpc::types::Message"@,
                        }),
                    }
                },
    {
        let json = self.to_json();
        match print(&json) {
            Ok(text) => Ok(text),
            Err(source) => Err(
                JsonRpcError::SerResponse { source, type_label: "mcpox_jsonrpc::types::Message" },
            ),
        }
    }
}

} // verus!
