//! What holds of how messages are read from JSON and written as JSON.
//!
//! The members of an object can stand in any order, and each law that speaks of an object says where
//! in it a member stands.
use crate::error::JsonRpcErrorView;
use crate::json::{last_values, Json, JsonNumber};
use crate::types::{
    ErrorCode, IdView, MessageView, NotificationView, RequestView, ResponsePayloadView,
    ResponseView,
};
use crate::wire::{
    field, law_read_what_was_written, lemma_names, only, read_all, read_code, read_details,
    read_id, read_invalid, read_message, read_notification, read_request, read_response,
    read_text, write_all, write_code, write_details, write_id, write_message, write_notification,
    write_request, write_response, FieldView, Members,
};
use vstd::prelude::*;

verus! {

proof fn lemma_never(members: Members, name: Seq<char>)
    requires
        forall|k: int| 0 <= k < members.len() ==> (#[trigger] members[k]).0 != name,
    ensures
        field(members, name) is Absent,
    decreases members.len(),
{
    if members.len() > 0 {
        let front = members.drop_last();
        assert forall|k: int| 0 <= k < front.len() implies (#[trigger] front[k]).0 != name by {
            assert(front[k] == members[k]);
        }
        assert(members[members.len() - 1].0 != name);
        lemma_never(front, name);
    }
}

proof fn lemma_once(members: Members, name: Seq<char>, at: int)
    requires
        0 <= at < members.len(),
        members[at].0 == name,
        forall|k: int| 0 <= k < members.len() && k != at ==> (#[trigger] members[k]).0 != name,
    ensures
        field(members, name) == FieldView::One(members[at].1),
    decreases members.len(),
{
    let front = members.drop_last();
    if at == members.len() - 1 {
        assert forall|k: int| 0 <= k < front.len() implies (#[trigger] front[k]).0 != name by {
            assert(front[k] == members[k]);
        }
        lemma_never(front, name);
    } else {
        assert forall|k: int| 0 <= k < front.len() && k != at implies (#[trigger] front[k]).0
            != name by {
            assert(front[k] == members[k]);
        }
        assert(front[at] == members[at]);
        assert(members[members.len() - 1].0 != name);
        lemma_once(front, name, at);
    }
}

/// A name is absent where no member has it, stands for one value where one member has it, and is
/// repeated where two members have it.
pub proof fn law_members_are_found_by_name(members: Members, name: Seq<char>)
    ensures
        match field(members, name) {
            FieldView::Absent => forall|k: int|
                0 <= k < members.len() ==> (#[trigger] members[k]).0 != name,
            FieldView::One(value) => exists|at: int|
                {
                    &&& 0 <= at < members.len()
                    &&& #[trigger] members[at] == (name, value)
                    &&& forall|k: int|
                        0 <= k < members.len() && k != at ==> (#[trigger] members[k]).0 != name
                },
            FieldView::Repeated => exists|j: int, k: int|
                0 <= j < k < members.len() && (#[trigger] members[j]).0 == name && (
                #[trigger] members[k]).0 == name,
        },
    decreases members.len(),
{
    if members.len() > 0 {
        let front = members.drop_last();
        let end = members.len() - 1;
        law_members_are_found_by_name(front, name);
        match field(front, name) {
            FieldView::Absent => {
                assert forall|k: int| 0 <= k < end implies (#[trigger] members[k]).0 != name by {
                    assert(front[k] == members[k]);
                }
                if members[end].0 == name {
                    assert(members[end] == (name, members.last().1));
                }
            },
            FieldView::One(value) => {
                let at = choose|at: int|
                    {
                        &&& 0 <= at < front.len()
                        &&& #[trigger] front[at] == (name, value)
                        &&& forall|k: int|
                            0 <= k < front.len() && k != at ==> (#[trigger] front[k]).0 != name
                    };
                assert(members[at] == (name, value));
                if members[end].0 == name {
                    assert(members[at].0 == name && members[end].0 == name);
                } else {
                    assert forall|k: int| 0 <= k < members.len() && k != at implies (
                    #[trigger] members[k]).0 != name by {
                        if k < end {
                            assert(front[k] == members[k]);
                        }
                    }
                }
            },
            FieldView::Repeated => {
                let (j, k) = choose|j: int, k: int|
                    0 <= j < k < front.len() && (#[trigger] front[j]).0 == name && (
                    #[trigger] front[k]).0 == name;
                assert(members[j].0 == name && members[k].0 == name);
            },
        }
    }
}

/// Null, a number from zero up and a string are ids, and each is read as the id that it is; a
/// negative number, a float, a truth value, an array and an object are none.
pub proof fn law_what_is_read_as_an_id(json: Json)
    ensures
        match json {
            Json::Null => read_id(json) == Some(IdView::Null),
            Json::Number(JsonNumber::PosInt(n)) => read_id(json) == Some(IdView::Number(n)),
            Json::String(s) => read_id(json) == Some(IdView::Str(s)),
            Json::Number(JsonNumber::NegInt(i)) => i < 0 ==> read_id(json) is None,
            _ => read_id(json) is None,
        },
{
}

/// Each id is written as itself, and reads as itself then.
pub proof fn law_ids_are_written_as_they_are(id: IdView)
    ensures
        match id {
            IdView::Null => write_id(id) is Null,
            IdView::Number(n) => write_id(id) == Json::Number(JsonNumber::PosInt(n)),
            IdView::Str(s) => write_id(id) == Json::String(s),
        },
        read_id(write_id(id)) == Some(id),
{
}

/// An error code is written as its number, and the number reads as a code of the same number.
pub proof fn law_codes_are_written_as_numbers(code: ErrorCode)
    ensures
        code.number() >= 0 ==> write_code(code) == Json::Number(
            JsonNumber::PosInt(code.number() as u64),
        ),
        code.number() < 0 ==> write_code(code) == Json::Number(
            JsonNumber::NegInt(code.number() as i64),
        ),
        read_code(write_code(code)) matches Some(read) && read.number() == code.number(),
{
}

/// An object of which the members are the version, an id, a method and perhaps parameters, each
/// once and in whatever order, reads as the method call with that id, that method and those
/// parameters; null stands for parameters that were left out.
pub proof fn law_request_is_read_in_any_order(
    members: Members,
    version_at: int,
    id_at: int,
    method_at: int,
    params_at: Option<int>,
    id: IdView,
    method: Seq<char>,
)
    requires
        0 <= version_at < members.len(),
        0 <= id_at < members.len(),
        0 <= method_at < members.len(),
        members[version_at] == ("jsonrpc"@, Json::String("2.0"@)),
        members[id_at].0 == "id"@,
        match id {
            IdView::Null => members[id_at].1 is Null,
            IdView::Number(n) => members[id_at].1 == Json::Number(JsonNumber::PosInt(n)),
            IdView::Str(s) => members[id_at].1 == Json::String(s),
        },
        members[method_at] == ("method"@, Json::String(method)),
        match params_at {
            Some(at) => members.len() == 4 && 0 <= at < 4 && members[at].0 == "params"@,
            None => members.len() == 3,
        },
    ensures
        read_message(Json::Object(members)) matches Some(MessageView::Request(request)) && {
            &&& read_request(Json::Object(members)) == Some(request)
            &&& request.id == id
            &&& request.method == method
            &&& match params_at {
                Some(at) => if members[at].1 is Null {
                    request.params is None
                } else {
                    request.params == Some(last_values(members[at].1))
                },
                None => request.params is None,
            }
        },
{
    lemma_names();
    lemma_once(members, "jsonrpc"@, version_at);
    lemma_once(members, "id"@, id_at);
    lemma_once(members, "method"@, method_at);
    match params_at {
        Some(at) => {
            lemma_once(members, "params"@, at);
        },
        None => {
            lemma_never(members, "params"@);
        },
    }
    let names = seq!["jsonrpc"@, "id"@, "method"@, "params"@];
    assert(names[0] == "jsonrpc"@ && names[1] == "id"@ && names[2] == "method"@ && names[3]
        == "params"@);
    assert(only(members, names));
}

/// An object of which the members are the version, a method and perhaps parameters, each once and
/// in whatever order, reads as the notification with that method and those parameters; null stands
/// for parameters that were left out.
pub proof fn law_notification_is_read_in_any_order(
    members: Members,
    version_at: int,
    method_at: int,
    params_at: Option<int>,
    method: Seq<char>,
)
    requires
        0 <= version_at < members.len(),
        0 <= method_at < members.len(),
        members[version_at] == ("jsonrpc"@, Json::String("2.0"@)),
        members[method_at] == ("method"@, Json::String(method)),
        match params_at {
            Some(at) => members.len() == 3 && 0 <= at < 3 && members[at].0 == "params"@,
            None => members.len() == 2,
        },
    ensures
        read_message(Json::Object(members)) matches Some(MessageView::Notification(notification))
            && {
            &&& read_notification(Json::Object(members)) == Some(notification)
            &&& notification.method == method
            &&& match params_at {
                Some(at) => if members[at].1 is Null {
                    notification.params is None
                } else {
                    notification.params == Some(last_values(members[at].1))
                },
                None => notification.params is None,
            }
        },
{
    lemma_names();
    lemma_once(members, "jsonrpc"@, version_at);
    lemma_once(members, "method"@, method_at);
    lemma_never(members, "id"@);
    match params_at {
        Some(at) => {
            lemma_once(members, "params"@, at);
        },
        None => {
            lemma_never(members, "params"@);
        },
    }
    let names = seq!["jsonrpc"@, "method"@, "params"@];
    assert(names[0] == "jsonrpc"@ && names[1] == "method"@ && names[2] == "params"@);
    assert(only(members, names));
}

proof fn lemma_no_call(members: Members, at: int)
    requires
        0 <= at < members.len(),
        members[at].0 == "result"@ || members[at].0 == "error"@,
    ensures
        read_request(Json::Object(members)) is None,
        read_notification(Json::Object(members)) is None,
{
    lemma_names();
    let request_names = seq!["jsonrpc"@, "id"@, "method"@, "params"@];
    let notification_names = seq!["jsonrpc"@, "method"@, "params"@];
    assert(!request_names.contains(members[at].0));
    assert(!notification_names.contains(members[at].0));
}

/// An object that holds, among other members and in whatever order, the version, an id and a result,
/// each once, and no error that reads as error details, reads as the response that reports that
/// result under that id.
pub proof fn law_result_is_read_in_any_order(
    members: Members,
    version_at: int,
    id_at: int,
    result_at: int,
    id: IdView,
)
    requires
        0 <= version_at < members.len(),
        0 <= id_at < members.len(),
        0 <= result_at < members.len(),
        members[version_at] == ("jsonrpc"@, Json::String("2.0"@)),
        members[id_at].0 == "id"@,
        match id {
            IdView::Null => members[id_at].1 is Null,
            IdView::Number(n) => members[id_at].1 == Json::Number(JsonNumber::PosInt(n)),
            IdView::Str(s) => members[id_at].1 == Json::String(s),
        },
        members[result_at].0 == "result"@,
        forall|k: int|
            0 <= k < members.len() && k != version_at && k != id_at && k != result_at ==> {
                let name = (#[trigger] members[k]).0;
                name != "jsonrpc"@ && name != "id"@ && name != "result"@
            },
        forall|k: int|
            0 <= k < members.len() && (#[trigger] members[k]).0 == "error"@ ==> read_details(
                members[k].1,
            ) is None,
    ensures
        read_message(Json::Object(members)) == Some(
            MessageView::Response(
                ResponseView {
                    payload: ResponsePayloadView::Success(last_values(members[result_at].1)),
                    id,
                },
            ),
        ),
        read_response(Json::Object(members)) == Some(
            ResponseView {
                payload: ResponsePayloadView::Success(last_values(members[result_at].1)),
                id,
            },
        ),
{
    lemma_names();
    lemma_no_call(members, result_at);
    lemma_once(members, "jsonrpc"@, version_at);
    lemma_once(members, "id"@, id_at);
    lemma_once(members, "result"@, result_at);
    law_members_are_found_by_name(members, "error"@);
}

/// An object that holds, among other members and in whatever order, an error code that fits 32 bits
/// and a message, each once, and data at most once, reads as error details with the code of that
/// number, that message and that data; null stands for data that was left out.
pub proof fn law_error_details_are_read_in_any_order(
    members: Members,
    code_at: int,
    message_at: int,
    data_at: Option<int>,
    code: i32,
    message: Seq<char>,
)
    requires
        0 <= code_at < members.len(),
        0 <= message_at < members.len(),
        members[code_at].0 == "code"@,
        members[code_at].1 == Json::Number(
            if code >= 0 {
                JsonNumber::PosInt(code as u64)
            } else {
                JsonNumber::NegInt(code as i64)
            },
        ),
        members[message_at] == ("message"@, Json::String(message)),
        data_at matches Some(at) ==> 0 <= at < members.len() && members[at].0 == "data"@,
        forall|k: int|
            0 <= k < members.len() && k != code_at && k != message_at && data_at != Some(k) ==> {
                let name = (#[trigger] members[k]).0;
                name != "code"@ && name != "message"@ && name != "data"@
            },
    ensures
        read_details(Json::Object(members)) matches Some(error) && {
            &&& error.code.number() == code
            &&& error.code == ErrorCode::from_number(code)
            &&& error.message == message
            &&& match data_at {
                Some(at) => if members[at].1 is Null {
                    error.data is None
                } else {
                    error.data == Some(last_values(members[at].1))
                },
                None => error.data is None,
            }
        },
{
    lemma_names();
    lemma_once(members, "code"@, code_at);
    lemma_once(members, "message"@, message_at);
    match data_at {
        Some(at) => {
            lemma_once(members, "data"@, at);
        },
        None => {
            lemma_never(members, "data"@);
        },
    }
}

/// An object that holds, among other members and in whatever order, the version, an id and an error
/// that reads as error details, each once, reads as the response that reports that error under that
/// id.
pub proof fn law_error_is_read_in_any_order(
    members: Members,
    version_at: int,
    id_at: int,
    error_at: int,
    id: IdView,
)
    requires
        0 <= version_at < members.len(),
        0 <= id_at < members.len(),
        0 <= error_at < members.len(),
        members[version_at] == ("jsonrpc"@, Json::String("2.0"@)),
        members[id_at].0 == "id"@,
        match id {
            IdView::Null => members[id_at].1 is Null,
            IdView::Number(n) => members[id_at].1 == Json::Number(JsonNumber::PosInt(n)),
            IdView::Str(s) => members[id_at].1 == Json::String(s),
        },
        members[error_at].0 == "error"@,
        read_details(members[error_at].1) is Some,
        forall|k: int|
            0 <= k < members.len() && k != version_at && k != id_at && k != error_at ==> {
                let name = (#[trigger] members[k]).0;
                name != "jsonrpc"@ && name != "id"@ && name != "error"@
            },
    ensures
        read_message(Json::Object(members)) == Some(
            MessageView::Response(
                ResponseView {
                    payload: ResponsePayloadView::Error(
                        read_details(members[error_at].1)->Some_0,
                    ),
                    id,
                },
            ),
        ),
        read_response(Json::Object(members)) == Some(
            ResponseView {
                payload: ResponsePayloadView::Error(read_details(members[error_at].1)->Some_0),
                id,
            },
        ),
{
    lemma_names();
    lemma_no_call(members, error_at);
    lemma_once(members, "jsonrpc"@, version_at);
    lemma_once(members, "id"@, id_at);
    lemma_once(members, "error"@, error_at);
}

/// An object that has an id once reads as a message, and that message is a method call, a response
/// or an invalid request under that very id.
pub proof fn law_object_with_an_id_keeps_it(members: Members, id_at: int, id: IdView)
    requires
        0 <= id_at < members.len(),
        members[id_at].0 == "id"@,
        match id {
            IdView::Null => members[id_at].1 is Null,
            IdView::Number(n) => members[id_at].1 == Json::Number(JsonNumber::PosInt(n)),
            IdView::Str(s) => members[id_at].1 == Json::String(s),
        },
        forall|k: int|
            0 <= k < members.len() && k != id_at ==> (#[trigger] members[k]).0 != "id"@,
    ensures
        match read_message(Json::Object(members)) {
            Some(MessageView::Request(request)) => request.id == id,
            Some(MessageView::Response(response)) => response.id == id,
            Some(MessageView::InvalidRequest(invalid)) => invalid == id,
            _ => false,
        },
        read_invalid(Json::Object(members)) == Some(id),
{
    lemma_names();
    lemma_once(members, "id"@, id_at);
    let names = seq!["jsonrpc"@, "method"@, "params"@];
    assert(!names.contains(members[id_at].0));
}

/// An object that has an id once and is of no version, or of two, is an invalid request.
pub proof fn law_object_without_version_is_an_invalid_request(
    members: Members,
    id_at: int,
    id: IdView,
)
    requires
        0 <= id_at < members.len(),
        members[id_at].0 == "id"@,
        match id {
            IdView::Null => members[id_at].1 is Null,
            IdView::Number(n) => members[id_at].1 == Json::Number(JsonNumber::PosInt(n)),
            IdView::Str(s) => members[id_at].1 == Json::String(s),
        },
        forall|k: int|
            0 <= k < members.len() && k != id_at ==> (#[trigger] members[k]).0 != "id"@,
        forall|k: int|
            0 <= k < members.len() ==> (#[trigger] members[k]) != ("jsonrpc"@, Json::String("2.0"@)),
    ensures
        read_message(Json::Object(members)) == Some(MessageView::InvalidRequest(id)),
{
    lemma_names();
    lemma_once(members, "id"@, id_at);
    law_members_are_found_by_name(members, "jsonrpc"@);
    let names = seq!["jsonrpc"@, "method"@, "params"@];
    assert(!names.contains(members[id_at].0));
}

/// What an object reads as is what its members say: the version, each part once and under its name,
/// and of a call and a notification nothing besides.
pub proof fn law_object_says_what_it_is_read_as(members: Members)
    ensures
        match read_message(Json::Object(members)) {
            Some(MessageView::Request(request)) => {
                &&& exists|k: int|
                    0 <= k < members.len() && #[trigger] members[k] == (
                        "jsonrpc"@,
                        Json::String("2.0"@),
                    )
                &&& exists|k: int|
                    0 <= k < members.len() && (#[trigger] members[k]).0 == "id"@ && read_id(
                        members[k].1,
                    ) == Some(request.id)
                &&& exists|k: int|
                    0 <= k < members.len() && #[trigger] members[k] == (
                        "method"@,
                        Json::String(request.method),
                    )
                &&& match request.params {
                    Some(params) => exists|k: int|
                        0 <= k < members.len() && (#[trigger] members[k]).0 == "params"@ && !(
                        members[k].1 is Null) && params == last_values(members[k].1),
                    None => forall|k: int|
                        0 <= k < members.len() && (#[trigger] members[k]).0 == "params"@ ==>
                            members[k].1 is Null,
                }
                &&& forall|k: int|
                    0 <= k < members.len() ==> {
                        let name = (#[trigger] members[k]).0;
                        name == "jsonrpc"@ || name == "id"@ || name == "method"@ || name
                            == "params"@
                    }
                &&& forall|j: int, k: int|
                    0 <= j < k < members.len() ==> (#[trigger] members[j]).0 != (
                    #[trigger] members[k]).0
            },
            Some(MessageView::Notification(notification)) => {
                &&& exists|k: int|
                    0 <= k < members.len() && #[trigger] members[k] == (
                        "jsonrpc"@,
                        Json::String("2.0"@),
                    )
                &&& exists|k: int|
                    0 <= k < members.len() && #[trigger] members[k] == (
                        "method"@,
                        Json::String(notification.method),
                    )
                &&& match notification.params {
                    Some(params) => exists|k: int|
                        0 <= k < members.len() && (#[trigger] members[k]).0 == "params"@ && !(
                        members[k].1 is Null) && params == last_values(members[k].1),
                    None => forall|k: int|
                        0 <= k < members.len() && (#[trigger] members[k]).0 == "params"@ ==>
                            members[k].1 is Null,
                }
                &&& forall|k: int|
                    0 <= k < members.len() ==> {
                        let name = (#[trigger] members[k]).0;
                        name == "jsonrpc"@ || name == "method"@ || name == "params"@
                    }
                &&& forall|j: int, k: int|
                    0 <= j < k < members.len() ==> (#[trigger] members[j]).0 != (
                    #[trigger] members[k]).0
            },
            Some(MessageView::Response(response)) => {
                &&& exists|k: int|
                    0 <= k < members.len() && #[trigger] members[k] == (
                        "jsonrpc"@,
                        Json::String("2.0"@),
                    )
                &&& exists|k: int|
                    0 <= k < members.len() && (#[trigger] members[k]).0 == "id"@ && read_id(
                        members[k].1,
                    ) == Some(response.id)
                &&& match response.payload {
                    ResponsePayloadView::Error(error) => exists|k: int|
                        0 <= k < members.len() && (#[trigger] members[k]).0 == "error"@
                            && read_details(members[k].1) == Some(error),
                    ResponsePayloadView::Success(result) => exists|k: int|
                        0 <= k < members.len() && (#[trigger] members[k]).0 == "result"@ && result
                            == last_values(members[k].1),
                }
                &&& forall|j: int, k: int|
                    0 <= j < k < members.len() && (#[trigger] members[j]).0 == (
                    #[trigger] members[k]).0 ==> members[j].0 != "jsonrpc"@ && members[j].0
                        != "id"@ && members[j].0 != if response.payload is Error {
                        "error"@
                    } else {
                        "result"@
                    }
            },
            Some(MessageView::InvalidRequest(id)) => {
                &&& exists|k: int|
                    0 <= k < members.len() && (#[trigger] members[k]).0 == "id"@ && read_id(
                        members[k].1,
                    ) == Some(id)
                &&& forall|j: int, k: int|
                    0 <= j < k < members.len() && (#[trigger] members[j]).0 == (
                    #[trigger] members[k]).0 ==> members[j].0 != "id"@
            },
            Some(MessageView::Batch(_)) => false,
            None => true,
        },
{
    lemma_names();
    law_members_are_found_by_name(members, "jsonrpc"@);
    law_members_are_found_by_name(members, "id"@);
    law_members_are_found_by_name(members, "method"@);
    law_members_are_found_by_name(members, "params"@);
    law_members_are_found_by_name(members, "result"@);
    law_members_are_found_by_name(members, "error"@);
    let json = Json::Object(members);
    if read_request(json) is Some {
        let names = seq!["jsonrpc"@, "id"@, "method"@, "params"@];
        assert forall|k: int| 0 <= k < members.len() implies ({
            let name = (#[trigger] members[k]).0;
            name == "jsonrpc"@ || name == "id"@ || name == "method"@ || name == "params"@
        }) by {
            assert(names.contains(members[k].0));
        }
    } else if read_notification(json) is Some {
        let names = seq!["jsonrpc"@, "method"@, "params"@];
        assert forall|k: int| 0 <= k < members.len() implies ({
            let name = (#[trigger] members[k]).0;
            name == "jsonrpc"@ || name == "method"@ || name == "params"@
        }) by {
            assert(names.contains(members[k].0));
        }
    }
}

/// The order of the members makes no difference to what an object reads as.
///
/// `other` holds the members in another order: the one at `k` stands at `from[k]` in `members`, and
/// the one at `k` in `members` stands at `to[k]`.
pub proof fn law_order_of_members_makes_no_difference(
    members: Members,
    other: Members,
    from: Seq<int>,
    to: Seq<int>,
)
    requires
        members.len() == other.len() == from.len() == to.len(),
        forall|k: int|
            0 <= k < other.len() ==> 0 <= #[trigger] from[k] < members.len() && other[k]
                == members[from[k]] && to[from[k]] == k,
        forall|k: int|
            0 <= k < members.len() ==> 0 <= #[trigger] to[k] < other.len() && from[to[k]] == k,
    ensures
        read_message(Json::Object(members)) == read_message(Json::Object(other)),
        read_details(Json::Object(members)) == read_details(Json::Object(other)),
{
    assert forall|name: Seq<char>| #[trigger]
        field(members, name) == field(other, name) by {
        lemma_field_in_other_order(members, other, from, to, name);
    }
    assert forall|names: Seq<Seq<char>>| #[trigger] only(members, names) == only(other, names) by {
        if only(members, names) {
            assert forall|k: int| 0 <= k < other.len() implies names.contains(
                (#[trigger] other[k]).0,
            ) by {
                assert(names.contains(members[from[k]].0));
            }
        }
        if only(other, names) {
            assert forall|k: int| 0 <= k < members.len() implies names.contains(
                (#[trigger] members[k]).0,
            ) by {
                assert(names.contains(other[to[k]].0));
                assert(from[to[k]] == k);
            }
        }
    }
}

proof fn lemma_field_in_other_order(
    members: Members,
    other: Members,
    from: Seq<int>,
    to: Seq<int>,
    name: Seq<char>,
)
    requires
        members.len() == other.len() == from.len() == to.len(),
        forall|k: int|
            0 <= k < other.len() ==> 0 <= #[trigger] from[k] < members.len() && other[k]
                == members[from[k]] && to[from[k]] == k,
        forall|k: int|
            0 <= k < members.len() ==> 0 <= #[trigger] to[k] < other.len() && from[to[k]] == k,
    ensures
        field(members, name) == field(other, name),
{
    law_members_are_found_by_name(members, name);
    law_members_are_found_by_name(other, name);
    match field(members, name) {
        FieldView::Absent => {
            assert forall|k: int| 0 <= k < other.len() implies (#[trigger] other[k]).0 != name by {
                assert(members[from[k]].0 != name);
            }
            lemma_never(other, name);
        },
        FieldView::One(value) => {
            let at = choose|at: int|
                {
                    &&& 0 <= at < members.len()
                    &&& #[trigger] members[at] == (name, value)
                    &&& forall|k: int|
                        0 <= k < members.len() && k != at ==> (#[trigger] members[k]).0 != name
                };
            assert(from[to[at]] == at);
            assert(other[to[at]] == members[at]);
            assert forall|k: int| 0 <= k < other.len() && k != to[at] implies (
            #[trigger] other[k]).0 != name by {
                if from[k] == at {
                    assert(to[from[k]] == k);
                }
                assert(members[from[k]].0 != name);
            }
            lemma_once(other, name, to[at]);
        },
        FieldView::Repeated => {
            let (j, k) = choose|j: int, k: int|
                0 <= j < k < members.len() && (#[trigger] members[j]).0 == name && (
                #[trigger] members[k]).0 == name;
            assert(from[to[j]] == j && from[to[k]] == k);
            assert(other[to[j]].0 == name && other[to[k]].0 == name);
            assert(to[j] != to[k]);
            if let FieldView::One(value) = field(other, name) {
                let at = choose|at: int|
                    {
                        &&& 0 <= at < other.len()
                        &&& #[trigger] other[at] == (name, value)
                        &&& forall|k: int|
                            0 <= k < other.len() && k != at ==> (#[trigger] other[k]).0 != name
                    };
                assert(to[j] != at || to[k] != at);
            }
        },
    }
}

/// An array each item of which reads as a message reads as the batch of these messages, in their
/// order.
pub proof fn law_batch_is_read_item_by_item(items: Seq<Json>, messages: Seq<MessageView>)
    requires
        messages.len() == items.len(),
        forall|i: int|
            0 <= i < items.len() ==> read_message(#[trigger] items[i]) == Some(messages[i]),
    ensures
        read_message(Json::Array(items)) == Some(MessageView::Batch(messages)),
{
    lemma_read_all(items, messages);
}

proof fn lemma_read_all(items: Seq<Json>, messages: Seq<MessageView>)
    requires
        messages.len() == items.len(),
        forall|i: int|
            0 <= i < items.len() ==> read_message(#[trigger] items[i]) == Some(messages[i]),
    ensures
        read_all(items) == Some(messages),
    decreases items.len(),
{
    if items.len() > 0 {
        let front = items.drop_last();
        assert forall|i: int| 0 <= i < front.len() implies read_message(#[trigger] front[i])
            == Some(messages.drop_last()[i]) by {
            assert(front[i] == items[i]);
        }
        lemma_read_all(front, messages.drop_last());
        assert(read_message(items[items.len() - 1]) == Some(messages[items.len() - 1]));
        assert(messages.drop_last().push(messages.last()) =~= messages);
    } else {
        assert(messages =~= Seq::<MessageView>::empty());
    }
}

proof fn lemma_not_all_are_read(items: Seq<Json>, at: int)
    requires
        0 <= at < items.len(),
        read_message(items[at]) is None,
    ensures
        read_all(items) is None,
    decreases items.len(),
{
    if at < items.len() - 1 {
        assert(items.drop_last()[at] == items[at]);
        lemma_not_all_are_read(items.drop_last(), at);
    }
}

/// An array that is read as a batch holds nothing but messages, and they are those of the batch; and
/// one that holds something else is no batch, nor any message at all unless it has as few items as a
/// call, a notification or an invalid request has parts.
pub proof fn law_batch_holds_messages_only(items: Seq<Json>)
    ensures
        read_message(Json::Array(items)) matches Some(MessageView::Batch(messages)) ==> {
            &&& messages.len() == items.len()
            &&& forall|i: int|
                0 <= i < items.len() ==> read_message(#[trigger] items[i]) == Some(messages[i])
        },
        forall|i: int|
            0 <= i < items.len() && read_message(#[trigger] items[i]) is None ==> {
                &&& !(read_message(Json::Array(items)) matches Some(MessageView::Batch(_)))
                &&& items.len() != 1 && items.len() != 3 && items.len() != 4 ==> read_message(
                    Json::Array(items),
                ) is None
            },
{
    if let Some(MessageView::Batch(messages)) = read_message(Json::Array(items)) {
        assert(read_all(items) == Some(messages));
        lemma_all_were_read(items, messages);
    }
    assert forall|i: int| 0 <= i < items.len() && read_message(#[trigger] items[i]) is None implies ({
        &&& !(read_message(Json::Array(items)) matches Some(MessageView::Batch(_)))
        &&& items.len() != 1 && items.len() != 3 && items.len() != 4 ==> read_message(
            Json::Array(items),
        ) is None
    }) by {
        lemma_not_all_are_read(items, i);
    }
}

proof fn lemma_all_were_read(items: Seq<Json>, messages: Seq<MessageView>)
    requires
        read_all(items) == Some(messages),
    ensures
        messages.len() == items.len(),
        forall|i: int|
            0 <= i < items.len() ==> read_message(#[trigger] items[i]) == Some(messages[i]),
    decreases items.len(),
{
    if items.len() > 0 {
        let front = read_all(items.drop_last())->Some_0;
        lemma_all_were_read(items.drop_last(), front);
        assert(messages == front.push(read_message(items.last())->Some_0));
        assert forall|i: int| 0 <= i < items.len() implies read_message(#[trigger] items[i])
            == Some(messages[i]) by {
            if i < items.len() - 1 {
                assert(items.drop_last()[i] == items[i]);
            }
        }
    }
}

/// An array of the version, an id, a method and parameters, in this order, reads as the method call
/// that they make; one of the version, a method and parameters reads as the notification.
pub proof fn law_calls_are_read_from_arrays(items: Seq<Json>, id: IdView, method: Seq<char>)
    requires
        items.len() == 4 || items.len() == 3,
        items[0] == Json::String("2.0"@),
        items.len() == 4 ==> match id {
            IdView::Null => items[1] is Null,
            IdView::Number(n) => items[1] == Json::Number(JsonNumber::PosInt(n)),
            IdView::Str(s) => items[1] == Json::String(s),
        },
        items[items.len() - 2] == Json::String(method),
    ensures
        ({
            let last = items[items.len() - 1];
            let params = if last is Null {
                None
            } else {
                Some(last_values(last))
            };
            match read_message(Json::Array(items)) {
                Some(MessageView::Request(request)) => items.len() == 4 && request.id == id
                    && request.method == method && request.params == params,
                Some(MessageView::Notification(notification)) => items.len() == 3
                    && notification.method == method && notification.params == params,
                _ => false,
            }
        }),
{
    assert(read_message(items[0]) is None);
    lemma_not_all_are_read(items, 0);
}

/// Null, truth values, numbers and strings are no messages.
pub proof fn law_plain_values_are_no_messages(json: Json)
    requires
        !(json is Array),
        !(json is Object),
    ensures
        read_message(json) is None,
{
}

/// A method call is written as an object with the version, its id and its method and, if it has any,
/// its parameters; and nothing else.
pub proof fn law_request_is_written_whole(request: RequestView)
    ensures
        write_request(request) == write_message(MessageView::Request(request)),
        write_message(MessageView::Request(request)) matches Json::Object(members) && {
            &&& members[0] == ("jsonrpc"@, Json::String("2.0"@))
            &&& members[1] == ("id"@, write_id(request.id))
            &&& members[2] == ("method"@, Json::String(request.method))
            &&& match request.params {
                Some(params) => members.len() == 4 && members[3] == ("params"@, params),
                None => members.len() == 3,
            }
        },
{
}

/// A notification is written as an object with the version and its method and, if it has any, its
/// parameters; and nothing else.
pub proof fn law_notification_is_written_whole(notification: NotificationView)
    ensures
        write_notification(notification) == write_message(MessageView::Notification(notification)),
        write_message(MessageView::Notification(notification)) matches Json::Object(members) && {
            &&& members[0] == ("jsonrpc"@, Json::String("2.0"@))
            &&& members[1] == ("method"@, Json::String(notification.method))
            &&& match notification.params {
                Some(params) => members.len() == 3 && members[2] == ("params"@, params),
                None => members.len() == 2,
            }
        },
{
}

/// A response is written as an object with the version, its id and either its result or an object
/// with the code, the message and, if there is any, the data of its error; and nothing else. An
/// invalid request is written as an object with its id.
pub proof fn law_response_is_written_whole(response: ResponseView, invalid: IdView)
    ensures
        write_response(response) == write_message(MessageView::Response(response)),
        response.payload matches ResponsePayloadView::Error(error) ==> {
            &&& write_message(MessageView::Response(response)) matches Json::Object(members)
            &&& members[1].1 == write_details(error)
        },
        write_message(MessageView::Response(response)) matches Json::Object(members) && {
            &&& members.len() == 3
            &&& members[0] == ("jsonrpc"@, Json::String("2.0"@))
            &&& members[2] == ("id"@, write_id(response.id))
            &&& match response.payload {
                ResponsePayloadView::Success(result) => members[1] == ("result"@, result),
                ResponsePayloadView::Error(error) => {
                    &&& members[1].0 == "error"@
                    &&& members[1].1 matches Json::Object(said)
                    &&& said[0] == ("code"@, write_code(error.code))
                    &&& said[1] == ("message"@, Json::String(error.message))
                    &&& match error.data {
                        Some(data) => said.len() == 3 && said[2] == ("data"@, data),
                        None => said.len() == 2,
                    }
                },
            }
        },
        write_message(MessageView::InvalidRequest(invalid)) matches Json::Object(members)
            && members.len() == 1 && members[0] == ("id"@, write_id(invalid)),
{
}

/// A batch is written as the array of what its messages are written as, in their order.
pub proof fn law_batch_is_written_message_by_message(messages: Seq<MessageView>)
    ensures
        write_message(MessageView::Batch(messages)) matches Json::Array(items) && {
            &&& items.len() == messages.len()
            &&& forall|i: int|
                0 <= i < messages.len() ==> #[trigger] items[i] == write_message(messages[i])
        },
{
    lemma_write_all(messages);
}

proof fn lemma_write_all(messages: Seq<MessageView>)
    ensures
        write_all(messages).len() == messages.len(),
        forall|i: int|
            0 <= i < messages.len() ==> #[trigger] write_all(messages)[i] == write_message(
                messages[i],
            ),
    decreases messages.len(),
{
    if messages.len() > 0 {
        let front = messages.drop_last();
        lemma_write_all(front);
        assert forall|i: int| 0 <= i < messages.len() implies #[trigger] write_all(messages)[i]
            == write_message(messages[i]) by {
            if i < front.len() {
                assert(write_all(messages)[i] == write_all(front)[i]);
                assert(front[i] == messages[i]);
            }
        }
    }
}

/// What was written reads as a message of the same kind, with the same id, the same method and the
/// same message of an error; parameters, results and data come back as they were but for repeated
/// names, and null as left out; and an error code comes back as one of the same number.
pub proof fn law_what_was_written_comes_back(message: MessageView)
    requires
        !(message is Batch),
    ensures
        match (message, read_message(write_message(message))) {
            (MessageView::Request(sent), Some(MessageView::Request(read))) => {
                &&& read.id == sent.id
                &&& read.method == sent.method
                &&& read.params == match sent.params {
                    Some(params) => if params is Null {
                        None
                    } else {
                        Some(last_values(params))
                    },
                    None => None,
                }
            },
            (MessageView::Notification(sent), Some(MessageView::Notification(read))) => {
                &&& read.method == sent.method
                &&& read.params == match sent.params {
                    Some(params) => if params is Null {
                        None
                    } else {
                        Some(last_values(params))
                    },
                    None => None,
                }
            },
            (MessageView::Response(sent), Some(MessageView::Response(read))) => {
                &&& read.id == sent.id
                &&& match (sent.payload, read.payload) {
                    (
                        ResponsePayloadView::Success(result),
                        ResponsePayloadView::Success(back),
                    ) => back == last_values(result),
                    (ResponsePayloadView::Error(error), ResponsePayloadView::Error(back)) => {
                        &&& back.code.number() == error.code.number()
                        &&& back.message == error.message
                        &&& back.data == match error.data {
                            Some(data) => if data is Null {
                                None
                            } else {
                                Some(last_values(data))
                            },
                            None => None,
                        }
                    },
                    _ => false,
                }
            },
            (MessageView::InvalidRequest(sent), Some(MessageView::InvalidRequest(read))) => read
                == sent,
            _ => false,
        },
{
    law_read_what_was_written(message);
}

/// A batch that was written reads as a batch of what each of its messages reads as, in their order.
pub proof fn law_batch_that_was_written_comes_back(messages: Seq<MessageView>)
    ensures
        read_message(write_message(MessageView::Batch(messages))) matches Some(
            MessageView::Batch(back),
        ) && {
            &&& back.len() == messages.len()
            &&& forall|i: int|
                0 <= i < messages.len() ==> Some(#[trigger] back[i]) == read_message(
                    write_message(messages[i]),
                )
        },
{
    law_read_what_was_written(MessageView::Batch(messages));
    lemma_write_all(messages);
    let items = write_all(messages);
    let back = read_message(write_message(MessageView::Batch(messages)))->Some_0->Batch_0;
    lemma_all_were_read(items, back);
    assert forall|i: int| 0 <= i < messages.len() implies Some(#[trigger] back[i])
        == read_message(write_message(messages[i])) by {
        assert(read_message(items[i]) == Some(back[i]));
    }
}

/// A text is read as the message that its JSON is; one that holds no JSON, or JSON that is no
/// message, is an error that holds the text.
pub proof fn law_text_is_read_as_its_json(text: Seq<char>, json: Json, reason: Seq<char>)
    ensures
        match read_message(json) {
            Some(message) => read_text(text, Ok(json)) == Ok::<_, JsonRpcErrorView>(message),
            None => {
                &&& read_text(text, Ok(json)) matches Err(
                    JsonRpcErrorView::ParseJson { json: said, source },
                )
                &&& said == text
                &&& source == "data did not match any variant of untagged enum Message"@
            },
        },
        read_text(text, Err(reason)) == Err::<MessageView, _>(
            JsonRpcErrorView::ParseJson { source: reason, json: text },
        ),
{
}

/// An array of one id, and of nothing that is a message, is an invalid request under that id; an
/// array of a code, a message and data, in this order, reads as the error details that they make.
pub proof fn law_ids_and_errors_are_read_from_arrays(
    id: Json,
    code: i32,
    message: Seq<char>,
    data: Json,
)
    requires
        read_message(id) is None,
        read_id(id) is Some,
    ensures
        read_message(Json::Array(seq![id])) == Some(
            MessageView::InvalidRequest(read_id(id)->Some_0),
        ),
        ({
            let number = if code >= 0 {
                JsonNumber::PosInt(code as u64)
            } else {
                JsonNumber::NegInt(code as i64)
            };
            &&& read_details(
                Json::Array(seq![Json::Number(number), Json::String(message), data]),
            ) matches Some(error)
            &&& error.code.number() == code
            &&& error.message == message
            &&& error.data == if data is Null {
                None
            } else {
                Some(last_values(data))
            }
        }),
{
    lemma_not_all_are_read(seq![id], 0);
}

/// An integer that fits 32 bits is an error code, and it is read as the code of that number; an
/// integer that does not fit, a float, and everything that is no number is none.
pub proof fn law_what_is_read_as_a_code(json: Json)
    ensures
        match json {
            Json::Number(JsonNumber::PosInt(n)) => match read_code(json) {
                Some(code) => code.number() == n && code == ErrorCode::from_number(n as i32),
                None => n > i32::MAX,
            },
            Json::Number(JsonNumber::NegInt(i)) => match read_code(json) {
                Some(code) => code.number() == i && code == ErrorCode::from_number(i as i32),
                None => i < i32::MIN || i > i32::MAX,
            },
            _ => read_code(json) is None,
        },
{
}

/// The error details that an object reads as are what its members say: a code and a message, each
/// once, and data at most once.
pub proof fn law_object_says_which_error_it_is_read_as(members: Members)
    ensures
        read_details(Json::Object(members)) matches Some(error) ==> {
            &&& exists|k: int|
                0 <= k < members.len() && (#[trigger] members[k]).0 == "code"@ && read_code(
                    members[k].1,
                ) == Some(error.code)
            &&& exists|k: int|
                0 <= k < members.len() && #[trigger] members[k] == (
                    "message"@,
                    Json::String(error.message),
                )
            &&& match error.data {
                Some(data) => exists|k: int|
                    0 <= k < members.len() && (#[trigger] members[k]).0 == "data"@ && !(
                    members[k].1 is Null) && data == last_values(members[k].1),
                None => forall|k: int|
                    0 <= k < members.len() && (#[trigger] members[k]).0 == "data"@ ==>
                        members[k].1 is Null,
            }
            &&& forall|j: int, k: int|
                0 <= j < k < members.len() && (#[trigger] members[j]).0 == (
                #[trigger] members[k]).0 ==> members[j].0 != "code"@ && members[j].0 != "message"@
                    && members[j].0 != "data"@
        },
{
    lemma_names();
    law_members_are_found_by_name(members, "code"@);
    law_members_are_found_by_name(members, "message"@);
    law_members_are_found_by_name(members, "data"@);
}

/// Null, truth values, numbers and strings are no error details, nor is an array that has not three
/// items.
pub proof fn law_plain_values_are_no_errors(json: Json)
    requires
        !(json is Object),
        json matches Json::Array(items) ==> items.len() != 3,
    ensures
        read_details(json) is None,
{
}

} // verus!
