//! The client of the Model Context Protocol that is layered on JSON-RPC.
use crate::error::JsonRpcError;
use std::marker::PhantomData;
use vstd::prelude::*;
use vstd::string::StringExecFns;

verus! {

/// Everything that can go wrong in a client.
#[allow(inconsistent_fields)]
#[derive(Debug)]
pub enum McpClientError {
    /// The server could not be started as a child process; `source` is the text of the reason.
    SpawnServer { source: String, program: String, args: Vec<String> },
    /// The client could not be bound to its transport.
    JsonRpcBind { source: JsonRpcError },
    /// A call to the server failed.
    JsonRpcCall { method: String, source: JsonRpcError },
    /// The server speaks a version of the protocol that the client does not.
    UnsupportedProtoVersion { version: String },
}

/// `parts` with a separator between each two.
pub open spec fn joined(parts: Seq<Seq<char>>, separator: Seq<char>) -> Seq<char>
    decreases parts.len(),
{
    if parts.len() == 0 {
        Seq::empty()
    } else if parts.len() == 1 {
        parts[0]
    } else {
        joined(parts.drop_last(), separator) + separator + parts.last()
    }
}

/// What texts stand for.
pub open spec fn texts_view(parts: Seq<String>) -> Seq<Seq<char>> {
    parts.map_values(|part: String| part@)
}

fn join(parts: &Vec<String>, separator: &str) -> (text: String)
    ensures
        text@ == joined(texts_view(parts@), separator@),
{
    let ghost views = texts_view(parts@);
    if parts.len() == 0 {
        return String::new();
    }
    let mut text = parts[0].clone();
    let mut i: usize = 1;
    while i < parts.len()
        invariant
            1 <= i <= parts@.len(),
            views == texts_view(parts@),
            text@ == joined(views.take(i as int), separator@),
        decreases parts@.len() - i,
    {
        proof {
            assert(views.take(i + 1).drop_last() =~= views.take(i as int));
            assert(views.take(i + 1).last() == parts@[i as int]@);
        }
        text.append(separator);
        text.append(parts[i].as_str());
        i += 1;
    }
    assert(views.take(views.len() as int) =~= views);
    text
}

impl McpClientError {
    /// Reports an error of a call to a method.
    pub fn json_rpc_call_error(method: String, source: JsonRpcError) -> (error: Self)
        ensures
            error == (McpClientError::JsonRpcCall { method, source }),
    {
        McpClientError::JsonRpcCall { method, source }
    }

    /// The error as it is shown to people.
    pub open spec fn text(self, supported_versions: Seq<Seq<char>>) -> Seq<char> {
        match self {
            McpClientError::SpawnServer { program, args, .. } => "Error spawning MCP server '"@
                + program@ + "' with args ["@ + joined(texts_view(args@), " "@)
                + "] as child process"@,
            McpClientError::JsonRpcBind { source } => source@.text(),
            McpClientError::JsonRpcCall { method, .. } => "Error invoking '"@ + method@
                + "' on MCP server"@,
            McpClientError::UnsupportedProtoVersion { version } =>
                "The MCP server speaks MCP protocol version '"@ + version@
                + "' but this client only supports the following protocol versions: "@ + joined(
                supported_versions,
                ", "@,
            ),
        }
    }

    /// Shows the error, given the versions of the protocol that the client speaks.
    pub fn to_text(&self, supported_versions: &Vec<String>) -> (text: String)
        ensures
            text@ == self.text(texts_view(supported_versions@)),
    {
        match self {
            McpClientError::SpawnServer { program, args, .. } => {
                let mut text = "Error spawning MCP server '".to_string();
                text.append(program.as_str());
                text.append("' with args [");
                text.append(join(args, " ").as_str());
                text.append("] as child process");
                text
            },
            McpClientError::JsonRpcBind { source } => source.to_text(),
            McpClientError::JsonRpcCall { method, .. } => {
                let mut text = "Error invoking '".to_string();
                text.append(method.as_str());
                text.append("' on MCP server");
                text
            },
            McpClientError::UnsupportedProtoVersion { version } => {
                let mut text = "The MCP server speaks MCP protocol version '".to_string();
                text.append(version.as_str());
                text.append(
                    "' but this client only supports the following protocol versions: ",
                );
                text.append(join(supported_versions, ", ").as_str());
                text
            },
        }
    }
}

/// A tool that a server offers.
#[derive(Clone, Copy, Debug, PartialEq, Eq, Structural)]
pub struct Tool;

/// A resource that a server offers.
#[derive(Clone, Copy, Debug, PartialEq, Eq, Structural)]
pub struct Resource;

/// A call to a tool.
#[derive(Clone, Copy, Debug, PartialEq, Eq, Structural)]
pub struct ToolCall;

/// An event that the remote peer fires, and that tells a `T`.
pub struct EventHandle<T> {
    phantom: PhantomData<T>,
}

impl<T> EventHandle<T> {
    /// Creates a handle to an event.
    pub fn new() -> (handle: Self)
        ensures
            handle == EventHandle::<T>::handle(),
    {
        EventHandle { phantom: PhantomData }
    }

    /// The one handle that there is.
    pub closed spec fn handle() -> Self {
        EventHandle { phantom: PhantomData }
    }
}

/// Texts are joined in their order, with the separator before each but the first.
pub proof fn law_texts_are_joined_in_turn(
    parts: Seq<Seq<char>>,
    last: Seq<char>,
    separator: Seq<char>,
)
    ensures
        joined(Seq::empty(), separator).len() == 0,
        joined(seq![last], separator) == last,
        parts.len() > 0 ==> joined(parts.push(last), separator) == joined(parts, separator)
            + separator + last,
{
    assert(parts.push(last).drop_last() =~= parts);
}

/// Texts stand for as many texts, each for its own.
pub proof fn law_each_text_is_viewed(parts: Seq<String>)
    ensures
        texts_view(parts).len() == parts.len(),
        forall|i: int| 0 <= i < parts.len() ==> #[trigger] texts_view(parts)[i] == parts[i]@,
{
}

/// An error of a client is shown with what it is about: the program and its arguments, the error of
/// the connection, the method, or the version and those that the client speaks.
pub proof fn law_client_errors_show_what_they_are_about(
    error: McpClientError,
    supported_versions: Seq<Seq<char>>,
)
    ensures
        match error {
            McpClientError::SpawnServer { program, args, .. } => error.text(supported_versions)
                == "Error spawning MCP server '"@ + program@ + "' with args ["@ + joined(
                texts_view(args@),
                " "@,
            ) + "] as child process"@,
            McpClientError::JsonRpcBind { source } => error.text(supported_versions)
                == source@.text(),
            McpClientError::JsonRpcCall { method, .. } => error.text(supported_versions)
                == "Error invoking '"@ + method@ + "' on MCP server"@,
            McpClientError::UnsupportedProtoVersion { version } => error.text(supported_versions)
                == "The MCP server speaks MCP protocol version '"@ + version@
                + "' but this client only supports the following protocol versions: "@ + joined(
                supported_versions,
                ", "@,
            ),
        },
{
}

} // verus!
