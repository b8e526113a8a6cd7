//! The decisions of the websocket channel: what a client message asks for,
//! which command it runs, and what the reply says.
use crate::client::{WslcClient, WslcCommand, decimal, wslc};
use crate::json::{JsonValue, get, json_get, json_str_or, json_u64, str_or, u64_of};
use vstd::prelude::*;

verus! {

/// What a websocket message asks for.
pub enum WsRequest {
    Refresh,
    Stop(String),
    Start(String),
    Restart(String),
    Remove(String),
    Logs { name: String, lines: Option<u32> },
    Exec { name: String, command: String },
    Unknown,
}

pub enum WsRequestView {
    Refresh,
    Stop(Seq<char>),
    Start(Seq<char>),
    Restart(Seq<char>),
    Remove(Seq<char>),
    Logs(Seq<char>, Option<u32>),
    Exec(Seq<char>, Seq<char>),
    Unknown,
}

impl View for WsRequest {
    type V = WsRequestView;

    open spec fn view(&self) -> WsRequestView {
        match self {
            WsRequest::Refresh => WsRequestView::Refresh,
            WsRequest::Stop(n) => WsRequestView::Stop(n@),
            WsRequest::Start(n) => WsRequestView::Start(n@),
            WsRequest::Restart(n) => WsRequestView::Restart(n@),
            WsRequest::Remove(n) => WsRequestView::Remove(n@),
            WsRequest::Logs { name, lines } => WsRequestView::Logs(name@, *lines),
            WsRequest::Exec { name, command } => WsRequestView::Exec(name@, command@),
            WsRequest::Unknown => WsRequestView::Unknown,
        }
    }
}

/// What the message `req` asks for: its `cmd` chooses, and `name`,
/// `command` (both "" where missing) and `lines` (an integer, truncated to
/// 32 bits) go with it.
pub open spec fn ws_request_of(req: JsonValue) -> WsRequestView {
    let cmd = json_str_or(json_get(req, "cmd"@), ""@);
    let name = json_str_or(json_get(req, "name"@), ""@);
    if cmd == "refresh"@ {
        WsRequestView::Refresh
    } else if cmd == "stop"@ {
        WsRequestView::Stop(name)
    } else if cmd == "start"@ {
        WsRequestView::Start(name)
    } else if cmd == "restart"@ {
        WsRequestView::Restart(name)
    } else if cmd == "remove"@ {
        WsRequestView::Remove(name)
    } else if cmd == "logs"@ {
        WsRequestView::Logs(
            name,
            match json_u64(json_get(req, "lines"@)) {
                Some(n) => Some(n as u32),
                None => None,
            },
        )
    } else if cmd == "exec"@ {
        WsRequestView::Exec(name, json_str_or(json_get(req, "command"@), ""@))
    } else {
        WsRequestView::Unknown
    }
}

fn same(a: &String, b: &str) -> (res: bool)
    ensures
        res == (a@ == b@),
{
    *a == b.to_string()
}

/// Reads what a websocket message asks for.
pub fn ws_request(req: &JsonValue) -> (res: WsRequest)
    ensures
        res@ == ws_request_of(*req),
{
    let cmd = str_or(get(req, "cmd"), "");
    let name = str_or(get(req, "name"), "");
    if same(&cmd, "refresh") {
        WsRequest::Refresh
    } else if same(&cmd, "stop") {
        WsRequest::Stop(name)
    } else if same(&cmd, "start") {
        WsRequest::Start(name)
    } else if same(&cmd, "restart") {
        WsRequest::Restart(name)
    } else if same(&cmd, "remove") {
        WsRequest::Remove(name)
    } else if same(&cmd, "logs") {
        let lines = match u64_of(get(req, "lines")) {
            Some(n) => Some(n as u32),
            None => None,
        };
        WsRequest::Logs { name, lines }
    } else if same(&cmd, "exec") {
        let command = str_or(get(req, "command"), "");
        WsRequest::Exec { name, command }
    } else {
        WsRequest::Unknown
    }
}

/// The command a request runs first; a refresh runs the listings, and an
/// unknown request runs nothing. A restart runs the stop first.
pub fn ws_command(client: &WslcClient, req: &WsRequest) -> (res: Option<WslcCommand>)
    ensures
        match (req@, res) {
            (WsRequestView::Stop(n), Some(c)) => c@ == wslc(seq!["container"@, "stop"@, n]),
            (WsRequestView::Start(n), Some(c)) => c@ == wslc(seq!["container"@, "start"@, n]),
            (WsRequestView::Restart(n), Some(c)) => c@ == wslc(seq!["container"@, "stop"@, n]),
            (WsRequestView::Remove(n), Some(c)) => c@ == wslc(seq!["container"@, "rm"@, "-f"@, n]),
            (WsRequestView::Logs(n, l), Some(c)) => c@ == wslc(
                seq!["container"@, "logs"@] + match l {
                    Some(k) => seq!["--tail"@, decimal(k as nat)],
                    None => seq![],
                } + seq![n],
            ),
            (WsRequestView::Exec(n, cmd), Some(c)) => c@ == wslc(
                seq!["exec"@, n, "bash"@, "-c"@, cmd],
            ),
            (WsRequestView::Refresh, None) => true,
            (WsRequestView::Unknown, None) => true,
            _ => false,
        },
{
    match req {
        WsRequest::Refresh => None,
        WsRequest::Stop(n) => Some(client.stop_container(n.as_str())),
        WsRequest::Start(n) => Some(client.start_container(n.as_str())),
        WsRequest::Restart(n) => Some(client.stop_container(n.as_str())),
        WsRequest::Remove(n) => Some(client.remove_container(n.as_str(), true)),
        WsRequest::Logs { name, lines } => {
            let c = client.get_logs(name.as_str(), *lines, false);
            proof {
                let l = match *lines {
                    Some(k) => seq!["--tail"@, decimal(k as nat)],
                    None => seq![],
                };
                assert(seq!["container"@, "logs"@] + l + seq![] + seq![name@] =~= seq![
                    "container"@,
                    "logs"@,
                ] + l + seq![name@]);
            }
            Some(c)
        },
        WsRequest::Exec { name, command } => Some(
            client.exec_command(name.as_str(), command.as_str()),
        ),
        WsRequest::Unknown => None,
    }
}

/// A reply to a websocket message (a refresh is answered with the listings
/// themselves).
pub enum WsReply {
    Success(String),
    Error(String),
    Logs { name: String, logs: String },
    ExecOutput { name: String, output: String },
}

pub enum WsReplyView {
    Success(Seq<char>),
    Error(Seq<char>),
    Logs(Seq<char>, Seq<char>),
    ExecOutput(Seq<char>, Seq<char>),
}

impl View for WsReply {
    type V = WsReplyView;

    open spec fn view(&self) -> WsReplyView {
        match self {
            WsReply::Success(m) => WsReplyView::Success(m@),
            WsReply::Error(m) => WsReplyView::Error(m@),
            WsReply::Logs { name, logs } => WsReplyView::Logs(name@, logs@),
            WsReply::ExecOutput { name, output } => WsReplyView::ExecOutput(name@, output@),
        }
    }
}

/// The reply to request `req` whose command ended with `result`: a failure
/// is answered with its error; a success with "容器 <name> 已停止" (已启动,
/// 已重启, 已删除 for start, restart, remove), the logs, or the exec output;
/// an unknown request with "Unknown command".
pub open spec fn ws_reply_of(req: WsRequestView, result: Result<Seq<char>, Seq<char>>) -> WsReplyView {
    match req {
        WsRequestView::Unknown => WsReplyView::Error("Unknown command"@),
        _ => match result {
            Err(e) => WsReplyView::Error(e),
            Ok(out) => match req {
                WsRequestView::Stop(n) => WsReplyView::Success("容器 "@ + n + " 已停止"@),
                WsRequestView::Start(n) => WsReplyView::Success("容器 "@ + n + " 已启动"@),
                WsRequestView::Restart(n) => WsReplyView::Success("容器 "@ + n + " 已重启"@),
                WsRequestView::Remove(n) => WsReplyView::Success("容器 "@ + n + " 已删除"@),
                WsRequestView::Logs(n, _) => WsReplyView::Logs(n, out),
                WsRequestView::Exec(n, _) => WsReplyView::ExecOutput(n, out),
                _ => WsReplyView::Success(out),
            },
        },
    }
}

fn container_message(name: &String, tail: &str) -> (res: String)
    ensures
        res@ == "容器 "@ + name@ + tail@,
{
    "容器 ".to_string().concat(name.as_str()).concat(tail)
}

/// Answers request `req` whose command (for a restart, the start after the
/// stop) ended with `result`. A refresh is answered elsewhere.
pub fn ws_reply(req: &WsRequest, result: Result<String, String>) -> (res: WsReply)
    requires
        !(req@ is Refresh),
    ensures
        res@ == ws_reply_of(req@, crate::client::str_result(result)),
{
    match req {
        WsRequest::Unknown => WsReply::Error("Unknown command".to_string()),
        _ => match result {
            Err(e) => WsReply::Error(e),
            Ok(out) => match req {
                WsRequest::Stop(n) => WsReply::Success(container_message(n, " 已停止")),
                WsRequest::Start(n) => WsReply::Success(container_message(n, " 已启动")),
                WsRequest::Restart(n) => WsReply::Success(container_message(n, " 已重启")),
                WsRequest::Remove(n) => WsReply::Success(container_message(n, " 已删除")),
                WsRequest::Logs { name, .. } => WsReply::Logs { name: name.clone(), logs: out },
                WsRequest::Exec { name, .. } => WsReply::ExecOutput { name: name.clone(), output: out },
                _ => WsReply::Success(out),
            },
        },
    }
}

} // verus!
