//! The decisions behind the HTTP handlers: which request fields are required,
//! which commands a request runs, how batch results are tallied, and the
//! compose file written for a container.
use crate::client::{WslcClient, WslcCommand, run_args, wslc};
use crate::inspect::detail_of;
use crate::json::{JsonValue, get, json_get, json_str, json_str_or, spec_parse_json, str_of, str_or};
use crate::model::{ContainerDetail, ContainerDetailView, ContainerInfo, views};
use crate::text::{trim, trim_to_string};
use vstd::prelude::*;

verus! {

/// What the handlers share: the `wslc` client.
pub struct AppState {
    pub client: WslcClient,
}

/// A request to run a container.
pub struct RunContainerRequest {
    pub image: String,
    pub name: Option<String>,
    pub ports: Option<String>,
    pub volumes: Option<String>,
    pub envs: Option<Vec<String>>,
    pub command: Option<String>,
}

/// The query of a log request.
pub struct LogQuery {
    pub lines: Option<u32>,
    pub follow: Option<bool>,
}

/// A request naming several containers.
pub struct BatchRequest {
    pub names: Vec<String>,
}

/// A compose project to start: one container per service.
pub struct ComposeRequest {
    pub name: String,
    pub services: Vec<ComposeService>,
}

/// One service of a compose project.
pub struct ComposeService {
    pub name: String,
    pub image: String,
    pub ports: Option<String>,
    pub volumes: Option<String>,
    pub envs: Option<Vec<String>>,
    pub command: Option<String>,
}

/// A possibly absent string seen through its view.
pub open spec fn opt_string(o: Option<String>) -> Option<Seq<char>> {
    match o {
        Some(s) => Some(s@),
        None => None,
    }
}

fn opt_as_str(o: &Option<String>) -> (res: Option<&str>)
    ensures
        match res {
            Some(s) => o matches Some(x) && s@ == x@,
            None => o is None,
        },
{
    match o {
        Some(s) => Some(s.as_str()),
        None => None,
    }
}

fn clone_envs(o: &Option<Vec<String>>) -> (res: Option<Vec<String>>)
    ensures
        match (res, o) {
            (Some(a), Some(b)) => views(a@) == views(b@),
            (None, None) => true,
            _ => false,
        },
{
    match o {
        Some(v) => {
            let mut out: Vec<String> = Vec::new();
            let n = v.len();
            let mut i: usize = 0;
            while i < n
                invariant
                    n == v@.len(),
                    i <= n,
                    views(out@) =~= views(v@).take(i as int),
                decreases n - i,
            {
                let ghost before = out@;
                out.push(v[i].clone());
                assert(views(out@) =~= views(before).push(v@[i as int]@));
                i = i + 1;
            }
            assert(views(v@).take(n as int) =~= views(v@));
            Some(out)
        },
        None => None,
    }
}

/// A required text field of a request: trimmed, and refused with `message`
/// where it is missing or blank.
pub open spec fn required(v: Option<Seq<char>>, message: Seq<char>) -> Result<Seq<char>, Seq<char>> {
    let t = trim(
        match v {
            Some(s) => s,
            None => Seq::empty(),
        },
    );
    if t.len() == 0 {
        Err(message)
    } else {
        Ok(t)
    }
}

/// Reads the required text field `key` of a JSON request body: the field's
/// string, trimmed; `Err(message)` where it is absent, not a string, or blank.
pub fn required_text(body: &JsonValue, key: &str, message: &str) -> (res: Result<String, String>)
    ensures
        match res {
            Ok(s) => required(json_str(json_get(*body, key@)), message@) == Ok::<Seq<char>, Seq<char>>(s@),
            Err(e) => required(json_str(json_get(*body, key@)), message@) == Err::<Seq<char>, Seq<char>>(e@),
        },
{
    let raw = str_or(get(body, key), "");
    proof {
        reveal_strlit("");
    }
    let t = trim_to_string(raw.as_str());
    if t.as_str().is_empty() {
        Err(message.to_string())
    } else {
        Ok(t)
    }
}

/// The optional text field `key` of a JSON request body, as given.
pub fn optional_text(body: &JsonValue, key: &str) -> (res: Option<String>)
    ensures
        opt_string(res) == json_str(json_get(*body, key@)),
{
    str_of(get(body, key))
}

/// The text field `key` of a JSON request body, or `d`.
pub fn text_or(body: &JsonValue, key: &str, d: &str) -> (res: String)
    ensures
        res@ == json_str_or(json_get(*body, key@), d@),
{
    str_or(get(body, key), d)
}

/// Whether a request string is blank (`s.trim().is_empty()`).
pub fn is_blank_text(s: &str) -> (res: bool)
    ensures
        res == (trim(s@).len() == 0),
{
    trim_to_string(s).as_str().is_empty()
}

/// The command a run request starts (detached), or the refusal where its
/// image is blank. The image is passed on as given.
pub fn run_request_command(client: &WslcClient, req: &RunContainerRequest) -> (res: Result<
    WslcCommand,
    String,
>)
    ensures
        match res {
            Ok(c) => trim(req.image@).len() != 0 && c@ == wslc(
                run_args(
                    req.image@,
                    opt_string(req.name),
                    opt_string(req.ports),
                    opt_string(req.volumes),
                    match req.envs {
                        Some(v) => Some(views(v@)),
                        None => None,
                    },
                    true,
                    opt_string(req.command),
                ),
            ),
            Err(e) => trim(req.image@).len() == 0 && e@ == "镜像名称不能为空"@,
        },
{
    if is_blank_text(req.image.as_str()) {
        return Err("镜像名称不能为空".to_string());
    }
    let envs = clone_envs(&req.envs);
    let c = client.run_container(
        req.image.as_str(),
        opt_as_str(&req.name),
        opt_as_str(&req.ports),
        opt_as_str(&req.volumes),
        envs,
        true,
        opt_as_str(&req.command),
    );
    Ok(c)
}

/// Whether a removal query asks for force: its `force` value is "true".
pub fn force_requested(force: Option<&str>) -> (res: bool)
    ensures
        res == match force {
            Some(v) => v@ == "true"@,
            None => false,
        },
{
    match force {
        Some(v) => {
            let t = "true".to_string();
            v.to_string() == t
        },
        None => false,
    }
}

/// The log command of a log request: follow only where asked.
pub fn logs_request_command(client: &WslcClient, name: &str, query: &LogQuery) -> (res: WslcCommand)
    ensures
        res@ == wslc(
            seq!["container"@, "logs"@] + match query.lines {
                Some(n) => seq!["--tail"@, crate::client::decimal(n as nat)],
                None => seq![],
            } + if query.follow == Some(true) {
                seq!["-f"@]
            } else {
                seq![]
            } + seq![name@],
        ),
{
    let follow = match query.follow {
        Some(f) => f,
        None => false,
    };
    client.get_logs(name, query.lines, follow)
}

/// The command of a JSON exec request: its `command`, or `echo 'No command'`.
pub fn exec_request_command(client: &WslcClient, name: &str, body: &JsonValue) -> (res: WslcCommand)
    ensures
        res@ == wslc(
            seq![
                "exec"@,
                name@,
                "bash"@,
                "-c"@,
                json_str_or(json_get(*body, "command"@), "echo 'No command'"@),
            ],
        ),
{
    let command = text_or(body, "command", "echo 'No command'");
    client.exec_command(name, command.as_str())
}

/// The tally of a batch of container operations.
pub struct BatchReport {
    pub succeeded: usize,
    pub failed: usize,
    pub errors: Vec<String>,
}

/// A batch tally as numbers and lines.
pub struct BatchTally {
    pub succeeded: nat,
    pub failed: nat,
    pub errors: Seq<Seq<char>>,
}

impl View for BatchReport {
    type V = BatchTally;

    open spec fn view(&self) -> BatchTally {
        BatchTally {
            succeeded: self.succeeded as nat,
            failed: self.failed as nat,
            errors: views(self.errors@),
        }
    }
}

/// One operation of a batch: the container's name and how the operation ended.
pub type BatchItem = (Seq<char>, Result<Seq<char>, Seq<char>>);

/// The number of operations of `items` that succeeded.
pub open spec fn count_ok(items: Seq<BatchItem>) -> nat
    decreases items.len(),
{
    if items.len() == 0 {
        0
    } else {
        count_ok(items.drop_last()) + if items.last().1 is Ok {
            1nat
        } else {
            0nat
        }
    }
}

/// The number of operations of `items` that failed.
pub open spec fn count_err(items: Seq<BatchItem>) -> nat
    decreases items.len(),
{
    if items.len() == 0 {
        0
    } else {
        count_err(items.drop_last()) + if items.last().1 is Err {
            1nat
        } else {
            0nat
        }
    }
}

/// "<name>: <error>" for each operation of `items` that failed, in order.
pub open spec fn error_lines(items: Seq<BatchItem>) -> Seq<Seq<char>>
    decreases items.len(),
{
    if items.len() == 0 {
        seq![]
    } else {
        match items.last().1 {
            Ok(_) => error_lines(items.drop_last()),
            Err(e) => error_lines(items.drop_last()).push(items.last().0 + ": "@ + e),
        }
    }
}

/// The tally of a whole batch: how many operations succeeded, how many
/// failed, and the error line of each failure in order.
pub open spec fn batch_tally(items: Seq<BatchItem>) -> BatchTally {
    BatchTally { succeeded: count_ok(items), failed: count_err(items), errors: error_lines(items) }
}

/// The operations of a batch seen through their views.
pub open spec fn batch_items(v: Seq<(String, Result<String, String>)>) -> Seq<BatchItem> {
    v.map_values(|p: (String, Result<String, String>)| (p.0@, crate::client::str_result(p.1)))
}

impl BatchReport {
    /// An empty tally.
    pub fn new() -> (res: Self)
        ensures
            res.succeeded == 0,
            res.failed == 0,
            res.errors@.len() == 0,
            res@ == batch_tally(seq![]),
    {
        let res = BatchReport { succeeded: 0, failed: 0, errors: Vec::new() };
        assert(res@.errors =~= seq![]);
        res
    }

    /// Counts the outcome of the operation on container `name`; a failure
    /// also records "<name>: <error>".
    pub fn record(&mut self, name: &str, result: &Result<String, String>)
        requires
            old(self).succeeded + old(self).failed < usize::MAX,
        ensures
            final(self).succeeded + final(self).failed == old(self).succeeded + old(self).failed + 1,
            match result {
                Ok(_) => final(self).succeeded == old(self).succeeded + 1 && final(self).failed
                    == old(self).failed && final(self).errors@ == old(self).errors@,
                Err(e) => final(self).failed == old(self).failed + 1 && final(self).succeeded
                    == old(self).succeeded && views(final(self).errors@) == views(
                    old(self).errors@,
                ).push(name@ + ": "@ + e@),
            },
            forall|items: Seq<BatchItem>|
                old(self)@ == batch_tally(items) ==> final(self)@ == #[trigger] batch_tally(
                    items.push((name@, crate::client::str_result(*result))),
                ),
    {
        match result {
            Ok(_) => {
                self.succeeded = self.succeeded + 1;
            },
            Err(e) => {
                self.failed = self.failed + 1;
                let line = name.to_string().concat(": ").concat(e.as_str());
                let ghost before = self.errors@;
                self.errors.push(line);
                assert(views(self.errors@) =~= views(before).push(name@ + ": "@ + e@));
            },
        }
        assert forall|items: Seq<BatchItem>|
            old(self)@ == batch_tally(items) implies self@ == #[trigger] batch_tally(
                items.push((name@, crate::client::str_result(*result))),
            ) by {
            let all = items.push((name@, crate::client::str_result(*result)));
            assert(all.drop_last() =~= items);
        }
    }

    /// The tally of a whole batch, recording each operation in order from an
    /// empty tally.
    pub fn tally(items: &Vec<(String, Result<String, String>)>) -> (res: BatchReport)
        ensures
            res@ == batch_tally(batch_items(items@)),
            res.succeeded == batch_items(items@).filter(|it: BatchItem| it.1 is Ok).len(),
            res.failed == batch_items(items@).filter(|it: BatchItem| it.1 is Err).len(),
            views(res.errors@) == batch_items(items@).filter(|it: BatchItem| it.1 is Err).map_values(
                |it: BatchItem| error_line(it),
            ),
    {
        let mut report = BatchReport::new();
        let n = items.len();
        let mut i: usize = 0;
        while i < n
            invariant
                n == items@.len(),
                i <= n,
                report@ == batch_tally(batch_items(items@).take(i as int)),
                report.succeeded + report.failed == i,
            decreases n - i,
        {
            proof {
                law_batch_counts(batch_items(items@).take(i as int));
            }
            report.record(items[i].0.as_str(), &items[i].1);
            proof {
                let all = batch_items(items@);
                assert(all.take(i + 1) =~= all.take(i as int).push(
                    (items@[i as int].0@, crate::client::str_result(items@[i as int].1)),
                ));
            }
            i = i + 1;
        }
        assert(batch_items(items@).take(n as int) =~= batch_items(items@));
        proof {
            law_batch_tally_of_sequence(batch_items(items@));
        }
        report
    }
}

/// Every operation of a batch is counted once: as a success or as a failure,
/// and each failure has its error line.
pub proof fn law_batch_counts(items: Seq<BatchItem>)
    ensures
        count_ok(items) + count_err(items) == items.len(),
        error_lines(items).len() == count_err(items),
    decreases items.len(),
{
    if items.len() > 0 {
        law_batch_counts(items.drop_last());
    }
}

/// The error line of an operation: "<name>: <error>" for a failure.
pub open spec fn error_line(item: BatchItem) -> Seq<char> {
    match item.1 {
        Ok(_) => seq![],
        Err(e) => item.0 + ": "@ + e,
    }
}

/// The tally of a whole batch: `succeeded` is the number of operations that
/// succeeded, `failed` the number that failed, and `errors` holds the error
/// line of each failed operation, in the order of the batch.
pub proof fn law_batch_tally_of_sequence(items: Seq<BatchItem>)
    ensures
        batch_tally(items).succeeded == items.filter(|it: BatchItem| it.1 is Ok).len(),
        batch_tally(items).failed == items.filter(|it: BatchItem| it.1 is Err).len(),
        batch_tally(items).errors == items.filter(|it: BatchItem| it.1 is Err).map_values(
            |it: BatchItem| error_line(it),
        ),
    decreases items.len(),
{
    reveal(Seq::filter);
    if items.len() > 0 {
        law_batch_tally_of_sequence(items.drop_last());
        let errs = items.drop_last().filter(|it: BatchItem| it.1 is Err);
        errs.lemma_push_map_commute(|it: BatchItem| error_line(it), items.last());
    } else {
        assert(items.filter(|it: BatchItem| it.1 is Err).map_values(|it: BatchItem| error_line(it))
            =~= seq![]);
    }
}

/// The names of the stopped containers of a listing, in order; a failed
/// listing has none.
pub open spec fn stopped_names(cs: Seq<ContainerInfo>) -> Seq<Seq<char>>
    decreases cs.len(),
{
    if cs.len() == 0 {
        seq![]
    } else if cs.last().is_running {
        stopped_names(cs.drop_last())
    } else {
        stopped_names(cs.drop_last()).push(cs.last().name@)
    }
}

/// The names of the containers that a removal of all stopped containers
/// removes.
pub fn stopped_container_names(listing: &Result<Vec<ContainerInfo>, String>) -> (res: Vec<String>)
    ensures
        views(res@) == match listing {
            Ok(v) => stopped_names(v@),
            Err(_) => seq![],
        },
{
    let mut out: Vec<String> = Vec::new();
    match listing {
        Ok(v) => {
            let n = v.len();
            let mut i: usize = 0;
            while i < n
                invariant
                    n == v@.len(),
                    i <= n,
                    views(out@) == stopped_names(v@.take(i as int)),
                decreases n - i,
            {
                assert(v@.take(i + 1).drop_last() =~= v@.take(i as int));
                if !v[i].is_running {
                    let ghost before = out@;
                    out.push(v[i].name.clone());
                    assert(views(out@) =~= views(before).push(v@[i as int].name@));
                }
                i = i + 1;
            }
            assert(v@.take(n as int) =~= v@);
            out
        },
        Err(_) => {
            assert(views(out@) =~= seq![]);
            out
        },
    }
}

/// The name of the container that service `service` of project `project`
/// runs as: `<project>-<service>`.
pub open spec fn compose_container_name(project: Seq<char>, service: Seq<char>) -> Seq<char> {
    project + "-"@ + service
}

/// The container name and the (detached) run command of one compose service.
pub fn compose_service_command(client: &WslcClient, project: &str, service: &ComposeService) -> (res: (
    String,
    WslcCommand,
))
    ensures
        res.0@ == compose_container_name(project@, service.name@),
        res.1@ == wslc(
            run_args(
                service.image@,
                Some(res.0@),
                opt_string(service.ports),
                opt_string(service.volumes),
                match service.envs {
                    Some(v) => Some(views(v@)),
                    None => None,
                },
                true,
                opt_string(service.command),
            ),
        ),
{
    let container_name = project.to_string().concat("-").concat(service.name.as_str());
    let envs = clone_envs(&service.envs);
    let c = client.run_container(
        service.image.as_str(),
        Some(container_name.as_str()),
        opt_as_str(&service.ports),
        opt_as_str(&service.volumes),
        envs,
        true,
        opt_as_str(&service.command),
    );
    (container_name, c)
}

/// `parts` joined by `sep`.
pub open spec fn join(parts: Seq<Seq<char>>, sep: Seq<char>) -> Seq<char>
    decreases parts.len(),
{
    if parts.len() == 0 {
        seq![]
    } else if parts.len() == 1 {
        parts[0]
    } else {
        join(parts.drop_last(), sep) + sep + parts.last()
    }
}

/// The `ports` blocks of a compose file, one per port.
pub open spec fn port_blocks(ps: Seq<crate::model::PortMappingView>) -> Seq<char>
    decreases ps.len(),
{
    if ps.len() == 0 {
        seq![]
    } else {
        port_blocks(ps.drop_last()) + "    ports:\n      - \""@ + ps.last().host_port + ":"@
            + ps.last().container_port + "\"\n"@
    }
}

/// The `environment` blocks of a compose file, one per variable.
pub open spec fn env_blocks(es: Seq<Seq<char>>) -> Seq<char>
    decreases es.len(),
{
    if es.len() == 0 {
        seq![]
    } else {
        env_blocks(es.drop_last()) + "    environment:\n      - "@ + es.last() + "\n"@
    }
}

/// The `volumes` blocks of a compose file, one per mount.
pub open spec fn mount_blocks(ms: Seq<crate::model::MountInfoView>) -> Seq<char>
    decreases ms.len(),
{
    if ms.len() == 0 {
        seq![]
    } else {
        mount_blocks(ms.drop_last()) + "    volumes:\n      - \""@ + ms.last().source + ":"@
            + ms.last().destination + "\"\n"@
    }
}

/// The compose file written for container `name` with detail `d`.
pub open spec fn compose_yaml(name: Seq<char>, d: ContainerDetailView) -> Seq<char> {
    "version: '3.8'\nservices:\n"@ + "  "@ + name + ":\n"@ + "    image: "@ + d.image + "\n"@ + (
    if d.cmd.len() != 0 {
        "    command: "@ + join(d.cmd, " "@) + "\n"@
    } else {
        seq![]
    }) + port_blocks(d.ports) + env_blocks(d.env) + mount_blocks(d.mounts)
}

fn append(s: &mut String, t: &str)
    ensures
        final(s)@ == old(s)@ + t@,
{
    s.append(t);
}

fn join_strings(parts: &Vec<String>, sep: &str) -> (res: String)
    ensures
        res@ == join(views(parts@), sep@),
{
    let mut out = String::new();
    let n = parts.len();
    let mut i: usize = 0;
    while i < n
        invariant
            n == parts@.len(),
            i <= n,
            out@ == join(views(parts@).take(i as int), sep@),
        decreases n - i,
    {
        let ghost p = views(parts@);
        assert(p.take(i + 1).drop_last() =~= p.take(i as int));
        if i > 0 {
            append(&mut out, sep);
        } else {
            assert(join(p.take(0), sep@) =~= seq![]);
        }
        append(&mut out, parts[i].as_str());
        assert(out@ =~= join(p.take(i + 1), sep@));
        i = i + 1;
    }
    assert(views(parts@).take(n as int) =~= views(parts@));
    out
}

/// The compose file that exporting container `name` writes: its image, its
/// command where it has one, then one block per port, variable and mount.
pub fn export_compose_yaml(name: &str, detail: &ContainerDetail) -> (res: String)
    ensures
        res@ == compose_yaml(name@, detail@),
{
    let mut yaml = "version: '3.8'\nservices:\n".to_string();
    append(&mut yaml, "  ");
    append(&mut yaml, name);
    append(&mut yaml, ":\n");
    append(&mut yaml, "    image: ");
    append(&mut yaml, detail.image.as_str());
    append(&mut yaml, "\n");
    let ghost head = yaml@;
    if detail.cmd.len() != 0 {
        append(&mut yaml, "    command: ");
        let joined = join_strings(&detail.cmd, " ");
        append(&mut yaml, joined.as_str());
        append(&mut yaml, "\n");
    }
    let ghost d = detail@;
    let ghost after_cmd = yaml@;
    let n = detail.ports.len();
    let mut i: usize = 0;
    while i < n
        invariant
            n == detail.ports@.len(),
            i <= n,
            d == detail@,
            yaml@ == after_cmd + port_blocks(d.ports.take(i as int)),
        decreases n - i,
    {
        assert(d.ports.take(i + 1).drop_last() =~= d.ports.take(i as int));
        assert(d.ports[i as int] == detail.ports@[i as int]@);
        append(&mut yaml, "    ports:\n      - \"");
        append(&mut yaml, detail.ports[i].host_port.as_str());
        append(&mut yaml, ":");
        append(&mut yaml, detail.ports[i].container_port.as_str());
        append(&mut yaml, "\"\n");
        assert(yaml@ =~= after_cmd + port_blocks(d.ports.take(i + 1)));
        i = i + 1;
    }
    assert(d.ports.take(n as int) =~= d.ports);
    let ghost after_ports = yaml@;
    let n = detail.env.len();
    let mut i: usize = 0;
    while i < n
        invariant
            n == detail.env@.len(),
            i <= n,
            d == detail@,
            yaml@ == after_ports + env_blocks(d.env.take(i as int)),
        decreases n - i,
    {
        assert(d.env.take(i + 1).drop_last() =~= d.env.take(i as int));
        assert(d.env[i as int] == detail.env@[i as int]@);
        append(&mut yaml, "    environment:\n      - ");
        append(&mut yaml, detail.env[i].as_str());
        append(&mut yaml, "\n");
        assert(yaml@ =~= after_ports + env_blocks(d.env.take(i + 1)));
        i = i + 1;
    }
    assert(d.env.take(n as int) =~= d.env);
    let ghost after_env = yaml@;
    let n = detail.mounts.len();
    let mut i: usize = 0;
    while i < n
        invariant
            n == detail.mounts@.len(),
            i <= n,
            d == detail@,
            yaml@ == after_env + mount_blocks(d.mounts.take(i as int)),
        decreases n - i,
    {
        assert(d.mounts.take(i + 1).drop_last() =~= d.mounts.take(i as int));
        assert(d.mounts[i as int] == detail.mounts@[i as int]@);
        append(&mut yaml, "    volumes:\n      - \"");
        append(&mut yaml, detail.mounts[i].source.as_str());
        append(&mut yaml, ":");
        append(&mut yaml, detail.mounts[i].destination.as_str());
        append(&mut yaml, "\"\n");
        assert(yaml@ =~= after_env + mount_blocks(d.mounts.take(i + 1)));
        i = i + 1;
    }
    assert(d.mounts.take(n as int) =~= d.mounts);
    assert(yaml@ =~= compose_yaml(name@, d));
    yaml
}

/// The port a clone publishes: the first port of the cloned container, as
/// `<host port>:<container port>`.
pub open spec fn clone_port(d: ContainerDetailView) -> Option<Seq<char>> {
    if d.ports.len() > 0 {
        Some(d.ports[0].host_port + ":"@ + d.ports[0].container_port)
    } else {
        None
    }
}

/// The image that a clone of container `name` is committed to.
pub open spec fn clone_image(name: Seq<char>) -> Seq<char> {
    "temp-clone-"@ + name
}

/// Where cloning a container stands.
pub enum CloneStage {
    /// Waiting for the inspection of the container being cloned.
    Inspecting,
    /// Waiting for the commit of that container to the temporary image; the
    /// port the clone will publish.
    Committing { port: Option<String> },
    /// Waiting for the clone to start.
    Running,
    /// Waiting for the temporary image's removal; how the clone ended.
    CleaningUp { outcome: Result<(), String> },
    /// Finished.
    Done,
}

/// What to do next in a clone.
pub enum CloneAction {
    /// Run this command and report its output.
    Execute(WslcCommand),
    /// The clone is over, with this outcome.
    Finish(Result<(), String>),
}

pub enum CloneStageView {
    Inspecting,
    Committing(Option<Seq<char>>),
    Running,
    CleaningUp(Result<(), Seq<char>>),
    Done,
}

pub enum CloneActionView {
    Execute(crate::client::WslcCommandView),
    Finish(Result<(), Seq<char>>),
}

pub open spec fn unit_result(r: Result<(), String>) -> Result<(), Seq<char>> {
    match r {
        Ok(()) => Ok(()),
        Err(e) => Err(e@),
    }
}

impl View for CloneStage {
    type V = CloneStageView;

    open spec fn view(&self) -> CloneStageView {
        match self {
            CloneStage::Inspecting => CloneStageView::Inspecting,
            CloneStage::Committing { port } => CloneStageView::Committing(opt_string(*port)),
            CloneStage::Running => CloneStageView::Running,
            CloneStage::CleaningUp { outcome } => CloneStageView::CleaningUp(unit_result(*outcome)),
            CloneStage::Done => CloneStageView::Done,
        }
    }
}

impl View for CloneAction {
    type V = CloneActionView;

    open spec fn view(&self) -> CloneActionView {
        match self {
            CloneAction::Execute(c) => CloneActionView::Execute(c@),
            CloneAction::Finish(r) => CloneActionView::Finish(unit_result(*r)),
        }
    }
}

/// Cloning container `name` as `new_name`: inspect it, commit it to a
/// temporary image, run the clone from that image (detached, publishing the
/// first port), then remove the temporary image whatever the run gave.
pub struct CloneJob {
    pub name: String,
    pub new_name: String,
    pub temp_image: String,
    pub stage: CloneStage,
}

/// The step of a clone: from the stage `st` and the output `out` of the last
/// command, the next stage and action.
pub open spec fn clone_step(
    name: Seq<char>,
    new_name: Seq<char>,
    st: CloneStageView,
    out: Result<Seq<char>, Seq<char>>,
) -> (CloneStageView, CloneActionView) {
    let temp = clone_image(name);
    match st {
        CloneStageView::Inspecting => match out {
            Err(e) => (CloneStageView::Done, CloneActionView::Finish(Err(e))),
            Ok(s) => match spec_parse_json(s) {
                None => (
                    CloneStageView::Done,
                    CloneActionView::Finish(Err("Failed to parse container inspect output"@)),
                ),
                Some(doc) => (
                    CloneStageView::Committing(clone_port(detail_of(name, doc))),
                    CloneActionView::Execute(wslc(seq!["commit"@, name, temp])),
                ),
            },
        },
        CloneStageView::Committing(port) => match out {
            Err(e) => (CloneStageView::Done, CloneActionView::Finish(Err(e))),
            Ok(_) => (
                CloneStageView::Running,
                CloneActionView::Execute(
                    wslc(run_args(temp, Some(new_name), port, None, None, true, None)),
                ),
            ),
        },
        CloneStageView::Running => (
            CloneStageView::CleaningUp(
                match out {
                    Ok(_) => Ok(()),
                    Err(e) => Err(e),
                },
            ),
            CloneActionView::Execute(wslc(seq!["rmi"@, "-f"@, temp])),
        ),
        CloneStageView::CleaningUp(outcome) => (CloneStageView::Done, CloneActionView::Finish(outcome)),
        CloneStageView::Done => (CloneStageView::Done, CloneActionView::Finish(Ok(()))),
    }
}

impl CloneJob {
    /// Starts cloning `name` as `new_name`: the first command inspects `name`.
    pub fn start(client: &WslcClient, name: &str, new_name: &str) -> (res: (CloneJob, WslcCommand))
        ensures
            res.0.name@ == name@,
            res.0.new_name@ == new_name@,
            res.0.temp_image@ == clone_image(name@),
            res.0.stage@ == CloneStageView::Inspecting,
            res.1@ == wslc(seq!["inspect"@, name@]),
    {
        let temp_image = "temp-clone-".to_string().concat(name);
        let job = CloneJob {
            name: name.to_string(),
            new_name: new_name.to_string(),
            temp_image,
            stage: CloneStage::Inspecting,
        };
        (job, client.inspect_container_command(name))
    }

    /// Advances the clone by the output of the command it last asked for.
    pub fn step(&mut self, client: &WslcClient, output: Result<String, String>) -> (res: CloneAction)
        requires
            old(self).temp_image@ == clone_image(old(self).name@),
        ensures
            final(self).name == old(self).name,
            final(self).new_name == old(self).new_name,
            final(self).temp_image == old(self).temp_image,
            (final(self).stage@, res@) == clone_step(
                old(self).name@,
                old(self).new_name@,
                old(self).stage@,
                crate::client::str_result(output),
            ),
    {
        let mut stage = CloneStage::Done;
        std::mem::swap(&mut stage, &mut self.stage);
        match stage {
            CloneStage::Inspecting => {
                match client.inspect_container(self.name.as_str(), output) {
                    Ok(detail) => {
                        let port = if detail.ports.len() > 0 {
                            Some(
                                detail.ports[0].host_port.clone().concat(":").concat(
                                    detail.ports[0].container_port.as_str(),
                                ),
                            )
                        } else {
                            None
                        };
                        self.stage = CloneStage::Committing { port };
                        CloneAction::Execute(
                            client.commit_container(self.name.as_str(), self.temp_image.as_str()),
                        )
                    },
                    Err(e) => CloneAction::Finish(Err(e)),
                }
            },
            CloneStage::Committing { port } => match output {
                Ok(_) => {
                    let c = client.run_container(
                        self.temp_image.as_str(),
                        Some(self.new_name.as_str()),
                        opt_as_str(&port),
                        None,
                        None,
                        true,
                        None,
                    );
                    self.stage = CloneStage::Running;
                    CloneAction::Execute(c)
                },
                Err(e) => CloneAction::Finish(Err(e)),
            },
            CloneStage::Running => {
                let outcome = match output {
                    Ok(_) => Ok(()),
                    Err(e) => Err(e),
                };
                self.stage = CloneStage::CleaningUp { outcome };
                CloneAction::Execute(client.remove_image(self.temp_image.as_str(), true))
            },
            CloneStage::CleaningUp { outcome } => CloneAction::Finish(outcome),
            CloneStage::Done => CloneAction::Finish(Ok(())),
        }
    }
}

} // verus!
