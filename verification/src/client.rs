//! The `wslc` client: the command lines it runs for each operation, and how
//! it reads what those commands print.
use crate::inspect::{container_detail, detail_of};
use crate::json::{parse_json, spec_parse_json};
use crate::listing::{
    container_table, image_table, network_table, parse_container_table,
    parse_image_table, parse_network_table, parse_volume_table, volume_table,
};
use crate::model::{
    ContainerDetail, ContainerInfo, ContainerInfoView, ImageInfo,
    ImageInfoView, NetworkInfo, SystemInfo, VolumeInfo, views,
};
use crate::text::{trim, trim_to_string};
use vstd::prelude::*;
use vstd::utf8::*;

verus! {

/// A command line: the program and its arguments.
pub struct WslcCommand {
    pub program: String,
    pub args: Vec<String>,
}

#[verifier::ext_equal]
pub struct WslcCommandView {
    pub program: Seq<char>,
    pub args: Seq<Seq<char>>,
}

impl View for WslcCommand {
    type V = WslcCommandView;

    open spec fn view(&self) -> WslcCommandView {
        WslcCommandView { program: self.program@, args: views(self.args@) }
    }
}

/// The `wslc` command line with arguments `args`.
pub open spec fn wslc(args: Seq<Seq<char>>) -> WslcCommandView {
    WslcCommandView { program: "wslc"@, args }
}

/// How a command run ended, as the process layer reports it.
pub enum CommandOutcome {
    /// The command could not be started; the launch error's message.
    Failed(String),
    /// The command ran and exited.
    Exited { success: bool, stdout: Vec<u8>, stderr: Vec<u8> },
}

/// The text `String::from_utf8_lossy` makes of `b`.
pub uninterp spec fn spec_utf8_lossy(b: Seq<u8>) -> Seq<char>;

/// Calls `String::from_utf8_lossy`. Stated: valid UTF-8 decodes to its
/// characters, and the text is empty exactly when the bytes are (each
/// invalid sequence becomes U+FFFD). What replaces an invalid sequence is
/// left to the name.
#[verifier::external_body]
fn utf8_lossy(b: &[u8]) -> (res: String)
    ensures
        res@ == spec_utf8_lossy(b@),
        valid_utf8(b@) ==> res@ == decode_utf8(b@),
        (res@.len() == 0) == (b@.len() == 0),
{
    String::from_utf8_lossy(b).into_owned()
}

/// What running a command gives: its standard output where it succeeded, or
/// where it failed without writing to standard error; its standard error
/// where it failed and wrote there; the launch error where it did not start.
pub open spec fn command_result(o: CommandOutcome) -> Result<Seq<char>, Seq<char>> {
    match o {
        CommandOutcome::Failed(e) => Err("Failed to execute command: "@ + e@),
        CommandOutcome::Exited { success, stdout, stderr } => {
            if success || spec_utf8_lossy(stderr@).len() == 0 {
                Ok(spec_utf8_lossy(stdout@))
            } else {
                Err(spec_utf8_lossy(stderr@))
            }
        },
    }
}

/// A `Result` of strings seen through the strings' views.
pub open spec fn str_result(r: Result<String, String>) -> Result<Seq<char>, Seq<char>> {
    match r {
        Ok(s) => Ok(s@),
        Err(e) => Err(e@),
    }
}

/// Number of running containers in `cs`.
pub open spec fn count_running(cs: Seq<ContainerInfoView>) -> nat
    decreases cs.len(),
{
    if cs.len() == 0 {
        0
    } else {
        count_running(cs.drop_last()) + if cs.last().is_running {
            1nat
        } else {
            0nat
        }
    }
}

/// Whether image `i` is the image called `name`: by repository, or by
/// `repository:tag`.
pub open spec fn names_image(i: ImageInfoView, name: Seq<char>) -> bool {
    i.repository == name || i.repository + ":"@ + i.tag == name
}

/// Whether the listing `images` holds the image called `name`; a failed
/// listing holds none.
pub open spec fn image_listed(images: Result<Vec<ImageInfo>, String>, name: Seq<char>) -> bool {
    match images {
        Ok(v) => exists|k: int| 0 <= k < v@.len() && #[trigger] names_image(v@[k]@, name),
        Err(_) => false,
    }
}

/// The length of a listing that may have failed; a failed listing counts 0.
pub open spec fn listed_len<T>(r: Result<Vec<T>, String>) -> nat {
    match r {
        Ok(v) => v@.len(),
        Err(_) => 0,
    }
}

/// Appends `s` to `args`.
fn push_arg(args: &mut Vec<String>, s: &str)
    ensures
        views(final(args)@) == views(old(args)@).push(s@),
{
    let ghost before = args@;
    args.push(s.to_string());
    assert(views(args@) =~= views(before).push(s@));
}

/// Appends `flag` and `value` where a value is given.
fn push_flagged(args: &mut Vec<String>, flag: &str, value: Option<&str>)
    ensures
        views(final(args)@) == views(old(args)@) + match value {
            Some(v) => seq![flag@, v@],
            None => seq![],
        },
{
    let ghost before = views(args@);
    if let Some(v) = value {
        push_arg(args, flag);
        push_arg(args, v);
        assert(views(args@) =~= before + seq![flag@, v@]);
    } else {
        assert(views(args@) =~= before + seq![]);
    }
}

/// Appends `-e <var>` for each variable.
fn push_envs(args: &mut Vec<String>, env: &Vec<String>)
    ensures
        views(final(args)@) == views(old(args)@) + env_args(views(env@)),
{
    let ghost before_env = views(args@);
    let n = env.len();
    let mut i: usize = 0;
    assert(views(args@) =~= before_env + env_args(views(env@).take(0)));
    while i < n
        invariant
            n == env@.len(),
            i <= n,
            views(args@) == before_env + env_args(views(env@).take(i as int)),
        decreases n - i,
    {
        push_arg(args, "-e");
        push_arg(args, env[i].as_str());
        proof {
            let e = views(env@);
            assert(e.take(i + 1).drop_last() =~= e.take(i as int));
            assert(e.take(i + 1).last() == env@[i as int]@);
            assert(views(args@) =~= before_env + env_args(e.take(i + 1)));
        }
        i = i + 1;
    }
    assert(views(env@).take(n as int) =~= views(env@));
}

/// A `wslc` command line from its arguments.
fn wslc_command(args: Vec<String>) -> (res: WslcCommand)
    ensures
        res@ == wslc(views(args@)),
{
    WslcCommand { program: "wslc".to_string(), args }
}

/// `a + b` as a new string.
fn join2(a: &str, b: &str) -> (res: String)
    ensures
        res@ == a@ + b@,
{
    a.to_string().concat(b)
}

/// The decimal digits of `n`.
pub open spec fn decimal(n: nat) -> Seq<char>
    decreases n,
{
    if n < 10 {
        seq![digit_char(n)]
    } else {
        decimal(n / 10).push(digit_char(n % 10))
    }
}

pub open spec fn digit_char(d: nat) -> char {
    if d == 0 {
        '0'
    } else if d == 1 {
        '1'
    } else if d == 2 {
        '2'
    } else if d == 3 {
        '3'
    } else if d == 4 {
        '4'
    } else if d == 5 {
        '5'
    } else if d == 6 {
        '6'
    } else if d == 7 {
        '7'
    } else if d == 8 {
        '8'
    } else {
        '9'
    }
}

fn digit_str(d: u32) -> (res: &'static str)
    requires
        d < 10,
    ensures
        res@ == seq![digit_char(d as nat)],
{
    proof {
        reveal_strlit("0");
        reveal_strlit("1");
        reveal_strlit("2");
        reveal_strlit("3");
        reveal_strlit("4");
        reveal_strlit("5");
        reveal_strlit("6");
        reveal_strlit("7");
        reveal_strlit("8");
        reveal_strlit("9");
    }
    if d == 0 {
        "0"
    } else if d == 1 {
        "1"
    } else if d == 2 {
        "2"
    } else if d == 3 {
        "3"
    } else if d == 4 {
        "4"
    } else if d == 5 {
        "5"
    } else if d == 6 {
        "6"
    } else if d == 7 {
        "7"
    } else if d == 8 {
        "8"
    } else {
        "9"
    }
}

/// `n.to_string()` for a `u32`: its decimal digits.
pub fn u32_to_decimal(n: u32) -> (res: String)
    ensures
        res@ == decimal(n as nat),
    decreases n,
{
    if n < 10 {
        digit_str(n).to_string()
    } else {
        let head = u32_to_decimal(n / 10);
        head.concat(digit_str(n % 10))
    }
}

/// A `wslc` client. It holds no state: each operation is a command line to
/// run, and reading what the command printed.
pub struct WslcClient;

impl WslcClient {
    pub fn new() -> (res: Self) {
        WslcClient
    }

    /// Reads how a command run ended: see `command_result`.
    pub fn run_command(outcome: CommandOutcome) -> (res: Result<String, String>)
        ensures
            str_result(res) == command_result(outcome),
    {
        match outcome {
            CommandOutcome::Failed(e) => Err(join2("Failed to execute command: ", e.as_str())),
            CommandOutcome::Exited { success, stdout, stderr } => {
                if success {
                    Ok(utf8_lossy(stdout.as_slice()))
                } else {
                    let err = utf8_lossy(stderr.as_slice());
                    if err.as_str().is_empty() {
                        Ok(utf8_lossy(stdout.as_slice()))
                    } else {
                        Err(err)
                    }
                }
            },
        }
    }

    /// `wslc --version`.
    pub fn get_version_command(&self) -> (res: WslcCommand)
        ensures
            res@ == wslc(seq!["--version"@]),
    {
        let mut args: Vec<String> = Vec::new();
        push_arg(&mut args, "--version");
        wslc_command(args)
    }

    /// The version that `wslc --version` printed, trimmed; a failed run
    /// passes its error on.
    pub fn get_version(&self, output: Result<String, String>) -> (res: Result<String, String>)
        ensures
            str_result(res) == match str_result(output) {
                Ok(s) => Ok(trim(s)),
                Err(e) => Err(e),
            },
    {
        match output {
            Ok(s) => Ok(trim_to_string(s.as_str())),
            Err(e) => Err(e),
        }
    }

    /// `wslc container ps`, with `-a` where `all` is set.
    pub fn list_containers_command(&self, all: bool) -> (res: WslcCommand)
        ensures
            res@ == wslc(
                if all {
                    seq!["container"@, "ps"@, "-a"@]
                } else {
                    seq!["container"@, "ps"@]
                },
            ),
    {
        let mut args: Vec<String> = Vec::new();
        push_arg(&mut args, "container");
        push_arg(&mut args, "ps");
        if all {
            push_arg(&mut args, "-a");
        }
        wslc_command(args)
    }

    /// The containers that a `wslc container ps` run listed; a failed run
    /// passes its error on. The listing must not make line reading slice
    /// out of range or inside a character (`parse_container_table` tells).
    pub fn list_containers(&self, output: Result<String, String>) -> (res: Result<
        Vec<ContainerInfo>,
        String,
    >)
        requires
            output matches Ok(s) ==> container_table(encode_utf8(s@)) is Some,
        ensures
            match (output, res) {
                (Ok(s), Ok(v)) => container_table(encode_utf8(s@)) == Some(views(v@)),
                (Err(e), Err(f)) => e == f,
                _ => false,
            },
    {
        match output {
            Ok(s) => {
                let parsed = parse_container_table(s.as_str());
                match parsed {
                    Some(v) => Ok(v),
                    None => {
                        assert(false);
                        Ok(Vec::new())
                    },
                }
            },
            Err(e) => Err(e),
        }
    }

    /// `wslc image ls`.
    pub fn list_images_command(&self) -> (res: WslcCommand)
        ensures
            res@ == wslc(seq!["image"@, "ls"@]),
    {
        let mut args: Vec<String> = Vec::new();
        push_arg(&mut args, "image");
        push_arg(&mut args, "ls");
        wslc_command(args)
    }

    /// The images that a `wslc image ls` run listed; a failed run passes its
    /// error on.
    pub fn list_images(&self, output: Result<String, String>) -> (res: Result<
        Vec<ImageInfo>,
        String,
    >)
        requires
            output matches Ok(s) ==> image_table(encode_utf8(s@)) is Some,
        ensures
            match (output, res) {
                (Ok(s), Ok(v)) => image_table(encode_utf8(s@)) == Some(views(v@)),
                (Err(e), Err(f)) => e == f,
                _ => false,
            },
    {
        match output {
            Ok(s) => {
                let parsed = parse_image_table(s.as_str());
                match parsed {
                    Some(v) => Ok(v),
                    None => {
                        assert(false);
                        Ok(Vec::new())
                    },
                }
            },
            Err(e) => Err(e),
        }
    }

    /// `wslc volume ls`.
    pub fn list_volumes_command(&self) -> (res: WslcCommand)
        ensures
            res@ == wslc(seq!["volume"@, "ls"@]),
    {
        let mut args: Vec<String> = Vec::new();
        push_arg(&mut args, "volume");
        push_arg(&mut args, "ls");
        wslc_command(args)
    }

    /// The volumes that a `wslc volume ls` run listed; a failed run passes
    /// its error on.
    pub fn list_volumes(&self, output: Result<String, String>) -> (res: Result<
        Vec<VolumeInfo>,
        String,
    >)
        requires
            output matches Ok(s) ==> encode_utf8(s@).len() <= isize::MAX && volume_table(
                encode_utf8(s@),
            ) is Some,
        ensures
            match (output, res) {
                (Ok(s), Ok(v)) => volume_table(encode_utf8(s@)) == Some(views(v@)),
                (Err(e), Err(f)) => e == f,
                _ => false,
            },
    {
        match output {
            Ok(s) => {
                let parsed = parse_volume_table(s.as_str());
                match parsed {
                    Some(v) => Ok(v),
                    None => {
                        assert(false);
                        Ok(Vec::new())
                    },
                }
            },
            Err(e) => Err(e),
        }
    }

    /// `wslc network ls`.
    pub fn list_networks_command(&self) -> (res: WslcCommand)
        ensures
            res@ == wslc(seq!["network"@, "ls"@]),
    {
        let mut args: Vec<String> = Vec::new();
        push_arg(&mut args, "network");
        push_arg(&mut args, "ls");
        wslc_command(args)
    }

    /// The networks that a `wslc network ls` run listed; a failed run passes
    /// its error on.
    pub fn list_networks(&self, output: Result<String, String>) -> (res: Result<
        Vec<NetworkInfo>,
        String,
    >)
        requires
            output matches Ok(s) ==> encode_utf8(s@).len() <= isize::MAX && network_table(
                encode_utf8(s@),
            ) is Some,
        ensures
            match (output, res) {
                (Ok(s), Ok(v)) => network_table(encode_utf8(s@)) == Some(views(v@)),
                (Err(e), Err(f)) => e == f,
                _ => false,
            },
    {
        match output {
            Ok(s) => {
                let parsed = parse_network_table(s.as_str());
                match parsed {
                    Some(v) => Ok(v),
                    None => {
                        assert(false);
                        Ok(Vec::new())
                    },
                }
            },
            Err(e) => Err(e),
        }
    }

    /// `wslc inspect <name>`.
    pub fn inspect_container_command(&self, name: &str) -> (res: WslcCommand)
        ensures
            res@ == wslc(seq!["inspect"@, name@]),
    {
        let mut args: Vec<String> = Vec::new();
        push_arg(&mut args, "inspect");
        push_arg(&mut args, name);
        wslc_command(args)
    }

    /// The detail of container `name` that a `wslc inspect` run printed; a
    /// failed run passes its error on, and output that is not JSON gives
    /// "Failed to parse container inspect output".
    pub fn inspect_container(&self, name: &str, output: Result<String, String>) -> (res: Result<
        ContainerDetail,
        String,
    >)
        ensures
            match (output, res) {
                (Ok(s), Ok(d)) => spec_parse_json(s@) matches Some(doc) && d@ == detail_of(
                    name@,
                    doc,
                ),
                (Ok(s), Err(e)) => spec_parse_json(s@) is None && e@
                    == "Failed to parse container inspect output"@,
                (Err(e), Err(f)) => e == f,
                _ => false,
            },
    {
        match output {
            Ok(s) => match parse_json(s.as_str()) {
                Some(doc) => Ok(container_detail(name, &doc)),
                None => Err("Failed to parse container inspect output".to_string()),
            },
            Err(e) => Err(e),
        }
    }

    /// `wslc run`: `-d` where detached (else `--rm`), then `--name`, `-p`,
    /// `-v` where given, `-e` before each variable, the image, and
    /// `bash -c <command>` where a command is given.
    pub fn run_container(
        &self,
        image: &str,
        name: Option<&str>,
        ports: Option<&str>,
        volumes: Option<&str>,
        envs: Option<Vec<String>>,
        detached: bool,
        command: Option<&str>,
    ) -> (res: WslcCommand)
        ensures
            res@ == wslc(
                run_args(
                    image@,
                    opt_str(name),
                    opt_str(ports),
                    opt_str(volumes),
                    match envs {
                        Some(v) => Some(views(v@)),
                        None => None,
                    },
                    detached,
                    opt_str(command),
                ),
            ),
    {
        let mut args: Vec<String> = Vec::new();
        push_arg(&mut args, "run");
        if detached {
            push_arg(&mut args, "-d");
        } else {
            push_arg(&mut args, "--rm");
        }
        let ghost a0 = views(args@);
        assert(a0 =~= seq!["run"@, if detached {
            "-d"@
        } else {
            "--rm"@
        }]);
        push_flagged(&mut args, "--name", name);
        let ghost a1 = views(args@);
        push_flagged(&mut args, "-p", ports);
        let ghost a2 = views(args@);
        push_flagged(&mut args, "-v", volumes);
        let ghost a3 = views(args@);
        let ghost e = match &envs {
            Some(v) => env_args(views(v@)),
            None => seq![],
        };
        if let Some(env) = &envs {
            push_envs(&mut args, env);
        } else {
            assert(views(args@) =~= a3 + e);
        }
        let ghost a4 = views(args@);
        push_arg(&mut args, image);
        let ghost a5 = views(args@);
        assert(a5 =~= a4 + seq![image@]);
        assert(a4 == a3 + e);
        if let Some(c) = command {
            push_arg(&mut args, "bash");
            push_arg(&mut args, "-c");
            push_arg(&mut args, c);
        }
        proof {
            let c = match opt_str(command) {
                Some(c) => seq!["bash"@, "-c"@, c],
                None => seq![],
            };
            assert(views(args@) =~= a5 + c);
            assert(views(args@) == run_args(
                image@,
                opt_str(name),
                opt_str(ports),
                opt_str(volumes),
                match envs {
                    Some(v) => Some(views(v@)),
                    None => None,
                },
                detached,
                opt_str(command),
            ));
        }
        wslc_command(args)
    }

    /// `wslc container stop <name>`.
    pub fn stop_container(&self, name: &str) -> (res: WslcCommand)
        ensures
            res@ == wslc(seq!["container"@, "stop"@, name@]),
    {
        let mut args: Vec<String> = Vec::new();
        push_arg(&mut args, "container");
        push_arg(&mut args, "stop");
        push_arg(&mut args, name);
        wslc_command(args)
    }

    /// `wslc container start <name>`.
    pub fn start_container(&self, name: &str) -> (res: WslcCommand)
        ensures
            res@ == wslc(seq!["container"@, "start"@, name@]),
    {
        let mut args: Vec<String> = Vec::new();
        push_arg(&mut args, "container");
        push_arg(&mut args, "start");
        push_arg(&mut args, name);
        wslc_command(args)
    }

    /// `wslc container rm [-f] <name>`.
    pub fn remove_container(&self, name: &str, force: bool) -> (res: WslcCommand)
        ensures
            res@ == wslc(
                if force {
                    seq!["container"@, "rm"@, "-f"@, name@]
                } else {
                    seq!["container"@, "rm"@, name@]
                },
            ),
    {
        let mut args: Vec<String> = Vec::new();
        push_arg(&mut args, "container");
        push_arg(&mut args, "rm");
        if force {
            push_arg(&mut args, "-f");
        }
        push_arg(&mut args, name);
        wslc_command(args)
    }

    /// Restarting runs `stop_container`, pauses, then runs the command this
    /// returns: `start_container`, where the stop succeeded; where it
    /// failed, its error ends the restart.
    pub fn restart_container(&self, name: &str, stopped: Result<String, String>) -> (res: Result<
        WslcCommand,
        String,
    >)
        ensures
            match (stopped, res) {
                (Ok(_), Ok(c)) => c@ == wslc(seq!["container"@, "start"@, name@]),
                (Err(e), Err(f)) => e == f,
                _ => false,
            },
    {
        match stopped {
            Ok(_) => Ok(self.start_container(name)),
            Err(e) => Err(e),
        }
    }

    /// `wslc container logs [--tail <lines>] [-f] <name>`.
    pub fn get_logs(&self, name: &str, lines: Option<u32>, follow: bool) -> (res: WslcCommand)
        ensures
            res@ == wslc(
                seq!["container"@, "logs"@] + match lines {
                    Some(n) => seq!["--tail"@, decimal(n as nat)],
                    None => seq![],
                } + if follow {
                    seq!["-f"@]
                } else {
                    seq![]
                } + seq![name@],
            ),
    {
        let mut args: Vec<String> = Vec::new();
        push_arg(&mut args, "container");
        push_arg(&mut args, "logs");
        let ghost a0 = views(args@);
        if let Some(n) = lines {
            push_arg(&mut args, "--tail");
            let digits = u32_to_decimal(n);
            push_arg(&mut args, digits.as_str());
        }
        let ghost a1 = views(args@);
        if follow {
            push_arg(&mut args, "-f");
        }
        let ghost a2 = views(args@);
        push_arg(&mut args, name);
        proof {
            let l = match lines {
                Some(n) => seq!["--tail"@, decimal(n as nat)],
                None => seq![],
            };
            let f = if follow {
                seq!["-f"@]
            } else {
                seq![]
            };
            assert(a1 =~= a0 + l);
            assert(a2 =~= a0 + l + f);
            assert(views(args@) =~= a0 + l + f + seq![name@]);
        }
        wslc_command(args)
    }

    /// `wslc exec <name> bash -c <command>`.
    pub fn exec_command(&self, name: &str, command: &str) -> (res: WslcCommand)
        ensures
            res@ == wslc(seq!["exec"@, name@, "bash"@, "-c"@, command@]),
    {
        let mut args: Vec<String> = Vec::new();
        push_arg(&mut args, "exec");
        push_arg(&mut args, name);
        push_arg(&mut args, "bash");
        push_arg(&mut args, "-c");
        push_arg(&mut args, command);
        wslc_command(args)
    }

    /// `wslc pull <image>`.
    pub fn pull_image(&self, image: &str) -> (res: WslcCommand)
        ensures
            res@ == wslc(seq!["pull"@, image@]),
    {
        let mut args: Vec<String> = Vec::new();
        push_arg(&mut args, "pull");
        push_arg(&mut args, image);
        wslc_command(args)
    }

    /// `wslc rmi [-f] <image>`.
    pub fn remove_image(&self, image: &str, force: bool) -> (res: WslcCommand)
        ensures
            res@ == wslc(
                if force {
                    seq!["rmi"@, "-f"@, image@]
                } else {
                    seq!["rmi"@, image@]
                },
            ),
    {
        let mut args: Vec<String> = Vec::new();
        push_arg(&mut args, "rmi");
        if force {
            push_arg(&mut args, "-f");
        }
        push_arg(&mut args, image);
        wslc_command(args)
    }

    /// `wslc stats <name> --no-stream`.
    pub fn get_container_stats(&self, name: &str) -> (res: WslcCommand)
        ensures
            res@ == wslc(seq!["stats"@, name@, "--no-stream"@]),
    {
        let mut args: Vec<String> = Vec::new();
        push_arg(&mut args, "stats");
        push_arg(&mut args, name);
        push_arg(&mut args, "--no-stream");
        wslc_command(args)
    }

    /// `wslc exec <name> ps aux`.
    pub fn get_container_top(&self, name: &str) -> (res: WslcCommand)
        ensures
            res@ == wslc(seq!["exec"@, name@, "ps"@, "aux"@]),
    {
        let mut args: Vec<String> = Vec::new();
        push_arg(&mut args, "exec");
        push_arg(&mut args, name);
        push_arg(&mut args, "ps");
        push_arg(&mut args, "aux");
        wslc_command(args)
    }

    /// `wslc export <name> -o <output>`.
    pub fn export_container(&self, name: &str, output: &str) -> (res: WslcCommand)
        ensures
            res@ == wslc(seq!["export"@, name@, "-o"@, output@]),
    {
        let mut args: Vec<String> = Vec::new();
        push_arg(&mut args, "export");
        push_arg(&mut args, name);
        push_arg(&mut args, "-o");
        push_arg(&mut args, output);
        wslc_command(args)
    }

    /// `wslc import <name> <file> [-c <cmd>]`.
    pub fn import_image(&self, name: &str, file: &str, cmd: Option<&str>) -> (res: WslcCommand)
        ensures
            res@ == wslc(
                match cmd {
                    Some(c) => seq!["import"@, name@, file@, "-c"@, c@],
                    None => seq!["import"@, name@, file@],
                },
            ),
    {
        let mut args: Vec<String> = Vec::new();
        push_arg(&mut args, "import");
        push_arg(&mut args, name);
        push_arg(&mut args, file);
        if let Some(c) = cmd {
            push_arg(&mut args, "-c");
            push_arg(&mut args, c);
        }
        wslc_command(args)
    }

    /// `wslc commit <name> <image>`.
    pub fn commit_container(&self, name: &str, image: &str) -> (res: WslcCommand)
        ensures
            res@ == wslc(seq!["commit"@, name@, image@]),
    {
        let mut args: Vec<String> = Vec::new();
        push_arg(&mut args, "commit");
        push_arg(&mut args, name);
        push_arg(&mut args, image);
        wslc_command(args)
    }

    /// `wslc cp <name>:<src> <dest>`.
    pub fn copy_from_container(&self, name: &str, src: &str, dest: &str) -> (res: WslcCommand)
        ensures
            res@ == wslc(seq!["cp"@, name@ + ":"@ + src@, dest@]),
    {
        let mut args: Vec<String> = Vec::new();
        push_arg(&mut args, "cp");
        let from = join2(join2(name, ":").as_str(), src);
        push_arg(&mut args, from.as_str());
        push_arg(&mut args, dest);
        wslc_command(args)
    }

    /// `wslc cp <src> <name>:<dest>`.
    pub fn copy_to_container(&self, name: &str, src: &str, dest: &str) -> (res: WslcCommand)
        ensures
            res@ == wslc(seq!["cp"@, src@, name@ + ":"@ + dest@]),
    {
        let mut args: Vec<String> = Vec::new();
        push_arg(&mut args, "cp");
        push_arg(&mut args, src);
        let to = join2(join2(name, ":").as_str(), dest);
        push_arg(&mut args, to.as_str());
        wslc_command(args)
    }

    /// `wslc container rename <old_name> <new_name>`.
    pub fn rename_container(&self, old_name: &str, new_name: &str) -> (res: WslcCommand)
        ensures
            res@ == wslc(seq!["container"@, "rename"@, old_name@, new_name@]),
    {
        let mut args: Vec<String> = Vec::new();
        push_arg(&mut args, "container");
        push_arg(&mut args, "rename");
        push_arg(&mut args, old_name);
        push_arg(&mut args, new_name);
        wslc_command(args)
    }

    /// Whether inspecting a container succeeded.
    pub fn container_exists(&self, inspected: &Result<ContainerDetail, String>) -> (res: bool)
        ensures
            res == inspected is Ok,
    {
        inspected.is_ok()
    }

    /// Whether a listing holds the image called `name` (by repository or by
    /// `repository:tag`); a failed listing holds none.
    pub fn image_exists(&self, images: &Result<Vec<ImageInfo>, String>, name: &str) -> (res: bool)
        ensures
            res == image_listed(*images, name@),
    {
        match images {
            Ok(v) => {
                let target = name.to_string();
                let n = v.len();
                let mut k: usize = 0;
                while k < n
                    invariant
                        n == v@.len(),
                        k <= n,
                        target@ == name@,
                        image_listed(*images, name@) == exists|j: int|
                            0 <= j < v@.len() && #[trigger] names_image(v@[j]@, name@),
                        forall|j: int| 0 <= j < k ==> !#[trigger] names_image(v@[j]@, name@),
                    decreases n - k,
                {
                    let full = join2(join2(v[k].repository.as_str(), ":").as_str(), v[k].tag.as_str());
                    if v[k].repository == target || full == target {
                        assert(0 <= k < v@.len() && names_image(v@[k as int]@, name@));
                        assert(image_listed(*images, name@));
                        return true;
                    }
                    k = k + 1;
                }
                false
            },
            Err(_) => false,
        }
    }

    /// `wslc volume create <name>`.
    pub fn create_volume(&self, name: &str) -> (res: WslcCommand)
        ensures
            res@ == wslc(seq!["volume"@, "create"@, name@]),
    {
        let mut args: Vec<String> = Vec::new();
        push_arg(&mut args, "volume");
        push_arg(&mut args, "create");
        push_arg(&mut args, name);
        wslc_command(args)
    }

    /// `wslc volume rm <name>`.
    pub fn remove_volume(&self, name: &str) -> (res: WslcCommand)
        ensures
            res@ == wslc(seq!["volume"@, "rm"@, name@]),
    {
        let mut args: Vec<String> = Vec::new();
        push_arg(&mut args, "volume");
        push_arg(&mut args, "rm");
        push_arg(&mut args, name);
        wslc_command(args)
    }

    /// `wslc network create [--driver <driver>] <name>`.
    pub fn create_network(&self, name: &str, driver: Option<&str>) -> (res: WslcCommand)
        ensures
            res@ == wslc(
                match driver {
                    Some(d) => seq!["network"@, "create"@, "--driver"@, d@, name@],
                    None => seq!["network"@, "create"@, name@],
                },
            ),
    {
        let mut args: Vec<String> = Vec::new();
        push_arg(&mut args, "network");
        push_arg(&mut args, "create");
        if let Some(d) = driver {
            push_arg(&mut args, "--driver");
            push_arg(&mut args, d);
        }
        push_arg(&mut args, name);
        wslc_command(args)
    }

    /// `wslc network rm <name>`.
    pub fn remove_network(&self, name: &str) -> (res: WslcCommand)
        ensures
            res@ == wslc(seq!["network"@, "rm"@, name@]),
    {
        let mut args: Vec<String> = Vec::new();
        push_arg(&mut args, "network");
        push_arg(&mut args, "rm");
        push_arg(&mut args, name);
        wslc_command(args)
    }

    /// The system summary from the version and the four listings; a failed
    /// part counts as empty (the version as ""). It always succeeds.
    pub fn get_system_info(
        &self,
        version: Result<String, String>,
        containers: Result<Vec<ContainerInfo>, String>,
        images: Result<Vec<ImageInfo>, String>,
        volumes: Result<Vec<VolumeInfo>, String>,
        networks: Result<Vec<NetworkInfo>, String>,
    ) -> (res: Result<SystemInfo, String>)
        ensures
            res matches Ok(info) && info.wslc_version@ == match version {
                Ok(v) => v@,
                Err(_) => Seq::<char>::empty(),
            } && info.container_count == listed_len(containers) && info.image_count == listed_len(
                images,
            ) && info.volume_count == listed_len(volumes) && info.network_count == listed_len(
                networks,
            ) && info.running_containers == match containers {
                Ok(v) => count_running(views(v@)),
                Err(_) => 0,
            },
    {
        let wslc_version = match version {
            Ok(v) => v,
            Err(_) => String::new(),
        };
        let cs = match containers {
            Ok(v) => v,
            Err(_) => Vec::new(),
        };
        let image_count = match images {
            Ok(v) => v.len(),
            Err(_) => 0,
        };
        let volume_count = match volumes {
            Ok(v) => v.len(),
            Err(_) => 0,
        };
        let network_count = match networks {
            Ok(v) => v.len(),
            Err(_) => 0,
        };
        let n = cs.len();
        let mut running: usize = 0;
        let mut k: usize = 0;
        while k < n
            invariant
                n == cs@.len(),
                k <= n,
                running == count_running(views(cs@).take(k as int)),
                running <= k,
            decreases n - k,
        {
            assert(views(cs@).take(k + 1).drop_last() =~= views(cs@).take(k as int));
            if cs[k].is_running {
                running = running + 1;
            }
            k = k + 1;
        }
        assert(views(cs@).take(n as int) =~= views(cs@));
        Ok(
            SystemInfo {
                wslc_version,
                container_count: n,
                image_count,
                running_containers: running,
                volume_count,
                network_count,
            },
        )
    }
}

/// A possibly absent string seen through its view.
pub open spec fn opt_str(o: Option<&str>) -> Option<Seq<char>> {
    match o {
        Some(s) => Some(s@),
        None => None,
    }
}

/// `-e <var>` for each variable, in order.
pub open spec fn env_args(envs: Seq<Seq<char>>) -> Seq<Seq<char>>
    decreases envs.len(),
{
    if envs.len() == 0 {
        seq![]
    } else {
        env_args(envs.drop_last()) + seq!["-e"@, envs.last()]
    }
}

/// The arguments of `wslc run` for the given options.
pub open spec fn run_args(
    image: Seq<char>,
    name: Option<Seq<char>>,
    ports: Option<Seq<char>>,
    volumes: Option<Seq<char>>,
    envs: Option<Seq<Seq<char>>>,
    detached: bool,
    command: Option<Seq<char>>,
) -> Seq<Seq<char>> {
    seq!["run"@, if detached {
        "-d"@
    } else {
        "--rm"@
    }] + match name {
        Some(n) => seq!["--name"@, n],
        None => seq![],
    } + match ports {
        Some(p) => seq!["-p"@, p],
        None => seq![],
    } + match volumes {
        Some(v) => seq!["-v"@, v],
        None => seq![],
    } + match envs {
        Some(e) => env_args(e),
        None => seq![],
    } + seq![image] + match command {
        Some(c) => seq!["bash"@, "-c"@, c],
        None => seq![],
    }
}

} // verus!
