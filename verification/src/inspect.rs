//! Reading the JSON that `wslc inspect` prints into a `ContainerDetail`.
use crate::json::{
    JsonValue, get, get_in, is_true, json_get, json_str, json_str_or, json_true, opt_json, str_of,
    str_or,
};
use crate::model::{
    ContainerDetail, ContainerDetailView, MountInfo, MountInfoView, PortMapping, PortMappingView,
    views,
};
use vstd::prelude::*;

verus! {

/// The first element where `v` is a non-empty array, and `v` otherwise:
/// `wslc inspect` prints an array with one document per container.
pub open spec fn first_or_self(v: JsonValue) -> JsonValue {
    match v {
        JsonValue::Array(a) => if a@.len() > 0 {
            a@[0]
        } else {
            v
        },
        _ => v,
    }
}

/// The offset of the first `/` in `s` at or after `i`, or `s.len()`.
pub open spec fn first_slash_from(s: Seq<char>, i: int) -> int
    decreases s.len() - i,
{
    if i >= s.len() {
        s.len() as int
    } else if s[i] == '/' {
        i
    } else {
        first_slash_from(s, i + 1)
    }
}

/// The start of the part of `s[..j]` after its last `/` (0 where none).
pub open spec fn last_piece_start(s: Seq<char>, j: int) -> int
    decreases j,
{
    if j <= 0 {
        0
    } else if s[j - 1] == '/' {
        j
    } else {
        last_piece_start(s, j - 1)
    }
}

/// `s.split('/').next()`: the part of `s` before its first `/`.
pub open spec fn before_first_slash(s: Seq<char>) -> Seq<char> {
    s.subrange(0, first_slash_from(s, 0))
}

/// `s.split('/').last()`: the part of `s` after its last `/`.
pub open spec fn after_last_slash(s: Seq<char>) -> Seq<char> {
    s.subrange(last_piece_start(s, s.len() as int), s.len() as int)
}

/// The number of `/` that lead `s` from offset `i` on.
pub open spec fn slashes_from(s: Seq<char>, i: int) -> int
    decreases s.len() - i,
{
    if 0 <= i < s.len() && s[i] == '/' {
        slashes_from(s, i + 1)
    } else {
        i
    }
}

/// `s.trim_start_matches('/')`.
pub open spec fn strip_slashes(s: Seq<char>) -> Seq<char> {
    s.subrange(slashes_from(s, 0), s.len() as int)
}

/// The string elements of `items`, in order (`filter_map(as_str)`).
pub open spec fn json_strings(items: Seq<JsonValue>) -> Seq<Seq<char>>
    decreases items.len(),
{
    if items.len() == 0 {
        seq![]
    } else {
        match items.last() {
            JsonValue::Str(s) => json_strings(items.drop_last()).push(s@),
            _ => json_strings(items.drop_last()),
        }
    }
}

/// The strings of an array, or none where `v` is not an array.
pub open spec fn string_list(v: JsonValue) -> Seq<Seq<char>> {
    match v {
        JsonValue::Array(a) => json_strings(a@),
        _ => seq![],
    }
}

/// The port published by one binding of the container port named `key`.
pub open spec fn binding_port(key: Seq<char>, b: JsonValue) -> PortMappingView {
    PortMappingView {
        host_port: json_str_or(json_get(b, "HostPort"@), "-"@),
        container_port: before_first_slash(key),
        protocol: after_last_slash(key),
    }
}

/// The ports of the bindings `v` of the container port named `key`.
pub open spec fn binding_ports(key: Seq<char>, v: JsonValue) -> Seq<PortMappingView> {
    match v {
        JsonValue::Array(a) => Seq::new(a@.len(), |i: int| binding_port(key, a@[i])),
        _ => seq![],
    }
}

/// The ports of all members of a `Ports` object, member by member.
pub open spec fn member_ports(es: Seq<(String, JsonValue)>) -> Seq<PortMappingView>
    decreases es.len(),
{
    if es.len() == 0 {
        seq![]
    } else {
        member_ports(es.drop_last()) + binding_ports(es.last().0@, es.last().1)
    }
}

/// The `Ports` object of the document, at its top or under `NetworkSettings`.
pub open spec fn port_members(json: JsonValue) -> Option<Seq<(String, JsonValue)>> {
    match json_get(json, "Ports"@) {
        JsonValue::Object(es) => Some(es@),
        _ => match json_get(json_get(json, "NetworkSettings"@), "Ports"@) {
            JsonValue::Object(es) => Some(es@),
            _ => None,
        },
    }
}

pub open spec fn mount_view(m: JsonValue) -> MountInfoView {
    MountInfoView {
        source: json_str_or(json_get(m, "Source"@), "-"@),
        destination: json_str_or(json_get(m, "Destination"@), "-"@),
        mode: json_str_or(json_get(m, "Mode"@), "-"@),
    }
}

/// The mounts of a `Mounts` array, or none.
pub open spec fn mount_list(v: JsonValue) -> Seq<MountInfoView> {
    match v {
        JsonValue::Array(a) => Seq::new(a@.len(), |i: int| mount_view(a@[i])),
        _ => seq![],
    }
}

/// The detail of container `name` that the inspect document `doc` describes.
pub open spec fn detail_of(name: Seq<char>, doc: JsonValue) -> ContainerDetailView {
    let json = first_or_self(doc);
    let state = json_get(json, "State"@);
    let config = json_get(json, "Config"@);
    ContainerDetailView {
        id: json_str_or(json_get(json, "Id"@), "-"@),
        name: strip_slashes(json_str_or(json_get(json, "Name"@), name)),
        image: match json_str(json_get(json, "Image"@)) {
            Some(s) => s,
            None => json_str_or(json_get(config, "Image"@), "-"@),
        },
        status: if json_true(json_get(state, "Running"@)) {
            "running"@
        } else {
            json_str_or(json_get(state, "Status"@), "unknown"@)
        },
        created: json_str_or(json_get(json, "Created"@), "-"@),
        started: json_str_or(json_get(state, "StartedAt"@), "-"@),
        ports: match port_members(json) {
            Some(es) => member_ports(es),
            None => seq![],
        },
        env: string_list(json_get(config, "Env"@)),
        mounts: mount_list(json_get(json, "Mounts"@)),
        cmd: string_list(json_get(config, "Cmd"@)),
    }
}

/// `s.split('/').next()`.
fn before_first_slash_str(s: &str) -> (res: String)
    ensures
        res@ == before_first_slash(s@),
{
    let n = s.unicode_len();
    let mut i: usize = 0;
    while i < n && s.get_char(i) != '/'
        invariant
            n == s@.len(),
            i <= n,
            first_slash_from(s@, 0) == first_slash_from(s@, i as int),
        decreases n - i,
    {
        i = i + 1;
    }
    s.substring_char(0, i).to_string()
}

/// `s.split('/').last()`.
fn after_last_slash_str(s: &str) -> (res: String)
    ensures
        res@ == after_last_slash(s@),
{
    let n = s.unicode_len();
    let mut j: usize = n;
    while j > 0 && s.get_char(j - 1) != '/'
        invariant
            n == s@.len(),
            j <= n,
            last_piece_start(s@, n as int) == last_piece_start(s@, j as int),
        decreases j,
    {
        j = j - 1;
    }
    s.substring_char(j, n).to_string()
}

/// `s.trim_start_matches('/')`.
pub fn strip_slashes_str(s: &str) -> (res: String)
    ensures
        res@ == strip_slashes(s@),
{
    let n = s.unicode_len();
    let mut i: usize = 0;
    while i < n && s.get_char(i) == '/'
        invariant
            n == s@.len(),
            i <= n,
            slashes_from(s@, 0) == slashes_from(s@, i as int),
        decreases n - i,
    {
        i = i + 1;
    }
    s.substring_char(i, n).to_string()
}

/// The string elements of the array `v`, or none where it is not an array.
fn strings_in(v: Option<&JsonValue>) -> (res: Vec<String>)
    ensures
        views(res@) == string_list(opt_json(v)),
{
    let mut out: Vec<String> = Vec::new();
    match v {
        Some(JsonValue::Array(a)) => {
            let n = a.len();
            let mut i: usize = 0;
            while i < n
                invariant
                    n == a@.len(),
                    i <= n,
                    views(out@) == json_strings(a@.take(i as int)),
                decreases n - i,
            {
                assert(a@.take(i + 1).drop_last() =~= a@.take(i as int));
                let ghost before = out@;
                match &a[i] {
                    JsonValue::Str(s) => {
                        out.push(s.clone());
                        assert(views(out@) =~= views(before).push(s@));
                    },
                    _ => {},
                }
                i = i + 1;
            }
            assert(a@.take(n as int) =~= a@);
            out
        },
        _ => {
            assert(views(out@) =~= seq![]);
            out
        },
    }
}

/// The ports of the members of a `Ports` object.
fn ports_in(es: &Vec<(String, JsonValue)>) -> (res: Vec<PortMapping>)
    ensures
        views(res@) == member_ports(es@),
{
    let mut out: Vec<PortMapping> = Vec::new();
    let n = es.len();
    let mut i: usize = 0;
    assert(views(out@) =~= seq![]);
    while i < n
        invariant
            n == es@.len(),
            i <= n,
            views(out@) == member_ports(es@.take(i as int)),
        decreases n - i,
    {
        let key = &es[i].0;
        let container_port = before_first_slash_str(key.as_str());
        let protocol = after_last_slash_str(key.as_str());
        let ghost start = views(out@);
        assert(es@.take(i + 1).drop_last() =~= es@.take(i as int));
        assert(es@.take(i + 1).last() == es@[i as int]);
        match &es[i].1 {
            JsonValue::Array(bs) => {
                let m = bs.len();
                let mut j: usize = 0;
                while j < m
                    invariant
                        m == bs@.len(),
                        j <= m,
                        views(out@) == start + binding_ports(key@, es@[i as int].1).take(j as int),
                        es@[i as int].1 == JsonValue::Array(*bs),
                        container_port@ == before_first_slash(key@),
                        protocol@ == after_last_slash(key@),
                    decreases m - j,
                {
                    let host_port = str_or(get(&bs[j], "HostPort"), "-");
                    let p = PortMapping {
                        host_port,
                        container_port: container_port.clone(),
                        protocol: protocol.clone(),
                    };
                    let ghost before = out@;
                    out.push(p);
                    assert(views(out@) =~= views(before).push(p@));
                    assert(p@ == binding_port(key@, bs@[j as int]));
                    assert(binding_ports(key@, es@[i as int].1).take(j + 1) =~= binding_ports(
                        key@,
                        es@[i as int].1,
                    ).take(j as int).push(p@));
                    j = j + 1;
                }
                assert(binding_ports(key@, es@[i as int].1).take(m as int) =~= binding_ports(
                    key@,
                    es@[i as int].1,
                ));
            },
            _ => {
                assert(binding_ports(key@, es@[i as int].1) =~= seq![]);
                assert(views(out@) =~= start + binding_ports(key@, es@[i as int].1));
            },
        }
        i = i + 1;
    }
    assert(es@.take(n as int) =~= es@);
    out
}

/// The mounts of the `Mounts` array `v`, or none.
fn mounts_in(v: Option<&JsonValue>) -> (res: Vec<MountInfo>)
    ensures
        views(res@) == mount_list(opt_json(v)),
{
    let mut out: Vec<MountInfo> = Vec::new();
    match v {
        Some(JsonValue::Array(a)) => {
            let n = a.len();
            let mut i: usize = 0;
            while i < n
                invariant
                    n == a@.len(),
                    i <= n,
                    views(out@) =~= mount_list(opt_json(v)).take(i as int),
                    opt_json(v) == JsonValue::Array(*a),
                decreases n - i,
            {
                let m = MountInfo {
                    source: str_or(get(&a[i], "Source"), "-"),
                    destination: str_or(get(&a[i], "Destination"), "-"),
                    mode: str_or(get(&a[i], "Mode"), "-"),
                };
                let ghost before = out@;
                out.push(m);
                assert(views(out@) =~= views(before).push(m@));
                assert(mount_list(opt_json(v)).take(i + 1) =~= mount_list(opt_json(v)).take(
                    i as int,
                ).push(m@));
                i = i + 1;
            }
            assert(mount_list(opt_json(v)).take(n as int) =~= mount_list(opt_json(v)));
            out
        },
        _ => {
            assert(views(out@) =~= seq![]);
            out
        },
    }
}

/// The detail of container `name` that the parsed inspect document `doc`
/// describes; missing text fields read as `-` (the status as `unknown`),
/// missing lists as empty.
pub fn container_detail(name: &str, doc: &JsonValue) -> (res: ContainerDetail)
    ensures
        res@ == detail_of(name@, *doc),
{
    let json: &JsonValue = match doc {
        JsonValue::Array(a) => if a.len() > 0 {
            &a[0]
        } else {
            doc
        },
        _ => doc,
    };
    assert(*json == first_or_self(*doc));
    let raw_name = str_or(get(json, "Name"), name);
    let name_val = strip_slashes_str(raw_name.as_str());
    let id = str_or(get(json, "Id"), "-");
    let config = get(json, "Config");
    let image = match str_of(get(json, "Image")) {
        Some(s) => s,
        None => str_or(get_in(config, "Image"), "-"),
    };
    let state = get(json, "State");
    let status = if is_true(get_in(state, "Running")) {
        "running".to_string()
    } else {
        str_or(get_in(state, "Status"), "unknown")
    };
    let created = str_or(get(json, "Created"), "-");
    let started = str_or(get_in(state, "StartedAt"), "-");
    let cmd = strings_in(get_in(config, "Cmd"));
    let env = strings_in(get_in(config, "Env"));
    let ports = match get(json, "Ports") {
        Some(JsonValue::Object(es)) => ports_in(es),
        _ => match get_in(get(json, "NetworkSettings"), "Ports") {
            Some(JsonValue::Object(es)) => ports_in(es),
            _ => {
                let v: Vec<PortMapping> = Vec::new();
                assert(views(v@) =~= seq![]);
                v
            },
        },
    };
    let mounts = mounts_in(get(json, "Mounts"));
    ContainerDetail {
        id,
        name: name_val,
        image,
        status,
        created,
        started,
        ports,
        env,
        mounts,
        cmd,
    }
}

} // verus!
