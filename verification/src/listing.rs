//! Reading the container, image, volume and network listings that `wslc`
//! prints as column-aligned tables.
use crate::model::{
    ContainerInfo, ContainerInfoView, ImageInfo, ImageInfoView, NetworkInfo, NetworkInfoView,
    VolumeInfo, VolumeInfoView, views,
};
use crate::table::{
    Row, blank_line, collect_rows, cut, cut_cell, find, cut_or, cut_or_cell, cut_to, cut_to_cell, find_in,
    find_or, lemma_collect_fault, lemma_collect_step, lemma_line_boundaries, line_bytes,
    line_spans, line_starts_with, line_trimmed, lines_of, read_table, body_rows, row_view,
    starts_with_bytes, tail_or, tail_or_cell,
};
use crate::text::{spec_to_lowercase, status_is_running, status_running, to_lowercase};
use vstd::prelude::*;
use vstd::string::StringSliceAdditionalSpecFns;
use vstd::utf8::*;

verus! {

broadcast use vstd::utf8::group_utf8_lib;

/// The records of a listing, seen through their views; `None` stays `None`.
pub open spec fn opt_views<T: View>(v: Option<Vec<T>>) -> Option<Seq<T::V>> {
    match v {
        Some(v) => Some(views(v@)),
        None => None,
    }
}

// ---------------------------------------------------------------------------
// Containers

/// Where the container listing's columns start.
pub struct ContainerColumns {
    pub id: int,
    pub names: int,
    pub image: int,
    pub created: int,
    pub status: int,
    pub ports: int,
}

/// The column starts named in the header `h`, with fixed fallbacks.
pub open spec fn container_columns(h: Seq<u8>) -> ContainerColumns {
    ContainerColumns {
        id: find_or(h, "CONTAINER ID".spec_bytes(), 0),
        names: find_or(h, "NAMES".spec_bytes(), 12),
        image: find_or(h, "IMAGE".spec_bytes(), 24),
        created: find_or(h, "CREATED".spec_bytes(), 45),
        status: find_or(h, "STATUS".spec_bytes(), 60),
        ports: find_or(h, "PORTS".spec_bytes(), 78),
    }
}

/// Reading one body line `r` of the container listing.
pub open spec fn container_row(r: Seq<u8>, c: ContainerColumns) -> Row<ContainerInfoView> {
    if blank_line(r) || starts_with_bytes(r, "CONTAINER".spec_bytes()) || r.len() < c.names {
        Row::Skip
    } else {
        match (
            cut(r, c.id, c.names),
            cut_to(r, c.names, c.image),
            cut_to(r, c.image, c.created),
            cut_or(r, c.created, c.status, "-"@),
            cut_to(r, c.status, c.ports),
            tail_or(r, c.ports, "-"@),
        ) {
            (Some(id), Some(name), Some(image), Some(created), Some(status), Some(ports)) => {
                Row::Take(
                    ContainerInfoView {
                        id,
                        name,
                        image,
                        created,
                        status,
                        ports,
                        is_running: status_running(status, spec_to_lowercase(status)),
                    },
                )
            },
            _ => Row::Fault,
        }
    }
}

/// The containers of the listing `t` (the bytes of `wslc container ps`);
/// `None` where reading a line would slice out of range or inside a character.
pub open spec fn container_table(t: Seq<u8>) -> Option<Seq<ContainerInfoView>> {
    read_table(t, |r: Seq<u8>| container_row(r, container_columns(line_bytes(t, 0))))
}

struct ContainerCols {
    id: usize,
    names: usize,
    image: usize,
    created: usize,
    status: usize,
    ports: usize,
}

impl ContainerCols {
    spec fn view(&self) -> ContainerColumns {
        ContainerColumns {
            id: self.id as int,
            names: self.names as int,
            image: self.image as int,
            created: self.created as int,
            status: self.status as int,
            ports: self.ports as int,
        }
    }
}

/// The offset of `p` in the line `t[s..e]`, or `d`.
fn find_or_default(t: &[u8], s: usize, e: usize, p: &[u8], d: usize) -> (res: usize)
    requires
        s <= e <= t@.len(),
    ensures
        res == find_or(t@.subrange(s as int, e as int), p@, d as int),
        res <= d || res <= e - s,
{
    match find_in(t, s, e, p) {
        Some(i) => {
            proof {
                crate::table::lemma_find_bound(t@.subrange(s as int, e as int), p@);
            }
            i
        },
        None => d,
    }
}

fn container_row_exec(text: &str, s: usize, e: usize, c: &ContainerCols) -> (res: Row<
    ContainerInfo,
>)
    requires
        s <= e <= text.spec_bytes().len(),
        is_char_boundary(text.spec_bytes(), s as int),
        is_char_boundary(text.spec_bytes(), e as int),
    ensures
        row_view(res) == container_row(text.spec_bytes().subrange(s as int, e as int), c.view()),
{
    let t = text.as_bytes();
    let line = line_trimmed(text, s, e);
    if line.as_str().is_empty() || line_starts_with(t, s, e, "CONTAINER".as_bytes()) || e - s
        < c.names {
        return Row::Skip;
    }
    let id = match cut_cell(text, s, e, c.id, c.names) {
        Some(x) => x,
        None => return Row::Fault,
    };
    let name = match cut_to_cell(text, s, e, c.names, c.image) {
        Some(x) => x,
        None => return Row::Fault,
    };
    let image = match cut_to_cell(text, s, e, c.image, c.created) {
        Some(x) => x,
        None => return Row::Fault,
    };
    let created = match cut_or_cell(text, s, e, c.created, c.status, "-") {
        Some(x) => x,
        None => return Row::Fault,
    };
    let status = match cut_to_cell(text, s, e, c.status, c.ports) {
        Some(x) => x,
        None => return Row::Fault,
    };
    let ports = match tail_or_cell(text, s, e, c.ports, "-") {
        Some(x) => x,
        None => return Row::Fault,
    };
    let lowered = to_lowercase(status.as_str());
    let is_running = status_is_running(status.as_str(), lowered.as_str());
    Row::Take(ContainerInfo { id, name, image, created, status, ports, is_running })
}

/// Reads the containers of a `wslc container ps` listing; `None` exactly
/// where reading some line would slice out of range or inside a character.
pub fn parse_container_table(output: &str) -> (res: Option<Vec<ContainerInfo>>)
    ensures
        opt_views(res) == container_table(output.spec_bytes()),
{
    let t = output.as_bytes();
    let ghost tb = output.spec_bytes();
    proof {
        lemma_line_boundaries(tb);
    }
    let spans = lines_of(t);
    let n = spans.len();
    let mut acc: Vec<ContainerInfo> = Vec::new();
    if n == 0 {
        assert(views(acc@) =~= seq![]);
        return Some(acc);
    }
    let (hs, he) = spans[0];
    let cols = ContainerCols {
        id: find_or_default(t, hs, he, "CONTAINER ID".as_bytes(), 0),
        names: find_or_default(t, hs, he, "NAMES".as_bytes(), 12),
        image: find_or_default(t, hs, he, "IMAGE".as_bytes(), 24),
        created: find_or_default(t, hs, he, "CREATED".as_bytes(), 45),
        status: find_or_default(t, hs, he, "STATUS".as_bytes(), 60),
        ports: find_or_default(t, hs, he, "PORTS".as_bytes(), 78),
    };
    let ghost f = |r: Seq<u8>| container_row(r, container_columns(line_bytes(tb, 0)));
    let ghost rows = body_rows(tb, f);
    assert(cols.view() == container_columns(line_bytes(tb, 0)));
    assert(container_table(tb) == collect_rows(rows)) by {
        assert(body_rows(tb, |r: Seq<u8>| container_row(r, container_columns(line_bytes(tb, 0))))
            =~= rows);
    }
    let mut k: usize = 1;
    while k < n
        invariant
            t@ == tb,
            tb == output.spec_bytes(),
            forall|r: Seq<u8>| #[trigger] f(r) == container_row(r, cols.view()),
            valid_utf8(tb),
            n == spans@.len(),
            n == line_spans(tb).len(),
            1 <= k <= n,
            forall|j: int|
                0 <= j < spans@.len() ==> (#[trigger] spans@[j]).0 == line_spans(tb)[j].0
                    && spans@[j].1 == line_spans(tb)[j].1,
            forall|j: int|
                0 <= j < line_spans(tb).len() ==> 0 <= #[trigger] line_spans(tb)[j].0
                    <= line_spans(tb)[j].1 <= tb.len() && is_char_boundary(tb, line_spans(tb)[j].0)
                    && is_char_boundary(tb, line_spans(tb)[j].1),
            cols.view() == container_columns(line_bytes(tb, 0)),
            rows == body_rows(tb, f),
            collect_rows(rows.take(k - 1)) == Some(views(acc@)),
            container_table(tb) == collect_rows(rows),
            rows.len() == n - 1,
        decreases n - k,
    {
        let (s, e) = spans[k];
        proof {
            assert(spans@[k as int].0 == line_spans(tb)[k as int].0);
            assert(0 <= line_spans(tb)[k as int].0 <= line_spans(tb)[k as int].1 <= tb.len());
            assert(s == line_spans(tb)[k as int].0);
            assert(e == line_spans(tb)[k as int].1);
            assert(output.spec_bytes() == tb);
        }
        let r = container_row_exec(output, s, e, &cols);
        proof {
            lemma_collect_step(rows, k - 1);
            assert(rows[k - 1] == f(line_bytes(tb, k as int)));
            assert(line_bytes(tb, k as int) == tb.subrange(s as int, e as int));
            assert(f(line_bytes(tb, k as int)) == container_row(line_bytes(tb, k as int), cols.view()));
        }
        match r {
            Row::Skip => {},
            Row::Take(c) => {
                let ghost before = acc@;
                acc.push(c);
                assert(views(acc@) =~= views(before).push(c@));
            },
            Row::Fault => {
                proof {
                    lemma_collect_fault(rows, k as int);
                }
                return None;
            },
        }
        k = k + 1;
    }
    assert(rows.take(n - 1) =~= rows);
    Some(acc)
}


// ---------------------------------------------------------------------------
// Images

/// Where the image listing's columns start (the repository starts at 0).
pub struct ImageColumns {
    pub tag: int,
    pub id: int,
    pub created: int,
    pub size: int,
}

pub open spec fn image_columns(h: Seq<u8>) -> ImageColumns {
    ImageColumns {
        tag: find_or(h, "TAG".spec_bytes(), 40),
        id: find_or(h, "IMAGE ID".spec_bytes(), 49),
        created: find_or(h, "CREATED".spec_bytes(), 62),
        size: find_or(h, "SIZE".spec_bytes(), 77),
    }
}

/// Reading one body line `r` of the image listing.
pub open spec fn image_row(r: Seq<u8>, c: ImageColumns) -> Row<ImageInfoView> {
    if blank_line(r) || starts_with_bytes(r, "REPOSITORY".spec_bytes()) || r.len() < c.size {
        Row::Skip
    } else {
        match (
            cut(r, 0, c.tag),
            cut(r, c.tag, c.id),
            cut(r, c.id, c.created),
            cut(r, c.created, c.size),
            cut(r, c.size, r.len() as int),
        ) {
            (Some(repository), Some(tag), Some(image_id), Some(created), Some(size)) => Row::Take(
                ImageInfoView { repository, tag, image_id, created, size },
            ),
            _ => Row::Fault,
        }
    }
}

/// The images of the listing `t` (the bytes of `wslc image ls`).
pub open spec fn image_table(t: Seq<u8>) -> Option<Seq<ImageInfoView>> {
    read_table(t, |r: Seq<u8>| image_row(r, image_columns(line_bytes(t, 0))))
}

struct ImageCols {
    tag: usize,
    id: usize,
    created: usize,
    size: usize,
}

impl ImageCols {
    spec fn view(&self) -> ImageColumns {
        ImageColumns {
            tag: self.tag as int,
            id: self.id as int,
            created: self.created as int,
            size: self.size as int,
        }
    }
}

fn image_row_exec(text: &str, s: usize, e: usize, c: &ImageCols) -> (res: Row<ImageInfo>)
    requires
        s <= e <= text.spec_bytes().len(),
        is_char_boundary(text.spec_bytes(), s as int),
        is_char_boundary(text.spec_bytes(), e as int),
    ensures
        row_view(res) == image_row(text.spec_bytes().subrange(s as int, e as int), c.view()),
{
    let t = text.as_bytes();
    let line = line_trimmed(text, s, e);
    if line.as_str().is_empty() || line_starts_with(t, s, e, "REPOSITORY".as_bytes()) || e - s
        < c.size {
        return Row::Skip;
    }
    let repository = match cut_cell(text, s, e, 0, c.tag) {
        Some(x) => x,
        None => return Row::Fault,
    };
    let tag = match cut_cell(text, s, e, c.tag, c.id) {
        Some(x) => x,
        None => return Row::Fault,
    };
    let image_id = match cut_cell(text, s, e, c.id, c.created) {
        Some(x) => x,
        None => return Row::Fault,
    };
    let created = match cut_cell(text, s, e, c.created, c.size) {
        Some(x) => x,
        None => return Row::Fault,
    };
    let size = match cut_cell(text, s, e, c.size, e - s) {
        Some(x) => x,
        None => return Row::Fault,
    };
    Row::Take(ImageInfo { repository, tag, image_id, created, size })
}

/// Reads the images of a `wslc image ls` listing; `None` exactly where
/// reading some line would slice out of range or inside a character.
pub fn parse_image_table(output: &str) -> (res: Option<Vec<ImageInfo>>)
    ensures
        opt_views(res) == image_table(output.spec_bytes()),
{
    let t = output.as_bytes();
    let ghost tb = output.spec_bytes();
    proof {
        lemma_line_boundaries(tb);
    }
    let spans = lines_of(t);
    let n = spans.len();
    let mut acc: Vec<ImageInfo> = Vec::new();
    if n == 0 {
        assert(views(acc@) =~= seq![]);
        return Some(acc);
    }
    let (hs, he) = spans[0];
    proof {
        assert(0 <= line_spans(tb)[0].0 <= line_spans(tb)[0].1 <= tb.len());
    }
    let cols = ImageCols {
        tag: find_or_default(t, hs, he, "TAG".as_bytes(), 40),
        id: find_or_default(t, hs, he, "IMAGE ID".as_bytes(), 49),
        created: find_or_default(t, hs, he, "CREATED".as_bytes(), 62),
        size: find_or_default(t, hs, he, "SIZE".as_bytes(), 77),
    };
    let ghost f = |r: Seq<u8>| image_row(r, image_columns(line_bytes(tb, 0)));
    let ghost rows = body_rows(tb, f);
    assert(cols.view() == image_columns(line_bytes(tb, 0)));
    assert(image_table(tb) == collect_rows(rows)) by {
        assert(body_rows(tb, |r: Seq<u8>| image_row(r, image_columns(line_bytes(tb, 0)))) =~= rows);
    }
    let mut k: usize = 1;
    while k < n
        invariant
            t@ == tb,
            tb == output.spec_bytes(),
            forall|r: Seq<u8>| #[trigger] f(r) == image_row(r, cols.view()),
            valid_utf8(tb),
            n == spans@.len(),
            n == line_spans(tb).len(),
            1 <= k <= n,
            forall|j: int|
                0 <= j < spans@.len() ==> (#[trigger] spans@[j]).0 == line_spans(tb)[j].0
                    && spans@[j].1 == line_spans(tb)[j].1,
            forall|j: int|
                0 <= j < line_spans(tb).len() ==> 0 <= #[trigger] line_spans(tb)[j].0
                    <= line_spans(tb)[j].1 <= tb.len() && is_char_boundary(tb, line_spans(tb)[j].0)
                    && is_char_boundary(tb, line_spans(tb)[j].1),
            cols.view() == image_columns(line_bytes(tb, 0)),
            rows == body_rows(tb, f),
            collect_rows(rows.take(k - 1)) == Some(views(acc@)),
            image_table(tb) == collect_rows(rows),
            rows.len() == n - 1,
        decreases n - k,
    {
        let (s, e) = spans[k];
        proof {
            assert(spans@[k as int].0 == line_spans(tb)[k as int].0);
            assert(0 <= line_spans(tb)[k as int].0 <= line_spans(tb)[k as int].1 <= tb.len());
        }
        let r = image_row_exec(output, s, e, &cols);
        proof {
            lemma_collect_step(rows, k - 1);
            assert(rows[k - 1] == f(line_bytes(tb, k as int)));
            assert(line_bytes(tb, k as int) == tb.subrange(s as int, e as int));
        }
        match r {
            Row::Skip => {},
            Row::Take(c) => {
                let ghost before = acc@;
                acc.push(c);
                assert(views(acc@) =~= views(before).push(c@));
            },
            Row::Fault => {
                proof {
                    lemma_collect_fault(rows, k as int);
                }
                return None;
            },
        }
        k = k + 1;
    }
    assert(rows.take(n - 1) =~= rows);
    Some(acc)
}

// ---------------------------------------------------------------------------
// Volumes

/// Where the volume listing's columns start.
pub struct VolumeColumns {
    pub name: int,
    pub driver: int,
    pub mountpoint: int,
}

pub open spec fn volume_columns(h: Seq<u8>) -> VolumeColumns {
    let name = match find(h, "VOLUME NAME".spec_bytes()) {
        Some(i) => i,
        None => find_or(h, "NAME".spec_bytes(), 0),
    };
    let driver = find_or(h, "DRIVER".spec_bytes(), name + 20);
    let mountpoint = find_or(h, "MOUNTPOINT".spec_bytes(), driver + 10);
    VolumeColumns { name, driver, mountpoint }
}

/// Reading one body line `r` of the volume listing.
pub open spec fn volume_row(r: Seq<u8>, c: VolumeColumns) -> Row<VolumeInfoView> {
    if blank_line(r) || starts_with_bytes(r, "VOLUME".spec_bytes()) || starts_with_bytes(
        r,
        "NAME".spec_bytes(),
    ) || r.len() < c.name {
        Row::Skip
    } else {
        match (
            cut(r, c.name, c.driver),
            cut_or(r, c.driver, c.mountpoint, "local"@),
            tail_or(r, c.mountpoint, "-"@),
        ) {
            (Some(name), Some(driver), Some(mountpoint)) => Row::Take(
                VolumeInfoView { name, driver, mountpoint, created: "-"@ },
            ),
            _ => Row::Fault,
        }
    }
}

/// The volumes of the listing `t` (the bytes of `wslc volume ls`).
pub open spec fn volume_table(t: Seq<u8>) -> Option<Seq<VolumeInfoView>> {
    read_table(t, |r: Seq<u8>| volume_row(r, volume_columns(line_bytes(t, 0))))
}

struct VolumeCols {
    name: usize,
    driver: usize,
    mountpoint: usize,
}

impl VolumeCols {
    spec fn view(&self) -> VolumeColumns {
        VolumeColumns {
            name: self.name as int,
            driver: self.driver as int,
            mountpoint: self.mountpoint as int,
        }
    }
}

fn volume_row_exec(text: &str, s: usize, e: usize, c: &VolumeCols) -> (res: Row<VolumeInfo>)
    requires
        s <= e <= text.spec_bytes().len(),
        is_char_boundary(text.spec_bytes(), s as int),
        is_char_boundary(text.spec_bytes(), e as int),
    ensures
        row_view(res) == volume_row(text.spec_bytes().subrange(s as int, e as int), c.view()),
{
    let t = text.as_bytes();
    let line = line_trimmed(text, s, e);
    if line.as_str().is_empty() || line_starts_with(t, s, e, "VOLUME".as_bytes())
        || line_starts_with(t, s, e, "NAME".as_bytes()) || e - s < c.name {
        return Row::Skip;
    }
    let name = match cut_cell(text, s, e, c.name, c.driver) {
        Some(x) => x,
        None => return Row::Fault,
    };
    let driver = match cut_or_cell(text, s, e, c.driver, c.mountpoint, "local") {
        Some(x) => x,
        None => return Row::Fault,
    };
    let mountpoint = match tail_or_cell(text, s, e, c.mountpoint, "-") {
        Some(x) => x,
        None => return Row::Fault,
    };
    Row::Take(VolumeInfo { name, driver, mountpoint, created: "-".to_string() })
}

/// Reads the volumes of a `wslc volume ls` listing; `None` exactly where
/// reading some line would slice out of range or inside a character.
pub fn parse_volume_table(output: &str) -> (res: Option<Vec<VolumeInfo>>)
    requires
        output.spec_bytes().len() <= isize::MAX,
    ensures
        opt_views(res) == volume_table(output.spec_bytes()),
{
    let t = output.as_bytes();
    let ghost tb = output.spec_bytes();
    proof {
        lemma_line_boundaries(tb);
    }
    let spans = lines_of(t);
    let n = spans.len();
    let mut acc: Vec<VolumeInfo> = Vec::new();
    if n == 0 {
        assert(views(acc@) =~= seq![]);
        return Some(acc);
    }
    let (hs, he) = spans[0];
    proof {
        assert(0 <= line_spans(tb)[0].0 <= line_spans(tb)[0].1 <= tb.len());
    }
    let name = match find_in(t, hs, he, "VOLUME NAME".as_bytes()) {
        Some(i) => {
            proof {
                crate::table::lemma_find_bound(tb.subrange(hs as int, he as int), "VOLUME NAME".spec_bytes());
            }
            i
        },
        None => find_or_default(t, hs, he, "NAME".as_bytes(), 0),
    };
    let driver = find_or_default(t, hs, he, "DRIVER".as_bytes(), name + 20);
    let mountpoint = find_or_default(t, hs, he, "MOUNTPOINT".as_bytes(), driver + 10);
    let cols = VolumeCols { name, driver, mountpoint };
    let ghost f = |r: Seq<u8>| volume_row(r, volume_columns(line_bytes(tb, 0)));
    let ghost rows = body_rows(tb, f);
    assert(cols.view() == volume_columns(line_bytes(tb, 0)));
    assert(volume_table(tb) == collect_rows(rows)) by {
        assert(body_rows(tb, |r: Seq<u8>| volume_row(r, volume_columns(line_bytes(tb, 0)))) =~= rows);
    }
    let mut k: usize = 1;
    while k < n
        invariant
            t@ == tb,
            tb == output.spec_bytes(),
            forall|r: Seq<u8>| #[trigger] f(r) == volume_row(r, cols.view()),
            valid_utf8(tb),
            n == spans@.len(),
            n == line_spans(tb).len(),
            1 <= k <= n,
            forall|j: int|
                0 <= j < spans@.len() ==> (#[trigger] spans@[j]).0 == line_spans(tb)[j].0
                    && spans@[j].1 == line_spans(tb)[j].1,
            forall|j: int|
                0 <= j < line_spans(tb).len() ==> 0 <= #[trigger] line_spans(tb)[j].0
                    <= line_spans(tb)[j].1 <= tb.len() && is_char_boundary(tb, line_spans(tb)[j].0)
                    && is_char_boundary(tb, line_spans(tb)[j].1),
            cols.view() == volume_columns(line_bytes(tb, 0)),
            rows == body_rows(tb, f),
            collect_rows(rows.take(k - 1)) == Some(views(acc@)),
            volume_table(tb) == collect_rows(rows),
            rows.len() == n - 1,
        decreases n - k,
    {
        let (s, e) = spans[k];
        proof {
            assert(spans@[k as int].0 == line_spans(tb)[k as int].0);
            assert(0 <= line_spans(tb)[k as int].0 <= line_spans(tb)[k as int].1 <= tb.len());
        }
        let r = volume_row_exec(output, s, e, &cols);
        proof {
            lemma_collect_step(rows, k - 1);
            assert(rows[k - 1] == f(line_bytes(tb, k as int)));
            assert(line_bytes(tb, k as int) == tb.subrange(s as int, e as int));
        }
        match r {
            Row::Skip => {},
            Row::Take(c) => {
                let ghost before = acc@;
                acc.push(c);
                assert(views(acc@) =~= views(before).push(c@));
            },
            Row::Fault => {
                proof {
                    lemma_collect_fault(rows, k as int);
                }
                return None;
            },
        }
        k = k + 1;
    }
    assert(rows.take(n - 1) =~= rows);
    Some(acc)
}

// ---------------------------------------------------------------------------
// Networks

/// Where the network listing's columns start.
pub struct NetworkColumns {
    pub id: int,
    pub name: int,
    pub driver: int,
    pub scope: int,
}

pub open spec fn network_columns(h: Seq<u8>) -> NetworkColumns {
    let id = match find(h, "NETWORK ID".spec_bytes()) {
        Some(i) => i,
        None => find_or(h, "ID".spec_bytes(), 0),
    };
    let name = find_or(h, "NAME".spec_bytes(), id + 12);
    let driver = find_or(h, "DRIVER".spec_bytes(), name + 20);
    let scope = find_or(h, "SCOPE".spec_bytes(), driver + 10);
    NetworkColumns { id, name, driver, scope }
}

/// Reading one body line `r` of the network listing.
pub open spec fn network_row(r: Seq<u8>, c: NetworkColumns) -> Row<NetworkInfoView> {
    if blank_line(r) || starts_with_bytes(r, "NETWORK".spec_bytes()) || starts_with_bytes(
        r,
        "ID".spec_bytes(),
    ) || r.len() < c.name {
        Row::Skip
    } else {
        match (
            cut(r, c.id, c.name),
            cut_to(r, c.name, c.driver),
            cut_or(r, c.driver, c.scope, "bridge"@),
            tail_or(r, c.scope, "local"@),
        ) {
            (Some(id), Some(name), Some(driver), Some(scope)) => Row::Take(
                NetworkInfoView { id, name, driver, scope },
            ),
            _ => Row::Fault,
        }
    }
}

/// The networks of the listing `t` (the bytes of `wslc network ls`).
pub open spec fn network_table(t: Seq<u8>) -> Option<Seq<NetworkInfoView>> {
    read_table(t, |r: Seq<u8>| network_row(r, network_columns(line_bytes(t, 0))))
}

struct NetworkCols {
    id: usize,
    name: usize,
    driver: usize,
    scope: usize,
}

impl NetworkCols {
    spec fn view(&self) -> NetworkColumns {
        NetworkColumns {
            id: self.id as int,
            name: self.name as int,
            driver: self.driver as int,
            scope: self.scope as int,
        }
    }
}

fn network_row_exec(text: &str, s: usize, e: usize, c: &NetworkCols) -> (res: Row<NetworkInfo>)
    requires
        s <= e <= text.spec_bytes().len(),
        is_char_boundary(text.spec_bytes(), s as int),
        is_char_boundary(text.spec_bytes(), e as int),
    ensures
        row_view(res) == network_row(text.spec_bytes().subrange(s as int, e as int), c.view()),
{
    let t = text.as_bytes();
    let line = line_trimmed(text, s, e);
    if line.as_str().is_empty() || line_starts_with(t, s, e, "NETWORK".as_bytes())
        || line_starts_with(t, s, e, "ID".as_bytes()) || e - s < c.name {
        return Row::Skip;
    }
    let id = match cut_cell(text, s, e, c.id, c.name) {
        Some(x) => x,
        None => return Row::Fault,
    };
    let name = match cut_to_cell(text, s, e, c.name, c.driver) {
        Some(x) => x,
        None => return Row::Fault,
    };
    let driver = match cut_or_cell(text, s, e, c.driver, c.scope, "bridge") {
        Some(x) => x,
        None => return Row::Fault,
    };
    let scope = match tail_or_cell(text, s, e, c.scope, "local") {
        Some(x) => x,
        None => return Row::Fault,
    };
    Row::Take(NetworkInfo { id, name, driver, scope })
}

/// Reads the networks of a `wslc network ls` listing; `None` exactly where
/// reading some line would slice out of range or inside a character.
pub fn parse_network_table(output: &str) -> (res: Option<Vec<NetworkInfo>>)
    requires
        output.spec_bytes().len() <= isize::MAX,
    ensures
        opt_views(res) == network_table(output.spec_bytes()),
{
    let t = output.as_bytes();
    let ghost tb = output.spec_bytes();
    proof {
        lemma_line_boundaries(tb);
    }
    let spans = lines_of(t);
    let n = spans.len();
    let mut acc: Vec<NetworkInfo> = Vec::new();
    if n == 0 {
        assert(views(acc@) =~= seq![]);
        return Some(acc);
    }
    let (hs, he) = spans[0];
    proof {
        assert(0 <= line_spans(tb)[0].0 <= line_spans(tb)[0].1 <= tb.len());
    }
    let id = match find_in(t, hs, he, "NETWORK ID".as_bytes()) {
        Some(i) => {
            proof {
                crate::table::lemma_find_bound(tb.subrange(hs as int, he as int), "NETWORK ID".spec_bytes());
            }
            i
        },
        None => find_or_default(t, hs, he, "ID".as_bytes(), 0),
    };
    let name = find_or_default(t, hs, he, "NAME".as_bytes(), id + 12);
    let driver = find_or_default(t, hs, he, "DRIVER".as_bytes(), name + 20);
    let scope = find_or_default(t, hs, he, "SCOPE".as_bytes(), driver + 10);
    let cols = NetworkCols { id, name, driver, scope };
    let ghost f = |r: Seq<u8>| network_row(r, network_columns(line_bytes(tb, 0)));
    let ghost rows = body_rows(tb, f);
    assert(cols.view() == network_columns(line_bytes(tb, 0)));
    assert(network_table(tb) == collect_rows(rows)) by {
        assert(body_rows(tb, |r: Seq<u8>| network_row(r, network_columns(line_bytes(tb, 0)))) =~= rows);
    }
    let mut k: usize = 1;
    while k < n
        invariant
            t@ == tb,
            tb == output.spec_bytes(),
            forall|r: Seq<u8>| #[trigger] f(r) == network_row(r, cols.view()),
            valid_utf8(tb),
            n == spans@.len(),
            n == line_spans(tb).len(),
            1 <= k <= n,
            forall|j: int|
                0 <= j < spans@.len() ==> (#[trigger] spans@[j]).0 == line_spans(tb)[j].0
                    && spans@[j].1 == line_spans(tb)[j].1,
            forall|j: int|
                0 <= j < line_spans(tb).len() ==> 0 <= #[trigger] line_spans(tb)[j].0
                    <= line_spans(tb)[j].1 <= tb.len() && is_char_boundary(tb, line_spans(tb)[j].0)
                    && is_char_boundary(tb, line_spans(tb)[j].1),
            cols.view() == network_columns(line_bytes(tb, 0)),
            rows == body_rows(tb, f),
            collect_rows(rows.take(k - 1)) == Some(views(acc@)),
            network_table(tb) == collect_rows(rows),
            rows.len() == n - 1,
        decreases n - k,
    {
        let (s, e) = spans[k];
        proof {
            assert(spans@[k as int].0 == line_spans(tb)[k as int].0);
            assert(0 <= line_spans(tb)[k as int].0 <= line_spans(tb)[k as int].1 <= tb.len());
        }
        let r = network_row_exec(output, s, e, &cols);
        proof {
            lemma_collect_step(rows, k - 1);
            assert(rows[k - 1] == f(line_bytes(tb, k as int)));
            assert(line_bytes(tb, k as int) == tb.subrange(s as int, e as int));
        }
        match r {
            Row::Skip => {},
            Row::Take(c) => {
                let ghost before = acc@;
                acc.push(c);
                assert(views(acc@) =~= views(before).push(c@));
            },
            Row::Fault => {
                proof {
                    lemma_collect_fault(rows, k as int);
                }
                return None;
            },
        }
        k = k + 1;
    }
    assert(rows.take(n - 1) =~= rows);
    Some(acc)
}

} // verus!
