//! The records that the manager reads from `wslc` and hands to its clients.
use vstd::prelude::*;

verus! {

/// One row of the container listing.
#[derive(Debug, Clone)]
pub struct ContainerInfo {
    pub id: String,
    pub name: String,
    pub image: String,
    pub created: String,
    pub status: String,
    pub ports: String,
    pub is_running: bool,
}

/// One row of the image listing.
#[derive(Debug, Clone)]
pub struct ImageInfo {
    pub repository: String,
    pub tag: String,
    pub image_id: String,
    pub created: String,
    pub size: String,
}

/// One row of the volume listing.
#[derive(Debug, Clone)]
pub struct VolumeInfo {
    pub name: String,
    pub driver: String,
    pub mountpoint: String,
    pub created: String,
}

/// One row of the network listing.
#[derive(Debug, Clone)]
pub struct NetworkInfo {
    pub id: String,
    pub name: String,
    pub driver: String,
    pub scope: String,
}

/// A published port of a container.
#[derive(Debug, Clone)]
pub struct PortMapping {
    pub host_port: String,
    pub container_port: String,
    pub protocol: String,
}

/// A mount of a container.
#[derive(Debug, Clone)]
pub struct MountInfo {
    pub source: String,
    pub destination: String,
    pub mode: String,
}

/// What `wslc inspect` tells of one container.
#[derive(Debug, Clone)]
pub struct ContainerDetail {
    pub id: String,
    pub name: String,
    pub image: String,
    pub status: String,
    pub created: String,
    pub started: String,
    pub ports: Vec<PortMapping>,
    pub env: Vec<String>,
    pub mounts: Vec<MountInfo>,
    pub cmd: Vec<String>,
}

/// Counts over everything the manager lists.
#[derive(Debug)]
pub struct SystemInfo {
    pub wslc_version: String,
    pub container_count: usize,
    pub image_count: usize,
    pub running_containers: usize,
    pub volume_count: usize,
    pub network_count: usize,
}

pub struct ContainerInfoView {
    pub id: Seq<char>,
    pub name: Seq<char>,
    pub image: Seq<char>,
    pub created: Seq<char>,
    pub status: Seq<char>,
    pub ports: Seq<char>,
    pub is_running: bool,
}

impl View for ContainerInfo {
    type V = ContainerInfoView;

    open spec fn view(&self) -> ContainerInfoView {
        ContainerInfoView {
            id: self.id@,
            name: self.name@,
            image: self.image@,
            created: self.created@,
            status: self.status@,
            ports: self.ports@,
            is_running: self.is_running,
        }
    }
}

pub struct ImageInfoView {
    pub repository: Seq<char>,
    pub tag: Seq<char>,
    pub image_id: Seq<char>,
    pub created: Seq<char>,
    pub size: Seq<char>,
}

impl View for ImageInfo {
    type V = ImageInfoView;

    open spec fn view(&self) -> ImageInfoView {
        ImageInfoView {
            repository: self.repository@,
            tag: self.tag@,
            image_id: self.image_id@,
            created: self.created@,
            size: self.size@,
        }
    }
}

pub struct VolumeInfoView {
    pub name: Seq<char>,
    pub driver: Seq<char>,
    pub mountpoint: Seq<char>,
    pub created: Seq<char>,
}

impl View for VolumeInfo {
    type V = VolumeInfoView;

    open spec fn view(&self) -> VolumeInfoView {
        VolumeInfoView {
            name: self.name@,
            driver: self.driver@,
            mountpoint: self.mountpoint@,
            created: self.created@,
        }
    }
}

pub struct NetworkInfoView {
    pub id: Seq<char>,
    pub name: Seq<char>,
    pub driver: Seq<char>,
    pub scope: Seq<char>,
}

impl View for NetworkInfo {
    type V = NetworkInfoView;

    open spec fn view(&self) -> NetworkInfoView {
        NetworkInfoView {
            id: self.id@,
            name: self.name@,
            driver: self.driver@,
            scope: self.scope@,
        }
    }
}

pub struct PortMappingView {
    pub host_port: Seq<char>,
    pub container_port: Seq<char>,
    pub protocol: Seq<char>,
}

impl View for PortMapping {
    type V = PortMappingView;

    open spec fn view(&self) -> PortMappingView {
        PortMappingView {
            host_port: self.host_port@,
            container_port: self.container_port@,
            protocol: self.protocol@,
        }
    }
}

pub struct MountInfoView {
    pub source: Seq<char>,
    pub destination: Seq<char>,
    pub mode: Seq<char>,
}

impl View for MountInfo {
    type V = MountInfoView;

    open spec fn view(&self) -> MountInfoView {
        MountInfoView { source: self.source@, destination: self.destination@, mode: self.mode@ }
    }
}

/// The views of the elements of `v`.
pub open spec fn views<T: View>(v: Seq<T>) -> Seq<T::V> {
    v.map_values(|x: T| x@)
}

pub struct ContainerDetailView {
    pub id: Seq<char>,
    pub name: Seq<char>,
    pub image: Seq<char>,
    pub status: Seq<char>,
    pub created: Seq<char>,
    pub started: Seq<char>,
    pub ports: Seq<PortMappingView>,
    pub env: Seq<Seq<char>>,
    pub mounts: Seq<MountInfoView>,
    pub cmd: Seq<Seq<char>>,
}

impl View for ContainerDetail {
    type V = ContainerDetailView;

    open spec fn view(&self) -> ContainerDetailView {
        ContainerDetailView {
            id: self.id@,
            name: self.name@,
            image: self.image@,
            status: self.status@,
            created: self.created@,
            started: self.started@,
            ports: views(self.ports@),
            env: views(self.env@),
            mounts: views(self.mounts@),
            cmd: views(self.cmd@),
        }
    }
}

} // verus!
