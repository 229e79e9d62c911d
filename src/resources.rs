use vstd::prelude::*;
use crate::text::{decimal, push_decimal};

verus! {

/// The entity that a measured value is about.
#[derive(Clone, Debug)]
pub enum Resource {
    LocalMachine,
    CpuPackage { id: u32 },
    CpuCore { id: u32 },
    Dram { pkg_id: u32 },
    Gpu { bus_id: String },
    Custom { kind: String, id: String },
}

/// The entity that consumed or caused a measured value.
#[derive(Clone, Debug)]
pub enum ResourceConsumer {
    LocalMachine,
    Process { pid: u32 },
    ControlGroup { path: String },
    Custom { kind: String, id: String },
}

pub open spec fn resource_kind(r: Resource) -> Seq<char> {
    match r {
        Resource::LocalMachine => "local_machine"@,
        Resource::CpuPackage { .. } => "cpu_package"@,
        Resource::CpuCore { .. } => "cpu_core"@,
        Resource::Dram { .. } => "dram"@,
        Resource::Gpu { .. } => "gpu"@,
        Resource::Custom { kind, .. } => kind@,
    }
}

/// The instance id of a resource as text: empty for the local machine.
pub open spec fn resource_id_text(r: Resource) -> Seq<char> {
    match r {
        Resource::LocalMachine => Seq::empty(),
        Resource::CpuPackage { id } => decimal(id as nat),
        Resource::CpuCore { id } => decimal(id as nat),
        Resource::Dram { pkg_id } => decimal(pkg_id as nat),
        Resource::Gpu { bus_id } => bus_id@,
        Resource::Custom { id, .. } => id@,
    }
}

pub open spec fn consumer_kind(c: ResourceConsumer) -> Seq<char> {
    match c {
        ResourceConsumer::LocalMachine => "local_machine"@,
        ResourceConsumer::Process { .. } => "process"@,
        ResourceConsumer::ControlGroup { .. } => "cgroup"@,
        ResourceConsumer::Custom { kind, .. } => kind@,
    }
}

/// The instance id of a consumer as text: empty for the local machine.
pub open spec fn consumer_id_text(c: ResourceConsumer) -> Seq<char> {
    match c {
        ResourceConsumer::LocalMachine => Seq::empty(),
        ResourceConsumer::Process { pid } => decimal(pid as nat),
        ResourceConsumer::ControlGroup { path } => path@,
        ResourceConsumer::Custom { id, .. } => id@,
    }
}

impl Resource {
    /// The kind tag of the resource.
    pub fn kind(&self) -> (r: &str)
        ensures
            r@ == resource_kind(*self),
    {
        match self {
            Resource::LocalMachine => "local_machine",
            Resource::CpuPackage { .. } => "cpu_package",
            Resource::CpuCore { .. } => "cpu_core",
            Resource::Dram { .. } => "dram",
            Resource::Gpu { .. } => "gpu",
            Resource::Custom { kind, .. } => kind.as_str(),
        }
    }

    /// Appends the instance id of the resource to `s`.
    pub fn push_id(&self, s: &mut String)
        ensures
            final(s)@ == old(s)@ + resource_id_text(*self),
    {
        match self {
            Resource::LocalMachine => {
                assert(old(s)@ =~= old(s)@ + resource_id_text(*self));
            },
            Resource::CpuPackage { id } => push_decimal(s, *id as u64),
            Resource::CpuCore { id } => push_decimal(s, *id as u64),
            Resource::Dram { pkg_id } => push_decimal(s, *pkg_id as u64),
            Resource::Gpu { bus_id } => s.append(bus_id.as_str()),
            Resource::Custom { id, .. } => s.append(id.as_str()),
        }
    }

    /// The instance id of the resource as text.
    pub fn id_text(&self) -> (r: String)
        ensures
            r@ == resource_id_text(*self),
    {
        let mut s = String::new();
        self.push_id(&mut s);
        assert(s@ =~= resource_id_text(*self));
        s
    }
}

impl ResourceConsumer {
    /// The kind tag of the consumer.
    pub fn kind(&self) -> (r: &str)
        ensures
            r@ == consumer_kind(*self),
    {
        match self {
            ResourceConsumer::LocalMachine => "local_machine",
            ResourceConsumer::Process { .. } => "process",
            ResourceConsumer::ControlGroup { .. } => "cgroup",
            ResourceConsumer::Custom { kind, .. } => kind.as_str(),
        }
    }

    /// Appends the instance id of the consumer to `s`.
    pub fn push_id(&self, s: &mut String)
        ensures
            final(s)@ == old(s)@ + consumer_id_text(*self),
    {
        match self {
            ResourceConsumer::LocalMachine => {
                assert(old(s)@ =~= old(s)@ + consumer_id_text(*self));
            },
            ResourceConsumer::Process { pid } => push_decimal(s, *pid as u64),
            ResourceConsumer::ControlGroup { path } => s.append(path.as_str()),
            ResourceConsumer::Custom { id, .. } => s.append(id.as_str()),
        }
    }

    /// The instance id of the consumer as text.
    pub fn id_text(&self) -> (r: String)
        ensures
            r@ == consumer_id_text(*self),
    {
        let mut s = String::new();
        self.push_id(&mut s);
        assert(s@ =~= consumer_id_text(*self));
        s
    }
}

} // verus!
