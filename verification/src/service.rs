//! The services of the project.
use vstd::prelude::*;

use crate::text::copied;

verus! {

/// The state a container is in.
#[derive(Clone, Copy, Debug, PartialEq, Eq, Structural)]
pub enum ServiceStatus {
    NotStarted,
    Running,
    /// Running, with its health check failing.
    Unhealthy,
    Paused,
    /// Exited cleanly.
    Success,
    /// Exited otherwise.
    Failure,
}

impl ServiceStatus {
    /// Whether the container has exited.
    pub open spec fn finished(self) -> bool {
        self == ServiceStatus::Success || self == ServiceStatus::Failure
    }

    /// Whether the container is up, healthy or not.
    pub open spec fn up(self) -> bool {
        self == ServiceStatus::Running || self == ServiceStatus::Unhealthy
    }

    /// Whether the container has exited.
    pub fn is_finished(self) -> (finished: bool)
        ensures
            finished == self.finished(),
    {
        self == ServiceStatus::Success || self == ServiceStatus::Failure
    }

    /// Whether the container is up, healthy or not.
    pub fn is_up(self) -> (up: bool)
        ensures
            up == self.up(),
    {
        self == ServiceStatus::Running || self == ServiceStatus::Unhealthy
    }
}

/// One container of a service.
#[derive(Clone, Debug)]
pub struct Service {
    pub name: String,
    pub replica: u32,
    pub status: ServiceStatus,
}

/// A [`Service`] as a plain value.
pub struct ServiceView {
    pub name: Seq<char>,
    pub replica: u32,
    pub status: ServiceStatus,
}

impl View for Service {
    type V = ServiceView;

    open spec fn view(&self) -> ServiceView {
        ServiceView { name: self.name@, replica: self.replica, status: self.status }
    }
}

impl Service {
    /// A copy.
    pub fn copy(&self) -> (service: Service)
        ensures
            service@ == self@,
    {
        Service { name: copied(&self.name), replica: self.replica, status: self.status }
    }
}

/// Identifies one container: a service, plus its replica index when scaled.
#[derive(Debug, Clone, PartialEq, Eq, Hash, PartialOrd, Ord)]
pub struct ServiceKey {
    pub name: String,
    pub replica: u32,
}

/// A [`ServiceKey`] as a plain value.
pub struct KeyView {
    pub name: Seq<char>,
    pub replica: u32,
}

impl View for ServiceKey {
    type V = KeyView;

    open spec fn view(&self) -> KeyView {
        KeyView { name: self.name@, replica: self.replica }
    }
}

impl ServiceKey {
    /// The key of that replica of the service with that name.
    pub fn new(name: &str, replica: u32) -> (key: ServiceKey)
        ensures
            key@ == (KeyView { name: name@, replica }),
    {
        ServiceKey { name: name.to_owned(), replica }
    }

    /// A copy.
    pub fn copy(&self) -> (key: ServiceKey)
        ensures
            key@ == self@,
    {
        ServiceKey { name: copied(&self.name), replica: self.replica }
    }

    /// Whether the two are the key of one container.
    pub fn same(&self, other: &ServiceKey) -> (same: bool)
        ensures
            same == (self@ == other@),
    {
        self.replica == other.replica && self.name == other.name
    }
}

/// The key that may be in a pane, as a plain value.
pub open spec fn slot_view(slot: Option<ServiceKey>) -> Option<KeyView> {
    match slot {
        Some(key) => Some(key@),
        None => None,
    }
}

/// A copy of the key that may be in a pane.
pub fn copy_slot(slot: &Option<ServiceKey>) -> (copy: Option<ServiceKey>)
    ensures
        slot_view(copy) == slot_view(*slot),
{
    match slot {
        Some(key) => Some(key.copy()),
        None => None,
    }
}

/// Whether `slot` holds `key`.
pub fn slot_holds(slot: &Option<ServiceKey>, key: &ServiceKey) -> (holds: bool)
    ensures
        holds == (slot_view(*slot) == Some(key@)),
{
    match slot {
        Some(held) => held.same(key),
        None => false,
    }
}

/// One row of the service list.
#[derive(Debug, Clone)]
pub struct Row {
    pub key: ServiceKey,
    pub display_name: String,
    pub service: Service,
}

/// A [`Row`] as a plain value.
pub struct RowView {
    pub key: KeyView,
    pub display_name: Seq<char>,
    pub service: ServiceView,
}

impl View for Row {
    type V = RowView;

    open spec fn view(&self) -> RowView {
        RowView {
            key: self.key@,
            display_name: self.display_name@,
            service: self.service@,
        }
    }
}

impl Row {
    /// A copy.
    pub fn copy(&self) -> (row: Row)
        ensures
            row@ == self@,
    {
        Row {
            key: self.key.copy(),
            display_name: copied(&self.display_name),
            service: self.service.copy(),
        }
    }
}

/// Rows as plain values.
pub open spec fn row_views(rows: Seq<Row>) -> Seq<RowView> {
    Seq::new(rows.len(), |i: int| rows[i]@)
}

/// Services as plain values.
pub open spec fn service_views(services: Seq<Service>) -> Seq<ServiceView> {
    Seq::new(services.len(), |i: int| services[i]@)
}

} // verus!
