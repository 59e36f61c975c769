//! What browsing reports.
use crate::base::device::{Device, DeviceId};
use vstd::prelude::*;

verus! {

#[derive(Debug)]
#[non_exhaustive]
pub enum BrowseEvent {
    Added(Device),
    Updated(Device),
    Removed(DeviceId),
}

impl BrowseEvent {
    /// The device an addition or update carries.
    pub fn device(&self) -> (r: Option<&Device>)
        ensures
            match self {
                BrowseEvent::Added(d) => r == Some(d),
                BrowseEvent::Updated(d) => r == Some(d),
                BrowseEvent::Removed(_) => r is None,
            },
    {
        match self {
            BrowseEvent::Added(d) => Some(d),
            BrowseEvent::Updated(d) => Some(d),
            BrowseEvent::Removed(_) => None,
        }
    }

    /// The id of the device the event is about.
    pub fn device_id(&self) -> (r: &DeviceId)
        ensures
            match self {
                BrowseEvent::Added(d) => *r == d.id,
                BrowseEvent::Updated(d) => *r == d.id,
                BrowseEvent::Removed(id) => r == id,
            },
    {
        match self {
            BrowseEvent::Added(d) => &d.id,
            BrowseEvent::Updated(d) => &d.id,
            BrowseEvent::Removed(id) => id,
        }
    }

    pub fn is_added(&self) -> (r: bool)
        ensures
            r == (self is Added),
    {
        matches!(self, BrowseEvent::Added(_))
    }

    pub fn is_updated(&self) -> (r: bool)
        ensures
            r == (self is Updated),
    {
        matches!(self, BrowseEvent::Updated(_))
    }

    pub fn is_removed(&self) -> (r: bool)
        ensures
            r == (self is Removed),
    {
        matches!(self, BrowseEvent::Removed(_))
    }
}

} // verus!
