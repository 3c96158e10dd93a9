//! Route handlers: what each HTTP endpoint decides.

pub mod config;
pub mod control;
pub mod devices;
pub mod info;
pub mod ws;

use vstd::prelude::*;

use crate::state::{fail, failure, lookup, DeviceHandle, DeviceRegistry, Reply};
use crate::text;

verus! {

/// The device that a request is for.
#[derive(Debug)]
pub struct Device<'a>(pub &'a DeviceHandle);

impl<'a> Device<'a> {
    /// Resolves the `{id}` path segment to a device of the registry. Rejects with
    /// `404` when no such device exists, so every per-device handler shares one
    /// lookup-and-reject path.
    pub fn from_request_parts(registry: &'a DeviceRegistry, id: Option<&str>) -> (r: Result<
        Device<'a>,
        Reply,
    >)
        ensures
            match id {
                None => r matches Err(e) && e@ == failure(400, "Missing device id in request path"@),
                Some(name) => match r {
                    Ok(d) => lookup(registry@, name@) == Some(d.0@),
                    Err(e) => lookup(registry@, name@) is None && e@ == failure(
                        404,
                        "No device with id '"@ + name@ + "'"@,
                    ),
                },
            },
    {
        match id {
            None => Err(fail(400, "Missing device id in request path".to_owned())),
            Some(name) => match registry.get(name) {
                Some(d) => Ok(Device(d)),
                None => Err(fail(404, text::join3("No device with id '", name, "'"))),
            },
        }
    }
}

} // verus!
