//! What the device advertises of itself on the network.
use crate::device_id::device_id_text;
use vstd::prelude::*;
use vstd::string::*;

verus! {

/// The kinds of device that the server is.
#[derive(Debug, Clone, Copy, PartialEq, Eq, Structural)]
pub enum DeviceName {
    MediaServer,
}

/// The kinds of service that the server offers.
#[derive(Debug, Clone, Copy, PartialEq, Eq, Structural)]
pub enum ServiceName {
    ConnectionManager,
    ContentDirectory,
}

/// What is advertised: the root device, the device by its identifier, the kind of device, or a service.
#[derive(Debug, Clone, Copy, PartialEq, Eq, Structural)]
#[allow(inconsistent_fields)]
pub enum Advertisement {
    RootDevice { id: u128 },
    Uuid { id: u128 },
    Device { id: u128, name: DeviceName },
    Service { id: u128, name: ServiceName },
}

impl DeviceName {
    /// The URN of the kind of device.
    pub open spec fn urn(self) -> Seq<char> {
        match self {
            DeviceName::MediaServer => "urn:schemas-upnp-org:device:MediaServer:1"@,
        }
    }

    /// The URN of the kind of device.
    pub fn as_str(&self) -> (text: &'static str)
        ensures
            text@ == self.urn(),
    {
        match self {
            DeviceName::MediaServer => "urn:schemas-upnp-org:device:MediaServer:1",
        }
    }
}

impl ServiceName {
    /// The URN of the kind of service.
    pub open spec fn urn(self) -> Seq<char> {
        match self {
            ServiceName::ConnectionManager => "urn:schemas-upnp-org:service:ConnectionManager:1"@,
            ServiceName::ContentDirectory => "urn:schemas-upnp-org:service:ContentDirectory:1"@,
        }
    }

    /// The URN of the kind of service.
    pub fn as_str(&self) -> (text: &'static str)
        ensures
            text@ == self.urn(),
    {
        match self {
            ServiceName::ConnectionManager => "urn:schemas-upnp-org:service:ConnectionManager:1",
            ServiceName::ContentDirectory => "urn:schemas-upnp-org:service:ContentDirectory:1",
        }
    }
}

/// Everything that the device `id` advertises.
pub open spec fn advertised(id: u128) -> Seq<Advertisement> {
    seq![
        Advertisement::RootDevice { id },
        Advertisement::Uuid { id },
        Advertisement::Device { id, name: DeviceName::MediaServer },
        Advertisement::Service { id, name: ServiceName::ConnectionManager },
        Advertisement::Service { id, name: ServiceName::ContentDirectory },
    ]
}

impl Advertisement {
    /// What is advertised, by itself.
    pub open spec fn type_text(self) -> Seq<char> {
        match self {
            Advertisement::RootDevice { .. } => "upnp:rootdevice"@,
            Advertisement::Uuid { id } => "uuid:"@ + crate::device_id::hyphenated(id),
            Advertisement::Device { name, .. } => name.urn(),
            Advertisement::Service { name, .. } => name.urn(),
        }
    }

    /// What is advertised, as that of one device.
    pub open spec fn unique_text(self) -> Seq<char> {
        match self {
            Advertisement::RootDevice { id } => "uuid:"@ + crate::device_id::hyphenated(id)
                + "::upnp:rootdevice"@,
            Advertisement::Uuid { id } => "uuid:"@ + crate::device_id::hyphenated(id),
            Advertisement::Device { id, name } => "uuid:"@ + crate::device_id::hyphenated(id) + "::"@
                + name.urn(),
            Advertisement::Service { id, name } => "uuid:"@ + crate::device_id::hyphenated(id) + "::"@
                + name.urn(),
        }
    }

    /// The type of a notification: what is advertised, by itself.
    pub fn notification_type(&self) -> (text: String)
        ensures
            text@ == self.type_text(),
    {
        match self {
            Advertisement::RootDevice { .. } => "upnp:rootdevice".to_owned(),
            Advertisement::Uuid { id } => device_text(*id),
            Advertisement::Device { name, .. } => name.as_str().to_owned(),
            Advertisement::Service { name, .. } => name.as_str().to_owned(),
        }
    }

    /// The unique service name: what is advertised, as that of one device.
    pub fn service_name(&self) -> (text: String)
        ensures
            text@ == self.unique_text(),
    {
        match self {
            Advertisement::RootDevice { id } => {
                let mut text: String = device_text(*id);
                text.append("::upnp:rootdevice");
                text
            },
            Advertisement::Uuid { id } => device_text(*id),
            Advertisement::Device { id, name } => {
                let mut text: String = device_text(*id);
                text.append("::");
                text.append(name.as_str());
                text
            },
            Advertisement::Service { id, name } => {
                let mut text: String = device_text(*id);
                text.append("::");
                text.append(name.as_str());
                text
            },
        }
    }

    /// Everything that the device `id` advertises.
    pub fn all(id: u128) -> (out: [Advertisement; 5])
        ensures
            out@ == advertised(id),
    {
        let out: [Advertisement; 5] = [
            Advertisement::RootDevice { id },
            Advertisement::Uuid { id },
            Advertisement::Device { id, name: DeviceName::MediaServer },
            Advertisement::Service { id, name: ServiceName::ConnectionManager },
            Advertisement::Service { id, name: ServiceName::ContentDirectory },
        ];
        assert(out@ =~= advertised(id));
        out
    }
}

/// The device `id` as a text.
fn device_text(id: u128) -> (text: String)
    ensures
        text@ == "uuid:"@ + crate::device_id::hyphenated(id),
{
    let mut text: String = "uuid:".to_owned();
    text.append(device_id_text(id).as_str());
    text
}

/// What a device advertises, in its order, and how each is named: by itself, and as that of the device.
pub proof fn advertisements_are_named(id: u128)
    ensures
        ({
            let device = "uuid:"@ + crate::device_id::hyphenated(id);
            let server = "urn:schemas-upnp-org:device:MediaServer:1"@;
            let connections = "urn:schemas-upnp-org:service:ConnectionManager:1"@;
            let contents = "urn:schemas-upnp-org:service:ContentDirectory:1"@;
            let all = advertised(id);
            &&& all.len() == 5
            &&& all[0] == (Advertisement::RootDevice { id })
            &&& all[0].type_text() == "upnp:rootdevice"@
            &&& all[0].unique_text() == device + "::upnp:rootdevice"@
            &&& all[1] == (Advertisement::Uuid { id })
            &&& all[1].type_text() == device
            &&& all[1].unique_text() == device
            &&& all[2] == (Advertisement::Device { id, name: DeviceName::MediaServer })
            &&& all[2].type_text() == server
            &&& all[2].unique_text() == device + "::"@ + server
            &&& all[3] == (Advertisement::Service { id, name: ServiceName::ConnectionManager })
            &&& all[3].type_text() == connections
            &&& all[3].unique_text() == device + "::"@ + connections
            &&& all[4] == (Advertisement::Service { id, name: ServiceName::ContentDirectory })
            &&& all[4].type_text() == contents
            &&& all[4].unique_text() == device + "::"@ + contents
        }),
{
}

} // verus!
