//! Records of the vault store that travel through the service unchanged.
use vstd::prelude::*;

verus! {

/// The identifier that a client device reports.
#[derive(Clone, Debug)]
pub struct DeviceID(pub String);

/// A client device registered for an account.
#[derive(Clone, Debug)]
pub struct Device {
    pub id: String,
    pub user_id: Option<String>,
    pub identifier: String,
    pub push_token: Option<String>,
    pub device_type: i32,
    pub name: Option<String>,
    pub created_at: String,
    pub updated_at: String,
}

/// The kinds of client device.
#[allow(non_camel_case_types)]
#[derive(Clone, Copy, Debug, PartialEq, Eq, Structural)]
pub enum DeviceType {
    Android,
    iOS,
    ChromeExtension,
    FirefoxExtension,
    OperaExtension,
    EdgeExtension,
    WindowsDesktop,
    MacOsDesktop,
    LinuxDesktop,
    Web,
    VivaldiExtension,
    SafariExtension,
    SDK,
    Server,
    WindowsStoreDesktop,
    BraveExtension,
    TorExtension,
}

impl DeviceType {
    pub open spec fn spec_code(self) -> i32 {
        match self {
            DeviceType::Android => 0,
            DeviceType::iOS => 1,
            DeviceType::ChromeExtension => 2,
            DeviceType::FirefoxExtension => 3,
            DeviceType::OperaExtension => 4,
            DeviceType::EdgeExtension => 5,
            DeviceType::WindowsDesktop => 6,
            DeviceType::MacOsDesktop => 7,
            DeviceType::LinuxDesktop => 8,
            DeviceType::Web => 9,
            DeviceType::VivaldiExtension => 10,
            DeviceType::SafariExtension => 11,
            DeviceType::SDK => 12,
            DeviceType::Server => 13,
            DeviceType::WindowsStoreDesktop => 14,
            DeviceType::BraveExtension => 15,
            DeviceType::TorExtension => 16,
        }
    }

    /// The number that clients send for this kind of device.
    pub fn code(&self) -> (r: i32)
        ensures
            r == self.spec_code(),
    {
        match self {
            DeviceType::Android => 0,
            DeviceType::iOS => 1,
            DeviceType::ChromeExtension => 2,
            DeviceType::FirefoxExtension => 3,
            DeviceType::OperaExtension => 4,
            DeviceType::EdgeExtension => 5,
            DeviceType::WindowsDesktop => 6,
            DeviceType::MacOsDesktop => 7,
            DeviceType::LinuxDesktop => 8,
            DeviceType::Web => 9,
            DeviceType::VivaldiExtension => 10,
            DeviceType::SafariExtension => 11,
            DeviceType::SDK => 12,
            DeviceType::Server => 13,
            DeviceType::WindowsStoreDesktop => 14,
            DeviceType::BraveExtension => 15,
            DeviceType::TorExtension => 16,
        }
    }

    /// The kind of device that a client's number stands for, if any.
    pub fn from_code(code: i32) -> (r: Option<DeviceType>)
        ensures
            match r {
                Some(t) => t.spec_code() == code,
                None => code < 0 || code > 16,
            },
    {
        match code {
            0 => Some(DeviceType::Android),
            1 => Some(DeviceType::iOS),
            2 => Some(DeviceType::ChromeExtension),
            3 => Some(DeviceType::FirefoxExtension),
            4 => Some(DeviceType::OperaExtension),
            5 => Some(DeviceType::EdgeExtension),
            6 => Some(DeviceType::WindowsDesktop),
            7 => Some(DeviceType::MacOsDesktop),
            8 => Some(DeviceType::LinuxDesktop),
            9 => Some(DeviceType::Web),
            10 => Some(DeviceType::VivaldiExtension),
            11 => Some(DeviceType::SafariExtension),
            12 => Some(DeviceType::SDK),
            13 => Some(DeviceType::Server),
            14 => Some(DeviceType::WindowsStoreDesktop),
            15 => Some(DeviceType::BraveExtension),
            16 => Some(DeviceType::TorExtension),
            _ => None,
        }
    }
}

/// A folder of the vault; its name is encrypted by the client.
#[derive(Clone, Debug)]
pub struct Folder {
    pub id: String,
    pub user_id: String,
    pub name: String,
    pub created_at: String,
    pub updated_at: String,
}

/// A client's request to register its push token.
#[derive(Clone, Debug)]
pub struct PushTokenRequest {
    pub push_token: String,
}

} // verus!
