use vstd::prelude::*;
use vstd::string::StringExecFns;

verus! {

/// The platform the application runs on, resolved once at startup.
#[derive(Debug, Clone, Copy, PartialEq, Eq)]
pub enum Platform {
    Android,
    Ios,
    Windows,
    Linux,
    Macos,
    Other,
}

pub open spec fn device_name_of(p: Platform) -> Seq<char> {
    match p {
        Platform::Android => "Android Device"@,
        Platform::Ios => "iOS Device"@,
        Platform::Windows => "Windows PC"@,
        Platform::Linux => "Linux PC"@,
        Platform::Macos => "Mac"@,
        Platform::Other => "Unknown Device"@,
    }
}

pub open spec fn mobile(p: Platform) -> bool {
    p is Android || p is Ios
}

/// A human-readable name for the device, by platform.
pub fn get_device_name(platform: Platform) -> (r: String)
    ensures
        r@ == device_name_of(platform),
{
    match platform {
        Platform::Android => String::from_str("Android Device"),
        Platform::Ios => String::from_str("iOS Device"),
        Platform::Windows => String::from_str("Windows PC"),
        Platform::Linux => String::from_str("Linux PC"),
        Platform::Macos => String::from_str("Mac"),
        Platform::Other => String::from_str("Unknown Device"),
    }
}

/// Whether the platform is a mobile one.
pub fn is_mobile(platform: Platform) -> (r: bool)
    ensures
        r == mobile(platform),
{
    match platform {
        Platform::Android | Platform::Ios => true,
        _ => false,
    }
}

/// The sync role: mobile devices serve, the others connect as clients.
pub fn get_sync_role(platform: Platform) -> (r: String)
    ensures
        r@ == if mobile(platform) { "server"@ } else { "client"@ },
{
    if is_mobile(platform) {
        String::from_str("server")
    } else {
        String::from_str("client")
    }
}

} // verus!
