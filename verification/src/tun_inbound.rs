//! The decisions that set up a TUN inbound from its settings: which fake-DNS
//! mode runs with which filters, and how the TUN device is configured.

use vstd::prelude::*;

verus! {

/// The settings of a TUN inbound.
pub struct TunInboundSettings {
    /// An open TUN file descriptor to use, or a negative number for none.
    pub fd: i32,
    /// Whether to create a device with the default name and addresses.
    pub auto: bool,
    pub name: String,
    pub address: String,
    pub gateway: String,
    pub netmask: String,
    pub mtu: i32,
    /// Domains that fake DNS must leave alone.
    pub fake_dns_exclude: Vec<String>,
    /// Domains that fake DNS answers, the others being left alone.
    pub fake_dns_include: Vec<String>,
}

/// Whether fake DNS answers only the filtered domains or all but them.
#[derive(Clone, Copy, PartialEq, Eq, Debug, Hash, Structural)]
pub enum FakeDnsMode {
    Include,
    Exclude,
}

/// How the TUN device is obtained.
pub enum TunDeviceConfig {
    /// Use the already open device with this file descriptor.
    RawFd(i32),
    /// Create a device with the default name, addresses and netmask, and an
    /// MTU of `DEFAULT_TUN_MTU`.
    Auto,
    /// Create a device as the settings describe it.
    Manual { name: String, address: String, gateway: String, netmask: String, mtu: i32 },
}

/// The MTU of a device that is created with the defaults.
pub const DEFAULT_TUN_MTU: i32 = 1500;

/// What a TUN inbound runs with.
pub struct TunInboundPlan {
    pub fake_dns_mode: FakeDnsMode,
    pub fake_dns_filters: Vec<String>,
    pub device: TunDeviceConfig,
}

/// Why TUN inbound settings are refused.
#[derive(Clone, Copy, PartialEq, Eq, Debug, Hash, Structural)]
pub enum TunInboundError {
    /// Both an include list and an exclude list were given for fake DNS.
    FakeDnsModeConflict,
}

impl TunInboundError {
    /// The message that describes the error.
    pub fn message(&self) -> (r: String)
        ensures
            r@ == "fake DNS run in either include mode or exclude mode"@,
    {
        String::from_str("fake DNS run in either include mode or exclude mode")
    }
}

/// The device configuration that the settings ask for: an open descriptor
/// first, then the defaults, then the settings' own name and addresses.
pub open spec fn device_for(settings: TunInboundSettings) -> TunDeviceConfig {
    if settings.fd >= 0 {
        TunDeviceConfig::RawFd(settings.fd)
    } else if settings.auto {
        TunDeviceConfig::Auto
    } else {
        TunDeviceConfig::Manual {
            name: settings.name,
            address: settings.address,
            gateway: settings.gateway,
            netmask: settings.netmask,
            mtu: settings.mtu,
        }
    }
}

/// An open descriptor is used as it is; without one, `auto` asks for the
/// default device; otherwise the device is created with exactly the name,
/// addresses, netmask and MTU of the settings.
pub proof fn law_device_follows_settings(settings: TunInboundSettings)
    ensures
        settings.fd >= 0 ==> device_for(settings) == TunDeviceConfig::RawFd(settings.fd),
        settings.fd < 0 && settings.auto ==> device_for(settings) == TunDeviceConfig::Auto,
        settings.fd < 0 && !settings.auto ==> device_for(settings) == (TunDeviceConfig::Manual {
            name: settings.name, address: settings.address, gateway: settings.gateway, netmask: settings.netmask, mtu: settings.mtu,
        }),
{
}

/// Whether the settings give both fake-DNS lists.
pub open spec fn fake_dns_conflict(settings: TunInboundSettings) -> bool {
    settings.fake_dns_exclude.len() != 0 && settings.fake_dns_include.len() != 0
}

/// Whether the settings give both fake-DNS lists, which `plan_tun_inbound`
/// refuses.
pub fn has_fake_dns_conflict(settings: &TunInboundSettings) -> (r: bool)
    ensures
        r == fake_dns_conflict(*settings),
{
    settings.fake_dns_exclude.len() != 0 && settings.fake_dns_include.len() != 0
}

/// Decides how a TUN inbound runs. Settings with both fake-DNS lists are
/// refused; otherwise a non-empty include list selects include mode with its
/// domains, and exclude mode runs with the exclude list. An automatically
/// created device cannot be combined with a file descriptor.
pub fn plan_tun_inbound(settings: TunInboundSettings) -> (res: Result<TunInboundPlan, TunInboundError>)
    requires
        !fake_dns_conflict(settings) ==> (settings.auto ==> settings.fd == -1),
    ensures
        res is Err <==> fake_dns_conflict(settings),
        res matches Err(e) ==> e == TunInboundError::FakeDnsModeConflict,
        res matches Ok(plan) ==> {
            &&& plan.fake_dns_mode == (if settings.fake_dns_include.len() != 0 {
                FakeDnsMode::Include
            } else {
                FakeDnsMode::Exclude
            })
            &&& plan.fake_dns_filters == (if settings.fake_dns_include.len() != 0 {
                settings.fake_dns_include
            } else {
                settings.fake_dns_exclude
            })
            &&& plan.device == device_for(settings)
        },
        settings.fd >= 0 ==> (res matches Ok(plan) ==> plan.device == TunDeviceConfig::RawFd(settings.fd)),
        settings.fd < 0 && settings.auto ==> (res matches Ok(plan) ==> plan.device == TunDeviceConfig::Auto),
        settings.fd < 0 && !settings.auto ==> (res matches Ok(plan) ==> plan.device == (TunDeviceConfig::Manual {
            name: settings.name, address: settings.address, gateway: settings.gateway, netmask: settings.netmask, mtu: settings.mtu,
        })),
{
    let TunInboundSettings { fd, auto, name, address, gateway, netmask, mtu, fake_dns_exclude, fake_dns_include } =
        settings;
    if fake_dns_exclude.len() != 0 && fake_dns_include.len() != 0 {
        return Err(TunInboundError::FakeDnsModeConflict);
    }
    let (fake_dns_mode, fake_dns_filters) = if fake_dns_include.len() != 0 {
        (FakeDnsMode::Include, fake_dns_include)
    } else {
        (FakeDnsMode::Exclude, fake_dns_exclude)
    };
    let device = if fd >= 0 {
        TunDeviceConfig::RawFd(fd)
    } else if auto {
        TunDeviceConfig::Auto
    } else {
        TunDeviceConfig::Manual { name, address, gateway, netmask, mtu }
    };
    Ok(TunInboundPlan { fake_dns_mode, fake_dns_filters, device })
}

} // verus!
