//! The canonical loopback connection.

use vstd::prelude::*;
use crate::ident::fresh_uuid;
use crate::model::{Connection, ConnectionConfig, ConnectionView, IpAddr, IpConfig, IpConfigView,
    IpInet, IpMethod, MatchConfig, MatchConfigView};

verus! {

/// 127.0.0.1/8
pub open spec fn loopback_inet4() -> IpInet {
    IpInet { address: IpAddr::V4(0x7f00_0001), prefix: 8 }
}

/// ::1/128
pub open spec fn loopback_inet6() -> IpInet {
    IpInet { address: IpAddr::V6(1), prefix: 128 }
}

/// The loopback connection as it is made when the system has none: id and
/// interface `lo`, both protocols manual, the two loopback addresses, and
/// nothing else set.
pub open spec fn canonical_loopback(uuid: u128) -> ConnectionView {
    ConnectionView {
        id: "lo"@,
        uuid,
        interface: Some("lo"@),
        controller: None,
        ip_config: IpConfigView {
            method4: IpMethod::Manual,
            method6: IpMethod::Manual,
            addresses: seq![loopback_inet4(), loopback_inet6()],
            ..IpConfigView::empty()
        },
        match_config: MatchConfigView::by_name(),
        firewall_zone: None,
        config: ConnectionConfig::Loopback,
    }
}

/// The canonical loopback connection under the given uuid.
pub fn loopback_connection(uuid: u128) -> (r: Connection)
    ensures
        r@ == canonical_loopback(uuid),
{
    let mut ip_config = IpConfig::empty();
    ip_config.method4 = IpMethod::Manual;
    ip_config.method6 = IpMethod::Manual;
    ip_config.addresses.push(IpInet { address: IpAddr::V4(0x7f00_0001), prefix: 8 });
    ip_config.addresses.push(IpInet { address: IpAddr::V6(1), prefix: 128 });
    assert(ip_config@.addresses =~= seq![loopback_inet4(), loopback_inet6()]);
    Connection {
        id: "lo".to_owned(),
        uuid,
        interface: Some("lo".to_owned()),
        controller: None,
        ip_config,
        match_config: MatchConfig::by_name(),
        firewall_zone: None,
        config: ConnectionConfig::Loopback,
    }
}

/// The canonical loopback connection under a fresh uuid.
pub fn create_lo_connection() -> (r: Connection)
    ensures
        r@ == canonical_loopback(r@.uuid),
{
    loopback_connection(fresh_uuid())
}

} // verus!
