//! What holds of the settings of a connection.

use crate::connection::{Encryption, Settings, Trust};
use crate::text::decimal;
use vstd::prelude::*;

verus! {

/// A new configuration sets nothing and requires encryption.
pub proof fn new_settings_are_empty()
    ensures
        Settings::initial().host is None,
        Settings::initial().port is None,
        Settings::initial().database is None,
        Settings::initial().instance_name is None,
        Settings::initial().application_name is None,
        Settings::initial().encryption == Encryption::Required,
        Settings::initial().trust == Trust::System,
        !Settings::initial().authenticated,
        !Settings::initial().readonly,
{
}

/// The address is the host, a colon and the port. A lone dot, or no host, is the local
/// host; the port is 1433 where none is set, or 1434 where an instance is named.
pub proof fn addresses_are_host_and_port(settings: Settings)
    ensures
        ({
            let host = if settings.host is None || settings.host == Some(seq!['.']) {
                seq!['l', 'o', 'c', 'a', 'l', 'h', 'o', 's', 't']
            } else {
                settings.host->0
            };
            let port: int = if settings.port is Some {
                settings.port->0 as int
            } else if settings.instance_name is Some {
                1434
            } else {
                1433
            };
            settings.address() == host + seq![':'] + decimal(port as nat)
        }),
{
    reveal_strlit(".");
    reveal_strlit("localhost");
    assert("."@ =~= seq!['.']);
    assert("localhost"@ =~= seq!['l', 'o', 'c', 'a', 'l', 'h', 'o', 's', 't']);
}

} // verus!
