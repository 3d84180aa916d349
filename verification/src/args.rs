//! What is asked for on the command line.
use crate::config::{AsstConfig, ConnectionConfig, ResourceConfig};
use vstd::prelude::*;

verus! {

/// What every command that runs tasks takes.
#[derive(Debug, PartialEq, Eq)]
pub struct CommonArgs {
    /// The device's serial number or the address of MaaTools, over that of the profile.
    pub addr: Option<String>,
    /// The profile's name.
    pub profile: Option<String>,
    /// Whether to load the user's own resources as well.
    pub user_resource: bool,
    /// Whether to read the configuration only and not to connect.
    pub dry_run: bool,
    /// Whether to leave the summary out.
    pub no_summary: bool,
    /// Whether to stay disconnected once the game has lost its server.
    pub no_auto_reconnect: bool,
}

/// What the connection test takes.
#[derive(Debug, PartialEq, Eq)]
pub struct ConnectionTestArgs {
    /// The profile's name.
    pub profile: Option<String>,
    /// Whether to take a screenshot once connected.
    pub screencap: bool,
    /// Whether to report in JSON.
    pub json: bool,
    /// Whether to report only what the test can do.
    pub capabilities: bool,
}

impl Default for CommonArgs {
    fn default() -> (args: Self)
        ensures
            args == (CommonArgs {
                addr: None,
                profile: None,
                user_resource: false,
                dry_run: false,
                no_summary: false,
                no_auto_reconnect: false,
            }),
    {
        CommonArgs {
            addr: None,
            profile: None,
            user_resource: false,
            dry_run: false,
            no_summary: false,
            no_auto_reconnect: false,
        }
    }
}

impl Default for ConnectionTestArgs {
    fn default() -> (args: Self)
        ensures
            args == (ConnectionTestArgs {
                profile: None,
                screencap: false,
                json: false,
                capabilities: false,
            }),
    {
        ConnectionTestArgs { profile: None, screencap: false, json: false, capabilities: false }
    }
}

/// `config` as it is once `args` are applied to it.
pub open spec fn applied(args: CommonArgs, config: AsstConfig) -> AsstConfig {
    AsstConfig {
        connection: ConnectionConfig {
            preset: config.connection.preset,
            address: match args.addr {
                Some(address) => Some(address),
                None => config.connection.address,
            },
        },
        resource: ResourceConfig {
            user_resource: args.user_resource || config.resource.user_resource,
        },
        behavior: config.behavior,
    }
}

impl CommonArgs {
    /// Lets what was asked for take the place of what is configured.
    pub fn apply_to(&self, config: &mut AsstConfig)
        ensures
            *final(config) == applied(*self, *old(config)),
            final(config).connection.address == if self.addr is Some {
                self.addr
            } else {
                old(config).connection.address
            },
            final(config).resource.user_resource == (self.user_resource
                || old(config).resource.user_resource),
            final(config).connection.preset == old(config).connection.preset,
            final(config).behavior == old(config).behavior,
    {
        if let Some(address) = &self.addr {
            config.connection.set_address(address.clone());
        }
        if self.user_resource {
            config.resource.use_user_resource();
        }
    }
}

/// To apply arguments again changes nothing.
pub proof fn law_applying_twice_is_applying_once(args: CommonArgs, config: AsstConfig)
    ensures
        applied(args, applied(args, config)) == applied(args, config),
{
}

/// Arguments that ask for no address and no resources leave the configuration as it is.
pub proof fn law_silent_arguments_change_nothing(args: CommonArgs, config: AsstConfig)
    requires
        args.addr is None,
        !args.user_resource,
    ensures
        applied(args, config) == config,
{
}

/// Arguments change neither the kind of connection nor the behavior.
pub proof fn law_arguments_keep_the_preset(args: CommonArgs, config: AsstConfig)
    ensures
        applied(args, config).connection.preset == config.connection.preset,
        applied(args, config).behavior == config.behavior,
        config.resource.user_resource ==> applied(args, config).resource.user_resource,
{
}

/// An address that is asked for is the one that is used, whatever else is asked for, and where
/// none is the configured one stays. Resources of the user's own are loaded where they are asked
/// for or configured. Everything else stays as it is configured.
pub proof fn law_what_is_asked_for_is_used(args: CommonArgs, config: AsstConfig)
    ensures
        args.addr matches Some(address) ==> applied(args, config).connection.address == Some(
            address,
        ),
        args.addr is None ==> applied(args, config).connection.address
            == config.connection.address,
        applied(args, config).resource.user_resource <==> (args.user_resource
            || config.resource.user_resource),
        applied(args, config).connection.preset == config.connection.preset,
        applied(args, config).behavior.auto_reconnect == config.behavior.auto_reconnect,
{
}

/// Of two sets of arguments applied one after the other, an address of the second is used, else
/// one of the first, else the configured one.
pub proof fn law_later_arguments_win(first: CommonArgs, second: CommonArgs, config: AsstConfig)
    ensures
        ({
            let address = applied(second, applied(first, config)).connection.address;
            &&& second.addr is Some ==> address == second.addr
            &&& second.addr is None && first.addr is Some ==> address == first.addr
            &&& second.addr is None && first.addr is None ==> address == config.connection.address
        }),
        applied(second, applied(first, config)).resource.user_resource <==> (
        first.user_resource || second.user_resource || config.resource.user_resource),
{
}

} // verus!
