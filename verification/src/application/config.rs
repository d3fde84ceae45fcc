//! How the service is set up.

use vstd::prelude::*;

verus! {

/// What the service is told at its start.
#[derive(Debug, PartialEq, Eq)]
pub struct TransferConfig {
    pub config_directory: String,
    pub receive_directory: String,
    pub device_name: String,
    pub listen_port: u16,
    pub platform: String,
    pub model: String,
}

/// The mathematical value of a [`TransferConfig`].
pub struct ConfigModel {
    pub config_directory: Seq<char>,
    pub receive_directory: Seq<char>,
    pub device_name: Seq<char>,
    pub listen_port: u16,
    pub platform: Seq<char>,
    pub model: Seq<char>,
}

impl View for TransferConfig {
    type V = ConfigModel;

    open spec fn view(&self) -> ConfigModel {
        ConfigModel {
            config_directory: self.config_directory@,
            receive_directory: self.receive_directory@,
            device_name: self.device_name@,
            listen_port: self.listen_port,
            platform: self.platform@,
            model: self.model@,
        }
    }
}

/// `hostname::get`: the name of this machine, or nothing where it has none;
/// which name that is depends on the machine alone.
#[verifier::external_body]
fn host_name() -> String {
    hostname::get().unwrap_or_default().to_string_lossy().into_owned()
}

impl TransferConfig {
    /// A setup on any free port, on a machine of that platform and model.
    pub fn described(
        config_directory: String,
        receive_directory: String,
        device_name: String,
        platform: String,
        model: String,
    ) -> (config: TransferConfig)
        ensures
            config@ == (ConfigModel {
                config_directory: config_directory@,
                receive_directory: receive_directory@,
                device_name: device_name@,
                listen_port: 0,
                platform: platform@,
                model: model@,
            }),
    {
        TransferConfig {
            config_directory,
            receive_directory,
            device_name,
            listen_port: 0,
            platform,
            model,
        }
    }

    /// A setup on any free port, on this machine, which gives its name as the
    /// model.
    pub fn new(
        config_directory: String,
        receive_directory: String,
        device_name: String,
        platform: String,
    ) -> (config: TransferConfig)
        ensures
            config@ == (ConfigModel {
                config_directory: config_directory@,
                receive_directory: receive_directory@,
                device_name: device_name@,
                listen_port: 0,
                platform: platform@,
                model: config.model@,
            }),
    {
        TransferConfig::described(
            config_directory,
            receive_directory,
            device_name,
            platform,
            host_name(),
        )
    }
}

} // verus!
