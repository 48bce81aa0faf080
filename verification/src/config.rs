//! Application configuration: optional overrides plus fixed defaults for the
//! server endpoint, the data folders and the backup retention budget.

use vstd::prelude::*;

use crate::paths::{path_join, spec_path_join, spec_with_extension, with_extension};

verus! {

/// A configuration that defines basic parameters of the application.
///
/// Every field is optional; an absent field means the built-in default.
pub struct Configuration {
    pub server_address: Option<String>,
    pub server_port: Option<String>,
    pub attachment_path: Option<String>,
    pub thumbnail_path: Option<String>,
    pub log_level: Option<String>,
    pub backup_path: Option<String>,
    pub maximum_backups: Option<usize>,
}

impl Default for Configuration {
    /// A configuration where every parameter takes its default.
    fn default() -> (configuration: Configuration)
        ensures
            configuration.server_address is None,
            configuration.server_port is None,
            configuration.attachment_path is None,
            configuration.thumbnail_path is None,
            configuration.log_level is None,
            configuration.backup_path is None,
            configuration.maximum_backups is None,
    {
        Configuration {
            server_address: None,
            server_port: None,
            attachment_path: None,
            thumbnail_path: None,
            log_level: None,
            backup_path: None,
            maximum_backups: None,
        }
    }
}

impl Configuration {
    /// The path to the application configuration folder.
    pub open spec fn spec_configuration_folder_path() -> Seq<char> {
        "application"@
    }

    /// The path to the application configuration file.
    pub open spec fn spec_configuration_file_path() -> Seq<char> {
        spec_with_extension(
            spec_path_join(Self::spec_configuration_folder_path(), "configuration"@),
            "json"@,
        )
    }

    /// The path to the application database file.
    pub open spec fn spec_database_file_path() -> Seq<char> {
        spec_with_extension(
            spec_path_join(Self::spec_configuration_folder_path(), "database"@),
            "sqlite"@,
        )
    }

    /// The path to the application configuration folder.
    pub fn application_configuration_folder_path() -> (path: String)
        ensures
            path@ == Self::spec_configuration_folder_path(),
    {
        "application".to_owned()
    }

    /// The path to the application configuration file.
    pub fn application_configuration_file_path() -> (path: String)
        ensures
            path@ == Self::spec_configuration_file_path(),
    {
        let folder = Self::application_configuration_folder_path();
        let stem = path_join(folder.as_str(), "configuration");
        with_extension(stem.as_str(), "json")
    }

    /// The path to the application database file.
    pub fn application_database_file_path() -> (path: String)
        ensures
            path@ == Self::spec_database_file_path(),
    {
        let folder = Self::application_configuration_folder_path();
        let stem = path_join(folder.as_str(), "database");
        with_extension(stem.as_str(), "sqlite")
    }

    /// The path to the attachments folder: the configured one if any, else
    /// the default inside the configuration folder.
    pub open spec fn spec_attachments_folder_path(&self) -> Seq<char> {
        match self.attachment_path {
            Some(path) => path@,
            None => spec_path_join(Self::spec_configuration_folder_path(), "attachments"@),
        }
    }

    /// The path to the attachments folder.
    pub fn application_attachments_folder_path(&self) -> (path: String)
        ensures
            path@ == self.spec_attachments_folder_path(),
    {
        match &self.attachment_path {
            Some(configured) => configured.clone(),
            None => {
                let folder = Self::application_configuration_folder_path();
                path_join(folder.as_str(), "attachments")
            },
        }
    }

    /// The path to the thumbnail folder: the configured one if any, else the
    /// default inside the configuration folder.
    pub open spec fn spec_thumbnail_folder_path(&self) -> Seq<char> {
        match self.thumbnail_path {
            Some(path) => path@,
            None => spec_path_join(Self::spec_configuration_folder_path(), "thumbnails"@),
        }
    }

    /// The path to the thumbnail folder.
    pub fn application_thumbnail_folder_path(&self) -> (path: String)
        ensures
            path@ == self.spec_thumbnail_folder_path(),
    {
        match &self.thumbnail_path {
            Some(configured) => configured.clone(),
            None => {
                let folder = Self::application_configuration_folder_path();
                path_join(folder.as_str(), "thumbnails")
            },
        }
    }

    /// The path to the backup folder: the configured one if any, else the
    /// default inside the configuration folder.
    pub open spec fn spec_backup_folder_path(&self) -> Seq<char> {
        match self.backup_path {
            Some(path) => path@,
            None => spec_path_join(Self::spec_configuration_folder_path(), "backups"@),
        }
    }

    /// The path to the backup folder.
    pub fn application_backup_folder_path(&self) -> (path: String)
        ensures
            path@ == self.spec_backup_folder_path(),
    {
        match &self.backup_path {
            Some(configured) => configured.clone(),
            None => {
                let folder = Self::application_configuration_folder_path();
                path_join(folder.as_str(), "backups")
            },
        }
    }

    /// The address of the server: the configured one, else the default.
    pub open spec fn spec_server_address(&self) -> Seq<char> {
        match self.server_address {
            Some(address) => address@,
            None => "127.0.0.1"@,
        }
    }

    /// Returns the address of the server.
    pub fn server_address(&self) -> (address: String)
        ensures
            address@ == self.spec_server_address(),
    {
        match &self.server_address {
            Some(configured) => configured.clone(),
            None => "127.0.0.1".to_owned(),
        }
    }

    /// The port of the server: the configured one, else the default.
    pub open spec fn spec_server_port(&self) -> Seq<char> {
        match self.server_port {
            Some(port) => port@,
            None => "8080"@,
        }
    }

    /// Returns the port of the server.
    pub fn server_port(&self) -> (port: String)
        ensures
            port@ == self.spec_server_port(),
    {
        match &self.server_port {
            Some(configured) => configured.clone(),
            None => "8080".to_owned(),
        }
    }

    /// Returns the full server address including port information, separated
    /// by a colon.
    pub fn server_address_and_port(&self) -> (endpoint: String)
        ensures
            endpoint@ == self.spec_server_address() + ":"@ + self.spec_server_port(),
    {
        let mut endpoint = self.server_address();
        endpoint.append(":");
        let port = self.server_port();
        endpoint.append(port.as_str());
        endpoint
    }

    /// The maximum number of backups: the configured one, else the default
    /// of three.
    pub open spec fn spec_maximum_backups(&self) -> usize {
        match self.maximum_backups {
            Some(maximum) => maximum,
            None => 3,
        }
    }

    /// Returns the maximum number of backups to retain.
    pub fn maximum_backups(&self) -> (maximum: usize)
        ensures
            maximum == self.spec_maximum_backups(),
    {
        match self.maximum_backups {
            Some(configured) => configured,
            None => 3,
        }
    }

    /// The widths, in pixels, that thumbnails are offered in; width zero
    /// stands for the original size.
    pub open spec fn spec_thumbnail_widths() -> Seq<u32> {
        seq![0u32, 100u32, 200u32, 400u32, 600u32, 800u32, 1000u32]
    }

    /// The available thumbnail widths.
    pub fn thumbnail_widths() -> (widths: Vec<u32>)
        ensures
            widths@ == Self::spec_thumbnail_widths(),
    {
        let mut widths: Vec<u32> = Vec::new();
        widths.push(0);
        widths.push(100);
        widths.push(200);
        widths.push(400);
        widths.push(600);
        widths.push(800);
        widths.push(1000);
        proof {
            assert(widths@ =~= Self::spec_thumbnail_widths());
        }
        widths
    }
}

} // verus!
