//! The local storage backend: assets are written under a storage mount
//! point and served from a configured base URL.
//!
//! Construction validates the configuration eagerly; planning a transfer
//! resolves the asset's on-disk save path and its public URL. The file I/O
//! itself is left to the unverified shell, which executes the returned plan.

use vstd::prelude::*;

use crate::assets::AssetInfo;
use crate::assets::AssetView;
use crate::assets::DataType;
use crate::config::ConfigData;
use crate::errors::UploadError;
use crate::paths::save_path;
use crate::paths::save_path_seq;
use crate::paths::web_path;
use crate::paths::web_path_seq;
use crate::urls::join_url;
use crate::urls::normalize_url;
use crate::urls::url_joined;
use crate::urls::url_normalized;

verus! {

/// The base URL used when the configuration names no domain.
pub open spec fn default_domain() -> Seq<char> {
    "http://localhost:8910"@
}

/// The I/O a single transfer needs: copy a file from a source path, or
/// write inline content, to the plan's save path.
pub enum IoAction {
    CopyFrom(String),
    WriteContent(String),
}

/// Mathematical image of an `IoAction`.
pub enum IoActionView {
    CopyFrom(Seq<char>),
    WriteContent(Seq<char>),
}

impl View for IoAction {
    type V = IoActionView;

    open spec fn view(&self) -> IoActionView {
        match self {
            IoAction::CopyFrom(p) => IoActionView::CopyFrom(p@),
            IoAction::WriteContent(c) => IoActionView::WriteContent(c@),
        }
    }
}

/// Everything one asset's transfer needs, resolved ahead of the I/O: the
/// asset's identifier, the absolute save path, the I/O to perform, and the
/// public URL the asset will be reachable under.
pub struct SendPlan {
    pub asset_id: String,
    pub save_path: String,
    pub io: IoAction,
    pub url: String,
}

/// Mathematical image of a `SendPlan`.
pub struct SendPlanView {
    pub asset_id: Seq<char>,
    pub save_path: Seq<char>,
    pub io: IoActionView,
    pub url: Seq<char>,
}

impl View for SendPlan {
    type V = SendPlanView;

    open spec fn view(&self) -> SendPlanView {
        SendPlanView {
            asset_id: self.asset_id@,
            save_path: self.save_path@,
            io: self.io@,
            url: self.url@,
        }
    }
}

/// The I/O an asset of the given kind needs: metadata is written from its
/// inline content, images and animations are copied from their file path.
pub open spec fn planned_io(asset: AssetView) -> IoActionView {
    match asset.data_type {
        DataType::Metadata => IoActionView::WriteContent(asset.content),
        _ => IoActionView::CopyFrom(asset.content),
    }
}

/// The local storage backend: a storage directory and a validated base URL.
pub struct LocalMethod {
    pub directory: String,
    pub domain: String,
}

impl LocalMethod {
    /// Builds the backend from configuration, eagerly rejecting a missing
    /// local section or a malformed domain URL. Succeeds exactly when the
    /// local section is present and its domain, if any, is an absolute URL;
    /// an absent domain falls back to the default local endpoint.
    pub fn new(config_data: &ConfigData) -> (r: Result<Self, UploadError>)
        ensures
            r is Ok <==> (config_data.local_config is Some && match config_data.local_config {
                Some(c) => match c.domain {
                    Some(d) => url_normalized(d@) is Some,
                    None => true,
                },
                None => false,
            }),
            r is Ok ==> r->Ok_0.directory@ == config_data.local_config->0.directory@,
            r is Ok ==> r->Ok_0.domain@ == (match config_data.local_config->0.domain {
                Some(d) => url_normalized(d@)->0,
                None => default_domain(),
            }),
            r is Err ==> r->Err_0 is Config,
    {
        match &config_data.local_config {
            Some(config) => {
                let domain = match &config.domain {
                    Some(d) => match normalize_url(d.as_str()) {
                        Ok(url) => url,
                        Err(error) => {
                            let msg = String::from_str("Malformed domain URL (").concat(
                                error.as_str(),
                            ).concat(")");
                            return Err(UploadError::Config(msg));
                        },
                    },
                    None => String::from_str("http://localhost:8910"),
                };
                Ok(LocalMethod { directory: config.directory.clone(), domain })
            },
            None => Err(
                UploadError::Config(String::from_str("Missing local config value in config file.")),
            ),
        }
    }

    /// Resolves one asset's transfer: the save path under the storage mount
    /// point, the I/O to perform, and the public URL, which is the
    /// configured base joined with the asset's relative web path. Succeeds
    /// exactly when the base URL accepts the relative path; otherwise the
    /// asset fails with a path-encoding error.
    pub fn send_plan(&self, asset_info: &AssetInfo) -> (r: Result<SendPlan, UploadError>)
        ensures
            r is Ok <==> url_joined(
                self.domain@,
                web_path_seq(self.directory@, asset_info.name@),
            ) is Some,
            r is Ok ==> r->Ok_0@ == (SendPlanView {
                asset_id: asset_info.asset_id@,
                save_path: save_path_seq(self.directory@, asset_info.name@),
                io: planned_io(asset_info@),
                url: url_joined(self.domain@, web_path_seq(self.directory@, asset_info.name@))->0,
            }),
            r is Err ==> r->Err_0 is PathEncoding,
    {
        let web = web_path(self.directory.as_str(), asset_info.name.as_str());
        let save = save_path(self.directory.as_str(), asset_info.name.as_str());
        match join_url(self.domain.as_str(), web.as_str()) {
            Ok(url) => {
                let io = match asset_info.data_type {
                    DataType::Metadata => IoAction::WriteContent(asset_info.content.clone()),
                    DataType::Image => IoAction::CopyFrom(asset_info.content.clone()),
                    DataType::Animation => IoAction::CopyFrom(asset_info.content.clone()),
                };
                Ok(
                    SendPlan {
                        asset_id: asset_info.asset_id.clone(),
                        save_path: save,
                        io,
                        url,
                    },
                )
            },
            Err(error) => {
                let msg = String::from_str("Failed to resolve asset URL (").concat(
                    error.as_str(),
                ).concat(")");
                Err(UploadError::PathEncoding(msg))
            },
        }
    }
}

} // verus!
