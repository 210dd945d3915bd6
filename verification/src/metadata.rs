//! User-facing metadata of a recovery device and where it comes from.

use crate::descriptor::RecoveryDeviceInfo;
use vstd::prelude::*;

verus! {

/// Optional, application-provided metadata for a parsed recovery device.
#[derive(Debug, PartialEq, Eq)]
pub struct DeviceMetadata {
    pub model_identifier: &'static str,
    pub board: &'static str,
    pub marketing_name: &'static str,
    pub display_name: &'static str,
}

impl Clone for DeviceMetadata {
    fn clone(&self) -> (copy: DeviceMetadata)
        ensures
            copy == *self,
    {
        DeviceMetadata {
            model_identifier: self.model_identifier,
            board: self.board,
            marketing_name: self.marketing_name,
            display_name: self.display_name,
        }
    }
}

/// Resolves parsed recovery identifiers into user-facing device metadata.
///
/// Applications implement it. Nothing is assumed of what an implementation
/// returns, nor that it returns the same twice.
pub trait DeviceMetadataResolver: Sync {
    fn resolve(&self, info: &RecoveryDeviceInfo) -> Option<DeviceMetadata>;
}

/// `metadata` is what the resolver gave for `info`, or nothing where there is
/// no resolver.
pub open spec fn resolution<R: DeviceMetadataResolver + ?Sized>(
    resolver: Option<&R>,
    info: &RecoveryDeviceInfo,
    metadata: Option<DeviceMetadata>,
) -> bool {
    match resolver {
        Some(resolver) => call_ensures(R::resolve, (resolver, info), metadata),
        None => metadata is None,
    }
}

/// Asks the resolver, if there is one, about `info`.
pub(crate) fn resolve_optional<R: DeviceMetadataResolver + ?Sized>(
    resolver: Option<&R>,
    info: &RecoveryDeviceInfo,
) -> (metadata: Option<DeviceMetadata>)
    ensures
        resolution(resolver, info, metadata),
{
    match resolver {
        Some(resolver) => resolver.resolve(info),
        None => None,
    }
}

/// The board of the metadata, or else the board that the descriptor names.
pub open spec fn model_of(
    metadata: Option<DeviceMetadata>,
    srtg: Option<Seq<char>>,
) -> Option<Seq<char>> {
    match metadata {
        Some(metadata) => Some(metadata.board@),
        None => srtg,
    }
}

/// The name to show for a device with this metadata.
pub open spec fn name_of(metadata: Option<DeviceMetadata>) -> Seq<char> {
    match metadata {
        Some(metadata) => metadata.display_name@,
        None => "Unknown Device"@,
    }
}

/// The characters of the board that the descriptor of `info` names.
pub open spec fn srtg_of(info: Option<&RecoveryDeviceInfo>) -> Option<Seq<char>> {
    match info {
        Some(info) => info@.srtg,
        None => None,
    }
}

/// Picks the hardware model out of the metadata or the descriptor.
pub(crate) fn select_hardware_model<'a>(
    metadata: &'a Option<DeviceMetadata>,
    info: Option<&'a RecoveryDeviceInfo>,
) -> (model: Option<&'a str>)
    ensures
        crate::descriptor::str_view(model) == model_of(*metadata, srtg_of(info)),
{
    match metadata {
        Some(metadata) => Some(metadata.board),
        None => match info {
            Some(info) => match &info.srtg {
                Some(board) => Some(board.as_str()),
                None => None,
            },
            None => None,
        },
    }
}

/// Picks the display name out of the metadata.
pub(crate) fn select_display_name(metadata: &Option<DeviceMetadata>) -> (name: &'static str)
    ensures
        name@ == name_of(*metadata),
{
    match metadata {
        Some(metadata) => metadata.display_name,
        None => "Unknown Device",
    }
}

} // verus!
