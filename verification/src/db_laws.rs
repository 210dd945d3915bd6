//! Which entry of a device table a descriptor is resolved to.

use crate::db::DeviceDatabaseInfo;
use crate::descriptor::RecoveryDeviceInfo;
use crate::metadata::{DeviceMetadata, DeviceMetadataResolver};
use vstd::prelude::*;

verus! {

/// The descriptor names the board of the entry, in whatever case.
pub open spec fn names_board(info: RecoveryDeviceInfo, entry: DeviceDatabaseInfo) -> bool {
    info.srtg matches Some(srtg) && crate::text::same_ignoring_ascii_case(srtg@, entry.board@)
}

/// The BDID of the descriptor is the first number of the entry, and its CPID the
/// second; both must be there.
pub open spec fn has_numbers(info: RecoveryDeviceInfo, entry: DeviceDatabaseInfo) -> bool {
    info.bdid is Some && info.cpid is Some && info.bdid->0 as int == entry.cpid as int
        && info.cpid->0 as int == entry.bdid as int
}

/// `metadata` has the four texts of the entry, each in its place.
pub open spec fn has_texts(metadata: DeviceMetadata, entry: DeviceDatabaseInfo) -> bool {
    &&& metadata.model_identifier@ == entry.model_identifier@
    &&& metadata.board@ == entry.board@
    &&& metadata.marketing_name@ == entry.marketing_name@
    &&& metadata.display_name@ == entry.display_name@
}

/// An entry whose board the descriptor names is taken before any other, and the
/// first of them; if there is none, the first that has both numbers of the
/// descriptor is; and if there is none of these either, nothing is.
pub proof fn law_resolved_entry(
    entries: &[DeviceDatabaseInfo],
    info: &RecoveryDeviceInfo,
    metadata: Option<DeviceMetadata>,
    i: int,
)
    requires
        call_ensures(
            <&[DeviceDatabaseInfo] as DeviceMetadataResolver>::resolve,
            (&entries, info),
            metadata,
        ),
    ensures
        0 <= i < entries@.len() && names_board(*info, entries@[i]) && (forall|j: int|
            0 <= j < i ==> !names_board(*info, #[trigger] entries@[j])) ==> (metadata matches Some(
            metadata,
        ) && has_texts(metadata, entries@[i])),
        0 <= i < entries@.len() && has_numbers(*info, entries@[i]) && (forall|j: int|
            0 <= j < i ==> !has_numbers(*info, #[trigger] entries@[j])) && (forall|j: int|
            0 <= j < entries@.len() ==> !names_board(*info, #[trigger] entries@[j])) ==> (
        metadata matches Some(metadata) && has_texts(metadata, entries@[i])),
        (forall|j: int|
            0 <= j < entries@.len() ==> !names_board(*info, #[trigger] entries@[j]) && !has_numbers(
                *info,
                entries@[j],
            )) ==> metadata is None,
{
    assert forall|j: int| 0 <= j < entries@.len() implies crate::db::board_matches(
        #[trigger] entries@[j],
        *info,
    ) == names_board(*info, entries@[j]) && crate::db::numbers_match(entries@[j], *info)
        == has_numbers(*info, entries@[j]) by {}
    if 0 <= i < entries@.len() && names_board(*info, entries@[i]) && (forall|j: int|
        0 <= j < i ==> !names_board(*info, #[trigger] entries@[j])) {
        assert(crate::db::board_matches(entries@[i], *info));
        assert(crate::db::is_entry_for(entries@, *info, i));
    }
    if 0 <= i < entries@.len() && has_numbers(*info, entries@[i]) && (forall|j: int|
        0 <= j < i ==> !has_numbers(*info, #[trigger] entries@[j])) && (forall|j: int|
        0 <= j < entries@.len() ==> !names_board(*info, #[trigger] entries@[j])) {
        assert(crate::db::no_board_matches(entries@, *info));
        assert(crate::db::is_entry_for(entries@, *info, i));
    }
    if metadata is Some {
        let k = choose|k: int| #[trigger]
            crate::db::is_entry_for(entries@, *info, k) && metadata == Some(
                crate::db::metadata_of(entries@[k]),
            );
        if crate::db::is_entry_for(entries@, *info, i) {
            crate::db::law_entry_is_unique(entries@, *info, i, k);
        }
        if forall|j: int|
            0 <= j < entries@.len() ==> !names_board(*info, #[trigger] entries@[j]) && !has_numbers(
                *info,
                entries@[j],
            ) {
            assert(names_board(*info, entries@[k]) || has_numbers(*info, entries@[k]));
        }
    }
}

/// What is resolved comes of an entry whose board the descriptor names, or, if
/// it names none, of an entry with both of its numbers.
pub proof fn law_resolved_entry_matches(
    entries: &[DeviceDatabaseInfo],
    info: &RecoveryDeviceInfo,
    metadata: DeviceMetadata,
)
    requires
        call_ensures(
            <&[DeviceDatabaseInfo] as DeviceMetadataResolver>::resolve,
            (&entries, info),
            Some(metadata),
        ),
    ensures
        exists|i: int|
            0 <= i < entries@.len() && has_texts(metadata, #[trigger] entries@[i]) && (names_board(
                *info,
                entries@[i],
            ) || (info.bdid == Some(entries@[i].cpid as u32) && info.cpid == Some(
                entries@[i].bdid as u32,
            ) && forall|j: int|
                0 <= j < entries@.len() ==> !names_board(*info, #[trigger] entries@[j]))),
{
    let k = choose|k: int| #[trigger]
        crate::db::is_entry_for(entries@, *info, k) && metadata == crate::db::metadata_of(
            entries@[k],
        );
    assert(has_texts(metadata, entries@[k]));
    if crate::db::no_board_matches(entries@, *info) {
        assert forall|j: int| 0 <= j < entries@.len() implies !names_board(
            *info,
            #[trigger] entries@[j],
        ) by {
            assert(!crate::db::board_matches(entries@[j], *info));
        }
    }
}

} // verus!
