//! Device tables, their resolver, and the bundled table of one device.

use crate::descriptor::RecoveryDeviceInfo;
use crate::metadata::{DeviceMetadata, DeviceMetadataResolver};
use crate::text::eq_ignore_ascii_case;
use vstd::prelude::*;

verus! {

/// One device of the database.
///
/// `cpid` is the number that a descriptor reports as its `BDID`, and `bdid`
/// the number that it reports as its `CPID`.
#[derive(Debug, Clone, Copy, PartialEq, Eq)]
pub struct DeviceDatabaseInfo {
    pub model_identifier: &'static str,
    pub board: &'static str,
    pub cpid: u16,
    pub bdid: u16,
    pub marketing_name: &'static str,
    pub display_name: &'static str,
}

/// The descriptor names the board of `entry`.
pub open spec fn board_matches(entry: DeviceDatabaseInfo, info: RecoveryDeviceInfo) -> bool {
    info@.srtg matches Some(srtg) && crate::text::same_ignoring_ascii_case(srtg, entry.board@)
}

/// The descriptor reports the two numbers of `entry`.
pub open spec fn numbers_match(entry: DeviceDatabaseInfo, info: RecoveryDeviceInfo) -> bool {
    info.bdid == Some(entry.cpid as u32) && info.cpid == Some(entry.bdid as u32)
}

/// No entry has the board that the descriptor names.
pub open spec fn no_board_matches(
    entries: Seq<DeviceDatabaseInfo>,
    info: RecoveryDeviceInfo,
) -> bool {
    forall|j: int| 0 <= j < entries.len() ==> !board_matches(#[trigger] entries[j], info)
}

/// Entry `i` is the one to use: the first whose board matches, or, if no board
/// matches, the first whose numbers match.
pub open spec fn is_entry_for(
    entries: Seq<DeviceDatabaseInfo>,
    info: RecoveryDeviceInfo,
    i: int,
) -> bool {
    &&& 0 <= i < entries.len()
    &&& if no_board_matches(entries, info) {
        numbers_match(entries[i], info) && forall|j: int|
            0 <= j < i ==> !numbers_match(#[trigger] entries[j], info)
    } else {
        board_matches(entries[i], info) && forall|j: int|
            0 <= j < i ==> !board_matches(#[trigger] entries[j], info)
    }
}

/// The metadata that an entry gives.
pub open spec fn metadata_of(entry: DeviceDatabaseInfo) -> DeviceMetadata {
    DeviceMetadata {
        model_identifier: entry.model_identifier,
        board: entry.board,
        marketing_name: entry.marketing_name,
        display_name: entry.display_name,
    }
}

/// `metadata` is what the table gives for `info`: the metadata of the entry to
/// use, or nothing if there is none.
pub open spec fn resolves_to(
    entries: Seq<DeviceDatabaseInfo>,
    info: RecoveryDeviceInfo,
    metadata: Option<DeviceMetadata>,
) -> bool {
    match metadata {
        Some(metadata) => exists|i: int| #[trigger]
            is_entry_for(entries, info, i) && metadata == metadata_of(entries[i]),
        None => forall|i: int| !#[trigger] is_entry_for(entries, info, i),
    }
}

fn find_by_board(entries: &[DeviceDatabaseInfo], srtg: &str) -> (found: Option<usize>)
    ensures
        match found {
            Some(i) => i < entries@.len() && crate::text::same_ignoring_ascii_case(
                srtg@,
                entries@[i as int].board@,
            ) && forall|j: int|
                0 <= j < i ==> !crate::text::same_ignoring_ascii_case(
                    srtg@,
                    (#[trigger] entries@[j]).board@,
                ),
            None => forall|j: int|
                0 <= j < entries@.len() ==> !crate::text::same_ignoring_ascii_case(
                    srtg@,
                    (#[trigger] entries@[j]).board@,
                ),
        },
{
    let mut i: usize = 0;
    while i < entries.len()
        invariant
            i <= entries@.len(),
            forall|j: int|
                0 <= j < i ==> !crate::text::same_ignoring_ascii_case(
                    srtg@,
                    (#[trigger] entries@[j]).board@,
                ),
        decreases entries@.len() - i,
    {
        if eq_ignore_ascii_case(srtg, entries[i].board) {
            return Some(i);
        }
        i += 1;
    }
    None
}

fn find_by_numbers(entries: &[DeviceDatabaseInfo], info: &RecoveryDeviceInfo) -> (found: Option<
    usize,
>)
    ensures
        match found {
            Some(i) => i < entries@.len() && numbers_match(entries@[i as int], *info)
                && forall|j: int| 0 <= j < i ==> !numbers_match(#[trigger] entries@[j], *info),
            None => forall|j: int|
                0 <= j < entries@.len() ==> !numbers_match(#[trigger] entries@[j], *info),
        },
{
    let mut i: usize = 0;
    while i < entries.len()
        invariant
            i <= entries@.len(),
            forall|j: int| 0 <= j < i ==> !numbers_match(#[trigger] entries@[j], *info),
        decreases entries@.len() - i,
    {
        let entry = &entries[i];
        let reported = match (info.bdid, info.cpid) {
            (Some(bdid), Some(cpid)) => bdid == entry.cpid as u32 && cpid == entry.bdid as u32,
            _ => false,
        };
        if reported {
            return Some(i);
        }
        i += 1;
    }
    None
}

impl DeviceMetadataResolver for &[DeviceDatabaseInfo] {
    fn resolve(&self, info: &RecoveryDeviceInfo) -> (metadata: Option<DeviceMetadata>)
        ensures
            resolves_to(self@, *info, metadata),
            match metadata {
                Some(metadata) => exists|i: int| #[trigger]
                    is_entry_for(self@, *info, i) && metadata == metadata_of(self@[i]),
                None => forall|i: int| !#[trigger] is_entry_for(self@, *info, i),
            },
    {
        let by_board = match &info.srtg {
            Some(srtg) => find_by_board(self, srtg.as_str()),
            None => None,
        };
        let found = match by_board {
            Some(i) => {
                assert(board_matches(self@[i as int], *info));
                assert(is_entry_for(self@, *info, i as int));
                Some(i)
            },
            None => {
                assert(no_board_matches(self@, *info));
                let by_numbers = find_by_numbers(self, info);
                assert(by_numbers matches Some(i) ==> is_entry_for(self@, *info, i as int));
                by_numbers
            },
        };
        match found {
            Some(i) => {
                let entry = &self[i];
                Some(
                    DeviceMetadata {
                        model_identifier: entry.model_identifier,
                        board: entry.board,
                        marketing_name: entry.marketing_name,
                        display_name: entry.display_name,
                    },
                )
            },
            None => None,
        }
    }
}

/// At most one entry is the one to use.
pub proof fn law_entry_is_unique(
    entries: Seq<DeviceDatabaseInfo>,
    info: RecoveryDeviceInfo,
    i: int,
    j: int,
)
    requires
        is_entry_for(entries, info, i),
        is_entry_for(entries, info, j),
    ensures
        i == j,
{
}

/// The board decides before the numbers do: if the board of some entry matches,
/// the board of the entry to use does.
pub proof fn law_board_decides_first(
    entries: Seq<DeviceDatabaseInfo>,
    info: RecoveryDeviceInfo,
    i: int,
    j: int,
)
    requires
        is_entry_for(entries, info, i),
        0 <= j < entries.len(),
        board_matches(entries[j], info),
    ensures
        board_matches(entries[i], info),
        i <= j,
{
}

proof fn lemma_first_match(
    entries: Seq<DeviceDatabaseInfo>,
    wanted: spec_fn(DeviceDatabaseInfo) -> bool,
    at: int,
) -> (first: int)
    requires
        0 <= at < entries.len(),
        wanted(entries[at]),
    ensures
        0 <= first <= at,
        wanted(entries[first]),
        forall|j: int| 0 <= j < first ==> !wanted(#[trigger] entries[j]),
    decreases at,
{
    if exists|j: int| 0 <= j < at && wanted(#[trigger] entries[j]) {
        let j = choose|j: int| 0 <= j < at && wanted(#[trigger] entries[j]);
        lemma_first_match(entries, wanted, j)
    } else {
        at
    }
}

/// There is an entry to use exactly if some entry matches, by its board or by
/// its numbers.
pub proof fn law_entry_exists(entries: Seq<DeviceDatabaseInfo>, info: RecoveryDeviceInfo)
    ensures
        (exists|i: int| #[trigger] is_entry_for(entries, info, i)) <==> exists|j: int|
            0 <= j < entries.len() && (board_matches(#[trigger] entries[j], info) || numbers_match(
                entries[j],
                info,
            )),
{
    if exists|i: int| #[trigger] is_entry_for(entries, info, i) {
        let i = choose|i: int| #[trigger] is_entry_for(entries, info, i);
        assert(board_matches(entries[i], info) || numbers_match(entries[i], info));
    }
    if exists|j: int|
        0 <= j < entries.len() && (board_matches(#[trigger] entries[j], info) || numbers_match(
            entries[j],
            info,
        )) {
        if no_board_matches(entries, info) {
            let j = choose|j: int|
                0 <= j < entries.len() && (board_matches(#[trigger] entries[j], info)
                    || numbers_match(entries[j], info));
            let first = lemma_first_match(
                entries,
                |entry: DeviceDatabaseInfo| numbers_match(entry, info),
                j,
            );
            assert(is_entry_for(entries, info, first));
        } else {
            let j = choose|j: int|
                0 <= j < entries.len() && board_matches(#[trigger] entries[j], info);
            let first = lemma_first_match(
                entries,
                |entry: DeviceDatabaseInfo| board_matches(entry, info),
                j,
            );
            assert(is_entry_for(entries, info, first));
        }
    }
}

/// The bundled table, which holds one device: the iPhone X.
///
/// Any longer table of [`DeviceDatabaseInfo`] resolves by the same rules.
pub fn devices() -> (entries: &'static [DeviceDatabaseInfo])
    ensures
        entries@ == seq![
            (DeviceDatabaseInfo {
                model_identifier: "iPhone10,3",
                board: "d22ap",
                cpid: 0x06,
                bdid: 0x8015,
                marketing_name: "iPhone X",
                display_name: "iPhone X",
            }),
        ],
{
    &[
        DeviceDatabaseInfo {
            model_identifier: "iPhone10,3",
            board: "d22ap",
            cpid: 0x06,
            bdid: 0x8015,
            marketing_name: "iPhone X",
            display_name: "iPhone X",
        },
    ]
}

} // verus!
