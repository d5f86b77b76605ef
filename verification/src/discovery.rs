//! From the entries of the display directory to the displays that stand behind
//! them.

use crate::edid::{decode_serial, decode_serial_spec, DecodeError};
use crate::name::{short_name, short_name_spec};
use vstd::prelude::*;

verus! {

/// One entry of the display directory that holds an identification block file:
/// the name of the device directory and the bytes of the file.
pub struct DeviceEntry {
    pub directory_name: String,
    pub edid: Vec<u8>,
}

/// A device entry as a value.
pub struct DeviceEntryView {
    pub directory_name: Seq<char>,
    pub edid: Seq<u8>,
}

impl View for DeviceEntry {
    type V = DeviceEntryView;

    open spec fn view(&self) -> DeviceEntryView {
        DeviceEntryView { directory_name: self.directory_name@, edid: self.edid@ }
    }
}

/// A display that was found: the short name of its output and its serial
/// number.
#[derive(Debug)]
pub struct DisplayInfo {
    pub short_name: String,
    pub serial_number: u32,
}

/// A display as a value.
pub struct DisplayRecord {
    pub short_name: Seq<char>,
    pub serial_number: u32,
}

impl View for DisplayInfo {
    type V = DisplayRecord;

    open spec fn view(&self) -> DisplayRecord {
        DisplayRecord { short_name: self.short_name@, serial_number: self.serial_number }
    }
}

/// Why the displays could not be made out.
#[derive(Clone, Copy, Debug, PartialEq, Eq, Structural)]
pub enum DiscoveryError {
    /// The pattern engine refused the card prefix.
    Pattern,
    /// An identification block yields no serial number.
    Decode(DecodeError),
}

/// The entries as values.
pub open spec fn entry_views(entries: Seq<DeviceEntry>) -> Seq<DeviceEntryView> {
    entries.map_values(|e: DeviceEntry| e@)
}

/// The displays as values.
pub open spec fn records_of(displays: Seq<DisplayInfo>) -> Seq<DisplayRecord> {
    displays.map_values(|d: DisplayInfo| d@)
}

/// The entry holds an identification block.
pub open spec fn has_block(entry: DeviceEntryView) -> bool {
    entry.edid.len() > 0
}

/// What one entry contributes: nothing where its block is empty, else the
/// display with the short name of the directory and the serial number of the
/// block, or the error that keeps one of the two from being made out.
pub open spec fn record_of(entry: DeviceEntryView) -> Result<Option<DisplayRecord>, DiscoveryError> {
    if !has_block(entry) {
        Ok(None)
    } else {
        match short_name_spec(entry.directory_name) {
            None => Err(DiscoveryError::Pattern),
            Some(name) => match decode_serial_spec(entry.edid) {
                Err(cause) => Err(DiscoveryError::Decode(cause)),
                Ok(serial) => Ok(Some(DisplayRecord { short_name: name, serial_number: serial })),
            },
        }
    }
}

/// The displays behind `entries`, in the order of the entries, or the error of
/// the first entry that has one.
pub open spec fn discovered(entries: Seq<DeviceEntryView>) -> Result<
    Seq<DisplayRecord>,
    DiscoveryError,
>
    decreases entries.len(),
{
    if entries.len() == 0 {
        Ok(Seq::empty())
    } else {
        match discovered(entries.drop_last()) {
            Err(e) => Err(e),
            Ok(records) => match record_of(entries.last()) {
                Err(e) => Err(e),
                Ok(None) => Ok(records),
                Ok(Some(record)) => Ok(records.push(record)),
            },
        }
    }
}

/// What one entry contributes.
pub fn display_of(entry: &DeviceEntry) -> (r: Result<Option<DisplayInfo>, DiscoveryError>)
    ensures
        match r {
            Ok(Some(display)) => record_of(entry@) == Ok::<
                Option<DisplayRecord>,
                DiscoveryError,
            >(Some(display@)),
            Ok(None) => record_of(entry@) == Ok::<Option<DisplayRecord>, DiscoveryError>(None),
            Err(e) => record_of(entry@) == Err::<Option<DisplayRecord>, DiscoveryError>(e),
        },
{
    if entry.edid.len() == 0 {
        return Ok(None);
    }
    let name = match short_name(entry.directory_name.as_str()) {
        Some(name) => name,
        None => {
            return Err(DiscoveryError::Pattern);
        },
    };
    match decode_serial(&entry.edid) {
        Ok(serial) => Ok(Some(DisplayInfo { short_name: name, serial_number: serial })),
        Err(cause) => Err(DiscoveryError::Decode(cause)),
    }
}

/// The displays behind the entries of the display directory.
///
/// Entries with an empty block are passed over. The first entry whose short
/// name or serial number cannot be made out ends the work with its error; there
/// is no partial result.
pub fn get_display_info(entries: &Vec<DeviceEntry>) -> (r: Result<Vec<DisplayInfo>, DiscoveryError>)
    ensures
        match r {
            Ok(displays) => discovered(entry_views(entries@)) == Ok::<
                Seq<DisplayRecord>,
                DiscoveryError,
            >(records_of(displays@)),
            Err(e) => discovered(entry_views(entries@)) == Err::<Seq<DisplayRecord>, DiscoveryError>(
                e,
            ),
        },
{
    let ghost views = entry_views(entries@);
    let mut displays: Vec<DisplayInfo> = Vec::new();
    let mut i: usize = 0;
    assert(views.subrange(0, 0) =~= Seq::<DeviceEntryView>::empty());
    assert(records_of(displays@) =~= Seq::<DisplayRecord>::empty());
    while i < entries.len()
        invariant
            i <= entries.len(),
            views == entry_views(entries@),
            discovered(views.subrange(0, i as int)) == Ok::<Seq<DisplayRecord>, DiscoveryError>(
                records_of(displays@),
            ),
        decreases entries.len() - i,
    {
        let ghost before = views.subrange(0, i as int);
        let ghost upto = views.subrange(0, i + 1);
        assert(upto.drop_last() =~= before);
        assert(upto.last() == entries@[i as int]@);
        let ghost found = records_of(displays@);
        match display_of(&entries[i]) {
            Err(e) => {
                proof {
                    lemma_error_stays(views, i + 1, e);
                }
                return Err(e);
            },
            Ok(None) => {},
            Ok(Some(display)) => {
                displays.push(display);
                assert(records_of(displays@) =~= found.push(display@));
            },
        }
        i += 1;
    }
    assert(views.subrange(0, i as int) =~= views);
    Ok(displays)
}

/// An error among the first `k` entries is the error of all of them.
pub proof fn lemma_error_stays(entries: Seq<DeviceEntryView>, k: int, e: DiscoveryError)
    requires
        0 <= k <= entries.len(),
        discovered(entries.subrange(0, k)) == Err::<Seq<DisplayRecord>, DiscoveryError>(e),
    ensures
        discovered(entries) == Err::<Seq<DisplayRecord>, DiscoveryError>(e),
    decreases entries.len() - k,
{
    if k == entries.len() {
        assert(entries.subrange(0, k) =~= entries);
    } else {
        let next = entries.subrange(0, k + 1);
        assert(next.drop_last() =~= entries.subrange(0, k));
        lemma_error_stays(entries, k + 1, e);
    }
}

/// The test that keeps the entries which hold a block.
pub open spec fn with_block() -> spec_fn(DeviceEntryView) -> bool {
    |entry: DeviceEntryView| has_block(entry)
}

/// Entries with an empty block count for nothing: with them or without them
/// the same displays are found, or the same error.
pub proof fn lemma_empty_blocks_passed_over(entries: Seq<DeviceEntryView>)
    ensures
        discovered(entries.filter(with_block())) == discovered(entries),
    decreases entries.len(),
{
    reveal(Seq::filter);
    if entries.len() > 0 {
        lemma_empty_blocks_passed_over(entries.drop_last());
        if has_block(entries.last()) {
            let kept = entries.filter(with_block());
            assert(kept.drop_last() =~= entries.drop_last().filter(with_block()));
            assert(kept.last() == entries.last());
        }
    }
}

/// Entries that all have an empty block yield no display and no error.
pub proof fn lemma_only_empty_blocks(entries: Seq<DeviceEntryView>)
    requires
        forall|i: int| 0 <= i < entries.len() ==> !has_block(#[trigger] entries[i]),
    ensures
        discovered(entries) == Ok::<Seq<DisplayRecord>, DiscoveryError>(Seq::empty()),
    decreases entries.len(),
{
    if entries.len() > 0 {
        let rest = entries.drop_last();
        assert forall|i: int| 0 <= i < rest.len() implies !has_block(#[trigger] rest[i]) by {
            assert(rest[i] == entries[i]);
        }
        lemma_only_empty_blocks(rest);
        assert(!has_block(entries[entries.len() - 1]));
    }
}

/// Where displays are found, each entry that holds a block has yielded one, in
/// the order of the entries: the display at `i` has the short name and the
/// serial number of the `i`-th such entry.
pub proof fn lemma_one_display_per_block(entries: Seq<DeviceEntryView>)
    requires
        discovered(entries) is Ok,
    ensures
        ({
            let records = discovered(entries)->Ok_0;
            let kept = entries.filter(with_block());
            &&& records.len() == kept.len()
            &&& forall|i: int|
                0 <= i < kept.len() ==> record_of(#[trigger] kept[i]) == Ok::<
                    Option<DisplayRecord>,
                    DiscoveryError,
                >(Some(records[i]))
        }),
    decreases entries.len(),
{
    reveal(Seq::filter);
    if entries.len() > 0 {
        let rest = entries.drop_last();
        lemma_one_display_per_block(rest);
        let records = discovered(entries)->Ok_0;
        let kept = entries.filter(with_block());
        let rest_kept = rest.filter(with_block());
        let rest_records = discovered(rest)->Ok_0;
        if has_block(entries.last()) {
            assert(kept =~= rest_kept.push(entries.last()));
            assert forall|i: int| 0 <= i < kept.len() implies record_of(#[trigger] kept[i]) == Ok::<
                Option<DisplayRecord>,
                DiscoveryError,
            >(Some(records[i])) by {
                if i < rest_kept.len() {
                    assert(kept[i] == rest_kept[i]);
                    assert(records[i] == rest_records[i]);
                }
            }
        } else {
            assert(kept =~= rest_kept);
        }
    }
}

} // verus!
