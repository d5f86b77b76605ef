//! The two things that can be asked for: the list of the displays, and the
//! bindings of a list of rules.

use crate::catalog::catalog_of;
use crate::discovery::{discovered, entry_views, get_display_info};
use crate::discovery::{DeviceEntry, DeviceEntryView, DiscoveryError};
use crate::report::{config_lines, line_texts, listing, listing_lines, mapped_config_lines};
use crate::rule::{rule_views, MapRule, MapRuleView};
use vstd::prelude::*;

verus! {

/// What a call asks for.
#[derive(Clone, Copy, Debug, PartialEq, Eq, Structural)]
pub enum Mode {
    /// The list of the displays.
    Listing,
    /// The bindings of the rules.
    Mapping,
    /// Nothing.
    Nothing,
}

/// The mode of a call: the list where it was asked for, whether or not rules
/// were given; else the bindings where rules were given; else nothing.
pub fn select_mode(list: bool, rules_given: bool) -> (mode: Mode)
    ensures
        mode == if list {
            Mode::Listing
        } else if rules_given {
            Mode::Mapping
        } else {
            Mode::Nothing
        },
{
    if list {
        Mode::Listing
    } else if rules_given {
        Mode::Mapping
    } else {
        Mode::Nothing
    }
}

/// The list of the displays behind `entries`, or the error that keeps them
/// from being made out.
pub open spec fn existing_displays_spec(entries: Seq<DeviceEntryView>) -> Result<
    Seq<Seq<char>>,
    DiscoveryError,
> {
    match discovered(entries) {
        Ok(records) => Ok(listing(records)),
        Err(e) => Err(e),
    }
}

/// The lines of `rules` against the displays behind `entries`, or the error
/// that keeps the displays from being made out.
pub open spec fn mapped_config_spec(
    entries: Seq<DeviceEntryView>,
    rules: Seq<MapRuleView>,
) -> Result<Seq<Seq<char>>, DiscoveryError> {
    match discovered(entries) {
        Ok(records) => Ok(config_lines(catalog_of(records), rules)),
        Err(e) => Err(e),
    }
}

/// The list of the displays behind the entries of the display directory: one
/// line for each display, in the order of the entries. Where a display cannot
/// be made out there is no line at all.
pub fn existing_displays(entries: &Vec<DeviceEntry>) -> (r: Result<Vec<String>, DiscoveryError>)
    ensures
        match r {
            Ok(lines) => existing_displays_spec(entry_views(entries@)) == Ok::<
                Seq<Seq<char>>,
                DiscoveryError,
            >(line_texts(lines@)),
            Err(e) => existing_displays_spec(entry_views(entries@)) == Err::<
                Seq<Seq<char>>,
                DiscoveryError,
            >(e),
        },
{
    match get_display_info(entries) {
        Ok(displays) => Ok(listing_lines(&displays)),
        Err(e) => Err(e),
    }
}

/// The lines of the rules against the displays behind the entries of the
/// display directory: for each rule, in the order of the rules, its binding,
/// with a comment before it where no display has its serial number. Where a
/// display cannot be made out there is no line at all.
pub fn mapped_config(entries: &Vec<DeviceEntry>, rules: &Vec<MapRule>) -> (r: Result<
    Vec<String>,
    DiscoveryError,
>)
    ensures
        match r {
            Ok(lines) => mapped_config_spec(entry_views(entries@), rule_views(rules@)) == Ok::<
                Seq<Seq<char>>,
                DiscoveryError,
            >(line_texts(lines@)),
            Err(e) => mapped_config_spec(entry_views(entries@), rule_views(rules@)) == Err::<
                Seq<Seq<char>>,
                DiscoveryError,
            >(e),
        },
{
    match get_display_info(entries) {
        Ok(displays) => Ok(mapped_config_lines(&displays, rules)),
        Err(e) => Err(e),
    }
}

} // verus!
