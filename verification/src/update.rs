//! The decisions of `runx update`: which release line a cached version is
//! checked against, whether an update is due, and the closing message.

use vstd::prelude::*;

use crate::clean::{plural, plural_suffix};
use crate::text::{decimal, push_decimal, push_str, string_of};
use crate::version::{SpecModel, Version, VersionSpec, version_order};

verus! {

/// The specifier a cached version is checked against: its own
/// `major.minor` line, so only patch releases are offered.
pub fn update_spec(current: &Version) -> (r: VersionSpec)
    ensures
        r@ == SpecModel::MajorMinor(current.major, current.minor),
{
    VersionSpec::MajorMinor(current.major, current.minor)
}

/// Whether the resolved version is an update: strictly greater than the
/// cached one in the version order.
pub fn is_update(latest: &Version, current: &Version) -> (r: bool)
    ensures
        r == (version_order(latest@, current@) == 1),
{
    latest.compare(current) == 1
}

/// The closing message of an update: in a dry run, that all is up to date
/// when something was checked and nothing is due; otherwise, that all is up
/// to date when nothing was updated, else how many tools were updated.
pub open spec fn update_summary_text(dry_run: bool, checked: nat, available: nat, updated: nat) -> Option<Seq<char>> {
    if dry_run {
        if checked > 0 && available == 0 {
            Some("All cached tools are up to date."@)
        } else {
            None
        }
    } else if updated == 0 {
        Some("All cached tools are up to date."@)
    } else {
        Some("\nUpdated "@ + decimal(updated) + " tool"@ + plural(updated) + ". Old versions kept in cache."@)
    }
}

/// The closing message of an update (see [`update_summary_text`]).
pub fn update_summary(dry_run: bool, checked: u64, available: u64, updated: u64) -> (r: Option<String>)
    ensures
        crate::config::opt_string(r) == update_summary_text(dry_run, checked as nat, available as nat, updated as nat),
{
    if dry_run {
        if checked > 0 && available == 0 {
            Some(crate::provider::owned("All cached tools are up to date."))
        } else {
            None
        }
    } else if updated == 0 {
        Some(crate::provider::owned("All cached tools are up to date."))
    } else {
        let mut m: Vec<char> = Vec::new();
        push_str(&mut m, "\nUpdated ");
        push_decimal(&mut m, updated);
        push_str(&mut m, " tool");
        push_str(&mut m, plural_suffix(updated));
        push_str(&mut m, ". Old versions kept in cache.");
        Some(string_of(&m))
    }
}

} // verus!
