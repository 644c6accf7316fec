use vstd::prelude::*;
use crate::guid::Guid;
use crate::text::{push_str, str_eq, string_of};

verus! {

/// A row of the book's `slots` table: a named value attached to an object. The
/// floating-point value is kept as its IEEE-754 bits.
#[derive(Clone, Debug)]
pub struct Slot {
    pub id: i64,
    pub obj_guid: Guid,
    pub name: String,
    pub slot_type: i64,
    pub int64_val: i64,
    pub string_val: String,
    pub double_val_bits: u64,
    pub timespec_val: String,
    pub guid_val: String,
    pub numeric_val_num: i64,
    pub numeric_val_denom: i64,
    pub gdate_val: String,
}

/// The slot name under which the settings are kept.
pub const SLOT_NAME_SETTINGS: &'static str = "settings";

/// The setting that shows transactions older than one year.
pub const SLOT_NAME_DISPLAY_TRANSACTIONS_OLDER_THAN_ONE_YEAR: &'static str =
    "display_transactions_older_than_one_year";

/// Whether transactions older than a year are shown, given the slots found for
/// the setting: only when the first of them holds 1.
pub open spec fn older_transactions_shown(slots: Seq<Slot>) -> bool {
    slots.len() >= 1 && slots[0].int64_val == 1
}

/// Whether transactions older than a year are to be shown, and the alert to show
/// when the setting could not be loaded (then they are not shown).
pub fn display_transactions_older_than_one_year(slots: Result<Vec<Slot>, String>) -> (r: (bool, Option<String>))
    ensures
        match slots {
            Ok(v) => r.0 == older_transactions_shown(v@) && r.1 is None,
            Err(e) => !r.0 && r.1 == Some(e),
        },
{
    match slots {
        Ok(v) => {
            if v.len() < 1 {
                return (false, None);
            }
            if v[0].int64_val == 1 {
                return (true, None);
            }
            (false, None)
        },
        Err(e) => (false, Some(e)),
    }
}

/// The state of the settings checkbox after reading the given slots in order,
/// starting unchecked: a slot of the setting holding 1 checks it and one holding 0
/// unchecks it; one holding anything else stops the reading (the `bool` says so).
pub open spec fn checkbox_after(slots: Seq<Slot>, setting: Seq<char>) -> (bool, bool)
    decreases slots.len(),
{
    if slots.len() == 0 {
        (false, false)
    } else {
        let before = checkbox_after(slots.drop_last(), setting);
        let s = slots.last();
        if before.1 {
            before
        } else if s.string_val@ == setting {
            if s.int64_val == 1 {
                (true, false)
            } else if s.int64_val == 0 {
                (false, false)
            } else {
                (before.0, true)
            }
        } else {
            before
        }
    }
}

/// The message shown for a slot of the setting that holds neither 0 nor 1.
pub open spec fn invalid_setting_message(setting: Seq<char>) -> Seq<char> {
    "The settings_slot with name of "@ + setting + " is invalid! Please fix this!"@
}

/// Whether the settings screen shows its "older than one year" box checked, read
/// from the settings slots, and the alert it shows when a slot of that setting
/// holds neither 0 nor 1 (reading stops there).
pub fn settings_checkbox_state(settings_slots: &Vec<Slot>) -> (r: (bool, Option<String>))
    ensures
        r.0 == checkbox_after(settings_slots@, SLOT_NAME_DISPLAY_TRANSACTIONS_OLDER_THAN_ONE_YEAR@).0,
        checkbox_after(settings_slots@, SLOT_NAME_DISPLAY_TRANSACTIONS_OLDER_THAN_ONE_YEAR@).1
            <==> r.1 is Some,
        r.1 matches Some(m) ==> m@ == invalid_setting_message(
            SLOT_NAME_DISPLAY_TRANSACTIONS_OLDER_THAN_ONE_YEAR@,
        ),
{
    let ghost setting = SLOT_NAME_DISPLAY_TRANSACTIONS_OLDER_THAN_ONE_YEAR@;
    let mut checked = false;
    let mut i: usize = 0;
    while i < settings_slots.len()
        invariant
            0 <= i <= settings_slots@.len(),
            setting == SLOT_NAME_DISPLAY_TRANSACTIONS_OLDER_THAN_ONE_YEAR@,
            checkbox_after(settings_slots@.take(i as int), setting) == (checked, false),
        decreases settings_slots@.len() - i,
    {
        let slot = &settings_slots[i];
        proof {
            assert(settings_slots@.take(i as int + 1).drop_last() =~= settings_slots@.take(i as int));
        }
        if str_eq(slot.string_val.as_str(), SLOT_NAME_DISPLAY_TRANSACTIONS_OLDER_THAN_ONE_YEAR) {
            if slot.int64_val == 1 {
                checked = true;
            } else if slot.int64_val == 0 {
                checked = false;
            } else {
                let mut m = string_of("The settings_slot with name of ");
                push_str(&mut m, SLOT_NAME_DISPLAY_TRANSACTIONS_OLDER_THAN_ONE_YEAR);
                push_str(&mut m, " is invalid! Please fix this!");
                proof {
                    lemma_stopped_stays(settings_slots@, setting, i as int + 1);
                    assert(settings_slots@.take(settings_slots@.len() as int) =~= settings_slots@);
                }
                return (checked, Some(m));
            }
        }
        i = i + 1;
    }
    proof {
        assert(settings_slots@.take(settings_slots@.len() as int) =~= settings_slots@);
    }
    (checked, None)
}

/// Once the reading has stopped, later slots change nothing.
proof fn lemma_stopped_stays(slots: Seq<Slot>, setting: Seq<char>, k: int)
    requires
        0 <= k <= slots.len(),
        checkbox_after(slots.take(k), setting).1,
    ensures
        checkbox_after(slots, setting) == checkbox_after(slots.take(k), setting),
    decreases slots.len() - k,
{
    if k < slots.len() {
        assert(slots.take(k + 1).drop_last() =~= slots.take(k));
        lemma_stopped_stays(slots, setting, k + 1);
    } else {
        assert(slots.take(k) =~= slots);
    }
}

} // verus!
