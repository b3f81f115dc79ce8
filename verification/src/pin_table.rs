//! Tables of rows that are keyed by pin number: one row per number, and
//! where a number is configured twice, the later configuration counts.

use vstd::prelude::*;
use crate::config::ConfigGpio;

verus! {

/// A row of a table that is keyed by pin number.
pub trait PinRow: Sized {
    /// The number of the pin that the row is for.
    spec fn pin_number(&self) -> u8;

    /// The row that a configured pin starts with.
    spec fn of_config(io: ConfigGpio) -> Self;

    /// The number of the pin that the row is for.
    fn number(&self) -> (pin: u8)
        ensures
            pin == self.pin_number(),
    ;

    /// The row of a configured pin is for that pin.
    proof fn lemma_of_config_keeps_pin(io: ConfigGpio)
        ensures
            Self::of_config(io).pin_number() == io.pin,
    ;
}

/// Some row of the table is for `pin`.
pub open spec fn has_pin<R: PinRow>(pins: Seq<R>, pin: u8) -> bool {
    exists|i: int| 0 <= i < pins.len() && (#[trigger] pins[i]).pin_number() == pin
}

/// The index of a row for `pin`; the only one in a table without repeats.
pub open spec fn slot_of<R: PinRow>(pins: Seq<R>, pin: u8) -> int {
    choose|i: int| 0 <= i < pins.len() && (#[trigger] pins[i]).pin_number() == pin
}

/// No pin number has two rows.
pub open spec fn distinct_pins<R: PinRow>(pins: Seq<R>) -> bool {
    forall|i: int, j: int|
        0 <= i < j < pins.len() ==> (#[trigger] pins[i]).pin_number() != (#[trigger] pins[j]).pin_number()
}

/// The table with `entry` in it: in place of the row with the same pin
/// number where there is one, at the end otherwise.
pub open spec fn upsert<R: PinRow>(pins: Seq<R>, entry: R) -> Seq<R> {
    if has_pin(pins, entry.pin_number()) {
        pins.update(slot_of(pins, entry.pin_number()), entry)
    } else {
        pins.push(entry)
    }
}

/// The pin table of a list of configured pins: one row per pin number, and
/// where a number is configured twice the later configuration counts.
pub open spec fn table_of<R: PinRow>(gpio: Seq<ConfigGpio>) -> Seq<R>
    decreases gpio.len(),
{
    if gpio.len() == 0 {
        Seq::empty()
    } else {
        upsert(table_of::<R>(gpio.drop_last()), R::of_config(gpio.last()))
    }
}

/// The row for `pin`, if the table has one.
pub(crate) fn find_pin<R: PinRow>(pins: &Vec<R>, pin: u8) -> (found: Option<usize>)
    requires
        distinct_pins(pins@),
    ensures
        found.is_some() == has_pin(pins@, pin),
        found matches Some(i) ==> i < pins.len() && i == slot_of(pins@, pin) && pins@[i as int].pin_number() == pin,
{
    let mut i: usize = 0;
    while i < pins.len()
        invariant
            i <= pins.len(),
            distinct_pins(pins@),
            forall|k: int| 0 <= k < i ==> (#[trigger] pins@[k]).pin_number() != pin,
        decreases pins.len() - i,
    {
        if pins[i].number() == pin {
            proof {
                assert(pins@[i as int].pin_number() == pin);
                let j = slot_of(pins@, pin);
                assert(pins@[j].pin_number() == pin);
                assert(j == i);
            }
            return Some(i);
        }
        i += 1;
    }
    None
}

/// In a table without repeats, the row that holds `pin` is the row that
/// `slot_of` names.
pub proof fn lemma_slot_is_unique<R: PinRow>(pins: Seq<R>, pin: u8, i: int)
    requires
        distinct_pins(pins),
        0 <= i < pins.len(),
        pins[i].pin_number() == pin,
    ensures
        has_pin(pins, pin),
        slot_of(pins, pin) == i,
{
    let j = slot_of(pins, pin);
    assert(pins[j].pin_number() == pin);
    if j < i {
        assert(pins[j].pin_number() != pins[i].pin_number());
    }
    if i < j {
        assert(pins[i].pin_number() != pins[j].pin_number());
    }
}

/// Putting a row into a table without repeats leaves it without repeats.
pub proof fn lemma_upsert_keeps_distinct<R: PinRow>(pins: Seq<R>, entry: R)
    requires
        distinct_pins(pins),
    ensures
        distinct_pins(upsert(pins, entry)),
{
    let after = upsert(pins, entry);
    if has_pin(pins, entry.pin_number()) {
        let slot = slot_of(pins, entry.pin_number());
        assert(pins[slot].pin_number() == entry.pin_number());
        assert forall|i: int, j: int| 0 <= i < j < after.len() implies (#[trigger] after[i]).pin_number() != (
        #[trigger] after[j]).pin_number() by {
            assert(after[i].pin_number() == pins[i].pin_number());
            assert(after[j].pin_number() == pins[j].pin_number());
        }
    } else {
        assert forall|i: int, j: int| 0 <= i < j < after.len() implies (#[trigger] after[i]).pin_number() != (
        #[trigger] after[j]).pin_number() by {
            assert(after[i] == pins[i]);
            if j < pins.len() {
                assert(after[j] == pins[j]);
            }
        }
    }
}

/// The pin table of any configuration holds each pin number once.
pub proof fn lemma_table_is_distinct<R: PinRow>(gpio: Seq<ConfigGpio>)
    ensures
        distinct_pins(table_of::<R>(gpio)),
    decreases gpio.len(),
{
    if gpio.len() > 0 {
        lemma_table_is_distinct::<R>(gpio.drop_last());
        lemma_upsert_keeps_distinct(table_of::<R>(gpio.drop_last()), R::of_config(gpio.last()));
    }
}

/// The pin table has a row for exactly the pin numbers that are configured.
pub proof fn lemma_table_holds_configured_pins<R: PinRow>(gpio: Seq<ConfigGpio>, pin: u8)
    ensures
        has_pin(table_of::<R>(gpio), pin) <==> exists|k: int| 0 <= k < gpio.len() && (#[trigger] gpio[k]).pin == pin,
    decreases gpio.len(),
{
    if gpio.len() > 0 {
        let before = gpio.drop_last();
        let entry = R::of_config(gpio.last());
        R::lemma_of_config_keeps_pin(gpio.last());
        let table = table_of::<R>(before);
        let after = table_of::<R>(gpio);
        lemma_table_holds_configured_pins::<R>(before, pin);
        lemma_table_is_distinct::<R>(before);
        if has_pin(after, pin) {
            let i = slot_of(after, pin);
            assert(after[i].pin_number() == pin);
            if has_pin(table, entry.pin_number()) {
                let slot = slot_of(table, entry.pin_number());
                assert(table[slot].pin_number() == entry.pin_number());
                assert(table[i].pin_number() == pin);
            } else if i < table.len() {
                assert(table[i].pin_number() == pin);
            }
            if has_pin(table, pin) {
                let k = choose|k: int| 0 <= k < before.len() && (#[trigger] before[k]).pin == pin;
                assert(gpio[k].pin == pin);
            } else {
                assert(entry.pin_number() == pin);
                assert(gpio[gpio.len() - 1].pin == pin);
            }
        }
        if exists|k: int| 0 <= k < gpio.len() && (#[trigger] gpio[k]).pin == pin {
            let k = choose|k: int| 0 <= k < gpio.len() && (#[trigger] gpio[k]).pin == pin;
            if k < before.len() {
                assert(before[k].pin == pin);
                let i = slot_of(table, pin);
                assert(table[i].pin_number() == pin);
                if has_pin(table, entry.pin_number()) {
                    let slot = slot_of(table, entry.pin_number());
                    assert(table[slot].pin_number() == entry.pin_number());
                    assert(after[i].pin_number() == pin);
                } else {
                    assert(after[i].pin_number() == pin);
                }
            } else {
                assert(entry.pin_number() == pin);
                if has_pin(table, entry.pin_number()) {
                    let slot = slot_of(table, entry.pin_number());
                    assert(table[slot].pin_number() == entry.pin_number());
                    assert(after[slot].pin_number() == pin);
                } else {
                    assert(after[after.len() - 1].pin_number() == pin);
                }
            }
        }
    }
}

/// The row of a configured pin is that of its last configuration.
pub proof fn lemma_table_row_is_last_configured<R: PinRow>(gpio: Seq<ConfigGpio>, k: int)
    requires
        0 <= k < gpio.len(),
        forall|j: int| k < j < gpio.len() ==> (#[trigger] gpio[j]).pin != gpio[k].pin,
    ensures
        has_pin(table_of::<R>(gpio), gpio[k].pin),
        table_of::<R>(gpio)[slot_of(table_of::<R>(gpio), gpio[k].pin)] == R::of_config(gpio[k]),
    decreases gpio.len(),
{
    let before = gpio.drop_last();
    let table = table_of::<R>(before);
    let entry = R::of_config(gpio.last());
    R::lemma_of_config_keeps_pin(gpio.last());
    R::lemma_of_config_keeps_pin(gpio[k]);
    let after = table_of::<R>(gpio);
    let pin = gpio[k].pin;
    lemma_table_is_distinct::<R>(before);
    lemma_table_is_distinct::<R>(gpio);
    if k == gpio.len() - 1 {
        if has_pin(table, entry.pin_number()) {
            let slot = slot_of(table, entry.pin_number());
            assert(table[slot].pin_number() == entry.pin_number());
            assert(after[slot] == entry);
            lemma_slot_is_unique(after, pin, slot);
        } else {
            assert(after[after.len() - 1] == entry);
            lemma_slot_is_unique(after, pin, after.len() - 1);
        }
    } else {
        assert(before[k] == gpio[k]);
        assert forall|j: int| k < j < before.len() implies (#[trigger] before[j]).pin != before[k].pin by {
            assert(before[j] == gpio[j]);
        }
        lemma_table_row_is_last_configured::<R>(before, k);
        let i = slot_of(table, pin);
        assert(table[i].pin_number() == pin);
        assert(gpio[gpio.len() - 1].pin != pin);
        if has_pin(table, entry.pin_number()) {
            let slot = slot_of(table, entry.pin_number());
            assert(table[slot].pin_number() == entry.pin_number());
            assert(after[i] == table[i]);
        } else {
            assert(after[i] == table[i]);
        }
        lemma_slot_is_unique(after, pin, i);
    }
}

} // verus!
