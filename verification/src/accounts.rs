//! What the database stores for accounts, and how an inventory is laid out in
//! its rows.

use crate::text::{copy_text, push_signed_decimal, spec_signed_decimal, str_eq};
use vstd::prelude::*;

verus! {

/// A stored game asset.
#[derive(Debug, Clone)]
pub struct Asset {
    pub content_type: String,
    pub data: Vec<u8>,
}

/// The login data of an account.
#[derive(Debug, Clone)]
pub struct AccountCredentials {
    pub account_id: i64,
    pub password_hash: String,
}

/// A new account and its character.
#[derive(Debug, Clone, Copy)]
pub struct AccountCharacter {
    pub account_id: i64,
    pub character_id: i64,
}

/// The display name that a new account's character gets.
pub open spec fn spec_default_character_name(account_id: i64) -> Seq<char> {
    "character-"@ + spec_signed_decimal(account_id as int)
}

pub fn default_character_name(account_id: i64) -> (r: String)
    ensures
        r@ == spec_default_character_name(account_id),
{
    let mut r = copy_text("character-");
    push_signed_decimal(&mut r, account_id);
    r
}

/// One row of the inventory table: an item code and a quantity.
#[derive(Debug, Clone)]
pub struct InventoryRow {
    pub item_code: String,
    pub quantity: i32,
}

/// Number of resource slots in an inventory: wood, stone, berries.
pub const INVENTORY_SLOTS: usize = 3;

/// The item code of a slot.
pub open spec fn spec_item_code(slot: int) -> Seq<char> {
    if slot == 0 {
        "wood"@
    } else if slot == 1 {
        "stone"@
    } else {
        "berries"@
    }
}

/// The item code under which crafted camp kits are stored.
pub open spec fn camp_kit_code() -> Seq<char> {
    "camp_kit"@
}

/// The slot of an item code, if it names a resource.
pub open spec fn spec_inventory_slot(item_code: Seq<char>) -> Option<usize> {
    if item_code == "wood"@ {
        Some(0)
    } else if item_code == "stone"@ {
        Some(1)
    } else if item_code == "berries"@ {
        Some(2)
    } else {
        None
    }
}

pub fn inventory_slot(item_code: &str) -> (r: Option<usize>)
    ensures
        r == spec_inventory_slot(item_code@),
{
    if str_eq(item_code, "wood") {
        Some(0)
    } else if str_eq(item_code, "stone") {
        Some(1)
    } else if str_eq(item_code, "berries") {
        Some(2)
    } else {
        None
    }
}

pub fn inventory_item_code(slot: usize) -> (r: &'static str)
    requires
        slot < INVENTORY_SLOTS,
    ensures
        r@ == spec_item_code(slot as int),
{
    if slot == 0 {
        "wood"
    } else if slot == 1 {
        "stone"
    } else {
        "berries"
    }
}

/// A stored quantity brought into the range of a stack.
pub open spec fn spec_clamp_quantity(quantity: i32) -> u16 {
    if quantity < 0 {
        0
    } else if quantity > u16::MAX {
        u16::MAX
    } else {
        quantity as u16
    }
}

pub fn clamp_quantity(quantity: i32) -> (r: u16)
    ensures
        r == spec_clamp_quantity(quantity),
{
    if quantity < 0 {
        0
    } else if quantity > 65535 {
        65535
    } else {
        quantity as u16
    }
}

pub open spec fn spec_row_view(row: InventoryRow) -> (Seq<char>, i32) {
    (row.item_code@, row.quantity)
}

pub open spec fn spec_rows_view(rows: Seq<InventoryRow>) -> Seq<(Seq<char>, i32)> {
    rows.map_values(|row: InventoryRow| spec_row_view(row))
}

/// The quantity that the last row with the given code holds, or 0.
pub open spec fn spec_last_quantity(rows: Seq<(Seq<char>, i32)>, code: Seq<char>) -> u16
    decreases rows.len(),
{
    if rows.len() == 0 {
        0
    } else if rows.last().0 == code {
        spec_clamp_quantity(rows.last().1)
    } else {
        spec_last_quantity(rows.drop_last(), code)
    }
}

/// The inventory and crafted kits that a set of rows stands for: for each
/// code, the last row wins; unknown codes are ignored.
pub open spec fn spec_inventory_from_rows(rows: Seq<(Seq<char>, i32)>) -> (Seq<u16>, u16) {
    (
        seq![
            spec_last_quantity(rows, spec_item_code(0)),
            spec_last_quantity(rows, spec_item_code(1)),
            spec_last_quantity(rows, spec_item_code(2)),
        ],
        spec_last_quantity(rows, camp_kit_code()),
    )
}

/// Reads the inventory back from its rows.
pub fn inventory_from_rows(rows: &[InventoryRow]) -> (r: ([u16; 3], u16))
    ensures
        (r.0@, r.1) == spec_inventory_from_rows(spec_rows_view(rows@)),
{
    let n = rows.len();
    let mut wood: u16 = 0;
    let mut stone: u16 = 0;
    let mut berries: u16 = 0;
    let mut crafted_kits: u16 = 0;
    let mut i: usize = 0;
    while i < n
        invariant
            n == rows@.len(),
            i <= n,
            ({
                let seen = spec_rows_view(rows@.subrange(0, i as int));
                &&& wood == spec_last_quantity(seen, spec_item_code(0))
                &&& stone == spec_last_quantity(seen, spec_item_code(1))
                &&& berries == spec_last_quantity(seen, spec_item_code(2))
                &&& crafted_kits == spec_last_quantity(seen, camp_kit_code())
            }),
        decreases n - i,
    {
        let row = &rows[i];
        let quantity = clamp_quantity(row.quantity);
        let code = row.item_code.as_str();
        proof {
            reveal_strlit("wood");
            reveal_strlit("stone");
            reveal_strlit("berries");
            reveal_strlit("camp_kit");
            lemma_codes_distinct();
            let seen = spec_rows_view(rows@.subrange(0, i + 1));
            let prior = spec_rows_view(rows@.subrange(0, i as int));
            assert(seen.drop_last() =~= prior);
            assert(seen.last() == spec_row_view(rows@[i as int]));
            assert(seen.last().0 == code@);
            assert(forall|c: Seq<char>|
                #![trigger spec_last_quantity(seen, c)]
                spec_last_quantity(seen, c) == if code@ == c {
                    quantity
                } else {
                    spec_last_quantity(prior, c)
                });
        }
        if str_eq(code, "camp_kit") {
            crafted_kits = quantity;
        } else {
            match inventory_slot(code) {
                Some(0) => {
                    wood = quantity;
                },
                Some(1) => {
                    stone = quantity;
                },
                Some(_) => {
                    berries = quantity;
                },
                None => {},
            }
        }
        i = i + 1;
    }
    assert(rows@.subrange(0, n as int) =~= rows@);
    let inventory = [wood, stone, berries];
    assert(inventory@ =~= spec_inventory_from_rows(spec_rows_view(rows@)).0);
    (inventory, crafted_kits)
}

/// The rows that store an inventory: one per non-empty slot, in slot order,
/// then one for the crafted kits if there are any.
pub open spec fn spec_inventory_rows(inventory: Seq<u16>, crafted_kits: u16) -> Seq<
    (Seq<char>, i32),
> {
    spec_slot_row(inventory, 0) + spec_slot_row(inventory, 1) + spec_slot_row(inventory, 2) + (
    if crafted_kits > 0 {
        seq![(camp_kit_code(), crafted_kits as i32)]
    } else {
        Seq::empty()
    })
}

pub open spec fn spec_slot_row(inventory: Seq<u16>, slot: int) -> Seq<(Seq<char>, i32)> {
    if inventory[slot] == 0 {
        Seq::empty()
    } else {
        seq![(spec_item_code(slot), inventory[slot] as i32)]
    }
}

/// Lays out an inventory in rows for storage.
pub fn inventory_rows(inventory: [u16; 3], crafted_kits: u16) -> (r: Vec<InventoryRow>)
    ensures
        spec_rows_view(r@) == spec_inventory_rows(inventory@, crafted_kits),
{
    let mut rows: Vec<InventoryRow> = Vec::new();
    let mut slot: usize = 0;
    while slot < INVENTORY_SLOTS
        invariant
            slot <= INVENTORY_SLOTS,
            ({
                let expected = if slot == 0 {
                    Seq::empty()
                } else if slot == 1 {
                    spec_slot_row(inventory@, 0)
                } else if slot == 2 {
                    spec_slot_row(inventory@, 0) + spec_slot_row(inventory@, 1)
                } else {
                    spec_slot_row(inventory@, 0) + spec_slot_row(inventory@, 1) + spec_slot_row(
                        inventory@,
                        2,
                    )
                };
                spec_rows_view(rows@) == expected
            }),
        decreases INVENTORY_SLOTS - slot,
    {
        let ghost before = rows@;
        let quantity = inventory[slot];
        if quantity != 0 {
            let code = copy_text(inventory_item_code(slot));
            rows.push(InventoryRow { item_code: code, quantity: quantity as i32 });
        }
        assert(spec_rows_view(rows@) =~= spec_rows_view(before) + spec_slot_row(
            inventory@,
            slot as int,
        ));
        slot = slot + 1;
    }
    let ghost before = rows@;
    if crafted_kits > 0 {
        let code = copy_text("camp_kit");
        rows.push(InventoryRow { item_code: code, quantity: crafted_kits as i32 });
    }
    assert(spec_rows_view(rows@) =~= spec_inventory_rows(inventory@, crafted_kits));
    rows
}

/// Storing an inventory and reading it back gives the same inventory and
/// crafted kits: nothing is lost or duplicated.
pub proof fn lemma_inventory_round_trip(inventory: Seq<u16>, crafted_kits: u16)
    requires
        inventory.len() == 3,
    ensures
        spec_inventory_from_rows(spec_inventory_rows(inventory, crafted_kits)) == (
            inventory,
            crafted_kits,
        ),
{
    reveal_strlit("wood");
    reveal_strlit("stone");
    reveal_strlit("berries");
    reveal_strlit("camp_kit");
    let rows = spec_inventory_rows(inventory, crafted_kits);
    assert forall|slot: int| 0 <= slot < 3 implies spec_last_quantity(rows, spec_item_code(slot))
        == inventory[slot] by {
        lemma_last_quantity_of_layout(inventory, crafted_kits, slot);
    }
    lemma_last_quantity_of_kits(inventory, crafted_kits);
    assert(seq![
        spec_last_quantity(rows, spec_item_code(0)),
        spec_last_quantity(rows, spec_item_code(1)),
        spec_last_quantity(rows, spec_item_code(2)),
    ] =~= inventory);
}

/// The last quantity of a code in `a + b`, where `b` holds no row of it.
proof fn lemma_last_quantity_skip(
    a: Seq<(Seq<char>, i32)>,
    b: Seq<(Seq<char>, i32)>,
    code: Seq<char>,
)
    requires
        forall|i: int| 0 <= i < b.len() ==> (#[trigger] b[i]).0 != code,
    ensures
        spec_last_quantity(a + b, code) == spec_last_quantity(a, code),
    decreases b.len(),
{
    if b.len() > 0 {
        assert((a + b).drop_last() =~= a + b.drop_last());
        lemma_last_quantity_skip(a, b.drop_last(), code);
    } else {
        assert(a + b =~= a);
    }
}

/// No row of a code before a given one: the last quantity is that of a later row.
proof fn lemma_last_quantity_single(
    a: Seq<(Seq<char>, i32)>,
    code: Seq<char>,
    quantity: i32,
)
    ensures
        spec_last_quantity(a + seq![(code, quantity)], code) == spec_clamp_quantity(quantity),
{
    assert((a + seq![(code, quantity)]).last() == (code, quantity));
}

proof fn lemma_codes_distinct()
    ensures
        spec_item_code(0) != spec_item_code(1),
        spec_item_code(0) != spec_item_code(2),
        spec_item_code(1) != spec_item_code(2),
        spec_item_code(0) != camp_kit_code(),
        spec_item_code(1) != camp_kit_code(),
        spec_item_code(2) != camp_kit_code(),
{
    reveal_strlit("wood");
    reveal_strlit("stone");
    reveal_strlit("berries");
    reveal_strlit("camp_kit");
    assert(spec_item_code(0).len() != spec_item_code(1).len());
    assert(spec_item_code(0).len() != spec_item_code(2).len());
    assert(spec_item_code(1).len() != spec_item_code(2).len());
    assert(spec_item_code(0).len() != camp_kit_code().len());
    assert(spec_item_code(1)[0] != camp_kit_code()[0]);
    assert(spec_item_code(2)[0] != camp_kit_code()[0]);
}

proof fn lemma_last_quantity_of_layout(inventory: Seq<u16>, crafted_kits: u16, slot: int)
    requires
        inventory.len() == 3,
        0 <= slot < 3,
    ensures
        spec_last_quantity(spec_inventory_rows(inventory, crafted_kits), spec_item_code(slot))
            == inventory[slot],
{
    lemma_codes_distinct();
    let code = spec_item_code(slot);
    let r0 = spec_slot_row(inventory, 0);
    let r1 = spec_slot_row(inventory, 1);
    let r2 = spec_slot_row(inventory, 2);
    let kits: Seq<(Seq<char>, i32)> = if crafted_kits > 0 {
        seq![(camp_kit_code(), crafted_kits as i32)]
    } else {
        Seq::empty()
    };
    let empty = Seq::<(Seq<char>, i32)>::empty();
    // Everything after the row of this slot holds other codes.
    let (before, own, after) = if slot == 0 {
        (empty, r0, r1 + r2 + kits)
    } else if slot == 1 {
        (r0, r1, r2 + kits)
    } else {
        (r0 + r1, r2, kits)
    };
    assert(spec_inventory_rows(inventory, crafted_kits) =~= before + own + after);
    assert forall|i: int| 0 <= i < after.len() implies (#[trigger] after[i]).0 != code by {
        if slot == 0 {
            assert(after =~= r1 + r2 + kits);
        }
    }
    lemma_last_quantity_skip(before + own, after, code);
    assert forall|i: int| 0 <= i < before.len() implies (#[trigger] before[i]).0 != code by {
    }
    if inventory[slot] == 0 {
        assert(own =~= empty);
        assert(before + own =~= before + empty);
        lemma_last_quantity_skip(empty, before, code);
        assert(empty + before =~= before);
        assert(before + empty =~= before);
    } else {
        lemma_last_quantity_single(before, code, inventory[slot] as i32);
    }
}

proof fn lemma_last_quantity_of_kits(inventory: Seq<u16>, crafted_kits: u16)
    requires
        inventory.len() == 3,
    ensures
        spec_last_quantity(spec_inventory_rows(inventory, crafted_kits), camp_kit_code())
            == crafted_kits,
{
    lemma_codes_distinct();
    let code = camp_kit_code();
    let slots = spec_slot_row(inventory, 0) + spec_slot_row(inventory, 1) + spec_slot_row(
        inventory,
        2,
    );
    let empty = Seq::<(Seq<char>, i32)>::empty();
    assert forall|i: int| 0 <= i < slots.len() implies (#[trigger] slots[i]).0 != code by {
    }
    if crafted_kits > 0 {
        lemma_last_quantity_single(slots, code, crafted_kits as i32);
    } else {
        assert(spec_inventory_rows(inventory, crafted_kits) =~= slots);
        lemma_last_quantity_skip(empty, slots, code);
        assert(empty + slots =~= slots);
    }
}

} // verus!
