//! Typed, tiered, stackable items; the capacity-bounded inventory; and the
//! assembly of a new minion's stats from staged ingredients.

use vstd::prelude::*;
use crate::statistics::BattleCount;
use crate::stats::{
    Stats, MINION_DMG_BASE, MINION_DMG_INC, MINION_HP_BASE, MINION_HP_INC,
    MINION_HP_REGEN_BASE, MINION_HP_REGEN_INC, MINION_SPEED_BASE, MINION_SPEED_INC,
};

verus! {

/// Most distinct stacks the inventory can hold; inserting past this cap is a
/// silent drop.
pub const MAX_ITEM_COUNT: usize = 10;

/// Most minions that can stand in the player's lineup at once.
pub const MAX_MINION_COUNT: usize = 4;

/// Which stat a summoning item feeds.
#[derive(Clone, Copy, Debug, PartialEq, Eq, Structural)]
pub enum SummoningItemType {
    /// Raises the summoned minion's damage.
    Damage,
    /// Raises the summoned minion's attack speed.
    Speed,
    /// Raises the summoned minion's maximum hit points.
    MaxHP,
    /// Raises the summoned minion's hit-point regeneration.
    HPRegeneration,
}

/// One inventory stack: items of equal `(item_type, tier)` are fungible and
/// merge by summing `quantity`.
#[derive(Clone, Copy, Debug, PartialEq, Eq, Structural)]
pub struct SummoningItem {
    /// Which stat this item feeds.
    pub item_type: SummoningItemType,
    /// Tier level, 1 through 10.
    pub tier: u8,
    /// How many items this stack aggregates; never 0.
    pub quantity: usize,
}

impl SummoningItem {
    /// A single item is well formed when its tier is in range and it counts
    /// at least one unit.
    pub open spec fn wf(self) -> bool {
        &&& 1 <= self.tier <= 10
        &&& self.quantity >= 1
    }
}

/// True when `it` belongs to the stack keyed by `(t, tier)`.
pub open spec fn matches_kind(it: SummoningItem, t: SummoningItemType, tier: u8) -> bool {
    it.item_type == t && it.tier == tier
}

/// Index of the first stack keyed by `(t, tier)`, or -1 when there is none.
pub open spec fn stack_index(s: Seq<SummoningItem>, t: SummoningItemType, tier: u8) -> int
    decreases s.len(),
{
    if s.len() == 0 {
        -1
    } else if matches_kind(s[0], t, tier) {
        0
    } else if stack_index(s.drop_first(), t, tier) == -1 {
        -1
    } else {
        stack_index(s.drop_first(), t, tier) + 1
    }
}

/// What `stack_index` finds: either nothing matches, or it is the first match.
pub proof fn lemma_stack_index(s: Seq<SummoningItem>, t: SummoningItemType, tier: u8)
    ensures
        stack_index(s, t, tier) == -1 ==> forall|i: int|
            0 <= i < s.len() ==> !matches_kind(#[trigger] s[i], t, tier),
        stack_index(s, t, tier) != -1 ==> {
            &&& 0 <= stack_index(s, t, tier) < s.len()
            &&& matches_kind(s[stack_index(s, t, tier)], t, tier)
            &&& forall|i: int|
                0 <= i < stack_index(s, t, tier) ==> !matches_kind(#[trigger] s[i], t, tier)
        },
    decreases s.len(),
{
    if s.len() > 0 {
        lemma_stack_index(s.drop_first(), t, tier);
        assert(forall|i: int| 1 <= i < s.len() ==> #[trigger] s[i] == s.drop_first()[i - 1]);
    }
}

/// The inventory after merging one incoming item into `s` with stack
/// capacity `cap`: the first stack of equal `(item_type, tier)` absorbs the
/// quantity; otherwise the item starts a new stack, unless the inventory is
/// full, in which case the item is silently dropped.
pub open spec fn merged(s: Seq<SummoningItem>, it: SummoningItem, cap: int) -> Seq<SummoningItem> {
    let i = stack_index(s, it.item_type, it.tier);
    if i >= 0 {
        s.update(i, SummoningItem { quantity: (s[i].quantity + it.quantity) as usize, ..s[i] })
    } else if s.len() < cap {
        s.push(it)
    } else {
        s
    }
}

/// The inventory after merging each of `items` into `s`, in order.
pub open spec fn merged_all(s: Seq<SummoningItem>, items: Seq<SummoningItem>, cap: int) -> Seq<
    SummoningItem,
>
    decreases items.len(),
{
    if items.len() == 0 {
        s
    } else {
        merged_all(merged(s, items[0], cap), items.drop_first(), cap)
    }
}

/// Folding one more item into a batch merge tacks it on at the end.
pub proof fn lemma_merged_all_push(
    s: Seq<SummoningItem>,
    items: Seq<SummoningItem>,
    it: SummoningItem,
    cap: int,
)
    ensures
        merged_all(s, items.push(it), cap) == merged(merged_all(s, items, cap), it, cap),
    decreases items.len(),
{
    let ext = items.push(it);
    if items.len() == 0 {
        assert(ext[0] == it);
        assert(ext.drop_first() =~= Seq::<SummoningItem>::empty());
        assert(merged_all(s, ext, cap) == merged_all(merged(s, it, cap), ext.drop_first(), cap));
        assert(merged_all(merged(s, it, cap), ext.drop_first(), cap) == merged(s, it, cap));
        assert(merged_all(s, items, cap) == s);
    } else {
        assert(ext[0] == items[0]);
        assert(ext.drop_first() =~= items.drop_first().push(it));
        lemma_merged_all_push(merged(s, items[0], cap), items.drop_first(), it, cap);
        assert(merged_all(s, ext, cap) == merged_all(merged(s, items[0], cap), ext.drop_first(), cap));
        assert(merged_all(s, items, cap) == merged_all(merged(s, items[0], cap), items.drop_first(), cap));
    }
}

/// The player's usable item stacks, in stable display order.
pub struct InventoryItems(pub Vec<SummoningItem>);

impl View for InventoryItems {
    type V = Seq<SummoningItem>;

    open spec fn view(&self) -> Seq<SummoningItem> {
        self.0@
    }
}

/// Inventory well-formedness: at most `MAX_ITEM_COUNT` stacks, every stack
/// well formed, and no two stacks share a `(item_type, tier)` key.
pub open spec fn inventory_wf(s: Seq<SummoningItem>) -> bool {
    &&& s.len() <= MAX_ITEM_COUNT
    &&& forall|i: int| 0 <= i < s.len() ==> (#[trigger] s[i]).wf()
    &&& forall|i: int, j: int|
        0 <= i < j < s.len() ==> !matches_kind(#[trigger] s[i], (#[trigger] s[j]).item_type, s[j].tier)
}

impl InventoryItems {
    /// An empty inventory.
    pub fn new() -> (r: InventoryItems)
        ensures
            r@ =~= Seq::<SummoningItem>::empty(),
    {
        InventoryItems(Vec::new())
    }

    /// Drop every stack (used by the full reset on game over).
    pub fn clear(&mut self)
        ensures
            final(self)@ =~= Seq::<SummoningItem>::empty(),
    {
        self.0.clear();
    }

    /// Merge one incoming item: the stack with equal `(item_type, tier)`
    /// absorbs its quantity, else it starts a new stack, else (at capacity)
    /// it is silently dropped.
    #[verifier::loop_isolation(false)]
    pub fn merge_item(&mut self, item: SummoningItem)
        requires
            forall|i: int|
                0 <= i < old(self)@.len() ==> (#[trigger] old(self)@[i]).quantity + item.quantity
                    <= usize::MAX,
        ensures
            final(self)@ == merged(old(self)@, item, MAX_ITEM_COUNT as int),
    {
        let ghost orig = self@;
        let n = self.0.len();
        let mut i: usize = 0;
        while i < n
            invariant
                n == self.0.len(),
                self.0@ == orig,
                i <= n,
                forall|j: int|
                    0 <= j < orig.len() ==> (#[trigger] orig[j]).quantity + item.quantity
                        <= usize::MAX,
                forall|j: int| 0 <= j < i ==> !matches_kind(#[trigger] orig[j], item.item_type, item.tier),
            decreases n - i,
        {
            let cur = self.0[i];
            if cur.item_type == item.item_type && cur.tier == item.tier {
                proof {
                    lemma_stack_index(orig, item.item_type, item.tier);
                    assert(matches_kind(orig[i as int], item.item_type, item.tier));
                    assert(stack_index(orig, item.item_type, item.tier) == i);
                }
                let grown = SummoningItem { quantity: cur.quantity + item.quantity, ..cur };
                self.0.set(i, grown);
                return;
            }
            i += 1;
        }
        proof {
            lemma_stack_index(orig, item.item_type, item.tier);
        }
        if self.0.len() < MAX_ITEM_COUNT {
            self.0.push(item);
        }
    }
}

/// Sum of the quantities of every stack in `s`.
pub open spec fn total_quantity(s: Seq<SummoningItem>) -> int
    decreases s.len(),
{
    if s.len() == 0 {
        0
    } else {
        s[0].quantity + total_quantity(s.drop_first())
    }
}

/// Every total of quantities is nonnegative.
pub proof fn lemma_total_nonneg(s: Seq<SummoningItem>)
    ensures
        0 <= total_quantity(s),
    decreases s.len(),
{
    if s.len() > 0 {
        lemma_total_nonneg(s.drop_first());
    }
}

/// One stack's quantity never exceeds the total over all stacks.
pub proof fn lemma_element_le_total(s: Seq<SummoningItem>, i: int)
    requires
        0 <= i < s.len(),
    ensures
        s[i].quantity <= total_quantity(s),
    decreases s.len(),
{
    if i == 0 {
        lemma_total_nonneg(s.drop_first());
    } else {
        lemma_element_le_total(s.drop_first(), i - 1);
        assert(s.drop_first()[i - 1] == s[i]);
    }
}

/// Updating one stack shifts the total by the difference at that index.
proof fn lemma_total_update(s: Seq<SummoningItem>, i: int, x: SummoningItem)
    requires
        0 <= i < s.len(),
    ensures
        total_quantity(s.update(i, x)) == total_quantity(s) - s[i].quantity + x.quantity,
    decreases s.len(),
{
    if i == 0 {
        assert(s.update(0, x).drop_first() =~= s.drop_first());
    } else {
        assert(s.update(i, x).drop_first() =~= s.drop_first().update(i - 1, x));
        lemma_total_update(s.drop_first(), i - 1, x);
    }
}

/// Appending a stack adds its quantity to the total.
proof fn lemma_total_push(s: Seq<SummoningItem>, x: SummoningItem)
    ensures
        total_quantity(s.push(x)) == total_quantity(s) + x.quantity,
    decreases s.len(),
{
    if s.len() == 0 {
        assert(s.push(x)[0] == x);
        assert(s.push(x).drop_first() =~= Seq::<SummoningItem>::empty());
        assert(total_quantity(s.push(x).drop_first()) == 0);
    } else {
        assert(s.push(x)[0] == s[0]);
        assert(s.push(x).drop_first() =~= s.drop_first().push(x));
        lemma_total_push(s.drop_first(), x);
    }
}

/// Merging one item grows the total by at most that item's quantity.
pub proof fn lemma_merged_total(s: Seq<SummoningItem>, it: SummoningItem, cap: int)
    requires
        forall|i: int|
            0 <= i < s.len() ==> (#[trigger] s[i]).quantity + it.quantity <= usize::MAX,
    ensures
        total_quantity(merged(s, it, cap)) <= total_quantity(s) + it.quantity,
{
    lemma_stack_index(s, it.item_type, it.tier);
    let i = stack_index(s, it.item_type, it.tier);
    if i >= 0 {
        lemma_total_update(
            s,
            i,
            SummoningItem { quantity: (s[i].quantity + it.quantity) as usize, ..s[i] },
        );
    } else if s.len() < cap {
        lemma_total_push(s, it);
    }
}

/// Merging one well-formed item keeps the inventory well formed.
pub proof fn lemma_merged_wf(s: Seq<SummoningItem>, it: SummoningItem, cap: int)
    requires
        inventory_wf(s),
        it.wf(),
        cap == MAX_ITEM_COUNT,
        forall|i: int|
            0 <= i < s.len() ==> (#[trigger] s[i]).quantity + it.quantity <= usize::MAX,
    ensures
        inventory_wf(merged(s, it, cap)),
{
    lemma_stack_index(s, it.item_type, it.tier);
    let i = stack_index(s, it.item_type, it.tier);
    if i >= 0 {
        let m = merged(s, it, cap);
        assert(forall|j: int| 0 <= j < m.len() && j != i ==> m[j] == s[j]);
        assert(m[i].item_type == s[i].item_type && m[i].tier == s[i].tier);
        assert(m[i].quantity == s[i].quantity + it.quantity);
    }
}

/// Inventory capacity: a merge never grows the inventory past the stack cap.
pub proof fn lemma_inventory_capacity(s: Seq<SummoningItem>, it: SummoningItem, cap: int)
    requires
        s.len() <= cap,
    ensures
        merged(s, it, cap).len() <= cap,
{
    lemma_stack_index(s, it.item_type, it.tier);
}

/// Reward merge idempotence: merging two items of one `(item_type, tier)`
/// key, one after the other, leaves the same inventory as merging a single
/// item carrying their summed quantity.
pub proof fn lemma_merge_idempotence(
    s: Seq<SummoningItem>,
    a: SummoningItem,
    b: SummoningItem,
    cap: int,
)
    requires
        a.item_type == b.item_type,
        a.tier == b.tier,
        a.quantity + b.quantity <= usize::MAX,
        forall|i: int|
            0 <= i < s.len() ==> (#[trigger] s[i]).quantity + a.quantity + b.quantity
                <= usize::MAX,
    ensures
        merged(merged(s, a, cap), b, cap) == merged(
            s,
            SummoningItem { quantity: (a.quantity + b.quantity) as usize, ..a },
            cap,
        ),
{
    let t = a.item_type;
    let tier = a.tier;
    let ab = SummoningItem { quantity: (a.quantity + b.quantity) as usize, ..a };
    lemma_stack_index(s, t, tier);
    let i = stack_index(s, t, tier);
    if i >= 0 {
        let grown_a = SummoningItem { quantity: (s[i].quantity + a.quantity) as usize, ..s[i] };
        let s1 = s.update(i, grown_a);
        lemma_stack_index_update_same_kind(s, i, grown_a, t, tier);
        assert(merged(s1, b, cap) == s1.update(
            i,
            SummoningItem { quantity: (s1[i].quantity + b.quantity) as usize, ..s1[i] },
        ));
        assert(s1.update(
            i,
            SummoningItem { quantity: (s1[i].quantity + b.quantity) as usize, ..s1[i] },
        ) =~= s.update(i, SummoningItem { quantity: (s[i].quantity + ab.quantity) as usize, ..s[i] }));
    } else if s.len() < cap {
        let s1 = s.push(a);
        lemma_stack_index_push(s, a, t, tier);
        assert(stack_index(s1, t, tier) == s.len());
        assert(s1[s.len() as int] == a);
        assert(merged(s1, b, cap) == s1.update(
            s.len() as int,
            SummoningItem { quantity: (a.quantity + b.quantity) as usize, ..a },
        ));
        assert(s1.update(s.len() as int, ab) =~= s.push(ab));
    }
}

/// Rewriting one stack with another of the same kind leaves every lookup
/// by `(item_type, tier)` at the same index.
proof fn lemma_stack_index_update_same_kind(
    s: Seq<SummoningItem>,
    i: int,
    x: SummoningItem,
    t: SummoningItemType,
    tier: u8,
)
    requires
        0 <= i < s.len(),
        x.item_type == s[i].item_type,
        x.tier == s[i].tier,
    ensures
        stack_index(s.update(i, x), t, tier) == stack_index(s, t, tier),
    decreases s.len(),
{
    let su = s.update(i, x);
    if i == 0 {
        assert(su.drop_first() =~= s.drop_first());
        assert(matches_kind(su[0], t, tier) == matches_kind(s[0], t, tier));
    } else {
        assert(su[0] == s[0]);
        assert(su.drop_first() =~= s.drop_first().update(i - 1, x));
        lemma_stack_index_update_same_kind(s.drop_first(), i - 1, x, t, tier);
    }
}

/// Appending to an inventory with no stack of the sought kind: the lookup
/// finds the new stack exactly when it is of that kind.
proof fn lemma_stack_index_push(
    s: Seq<SummoningItem>,
    x: SummoningItem,
    t: SummoningItemType,
    tier: u8,
)
    requires
        stack_index(s, t, tier) == -1,
    ensures
        matches_kind(x, t, tier) ==> stack_index(s.push(x), t, tier) == s.len(),
        !matches_kind(x, t, tier) ==> stack_index(s.push(x), t, tier) == -1,
    decreases s.len(),
{
    let sp = s.push(x);
    if s.len() == 0 {
        assert(sp[0] == x);
        assert(sp.drop_first() =~= Seq::<SummoningItem>::empty());
        assert(stack_index(sp.drop_first(), t, tier) == -1);
    } else {
        assert(sp[0] == s[0]);
        assert(sp.drop_first() =~= s.drop_first().push(x));
        lemma_stack_index(s.drop_first(), t, tier);
        lemma_stack_index_push(s.drop_first(), x, t, tier);
    }
}

impl InventoryItems {
    /// Merge a whole batch of items, in order, each under the same
    /// find-stack-else-append-else-drop rule.
    #[verifier::loop_isolation(false)]
    pub fn merge_all(&mut self, items: &Vec<SummoningItem>)
        requires
            total_quantity(old(self)@) + total_quantity(items@) <= usize::MAX,
        ensures
            final(self)@ == merged_all(old(self)@, items@, MAX_ITEM_COUNT as int),
    {
        let ghost orig = self@;
        let ghost cap = MAX_ITEM_COUNT as int;
        let n = items.len();
        let mut k: usize = 0;
        proof {
            assert(items@.take(0) =~= Seq::<SummoningItem>::empty());
            assert(items@.skip(0) =~= items@);
        }
        while k < n
            invariant
                k <= n,
                self@ == merged_all(orig, items@.take(k as int), cap),
                total_quantity(self@) + total_quantity(items@.skip(k as int)) <= usize::MAX,
            decreases n - k,
        {
            let it = items[k];
            proof {
                let rest = items@.skip(k as int);
                assert(rest[0] == items@[k as int]);
                assert(rest.drop_first() =~= items@.skip(k as int + 1));
                lemma_total_nonneg(rest.drop_first());
                lemma_total_nonneg(self@);
                assert(it.quantity <= total_quantity(rest));
                assert(forall|i: int|
                    0 <= i < self@.len() ==> (#[trigger] self@[i]).quantity + it.quantity
                        <= usize::MAX) by {
                    assert forall|i: int|
                        0 <= i < self@.len() implies (#[trigger] self@[i]).quantity + it.quantity
                        <= usize::MAX by {
                        lemma_element_le_total(self@, i);
                    }
                }
            }
            let ghost before = self@;
            self.merge_item(it);
            proof {
                lemma_merged_total(before, it, cap);
                assert(items@.take(k as int + 1) =~= items@.take(k as int).push(items@[k as int]));
                lemma_merged_all_push(orig, items@.take(k as int), items@[k as int], cap);
            }
            k += 1;
        }
        proof {
            assert(items@.take(n as int) =~= items@);
        }
    }

    /// Take a single unit off the stack at `index`: the stack's quantity
    /// drops by exactly one, and a stack drained to zero is removed rather
    /// than left as an observable zero-quantity entry.
    pub fn split_one(&mut self, index: usize) -> (taken: SummoningItem)
        requires
            index < old(self)@.len(),
            1 <= old(self)@[index as int].quantity,
        ensures
            taken == (SummoningItem { quantity: 1usize, ..old(self)@[index as int] }),
            old(self)@[index as int].quantity == 1 ==> final(self)@ == old(self)@.remove(
                index as int,
            ),
            old(self)@[index as int].quantity > 1 ==> final(self)@ == old(self)@.update(
                index as int,
                (SummoningItem {
                    quantity: (old(self)@[index as int].quantity - 1) as usize,
                    ..old(self)@[index as int]
                }),
            ),
    {
        let cur = self.0[index];
        let taken = SummoningItem { quantity: 1, ..cur };
        if cur.quantity == 1 {
            self.0.remove(index);
        } else {
            self.0.set(index, SummoningItem { quantity: cur.quantity - 1, ..cur });
        }
        taken
    }
}

impl InventoryItems {
    /// Discard the whole stack at `index` (the right-click delete on an
    /// inventory card).
    pub fn delete_item(&mut self, index: usize)
        requires
            index < old(self)@.len(),
        ensures
            final(self)@ == old(self)@.remove(index as int),
    {
        self.0.remove(index);
    }
}

/// Staged-ingredient well-formedness: each staged stack is a single unit,
/// and no two staged stacks feed the same stat.
pub open spec fn ingredients_wf(s: Seq<SummoningItem>) -> bool {
    &&& s.len() <= 4
    &&& forall|i: int| 0 <= i < s.len() ==> (#[trigger] s[i]).wf() && s[i].quantity == 1
    &&& forall|i: int, j: int|
        0 <= i < j < s.len() ==> (#[trigger] s[i]).item_type != (#[trigger] s[j]).item_type
}

/// Stage one unit of the inventory stack at `index` as a summoning
/// ingredient. Staging a second ingredient of a type already staged is
/// rejected and changes nothing.
#[verifier::loop_isolation(false)]
pub fn stage_ingredient(
    inventory: &mut InventoryItems,
    ingredients: &mut Vec<SummoningItem>,
    index: usize,
) -> (staged: bool)
    requires
        inventory_wf(old(inventory)@),
        ingredients_wf(old(ingredients)@),
        index < old(inventory)@.len(),
    ensures
        staged == (forall|i: int|
            0 <= i < old(ingredients)@.len() ==> (#[trigger] old(ingredients)@[i]).item_type
                != old(inventory)@[index as int].item_type),
        !staged ==> *final(inventory) == *old(inventory) && final(ingredients)@ == old(
            ingredients,
        )@,
        staged ==> {
            &&& final(ingredients)@ == old(ingredients)@.push(
                (SummoningItem { quantity: 1usize, ..old(inventory)@[index as int] }),
            )
            &&& old(inventory)@[index as int].quantity == 1 ==> final(inventory)@ == old(
                inventory,
            )@.remove(index as int)
            &&& old(inventory)@[index as int].quantity > 1 ==> final(inventory)@ == old(
                inventory,
            )@.update(
                index as int,
                (SummoningItem {
                    quantity: (old(inventory)@[index as int].quantity - 1) as usize,
                    ..old(inventory)@[index as int]
                }),
            )
            &&& ingredients_wf(final(ingredients)@)
            &&& inventory_wf(final(inventory)@)
        },
{
    let target = inventory.0[index];
    let n = ingredients.len();
    let mut i: usize = 0;
    while i < n
        invariant
            i <= n,
            n == ingredients@.len(),
            forall|j: int|
                0 <= j < i ==> (#[trigger] ingredients@[j]).item_type != target.item_type,
        decreases n - i,
    {
        if ingredients[i].item_type == target.item_type {
            return false;
        }
        i += 1;
    }
    proof {
        if ingredients@.len() == 4 {
            let t0 = ingredients@[0].item_type;
            let t1 = ingredients@[1].item_type;
            let t2 = ingredients@[2].item_type;
            let t3 = ingredients@[3].item_type;
            assert(t0 != t1 && t0 != t2 && t0 != t3 && t1 != t2 && t1 != t3 && t2 != t3);
            assert(t0 != target.item_type && t1 != target.item_type && t2 != target.item_type
                && t3 != target.item_type);
            assert(false);
        }
    }
    let taken = inventory.split_one(index);
    ingredients.push(taken);
    proof {
        let newinv = inventory@;
        let orig = old(inventory)@;
        if orig[index as int].quantity == 1 {
            assert(forall|k: int|
                0 <= k < newinv.len() ==> #[trigger] newinv[k] == if k < index {
                    orig[k]
                } else {
                    orig[k + 1]
                });
        }
    }
    true
}

/// Move the staged ingredient at `index` back into the inventory, where it
/// merges under the usual stack rule.
pub fn unstage_ingredient(
    inventory: &mut InventoryItems,
    ingredients: &mut Vec<SummoningItem>,
    index: usize,
)
    requires
        index < old(ingredients)@.len(),
        forall|i: int|
            0 <= i < old(inventory)@.len() ==> (#[trigger] old(inventory)@[i]).quantity + old(
                ingredients,
            )@[index as int].quantity <= usize::MAX,
    ensures
        final(ingredients)@ == old(ingredients)@.remove(index as int),
        final(inventory)@ == merged(
            old(inventory)@,
            old(ingredients)@[index as int],
            MAX_ITEM_COUNT as int,
        ),
{
    let it = ingredients.remove(index);
    inventory.merge_item(it);
}

/// Return every staged ingredient to the inventory (leaving the summoning
/// screen without summoning), merging each in order.
pub fn return_ingredients(inventory: &mut InventoryItems, ingredients: &mut Vec<SummoningItem>)
    requires
        total_quantity(old(inventory)@) + total_quantity(old(ingredients)@) <= usize::MAX,
    ensures
        final(inventory)@ == merged_all(
            old(inventory)@,
            old(ingredients)@,
            MAX_ITEM_COUNT as int,
        ),
        final(ingredients)@ =~= Seq::<SummoningItem>::empty(),
{
    inventory.merge_all(ingredients);
    ingredients.clear();
}

/// The stats every minion starts from before ingredients are applied.
pub open spec fn base_minion_stats() -> Stats {
    Stats {
        current_hp: MINION_HP_BASE,
        max_hp: MINION_HP_BASE,
        hp_regeneration: MINION_HP_REGEN_BASE,
        speed: MINION_SPEED_BASE,
        damage: MINION_DMG_BASE,
        current_mana: 0u64,
        max_mana: 0u64,
        mana_regeneration: 0u64,
    }
}

/// One ingredient's contribution: its type picks the stat, its tier scales
/// the increment.
pub open spec fn boosted(s: Stats, it: SummoningItem) -> Stats {
    match it.item_type {
        SummoningItemType::MaxHP => Stats {
            current_hp: (s.current_hp + MINION_HP_INC * it.tier) as u64,
            max_hp: (s.max_hp + MINION_HP_INC * it.tier) as u64,
            ..s
        },
        SummoningItemType::HPRegeneration => Stats {
            hp_regeneration: (s.hp_regeneration + MINION_HP_REGEN_INC * it.tier) as u64,
            ..s
        },
        SummoningItemType::Speed => Stats {
            speed: (s.speed + MINION_SPEED_INC * it.tier) as u64,
            ..s
        },
        SummoningItemType::Damage => Stats {
            damage: (s.damage + MINION_DMG_INC * it.tier) as u64,
            ..s
        },
    }
}

/// `s` boosted by each ingredient in turn.
pub open spec fn boosted_over(s: Stats, items: Seq<SummoningItem>) -> Stats
    decreases items.len(),
{
    if items.len() == 0 {
        s
    } else {
        boosted_over(boosted(s, items[0]), items.drop_first())
    }
}

/// The stats of a minion summoned from the given staged ingredients.
pub open spec fn summoned_minion_stats(items: Seq<SummoningItem>) -> Stats {
    boosted_over(base_minion_stats(), items)
}

/// Boosting by one more ingredient tacks its contribution on at the end.
proof fn lemma_boosted_over_push(s: Stats, items: Seq<SummoningItem>, it: SummoningItem)
    ensures
        boosted_over(s, items.push(it)) == boosted(boosted_over(s, items), it),
    decreases items.len(),
{
    let ext = items.push(it);
    if items.len() == 0 {
        assert(ext[0] == it);
        assert(ext.drop_first() =~= Seq::<SummoningItem>::empty());
        assert(boosted_over(boosted(s, it), ext.drop_first()) == boosted(s, it));
    } else {
        assert(ext[0] == items[0]);
        assert(ext.drop_first() =~= items.drop_first().push(it));
        lemma_boosted_over_push(boosted(s, items[0]), items.drop_first(), it);
        assert(boosted_over(s, items, ) == boosted_over(boosted(s, items[0]), items.drop_first()));
    }
}

/// Summon a minion from the staged ingredients: rejected (returning `None`
/// and changing nothing) when the lineup is full or nothing is staged;
/// otherwise the ingredients are consumed wholesale and the new minion's
/// stats are the base stats plus every staged increment.
#[verifier::loop_isolation(false)]
pub fn summon_minion(ingredients: &mut Vec<SummoningItem>, minion_count: usize) -> (r: Option<
    Stats,
>)
    requires
        ingredients_wf(old(ingredients)@),
    ensures
        (minion_count >= MAX_MINION_COUNT || old(ingredients)@.len() == 0) ==> r is None
            && final(ingredients)@ == old(ingredients)@,
        (minion_count < MAX_MINION_COUNT && old(ingredients)@.len() > 0) ==> {
            &&& r == Some(summoned_minion_stats(old(ingredients)@))
            &&& summoned_minion_stats(old(ingredients)@).wf()
            &&& final(ingredients)@ =~= Seq::<SummoningItem>::empty()
        },
{
    if minion_count >= MAX_MINION_COUNT || ingredients.len() == 0 {
        return None;
    }
    let ghost base = base_minion_stats();
    let mut stats = Stats {
        current_hp: MINION_HP_BASE,
        max_hp: MINION_HP_BASE,
        hp_regeneration: MINION_HP_REGEN_BASE,
        speed: MINION_SPEED_BASE,
        damage: MINION_DMG_BASE,
        current_mana: 0,
        max_mana: 0,
        mana_regeneration: 0,
    };
    let n = ingredients.len();
    let mut i: usize = 0;
    proof {
        assert(ingredients@.take(0) =~= Seq::<SummoningItem>::empty());
    }
    while i < n
        invariant
            i <= n,
            n == ingredients@.len(),
            stats == boosted_over(base, ingredients@.take(i as int)),
            stats.current_hp == stats.max_hp,
            stats.max_hp <= MINION_HP_BASE + i * 10 * MINION_HP_INC,
            stats.hp_regeneration <= i * 10 * MINION_HP_REGEN_INC,
            MINION_SPEED_BASE <= stats.speed <= MINION_SPEED_BASE + i * 10 * MINION_SPEED_INC,
            stats.damage <= MINION_DMG_BASE + i * 10 * MINION_DMG_INC,
            stats.current_mana == 0 && stats.max_mana == 0 && stats.mana_regeneration == 0,
        decreases n - i,
    {
        let it = ingredients[i];
        match it.item_type {
            SummoningItemType::MaxHP => {
                let boost = MINION_HP_INC * (it.tier as u64);
                stats.current_hp = stats.current_hp + boost;
                stats.max_hp = stats.max_hp + boost;
            },
            SummoningItemType::HPRegeneration => {
                stats.hp_regeneration = stats.hp_regeneration + MINION_HP_REGEN_INC * (
                it.tier as u64);
            },
            SummoningItemType::Speed => {
                stats.speed = stats.speed + MINION_SPEED_INC * (it.tier as u64);
            },
            SummoningItemType::Damage => {
                stats.damage = stats.damage + MINION_DMG_INC * (it.tier as u64);
            },
        }
        proof {
            assert(ingredients@.take(i as int + 1) =~= ingredients@.take(i as int).push(
                ingredients@[i as int],
            ));
            lemma_boosted_over_push(base, ingredients@.take(i as int), ingredients@[i as int]);
        }
        i += 1;
    }
    proof {
        assert(ingredients@.take(n as int) =~= ingredients@);
    }
    ingredients.clear();
    Some(stats)
}

/// The three single-unit tier-one items a fresh run starts with.
pub open spec fn starter_items() -> Seq<SummoningItem> {
    seq![
        SummoningItem { item_type: SummoningItemType::Damage, tier: 1u8, quantity: 1usize },
        SummoningItem { item_type: SummoningItemType::Speed, tier: 1u8, quantity: 1usize },
        SummoningItem { item_type: SummoningItemType::MaxHP, tier: 1u8, quantity: 1usize },
    ]
}

/// On the first visit to the summoning screen of a run (battle count 1),
/// grant the starter items; any later visit grants nothing.
pub fn grant_starter_items(inventory: &mut InventoryItems, battle_count: &BattleCount)
    requires
        total_quantity(old(inventory)@) + 3 <= usize::MAX,
    ensures
        battle_count.0 == 1 ==> final(inventory)@ == merged_all(
            old(inventory)@,
            starter_items(),
            MAX_ITEM_COUNT as int,
        ),
        battle_count.0 != 1 ==> final(inventory)@ == old(inventory)@,
{
    if battle_count.0 != 1 {
        return;
    }
    let mut items: Vec<SummoningItem> = Vec::new();
    items.push(SummoningItem { item_type: SummoningItemType::Damage, tier: 1, quantity: 1 });
    items.push(SummoningItem { item_type: SummoningItemType::Speed, tier: 1, quantity: 1 });
    items.push(SummoningItem { item_type: SummoningItemType::MaxHP, tier: 1, quantity: 1 });
    proof {
        assert(items@ =~= starter_items());
        assert(total_quantity(starter_items().drop_first().drop_first().drop_first()) == 0);
        assert(total_quantity(starter_items().drop_first().drop_first()) == 1);
        assert(total_quantity(starter_items().drop_first()) == 2);
        assert(total_quantity(starter_items()) == 3);
    }
    inventory.merge_all(&items);
}

} // verus!
