//! What lowering and projecting together keep: a well-formed outline, lowered
//! onto the plan and placements and projected back against commands that
//! carry exactly their lowered placements, shows every menu-bar menu's
//! declared nodes in the declared order.

use vstd::prelude::*;
use vstd::relations::sorted_by;

use super::lowering::{
    group_at, labelled, lemma_counts_are_natural, lemma_counts_read_the_prefix, menu_bar_keys,
    menu_placements, order_at, outline_placements, reserve_nodes, reserved, run_before,
    separators_before, spec_lowered_plan,
};
use super::menu::{
    command_entries, entry_leq, entry_node, entry_order, fixed_entries, first_keys,
    lemma_entry_order_is_total, menu_entries, separated, spec_outline_nodes, fresh_menu, has_key_text, key_position,
    lemma_key_position, placement_entries, spec_set_label, FixedNode, MenuPlanNode,
    TopMenuModel,
};
use super::{CommandId, CommandModel, MenuPlacement};
use super::menu_model::{well_formed_outline, well_separated, MenuModel, MenuNode};

verus! {

/// Two plans with the same menus, keyed alike, in the same order.
pub open spec fn same_shape(a: Seq<TopMenuModel>, b: Seq<TopMenuModel>) -> bool {
    &&& a.len() == b.len()
    &&& forall|q: int| 0 <= q < a.len() ==> (#[trigger] a[q]).key == b[q].key
}

/// The reserved slots lowering takes from one menu's nodes, in node order.
pub open spec fn slot_nodes(nodes: Seq<MenuNode>) -> Seq<FixedNode>
    decreases nodes.len(),
{
    if nodes.len() == 0 {
        Seq::empty()
    } else {
        let k = nodes.len() - 1;
        slot_nodes(nodes.drop_last()) + match nodes.last() {
            MenuNode::Section(section) => seq![
                FixedNode {
                    group: group_at(nodes, k),
                    order: order_at(nodes, k),
                    node: MenuPlanNode::Section(section.text()),
                },
            ],
            MenuNode::Services => seq![
                FixedNode {
                    group: group_at(nodes, k),
                    order: order_at(nodes, k),
                    node: MenuPlanNode::Services,
                },
            ],
            _ => Seq::empty(),
        }
    }
}

/// Plans of the same shape find a key at the same position.
proof fn lemma_same_shape_same_position(a: Seq<TopMenuModel>, b: Seq<TopMenuModel>, key: Seq<char>)
    requires
        same_shape(a, b),
    ensures
        key_position(a, key) == key_position(b, key),
    decreases a.len(),
{
    if a.len() > 0 {
        assert(a.last().key == b.last().key);
        assert(same_shape(a.drop_last(), b.drop_last())) by {
            assert forall|q: int| 0 <= q < a.drop_last().len() implies (#[trigger] a.drop_last()[
                q]).key == b.drop_last()[q].key by {
                assert(a.drop_last()[q] == a[q] && b.drop_last()[q] == b[q]);
            }
        }
        lemma_same_shape_same_position(a.drop_last(), b.drop_last(), key);
    }
}

/// Titling menus changes neither the shape nor any reserved slot.
proof fn lemma_labelled_keeps_shape_and_slots(plan: Seq<TopMenuModel>, menus: Seq<MenuModel>)
    ensures
        same_shape(labelled(plan, menus), plan),
        forall|q: int|
            0 <= q < plan.len() ==> (#[trigger] labelled(plan, menus)[q]).fixed == plan[q].fixed,
    decreases menus.len(),
{
    if menus.len() > 0 {
        let earlier = labelled(plan, menus.drop_last());
        lemma_labelled_keeps_shape_and_slots(plan, menus.drop_last());
        lemma_key_position(earlier, menus.last().key@);
        let after = spec_set_label(earlier, menus.last().key@, menus.last().label);
        assert(after == labelled(plan, menus));
        assert forall|q: int| 0 <= q < plan.len() implies (#[trigger] after[q]).key == plan[q].key
            && after[q].fixed == plan[q].fixed by {
            assert(earlier[q].key == plan[q].key);
        }
    }
}

/// Reserving one menu's nodes keeps the shape, appends that menu's slots to
/// the first menu keyed `key`, and leaves every other menu's slots alone.
proof fn lemma_reserve_nodes_effect(plan: Seq<TopMenuModel>, key: Seq<char>, nodes: Seq<MenuNode>)
    ensures
        same_shape(reserve_nodes(plan, key, nodes), plan),
        forall|q: int|
            0 <= q < plan.len() ==> (#[trigger] reserve_nodes(plan, key, nodes)[q]).fixed == if q
                == key_position(plan, key) {
                plan[q].fixed + slot_nodes(nodes)
            } else {
                plan[q].fixed
            },
    decreases nodes.len(),
{
    if nodes.len() == 0 {
        assert forall|q: int| 0 <= q < plan.len() implies (#[trigger] reserve_nodes(
            plan,
            key,
            nodes,
        )[q]).fixed == if q == key_position(plan, key) {
            plan[q].fixed + slot_nodes(nodes)
        } else {
            plan[q].fixed
        } by {
            assert(plan[q].fixed + Seq::<FixedNode>::empty() =~= plan[q].fixed);
        }
    } else {
        let earlier = reserve_nodes(plan, key, nodes.drop_last());
        lemma_reserve_nodes_effect(plan, key, nodes.drop_last());
        lemma_same_shape_same_position(earlier, plan, key);
        lemma_key_position(earlier, key);
        let p = key_position(plan, key);
        let after = reserve_nodes(plan, key, nodes);
        assert forall|q: int| 0 <= q < plan.len() implies (#[trigger] after[q]).key == plan[q].key
            && after[q].fixed == if q == p {
            plan[q].fixed + slot_nodes(nodes)
        } else {
            plan[q].fixed
        } by {
            assert(earlier[q].key == plan[q].key);
            if q == p {
                assert(plan[q].fixed + slot_nodes(nodes.drop_last()) + (slot_nodes(nodes).skip(
                    slot_nodes(nodes.drop_last()).len() as int,
                )) =~= plan[q].fixed + slot_nodes(nodes));
            }
        }
    }
}

/// Menu keys that are pairwise distinct by text.
pub open spec fn distinct_keys(menus: Seq<MenuModel>) -> bool {
    forall|a: int, b: int|
        0 <= a < b < menus.len() ==> (#[trigger] menus[a]).key@ != (#[trigger] menus[b]).key@
}

/// Reserving every menu's nodes appends to the menu keyed like menu `i` the
/// slots of menu `i`, once it has been reached, and of no other menu.
proof fn lemma_reserved_effect(plan: Seq<TopMenuModel>, menus: Seq<MenuModel>, m: int, i: int)
    requires
        0 <= m <= menus.len(),
        0 <= i < menus.len(),
        distinct_keys(menus),
        key_position(plan, menus[i].key@) >= 0,
    ensures
        same_shape(reserved(plan, menus.take(m)), plan),
        reserved(plan, menus.take(m))[key_position(plan, menus[i].key@)].fixed == plan[key_position(
            plan,
            menus[i].key@,
        )].fixed + if i < m {
            slot_nodes(menus[i].nodes)
        } else {
            Seq::empty()
        },
    decreases m,
{
    let p = key_position(plan, menus[i].key@);
    lemma_key_position(plan, menus[i].key@);
    if m == 0 {
        assert(menus.take(0) =~= Seq::<MenuModel>::empty());
        assert(plan[p].fixed + Seq::<FixedNode>::empty() =~= plan[p].fixed);
    } else {
        lemma_reserved_effect(plan, menus, m - 1, i);
        assert(menus.take(m).drop_last() =~= menus.take(m - 1));
        assert(menus.take(m).last() == menus[m - 1]);
        let earlier = reserved(plan, menus.take(m - 1));
        let key = menus[m - 1].key@;
        lemma_reserve_nodes_effect(earlier, key, menus[m - 1].nodes);
        lemma_same_shape_same_position(earlier, plan, key);
        lemma_key_position(plan, key);
        if m - 1 != i {
            assert(earlier[p].key == plan[p].key);
            if key_position(plan, key) == p {
                assert(menus[m - 1].key@ == menus[i].key@);
                if m - 1 < i {
                    assert(menus[m - 1].key@ != menus[i].key@);
                } else {
                    assert(menus[i].key@ != menus[m - 1].key@);
                }
            }
            if i < m - 1 {
            } else {
                assert(plan[p].fixed + Seq::<FixedNode>::empty() =~= plan[p].fixed);
            }
        } else {
            assert(plan[p].fixed + Seq::<FixedNode>::empty() =~= plan[p].fixed);
        }
        let after = reserved(plan, menus.take(m));
        assert(after == reserve_nodes(earlier, key, menus[m - 1].nodes));
        assert forall|q: int| 0 <= q < after.len() implies (#[trigger] after[q]).key
            == plan[q].key by {
            assert(earlier[q].key == plan[q].key);
        }
    }
}

/// Dropping repeated keys keeps every key text.
proof fn lemma_first_keys_keep_texts(keys: Seq<&'static str>, t: Seq<char>)
    ensures
        has_key_text(first_keys(keys), t) == has_key_text(keys, t),
    decreases keys.len(),
{
    if keys.len() > 0 {
        lemma_first_keys_keep_texts(keys.drop_last(), t);
        let earlier = first_keys(keys.drop_last());
        if has_key_text(keys.drop_last(), t) {
            let j = choose|j: int|
                0 <= j < keys.drop_last().len() && (#[trigger] keys.drop_last()[j])@ == t;
            assert(keys[j]@ == t);
            let e = choose|e: int| 0 <= e < earlier.len() && (#[trigger] earlier[e])@ == t;
            if !has_key_text(earlier, keys.last()@) {
                assert(earlier.push(keys.last())[e]@ == t);
            }
        } else if has_key_text(keys, t) {
            let j = choose|j: int| 0 <= j < keys.len() && (#[trigger] keys[j])@ == t;
            if j < keys.len() - 1 {
                assert(keys.drop_last()[j]@ == t);
            }
            assert(keys.last()@ == t);
            if has_key_text(earlier, keys.last()@) {
            } else {
                assert(earlier.push(keys.last())[earlier.len() as int]@ == t);
            }
        } else {
            if has_key_text(first_keys(keys), t) {
                let e = choose|e: int|
                    0 <= e < first_keys(keys).len() && (#[trigger] first_keys(keys)[e])@ == t;
                if e < earlier.len() {
                    assert(first_keys(keys)[e] == earlier[e]);
                } else {
                    assert(first_keys(keys)[e] == keys.last());
                    assert(keys[keys.len() - 1]@ == t);
                }
            }
        }
    }
}

/// Every menu but the dock contributes its key text to the menu-bar keys.
proof fn lemma_menu_bar_keys_have(menus: Seq<MenuModel>, i: int)
    requires
        0 <= i < menus.len(),
        menus[i].key@ != "Dock"@,
    ensures
        has_key_text(menu_bar_keys(menus), menus[i].key@),
    decreases menus.len(),
{
    let earlier = menu_bar_keys(menus.drop_last());
    menus.last().key.lemma_text();
    if i == menus.len() - 1 {
        assert(earlier.push(menus.last().key.text())[earlier.len() as int]@ == menus[i].key@);
    } else {
        assert(menus.drop_last()[i] == menus[i]);
        lemma_menu_bar_keys_have(menus.drop_last(), i);
        let j = choose|j: int| 0 <= j < earlier.len() && (#[trigger] earlier[j])@ == menus[i].key@;
        if menus.last().key@ != "Dock"@ {
            assert(earlier.push(menus.last().key.text())[j] == earlier[j]);
        }
    }
}

/// In the lowered plan of an outline with distinct keys, the first menu
/// keyed like a menu-bar menu holds exactly that menu's reserved slots.
proof fn lemma_lowered_menu_slots(menus: Seq<MenuModel>, i: int)
    requires
        distinct_keys(menus),
        0 <= i < menus.len(),
        menus[i].key@ != "Dock"@,
    ensures
        key_position(spec_lowered_plan(menus), menus[i].key@) >= 0,
        spec_lowered_plan(menus)[key_position(spec_lowered_plan(menus), menus[i].key@)].fixed
            == slot_nodes(menus[i].nodes),
{
    let k = menus[i].key@;
    let keys = first_keys(menu_bar_keys(menus));
    let fresh = keys.map_values(|t: &'static str| fresh_menu(t));
    let titled = labelled(fresh, menus);
    lemma_menu_bar_keys_have(menus, i);
    lemma_first_keys_keep_texts(menu_bar_keys(menus), k);
    let j = choose|j: int| 0 <= j < keys.len() && (#[trigger] keys[j])@ == k;
    assert(fresh[j].key@ == k);
    lemma_key_position(fresh, k);
    lemma_labelled_keeps_shape_and_slots(fresh, menus);
    lemma_same_shape_same_position(titled, fresh, k);
    let p = key_position(fresh, k);
    assert(titled[p].fixed == fresh[p].fixed);
    assert(fresh[p].fixed =~= Seq::<FixedNode>::empty());
    lemma_reserved_effect(titled, menus, menus.len() as int, i);
    assert(menus.take(menus.len() as int) =~= menus);
    let plan = reserved(titled, menus);
    assert(plan == spec_lowered_plan(menus));
    lemma_same_shape_same_position(plan, titled, k);
    assert(Seq::<FixedNode>::empty() + slot_nodes(menus[i].nodes) =~= slot_nodes(menus[i].nodes));
}

/// Separator counts grow with the prefix; both counts stay within it.
proof fn lemma_counts_bounded(nodes: Seq<MenuNode>, a: int, b: int)
    requires
        0 <= a <= b,
    ensures
        separators_before(nodes, a) <= separators_before(nodes, b),
        separators_before(nodes, b) <= b,
        run_before(nodes, b) <= b,
    decreases b,
{
    lemma_counts_are_natural(nodes, b);
    if b > 0 {
        lemma_counts_bounded(nodes, if a == b {
            b - 1
        } else {
            a
        }, b - 1);
        lemma_counts_are_natural(nodes, b - 1);
    }
}

/// In a menu shorter than the largest `u16`, lowering gives two different
/// non-separator nodes different places: the later one sorts strictly after.
proof fn lemma_later_nodes_sort_later(nodes: Seq<MenuNode>, x: int, y: int)
    requires
        nodes.len() < 65535,
        0 <= x < y < nodes.len(),
        !(nodes[x] is Separator),
    ensures
        group_at(nodes, x) < group_at(nodes, y) || (group_at(nodes, x) == group_at(nodes, y)
            && order_at(nodes, x) < order_at(nodes, y)),
    decreases y,
{
    lemma_counts_bounded(nodes, x, y);
    lemma_counts_bounded(nodes, x, y - 1);
    lemma_counts_bounded(nodes, y - 1, y);
    lemma_counts_bounded(nodes, x, x);
    lemma_counts_are_natural(nodes, x);
    lemma_counts_are_natural(nodes, y - 1);
    assert(group_at(nodes, x) == separators_before(nodes, x));
    assert(group_at(nodes, y) == separators_before(nodes, y));
    assert(group_at(nodes, y - 1) == separators_before(nodes, y - 1));
    assert(order_at(nodes, x) == run_before(nodes, x));
    assert(order_at(nodes, y) == run_before(nodes, y));
    assert(order_at(nodes, y - 1) == run_before(nodes, y - 1));
    if nodes[y - 1] is Separator {
        assert(separators_before(nodes, y) == separators_before(nodes, y - 1) + 1);
    } else {
        assert(separators_before(nodes, y) == separators_before(nodes, y - 1));
        assert(run_before(nodes, y) == run_before(nodes, y - 1) + 1);
        if x < y - 1 {
            lemma_later_nodes_sort_later(nodes, x, y - 1);
        }
    }
}

/// `placement_entries` of a concatenation is the concatenation.
proof fn lemma_placement_entries_concat(
    key: Seq<char>,
    a: Seq<MenuPlacement>,
    b: Seq<MenuPlacement>,
    ix: int,
)
    ensures
        placement_entries(key, a + b, ix) == placement_entries(key, a, ix) + placement_entries(
            key,
            b,
            ix,
        ),
    decreases b.len(),
{
    if b.len() == 0 {
        assert(a + b =~= a);
        assert(placement_entries(key, a, ix) + Seq::<(int, int, int)>::empty() =~= placement_entries(
            key,
            a,
            ix,
        ));
    } else {
        lemma_placement_entries_concat(key, a, b.drop_last(), ix);
        assert((a + b).drop_last() =~= a + b.drop_last());
        assert((a + b).last() == b.last());
        assert(placement_entries(key, a + b, ix) =~= placement_entries(key, a, ix)
            + placement_entries(key, b, ix));
    }
}

/// The command entries lowering gives the command `id` in one menu: one per
/// node referencing it among the first `m`, in node order.
pub open spec fn command_node_entries(nodes: Seq<MenuNode>, m: int, id: Seq<char>, ix: int) -> Seq<
    (int, int, int),
>
    decreases m,
{
    if m <= 0 {
        Seq::empty()
    } else {
        command_node_entries(nodes, m - 1, id, ix) + match nodes[m - 1] {
            MenuNode::Command(c) => if c@ == id {
                seq![(group_at(nodes, m - 1) as int, order_at(nodes, m - 1) as int, ix)]
            } else {
                Seq::empty()
            },
            _ => Seq::empty(),
        }
    }
}

/// A menu's placements, filtered to its own key, are its command node
/// entries.
proof fn lemma_menu_placement_entries(
    key: &'static str,
    nodes: Seq<MenuNode>,
    m: int,
    id: Seq<char>,
    ix: int,
)
    requires
        0 <= m <= nodes.len(),
    ensures
        placement_entries(key@, menu_placements(key, nodes.take(m), id), ix)
            == command_node_entries(nodes, m, id, ix),
    decreases m,
{
    if m == 0 {
        assert(nodes.take(0) =~= Seq::<MenuNode>::empty());
    } else {
        lemma_menu_placement_entries(key, nodes, m - 1, id, ix);
        let prefix = nodes.take(m);
        assert(prefix.drop_last() =~= nodes.take(m - 1));
        assert(prefix.last() == nodes[m - 1]);
        lemma_counts_read_the_prefix(nodes, m, m - 1);
        let tail = match prefix.last() {
            MenuNode::Command(c) => if c@ == id {
                seq![MenuPlacement { menu: key, group: group_at(prefix, m - 1), order: order_at(prefix, m - 1) }]
            } else {
                Seq::empty()
            },
            _ => Seq::empty(),
        };
        assert(menu_placements(key, prefix, id) == menu_placements(key, nodes.take(m - 1), id)
            + tail);
        lemma_placement_entries_concat(key@, menu_placements(key, nodes.take(m - 1), id), tail, ix);
        assert(placement_entries(key@, Seq::<MenuPlacement>::empty(), ix) =~= Seq::<
            (int, int, int),
        >::empty());
        if tail.len() == 1 {
            assert(tail.drop_last() =~= Seq::<MenuPlacement>::empty());
        }
        match nodes[m - 1] {
            MenuNode::Command(c) => {
                if c@ == id {
                    assert(placement_entries(key@, tail, ix) =~= seq![
                        (group_at(nodes, m - 1) as int, order_at(nodes, m - 1) as int, ix),
                    ]);
                } else {
                    assert(placement_entries(key@, tail, ix) =~= Seq::<(int, int, int)>::empty());
                }
            },
            _ => {
                assert(placement_entries(key@, tail, ix) =~= Seq::<(int, int, int)>::empty());
            },
        }
    }
}

/// Placements lowered for a menu keyed other than `key` leave no entry in
/// the menu keyed `key`.
proof fn lemma_foreign_placements_leave_no_entry(
    menu_key: &'static str,
    nodes: Seq<MenuNode>,
    id: Seq<char>,
    key: Seq<char>,
    ix: int,
)
    requires
        menu_key@ != key,
    ensures
        placement_entries(key, menu_placements(menu_key, nodes, id), ix) == Seq::<
            (int, int, int),
        >::empty(),
    decreases nodes.len(),
{
    if nodes.len() > 0 {
        lemma_foreign_placements_leave_no_entry(menu_key, nodes.drop_last(), id, key, ix);
        let k = nodes.len() - 1;
        let tail = match nodes.last() {
            MenuNode::Command(c) => if c@ == id {
                seq![MenuPlacement { menu: menu_key, group: group_at(nodes, k), order: order_at(nodes, k) }]
            } else {
                Seq::empty()
            },
            _ => Seq::empty(),
        };
        lemma_placement_entries_concat(key, menu_placements(menu_key, nodes.drop_last(), id), tail, ix);
        assert(placement_entries(key, Seq::<MenuPlacement>::empty(), ix) =~= Seq::<
            (int, int, int),
        >::empty());
        if tail.len() == 1 {
            assert(tail.drop_last() =~= Seq::<MenuPlacement>::empty());
        }
        assert(placement_entries(key, tail, ix) =~= Seq::<(int, int, int)>::empty());
        assert(Seq::<(int, int, int)>::empty() + Seq::<(int, int, int)>::empty() =~= Seq::<
            (int, int, int),
        >::empty());
    }
}

/// In an outline with distinct keys, the outline-wide placements of `id`,
/// filtered to menu `i`'s key, are menu `i`'s command node entries.
proof fn lemma_outline_placement_entries(
    menus: Seq<MenuModel>,
    m: int,
    i: int,
    id: Seq<char>,
    ix: int,
)
    requires
        distinct_keys(menus),
        0 <= i < menus.len(),
        0 <= m <= menus.len(),
    ensures
        placement_entries(menus[i].key@, outline_placements(menus.take(m), id), ix) == if i < m {
            command_node_entries(menus[i].nodes, menus[i].nodes.len() as int, id, ix)
        } else {
            Seq::empty()
        },
    decreases m,
{
    let key = menus[i].key@;
    if m == 0 {
        assert(menus.take(0) =~= Seq::<MenuModel>::empty());
    } else {
        lemma_outline_placement_entries(menus, m - 1, i, id, ix);
        assert(menus.take(m).drop_last() =~= menus.take(m - 1));
        assert(menus.take(m).last() == menus[m - 1]);
        let own = menu_placements(menus[m - 1].key.text(), menus[m - 1].nodes, id);
        lemma_placement_entries_concat(key, outline_placements(menus.take(m - 1), id), own, ix);
        menus[m - 1].key.lemma_text();
        if m - 1 == i {
            let n = menus[i].nodes;
            lemma_menu_placement_entries(menus[i].key.text(), n, n.len() as int, id, ix);
            assert(n.take(n.len() as int) =~= n);
            assert(Seq::<(int, int, int)>::empty() + command_node_entries(n, n.len() as int, id, ix)
                =~= command_node_entries(n, n.len() as int, id, ix));
        } else {
            if m - 1 < i {
                assert(menus[m - 1].key@ != menus[i].key@);
            } else {
                assert(menus[i].key@ != menus[m - 1].key@);
            }
            lemma_foreign_placements_leave_no_entry(
                menus[m - 1].key.text(),
                menus[m - 1].nodes,
                id,
                key,
                ix,
            );
            let before = placement_entries(key, outline_placements(menus.take(m - 1), id), ix);
            assert(before + Seq::<(int, int, int)>::empty() =~= before);
        }
    }
}

/// Where node `x` sorts, with insertion index `ins`.
pub open spec fn node_key(nodes: Seq<MenuNode>, x: int, ins: int) -> (int, int, int) {
    (group_at(nodes, x) as int, order_at(nodes, x) as int, ins)
}

/// Whether node `x` references the command with text `id`.
pub open spec fn references(nodes: Seq<MenuNode>, x: int, id: Seq<char>) -> bool {
    nodes[x] matches MenuNode::Command(c) && c@ == id
}

/// Whether `e` is the place, with insertion index `ix`, of one of the first
/// `m` nodes referencing `id`.
pub open spec fn placed_by(nodes: Seq<MenuNode>, m: int, id: Seq<char>, ix: int, e: (int, int, int)) -> bool {
    exists|x: int| 0 <= x < m && references(nodes, x, id) && e == node_key(nodes, x, ix)
}

/// Whether `e` is the place of a node referencing one of the first `m`
/// commands, with that command's position as insertion index.
pub open spec fn placed_by_command(
    nodes: Seq<MenuNode>,
    commands: Seq<CommandModel>,
    m: int,
    e: (int, int, int),
) -> bool {
    exists|j: int, x: int|
        0 <= j < m && 0 <= x < nodes.len() && references(nodes, x, commands[j].id@) && e
            == node_key(nodes, x, j)
}

/// Two different non-separator nodes get different places.
proof fn lemma_distinct_places(nodes: Seq<MenuNode>, x: int, y: int, a: int, b: int)
    requires
        nodes.len() < 65535,
        0 <= x < nodes.len(),
        0 <= y < nodes.len(),
        x != y,
        !(nodes[x] is Separator),
        !(nodes[y] is Separator),
    ensures
        node_key(nodes, x, a) != node_key(nodes, y, b),
        x < y ==> entry_leq(node_key(nodes, x, a), node_key(nodes, y, b)),
{
    if x < y {
        lemma_later_nodes_sort_later(nodes, x, y);
    } else {
        lemma_later_nodes_sort_later(nodes, y, x);
    }
}

/// The command node entries have no duplicates, and hold exactly the places
/// of the nodes referencing `id`.
proof fn lemma_command_node_entries(nodes: Seq<MenuNode>, m: int, id: Seq<char>, ix: int)
    requires
        nodes.len() < 65535,
        0 <= m <= nodes.len(),
    ensures
        command_node_entries(nodes, m, id, ix).no_duplicates(),
        forall|a: int|
            0 <= a < command_node_entries(nodes, m, id, ix).len() ==> placed_by(
                nodes,
                m,
                id,
                ix,
                #[trigger] command_node_entries(nodes, m, id, ix)[a],
            ),
        forall|x: int|
            0 <= x < m && references(nodes, x, id) ==> #[trigger] command_node_entries(
                nodes,
                m,
                id,
                ix,
            ).contains(node_key(nodes, x, ix)),
    decreases m,
{
    if m > 0 {
        lemma_command_node_entries(nodes, m - 1, id, ix);
        let earlier = command_node_entries(nodes, m - 1, id, ix);
        let all = command_node_entries(nodes, m, id, ix);
        if references(nodes, m - 1, id) {
            let e = node_key(nodes, m - 1, ix);
            assert(all == earlier.push(e)) by {
                assert(all =~= earlier + seq![e]);
            }
            assert forall|a: int| 0 <= a < earlier.len() implies earlier[a] != e by {
                assert(placed_by(nodes, m - 1, id, ix, earlier[a]));
                let x = choose|x: int|
                    0 <= x < m - 1 && references(nodes, x, id) && earlier[a] == node_key(
                        nodes,
                        x,
                        ix,
                    );
                lemma_distinct_places(nodes, x, m - 1, ix, ix);
            }
            assert forall|a: int| 0 <= a < all.len() implies placed_by(
                nodes,
                m,
                id,
                ix,
                #[trigger] all[a],
            ) by {
                if a < earlier.len() {
                    assert(all[a] == earlier[a]);
                    assert(placed_by(nodes, m - 1, id, ix, earlier[a]));
                    let x = choose|x: int|
                        0 <= x < m - 1 && references(nodes, x, id) && earlier[a] == node_key(
                            nodes,
                            x,
                            ix,
                        );
                    assert(0 <= x < m && references(nodes, x, id) && all[a] == node_key(
                        nodes,
                        x,
                        ix,
                    ));
                } else {
                    assert(all[a] == node_key(nodes, m - 1, ix));
                }
            }
            assert forall|x: int| 0 <= x < m && references(nodes, x, id) implies #[trigger] all.contains(
                node_key(nodes, x, ix),
            ) by {
                if x < m - 1 {
                    assert(earlier.contains(node_key(nodes, x, ix)));
                    let a = choose|a: int|
                        0 <= a < earlier.len() && earlier[a] == node_key(nodes, x, ix);
                    assert(all[a] == earlier[a]);
                } else {
                    assert(all[earlier.len() as int] == e);
                }
            }
        } else {
            assert(all =~= earlier);
            assert forall|a: int| 0 <= a < all.len() implies placed_by(
                nodes,
                m,
                id,
                ix,
                #[trigger] all[a],
            ) by {
                assert(placed_by(nodes, m - 1, id, ix, earlier[a]));
                let x = choose|x: int|
                    0 <= x < m - 1 && references(nodes, x, id) && earlier[a] == node_key(
                        nodes,
                        x,
                        ix,
                    );
                assert(0 <= x < m && references(nodes, x, id) && all[a] == node_key(nodes, x, ix));
            }
            assert forall|x: int| 0 <= x < m && references(nodes, x, id) implies #[trigger] all.contains(
                node_key(nodes, x, ix),
            ) by {
                assert(x < m - 1);
                assert(earlier.contains(node_key(nodes, x, ix)));
            }
        }
    } else {
        assert(command_node_entries(nodes, m, id, ix).len() == 0);
    }
}

/// The command entries of the menu keyed like menu `i`, over the first `m`
/// commands: no duplicates, and exactly the places of the nodes referencing
/// each command, with that command's position as insertion index.
proof fn lemma_command_entries(
    menus: Seq<MenuModel>,
    i: int,
    commands: Seq<CommandModel>,
    m: int,
)
    requires
        distinct_keys(menus),
        0 <= i < menus.len(),
        menus[i].nodes.len() < 65535,
        0 <= m <= commands.len(),
        forall|j: int|
            0 <= j < commands.len() ==> (#[trigger] commands[j]).placements == outline_placements(
                menus,
                commands[j].id@,
            ),
    ensures
        command_entries(menus[i].key@, commands.take(m)).no_duplicates(),
        forall|a: int|
            0 <= a < command_entries(menus[i].key@, commands.take(m)).len() ==> placed_by_command(
                menus[i].nodes,
                commands,
                m,
                #[trigger] command_entries(menus[i].key@, commands.take(m))[a],
            ),
        forall|j: int, x: int|
            0 <= j < m && 0 <= x < menus[i].nodes.len() && references(
                menus[i].nodes,
                x,
                commands[j].id@,
            ) ==> #[trigger] command_entries(menus[i].key@, commands.take(m)).contains(
                node_key(menus[i].nodes, x, j),
            ),
    decreases m,
{
    let key = menus[i].key@;
    let nodes = menus[i].nodes;
    if m == 0 {
        assert(commands.take(0) =~= Seq::<CommandModel>::empty());
        assert(command_entries(key, commands.take(m)).len() == 0);
    } else {
        lemma_command_entries(menus, i, commands, m - 1);
        assert(commands.take(m).drop_last() =~= commands.take(m - 1));
        assert(commands.take(m).last() == commands[m - 1]);
        let id = commands[m - 1].id@;
        lemma_outline_placement_entries(menus, menus.len() as int, i, id, m - 1);
        assert(menus.take(menus.len() as int) =~= menus);
        lemma_command_node_entries(nodes, nodes.len() as int, id, m - 1);
        let earlier = command_entries(key, commands.take(m - 1));
        let own = command_node_entries(nodes, nodes.len() as int, id, m - 1);
        let all = command_entries(key, commands.take(m));
        assert(all == earlier + own);
        assert forall|a: int, b: int| 0 <= a < earlier.len() && 0 <= b < own.len() implies earlier[a]
            != own[b] by {
            assert(placed_by_command(nodes, commands, m - 1, earlier[a]));
            let (j, x) = choose|j: int, x: int|
                0 <= j < m - 1 && 0 <= x < nodes.len() && references(nodes, x, commands[j].id@)
                    && earlier[a] == node_key(nodes, x, j);
            assert(placed_by(nodes, nodes.len() as int, id, m - 1, own[b]));
            let y = choose|y: int|
                0 <= y < nodes.len() && references(nodes, y, id) && own[b] == node_key(
                    nodes,
                    y,
                    m - 1,
                );
        }
        vstd::seq_lib::lemma_no_dup_in_concat(earlier, own);
        assert forall|a: int| 0 <= a < all.len() implies placed_by_command(
            nodes,
            commands,
            m,
            #[trigger] all[a],
        ) by {
            if a < earlier.len() {
                assert(all[a] == earlier[a]);
                assert(placed_by_command(nodes, commands, m - 1, earlier[a]));
                let (j, x) = choose|j: int, x: int|
                    0 <= j < m - 1 && 0 <= x < nodes.len() && references(
                        nodes,
                        x,
                        commands[j].id@,
                    ) && earlier[a] == node_key(nodes, x, j);
                assert(0 <= j < m && 0 <= x < nodes.len() && references(nodes, x, commands[j].id@)
                    && all[a] == node_key(nodes, x, j));
            } else {
                assert(all[a] == own[a - earlier.len()]);
                assert(placed_by(nodes, nodes.len() as int, id, m - 1, own[a - earlier.len()]));
                let y = choose|y: int|
                    0 <= y < nodes.len() && references(nodes, y, id) && own[a - earlier.len()]
                        == node_key(nodes, y, m - 1);
                assert(0 <= m - 1 < m && 0 <= y < nodes.len() && references(
                    nodes,
                    y,
                    commands[m - 1].id@,
                ) && all[a] == node_key(nodes, y, m - 1));
            }
        }
        assert forall|j: int, x: int|
            0 <= j < m && 0 <= x < nodes.len() && references(
                nodes,
                x,
                commands[j].id@,
            ) implies #[trigger] all.contains(node_key(nodes, x, j)) by {
            if j < m - 1 {
                assert(earlier.contains(node_key(nodes, x, j)));
                let a = choose|a: int| 0 <= a < earlier.len() && earlier[a] == node_key(nodes, x, j);
                assert(all[a] == earlier[a]);
            } else {
                assert(own.contains(node_key(nodes, x, j)));
                let b = choose|b: int| 0 <= b < own.len() && own[b] == node_key(nodes, x, j);
                assert(all[earlier.len() + b] == own[b]);
            }
        }
    }
}

/// Whether a node becomes a reserved slot.
pub open spec fn is_slot(node: MenuNode) -> bool {
    node is Section || node is Services
}

/// The number of reserved-slot nodes among the first `x`.
pub open spec fn slot_count(nodes: Seq<MenuNode>, x: int) -> int
    decreases x,
{
    if x <= 0 {
        0
    } else {
        slot_count(nodes, x - 1) + if is_slot(nodes[x - 1]) {
            1int
        } else {
            0int
        }
    }
}

/// The slot count is a count: never negative.
proof fn lemma_slot_count_natural(nodes: Seq<MenuNode>, x: int)
    ensures
        slot_count(nodes, x) >= 0,
    decreases x,
{
    if x > 0 {
        lemma_slot_count_natural(nodes, x - 1);
    }
}

/// The projected form of a declared node.
pub open spec fn plan_node(node: MenuNode) -> MenuPlanNode {
    match node {
        MenuNode::Command(c) => MenuPlanNode::Command(c),
        MenuNode::Separator => MenuPlanNode::Separator,
        MenuNode::Section(section) => MenuPlanNode::Section(section.text()),
        MenuNode::Services => MenuPlanNode::Services,
    }
}

/// The projected form of declared nodes, node for node.
pub open spec fn plan_form(nodes: Seq<MenuNode>) -> Seq<MenuPlanNode> {
    nodes.map_values(|node: MenuNode| plan_node(node))
}

/// Whether slot `q` comes from one of the first `m` nodes.
pub open spec fn slot_from(nodes: Seq<MenuNode>, m: int, q: int) -> bool {
    exists|x: int| 0 <= x < m && is_slot(nodes[x]) && slot_count(nodes, x) == q
}

/// The slots of the first `m` nodes: one per slot node, numbered by how many
/// slot nodes precede it, each holding that node's place and projected form.
proof fn lemma_slot_nodes(nodes: Seq<MenuNode>, m: int)
    requires
        0 <= m <= nodes.len(),
    ensures
        slot_nodes(nodes.take(m)).len() == slot_count(nodes, m),
        forall|x: int|
            0 <= x < m && is_slot(nodes[x]) ==> slot_count(nodes, x) < slot_count(nodes, m)
                && #[trigger] slot_nodes(nodes.take(m))[slot_count(nodes, x)] == (FixedNode {
                group: group_at(nodes, x),
                order: order_at(nodes, x),
                node: plan_node(nodes[x]),
            }),
        forall|q: int|
            0 <= q < slot_nodes(nodes.take(m)).len() ==> #[trigger] slot_from(nodes, m, q),
    decreases m,
{
    if m == 0 {
        assert(nodes.take(0) =~= Seq::<MenuNode>::empty());
    } else {
        lemma_slot_nodes(nodes, m - 1);
        let prefix = nodes.take(m);
        assert(prefix.drop_last() =~= nodes.take(m - 1));
        assert(prefix.last() == nodes[m - 1]);
        lemma_counts_read_the_prefix(nodes, m, m - 1);
        let earlier = slot_nodes(nodes.take(m - 1));
        let all = slot_nodes(prefix);
        let tail = match prefix.last() {
            MenuNode::Section(section) => seq![
                FixedNode {
                    group: group_at(prefix, m - 1),
                    order: order_at(prefix, m - 1),
                    node: MenuPlanNode::Section(section.text()),
                },
            ],
            MenuNode::Services => seq![
                FixedNode {
                    group: group_at(prefix, m - 1),
                    order: order_at(prefix, m - 1),
                    node: MenuPlanNode::Services,
                },
            ],
            _ => Seq::empty(),
        };
        assert(all == earlier + tail);
        assert forall|x: int| 0 <= x < m && is_slot(nodes[x]) implies slot_count(nodes, x)
            < slot_count(nodes, m) && #[trigger] all[slot_count(nodes, x)] == (FixedNode {
            group: group_at(nodes, x),
            order: order_at(nodes, x),
            node: plan_node(nodes[x]),
        }) by {
            if x < m - 1 {
                assert(earlier[slot_count(nodes, x)] == (FixedNode {
                    group: group_at(nodes, x),
                    order: order_at(nodes, x),
                    node: plan_node(nodes[x]),
                }));
                lemma_slot_count_natural(nodes, x);
                assert(slot_count(nodes, x) < earlier.len());
                assert(all[slot_count(nodes, x)] == earlier[slot_count(nodes, x)]);
            }
        }
        assert forall|q: int| 0 <= q < all.len() implies #[trigger] slot_from(nodes, m, q) by {
            if q < earlier.len() {
                assert(slot_from(nodes, m - 1, q));
                let x = choose|x: int| 0 <= x < m - 1 && is_slot(nodes[x]) && slot_count(nodes, x) == q;
                assert(0 <= x < m && is_slot(nodes[x]) && slot_count(nodes, x) == q);
            } else {
                lemma_slot_count_natural(nodes, m - 1);
                assert(0 <= m - 1 < m && is_slot(nodes[m - 1]) && slot_count(nodes, m - 1) == q);
            }
        }
    }
}

/// The position of a command registered under the text of `c`.
pub open spec fn command_position(commands: Seq<CommandModel>, c: CommandId) -> int {
    choose|j: int| 0 <= j < commands.len() && commands[j].id@ == c@
}

/// Whether some command is registered under the text of `c`.
pub open spec fn registered(commands: Seq<CommandModel>, c: CommandId) -> bool {
    exists|j: int| 0 <= j < commands.len() && commands[j].id@ == c@
}

/// What a projected node shows: its kind and the text of the command or
/// section slot it names.
pub open spec fn node_shape(node: MenuPlanNode) -> (int, Seq<char>) {
    match node {
        MenuPlanNode::Command(c) => (0, c@),
        MenuPlanNode::Separator => (1, Seq::empty()),
        MenuPlanNode::Section(slot) => (2, slot@),
        MenuPlanNode::Services => (3, Seq::empty()),
    }
}

/// What projected nodes show, node for node.
pub open spec fn shapes(nodes: Seq<MenuPlanNode>) -> Seq<(int, Seq<char>)> {
    nodes.map_values(|node: MenuPlanNode| node_shape(node))
}

/// Every command a node references is registered.
pub open spec fn every_reference_registered(nodes: Seq<MenuNode>, commands: Seq<CommandModel>) -> bool {
    forall|x: int|
        0 <= x < nodes.len() ==> match #[trigger] nodes[x] {
            MenuNode::Command(c) => registered(commands, c),
            _ => true,
        }
}

/// Where the declared node `x` sorts: its place, with the registered
/// command's position or the slot's number after every command as insertion
/// index.
pub open spec fn declared_entry(nodes: Seq<MenuNode>, x: int, commands: Seq<CommandModel>) -> (
    int,
    int,
    int,
) {
    node_key(
        nodes,
        x,
        match nodes[x] {
            MenuNode::Command(c) => command_position(commands, c),
            _ => commands.len() + slot_count(nodes, x),
        },
    )
}

/// The declared entries of the first `m` nodes, separators left out.
pub open spec fn declared_entries(nodes: Seq<MenuNode>, m: int, commands: Seq<CommandModel>) -> Seq<
    (int, int, int),
>
    decreases m,
{
    if m <= 0 {
        Seq::empty()
    } else {
        declared_entries(nodes, m - 1, commands) + if nodes[m - 1] is Separator {
            Seq::empty()
        } else {
            seq![declared_entry(nodes, m - 1, commands)]
        }
    }
}

/// Whether `e` is the declared entry of one of the first `m` nodes.
pub open spec fn declared_at(nodes: Seq<MenuNode>, m: int, commands: Seq<CommandModel>, e: (int, int, int)) -> bool {
    exists|x: int| 0 <= x < m && !(nodes[x] is Separator) && e == declared_entry(nodes, x, commands)
}

/// The declared entries are sorted, without duplicates, and are exactly the
/// entries of the non-separator nodes.
proof fn lemma_declared_entries(nodes: Seq<MenuNode>, m: int, commands: Seq<CommandModel>)
    requires
        nodes.len() < 65535,
        0 <= m <= nodes.len(),
    ensures
        sorted_by(declared_entries(nodes, m, commands), entry_order()),
        declared_entries(nodes, m, commands).no_duplicates(),
        forall|a: int|
            0 <= a < declared_entries(nodes, m, commands).len() ==> #[trigger] declared_at(
                nodes,
                m,
                commands,
                declared_entries(nodes, m, commands)[a],
            ),
        forall|x: int|
            0 <= x < m && !(nodes[x] is Separator) ==> #[trigger] declared_entries(
                nodes,
                m,
                commands,
            ).contains(declared_entry(nodes, x, commands)),
    decreases m,
{
    if m > 0 {
        lemma_declared_entries(nodes, m - 1, commands);
        let earlier = declared_entries(nodes, m - 1, commands);
        let all = declared_entries(nodes, m, commands);
        if nodes[m - 1] is Separator {
            assert(all =~= earlier);
            assert forall|a: int| 0 <= a < all.len() implies #[trigger] declared_at(
                nodes,
                m,
                commands,
                all[a],
            ) by {
                assert(declared_at(nodes, m - 1, commands, earlier[a]));
                let x = choose|x: int|
                    0 <= x < m - 1 && !(nodes[x] is Separator) && earlier[a] == declared_entry(
                        nodes,
                        x,
                        commands,
                    );
                assert(0 <= x < m && !(nodes[x] is Separator) && all[a] == declared_entry(
                    nodes,
                    x,
                    commands,
                ));
            }
            assert forall|x: int| 0 <= x < m && !(nodes[x] is Separator) implies #[trigger] all.contains(
                declared_entry(nodes, x, commands),
            ) by {
                assert(earlier.contains(declared_entry(nodes, x, commands)));
            }
        } else {
            let e = declared_entry(nodes, m - 1, commands);
            assert(all =~= earlier.push(e));
            assert forall|a: int| 0 <= a < earlier.len() implies entry_leq(earlier[a], e)
                && earlier[a] != e by {
                assert(declared_at(nodes, m - 1, commands, earlier[a]));
                let x = choose|x: int|
                    0 <= x < m - 1 && !(nodes[x] is Separator) && earlier[a] == declared_entry(
                        nodes,
                        x,
                        commands,
                    );
                lemma_distinct_places(nodes, x, m - 1, earlier[a].2, e.2);
            }
            assert(sorted_by(all, entry_order())) by {
                assert forall|a: int, b: int| 0 <= a < b < all.len() implies #[trigger] (entry_order())(
                    all[a],
                    all[b],
                ) by {
                    if b < earlier.len() {
                        assert((entry_order())(earlier[a], earlier[b]));
                    }
                }
            }
            assert forall|a: int| 0 <= a < all.len() implies #[trigger] declared_at(
                nodes,
                m,
                commands,
                all[a],
            ) by {
                if a < earlier.len() {
                    assert(declared_at(nodes, m - 1, commands, earlier[a]));
                    let x = choose|x: int|
                        0 <= x < m - 1 && !(nodes[x] is Separator) && earlier[a]
                            == declared_entry(nodes, x, commands);
                    assert(0 <= x < m && !(nodes[x] is Separator) && all[a] == declared_entry(
                        nodes,
                        x,
                        commands,
                    ));
                } else {
                    assert(0 <= m - 1 < m && !(nodes[m - 1] is Separator) && all[a] == e);
                }
            }
            assert forall|x: int| 0 <= x < m && !(nodes[x] is Separator) implies #[trigger] all.contains(
                declared_entry(nodes, x, commands),
            ) by {
                if x < m - 1 {
                    assert(earlier.contains(declared_entry(nodes, x, commands)));
                    let a = choose|a: int|
                        0 <= a < earlier.len() && earlier[a] == declared_entry(nodes, x, commands);
                    assert(all[a] == earlier[a]);
                } else {
                    assert(all[earlier.len() as int] == e);
                }
            }
        }
    }
}

/// Separating the declared entries of a well-separated menu shows each
/// non-separator node in its projected form and keeps each separator.
proof fn lemma_separated_declared(
    nodes: Seq<MenuNode>,
    m: int,
    menu: TopMenuModel,
    commands: Seq<CommandModel>,
)
    requires
        nodes.len() < 65535,
        well_separated(nodes),
        0 <= m <= nodes.len(),
        m == 0 || !(nodes[m - 1] is Separator),
        forall|x: int|
            0 <= x < nodes.len() && !(nodes[x] is Separator) ==> node_shape(
                entry_node(menu, commands, #[trigger] declared_entry(nodes, x, commands)),
            ) == node_shape(plan_node(nodes[x])),
    ensures
        shapes(separated(declared_entries(nodes, m, commands), menu, commands)) == shapes(
            plan_form(nodes.take(m)),
        ),
    decreases m,
{
    if m == 0 {
        assert(plan_form(nodes.take(0)) =~= Seq::<MenuPlanNode>::empty());
    } else {
        let e = declared_entry(nodes, m - 1, commands);
        let all = declared_entries(nodes, m, commands);
        assert(all == declared_entries(nodes, m - 1, commands).push(e)) by {
            assert(all =~= declared_entries(nodes, m - 1, commands) + seq![e]);
        }
        assert(all.drop_last() =~= declared_entries(nodes, m - 1, commands));
        assert(all.last() == e);
        lemma_counts_bounded(nodes, m - 1, m - 1);
        lemma_counts_are_natural(nodes, m - 1);
        if m == 1 || !(nodes[m - 2] is Separator) {
            lemma_separated_declared(nodes, m - 1, menu, commands);
            if m >= 2 {
                let before = declared_entries(nodes, m - 1, commands);
                assert(before =~= declared_entries(nodes, m - 2, commands) + seq![
                    declared_entry(nodes, m - 2, commands),
                ]);
                assert(all[all.len() - 2] == before.last());
                lemma_counts_bounded(nodes, m - 2, m - 2);
                lemma_counts_are_natural(nodes, m - 2);
                assert(separators_before(nodes, m - 1) == separators_before(nodes, m - 2));
            } else {
                assert(declared_entries(nodes, 0, commands).len() == 0);
            }
            let earlier = separated(declared_entries(nodes, m - 1, commands), menu, commands);
            assert(separated(all, menu, commands) =~= earlier + seq![entry_node(menu, commands, e)]);
            assert(shapes(separated(all, menu, commands)) =~= shapes(earlier).push(
                node_shape(entry_node(menu, commands, e)),
            ));
            assert(shapes(plan_form(nodes.take(m))) =~= shapes(plan_form(nodes.take(m - 1))).push(
                node_shape(plan_node(nodes[m - 1])),
            ));
        } else {
            assert(m >= 3) by {
                if m == 2 {
                    assert(nodes[0] is Separator);
                }
            }
            assert(!(nodes[m - 3] is Separator)) by {
                if nodes[m - 3] is Separator {
                    assert(nodes[m - 3] is Separator && nodes[m - 2] is Separator);
                }
            }
            lemma_separated_declared(nodes, m - 2, menu, commands);
            let before = declared_entries(nodes, m - 2, commands);
            assert(declared_entries(nodes, m - 1, commands) =~= before);
            assert(before =~= declared_entries(nodes, m - 3, commands) + seq![
                declared_entry(nodes, m - 3, commands),
            ]);
            assert(all[all.len() - 2] == before.last());
            lemma_counts_bounded(nodes, m - 3, m - 3);
            lemma_counts_bounded(nodes, m - 2, m - 2);
            lemma_counts_are_natural(nodes, m - 3);
            lemma_counts_are_natural(nodes, m - 2);
            assert(separators_before(nodes, m - 2) == separators_before(nodes, m - 3));
            assert(separators_before(nodes, m - 1) == separators_before(nodes, m - 2) + 1);
            let earlier = separated(before, menu, commands);
            assert(separated(all, menu, commands) =~= earlier + seq![MenuPlanNode::Separator]
                + seq![entry_node(menu, commands, e)]);
            assert(shapes(separated(all, menu, commands)) =~= shapes(earlier).push(
                node_shape(MenuPlanNode::Separator),
            ).push(node_shape(entry_node(menu, commands, e))));
            assert(shapes(plan_form(nodes.take(m))) =~= shapes(plan_form(nodes.take(m - 2))).push(
                node_shape(MenuPlanNode::Separator),
            ).push(node_shape(plan_node(nodes[m - 1]))));
        }
    }
}

/// Lowering a well-formed outline and projecting its plan against commands
/// that carry exactly their lowered placements (one command per id, every
/// referenced command registered) shows each menu-bar menu of fewer than
/// 65535 nodes with its declared nodes, in the declared order: commands,
/// sections and the Services menu where they were declared, and a separator
/// exactly where one was declared.
pub proof fn lemma_projection_keeps_the_declared_order(
    menus: Seq<MenuModel>,
    commands: Seq<CommandModel>,
    i: int,
)
    requires
        well_formed_outline(menus),
        0 <= i < menus.len(),
        menus[i].key@ != "Dock"@,
        menus[i].nodes.len() < 65535,
        forall|j: int|
            0 <= j < commands.len() ==> (#[trigger] commands[j]).placements == outline_placements(
                menus,
                commands[j].id@,
            ),
        forall|a: int, b: int|
            0 <= a < b < commands.len() ==> (#[trigger] commands[a]).id@ != (#[trigger] commands[b]).id@,
        every_reference_registered(menus[i].nodes, commands),
    ensures
        key_position(spec_lowered_plan(menus), menus[i].key@) >= 0,
        shapes(
            spec_outline_nodes(
                spec_lowered_plan(menus)[key_position(spec_lowered_plan(menus), menus[i].key@)],
                commands,
            ),
        ) == shapes(plan_form(menus[i].nodes)),
{
    broadcast use vstd::seq_lib::group_to_multiset_ensures;

    let nodes = menus[i].nodes;
    let n = commands.len() as int;
    assert(distinct_keys(menus));
    assert(well_separated(nodes));
    lemma_lowered_menu_slots(menus, i);
    let plan = spec_lowered_plan(menus);
    let p = key_position(plan, menus[i].key@);
    lemma_key_position(plan, menus[i].key@);
    let menu = plan[p];
    let slots = slot_nodes(nodes);
    assert(menu.fixed == slots);
    assert(nodes.take(nodes.len() as int) =~= nodes);
    lemma_slot_nodes(nodes, nodes.len() as int);
    assert(commands.take(n) =~= commands);
    lemma_command_entries(menus, i, commands, n);
    let ce = command_entries(menus[i].key@, commands);
    let fe = fixed_entries(slots, n);
    let entries = menu_entries(menu, commands);
    assert(entries == ce + fe);
    let declared = declared_entries(nodes, nodes.len() as int, commands);
    lemma_declared_entries(nodes, nodes.len() as int, commands);

    // Where each node's declared entry sorts, and what it stands for.
    assert forall|x: int| 0 <= x < nodes.len() && !(nodes[x] is Separator) implies node_shape(
        entry_node(menu, commands, #[trigger] declared_entry(nodes, x, commands)),
    ) == node_shape(plan_node(nodes[x])) && (ce + fe).contains(declared_entry(nodes, x, commands)) by {
        lemma_slot_count_natural(nodes, x);
        match nodes[x] {
            MenuNode::Command(c) => {
                assert(registered(commands, c));
                let j = command_position(commands, c);
                assert(0 <= j < n && commands[j].id@ == c@);
                assert(references(nodes, x, commands[j].id@));
                assert(ce.contains(node_key(nodes, x, j)));
                let a = choose|a: int| 0 <= a < ce.len() && ce[a] == node_key(nodes, x, j);
                assert((ce + fe)[a] == ce[a]);
            },
            MenuNode::Separator => {},
            _ => {
                let q = slot_count(nodes, x);
                assert(slots[q] == (FixedNode {
                    group: group_at(nodes, x),
                    order: order_at(nodes, x),
                    node: plan_node(nodes[x]),
                }));
                assert(fe[q] == (slots[q].group as int, slots[q].order as int, n + q));
                assert((ce + fe)[ce.len() + q] == fe[q]);
            },
        }
    }

    // The entries and the declared entries hold the same elements.
    assert forall|e: (int, int, int)| entries.contains(e) <==> declared.contains(e) by {
        if entries.contains(e) {
            let a = choose|a: int| 0 <= a < entries.len() && entries[a] == e;
            if a < ce.len() {
                assert(placed_by_command(nodes, commands, n, ce[a]));
                let (j, x) = choose|j: int, x: int|
                    0 <= j < n && 0 <= x < nodes.len() && references(nodes, x, commands[j].id@)
                        && ce[a] == node_key(nodes, x, j);
                let c = nodes[x]->Command_0;
                assert(registered(commands, c));
                let k = command_position(commands, c);
                assert(0 <= k < n && commands[k].id@ == c@);
                if k != j {
                    if k < j {
                        assert(commands[k].id@ != commands[j].id@);
                    } else {
                        assert(commands[j].id@ != commands[k].id@);
                    }
                }
                assert(e == declared_entry(nodes, x, commands));
                assert(declared.contains(declared_entry(nodes, x, commands)));
            } else {
                let q = a - ce.len();
                assert(entries[a] == fe[q]);
                assert(slot_from(nodes, nodes.len() as int, q));
                let x = choose|x: int|
                    0 <= x < nodes.len() && is_slot(nodes[x]) && slot_count(nodes, x) == q;
                assert(slots[q] == (FixedNode {
                    group: group_at(nodes, x),
                    order: order_at(nodes, x),
                    node: plan_node(nodes[x]),
                }));
                assert(e == declared_entry(nodes, x, commands));
                assert(declared.contains(declared_entry(nodes, x, commands)));
            }
        }
        if declared.contains(e) {
            let a = choose|a: int| 0 <= a < declared.len() && declared[a] == e;
            assert(declared_at(nodes, nodes.len() as int, commands, declared[a]));
            let x = choose|x: int|
                0 <= x < nodes.len() && !(nodes[x] is Separator) && declared[a] == declared_entry(
                    nodes,
                    x,
                    commands,
                );
            assert((ce + fe).contains(declared_entry(nodes, x, commands)));
        }
    }

    // Neither holds a duplicate, so they are the same multiset.
    assert(fe.no_duplicates());
    assert forall|a: int, b: int| 0 <= a < ce.len() && 0 <= b < fe.len() implies ce[a] != fe[b] by {
        assert(placed_by_command(nodes, commands, n, ce[a]));
    }
    vstd::seq_lib::lemma_no_dup_in_concat(ce, fe);
    entries.lemma_multiset_has_no_duplicates();
    declared.lemma_multiset_has_no_duplicates();
    assert(entries.to_multiset() =~= declared.to_multiset()) by {
        assert forall|e: (int, int, int)| entries.to_multiset().count(e) == declared.to_multiset().count(
            e,
        ) by {
            if entries.contains(e) {
                assert(entries.to_multiset().contains(e));
                assert(declared.to_multiset().contains(e));
            } else {
                assert(!declared.contains(e));
            }
        }
    }

    // Sorting the entries therefore gives the declared entries.
    lemma_entry_order_is_total();
    entries.lemma_sort_by_ensures(entry_order());
    vstd::seq_lib::lemma_sorted_unique(entries.sort_by(entry_order()), declared, entry_order());
    lemma_separated_declared(nodes, nodes.len() as int, menu, commands);
}

} // verus!
