//! Lowering a typed [`MenuOutline`] onto the placement-based executor model:
//! each separator opens the next group, every node keeps its order within that
//! group, sections and the Services menu become reserved slots of the
//! [`MenuPlan`], and the dock keeps its placements without becoming a
//! top-level menu.

use vstd::prelude::*;

use super::menu::{
    first_keys, fresh_menu, spec_reserve, spec_set_label, FixedNode, MenuPlan, MenuPlanNode,
    TopMenuModel,
};
use super::menu_model::{entries_view, MenuModel, MenuNode, MenuOutline};
use super::{CommandId, MenuPlacement};

verus! {

/// `count`, saturated at the largest `u16`.
pub open spec fn saturated(count: int) -> u16 {
    if count >= 65535 {
        65535
    } else {
        count as u16
    }
}

/// The number of separators among the first `k` nodes.
pub open spec fn separators_before(nodes: Seq<MenuNode>, k: int) -> int
    decreases k,
{
    if k <= 0 {
        0
    } else {
        separators_before(nodes, k - 1) + if nodes[k - 1] is Separator {
            1int
        } else {
            0int
        }
    }
}

/// The number of nodes between the last separator before node `k` and node `k`.
pub open spec fn run_before(nodes: Seq<MenuNode>, k: int) -> int
    decreases k,
{
    if k <= 0 {
        0
    } else if nodes[k - 1] is Separator {
        0
    } else {
        run_before(nodes, k - 1) + 1
    }
}

/// The group node `k` lowers into.
pub open spec fn group_at(nodes: Seq<MenuNode>, k: int) -> u16 {
    saturated(separators_before(nodes, k))
}

/// The order node `k` lowers into inside its group.
pub open spec fn order_at(nodes: Seq<MenuNode>, k: int) -> u16 {
    saturated(run_before(nodes, k))
}

/// The placements lowering gives the command `id` in the menu keyed `key`.
pub open spec fn menu_placements(key: &'static str, nodes: Seq<MenuNode>, id: Seq<char>) -> Seq<
    MenuPlacement,
>
    decreases nodes.len(),
{
    if nodes.len() == 0 {
        Seq::empty()
    } else {
        let k = nodes.len() - 1;
        menu_placements(key, nodes.drop_last(), id) + match nodes.last() {
            MenuNode::Command(c) => if c@ == id {
                seq![MenuPlacement { menu: key, group: group_at(nodes, k), order: order_at(nodes, k) }]
            } else {
                Seq::empty()
            },
            _ => Seq::empty(),
        }
    }
}

/// The placements lowering gives the command `id`, in outline order.
pub open spec fn outline_placements(menus: Seq<MenuModel>, id: Seq<char>) -> Seq<MenuPlacement>
    decreases menus.len(),
{
    if menus.len() == 0 {
        Seq::empty()
    } else {
        outline_placements(menus.drop_last(), id) + menu_placements(
            menus.last().key.text(),
            menus.last().nodes,
            id,
        )
    }
}

/// The keys of the outline's menu-bar menus, in order: every key but the dock.
pub open spec fn menu_bar_keys(menus: Seq<MenuModel>) -> Seq<&'static str>
    decreases menus.len(),
{
    if menus.len() == 0 {
        Seq::empty()
    } else {
        let earlier = menu_bar_keys(menus.drop_last());
        if menus.last().key@ == "Dock"@ {
            earlier
        } else {
            earlier.push(menus.last().key.text())
        }
    }
}

/// `plan` with each outline menu's title set, in outline order.
pub open spec fn labelled(plan: Seq<TopMenuModel>, menus: Seq<MenuModel>) -> Seq<TopMenuModel>
    decreases menus.len(),
{
    if menus.len() == 0 {
        plan
    } else {
        spec_set_label(labelled(plan, menus.drop_last()), menus.last().key@, menus.last().label)
    }
}

/// `plan` with the sections and Services node of one menu's `nodes` reserved
/// where they sit.
pub open spec fn reserve_nodes(plan: Seq<TopMenuModel>, key: Seq<char>, nodes: Seq<MenuNode>) -> Seq<
    TopMenuModel,
>
    decreases nodes.len(),
{
    if nodes.len() == 0 {
        plan
    } else {
        let k = nodes.len() - 1;
        let earlier = reserve_nodes(plan, key, nodes.drop_last());
        match nodes.last() {
            MenuNode::Section(section) => spec_reserve(
                earlier,
                key,
                FixedNode {
                    group: group_at(nodes, k),
                    order: order_at(nodes, k),
                    node: MenuPlanNode::Section(section.text()),
                },
            ),
            MenuNode::Services => spec_reserve(
                earlier,
                key,
                FixedNode {
                    group: group_at(nodes, k),
                    order: order_at(nodes, k),
                    node: MenuPlanNode::Services,
                },
            ),
            _ => earlier,
        }
    }
}

/// `plan` with every menu's reserved nodes, in outline order.
pub open spec fn reserved(plan: Seq<TopMenuModel>, menus: Seq<MenuModel>) -> Seq<TopMenuModel>
    decreases menus.len(),
{
    if menus.len() == 0 {
        plan
    } else {
        reserve_nodes(reserved(plan, menus.drop_last()), menus.last().key@, menus.last().nodes)
    }
}

/// The plan lowering builds from an outline: its menu-bar keys, each titled as
/// declared, with its sections and Services node reserved.
pub open spec fn spec_lowered_plan(menus: Seq<MenuModel>) -> Seq<TopMenuModel> {
    reserved(
        labelled(
            first_keys(menu_bar_keys(menus)).map_values(|k: &'static str| fresh_menu(k)),
            menus,
        ),
        menus,
    )
}

/// The ids of a placement table.
pub open spec fn table_ids(table: Seq<(CommandId, Vec<MenuPlacement>)>) -> Seq<Seq<char>> {
    table.map_values(|e: (CommandId, Vec<MenuPlacement>)| e.0@)
}

/// The first position of `id` in `ids`, or -1.
pub open spec fn id_position(ids: Seq<Seq<char>>, id: Seq<char>) -> int
    decreases ids.len(),
{
    if ids.len() == 0 {
        -1
    } else {
        let earlier = id_position(ids.drop_last(), id);
        if earlier >= 0 {
            earlier
        } else if ids.last() == id {
            ids.len() - 1
        } else {
            -1
        }
    }
}

/// The position found by [`id_position`] is in range and holds `id`; no
/// earlier position does.
pub proof fn lemma_id_position(ids: Seq<Seq<char>>, id: Seq<char>)
    ensures
        -1 <= id_position(ids, id) < ids.len(),
        id_position(ids, id) >= 0 ==> ids[id_position(ids, id)] == id,
        forall|i: int|
            0 <= i < ids.len() && (id_position(ids, id) < 0 || i < id_position(ids, id)) ==> (
            #[trigger] ids[i]) != id,
    decreases ids.len(),
{
    if ids.len() > 0 {
        lemma_id_position(ids.drop_last(), id);
        assert forall|i: int| 0 <= i < ids.len() - 1 implies #[trigger] ids[i]
            == ids.drop_last()[i] by {}
    }
}

/// The placements a table records for `id`: those of its first entry with
/// that id, or none.
pub open spec fn table_lookup(table: Seq<(CommandId, Vec<MenuPlacement>)>, id: Seq<char>) -> Seq<
    MenuPlacement,
> {
    let p = id_position(table_ids(table), id);
    if p < 0 {
        Seq::empty()
    } else {
        table[p].1@
    }
}

/// Record one more placement for `id`.
fn add_placement(
    table: &mut Vec<(CommandId, Vec<MenuPlacement>)>,
    id: CommandId,
    placement: MenuPlacement,
)
    ensures
        forall|t: Seq<char>|
            #[trigger] table_lookup(final(table)@, t) == table_lookup(old(table)@, t) + if t
                == id@ {
                seq![placement]
            } else {
                Seq::empty()
            },
{
    let ghost before = table@;
    let ghost ids = table_ids(before);
    proof {
        lemma_id_position(ids, id@);
    }
    let mut i: usize = 0;
    while i < table.len()
        invariant
            table@ == before,
            before == old(table)@,
            ids == table_ids(before),
            i <= before.len(),
            forall|k: int| 0 <= k < i ==> (#[trigger] ids[k]) != id@,
        decreases before.len() - i,
    {
        if table[i].0.same(&id) {
            assert(ids[i as int] == id@);
            assert(id_position(ids, id@) == i) by {
                lemma_id_position(ids, id@);
            }
            let (found, mut placements) = table.remove(i);
            let ghost old_placements = placements@;
            placements.push(placement);
            table.insert(i, (found, placements));
            assert(table_ids(table@) =~= ids);
            assert forall|t: Seq<char>| #[trigger]
                table_lookup(table@, t) == table_lookup(before, t) + if t == id@ {
                    seq![placement]
                } else {
                    Seq::empty()
                } by {
                lemma_id_position(ids, t);
                if t == id@ {
                    assert(table@[i as int].1@ =~= old_placements.push(placement));
                } else {
                    let p = id_position(ids, t);
                    if p >= 0 {
                        assert(p != i);
                        assert(table@[p] == before[p]);
                    }
                    assert(table_lookup(before, t) + Seq::<MenuPlacement>::empty() =~= table_lookup(
                        before,
                        t,
                    ));
                }
            }
            return;
        }
        i = i + 1;
    }
    let mut fresh: Vec<MenuPlacement> = Vec::new();
    fresh.push(placement);
    table.push((id, fresh));
    assert(table_ids(table@) =~= ids.push(id@));
    assert forall|t: Seq<char>| #[trigger]
        table_lookup(table@, t) == table_lookup(before, t) + if t == id@ {
            seq![placement]
        } else {
            Seq::empty()
        } by {
        lemma_id_position(ids, t);
        lemma_id_position(ids.push(id@), t);
        assert(ids.push(id@).drop_last() =~= ids);
        if t == id@ {
            assert(table@.last().1@ =~= seq![placement]);
        } else {
            let p = id_position(ids, t);
            if p >= 0 {
                assert(table@[p] == before[p]);
            }
            assert(table_lookup(before, t) + Seq::<MenuPlacement>::empty() =~= table_lookup(
                before,
                t,
            ));
        }
    }
}

/// The counts that place node `k` read only the nodes before it.
pub proof fn lemma_counts_read_the_prefix(nodes: Seq<MenuNode>, m: int, k: int)
    requires
        0 <= k <= m <= nodes.len(),
    ensures
        separators_before(nodes.take(m), k) == separators_before(nodes, k),
        run_before(nodes.take(m), k) == run_before(nodes, k),
    decreases k,
{
    if k > 0 {
        lemma_counts_read_the_prefix(nodes, m, k - 1);
        assert(nodes.take(m)[k - 1] == nodes[k - 1]);
    }
}

/// Both counts are counts: never negative.
pub proof fn lemma_counts_are_natural(nodes: Seq<MenuNode>, k: int)
    ensures
        separators_before(nodes, k) >= 0,
        run_before(nodes, k) >= 0,
    decreases k,
{
    if k > 0 {
        lemma_counts_are_natural(nodes, k - 1);
    }
}

/// The typed outline as the executor reads it: a plan, and every placement
/// per command in outline order. A command projected into several menus (or
/// into a menu and the dock) has one placement per surface.
pub struct LoweredMenus {
    plan: MenuPlan,
    placements: Vec<(CommandId, Vec<MenuPlacement>)>,
}

impl LoweredMenus {
    /// The plan, as a value.
    pub closed spec fn plan_view(&self) -> Seq<TopMenuModel> {
        self.plan@
    }

    /// The placements recorded for the command `id`.
    pub closed spec fn placements_of(&self, id: Seq<char>) -> Seq<MenuPlacement> {
        table_lookup(self.placements@, id)
    }

    /// The plan.
    pub fn plan(&self) -> (plan: &MenuPlan)
        ensures
            plan@ == self.plan_view(),
    {
        &self.plan
    }

    /// The plan, by value.
    pub fn into_plan(self) -> (plan: MenuPlan)
        ensures
            plan@ == self.plan_view(),
    {
        self.plan
    }

    /// Every placement of the command `id`, in outline order; none when the
    /// outline does not reference it.
    pub fn placements(&self, id: CommandId) -> (placements: Vec<MenuPlacement>)
        ensures
            placements@ == self.placements_of(id@),
    {
        let ghost ids = table_ids(self.placements@);
        proof {
            lemma_id_position(ids, id@);
        }
        let mut i: usize = 0;
        while i < self.placements.len()
            invariant
                ids == table_ids(self.placements@),
                i <= self.placements@.len(),
                forall|k: int| 0 <= k < i ==> (#[trigger] ids[k]) != id@,
                -1 <= id_position(ids, id@) < ids.len(),
                id_position(ids, id@) >= 0 ==> ids[id_position(ids, id@)] == id@,
                forall|k: int|
                    0 <= k < ids.len() && (id_position(ids, id@) < 0 || k < id_position(
                        ids,
                        id@,
                    )) ==> (#[trigger] ids[k]) != id@,
            decreases self.placements@.len() - i,
        {
            if self.placements[i].0.same(&id) {
                assert(ids[i as int] == id@);
                let found = self.placements[i].1.clone();
                return found;
            }
            i = i + 1;
        }
        Vec::new()
    }
}

/// Lower a typed outline: the menu-bar keys (every key but the dock) become
/// the plan's menus, titled as declared; each separator opens the next group
/// and every other node takes the next order in its group; commands become
/// placements, sections and the Services node become reserved slots.
pub fn lower_menus(outline: &MenuOutline) -> (lowered: LoweredMenus)
    ensures
        lowered.plan_view() == spec_lowered_plan(outline@),
        forall|id: Seq<char>| #[trigger]
            lowered.placements_of(id) == outline_placements(outline@, id),
{
    let menus = outline.menus();
    let ghost om = outline@;
    let mut keys: Vec<&'static str> = Vec::new();
    let mut i: usize = 0;
    while i < menus.len()
        invariant
            om == entries_view(menus@),
            i <= menus@.len(),
            keys@ == menu_bar_keys(om.take(i as int)),
        decreases menus@.len() - i,
    {
        assert(om.take(i + 1).drop_last() =~= om.take(i as int));
        let key = menus[i].key();
        proof {
            key.lemma_text();
        }
        if !key.is_dock() {
            keys.push(key.as_str());
        }
        i = i + 1;
    }
    assert(om.take(om.len() as int) =~= om);
    let mut plan = MenuPlan::from_keys(keys.as_slice());
    let ghost fresh = first_keys(menu_bar_keys(om)).map_values(|k: &'static str| fresh_menu(k));
    i = 0;
    while i < menus.len()
        invariant
            om == entries_view(menus@),
            i <= menus@.len(),
            plan@ == labelled(fresh, om.take(i as int)),
        decreases menus@.len() - i,
    {
        assert(om.take(i + 1).drop_last() =~= om.take(i as int));
        let entry = &menus[i];
        plan.set_menu_label(entry.key().as_str(), entry.label().duplicate());
        i = i + 1;
    }
    let ghost titled = labelled(fresh, om);
    let mut table: Vec<(CommandId, Vec<MenuPlacement>)> = Vec::new();
    i = 0;
    while i < menus.len()
        invariant
            om == entries_view(menus@),
            titled == labelled(fresh, om),
            i <= menus@.len(),
            plan@ == reserved(titled, om.take(i as int)),
            forall|t: Seq<char>| #[trigger]
                table_lookup(table@, t) == outline_placements(om.take(i as int), t),
        decreases menus@.len() - i,
    {
        assert(om.take(i + 1).drop_last() =~= om.take(i as int));
        let entry = &menus[i];
        let key = entry.key().as_str();
        let nodes = entry.nodes();
        let ghost start = plan@;
        let ghost listed = table@;
        let mut group: u16 = 0;
        let mut order: u16 = 0;
        let mut k: usize = 0;
        while k < nodes.len()
            invariant
                om == entries_view(menus@),
                i < menus@.len(),
                nodes@ == om[i as int].nodes,
                k <= nodes@.len(),
                key@ == om[i as int].key@,
                key == om[i as int].key.text(),
                plan@ == reserve_nodes(start, key@, nodes@.take(k as int)),
                forall|t: Seq<char>| #[trigger]
                    table_lookup(table@, t) == table_lookup(listed, t) + menu_placements(
                        key,
                        nodes@.take(k as int),
                        t,
                    ),
                group == group_at(nodes@, k as int),
                order == order_at(nodes@, k as int),
            decreases nodes@.len() - k,
        {
            let ghost taken = nodes@.take(k + 1);
            assert(taken.drop_last() =~= nodes@.take(k as int));
            assert(taken.last() == nodes@[k as int]);
            proof {
                lemma_counts_read_the_prefix(nodes@, k + 1, k as int);
                lemma_counts_are_natural(nodes@, k as int);
            }
            assert(separators_before(nodes@, k + 1) == separators_before(nodes@, k as int) + if nodes@[
                k as int] is Separator {
                1int
            } else {
                0int
            });
            assert(run_before(nodes@, k + 1) == if nodes@[k as int] is Separator {
                0int
            } else {
                run_before(nodes@, k as int) + 1
            });
            let ghost before_table = table@;
            match nodes[k] {
                MenuNode::Separator => {
                    group = group.saturating_add(1);
                    order = 0;

                    assert forall|t: Seq<char>| #[trigger]
                        table_lookup(table@, t) == table_lookup(listed, t) + menu_placements(
                            key,
                            taken,
                            t,
                        ) by {
                        assert(menu_placements(key, taken, t) =~= menu_placements(
                            key,
                            nodes@.take(k as int),
                            t,
                        ));
                    }
                },
                MenuNode::Command(id) => {
                    add_placement(&mut table, id, MenuPlacement::new(key, group, order));
                    order = order.saturating_add(1);
                    assert forall|t: Seq<char>| #[trigger]
                        table_lookup(table@, t) == table_lookup(listed, t) + menu_placements(
                            key,
                            taken,
                            t,
                        ) by {
                        assert(table_lookup(table@, t) == table_lookup(before_table, t) + if t
                            == id@ {
                            seq![MenuPlacement { menu: key, group: group_at(nodes@, k as int), order: order_at(nodes@, k as int) }]
                        } else {
                            Seq::empty()
                        });
                    }
                },
                MenuNode::Section(section) => {
                    proof {
                        section.lemma_text();
                    }
                    plan.reserve_section_at(key, group, order, section.as_str());
                    order = order.saturating_add(1);
                    assert forall|t: Seq<char>| #[trigger]
                        table_lookup(table@, t) == table_lookup(listed, t) + menu_placements(
                            key,
                            taken,
                            t,
                        ) by {
                        assert(menu_placements(key, taken, t) =~= menu_placements(
                            key,
                            nodes@.take(k as int),
                            t,
                        ));
                    }
                },
                MenuNode::Services => {
                    plan.reserve_services_at(key, group, order);
                    order = order.saturating_add(1);
                    assert forall|t: Seq<char>| #[trigger]
                        table_lookup(table@, t) == table_lookup(listed, t) + menu_placements(
                            key,
                            taken,
                            t,
                        ) by {
                        assert(menu_placements(key, taken, t) =~= menu_placements(
                            key,
                            nodes@.take(k as int),
                            t,
                        ));
                    }
                },
            }
            k = k + 1;
        }
        assert(nodes@.take(nodes@.len() as int) =~= nodes@);
        i = i + 1;
    }
    assert(om.take(om.len() as int) =~= om);
    LoweredMenus { plan, placements: table }
}

} // verus!
