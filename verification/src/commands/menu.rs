//! [`MenuPlan`]: the declarative native-menu description, projected from the
//! registered commands.
//!
//! [`MenuPlan::outline`] computes, for each top-level menu, the ordered nodes
//! it shows: every command placed in the menu and every reserved slot, sorted
//! by `(group, order)` with ties kept in registration order, and a separator
//! between adjacent groups.

use vstd::prelude::*;
use vstd::relations::{sorted_by, total_ordering};
use vstd::seq_lib::lemma_sorted_unique;

use super::menu_model::{LabelModel, MenuLabel};
use super::{commands_view, CommandId, CommandModel, MenuPlacement, RuntimeCommand};
use crate::text::str_eq;

verus! {

/// One node in a projected menu.
#[derive(Clone, Copy, Debug, PartialEq, Eq)]
pub enum MenuPlanNode {
    /// A command, referenced by id.
    Command(CommandId),
    /// A separator between groups or before a section.
    Separator,
    /// A reserved section slot, expanded by its registered provider.
    Section(&'static str),
    /// The macOS system-managed Services menu.
    Services,
}

/// The ordered structure of one top-level menu.
#[derive(Debug, PartialEq, Eq)]
pub struct MenuPlanOutline {
    /// The top-level menu key.
    pub key: &'static str,
    /// The ordered nodes.
    pub nodes: Vec<MenuPlanNode>,
}

/// A reserved slot of a top-level menu and where it sorts.
#[derive(Clone, Copy, Debug)]
pub struct FixedNode {
    /// The group the slot sorts into.
    pub group: u16,
    /// The order inside that group.
    pub order: u16,
    /// The slot: a section or the Services menu.
    pub node: MenuPlanNode,
}

/// A top-level menu of a plan, as a value.
pub struct TopMenuModel {
    /// The menu key.
    pub key: &'static str,
    /// The declared title, if any.
    pub label: Option<LabelModel>,
    /// The reserved slots, in reservation order.
    pub fixed: Seq<FixedNode>,
}

struct TopMenu {
    key: &'static str,
    label: Option<MenuLabel>,
    fixed: Vec<FixedNode>,
}

impl View for TopMenu {
    type V = TopMenuModel;

    closed spec fn view(&self) -> TopMenuModel {
        TopMenuModel {
            key: self.key,
            label: match self.label {
                Some(label) => Some(label@),
                None => None,
            },
            fixed: self.fixed@,
        }
    }
}

/// A declarative description of the native menu bar: its top-level menus in
/// order, each with an optional title and its reserved slots.
pub struct MenuPlan {
    menus: Vec<TopMenu>,
}

impl View for MenuPlan {
    type V = Seq<TopMenuModel>;

    closed spec fn view(&self) -> Seq<TopMenuModel> {
        self.menus@.map_values(|m: TopMenu| m@)
    }
}

/// The section slot fed by the theme service's Appearance/Theme submenu.
pub const THEME_SECTION: &'static str = "appearance";

/// A fresh top-level menu keyed `key`.
pub open spec fn fresh_menu(key: &'static str) -> TopMenuModel {
    TopMenuModel { key, label: None, fixed: Seq::empty() }
}

/// Whether some key of `keys` has the text `key`.
pub open spec fn has_key_text(keys: Seq<&'static str>, key: Seq<char>) -> bool {
    exists|i: int| 0 <= i < keys.len() && (#[trigger] keys[i])@ == key
}

/// `keys` with every key dropped whose text occurred earlier.
pub open spec fn first_keys(keys: Seq<&'static str>) -> Seq<&'static str>
    decreases keys.len(),
{
    if keys.len() == 0 {
        Seq::empty()
    } else {
        let earlier = first_keys(keys.drop_last());
        if has_key_text(earlier, keys.last()@) {
            earlier
        } else {
            earlier.push(keys.last())
        }
    }
}

/// The keys of a plan's menus.
pub open spec fn plan_keys(menus: Seq<TopMenuModel>) -> Seq<&'static str> {
    menus.map_values(|m: TopMenuModel| m.key)
}

/// The position of the first menu keyed `key`, or -1.
pub open spec fn key_position(menus: Seq<TopMenuModel>, key: Seq<char>) -> int
    decreases menus.len(),
{
    if menus.len() == 0 {
        -1
    } else {
        let earlier = key_position(menus.drop_last(), key);
        if earlier >= 0 {
            earlier
        } else if menus.last().key@ == key {
            menus.len() - 1
        } else {
            -1
        }
    }
}

/// `menus` with the first menu keyed `key` titled `label`.
pub open spec fn spec_set_label(menus: Seq<TopMenuModel>, key: Seq<char>, label: LabelModel) -> Seq<
    TopMenuModel,
> {
    let p = key_position(menus, key);
    if p < 0 {
        menus
    } else {
        menus.update(p, TopMenuModel { label: Some(label), ..menus[p] })
    }
}

/// `menus` with `slot` reserved in the first menu keyed `key`.
pub open spec fn spec_reserve(menus: Seq<TopMenuModel>, key: Seq<char>, slot: FixedNode) -> Seq<
    TopMenuModel,
> {
    let p = key_position(menus, key);
    if p < 0 {
        menus
    } else {
        menus.update(p, TopMenuModel { fixed: menus[p].fixed.push(slot), ..menus[p] })
    }
}

/// The position found by [`key_position`] is in range and keyed `key`; no
/// earlier menu has that key.
pub proof fn lemma_key_position(menus: Seq<TopMenuModel>, key: Seq<char>)
    ensures
        -1 <= key_position(menus, key) < menus.len(),
        key_position(menus, key) >= 0 ==> menus[key_position(menus, key)].key@ == key,
        forall|i: int|
            0 <= i < menus.len() && (key_position(menus, key) < 0 || i < key_position(
                menus,
                key,
            )) ==> (#[trigger] menus[i]).key@ != key,
    decreases menus.len(),
{
    if menus.len() > 0 {
        lemma_key_position(menus.drop_last(), key);
        assert forall|i: int|
            0 <= i < menus.len() - 1 implies #[trigger] menus[i] == menus.drop_last()[i] by {}
    }
}

/// Where an entry of a menu sorts: `(group, order, insertion)`, where the
/// insertion index of a command's placement is the command's position and
/// that of the `j`-th reserved slot is the number of commands plus `j`.
pub open spec fn entry_leq(a: (int, int, int), b: (int, int, int)) -> bool {
    ||| a.0 < b.0
    ||| (a.0 == b.0 && a.1 < b.1)
    ||| (a.0 == b.0 && a.1 == b.1 && a.2 <= b.2)
}

/// [`entry_leq`] as a relation.
pub open spec fn entry_order() -> spec_fn((int, int, int), (int, int, int)) -> bool {
    |a: (int, int, int), b: (int, int, int)| entry_leq(a, b)
}

/// The lexicographic order of entries is a total order.
pub proof fn lemma_entry_order_is_total()
    ensures
        total_ordering(entry_order()),
{
}

/// The entries of the placements in `placements` that target `key`, all with
/// insertion index `ix`.
pub open spec fn placement_entries(key: Seq<char>, placements: Seq<MenuPlacement>, ix: int) -> Seq<
    (int, int, int),
>
    decreases placements.len(),
{
    if placements.len() == 0 {
        Seq::empty()
    } else {
        let p = placements.last();
        placement_entries(key, placements.drop_last(), ix) + if p.menu@ == key {
            seq![(p.group as int, p.order as int, ix)]
        } else {
            Seq::empty()
        }
    }
}

/// The entries of every command placement that targets `key`, in command
/// order.
pub open spec fn command_entries(key: Seq<char>, commands: Seq<CommandModel>) -> Seq<
    (int, int, int),
>
    decreases commands.len(),
{
    if commands.len() == 0 {
        Seq::empty()
    } else {
        command_entries(key, commands.drop_last()) + placement_entries(
            key,
            commands.last().placements,
            commands.len() - 1,
        )
    }
}

/// The entries of the reserved slots, numbered from `base`.
pub open spec fn fixed_entries(fixed: Seq<FixedNode>, base: int) -> Seq<(int, int, int)> {
    Seq::new(fixed.len(), |j: int| (fixed[j].group as int, fixed[j].order as int, base + j))
}

/// Every entry of `menu`: its command placements, then its reserved slots.
pub open spec fn menu_entries(menu: TopMenuModel, commands: Seq<CommandModel>) -> Seq<
    (int, int, int),
> {
    command_entries(menu.key@, commands) + fixed_entries(menu.fixed, commands.len() as int)
}

/// The node an entry stands for.
pub open spec fn entry_node(menu: TopMenuModel, commands: Seq<CommandModel>, e: (int, int, int)) -> MenuPlanNode {
    if e.2 < commands.len() {
        MenuPlanNode::Command(commands[e.2].id)
    } else {
        menu.fixed[e.2 - commands.len()].node
    }
}

/// The nodes of sorted entries, with a separator wherever the group changes.
pub open spec fn separated(
    sorted: Seq<(int, int, int)>,
    menu: TopMenuModel,
    commands: Seq<CommandModel>,
) -> Seq<MenuPlanNode>
    decreases sorted.len(),
{
    if sorted.len() == 0 {
        Seq::empty()
    } else {
        let gap = if sorted.len() >= 2 && sorted[sorted.len() - 2].0 != sorted.last().0 {
            seq![MenuPlanNode::Separator]
        } else {
            Seq::empty()
        };
        separated(sorted.drop_last(), menu, commands) + gap + seq![
            entry_node(menu, commands, sorted.last()),
        ]
    }
}

/// The nodes `menu` shows: its entries sorted by `(group, order, insertion)`,
/// separated between groups.
pub open spec fn spec_outline_nodes(menu: TopMenuModel, commands: Seq<CommandModel>) -> Seq<
    MenuPlanNode,
> {
    separated(menu_entries(menu, commands).sort_by(entry_order()), menu, commands)
}

/// An entry as it is kept while projecting: group, order, whether it is a
/// reserved slot, and its index among the commands or among the slots.
type PlacedEntry = (u16, u16, bool, usize);

/// The `(group, order, insertion)` of a kept entry, for `n` commands.
pub open spec fn entry_view(e: (u16, u16, bool, usize), n: int) -> (int, int, int) {
    (e.0 as int, e.1 as int, if e.2 { n + e.3 } else { e.3 as int })
}

/// The `(group, order, insertion)` of kept entries, for `n` commands.
pub open spec fn entries_view(s: Seq<(u16, u16, bool, usize)>, n: int) -> Seq<(int, int, int)> {
    s.map_values(|e: (u16, u16, bool, usize)| entry_view(e, n))
}

/// A kept entry indexes an existing command or slot.
pub open spec fn entry_in_range(e: (u16, u16, bool, usize), n: int, slots: int) -> bool {
    if e.2 {
        e.3 < slots
    } else {
        e.3 < n
    }
}

/// Whether `a` sorts no later than `b`.
fn entry_le(a: PlacedEntry, b: PlacedEntry, Ghost(n): Ghost<int>) -> (le: bool)
    requires
        !a.2 ==> a.3 < n,
        !b.2 ==> b.3 < n,
    ensures
        le == entry_leq(entry_view(a, n), entry_view(b, n)),
{
    if a.0 != b.0 {
        a.0 < b.0
    } else if a.1 != b.1 {
        a.1 < b.1
    } else if a.2 != b.2 {
        !a.2
    } else {
        a.3 <= b.3
    }
}

/// Collect the entries of `menu`.
fn collect_entries(menu: &TopMenu, commands: &[RuntimeCommand]) -> (entries: Vec<PlacedEntry>)
    ensures
        entries_view(entries@, commands@.len() as int) == menu_entries(
            menu@,
            commands_view(commands@),
        ),
        forall|i: int|
            0 <= i < entries@.len() ==> entry_in_range(
                #[trigger] entries@[i],
                commands@.len() as int,
                menu@.fixed.len() as int,
            ),
{
    let ghost cm = commands_view(commands@);
    let ghost n = commands@.len() as int;
    let ghost key = menu@.key@;
    let mut entries: Vec<PlacedEntry> = Vec::new();
    let mut ix: usize = 0;
    while ix < commands.len()
        invariant
            cm == commands_view(commands@),
            n == commands@.len(),
            key == menu@.key@,
            ix <= n,
            entries_view(entries@, n) == command_entries(key, cm.take(ix as int)),
            forall|i: int|
                0 <= i < entries@.len() ==> !(#[trigger] entries@[i]).2 && entries@[i].3 < ix,
        decreases n - ix,
    {
        let placements = commands[ix].placements();
        assert(cm.take(ix + 1).drop_last() =~= cm.take(ix as int));
        assert(cm.take(ix + 1).last() == commands@[ix as int]@);
        let ghost before = entries@;
        let mut k: usize = 0;
        while k < placements.len()
            invariant
                n == commands@.len(),
                ix < n,
                key == menu@.key@,
                k <= placements@.len(),
                entries_view(entries@, n) == entries_view(before, n) + placement_entries(
                    key,
                    placements@.take(k as int),
                    ix as int,
                ),
                forall|i: int|
                    0 <= i < entries@.len() ==> !(#[trigger] entries@[i]).2 && entries@[i].3
                        <= ix,
            decreases placements@.len() - k,
        {
            let p = placements[k];
            assert(placements@.take(k + 1).drop_last() =~= placements@.take(k as int));
            assert(placements@.take(k + 1).last() == p);
            if str_eq(p.menu, menu.key) {
                let ghost old_entries = entries@;
                entries.push((p.group, p.order, false, ix));
                assert(entries_view(entries@, n) =~= entries_view(old_entries, n).push(
                    (p.group as int, p.order as int, ix as int),
                ));
                assert(placement_entries(key, placements@.take(k + 1), ix as int) =~= placement_entries(
                    key,
                    placements@.take(k as int),
                    ix as int,
                ).push((p.group as int, p.order as int, ix as int)));
                assert(entries_view(entries@, n) =~= entries_view(before, n) + placement_entries(
                    key,
                    placements@.take(k + 1),
                    ix as int,
                ));
            } else {
                assert(entries_view(entries@, n) =~= entries_view(before, n) + placement_entries(
                    key,
                    placements@.take(k + 1),
                    ix as int,
                ));
            }
            k = k + 1;
        }
        assert(placements@.take(placements@.len() as int) =~= placements@);
        ix = ix + 1;
    }
    assert(cm.take(n) =~= cm);
    let ghost commanded = entries@;
    let mut j: usize = 0;
    while j < menu.fixed.len()
        invariant
            n == commands@.len(),
            key == menu@.key@,
            j <= menu@.fixed.len(),
            entries_view(entries@, n) == entries_view(commanded, n) + fixed_entries(
                menu@.fixed.take(j as int),
                n,
            ),
            forall|i: int|
                0 <= i < entries@.len() ==> entry_in_range(
                    #[trigger] entries@[i],
                    n,
                    menu@.fixed.len() as int,
                ),
        decreases menu@.fixed.len() - j,
    {
        let slot = menu.fixed[j];
        let ghost old_entries = entries@;
        entries.push((slot.group, slot.order, true, j));
        assert(entries_view(entries@, n) =~= entries_view(old_entries, n).push(
            (slot.group as int, slot.order as int, n + j),
        ));
        assert(fixed_entries(menu@.fixed.take(j + 1), n) =~= fixed_entries(
            menu@.fixed.take(j as int),
            n,
        ).push((slot.group as int, slot.order as int, n + j)));
        assert(entries_view(entries@, n) =~= entries_view(commanded, n) + fixed_entries(
            menu@.fixed.take(j + 1),
            n,
        ));
        j = j + 1;
    }
    assert(menu@.fixed.take(menu@.fixed.len() as int) =~= menu@.fixed);
    entries
}

/// Sort entries by `(group, order, insertion)`.
fn sort_entries(entries: &Vec<PlacedEntry>, Ghost(n): Ghost<int>, Ghost(slots): Ghost<int>) -> (sorted:
    Vec<PlacedEntry>)
    requires
        forall|i: int|
            0 <= i < entries@.len() ==> entry_in_range(#[trigger] entries@[i], n, slots),
    ensures
        sorted_by(entries_view(sorted@, n), entry_order()),
        entries_view(sorted@, n).to_multiset() == entries_view(entries@, n).to_multiset(),
        forall|i: int| 0 <= i < sorted@.len() ==> entry_in_range(#[trigger] sorted@[i], n, slots),
{
    let ghost order = entry_order();
    let mut sorted: Vec<PlacedEntry> = Vec::new();
    assert(entries_view(sorted@, n) =~= entries_view(entries@, n).take(0));
    let mut i: usize = 0;
    while i < entries.len()
        invariant
            order == entry_order(),
            i <= entries@.len(),
            forall|k: int|
                0 <= k < entries@.len() ==> entry_in_range(#[trigger] entries@[k], n, slots),
            forall|k: int| 0 <= k < sorted@.len() ==> entry_in_range(#[trigger] sorted@[k], n, slots),
            sorted_by(entries_view(sorted@, n), order),
            entries_view(sorted@, n).to_multiset() == entries_view(entries@, n).take(
                i as int,
            ).to_multiset(),
        decreases entries@.len() - i,
    {
        let e = entries[i];
        let ghost ev = entry_view(e, n);
        let ghost sv = entries_view(sorted@, n);
        let mut pos: usize = 0;
        while pos < sorted.len() && entry_le(sorted[pos], e, Ghost(n))
            invariant
                order == entry_order(),
                pos <= sorted@.len(),
                sv == entries_view(sorted@, n),
                ev == entry_view(e, n),
                entry_in_range(e, n, slots),
                forall|k: int|
                    0 <= k < sorted@.len() ==> entry_in_range(#[trigger] sorted@[k], n, slots),
                forall|k: int| 0 <= k < pos ==> entry_leq(#[trigger] sv[k], ev),
            decreases sorted@.len() - pos,
        {
            pos = pos + 1;
        }
        proof {
            if pos < sorted@.len() {
                assert(!entry_leq(sv[pos as int], ev));
            }
        }
        sorted.insert(pos, e);
        proof {
            let nv = entries_view(sorted@, n);
            assert(nv =~= sv.insert(pos as int, ev));
            assert forall|a: int, b: int| 0 <= a < b < nv.len() implies #[trigger] order(
                nv[a],
                nv[b],
            ) by {
                if b < pos {
                    assert(nv[a] == sv[a] && nv[b] == sv[b]);
                    assert(order(sv[a], sv[b]));
                } else if b == pos {
                    assert(nv[a] == sv[a]);
                } else if a < pos {
                    assert(nv[a] == sv[a] && nv[b] == sv[b - 1]);
                    assert(order(sv[a], sv[b - 1]));
                } else if a == pos {
                    assert(nv[b] == sv[b - 1]);
                    assert(order(sv[pos as int], sv[b - 1]) || b - 1 == pos);
                } else {
                    assert(nv[a] == sv[a - 1] && nv[b] == sv[b - 1]);
                    assert(order(sv[a - 1], sv[b - 1]));
                }
            }
            let before = entries_view(entries@, n).take(i as int);
            assert(entries_view(entries@, n).take(i + 1) =~= before.push(ev));
            vstd::seq_lib::to_multiset_insert(sv, pos as int, ev);
            vstd::seq_lib::to_multiset_build(before, ev);
        }
        i = i + 1;
    }
    assert(entries_view(entries@, n).take(entries@.len() as int) =~= entries_view(entries@, n));
    sorted
}

/// The nodes of `menu`: its entries sorted by `(group, order, insertion)`,
/// with a separator between adjacent groups.
fn outline_nodes(menu: &TopMenu, commands: &[RuntimeCommand]) -> (nodes: Vec<MenuPlanNode>)
    ensures
        nodes@ == spec_outline_nodes(menu@, commands_view(commands@)),
{
    let ghost cm = commands_view(commands@);
    let ghost n = commands@.len() as int;
    let ghost slots = menu@.fixed.len() as int;
    let entries = collect_entries(menu, commands);
    let sorted = sort_entries(&entries, Ghost(n), Ghost(slots));
    let ghost sv = entries_view(sorted@, n);
    let mut nodes: Vec<MenuPlanNode> = Vec::new();
    let mut last_group: Option<u16> = None;
    let mut i: usize = 0;
    while i < sorted.len()
        invariant
            cm == commands_view(commands@),
            n == commands@.len(),
            slots == menu@.fixed.len(),
            sv == entries_view(sorted@, n),
            i <= sorted@.len(),
            forall|k: int| 0 <= k < sorted@.len() ==> entry_in_range(#[trigger] sorted@[k], n, slots),
            nodes@ == separated(sv.take(i as int), menu@, cm),
            i == 0 ==> last_group is None,
            i > 0 ==> last_group == Some(sorted@[i - 1].0),
        decreases sorted@.len() - i,
    {
        let (group, _, fixed, index) = sorted[i];
        assert(sv.take(i + 1).drop_last() =~= sv.take(i as int));
        assert(sv.take(i + 1).last() == sv[i as int]);
        if i > 0 {
            assert(sv.take(i + 1)[i - 1] == sv[i - 1]);
        }
        match last_group {
            Some(previous) => {
                if previous != group {
                    nodes.push(MenuPlanNode::Separator);
                }
            },
            None => {},
        }
        last_group = Some(group);
        if fixed {
            assert(entry_in_range(sorted@[i as int], n, slots));
            nodes.push(menu.fixed[index].node);
        } else {
            assert(entry_in_range(sorted@[i as int], n, slots));
            assert(cm[index as int] == commands@[index as int]@);
            nodes.push(MenuPlanNode::Command(commands[index].id()));
        }
        i = i + 1;
    }
    proof {
        assert(sv.take(sv.len() as int) =~= sv);
        let wanted = menu_entries(menu@, cm);
        lemma_entry_order_is_total();
        wanted.lemma_sort_by_ensures(entry_order());
        lemma_sorted_unique(sv, wanted.sort_by(entry_order()), entry_order());
    }
    nodes
}

/// Find the first menu keyed `key`.
fn find_menu(menus: &Vec<TopMenu>, key: &str) -> (found: Option<usize>)
    ensures
        match found {
            Some(i) => i as int == key_position(menus@.map_values(|m: TopMenu| m@), key@),
            None => key_position(menus@.map_values(|m: TopMenu| m@), key@) < 0,
        },
{
    let ghost models = menus@.map_values(|m: TopMenu| m@);
    proof {
        lemma_key_position(models, key@);
    }
    let mut i: usize = 0;
    while i < menus.len()
        invariant
            models == menus@.map_values(|m: TopMenu| m@),
            i <= menus@.len(),
            -1 <= key_position(models, key@) < models.len(),
            key_position(models, key@) >= 0 ==> models[key_position(models, key@)].key@ == key@,
            forall|j: int|
                0 <= j < models.len() && (key_position(models, key@) < 0 || j < key_position(
                    models,
                    key@,
                )) ==> (#[trigger] models[j]).key@ != key@,
            forall|j: int| 0 <= j < i ==> (#[trigger] models[j]).key@ != key@,
        decreases menus@.len() - i,
    {
        if str_eq(menus[i].key, key) {
            assert(models[i as int].key@ == key@);
            return Some(i);
        }
        i = i + 1;
    }
    None
}

impl MenuPlan {
    /// A plan containing exactly the top-level menu keys in declaration
    /// order; a key is ignored after its first occurrence.
    pub fn from_keys(keys: &[&'static str]) -> (plan: Self)
        ensures
            plan@ == first_keys(keys@).map_values(|k: &'static str| fresh_menu(k)),
    {
        let mut plan = MenuPlan { menus: Vec::new() };
        let mut i: usize = 0;
        while i < keys.len()
            invariant
                i <= keys@.len(),
                plan@ == first_keys(keys@.take(i as int)).map_values(
                    |k: &'static str| fresh_menu(k),
                ),
            decreases keys@.len() - i,
        {
            let ghost before = first_keys(keys@.take(i as int));
            assert(keys@.take(i + 1).drop_last() =~= keys@.take(i as int));
            assert(keys@.take(i + 1).last() == keys@[i as int]);
            let key = keys[i];
            let found = find_menu(&plan.menus, key);
            proof {
                lemma_key_position(plan@, key@);
                if has_key_text(before, key@) {
                    let j = choose|j: int| 0 <= j < before.len() && (#[trigger] before[j])@ == key@;
                    assert(plan@[j].key == before[j]);
                } else {
                    assert forall|j: int| 0 <= j < plan@.len() implies (#[trigger] plan@[j]).key@
                        != key@ by {
                        assert(plan@[j].key == before[j]);
                    }
                }
            }
            if found.is_none() {
                let ghost old_models = plan@;
                let fresh = TopMenu { key, label: None, fixed: Vec::new() };
                assert(fresh@ == fresh_menu(key)) by {
                    assert(fresh@.fixed =~= Seq::<FixedNode>::empty());
                }
                plan.menus.push(fresh);
                assert(plan@ =~= old_models.push(fresh_menu(key)));
                assert(plan@ =~= before.push(key).map_values(|k: &'static str| fresh_menu(k)));
            }
            i = i + 1;
        }
        assert(keys@.take(keys@.len() as int) =~= keys@);
        plan
    }

    /// The standard App + Edit + Window menu bar.
    pub fn standard() -> (plan: Self)
        ensures
            plan@ == seq![fresh_menu("App"), fresh_menu("Edit"), fresh_menu("Window")],
    {
        let keys: [&'static str; 3] = ["App", "Edit", "Window"];
        let plan = MenuPlan::from_keys(keys.as_slice());
        proof {
            reveal_strlit("App");
            reveal_strlit("Edit");
            reveal_strlit("Window");
            let k = keys@;
            assert(k.take(1).drop_last() =~= Seq::<&'static str>::empty());
            assert(k.take(2).drop_last() =~= k.take(1));
            assert(k.take(3).drop_last() =~= k.take(2));
            assert(k =~= k.take(3));
            assert(k[0] == "App" && k[1] == "Edit" && k[2] == "Window");
            assert(first_keys(k.take(1).drop_last()) =~= Seq::<&'static str>::empty());
            assert(!has_key_text(Seq::<&'static str>::empty(), "App"@));
            assert(first_keys(k.take(1)) =~= seq!["App"]);
            assert(!has_key_text(seq!["App"], "Edit"@)) by {
                assert("App"@.len() != "Edit"@.len());
            }
            assert(first_keys(k.take(2)) =~= seq!["App", "Edit"]);
            assert(!has_key_text(seq!["App", "Edit"], "Window"@)) by {
                assert("App"@.len() != "Window"@.len());
                assert("Edit"@.len() != "Window"@.len());
            }
            assert(first_keys(k) =~= seq!["App", "Edit", "Window"]);
            assert(plan@ =~= seq![fresh_menu("App"), fresh_menu("Edit"), fresh_menu("Window")]);
        }
        plan
    }

    /// Append a top-level menu unless one with the same key exists.
    pub fn with_menu(self, key: &'static str) -> (plan: Self)
        ensures
            has_key_text(plan_keys(self@), key@) ==> plan@ == self@,
            !has_key_text(plan_keys(self@), key@) ==> plan@ == self@.push(fresh_menu(key)),
    {
        let mut plan = self;
        let found = find_menu(&plan.menus, key);
        let ghost before = plan@;
        proof {
            lemma_key_position(before, key@);
            if has_key_text(plan_keys(before), key@) {
                let j = choose|j: int|
                    0 <= j < plan_keys(before).len() && (#[trigger] plan_keys(before)[j])@ == key@;
                assert(before[j].key@ == key@);
            } else {
                assert forall|j: int| 0 <= j < before.len() implies (#[trigger] before[j]).key@
                    != key@ by {
                    assert(plan_keys(before)[j] == before[j].key);
                }
            }
        }
        if found.is_none() {
            let fresh = TopMenu { key, label: None, fixed: Vec::new() };
            assert(fresh@ == fresh_menu(key)) by {
                assert(fresh@.fixed =~= Seq::<FixedNode>::empty());
            }
            plan.menus.push(fresh);
            assert(plan@ =~= before.push(fresh_menu(key)));
        }
        plan
    }

    /// Reserve the Appearance/Theme section at the end of the App menu.
    pub fn with_theme_menu(self) -> (plan: Self)
        ensures
            plan@ == spec_reserve(
                self@,
                "App"@,
                FixedNode { group: 65535, order: 0, node: MenuPlanNode::Section(THEME_SECTION) },
            ),
    {
        let mut plan = self;
        plan.reserve_section("App", THEME_SECTION);
        plan
    }

    /// Reserve a section `slot` at the end of the menu keyed `menu_key`; a
    /// missing menu leaves the plan unchanged.
    pub fn reserve_section(&mut self, menu_key: &'static str, slot: &'static str)
        ensures
            final(self)@ == spec_reserve(
                old(self)@,
                menu_key@,
                FixedNode { group: 65535, order: 0, node: MenuPlanNode::Section(slot) },
            ),
    {
        self.reserve_section_at(menu_key, u16::MAX, 0, slot);
    }

    /// Reserve a section `slot` at `(group, order)` of the menu keyed
    /// `menu_key`; a missing menu leaves the plan unchanged.
    pub fn reserve_section_at(
        &mut self,
        menu_key: &'static str,
        group: u16,
        order: u16,
        slot: &'static str,
    )
        ensures
            final(self)@ == spec_reserve(
                old(self)@,
                menu_key@,
                FixedNode { group, order, node: MenuPlanNode::Section(slot) },
            ),
    {
        self.reserve_fixed(menu_key, FixedNode { group, order, node: MenuPlanNode::Section(slot) });
    }

    /// Reserve the Services menu at `(group, order)` of the menu keyed
    /// `menu_key`; a missing menu leaves the plan unchanged.
    pub fn reserve_services_at(&mut self, menu_key: &'static str, group: u16, order: u16)
        ensures
            final(self)@ == spec_reserve(
                old(self)@,
                menu_key@,
                FixedNode { group, order, node: MenuPlanNode::Services },
            ),
    {
        self.reserve_fixed(menu_key, FixedNode { group, order, node: MenuPlanNode::Services });
    }

    fn reserve_fixed(&mut self, menu_key: &'static str, slot: FixedNode)
        ensures
            final(self)@ == spec_reserve(old(self)@, menu_key@, slot),
    {
        let ghost before = self@;
        match find_menu(&self.menus, menu_key) {
            Some(i) => {
                proof {
                    lemma_key_position(before, menu_key@);
                }
                let mut menu = self.menus.remove(i);
                let ghost old_menu = menu@;
                assert(old_menu == before[i as int]);
                menu.fixed.push(slot);
                assert(menu@ == TopMenuModel { fixed: old_menu.fixed.push(slot), ..old_menu });
                self.menus.insert(i, menu);
                assert(self@ =~= before.update(
                    i as int,
                    TopMenuModel { fixed: old_menu.fixed.push(slot), ..old_menu },
                ));
            },
            None => {},
        }
    }

    /// Set the declared title of the first menu keyed `menu_key`; a missing
    /// menu leaves the plan unchanged.
    pub fn set_menu_label(&mut self, menu_key: &'static str, label: MenuLabel)
        ensures
            final(self)@ == spec_set_label(old(self)@, menu_key@, label@),
    {
        let ghost before = self@;
        let ghost title = label@;
        match find_menu(&self.menus, menu_key) {
            Some(i) => {
                proof {
                    lemma_key_position(before, menu_key@);
                }
                let mut menu = self.menus.remove(i);
                let ghost old_menu = menu@;
                assert(old_menu == before[i as int]);
                menu.label = Some(label);
                assert(menu@ == TopMenuModel { label: Some(title), ..old_menu });
                self.menus.insert(i, menu);
                assert(self@ =~= before.update(
                    i as int,
                    TopMenuModel { label: Some(title), ..old_menu },
                ));
            },
            None => {},
        }
    }

    /// Project the plan against the registered `commands`: one outline per
    /// top-level menu, in plan order.
    pub fn outline(&self, commands: &[RuntimeCommand]) -> (outlines: Vec<MenuPlanOutline>)
        ensures
            outlines@.len() == self@.len(),
            forall|i: int|
                0 <= i < self@.len() ==> (#[trigger] outlines@[i]).key == self@[i].key
                    && outlines@[i].nodes@ == spec_outline_nodes(
                    self@[i],
                    commands_view(commands@),
                ),
    {
        let mut outlines: Vec<MenuPlanOutline> = Vec::new();
        let mut i: usize = 0;
        while i < self.menus.len()
            invariant
                i <= self.menus@.len(),
                outlines@.len() == i,
                forall|k: int|
                    0 <= k < i ==> (#[trigger] outlines@[k]).key == self@[k].key
                        && outlines@[k].nodes@ == spec_outline_nodes(
                        self@[k],
                        commands_view(commands@),
                    ),
            decreases self.menus@.len() - i,
        {
            let menu = &self.menus[i];
            assert(menu@ == self@[i as int]);
            let nodes = outline_nodes(menu, commands);
            outlines.push(MenuPlanOutline { key: menu.key, nodes });
            i = i + 1;
        }
        outlines
    }

    /// The declared title of the first menu keyed `menu_key`, if it has one.
    pub fn menu_label(&self, menu_key: &str) -> (label: Option<&MenuLabel>)
        ensures
            key_position(self@, menu_key@) < 0 ==> label is None,
            key_position(self@, menu_key@) >= 0 ==> match label {
                Some(l) => self@[key_position(self@, menu_key@)].label == Some(l@),
                None => self@[key_position(self@, menu_key@)].label is None,
            },
    {
        proof {
            lemma_key_position(self@, menu_key@);
        }
        match find_menu(&self.menus, menu_key) {
            Some(i) => {
                assert(self.menus@[i as int]@ == self@[i as int]);
                match &self.menus[i].label {
                    Some(label) => Some(label),
                    None => None,
                }
            },
            None => None,
        }
    }
}

/// One item of an assembled menu, before the toolkit renders it.
#[derive(Clone, Copy, Debug, PartialEq, Eq)]
pub enum MenuItemSlot {
    /// The item of a registered command.
    Command(CommandId),
    /// A separator.
    Separator,
    /// The `index`-th item a section provider built for `slot`.
    SectionItem { slot: &'static str, index: usize },
    /// The macOS system-managed Services submenu.
    Services,
}

/// Whether some id in `ids` has the text `id`.
pub open spec fn has_id_text(ids: Seq<CommandId>, id: Seq<char>) -> bool {
    exists|k: int| 0 <= k < ids.len() && (#[trigger] ids[k])@ == id
}

/// The number of items the first provider for `slot` built, if any provider
/// is registered for it.
pub open spec fn provided_items(sections: Seq<(&'static str, usize)>, slot: Seq<char>) -> Option<
    usize,
>
    decreases sections.len(),
{
    if sections.len() == 0 {
        None
    } else {
        match provided_items(sections.drop_last(), slot) {
            Some(count) => Some(count),
            None => if sections.last().0@ == slot {
                Some(sections.last().1)
            } else {
                None
            },
        }
    }
}

/// The items a provider built for `slot`.
pub open spec fn section_items(slot: &'static str, count: usize) -> Seq<MenuItemSlot> {
    Seq::new(count as nat, |k: int| MenuItemSlot::SectionItem { slot, index: k as usize })
}

/// Whether the items end with a separator.
pub open spec fn ends_with_separator(items: Seq<MenuItemSlot>) -> bool {
    items.len() > 0 && items.last() is Separator
}

/// `items` without a trailing separator.
pub open spec fn without_trailing_separator(items: Seq<MenuItemSlot>) -> Seq<MenuItemSlot> {
    if ends_with_separator(items) {
        items.drop_last()
    } else {
        items
    }
}

/// The items after one more node: a registered command adds its item; a
/// separator is added only after an item that is not one; a section adds the
/// items its provider built, and a section that adds nothing takes back a
/// separator just before it; Services adds its submenu.
pub open spec fn assemble_step(
    items: Seq<MenuItemSlot>,
    node: MenuPlanNode,
    registered: Seq<CommandId>,
    sections: Seq<(&'static str, usize)>,
) -> Seq<MenuItemSlot> {
    match node {
        MenuPlanNode::Command(id) => if has_id_text(registered, id@) {
            items.push(MenuItemSlot::Command(id))
        } else {
            items
        },
        MenuPlanNode::Separator => if items.len() > 0 && !ends_with_separator(items) {
            items.push(MenuItemSlot::Separator)
        } else {
            items
        },
        MenuPlanNode::Section(slot) => match provided_items(sections, slot@) {
            Some(count) => if count > 0 {
                items + section_items(slot, count)
            } else {
                without_trailing_separator(items)
            },
            None => without_trailing_separator(items),
        },
        MenuPlanNode::Services => items.push(MenuItemSlot::Services),
    }
}

/// The items of a projected menu's nodes.
pub open spec fn spec_assemble(
    nodes: Seq<MenuPlanNode>,
    registered: Seq<CommandId>,
    sections: Seq<(&'static str, usize)>,
) -> Seq<MenuItemSlot>
    decreases nodes.len(),
{
    if nodes.len() == 0 {
        Seq::empty()
    } else {
        assemble_step(spec_assemble(nodes.drop_last(), registered, sections), nodes.last(), registered, sections)
    }
}

/// Neither a leading separator nor two separators in a row.
pub open spec fn no_stray_separators(items: Seq<MenuItemSlot>) -> bool {
    &&& items.len() > 0 ==> !(items[0] is Separator)
    &&& forall|k: int|
        0 <= k && k + 1 < items.len() ==> !((#[trigger] items[k]) is Separator && items[k + 1] is Separator)
}

/// An assembled menu never opens with a separator and never doubles one,
/// whatever its nodes and whichever commands and sections are registered.
pub proof fn lemma_assembled_items_have_no_stray_separators(
    nodes: Seq<MenuPlanNode>,
    registered: Seq<CommandId>,
    sections: Seq<(&'static str, usize)>,
)
    ensures
        no_stray_separators(spec_assemble(nodes, registered, sections)),
    decreases nodes.len(),
{
    if nodes.len() > 0 {
        lemma_assembled_items_have_no_stray_separators(nodes.drop_last(), registered, sections);
        let items = spec_assemble(nodes.drop_last(), registered, sections);
        let after = spec_assemble(nodes, registered, sections);
        match nodes.last() {
            MenuPlanNode::Section(slot) => {
                match provided_items(sections, slot@) {
                    Some(count) => {
                        if count > 0 {
                            let added = section_items(slot, count);
                            assert(after == items + added);
                            assert forall|k: int|
                                0 <= k && k + 1 < after.len() implies !((#[trigger] after[k]) is Separator
                                    && after[k + 1] is Separator) by {
                                if k + 1 >= items.len() {
                                    assert(after[k + 1] == added[k + 1 - items.len()]);
                                }
                            }
                        } else {
                            assert forall|k: int|
                                0 <= k && k + 1 < after.len() implies !((#[trigger] after[k]) is Separator
                                    && after[k + 1] is Separator) by {
                                assert(after[k] == items[k] && after[k + 1] == items[k + 1]);
                            }
                        }
                    },
                    None => {
                        assert forall|k: int|
                            0 <= k && k + 1 < after.len() implies !((#[trigger] after[k]) is Separator
                                && after[k + 1] is Separator) by {
                            assert(after[k] == items[k] && after[k + 1] == items[k + 1]);
                        }
                    },
                }
            },
            _ => {
                assert forall|k: int|
                    0 <= k && k + 1 < after.len() implies !((#[trigger] after[k]) is Separator
                        && after[k + 1] is Separator) by {
                    if k + 1 < items.len() {
                        assert(after[k] == items[k] && after[k + 1] == items[k + 1]);
                    }
                }
            },
        }
    }
}

/// Whether some id in `ids` has the text of `id`.
fn has_id(ids: &[CommandId], id: CommandId) -> (found: bool)
    ensures
        found == has_id_text(ids@, id@),
{
    let mut k: usize = 0;
    while k < ids.len()
        invariant
            k <= ids@.len(),
            forall|j: int| 0 <= j < k ==> (#[trigger] ids@[j])@ != id@,
        decreases ids@.len() - k,
    {
        if ids[k].same(&id) {
            return true;
        }
        k = k + 1;
    }
    false
}

/// A provider answer found in a prefix stays the answer.
proof fn lemma_provided_items_prefix(sections: Seq<(&'static str, usize)>, m: int, slot: Seq<char>)
    requires
        0 <= m <= sections.len(),
        provided_items(sections.take(m), slot) is Some,
    ensures
        provided_items(sections, slot) == provided_items(sections.take(m), slot),
    decreases sections.len(),
{
    if sections.len() == m {
        assert(sections.take(m) =~= sections);
    } else {
        assert(sections.drop_last().take(m) =~= sections.take(m));
        lemma_provided_items_prefix(sections.drop_last(), m, slot);
    }
}

/// How many items the first provider for `slot` built, if one is registered.
fn provided_count(sections: &[(&'static str, usize)], slot: &'static str) -> (count: Option<usize>)
    ensures
        count == provided_items(sections@, slot@),
{
    let mut k: usize = 0;
    while k < sections.len()
        invariant
            k <= sections@.len(),
            provided_items(sections@.take(k as int), slot@) is None,
        decreases sections@.len() - k,
    {
        assert(sections@.take(k + 1).drop_last() =~= sections@.take(k as int));
        if str_eq(sections[k].0, slot) {
            proof {
                lemma_provided_items_prefix(sections@, k + 1, slot@);
            }
            return Some(sections[k].1);
        }
        k = k + 1;
    }
    assert(sections@.take(sections@.len() as int) =~= sections@);
    None
}

/// Whether the items end with a separator.
fn last_is_separator(items: &Vec<MenuItemSlot>) -> (separator: bool)
    ensures
        separator == ends_with_separator(items@),
{
    if items.len() == 0 {
        false
    } else {
        match items[items.len() - 1] {
            MenuItemSlot::Separator => true,
            _ => false,
        }
    }
}

/// Assemble the items of one projected menu: registered commands, section
/// items built by their providers, the Services submenu, and separators that
/// never lead and never double.
pub fn assemble_menu_items(
    nodes: &[MenuPlanNode],
    registered: &[CommandId],
    sections: &[(&'static str, usize)],
) -> (items: Vec<MenuItemSlot>)
    ensures
        items@ == spec_assemble(nodes@, registered@, sections@),
{
    let mut items: Vec<MenuItemSlot> = Vec::new();
    let mut k: usize = 0;
    while k < nodes.len()
        invariant
            k <= nodes@.len(),
            items@ == spec_assemble(nodes@.take(k as int), registered@, sections@),
        decreases nodes@.len() - k,
    {
        assert(nodes@.take(k + 1).drop_last() =~= nodes@.take(k as int));
        assert(nodes@.take(k + 1).last() == nodes@[k as int]);
        let ghost before = items@;
        match nodes[k] {
            MenuPlanNode::Command(id) => {
                if has_id(registered, id) {
                    items.push(MenuItemSlot::Command(id));
                }
            },
            MenuPlanNode::Separator => {
                if items.len() > 0 && !last_is_separator(&items) {
                    items.push(MenuItemSlot::Separator);
                }
            },
            MenuPlanNode::Section(slot) => {
                let count = provided_count(sections, slot);
                let mut filled = false;
                match count {
                    Some(c) => {
                        if c > 0 {
                            let mut index: usize = 0;
                            while index < c
                                invariant
                                    index <= c,
                                    items@ == before + section_items(slot, c).take(index as int),
                                decreases c - index,
                            {
                                items.push(MenuItemSlot::SectionItem { slot, index });
                                assert(section_items(slot, c).take(index + 1) =~= section_items(
                                    slot,
                                    c,
                                ).take(index as int).push(MenuItemSlot::SectionItem { slot, index }));
                                index = index + 1;
                            }
                            assert(section_items(slot, c).take(c as int) =~= section_items(slot, c));
                            filled = true;
                        }
                    },
                    None => {},
                }
                if !filled && last_is_separator(&items) {
                    items.pop();
                }
            },
            MenuPlanNode::Services => {
                items.push(MenuItemSlot::Services);
            },
        }
        k = k + 1;
    }
    assert(nodes@.take(nodes@.len() as int) =~= nodes@);
    items
}

/// The title of a top-level menu: its declared title, else the application
/// title for the application menu, else its key.
pub open spec fn spec_menu_title(label: Option<LabelModel>, key: Seq<char>, app_title: Seq<char>) -> Seq<char> {
    match label {
        Some(LabelModel::Text(text)) => text,
        Some(LabelModel::AppDisplayName) => app_title,
        None => if key == "App"@ {
            app_title
        } else {
            key
        },
    }
}

/// The title of a top-level menu: its declared title (resolved against the
/// application title), else the application title for the application menu,
/// else its key.
pub fn menu_title(label: Option<&MenuLabel>, key: &str, app_title: &str) -> (title: String)
    ensures
        title@ == spec_menu_title(
            match label {
                Some(l) => Some(l@),
                None => None,
            },
            key@,
            app_title@,
        ),
{
    match label {
        Some(MenuLabel::Text(text)) => text.clone(),
        Some(MenuLabel::AppDisplayName) => app_title.to_owned(),
        None => {
            if str_eq(key, "App") {
                app_title.to_owned()
            } else {
                key.to_owned()
            }
        },
    }
}

/// One assembled top-level menu.
#[derive(Debug)]
pub struct BuiltMenu {
    /// The title.
    pub title: String,
    /// The items.
    pub items: Vec<MenuItemSlot>,
}

/// The ids of the commands.
pub open spec fn command_ids_of(commands: Seq<CommandModel>) -> Seq<CommandId> {
    commands.map_values(|c: CommandModel| c.id)
}

/// The assembled menu bar: each plan menu's title and items, in plan order,
/// with every menu that assembled no item left out.
pub open spec fn spec_menu_bar(
    menus: Seq<TopMenuModel>,
    commands: Seq<CommandModel>,
    sections: Seq<(&'static str, usize)>,
    app_title: Seq<char>,
) -> Seq<(Seq<char>, Seq<MenuItemSlot>)>
    decreases menus.len(),
{
    if menus.len() == 0 {
        Seq::empty()
    } else {
        let earlier = spec_menu_bar(menus.drop_last(), commands, sections, app_title);
        let menu = menus.last();
        let items = spec_assemble(
            spec_outline_nodes(menu, commands),
            command_ids_of(commands),
            sections,
        );
        if items.len() == 0 {
            earlier
        } else {
            earlier.push((spec_menu_title(menu.label, menu.key@, app_title), items))
        }
    }
}

/// The titles and items of built menus.
pub open spec fn built_view(menus: Seq<BuiltMenu>) -> Seq<(Seq<char>, Seq<MenuItemSlot>)> {
    menus.map_values(|m: BuiltMenu| (m.title@, m.items@))
}

impl MenuPlan {
    /// Assemble the menu bar against the registered `commands`, the number of
    /// items each registered section provider built, and the application
    /// title: one menu per plan menu that has an item, in plan order.
    pub fn build_menu_bar(
        &self,
        commands: &[RuntimeCommand],
        sections: &[(&'static str, usize)],
        app_title: &str,
    ) -> (menus: Vec<BuiltMenu>)
        ensures
            built_view(menus@) == spec_menu_bar(
                self@,
                commands_view(commands@),
                sections@,
                app_title@,
            ),
    {
        let ghost cm = commands_view(commands@);
        let mut registered: Vec<CommandId> = Vec::new();
        let mut j: usize = 0;
        while j < commands.len()
            invariant
                cm == commands_view(commands@),
                j <= commands@.len(),
                registered@ == command_ids_of(cm.take(j as int)),
            decreases commands@.len() - j,
        {
            registered.push(commands[j].id());
            assert(command_ids_of(cm.take(j + 1)) =~= command_ids_of(cm.take(j as int)).push(
                commands@[j as int]@.id,
            ));
            j = j + 1;
        }
        assert(cm.take(cm.len() as int) =~= cm);
        let outlines = self.outline(commands);
        let mut menus: Vec<BuiltMenu> = Vec::new();
        let mut i: usize = 0;
        while i < outlines.len()
            invariant
                cm == commands_view(commands@),
                registered@ == command_ids_of(cm),
                outlines@.len() == self@.len(),
                forall|k: int|
                    0 <= k < self@.len() ==> (#[trigger] outlines@[k]).key == self@[k].key
                        && outlines@[k].nodes@ == spec_outline_nodes(self@[k], cm),
                i <= self@.len(),
                built_view(menus@) == spec_menu_bar(self@.take(i as int), cm, sections@, app_title@),
            decreases self@.len() - i,
        {
            assert(self@.take(i + 1).drop_last() =~= self@.take(i as int));
            assert(self@.take(i + 1).last() == self@[i as int]);
            let items = assemble_menu_items(outlines[i].nodes.as_slice(), registered.as_slice(), sections);
            if items.len() > 0 {
                assert(self.menus@[i as int]@ == self@[i as int]);
                let title = menu_title(
                    match &self.menus[i].label {
                        Some(label) => Some(label),
                        None => None,
                    },
                    outlines[i].key,
                    app_title,
                );
                menus.push(BuiltMenu { title, items });
                assert(built_view(menus@) =~= spec_menu_bar(
                    self@.take(i as int),
                    cm,
                    sections@,
                    app_title@,
                ).push((
                    spec_menu_title(self@[i as int].label, self@[i as int].key@, app_title@),
                    spec_assemble(spec_outline_nodes(self@[i as int], cm), command_ids_of(cm), sections@),
                )));
            }
            i = i + 1;
        }
        assert(self@.take(self@.len() as int) =~= self@);
        menus
    }
}

/// The dock menu's nodes: every command placed in the dock, sorted by
/// `(group, order)` with ties kept in registration order, and a separator
/// between adjacent groups.
pub fn dock_nodes(commands: &[RuntimeCommand]) -> (nodes: Vec<MenuPlanNode>)
    ensures
        nodes@ == spec_outline_nodes(fresh_menu("Dock"), commands_view(commands@)),
{
    let dock = TopMenu { key: "Dock", label: None, fixed: Vec::new() };
    assert(dock@ == fresh_menu("Dock")) by {
        assert(dock@.fixed =~= Seq::<FixedNode>::empty());
    }
    outline_nodes(&dock, commands)
}

} // verus!
