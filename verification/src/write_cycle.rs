//! Write-loop detection over PLC devices. Nodes are devices
//! `(plc_connection_id, trimmed address)`; every enabled rule adds an edge
//! from each of its condition source devices to its target device. Saving an
//! enabled rule that closes a cycle in this graph is refused.

use vstd::prelude::*;
use vstd::string::*;

use crate::error::FieldError;
use crate::text::{trim, trim_spec};

verus! {

broadcast use vstd::seq_lib::group_seq_properties, vstd::set_lib::group_set_lib_default;

/// A PLC device identity: a connection id and a (trimmed) address.
pub struct Device {
    pub connection_id: i64,
    pub address: String,
}

/// A device as a value: connection id and address characters.
pub type DeviceView = (i64, Seq<char>);

impl View for Device {
    type V = DeviceView;

    open spec fn view(&self) -> DeviceView {
        (self.connection_id, self.address@)
    }
}

impl Device {
    /// A copy of this device.
    pub fn duplicate(&self) -> (r: Device)
        ensures
            r@ == self@,
    {
        Device { connection_id: self.connection_id, address: self.address.clone() }
    }

    /// Whether the two devices are the same node of the graph.
    pub fn same(&self, other: &Device) -> (r: bool)
        ensures
            r == (self@ == other@),
    {
        self.connection_id == other.connection_id && self.address == other.address
    }
}

/// One edge of the device graph, labelled with the rule that adds it.
pub struct DeviceEdge {
    pub from: Device,
    pub to: Device,
    pub rule_name: String,
}

/// An edge as a value: source, target and rule name.
pub type EdgeView = (DeviceView, DeviceView, Seq<char>);

impl View for DeviceEdge {
    type V = EdgeView;

    open spec fn view(&self) -> EdgeView {
        (self.from@, self.to@, self.rule_name@)
    }
}

/// The views of a list of edges.
pub open spec fn edges_view(es: Seq<DeviceEdge>) -> Seq<EdgeView> {
    es.map_values(|e: DeviceEdge| e@)
}

/// `idx` lists edge positions forming a walk from `start` to `goal` (the
/// empty walk goes nowhere: `start == goal`).
pub open spec fn is_walk(es: Seq<EdgeView>, idx: Seq<int>, start: DeviceView, goal: DeviceView) -> bool {
    &&& forall|k: int| 0 <= k < idx.len() ==> 0 <= #[trigger] idx[k] < es.len()
    &&& idx.len() == 0 ==> start == goal
    &&& idx.len() > 0 ==> es[idx[0]].0 == start && es[idx.last()].1 == goal
    &&& forall|k: int| 0 <= k < idx.len() - 1 ==> es[#[trigger] idx[k]].1 == es[idx[k + 1]].0
}

/// The rule names along a walk.
pub open spec fn walk_labels(es: Seq<EdgeView>, idx: Seq<int>) -> Seq<Seq<char>> {
    idx.map_values(|i: int| es[i].2)
}

/// `goal` can be reached from `start` along the edges.
pub open spec fn reachable(es: Seq<EdgeView>, start: DeviceView, goal: DeviceView) -> bool {
    exists|idx: Seq<int>| is_walk(es, idx, start, goal)
}

/// The character sequences of a list of strings.
pub open spec fn strings_view(v: Seq<String>) -> Seq<Seq<char>> {
    v.map_values(|s: String| s@)
}

/// A set of devices that no edge leaves.
pub open spec fn closed_under(es: Seq<EdgeView>, s: Set<DeviceView>) -> bool {
    forall|i: int| 0 <= i < es.len() && #[trigger] s.contains(es[i].0) ==> s.contains(es[i].1)
}

proof fn lemma_walk_extend(es: Seq<EdgeView>, idx: Seq<int>, start: DeviceView, d: DeviceView, i: int)
    requires
        is_walk(es, idx, start, d),
        0 <= i < es.len(),
        es[i].0 == d,
    ensures
        is_walk(es, idx.push(i), start, es[i].1),
{
    let j = idx.push(i);
    assert forall|k: int| 0 <= k < j.len() - 1 implies es[#[trigger] j[k]].1 == es[j[k + 1]].0 by {
        if k < idx.len() - 1 {
            assert(j[k] == idx[k] && j[k + 1] == idx[k + 1]);
        } else {
            assert(j[k] == idx.last());
        }
    }
    assert forall|k: int| 0 <= k < j.len() implies 0 <= #[trigger] j[k] < es.len() by {
        if k < idx.len() {
            assert(j[k] == idx[k]);
        }
    }
}

proof fn lemma_closed_contains_walk_end(
    es: Seq<EdgeView>,
    idx: Seq<int>,
    start: DeviceView,
    goal: DeviceView,
    s: Set<DeviceView>,
)
    requires
        is_walk(es, idx, start, goal),
        s.contains(start),
        closed_under(es, s),
    ensures
        s.contains(goal),
    decreases idx.len(),
{
    if idx.len() > 0 {
        let p = idx.drop_last();
        let mid = es[idx.last()].0;
        assert(0 <= idx[idx.len() - 1] < es.len());
        if p.len() > 0 {
            assert(es[p.last()].1 == es[idx[idx.len() - 1]].0) by {
                assert(p.last() == idx[idx.len() - 2]);
            }
            assert forall|k: int| 0 <= k < p.len() - 1 implies es[#[trigger] p[k]].1 == es[p[k + 1]].0 by {
                assert(p[k] == idx[k] && p[k + 1] == idx[k + 1]);
            }
            assert forall|k: int| 0 <= k < p.len() implies 0 <= #[trigger] p[k] < es.len() by {
                assert(p[k] == idx[k]);
            }
            assert(es[p[0]].0 == start) by {
                assert(p[0] == idx[0]);
            }
        }
        assert(is_walk(es, p, start, mid));
        lemma_closed_contains_walk_end(es, p, start, mid, s);
        assert(s.contains(es[idx[idx.len() - 1]].1));
    }
}

proof fn lemma_labels_push(
    es: Seq<EdgeView>,
    widx: Seq<int>,
    i: int,
    rules: Seq<String>,
    path: Seq<String>,
    name: String,
)
    requires
        strings_view(rules) == walk_labels(es, widx),
        path == rules.push(name),
        0 <= i < es.len(),
        es[i].2 == name@,
    ensures
        strings_view(path) == walk_labels(es, widx.push(i)),
{
    let a = strings_view(path);
    let b = walk_labels(es, widx.push(i));
    assert(strings_view(rules).len() == rules.len());
    assert(walk_labels(es, widx).len() == widx.len());
    assert forall|k: int| 0 <= k < a.len() implies a[k] == b[k] by {
        if k < rules.len() {
            assert(a[k] == strings_view(rules)[k]);
            assert(b[k] == walk_labels(es, widx)[k]);
        }
    }
    assert(a =~= b);
}

/// Whether `d` occurs in `v`.
fn contains_device(v: &Vec<Device>, d: &Device) -> (r: bool)
    ensures
        r == exists|i: int| 0 <= i < v.len() && (#[trigger] v@[i])@ == d@,
{
    let mut i: usize = 0;
    while i < v.len()
        invariant
            i <= v.len(),
            forall|j: int| 0 <= j < i ==> (#[trigger] v@[j])@ != d@,
        decreases v.len() - i,
    {
        if v[i].same(d) {
            return true;
        }
        i = i + 1;
    }
    false
}

/// A copy of a list of strings.
fn copy_strings(v: &Vec<String>) -> (r: Vec<String>)
    ensures
        r@ == v@,
{
    let mut r: Vec<String> = Vec::new();
    let mut i: usize = 0;
    while i < v.len()
        invariant
            i <= v.len(),
            r@ == v@.take(i as int),
        decreases v.len() - i,
    {
        r.push(v[i].clone());
        proof {
            assert(v@.take(i as int).push(v@[i as int]) =~= v@.take(i + 1));
        }
        i = i + 1;
    }
    proof {
        assert(v@.take(v.len() as int) =~= v@);
    }
    r
}

/// The devices an edge list can lead to, plus the starting device.
pub open spec fn walk_domain(es: Seq<EdgeView>, start: DeviceView) -> Set<DeviceView> {
    es.map_values(|e: EdgeView| e.1).to_set().insert(start)
}

/// Depth-first search for a walk from `start` to `goal`, returning the rule
/// names along the walk it finds, or `None` when `goal` is unreachable.
pub fn find_path(edges: &Vec<DeviceEdge>, start: &Device, goal: &Device) -> (r: Option<Vec<String>>)
    ensures
        r is None <==> !reachable(edges_view(edges@), start@, goal@),
        r matches Some(labels) ==> exists|idx: Seq<int>|
            is_walk(edges_view(edges@), idx, start@, goal@) && strings_view(labels@) == walk_labels(
                edges_view(edges@),
                idx,
            ),
{
    let ghost es = edges_view(edges@);
    let ghost dom = walk_domain(es, start@);
    let mut visited: Vec<Device> = Vec::new();
    let ghost mut vset: Set<DeviceView> = Set::empty();
    let mut stack: Vec<(Device, Vec<String>)> = Vec::new();
    let ghost mut sidx: Seq<Seq<int>> = Seq::empty();
    stack.push((start.duplicate(), Vec::new()));
    proof {
        sidx = sidx.push(Seq::<int>::empty());
        assert(is_walk(es, Seq::<int>::empty(), start@, start@));
        assert(strings_view(Seq::<String>::empty()) =~= walk_labels(es, Seq::<int>::empty()));
        assert(dom.contains(start@));
        assert(stack@[0].0@ == start@);
    }
    while stack.len() > 0
        invariant
            es == edges_view(edges@),
            dom == walk_domain(es, start@),
            dom.finite(),
            sidx.len() == stack.len(),
            forall|j: int|
                0 <= j < stack.len() ==> is_walk(es, #[trigger] sidx[j], start@, stack@[j].0@)
                    && strings_view(stack@[j].1@) == walk_labels(es, sidx[j]),
            forall|j: int| 0 <= j < stack.len() ==> dom.contains(#[trigger] stack@[j].0@),
            forall|d: DeviceView| #[trigger]
                vset.contains(d) <==> exists|i: int| 0 <= i < visited.len() && (#[trigger] visited@[i])@ == d,
            vset.subset_of(dom),
            !vset.contains(goal@),
            vset.contains(start@) || exists|j: int| 0 <= j < stack.len() && (#[trigger] stack@[j]).0@ == start@,
            forall|i: int|
                0 <= i < es.len() && #[trigger] vset.contains(es[i].0) ==> vset.contains(es[i].1) || exists|j: int|
                    0 <= j < stack.len() && (#[trigger] stack@[j]).0@ == es[i].1,
        decreases dom.difference(vset).len(), stack.len(),
    {
        let ghost old_stack = stack@;
        let ghost old_vset = vset;
        let top = stack.pop();
        let (device, rules) = match top {
            Some(entry) => entry,
            None => {
                return None;
            },
        };
        let ghost widx = sidx.last();
        proof {
            sidx = sidx.drop_last();
            assert(old_stack.last().0@ == device@);
            assert(is_walk(es, widx, start@, device@));
            assert forall|j: int| 0 <= j < stack.len() implies (#[trigger] stack@[j]) == old_stack[j] by {}
        }
        if device.same(goal) {
            return Some(rules);
        }
        if contains_device(&visited, &device) {
            proof {
                assert(vset.contains(device@));
                assert forall|i: int|
                    0 <= i < es.len() && #[trigger] vset.contains(es[i].0) implies vset.contains(es[i].1)
                        || exists|j: int| 0 <= j < stack.len() && (#[trigger] stack@[j]).0@ == es[i].1 by {
                    if !vset.contains(es[i].1) {
                        let j = choose|j: int| 0 <= j < old_stack.len() && (#[trigger] old_stack[j]).0@ == es[i].1;
                        if j < stack.len() {
                            assert(stack@[j] == old_stack[j]);
                        } else {
                            assert(es[i].1 == device@);
                        }
                    }
                }
                if !vset.contains(start@) {
                    let j = choose|j: int| 0 <= j < old_stack.len() && (#[trigger] old_stack[j]).0@ == start@;
                    if j < stack.len() {
                        assert(stack@[j] == old_stack[j]);
                    } else {
                        assert(start@ == device@);
                    }
                }
            }
            continue;
        }
        let ghost old_visited = visited@;
        visited.push(device.duplicate());
        proof {
            vset = vset.insert(device@);
            assert(visited@.last()@ == device@);
            assert forall|d: DeviceView| #[trigger]
                vset.contains(d) <==> exists|i: int| 0 <= i < visited.len() && (#[trigger] visited@[i])@ == d by {
                if vset.contains(d) && d != device@ {
                    assert(old_vset.contains(d));
                    let i = choose|i: int| 0 <= i < old_visited.len() && (#[trigger] old_visited[i])@ == d;
                    assert(visited@[i] == old_visited[i]);
                }
                if d == device@ {
                    assert(visited@[visited.len() - 1]@ == d);
                }
                if exists|i: int| 0 <= i < visited.len() && (#[trigger] visited@[i])@ == d {
                    let i = choose|i: int| 0 <= i < visited.len() && (#[trigger] visited@[i])@ == d;
                    if i < visited.len() - 1 {
                        assert(visited@[i] == old_visited[i]);
                        assert(old_vset.contains(d));
                    }
                }
            }
            assert(dom.contains(device@));
            assert(dom.difference(vset) =~= dom.difference(old_vset).remove(device@));
            assert(dom.difference(old_vset).contains(device@));
        }
        let ghost mid_stack = stack@;
        let mut i: usize = 0;
        while i < edges.len()
            invariant
                es == edges_view(edges@),
                dom == walk_domain(es, start@),
                dom.finite(),
                i <= edges.len(),
                sidx.len() == stack.len(),
                is_walk(es, widx, start@, device@),
                strings_view(rules@) == walk_labels(es, widx),
                forall|j: int|
                    0 <= j < stack.len() ==> is_walk(es, #[trigger] sidx[j], start@, stack@[j].0@)
                        && strings_view(stack@[j].1@) == walk_labels(es, sidx[j]),
                forall|j: int| 0 <= j < stack.len() ==> dom.contains(#[trigger] stack@[j].0@),
                stack.len() >= mid_stack.len(),
                forall|j: int| 0 <= j < mid_stack.len() ==> (#[trigger] stack@[j]) == mid_stack[j],
                forall|k: int|
                    0 <= k < i && #[trigger] es[k].0 == device@ ==> vset.contains(es[k].1) || exists|j: int|
                        0 <= j < stack.len() && (#[trigger] stack@[j]).0@ == es[k].1,
                forall|d: DeviceView| #[trigger]
                    vset.contains(d) <==> exists|k: int| 0 <= k < visited.len() && (#[trigger] visited@[k])@ == d,
            decreases edges.len() - i,
        {
            proof {
                assert(es[i as int] == edges@[i as int]@);
            }
            if edges[i].from.same(&device) {
                if edges[i].to.same(goal) {
                    let mut path = copy_strings(&rules);
                    path.push(edges[i].rule_name.clone());
                    proof {
                        lemma_walk_extend(es, widx, start@, device@, i as int);
                        lemma_labels_push(es, widx, i as int, rules@, path@, edges@[i as int].rule_name);
                    }
                    return Some(path);
                }
                if !contains_device(&visited, &edges[i].to) {
                    let mut path = copy_strings(&rules);
                    path.push(edges[i].rule_name.clone());
                    let ghost before = stack@;
                    stack.push((edges[i].to.duplicate(), path));
                    proof {
                        lemma_walk_extend(es, widx, start@, device@, i as int);
                        sidx = sidx.push(widx.push(i as int));
                        lemma_labels_push(es, widx, i as int, rules@, path@, edges@[i as int].rule_name);
                        assert(stack@.last().0@ == es[i as int].1);
                        assert(es.map_values(|e: EdgeView| e.1)[i as int] == es[i as int].1);
                        assert(dom.contains(es[i as int].1));
                        assert forall|j: int| 0 <= j < before.len() implies (#[trigger] stack@[j]) == before[j] by {}
                        assert forall|k: int|
                            0 <= k < i + 1 && #[trigger] es[k].0 == device@ implies vset.contains(es[k].1)
                                || exists|j: int| 0 <= j < stack.len() && (#[trigger] stack@[j]).0@ == es[k].1 by {
                            if k < i && !vset.contains(es[k].1) {
                                let j = choose|j: int| 0 <= j < before.len() && (#[trigger] before[j]).0@ == es[k].1;
                                assert(stack@[j] == before[j]);
                            }
                            if k == i {
                                assert(stack@[stack.len() - 1].0@ == es[k].1);
                            }
                        }
                    }
                }
            }
            i = i + 1;
        }
        proof {
            assert forall|k: int|
                0 <= k < es.len() && #[trigger] vset.contains(es[k].0) implies vset.contains(es[k].1)
                    || exists|j: int| 0 <= j < stack.len() && (#[trigger] stack@[j]).0@ == es[k].1 by {
                if es[k].0 != device@ {
                    assert(old_vset.contains(es[k].0));
                    if !old_vset.contains(es[k].1) {
                        let j = choose|j: int| 0 <= j < old_stack.len() && (#[trigger] old_stack[j]).0@ == es[k].1;
                        if j < mid_stack.len() {
                            assert(stack@[j] == mid_stack[j]);
                            assert(mid_stack[j] == old_stack[j]);
                        } else {
                            assert(es[k].1 == device@);
                        }
                    }
                }
            }
            if !old_vset.contains(start@) && start@ != device@ {
                let j = choose|j: int| 0 <= j < old_stack.len() && (#[trigger] old_stack[j]).0@ == start@;
                if j < mid_stack.len() {
                    assert(stack@[j] == mid_stack[j]);
                    assert(mid_stack[j] == old_stack[j]);
                }
            }
        }
    }
    proof {
        assert(vset.contains(start@));
        assert(closed_under(es, vset));
        if reachable(es, start@, goal@) {
            let idx = choose|idx: Seq<int>| is_walk(es, idx, start@, goal@);
            lemma_closed_contains_walk_end(es, idx, start@, goal@, vset);
        }
    }
    None
}

} // verus!

verus! {

/// The edges one rule adds: from each source device to its target.
pub open spec fn rule_edges(sources: Seq<DeviceView>, target: DeviceView, label: Seq<char>) -> Seq<EdgeView> {
    sources.map_values(|s: DeviceView| (s, target, label))
}

/// An already-saved enabled rule as the cycle check sees it: its name and,
/// when every reference resolved, its source devices and target device.
pub struct OtherRule {
    pub name: String,
    pub devices: Option<(Vec<Device>, Device)>,
}

/// The view of a list of devices.
pub open spec fn devices_view(v: Seq<Device>) -> Seq<DeviceView> {
    v.map_values(|d: Device| d@)
}

/// The edges an already-saved rule adds (none when it did not resolve).
pub open spec fn other_rule_edges(r: OtherRule) -> Seq<EdgeView> {
    match r.devices {
        Some((sources, target)) => rule_edges(devices_view(sources@), target@, r.name@),
        None => Seq::empty(),
    }
}

/// The edges all the already-saved rules add, in order.
pub open spec fn others_edges(others: Seq<OtherRule>) -> Seq<EdgeView>
    decreases others.len(),
{
    if others.len() == 0 {
        Seq::empty()
    } else {
        others_edges(others.drop_last()) + other_rule_edges(others.last())
    }
}

/// The whole device graph: the candidate rule's edges first, then the
/// others'.
pub open spec fn device_graph(
    sources: Seq<DeviceView>,
    target: DeviceView,
    label: Seq<char>,
    others: Seq<OtherRule>,
) -> Seq<EdgeView> {
    rule_edges(sources, target, label) + others_edges(others)
}

/// Some source device is the target itself, or can be reached from it.
pub open spec fn closes_cycle(es: Seq<EdgeView>, sources: Seq<DeviceView>, target: DeviceView) -> bool {
    exists|k: int|
        0 <= k < sources.len() && (sources[k] == target || reachable(es, target, #[trigger] sources[k]))
}

/// The message naming the rule being saved and the rule it loops with.
pub open spec fn cycle_message(rule: Seq<char>, culprit: Seq<char>) -> Seq<char> {
    "書き込みループを検出しました: ルール「"@ + rule + "」を有効にすると、ルール「"@ + culprit
        + "」との間で読み書きが循環します"@
}

/// The refusal for a save that would close a write loop: a validation error
/// on `enabled` naming both rules.
pub fn cycle_error(rule_name: &str, culprit: &str) -> (r: crate::error::ServiceError)
    ensures
        r matches crate::error::ServiceError::Validation { field_errors } && field_errors@.len() == 1
            && field_errors@[0].field@ == "enabled"@ && field_errors@[0].message@ == cycle_message(
            rule_name@,
            culprit@,
        ),
{
    let mut m = String::from_str("書き込みループを検出しました: ルール「");
    m.append(rule_name);
    m.append("」を有効にすると、ルール「");
    m.append(culprit);
    m.append("」との間で読み書きが循環します");
    let mut errors: Vec<FieldError> = Vec::new();
    errors.push(crate::error::field_error("enabled", m));
    crate::error::ServiceError::Validation { field_errors: errors }
}

fn push_rule_edges(edges: &mut Vec<DeviceEdge>, sources: &Vec<Device>, target: &Device, label: &String)
    ensures
        edges_view(final(edges)@) == edges_view(old(edges)@) + rule_edges(devices_view(sources@), target@, label@),
{
    let ghost start = edges_view(edges@);
    let mut i: usize = 0;
    while i < sources.len()
        invariant
            i <= sources.len(),
            edges_view(edges@) == start + rule_edges(devices_view(sources@), target@, label@).take(i as int),
        decreases sources.len() - i,
    {
        let ghost before = edges@;
        edges.push(DeviceEdge { from: sources[i].duplicate(), to: target.duplicate(), rule_name: label.clone() });
        proof {
            let rs = rule_edges(devices_view(sources@), target@, label@);
            assert(edges@ == before.push(edges@.last()));
            assert(edges_view(edges@) =~= edges_view(before).push(edges@.last()@));
            assert(rs[i as int] == (sources@[i as int]@, target@, label@));
            assert(rs.take(i + 1) =~= rs.take(i as int).push(rs[i as int]));
            assert(edges_view(edges@) =~= start + rs.take(i + 1));
        }
        i = i + 1;
    }
    proof {
        let rs = rule_edges(devices_view(sources@), target@, label@);
        assert(rs.take(sources.len() as int) =~= rs);
    }
}

/// The first label along a walk that is not `name`, or `name` itself.
pub open spec fn culprit_of(labels: Seq<Seq<char>>, name: Seq<char>) -> Seq<char>
    decreases labels.len(),
{
    if labels.len() == 0 {
        name
    } else if labels[0] != name {
        labels[0]
    } else {
        culprit_of(labels.drop_first(), name)
    }
}

fn culprit(labels: &Vec<String>, name: &str) -> (r: String)
    ensures
        r@ == culprit_of(strings_view(labels@), name@),
{
    let mut i: usize = 0;
    while i < labels.len()
        invariant
            i <= labels.len(),
            culprit_of(strings_view(labels@), name@) == culprit_of(strings_view(labels@).skip(i as int), name@),
        decreases labels.len() - i,
    {
        let ghost rest = strings_view(labels@).skip(i as int);
        let n = String::from_str(name);
        if labels[i] != n {
            proof {
                assert(rest[0] == labels@[i as int]@);
            }
            return labels[i].clone();
        }
        proof {
            assert(rest[0] == labels@[i as int]@);
            assert(rest.drop_first() =~= strings_view(labels@).skip(i + 1));
        }
        i = i + 1;
    }
    String::from_str(name)
}

/// The refusal `detect_write_cycle` gives: it finds the first source
/// device (in order) that is the target or can be reached from it, takes a
/// walk from the target to it (the empty walk when it is the target), and
/// names the first rule along that walk other than the rule being saved
/// (the rule itself when there is none), as a validation error on
/// `enabled`.
pub open spec fn cycle_refusal(
    es: Seq<EdgeView>,
    sources: Seq<DeviceView>,
    target: DeviceView,
    name: Seq<char>,
    e: crate::error::ServiceError,
) -> bool {
    exists|k: int, idx: Seq<int>|
        #![trigger is_walk(es, idx, target, sources[k])]
        {
            &&& 0 <= k < sources.len()
            &&& is_walk(es, idx, target, sources[k])
            &&& forall|q: int| 0 <= q < k ==> sources[q] != target && !reachable(es, target, #[trigger] sources[q])
            &&& e matches crate::error::ServiceError::Validation { field_errors } && field_errors@.len() == 1
                && field_errors@[0].field@ == "enabled"@ && field_errors@[0].message@ == cycle_message(
                name,
                culprit_of(walk_labels(es, idx), name),
            )
        }
}

/// The write-loop check for saving a rule. `enabled` and `name` are the rule
/// being saved, `target` its resolved target device (`None` when the target
/// did not resolve), `sources` its resolved condition source devices in
/// order, and `others` every other enabled rule. A disabled rule, or one
/// whose target did not resolve, always passes; otherwise the save is refused
/// exactly when some source device is the target or can be reached from it,
/// and the refusal names the rule and one rule along the loop.
pub fn detect_write_cycle(
    enabled: bool,
    name: &str,
    target: &Option<Device>,
    sources: &Vec<Device>,
    others: &Vec<OtherRule>,
) -> (r: Result<(), crate::error::ServiceError>)
    ensures
        (!enabled || target is None) ==> r is Ok,
        enabled && target is Some ==> (r is Ok <==> !closes_cycle(
            device_graph(devices_view(sources@), target.unwrap()@, trim_spec(name@), others@),
            devices_view(sources@),
            target.unwrap()@,
        )),
        r matches Err(e) ==> cycle_refusal(
            device_graph(devices_view(sources@), target.unwrap()@, trim_spec(name@), others@),
            devices_view(sources@),
            target.unwrap()@,
            trim_spec(name@),
            e,
        ),
{
    if !enabled {
        return Ok(());
    }
    let t = match target {
        Some(t) => t,
        None => {
            return Ok(());
        },
    };
    let label = trim(name);
    let mut edges: Vec<DeviceEdge> = Vec::new();
    push_rule_edges(&mut edges, sources, t, &label);
    let mut j: usize = 0;
    while j < others.len()
        invariant
            j <= others.len(),
            edges_view(edges@) == rule_edges(devices_view(sources@), t@, label@) + others_edges(
                others@.take(j as int),
            ),
        decreases others.len() - j,
    {
        proof {
            assert(others@.take(j + 1).drop_last() =~= others@.take(j as int));
        }
        match &others[j].devices {
            Some((srcs, tgt)) => {
                push_rule_edges(&mut edges, srcs, tgt, &others[j].name);
            },
            None => {},
        }
        proof {
            assert(others@.take(j + 1).last() == others@[j as int]);
            assert(edges_view(edges@) =~= rule_edges(devices_view(sources@), t@, label@) + others_edges(
                others@.take(j + 1),
            ));
        }
        j = j + 1;
    }
    proof {
        assert(others@.take(others.len() as int) =~= others@);
    }
    let ghost es = edges_view(edges@);
    let ghost sv = devices_view(sources@);
    let mut k: usize = 0;
    while k < sources.len()
        invariant
            k <= sources.len(),
            es == edges_view(edges@),
            es == device_graph(sv, t@, label@, others@),
            sv == devices_view(sources@),
            label@ == trim_spec(name@),
            enabled,
            target is Some,
            target.unwrap()@ == t@,
            forall|q: int| 0 <= q < k ==> sv[q] != t@ && !reachable(es, t@, #[trigger] sv[q]),
        decreases sources.len() - k,
    {
        proof {
            assert(sv[k as int] == sources@[k as int]@);
        }
        if sources[k].same(t) {
            proof {
                assert(closes_cycle(es, sv, t@)) by {
                    assert(sv[k as int] == t@);
                }
                let idx = Seq::<int>::empty();
                assert(is_walk(es, idx, t@, sv[k as int]));
                assert(walk_labels(es, idx) =~= Seq::<Seq<char>>::empty());
                assert(culprit_of(walk_labels(es, idx), label@) == label@);
            }
            let r = cycle_error(label.as_str(), label.as_str());
            proof {
                let idx = Seq::<int>::empty();
                assert(is_walk(es, idx, t@, sv[k as int]));
            }
            return Err(r);
        }
        match find_path(&edges, t, &sources[k]) {
            Some(path) => {
                let c = culprit(&path, label.as_str());
                proof {
                    assert(closes_cycle(es, sv, t@)) by {
                        assert(reachable(es, t@, sv[k as int]));
                    }
                    let idx = choose|idx: Seq<int>|
                        is_walk(es, idx, t@, sources@[k as int]@) && strings_view(path@) == walk_labels(es, idx);
                    assert(is_walk(es, idx, t@, sv[k as int]));
                }
                let r = cycle_error(label.as_str(), c.as_str());
                proof {
                    let idx = choose|idx: Seq<int>|
                        is_walk(es, idx, t@, sources@[k as int]@) && strings_view(path@) == walk_labels(es, idx);
                    assert(is_walk(es, idx, t@, sv[k as int]));
                }
                return Err(r);
            },
            None => {},
        }
        k = k + 1;
    }
    Ok(())
}

/// Rule `r` of `others` contributes the edge `e`: it resolved, and `e`
/// runs from one of its sources to its target under its name.
pub open spec fn contributes(others: Seq<OtherRule>, r: int, e: EdgeView) -> bool {
    &&& 0 <= r < others.len()
    &&& others[r].devices matches Some((sources, target)) && exists|m: int|
        0 <= m < sources@.len() && e == (#[trigger] sources@[m]@, target@, others[r].name@)
}

/// The loop edges of the already-saved rules are exactly those of the rules
/// that resolved: an edge is in the graph when, and only when, some such
/// rule reads its `from` device and writes its `to` device, under that
/// rule's name. A rule that did not resolve adds nothing.
pub proof fn law_loop_edges_come_from_resolved_rules(others: Seq<OtherRule>, e: EdgeView)
    ensures
        others_edges(others).contains(e) <==> exists|r: int| #[trigger] contributes(others, r, e),
    decreases others.len(),
{
    if others.len() > 0 {
        let init = others.drop_last();
        let last = others.last();
        law_loop_edges_come_from_resolved_rules(init, e);
        let a = others_edges(init);
        let b = other_rule_edges(last);
        assert(others_edges(others) == a + b);
        if (a + b).contains(e) {
            let k = choose|k: int| 0 <= k < (a + b).len() && (a + b)[k] == e;
            if k < a.len() {
                assert(a[k] == (a + b)[k]);
                let r = choose|r: int| #[trigger] contributes(init, r, e);
                assert(others[r] == init[r]);
                assert(contributes(others, r, e));
            } else {
                assert(b[k - a.len()] == (a + b)[k]);
                let (sources, target) = last.devices->0;
                let m = k - a.len();
                assert(b[m] == (sources@[m]@, target@, last.name@));
                assert(contributes(others, others.len() - 1, e));
            }
        }
        if exists|r: int| #[trigger] contributes(others, r, e) {
            let r = choose|r: int| #[trigger] contributes(others, r, e);
            if r < others.len() - 1 {
                assert(others[r] == init[r]);
                assert(contributes(init, r, e));
                let k = choose|k: int| 0 <= k < a.len() && a[k] == e;
                assert((a + b)[k] == a[k]);
            } else {
                let (sources, target) = last.devices->0;
                let m = choose|m: int|
                    0 <= m < sources@.len() && e == (#[trigger] sources@[m]@, target@, last.name@);
                assert(b[m] == e);
                assert((a + b)[a.len() + m] == b[m]);
            }
        }
    }
}

/// The rest of a walk after its first edge is a walk from that edge's end.
proof fn lemma_walk_rest(es: Seq<EdgeView>, idx: Seq<int>, start: DeviceView, goal: DeviceView)
    requires
        is_walk(es, idx, start, goal),
        idx.len() > 0,
    ensures
        is_walk(es, idx.drop_first(), es[idx[0]].1, goal),
{
    let r = idx.drop_first();
    assert forall|k: int| 0 <= k < r.len() implies 0 <= #[trigger] r[k] < es.len() by {
        assert(r[k] == idx[k + 1]);
    }
    if r.len() > 0 {
        assert(r[0] == idx[1]);
        assert(es[idx[0]].1 == es[idx[1]].0);
        assert(r.last() == idx.last());
    }
    assert forall|k: int| 0 <= k < r.len() - 1 implies es[#[trigger] r[k]].1 == es[r[k + 1]].0 by {
        assert(r[k] == idx[k + 1] && r[k + 1] == idx[k + 2]);
    }
}

/// An edge followed by a walk from its end is a walk.
proof fn lemma_walk_prepend(es: Seq<EdgeView>, j: int, idx: Seq<int>, goal: DeviceView)
    requires
        0 <= j < es.len(),
        is_walk(es, idx, es[j].1, goal),
    ensures
        is_walk(es, seq![j] + idx, es[j].0, goal),
{
    let w = seq![j] + idx;
    assert forall|k: int| 0 <= k < w.len() implies 0 <= #[trigger] w[k] < es.len() by {
        if k > 0 {
            assert(w[k] == idx[k - 1]);
        }
    }
    assert(w[0] == j);
    if idx.len() > 0 {
        assert(w.last() == idx.last());
        assert(w[1] == idx[0]);
    }
    assert forall|k: int| 0 <= k < w.len() - 1 implies es[#[trigger] w[k]].1 == es[w[k + 1]].0 by {
        if k > 0 {
            assert(w[k] == idx[k - 1] && w[k + 1] == idx[k]);
        } else {
            assert(w[1] == idx[0]);
        }
    }
}

/// In the whole graph, every device reachable from `a` is reachable from it
/// over the other rules' edges alone, is the target itself, or is reachable
/// from the target over the other rules' edges: the candidate's own edges
/// all lead into the target.
proof fn lemma_graph_walk_splits(
    sources: Seq<DeviceView>,
    target: DeviceView,
    label: Seq<char>,
    others: Seq<OtherRule>,
    idx: Seq<int>,
    a: DeviceView,
    g: DeviceView,
)
    requires
        is_walk(device_graph(sources, target, label, others), idx, a, g),
    ensures
        reachable(others_edges(others), a, g) || g == target || reachable(others_edges(others), target, g),
    decreases idx.len(),
{
    let es = device_graph(sources, target, label, others);
    let oe = others_edges(others);
    let n = sources.len() as int;
    assert(es.len() == n + oe.len());
    if idx.len() == 0 {
        assert(is_walk(oe, Seq::empty(), a, g));
    } else {
        let j = idx[0];
        let b = es[j].1;
        if idx.len() > 1 {
            lemma_walk_rest(es, idx, a, g);
            lemma_graph_walk_splits(sources, target, label, others, idx.drop_first(), b, g);
        } else {
            assert(b == g);
            assert(is_walk(oe, Seq::empty(), b, g));
        }
        if j < n {
            assert(es[j] == rule_edges(sources, target, label)[j]);
            assert(b == target);
            if idx.len() == 1 {
                assert(g == target);
            } else if reachable(oe, b, g) {
                assert(reachable(oe, target, g));
            }
        } else {
            assert(es[j] == oe[j - n]);
            if reachable(oe, b, g) {
                let w = choose|w: Seq<int>| is_walk(oe, w, b, g);
                lemma_walk_prepend(oe, j - n, w, g);
                assert(reachable(oe, a, g));
            }
        }
    }
}

/// A walk over the other rules' edges is a walk in the whole graph, their
/// edges following the candidate's.
proof fn lemma_others_walk_lifts(
    sources: Seq<DeviceView>,
    target: DeviceView,
    label: Seq<char>,
    others: Seq<OtherRule>,
    idx: Seq<int>,
    a: DeviceView,
    g: DeviceView,
)
    requires
        is_walk(others_edges(others), idx, a, g),
    ensures
        reachable(device_graph(sources, target, label, others), a, g),
{
    let es = device_graph(sources, target, label, others);
    let oe = others_edges(others);
    let n = sources.len() as int;
    assert(es.len() == n + oe.len());
    let w = idx.map_values(|i: int| i + n);
    assert forall|k: int| 0 <= k < w.len() implies 0 <= #[trigger] w[k] < es.len() && es[w[k]] == oe[idx[k]] by {
        assert(w[k] == idx[k] + n);
        assert(0 <= idx[k] < oe.len());
    }
    if w.len() > 0 {
        assert(es[w[0]] == oe[idx[0]]);
        assert(es[w.last()] == oe[idx.last()]);
    }
    assert forall|k: int| 0 <= k < w.len() - 1 implies es[#[trigger] w[k]].1 == es[w[k + 1]].0 by {
        assert(es[w[k]] == oe[idx[k]] && es[w[k + 1]] == oe[idx[k + 1]]);
    }
    assert(is_walk(es, w, a, g));
}

/// The loop check in the words of the original: saving the candidate
/// closes a loop exactly when one of its source devices is its target
/// device, or can be reached from the target over the edges of the other
/// rules alone.
pub proof fn law_cycle_is_reachability_over_the_other_rules(
    sources: Seq<DeviceView>,
    target: DeviceView,
    label: Seq<char>,
    others: Seq<OtherRule>,
)
    ensures
        closes_cycle(device_graph(sources, target, label, others), sources, target) <==> exists|k: int|
            0 <= k < sources.len() && (sources[k] == target || reachable(
                others_edges(others),
                target,
                #[trigger] sources[k],
            )),
{
    let es = device_graph(sources, target, label, others);
    let oe = others_edges(others);
    if closes_cycle(es, sources, target) {
        let k = choose|k: int|
            0 <= k < sources.len() && (sources[k] == target || reachable(es, target, #[trigger] sources[k]));
        if sources[k] != target {
            let idx = choose|idx: Seq<int>| is_walk(es, idx, target, sources[k]);
            lemma_graph_walk_splits(sources, target, label, others, idx, target, sources[k]);
        }
        assert(0 <= k < sources.len() && (sources[k] == target || reachable(oe, target, sources[k])));
    }
    if exists|k: int| 0 <= k < sources.len() && (sources[k] == target || reachable(oe, target, #[trigger] sources[k])) {
        let k = choose|k: int|
            0 <= k < sources.len() && (sources[k] == target || reachable(oe, target, #[trigger] sources[k]));
        if sources[k] != target {
            let idx = choose|idx: Seq<int>| is_walk(oe, idx, target, sources[k]);
            lemma_others_walk_lifts(sources, target, label, others, idx, target, sources[k]);
        }
        assert(0 <= k < sources.len() && (sources[k] == target || reachable(es, target, sources[k])));
    }
}

} // verus!
