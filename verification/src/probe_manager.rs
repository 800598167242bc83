//! The probe catalogue: each attachment point once, the hooks and maps shared
//! by all of them, and the single step that hands everything out for
//! attachment.

use vstd::prelude::*;
use crate::probe::{
    has_map, hooks_of, maps_of, merged, Hook, HookModel, MapReuse, MapReuseModel, Probe,
    ProbeError, ProbeKind, ProbeModel, ProbeOption,
};
use crate::text::str_eq;

verus! {

/// Position of the first probe of `probes` that attaches to `target` as
/// `kind` does, or the length of `probes` if there is none.
pub open spec fn find_target(probes: Seq<ProbeModel>, kind: ProbeKind, target: Seq<char>) -> int
    decreases probes.len(),
{
    if probes.len() == 0 {
        0
    } else if probes[0].kind == kind && probes[0].target == target {
        0
    } else {
        1 + find_target(probes.skip(1), kind, target)
    }
}

/// No two probes attach to the same place.
pub open spec fn unique_targets(probes: Seq<ProbeModel>) -> bool {
    forall|i: int, j: int|
        0 <= i < j < probes.len() ==> !((#[trigger] probes[i]).kind == (#[trigger] probes[j]).kind
            && probes[i].target == probes[j].target)
}

/// The catalogue after `probe` has been registered: a probe on a place that
/// is already there is merged into the one there, any other is added at the
/// end.
pub open spec fn registered(probes: Seq<ProbeModel>, probe: ProbeModel) -> Seq<ProbeModel> {
    let i = find_target(probes, probe.kind, probe.target);
    if i < probes.len() {
        probes.update(i, merged(probes[i], probe)->Some_0)
    } else {
        probes.push(probe)
    }
}

/// `find_target` gives a position at or before the end; a position before
/// the end holds a probe on the place looked for, and no position before it
/// does.
pub proof fn lemma_find_target(probes: Seq<ProbeModel>, kind: ProbeKind, target: Seq<char>)
    ensures
        0 <= find_target(probes, kind, target) <= probes.len(),
        find_target(probes, kind, target) < probes.len() ==> probes[find_target(
            probes,
            kind,
            target,
        )].kind == kind && probes[find_target(probes, kind, target)].target == target,
        forall|j: int|
            0 <= j < find_target(probes, kind, target) ==> !((#[trigger] probes[j]).kind == kind
                && probes[j].target == target),
    decreases probes.len(),
{
    if probes.len() > 0 && !(probes[0].kind == kind && probes[0].target == target) {
        let rest = probes.skip(1);
        lemma_find_target(rest, kind, target);
        let k = find_target(rest, kind, target);
        assert forall|j: int| 0 <= j < 1 + k implies !((#[trigger] probes[j]).kind == kind
            && probes[j].target == target) by {
            if j > 0 {
                assert(rest[j - 1] == probes[j]);
            }
        }
        if k < rest.len() {
            assert(rest[k] == probes[k + 1]);
        }
    }
}

/// Registering a probe keeps each place once.
pub proof fn lemma_registered_unique(probes: Seq<ProbeModel>, probe: ProbeModel)
    requires
        unique_targets(probes),
    ensures
        unique_targets(registered(probes, probe)),
{
    lemma_find_target(probes, probe.kind, probe.target);
    let i = find_target(probes, probe.kind, probe.target);
    let after = registered(probes, probe);
    assert forall|a: int, b: int| 0 <= a < b < after.len() implies !((#[trigger] after[a]).kind == (
    #[trigger] after[b]).kind && after[a].target == after[b].target) by {
        if i < probes.len() {
            assert(after[a].kind == probes[a].kind && after[a].target == probes[a].target);
            assert(after[b].kind == probes[b].kind && after[b].target == probes[b].target);
        } else {
            if b < probes.len() {
                assert(after[a] == probes[a]);
                assert(after[b] == probes[b]);
            } else {
                assert(after[a] == probes[a]);
            }
        }
    }
}

/// Two probes on the same place, registered one after the other, leave one
/// probe on that place, and its hooks are those that were there before, if
/// any, followed by those of the first and then by those of the second.
pub proof fn lemma_register_same_target(probes: Seq<ProbeModel>, a: ProbeModel, b: ProbeModel)
    requires
        unique_targets(probes),
        a.kind == b.kind,
        a.target == b.target,
    ensures
        ({
            let i = find_target(probes, a.kind, a.target);
            let after = registered(registered(probes, a), b);
            &&& unique_targets(after)
            &&& find_target(after, a.kind, a.target) == i
            &&& i < probes.len() ==> after.len() == probes.len() && after[i].hooks
                == probes[i].hooks + a.hooks + b.hooks
            &&& i == probes.len() ==> after.len() == probes.len() + 1 && after[i].hooks == a.hooks
                + b.hooks
            &&& forall|j: int|
                0 <= j < after.len() && (#[trigger] after[j]).kind == a.kind && after[j].target
                    == a.target ==> j == i
            &&& forall|j: int| 0 <= j < probes.len() && j != i ==> #[trigger] after[j] == probes[j]
        }),
{
    let i = find_target(probes, a.kind, a.target);
    let mid = registered(probes, a);
    let after = registered(mid, b);
    lemma_find_target(probes, a.kind, a.target);
    lemma_registered_unique(probes, a);
    lemma_find_target(mid, b.kind, b.target);
    lemma_registered_unique(mid, b);
    let k = find_target(mid, b.kind, b.target);
    assert(mid[i].kind == a.kind && mid[i].target == a.target);
    assert(k == i) by {
        if k < i {
            assert(mid[k].kind == probes[k].kind && mid[k].target == probes[k].target);
        }
    }
    lemma_find_target(after, a.kind, a.target);
    assert(after[i].kind == a.kind && after[i].target == a.target);
    let m = find_target(after, a.kind, a.target);
    assert(m == i) by {
        if m < i {
            assert(after[m].kind == probes[m].kind && after[m].target == probes[m].target);
        }
    }
    if i < probes.len() {
        assert(after[i].hooks =~= probes[i].hooks + a.hooks + b.hooks);
    } else {
        assert(after[i].hooks =~= a.hooks + b.hooks);
    }
    assert forall|j: int|
        0 <= j < after.len() && (#[trigger] after[j]).kind == a.kind && after[j].target
            == a.target implies j == i by {
        if j < i {
            assert(!(after[j].kind == after[i].kind && after[j].target == after[i].target));
        } else if j > i {
            assert(!(after[i].kind == after[j].kind && after[i].target == after[j].target));
        }
    }
}

/// One program to load and attach, with all the maps it shares.
#[derive(Clone, Debug, PartialEq, Eq)]
pub struct AttachItem {
    pub kind: ProbeKind,
    pub target: String,
    pub program: Vec<u8>,
    pub maps: Vec<MapReuse>,
    pub stack_trace: bool,
}

/// Mathematical image of an [`AttachItem`].
pub ghost struct AttachItemModel {
    pub kind: ProbeKind,
    pub target: Seq<char>,
    pub program: Seq<u8>,
    pub maps: Seq<MapReuseModel>,
    pub stack_trace: bool,
}

impl View for AttachItem {
    type V = AttachItemModel;

    open spec fn view(&self) -> AttachItemModel {
        AttachItemModel {
            kind: self.kind,
            target: self.target@,
            program: self.program@,
            maps: maps_of(self.maps@),
            stack_trace: self.stack_trace,
        }
    }
}

/// The images of a list of items to attach.
pub open spec fn items_of(items: Seq<AttachItem>) -> Seq<AttachItemModel> {
    items.map_values(|i: AttachItem| i@)
}

/// Mathematical image of a [`ProbeManager`].
pub ghost struct ProbeManagerModel {
    /// The probes, in the order their places were first registered.
    pub probes: Seq<ProbeModel>,
    /// The maps shared with every program.
    pub maps: Seq<MapReuseModel>,
    /// The hooks run under every kernel probe, before its own.
    pub hooks: Seq<HookModel>,
    /// Whether stack traces are asked for on every probe.
    pub stack_trace: bool,
    /// The packet filter applied on every target, as a compiled program.
    pub filter: Option<Seq<u8>>,
    /// Whether the probes were handed out for attachment.
    pub attached: bool,
}

/// The item that attaches `hook` under `probe`: it shares the maps of the
/// catalogue, then those of the hook.
pub open spec fn item_for(m: ProbeManagerModel, probe: ProbeModel, hook: HookModel)
    -> AttachItemModel {
    AttachItemModel {
        kind: probe.kind,
        target: probe.target,
        program: hook.data,
        maps: m.maps + hook.maps,
        stack_trace: m.stack_trace || probe.stack_trace,
    }
}

/// The hooks to attach under `probe`: for a kernel probe those of the
/// catalogue first, then its own.
pub open spec fn hooks_for(m: ProbeManagerModel, probe: ProbeModel) -> Seq<HookModel> {
    if probe.kind.spec_is_kernel() {
        m.hooks + probe.hooks
    } else {
        probe.hooks
    }
}

/// The items that attach `probe`, one per hook.
pub open spec fn items_for(m: ProbeManagerModel, probe: ProbeModel) -> Seq<AttachItemModel> {
    hooks_for(m, probe).map_values(|h: HookModel| item_for(m, probe, h))
}

/// The items that attach the first `n` probes, probe after probe.
pub open spec fn plan_prefix(m: ProbeManagerModel, n: int) -> Seq<AttachItemModel>
    decreases n,
{
    if n <= 0 {
        Seq::empty()
    } else {
        plan_prefix(m, n - 1) + items_for(m, m.probes[n - 1])
    }
}

/// Everything to attach: the items of all the probes, probe after probe.
pub open spec fn plan_of(m: ProbeManagerModel) -> Seq<AttachItemModel> {
    plan_prefix(m, m.probes.len() as int)
}

/// Copies `src` after what `dst` holds.
fn extend_bytes(dst: &mut Vec<u8>, src: &Vec<u8>)
    ensures
        final(dst)@ == old(dst)@ + src@,
{
    let mut i: usize = 0;
    assert(src@.take(0) =~= Seq::<u8>::empty());
    assert(dst@ =~= old(dst)@ + src@.take(0));
    while i < src.len()
        invariant
            i <= src@.len(),
            dst@ == old(dst)@ + src@.take(i as int),
        decreases src@.len() - i,
    {
        dst.push(src[i]);
        assert(src@.take(i + 1) =~= src@.take(i as int).push(src@[i as int]));
        assert(dst@ =~= old(dst)@ + src@.take(i + 1));
        i += 1;
    }
    assert(src@.take(src@.len() as int) =~= src@);
}

/// Copies the maps of `src` after those `dst` holds.
fn extend_maps(dst: &mut Vec<MapReuse>, src: &Vec<MapReuse>)
    ensures
        maps_of(final(dst)@) == maps_of(old(dst)@) + maps_of(src@),
{
    let mut i: usize = 0;
    assert(maps_of(src@).take(0) =~= Seq::<MapReuseModel>::empty());
    assert(maps_of(dst@) =~= maps_of(old(dst)@) + maps_of(src@).take(0));
    while i < src.len()
        invariant
            i <= src@.len(),
            maps_of(dst@) == maps_of(old(dst)@) + maps_of(src@).take(i as int),
        decreases src@.len() - i,
    {
        let ghost before = dst@;
        let entry = MapReuse { name: src[i].name.clone(), fd: src[i].fd };
        assert(entry@ == src@[i as int]@);
        dst.push(entry);
        assert(maps_of(dst@) =~= maps_of(before).push(entry@));
        assert(maps_of(src@).take(i + 1) =~= maps_of(src@).take(i as int).push(entry@));
        assert(maps_of(dst@) =~= maps_of(old(dst)@) + maps_of(src@).take(i + 1));
        i += 1;
    }
    assert(maps_of(src@).take(src@.len() as int) =~= maps_of(src@));
}

/// Adds to `out` the items that attach `hooks` under `probe`.
fn push_items(
    out: &mut Vec<AttachItem>,
    probe: &Probe,
    hooks: &Vec<Hook>,
    maps: &Vec<MapReuse>,
    stack_trace: bool,
    Ghost(m): Ghost<ProbeManagerModel>,
)
    requires
        m.maps == maps_of(maps@),
        m.stack_trace == stack_trace,
    ensures
        items_of(final(out)@) == items_of(old(out)@) + hooks_of(hooks@).map_values(
            |h: HookModel| item_for(m, probe@, h),
        ),
{
    let ghost wanted = hooks_of(hooks@).map_values(|h: HookModel| item_for(m, probe@, h));
    let mut i: usize = 0;
    assert(items_of(out@) =~= items_of(old(out)@) + wanted.take(0));
    while i < hooks.len()
        invariant
            i <= hooks@.len(),
            m.maps == maps_of(maps@),
            m.stack_trace == stack_trace,
            wanted == hooks_of(hooks@).map_values(|h: HookModel| item_for(m, probe@, h)),
            items_of(out@) == items_of(old(out)@) + wanted.take(i as int),
        decreases hooks@.len() - i,
    {
        let hook = &hooks[i];
        let mut program: Vec<u8> = Vec::new();
        extend_bytes(&mut program, hook.data());
        let mut shared: Vec<MapReuse> = Vec::new();
        extend_maps(&mut shared, maps);
        extend_maps(&mut shared, hook.maps());
        let item = AttachItem {
            kind: probe.kind(),
            target: probe.target().to_owned(),
            program,
            maps: shared,
            stack_trace: stack_trace || probe.stack_trace(),
        };
        proof {
            assert(program@ =~= hook@.data);
            assert(maps_of(shared@) =~= m.maps + hook@.maps);
            assert(item@ == item_for(m, probe@, hook@));
            assert(wanted[i as int] == item@);
        }
        let ghost before = out@;
        out.push(item);
        assert(items_of(out@) =~= items_of(before).push(item@));
        assert(wanted.take(i + 1) =~= wanted.take(i as int).push(item@));
        assert(items_of(out@) =~= items_of(old(out)@) + wanted.take(i + 1));
        i += 1;
    }
    assert(wanted.take(hooks@.len() as int) =~= wanted);
}

/// Deduplicating catalogue of probes, with what they all share.
pub struct ProbeManager {
    probes: Vec<Probe>,
    maps: Vec<MapReuse>,
    hooks: Vec<Hook>,
    stack_trace: bool,
    filter: Option<Vec<u8>>,
    attached: bool,
}

/// The images of a list of probes.
pub open spec fn probes_of(probes: Seq<Probe>) -> Seq<ProbeModel> {
    probes.map_values(|p: Probe| p@)
}

impl View for ProbeManager {
    type V = ProbeManagerModel;

    closed spec fn view(&self) -> ProbeManagerModel {
        ProbeManagerModel {
            probes: probes_of(self.probes@),
            maps: maps_of(self.maps@),
            hooks: hooks_of(self.hooks@),
            stack_trace: self.stack_trace,
            filter: match self.filter {
                Some(f) => Some(f@),
                None => None,
            },
            attached: self.attached,
        }
    }
}

impl ProbeManager {
    #[verifier::type_invariant]
    spec fn inv(self) -> bool {
        unique_targets(probes_of(self.probes@))
    }

    /// An empty catalogue.
    pub fn new() -> (r: ProbeManager)
        ensures
            r@ == (ProbeManagerModel {
                probes: Seq::empty(),
                maps: Seq::empty(),
                hooks: Seq::empty(),
                stack_trace: false,
                filter: None,
                attached: false,
            }),
    {
        let r = ProbeManager {
            probes: Vec::new(),
            maps: Vec::new(),
            hooks: Vec::new(),
            stack_trace: false,
            filter: None,
            attached: false,
        };
        assert(probes_of(r.probes@) =~= Seq::<ProbeModel>::empty());
        assert(maps_of(r.maps@) =~= Seq::<MapReuseModel>::empty());
        assert(hooks_of(r.hooks@) =~= Seq::<HookModel>::empty());
        r
    }

    /// Position of the probe on the place `probe` attaches to, or the number
    /// of probes if there is none.
    fn position(&self, probe: &Probe) -> (r: usize)
        ensures
            r == find_target(self@.probes, probe@.kind, probe@.target),
            r <= self.probes@.len(),
    {
        let ghost all = probes_of(self.probes@);
        let mut i: usize = 0;
        assert(all.skip(0) =~= all);
        while i < self.probes.len()
            invariant
                i <= self.probes@.len(),
                all == probes_of(self.probes@),
                find_target(all, probe@.kind, probe@.target) == i + find_target(
                    all.skip(i as int),
                    probe@.kind,
                    probe@.target,
                ),
            decreases self.probes@.len() - i,
        {
            assert(all.skip(i as int)[0] == self.probes@[i as int]@);
            if self.probes[i].same_target(probe) {
                return i;
            }
            assert(all.skip(i as int).skip(1) =~= all.skip(i + 1));
            i += 1;
        }
        i
    }

    /// Registers a probe.
    ///
    /// A place is held once: where the catalogue already has a probe on the
    /// place `probe` attaches to, the hooks of `probe` are added after those
    /// of the probe there and its options are set there too. Once the probes
    /// were handed out for attachment nothing can be registered.
    pub fn register_probe(&mut self, probe: Probe) -> (r: Result<(), ProbeError>)
        ensures
            old(self)@.attached ==> r == Err::<(), ProbeError>(ProbeError::AlreadyAttached)
                && final(self)@ == old(self)@,
            !old(self)@.attached ==> r is Ok && final(self)@ == (ProbeManagerModel {
                probes: registered(old(self)@.probes, probe@),
                ..old(self)@
            }),
            unique_targets(final(self)@.probes),
    {
        proof {
            use_type_invariant(&*self);
            lemma_find_target(self@.probes, probe@.kind, probe@.target);
            lemma_registered_unique(self@.probes, probe@);
        }
        if self.attached {
            return Err(ProbeError::AlreadyAttached);
        }
        let i = self.position(&probe);
        let mut taken = ProbeManager::new();
        std::mem::swap(self, &mut taken);
        let ProbeManager { mut probes, maps, hooks, stack_trace, filter, attached } = taken;
        let ghost before = probes@;
        if i < probes.len() {
            let mut held = probes.remove(i);
            let res = held.merge(probe);
            assert(res is Ok);
            probes.insert(i, held);
            assert(probes_of(probes@) =~= probes_of(before).update(i as int, held@));
        } else {
            probes.push(probe);
            assert(probes_of(probes@) =~= probes_of(before).push(probe@));
        }
        *self = ProbeManager { probes, maps, hooks, stack_trace, filter, attached };
        Ok(())
    }

    /// Shares the map `fd` with every program, under `name`.
    ///
    /// A name can be shared once: the second request is refused and changes
    /// nothing.
    pub fn reuse_map(&mut self, name: &str, fd: i32) -> (r: Result<(), ProbeError>)
        ensures
            has_map(old(self)@.maps, name@) ==> r == Err::<(), ProbeError>(
                ProbeError::MapAlreadyReused,
            ) && final(self)@ == old(self)@,
            !has_map(old(self)@.maps, name@) ==> r is Ok && final(self)@ == (ProbeManagerModel {
                maps: old(self)@.maps.push(MapReuseModel { name: name@, fd }),
                ..old(self)@
            }),
    {
        proof {
            use_type_invariant(&*self);
        }
        let mut i: usize = 0;
        while i < self.maps.len()
            invariant
                i <= self.maps@.len(),
                forall|j: int| 0 <= j < i ==> (#[trigger] maps_of(self.maps@)[j]).name != name@,
            decreases self.maps@.len() - i,
        {
            if str_eq(self.maps[i].name.as_str(), name) {
                assert(maps_of(self.maps@)[i as int].name == name@);
                return Err(ProbeError::MapAlreadyReused);
            }
            i += 1;
        }
        let mut taken = ProbeManager::new();
        std::mem::swap(self, &mut taken);
        let ProbeManager { probes, mut maps, hooks, stack_trace, filter, attached } = taken;
        let ghost before = maps@;
        let entry = MapReuse { name: name.to_owned(), fd };
        maps.push(entry);
        assert(maps_of(maps@) =~= maps_of(before).push(entry@));
        *self = ProbeManager { probes, maps, hooks, stack_trace, filter, attached };
        Ok(())
    }

    /// Registers a hook to run under every kernel probe.
    pub fn register_kernel_hook(&mut self, hook: Hook)
        ensures
            final(self)@ == (ProbeManagerModel {
                hooks: old(self)@.hooks.push(hook@),
                ..old(self)@
            }),
    {
        proof {
            use_type_invariant(&*self);
        }
        let mut taken = ProbeManager::new();
        std::mem::swap(self, &mut taken);
        let ProbeManager { probes, maps, mut hooks, stack_trace, filter, attached } = taken;
        let ghost before = hooks@;
        hooks.push(hook);
        assert(hooks_of(hooks@) =~= hooks_of(before).push(hook@));
        *self = ProbeManager { probes, maps, hooks, stack_trace, filter, attached };
    }

    /// Registers the packet filter applied on every target, as a compiled
    /// program.
    ///
    /// There is one packet filter at most: a second one is refused and
    /// changes nothing.
    pub fn register_filter(&mut self, filter: Vec<u8>) -> (r: Result<(), ProbeError>)
        ensures
            old(self)@.filter is Some ==> r == Err::<(), ProbeError>(
                ProbeError::FilterAlreadySet,
            ) && final(self)@ == old(self)@,
            old(self)@.filter is None ==> r is Ok && final(self)@ == (ProbeManagerModel {
                filter: Some(filter@),
                ..old(self)@
            }),
    {
        proof {
            use_type_invariant(&*self);
        }
        if self.filter.is_some() {
            return Err(ProbeError::FilterAlreadySet);
        }
        self.filter = Some(filter);
        Ok(())
    }

    /// The packet filter applied on every target, if there is one.
    pub fn filter(&self) -> (r: Option<&Vec<u8>>)
        ensures
            match r {
                Some(f) => self@.filter == Some(f@),
                None => self@.filter is None,
            },
    {
        self.filter.as_ref()
    }

    /// Sets an option on every probe, registered or yet to be.
    pub fn set_probe_opt(&mut self, option: ProbeOption)
        ensures
            final(self)@ == (ProbeManagerModel { stack_trace: true, ..old(self)@ }),
    {
        proof {
            use_type_invariant(&*self);
        }
        match option {
            ProbeOption::StackTrace => {
                self.stack_trace = true;
            },
        }
    }

    /// Hands out everything there is to load and attach, once.
    ///
    /// Each hook of each probe gives one item, probe after probe; under a
    /// kernel probe the hooks of the catalogue come before its own. An item
    /// shares the maps of the catalogue and then those of its hook. A second
    /// call is refused.
    pub fn attach(&mut self) -> (r: Result<Vec<AttachItem>, ProbeError>)
        ensures
            old(self)@.attached ==> r == Err::<Vec<AttachItem>, ProbeError>(
                ProbeError::AlreadyAttached,
            ) && final(self)@ == old(self)@,
            !old(self)@.attached ==> (r matches Ok(items) && items_of(items@) == plan_of(
                old(self)@,
            )) && final(self)@ == (ProbeManagerModel { attached: true, ..old(self)@ }),
    {
        proof {
            use_type_invariant(&*self);
        }
        if self.attached {
            return Err(ProbeError::AlreadyAttached);
        }
        let ghost m = self@;
        let mut out: Vec<AttachItem> = Vec::new();
        let mut i: usize = 0;
        assert(items_of(out@) =~= plan_prefix(m, 0));
        while i < self.probes.len()
            invariant
                i <= self.probes@.len(),
                m == self@,
                items_of(out@) == plan_prefix(m, i as int),
            decreases self.probes@.len() - i,
        {
            let probe = &self.probes[i];
            assert(m.probes[i as int] == probe@);
            let ghost before = items_of(out@);
            if probe.kind().is_kernel() {
                push_items(&mut out, probe, &self.hooks, &self.maps, self.stack_trace, Ghost(m));
                push_items(&mut out, probe, probe.hooks(), &self.maps, self.stack_trace, Ghost(m));
                assert(items_of(out@) =~= before + items_for(m, probe@));
            } else {
                push_items(&mut out, probe, probe.hooks(), &self.maps, self.stack_trace, Ghost(m));
                assert(items_of(out@) =~= before + items_for(m, probe@));
            }
            i += 1;
        }
        self.attached = true;
        Ok(out)
    }

    /// The probes, in the order their places were first registered.
    pub fn probes(&self) -> (r: &Vec<Probe>)
        ensures
            probes_of(r@) == self@.probes,
            unique_targets(self@.probes),
    {
        proof {
            use_type_invariant(self);
        }
        &self.probes
    }

    /// Number of places in the catalogue.
    pub fn len(&self) -> (r: usize)
        ensures
            r == self@.probes.len(),
    {
        self.probes.len()
    }

    /// Whether the probes were handed out for attachment.
    pub fn is_attached(&self) -> (r: bool)
        ensures
            r == self@.attached,
    {
        self.attached
    }
}

} // verus!
