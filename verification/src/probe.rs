//! Probes: the places a program can be attached to, the hooks attached under
//! each of them, and the catalogue that holds each place once.

use vstd::prelude::*;
use crate::text::str_eq;

verus! {

/// Why the probe catalogue refused an operation.
#[derive(Clone, Copy, Debug, PartialEq, Eq, Structural)]
pub enum ProbeError {
    /// A map of this name is already shared.
    MapAlreadyReused,
    /// The probes were attached already.
    AlreadyAttached,
    /// The two probes do not target the same place.
    TargetMismatch,
    /// A packet filter is already registered.
    FilterAlreadySet,
}

/// Where a probe attaches.
#[derive(Clone, Copy, Debug, PartialEq, Eq, Hash, Structural)]
pub enum ProbeKind {
    Kprobe,
    Kretprobe,
    RawTracepoint,
    Usdt,
}

impl ProbeKind {
    /// Whether probes of this kind attach in the kernel.
    pub open spec fn spec_is_kernel(self) -> bool {
        self != ProbeKind::Usdt
    }

    /// Whether probes of this kind attach in the kernel.
    pub fn is_kernel(self) -> (r: bool)
        ensures
            r == self.spec_is_kernel(),
    {
        match self {
            ProbeKind::Usdt => false,
            _ => true,
        }
    }
}

/// A map shared with a program before it is loaded: the name the program
/// knows it by, and the descriptor of the map to use in its place.
#[derive(Clone, Debug, PartialEq, Eq)]
pub struct MapReuse {
    pub name: String,
    pub fd: i32,
}

/// Mathematical image of a [`MapReuse`].
pub ghost struct MapReuseModel {
    pub name: Seq<char>,
    pub fd: i32,
}

impl View for MapReuse {
    type V = MapReuseModel;

    open spec fn view(&self) -> MapReuseModel {
        MapReuseModel { name: self.name@, fd: self.fd }
    }
}

/// The images of a list of shared maps.
pub open spec fn maps_of(maps: Seq<MapReuse>) -> Seq<MapReuseModel> {
    maps.map_values(|m: MapReuse| m@)
}

/// Whether a map named `name` is in `maps`.
pub open spec fn has_map(maps: Seq<MapReuseModel>, name: Seq<char>) -> bool {
    exists|i: int| 0 <= i < maps.len() && (#[trigger] maps[i]).name == name
}

/// Whether a map named `name` is in `maps`.
fn find_map(maps: &Vec<MapReuse>, name: &str) -> (r: bool)
    ensures
        r == has_map(maps_of(maps@), name@),
{
    let mut i: usize = 0;
    while i < maps.len()
        invariant
            i <= maps@.len(),
            forall|j: int| 0 <= j < i ==> (#[trigger] maps_of(maps@)[j]).name != name@,
        decreases maps@.len() - i,
    {
        if str_eq(maps[i].name.as_str(), name) {
            assert(maps_of(maps@)[i as int].name == name@);
            return true;
        }
        i += 1;
    }
    false
}

/// One small program attached under a probe, with the maps it shares.
#[derive(Clone, Debug, PartialEq, Eq)]
pub struct Hook {
    data: Vec<u8>,
    maps: Vec<MapReuse>,
}

/// Mathematical image of a [`Hook`].
pub ghost struct HookModel {
    pub data: Seq<u8>,
    pub maps: Seq<MapReuseModel>,
}

impl View for Hook {
    type V = HookModel;

    closed spec fn view(&self) -> HookModel {
        HookModel { data: self.data@, maps: maps_of(self.maps@) }
    }
}

impl Hook {
    /// A hook running the program `data`, sharing no map yet.
    pub fn from_bytes(data: Vec<u8>) -> (r: Hook)
        ensures
            r@ == (HookModel { data: data@, maps: Seq::empty() }),
    {
        let r = Hook { data, maps: Vec::new() };
        assert(maps_of(r.maps@) =~= Seq::<MapReuseModel>::empty());
        r
    }

    /// Shares the map `fd` with the program, under `name`.
    ///
    /// A name can be shared once: the second request is refused and changes
    /// nothing.
    pub fn reuse_map(&mut self, name: &str, fd: i32) -> (r: Result<(), ProbeError>)
        ensures
            has_map(old(self)@.maps, name@) ==> r == Err::<(), ProbeError>(
                ProbeError::MapAlreadyReused,
            ) && final(self)@ == old(self)@,
            !has_map(old(self)@.maps, name@) ==> r is Ok && final(self)@ == (HookModel {
                data: old(self)@.data,
                maps: old(self)@.maps.push(MapReuseModel { name: name@, fd }),
            }),
    {
        if find_map(&self.maps, name) {
            return Err(ProbeError::MapAlreadyReused);
        }
        let ghost before = self.maps@;
        let entry = MapReuse { name: name.to_owned(), fd };
        self.maps.push(entry);
        assert(maps_of(self.maps@) =~= maps_of(before).push(entry@));
        Ok(())
    }

    /// The program of the hook.
    pub fn data(&self) -> (r: &Vec<u8>)
        ensures
            r@ == self@.data,
    {
        &self.data
    }

    /// The maps the hook shares.
    pub fn maps(&self) -> (r: &Vec<MapReuse>)
        ensures
            maps_of(r@) == self@.maps,
    {
        &self.maps
    }
}

/// The images of a list of hooks.
pub open spec fn hooks_of(hooks: Seq<Hook>) -> Seq<HookModel> {
    hooks.map_values(|h: Hook| h@)
}

/// An attachment point, with the hooks to run there and its options.
#[derive(Clone, Debug, PartialEq, Eq)]
pub struct Probe {
    kind: ProbeKind,
    target: String,
    hooks: Vec<Hook>,
    stack_trace: bool,
}

/// Mathematical image of a [`Probe`].
pub ghost struct ProbeModel {
    pub kind: ProbeKind,
    pub target: Seq<char>,
    pub hooks: Seq<HookModel>,
    pub stack_trace: bool,
}

impl View for Probe {
    type V = ProbeModel;

    closed spec fn view(&self) -> ProbeModel {
        ProbeModel {
            kind: self.kind,
            target: self.target@,
            hooks: hooks_of(self.hooks@),
            stack_trace: self.stack_trace,
        }
    }
}

/// Options a probe can be given.
#[derive(Clone, Copy, Debug, PartialEq, Eq, Structural)]
pub enum ProbeOption {
    /// Ask for the stack trace of each hit.
    StackTrace,
}

impl Probe {
    /// A probe of the given kind on `target`, without hooks nor options.
    pub fn new(kind: ProbeKind, target: &str) -> (r: Probe)
        ensures
            r@ == (ProbeModel {
                kind,
                target: target@,
                hooks: Seq::empty(),
                stack_trace: false,
            }),
    {
        let r = Probe { kind, target: target.to_owned(), hooks: Vec::new(), stack_trace: false };
        assert(hooks_of(r.hooks@) =~= Seq::<HookModel>::empty());
        r
    }

    /// A kernel probe on the function `symbol`.
    pub fn kprobe(symbol: &str) -> (r: Probe)
        ensures
            r@ == (ProbeModel {
                kind: ProbeKind::Kprobe,
                target: symbol@,
                hooks: Seq::empty(),
                stack_trace: false,
            }),
    {
        Probe::new(ProbeKind::Kprobe, symbol)
    }

    /// A kernel return probe on the function `symbol`.
    pub fn kretprobe(symbol: &str) -> (r: Probe)
        ensures
            r@ == (ProbeModel {
                kind: ProbeKind::Kretprobe,
                target: symbol@,
                hooks: Seq::empty(),
                stack_trace: false,
            }),
    {
        Probe::new(ProbeKind::Kretprobe, symbol)
    }

    /// A raw tracepoint probe on the event `symbol`, written `group:name`.
    pub fn raw_tracepoint(symbol: &str) -> (r: Probe)
        ensures
            r@ == (ProbeModel {
                kind: ProbeKind::RawTracepoint,
                target: symbol@,
                hooks: Seq::empty(),
                stack_trace: false,
            }),
    {
        Probe::new(ProbeKind::RawTracepoint, symbol)
    }

    /// A userspace probe on `target`, written `process:provider::name`.
    pub fn usdt(target: &str) -> (r: Probe)
        ensures
            r@ == (ProbeModel {
                kind: ProbeKind::Usdt,
                target: target@,
                hooks: Seq::empty(),
                stack_trace: false,
            }),
    {
        Probe::new(ProbeKind::Usdt, target)
    }

    /// Where the probe attaches.
    pub fn kind(&self) -> (r: ProbeKind)
        ensures
            r == self@.kind,
    {
        self.kind
    }

    /// What the probe attaches to.
    pub fn target(&self) -> (r: &str)
        ensures
            r@ == self@.target,
    {
        self.target.as_str()
    }

    /// The hooks of the probe, in the order they were added.
    pub fn hooks(&self) -> (r: &Vec<Hook>)
        ensures
            hooks_of(r@) == self@.hooks,
    {
        &self.hooks
    }

    /// Whether stack traces are asked for.
    pub fn stack_trace(&self) -> (r: bool)
        ensures
            r == self@.stack_trace,
    {
        self.stack_trace
    }

    /// Adds a hook after those the probe already has.
    pub fn add_hook(&mut self, hook: Hook)
        ensures
            final(self)@ == (ProbeModel { hooks: old(self)@.hooks.push(hook@), ..old(self)@ }),
    {
        let ghost before = self.hooks@;
        self.hooks.push(hook);
        assert(hooks_of(self.hooks@) =~= hooks_of(before).push(hook@));
    }

    /// Sets an option on the probe.
    pub fn set_option(&mut self, option: ProbeOption)
        ensures
            final(self)@ == (ProbeModel { stack_trace: true, ..old(self)@ }),
    {
        match option {
            ProbeOption::StackTrace => {
                self.stack_trace = true;
            },
        }
    }

    /// Whether the two probes attach to the same place.
    pub fn same_target(&self, other: &Probe) -> (r: bool)
        ensures
            r == (self@.kind == other@.kind && self@.target == other@.target),
    {
        self.kind == other.kind && str_eq(self.target.as_str(), other.target.as_str())
    }

    /// Takes over the hooks and the options of `other`, a probe on the same
    /// place: its hooks come after those already there, and an option is set
    /// if either probe had it.
    pub fn merge(&mut self, other: Probe) -> (r: Result<(), ProbeError>)
        ensures
            merged(old(self)@, other@) matches Some(m) ==> r is Ok && final(self)@ == m,
            merged(old(self)@, other@) is None ==> r == Err::<(), ProbeError>(
                ProbeError::TargetMismatch,
            ) && final(self)@ == old(self)@,
    {
        if !self.same_target(&other) {
            return Err(ProbeError::TargetMismatch);
        }
        let Probe { kind: _, target: _, hooks, stack_trace } = other;
        let ghost before = self.hooks@;
        let mut hooks = hooks;
        self.hooks.append(&mut hooks);
        assert(hooks_of(self.hooks@) =~= hooks_of(before) + other@.hooks);
        if stack_trace {
            self.stack_trace = true;
        }
        Ok(())
    }
}

/// The probe that stands for both `a` and `b`, where they attach to the same
/// place.
pub open spec fn merged(a: ProbeModel, b: ProbeModel) -> Option<ProbeModel> {
    if a.kind == b.kind && a.target == b.target {
        Some(
            ProbeModel {
                kind: a.kind,
                target: a.target,
                hooks: a.hooks + b.hooks,
                stack_trace: a.stack_trace || b.stack_trace,
            },
        )
    } else {
        None
    }
}

} // verus!
