//! User-defined probes: the `[TYPE:]TARGET` strings, what they ask for and
//! the probes they give once their target is resolved against the kernel.

use vstd::prelude::*;
use crate::inspect::kernel::{
    lemma_matching_once, matching, regex_matches, views, wildcard_regex, InspectError,
    KernelInspector, Symbol, SymbolModel,
};
use crate::probe::{Probe, ProbeKind, ProbeModel};
use crate::text::{list_contains, lists, str_eq};

verus! {

/// Why a user-defined probe is refused.
#[derive(Clone, Copy, Debug, PartialEq, Eq, Structural)]
pub enum ProbeSpecError {
    /// The type is not one of the known types.
    InvalidType,
    /// There is no target.
    EmptyTarget,
    /// The target holds a wildcard and the type does not allow one.
    WildcardNotAllowed,
    /// No function that can be traced matches the target.
    NoMatch,
    /// The target is a function where an event is asked for, or an event
    /// where a function is.
    WrongSymbolKind,
    /// The kernel inspector could not resolve the target.
    Inspect(InspectError),
}

/// Position of the first `c` of `s` at or after `from`, or the length of
/// `s` if there is none.
pub open spec fn find_char(s: Seq<char>, c: char, from: int) -> int
    decreases s.len() - from,
{
    if from < 0 || from >= s.len() {
        s.len() as int
    } else if s[from] == c {
        from
    } else {
        find_char(s, c, from + 1)
    }
}

/// How many times `c` occurs in `s`.
pub open spec fn count_char(s: Seq<char>, c: char) -> nat
    decreases s.len(),
{
    if s.len() == 0 {
        0
    } else if s.last() == c {
        count_char(s.drop_last(), c) + 1
    } else {
        count_char(s.drop_last(), c)
    }
}

/// The kind of probe that a type stands for.
pub open spec fn kind_of_type(t: Seq<char>) -> Option<ProbeKind> {
    if t == "kprobe"@ || t == "k"@ {
        Some(ProbeKind::Kprobe)
    } else if t == "kretprobe"@ || t == "kr"@ {
        Some(ProbeKind::Kretprobe)
    } else if t == "raw_tracepoint"@ || t == "tp"@ {
        Some(ProbeKind::RawTracepoint)
    } else {
        None
    }
}

/// The kind and the target that a probe string asks for, before the target
/// is looked at.
///
/// What stands before the first `:` is the type, what stands after it is the
/// target. Without a `:` the string is the target of a kernel probe. Where
/// what stands before the only `:` is no type, the whole string is the
/// target of a raw tracepoint.
pub open spec fn split_spec(s: Seq<char>) -> Result<(ProbeKind, Seq<char>), ProbeSpecError> {
    let i = find_char(s, ':', 0);
    if i >= s.len() {
        Ok((ProbeKind::Kprobe, s))
    } else {
        match kind_of_type(s.take(i)) {
            Some(kind) => Ok((kind, s.skip(i + 1))),
            None => if count_char(s, ':') == 1 {
                Ok((ProbeKind::RawTracepoint, s))
            } else {
                Err(ProbeSpecError::InvalidType)
            },
        }
    }
}

/// The kind and the target that a probe string asks for.
///
/// The target cannot be empty, and only the target of a kernel probe can
/// hold a wildcard.
pub open spec fn probe_spec_of(s: Seq<char>) -> Result<(ProbeKind, Seq<char>), ProbeSpecError> {
    match split_spec(s) {
        Err(e) => Err(e),
        Ok((kind, target)) => if target.len() == 0 {
            Err(ProbeSpecError::EmptyTarget)
        } else if kind != ProbeKind::Kprobe && target.contains('*') {
            Err(ProbeSpecError::WildcardNotAllowed)
        } else {
            Ok((kind, target))
        },
    }
}

/// What a probe string asks for.
#[derive(Clone, Debug, PartialEq, Eq)]
pub struct ProbeSpec {
    pub kind: ProbeKind,
    pub target: String,
}

/// Position of the first `c` of `s`, or the length of `s` in characters if
/// there is none.
fn index_of_char(s: &str, c: char) -> (r: usize)
    ensures
        r == find_char(s@, c, 0),
        r <= s@.len(),
{
    let n: usize = s.unicode_len();
    let mut i: usize = 0;
    while i < n
        invariant
            i <= n,
            n == s@.len(),
            find_char(s@, c, 0) == find_char(s@, c, i as int),
        decreases n - i,
    {
        if s.get_char(i) == c {
            return i;
        }
        i += 1;
    }
    i
}

/// How many times `c` occurs in `s`.
fn occurrences(s: &str, c: char) -> (r: usize)
    ensures
        r == count_char(s@, c),
{
    let n: usize = s.unicode_len();
    let mut i: usize = 0;
    let mut count: usize = 0;
    assert(s@.take(0) =~= Seq::<char>::empty());
    while i < n
        invariant
            i <= n,
            n == s@.len(),
            count <= i,
            count == count_char(s@.take(i as int), c),
        decreases n - i,
    {
        proof {
            assert(s@.take(i + 1).drop_last() =~= s@.take(i as int));
            assert(s@.take(i + 1).last() == s@[i as int]);
        }
        if s.get_char(i) == c {
            count += 1;
        }
        i += 1;
    }
    assert(s@.take(n as int) =~= s@);
    count
}

/// Whether `c` occurs in `s`.
fn has_char(s: &str, c: char) -> (r: bool)
    ensures
        r == s@.contains(c),
{
    let i = index_of_char(s, c);
    proof {
        lemma_find_char(s@, c, 0);
        if s@.contains(c) {
            let k = choose|k: int| 0 <= k < s@.len() && s@[k] == c;
            assert(s@[k] == c);
        }
    }
    i < s.unicode_len()
}

/// `find_char` gives a position from `from` on, at or before the end; a
/// position before the end holds the character looked for, and no position
/// between `from` and it does.
pub proof fn lemma_find_char(s: Seq<char>, c: char, from: int)
    requires
        0 <= from <= s.len(),
    ensures
        from <= find_char(s, c, from) <= s.len(),
        find_char(s, c, from) < s.len() ==> s[find_char(s, c, from)] == c,
        forall|j: int| from <= j < find_char(s, c, from) ==> s[j] != c,
    decreases s.len() - from,
{
    if from < s.len() && s[from] != c {
        lemma_find_char(s, c, from + 1);
    }
}

/// The kind of probe that a type stands for.
fn parse_type(t: &str) -> (r: Option<ProbeKind>)
    ensures
        r == kind_of_type(t@),
{
    if str_eq(t, "kprobe") || str_eq(t, "k") {
        Some(ProbeKind::Kprobe)
    } else if str_eq(t, "kretprobe") || str_eq(t, "kr") {
        Some(ProbeKind::Kretprobe)
    } else if str_eq(t, "raw_tracepoint") || str_eq(t, "tp") {
        Some(ProbeKind::RawTracepoint)
    } else {
        None
    }
}

/// Reads what a user-defined probe asks for: its kind and its target.
pub fn parse_probe_spec(probe: &str) -> (r: Result<ProbeSpec, ProbeSpecError>)
    ensures
        match probe_spec_of(probe@) {
            Ok((kind, target)) => r matches Ok(spec) && spec.kind == kind && spec.target@
                == target,
            Err(e) => r == Err::<ProbeSpec, ProbeSpecError>(e),
        },
{
    let n: usize = probe.unicode_len();
    let i = index_of_char(probe, ':');
    let (kind, target): (ProbeKind, &str) = if i >= n {
        (ProbeKind::Kprobe, probe)
    } else {
        let type_str = probe.substring_char(0, i);
        assert(type_str@ =~= probe@.take(i as int));
        match parse_type(type_str) {
            Some(kind) => {
                let rest = probe.substring_char(i + 1, n);
                assert(rest@ =~= probe@.skip(i + 1));
                (kind, rest)
            },
            None => {
                if occurrences(probe, ':') == 1 {
                    (ProbeKind::RawTracepoint, probe)
                } else {
                    return Err(ProbeSpecError::InvalidType);
                }
            },
        }
    };
    if target.unicode_len() == 0 {
        return Err(ProbeSpecError::EmptyTarget);
    }
    let wildcard = has_char(target, '*');
    match kind {
        ProbeKind::Kprobe => {},
        _ => {
            if wildcard {
                return Err(ProbeSpecError::WildcardNotAllowed);
            }
        },
    }
    Ok(ProbeSpec { kind, target: target.to_owned() })
}

/// The probes on functions named `names`, one per name, in the same order.
pub open spec fn kprobes_on(names: Seq<Seq<char>>) -> Seq<ProbeModel> {
    names.map_values(
        |n: Seq<char>|
            ProbeModel {
                kind: ProbeKind::Kprobe,
                target: n,
                hooks: Seq::empty(),
                stack_trace: false,
            },
    )
}

/// The probe of kind `kind` on the symbol `symbol`: kernel probes and kernel
/// return probes go on functions, raw tracepoints on events.
pub open spec fn probe_on(kind: ProbeKind, symbol: SymbolModel) -> Result<
    ProbeModel,
    ProbeSpecError,
> {
    match (kind, symbol) {
        (ProbeKind::Kprobe, SymbolModel::Func(n)) => Ok(
            ProbeModel { kind, target: n, hooks: Seq::empty(), stack_trace: false },
        ),
        (ProbeKind::Kretprobe, SymbolModel::Func(n)) => Ok(
            ProbeModel { kind, target: n, hooks: Seq::empty(), stack_trace: false },
        ),
        (ProbeKind::RawTracepoint, SymbolModel::Event(n)) => Ok(
            ProbeModel { kind, target: n, hooks: Seq::empty(), stack_trace: false },
        ),
        _ => Err(ProbeSpecError::WrongSymbolKind),
    }
}

/// The probes that a kind and a target give, once the target is resolved
/// against the kernel.
///
/// A kernel probe whose target holds a wildcard gives one probe per
/// traceable function that the target matches, and at least one. Any other
/// target names one symbol, which has to exist and to be of the kind the
/// probe goes on.
pub open spec fn resolved(inspector: KernelInspector, kind: ProbeKind, target: Seq<char>) -> Result<
    Seq<ProbeModel>,
    ProbeSpecError,
> {
    if kind == ProbeKind::Kprobe && target.contains('*') {
        match inspector.traceable_funcs {
            None => Err(ProbeSpecError::Inspect(InspectError::NoTraceableFunctions)),
            Some(funcs) => if regex_matches(wildcard_regex(target), Seq::empty()) is None {
                Err(ProbeSpecError::Inspect(InspectError::InvalidPattern))
            } else if matching(funcs@, wildcard_regex(target)).len() == 0 {
                Err(ProbeSpecError::NoMatch)
            } else {
                Ok(kprobes_on(matching(funcs@, wildcard_regex(target))))
            },
        }
    } else {
        match inspector.names(target) {
            None => Err(ProbeSpecError::Inspect(InspectError::UnknownSymbol)),
            Some(symbol) => match probe_on(kind, symbol) {
                Ok(p) => Ok(seq![p]),
                Err(e) => Err(e),
            },
        }
    }
}

/// A kernel probe on a wildcard gives one kernel probe for each traceable
/// function that the target matches: each probe is a kernel probe on such a
/// function, each such function has its probe, and no function has two.
pub proof fn lemma_wildcard_probes(inspector: KernelInspector, target: Seq<char>)
    requires
        target.contains('*'),
        resolved(inspector, ProbeKind::Kprobe, target) is Ok,
    ensures
        inspector.traceable_funcs is Some,
        ({
            let probes = resolved(inspector, ProbeKind::Kprobe, target)->Ok_0;
            let funcs = inspector.traceable_funcs->Some_0@;
            &&& probes.len() > 0
            &&& forall|i: int|
                0 <= i < probes.len() ==> (#[trigger] probes[i]).kind == ProbeKind::Kprobe
                    && lists(funcs, probes[i].target) && regex_matches(
                    wildcard_regex(target),
                    probes[i].target,
                ) == Some(true)
            &&& forall|i: int, j: int|
                0 <= i < j < probes.len() ==> (#[trigger] probes[i]).target != (
                #[trigger] probes[j]).target
            &&& forall|name: Seq<char>|
                lists(funcs, name) && regex_matches(wildcard_regex(target), name) == Some(true)
                    ==> exists|i: int|
                    0 <= i < probes.len() && (#[trigger] probes[i]).target == name
        }),
{
    let funcs = inspector.traceable_funcs->Some_0@;
    let names = matching(funcs, wildcard_regex(target));
    let probes = resolved(inspector, ProbeKind::Kprobe, target)->Ok_0;
    lemma_matching_once(funcs, wildcard_regex(target));
    assert(probes == kprobes_on(names));
    assert forall|i: int| 0 <= i < probes.len() implies (#[trigger] probes[i]).kind
        == ProbeKind::Kprobe && lists(funcs, probes[i].target) && regex_matches(
        wildcard_regex(target),
        probes[i].target,
    ) == Some(true) by {
        assert(probes[i].target == names[i]);
        assert(names.contains(names[i]));
    }
    assert forall|i: int, j: int| 0 <= i < j < probes.len() implies (#[trigger] probes[i]).target
        != (#[trigger] probes[j]).target by {
        assert(probes[i].target == names[i]);
        assert(probes[j].target == names[j]);
    }
    assert forall|name: Seq<char>|
        lists(funcs, name) && regex_matches(wildcard_regex(target), name) == Some(
            true,
        ) implies exists|i: int| 0 <= i < probes.len() && (#[trigger] probes[i]).target
        == name by {
        assert(names.contains(name));
        let k = choose|k: int| 0 <= k < names.len() && names[k] == name;
        assert(probes[k].target == name);
    }
}

/// The probes that a probe string gives.
pub open spec fn probes_of_spec(inspector: KernelInspector, s: Seq<char>) -> Result<
    Seq<ProbeModel>,
    ProbeSpecError,
> {
    match probe_spec_of(s) {
        Err(e) => Err(e),
        Ok((kind, target)) => resolved(inspector, kind, target),
    }
}

/// The images of a list of probes.
pub open spec fn models_of(probes: Seq<Probe>) -> Seq<ProbeModel> {
    probes.map_values(|p: Probe| p@)
}

/// Builds the probe of kind `kind` on `symbol`.
pub fn probe_for(kind: ProbeKind, symbol: &Symbol) -> (r: Result<Probe, ProbeSpecError>)
    ensures
        match probe_on(kind, symbol@) {
            Ok(p) => r matches Ok(x) && x@ == p,
            Err(e) => r matches Err(x) && x == e,
        },
{
    match kind {
        ProbeKind::Kprobe => match symbol {
            Symbol::Func(name) => Ok(Probe::kprobe(name.as_str())),
            _ => Err(ProbeSpecError::WrongSymbolKind),
        },
        ProbeKind::Kretprobe => match symbol {
            Symbol::Func(name) => Ok(Probe::kretprobe(name.as_str())),
            _ => Err(ProbeSpecError::WrongSymbolKind),
        },
        ProbeKind::RawTracepoint => match symbol {
            Symbol::Event(name) => Ok(Probe::raw_tracepoint(name.as_str())),
            _ => Err(ProbeSpecError::WrongSymbolKind),
        },
        ProbeKind::Usdt => Err(ProbeSpecError::WrongSymbolKind),
    }
}

/// Parse a user defined probe and resolve its target against the kernel.
pub fn parse_probe(inspector: &KernelInspector, probe: &str) -> (r: Result<
    Vec<Probe>,
    ProbeSpecError,
>)
    ensures
        match probes_of_spec(*inspector, probe@) {
            Ok(probes) => r matches Ok(v) && models_of(v@) == probes,
            Err(e) => r matches Err(x) && x == e,
        },
{
    let spec = match parse_probe_spec(probe) {
        Ok(spec) => spec,
        Err(e) => {
            return Err(e);
        },
    };
    let target = spec.target.as_str();
    let wildcard = has_char(target, '*');
    let mut probes: Vec<Probe> = Vec::new();
    match spec.kind {
        ProbeKind::Kprobe => {
            if wildcard {
                let names = match inspector.matching_functions(target) {
                    Ok(names) => names,
                    Err(e) => {
                        return Err(ProbeSpecError::Inspect(e));
                    },
                };
                if names.len() == 0 {
                    assert(views(names@).len() == 0);
                    return Err(ProbeSpecError::NoMatch);
                }
                let mut i: usize = 0;
                assert(models_of(probes@) =~= kprobes_on(views(names@).take(0)));
                while i < names.len()
                    invariant
                        i <= names@.len(),
                        models_of(probes@) == kprobes_on(views(names@).take(i as int)),
                    decreases names@.len() - i,
                {
                    let ghost before = probes@;
                    let p = Probe::kprobe(names[i].as_str());
                    probes.push(p);
                    assert(models_of(probes@) =~= models_of(before).push(p@));
                    assert(views(names@).take(i + 1) =~= views(names@).take(i as int).push(
                        names@[i as int]@,
                    ));
                    assert(models_of(probes@) =~= kprobes_on(views(names@).take(i + 1)));
                    i += 1;
                }
                assert(views(names@).take(names@.len() as int) =~= views(names@));
                return Ok(probes);
            }
        },
        _ => {},
    }
    let symbol = match inspector.symbol_from_name(target) {
        Ok(symbol) => symbol,
        Err(e) => {
            return Err(ProbeSpecError::Inspect(e));
        },
    };
    match probe_for(spec.kind, &symbol) {
        Ok(p) => {
            probes.push(p);
            assert(models_of(probes@) =~= seq![p@]);
            Ok(probes)
        },
        Err(e) => Err(e),
    }
}

/// Whether a probe on a function with these parameters brings data to a
/// collector: the type of one parameter at least is among the kernel types
/// that the enabled collectors read.
pub open spec fn useful(parameters: Seq<String>, known_types: Seq<String>) -> bool {
    exists|i: int|
        0 <= i < parameters.len() && lists(known_types, (#[trigger] parameters[i])@)
}

/// Whether a probe on a function with these parameters brings data to a
/// collector.
pub fn is_useful(parameters: &Vec<String>, known_types: &Vec<String>) -> (r: bool)
    ensures
        r == useful(parameters@, known_types@),
{
    let mut i: usize = 0;
    while i < parameters.len()
        invariant
            i <= parameters@.len(),
            forall|j: int| 0 <= j < i ==> !lists(known_types@, (#[trigger] parameters@[j])@),
        decreases parameters@.len() - i,
    {
        if list_contains(known_types, parameters[i].as_str()) {
            return true;
        }
        i += 1;
    }
    false
}

} // verus!
