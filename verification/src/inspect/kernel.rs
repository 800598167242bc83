//! The kernel inspector: answers about symbols, about what can be traced,
//! about the configuration and about the modules of the running kernel.

use vstd::prelude::*;
use crate::inspect::symbols::SymbolTable;
use crate::text::{each_once, is_suffix, list_contains, lists, str_ends_with, str_eq};

verus! {

/// Why the inspector could not answer.
#[derive(Clone, Copy, Debug, PartialEq, Eq, Structural)]
pub enum InspectError {
    /// The kernel configuration is not known.
    NoConfig,
    /// The functions that can be traced are not known.
    NoTraceableFunctions,
    /// The target is not a valid pattern.
    InvalidPattern,
    /// The symbol does not exist or cannot be traced.
    UnknownSymbol,
    /// A line of the list of symbols is not that of a symbol.
    InvalidSymbols,
    /// A line of the configuration is not that of an option.
    InvalidConfig,
    /// The compressed configuration cannot be read.
    InvalidArchive,
}

/// A kernel symbol that can be probed.
#[derive(Clone, Debug, PartialEq, Eq)]
pub enum Symbol {
    /// A function, by its name.
    Func(String),
    /// An event, as `group:name`.
    Event(String),
}

/// Mathematical image of a [`Symbol`].
pub ghost enum SymbolModel {
    Func(Seq<char>),
    Event(Seq<char>),
}

impl View for Symbol {
    type V = SymbolModel;

    open spec fn view(&self) -> SymbolModel {
        match self {
            Symbol::Func(name) => SymbolModel::Func(name@),
            Symbol::Event(name) => SymbolModel::Event(name@),
        }
    }
}

impl Symbol {
    /// The name of the symbol.
    pub fn name(&self) -> (r: &str)
        ensures
            r@ == match self@ {
                SymbolModel::Func(n) => n,
                SymbolModel::Event(n) => n,
            },
    {
        match self {
            Symbol::Func(name) => name.as_str(),
            Symbol::Event(name) => name.as_str(),
        }
    }
}

/// An option of the kernel configuration and its value.
#[derive(Clone, Debug, PartialEq, Eq)]
pub struct ConfigOption {
    pub name: String,
    pub value: String,
}

/// Whether matching `text` against the regular expression `pattern` finds a
/// match, if `pattern` is a regular expression at all.
pub uninterp spec fn regex_matches(pattern: Seq<char>, text: Seq<char>) -> Option<bool>;

/// `Regex::new` and `Regex::is_match` of the regex crate: the pattern is
/// compiled once and each text is matched against it. Nothing comes back if
/// the pattern does not compile.
#[verifier::external_body]
fn regex_matches_each(pattern: &str, texts: &Vec<String>) -> (r: Option<Vec<bool>>)
    ensures
        r is None <==> regex_matches(pattern@, Seq::empty()) is None,
        r matches Some(v) ==> v@.len() == texts@.len() && forall|i: int|
            0 <= i < v@.len() ==> regex_matches(pattern@, (#[trigger] texts@[i])@) == Some(v@[i]),
{
    regex::Regex::new(pattern).ok().map(|re| texts.iter().map(|t| re.is_match(t)).collect())
}

/// The regular expression that finds the text a wildcard pattern stands
/// for: each `*` stands for any characters, and the whole text has to match.
pub open spec fn wildcard_regex(target: Seq<char>) -> Seq<char> {
    seq!['^'] + wildcard_body(target) + seq!['$']
}

/// The wildcard pattern with each `*` spelled `.*`.
pub open spec fn wildcard_body(target: Seq<char>) -> Seq<char>
    decreases target.len(),
{
    if target.len() == 0 {
        Seq::empty()
    } else if target.last() == '*' {
        wildcard_body(target.drop_last()) + seq!['.', '*']
    } else {
        wildcard_body(target.drop_last()).push(target.last())
    }
}

/// Builds the regular expression that finds the text a wildcard pattern
/// stands for.
pub fn wildcard_to_regex(target: &str) -> (r: String)
    ensures
        r@ == wildcard_regex(target@),
{
    proof {
        reveal_strlit("^");
        reveal_strlit(".*");
        reveal_strlit("$");
    }
    let mut out = String::from_str("^");
    let n: usize = target.unicode_len();
    let mut i: usize = 0;
    assert(out@ =~= seq!['^'] + wildcard_body(target@.take(0)));
    while i < n
        invariant
            i <= n,
            n == target@.len(),
            out@ == seq!['^'] + wildcard_body(target@.take(i as int)),
        decreases n - i,
    {
        let c = target.get_char(i);
        proof {
            assert(target@.take(i + 1).drop_last() =~= target@.take(i as int));
            assert(target@.take(i + 1).last() == c);
        }
        if c == '*' {
            out.append(".*");
            assert(out@ =~= seq!['^'] + wildcard_body(target@.take(i + 1))) by {
                reveal_strlit(".*");
                assert(".*"@ =~= seq!['.', '*']);
            }
        } else {
            let one = target.substring_char(i, i + 1);
            assert(one@ =~= seq![c]);
            out.append(one);
            assert(out@ =~= seq!['^'] + wildcard_body(target@.take(i + 1)));
        }
        i += 1;
    }
    out.append("$");
    proof {
        assert(target@.take(n as int) =~= target@);
        assert("$"@ =~= seq!['$']);
    }
    out
}

/// The strings of `list` that the regular expression `pattern` matches, each
/// once, in the order they first come in the list.
pub open spec fn matching(list: Seq<String>, pattern: Seq<char>) -> Seq<Seq<char>>
    decreases list.len(),
{
    if list.len() == 0 {
        Seq::empty()
    } else if regex_matches(pattern, list.last()@) == Some(true) && !matching(
        list.drop_last(),
        pattern,
    ).contains(list.last()@) {
        matching(list.drop_last(), pattern).push(list.last()@)
    } else {
        matching(list.drop_last(), pattern)
    }
}

/// No string is matched twice, and the strings matched are those of the
/// list that the pattern matches.
pub proof fn lemma_matching_once(list: Seq<String>, pattern: Seq<char>)
    ensures
        each_once(matching(list, pattern)),
        forall|name: Seq<char>| #[trigger]
            matching(list, pattern).contains(name) <==> lists(list, name) && regex_matches(
                pattern,
                name,
            ) == Some(true),
    decreases list.len(),
{
    if list.len() > 0 {
        let before = list.drop_last();
        let found = matching(before, pattern);
        let all = matching(list, pattern);
        lemma_matching_once(before, pattern);
        assert forall|name: Seq<char>| #[trigger]
            all.contains(name) <==> lists(list, name) && regex_matches(pattern, name) == Some(
                true,
            ) by {
            assert(found.contains(name) <==> lists(before, name) && regex_matches(pattern, name)
                == Some(true));
            if lists(before, name) {
                let k = choose|k: int| 0 <= k < before.len() && (#[trigger] before[k])@ == name;
                assert(list[k]@ == name);
            }
            if lists(list, name) && !lists(before, name) {
                let k = choose|k: int| 0 <= k < list.len() && (#[trigger] list[k])@ == name;
                if k < before.len() {
                    assert(before[k]@ == name);
                }
            }
            if name == list.last()@ {
                assert(list[list.len() - 1]@ == name);
            }
            if found.contains(name) {
                let k = choose|k: int| 0 <= k < found.len() && found[k] == name;
                assert(all[k] == name);
            }
            if all.contains(name) && !found.contains(name) {
                let k = choose|k: int| 0 <= k < all.len() && all[k] == name;
                if k < found.len() {
                    assert(found[k] == name);
                }
            }
            if all.len() > found.len() {
                assert(all[found.len() as int] == list.last()@);
            }
        }
    }
}

/// The views of a list of strings.
pub open spec fn views(list: Seq<String>) -> Seq<Seq<char>> {
    list.map_values(|s: String| s@)
}

/// Position of the first event of `events` named `name`, whatever its group,
/// or the length of `events` if there is none.
pub open spec fn find_event(events: Seq<String>, name: Seq<char>) -> int
    decreases events.len(),
{
    if events.len() == 0 {
        0
    } else if is_suffix(seq![':'] + name, events[0]@) {
        0
    } else {
        1 + find_event(events.skip(1), name)
    }
}

/// Position of the last option of `config` named `name`, or -1 if there is
/// none.
pub open spec fn find_option(config: Seq<ConfigOption>, name: Seq<char>) -> int
    decreases config.len(),
{
    if config.len() == 0 {
        -1
    } else if config.last().name@ == name {
        config.len() - 1
    } else {
        find_option(config.drop_last(), name)
    }
}

/// Provides helpers to inspect probe related information in the kernel.
pub struct KernelInspector {
    /// Symbols bi-directional map (addr<>name).
    pub symbols: SymbolTable,
    /// Traceable events (e.g. tracepoints), if known. A list read from a
    /// file holds each name once.
    pub traceable_events: Option<Vec<String>>,
    /// Traceable functions (e.g. kprobes), if known. A list read from a
    /// file holds each name once.
    pub traceable_funcs: Option<Vec<String>>,
    /// Kernel version, eg. "6.2.14-300" or "5.10.0-22".
    pub version: String,
    /// All kernel config options and their values, in the order of the
    /// configuration file, if known. Common values are "y", "m" and "n".
    pub config: Option<Vec<ConfigOption>>,
    /// Loaded kernel modules, if known. A list read from a file holds each
    /// name once.
    pub modules: Option<Vec<String>>,
}

impl KernelInspector {
    /// Return the running kernel version.
    pub fn version(&self) -> (r: &str)
        ensures
            r@ == self.version@,
    {
        self.version.as_str()
    }

    /// The following retrieves a kernel configuration option value, if
    /// found: the value the configuration gives it last.
    pub fn get_config_option(&self, option: &str) -> (r: Result<Option<&str>, InspectError>)
        ensures
            match self.config {
                None => r == Err::<Option<&str>, InspectError>(InspectError::NoConfig),
                Some(config) => r matches Ok(found) && match found {
                    Some(value) => find_option(config@, option@) >= 0 && value@
                        == config@[find_option(config@, option@)].value@,
                    None => find_option(config@, option@) == -1,
                },
            },
    {
        let config = match &self.config {
            Some(config) => config,
            None => {
                return Err(InspectError::NoConfig);
            },
        };
        let mut i: usize = config.len();
        assert(config@.take(i as int) =~= config@);
        while i > 0
            invariant
                i <= config@.len(),
                self.config == Some(*config),
                find_option(config@, option@) == find_option(config@.take(i as int), option@),
            decreases i,
        {
            assert(config@.take(i as int).last() == config@[i - 1]);
            assert(config@.take(i as int).drop_last() =~= config@.take(i - 1));
            if str_eq(config[i - 1].name.as_str(), option) {
                return Ok(Some(config[i - 1].value.as_str()));
            }
            i -= 1;
        }
        Ok(None)
    }

    /// Check if a kernel module is loaded; `None` if this is not known.
    pub fn is_module_loaded(&self, module: &str) -> (r: Option<bool>)
        ensures
            match self.modules {
                None => r is None,
                Some(modules) => r == Some(lists(modules@, module@)),
            },
    {
        match &self.modules {
            Some(modules) => Some(list_contains(modules, module)),
            None => None,
        }
    }

    /// Check if an event is traceable. Return None if we can't know.
    pub fn is_event_traceable(&self, name: &str) -> (r: Option<bool>)
        ensures
            match self.traceable_events {
                None => r is None,
                Some(events) => r == Some(lists(events@, name@)),
            },
    {
        match &self.traceable_events {
            Some(events) => Some(list_contains(events, name)),
            None => None,
        }
    }

    /// Check if a function is traceable. Return None if we can't know.
    pub fn is_function_traceable(&self, name: &str) -> (r: Option<bool>)
        ensures
            match self.traceable_funcs {
                None => r is None,
                Some(funcs) => r == Some(lists(funcs@, name@)),
            },
    {
        match &self.traceable_funcs {
            Some(funcs) => Some(list_contains(funcs, name)),
            None => None,
        }
    }

    /// Given an event name (without the group part), try to find a
    /// corresponding event (with the group part) and return the full name:
    /// the first traceable event that ends with `:` and the name.
    pub fn find_matching_event(&self, name: &str) -> (r: Option<String>)
        ensures
            match self.traceable_events {
                None => r is None,
                Some(events) => if find_event(events@, name@) < events@.len() {
                    r matches Some(e) && e@ == events@[find_event(events@, name@)]@
                } else {
                    r is None
                },
            },
    {
        let events = match &self.traceable_events {
            Some(events) => events,
            None => {
                return None;
            },
        };
        proof {
            reveal_strlit(":");
        }
        let mut suffix = String::from_str(":");
        suffix.append(name);
        assert(suffix@ =~= seq![':'] + name@);
        let mut i: usize = 0;
        assert(events@.skip(0) =~= events@);
        while i < events.len()
            invariant
                i <= events@.len(),
                self.traceable_events == Some(*events),
                suffix@ == seq![':'] + name@,
                find_event(events@, name@) == i + find_event(events@.skip(i as int), name@),
            decreases events@.len() - i,
        {
            assert(events@.skip(i as int)[0] == events@[i as int]);
            if str_ends_with(events[i].as_str(), suffix.as_str()) {
                return Some(events[i].clone());
            }
            assert(events@.skip(i as int).skip(1) =~= events@.skip(i + 1));
            i += 1;
        }
        None
    }

    /// Find functions matching a given pattern. So far only wildcards (*)
    /// are supported, e.g. "tcp_v6_*".
    ///
    /// Each function comes once, in the order of the list of traceable
    /// functions, whatever that list holds twice.
    pub fn matching_functions(&self, target: &str) -> (r: Result<Vec<String>, InspectError>)
        ensures
            match self.traceable_funcs {
                None => r == Err::<Vec<String>, InspectError>(InspectError::NoTraceableFunctions),
                Some(funcs) => if regex_matches(wildcard_regex(target@), Seq::empty()) is None {
                    r == Err::<Vec<String>, InspectError>(InspectError::InvalidPattern)
                } else {
                    r matches Ok(v) && views(v@) == matching(funcs@, wildcard_regex(target@))
                        && each_once(views(v@))
                },
            },
    {
        let funcs = match &self.traceable_funcs {
            Some(funcs) => funcs,
            None => {
                return Err(InspectError::NoTraceableFunctions);
            },
        };
        let pattern = wildcard_to_regex(target);
        let flags = match regex_matches_each(pattern.as_str(), funcs) {
            Some(flags) => flags,
            None => {
                return Err(InspectError::InvalidPattern);
            },
        };
        let mut out: Vec<String> = Vec::new();
        let mut i: usize = 0;
        assert(funcs@.take(0) =~= Seq::<String>::empty());
        assert(views(out@) =~= Seq::<Seq<char>>::empty());
        while i < funcs.len()
            invariant
                i <= funcs@.len(),
                flags@.len() == funcs@.len(),
                forall|k: int|
                    0 <= k < flags@.len() ==> regex_matches(pattern@, (#[trigger] funcs@[k])@)
                        == Some(flags@[k]),
                views(out@) == matching(funcs@.take(i as int), pattern@),
            decreases funcs@.len() - i,
        {
            proof {
                assert(funcs@.take(i + 1).drop_last() =~= funcs@.take(i as int));
                assert(funcs@.take(i + 1).last() == funcs@[i as int]);
            }
            let ghost before = out@;
            let fresh = flags[i] && !list_contains(&out, funcs[i].as_str());
            proof {
                let name = funcs@[i as int]@;
                if lists(before, name) {
                    let k = choose|k: int|
                        0 <= k < before.len() && (#[trigger] before[k])@ == name;
                    assert(views(before)[k] == name);
                }
                if views(before).contains(name) {
                    let k = choose|k: int| 0 <= k < views(before).len() && views(before)[k] == name;
                    assert(before[k]@ == name);
                }
            }
            if fresh {
                let name = funcs[i].clone();
                out.push(name);
                assert(views(out@) =~= views(before).push(name@));
            }
            i += 1;
        }
        proof {
            assert(funcs@.take(funcs@.len() as int) =~= funcs@);
            lemma_matching_once(funcs@, pattern@);
        }
        Ok(out)
    }

    /// What `name` names, if it can be probed.
    pub open spec fn names(&self, name: Seq<char>) -> Option<SymbolModel> {
        if self.traceable_events matches Some(events) && lists(events@, name) {
            Some(SymbolModel::Event(name))
        } else if self.traceable_funcs matches Some(funcs) && lists(funcs@, name) {
            Some(SymbolModel::Func(name))
        } else if self.traceable_funcs is None && exists|a: u64|
            self.symbols@.contains_key(a) && #[trigger] self.symbols@[a] == name {
            Some(SymbolModel::Func(name))
        } else {
            None
        }
    }

    /// The symbol named `name`, if it can be probed.
    ///
    /// A traceable event is an event and a traceable function is a function.
    /// Where the functions that can be traced are not known, any symbol of
    /// the kernel is taken for a function.
    pub fn symbol_from_name(&self, name: &str) -> (r: Result<Symbol, InspectError>)
        ensures
            match self.names(name@) {
                Some(s) => r matches Ok(x) && x@ == s,
                None => r == Err::<Symbol, InspectError>(InspectError::UnknownSymbol),
            },
    {
        if let Some(true) = self.is_event_traceable(name) {
            return Ok(Symbol::Event(name.to_owned()));
        }
        match self.is_function_traceable(name) {
            Some(true) => {
                return Ok(Symbol::Func(name.to_owned()));
            },
            Some(false) => {},
            None => {
                match self.symbols.get_symbol_addr(name) {
                    Ok(addr) => {
                        assert(self.symbols@[addr] == name@);
                        return Ok(Symbol::Func(name.to_owned()));
                    },
                    Err(_) => {},
                }
            },
        }
        Err(InspectError::UnknownSymbol)
    }
}

} // verus!
