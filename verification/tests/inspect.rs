use retis::inspect::kernel::{wildcard_to_regex, InspectError, KernelInspector, Symbol};
use retis::inspect::parse::{
    file_to_list, parse_address, parse_kallsyms, parse_kernel_config, parse_kernel_config_gz,
    split_lines, KernelSources,
};
use retis::inspect::symbols::{SymbolError, SymbolTable};

const KALLSYMS: &str = "\
ffffffff99d1da00 T kfree_skb_reason
ffffffff99d1da80 T consume_skb
ffffffff99d1da80 t consume_skb_alias
ffffffff99d1db00 t __consume_stateless_skb\t[some_module]
ffffffffc0a00000 t init_module\t[zram]
";

const CONFIG: &str = "\
#
# Automatically generated file; DO NOT EDIT.
#
CONFIG_VETH=m
CONFIG_OPENVSWITCH=m
# CONFIG_FOO_BAR is not set
CONFIG_NETPOLL=y
CONFIG_DEFAULT_HOSTNAME=\"(none)\"
CONFIG_EMPTY=\"\"
CONFIG_NETPOLL=n

";

fn sources() -> KernelSources {
    KernelSources {
        symbols: KALLSYMS.as_bytes().to_vec(),
        events: Some(b"skb:kfree_skb\nskb:consume_skb\nnet:netif_rx\n".to_vec()),
        funcs: Some(b"consume_skb\ntcp_v6_connect [ipv6]\ntcp_v6_rcv\nkfree_skb_reason\n".to_vec()),
        modules: Some(b"zram 123 0 - Live 0x0\nveth 456 0 - Live 0x0\n".to_vec()),
        config: Some(CONFIG.as_bytes().to_vec()),
        version: "6.3.0-0.rc7.56.fc39.x86_64".to_string(),
    }
}

fn inspector() -> KernelInspector {
    KernelInspector::new(&sources()).unwrap()
}

#[test]
fn inspector_init() {
    assert!(KernelInspector::new(&sources()).is_ok());
    assert_eq!(inspector().version(), "6.3.0-0.rc7.56.fc39.x86_64");
    let mut bad = sources();
    bad.symbols = b"ffffffff99d1da00 T\n".to_vec();
    assert_eq!(
        KernelInspector::new(&bad).err(),
        Some(InspectError::InvalidSymbols)
    );
    let mut bad = sources();
    bad.config = Some(b"CONFIG_BROKEN\n".to_vec());
    assert_eq!(
        KernelInspector::new(&bad).err(),
        Some(InspectError::InvalidConfig)
    );
}

#[test]
fn symbol_name() {
    assert!(inspector().symbols.get_symbol_name(0xffffffff99d1da80).unwrap() == "consume_skb");
    assert_eq!(
        inspector().symbols.get_symbol_name(1),
        Err(SymbolError::UnknownAddress(1))
    );
    // The tabulation ends the name.
    assert_eq!(
        inspector().symbols.get_symbol_name(0xffffffff99d1db00).unwrap(),
        "__consume_stateless_skb"
    );
}

#[test]
fn symbol_addr() {
    assert!(inspector().symbols.get_symbol_addr("consume_skb").unwrap() == 0xffffffff99d1da80);
    assert_eq!(
        inspector().symbols.get_symbol_addr("no_such_symbol"),
        Err(SymbolError::UnknownName)
    );
    // Of two symbols at one address the first of the list stays.
    assert_eq!(
        inspector().symbols.get_symbol_addr("consume_skb_alias"),
        Err(SymbolError::UnknownName)
    );
}

#[test]
fn test_bijection() {
    let symbol = "consume_skb";
    let addr = inspector().symbols.get_symbol_addr(symbol).unwrap();
    let name = inspector().symbols.get_symbol_name(addr).unwrap();

    assert!(symbol == name);
}

#[test]
fn nearest_symbol() {
    let addr = inspector().symbols.get_symbol_addr("consume_skb").unwrap();

    assert!(inspector().symbols.find_nearest_symbol(addr + 1).unwrap() == addr);
    assert!(inspector().symbols.find_nearest_symbol(addr).unwrap() == addr);
    assert!(inspector().symbols.find_nearest_symbol(addr - 1).unwrap() != addr);
    assert_eq!(
        inspector().symbols.find_nearest_symbol(0),
        Err(SymbolError::NothingNear(0))
    );
}

#[test]
fn name_from_addr_near() {
    let mut sym_info = inspector()
        .symbols
        .get_name_offt_from_addr_near(0xffffffff99d1da80 + 1)
        .unwrap();

    assert_eq!(sym_info.0, "consume_skb");
    assert_eq!(sym_info.1, 0x1_u64);

    sym_info = inspector()
        .symbols
        .get_name_offt_from_addr_near(0xffffffff99d1da80 - 1)
        .unwrap();
    assert_ne!(sym_info.0, "consume_skb");
    assert_eq!(sym_info.0, "kfree_skb_reason");
    assert_eq!(sym_info.1, 0x7f);

    sym_info = inspector()
        .symbols
        .get_name_offt_from_addr_near(0xffffffff99d1da80)
        .unwrap();
    assert_eq!(sym_info.0, "consume_skb");
    assert_eq!(sym_info.1, 0x0_u64);
}

#[test]
fn kernel_config() {
    assert_eq!(
        inspector().get_config_option("CONFIG_VETH").unwrap(),
        Some("m")
    );
    assert_eq!(
        inspector().get_config_option("CONFIG_OPENVSWITCH").unwrap(),
        Some("m")
    );
    assert_eq!(inspector().get_config_option("CONFIG_FOO").unwrap(), None);
    assert_eq!(
        inspector().get_config_option("CONFIG_FOO_BAR").unwrap(),
        Some("n")
    );
    // The last line that sets an option wins.
    assert_eq!(
        inspector().get_config_option("CONFIG_NETPOLL").unwrap(),
        Some("n")
    );
    assert_eq!(
        inspector()
            .get_config_option("CONFIG_DEFAULT_HOSTNAME")
            .unwrap(),
        Some("(none)")
    );
    assert_eq!(
        inspector().get_config_option("CONFIG_EMPTY").unwrap(),
        Some("")
    );
    let mut without = sources();
    without.config = None;
    assert_eq!(
        KernelInspector::new(&without)
            .unwrap()
            .get_config_option("CONFIG_VETH"),
        Err(InspectError::NoConfig)
    );
}

#[test]
fn kernel_modules() {
    assert_eq!(inspector().is_module_loaded("zram"), Some(true));
    assert_eq!(inspector().is_module_loaded("openvswitch"), Some(false));
    let mut without = sources();
    without.modules = None;
    assert_eq!(
        KernelInspector::new(&without)
            .unwrap()
            .is_module_loaded("zram"),
        None
    );
}

#[test]
fn traceable_lists() {
    let k = inspector();
    assert_eq!(k.is_function_traceable("tcp_v6_connect"), Some(true));
    assert_eq!(k.is_function_traceable("tcp_v4_rcv"), Some(false));
    assert_eq!(k.is_event_traceable("skb:kfree_skb"), Some(true));
    assert_eq!(k.is_event_traceable("kfree_skb"), Some(false));
    assert_eq!(k.find_matching_event("kfree_skb"), Some("skb:kfree_skb".to_string()));
    assert_eq!(k.find_matching_event("netif_rx"), Some("net:netif_rx".to_string()));
    assert_eq!(k.find_matching_event("free_skb"), None);
    let mut without = sources();
    without.events = None;
    without.funcs = None;
    let k = KernelInspector::new(&without).unwrap();
    assert_eq!(k.is_function_traceable("consume_skb"), None);
    assert_eq!(k.is_event_traceable("skb:kfree_skb"), None);
    assert_eq!(k.find_matching_event("kfree_skb"), None);
    assert_eq!(
        k.matching_functions("tcp_*"),
        Err(InspectError::NoTraceableFunctions)
    );
    // Without the list of traceable functions any symbol is a function.
    assert_eq!(
        k.symbol_from_name("consume_skb"),
        Ok(Symbol::Func("consume_skb".to_string()))
    );
    assert_eq!(
        k.symbol_from_name("nothing"),
        Err(InspectError::UnknownSymbol)
    );
}

#[test]
fn matching_functions() {
    let k = inspector();
    assert_eq!(
        k.matching_functions("tcp_v6_*").unwrap(),
        vec!["tcp_v6_connect", "tcp_v6_rcv"]
    );
    assert_eq!(
        k.matching_functions("*skb*").unwrap(),
        vec!["consume_skb", "kfree_skb_reason"]
    );
    assert_eq!(k.matching_functions("consume_skb").unwrap(), vec!["consume_skb"]);
    assert_eq!(k.matching_functions("consume").unwrap(), Vec::<String>::new());
    assert_eq!(
        k.matching_functions("tcp_("),
        Err(InspectError::InvalidPattern)
    );
    assert_eq!(wildcard_to_regex("tcp_v6_*"), "^tcp_v6_.*$");
    assert_eq!(wildcard_to_regex("*a*"), "^.*a.*$");
    assert_eq!(wildcard_to_regex(""), "^$");
}

#[test]
fn symbol_table_keeps_pairs_one_to_one() {
    let mut table = SymbolTable::new();
    table.insert(1, "a".to_string());
    table.insert(2, "b".to_string());
    // The name moves to the new address.
    table.insert(3, "a".to_string());
    assert_eq!(table.get_symbol_name(1), Err(SymbolError::UnknownAddress(1)));
    assert_eq!(table.get_symbol_addr("a"), Ok(3));
    // The address takes the new name.
    table.insert(2, "c".to_string());
    assert_eq!(table.get_symbol_addr("b"), Err(SymbolError::UnknownName));
    assert_eq!(table.get_symbol_name(2).unwrap(), "c");
}

#[test]
fn lines_and_words() {
    let data = b"a b\r\n\nlast";
    let lines: Vec<&[u8]> = split_lines(data)
        .iter()
        .map(|s| &data[s.start..s.end])
        .collect();
    assert_eq!(lines, vec![&b"a b"[..], &b""[..], &b"last"[..]]);
    assert!(split_lines(b"").is_empty());
    assert_eq!(split_lines(b"\n").len(), 1);
    assert_eq!(
        file_to_list(b"one [mod]\ntwo\n\n three\n"),
        vec!["one", "two", ""]
    );
}

#[test]
fn names_are_listed_once() {
    assert_eq!(
        file_to_list(b"tcp_v6_rcv\nudp_rcv\ntcp_v6_rcv [ipv6]\ntcp_v4_rcv\nudp_rcv\n"),
        vec!["tcp_v6_rcv", "udp_rcv", "tcp_v4_rcv"]
    );
    let mut sources = sources();
    sources.funcs = Some(b"tcp_v6_rcv\ntcp_v6_connect\ntcp_v6_rcv\n".to_vec());
    let k = KernelInspector::new(&sources).unwrap();
    assert_eq!(
        k.traceable_funcs,
        Some(vec!["tcp_v6_rcv".to_string(), "tcp_v6_connect".to_string()])
    );
}

#[test]
fn wildcard_gives_each_function_once() {
    // A list that was not read from a file may hold a name twice.
    let mut k = inspector();
    k.traceable_funcs = Some(
        ["tcp_v6_rcv", "udp_rcv", "tcp_v6_connect", "tcp_v6_rcv", "tcp_v6_connect"]
            .iter()
            .map(|s| s.to_string())
            .collect(),
    );
    assert_eq!(
        k.matching_functions("tcp_v6_*").unwrap(),
        vec!["tcp_v6_rcv", "tcp_v6_connect"]
    );
    assert_eq!(k.matching_functions("*").unwrap().len(), 3);
}

#[test]
fn addresses_are_hexadecimal() {
    assert_eq!(parse_address(b"ffffffff99d1da80"), Some(0xffffffff99d1da80));
    assert_eq!(parse_address(b"0"), Some(0));
    assert_eq!(parse_address(b"AbC"), Some(0xabc));
    assert_eq!(parse_address(b"0000000000000000000001"), Some(1));
    assert_eq!(parse_address(b"ffffffffffffffff"), Some(u64::MAX));
    assert_eq!(parse_address(b"10000000000000000"), None);
    assert_eq!(parse_address(b""), None);
    assert_eq!(parse_address(b"12g"), None);
    assert_eq!(parse_address(b"0x12"), None);
}

#[test]
fn kallsyms_lines() {
    assert!(parse_kallsyms(b"").is_ok());
    assert!(parse_kallsyms(b"10 T a\n20 T b").is_ok());
    assert_eq!(
        parse_kallsyms(b"10 T a\nzz T b\n").err(),
        Some(InspectError::InvalidSymbols)
    );
    assert_eq!(
        parse_kallsyms(b"10 T\n").err(),
        Some(InspectError::InvalidSymbols)
    );
    assert_eq!(
        parse_kallsyms(b"10 T \xff\n").err(),
        Some(InspectError::InvalidSymbols)
    );
}

#[test]
fn config_lines() {
    let options = parse_kernel_config(
        b"CONFIG_A=y\n# comment\n# CONFIG_B is not set\nCONFIG_C=\"\"x\"\"\nCONFIG_D=a=b\n",
    )
    .unwrap();
    let pairs: Vec<(&str, &str)> = options
        .iter()
        .map(|o| (o.name.as_str(), o.value.as_str()))
        .collect();
    assert_eq!(
        pairs,
        vec![
            ("CONFIG_A", "y"),
            ("CONFIG_B", "n"),
            ("CONFIG_C", "x"),
            ("CONFIG_D", "a=b")
        ]
    );
    assert_eq!(
        parse_kernel_config(b"# CONFIG_B\n").err(),
        Some(InspectError::InvalidConfig)
    );
    assert_eq!(
        parse_kernel_config(b"CONFIG_\n").err(),
        Some(InspectError::InvalidConfig)
    );
}

#[test]
fn config_in_an_archive() {
    // "CONFIG_A=y\n" in a gzip archive.
    let archive = [
        0x1f, 0x8b, 0x08, 0x00, 0x00, 0x00, 0x00, 0x00, 0x02, 0xff, 0x73, 0xf6, 0xf7, 0x73, 0xf3,
        0x74, 0x8f, 0x77, 0xb4, 0xad, 0xe4, 0x02, 0x00, 0x8e, 0xb1, 0x80, 0xda, 0x0b, 0x00, 0x00,
        0x00,
    ];
    match parse_kernel_config_gz(&archive) {
        Ok(options) => {
            assert_eq!(options.len(), 1);
            assert_eq!(options[0].name, "CONFIG_A");
            assert_eq!(options[0].value, "y");
        }
        Err(e) => panic!("archive not read: {:?}", e),
    }
    assert_eq!(
        parse_kernel_config_gz(b"not an archive").err(),
        Some(InspectError::InvalidArchive)
    );
}
