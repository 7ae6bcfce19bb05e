use mce_inventory::net::{format_mac, MacAddr};
use mce_inventory::oui::{
    cache_path_for, cache_path_in, mac_prefix, parse_ieee_csv, split_csv_fields, LoadEvent, LoadStep,
    OuiDb, FALLBACK,
};

fn ready(event: LoadEvent) -> OuiDb {
    match OuiDb::load(event) {
        LoadStep::Ready(db) => db,
        LoadStep::ReadyAndCache(db, _) => db,
        LoadStep::Fetch => panic!("no table"),
    }
}

fn parsed(text: &str) -> OuiDb {
    let mut db = OuiDb::default();
    parse_ieee_csv(text, &mut db);
    db
}

#[test]
fn prefix_takes_six_hex_digits_in_upper_case() {
    assert_eq!(mac_prefix("b8:27:eb:01:02:03"), Some("B827EB".to_string()));
    assert_eq!(mac_prefix("B8-27-EB-01-02-03"), Some("B827EB".to_string()));
    assert_eq!(mac_prefix("b827.eb01.0203"), Some("B827EB".to_string()));
    assert_eq!(mac_prefix("zb8x27yeb"), Some("B827EB".to_string()));
}

#[test]
fn prefix_needs_six_hex_digits() {
    assert_eq!(mac_prefix("b8:27:e"), None);
    assert_eq!(mac_prefix(""), None);
    assert_eq!(mac_prefix("ghijkl"), None);
}

#[test]
fn fields_are_split_at_commas() {
    assert_eq!(split_csv_fields("a,b,c"), vec!["a", "b", "c"]);
    assert_eq!(split_csv_fields(""), vec![""]);
    assert_eq!(split_csv_fields(","), vec!["", ""]);
}

#[test]
fn quoted_fields_may_hold_commas_and_quotes() {
    assert_eq!(split_csv_fields("a,\"b,c\",d"), vec!["a", "b,c", "d"]);
    assert_eq!(split_csv_fields("\"say \"\"hi\"\"\",x"), vec!["say \"hi\"", "x"]);
    assert_eq!(split_csv_fields("\"\",\"\"\"\""), vec!["", "\""]);
}

#[test]
fn an_unclosed_quote_runs_to_the_end() {
    assert_eq!(split_csv_fields("a,\"b,c"), vec!["a", "b,c"]);
}

#[test]
fn a_row_is_found_by_its_assignment() {
    let db = parsed(
        "Registry,Assignment,Organization Name,Organization Address\r\n\
         MA-L,28c68e, NETGEAR ,San Jose\r\n\
         MA-L,002272,\"American Micro-Fuel Device Corp., Inc.\",Ferndale",
    );
    assert_eq!(db.lookup("28:c6:8e:00:00:01"), Some("NETGEAR"));
    assert_eq!(db.lookup("00-22-72-AA-BB-CC"), Some("American Micro-Fuel Device Corp., Inc."));
    assert_eq!(db.lookup("00:11:22:33:44:55"), None);
    assert_eq!(db.lookup("not a mac"), None);
}

#[test]
fn only_the_first_line_can_be_the_header() {
    let db = parsed("Registry,AAAAAA,First\nRegistry,BBBBBB,Second\n");
    assert_eq!(db.lookup("aaaaaa"), None);
    assert_eq!(db.lookup("bbbbbb"), Some("Second"));
}

#[test]
fn rows_that_do_not_fit_are_passed_over() {
    let db = parsed("x,AAAAAA\nx,AAAAA,Short\nx,AAAAAAA,Long\nx,BBBBBB,  \n\nx,CCCCCC,Kept\n");
    assert_eq!(db.lookup("aaaaaa"), None);
    assert_eq!(db.lookup("bbbbbb"), None);
    assert_eq!(db.lookup("cccccc"), Some("Kept"));
}

#[test]
fn assignments_may_stand_in_any_white_space() {
    let db = parsed("x,aaaa\u{e9},Accented\n");
    assert_eq!(db.lookup("aaaaaa"), None);
    let db = parsed("x,\u{a0}\u{2003}ABCDEF\u{3000},\u{85}Spaced\u{a0}\n");
    assert_eq!(db.lookup("ab:cd:ef"), Some("Spaced"));
}

#[test]
fn assignments_that_are_not_hexadecimal_are_passed_over() {
    let db = parsed("MA-L,ZZZZZZ,Acme,X\nMA-L,28C68G,Acme,X\nMA-L,28C68E,Kept,X\n");
    assert_eq!(db.lookup("ZZZZZZ"), None);
    assert_eq!(db.lookup("28:c6:8e"), Some("Kept"));
}

#[test]
fn only_the_first_six_digits_count() {
    let db = parsed("x,ABCDEF,Found\n");
    assert_eq!(db.lookup("ab:cd:ef:00:00:00"), Some("Found"));
    assert_eq!(db.lookup("AB-CD-EF-12-34-56"), Some("Found"));
}

#[test]
fn the_last_row_of_an_assignment_wins() {
    let db = parsed("x,AAAAAA,Old\nx,aaaaaa,New\n");
    assert_eq!(db.lookup("AA:AA:AA"), Some("New"));
}

#[test]
fn loading_prefers_the_cache_and_fetches_without_it() {
    assert!(matches!(OuiDb::load(LoadEvent::CacheAbsent), LoadStep::Fetch));
    assert!(matches!(OuiDb::load(LoadEvent::CacheUnreadable), LoadStep::Fetch));
    let cached = ready(LoadEvent::CacheRead("x,123456,Cached\n".to_string()));
    assert_eq!(cached.lookup("12:34:56:00:00:00"), Some("Cached"));
    assert_eq!(cached.lookup("b8:27:eb:00:00:00"), Some("Raspberry Pi Foundation"));
}

#[test]
fn a_fetched_csv_is_kept_as_the_cache() {
    match OuiDb::load(LoadEvent::Fetched("x,00155D,Renamed\n".to_string())) {
        LoadStep::ReadyAndCache(db, text) => {
            assert_eq!(text, "x,00155D,Renamed\n");
            assert_eq!(db.lookup("00:15:5d:00:00:00"), Some("Renamed"));
        }
        _ => panic!("not cached"),
    }
}

#[test]
fn the_built_in_table_is_always_there() {
    let db = ready(LoadEvent::FetchFailed);
    assert_eq!(FALLBACK.len(), 29);
    let known = [
        ("F8E71E", "Ruckus Wireless"),
        ("3C5AB4", "Google"),
        ("B827EB", "Raspberry Pi Foundation"),
        ("DCA632", "Raspberry Pi Trading"),
        ("E45F01", "Raspberry Pi Trading"),
        ("001A11", "Google"),
        ("F4F5D8", "Google"),
        ("A4B197", "Apple"),
        ("8C8590", "Apple"),
        ("F0D1A9", "Apple"),
        ("000C29", "VMware"),
        ("005056", "VMware"),
        ("080027", "Oracle VirtualBox"),
        ("525400", "QEMU/KVM"),
        ("001C42", "Parallels"),
        ("0003FF", "Microsoft"),
        ("00155D", "Microsoft Hyper-V"),
        ("F0DEF1", "Wistron InfoComm"),
        ("D85ED3", "TP-Link"),
        ("FCECDA", "Ubiquiti"),
        ("245A4C", "Ubiquiti"),
        ("B4FBE4", "Ubiquiti"),
        ("78A351", "Ubiquiti"),
        ("E063DA", "Ubiquiti"),
        ("A0F3C1", "Tp-Link"),
        ("EC086B", "TP-Link"),
        ("F81A67", "TP-Link"),
        ("001DD8", "Microsoft"),
        ("ACDE48", "Apple"),
    ];
    for (prefix, vendor) in known {
        assert_eq!(db.lookup(prefix), Some(vendor));
    }
    assert_eq!(db.lookup("112233"), None);
}

#[test]
fn a_canonical_mac_is_looked_up_by_its_first_three_octets() {
    let db = ready(LoadEvent::FetchFailed);
    let mac = format_mac(MacAddr(0xdc, 0xa6, 0x32, 9, 8, 7));
    assert_eq!(mac_prefix(&mac), Some("DCA632".to_string()));
    assert_eq!(db.lookup(&mac), Some("Raspberry Pi Trading"));
}

#[test]
fn the_cache_lies_beside_the_database() {
    assert_eq!(cache_path_for("inventory.db"), "oui.csv");
    assert_eq!(cache_path_for("/inventory.db"), "/oui.csv");
    let beside = std::path::Path::new("data/store").join("oui.csv");
    assert_eq!(std::path::Path::new(&cache_path_for("data/store/inventory.db")), beside);
    let here = std::path::Path::new(".").join("oui.csv");
    assert_eq!(std::path::Path::new(&cache_path_for("./inventory.db")), here);
    assert_eq!(std::path::Path::new(&cache_path_for("")), here);
    assert_eq!(cache_path_for("data/a.db"), cache_path_for("data/b.db"));
    for path in ["inventory.db", "/inventory.db", "data/inventory.db"] {
        let cache = cache_path_for(path);
        assert!(cache.ends_with("oui.csv"));
        assert_eq!(cache_path_for(&cache), cache);
    }
    assert_eq!(cache_path_in(Some("")), "oui.csv");
    assert_eq!(std::path::Path::new(&cache_path_in(None)), here);
}

#[test]
fn the_cached_csv_gives_the_table_of_the_fetched_one() {
    let text = "x,AAAAAA,\"Acme, Inc.\"\r\nx,B827EB,Renamed Pi\n";
    match OuiDb::load(LoadEvent::Fetched(text.to_string())) {
        LoadStep::ReadyAndCache(fetched, kept) => {
            let cached = ready(LoadEvent::CacheRead(kept));
            for mac in ["aa:aa:aa", "b8:27:eb", "00:0c:29", "12:34:56"] {
                assert_eq!(cached.lookup(mac), fetched.lookup(mac));
            }
            assert_eq!(cached.lookup("aa:aa:aa"), Some("Acme, Inc."));
        }
        _ => panic!("not cached"),
    }
}

#[test]
fn a_separator_at_the_end_of_a_path_does_not_matter() {
    for path in ["inventory.db", "/inventory.db", "data/store/inventory.db"] {
        assert_eq!(cache_path_for(&format!("{path}/")), cache_path_for(path));
        assert_eq!(cache_path_for(&format!("{path}//")), cache_path_for(path));
    }
}

#[test]
fn texts_read_in_turn_are_read_as_one() {
    let firsts = ["", "Registry,AAAAAA,No\r\nx,AAAAAA,One\r", "x,AAAAAA,One\n", "x,AAAAAA,\"One\r"];
    let second = "x,BBBBBB,Two\nx,AAAAAA";
    for first in firsts {
        let joined = parsed(&format!("{first}\n{second}"));
        let mut in_turn = parsed(first);
        parse_ieee_csv(second, &mut in_turn);
        for mac in ["aaaaaa", "bbbbbb", "cccccc"] {
            assert_eq!(joined.lookup(mac), in_turn.lookup(mac));
        }
    }
    assert_eq!(parsed("x,AAAAAA,One\r\nx,BBBBBB,Two").lookup("bbbbbb"), Some("Two"));
}

#[test]
fn reading_a_text_again_changes_nothing() {
    let text = "x,AAAAAA,Old\nx,AAAAAA,New\nx,BBBBBB,Two\n";
    let mut db = parsed(text);
    parse_ieee_csv(text, &mut db);
    assert_eq!(db.lookup("aaaaaa"), Some("New"));
    assert_eq!(db.lookup("bbbbbb"), Some("Two"));
    assert_eq!(db.lookup("cccccc"), None);
}
