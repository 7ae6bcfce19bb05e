//! What holds of the vendor table and its cached CSV.

use vstd::prelude::*;
use crate::laws::notation::hex_character;
use crate::net::{hex_pair, mac_text, MacAddr};
use crate::oui::{
    cache_name, fallback_table, hex, hex_digits, is_cache_path, is_hex, lemma_cache_name,
    lemma_fallback_pairs, line_assignment, oui_key, table_from, table_of, vendor_of, with_csv,
    with_lines, LoadEvent, FALLBACK,
};
use crate::paths::{in_dir, lemma_dir_of_file, lemma_without_trailing, lies_in, without_trailing};
use crate::text::{lines_of, to_upper};

verus! {

/// The first six characters of a text, or all where there are fewer.
pub open spec fn first_six(s: Seq<char>) -> Seq<char> {
    if s.len() >= 6 {
        s.take(6)
    } else {
        s
    }
}

/// How a MAC is written does not matter to the lookup, nor do its last digits: two
/// texts whose first six hexadecimal digits agree but for their case have the same
/// vendor.
pub proof fn law_lookup_ignores_notation(
    table: Map<Seq<char>, Seq<char>>,
    a: Seq<char>,
    b: Seq<char>,
)
    requires
        to_upper(first_six(hex_digits(a))) == to_upper(first_six(hex_digits(b))),
    ensures
        oui_key(a) == oui_key(b),
        vendor_of(table, a) == vendor_of(table, b),
{
    let x = first_six(hex_digits(a));
    let y = first_six(hex_digits(b));
    assert(to_upper(x).len() == x.len() && to_upper(y).len() == y.len());
}

proof fn lemma_hex_pair(b: u8)
    ensures
        hex_digits(hex_pair(b)) == hex_pair(b),
{
    let pair = hex_pair(b);
    assert(is_hex(pair[0]) && is_hex(pair[1]));
    reveal_with_fuel(Seq::filter, 3);
    assert(pair.drop_last() =~= seq![pair[0]]);
    assert(pair.drop_last().drop_last() =~= Seq::empty());
    assert(hex_digits(pair) =~= pair);
}

/// The key of a MAC in canonical notation is made of its first three octets, so
/// MACs with the same first three octets have the same vendor.
pub proof fn law_key_of_mac(mac: MacAddr)
    ensures
        oui_key(mac_text(mac)) == Some(
            to_upper(hex_pair(mac.0) + hex_pair(mac.1) + hex_pair(mac.2)),
        ),
{
    let colon = seq![':'];
    reveal_with_fuel(Seq::filter, 2);
    assert(colon.drop_last() =~= Seq::empty());
    assert(hex_digits(colon) =~= Seq::empty());
    lemma_hex_pair(mac.0);
    lemma_hex_pair(mac.1);
    lemma_hex_pair(mac.2);
    lemma_hex_pair(mac.3);
    lemma_hex_pair(mac.4);
    lemma_hex_pair(mac.5);
    let s1 = hex_pair(mac.0);
    let s2 = s1 + colon;
    let s3 = s2 + hex_pair(mac.1);
    let s4 = s3 + colon;
    let s5 = s4 + hex_pair(mac.2);
    let s6 = s5 + colon;
    let s7 = s6 + hex_pair(mac.3);
    let s8 = s7 + colon;
    let s9 = s8 + hex_pair(mac.4);
    let s10 = s9 + colon;
    Seq::filter_distributes_over_add(s1, colon, hex());
    Seq::filter_distributes_over_add(s2, hex_pair(mac.1), hex());
    Seq::filter_distributes_over_add(s3, colon, hex());
    Seq::filter_distributes_over_add(s4, hex_pair(mac.2), hex());
    Seq::filter_distributes_over_add(s5, colon, hex());
    Seq::filter_distributes_over_add(s6, hex_pair(mac.3), hex());
    Seq::filter_distributes_over_add(s7, colon, hex());
    Seq::filter_distributes_over_add(s8, hex_pair(mac.4), hex());
    Seq::filter_distributes_over_add(s9, colon, hex());
    Seq::filter_distributes_over_add(s10, hex_pair(mac.5), hex());
    let all = hex_digits(mac_text(mac));
    assert(all =~= hex_pair(mac.0) + hex_pair(mac.1) + hex_pair(mac.2) + hex_pair(mac.3) + hex_pair(
        mac.4,
    ) + hex_pair(mac.5));
    assert(all.take(6) =~= hex_pair(mac.0) + hex_pair(mac.1) + hex_pair(mac.2));
}

/// A key that a CSV does not assign keeps the vendor it had, or has none as
/// before.
pub proof fn law_unassigned_key_is_kept(
    base: Map<Seq<char>, Seq<char>>,
    lines: Seq<Seq<char>>,
    key: Seq<char>,
)
    requires
        forall|i: int|
            0 <= i < lines.len() ==> (#[trigger] line_assignment(i, lines[i]) matches Some((k, _))
                ==> k != key),
    ensures
        with_lines(base, lines).contains_key(key) == base.contains_key(key),
        base.contains_key(key) ==> with_lines(base, lines)[key] == base[key],
    decreases lines.len(),
{
    if lines.len() > 0 {
        let init = lines.drop_last();
        assert forall|i: int| 0 <= i < init.len() implies (#[trigger] line_assignment(
            i,
            init[i],
        ) matches Some((k, _)) ==> k != key) by {
            assert(init[i] == lines[i]);
            assert(line_assignment(i, lines[i]) matches Some((k, _)) ==> k != key);
        }
        law_unassigned_key_is_kept(base, init, key);
        assert(line_assignment(lines.len() - 1, lines[lines.len() - 1]) matches Some((k, _)) ==> k
            != key);
    }
}

/// Of the lines that assign a key, the last one wins.
pub proof fn law_last_assignment_wins(
    base: Map<Seq<char>, Seq<char>>,
    lines: Seq<Seq<char>>,
    at: int,
    key: Seq<char>,
    vendor: Seq<char>,
)
    requires
        0 <= at < lines.len(),
        line_assignment(at, lines[at]) == Some((key, vendor)),
        forall|i: int|
            at < i < lines.len() ==> (#[trigger] line_assignment(i, lines[i]) matches Some((k, _))
                ==> k != key),
    ensures
        with_lines(base, lines).contains_key(key),
        with_lines(base, lines)[key] == vendor,
    decreases lines.len(),
{
    if at < lines.len() - 1 {
        let init = lines.drop_last();
        assert forall|i: int| at < i < init.len() implies (#[trigger] line_assignment(
            i,
            init[i],
        ) matches Some((k, _)) ==> k != key) by {
            assert(init[i] == lines[i]);
            assert(line_assignment(i, lines[i]) matches Some((k, _)) ==> k != key);
        }
        assert(init[at] == lines[at]);
        law_last_assignment_wins(base, init, at, key, vendor);
        assert(line_assignment(lines.len() - 1, lines[lines.len() - 1]) matches Some((k, _)) ==> k
            != key);
    }
}

/// Every key that was in the table before a CSV is read is in it afterwards; so
/// the built-in assignments always have a vendor.
pub proof fn law_no_key_is_lost(base: Map<Seq<char>, Seq<char>>, lines: Seq<Seq<char>>)
    ensures
        base.dom().subset_of(with_lines(base, lines).dom()),
    decreases lines.len(),
{
    if lines.len() > 0 {
        law_no_key_is_lost(base, lines.drop_last());
    }
}

/// A run that reads the cached CSV has the table of the run that fetched and kept
/// it.
pub proof fn law_cache_keeps_the_table(fetched: String, kept: String)
    requires
        kept@ == fetched@,
    ensures
        table_from(LoadEvent::CacheRead(kept)) == table_from(LoadEvent::Fetched(fetched)),
        table_from(LoadEvent::CacheRead(kept)) is Some,
{
}

/// Of pairs with different keys, each stands in the table that they make.
proof fn lemma_pairs_are_found(pairs: Seq<(&'static str, &'static str)>, at: int)
    requires
        0 <= at < pairs.len(),
        forall|i: int, j: int|
            0 <= i < j < pairs.len() ==> (#[trigger] pairs[i]).0@ != (#[trigger] pairs[j]).0@,
    ensures
        table_of(pairs).contains_key(pairs[at].0@),
        table_of(pairs)[pairs[at].0@] == pairs[at].1@,
    decreases pairs.len(),
{
    assert(pairs.last() == pairs[pairs.len() - 1]);
    if at < pairs.len() - 1 {
        let init = pairs.drop_last();
        assert forall|i: int, j: int| 0 <= i < j < init.len() implies (#[trigger] init[i]).0@ != (
        #[trigger] init[j]).0@ by {
            assert(init[i] == pairs[i] && init[j] == pairs[j]);
        }
        lemma_pairs_are_found(init, at);
        assert(init[at] == pairs[at]);
    }
}

/// Without a CSV every built-in assignment is found.
pub proof fn law_built_in_vendor_is_found(at: int, mac: Seq<char>)
    requires
        0 <= at < FALLBACK@.len(),
        oui_key(mac) == Some(FALLBACK@[at].0@),
    ensures
        vendor_of(fallback_table(), mac) == Some(FALLBACK@[at].1@),
{
    lemma_fallback_pairs();
    lemma_pairs_are_found(FALLBACK@, at);
}

/// The cached CSV of a database is named `oui.csv`.
pub proof fn law_cache_file_name(db_path: Seq<char>, path: Seq<char>)
    requires
        is_cache_path(db_path, path),
    ensures
        cache_name().is_suffix_of(path),
        cache_name() == "oui.csv"@,
{
}

/// Databases in one directory share their cached CSV, which lies in that directory;
/// the platform decides which separator stands before its name, and only where one
/// is needed. Separators at the end of a database's path do not matter.
pub proof fn law_cache_path_is_by_directory(
    dir: Seq<char>,
    p: Seq<char>,
    q: Seq<char>,
    a: Seq<char>,
    b: Seq<char>,
)
    requires
        lies_in(without_trailing(p), dir),
        lies_in(without_trailing(q), dir),
        is_cache_path(p, a),
        is_cache_path(q, b),
    ensures
        a == in_dir(dir, '/', cache_name()) || a == in_dir(dir, '\\', cache_name()),
        b == in_dir(dir, '/', cache_name()) || b == in_dir(dir, '\\', cache_name()),
        a == in_dir(dir, '/', cache_name()) ==> lies_in(a, dir),
        dir.len() == 0 || dir.last() == '/' ==> a == b && lies_in(a, dir),
{
    lemma_dir_of_file(without_trailing(p), dir);
    lemma_cache_name();
}

/// The cached CSV of a database, taken for a database itself, has its cached CSV in
/// the same place but for the separator.
pub proof fn law_cache_path_is_stable(
    dir: Seq<char>,
    p: Seq<char>,
    a: Seq<char>,
    again: Seq<char>,
)
    requires
        lies_in(without_trailing(p), dir),
        is_cache_path(p, a),
        lies_in(a, dir),
        is_cache_path(a, again),
    ensures
        again == in_dir(dir, '/', cache_name()) || again == in_dir(dir, '\\', cache_name()),
        dir.len() == 0 || dir.last() == '/' ==> again == a,
{
    lemma_without_trailing(a, dir);
    law_cache_path_is_by_directory(dir, p, a, a, again);
}

// ---- lookups, character by character ----

/// A character that is no hexadecimal digit makes no difference to the lookup,
/// wherever it stands.
pub proof fn law_separators_are_skipped(
    table: Map<Seq<char>, Seq<char>>,
    a: Seq<char>,
    c: char,
    b: Seq<char>,
)
    requires
        !('0' <= c && c <= '9') && !('a' <= c && c <= 'f') && !('A' <= c && c <= 'F'),
    ensures
        oui_key(a + seq![c] + b) == oui_key(a + b),
        vendor_of(table, a + seq![c] + b) == vendor_of(table, a + b),
{
    let one = seq![c];
    reveal_with_fuel(Seq::filter, 2);
    assert(one.drop_last() =~= Seq::empty());
    assert(hex_digits(one) =~= Seq::empty());
    Seq::filter_distributes_over_add(a, one, hex());
    Seq::filter_distributes_over_add(a + one, b, hex());
    Seq::filter_distributes_over_add(a, b, hex());
    assert(hex_digits(a + one + b) =~= hex_digits(a + b));
}

proof fn lemma_all_digits(s: Seq<char>)
    requires
        forall|i: int| 0 <= i < s.len() ==> is_hex(#[trigger] s[i]),
    ensures
        hex_digits(s) == s,
    decreases s.len(),
{
    reveal(Seq::filter);
    if s.len() > 0 {
        let init = s.drop_last();
        assert forall|i: int| 0 <= i < init.len() implies is_hex(#[trigger] init[i]) by {
            assert(init[i] == s[i]);
        }
        lemma_all_digits(init);
        assert(is_hex(s[s.len() - 1]));
        assert(init.push(s.last()) =~= s);
    } else {
        assert(hex_digits(s) =~= s);
    }
}

/// The vendor of a row of hexadecimal digits is what the table has under the first six
/// of them in upper case; with fewer than six there is none.
pub proof fn law_vendor_of_digits(
    table: Map<Seq<char>, Seq<char>>,
    digits: Seq<char>,
    key: Seq<char>,
)
    requires
        forall|i: int|
            0 <= i < digits.len() ==> ('0' <= #[trigger] digits[i] && digits[i] <= '9') || ('a'
                <= digits[i] && digits[i] <= 'f') || ('A' <= digits[i] && digits[i] <= 'F'),
        digits.len() >= 6 ==> key.len() == 6 && forall|i: int|
            0 <= i < 6 ==> #[trigger] key[i] == if 'a' <= digits[i] {
                (digits[i] as u32 - 32) as char
            } else {
                digits[i]
            },
    ensures
        digits.len() >= 6 && table.contains_key(key) ==> vendor_of(table, digits) == Some(
            table[key],
        ),
        digits.len() >= 6 && !table.contains_key(key) ==> vendor_of(table, digits) is None,
        digits.len() < 6 ==> vendor_of(table, digits) is None,
        digits.len() >= 6 ==> oui_key(digits) == Some(key),
{
    assert forall|i: int| 0 <= i < digits.len() implies is_hex(#[trigger] digits[i]) by {}
    lemma_all_digits(digits);
    if digits.len() >= 6 {
        assert(to_upper(digits.take(6)) =~= key);
    }
}

/// The upper-case hexadecimal digits of the first three octets of a MAC.
pub open spec fn prefix_of(mac: MacAddr) -> Seq<char> {
    seq![
        hex_character(mac.0 as int / 16, 'A'),
        hex_character(mac.0 as int % 16, 'A'),
        hex_character(mac.1 as int / 16, 'A'),
        hex_character(mac.1 as int % 16, 'A'),
        hex_character(mac.2 as int / 16, 'A'),
        hex_character(mac.2 as int % 16, 'A'),
    ]
}

/// The vendor of a MAC in canonical notation is what the table has under the upper-case
/// digits of its first three octets, and none where the table has no such entry.
pub proof fn law_vendor_of_mac(table: Map<Seq<char>, Seq<char>>, mac: MacAddr)
    ensures
        table.contains_key(prefix_of(mac)) ==> vendor_of(table, mac_text(mac)) == Some(
            table[prefix_of(mac)],
        ),
        !table.contains_key(prefix_of(mac)) ==> vendor_of(table, mac_text(mac)) is None,
{
    law_key_of_mac(mac);
    assert(to_upper(hex_pair(mac.0) + hex_pair(mac.1) + hex_pair(mac.2)) =~= prefix_of(mac));
}

// ---- loading ----

/// The built-in table holds the built-in assignments and nothing else.
pub proof fn law_built_in_table(key: Seq<char>)
    ensures
        fallback_table().contains_key(key) <==> exists|i: int|
            0 <= i < FALLBACK@.len() && (#[trigger] FALLBACK@[i]).0@ == key,
{
    lemma_keys_of_pairs(FALLBACK@, key);
}

proof fn lemma_keys_of_pairs(pairs: Seq<(&'static str, &'static str)>, key: Seq<char>)
    ensures
        table_of(pairs).contains_key(key) <==> exists|i: int|
            0 <= i < pairs.len() && (#[trigger] pairs[i]).0@ == key,
    decreases pairs.len(),
{
    if pairs.len() > 0 {
        let init = pairs.drop_last();
        lemma_keys_of_pairs(init, key);
        assert(pairs[pairs.len() - 1] == pairs.last());
        assert forall|i: int| 0 <= i < init.len() implies #[trigger] init[i] == pairs[i] by {}
        if exists|i: int| 0 <= i < pairs.len() && (#[trigger] pairs[i]).0@ == key {
            let i = choose|i: int| 0 <= i < pairs.len() && (#[trigger] pairs[i]).0@ == key;
            if i < init.len() {
                assert(init[i].0@ == key);
            }
        }
        if exists|i: int| 0 <= i < init.len() && (#[trigger] init[i]).0@ == key {
            let i = choose|i: int| 0 <= i < init.len() && (#[trigger] init[i]).0@ == key;
            assert(pairs[i].0@ == key);
        }
    }
}

/// Whatever way the table is completed, a built-in assignment that the CSV does not make
/// anew is in it; without a CSV these are all there is.
pub proof fn law_built_in_vendors_stay(text: String, at: int)
    requires
        0 <= at < FALLBACK@.len(),
        forall|i: int|
            0 <= i < lines_of(text@).len() ==> (#[trigger] line_assignment(
                i,
                lines_of(text@)[i],
            ) matches Some((k, _)) ==> k != FALLBACK@[at].0@),
    ensures
        table_from(LoadEvent::CacheRead(text)) matches Some(table) && table.contains_key(
            FALLBACK@[at].0@,
        ) && table[FALLBACK@[at].0@] == FALLBACK@[at].1@,
        table_from(LoadEvent::Fetched(text)) matches Some(table) && table.contains_key(
            FALLBACK@[at].0@,
        ) && table[FALLBACK@[at].0@] == FALLBACK@[at].1@,
{
    lemma_fallback_pairs();
    lemma_pairs_are_found(FALLBACK@, at);
    law_unassigned_key_is_kept(fallback_table(), lines_of(text@), FALLBACK@[at].0@);
}

/// A table is completed by a CSV text, cached or fetched, which is read over the built-in
/// table; by a fetch that failed, which leaves the built-in table; and by nothing else.
pub proof fn law_completed_table(text: String)
    ensures
        table_from(LoadEvent::CacheRead(text)) == Some(with_csv(fallback_table(), text@)),
        table_from(LoadEvent::Fetched(text)) == Some(with_csv(fallback_table(), text@)),
        table_from(LoadEvent::FetchFailed) == Some(fallback_table()),
        table_from(LoadEvent::CacheAbsent) is None,
        table_from(LoadEvent::CacheUnreadable) is None,
{
}

/// Where the path of the database has no parent, the cached CSV lies in `.`.
pub proof fn law_cache_path_without_parent(db_path: Seq<char>, path: Seq<char>)
    requires
        db_path.len() == 0 || db_path == seq!['/'],
        is_cache_path(db_path, path),
    ensures
        path == seq!['.', '/'] + "oui.csv"@ || path == seq!['.', '\\'] + "oui.csv"@,
{
    reveal_strlit(".");
    assert("."@ =~= seq!['.']);
    assert(seq!['.'] + seq!['/'] + cache_name() =~= seq!['.', '/'] + cache_name());
    assert(seq!['.'] + seq!['\\'] + cache_name() =~= seq!['.', '\\'] + cache_name());
}

} // verus!
