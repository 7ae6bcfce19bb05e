//! OUI (Organizationally Unique Identifier) to vendor lookup.
//!
//! The table starts from a small built-in list and is extended by the IEEE
//! `oui.csv`, read from a cached copy or fetched afresh. Parsing is forgiving:
//! a row that does not fit is passed over.

use vstd::prelude::*;
use vstd::hash_map::StringHashMap;
use crate::models::{opt_str, opt_text};
use crate::paths::{
    in_dir, is_file_name, join_path, lemma_dir_of_file, lies_in, may_be_joined, may_be_parent,
    parent_dir, without_trailing,
};
use crate::text::{
    chars_of, lemma_texts_push, lines_of, split_lines, starts_with, text_of, texts, to_upper,
    trimmed,
};

verus! {

/// The vendor table: an OUI, six upper-case hexadecimal digits, to a vendor name.
pub struct OuiDb {
    table: StringHashMap<String>,
}

impl View for OuiDb {
    type V = Map<Seq<char>, Seq<char>>;

    closed spec fn view(&self) -> Map<Seq<char>, Seq<char>> {
        self.table@.map_values(|vendor: String| vendor@)
    }
}

/// What has been learned so far while the table is being loaded.
pub enum LoadEvent {
    /// There is no cached CSV.
    CacheAbsent,
    /// There is a cached CSV and it could not be read.
    CacheUnreadable,
    /// The text of the cached CSV.
    CacheRead(String),
    /// The text of a freshly fetched CSV.
    Fetched(String),
    /// The CSV could not be fetched.
    FetchFailed,
}

/// What to do next while the table is being loaded.
pub enum LoadStep {
    /// Fetch the CSV.
    Fetch,
    /// The table is complete.
    Ready(OuiDb),
    /// The table is complete; keep this CSV text as the cached copy.
    ReadyAndCache(OuiDb, String),
}

// ---- the cached copy ----

/// The name of the cached CSV.
pub open spec fn cache_name() -> Seq<char> {
    "oui.csv"@
}

/// The directory of the cached CSV, from the parent of the database path: the
/// working directory where there is no parent.
pub open spec fn cache_dir(parent: Option<Seq<char>>) -> Seq<char> {
    match parent {
        Some(dir) => dir,
        None => "."@,
    }
}

/// Where the cached CSV lies, from the parent of the database path.
pub fn cache_path_in(parent: Option<&str>) -> (path: String)
    ensures
        may_be_joined(cache_dir(opt_str(parent)), cache_name(), path@),
{
    proof {
        lemma_cache_name();
    }
    match parent {
        Some(dir) => join_path(dir, "oui.csv"),
        None => join_path(".", "oui.csv"),
    }
}

/// Whether the cached CSV may lie at `path` for a database at `db_path`.
pub open spec fn is_cache_path(db_path: Seq<char>, path: Seq<char>) -> bool {
    exists|parent: Option<Seq<char>>| #[trigger]
        may_be_parent(db_path, parent) && may_be_joined(cache_dir(parent), cache_name(), path)
}

/// Where the cached CSV lies: in the directory of the database, under the name
/// `oui.csv`.
pub fn cache_path_for(db_path: &str) -> (path: String)
    ensures
        is_cache_path(db_path@, path@),
        forall|dir: Seq<char>| #[trigger]
            lies_in(without_trailing(db_path@), dir) ==> path@ == in_dir(dir, '/', cache_name())
                || path@ == in_dir(dir, '\\', cache_name()),
{
    let parent = parent_dir(db_path);
    let ghost known = opt_text(parent);
    let path = match parent {
        Some(dir) => cache_path_in(Some(dir.as_str())),
        None => cache_path_in(None),
    };
    assert(may_be_parent(db_path@, known));
    assert(may_be_joined(cache_dir(known), cache_name(), path@));
    proof {
        assert forall|dir: Seq<char>| #[trigger]
            lies_in(without_trailing(db_path@), dir) implies path@ == in_dir(dir, '/', cache_name())
            || path@ == in_dir(dir, '\\', cache_name()) by {
            lemma_dir_of_file(without_trailing(db_path@), dir);
        }
    }
    path
}

pub(crate) proof fn lemma_cache_name()
    ensures
        is_file_name(cache_name()),
{
    reveal_strlit("oui.csv");
    assert(cache_name() =~= seq!['o', 'u', 'i', '.', 'c', 's', 'v']);
    assert(cache_name().len() == 7);
}

// ---- keys ----

/// The hexadecimal digits of ASCII, in either case.
pub open spec fn is_hex(c: char) -> bool {
    ||| '0' <= c && c <= '9'
    ||| 'a' <= c && c <= 'f'
    ||| 'A' <= c && c <= 'F'
}

/// Whether a text is an OUI as the table has it: six hexadecimal digits in upper
/// case.
pub open spec fn is_oui(key: Seq<char>) -> bool {
    &&& key.len() == 6
    &&& forall|i: int|
        0 <= i < key.len() ==> ('0' <= #[trigger] key[i] && key[i] <= '9') || ('A' <= key[i]
            && key[i] <= 'F')
}

/// Whether a text is an OUI as the table has it.
fn check_oui(key: &str) -> (result: bool)
    ensures
        result == is_oui(key@),
{
    let chars = chars_of(key);
    if chars.len() != 6 {
        return false;
    }
    for i in 0..chars.len()
        invariant
            chars@ == key@,
            forall|j: int|
                0 <= j < i ==> ('0' <= #[trigger] chars@[j] && chars@[j] <= '9') || ('A'
                    <= chars@[j] && chars@[j] <= 'F'),
    {
        let c = chars[i];
        if !(('0' <= c && c <= '9') || ('A' <= c && c <= 'F')) {
            return false;
        }
    }
    true
}

/// Tells the hexadecimal digits.
pub open spec fn hex() -> spec_fn(char) -> bool {
    |c: char| is_hex(c)
}

/// The hexadecimal digits that a text holds, in order.
pub open spec fn hex_digits(s: Seq<char>) -> Seq<char> {
    s.filter(hex())
}

/// The key under which a MAC is looked up: its first six hexadecimal digits in
/// upper case, whatever separates them. A text with fewer digits has no key.
pub open spec fn oui_key(mac: Seq<char>) -> Option<Seq<char>> {
    if hex_digits(mac).len() >= 6 {
        Some(to_upper(hex_digits(mac).take(6)))
    } else {
        None
    }
}

/// The lookup key of a MAC.
pub fn mac_prefix(mac: &str) -> (key: Option<String>)
    ensures
        match key {
            Some(key) => oui_key(mac@) == Some(key@),
            None => oui_key(mac@) is None,
        },
{
    let chars = chars_of(mac);
    let mut digits: Vec<char> = Vec::new();
    proof {
        reveal(Seq::filter);
        assert(chars@.take(0) =~= Seq::empty());
    }
    for i in 0..chars.len()
        invariant
            chars@ == mac@,
            digits.len() <= 6,
            digits.len() < 6 ==> digits@ == hex_digits(chars@.take(i as int)),
            digits.len() == 6 ==> hex_digits(chars@.take(i as int)).len() >= 6 && digits@
                == hex_digits(chars@.take(i as int)).take(6),
    {
        let c = chars[i];
        proof {
            reveal(Seq::filter);
            assert(chars@.take(i + 1).drop_last() =~= chars@.take(i as int));
        }
        let is_digit = ('0' <= c && c <= '9') || ('a' <= c && c <= 'f') || ('A' <= c && c <= 'F');
        if is_digit && digits.len() < 6 {
            digits.push(c);
        }
        proof {
            let now = hex_digits(chars@.take(i + 1));
            if digits.len() == 6 {
                assert(now.take(6) =~= digits@);
            }
        }
    }
    assert(chars@.take(chars@.len() as int) =~= mac@);
    if digits.len() == 6 {
        Some(text_of(&digits).to_ascii_uppercase())
    } else {
        None
    }
}

/// The vendor that a table gives for a MAC.
pub open spec fn vendor_of(table: Map<Seq<char>, Seq<char>>, mac: Seq<char>) -> Option<Seq<char>> {
    match oui_key(mac) {
        Some(key) => if table.contains_key(key) {
            Some(table[key])
        } else {
            None
        },
        None => None,
    }
}

// ---- CSV ----

/// The fields of one CSV row, from the point where `field` has been read of
/// the current field and `s` is left. A comma outside quotes ends a field, a
/// quote opens or closes quoting, and two quotes inside quotes stand for one.
pub open spec fn csv_fields_after(quoted: bool, field: Seq<char>, s: Seq<char>) -> Seq<Seq<char>>
    decreases s.len(),
{
    if s.len() == 0 {
        seq![field]
    } else if s.first() == '"' {
        if quoted && s.len() > 1 && s[1] == '"' {
            csv_fields_after(quoted, field.push('"'), s.skip(2))
        } else {
            csv_fields_after(!quoted, field, s.skip(1))
        }
    } else if s.first() == ',' && !quoted {
        seq![field] + csv_fields_after(quoted, Seq::empty(), s.skip(1))
    } else {
        csv_fields_after(quoted, field.push(s.first()), s.skip(1))
    }
}

/// The fields of one CSV row.
pub open spec fn csv_fields(line: Seq<char>) -> Seq<Seq<char>> {
    csv_fields_after(false, Seq::empty(), line)
}

/// Splits one CSV row into its fields. Double-quoted fields may hold commas.
pub fn split_csv_fields(line: &str) -> (fields: Vec<String>)
    ensures
        texts(fields@) == csv_fields(line@),
{
    let chars = chars_of(line);
    let mut out: Vec<String> = Vec::new();
    let mut buf: Vec<char> = Vec::new();
    let mut in_quotes = false;
    let mut i: usize = 0;
    assert(chars@.skip(0) =~= chars@);
    assert(texts(out@) =~= Seq::empty());
    assert(Seq::<Seq<char>>::empty() + csv_fields(line@) =~= csv_fields(line@));
    while i < chars.len()
        invariant
            chars@ == line@,
            i <= chars.len(),
            texts(out@) + csv_fields_after(in_quotes, buf@, chars@.skip(i as int)) == csv_fields(
                line@,
            ),
        decreases chars.len() - i,
    {
        let c = chars[i];
        let ghost rest = chars@.skip(i as int);
        assert(rest.skip(1) =~= chars@.skip(i + 1));
        if c == '"' {
            if in_quotes && i + 1 < chars.len() && chars[i + 1] == '"' {
                assert(rest.skip(2) =~= chars@.skip(i + 2));
                buf.push('"');
                i += 1;
            } else {
                in_quotes = !in_quotes;
            }
        } else if c == ',' && !in_quotes {
            let ghost before = out@;
            out.push(text_of(&buf));
            proof {
                lemma_texts_push(before, out@.last());
                let tail = csv_fields_after(in_quotes, Seq::empty(), rest.skip(1));
                assert(texts(before).push(buf@) + tail =~= texts(before) + (seq![buf@] + tail));
            }
            buf = Vec::new();
        } else {
            buf.push(c);
        }
        i += 1;
    }
    let ghost before = out@;
    out.push(text_of(&buf));
    proof {
        lemma_texts_push(before, out@.last());
        assert(texts(before).push(buf@) =~= texts(before) + seq![buf@]);
    }
    out
}

/// The assignment of one CSV row: its second field, trimmed and in upper case,
/// to its third field, trimmed. A row with fewer than three fields, with an
/// assignment that is no OUI or without a name assigns nothing.
pub open spec fn row_assignment(line: Seq<char>) -> Option<(Seq<char>, Seq<char>)> {
    let fields = csv_fields(line);
    if fields.len() < 3 {
        None
    } else {
        let key = to_upper(trimmed(fields[1]));
        let vendor = trimmed(fields[2]);
        if is_oui(key) && vendor.len() > 0 {
            Some((key, vendor))
        } else {
            None
        }
    }
}

/// The assignment of the line at `index`; the header, which only the first line
/// can be, assigns nothing.
pub open spec fn line_assignment(index: int, line: Seq<char>) -> Option<(Seq<char>, Seq<char>)> {
    if index == 0 && "Registry"@.is_prefix_of(line) {
        None
    } else {
        row_assignment(line)
    }
}

/// `base` with the assignments of `lines` made in order.
pub open spec fn with_lines(
    base: Map<Seq<char>, Seq<char>>,
    lines: Seq<Seq<char>>,
) -> Map<Seq<char>, Seq<char>>
    decreases lines.len(),
{
    if lines.len() == 0 {
        base
    } else {
        let before = with_lines(base, lines.drop_last());
        match line_assignment(lines.len() - 1, lines.last()) {
            Some((key, vendor)) => before.insert(key, vendor),
            None => before,
        }
    }
}

/// `base` with the assignments of a whole CSV text.
pub open spec fn with_csv(base: Map<Seq<char>, Seq<char>>, text: Seq<char>) -> Map<
    Seq<char>,
    Seq<char>,
> {
    with_lines(base, lines_of(text))
}

/// Whether a table is a vendor table: every key is an OUI and no vendor is empty.
pub open spec fn is_vendor_table(table: Map<Seq<char>, Seq<char>>) -> bool {
    forall|key: Seq<char>| #[trigger]
        table.contains_key(key) ==> is_oui(key) && table[key].len() > 0
}

/// Reading lines keeps a vendor table one.
proof fn lemma_lines_keep_vendor_table(base: Map<Seq<char>, Seq<char>>, lines: Seq<Seq<char>>)
    requires
        is_vendor_table(base),
    ensures
        is_vendor_table(with_lines(base, lines)),
    decreases lines.len(),
{
    if lines.len() > 0 {
        lemma_lines_keep_vendor_table(base, lines.drop_last());
    }
}

/// Reads the IEEE `oui.csv` into the table. Columns: registry, assignment
/// (such as `28C68E`), organization name, organization address; only the second
/// and third are used.
pub fn parse_ieee_csv(text: &str, out: &mut OuiDb)
    ensures
        final(out)@ == with_csv(old(out)@, text@),
        is_vendor_table(old(out)@) ==> is_vendor_table(final(out)@),
{
    let lines = split_lines(text);
    let ghost all = texts(lines@);
    assert(all.take(0) =~= Seq::empty());
    for i in 0..lines.len()
        invariant
            all == texts(lines@),
            out@ == with_lines(old(out)@, all.take(i as int)),
    {
        let line = lines[i].as_str();
        assert(all.take(i + 1).drop_last() =~= all.take(i as int));
        assert(all.take(i + 1).last() == line@);
        let header = i == 0 && starts_with(&chars_of(line), "Registry");
        if !header {
            let fields = split_csv_fields(line);
            if fields.len() >= 3 {
                let assignment = fields[1].as_str().trim().to_ascii_uppercase();
                let org = fields[2].as_str().trim().to_owned();
                assert(texts(fields@)[1] == fields@[1]@);
                assert(texts(fields@)[2] == fields@[2]@);
                if check_oui(assignment.as_str()) && !org.as_str().is_empty() {
                    out.assign(assignment, org);
                }
            }
        }
    }
    assert(all.take(all.len() as int) =~= all);
    proof {
        if is_vendor_table(old(out)@) {
            lemma_lines_keep_vendor_table(old(out)@, all);
        }
    }
}

// ---- the table ----

/// The built-in assignments, used where the CSV has none.
pub const FALLBACK: [(&'static str, &'static str); 29] = [
    ("F8E71E", "Ruckus Wireless"),
    ("3C5AB4", "Google"),
    ("B827EB", "Raspberry Pi Foundation"),
    ("DCA632", "Raspberry Pi Trading"),
    ("E45F01", "Raspberry Pi Trading"),
    ("001A11", "Google"),
    ("F4F5D8", "Google"),
    ("A4B197", "Apple"),
    ("8C8590", "Apple"),
    ("F0D1A9", "Apple"),
    ("000C29", "VMware"),
    ("005056", "VMware"),
    ("080027", "Oracle VirtualBox"),
    ("525400", "QEMU/KVM"),
    ("001C42", "Parallels"),
    ("0003FF", "Microsoft"),
    ("00155D", "Microsoft Hyper-V"),
    ("F0DEF1", "Wistron InfoComm"),
    ("D85ED3", "TP-Link"),
    ("FCECDA", "Ubiquiti"),
    ("245A4C", "Ubiquiti"),
    ("B4FBE4", "Ubiquiti"),
    ("78A351", "Ubiquiti"),
    ("E063DA", "Ubiquiti"),
    ("A0F3C1", "Tp-Link"),
    ("EC086B", "TP-Link"),
    ("F81A67", "TP-Link"),
    ("001DD8", "Microsoft"),
    ("ACDE48", "Apple"),
];

/// The table that some pairs make, assigned in order.
pub open spec fn table_of(pairs: Seq<(&'static str, &'static str)>) -> Map<Seq<char>, Seq<char>>
    decreases pairs.len(),
{
    if pairs.len() == 0 {
        Map::empty()
    } else {
        table_of(pairs.drop_last()).insert(pairs.last().0@, pairs.last().1@)
    }
}

/// The table of the built-in assignments.
pub open spec fn fallback_table() -> Map<Seq<char>, Seq<char>> {
    table_of(FALLBACK@)
}

/// The built-in assignments are of OUIs, each of them once, to vendors with a name.
pub(crate) proof fn lemma_fallback_pairs()
    ensures
        forall|i: int|
            0 <= i < FALLBACK@.len() ==> is_oui((#[trigger] FALLBACK@[i]).0@)
                && FALLBACK@[i].1@.len() > 0,
        forall|i: int, j: int|
            0 <= i < j < FALLBACK@.len() ==> (#[trigger] FALLBACK@[i]).0@ != (
            #[trigger] FALLBACK@[j]).0@,
{
    reveal_strlit("F8E71E");
    reveal_strlit("3C5AB4");
    reveal_strlit("B827EB");
    reveal_strlit("DCA632");
    reveal_strlit("E45F01");
    reveal_strlit("001A11");
    reveal_strlit("F4F5D8");
    reveal_strlit("A4B197");
    reveal_strlit("8C8590");
    reveal_strlit("F0D1A9");
    reveal_strlit("000C29");
    reveal_strlit("005056");
    reveal_strlit("080027");
    reveal_strlit("525400");
    reveal_strlit("001C42");
    reveal_strlit("0003FF");
    reveal_strlit("00155D");
    reveal_strlit("F0DEF1");
    reveal_strlit("D85ED3");
    reveal_strlit("FCECDA");
    reveal_strlit("245A4C");
    reveal_strlit("B4FBE4");
    reveal_strlit("78A351");
    reveal_strlit("E063DA");
    reveal_strlit("A0F3C1");
    reveal_strlit("EC086B");
    reveal_strlit("F81A67");
    reveal_strlit("001DD8");
    reveal_strlit("ACDE48");
    reveal_strlit("Ruckus Wireless");
    reveal_strlit("Google");
    reveal_strlit("Raspberry Pi Foundation");
    reveal_strlit("Raspberry Pi Trading");
    reveal_strlit("Apple");
    reveal_strlit("VMware");
    reveal_strlit("Oracle VirtualBox");
    reveal_strlit("QEMU/KVM");
    reveal_strlit("Parallels");
    reveal_strlit("Microsoft");
    reveal_strlit("Microsoft Hyper-V");
    reveal_strlit("Wistron InfoComm");
    reveal_strlit("TP-Link");
    reveal_strlit("Ubiquiti");
    reveal_strlit("Tp-Link");
    assert forall|i: int, j: int| 0 <= i < j < FALLBACK@.len() implies (#[trigger] FALLBACK@[i]).0@
        != (#[trigger] FALLBACK@[j]).0@ by {
        let a = FALLBACK@[i].0@;
        let b = FALLBACK@[j].0@;
        assert(!(a[0] == b[0] && a[1] == b[1] && a[2] == b[2] && a[3] == b[3] && a[4] == b[4]
            && a[5] == b[5]));
    }
}

/// Pairs of OUIs and names make a vendor table.
proof fn lemma_pairs_make_vendor_table(pairs: Seq<(&'static str, &'static str)>)
    requires
        forall|i: int|
            0 <= i < pairs.len() ==> is_oui((#[trigger] pairs[i]).0@) && pairs[i].1@.len() > 0,
    ensures
        is_vendor_table(table_of(pairs)),
    decreases pairs.len(),
{
    if pairs.len() > 0 {
        let init = pairs.drop_last();
        assert forall|i: int| 0 <= i < init.len() implies is_oui((#[trigger] init[i]).0@)
            && init[i].1@.len() > 0 by {
            assert(init[i] == pairs[i]);
        }
        lemma_pairs_make_vendor_table(init);
        assert(pairs.last() == pairs[pairs.len() - 1]);
    }
}

/// The table that an event completes, if it completes one.
pub open spec fn table_from(event: LoadEvent) -> Option<Map<Seq<char>, Seq<char>>> {
    match event {
        LoadEvent::CacheAbsent | LoadEvent::CacheUnreadable => None,
        LoadEvent::CacheRead(text) | LoadEvent::Fetched(text) => Some(
            with_csv(fallback_table(), text@),
        ),
        LoadEvent::FetchFailed => Some(fallback_table()),
    }
}

impl Default for OuiDb {
    /// An empty table.
    fn default() -> (db: OuiDb)
        ensures
            db@ == Map::<Seq<char>, Seq<char>>::empty(),
    {
        let db = OuiDb { table: StringHashMap::new() };
        assert(db@ =~= Map::empty());
        db
    }
}

impl OuiDb {
    /// Assigns a vendor to an OUI; an earlier assignment is replaced.
    fn assign(&mut self, prefix: String, vendor: String)
        ensures
            final(self)@ == old(self)@.insert(prefix@, vendor@),
    {
        let ghost before = self.table@;
        self.table.insert(prefix, vendor);
        assert(self@ =~= before.map_values(|vendor: String| vendor@).insert(prefix@, vendor@));
    }

    /// The table of the built-in assignments.
    fn fallback() -> (db: OuiDb)
        ensures
            db@ == fallback_table(),
            is_vendor_table(db@),
    {
        let mut db = OuiDb::default();
        assert(FALLBACK@.take(0) =~= Seq::empty());
        for i in 0..FALLBACK.len()
            invariant
                db@ == table_of(FALLBACK@.take(i as int)),
        {
            let (prefix, vendor) = FALLBACK[i];
            assert(FALLBACK@.take(i + 1).drop_last() =~= FALLBACK@.take(i as int));
            db.assign(prefix.to_owned(), vendor.to_owned());
        }
        proof {
            assert(FALLBACK@.take(FALLBACK@.len() as int) =~= FALLBACK@);
            lemma_fallback_pairs();
            lemma_pairs_make_vendor_table(FALLBACK@);
        }
        db
    }

    /// One step of loading the table. The cached CSV is preferred; without a
    /// readable one the CSV is fetched and kept as the new cache; where that
    /// fails too, the built-in assignments are all there is.
    pub fn load(event: LoadEvent) -> (step: LoadStep)
        ensures
            match step {
                LoadStep::Fetch => table_from(event) is None,
                LoadStep::Ready(db) => table_from(event) == Some(db@) && event !is Fetched
                    && is_vendor_table(db@),
                LoadStep::ReadyAndCache(db, kept) => table_from(event) == Some(db@) && (
                event matches LoadEvent::Fetched(text) && kept@ == text@) && is_vendor_table(db@),
            },
    {
        match event {
            LoadEvent::CacheAbsent => LoadStep::Fetch,
            LoadEvent::CacheUnreadable => LoadStep::Fetch,
            LoadEvent::CacheRead(text) => {
                let mut db = OuiDb::fallback();
                parse_ieee_csv(text.as_str(), &mut db);
                LoadStep::Ready(db)
            },
            LoadEvent::Fetched(text) => {
                let mut db = OuiDb::fallback();
                parse_ieee_csv(text.as_str(), &mut db);
                LoadStep::ReadyAndCache(db, text)
            },
            LoadEvent::FetchFailed => LoadStep::Ready(OuiDb::fallback()),
        }
    }

    /// Resolves a MAC to a vendor name, or `None` if it is unknown. The MAC may
    /// be written in any way: only its hexadecimal digits count.
    pub fn lookup(&self, mac: &str) -> (vendor: Option<&str>)
        ensures
            match vendor {
                Some(vendor) => vendor_of(self@, mac@) == Some(vendor@),
                None => vendor_of(self@, mac@) is None,
            },
    {
        match mac_prefix(mac) {
            Some(key) => match self.table.get(key.as_str()) {
                Some(vendor) => Some(vendor.as_str()),
                None => None,
            },
            None => None,
        }
    }
}

} // verus!
