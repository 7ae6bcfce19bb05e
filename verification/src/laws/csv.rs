//! What holds of reading CSV texts.

use vstd::prelude::*;
use crate::laws::vendors::{law_last_assignment_wins, law_unassigned_key_is_kept};
use crate::oui::{
    csv_fields, csv_fields_after, hex, hex_digits, is_oui, line_assignment, oui_key, vendor_of,
    with_csv, with_lines,
};
use crate::text::{
    is_white_space, lines_after, lines_of, to_upper, trimmed, trimmed_start, upper, without_cr,
};

verus! {

/// A field with each of its quotes doubled.
pub open spec fn escaped(field: Seq<char>) -> Seq<char>
    decreases field.len(),
{
    if field.len() == 0 {
        Seq::empty()
    } else if field.first() == '"' {
        seq!['"', '"'] + escaped(field.drop_first())
    } else {
        seq![field.first()] + escaped(field.drop_first())
    }
}

/// The CSV row of some fields, each in quotes, separated by commas.
pub open spec fn csv_row(fields: Seq<Seq<char>>) -> Seq<char>
    decreases fields.len(),
{
    if fields.len() == 0 {
        Seq::empty()
    } else {
        let head = seq!['"'] + escaped(fields.first()) + seq!['"'];
        if fields.len() == 1 {
            head
        } else {
            head + seq![','] + csv_row(fields.drop_first())
        }
    }
}

proof fn lemma_inside_quotes(read: Seq<char>, field: Seq<char>, rest: Seq<char>)
    requires
        rest.len() == 0 || rest[0] != '"',
    ensures
        csv_fields_after(true, read, escaped(field) + seq!['"'] + rest) == csv_fields_after(
            false,
            read + field,
            rest,
        ),
    decreases field.len(),
{
    let s = escaped(field) + seq!['"'] + rest;
    if field.len() == 0 {
        assert(s =~= seq!['"'] + rest);
        assert(s.skip(1) =~= rest);
        assert(read + field =~= read);
    } else {
        let c = field.first();
        let tail = escaped(field.drop_first()) + seq!['"'] + rest;
        lemma_inside_quotes(read.push(c), field.drop_first(), rest);
        assert(read.push(c) + field.drop_first() =~= read + field);
        if c == '"' {
            assert(s =~= seq!['"', '"'] + tail);
            assert(s.skip(2) =~= tail);
        } else {
            assert(s =~= seq![c] + tail);
            assert(s.skip(1) =~= tail);
        }
    }
}

/// Splitting a row of quoted fields gives back the fields, whatever commas and
/// quotes they hold.
pub proof fn law_csv_round_trip(fields: Seq<Seq<char>>)
    requires
        fields.len() > 0,
    ensures
        csv_fields(csv_row(fields)) == fields,
    decreases fields.len(),
{
    let field = fields.first();
    let rest = if fields.len() == 1 {
        Seq::empty()
    } else {
        seq![','] + csv_row(fields.drop_first())
    };
    let row = csv_row(fields);
    assert(row =~= seq!['"'] + (escaped(field) + seq!['"'] + rest));
    assert(row.skip(1) =~= escaped(field) + seq!['"'] + rest);
    lemma_inside_quotes(Seq::empty(), field, rest);
    assert(Seq::<char>::empty() + field =~= field);
    if fields.len() == 1 {
        assert(fields =~= seq![field]);
    } else {
        law_csv_round_trip(fields.drop_first());
        assert(rest.skip(1) =~= csv_row(fields.drop_first()));
        assert(seq![field] + fields.drop_first() =~= fields);
    }
}

/// The text of some lines, each closed by a line feed.
pub open spec fn text_of_lines(lines: Seq<Seq<char>>) -> Seq<char>
    decreases lines.len(),
{
    if lines.len() == 0 {
        Seq::empty()
    } else {
        lines.first() + seq!['\n'] + text_of_lines(lines.drop_first())
    }
}

proof fn lemma_one_line(read: Seq<char>, line: Seq<char>, rest: Seq<char>)
    requires
        !line.contains('\n'),
    ensures
        lines_after(read, line + seq!['\n'] + rest) == seq![without_cr(read + line)] + lines_of(
            rest,
        ),
    decreases line.len(),
{
    let s = line + seq!['\n'] + rest;
    if line.len() == 0 {
        assert(s.drop_first() =~= rest);
        assert(read + line =~= read);
    } else {
        let tail = line.drop_first();
        assert(line.contains(line[0]));
        assert(!tail.contains('\n')) by {
            if tail.contains('\n') {
                let i = choose|i: int| 0 <= i < tail.len() && tail[i] == '\n';
                assert(line[i + 1] == '\n');
            }
        }
        lemma_one_line(read.push(line.first()), tail, rest);
        assert(s.drop_first() =~= tail + seq!['\n'] + rest);
        assert(read.push(line.first()) + tail =~= read + line);
    }
}

/// A text of lines is read back line by line, provided no line holds a line feed
/// or ends in a carriage return.
pub proof fn law_lines_round_trip(lines: Seq<Seq<char>>)
    requires
        forall|i: int|
            0 <= i < lines.len() ==> !(#[trigger] lines[i]).contains('\n') && without_cr(lines[i])
                == lines[i],
    ensures
        lines_of(text_of_lines(lines)) == lines,
    decreases lines.len(),
{
    if lines.len() > 0 {
        let rest = lines.drop_first();
        assert forall|i: int| 0 <= i < rest.len() implies !(#[trigger] rest[i]).contains('\n')
            && without_cr(rest[i]) == rest[i] by {
            assert(rest[i] == lines[i + 1]);
        }
        law_lines_round_trip(rest);
        assert(lines[0] == lines.first());
        lemma_one_line(Seq::empty(), lines.first(), text_of_lines(rest));
        assert(Seq::<char>::empty() + lines.first() =~= lines.first());
        assert(seq![lines.first()] + rest =~= lines);
    } else {
        assert(lines =~= Seq::empty());
    }
}

/// A lookup key is an OUI.
proof fn lemma_key_is_oui(mac: Seq<char>)
    requires
        oui_key(mac) is Some,
    ensures
        is_oui(oui_key(mac)->0),
{
    let digits = hex_digits(mac);
    let key = oui_key(mac)->0;
    assert forall|i: int| 0 <= i < key.len() implies ('0' <= #[trigger] key[i] && key[i] <= '9') || (
    'A' <= key[i] && key[i] <= 'F') by {
        mac.lemma_filter_pred(hex(), i);
        assert(key[i] == upper(digits[i]));
    }
}

/// A row that assigns a vendor is found by every MAC with its key, where no later
/// row assigns the key again.
pub proof fn law_assigned_vendor_is_found(
    base: Map<Seq<char>, Seq<char>>,
    text: Seq<char>,
    at: int,
    fields: Seq<Seq<char>>,
    mac: Seq<char>,
)
    requires
        0 <= at < lines_of(text).len(),
        lines_of(text)[at] == csv_row(fields),
        fields.len() >= 3,
        oui_key(mac) == Some(to_upper(trimmed(fields[1]))),
        trimmed(fields[2]).len() > 0,
        forall|i: int|
            at < i < lines_of(text).len() ==> (#[trigger] line_assignment(
                i,
                lines_of(text)[i],
            ) matches Some((k, _)) ==> k != to_upper(trimmed(fields[1]))),
    ensures
        vendor_of(with_csv(base, text), mac) == Some(trimmed(fields[2])),
{
    let lines = lines_of(text);
    lemma_key_is_oui(mac);
    law_csv_round_trip(fields);
    reveal_strlit("Registry");
    assert(csv_row(fields)[0] == '"');
    assert(!"Registry"@.is_prefix_of(lines[at])) by {
        if "Registry"@.is_prefix_of(lines[at]) {
            assert(lines[at].subrange(0, "Registry"@.len() as int)[0] == "Registry"@[0]);
        }
    }
    law_last_assignment_wins(
        base,
        lines,
        at,
        to_upper(trimmed(fields[1])),
        trimmed(fields[2]),
    );
}

/// What a text gives when it is read into lines, after `open` has been read of the
/// current line: the lines that are closed, and what is left of the last one.
spec fn closed_lines(open: Seq<char>, s: Seq<char>) -> (Seq<Seq<char>>, Seq<char>)
    decreases s.len(),
{
    if s.len() == 0 {
        (Seq::empty(), open)
    } else if s.first() == '\n' {
        let rest = closed_lines(Seq::empty(), s.drop_first());
        (seq![without_cr(open)] + rest.0, rest.1)
    } else {
        closed_lines(open.push(s.first()), s.drop_first())
    }
}

/// A text alone closes its lines but for the last one; one that a line feed and
/// another text follow closes that one too.
proof fn lemma_closed_lines(open: Seq<char>, s: Seq<char>, rest: Seq<char>)
    ensures
        ({
            let (closed, left) = closed_lines(open, s);
            &&& lines_after(open, s) == if left.len() == 0 {
                closed
            } else {
                closed.push(left)
            }
            &&& lines_after(open, s + seq!['\n'] + rest) == closed.push(without_cr(left))
                + lines_of(rest)
        }),
    decreases s.len(),
{
    let joined = s + seq!['\n'] + rest;
    let (closed, left) = closed_lines(open, s);
    if s.len() == 0 {
        assert(joined.first() == '\n');
        assert(joined.drop_first() =~= rest);
        assert(closed.push(left) =~= seq![open]);
        assert(closed.push(without_cr(left)) =~= seq![without_cr(open)]);
    } else {
        assert(joined.first() == s.first());
        assert(joined.drop_first() =~= s.drop_first() + seq!['\n'] + rest);
        if s.first() == '\n' {
            lemma_closed_lines(Seq::empty(), s.drop_first(), rest);
            let inner = closed_lines(Seq::empty(), s.drop_first()).0;
            let head = seq![without_cr(open)];
            assert(head + inner.push(left) =~= (head + inner).push(left));
            assert(head + (inner.push(without_cr(left)) + lines_of(rest)) =~= (head + inner).push(
                without_cr(left),
            ) + lines_of(rest));
        } else {
            lemma_closed_lines(open.push(s.first()), s.drop_first(), rest);
        }
    }
}

/// Reading one more character that is neither a quote nor a comma only lengthens
/// the last field.
proof fn lemma_one_more_character(quoted: bool, field: Seq<char>, s: Seq<char>, c: char)
    requires
        c != '"',
        c != ',',
    ensures
        ({
            let fields = csv_fields_after(quoted, field, s);
            &&& fields.len() > 0
            &&& csv_fields_after(quoted, field, s.push(c)) == fields.drop_last().push(
                fields.last().push(c),
            )
        }),
    decreases s.len(),
{
    let fields = csv_fields_after(quoted, field, s);
    let longer = s.push(c);
    if s.len() == 0 {
        assert(longer.skip(1) =~= Seq::empty());
        assert(longer.first() == c);
        assert(csv_fields_after(quoted, field.push(c), longer.skip(1)) == seq![field.push(c)]);
        assert(fields.drop_last().push(field.push(c)) =~= seq![field.push(c)]);
    } else {
        assert(longer.first() == s.first());
        assert(longer.skip(1) =~= s.skip(1).push(c));
        if s.first() == '"' {
            if quoted && s.len() > 1 && s[1] == '"' {
                assert(longer[1] == '"');
                assert(longer.skip(2) =~= s.skip(2).push(c));
                lemma_one_more_character(quoted, field.push('"'), s.skip(2), c);
            } else {
                assert(s.len() > 1 ==> longer[1] == s[1]);
                assert(s.len() == 1 ==> longer[1] == c);
                lemma_one_more_character(!quoted, field, s.skip(1), c);
            }
        } else if s.first() == ',' && !quoted {
            lemma_one_more_character(quoted, Seq::empty(), s.skip(1), c);
            let rest = csv_fields_after(quoted, Seq::empty(), s.skip(1));
            assert((seq![field] + rest).drop_last() =~= seq![field] + rest.drop_last());
            assert((seq![field] + rest.drop_last()).push(rest.last().push(c)) =~= seq![field]
                + rest.drop_last().push(rest.last().push(c)));
        } else {
            lemma_one_more_character(quoted, field.push(s.first()), s.skip(1), c);
        }
    }
}

/// White space at the end does not matter where white space is trimmed.
proof fn lemma_trimmed_of_longer(s: Seq<char>, c: char)
    requires
        is_white_space(c),
    ensures
        trimmed(s.push(c)) == trimmed(s),
    decreases s.len(),
{
    let longer = s.push(c);
    if s.len() == 0 {
        reveal_with_fuel(trimmed_start, 2);
        assert(longer.drop_first() =~= s);
        assert(trimmed_start(longer) =~= s);
    } else if is_white_space(s.first()) {
        assert(longer.first() == s.first());
        assert(longer.drop_first() =~= s.drop_first().push(c));
        lemma_trimmed_of_longer(s.drop_first(), c);
    } else {
        assert(longer.first() == s.first());
        assert(longer.last() == c);
        assert(longer.drop_last() =~= s);
    }
}

/// The carriage return before a line feed makes no difference to what a line
/// assigns.
proof fn lemma_assignment_without_cr(index: int, line: Seq<char>)
    ensures
        line_assignment(index, without_cr(line)) == line_assignment(index, line),
{
    if line.len() > 0 && line.last() == '\r' {
        let short = line.drop_last();
        assert(line =~= short.push('\r'));
        lemma_one_more_character(false, Seq::empty(), short, '\r');
        let fields = csv_fields(short);
        let longer = csv_fields(line);
        let last = fields.len() - 1;
        assert(longer.len() == fields.len());
        assert forall|i: int| 0 <= i < fields.len() implies trimmed(#[trigger] longer[i]) == trimmed(
            fields[i],
        ) by {
            if i == last {
                lemma_trimmed_of_longer(fields[i], '\r');
            }
        }
        if fields.len() >= 3 {
            assert(trimmed(longer[1]) == trimmed(fields[1]));
            assert(trimmed(longer[2]) == trimmed(fields[2]));
        }
        reveal_strlit("Registry");
        let word = "Registry"@;
        assert(word.is_prefix_of(line) == word.is_prefix_of(short)) by {
            if word.is_prefix_of(line) {
                assert(line.subrange(0, 8)[7] == word[7]);
                if line.len() == 8 {
                    assert(line[7] == line.last());
                }
                assert(short.subrange(0, 8) =~= line.subrange(0, 8));
            }
            if word.is_prefix_of(short) {
                assert(short.subrange(0, 8) =~= line.subrange(0, 8));
            }
        }
    }
}

/// Reading some lines after others, where the first of them is no header.
proof fn lemma_lines_in_turn(
    base: Map<Seq<char>, Seq<char>>,
    first: Seq<Seq<char>>,
    second: Seq<Seq<char>>,
)
    requires
        second.len() > 0 ==> !"Registry"@.is_prefix_of(second[0]),
    ensures
        with_lines(base, first + second) == with_lines(with_lines(base, first), second),
    decreases second.len(),
{
    let all = first + second;
    if second.len() == 0 {
        assert(all =~= first);
    } else {
        lemma_lines_in_turn(base, first, second.drop_last());
        assert(all.drop_last() =~= first + second.drop_last());
        assert(all.last() == second.last());
        if second.len() == 1 {
            assert(second.last() == second[0]);
        }
    }
}

/// Reading two CSV texts in turn is reading them joined by a line feed, where the
/// second one has no header.
pub proof fn law_csv_texts_join(base: Map<Seq<char>, Seq<char>>, a: Seq<char>, b: Seq<char>)
    requires
        lines_of(b).len() > 0 ==> !"Registry"@.is_prefix_of(lines_of(b)[0]),
    ensures
        with_csv(base, a + seq!['\n'] + b) == with_csv(with_csv(base, a), b),
{
    let (closed, left) = closed_lines(Seq::empty(), a);
    let one = closed.push(without_cr(left));
    lemma_closed_lines(Seq::empty(), a, b);
    lemma_lines_in_turn(base, one, lines_of(b));
    assert(one.drop_last() =~= closed);
    lemma_assignment_without_cr(closed.len() as int, left);
    if left.len() == 0 {
        assert(csv_fields(left) == seq![Seq::<char>::empty()]);
        assert(line_assignment(closed.len() as int, without_cr(left)) is None);
    } else {
        assert(closed.push(left).drop_last() =~= closed);
    }
    assert(with_lines(base, one) == with_lines(base, lines_of(a)));
}

/// The vendor that some lines assign to a key last, if they assign one.
spec fn last_assigned(lines: Seq<Seq<char>>, key: Seq<char>) -> Option<Seq<char>>
    decreases lines.len(),
{
    if lines.len() == 0 {
        None
    } else {
        match line_assignment(lines.len() - 1, lines.last()) {
            Some((k, vendor)) => if k == key {
                Some(vendor)
            } else {
                last_assigned(lines.drop_last(), key)
            },
            None => last_assigned(lines.drop_last(), key),
        }
    }
}

proof fn lemma_last_assigned(
    base: Map<Seq<char>, Seq<char>>,
    lines: Seq<Seq<char>>,
    key: Seq<char>,
)
    ensures
        match last_assigned(lines, key) {
            Some(vendor) => with_lines(base, lines).contains_key(key) && with_lines(base, lines)[key]
                == vendor,
            None => with_lines(base, lines).contains_key(key) == base.contains_key(key) && (
            base.contains_key(key) ==> with_lines(base, lines)[key] == base[key]),
        },
    decreases lines.len(),
{
    if lines.len() > 0 {
        lemma_last_assigned(base, lines.drop_last(), key);
    }
}

/// Reading a CSV text again changes nothing.
pub proof fn law_csv_read_again(base: Map<Seq<char>, Seq<char>>, text: Seq<char>)
    ensures
        with_csv(with_csv(base, text), text) == with_csv(base, text),
{
    let once = with_csv(base, text);
    let twice = with_csv(once, text);
    assert forall|key: Seq<char>| #[trigger] twice.contains_key(key) == once.contains_key(key) && (
    once.contains_key(key) ==> twice[key] == once[key]) by {
        lemma_last_assigned(base, lines_of(text), key);
        lemma_last_assigned(once, lines_of(text), key);
    }
    assert(twice =~= once);
}

// ---- fields, however they are written ----

/// A text that no quote and no comma stands in.
pub open spec fn is_plain(s: Seq<char>) -> bool {
    forall|i: int| 0 <= i < s.len() ==> #[trigger] s[i] != '"' && s[i] != ','
}

proof fn lemma_plain(read: Seq<char>, text: Seq<char>, tail: Seq<char>)
    requires
        is_plain(text),
    ensures
        csv_fields_after(false, read, text + tail) == csv_fields_after(false, read + text, tail),
    decreases text.len(),
{
    if text.len() == 0 {
        assert(text + tail =~= tail);
        assert(read + text =~= read);
    } else {
        let rest = text.drop_first();
        assert(text[0] != '"' && text[0] != ',');
        assert forall|i: int| 0 <= i < rest.len() implies #[trigger] rest[i] != '"' && rest[i]
            != ',' by {
            assert(rest[i] == text[i + 1]);
        }
        lemma_plain(read.push(text[0]), rest, tail);
        assert((text + tail).skip(1) =~= rest + tail);
        assert((text + tail).first() == text[0]);
        assert(read.push(text[0]) + rest =~= read + text);
    }
}

/// A field as it is written: plain pieces and pieces in quotes in turn, beginning and
/// ending with a plain one.
pub open spec fn written_field(plain: Seq<Seq<char>>, quoted: Seq<Seq<char>>) -> Seq<char>
    decreases quoted.len(),
{
    if quoted.len() == 0 {
        plain[0]
    } else {
        plain[0] + seq!['"'] + escaped(quoted[0]) + seq!['"'] + written_field(
            plain.drop_first(),
            quoted.drop_first(),
        )
    }
}

/// The value of such a field: its pieces without the quotes around them.
pub open spec fn field_value(plain: Seq<Seq<char>>, quoted: Seq<Seq<char>>) -> Seq<char>
    decreases quoted.len(),
{
    if quoted.len() == 0 {
        plain[0]
    } else {
        plain[0] + quoted[0] + field_value(plain.drop_first(), quoted.drop_first())
    }
}

/// Whether such a field is well written: its plain pieces are plain, and between two
/// pieces in quotes stands something, since two quotes side by side mean one.
pub open spec fn is_well_written(plain: Seq<Seq<char>>, quoted: Seq<Seq<char>>) -> bool {
    &&& plain.len() == quoted.len() + 1
    &&& forall|i: int| 0 <= i < plain.len() ==> is_plain(#[trigger] plain[i])
    &&& forall|i: int| 0 < i < plain.len() - 1 ==> (#[trigger] plain[i]).len() > 0
}

proof fn lemma_written_field(
    read: Seq<char>,
    plain: Seq<Seq<char>>,
    quoted: Seq<Seq<char>>,
    tail: Seq<char>,
)
    requires
        is_well_written(plain, quoted),
        tail.len() > 0 && tail[0] == '"' && quoted.len() > 0 ==> plain.last().len() > 0,
    ensures
        csv_fields_after(false, read, written_field(plain, quoted) + tail) == csv_fields_after(
            false,
            read + field_value(plain, quoted),
            tail,
        ),
    decreases quoted.len(),
{
    if quoted.len() == 0 {
        lemma_plain(read, plain[0], tail);
    } else {
        let more = plain.drop_first();
        let later = quoted.drop_first();
        let rest = written_field(more, later) + tail;
        let inner = escaped(quoted[0]) + seq!['"'] + rest;
        let all = written_field(plain, quoted) + tail;
        assert forall|i: int| 0 <= i < more.len() implies is_plain(#[trigger] more[i]) by {
            assert(more[i] == plain[i + 1]);
        }
        assert forall|i: int| 0 < i < more.len() - 1 implies (#[trigger] more[i]).len() > 0 by {
            assert(more[i] == plain[i + 1]);
        }
        assert(all =~= plain[0] + (seq!['"'] + inner));
        lemma_plain(read, plain[0], seq!['"'] + inner);
        let so_far = read + plain[0];
        assert((seq!['"'] + inner).skip(1) =~= inner);
        assert(csv_fields_after(false, so_far, seq!['"'] + inner) == csv_fields_after(
            true,
            so_far,
            inner,
        ));
        assert(more[0] == plain[1]);
        assert(rest.len() == 0 || rest[0] != '"') by {
            if later.len() > 0 {
                assert(plain[1].len() > 0);
                assert(rest[0] == more[0][0]);
            } else if more[0].len() > 0 {
                assert(rest[0] == more[0][0]);
            } else {
                assert(plain.last() == plain[1]);
                assert(rest =~= tail);
            }
        }
        lemma_inside_quotes(so_far, quoted[0], rest);
        lemma_written_field(so_far + quoted[0], more, later, tail);
        assert(so_far + quoted[0] + field_value(more, later) =~= read + field_value(plain, quoted));
    }
}

/// A field ends at the first comma outside quotes, and the fields of what follows come
/// after it; its value is what is written, without the quotes around its parts and with
/// one quote for two inside them.
pub proof fn law_first_field(plain: Seq<Seq<char>>, quoted: Seq<Seq<char>>, rest: Seq<char>)
    requires
        is_well_written(plain, quoted),
    ensures
        csv_fields(written_field(plain, quoted) + seq![','] + rest) == seq![
            field_value(plain, quoted),
        ] + csv_fields(rest),
        csv_fields(written_field(plain, quoted)) == seq![field_value(plain, quoted)],
{
    let empty = Seq::<char>::empty();
    let text = written_field(plain, quoted);
    let value = field_value(plain, quoted);
    let tail = seq![','] + rest;
    lemma_written_field(empty, plain, quoted, tail);
    lemma_written_field(empty, plain, quoted, empty);
    assert(text + seq![','] + rest =~= text + tail);
    assert(text + empty =~= text);
    assert(empty + value =~= value);
    assert(tail.skip(1) =~= rest);
}

proof fn lemma_unclosed(read: Seq<char>, field: Seq<char>)
    ensures
        csv_fields_after(true, read, escaped(field)) == seq![read + field],
    decreases field.len(),
{
    let s = escaped(field);
    if field.len() == 0 {
        assert(read + field =~= read);
    } else {
        let c = field.first();
        let tail = escaped(field.drop_first());
        lemma_unclosed(read.push(c), field.drop_first());
        assert(read.push(c) + field.drop_first() =~= read + field);
        if c == '"' {
            assert(s.skip(2) =~= tail);
        } else {
            assert(s.skip(1) =~= tail);
        }
    }
}

/// A quote that is not closed holds the rest of the row, commas and all, behind what the
/// field has held before it.
pub proof fn law_unclosed_quote(plain: Seq<Seq<char>>, quoted: Seq<Seq<char>>, field: Seq<char>)
    requires
        is_well_written(plain, quoted),
        quoted.len() > 0 ==> plain.last().len() > 0,
    ensures
        csv_fields(written_field(plain, quoted) + seq!['"'] + escaped(field)) == seq![
            field_value(plain, quoted) + field,
        ],
{
    let empty = Seq::<char>::empty();
    let text = written_field(plain, quoted);
    let value = field_value(plain, quoted);
    let tail = seq!['"'] + escaped(field);
    lemma_written_field(empty, plain, quoted, tail);
    lemma_unclosed(value, field);
    assert(text + seq!['"'] + escaped(field) =~= text + tail);
    assert(empty + value =~= value);
    assert(tail.skip(1) =~= escaped(field));
}

/// The CSV row of some plain fields, separated by commas.
pub open spec fn plain_row(fields: Seq<Seq<char>>) -> Seq<char>
    decreases fields.len(),
{
    if fields.len() == 0 {
        Seq::empty()
    } else if fields.len() == 1 {
        fields[0]
    } else {
        fields[0] + seq![','] + plain_row(fields.drop_first())
    }
}

/// Splitting a row of plain fields gives back the fields.
pub proof fn law_plain_row(fields: Seq<Seq<char>>)
    requires
        fields.len() > 0,
        forall|i: int| 0 <= i < fields.len() ==> is_plain(#[trigger] fields[i]),
    ensures
        csv_fields(plain_row(fields)) == fields,
    decreases fields.len(),
{
    let rest = fields.drop_first();
    assert(is_plain(fields[0]));
    law_first_field(seq![fields[0]], Seq::empty(), plain_row(rest));
    if fields.len() == 1 {
        assert(fields =~= seq![fields[0]]);
    } else {
        assert forall|i: int| 0 <= i < rest.len() implies is_plain(#[trigger] rest[i]) by {
            assert(rest[i] == fields[i + 1]);
        }
        law_plain_row(rest);
        assert(seq![fields[0]] + rest =~= fields);
    }
}

// ---- rows and what they assign ----

/// A line assigns a vendor to a key exactly if it is not the header, has three fields or
/// more, the second one, trimmed and in upper case, is that key and six hexadecimal
/// digits, and the third one, trimmed, is that vendor and not empty.
pub proof fn law_line_assigns(index: int, line: Seq<char>, key: Seq<char>, vendor: Seq<char>)
    ensures
        line_assignment(index, line) == Some((key, vendor)) <==> {
            &&& !(index == 0 && "Registry"@.is_prefix_of(line))
            &&& csv_fields(line).len() >= 3
            &&& key == to_upper(trimmed(csv_fields(line)[1]))
            &&& vendor == trimmed(csv_fields(line)[2])
            &&& key.len() == 6
            &&& forall|i: int|
                0 <= i < 6 ==> ('0' <= #[trigger] key[i] && key[i] <= '9') || ('A' <= key[i]
                    && key[i] <= 'F')
            &&& vendor.len() > 0
        },
{
}

/// Each row with an OUI and a name is found: after a CSV text has been read, the OUI of a
/// line that is not the header and has plain fields has the name in its third field,
/// unless a later line assigns that OUI again.
pub proof fn law_plain_row_is_found(
    base: Map<Seq<char>, Seq<char>>,
    text: Seq<char>,
    at: int,
    fields: Seq<Seq<char>>,
    key: Seq<char>,
)
    requires
        0 <= at < lines_of(text).len(),
        lines_of(text)[at] == plain_row(fields),
        fields.len() >= 3,
        forall|i: int| 0 <= i < fields.len() ==> is_plain(#[trigger] fields[i]),
        !(at == 0 && "Registry"@.is_prefix_of(lines_of(text)[at])),
        key == to_upper(trimmed(fields[1])),
        key.len() == 6,
        forall|i: int|
            0 <= i < 6 ==> ('0' <= #[trigger] key[i] && key[i] <= '9') || ('A' <= key[i] && key[i]
                <= 'F'),
        trimmed(fields[2]).len() > 0,
        forall|i: int|
            at < i < lines_of(text).len() ==> (#[trigger] line_assignment(
                i,
                lines_of(text)[i],
            ) matches Some((k, _)) ==> k != key),
    ensures
        with_csv(base, text).contains_key(key),
        with_csv(base, text)[key] == trimmed(fields[2]),
{
    law_plain_row(fields);
    law_line_assigns(at, lines_of(text)[at], key, trimmed(fields[2]));
    law_last_assignment_wins(base, lines_of(text), at, key, trimmed(fields[2]));
}

/// The same of any line, however its fields are written.
pub proof fn law_row_is_found(
    base: Map<Seq<char>, Seq<char>>,
    text: Seq<char>,
    at: int,
    key: Seq<char>,
)
    requires
        0 <= at < lines_of(text).len(),
        !(at == 0 && "Registry"@.is_prefix_of(lines_of(text)[at])),
        csv_fields(lines_of(text)[at]).len() >= 3,
        key == to_upper(trimmed(csv_fields(lines_of(text)[at])[1])),
        key.len() == 6,
        forall|i: int|
            0 <= i < 6 ==> ('0' <= #[trigger] key[i] && key[i] <= '9') || ('A' <= key[i] && key[i]
                <= 'F'),
        trimmed(csv_fields(lines_of(text)[at])[2]).len() > 0,
        forall|i: int|
            at < i < lines_of(text).len() ==> (#[trigger] line_assignment(
                i,
                lines_of(text)[i],
            ) matches Some((k, _)) ==> k != key),
    ensures
        with_csv(base, text).contains_key(key),
        with_csv(base, text)[key] == trimmed(csv_fields(lines_of(text)[at])[2]),
{
    let vendor = trimmed(csv_fields(lines_of(text)[at])[2]);
    law_line_assigns(at, lines_of(text)[at], key, vendor);
    law_last_assignment_wins(base, lines_of(text), at, key, vendor);
}

/// Only such rows change the table: a key that no line assigns is after reading as it was
/// before.
pub proof fn law_other_keys_stay(
    base: Map<Seq<char>, Seq<char>>,
    text: Seq<char>,
    key: Seq<char>,
)
    requires
        forall|i: int|
            0 <= i < lines_of(text).len() && !(i == 0 && "Registry"@.is_prefix_of(
                #[trigger] lines_of(text)[i],
            )) && csv_fields(lines_of(text)[i]).len() >= 3 && trimmed(
                csv_fields(lines_of(text)[i])[2],
            ).len() > 0 ==> key != to_upper(trimmed(csv_fields(lines_of(text)[i])[1])),
    ensures
        with_csv(base, text).contains_key(key) == base.contains_key(key),
        base.contains_key(key) ==> with_csv(base, text)[key] == base[key],
{
    let lines = lines_of(text);
    assert forall|i: int| 0 <= i < lines.len() implies (#[trigger] line_assignment(
        i,
        lines[i],
    ) matches Some((k, _)) ==> k != key) by {
        if let Some((k, vendor)) = line_assignment(i, lines[i]) {
            law_line_assigns(i, lines[i], k, vendor);
        }
    }
    law_unassigned_key_is_kept(base, lines, key);
}

} // verus!
