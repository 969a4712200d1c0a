//! Writing a header line, and the proof that decoding the line gives the
//! header back.

use vstd::prelude::*;
use vstd::string::StringExecFns;
use crate::kldata::{header_of, no_slots, read_field, read_fields, HeaderSlots, ObsinnHeader};
use crate::text::{
    all_digits, digit_of, digits_value, i32_text, is_digit, signed_text, split, unsigned_text,
    usize_text,
};

verus! {

/// The character that writes the digit `d`.
pub open spec fn digit_char(d: int) -> char {
    if d == 0 {
        '0'
    } else if d == 1 {
        '1'
    } else if d == 2 {
        '2'
    } else if d == 3 {
        '3'
    } else if d == 4 {
        '4'
    } else if d == 5 {
        '5'
    } else if d == 6 {
        '6'
    } else if d == 7 {
        '7'
    } else if d == 8 {
        '8'
    } else {
        '9'
    }
}

/// `n` written in base ten, without leading zeros.
pub open spec fn decimal(n: nat) -> Seq<char>
    decreases n,
{
    if n < 10 {
        seq![digit_char(n as int)]
    } else {
        decimal(n / 10).push(digit_char((n % 10) as int))
    }
}

/// `v` written in base ten, with `-` before a negative number.
pub open spec fn signed_decimal(v: int) -> Seq<char> {
    if v < 0 {
        seq!['-'] + decimal((-v) as nat)
    } else {
        decimal(v as nat)
    }
}

/// A written number consists of digits that spell it.
pub proof fn lemma_decimal_reads_back(n: nat)
    ensures
        decimal(n).len() >= 1,
        all_digits(decimal(n)),
        digits_value(decimal(n)) == n,
    decreases n,
{
    if n < 10 {
        let s = decimal(n);
        assert(s.drop_last() =~= Seq::<char>::empty());
        assert(digits_value(s.drop_last()) == 0);
        assert(s.last() == digit_char(n as int));
        assert(digit_of(digit_char(n as int)) == n);
    } else {
        lemma_decimal_reads_back(n / 10);
        let head = decimal(n / 10);
        let c = digit_char((n % 10) as int);
        let s = head.push(c);
        assert(s.drop_last() =~= head);
        assert(s.last() == c);
        assert(digit_of(c) == n % 10);
        assert(is_digit(c));
        assert forall|i: int| 0 <= i < s.len() implies is_digit(#[trigger] s[i]) by {
            if i < head.len() {
                assert(s[i] == head[i]);
            }
        }
    }
}

/// Reading a written number gives the number.
pub proof fn lemma_signed_reads_back(v: int)
    ensures
        signed_text(signed_decimal(v)) == Some(v),
        v >= 0 ==> unsigned_text(signed_decimal(v)) == Some(v as nat),
        forall|i: int|
            0 <= i < signed_decimal(v).len() ==> is_digit(#[trigger] signed_decimal(v)[i])
                || signed_decimal(v)[i] == '-',
{
    let s = signed_decimal(v);
    if v < 0 {
        let body = decimal((-v) as nat);
        lemma_decimal_reads_back((-v) as nat);
        assert(s.subrange(1, s.len() as int) =~= body);
        assert(s[0] == '-');
        assert forall|i: int| 0 <= i < s.len() implies is_digit(#[trigger] s[i]) || s[i]
            == '-' by {
            if i > 0 {
                assert(s[i] == body[i - 1]);
            }
        }
    } else {
        lemma_decimal_reads_back(v as nat);
        assert(is_digit(s[0]));
    }
}

/// The header line that spells `header`.
pub open spec fn header_line(header: ObsinnHeader) -> Seq<char> {
    "kldata"@ + "/"@ + ("nationalnr"@ + "="@ + signed_decimal(header.station_id as int)) + "/"@ + (
    "type"@ + "="@ + signed_decimal(header.type_id as int)) + "/"@ + ("messageid"@ + "="@
        + decimal(header.message_id as nat))
}

fn digit_text(d: u64) -> (r: &'static str)
    requires
        d < 10,
    ensures
        r@ == seq![digit_char(d as int)],
{
    proof {
        reveal_strlit("0");
        reveal_strlit("1");
        reveal_strlit("2");
        reveal_strlit("3");
        reveal_strlit("4");
        reveal_strlit("5");
        reveal_strlit("6");
        reveal_strlit("7");
        reveal_strlit("8");
        reveal_strlit("9");
    }
    let r: &'static str = if d == 0 {
        "0"
    } else if d == 1 {
        "1"
    } else if d == 2 {
        "2"
    } else if d == 3 {
        "3"
    } else if d == 4 {
        "4"
    } else if d == 5 {
        "5"
    } else if d == 6 {
        "6"
    } else if d == 7 {
        "7"
    } else if d == 8 {
        "8"
    } else {
        "9"
    };
    assert(r@ =~= seq![digit_char(d as int)]);
    r
}

/// Writes `n` in base ten.
pub fn write_decimal(n: u64) -> (r: String)
    ensures
        r@ == decimal(n as nat),
    decreases n,
{
    if n < 10 {
        String::from_str(digit_text(n))
    } else {
        let head = write_decimal(n / 10);
        let tail = digit_text(n % 10);
        let r = head.concat(tail);
        assert(r@ =~= decimal((n / 10) as nat).push(digit_char((n % 10) as int)));
        r
    }
}

/// Writes `v` in base ten.
pub fn write_signed(v: i32) -> (r: String)
    ensures
        r@ == signed_decimal(v as int),
{
    if v < 0 {
        let magnitude: u64 = (-(v as i64)) as u64;
        proof {
            reveal_strlit("-");
        }
        let r = String::from_str("-").concat(write_decimal(magnitude).as_str());
        assert(r@ =~= seq!['-'] + decimal((-v) as nat));
        r
    } else {
        write_decimal(v as u64)
    }
}

impl ObsinnHeader {
    /// Writes the header as the first line of a message.
    pub fn to_line(&self) -> (r: String)
        ensures
            r@ == header_line(*self),
    {
        let station = write_signed(self.station_id);
        let kind = write_signed(self.type_id);
        let message = write_decimal(self.message_id as u64);
        let r = String::from_str("kldata").concat("/").concat("nationalnr").concat("=").concat(
            station.as_str(),
        ).concat("/").concat("type").concat("=").concat(kind.as_str()).concat("/").concat(
            "messageid",
        ).concat("=").concat(message.as_str());
        assert(r@ =~= header_line(*self));
        r
    }
}

/// A text without the separator adds to the last piece.
pub proof fn lemma_split_append(s: Seq<char>, t: Seq<char>, sep: char)
    requires
        forall|i: int| 0 <= i < t.len() ==> t[i] != sep,
    ensures
        split(s, sep).len() >= 1,
        split(s + t, sep) == split(s, sep).drop_last().push(split(s, sep).last() + t),
    decreases t.len(),
{
    crate::text::lemma_split_nonempty(s, sep);
    let parts = split(s, sep);
    if t.len() == 0 {
        assert(s + t =~= s);
        assert(parts.last() + t =~= parts.last());
        assert(parts.drop_last().push(parts.last()) =~= parts);
    } else {
        let shorter = t.drop_last();
        lemma_split_append(s, shorter, sep);
        let whole = s + t;
        assert(whole.drop_last() =~= s + shorter);
        assert(whole.last() == t.last());
        let before = split(s + shorter, sep);
        assert(before.last() == parts.last() + shorter);
        assert(before.drop_last() =~= parts.drop_last());
        assert((parts.last() + shorter).push(t.last()) =~= parts.last() + t);
    }
}

/// A separator starts a new, empty piece.
pub proof fn lemma_split_separator(s: Seq<char>, sep: char)
    ensures
        split(s.push(sep), sep) == split(s, sep).push(Seq::<char>::empty()),
{
    assert(s.push(sep).drop_last() =~= s);
}

/// A field `key=value` whose key has no `=` is cut at the `=` that follows
/// the key.
pub proof fn lemma_field_is_cut(key: Seq<char>, value: Seq<char>)
    requires
        forall|i: int| 0 <= i < key.len() ==> key[i] != '=',
    ensures
        (key + "="@ + value).index_of_first('=') == Some(key.len() as int),
        (key + "="@ + value).subrange(0, key.len() as int) == key,
        (key + "="@ + value).subrange(key.len() as int + 1, (key + "="@ + value).len() as int) == value,
{
    reveal_strlit("=");
    let field = key + "="@ + value;
    assert(field[key.len() as int] == '=');
    assert(field.contains('='));
    field.index_of_first_ensures('=');
    let at = field.index_of_first('=')->Some_0;
    if at < key.len() {
        assert(field[at] == key[at]);
    }
    if at > key.len() {
        assert(field[key.len() as int] != '=');
    }
    assert(field.subrange(0, key.len() as int) =~= key);
    assert(field.subrange(key.len() as int + 1, field.len() as int) =~= value);
}

/// The pieces `parts` with `sep` between them.
pub open spec fn join(parts: Seq<Seq<char>>, sep: char) -> Seq<char>
    decreases parts.len(),
{
    if parts.len() == 0 {
        Seq::empty()
    } else if parts.len() == 1 {
        parts[0]
    } else {
        join(parts.drop_last(), sep).push(sep) + parts.last()
    }
}

/// Cutting what was joined gives the pieces back, where no piece holds the
/// separator.
pub proof fn lemma_split_join(parts: Seq<Seq<char>>, sep: char)
    requires
        parts.len() >= 1,
        forall|i: int, j: int|
            0 <= i < parts.len() && 0 <= j < parts[i].len() ==> (#[trigger] parts[i][j]) != sep,
    ensures
        split(join(parts, sep), sep) == parts,
    decreases parts.len(),
{
    let empty = Seq::<char>::empty();
    if parts.len() == 1 {
        assert(split(empty, sep) =~= seq![empty]);
        assert forall|j: int| 0 <= j < parts[0].len() implies parts[0][j] != sep by {
            assert(parts[0][j] != sep);
        }
        lemma_split_append(empty, parts[0], sep);
        assert(empty + parts[0] =~= parts[0]);
        assert(split(parts[0], sep) =~= parts);
    } else {
        let head = parts.drop_last();
        assert forall|i: int, j: int|
            0 <= i < head.len() && 0 <= j < head[i].len() implies (#[trigger] head[i][j])
            != sep by {
            assert(head[i] == parts[i]);
            assert(parts[i][j] != sep);
        }
        lemma_split_join(head, sep);
        lemma_split_separator(join(head, sep), sep);
        let last = parts.last();
        assert forall|j: int| 0 <= j < last.len() implies last[j] != sep by {
            assert(parts[parts.len() - 1][j] != sep);
        }
        lemma_split_append(join(head, sep).push(sep), last, sep);
        assert(head.push(empty).drop_last() =~= head);
        assert(empty + last =~= last);
        assert(head.push(last) =~= parts);
    }
}

/// The kinds of field that a header line can hold after its indicator.
pub enum HeaderField {
    Station,
    Type,
    MessageId,
    /// The marker `add`.
    Marker,
}

/// The text of a field of the given kind for `header`.
pub open spec fn field_text(header: ObsinnHeader, kind: HeaderField) -> Seq<char> {
    match kind {
        HeaderField::Station => "nationalnr"@ + "="@ + signed_decimal(header.station_id as int),
        HeaderField::Type => "type"@ + "="@ + signed_decimal(header.type_id as int),
        HeaderField::MessageId => "messageid"@ + "="@ + decimal(header.message_id as nat),
        HeaderField::Marker => "add"@,
    }
}

/// The header line that holds the fields `order` for `header`, in that
/// order.
pub open spec fn header_line_in(header: ObsinnHeader, order: Seq<HeaderField>) -> Seq<char> {
    join(seq!["kldata"@] + order.map_values(|kind: HeaderField| field_text(header, kind)), '/')
}

/// The slots after fields of the kinds `rest` for `header`.
pub open spec fn filled(slots: HeaderSlots, header: ObsinnHeader, rest: Seq<HeaderField>)
    -> HeaderSlots
    decreases rest.len(),
{
    if rest.len() == 0 {
        slots
    } else {
        let next = match rest[0] {
            HeaderField::Station => HeaderSlots { station_id: Some(header.station_id), ..slots },
            HeaderField::Type => HeaderSlots { type_id: Some(header.type_id), ..slots },
            HeaderField::MessageId => HeaderSlots {
                message_id: Some(header.message_id),
                ..slots
            },
            HeaderField::Marker => slots,
        };
        filled(next, header, rest.drop_first())
    }
}

proof fn lemma_field_reads(slots: HeaderSlots, header: ObsinnHeader, kind: HeaderField)
    ensures
        read_field(slots, field_text(header, kind)) == Ok::<HeaderSlots, Seq<char>>(
            filled(slots, header, seq![kind]),
        ),
        forall|j: int|
            0 <= j < field_text(header, kind).len() ==> (#[trigger] field_text(header, kind)[j])
                != '/',
{
    reveal_strlit("/");
    reveal_strlit("=");
    reveal_strlit("add");
    reveal_strlit("nationalnr");
    reveal_strlit("type");
    reveal_strlit("messageid");
    reveal_with_fuel(filled, 2);
    assert(seq![kind].drop_first().len() == 0);
    let text = field_text(header, kind);
    match kind {
        HeaderField::Station => {
            let d = signed_decimal(header.station_id as int);
            lemma_signed_reads_back(header.station_id as int);
            lemma_field_is_cut("nationalnr"@, d);
            assert(i32_text(d) == Some(header.station_id));
            assert(text.len() != 3);
            assert forall|j: int| 0 <= j < text.len() implies (#[trigger] text[j]) != '/' by {
                if j >= 11 {
                    assert(text[j] == d[j - 11]);
                }
            }
        },
        HeaderField::Type => {
            let d = signed_decimal(header.type_id as int);
            lemma_signed_reads_back(header.type_id as int);
            lemma_field_is_cut("type"@, d);
            assert(i32_text(d) == Some(header.type_id));
            assert(text.len() != 3);
            assert("type"@.len() != "nationalnr"@.len());
            assert forall|j: int| 0 <= j < text.len() implies (#[trigger] text[j]) != '/' by {
                if j >= 5 {
                    assert(text[j] == d[j - 5]);
                }
            }
        },
        HeaderField::MessageId => {
            let d = decimal(header.message_id as nat);
            lemma_decimal_reads_back(header.message_id as nat);
            lemma_field_is_cut("messageid"@, d);
            assert(usize_text(d) == Some(header.message_id));
            assert(text.len() != 3);
            assert("messageid"@.len() != "nationalnr"@.len());
            assert("messageid"@.len() != "type"@.len());
            assert forall|j: int| 0 <= j < text.len() implies (#[trigger] text[j]) != '/' by {
                if j >= 10 {
                    assert(text[j] == d[j - 10]);
                }
            }
        },
        HeaderField::Marker => {},
    }
}

proof fn lemma_fields_read(
    fields: Seq<Seq<char>>,
    i: int,
    slots: HeaderSlots,
    header: ObsinnHeader,
    order: Seq<HeaderField>,
)
    requires
        1 <= i <= fields.len(),
        fields.len() == order.len() + 1,
        forall|k: int| 0 <= k < order.len() ==> fields[k + 1] == field_text(header, order[k]),
    ensures
        read_fields(fields, i, slots) == Ok::<HeaderSlots, Seq<char>>(
            filled(slots, header, order.subrange(i - 1, order.len() as int)),
        ),
    decreases fields.len() - i,
{
    let rest = order.subrange(i - 1, order.len() as int);
    if i < fields.len() {
        lemma_field_reads(slots, header, order[i - 1]);
        reveal_with_fuel(filled, 2);
        assert(seq![order[i - 1]].drop_first().len() == 0);
        let next = filled(slots, header, seq![order[i - 1]]);
        assert(fields[i] == field_text(header, order[i - 1]));
        lemma_fields_read(fields, i + 1, next, header, order);
        assert(rest[0] == order[i - 1]);
        assert(rest.drop_first() =~= order.subrange(i, order.len() as int));
    }
}

proof fn lemma_filled_slots(slots: HeaderSlots, header: ObsinnHeader, rest: Seq<HeaderField>)
    ensures
        filled(slots, header, rest).station_id == if rest.contains(HeaderField::Station) {
            Some(header.station_id)
        } else {
            slots.station_id
        },
        filled(slots, header, rest).type_id == if rest.contains(HeaderField::Type) {
            Some(header.type_id)
        } else {
            slots.type_id
        },
        filled(slots, header, rest).message_id == if rest.contains(HeaderField::MessageId) {
            Some(header.message_id)
        } else {
            slots.message_id
        },
    decreases rest.len(),
{
    if rest.len() > 0 {
        let next = match rest[0] {
            HeaderField::Station => HeaderSlots { station_id: Some(header.station_id), ..slots },
            HeaderField::Type => HeaderSlots { type_id: Some(header.type_id), ..slots },
            HeaderField::MessageId => HeaderSlots {
                message_id: Some(header.message_id),
                ..slots
            },
            HeaderField::Marker => slots,
        };
        let tail = rest.drop_first();
        lemma_filled_slots(next, header, tail);
        assert forall|kind: HeaderField| rest.contains(kind) <==> (rest[0] == kind
            || tail.contains(kind)) by {
            if rest.contains(kind) {
                let at = choose|at: int| 0 <= at < rest.len() && rest[at] == kind;
                if at > 0 {
                    assert(tail[at - 1] == kind);
                }
            }
            if tail.contains(kind) {
                let at = choose|at: int| 0 <= at < tail.len() && tail[at] == kind;
                assert(rest[at + 1] == kind);
            }
        }
    }
}

/// Decoding does not depend on the order of the fields: a header line that
/// holds station and type, in any order and among any other fields of the
/// header, decodes to the header; the message id is 0 where the line holds
/// none.
pub proof fn lemma_header_any_order(header: ObsinnHeader, order: Seq<HeaderField>)
    requires
        order.contains(HeaderField::Station),
        order.contains(HeaderField::Type),
    ensures
        header_of(header_line_in(header, order)) == Ok::<ObsinnHeader, Seq<char>>(
            ObsinnHeader {
                message_id: if order.contains(HeaderField::MessageId) {
                    header.message_id
                } else {
                    0
                },
                ..header
            },
        ),
{
    reveal_strlit("kldata");
    let texts = order.map_values(|kind: HeaderField| field_text(header, kind));
    let fields = seq!["kldata"@] + texts;
    assert forall|i: int, j: int|
        0 <= i < fields.len() && 0 <= j < fields[i].len() implies (#[trigger] fields[i][j])
        != '/' by {
        if i > 0 {
            lemma_field_reads(no_slots(), header, order[i - 1]);
            assert(fields[i] == field_text(header, order[i - 1]));
            assert(field_text(header, order[i - 1])[j] != '/');
        }
    }
    lemma_split_join(fields, '/');
    assert forall|k: int| 0 <= k < order.len() implies fields[k + 1] == field_text(
        header,
        order[k],
    ) by {
        assert(fields[k + 1] == texts[k]);
    }
    lemma_fields_read(fields, 1, no_slots(), header, order);
    assert(order.subrange(0, order.len() as int) =~= order);
    lemma_filled_slots(no_slots(), header, order);
}

/// Decoding a written header gives the header back: station, type and
/// message id come out as they went in.
pub proof fn lemma_header_round_trip(header: ObsinnHeader)
    ensures
        header_of(header_line(header)) == Ok::<ObsinnHeader, Seq<char>>(header),
{
    reveal_strlit("/");
    let order = seq![HeaderField::Station, HeaderField::Type, HeaderField::MessageId];
    assert(order[0] == HeaderField::Station);
    assert(order[1] == HeaderField::Type);
    assert(order[2] == HeaderField::MessageId);
    lemma_header_any_order(header, order);
    let f1 = field_text(header, HeaderField::Station);
    let f2 = field_text(header, HeaderField::Type);
    let f3 = field_text(header, HeaderField::MessageId);
    let parts = seq!["kldata"@] + order.map_values(|kind: HeaderField| field_text(header, kind));
    assert(parts =~= seq!["kldata"@, f1, f2, f3]);
    let three = parts.drop_last();
    assert(three =~= seq!["kldata"@, f1, f2]);
    let two = three.drop_last();
    assert(two =~= seq!["kldata"@, f1]);
    let one = two.drop_last();
    assert(one =~= seq!["kldata"@]);
    assert(join(one, '/') == "kldata"@);
    assert(join(two, '/') == join(one, '/').push('/') + f1);
    assert(join(three, '/') == join(two, '/').push('/') + f2);
    assert(join(parts, '/') == join(three, '/').push('/') + f3);
    assert("kldata"@ + "/"@ =~= "kldata"@.push('/'));
    assert(header_line(header) =~= join(parts, '/'));
}

} // verus!
