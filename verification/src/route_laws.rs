//! What holds of route entries: they read the same in any order of their fields,
//! and whatever other fields stand between them.

use vstd::prelude::*;
use vstd::utf8::*;

use crate::address::Address;
use crate::base64::{base64_round_trip, base64_text};
use crate::error::XdrError;
use crate::rpc::decoded_entry;
use crate::scval::{
    address_at, behind_address, behind_body, behind_value, behind_values, count_at, elements_at,
    entry_bytes, field_at, field_value_at, fields_at, lemma_field_names, lemma_parts_lie_at, lemma_read_address,
    lemma_read_key, lemma_read_map_header, lemma_read_string, lemma_read_u32, lies_at, no_fields,
    route_entry, string_at, string_list, string_value_bytes, take_at, u32_at, var_at, RouteFields,
};
use crate::strkey::strkey_text;
use crate::text::{utf8_error_len, valid_up_to};
use crate::text_laws::valid_up_to_is_the_furthest;
use crate::xdr::{be32, opaque_var_bytes};
use crate::xdr::{SCV_ADDRESS, SCV_BOOL, SCV_MAP, SCV_STRING, SCV_SYMBOL};

verus! {

// ── A value reads the same wherever it lies ─────────────────────────────────

proof fn lemma_take_elsewhere(buf: Seq<u8>, base: nat, v: Seq<u8>, p: nat, n: nat)
    requires
        lies_at(buf, base, v),
        p + n <= v.len(),
    ensures
        take_at(v, p, n) == Ok::<(Seq<u8>, nat), XdrError>(
            (v.subrange(p as int, (p + n) as int), p + n),
        ),
        take_at(buf, base + p, n) == Ok::<(Seq<u8>, nat), XdrError>(
            (v.subrange(p as int, (p + n) as int), base + p + n),
        ),
{
    let whole = buf.subrange(base as int, (base + v.len()) as int);
    assert(buf.subrange((base + p) as int, (base + p + n) as int) =~= whole.subrange(
        p as int,
        (p + n) as int,
    ));
}

proof fn lemma_u32_elsewhere(buf: Seq<u8>, base: nat, v: Seq<u8>, p: nat)
    requires
        lies_at(buf, base, v),
        u32_at(v, p) is Ok,
    ensures
        u32_at(v, p)->Ok_0.1 == p + 4 <= v.len(),
        u32_at(buf, base + p) == Ok::<(u32, nat), XdrError>((u32_at(v, p)->Ok_0.0, base + p + 4)),
{
    lemma_take_elsewhere(buf, base, v, p, 4);
}

proof fn lemma_var_elsewhere(buf: Seq<u8>, base: nat, v: Seq<u8>, p: nat)
    requires
        lies_at(buf, base, v),
        var_at(v, p) is Ok,
    ensures
        p + 4 <= var_at(v, p)->Ok_0.1 <= v.len(),
        var_at(buf, base + p) == Ok::<(Seq<u8>, nat), XdrError>(
            (var_at(v, p)->Ok_0.0, base + var_at(v, p)->Ok_0.1),
        ),
{
    lemma_u32_elsewhere(buf, base, v, p);
    let n = u32_at(v, p)->Ok_0.0 as nat;
    lemma_take_elsewhere(buf, base, v, p + 4, n);
    let pad = (var_at(v, p)->Ok_0.1 - (p + 4 + n)) as nat;
    lemma_take_elsewhere(buf, base, v, p + 4 + n, pad);
}

/// An address that can be passed over can be read, and reads the same elsewhere.
proof fn lemma_address_elsewhere(buf: Seq<u8>, base: nat, v: Seq<u8>, p: nat)
    requires
        lies_at(buf, base, v),
        behind_address(v, p) is Ok,
    ensures
        p <= behind_address(v, p)->Ok_0 <= v.len(),
        behind_address(buf, base + p) == Ok::<nat, XdrError>(base + behind_address(v, p)->Ok_0),
        address_at(v, p) is Ok,
        address_at(buf, base + p) == Ok::<(Seq<char>, nat), XdrError>(
            (address_at(v, p)->Ok_0.0, base + behind_address(v, p)->Ok_0),
        ),
{
    lemma_u32_elsewhere(buf, base, v, p);
    if u32_at(v, p)->Ok_0.0 == 0 {
        lemma_u32_elsewhere(buf, base, v, p + 4);
        lemma_take_elsewhere(buf, base, v, p + 8, 32);
    } else {
        lemma_take_elsewhere(buf, base, v, p + 4, 32);
    }
}

proof fn lemma_count_elsewhere(buf: Seq<u8>, base: nat, v: Seq<u8>, p: nat)
    requires
        lies_at(buf, base, v),
        count_at(v, p) is Ok,
    ensures
        p < count_at(v, p)->Ok_0.1 <= v.len(),
        count_at(buf, base + p) == Ok::<(u32, nat), XdrError>(
            (count_at(v, p)->Ok_0.0, base + count_at(v, p)->Ok_0.1),
        ),
{
    lemma_u32_elsewhere(buf, base, v, p);
    if u32_at(v, p)->Ok_0.0 != 0 {
        lemma_u32_elsewhere(buf, base, v, p + 4);
    }
}

/// What is passed over in `v` is passed over where `v` lies in `buf`.
#[verifier::spinoff_prover]
#[verifier::rlimit(50)]
proof fn lemma_body_elsewhere(buf: Seq<u8>, base: nat, v: Seq<u8>, p: nat, kind: u32)
    requires
        lies_at(buf, base, v),
        p <= v.len(),
        behind_body(v, p, kind) is Ok,
    ensures
        p <= behind_body(v, p, kind)->Ok_0 <= v.len(),
        behind_body(buf, base + p, kind) == Ok::<nat, XdrError>(
            base + behind_body(v, p, kind)->Ok_0,
        ),
    decreases v.len() - p, 0nat,
{
    if kind == 1 {
    } else if kind == SCV_BOOL || kind == 3 || kind == 4 {
        lemma_u32_elsewhere(buf, base, v, p);
    } else if 5 <= kind <= 8 {
        lemma_take_elsewhere(buf, base, v, p, 8);
    } else if kind == 9 || kind == 10 {
        lemma_take_elsewhere(buf, base, v, p, 16);
    } else if kind == 11 || kind == 12 {
        lemma_take_elsewhere(buf, base, v, p, 32);
    } else if kind == 13 || kind == SCV_STRING || kind == SCV_SYMBOL {
        lemma_var_elsewhere(buf, base, v, p);
    } else if kind == SCV_ADDRESS {
        lemma_address_elsewhere(buf, base, v, p);
    } else {
        lemma_count_elsewhere(buf, base, v, p);
        let (n, q) = count_at(v, p)->Ok_0;
        let items = if kind == SCV_MAP {
            2 * n as nat
        } else {
            n as nat
        };
        lemma_values_elsewhere(buf, base, v, q, items);
    }
}

proof fn lemma_value_elsewhere(buf: Seq<u8>, base: nat, v: Seq<u8>, p: nat)
    requires
        lies_at(buf, base, v),
        p <= v.len(),
        behind_value(v, p) is Ok,
    ensures
        p < behind_value(v, p)->Ok_0 <= v.len(),
        behind_value(buf, base + p) == Ok::<nat, XdrError>(base + behind_value(v, p)->Ok_0),
    decreases v.len() - p, 0nat,
{
    lemma_u32_elsewhere(buf, base, v, p);
    lemma_body_elsewhere(buf, base, v, p + 4, u32_at(v, p)->Ok_0.0);
}

proof fn lemma_values_elsewhere(buf: Seq<u8>, base: nat, v: Seq<u8>, p: nat, n: nat)
    requires
        lies_at(buf, base, v),
        p <= v.len(),
        behind_values(v, p, n) is Ok,
    ensures
        p <= behind_values(v, p, n)->Ok_0 <= v.len(),
        behind_values(buf, base + p, n) == Ok::<nat, XdrError>(
            base + behind_values(v, p, n)->Ok_0,
        ),
    decreases v.len() - p, 1nat,
{
    if n > 0 {
        lemma_value_elsewhere(buf, base, v, p);
        lemma_values_elsewhere(buf, base, v, behind_value(v, p)->Ok_0, (n - 1) as nat);
    }
}

// ── Maps of fields ──────────────────────────────────────────────────────────

/// An entry of a map: the text of its symbol, and the kind and body of its value.
#[verifier::ext_equal]
pub struct MapEntry {
    pub key: Seq<char>,
    pub kind: u32,
    pub body: Seq<u8>,
}

/// Whether `body` is the body of a value of kind `kind`, and nothing more: passing
/// over such a value ends at its end.
pub open spec fn is_value(kind: u32, body: Seq<u8>) -> bool {
    behind_body(body, 0, kind) == Ok::<nat, XdrError>(body.len())
}

/// Whether entries make up a map that can be written: their values are values,
/// no key comes twice, and every length fits in 32 bits.
pub open spec fn is_map(entries: Seq<MapEntry>) -> bool {
    &&& entries.len() < 0x1_0000_0000
    &&& forall|i: int|
        0 <= i < entries.len() ==> is_value(
            (#[trigger] entries[i]).kind,
            entries[i].body,
        ) && encode_utf8(entries[i].key).len() < 0x1_0000_0000
    &&& forall|i: int, j: int|
        0 <= i < j < entries.len() ==> (#[trigger] entries[i]).key != (#[trigger] entries[j]).key
}

/// An entry as it is written.
pub open spec fn map_entry_bytes(entry: MapEntry) -> Seq<u8> {
    entry_bytes(entry.key, be32(entry.kind as nat) + entry.body)
}

/// Entries as they are written, one after the other.
pub open spec fn map_entries_bytes(entries: Seq<MapEntry>) -> Seq<u8>
    decreases entries.len(),
{
    if entries.len() == 0 {
        Seq::empty()
    } else {
        map_entry_bytes(entries[0]) + map_entries_bytes(entries.drop_first())
    }
}

/// A map as an `ScVal`.
pub open spec fn map_bytes(entries: Seq<MapEntry>) -> Seq<u8> {
    be32(SCV_MAP as nat) + (be32(1) + (be32(entries.len()) + map_entries_bytes(entries)))
}

/// Whether a route has a field of that name.
pub open spec fn is_route_field(key: Seq<char>) -> bool {
    key == "address"@ || key == "name"@ || key == "paused"@ || key == "updated_by"@
}

/// The fields after an entry, which is taken on its own.
spec fn after_entry(entry: MapEntry, fields: RouteFields) -> Result<RouteFields, XdrError> {
    match field_value_at(entry.body, 0, entry.kind, entry.key, fields) {
        Err(e) => Err(e),
        Ok((f, _)) => Ok(f),
    }
}

/// The fields after entries, one after the other.
spec fn after_entries(entries: Seq<MapEntry>, fields: RouteFields) -> Result<RouteFields, XdrError>
    decreases entries.len(),
{
    if entries.len() == 0 {
        Ok(fields)
    } else {
        match after_entry(entries[0], fields) {
            Err(e) => Err(e),
            Ok(f) => after_entries(entries.drop_first(), f),
        }
    }
}

/// Reading an entry where it lies is taking it on its own.
#[verifier::spinoff_prover]
#[verifier::rlimit(50)]
proof fn lemma_read_entry(buf: Seq<u8>, pos: nat, entry: MapEntry, fields: RouteFields)
    requires
        is_value(entry.kind, entry.body),
        encode_utf8(entry.key).len() < 0x1_0000_0000,
        lies_at(buf, pos, map_entry_bytes(entry)),
    ensures
        field_at(buf, pos, fields) == match after_entry(entry, fields) {
            Err(e) => Err::<(RouteFields, nat), XdrError>(e),
            Ok(f) => Ok((f, pos + map_entry_bytes(entry).len())),
        },
{
    let value = be32(entry.kind as nat) + entry.body;
    let p = pos + string_value_bytes(SCV_SYMBOL, entry.key).len();
    lemma_read_key(buf, pos, entry.key, value);
    lemma_parts_lie_at(buf, p, be32(entry.kind as nat), entry.body);
    lemma_read_u32(buf, p, entry.kind);
    lemma_read_body(buf, p + 4, entry, fields);
}

/// Reading the value of an entry where it lies is taking it on its own.
proof fn lemma_read_body(buf: Seq<u8>, pos: nat, entry: MapEntry, fields: RouteFields)
    requires
        is_value(entry.kind, entry.body),
        lies_at(buf, pos, entry.body),
    ensures
        field_value_at(buf, pos, entry.kind, entry.key, fields) == match after_entry(
            entry,
            fields,
        ) {
            Err(e) => Err::<(RouteFields, nat), XdrError>(e),
            Ok(f) => Ok((f, pos + entry.body.len())),
        },
{
    lemma_body_elsewhere(buf, pos, entry.body, 0, entry.kind);
    if entry.kind == SCV_ADDRESS {
        lemma_address_elsewhere(buf, pos, entry.body, 0);
    } else if entry.kind == SCV_STRING {
        lemma_var_elsewhere(buf, pos, entry.body, 0);
    } else if entry.kind == SCV_BOOL {
        lemma_u32_elsewhere(buf, pos, entry.body, 0);
    }
}

proof fn lemma_read_entries(buf: Seq<u8>, pos: nat, entries: Seq<MapEntry>, fields: RouteFields)
    requires
        is_map(entries),
        lies_at(buf, pos, map_entries_bytes(entries)),
    ensures
        fields_at(buf, pos, entries.len(), fields) == after_entries(entries, fields),
    decreases entries.len(),
{
    if entries.len() > 0 {
        let first = map_entry_bytes(entries[0]);
        let rest = entries.drop_first();
        lemma_parts_lie_at(buf, pos, first, map_entries_bytes(rest));
        lemma_read_entry(buf, pos, entries[0], fields);
        lemma_rest_is_map(entries);
        if after_entry(entries[0], fields) is Ok {
            lemma_read_entries(
                buf,
                pos + first.len(),
                rest,
                after_entry(entries[0], fields)->Ok_0,
            );
        }
    }
}

proof fn lemma_rest_is_map(entries: Seq<MapEntry>)
    requires
        is_map(entries),
        entries.len() > 0,
    ensures
        is_map(entries.drop_first()),
{
    let rest = entries.drop_first();
    assert forall|i: int| 0 <= i < rest.len() implies is_value(
        (#[trigger] rest[i]).kind,
        rest[i].body,
    ) && encode_utf8(rest[i].key).len() < 0x1_0000_0000 by {
        assert(rest[i] == entries[i + 1]);
    }
    assert forall|i: int, j: int| 0 <= i < j < rest.len() implies (#[trigger] rest[i]).key != (
    #[trigger] rest[j]).key by {
        assert(rest[i] == entries[i + 1] && rest[j] == entries[j + 1]);
    }
}

/// The entry under a key.
spec fn under_key(entries: Seq<MapEntry>, key: Seq<char>) -> Option<MapEntry>
    decreases entries.len(),
{
    if entries.len() == 0 {
        None
    } else if entries[0].key == key {
        Some(entries[0])
    } else {
        under_key(entries.drop_first(), key)
    }
}

proof fn lemma_under_key(entries: Seq<MapEntry>, key: Seq<char>)
    ensures
        match under_key(entries, key) {
            Some(entry) => entry.key == key && entries.contains(entry),
            None => forall|i: int| 0 <= i < entries.len() ==> (#[trigger] entries[i]).key != key,
        },
    decreases entries.len(),
{
    if entries.len() > 0 && entries[0].key != key {
        let rest = entries.drop_first();
        lemma_under_key(rest, key);
        match under_key(rest, key) {
            Some(entry) => {
                let i = choose|i: int| 0 <= i < rest.len() && rest[i] == entry;
                assert(entries[i + 1] == entry);
            },
            None => {
                assert forall|i: int| 0 <= i < entries.len() implies (#[trigger] entries[i]).key
                    != key by {
                    if i > 0 {
                        assert(entries[i] == rest[i - 1]);
                    }
                }
            },
        }
    } else if entries.len() > 0 {
        assert(entries.contains(entries[0]));
    }
}

/// Of entries without a repeated key, the one under a key is the one found.
proof fn lemma_found_under_key(entries: Seq<MapEntry>, entry: MapEntry)
    requires
        is_map(entries),
        entries.contains(entry),
    ensures
        under_key(entries, entry.key) == Some(entry),
{
    lemma_under_key(entries, entry.key);
    let i = choose|i: int| 0 <= i < entries.len() && entries[i] == entry;
    let found = under_key(entries, entry.key)->0;
    let j = choose|j: int| 0 <= j < entries.len() && entries[j] == found;
    assert(entries[i].key == entries[j].key);
}

/// The text of the address that an entry holds, none where it is of another kind.
spec fn address_in(entry: Option<MapEntry>, absent: Seq<char>) -> Seq<char> {
    match entry {
        None => absent,
        Some(e) => if e.kind == SCV_ADDRESS {
            address_at(e.body, 0)->Ok_0.0
        } else {
            Seq::empty()
        },
    }
}

/// The name that an entry holds.
spec fn name_in(entry: Option<MapEntry>, absent: Seq<char>) -> Result<Seq<char>, XdrError> {
    match entry {
        Some(e) => if e.kind == SCV_STRING {
            match string_at(e.body, 0) {
                Err(e) => Err(e),
                Ok((name, _)) => Ok(name),
            }
        } else {
            Ok(absent)
        },
        None => Ok(absent),
    }
}

/// The flag that an entry holds.
spec fn flag_in(entry: Option<MapEntry>, absent: bool) -> bool {
    match entry {
        Some(e) => if e.kind == SCV_BOOL {
            u32_at(e.body, 0)->Ok_0.0 != 0
        } else {
            absent
        },
        None => absent,
    }
}

/// The fields that entries give, each by the entry under its name.
spec fn fields_in(entries: Seq<MapEntry>, fields: RouteFields) -> Result<RouteFields, XdrError> {
    match name_in(under_key(entries, "name"@), fields.name) {
        Err(e) => Err(e),
        Ok(name) => Ok(
            RouteFields {
                address: address_in(under_key(entries, "address"@), fields.address),
                name,
                paused: flag_in(under_key(entries, "paused"@), fields.paused),
                updated_by: address_in(under_key(entries, "updated_by"@), fields.updated_by),
            },
        ),
    }
}

/// Entries taken one after the other give each field by the entry under its name.
#[verifier::spinoff_prover]
#[verifier::rlimit(50)]
proof fn lemma_fields_by_name(entries: Seq<MapEntry>, fields: RouteFields)
    requires
        is_map(entries),
    ensures
        after_entries(entries, fields) == fields_in(entries, fields),
    decreases entries.len(),
{
    if entries.len() > 0 {
        let first = entries[0];
        let rest = entries.drop_first();
        lemma_rest_is_map(entries);
        lemma_field_names();
        assert(is_value(first.kind, first.body));
        lemma_under_key(rest, first.key);
        assert(under_key(rest, first.key) is None) by {
            if under_key(rest, first.key) is Some {
                let found = under_key(rest, first.key)->0;
                let i = choose|i: int| 0 <= i < rest.len() && rest[i] == found;
                assert(entries[i + 1].key == entries[0].key);
            }
        }
        lemma_entry_alone(first, fields);
        if after_entry(first, fields) is Ok {
            lemma_fields_by_name(rest, after_entry(first, fields)->Ok_0);
        }
    }
}

/// What one entry does to the fields.
proof fn lemma_entry_alone(entry: MapEntry, fields: RouteFields)
    requires
        is_value(entry.kind, entry.body),
    ensures
        after_entry(entry, fields) == if entry.key == "address"@ {
            Ok::<RouteFields, XdrError>(
                RouteFields { address: address_in(Some(entry), fields.address), ..fields },
            )
        } else if entry.key == "updated_by"@ {
            Ok(RouteFields { updated_by: address_in(Some(entry), fields.updated_by), ..fields })
        } else if entry.key == "name"@ {
            match name_in(Some(entry), fields.name) {
                Err(e) => Err(e),
                Ok(name) => Ok(RouteFields { name, ..fields }),
            }
        } else if entry.key == "paused"@ {
            Ok(RouteFields { paused: flag_in(Some(entry), fields.paused), ..fields })
        } else {
            Ok(fields)
        },
{
    let body = entry.body;
    lemma_field_names();
    assert(body.subrange(0, body.len() as int) =~= body);
    if entry.kind == SCV_ADDRESS {
        lemma_address_elsewhere(body, 0, body, 0);
    } else if entry.kind == SCV_BOOL {
        lemma_u32_elsewhere(body, 0, body, 0);
    }
}

/// What a map reads as: each field by the entry under its name.
proof fn lemma_read_map(entries: Seq<MapEntry>)
    requires
        is_map(entries),
    ensures
        route_entry(map_bytes(entries)) == match fields_in(entries, no_fields()) {
            Err(e) => Err::<Option<RouteFields>, XdrError>(e),
            Ok(fields) => if fields.address.len() == 0 {
                Ok(None)
            } else {
                Ok(Some(fields))
            },
        },
{
    lemma_read_map_header(map_entries_bytes(entries), entries.len() as u32);
    lemma_read_entries(map_bytes(entries), 12, entries, no_fields());
    lemma_fields_by_name(entries, no_fields());
}

/// Neither the order of the fields of a route nor fields of other names matter:
/// two maps that hold the same entries under the four names of a route's fields
/// read the same.
pub proof fn field_order_and_other_fields_do_not_matter(a: Seq<MapEntry>, b: Seq<MapEntry>)
    requires
        is_map(a),
        is_map(b),
        forall|entry: MapEntry|
            is_route_field(entry.key) ==> (#[trigger] a.contains(entry) <==> b.contains(entry)),
    ensures
        route_entry(map_bytes(a)) == route_entry(map_bytes(b)),
        decoded_entry(base64_text(map_bytes(a))) == decoded_entry(base64_text(map_bytes(b))),
{
    base64_round_trip(map_bytes(a));
    base64_round_trip(map_bytes(b));
    lemma_read_map(a);
    lemma_read_map(b);
    lemma_same_under_key(a, b, "address"@);
    lemma_same_under_key(a, b, "name"@);
    lemma_same_under_key(a, b, "paused"@);
    lemma_same_under_key(a, b, "updated_by"@);
}

proof fn lemma_same_under_key(a: Seq<MapEntry>, b: Seq<MapEntry>, key: Seq<char>)
    requires
        is_map(a),
        is_map(b),
        is_route_field(key),
        forall|entry: MapEntry|
            is_route_field(entry.key) ==> (#[trigger] a.contains(entry) <==> b.contains(entry)),
    ensures
        under_key(a, key) == under_key(b, key),
{
    lemma_under_key(a, key);
    lemma_under_key(b, key);
    match (under_key(a, key), under_key(b, key)) {
        (Some(entry), _) => {
            assert(a.contains(entry));
            lemma_found_under_key(b, entry);
        },
        (None, Some(entry)) => {
            assert(a.contains(entry));
            let i = choose|i: int| 0 <= i < a.len() && a[i] == entry;
            assert(a[i].key == key);
        },
        _ => {},
    }
}

/// A route is read back out of every map that holds its four fields, in any
/// order and among any others.
#[verifier::spinoff_prover]
#[verifier::rlimit(50)]
pub proof fn routes_are_read_back_in_any_order(
    entries: Seq<MapEntry>,
    address: Address,
    name: Seq<char>,
    paused: bool,
    updated_by: Address,
)
    requires
        is_map(entries),
        encode_utf8(name).len() < 0x1_0000_0000,
        entries.contains(
            (MapEntry { key: "address"@, kind: SCV_ADDRESS, body: address.xdr() }),
        ),
        entries.contains(
            (MapEntry {
                key: "name"@,
                kind: SCV_STRING,
                body: opaque_var_bytes(encode_utf8(name)),
            }),
        ),
        entries.contains(
            (MapEntry {
                key: "paused"@,
                kind: SCV_BOOL,
                body: be32(
                    if paused {
                        1
                    } else {
                        0
                    },
                ),
            }),
        ),
        entries.contains(
            (MapEntry { key: "updated_by"@, kind: SCV_ADDRESS, body: updated_by.xdr() }),
        ),
    ensures
        route_entry(map_bytes(entries)) == Ok::<Option<RouteFields>, XdrError>(
            Some(
                RouteFields {
                    address: address.text(),
                    name,
                    paused,
                    updated_by: updated_by.text(),
                },
            ),
        ),
{
    let one = MapEntry { key: "address"@, kind: SCV_ADDRESS, body: address.xdr() };
    let two = MapEntry {
        key: "name"@,
        kind: SCV_STRING,
        body: opaque_var_bytes(encode_utf8(name)),
    };
    let three = MapEntry {
        key: "paused"@,
        kind: SCV_BOOL,
        body: be32(
            if paused {
                1
            } else {
                0
            },
        ),
    };
    let four = MapEntry { key: "updated_by"@, kind: SCV_ADDRESS, body: updated_by.xdr() };
    assert(under_key(entries, "address"@) == Some(one)) by {
        lemma_found_under_key(entries, one);
    }
    assert(under_key(entries, "name"@) == Some(two)) by {
        lemma_found_under_key(entries, two);
    }
    assert(under_key(entries, "paused"@) == Some(three)) by {
        lemma_found_under_key(entries, three);
    }
    assert(under_key(entries, "updated_by"@) == Some(four)) by {
        lemma_found_under_key(entries, four);
    }
    lemma_address_in(one, address);
    lemma_name_in(two, name);
    lemma_flag_in(three, paused);
    lemma_address_in(four, updated_by);
    assert(fields_in(entries, no_fields()) == Ok::<RouteFields, XdrError>(
        RouteFields { address: address.text(), name, paused, updated_by: updated_by.text() },
    ));
    lemma_read_map(entries);
    assert(address.text().len() == 56);
}

proof fn lemma_address_in(entry: MapEntry, address: Address)
    requires
        entry.kind == SCV_ADDRESS,
        entry.body == address.xdr(),
    ensures
        address_in(Some(entry), Seq::empty()) == address.text(),
{
    assert(entry.body.subrange(0, entry.body.len() as int) =~= entry.body);
    lemma_read_address(entry.body, 0, address);
}

proof fn lemma_name_in(entry: MapEntry, name: Seq<char>)
    requires
        entry.kind == SCV_STRING,
        entry.body == opaque_var_bytes(encode_utf8(name)),
        encode_utf8(name).len() < 0x1_0000_0000,
    ensures
        name_in(Some(entry), Seq::empty()) == Ok::<Seq<char>, XdrError>(name),
{
    assert(entry.body.subrange(0, entry.body.len() as int) =~= entry.body);
    lemma_read_string(entry.body, 0, name);
}

proof fn lemma_flag_in(entry: MapEntry, flag: bool)
    requires
        entry.kind == SCV_BOOL,
        entry.body == be32(
            if flag {
                1
            } else {
                0
            },
        ),
    ensures
        flag_in(Some(entry), false) == flag,
{
    let v: u32 = if flag {
        1
    } else {
        0
    };
    assert(entry.body.subrange(0, entry.body.len() as int) =~= entry.body);
    lemma_read_u32(entry.body, 0, v);
}

// ── Values as they are read ─────────────────────────────────────────────────

/// The room that the body of a value takes, by its kind: nothing for void, a word
/// for a flag or a short number, 8, 16 and 32 bytes for longer ones, a length and
/// the padded bytes for bytes, strings and symbols, and 40 or 36 bytes for an
/// address. A kind that is not known is an error.
pub proof fn how_much_room_values_take(buf: Seq<u8>, pos: nat, kind: u32)
    requires
        pos <= buf.len(),
    ensures
        ({
            let r = behind_body(buf, pos, kind);
            let room: nat = if kind == 0 || kind == 3 || kind == 4 {
                4
            } else if 5 <= kind <= 8 {
                8
            } else if kind == 9 || kind == 10 {
                16
            } else {
                32
            };
            &&& kind == 1 ==> r == Ok::<nat, XdrError>(pos)
            &&& (kind == 0 || 3 <= kind <= 12) && pos + room <= buf.len() ==> r == Ok::<
                nat,
                XdrError,
            >(pos + room)
            &&& (kind == 0 || 3 <= kind <= 12) && pos + room > buf.len() ==> r is Err
                && r->Err_0 is Underflow
            &&& 13 <= kind <= 15 ==> (r is Ok <==> var_at(buf, pos) is Ok)
            &&& 13 <= kind <= 15 && r is Ok ==> r->Ok_0 == var_at(buf, pos)->Ok_0.1
            &&& kind == 18 ==> {
                &&& u32_at(buf, pos) matches Ok((k, _)) ==> {
                    &&& k == 0 && pos + 40 <= buf.len() ==> r == Ok::<nat, XdrError>(pos + 40)
                    &&& k == 1 && pos + 36 <= buf.len() ==> r == Ok::<nat, XdrError>(pos + 36)
                    &&& k > 1 ==> r == Err::<nat, XdrError>(
                        XdrError::UnknownSkippedAddress { found: k },
                    )
                }
            }
            &&& kind == 2 || kind > 18 ==> r == Err::<nat, XdrError>(
                XdrError::UnknownSkippedValue { found: kind },
            )
        }),
{
}

/// A vector takes as many values as it says behind it, and a map twice as many;
/// none where it says that it is absent.
pub proof fn how_many_values_lists_take(buf: Seq<u8>, pos: nat)
    requires
        u32_at(buf, pos) is Ok,
    ensures
        u32_at(buf, pos)->Ok_0.0 == 0 ==> behind_body(buf, pos, 16) == Ok::<nat, XdrError>(
            pos + 4,
        ) && behind_body(buf, pos, 17) == Ok::<nat, XdrError>(pos + 4),
        u32_at(buf, pos)->Ok_0.0 != 0 && u32_at(buf, pos + 4) is Ok ==> {
            let n = u32_at(buf, pos + 4)->Ok_0.0;
            &&& behind_body(buf, pos, 16) == behind_values(buf, pos + 8, n as nat)
            &&& behind_body(buf, pos, 17) == behind_values(buf, pos + 8, 2 * n as nat)
        },
{
    assert(behind_values(buf, pos + 4, 0) == Ok::<nat, XdrError>(pos + 4));
}

/// Values are passed over one after the other, each by its kind, and where one
/// cannot be, that is the error.
pub proof fn values_are_passed_over_in_turn(buf: Seq<u8>, pos: nat, n: nat)
    requires
        pos <= buf.len(),
    ensures
        behind_values(buf, pos, 0) == Ok::<nat, XdrError>(pos),
        u32_at(buf, pos) matches Ok((kind, p)) ==> behind_value(buf, pos) == behind_body(
            buf,
            p,
            kind,
        ),
        behind_value(buf, pos) matches Ok(p) ==> pos < p <= buf.len() && behind_values(
            buf,
            pos,
            n + 1,
        ) == behind_values(buf, p, n),
        behind_value(buf, pos) matches Err(e) ==> behind_values(buf, pos, n + 1) == Err::<
            nat,
            XdrError,
        >(e),
{
    assert(buf.subrange(0, buf.len() as int) =~= buf);
    if behind_value(buf, pos) is Ok {
        lemma_value_elsewhere(buf, 0, buf, pos);
    }
}

/// A string is the text that its bytes encode, and bytes that encode none are an
/// error that says where.
pub proof fn how_strings_are_read(buf: Seq<u8>, pos: nat)
    requires
        var_at(buf, pos) is Ok,
        buf.len() <= usize::MAX,
    ensures
        ({
            let (bytes, p) = var_at(buf, pos)->Ok_0;
            &&& string_at(buf, pos) is Ok <==> valid_utf8(bytes)
            &&& string_at(buf, pos) matches Ok((text, q)) ==> encode_utf8(text) == bytes && q == p
            &&& string_at(buf, pos) matches Err(e) ==> e is StringEncoding && e->valid_up_to
                == valid_up_to(bytes, bytes.len()) && e->error_len == utf8_error_len(bytes)
        }),
{
    let (bytes, p) = var_at(buf, pos)->Ok_0;
    assert(buf.subrange(0, buf.len() as int) =~= buf);
    if valid_utf8(bytes) {
        decode_utf8_encode_utf8(bytes);
    } else {
        valid_up_to_is_the_furthest(bytes, bytes.len());
        assert(bytes.len() <= buf.len());
    }
}

/// An address is read as the strkey of its kind with the 32 bytes behind the
/// kind, and for an account behind the kind of its key. Other kinds are an error.
pub proof fn how_addresses_are_read(buf: Seq<u8>, pos: nat)
    requires
        u32_at(buf, pos) is Ok,
    ensures
        ({
            let kind = u32_at(buf, pos)->Ok_0.0;
            let r = address_at(buf, pos);
            &&& kind == 0 && pos + 40 <= buf.len() ==> r == Ok::<(Seq<char>, nat), XdrError>(
                (strkey_text(0x30, buf.subrange(pos as int + 8, pos as int + 40)), pos + 40),
            )
            &&& kind == 1 && pos + 36 <= buf.len() ==> r == Ok::<(Seq<char>, nat), XdrError>(
                (strkey_text(0x10, buf.subrange(pos as int + 4, pos as int + 36)), pos + 36),
            )
            &&& kind > 1 ==> r == Err::<(Seq<char>, nat), XdrError>(
                XdrError::UnknownAddress { found: kind },
            )
            &&& kind == 0 && pos + 40 > buf.len() ==> r is Err && r->Err_0 is Underflow
            &&& kind == 1 && pos + 36 > buf.len() ==> r is Err && r->Err_0 is Underflow
        }),
{
}

/// A list of names is a vector, or void for none, whatever follows; another kind
/// is an error that says which. A vector that is absent has no names.
pub proof fn which_values_are_lists(buf: Seq<u8>)
    requires
        u32_at(buf, 0) is Ok,
    ensures
        ({
            let kind = u32_at(buf, 0)->Ok_0.0;
            let r = string_list(buf);
            &&& kind == 1 ==> r == Ok::<Seq<Seq<char>>, XdrError>(Seq::empty())
            &&& kind != 1 && kind != 16 ==> r == Err::<Seq<Seq<char>>, XdrError>(
                XdrError::NotAVec { found: kind },
            )
            &&& kind == 16 && u32_at(buf, 4) is Ok && u32_at(buf, 4)->Ok_0.0 == 0 ==> r == Ok::<
                Seq<Seq<char>>,
                XdrError,
            >(Seq::empty())
            &&& kind == 16 && u32_at(buf, 4) is Ok && u32_at(buf, 4)->Ok_0.0 != 0 && u32_at(buf, 8)
                is Ok ==> r == elements_at(buf, 12, 0, u32_at(buf, 8)->Ok_0.0 as nat)
        }),
{
}

/// The names of a list are its elements in their order. The first that is not a
/// string, or cannot be read, is the error, and a wrong kind says at which place.
pub proof fn how_lists_are_read(buf: Seq<u8>, pos: nat, i: nat, n: nat)
    requires
        i < n <= usize::MAX,
        u32_at(buf, pos) is Ok,
    ensures
        ({
            let kind = u32_at(buf, pos)->Ok_0.0;
            let r = elements_at(buf, pos, i, n);
            &&& kind != 14 ==> r == Err::<Seq<Seq<char>>, XdrError>(
                XdrError::NotAString { index: i as usize, found: kind },
            )
            &&& kind == 14 ==> {
                &&& string_at(buf, pos + 4) matches Err(e) ==> r == Err::<
                    Seq<Seq<char>>,
                    XdrError,
                >(e)
                &&& string_at(buf, pos + 4) matches Ok((text, p)) ==> {
                    let rest = elements_at(buf, p, i + 1, n);
                    &&& rest matches Err(e) ==> r == Err::<Seq<Seq<char>>, XdrError>(e)
                    &&& rest matches Ok(names) ==> {
                        &&& r is Ok
                        &&& r->Ok_0.len() == names.len() + 1
                        &&& r->Ok_0[0] == text
                        &&& r->Ok_0.skip(1) == names
                    }
                }
            }
        }),
        elements_at(buf, pos, n, n) == Ok::<Seq<Seq<char>>, XdrError>(Seq::empty()),
{
    if u32_at(buf, pos)->Ok_0.0 == 14 && string_at(buf, pos + 4) is Ok {
        let (text, p) = string_at(buf, pos + 4)->Ok_0;
        if elements_at(buf, p, i + 1, n) is Ok {
            let names = elements_at(buf, p, i + 1, n)->Ok_0;
            assert((seq![text] + names).skip(1) =~= names);
        }
    }
}

/// A route is a map, or void for none, whatever follows; another kind is an error
/// that says which.
pub proof fn which_values_are_routes(buf: Seq<u8>)
    requires
        u32_at(buf, 0) is Ok,
    ensures
        ({
            let kind = u32_at(buf, 0)->Ok_0.0;
            let r = route_entry(buf);
            &&& kind == 1 ==> r == Ok::<Option<RouteFields>, XdrError>(None)
            &&& kind != 1 && kind != 17 ==> r == Err::<Option<RouteFields>, XdrError>(
                XdrError::NotAMap { found: kind },
            )
            &&& kind == 17 && u32_at(buf, 4) is Ok && u32_at(buf, 4)->Ok_0.0 == 0 ==> r == Ok::<
                Option<RouteFields>,
                XdrError,
            >(None)
        }),
{
    assert(fields_at(buf, 8, 0, no_fields()) == Ok::<RouteFields, XdrError>(no_fields()));
}

/// Whether `entry` is the entry of a map under `key`, or there is none.
pub open spec fn is_under(entries: Seq<MapEntry>, key: Seq<char>, entry: Option<MapEntry>) -> bool {
    match entry {
        Some(e) => e.key == key && entries.contains(e),
        None => forall|i: int| 0 <= i < entries.len() ==> (#[trigger] entries[i]).key != key,
    }
}

/// What a map says as a route, by its entries. Without an address under
/// `address` it is none. Otherwise that is the address of the route; its name is
/// the string under `name`, or nothing; it is paused where a boolean under
/// `paused` is other than zero; and `updated_by` is the address there, or nothing.
/// A name that is no text is an error.
#[verifier::spinoff_prover]
#[verifier::rlimit(50)]
pub proof fn what_a_map_says(
    entries: Seq<MapEntry>,
    a: Option<MapEntry>,
    n: Option<MapEntry>,
    p: Option<MapEntry>,
    u: Option<MapEntry>,
)
    requires
        is_map(entries),
        is_under(entries, "address"@, a),
        is_under(entries, "name"@, n),
        is_under(entries, "paused"@, p),
        is_under(entries, "updated_by"@, u),
    ensures
        ({
            let r = route_entry(map_bytes(entries));
            let bad_name = n is Some && n->0.kind == 14 && string_at(n->0.body, 0) is Err;
            let has_address = a is Some && a->0.kind == 18;
            &&& bad_name ==> r == Err::<Option<RouteFields>, XdrError>(
                string_at(n->0.body, 0)->Err_0,
            )
            &&& !bad_name && !has_address ==> r == Ok::<Option<RouteFields>, XdrError>(None)
            &&& !bad_name && has_address ==> {
                &&& r is Ok
                &&& r->Ok_0 is Some
                &&& address_at(a->0.body, 0) is Ok
                &&& r->Ok_0->0.address == address_at(a->0.body, 0)->Ok_0.0
                &&& n is Some && n->0.kind == 14 ==> r->Ok_0->0.name == string_at(
                    n->0.body,
                    0,
                )->Ok_0.0
                &&& !(n is Some && n->0.kind == 14) ==> r->Ok_0->0.name.len() == 0
                &&& r->Ok_0->0.paused <==> p is Some && p->0.kind == 0 && u32_at(
                    p->0.body,
                    0,
                )->Ok_0.0 != 0
                &&& u is Some && u->0.kind == 18 ==> r->Ok_0->0.updated_by == address_at(
                    u->0.body,
                    0,
                )->Ok_0.0
                &&& !(u is Some && u->0.kind == 18) ==> r->Ok_0->0.updated_by.len() == 0
            }
        }),
{
    lemma_read_map(entries);
    lemma_is_under(entries, "address"@, a);
    lemma_is_under(entries, "name"@, n);
    lemma_is_under(entries, "paused"@, p);
    lemma_is_under(entries, "updated_by"@, u);
    if a is Some && a->0.kind == 18 {
        let i = choose|i: int| 0 <= i < entries.len() && entries[i] == a->0;
        assert(is_value(entries[i].kind, entries[i].body));
        lemma_address_is_text(a->0.body);
    }
}

proof fn lemma_is_under(entries: Seq<MapEntry>, key: Seq<char>, entry: Option<MapEntry>)
    requires
        is_map(entries),
        is_under(entries, key, entry),
    ensures
        under_key(entries, key) == entry,
{
    match entry {
        Some(e) => {
            lemma_found_under_key(entries, e);
        },
        None => {
            lemma_under_key(entries, key);
            if under_key(entries, key) is Some {
                let found = under_key(entries, key)->0;
                let i = choose|i: int| 0 <= i < entries.len() && entries[i] == found;
                assert(entries[i].key == key);
            }
        },
    }
}

proof fn lemma_address_is_text(body: Seq<u8>)
    requires
        is_value(18, body),
    ensures
        address_at(body, 0) is Ok,
        address_at(body, 0)->Ok_0.0.len() == 56,
{
    assert(body.subrange(0, body.len() as int) =~= body);
    lemma_address_elsewhere(body, 0, body, 0);
}

/// Whether entries can be read one after the other: like a map, but keys may come
/// again.
pub open spec fn are_entries(entries: Seq<MapEntry>) -> bool {
    forall|i: int|
        0 <= i < entries.len() ==> is_value((#[trigger] entries[i]).kind, entries[i].body)
            && encode_utf8(entries[i].key).len() < 0x1_0000_0000
}

proof fn lemma_read_all_entries(buf: Seq<u8>, pos: nat, entries: Seq<MapEntry>, fields: RouteFields)
    requires
        are_entries(entries),
        lies_at(buf, pos, map_entries_bytes(entries)),
    ensures
        fields_at(buf, pos, entries.len(), fields) == after_entries(entries, fields),
    decreases entries.len(),
{
    if entries.len() > 0 {
        let first = map_entry_bytes(entries[0]);
        let rest = entries.drop_first();
        lemma_parts_lie_at(buf, pos, first, map_entries_bytes(rest));
        lemma_read_entry(buf, pos, entries[0], fields);
        assert forall|i: int| 0 <= i < rest.len() implies is_value(
            (#[trigger] rest[i]).kind,
            rest[i].body,
        ) && encode_utf8(rest[i].key).len() < 0x1_0000_0000 by {
            assert(rest[i] == entries[i + 1]);
        }
        if after_entry(entries[0], fields) is Ok {
            lemma_read_all_entries(
                buf,
                pos + first.len(),
                rest,
                after_entry(entries[0], fields)->Ok_0,
            );
        }
    }
}

proof fn lemma_after_last(entries: Seq<MapEntry>, last: MapEntry, fields: RouteFields)
    ensures
        after_entries(entries.push(last), fields) == match after_entries(entries, fields) {
            Err(e) => Err::<RouteFields, XdrError>(e),
            Ok(f) => after_entry(last, f),
        },
    decreases entries.len(),
{
    let all = entries.push(last);
    if entries.len() == 0 {
        assert(all.drop_first() =~= Seq::<MapEntry>::empty());
        assert(all[0] == last);
        if after_entry(last, fields) is Ok {
            let f = after_entry(last, fields)->Ok_0;
            assert(after_entries(Seq::<MapEntry>::empty(), f) == Ok::<RouteFields, XdrError>(f));
        }
    } else {
        assert(all.drop_first() =~= entries.drop_first().push(last));
        assert(all[0] == entries[0]);
        if after_entry(entries[0], fields) is Ok {
            lemma_after_last(entries.drop_first(), last, after_entry(entries[0], fields)->Ok_0);
        }
    }
}

/// Of entries under the same key the later one counts: one more entry replaces
/// what was said by those before it under its key, leaves the rest, and leaves
/// everything where its key is another, or its value of a kind that says nothing
/// there.
#[verifier::spinoff_prover]
#[verifier::rlimit(50)]
pub proof fn later_entries_count(entries: Seq<MapEntry>, last: MapEntry)
    requires
        are_entries(entries),
        are_entries(entries.push(last)),
        entries.len() + 1 < 0x1_0000_0000,
    ensures
        ({
            let n = entries.len();
            let before = fields_at(map_bytes(entries), 12, n, no_fields());
            let after = fields_at(map_bytes(entries.push(last)), 12, n + 1, no_fields());
            &&& before matches Err(e) ==> after == Err::<RouteFields, XdrError>(e)
            &&& before is Ok && last.key == "address"@ ==> after == Ok::<RouteFields, XdrError>(
                RouteFields {
                    address: if last.kind == 18 {
                        address_at(last.body, 0)->Ok_0.0
                    } else {
                        Seq::empty()
                    },
                    ..before->Ok_0
                },
            )
            &&& before is Ok && last.key == "updated_by"@ ==> after == Ok::<RouteFields, XdrError>(
                RouteFields {
                    updated_by: if last.kind == 18 {
                        address_at(last.body, 0)->Ok_0.0
                    } else {
                        Seq::empty()
                    },
                    ..before->Ok_0
                },
            )
            &&& before is Ok && last.key == "name"@ && last.kind == 14 && string_at(
                last.body,
                0,
            ) is Ok ==> after == Ok::<RouteFields, XdrError>(
                RouteFields { name: string_at(last.body, 0)->Ok_0.0, ..before->Ok_0 },
            )
            &&& before is Ok && last.key == "name"@ && last.kind == 14 && string_at(
                last.body,
                0,
            ) is Err ==> after == Err::<RouteFields, XdrError>(string_at(last.body, 0)->Err_0)
            &&& before is Ok && last.key == "name"@ && last.kind != 14 ==> after == before
            &&& before is Ok && last.key == "paused"@ && last.kind == 0 ==> after == Ok::<
                RouteFields,
                XdrError,
            >(
                RouteFields { paused: u32_at(last.body, 0)->Ok_0.0 != 0, ..before->Ok_0 },
            )
            &&& before is Ok && last.key == "paused"@ && last.kind != 0 ==> after == before
            &&& before is Ok && !is_route_field(last.key) ==> after == before
        }),
{
    let n = entries.len();
    let more = entries.push(last);
    assert(more[n as int] == last);
    assert(is_value(last.kind, last.body));
    lemma_read_map_header(map_entries_bytes(entries), n as u32);
    lemma_read_all_entries(map_bytes(entries), 12, entries, no_fields());
    lemma_read_map_header(map_entries_bytes(more), (n + 1) as u32);
    lemma_read_all_entries(map_bytes(more), 12, more, no_fields());
    lemma_after_last(entries, last, no_fields());
    lemma_field_names();
    if after_entries(entries, no_fields()) is Ok {
        lemma_entry_alone(last, after_entries(entries, no_fields())->Ok_0);
    }
}

/// An entry whose key is no symbol says nothing: key and value are passed over,
/// each by its kind.
pub proof fn other_keys_say_nothing(buf: Seq<u8>, pos: nat, fields: RouteFields)
    requires
        u32_at(buf, pos) is Ok,
        u32_at(buf, pos)->Ok_0.0 != 15,
    ensures
        ({
            let key = behind_value(buf, pos);
            &&& key matches Err(e) ==> field_at(buf, pos, fields) == Err::<
                (RouteFields, nat),
                XdrError,
            >(e)
            &&& key matches Ok(p) ==> {
                &&& behind_value(buf, p) matches Ok(q) ==> field_at(buf, pos, fields) == Ok::<
                    (RouteFields, nat),
                    XdrError,
                >((fields, q))
                &&& behind_value(buf, p) matches Err(e) ==> field_at(buf, pos, fields) == Err::<
                    (RouteFields, nat),
                    XdrError,
                >(e)
            }
        }),
{
    reveal_strlit("address");
    reveal_strlit("updated_by");
    reveal_strlit("name");
    reveal_strlit("paused");
    assert("address"@.len() == 7 && "updated_by"@.len() == 10 && "name"@.len() == 4
        && "paused"@.len() == 6);
}

/// Entries are read one after the other, as many as the map says, each with what
/// those before it said, and the first that cannot be read is the error. What
/// they say in the end is a route where they gave it an address.
pub proof fn how_maps_are_read(buf: Seq<u8>, pos: nat, n: nat, fields: RouteFields)
    requires
        u32_at(buf, 0) is Ok,
    ensures
        fields_at(buf, pos, 0, fields) == Ok::<RouteFields, XdrError>(fields),
        field_at(buf, pos, fields) matches Ok((next, p)) ==> fields_at(buf, pos, n + 1, fields)
            == fields_at(buf, p, n, next),
        field_at(buf, pos, fields) matches Err(e) ==> fields_at(buf, pos, n + 1, fields) == Err::<
            RouteFields,
            XdrError,
        >(e),
        u32_at(buf, 0)->Ok_0.0 == 17 && u32_at(buf, 4) is Ok && u32_at(buf, 4)->Ok_0.0 != 0
            && u32_at(buf, 8) is Ok ==> {
            let read = fields_at(
                buf,
                12,
                u32_at(buf, 8)->Ok_0.0 as nat,
                (RouteFields {
                    address: Seq::empty(),
                    name: Seq::empty(),
                    paused: false,
                    updated_by: Seq::empty(),
                }),
            );
            &&& read matches Err(e) ==> route_entry(buf) == Err::<Option<RouteFields>, XdrError>(e)
            &&& read is Ok && read->Ok_0.address.len() == 0 ==> route_entry(buf) == Ok::<
                Option<RouteFields>,
                XdrError,
            >(None)
            &&& read is Ok && read->Ok_0.address.len() > 0 ==> route_entry(buf) == Ok::<
                Option<RouteFields>,
                XdrError,
            >(Some(read->Ok_0))
        },
{
}

} // verus!
