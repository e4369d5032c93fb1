//! What holds of the contract values that JSON stands for.

use vstd::prelude::*;
use vstd::utf8::encode_utf8;

use crate::decode::json_to_scval::{
    account_key, contract_id, convert_result, converted, converted_elements, converted_entries,
    converted_members, entries_result, error_code, executable_value, host_error, is_entry,
    is_entry_list, large_integer, marked_error, marked_instance, marked_nonce, string_value,
    text_value, ConvertError, ConvertErrorModel, MAX_LENGTH, MAX_SCVAL_DEPTH,
};
use crate::decode::number::{signed_integer, unsigned_integer};
use crate::decode::scval::{
    integer_value, map_entry_models, AddressModel, ExecutableModel, ScError, ScErrorCode,
    ScMapEntry, ScVal, ScValModel,
};
use crate::hex_text::{hex_bytes, hex_is_read_back, hex_of, is_hex};
use crate::json::{
    has_key, integer_of, position, position_is_of_the_key, JsonModel, NumberModel,
};

verus! {

/// An integer keeps its value, whatever its size.
pub proof fn integers_keep_their_value(number: NumberModel, depth: nat)
    requires
        depth <= MAX_SCVAL_DEPTH,
        integer_of(number) is Some,
    ensures
        converted(JsonModel::Number(number), depth) matches Ok(value) && integer_value(value)
            == integer_of(number),
{
}

/// An integer of up to 128 bits that is written as text keeps its value in the two
/// halves.
pub proof fn large_integers_keep_their_value(text: Seq<char>)
    requires
        large_integer(text) is Some,
    ensures
        integer_value(large_integer(text)->0) == signed_integer(text),
{
}

/// Bytes that are written in hexadecimal behind their prefix are read back.
pub proof fn bytes_are_read_back(bytes: Seq<u8>)
    requires
        bytes.len() <= MAX_LENGTH,
    ensures
        string_value("0x"@ + hex_of(bytes)) == Ok::<ScValModel, ConvertErrorModel>(
            ScValModel::Bytes(bytes),
        ),
{
    let text = "0x"@ + hex_of(bytes);
    reveal_strlit("0x");
    reveal_strlit("LedgerKeyContractInstance");
    assert(text[0] != "LedgerKeyContractInstance"@[0]);
    assert("0x"@ =~= text.subrange(0, 2));
    assert(text.skip(2) =~= hex_of(bytes));
    hex_is_read_back(bytes);
}

/// JSON that says it is truncated stands for no value.
pub proof fn truncated_json_is_refused(members: Seq<(Seq<char>, JsonModel)>, depth: nat)
    requires
        depth <= MAX_SCVAL_DEPTH,
        has_key(members, "__truncated__"@),
    ensures
        converted(JsonModel::Object(members), depth) == Err::<ScValModel, ConvertErrorModel>(
            ConvertErrorModel::Truncated,
        ),
{
}

/// A JSON object that is one entry of a map written out as its entries.
pub open spec fn entry_object(key: JsonModel, value: JsonModel) -> JsonModel {
    JsonModel::Object(seq![("key"@, key), ("value"@, value)])
}

/// A map written out as its entries is read back entry for entry, in order, also where
/// two keys would be the same text.
pub proof fn entry_list_is_read_back(
    entries: Seq<(JsonModel, JsonModel)>,
    values: Seq<(ScValModel, ScValModel)>,
    depth: nat,
)
    requires
        depth < MAX_SCVAL_DEPTH,
        0 < entries.len() <= MAX_LENGTH,
        values.len() == entries.len(),
        forall|i: int|
            #![trigger entries[i]]
            0 <= i < entries.len() ==> converted(entries[i].0, depth + 1) == Ok::<
                ScValModel,
                ConvertErrorModel,
            >(values[i].0) && converted(entries[i].1, depth + 1) == Ok::<
                ScValModel,
                ConvertErrorModel,
            >(values[i].1),
    ensures
        converted(
            JsonModel::Array(
                Seq::new(entries.len(), |i: int| entry_object(entries[i].0, entries[i].1)),
            ),
            depth,
        ) == Ok::<ScValModel, ConvertErrorModel>(ScValModel::Mapping(Some(values))),
{
    let elements = Seq::new(entries.len(), |i: int| entry_object(entries[i].0, entries[i].1));
    assert forall|i: int| 0 <= i < elements.len() implies is_entry(#[trigger] elements[i]) by {
        entry_object_members(entries[i].0, entries[i].1);
    }
    first_entries_are_read_back(entries, values, entries.len(), depth + 1);
    assert(values.take(entries.len() as int) =~= values);
}

/// The members of an entry are found under their names.
proof fn entry_object_members(key: JsonModel, value: JsonModel)
    ensures
        is_entry(entry_object(key, value)),
        position(entry_object(key, value)->Object_0, "key"@) == 0,
        position(entry_object(key, value)->Object_0, "value"@) == 1,
{
    let members = entry_object(key, value)->Object_0;
    reveal_strlit("key");
    reveal_strlit("value");
    reveal_with_fuel(position, 2);
    assert("key"@.len() != "value"@.len());
}

/// The same for the first `count` entries.
proof fn first_entries_are_read_back(
    entries: Seq<(JsonModel, JsonModel)>,
    values: Seq<(ScValModel, ScValModel)>,
    count: nat,
    depth: nat,
)
    requires
        count <= entries.len(),
        values.len() == entries.len(),
        forall|i: int|
            #![trigger entries[i]]
            0 <= i < entries.len() ==> converted(entries[i].0, depth) == Ok::<
                ScValModel,
                ConvertErrorModel,
            >(values[i].0) && converted(entries[i].1, depth) == Ok::<
                ScValModel,
                ConvertErrorModel,
            >(values[i].1),
    ensures
        converted_entries(
            Seq::new(entries.len(), |i: int| entry_object(entries[i].0, entries[i].1)),
            count,
            depth,
        ) == Ok::<Seq<(ScValModel, ScValModel)>, ConvertErrorModel>(values.take(count as int)),
    decreases count,
{
    if count == 0 {
        assert(values.take(0) =~= Seq::empty());
    } else {
        let last = count - 1;
        first_entries_are_read_back(entries, values, last as nat, depth);
        entry_object_members(entries[last].0, entries[last].1);
        assert(values.take(count as int) =~= values.take(last).push(values[last]));
    }
}

/// Whether the values inside a value are nested at most `levels` deep.
pub open spec fn nested_within(value: ScValModel, levels: int) -> bool
    decreases value,
{
    levels >= 0 && match value {
        ScValModel::Vec(Some(elements)) => forall|i: int|
            0 <= i < elements.len() ==> nested_within(#[trigger] elements[i], levels - 1),
        ScValModel::Mapping(Some(entries)) => forall|i: int|
            #![trigger entries[i]]
            0 <= i < entries.len() ==> nested_within(entries[i].0, levels - 1) && nested_within(
                entries[i].1,
                levels - 1,
            ),
        ScValModel::ContractInstance { storage: Some(entries), .. } => forall|i: int|
            #![trigger entries[i]]
            0 <= i < entries.len() ==> nested_within(entries[i].0, levels - 1) && nested_within(
                entries[i].1,
                levels - 1,
            ),
        _ => true,
    }
}

/// No value comes out that is nested deeper than the limit.
pub proof fn nesting_is_bounded(value: JsonModel, depth: nat)
    ensures
        converted(value, depth) matches Ok(result) ==> nested_within(
            result,
            MAX_SCVAL_DEPTH - depth,
        ),
    decreases value, 0nat,
{
    if depth <= MAX_SCVAL_DEPTH {
        match value {
            JsonModel::Array(elements) => {
                elements_nesting_is_bounded(elements, elements.len(), depth + 1);
                entries_nesting_is_bounded(elements, elements.len(), depth + 1);
            },
            JsonModel::Object(members) => {
                members_nesting_is_bounded(members, members.len(), depth + 1);
                instance_nesting_is_bounded(members, depth);
            },
            _ => {},
        }
    }
}

/// The same for the elements of an array.
proof fn elements_nesting_is_bounded(elements: Seq<JsonModel>, count: nat, depth: nat)
    requires
        count <= elements.len(),
    ensures
        converted_elements(elements, count, depth) matches Ok(values) ==> forall|i: int|
            0 <= i < values.len() ==> nested_within(#[trigger] values[i], MAX_SCVAL_DEPTH - depth),
    decreases elements, count,
{
    if count > 0 {
        elements_nesting_is_bounded(elements, (count - 1) as nat, depth);
        nesting_is_bounded(elements[count - 1], depth);
    }
}

/// The same for the entries of a map that is written out as its entries.
proof fn entries_nesting_is_bounded(elements: Seq<JsonModel>, count: nat, depth: nat)
    requires
        count <= elements.len(),
    ensures
        converted_entries(elements, count, depth) matches Ok(entries) ==> forall|i: int|
            #![trigger entries[i]]
            0 <= i < entries.len() ==> nested_within(entries[i].0, MAX_SCVAL_DEPTH - depth)
                && nested_within(entries[i].1, MAX_SCVAL_DEPTH - depth),
    decreases elements, count,
{
    if count > 0 {
        entries_nesting_is_bounded(elements, (count - 1) as nat, depth);
        let element = elements[count - 1];
        if let JsonModel::Object(members) = element {
            if has_key(members, "key"@) && has_key(members, "value"@) {
                let key_at = position(members, "key"@);
                let value_at = position(members, "value"@);
                assert(decreases_to!(elements => element));
                assert(decreases_to!(element => element->Object_0));
                assert(decreases_to!(members => members[key_at]));
                assert(decreases_to!(members[key_at] => members[key_at].1));
                assert(decreases_to!(members => members[value_at]));
                assert(decreases_to!(members[value_at] => members[value_at].1));
                nesting_is_bounded(members[key_at].1, depth);
                nesting_is_bounded(members[value_at].1, depth);
            }
        }
    }
}

/// The same for the members of an object.
proof fn members_nesting_is_bounded(
    members: Seq<(Seq<char>, JsonModel)>,
    count: nat,
    depth: nat,
)
    requires
        count <= members.len(),
    ensures
        converted_members(members, count, depth) matches Ok(entries) ==> forall|i: int|
            #![trigger entries[i]]
            0 <= i < entries.len() ==> nested_within(entries[i].0, MAX_SCVAL_DEPTH - depth)
                && nested_within(entries[i].1, MAX_SCVAL_DEPTH - depth),
    decreases members, count,
{
    if count > 0 {
        members_nesting_is_bounded(members, (count - 1) as nat, depth);
        assert(decreases_to!(members => members[count - 1]));
        assert(decreases_to!(members[count - 1] => members[count - 1].1));
        nesting_is_bounded(members[count - 1].1, depth);
    }
}

/// The same for a contract instance.
proof fn instance_nesting_is_bounded(members: Seq<(Seq<char>, JsonModel)>, depth: nat)
    requires
        depth <= MAX_SCVAL_DEPTH,
    ensures
        marked_instance(members, depth) matches Some(instance) ==> nested_within(
            instance,
            MAX_SCVAL_DEPTH - depth,
        ),
    decreases members, 0nat,
{
    if has_key(members, "storage"@) {
        let at = position(members, "storage"@);
        assert(decreases_to!(members => members[at]));
        assert(decreases_to!(members[at] => members[at].1));
        nesting_is_bounded(members[at].1, depth + 1);
        if let Ok(ScValModel::Mapping(Some(entries))) = converted(members[at].1, depth + 1) {
            assert forall|i: int| #![trigger entries[i]] 0 <= i < entries.len() implies
                nested_within(entries[i].0, MAX_SCVAL_DEPTH - depth - 1) && nested_within(
                entries[i].1,
                MAX_SCVAL_DEPTH - depth - 1,
            ) by {
                nesting_may_be_less(entries[i].0, MAX_SCVAL_DEPTH - depth - 2);
                nesting_may_be_less(entries[i].1, MAX_SCVAL_DEPTH - depth - 2);
            }
        }
    }
}

/// What is nested within some levels is nested within one more.
proof fn nesting_may_be_less(value: ScValModel, levels: int)
    requires
        nested_within(value, levels),
    ensures
        nested_within(value, levels + 1),
    decreases value,
{
    match value {
        ScValModel::Vec(Some(elements)) => {
            assert forall|i: int| 0 <= i < elements.len() implies nested_within(
                #[trigger] elements[i],
                levels,
            ) by {
                nesting_may_be_less(elements[i], levels - 1);
            }
        },
        ScValModel::Mapping(Some(entries)) => {
            assert forall|i: int| #![trigger entries[i]] 0 <= i < entries.len() implies
                nested_within(entries[i].0, levels) && nested_within(entries[i].1, levels) by {
                nesting_may_be_less(entries[i].0, levels - 1);
                nesting_may_be_less(entries[i].1, levels - 1);
            }
        },
        ScValModel::ContractInstance { storage: Some(entries), .. } => {
            assert forall|i: int| #![trigger entries[i]] 0 <= i < entries.len() implies
                nested_within(entries[i].0, levels) && nested_within(entries[i].1, levels) by {
                nesting_may_be_less(entries[i].0, levels - 1);
                nesting_may_be_less(entries[i].1, levels - 1);
            }
        },
        _ => {},
    }
}

/// Whether one of the members is called `key`.
pub open spec fn mentions(members: Seq<(Seq<char>, JsonModel)>, key: Seq<char>) -> bool {
    exists|i: int| 0 <= i < members.len() && (#[trigger] members[i]).0 == key
}

/// Whether an object has none of the forms in which a value is marked.
pub open spec fn is_plain_object(members: Seq<(Seq<char>, JsonModel)>) -> bool {
    &&& !mentions(members, "__truncated__"@)
    &&& !(members.len() == 2 && mentions(members, "type"@) && mentions(members, "code"@))
    &&& !(members.len() == 1 && mentions(members, "nonce"@))
    &&& !(mentions(members, "executable"@) && mentions(members, "storage"@))
}

/// Whether a value is an object of a member `key` and a member `value`.
pub open spec fn pairs_key_with_value(element: JsonModel) -> bool {
    match element {
        JsonModel::Object(members) => members.len() == 2 && mentions(members, "key"@) && mentions(
            members,
            "value"@,
        ),
        _ => false,
    }
}

/// An object has a key exactly when a member is called so.
proof fn mentioned_keys(members: Seq<(Seq<char>, JsonModel)>, key: Seq<char>)
    ensures
        has_key(members, key) <==> mentions(members, key),
{
    position_is_of_the_key(members, key);
}

/// What the members stand for, one for one, is what converting them gives.
proof fn members_one_for_one(
    members: Seq<(Seq<char>, JsonModel)>,
    values: Seq<(ScValModel, ScValModel)>,
    count: nat,
    depth: nat,
)
    requires
        count <= members.len(),
        values.len() == members.len(),
        forall|i: int|
            #![trigger members[i]]
            0 <= i < count ==> string_value(members[i].0) == Ok::<ScValModel, ConvertErrorModel>(
                values[i].0,
            ) && converted(members[i].1, depth) == Ok::<ScValModel, ConvertErrorModel>(
                values[i].1,
            ),
    ensures
        converted_members(members, count, depth) == Ok::<
            Seq<(ScValModel, ScValModel)>,
            ConvertErrorModel,
        >(values.take(count as int)),
    decreases count,
{
    if count == 0 {
        assert(values.take(0) =~= Seq::empty());
    } else {
        let last = count - 1;
        members_one_for_one(members, values, last as nat, depth);
        assert(members[last].0 == members[last].0);
        assert(values.take(count as int) =~= values.take(last).push(values[last]));
    }
}

/// An object that is marked as nothing gives a map with one entry for each member, in
/// order: the key as a text, and what the member's value stands for.
pub proof fn object_is_read_back(
    members: Seq<(Seq<char>, JsonModel)>,
    values: Seq<(ScValModel, ScValModel)>,
    depth: nat,
)
    requires
        depth <= MAX_SCVAL_DEPTH,
        members.len() <= MAX_LENGTH,
        values.len() == members.len(),
        is_plain_object(members),
        forall|i: int|
            #![trigger members[i]]
            0 <= i < members.len() ==> string_value(members[i].0) == Ok::<
                ScValModel,
                ConvertErrorModel,
            >(values[i].0) && converted(members[i].1, depth + 1) == Ok::<
                ScValModel,
                ConvertErrorModel,
            >(values[i].1),
    ensures
        converted(JsonModel::Object(members), depth) == Ok::<ScValModel, ConvertErrorModel>(
            ScValModel::Mapping(Some(values)),
        ),
{
    mentioned_keys(members, "__truncated__"@);
    mentioned_keys(members, "type"@);
    mentioned_keys(members, "code"@);
    mentioned_keys(members, "nonce"@);
    mentioned_keys(members, "executable"@);
    mentioned_keys(members, "storage"@);
    members_one_for_one(members, values, members.len(), depth + 1);
    assert(values.take(members.len() as int) =~= values);
}

/// An object that looks like an error, a nonce or an instance and is none gives a map
/// like any other.
pub proof fn unmarked_object_is_read_back(
    members: Seq<(Seq<char>, JsonModel)>,
    values: Seq<(ScValModel, ScValModel)>,
    depth: nat,
)
    requires
        depth <= MAX_SCVAL_DEPTH,
        members.len() <= MAX_LENGTH,
        values.len() == members.len(),
        !mentions(members, "__truncated__"@),
        marked_error(members) is None,
        marked_nonce(members) is None,
        marked_instance(members, depth) is None,
        forall|i: int|
            #![trigger members[i]]
            0 <= i < members.len() ==> string_value(members[i].0) == Ok::<
                ScValModel,
                ConvertErrorModel,
            >(values[i].0) && converted(members[i].1, depth + 1) == Ok::<
                ScValModel,
                ConvertErrorModel,
            >(values[i].1),
    ensures
        converted(JsonModel::Object(members), depth) == Ok::<ScValModel, ConvertErrorModel>(
            ScValModel::Mapping(Some(values)),
        ),
{
    mentioned_keys(members, "__truncated__"@);
    members_one_for_one(members, values, members.len(), depth + 1);
    assert(values.take(members.len() as int) =~= values);
}

/// What the elements stand for, one for one, is what converting them gives.
proof fn elements_one_for_one(
    elements: Seq<JsonModel>,
    values: Seq<ScValModel>,
    count: nat,
    depth: nat,
)
    requires
        count <= elements.len(),
        values.len() == elements.len(),
        forall|i: int|
            0 <= i < count ==> converted(#[trigger] elements[i], depth) == Ok::<
                ScValModel,
                ConvertErrorModel,
            >(values[i]),
    ensures
        converted_elements(elements, count, depth) == Ok::<Seq<ScValModel>, ConvertErrorModel>(
            values.take(count as int),
        ),
    decreases count,
{
    if count == 0 {
        assert(values.take(0) =~= Seq::empty());
    } else {
        let last = count - 1;
        elements_one_for_one(elements, values, last as nat, depth);
        assert(converted(elements[last], depth) is Ok);
        assert(values.take(count as int) =~= values.take(last).push(values[last]));
    }
}

/// An array gives a vector with one value for each element, in order, unless every
/// element pairs a key with a value.
pub proof fn array_is_read_back(elements: Seq<JsonModel>, values: Seq<ScValModel>, depth: nat)
    requires
        depth <= MAX_SCVAL_DEPTH,
        elements.len() <= MAX_LENGTH,
        values.len() == elements.len(),
        elements.len() == 0 || exists|i: int|
            0 <= i < elements.len() && !pairs_key_with_value(#[trigger] elements[i]),
        forall|i: int|
            0 <= i < elements.len() ==> converted(#[trigger] elements[i], depth + 1) == Ok::<
                ScValModel,
                ConvertErrorModel,
            >(values[i]),
    ensures
        converted(JsonModel::Array(elements), depth) == Ok::<ScValModel, ConvertErrorModel>(
            ScValModel::Vec(Some(values)),
        ),
{
    if elements.len() > 0 {
        let i = choose|i: int|
            0 <= i < elements.len() && !pairs_key_with_value(#[trigger] elements[i]);
        entries_pair_key_with_value(elements[i]);
        assert(!is_entry(elements[i]));
    }
    elements_one_for_one(elements, values, elements.len(), depth + 1);
    assert(values.take(elements.len() as int) =~= values);
}

/// An entry is an object of a member `key` and a member `value`.
proof fn entries_pair_key_with_value(element: JsonModel)
    ensures
        is_entry(element) <==> pairs_key_with_value(element),
{
    if let JsonModel::Object(members) = element {
        mentioned_keys(members, "key"@);
        mentioned_keys(members, "value"@);
    }
}

/// The first element that stands for nothing decides about an array.
pub proof fn first_failing_element_decides(elements: Seq<JsonModel>, at: int, depth: nat)
    requires
        depth <= MAX_SCVAL_DEPTH,
        0 <= at < elements.len(),
        exists|i: int| 0 <= i < elements.len() && !pairs_key_with_value(#[trigger] elements[i]),
        converted(elements[at], depth + 1) is Err,
        forall|i: int| 0 <= i < at ==> converted(#[trigger] elements[i], depth + 1) is Ok,
    ensures
        converted(JsonModel::Array(elements), depth) == converted(elements[at], depth + 1),
{
    let i = choose|i: int| 0 <= i < elements.len() && !pairs_key_with_value(#[trigger] elements[i]);
    entries_pair_key_with_value(elements[i]);
    assert(!is_entry(elements[i]));
    let values = Seq::new(elements.len(), |i: int| converted(elements[i], depth + 1)->Ok_0);
    elements_one_for_one(elements, values, at as nat, depth + 1);
    failing_element_decides(elements, at, elements.len(), depth + 1);
}

/// The same for the first `count` elements.
proof fn failing_element_decides(elements: Seq<JsonModel>, at: int, count: nat, depth: nat)
    requires
        0 <= at < count <= elements.len(),
        converted(elements[at], depth) is Err,
        converted_elements(elements, at as nat, depth) is Ok,
    ensures
        converted_elements(elements, count, depth) == Err::<Seq<ScValModel>, ConvertErrorModel>(
            converted(elements[at], depth)->Err_0,
        ),
    decreases count,
{
    if at < count - 1 {
        failing_element_decides(elements, at, (count - 1) as nat, depth);
    }
}

/// The first member whose key or value stands for nothing decides about an object, its
/// key before its value.
pub proof fn first_failing_member_decides(
    members: Seq<(Seq<char>, JsonModel)>,
    at: int,
    depth: nat,
)
    requires
        depth <= MAX_SCVAL_DEPTH,
        0 <= at < members.len(),
        is_plain_object(members),
        string_value(members[at].0) is Err || converted(members[at].1, depth + 1) is Err,
        forall|i: int|
            #![trigger members[i]]
            0 <= i < at ==> string_value(members[i].0) is Ok && converted(members[i].1, depth + 1)
                is Ok,
    ensures
        converted(JsonModel::Object(members), depth) == if string_value(members[at].0) is Err {
            string_value(members[at].0)
        } else {
            converted(members[at].1, depth + 1)
        },
{
    mentioned_keys(members, "__truncated__"@);
    mentioned_keys(members, "type"@);
    mentioned_keys(members, "code"@);
    mentioned_keys(members, "nonce"@);
    mentioned_keys(members, "executable"@);
    mentioned_keys(members, "storage"@);
    let values = Seq::new(
        members.len(),
        |i: int| (string_value(members[i].0)->Ok_0, converted(members[i].1, depth + 1)->Ok_0),
    );
    members_one_for_one(members, values, at as nat, depth + 1);
    failing_member_decides(members, at, members.len(), depth + 1);
}

/// The same for the first `count` members.
proof fn failing_member_decides(
    members: Seq<(Seq<char>, JsonModel)>,
    at: int,
    count: nat,
    depth: nat,
)
    requires
        0 <= at < count <= members.len(),
        string_value(members[at].0) is Err || converted(members[at].1, depth) is Err,
        converted_members(members, at as nat, depth) is Ok,
    ensures
        converted_members(members, count, depth) == Err::<
            Seq<(ScValModel, ScValModel)>,
            ConvertErrorModel,
        >(
            if string_value(members[at].0) is Err {
                string_value(members[at].0)->Err_0
            } else {
                converted(members[at].1, depth)->Err_0
            },
        ),
    decreases count,
{
    if at < count - 1 {
        failing_member_decides(members, at, (count - 1) as nat, depth);
    }
}

/// Whether an object has the member `key` with the value `k`, and `value` with `v`, and no
/// other, in either order.
pub open spec fn is_entry_of(element: JsonModel, k: JsonModel, v: JsonModel) -> bool {
    ||| element == JsonModel::Object(seq![("key"@, k), ("value"@, v)])
    ||| element == JsonModel::Object(seq![("value"@, v), ("key"@, k)])
}

/// The members of an entry are found under their names, in either order.
proof fn entry_members_in_either_order(element: JsonModel, k: JsonModel, v: JsonModel)
    requires
        is_entry_of(element, k, v),
    ensures
        is_entry(element),
        element->Object_0[position(element->Object_0, "key"@)].1 == k,
        element->Object_0[position(element->Object_0, "value"@)].1 == v,
{
    reveal_strlit("key");
    reveal_strlit("value");
    assert("key"@.len() != "value"@.len());
    reveal_with_fuel(position, 2);
}

/// An array in which every element pairs a key with a value, in either order, gives a map
/// with these entries, in order.
pub proof fn entries_in_either_order_are_read_back(
    elements: Seq<JsonModel>,
    entries: Seq<(JsonModel, JsonModel)>,
    values: Seq<(ScValModel, ScValModel)>,
    depth: nat,
)
    requires
        depth <= MAX_SCVAL_DEPTH,
        0 < elements.len() <= MAX_LENGTH,
        entries.len() == elements.len(),
        values.len() == elements.len(),
        forall|i: int|
            #![trigger elements[i]]
            0 <= i < elements.len() ==> is_entry_of(elements[i], entries[i].0, entries[i].1)
                && converted(entries[i].0, depth + 1) == Ok::<ScValModel, ConvertErrorModel>(
                values[i].0,
            ) && converted(entries[i].1, depth + 1) == Ok::<ScValModel, ConvertErrorModel>(
                values[i].1,
            ),
    ensures
        converted(JsonModel::Array(elements), depth) == Ok::<ScValModel, ConvertErrorModel>(
            ScValModel::Mapping(Some(values)),
        ),
{
    assert forall|i: int| 0 <= i < elements.len() implies is_entry(#[trigger] elements[i]) by {
        entry_members_in_either_order(elements[i], entries[i].0, entries[i].1);
    }
    assert(is_entry_list(elements));
    entries_one_for_one(elements, entries, values, elements.len(), depth + 1);
    assert(values.take(elements.len() as int) =~= values);
}

/// The same for the first `count` elements.
proof fn entries_one_for_one(
    elements: Seq<JsonModel>,
    entries: Seq<(JsonModel, JsonModel)>,
    values: Seq<(ScValModel, ScValModel)>,
    count: nat,
    depth: nat,
)
    requires
        count <= elements.len(),
        entries.len() == elements.len(),
        values.len() == elements.len(),
        forall|i: int|
            #![trigger elements[i]]
            0 <= i < count ==> is_entry_of(elements[i], entries[i].0, entries[i].1) && converted(
                entries[i].0,
                depth,
            ) == Ok::<ScValModel, ConvertErrorModel>(values[i].0) && converted(
                entries[i].1,
                depth,
            ) == Ok::<ScValModel, ConvertErrorModel>(values[i].1),
    ensures
        converted_entries(elements, count, depth) == Ok::<
            Seq<(ScValModel, ScValModel)>,
            ConvertErrorModel,
        >(values.take(count as int)),
    decreases count,
{
    if count == 0 {
        assert(values.take(0) =~= Seq::empty());
    } else {
        let last = count - 1;
        entries_one_for_one(elements, entries, values, last as nat, depth);
        assert(is_entry_of(elements[last], entries[last].0, entries[last].1));
        entry_members_in_either_order(elements[last], entries[last].0, entries[last].1);
        assert(values.take(count as int) =~= values.take(last).push(values[last]));
    }
}

/// The first key or value that stands for nothing decides about an array of entries, the
/// key before the value.
pub proof fn first_failing_entry_decides(
    elements: Seq<JsonModel>,
    entries: Seq<(JsonModel, JsonModel)>,
    at: int,
    depth: nat,
)
    requires
        depth <= MAX_SCVAL_DEPTH,
        0 <= at < elements.len(),
        entries.len() == elements.len(),
        forall|i: int|
            #![trigger elements[i]]
            0 <= i < elements.len() ==> is_entry_of(elements[i], entries[i].0, entries[i].1),
        forall|i: int|
            #![trigger elements[i]]
            0 <= i < at ==> converted(entries[i].0, depth + 1) is Ok && converted(
                entries[i].1,
                depth + 1,
            ) is Ok,
        converted(entries[at].0, depth + 1) is Err || converted(entries[at].1, depth + 1) is Err,
    ensures
        converted(JsonModel::Array(elements), depth) == if converted(entries[at].0, depth + 1)
            is Err {
            converted(entries[at].0, depth + 1)
        } else {
            converted(entries[at].1, depth + 1)
        },
{
    assert forall|i: int| 0 <= i < elements.len() implies is_entry(#[trigger] elements[i]) by {
        entry_members_in_either_order(elements[i], entries[i].0, entries[i].1);
    }
    assert(is_entry_list(elements));
    let values = Seq::new(
        elements.len(),
        |i: int|
            (converted(entries[i].0, depth + 1)->Ok_0, converted(entries[i].1, depth + 1)->Ok_0),
    );
    entries_one_for_one(elements, entries, values, at as nat, depth + 1);
    assert(is_entry_of(elements[at], entries[at].0, entries[at].1));
    entry_members_in_either_order(elements[at], entries[at].0, entries[at].1);
    failing_entry_decides(elements, entries, at, elements.len(), depth + 1);
}

/// The same for the first `count` elements.
proof fn failing_entry_decides(
    elements: Seq<JsonModel>,
    entries: Seq<(JsonModel, JsonModel)>,
    at: int,
    count: nat,
    depth: nat,
)
    requires
        0 <= at < count <= elements.len(),
        entries.len() == elements.len(),
        is_entry(elements[at]),
        elements[at]->Object_0[position(elements[at]->Object_0, "key"@)].1 == entries[at].0,
        elements[at]->Object_0[position(elements[at]->Object_0, "value"@)].1 == entries[at].1,
        converted(entries[at].0, depth) is Err || converted(entries[at].1, depth) is Err,
        converted_entries(elements, at as nat, depth) is Ok,
    ensures
        converted_entries(elements, count, depth) == Err::<
            Seq<(ScValModel, ScValModel)>,
            ConvertErrorModel,
        >(
            if converted(entries[at].0, depth) is Err {
                converted(entries[at].0, depth)->Err_0
            } else {
                converted(entries[at].1, depth)->Err_0
            },
        ),
    decreases count,
{
    if at < count - 1 {
        failing_entry_decides(elements, entries, at, (count - 1) as nat, depth);
    }
}

/// Null is the void value, true and false are themselves, and beyond the limit of nesting
/// nothing is converted.
pub proof fn simple_values_are_read_back(value: JsonModel, b: bool, depth: nat)
    ensures
        depth > MAX_SCVAL_DEPTH ==> converted(value, depth) == Err::<ScValModel, ConvertErrorModel>(
            ConvertErrorModel::DepthExceeded,
        ),
        depth <= MAX_SCVAL_DEPTH ==> converted(JsonModel::Null, depth) == Ok::<
            ScValModel,
            ConvertErrorModel,
        >(ScValModel::Void),
        depth <= MAX_SCVAL_DEPTH ==> converted(JsonModel::Bool(b), depth) == Ok::<
            ScValModel,
            ConvertErrorModel,
        >(ScValModel::Bool(b)),
        MAX_SCVAL_DEPTH == 100,
        MAX_LENGTH == 0xffff_ffff,
{
}

/// A number that is an integer has the type that its size asks for; any other number is
/// refused as it is written.
pub proof fn numbers_have_the_type_of_their_size(n: int, text: Seq<char>, depth: nat)
    requires
        depth <= MAX_SCVAL_DEPTH,
    ensures
        0 <= n < 0x1_0000_0000 ==> converted(
            JsonModel::Number(NumberModel::PosInt(n as u64)),
            depth,
        ) == Ok::<ScValModel, ConvertErrorModel>(ScValModel::U32(n as u32)),
        0x1_0000_0000 <= n < 0x1_0000_0000_0000_0000 ==> converted(
            JsonModel::Number(NumberModel::PosInt(n as u64)),
            depth,
        ) == Ok::<ScValModel, ConvertErrorModel>(ScValModel::U64(n as u64)),
        -0x8000_0000 <= n < 0 ==> converted(
            JsonModel::Number(NumberModel::NegInt(n as i64)),
            depth,
        ) == Ok::<ScValModel, ConvertErrorModel>(ScValModel::I32(n as i32)),
        -0x8000_0000_0000_0000 <= n < -0x8000_0000 ==> converted(
            JsonModel::Number(NumberModel::NegInt(n as i64)),
            depth,
        ) == Ok::<ScValModel, ConvertErrorModel>(ScValModel::I64(n as i64)),
        converted(JsonModel::Number(NumberModel::Float(text)), depth) == Err::<
            ScValModel,
            ConvertErrorModel,
        >(ConvertErrorModel::UnsupportedNumber(text)),
{
}

/// Whether a text is hexadecimal digits behind their prefix.
pub open spec fn is_prefixed_hex(text: Seq<char>) -> bool {
    text.len() >= 2 && text[0] == '0' && text[1] == 'x' && is_hex(text.skip(2))
}

/// Whether a text has the length of an address and begins with the given letter.
pub open spec fn has_form_of_address(text: Seq<char>, letter: char) -> bool {
    text.len() > 0 && text[0] == letter && encode_utf8(text).len() == 56
}

/// The prefix of hexadecimal text is its first two characters.
proof fn hex_prefix(text: Seq<char>)
    ensures
        "0x"@.is_prefix_of(text) <==> text.len() >= 2 && text[0] == '0' && text[1] == 'x',
{
    reveal_strlit("0x");
    if text.len() >= 2 && text[0] == '0' && text[1] == 'x' {
        assert("0x"@ =~= text.subrange(0, 2));
    }
    if "0x"@.is_prefix_of(text) {
        assert("0x"@[0] == text[0]);
        assert("0x"@[1] == text[1]);
    }
}

/// Hexadecimal text behind its prefix stands for its bytes, in upper and in lower case.
pub proof fn prefixed_hex_stands_for_its_bytes(text: Seq<char>)
    requires
        is_prefixed_hex(text),
    ensures
        string_value(text) == if text.len() / 2 - 1 <= 0xffff_ffff {
            Ok::<ScValModel, ConvertErrorModel>(ScValModel::Bytes(hex_bytes(text.skip(2))))
        } else {
            Err(ConvertErrorModel::BytesTooLarge)
        },
{
    hex_prefix(text);
    reveal_strlit("LedgerKeyContractInstance");
    assert(text[0] != "LedgerKeyContractInstance"@[0]);
}

/// The address of an account stands for its key, and that of a contract for its
/// identifier.
pub proof fn addresses_stand_for_what_they_hold(text: Seq<char>)
    ensures
        has_form_of_address(text, 'G') && account_key(text) is Some ==> string_value(text) == Ok::<
            ScValModel,
            ConvertErrorModel,
        >(ScValModel::Address(AddressModel::Account(account_key(text)->0))),
        has_form_of_address(text, 'C') && contract_id(text) is Some ==> string_value(text) == Ok::<
            ScValModel,
            ConvertErrorModel,
        >(ScValModel::Address(AddressModel::Contract(contract_id(text)->0))),
{
    hex_prefix(text);
    reveal_strlit("LedgerKeyContractInstance");
    if text.len() > 0 {
        assert("LedgerKeyContractInstance"@[0] == 'L');
    }
}

/// Whether a text has none of the forms that stand for something else than themselves.
pub open spec fn is_plain_text(text: Seq<char>) -> bool {
    &&& text != "LedgerKeyContractInstance"@
    &&& !is_prefixed_hex(text)
    &&& !(has_form_of_address(text, 'G') && account_key(text) is Some)
    &&& !(has_form_of_address(text, 'C') && contract_id(text) is Some)
}

/// A text of digits stands for the integer where that needs more than 64 bits: without
/// sign where it is larger than any of 64 bits, with sign where it is out of the range of
/// 64 bits with sign. Any other text stands for itself.
pub proof fn plain_texts_stand_for_integers_or_themselves(text: Seq<char>)
    requires
        is_plain_text(text),
    ensures
        match unsigned_integer(text) {
            Some(n) if n > 0xffff_ffff_ffff_ffff && n <= u128::MAX => string_value(text) matches Ok(
                ScValModel::U128(parts),
            ) && parts.hi * 0x1_0000_0000_0000_0000 + parts.lo == n,
            _ => match signed_integer(text) {
                Some(n) if (0x7fff_ffff_ffff_ffff < n <= i128::MAX) || (i128::MIN <= n
                    < -0x8000_0000_0000_0000) => string_value(text) matches Ok(
                    ScValModel::I128(parts),
                ) && parts.hi * 0x1_0000_0000_0000_0000 + parts.lo == n,
                _ => string_value(text) == if encode_utf8(text).len() <= 0xffff_ffff {
                    Ok::<ScValModel, ConvertErrorModel>(ScValModel::String(encode_utf8(text)))
                } else {
                    Err(ConvertErrorModel::StringTooLong)
                },
            },
        },
{
    hex_prefix(text);
}

/// The name of the key of contract instances stands for that key, and a JSON string for
/// what its text stands for.
pub proof fn strings_stand_for_their_text(text: Seq<char>, depth: nat)
    requires
        depth <= MAX_SCVAL_DEPTH,
    ensures
        string_value("LedgerKeyContractInstance"@) == Ok::<ScValModel, ConvertErrorModel>(
            ScValModel::LedgerKeyContractInstance,
        ),
        converted(JsonModel::String(text), depth) == string_value(text),
{
}

/// Whether an object has two members, one called `a` and one called `b`, with the given
/// values, in either order.
pub open spec fn has_just(
    members: Seq<(Seq<char>, JsonModel)>,
    a: Seq<char>,
    x: JsonModel,
    b: Seq<char>,
    y: JsonModel,
) -> bool {
    members == seq![(a, x), (b, y)] || members == seq![(b, y), (a, x)]
}

/// Two members are found under their names.
proof fn two_members(
    members: Seq<(Seq<char>, JsonModel)>,
    a: Seq<char>,
    x: JsonModel,
    b: Seq<char>,
    y: JsonModel,
)
    requires
        has_just(members, a, x, b, y),
        a != b,
    ensures
        members.len() == 2,
        has_key(members, a),
        has_key(members, b),
        members[position(members, a)].1 == x,
        members[position(members, b)].1 == y,
        forall|other: Seq<char>| other != a && other != b ==> !#[trigger] has_key(members, other),
{
    reveal_with_fuel(position, 2);
    assert forall|other: Seq<char>| other != a && other != b implies !#[trigger] has_key(
        members,
        other,
    ) by {
        position_is_of_the_key(members, other);
    }
}

/// The seven names of codes.
pub proof fn codes_are_told_by_their_names(name: Seq<char>)
    ensures
        error_code("UnexpectedType"@) == Some(ScErrorCode::UnexpectedType),
        error_code("UnexpectedSize"@) == Some(ScErrorCode::UnexpectedSize),
        error_code("MissingValue"@) == Some(ScErrorCode::MissingValue),
        error_code("InternalError"@) == Some(ScErrorCode::InternalError),
        error_code("ExceededLimit"@) == Some(ScErrorCode::ExceededLimit),
        error_code("InvalidAction"@) == Some(ScErrorCode::InvalidAction),
        error_code("InvalidInput"@) == Some(ScErrorCode::InvalidInput),
        name != "UnexpectedType"@ && name != "UnexpectedSize"@ && name != "MissingValue"@ && name
            != "InternalError"@ && name != "ExceededLimit"@ && name != "InvalidAction"@ && name
            != "InvalidInput"@ ==> error_code(name) is None,
{
    reveal_strlit("UnexpectedType");
    reveal_strlit("UnexpectedSize");
    reveal_strlit("MissingValue");
    reveal_strlit("InternalError");
    reveal_strlit("ExceededLimit");
    reveal_strlit("InvalidAction");
    reveal_strlit("InvalidInput");
    assert("UnexpectedSize"@[10] == 'S' && "UnexpectedType"@[10] == 'T');
    assert("InternalError"@[0] == 'I' && "ExceededLimit"@[0] == 'E');
    assert("InvalidAction"@[7] == 'A' && "InternalError"@[7] == 'l');
    assert("InvalidInput"@[0] == 'I' && "MissingValue"@[0] == 'M');
}

/// The nine types of errors whose code has a name.
pub proof fn errors_are_told_by_their_type(kind: Seq<char>, code: ScErrorCode)
    ensures
        host_error("WasmVm"@, code) == Some(ScError::WasmVm(code)),
        host_error("Context"@, code) == Some(ScError::Context(code)),
        host_error("Storage"@, code) == Some(ScError::Storage(code)),
        host_error("Object"@, code) == Some(ScError::Object(code)),
        host_error("Crypto"@, code) == Some(ScError::Crypto(code)),
        host_error("Events"@, code) == Some(ScError::Events(code)),
        host_error("Budget"@, code) == Some(ScError::Budget(code)),
        host_error("Value"@, code) == Some(ScError::Value(code)),
        host_error("Auth"@, code) == Some(ScError::Auth(code)),
        kind != "WasmVm"@ && kind != "Context"@ && kind != "Storage"@ && kind != "Object"@ && kind
            != "Crypto"@ && kind != "Events"@ && kind != "Budget"@ && kind != "Value"@ && kind
            != "Auth"@ ==> host_error(kind, code) is None,
{
    reveal_strlit("WasmVm");
    reveal_strlit("Context");
    reveal_strlit("Storage");
    reveal_strlit("Object");
    reveal_strlit("Crypto");
    reveal_strlit("Events");
    reveal_strlit("Budget");
    reveal_strlit("Value");
    reveal_strlit("Auth");
    assert("WasmVm"@[0] == 'W');
    assert("Context"@[0] == 'C');
    assert("Storage"@[0] == 'S');
    assert("Object"@[0] == 'O');
    assert("Crypto"@[0] == 'C' && "Crypto"@.len() == 6 && "Context"@.len() == 7);
    assert("Events"@[0] == 'E');
    assert("Budget"@[0] == 'B');
    assert("Value"@[0] == 'V');
    assert("Auth"@[0] == 'A');
}

/// An object of a type and a code is the error that they tell, and nothing where they tell
/// none. Of the number of a contract's own error, the low 32 bits count.
pub proof fn error_objects_are_read_back(
    members: Seq<(Seq<char>, JsonModel)>,
    kind: JsonModel,
    code: JsonModel,
    depth: nat,
)
    requires
        depth <= MAX_SCVAL_DEPTH,
        has_just(members, "type"@, kind, "code"@, code),
    ensures
        marked_error(members) == match (kind, code) {
            (
                JsonModel::String(kind),
                JsonModel::Number(NumberModel::PosInt(n)),
            ) if kind == "Contract"@ => Some(
                ScError::Contract((n as int % 0x1_0000_0000) as u32),
            ),
            (JsonModel::String(kind), JsonModel::String(name)) if kind != "Contract"@
                && error_code(name) is Some => host_error(kind, error_code(name)->0),
            _ => None,
        },
        marked_error(members) matches Some(error) ==> converted(JsonModel::Object(members), depth)
            == Ok::<ScValModel, ConvertErrorModel>(ScValModel::Error(error)),
        marked_nonce(members) is None,
        marked_instance(members, depth) is None,
{
    reveal_strlit("type");
    reveal_strlit("code");
    reveal_strlit("__truncated__");
    reveal_strlit("storage");
    assert("type"@[0] == 't' && "code"@[0] == 'c');
    assert("__truncated__"@.len() == 13);
    assert("storage"@.len() == 7);
    two_members(members, "type"@, kind, "code"@, code);
    assert(!has_key(members, "__truncated__"@));
    assert(!has_key(members, "storage"@));
}

/// No other object is an error.
pub proof fn only_error_objects_are_errors(members: Seq<(Seq<char>, JsonModel)>)
    ensures
        !(members.len() == 2 && mentions(members, "type"@) && mentions(members, "code"@))
            ==> marked_error(members) is None,
{
    mentioned_keys(members, "type"@);
    mentioned_keys(members, "code"@);
}

/// An object of a nonce is the key of that nonce, where the nonce is an integer of 64 bits
/// with sign; no other object is one.
pub proof fn nonce_objects_are_read_back(
    members: Seq<(Seq<char>, JsonModel)>,
    nonce: JsonModel,
    depth: nat,
)
    requires
        depth <= MAX_SCVAL_DEPTH,
    ensures
        members == seq![("nonce"@, nonce)] ==> match nonce {
            JsonModel::Number(number) if integer_of(number) is Some && integer_of(number)->0
                <= 0x7fff_ffff_ffff_ffff => converted(JsonModel::Object(members), depth)
                == Ok::<ScValModel, ConvertErrorModel>(
                ScValModel::LedgerKeyNonce(integer_of(number)->0 as i64),
            ),
            _ => marked_nonce(members) is None && marked_error(members) is None
                && marked_instance(members, depth) is None,
        },
        !(members.len() == 1 && members[0].0 == "nonce"@) ==> marked_nonce(members) is None,
{
    reveal_strlit("nonce");
    reveal_strlit("__truncated__");
    reveal_strlit("storage");
    assert("nonce"@.len() != "__truncated__"@.len());
    assert("nonce"@.len() != "storage"@.len());
    reveal_with_fuel(position, 2);
}

/// Whether no two members have the same key.
pub open spec fn keys_are_distinct(members: Seq<(Seq<char>, JsonModel)>) -> bool {
    forall|i: int, j: int|
        0 <= i < j < members.len() ==> (#[trigger] members[i]).0 != (#[trigger] members[j]).0
}

/// Among distinct keys, a member is found where it stands.
proof fn member_is_found(members: Seq<(Seq<char>, JsonModel)>, at: int)
    requires
        keys_are_distinct(members),
        0 <= at < members.len(),
    ensures
        position(members, members[at].0) == at,
{
    position_is_of_the_key(members, members[at].0);
    let found = position(members, members[at].0);
    if found < at {
        assert(members[found].0 != members[at].0);
    }
}

/// An object with an executable and a storage is a contract instance, where the
/// executable is one and the storage is null or stands for a map; its entries are kept as
/// they are.
pub proof fn instance_objects_are_read_back(
    members: Seq<(Seq<char>, JsonModel)>,
    executable_at: int,
    storage_at: int,
    executable: ExecutableModel,
    depth: nat,
)
    requires
        depth <= MAX_SCVAL_DEPTH,
        keys_are_distinct(members),
        !mentions(members, "__truncated__"@),
        0 <= executable_at < members.len(),
        0 <= storage_at < members.len(),
        members[executable_at].0 == "executable"@,
        members[storage_at].0 == "storage"@,
        executable_value(Some(members[executable_at].1)) == Some(executable),
    ensures
        members[storage_at].1 is Null ==> converted(JsonModel::Object(members), depth) == Ok::<
            ScValModel,
            ConvertErrorModel,
        >(ScValModel::ContractInstance { executable, storage: None }),
        !(members[storage_at].1 is Null) ==> match converted(members[storage_at].1, depth + 1) {
            Ok(ScValModel::Mapping(Some(entries))) => converted(JsonModel::Object(members), depth)
                == Ok::<ScValModel, ConvertErrorModel>(
                ScValModel::ContractInstance { executable, storage: Some(entries) },
            ),
            _ => marked_instance(members, depth) is None,
        },
        marked_error(members) is None,
        marked_nonce(members) is None,
{
    reveal_strlit("executable");
    reveal_strlit("storage");
    reveal_strlit("type");
    reveal_strlit("code");
    reveal_strlit("nonce");
    assert("executable"@.len() == 10 && "storage"@.len() == 7 && "type"@.len() == 4
        && "nonce"@.len() == 5);
    mentioned_keys(members, "__truncated__"@);
    member_is_found(members, executable_at);
    member_is_found(members, storage_at);
    assert(members.len() >= 2) by {
        assert(executable_at != storage_at);
    }
    position_is_of_the_key(members, "type"@);
    if members.len() == 2 && has_key(members, "type"@) {
        let at = position(members, "type"@);
        assert(at == executable_at || at == storage_at);
    }
}

/// What an executable is told by: its type, and for code in WebAssembly the 32 bytes of
/// its hash, in hexadecimal with or without the prefix.
pub proof fn executables_are_told_by_their_type(
    members: Seq<(Seq<char>, JsonModel)>,
    type_at: int,
    hash_at: int,
    kind: Seq<char>,
    text: Seq<char>,
)
    requires
        keys_are_distinct(members),
        0 <= type_at < members.len(),
        members[type_at] == ("type"@, JsonModel::String(kind)),
    ensures
        kind == "StellarAsset"@ ==> executable_value(Some(JsonModel::Object(members))) == Some(
            ExecutableModel::StellarAsset,
        ),
        kind != "StellarAsset"@ && kind != "Wasm"@ ==> executable_value(
            Some(JsonModel::Object(members)),
        ) is None,
        kind == "Wasm"@ && 0 <= hash_at < members.len() && members[hash_at] == (
            "wasmHash"@,
            JsonModel::String(text),
        ) && is_hex(text) ==> executable_value(Some(JsonModel::Object(members))) == if text.len()
            == 64 {
            Some(ExecutableModel::Wasm(hex_bytes(text)))
        } else {
            None
        },
        kind == "Wasm"@ && 0 <= hash_at < members.len() && members[hash_at] == (
            "wasmHash"@,
            JsonModel::String(text),
        ) && is_prefixed_hex(text) ==> executable_value(Some(JsonModel::Object(members)))
            == if text.len() == 66 {
            Some(ExecutableModel::Wasm(hex_bytes(text.skip(2))))
        } else {
            None
        },
        kind == "Wasm"@ && 0 <= hash_at < members.len() && members[hash_at] == (
            "wasmHash"@,
            JsonModel::String(text),
        ) && !is_hex(text) && !is_prefixed_hex(text) ==> executable_value(
            Some(JsonModel::Object(members)),
        ) is None,
        kind == "Wasm"@ && !mentions(members, "wasmHash"@) ==> executable_value(
            Some(JsonModel::Object(members)),
        ) is None,
        executable_value(None) is None,
        executable_value(Some(JsonModel::Null)) is None,
        executable_value(Some(JsonModel::String(text))) is None,
{
    reveal_strlit("StellarAsset");
    reveal_strlit("Wasm");
    assert("StellarAsset"@.len() != "Wasm"@.len());
    member_is_found(members, type_at);
    mentioned_keys(members, "wasmHash"@);
    if 0 <= hash_at < members.len() && members[hash_at] == (
        "wasmHash"@,
        JsonModel::String(text),
    ) {
        member_is_found(members, hash_at);
    }
    hex_prefix(text);
    if text.len() >= 2 && text[0] == '0' && text[1] == 'x' && is_hex(text) {
        assert(crate::hex_text::hex_value(text[1]) is Some);
    }
}

/// Without a type, an executable is told by nothing; and nothing but an object is one.
pub proof fn executables_need_a_type(members: Seq<(Seq<char>, JsonModel)>, value: JsonModel)
    ensures
        !mentions(members, "type"@) ==> executable_value(Some(JsonModel::Object(members))) is None,
        !(value is Object) ==> executable_value(Some(value)) is None,
{
    mentioned_keys(members, "type"@);
}

/// Without an executable or without a storage, an object is no contract instance; nor is
/// it one where the executable is none.
pub proof fn only_instance_objects_are_instances(
    members: Seq<(Seq<char>, JsonModel)>,
    executable_at: int,
    depth: nat,
)
    ensures
        !mentions(members, "executable"@) || !mentions(members, "storage"@) ==> marked_instance(
            members,
            depth,
        ) is None,
        keys_are_distinct(members) && 0 <= executable_at < members.len()
            && members[executable_at].0 == "executable"@ && executable_value(
            Some(members[executable_at].1),
        ) is None ==> marked_instance(members, depth) is None,
{
    mentioned_keys(members, "executable"@);
    mentioned_keys(members, "storage"@);
    if keys_are_distinct(members) && 0 <= executable_at < members.len() {
        member_is_found(members, executable_at);
    }
}

/// A map or a vector that would be too large is refused.
pub proof fn too_many_elements_are_refused(
    elements: Seq<JsonModel>,
    members: Seq<(Seq<char>, JsonModel)>,
    depth: nat,
)
    requires
        depth <= MAX_SCVAL_DEPTH,
    ensures
        elements.len() > 0xffff_ffff && (exists|i: int|
            0 <= i < elements.len() && !pairs_key_with_value(#[trigger] elements[i])) && (forall|
            i: int,
        |
            0 <= i < elements.len() ==> converted(#[trigger] elements[i], depth + 1) is Ok)
            ==> converted(JsonModel::Array(elements), depth) == Err::<
            ScValModel,
            ConvertErrorModel,
        >(ConvertErrorModel::ArrayTooLarge),
        members.len() > 0xffff_ffff && is_plain_object(members) && (forall|i: int|
            #![trigger members[i]]
            0 <= i < members.len() ==> string_value(members[i].0) is Ok && converted(
                members[i].1,
                depth + 1,
            ) is Ok) ==> converted(JsonModel::Object(members), depth) == Err::<
            ScValModel,
            ConvertErrorModel,
        >(ConvertErrorModel::MapTooLarge),
{
    if elements.len() > 0xffff_ffff && (exists|i: int|
        0 <= i < elements.len() && !pairs_key_with_value(#[trigger] elements[i])) && (forall|
        i: int,
    |
        0 <= i < elements.len() ==> converted(#[trigger] elements[i], depth + 1) is Ok) {
        let i = choose|i: int|
            0 <= i < elements.len() && !pairs_key_with_value(#[trigger] elements[i]);
        entries_pair_key_with_value(elements[i]);
        assert(!is_entry(elements[i]));
        let values = Seq::new(elements.len(), |i: int| converted(elements[i], depth + 1)->Ok_0);
        elements_one_for_one(elements, values, elements.len(), depth + 1);
    }
    if members.len() > 0xffff_ffff && is_plain_object(members) && (forall|i: int|
        #![trigger members[i]]
        0 <= i < members.len() ==> string_value(members[i].0) is Ok && converted(
            members[i].1,
            depth + 1,
        ) is Ok) {
        mentioned_keys(members, "__truncated__"@);
        mentioned_keys(members, "type"@);
        mentioned_keys(members, "code"@);
        mentioned_keys(members, "nonce"@);
        mentioned_keys(members, "executable"@);
        mentioned_keys(members, "storage"@);
        let values = Seq::new(
            members.len(),
            |i: int| (string_value(members[i].0)->Ok_0, converted(members[i].1, depth + 1)->Ok_0),
        );
        members_one_for_one(members, values, members.len(), depth + 1);
    }
}

/// An error of the conversion says what went wrong, and is seen as it is.
pub proof fn conversion_errors_say_what_went_wrong(error: ConvertError)
    ensures
        error@.message() == match error {
            ConvertError::DepthExceeded => "max recursion depth (100) exceeded"@,
            ConvertError::UnsupportedNumber(number) =>
                "unsupported float or out of bounds number: "@ + number@,
            ConvertError::MapTooLarge => "map too large"@,
            ConvertError::ArrayTooLarge => "array too large"@,
            ConvertError::BytesTooLarge => "bytes too large"@,
            ConvertError::StringTooLong => "string too long"@,
            ConvertError::Truncated => "cannot convert truncated JSON back to ScVal"@,
        },
        error is DepthExceeded <==> error@ is DepthExceeded,
        error is MapTooLarge <==> error@ is MapTooLarge,
        error is ArrayTooLarge <==> error@ is ArrayTooLarge,
        error is BytesTooLarge <==> error@ is BytesTooLarge,
        error is StringTooLong <==> error@ is StringTooLong,
        error is Truncated <==> error@ is Truncated,
        error matches ConvertError::UnsupportedNumber(number) ==> error@
            == ConvertErrorModel::UnsupportedNumber(number@),
{
}

/// What a conversion gave is seen as it is.
pub proof fn conversions_are_seen_as_they_are(
    result: Result<ScVal, ConvertError>,
    entries: Result<Vec<ScMapEntry>, ConvertError>,
)
    ensures
        match result {
            Ok(value) => convert_result(result) == Ok::<ScValModel, ConvertErrorModel>(
                value.model(),
            ),
            Err(error) => convert_result(result) == Err::<ScValModel, ConvertErrorModel>(error@),
        },
        match entries {
            Ok(own) => entries_result(entries) == Ok::<
                Seq<(ScValModel, ScValModel)>,
                ConvertErrorModel,
            >(map_entry_models(own@)),
            Err(error) => entries_result(entries) == Err::<
                Seq<(ScValModel, ScValModel)>,
                ConvertErrorModel,
            >(error@),
        },
{
}

/// A text is an address only where it has the form of one: whatever key and identifier it
/// is taken to be the address of, they count for no other text.
pub proof fn only_addresses_stand_for_addresses(
    text: Seq<char>,
    account: Option<Seq<u8>>,
    contract: Option<Seq<u8>>,
)
    ensures
        has_form_of_address(text, 'G') ==> text_value(text, account, contract) == text_value(
            text,
            account,
            None,
        ),
        has_form_of_address(text, 'C') ==> text_value(text, account, contract) == text_value(
            text,
            None,
            contract,
        ),
        !has_form_of_address(text, 'G') && !has_form_of_address(text, 'C') ==> text_value(
            text,
            account,
            contract,
        ) == text_value(text, None, None),
        has_form_of_address(text, 'G') && account is Some ==> text_value(text, account, contract)
            == Ok::<ScValModel, ConvertErrorModel>(
            ScValModel::Address(AddressModel::Account(account->0)),
        ),
        has_form_of_address(text, 'C') && contract is Some ==> text_value(text, account, contract)
            == Ok::<ScValModel, ConvertErrorModel>(
            ScValModel::Address(AddressModel::Contract(contract->0)),
        ),
        string_value(text) == text_value(text, account_key(text), contract_id(text)),
{
    hex_prefix(text);
    reveal_strlit("LedgerKeyContractInstance");
    if text.len() > 0 {
        assert("LedgerKeyContractInstance"@[0] == 'L');
    }
}

} // verus!
