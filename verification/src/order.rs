//! The run order of a batch directory.
//!
//! Of the names found in the directory, those that start with an ASCII digit
//! are entries; the others are left out. An entry's sort key is the number
//! that its leading digits spell. The entries run by ascending key, and
//! entries with one key run in the order in which they were found.

use crate::text::{decimal_value, digit_value, is_digit, texts};
use vstd::prelude::*;
use vstd::string::StringSliceAdditionalSpecFns;
use vstd::utf8::{
    encode_scalar, encode_utf8, has_width_1_encoding, has_width_2_encoding,
    has_width_3_encoding,
};

verus! {

/// Whether `byte` is one of the ASCII digits `0` to `9`.
pub open spec fn is_digit_byte(byte: u8) -> bool {
    0x30 <= byte && byte <= 0x39
}

/// Whether a name is a batch entry: its first character is an ASCII digit.
pub open spec fn is_entry(name: Seq<char>) -> bool {
    name.len() > 0 && is_digit(name[0])
}

/// The length of the longest run of ASCII digits that `name` starts with.
pub open spec fn digit_run(name: Seq<char>) -> nat
    decreases name.len(),
{
    if name.len() > 0 && is_digit(name[0]) {
        1 + digit_run(name.drop_first())
    } else {
        0
    }
}

/// The sort key of a name: the number that its leading digits spell. Where
/// the name starts with no digit, or the number is too large for a key, the
/// key is the largest there is, so that such a name sorts last.
pub open spec fn sort_key(name: Seq<char>) -> u32 {
    let digits = name.take(digit_run(name) as int);
    if digits.len() == 0 || decimal_value(digits) > u32::MAX {
        u32::MAX
    } else {
        decimal_value(digits) as u32
    }
}

/// The test for an entry, as a predicate.
pub open spec fn entry() -> spec_fn(Seq<char>) -> bool {
    |name: Seq<char>| is_entry(name)
}

/// The test for a name that is no entry, as a predicate.
pub open spec fn no_entry() -> spec_fn(Seq<char>) -> bool {
    |name: Seq<char>| !is_entry(name)
}

/// The test for a name with the sort key `key`, as a predicate.
pub open spec fn has_key(key: u32) -> spec_fn(Seq<char>) -> bool {
    |name: Seq<char>| sort_key(name) == key
}

/// The entries among `names`, in the order in which they stand there.
pub open spec fn entries(names: Seq<Seq<char>>) -> Seq<Seq<char>> {
    names.filter(entry())
}

/// The names among `names` that are no entries, in the order in which they stand there.
pub open spec fn left_out(names: Seq<Seq<char>>) -> Seq<Seq<char>> {
    names.filter(no_entry())
}

/// The names among `names` whose sort key is `key`, in the order in which they stand there.
pub open spec fn keyed(names: Seq<Seq<char>>, key: u32) -> Seq<Seq<char>> {
    names.filter(has_key(key))
}

/// Whether the sort keys of `names` never fall from one name to a later one.
pub open spec fn ascending(names: Seq<Seq<char>>) -> bool {
    forall|i: int, j: int|
        0 <= i <= j < names.len() ==> sort_key(#[trigger] names[i]) <= sort_key(
            #[trigger] names[j],
        )
}

/// Whether `order` is the run order of the names `found`: it is ascending,
/// and for every key it holds the entries of `found` with that key, all of
/// them and nothing else, in the order in which they were found.
pub open spec fn is_run_order(order: Seq<Seq<char>>, found: Seq<Seq<char>>) -> bool {
    &&& ascending(order)
    &&& forall|key: u32| #[trigger] keyed(order, key) == keyed(entries(found), key)
}

/// A listing without its first name, which stands for the directory itself.
pub open spec fn children(listing: Seq<Seq<char>>) -> Seq<Seq<char>> {
    if listing.len() > 0 {
        listing.skip(1)
    } else {
        listing
    }
}

/// A leading run of digits that ends where the name ends, or before a
/// character that is no digit, is the longest one.
proof fn lemma_digit_run(name: Seq<char>, run: nat)
    requires
        run <= name.len(),
        forall|j: int| 0 <= j < run ==> is_digit(name[j]),
        run == name.len() || !is_digit(name[run as int]),
    ensures
        digit_run(name) == run,
    decreases run,
{
    if run > 0 {
        let rest = name.drop_first();
        assert forall|j: int| 0 <= j < run - 1 implies is_digit(rest[j]) by {
            assert(rest[j] == name[j + 1]);
        }
        lemma_digit_run(rest, (run - 1) as nat);
    }
}

/// One digit more multiplies what is spelled by ten and adds the digit.
proof fn lemma_decimal_value_step(digits: Seq<char>, i: int)
    requires
        0 <= i < digits.len(),
    ensures
        decimal_value(digits.take(i + 1)) == decimal_value(digits.take(i)) * 10 + digit_value(
            digits[i],
        ),
{
    assert(digits.take(i + 1).drop_last() =~= digits.take(i));
}

/// Splitting a sequence of names splits what it holds of each key.
proof fn lemma_keyed_split(names: Seq<Seq<char>>, at: int, key: u32)
    requires
        0 <= at <= names.len(),
    ensures
        keyed(names, key) == keyed(names.take(at), key) + keyed(names.skip(at), key),
{
    assert(names =~= names.take(at) + names.skip(at));
    Seq::filter_distributes_over_add(names.take(at), names.skip(at), has_key(key));
}

/// Names of other keys hold nothing of a key.
proof fn lemma_keyed_none(names: Seq<Seq<char>>, key: u32)
    requires
        forall|i: int| 0 <= i < names.len() ==> sort_key(#[trigger] names[i]) != key,
    ensures
        keyed(names, key) == Seq::<Seq<char>>::empty(),
{
    let found = keyed(names, key);
    if found.len() > 0 {
        names.lemma_filter_pred(has_key(key), 0);
        names.lemma_filter_contains_rev(has_key(key), found[0]);
        let i = choose|i: int| 0 <= i < names.len() && names[i] == found[0];
        assert(sort_key(names[i]) != key);
    }
    assert(found =~= Seq::<Seq<char>>::empty());
}

/// A name put in among others comes, among the names of its key, between
/// those before it and those behind it; the names of other keys are as before.
proof fn lemma_keyed_insert(names: Seq<Seq<char>>, at: int, name: Seq<char>, key: u32)
    requires
        0 <= at <= names.len(),
    ensures
        keyed(names.insert(at, name), key) == if sort_key(name) == key {
            keyed(names.take(at), key).push(name) + keyed(names.skip(at), key)
        } else {
            keyed(names, key)
        },
{
    assert(names.insert(at, name) =~= names.take(at).push(name) + names.skip(at));
    Seq::filter_distributes_over_add(names.take(at).push(name), names.skip(at), has_key(key));
    names.take(at).lemma_filter_push(name, has_key(key));
    lemma_keyed_split(names, at, key);
}

/// The last name of a sequence is the last among the names of its key; the
/// names of other keys all stand before it.
proof fn lemma_keyed_last(names: Seq<Seq<char>>, key: u32)
    requires
        names.len() > 0,
    ensures
        keyed(names, key) == if sort_key(names.last()) == key {
            keyed(names.drop_last(), key).push(names.last())
        } else {
            keyed(names.drop_last(), key)
        },
{
    assert(names =~= names.drop_last().push(names.last()));
    names.drop_last().lemma_filter_push(names.last(), has_key(key));
}

/// A key of which a sequence holds a name is the key of one of its names.
proof fn lemma_keyed_some(names: Seq<Seq<char>>, key: u32) -> (at: int)
    requires
        keyed(names, key).len() > 0,
    ensures
        0 <= at < names.len(),
        sort_key(names[at]) == key,
{
    let found = keyed(names, key);
    names.lemma_filter_pred(has_key(key), 0);
    names.lemma_filter_contains_rev(has_key(key), found[0]);
    choose|at: int| 0 <= at < names.len() && names[at] == found[0]
}

/// Two ascending sequences that hold the same names of every key, in the
/// same order, are one sequence.
proof fn lemma_ascending_is_settled_by_keys(a: Seq<Seq<char>>, b: Seq<Seq<char>>)
    requires
        ascending(a),
        ascending(b),
        forall|key: u32| #[trigger] keyed(a, key) == keyed(b, key),
    ensures
        a == b,
    decreases a.len(),
{
    if a.len() == 0 {
        if b.len() > 0 {
            let key = sort_key(b[0]);
            b.lemma_filter_contains(has_key(key), 0);
            assert(keyed(b, key).len() > 0);
            assert(keyed(a, key) == keyed(b, key));
            a.lemma_filter_len(has_key(key));
        }
        assert(a =~= b);
    } else {
        let last = a.last();
        let key = sort_key(last);
        lemma_keyed_last(a, key);
        assert(keyed(a, key) == keyed(b, key));
        b.lemma_filter_len(has_key(key));
        let other = sort_key(b.last());
        lemma_keyed_last(b, other);
        assert(keyed(a, other) == keyed(b, other));
        let i = lemma_keyed_some(a, other);
        let j = lemma_keyed_some(b, key);
        assert(sort_key(a[i]) <= sort_key(a[a.len() - 1]));
        assert(sort_key(b[j]) <= sort_key(b[b.len() - 1]));
        assert(other == key);
        let front_a = keyed(a.drop_last(), key);
        let front_b = keyed(b.drop_last(), key);
        assert(front_a.push(last) == front_b.push(b.last()));
        assert(front_a.push(last).last() == last);
        assert(front_b.push(b.last()).last() == b.last());
        assert(front_a =~= front_a.push(last).drop_last());
        assert(front_b =~= front_b.push(b.last()).drop_last());
        assert forall|any: u32| #[trigger]
            keyed(a.drop_last(), any) == keyed(b.drop_last(), any) by {
            lemma_keyed_last(a, any);
            lemma_keyed_last(b, any);
            assert(keyed(a, any) == keyed(b, any));
        }
        assert(ascending(a.drop_last())) by {
            assert forall|i: int, j: int| 0 <= i <= j < a.drop_last().len() implies sort_key(
                #[trigger] a.drop_last()[i],
            ) <= sort_key(#[trigger] a.drop_last()[j]) by {
                assert(sort_key(a[i]) <= sort_key(a[j]));
            }
        }
        assert(ascending(b.drop_last())) by {
            assert forall|i: int, j: int| 0 <= i <= j < b.drop_last().len() implies sort_key(
                #[trigger] b.drop_last()[i],
            ) <= sort_key(#[trigger] b.drop_last()[j]) by {
                assert(sort_key(b[i]) <= sort_key(b[j]));
            }
        }
        lemma_ascending_is_settled_by_keys(a.drop_last(), b.drop_last());
        assert(a =~= a.drop_last().push(last));
        assert(b =~= b.drop_last().push(b.last()));
    }
}

/// The names found have one run order and no other.
pub proof fn lemma_run_order_is_unique(
    first: Seq<Seq<char>>,
    second: Seq<Seq<char>>,
    found: Seq<Seq<char>>,
)
    requires
        is_run_order(first, found),
        is_run_order(second, found),
    ensures
        first == second,
{
    assert forall|key: u32| #[trigger] keyed(first, key) == keyed(second, key) by {
        assert(keyed(first, key) == keyed(entries(found), key));
        assert(keyed(second, key) == keyed(entries(found), key));
    }
    lemma_ascending_is_settled_by_keys(first, second);
}

/// The run order holds the entries among the names found and nothing else:
/// a name that does not start with a digit never runs, and no entry is lost.
pub proof fn lemma_run_order_holds_the_entries(
    order: Seq<Seq<char>>,
    found: Seq<Seq<char>>,
    name: Seq<char>,
)
    requires
        is_run_order(order, found),
    ensures
        order.contains(name) <==> found.contains(name) && is_entry(name),
{
    let key = sort_key(name);
    assert(keyed(order, key) == keyed(entries(found), key));
    if order.contains(name) {
        let i = choose|i: int| 0 <= i < order.len() && order[i] == name;
        order.lemma_filter_contains(has_key(key), i);
        entries(found).lemma_filter_contains_rev(has_key(key), name);
        found.lemma_filter_contains_rev(entry(), name);
        let at = choose|at: int| 0 <= at < entries(found).len() && entries(found)[at] == name;
        found.lemma_filter_pred(entry(), at);
    }
    if found.contains(name) && is_entry(name) {
        let i = choose|i: int| 0 <= i < found.len() && found[i] == name;
        found.lemma_filter_contains(entry(), i);
        let at = choose|at: int| 0 <= at < entries(found).len() && entries(found)[at] == name;
        entries(found).lemma_filter_contains(has_key(key), at);
        order.lemma_filter_contains_rev(has_key(key), name);
    }
}

/// A character has the number of its scalar value.
proof fn lemma_char_is_its_scalar(c: char)
    ensures
        (c as u32) as int == c as int,
{
}

/// How the UTF-8 encoding of a text starts. It is empty only for the empty
/// text. Its first byte is an ASCII digit exactly if the first character is
/// one; the byte is then the character, and the encoding of the rest follows.
proof fn lemma_first_byte(text: Seq<char>)
    ensures
        text.len() == 0 <==> encode_utf8(text).len() == 0,
        text.len() > 0 ==> (is_digit(text[0]) <==> is_digit_byte(encode_utf8(text)[0])),
        text.len() > 0 && is_digit(text[0]) ==> encode_utf8(text)[0] == text[0] as u8
            && encode_utf8(text).skip(1) == encode_utf8(text.drop_first()),
{
    if text.len() > 0 {
        lemma_char_is_its_scalar(text[0]);
        let scalar = text[0] as u32;
        let rest = encode_utf8(text.drop_first());
        assert(encode_utf8(text) == encode_scalar(scalar) + rest);
        let first = encode_scalar(scalar)[0];
        assert(encode_utf8(text)[0] == first);
        if has_width_1_encoding(scalar) {
            assert((scalar & 0x7F) as u8 == scalar) by (bit_vector)
                requires
                    scalar <= 0x7F,
            ;
            assert(first == scalar);
            assert(encode_utf8(text).skip(1) =~= rest);
        } else if has_width_2_encoding(scalar) {
            let low = ((scalar >> 6) & 0x1F) as u8;
            assert(0xC0u8 | low >= 0xC0) by (bit_vector);
            assert(first == 0xC0u8 | low);
        } else if has_width_3_encoding(scalar) {
            let low = ((scalar >> 12) & 0x0F) as u8;
            assert(0xE0u8 | low >= 0xE0) by (bit_vector);
            assert(first == 0xE0u8 | low);
        } else {
            let low = ((scalar >> 18) & 0x7) as u8;
            assert(0xF0u8 | low >= 0xF0) by (bit_vector);
            assert(first == 0xF0u8 | low);
        }
    }
}

/// Whether a byte is an ASCII digit.
fn is_ascii_digit(byte: u8) -> (digit: bool)
    ensures
        digit == is_digit_byte(byte),
{
    0x30 <= byte && byte <= 0x39
}

/// Whether a name is a batch entry.
pub fn starts_with_digit(name: &str) -> (entry: bool)
    ensures
        entry == is_entry(name@),
{
    let bytes = name.as_bytes();
    proof {
        lemma_first_byte(name@);
    }
    bytes.len() > 0 && is_ascii_digit(bytes[0])
}

/// Computes the sort key of a name.
pub fn key(name: &str) -> (key: u32)
    ensures
        key == sort_key(name@),
{
    let bytes = name.as_bytes();
    let mut at: usize = 0;
    let mut spelled: u64 = 0;
    let mut too_large: bool = false;
    proof {
        assert(name@.skip(0) =~= name@);
        lemma_first_byte(name@);
    }
    while at < bytes.len() && is_ascii_digit(bytes[at])
        invariant
            at <= bytes@.len(),
            at <= name@.len(),
            bytes@.skip(at as int) == encode_utf8(name@.skip(at as int)),
            at < bytes@.len() ==> at < name@.len() && (is_digit(name@[at as int])
                <==> is_digit_byte(bytes@[at as int])),
            at < bytes@.len() && is_digit(name@[at as int]) ==> bytes@[at as int]
                == name@[at as int] as u8,
            at == bytes@.len() ==> at == name@.len(),
            forall|j: int| 0 <= j < at ==> is_digit(name@[j]),
            too_large <==> decimal_value(name@.take(at as int)) > u32::MAX,
            !too_large ==> spelled == decimal_value(name@.take(at as int)),
            spelled <= u32::MAX,
        decreases bytes@.len() - at,
    {
        proof {
            // The byte at hand is the digit at hand, and what follows it
            // encodes what follows the digit.
            lemma_decimal_value_step(name@, at as int);
            let here = name@.skip(at as int);
            lemma_first_byte(here);
            assert(name@.skip(at + 1) =~= here.drop_first());
            lemma_first_byte(name@.skip(at + 1));
        }
        if !too_large {
            let next: u64 = spelled * 10 + (bytes[at] - 0x30) as u64;
            if next > 0xffff_ffff {
                too_large = true;
            } else {
                spelled = next;
            }
        }
        at += 1;
    }
    proof {
        lemma_digit_run(name@, at as nat);
    }
    if at == 0 || too_large {
        u32::MAX
    } else {
        spelled as u32
    }
}

/// Brings the names into run order: leaves out those that are no entries and
/// sorts the entries by their keys, keeping entries with one key in the order
/// in which they stood. Returns the names left out, in the order in which
/// they stood.
pub fn sort(strings: &mut Vec<String>) -> (ignored: Vec<String>)
    ensures
        is_run_order(texts(final(strings)@), texts(old(strings)@)),
        texts(ignored@) == left_out(texts(old(strings)@)),
{
    let ghost found = texts(old(strings)@);
    let mut order: Vec<String> = Vec::new();
    let mut keys: Vec<u32> = Vec::new();
    let mut ignored: Vec<String> = Vec::new();
    let mut seen: usize = 0;
    let total: usize = strings.len();
    proof {
        reveal(Seq::filter);
    }
    while strings.len() > 0
        invariant
            found == texts(old(strings)@),
            found.len() == total,
            seen <= found.len(),
            texts(strings@) == found.skip(seen as int),
            texts(ignored@) == left_out(found.take(seen as int)),
            ascending(texts(order@)),
            forall|key: u32| #[trigger]
                keyed(texts(order@), key) == keyed(entries(found.take(seen as int)), key),
            keys@.len() == order@.len(),
            forall|i: int| 0 <= i < order@.len() ==> keys@[i] == sort_key(#[trigger] order@[i]@),
        decreases strings.len(),
    {
        let ghost before = found.take(seen as int);
        let ghost rest = strings@;
        let name = strings.remove(0);
        proof {
            // The name taken is the next one found; the rest is what is left.
            assert(found.skip(seen as int).len() == found.len() - seen);
            assert(found.skip(seen as int)[0] == found[seen as int]);
            assert(found.take(seen + 1) =~= before.push(name@));
            assert forall|i: int| 0 <= i < strings@.len() implies texts(strings@)[i]
                == found.skip(seen + 1)[i] by {
                assert(texts(rest)[i + 1] == found.skip(seen as int)[i + 1]);
            }
            before.lemma_filter_push(name@, entry());
            before.lemma_filter_push(name@, no_entry());
        }
        if starts_with_digit(name.as_str()) {
            let name_key: u32 = key(name.as_str());
            let mut at: usize = order.len();
            while at > 0 && keys[at - 1] > name_key
                invariant
                    at <= keys@.len(),
                    forall|j: int| at <= j < keys@.len() ==> keys@[j] > name_key,
                    keys@.len() == order@.len(),
                decreases at,
            {
                at -= 1;
            }
            let ghost sorted = texts(order@);
            order.insert(at, name);
            keys.insert(at, name_key);
            proof {
                let now = texts(order@);
                assert(now =~= sorted.insert(at as int, name@));
                // Before `at` no key is greater than the new one, from `at`
                // on every key is: the order stays ascending.
                assert(ascending(now)) by {
                    assert forall|i: int, j: int| 0 <= i <= j < now.len() implies sort_key(
                        #[trigger] now[i],
                    ) <= sort_key(#[trigger] now[j]) by {
                        if i < at && j == at {
                            assert(sort_key(sorted[i]) <= sort_key(sorted[at - 1]));
                        }
                    }
                }
                // The new name comes behind the names of its key, and the
                // names of other keys stay as they are.
                assert forall|key: u32| #[trigger]
                    keyed(now, key) == keyed(entries(found.take(seen + 1)), key) by {
                    lemma_keyed_insert(sorted, at as int, name@, key);
                    entries(before).lemma_filter_push(name@, has_key(key));
                    if sort_key(name@) == key {
                        lemma_keyed_none(sorted.skip(at as int), key);
                        lemma_keyed_split(sorted, at as int, key);
                        assert(keyed(sorted.take(at as int), key) + Seq::<Seq<char>>::empty()
                            =~= keyed(sorted.take(at as int), key));
                        assert(keyed(sorted.take(at as int), key).push(name@) + Seq::<
                            Seq<char>,
                        >::empty() =~= keyed(sorted.take(at as int), key).push(name@));
                    }
                }
            }
        } else {
            ignored.push(name);
        }
        seen += 1;
    }
    proof {
        assert(found.take(seen as int) =~= found);
    }
    *strings = order;
    ignored
}

/// The run order of a directory, from its listing: the names of every entry
/// found, the directory's own name first. Returns the names to run, in run
/// order, and the names left out.
pub fn get_directories(dirs: Vec<String>) -> (found: (Vec<String>, Vec<String>))
    ensures
        is_run_order(texts(found.0@), children(texts(dirs@))),
        texts(found.1@) == left_out(children(texts(dirs@))),
{
    let mut names = dirs;
    if names.len() > 0 {
        names.remove(0);
        assert(texts(names@) =~= children(texts(dirs@)));
    }
    let ignored = sort(&mut names);
    (names, ignored)
}

} // verus!
