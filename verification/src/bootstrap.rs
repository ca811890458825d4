//! What the machine is started with: the keys of the system properties.
//!
//! The keys are fixed; their values belong to the installation and are
//! handed to the machine before `System.initProperties` runs.

use vstd::prelude::*;
use vstd::string::{is_ascii, is_ascii_spec_bytes, StringSliceAdditionalSpecFns};
use crate::util::bytes_eq;

verus! {

/// The keys of the system properties, in the order in which they are
/// installed.
pub open spec fn property_keys() -> Seq<&'static str> {
    seq![
        "java.specification.version",
        "java.specification.name",
        "java.specification.vendor",
        "java.version",
        "java.vendor",
        "java.vendor.url",
        "java.vendor.url.bug",
        "java.class.version",
        "os.name",
        "os.version",
        "os.arch",
        "file.separator",
        "path.separator",
        "line.separator",
        "user.language",
        "file.encoding",
        "sun.jnu.encoding",
        "file.encoding.pkg",
        "sun.io.unicode.encoding",
        "sun.cpu.isalist",
        "sun.cpu.endian",
        "sun.arch.data.model",
        "user.name",
        "user.home",
        "user.dir",
        "java.home",
        "sun.stdout.encoding",
        "sun.stderr.encoding",
    ]
}

/// The number of system properties.
pub const PROPERTY_COUNT: usize = 28;

/// The keys of the system properties.
pub fn property_key_table() -> (keys: Vec<&'static str>)
    ensures
        keys@ == property_keys(),
        keys@.len() == PROPERTY_COUNT,
{
    let mut keys: Vec<&'static str> = Vec::new();
    keys.push("java.specification.version");
    keys.push("java.specification.name");
    keys.push("java.specification.vendor");
    keys.push("java.version");
    keys.push("java.vendor");
    keys.push("java.vendor.url");
    keys.push("java.vendor.url.bug");
    keys.push("java.class.version");
    keys.push("os.name");
    keys.push("os.version");
    keys.push("os.arch");
    keys.push("file.separator");
    keys.push("path.separator");
    keys.push("line.separator");
    keys.push("user.language");
    keys.push("file.encoding");
    keys.push("sun.jnu.encoding");
    keys.push("file.encoding.pkg");
    keys.push("sun.io.unicode.encoding");
    keys.push("sun.cpu.isalist");
    keys.push("sun.cpu.endian");
    keys.push("sun.arch.data.model");
    keys.push("user.name");
    keys.push("user.home");
    keys.push("user.dir");
    keys.push("java.home");
    keys.push("sun.stdout.encoding");
    keys.push("sun.stderr.encoding");
    assert(keys@ =~= property_keys());
    keys
}

/// The first position from `from` on at which `keys` holds the key whose
/// bytes are `key`.
pub open spec fn key_position(keys: Seq<&'static str>, key: Seq<u8>, from: int) -> Option<int>
    decreases keys.len() - from,
{
    if from < 0 || from >= keys.len() {
        None
    } else if keys[from].spec_bytes() == key {
        Some(from)
    } else {
        key_position(keys, key, from + 1)
    }
}

/// The position of a key among the system properties, if it is one.
pub fn property_index(key: &[u8]) -> (r: Option<usize>)
    ensures
        r matches Some(i) ==> i < PROPERTY_COUNT,
        match key_position(property_keys(), key@, 0) {
            Some(i) => r == Some(i as usize) && 0 <= i < PROPERTY_COUNT,
            None => r is None,
        },
{
    let keys = property_key_table();
    let mut i: usize = 0;
    while i < keys.len()
        invariant
            keys@ == property_keys(),
            keys@.len() == PROPERTY_COUNT,
            i <= keys@.len(),
            key_position(property_keys(), key@, 0) == key_position(
                property_keys(),
                key@,
                i as int,
            ),
        decreases keys@.len() - i,
    {
        if bytes_eq(keys[i].as_bytes(), key) {
            return Some(i);
        }
        i = i + 1;
    }
    None
}

/// The byte of `key` at `place`, or 0 where the key is shorter.
spec fn key_byte(key: Seq<u8>, place: int) -> u8 {
    if 0 <= place < key.len() {
        key[place]
    } else {
        0
    }
}

/// The length of a key and its bytes at three places: no two keys of the
/// system properties agree in all four.
spec fn key_mark(key: Seq<u8>) -> (nat, u8, u8, u8) {
    (key.len(), key_byte(key, 0), key_byte(key, 5), key_byte(key, 7))
}

/// What tells the key at place `i` from every other key: its length and
/// its bytes at three places.
spec fn mark_at(i: int) -> (nat, u8, u8, u8) {
    if i == 0 {
        (26, 106, 115, 101)
    } else if i == 1 {
        (23, 106, 115, 101)
    } else if i == 2 {
        (25, 106, 115, 101)
    } else if i == 3 {
        (12, 106, 118, 114)
    } else if i == 4 {
        (11, 106, 118, 110)
    } else if i == 5 {
        (15, 106, 118, 110)
    } else if i == 6 {
        (19, 106, 118, 110)
    } else if i == 7 {
        (18, 106, 99, 97)
    } else if i == 8 {
        (7, 111, 109, 0)
    } else if i == 9 {
        (10, 111, 114, 105)
    } else if i == 10 {
        (7, 111, 99, 0)
    } else if i == 11 {
        (14, 102, 115, 112)
    } else if i == 12 {
        (14, 112, 115, 112)
    } else if i == 13 {
        (14, 108, 115, 112)
    } else if i == 14 {
        (13, 117, 108, 110)
    } else if i == 15 {
        (13, 102, 101, 99)
    } else if i == 16 {
        (16, 115, 110, 46)
    } else if i == 17 {
        (17, 102, 101, 99)
    } else if i == 18 {
        (23, 115, 111, 117)
    } else if i == 19 {
        (15, 115, 112, 46)
    } else if i == 20 {
        (14, 115, 112, 46)
    } else if i == 21 {
        (19, 115, 114, 104)
    } else if i == 22 {
        (9, 117, 110, 109)
    } else if i == 23 {
        (9, 117, 104, 109)
    } else if i == 24 {
        (8, 117, 100, 114)
    } else if i == 25 {
        (9, 106, 104, 109)
    } else if i == 26 {
        (19, 115, 116, 111)
    } else {
        (19, 115, 116, 101)
    }
}

/// The character of `chars` at `place` as a byte, or 0 where there is
/// none.
spec fn char_byte(chars: Seq<char>, place: int) -> u8 {
    if 0 <= place < chars.len() {
        chars[place] as u8
    } else {
        0
    }
}

/// The mark of a key that is written with characters of one byte each.
proof fn lemma_mark_of_chars(key: &str)
    requires
        is_ascii(key),
    ensures
        key_mark(key.spec_bytes()) == (
            key@.len(),
            char_byte(key@, 0),
            char_byte(key@, 5),
            char_byte(key@, 7),
        ),
{
    is_ascii_spec_bytes(key);
}

/// The marks of the keys from place 0 on.
proof fn lemma_key_marks_from_0()
    ensures
        key_mark("java.specification.version".spec_bytes()) == mark_at(0),
        key_mark("java.specification.name".spec_bytes()) == mark_at(1),
        key_mark("java.specification.vendor".spec_bytes()) == mark_at(2),
        key_mark("java.version".spec_bytes()) == mark_at(3),
        key_mark("java.vendor".spec_bytes()) == mark_at(4),
        key_mark("java.vendor.url".spec_bytes()) == mark_at(5),
        key_mark("java.vendor.url.bug".spec_bytes()) == mark_at(6),
{
    assert(key_mark("java.specification.version".spec_bytes()) == mark_at(0)) by {
        reveal_strlit("java.specification.version");
        lemma_mark_of_chars("java.specification.version");
    }
    assert(key_mark("java.specification.name".spec_bytes()) == mark_at(1)) by {
        reveal_strlit("java.specification.name");
        lemma_mark_of_chars("java.specification.name");
    }
    assert(key_mark("java.specification.vendor".spec_bytes()) == mark_at(2)) by {
        reveal_strlit("java.specification.vendor");
        lemma_mark_of_chars("java.specification.vendor");
    }
    assert(key_mark("java.version".spec_bytes()) == mark_at(3)) by {
        reveal_strlit("java.version");
        lemma_mark_of_chars("java.version");
    }
    assert(key_mark("java.vendor".spec_bytes()) == mark_at(4)) by {
        reveal_strlit("java.vendor");
        lemma_mark_of_chars("java.vendor");
    }
    assert(key_mark("java.vendor.url".spec_bytes()) == mark_at(5)) by {
        reveal_strlit("java.vendor.url");
        lemma_mark_of_chars("java.vendor.url");
    }
    assert(key_mark("java.vendor.url.bug".spec_bytes()) == mark_at(6)) by {
        reveal_strlit("java.vendor.url.bug");
        lemma_mark_of_chars("java.vendor.url.bug");
    }
}

/// The marks of the keys from place 7 on.
proof fn lemma_key_marks_from_7()
    ensures
        key_mark("java.class.version".spec_bytes()) == mark_at(7),
        key_mark("os.name".spec_bytes()) == mark_at(8),
        key_mark("os.version".spec_bytes()) == mark_at(9),
        key_mark("os.arch".spec_bytes()) == mark_at(10),
        key_mark("file.separator".spec_bytes()) == mark_at(11),
        key_mark("path.separator".spec_bytes()) == mark_at(12),
        key_mark("line.separator".spec_bytes()) == mark_at(13),
{
    assert(key_mark("java.class.version".spec_bytes()) == mark_at(7)) by {
        reveal_strlit("java.class.version");
        lemma_mark_of_chars("java.class.version");
    }
    assert(key_mark("os.name".spec_bytes()) == mark_at(8)) by {
        reveal_strlit("os.name");
        lemma_mark_of_chars("os.name");
    }
    assert(key_mark("os.version".spec_bytes()) == mark_at(9)) by {
        reveal_strlit("os.version");
        lemma_mark_of_chars("os.version");
    }
    assert(key_mark("os.arch".spec_bytes()) == mark_at(10)) by {
        reveal_strlit("os.arch");
        lemma_mark_of_chars("os.arch");
    }
    assert(key_mark("file.separator".spec_bytes()) == mark_at(11)) by {
        reveal_strlit("file.separator");
        lemma_mark_of_chars("file.separator");
    }
    assert(key_mark("path.separator".spec_bytes()) == mark_at(12)) by {
        reveal_strlit("path.separator");
        lemma_mark_of_chars("path.separator");
    }
    assert(key_mark("line.separator".spec_bytes()) == mark_at(13)) by {
        reveal_strlit("line.separator");
        lemma_mark_of_chars("line.separator");
    }
}

/// The marks of the keys from place 14 on.
proof fn lemma_key_marks_from_14()
    ensures
        key_mark("user.language".spec_bytes()) == mark_at(14),
        key_mark("file.encoding".spec_bytes()) == mark_at(15),
        key_mark("sun.jnu.encoding".spec_bytes()) == mark_at(16),
        key_mark("file.encoding.pkg".spec_bytes()) == mark_at(17),
        key_mark("sun.io.unicode.encoding".spec_bytes()) == mark_at(18),
        key_mark("sun.cpu.isalist".spec_bytes()) == mark_at(19),
        key_mark("sun.cpu.endian".spec_bytes()) == mark_at(20),
{
    assert(key_mark("user.language".spec_bytes()) == mark_at(14)) by {
        reveal_strlit("user.language");
        lemma_mark_of_chars("user.language");
    }
    assert(key_mark("file.encoding".spec_bytes()) == mark_at(15)) by {
        reveal_strlit("file.encoding");
        lemma_mark_of_chars("file.encoding");
    }
    assert(key_mark("sun.jnu.encoding".spec_bytes()) == mark_at(16)) by {
        reveal_strlit("sun.jnu.encoding");
        lemma_mark_of_chars("sun.jnu.encoding");
    }
    assert(key_mark("file.encoding.pkg".spec_bytes()) == mark_at(17)) by {
        reveal_strlit("file.encoding.pkg");
        lemma_mark_of_chars("file.encoding.pkg");
    }
    assert(key_mark("sun.io.unicode.encoding".spec_bytes()) == mark_at(18)) by {
        reveal_strlit("sun.io.unicode.encoding");
        lemma_mark_of_chars("sun.io.unicode.encoding");
    }
    assert(key_mark("sun.cpu.isalist".spec_bytes()) == mark_at(19)) by {
        reveal_strlit("sun.cpu.isalist");
        lemma_mark_of_chars("sun.cpu.isalist");
    }
    assert(key_mark("sun.cpu.endian".spec_bytes()) == mark_at(20)) by {
        reveal_strlit("sun.cpu.endian");
        lemma_mark_of_chars("sun.cpu.endian");
    }
}

/// The marks of the keys from place 21 on.
proof fn lemma_key_marks_from_21()
    ensures
        key_mark("sun.arch.data.model".spec_bytes()) == mark_at(21),
        key_mark("user.name".spec_bytes()) == mark_at(22),
        key_mark("user.home".spec_bytes()) == mark_at(23),
        key_mark("user.dir".spec_bytes()) == mark_at(24),
        key_mark("java.home".spec_bytes()) == mark_at(25),
        key_mark("sun.stdout.encoding".spec_bytes()) == mark_at(26),
        key_mark("sun.stderr.encoding".spec_bytes()) == mark_at(27),
{
    assert(key_mark("sun.arch.data.model".spec_bytes()) == mark_at(21)) by {
        reveal_strlit("sun.arch.data.model");
        lemma_mark_of_chars("sun.arch.data.model");
    }
    assert(key_mark("user.name".spec_bytes()) == mark_at(22)) by {
        reveal_strlit("user.name");
        lemma_mark_of_chars("user.name");
    }
    assert(key_mark("user.home".spec_bytes()) == mark_at(23)) by {
        reveal_strlit("user.home");
        lemma_mark_of_chars("user.home");
    }
    assert(key_mark("user.dir".spec_bytes()) == mark_at(24)) by {
        reveal_strlit("user.dir");
        lemma_mark_of_chars("user.dir");
    }
    assert(key_mark("java.home".spec_bytes()) == mark_at(25)) by {
        reveal_strlit("java.home");
        lemma_mark_of_chars("java.home");
    }
    assert(key_mark("sun.stdout.encoding".spec_bytes()) == mark_at(26)) by {
        reveal_strlit("sun.stdout.encoding");
        lemma_mark_of_chars("sun.stdout.encoding");
    }
    assert(key_mark("sun.stderr.encoding".spec_bytes()) == mark_at(27)) by {
        reveal_strlit("sun.stderr.encoding");
        lemma_mark_of_chars("sun.stderr.encoding");
    }
}

proof fn lemma_key_marks()
    ensures
        forall|i: int|
            0 <= i < PROPERTY_COUNT ==> key_mark((#[trigger] property_keys()[i]).spec_bytes())
                == mark_at(i),
{
    lemma_key_marks_from_0();
    lemma_key_marks_from_7();
    lemma_key_marks_from_14();
    lemma_key_marks_from_21();
}

/// No two of the keys of the system properties are the same.
pub proof fn lemma_keys_differ()
    ensures
        forall|i: int, j: int|
            0 <= i < PROPERTY_COUNT && 0 <= j < PROPERTY_COUNT && (
            #[trigger] property_keys()[i]).spec_bytes() == (#[trigger] property_keys()[j]).spec_bytes()
                ==> i == j,
{
    lemma_key_marks();
    assert forall|i: int, j: int|
        0 <= i < PROPERTY_COUNT && 0 <= j < PROPERTY_COUNT && (
        #[trigger] property_keys()[i]).spec_bytes() == (#[trigger] property_keys()[j]).spec_bytes()
        implies i == j by {
        assert(mark_at(i) == mark_at(j));
    }
}

/// Each key of the system properties is found at its own place, and at no
/// other.
pub proof fn lemma_key_position(i: int)
    requires
        0 <= i < PROPERTY_COUNT,
    ensures
        key_position(property_keys(), property_keys()[i].spec_bytes(), 0) == Some(i),
{
    lemma_keys_differ();
    lemma_key_position_from(i, 0);
}

proof fn lemma_key_position_from(i: int, from: int)
    requires
        0 <= from <= i < PROPERTY_COUNT,
        forall|a: int, b: int|
            0 <= a < PROPERTY_COUNT && 0 <= b < PROPERTY_COUNT && (
            #[trigger] property_keys()[a]).spec_bytes() == (#[trigger] property_keys()[b]).spec_bytes()
                ==> a == b,
    ensures
        key_position(property_keys(), property_keys()[i].spec_bytes(), from) == Some(i),
    decreases i - from,
{
    if from < i {
        lemma_key_position_from(i, from + 1);
    }
}

} // verus!
