//! What holds of the constant pool's indices.
//!
//! Adding a constant that the table holds returns the index it has and
//! changes nothing; two constants that differ never share an index; and a
//! constant that is new gets a greater index than every one before it.

use crate::constant_pool::{
    entry_fits, extends, fits, intern, place, place_class, place_name_and_type, texts_fit,
    well_formed, Constant, Entry, MAX_ENTRIES,
};
use vstd::prelude::*;

verus! {

/// The text of the text entry with the given index, if there is one.
pub open spec fn text_at(entries: Seq<Entry>, index: u16) -> Option<Seq<char>> {
    if 1 <= index <= entries.len() {
        match entries[index - 1] {
            Entry::Utf8(text) => Some(text),
            _ => None,
        }
    } else {
        None
    }
}

/// The name of the class entry with the given index, if there is one.
pub open spec fn class_at(entries: Seq<Entry>, index: u16) -> Option<Seq<char>> {
    if 1 <= index <= entries.len() {
        match entries[index - 1] {
            Entry::ClassRef(name) => text_at(entries, name),
            _ => None,
        }
    } else {
        None
    }
}

/// The name and descriptor of the member entry with the given index, if
/// there is one.
pub open spec fn member_at(entries: Seq<Entry>, index: u16) -> Option<(Seq<char>, Seq<char>)> {
    if 1 <= index <= entries.len() {
        match entries[index - 1] {
            Entry::NameAndType { name, descriptor } => match (
                text_at(entries, name),
                text_at(entries, descriptor),
            ) {
                (Some(name), Some(descriptor)) => Some((name, descriptor)),
                _ => None,
            },
            _ => None,
        }
    } else {
        None
    }
}

/// The constant that the entry with the given index stands for, read back
/// by following the indices it holds.
pub open spec fn constant_at(entries: Seq<Entry>, index: int) -> Option<Constant> {
    if 1 <= index <= entries.len() {
        match entries[index - 1] {
            Entry::Utf8(text) => Some(Constant::Utf8(text)),
            Entry::Integer(value) => Some(Constant::Integer(value)),
            Entry::String(text) => match text_at(entries, text) {
                Some(text) => Some(Constant::String(text)),
                None => None,
            },
            Entry::ClassRef(name) => match text_at(entries, name) {
                Some(name) => Some(Constant::Class(name)),
                None => None,
            },
            Entry::NameAndType { name, descriptor } => match (
                text_at(entries, name),
                text_at(entries, descriptor),
            ) {
                (Some(name), Some(descriptor)) => Some(Constant::NameAndType(name, descriptor)),
                _ => None,
            },
            Entry::MethodRef { class_ref, name_and_type } => match (
                class_at(entries, class_ref),
                member_at(entries, name_and_type),
            ) {
                (Some(class), Some(member)) => Some(Constant::MethodRef(class, member.0, member.1)),
                _ => None,
            },
            Entry::FieldRef { class_ref, name_and_type } => match (
                class_at(entries, class_ref),
                member_at(entries, name_and_type),
            ) {
                (Some(class), Some(member)) => Some(Constant::FieldRef(class, member.0, member.1)),
                _ => None,
            },
        }
    } else {
        None
    }
}

/// Placing an entry that is there, or one that fits at the end, keeps the
/// table well formed and every earlier entry in its place, and the entry
/// stands at the index returned.
pub proof fn lemma_place(entries: Seq<Entry>, entry: Entry)
    requires
        well_formed(entries),
        entries.contains(entry) || (entries.len() < MAX_ENTRIES && entry_fits(
            entry,
            entries.len() as int,
        )),
    ensures
        well_formed(place(entries, entry).0),
        extends(place(entries, entry).0, entries),
        1 <= place(entries, entry).1 <= place(entries, entry).0.len(),
        place(entries, entry).0[place(entries, entry).1 - 1] == entry,
        entries.contains(entry) ==> place(entries, entry).0 == entries,
        !entries.contains(entry) ==> place(entries, entry) == (
            entries.push(entry),
            (entries.len() + 1) as int,
        ),
{
    if entries.contains(entry) {
        let found = choose|i: int| 0 <= i < entries.len() && entries[i] == entry;
        assert(0 <= found < entries.len() && entries[found] == entry);
    } else {
        let extended = entries.push(entry);
        assert forall|i: int, j: int|
            0 <= i < extended.len() && 0 <= j < extended.len() && i != j implies extended[i]
            != extended[j] by {
            if i < entries.len() && j < entries.len() {
                assert(entries[i] != entries[j]);
            } else if i < entries.len() {
                assert(entries.contains(entries[i]));
            } else {
                assert(entries.contains(entries[j]));
            }
        }
        assert forall|i: int| 0 <= i < extended.len() implies entry_fits(
            #[trigger] extended[i],
            i,
        ) by {
            if i < entries.len() {
                assert(extended[i] == entries[i]);
            }
        }
    }
}

/// In a table without repetition, placing an entry that stands at `index`
/// returns `index` and changes nothing.
pub proof fn lemma_place_found(entries: Seq<Entry>, entry: Entry, index: int)
    requires
        entries.no_duplicates(),
        1 <= index <= entries.len(),
        entries[index - 1] == entry,
    ensures
        place(entries, entry) == (entries, index),
{
    assert(entries.contains(entry));
    let chosen = choose|i: int| 0 <= i < entries.len() && entries[i] == entry;
    assert(0 <= chosen < entries.len() && entries[chosen] == entry);
}

/// Whether an entry of this kind is placed as a part of another constant
/// only: a text on its way to a string, or a class or a member on its way to
/// a method or a field.
pub open spec fn is_part(entry: Entry) -> bool {
    entry is Utf8 || entry is ClassRef || entry is NameAndType
}

/// The last step of adding a constant: its own entry is placed in a table
/// that holds its parts, of which those from `start` on are new. If
/// anything was new, the entry is new too and stands last. `part` is an
/// index that the entry holds.
proof fn lemma_place_whole(start: int, parts: Seq<Entry>, entry: Entry, part: int)
    requires
        well_formed(parts),
        start <= parts.len(),
        parts.contains(entry) || (parts.len() < MAX_ENTRIES && entry_fits(
            entry,
            parts.len() as int,
        )),
        forall|before: int| #[trigger] entry_fits(entry, before) ==> part <= before,
        parts.len() > start ==> part > start,
        forall|i: int| start <= i < parts.len() ==> #[trigger] parts[i] != entry,
    ensures
        well_formed(place(parts, entry).0),
        extends(place(parts, entry).0, parts),
        1 <= place(parts, entry).1 <= place(parts, entry).0.len(),
        place(parts, entry).0[place(parts, entry).1 - 1] == entry,
        place(parts, entry).0.len() > start ==> place(parts, entry).1 == place(
            parts,
            entry,
        ).0.len(),
{
    lemma_place(parts, entry);
    if parts.contains(entry) {
        let index = place(parts, entry).1;
        assert(entry_fits(parts[index - 1], index - 1));
        if parts.len() > start {
            assert(parts[index - 1] != entry);
        }
    }
}

/// What holds after a text was placed.
proof fn lemma_place_text(entries: Seq<Entry>, text: Seq<char>)
    requires
        well_formed(entries),
        texts_fit(Constant::Utf8(text)),
        place(entries, Entry::Utf8(text)).0.len() <= MAX_ENTRIES,
    ensures
        well_formed(place(entries, Entry::Utf8(text)).0),
        extends(place(entries, Entry::Utf8(text)).0, entries),
        1 <= place(entries, Entry::Utf8(text)).1 <= place(entries, Entry::Utf8(text)).0.len(),
        text_at(
            place(entries, Entry::Utf8(text)).0,
            place(entries, Entry::Utf8(text)).1 as u16,
        ) == Some(text),
        place(entries, Entry::Utf8(text)).0.len() > entries.len() ==> place(
            entries,
            Entry::Utf8(text),
        ).1 == place(entries, Entry::Utf8(text)).0.len(),
        forall|i: int|
            entries.len() <= i < place(entries, Entry::Utf8(text)).0.len() ==> (#[trigger] place(
                entries,
                Entry::Utf8(text),
            ).0[i]) is Utf8,
{
    lemma_place(entries, Entry::Utf8(text));
}

/// What holds after a class was placed.
proof fn lemma_place_class(entries: Seq<Entry>, name: Seq<char>)
    requires
        well_formed(entries),
        texts_fit(Constant::Class(name)),
        place_class(entries, name).0.len() <= MAX_ENTRIES,
    ensures
        well_formed(place_class(entries, name).0),
        extends(place_class(entries, name).0, entries),
        1 <= place_class(entries, name).1 <= place_class(entries, name).0.len(),
        class_at(place_class(entries, name).0, place_class(entries, name).1 as u16) == Some(name),
        place_class(entries, name).0.len() > entries.len() ==> place_class(entries, name).1
            == place_class(entries, name).0.len(),
        forall|i: int|
            entries.len() <= i < place_class(entries, name).0.len() ==> is_part(
                #[trigger] place_class(entries, name).0[i],
            ),
{
    lemma_place_text(entries, name);
    let (named, name_index) = place(entries, Entry::Utf8(name));
    let class = Entry::ClassRef(name_index as u16);
    lemma_place_whole(entries.len() as int, named, class, name_index);
    lemma_place(named, class);
    lemma_text_at_extends(named, place(named, class).0, name_index as u16);
    let table = place(named, class).0;
    assert forall|i: int| entries.len() <= i < table.len() implies is_part(
        #[trigger] table[i],
    ) by {
        if i < named.len() {
            assert(table[i] == named[i]);
        }
    }
}

/// What holds after a string constant was placed.
proof fn lemma_place_string(entries: Seq<Entry>, text: Seq<char>)
    requires
        well_formed(entries),
        fits(entries, Constant::String(text)),
    ensures
        well_formed(intern(entries, Constant::String(text)).0),
        extends(intern(entries, Constant::String(text)).0, entries),
        1 <= intern(entries, Constant::String(text)).1 <= intern(
            entries,
            Constant::String(text),
        ).0.len(),
        constant_at(
            intern(entries, Constant::String(text)).0,
            intern(entries, Constant::String(text)).1,
        ) == Some(Constant::String(text)),
        intern(entries, Constant::String(text)).0.len() > entries.len() ==> intern(
            entries,
            Constant::String(text),
        ).1 == intern(entries, Constant::String(text)).0.len(),
{
    lemma_place_text(entries, text);
    let (with_text, text_index) = place(entries, Entry::Utf8(text));
    let string = Entry::String(text_index as u16);
    lemma_place_whole(entries.len() as int, with_text, string, text_index);
    lemma_text_at_extends(with_text, place(with_text, string).0, text_index as u16);
}

/// What holds after a member was placed.
proof fn lemma_place_member(entries: Seq<Entry>, name: Seq<char>, descriptor: Seq<char>)
    requires
        well_formed(entries),
        texts_fit(Constant::NameAndType(name, descriptor)),
        place_name_and_type(entries, name, descriptor).0.len() <= MAX_ENTRIES,
    ensures
        well_formed(place_name_and_type(entries, name, descriptor).0),
        extends(place_name_and_type(entries, name, descriptor).0, entries),
        1 <= place_name_and_type(entries, name, descriptor).1 <= place_name_and_type(
            entries,
            name,
            descriptor,
        ).0.len(),
        member_at(
            place_name_and_type(entries, name, descriptor).0,
            place_name_and_type(entries, name, descriptor).1 as u16,
        ) == Some((name, descriptor)),
        place_name_and_type(entries, name, descriptor).0.len() > entries.len()
            ==> place_name_and_type(entries, name, descriptor).1 == place_name_and_type(
            entries,
            name,
            descriptor,
        ).0.len(),
        forall|i: int|
            entries.len() <= i < place_name_and_type(entries, name, descriptor).0.len()
                ==> is_part(#[trigger] place_name_and_type(entries, name, descriptor).0[i]),
{
    lemma_place_text(entries, name);
    let (named, name_index) = place(entries, Entry::Utf8(name));
    lemma_place_text(named, descriptor);
    let (described, descriptor_index) = place(named, Entry::Utf8(descriptor));
    let member = Entry::NameAndType {
        name: name_index as u16,
        descriptor: descriptor_index as u16,
    };
    lemma_text_at_extends(named, described, name_index as u16);
    let part = if name_index > descriptor_index {
        name_index
    } else {
        descriptor_index
    };
    assert forall|i: int| entries.len() <= i < described.len() implies (
    #[trigger] described[i]) is Utf8 by {
        if i < named.len() {
            assert(described[i] == named[i]);
        }
    }
    lemma_place_whole(entries.len() as int, described, member, part);
    lemma_place(described, member);
    let table = place(described, member).0;
    lemma_text_at_extends(described, table, name_index as u16);
    lemma_text_at_extends(described, table, descriptor_index as u16);
    assert forall|i: int| entries.len() <= i < table.len() implies is_part(
        #[trigger] table[i],
    ) by {
        if i < described.len() {
            assert(table[i] == described[i]);
        }
    }
}

/// What holds after a method or a field was placed.
proof fn lemma_place_reference(
    entries: Seq<Entry>,
    class: Seq<char>,
    name: Seq<char>,
    descriptor: Seq<char>,
    method: bool,
)
    requires
        well_formed(entries),
        fits(entries, reference(class, name, descriptor, method)),
    ensures
        well_formed(intern(entries, reference(class, name, descriptor, method)).0),
        extends(intern(entries, reference(class, name, descriptor, method)).0, entries),
        1 <= intern(entries, reference(class, name, descriptor, method)).1 <= intern(
            entries,
            reference(class, name, descriptor, method),
        ).0.len(),
        constant_at(
            intern(entries, reference(class, name, descriptor, method)).0,
            intern(entries, reference(class, name, descriptor, method)).1,
        ) == Some(reference(class, name, descriptor, method)),
        intern(entries, reference(class, name, descriptor, method)).0.len() > entries.len()
            ==> intern(entries, reference(class, name, descriptor, method)).1 == intern(
            entries,
            reference(class, name, descriptor, method),
        ).0.len(),
{
    let (with_class, class_index) = place_class(entries, class);
    let (with_member, member_index) = place_name_and_type(with_class, name, descriptor);
    let whole = if method {
        Entry::MethodRef { class_ref: class_index as u16, name_and_type: member_index as u16 }
    } else {
        Entry::FieldRef { class_ref: class_index as u16, name_and_type: member_index as u16 }
    };
    lemma_member_table_bounds(with_class, name, descriptor, whole);
    lemma_class_table_bounds(entries, class);
    lemma_place_class(entries, class);
    lemma_place_member(with_class, name, descriptor);
    lemma_class_at_extends(with_class, with_member, class_index as u16);
    let part = if class_index > member_index {
        class_index
    } else {
        member_index
    };
    assert forall|i: int| entries.len() <= i < with_member.len() implies is_part(
        #[trigger] with_member[i],
    ) by {
        if i < with_class.len() {
            assert(with_member[i] == with_class[i]);
        }
    }
    lemma_place_whole(entries.len() as int, with_member, whole, part);
    let table = place(with_member, whole).0;
    lemma_class_at_extends(with_member, table, class_index as u16);
    lemma_member_at_extends(with_member, table, member_index as u16);
}

/// A method or a field of a class.
pub open spec fn reference(
    class: Seq<char>,
    name: Seq<char>,
    descriptor: Seq<char>,
    method: bool,
) -> Constant {
    if method {
        Constant::MethodRef(class, name, descriptor)
    } else {
        Constant::FieldRef(class, name, descriptor)
    }
}

/// What holds after a constant was added.
proof fn lemma_intern(entries: Seq<Entry>, constant: Constant)
    requires
        well_formed(entries),
        fits(entries, constant),
    ensures
        well_formed(intern(entries, constant).0),
        extends(intern(entries, constant).0, entries),
        1 <= intern(entries, constant).1 <= intern(entries, constant).0.len(),
        constant_at(intern(entries, constant).0, intern(entries, constant).1) == Some(constant),
        intern(entries, constant).0.len() > entries.len() ==> intern(entries, constant).1
            == intern(entries, constant).0.len(),
{
    match constant {
        Constant::Utf8(text) => {
            lemma_place(entries, Entry::Utf8(text));
        },
        Constant::Integer(value) => {
            lemma_place(entries, Entry::Integer(value));
        },
        Constant::String(text) => {
            lemma_place_string(entries, text);
        },
        Constant::Class(name) => {
            lemma_place_class(entries, name);
        },
        Constant::NameAndType(name, descriptor) => {
            lemma_place_member(entries, name, descriptor);
        },
        Constant::MethodRef(class, name, descriptor) => {
            lemma_place_reference(entries, class, name, descriptor, true);
        },
        Constant::FieldRef(class, name, descriptor) => {
            lemma_place_reference(entries, class, name, descriptor, false);
        },
    }
}

/// Placing never makes a table shorter.
proof fn lemma_class_table_bounds(entries: Seq<Entry>, name: Seq<char>)
    ensures
        entries.len() <= place_class(entries, name).0.len(),
{
}

/// Placing never makes a table shorter, so the table after a member and one
/// more entry is at least as long as the tables on the way.
proof fn lemma_member_table_bounds(
    entries: Seq<Entry>,
    name: Seq<char>,
    descriptor: Seq<char>,
    last: Entry,
)
    ensures
        entries.len() <= place_name_and_type(entries, name, descriptor).0.len() <= place(
            place_name_and_type(entries, name, descriptor).0,
            last,
        ).0.len(),
{
}

/// A text entry reads the same in a table with more entries at its end.
proof fn lemma_text_at_extends(earlier: Seq<Entry>, later: Seq<Entry>, index: u16)
    requires
        extends(later, earlier),
        text_at(earlier, index) is Some,
    ensures
        text_at(later, index) == text_at(earlier, index),
{
    assert(later[index - 1] == earlier[index - 1]);
}

/// A class entry reads the same in a table with more entries at its end.
proof fn lemma_class_at_extends(earlier: Seq<Entry>, later: Seq<Entry>, index: u16)
    requires
        extends(later, earlier),
        class_at(earlier, index) is Some,
    ensures
        class_at(later, index) == class_at(earlier, index),
{
    assert(later[index - 1] == earlier[index - 1]);
    match earlier[index - 1] {
        Entry::ClassRef(name) => lemma_text_at_extends(earlier, later, name),
        _ => {},
    }
}

/// A member entry reads the same in a table with more entries at its end.
proof fn lemma_member_at_extends(earlier: Seq<Entry>, later: Seq<Entry>, index: u16)
    requires
        extends(later, earlier),
        member_at(earlier, index) is Some,
    ensures
        member_at(later, index) == member_at(earlier, index),
{
    assert(later[index - 1] == earlier[index - 1]);
    match earlier[index - 1] {
        Entry::NameAndType { name, descriptor } => {
            lemma_text_at_extends(earlier, later, name);
            lemma_text_at_extends(earlier, later, descriptor);
        },
        _ => {},
    }
}

/// An entry reads back the same in a table with more entries at its end.
proof fn lemma_constant_at_extends(earlier: Seq<Entry>, later: Seq<Entry>, index: int)
    requires
        extends(later, earlier),
        constant_at(earlier, index) is Some,
    ensures
        constant_at(later, index) == constant_at(earlier, index),
{
    assert(later[index - 1] == earlier[index - 1]);
    match earlier[index - 1] {
        Entry::String(text) => lemma_text_at_extends(earlier, later, text),
        Entry::ClassRef(name) => lemma_text_at_extends(earlier, later, name),
        Entry::NameAndType { name, descriptor } => {
            lemma_text_at_extends(earlier, later, name);
            lemma_text_at_extends(earlier, later, descriptor);
        },
        Entry::MethodRef { class_ref, name_and_type } => {
            lemma_class_at_extends(earlier, later, class_ref);
            lemma_member_at_extends(earlier, later, name_and_type);
        },
        Entry::FieldRef { class_ref, name_and_type } => {
            lemma_class_at_extends(earlier, later, class_ref);
            lemma_member_at_extends(earlier, later, name_and_type);
        },
        _ => {},
    }
}

/// In a table without repetition, the class that reads back at `index` is
/// found there.
proof fn lemma_held_class_found(entries: Seq<Entry>, name: Seq<char>, index: u16)
    requires
        entries.no_duplicates(),
        class_at(entries, index) == Some(name),
    ensures
        place_class(entries, name) == (entries, index as int),
{
    match entries[index - 1] {
        Entry::ClassRef(name_index) => {
            lemma_place_found(entries, Entry::Utf8(name), name_index as int);
            lemma_place_found(entries, Entry::ClassRef(name_index), index as int);
        },
        _ => {},
    }
}

/// In a table without repetition, the member that reads back at `index` is
/// found there.
proof fn lemma_held_member_found(
    entries: Seq<Entry>,
    name: Seq<char>,
    descriptor: Seq<char>,
    index: u16,
)
    requires
        entries.no_duplicates(),
        member_at(entries, index) == Some((name, descriptor)),
    ensures
        place_name_and_type(entries, name, descriptor) == (entries, index as int),
{
    match entries[index - 1] {
        Entry::NameAndType { name: name_index, descriptor: descriptor_index } => {
            lemma_place_found(entries, Entry::Utf8(name), name_index as int);
            lemma_place_found(entries, Entry::Utf8(descriptor), descriptor_index as int);
            lemma_place_found(entries, entries[index - 1], index as int);
        },
        _ => {},
    }
}

/// In a table without repetition, adding the constant that reads back at
/// `index` returns `index` and changes nothing.
pub proof fn lemma_held_constant_found(entries: Seq<Entry>, constant: Constant, index: int)
    requires
        entries.no_duplicates(),
        constant_at(entries, index) == Some(constant),
    ensures
        intern(entries, constant) == (entries, index),
{
    let entry = entries[index - 1];
    lemma_place_found(entries, entry, index);
    match entry {
        Entry::String(text_index) => {
            lemma_place_found(entries, entries[text_index - 1], text_index as int);
        },
        Entry::ClassRef(name_index) => {
            lemma_place_found(entries, entries[name_index - 1], name_index as int);
        },
        Entry::NameAndType { name, descriptor } => {
            lemma_place_found(entries, entries[name - 1], name as int);
            lemma_place_found(entries, entries[descriptor - 1], descriptor as int);
        },
        Entry::MethodRef { class_ref, name_and_type } => {
            let member = member_at(entries, name_and_type).unwrap();
            lemma_held_class_found(entries, class_at(entries, class_ref).unwrap(), class_ref);
            lemma_held_member_found(entries, member.0, member.1, name_and_type);
        },
        Entry::FieldRef { class_ref, name_and_type } => {
            let member = member_at(entries, name_and_type).unwrap();
            lemma_held_class_found(entries, class_at(entries, class_ref).unwrap(), class_ref);
            lemma_held_member_found(entries, member.0, member.1, name_and_type);
        },
        _ => {},
    }
}

/// Adding a constant that fits keeps the table well formed and every earlier
/// entry in its place. The index returned lies in the table, and the entry
/// there reads back as the constant: in this table and in every `later` one
/// that has more entries at its end.
pub proof fn lemma_index_reads_back(entries: Seq<Entry>, constant: Constant, later: Seq<Entry>)
    requires
        well_formed(entries),
        fits(entries, constant),
        extends(later, intern(entries, constant).0),
    ensures
        well_formed(intern(entries, constant).0),
        extends(intern(entries, constant).0, entries),
        1 <= intern(entries, constant).1 <= intern(entries, constant).0.len(),
        constant_at(later, intern(entries, constant).1) == Some(constant),
{
    lemma_intern(entries, constant);
    lemma_constant_at_extends(intern(entries, constant).0, later, intern(entries, constant).1);
}

/// A constant added twice gets the same index both times, whatever was
/// added in between, and the second addition changes nothing.
pub proof fn lemma_same_constant_same_index(
    entries: Seq<Entry>,
    constant: Constant,
    later: Seq<Entry>,
)
    requires
        well_formed(entries),
        fits(entries, constant),
        well_formed(later),
        extends(later, intern(entries, constant).0),
    ensures
        intern(later, constant) == (later, intern(entries, constant).1),
{
    lemma_index_reads_back(entries, constant, later);
    lemma_held_constant_found(later, constant, intern(entries, constant).1);
}

/// Two constants that differ get indices that differ, whatever was added
/// between the first and the second.
pub proof fn lemma_distinct_constants_distinct_indices(
    entries: Seq<Entry>,
    first: Constant,
    later: Seq<Entry>,
    second: Constant,
)
    requires
        well_formed(entries),
        fits(entries, first),
        well_formed(later),
        extends(later, intern(entries, first).0),
        fits(later, second),
        first != second,
    ensures
        intern(entries, first).1 != intern(later, second).1,
{
    let last = intern(later, second).0;
    lemma_index_reads_back(later, second, last);
    lemma_index_reads_back(entries, first, last);
}

/// A constant whose addition makes the table longer is new. It stands
/// last, so its index is the new length of the table, and that is greater
/// than the index of every constant added before it: indices grow in the
/// order in which constants first arrive.
pub proof fn lemma_new_constant_greater_index(
    entries: Seq<Entry>,
    first: Constant,
    later: Seq<Entry>,
    second: Constant,
)
    requires
        well_formed(entries),
        fits(entries, first),
        well_formed(later),
        extends(later, intern(entries, first).0),
        fits(later, second),
        intern(later, second).0.len() > later.len(),
    ensures
        intern(entries, first).1 <= later.len() < intern(later, second).1,
        intern(later, second).1 == intern(later, second).0.len(),
{
    lemma_intern(entries, first);
    lemma_intern(later, second);
}

/// A constant that reads back at no index of a table is new to it: adding
/// it makes the table longer, and its index is the new length.
pub proof fn lemma_unheld_constant_is_new(entries: Seq<Entry>, constant: Constant)
    requires
        well_formed(entries),
        fits(entries, constant),
        forall|index: int| constant_at(entries, index) != Some(constant),
    ensures
        intern(entries, constant).0.len() > entries.len(),
        intern(entries, constant).1 == intern(entries, constant).0.len(),
{
    lemma_intern(entries, constant);
    let (table, index) = intern(entries, constant);
    if table.len() <= entries.len() {
        assert(table =~= entries);
        assert(constant_at(entries, index) == Some(constant));
    }
}

/// In a table without repetition a constant has one entry: two indices at
/// which the same constant reads back are the same index.
pub proof fn lemma_one_entry_per_constant(
    entries: Seq<Entry>,
    constant: Constant,
    first: int,
    second: int,
)
    requires
        entries.no_duplicates(),
        constant_at(entries, first) == Some(constant),
        constant_at(entries, second) == Some(constant),
    ensures
        first == second,
{
    lemma_held_constant_found(entries, constant, first);
    lemma_held_constant_found(entries, constant, second);
}

} // verus!
