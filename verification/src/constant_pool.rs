//! The constant pool: a table of constants without repetition.
//!
//! Bytecode refers to text, classes, fields, methods and integers by their
//! index in this table. Indices start at 1, are handed out in the order in
//! which entries first arrive, and never change afterwards. Adding a
//! constant that is already there returns the index it has.

use crate::big_endian::{append_bytes, i32_be, u16_be, write_i32, write_u16};
use crate::pool_laws::{lemma_place, lemma_place_found};
use vstd::prelude::*;
use vstd::utf8::encode_utf8;

verus! {

/// The largest number of entries: the entry count plus one is stored in
/// sixteen bits.
pub const MAX_ENTRIES: usize = 65534;

/// The largest number of bytes in the UTF-8 form of one text entry: that
/// number is stored in sixteen bits.
pub const MAX_UTF8_LENGTH: usize = 65535;

/// Text.
pub struct Utf8(pub String);

/// A string constant with the given text.
pub struct JString(pub Utf8);

/// A class with the given name.
pub struct Class(pub Utf8);

/// A member's name and its type descriptor.
pub struct NameAndType(pub Utf8, pub Utf8);

/// A method of a class.
pub struct MethodRef(pub Class, pub NameAndType);

/// A field of a class.
pub struct FieldRef(pub Class, pub NameAndType);

/// A constant as callers describe it: by its text, not by indices.
pub enum PoolItem {
    Utf8(Utf8),
    String(JString),
    Class(Class),
    NameAndType(NameAndType),
    MethodRef(MethodRef),
    FieldRef(FieldRef),
    Integer(i32),
}

/// What a `PoolItem` stands for.
pub enum Constant {
    Utf8(Seq<char>),
    String(Seq<char>),
    Class(Seq<char>),
    NameAndType(Seq<char>, Seq<char>),
    MethodRef(Seq<char>, Seq<char>, Seq<char>),
    FieldRef(Seq<char>, Seq<char>, Seq<char>),
    Integer(i32),
}

impl View for PoolItem {
    type V = Constant;

    open spec fn view(&self) -> Constant {
        match self {
            PoolItem::Utf8(text) => Constant::Utf8(text.0@),
            PoolItem::String(string) => Constant::String(string.0.0@),
            PoolItem::Class(class) => Constant::Class(class.0.0@),
            PoolItem::NameAndType(member) => Constant::NameAndType(member.0.0@, member.1.0@),
            PoolItem::MethodRef(method) => Constant::MethodRef(
                method.0.0.0@,
                method.1.0.0@,
                method.1.1.0@,
            ),
            PoolItem::FieldRef(field) => Constant::FieldRef(
                field.0.0.0@,
                field.1.0.0@,
                field.1.1.0@,
            ),
            PoolItem::Integer(value) => Constant::Integer(*value),
        }
    }
}

/// One entry of the table. An entry that is made of others holds their
/// indices.
pub enum Entry {
    Utf8(Seq<char>),
    String(u16),
    ClassRef(u16),
    NameAndType { name: u16, descriptor: u16 },
    MethodRef { class_ref: u16, name_and_type: u16 },
    FieldRef { class_ref: u16, name_and_type: u16 },
    Integer(i32),
}

/// Whether `entry` can stand where `before` entries precede it: its text is
/// short enough to be written, and the entries it refers to precede it.
pub open spec fn entry_fits(entry: Entry, before: int) -> bool {
    match entry {
        Entry::Utf8(text) => encode_utf8(text).len() <= MAX_UTF8_LENGTH,
        Entry::String(text) => 1 <= text <= before,
        Entry::ClassRef(name) => 1 <= name <= before,
        Entry::NameAndType { name, descriptor } => 1 <= name <= before && 1 <= descriptor
            <= before,
        Entry::MethodRef { class_ref, name_and_type } => 1 <= class_ref <= before && 1
            <= name_and_type <= before,
        Entry::FieldRef { class_ref, name_and_type } => 1 <= class_ref <= before && 1
            <= name_and_type <= before,
        Entry::Integer(_) => true,
    }
}

/// The invariant of a table: it is not over-full, no entry occurs twice, and
/// every entry can stand where it is.
pub open spec fn well_formed(entries: Seq<Entry>) -> bool {
    &&& entries.len() <= MAX_ENTRIES
    &&& entries.no_duplicates()
    &&& forall|i: int| 0 <= i < entries.len() ==> entry_fits(#[trigger] entries[i], i)
}

/// The index of `entry` in `entries`, counted from 1. Meaningful where the
/// entry occurs.
pub open spec fn index_of(entries: Seq<Entry>, entry: Entry) -> int {
    1 + choose|i: int| 0 <= i < entries.len() && entries[i] == entry
}

/// The table after `entry` was asked for, and the index of `entry` in it:
/// an entry that is there keeps its place, a new one goes to the end.
pub open spec fn place(entries: Seq<Entry>, entry: Entry) -> (Seq<Entry>, int) {
    if entries.contains(entry) {
        (entries, index_of(entries, entry))
    } else {
        (entries.push(entry), (entries.len() + 1) as int)
    }
}

/// `place` for a class: first its name, then the class entry.
pub open spec fn place_class(entries: Seq<Entry>, name: Seq<char>) -> (Seq<Entry>, int) {
    let (named, name_index) = place(entries, Entry::Utf8(name));
    place(named, Entry::ClassRef(name_index as u16))
}

/// `place` for a member: its name, its descriptor, then the pair.
pub open spec fn place_name_and_type(
    entries: Seq<Entry>,
    name: Seq<char>,
    descriptor: Seq<char>,
) -> (Seq<Entry>, int) {
    let (named, name_index) = place(entries, Entry::Utf8(name));
    let (described, descriptor_index) = place(named, Entry::Utf8(descriptor));
    place(
        described,
        Entry::NameAndType { name: name_index as u16, descriptor: descriptor_index as u16 },
    )
}

/// The table after `constant` was added, and the index of `constant` in it.
/// The parts of a constant are placed before the constant itself, in the
/// order in which it names them.
pub open spec fn intern(entries: Seq<Entry>, constant: Constant) -> (Seq<Entry>, int) {
    match constant {
        Constant::Utf8(text) => place(entries, Entry::Utf8(text)),
        Constant::String(text) => {
            let (with_text, text_index) = place(entries, Entry::Utf8(text));
            place(with_text, Entry::String(text_index as u16))
        },
        Constant::Class(name) => place_class(entries, name),
        Constant::NameAndType(name, descriptor) => place_name_and_type(entries, name, descriptor),
        Constant::MethodRef(class, name, descriptor) => {
            let (with_class, class_index) = place_class(entries, class);
            let (with_member, member_index) = place_name_and_type(with_class, name, descriptor);
            place(
                with_member,
                Entry::MethodRef {
                    class_ref: class_index as u16,
                    name_and_type: member_index as u16,
                },
            )
        },
        Constant::FieldRef(class, name, descriptor) => {
            let (with_class, class_index) = place_class(entries, class);
            let (with_member, member_index) = place_name_and_type(with_class, name, descriptor);
            place(
                with_member,
                Entry::FieldRef {
                    class_ref: class_index as u16,
                    name_and_type: member_index as u16,
                },
            )
        },
        Constant::Integer(value) => place(entries, Entry::Integer(value)),
    }
}

/// Whether every text of `constant` is short enough for a text entry.
pub open spec fn texts_fit(constant: Constant) -> bool {
    match constant {
        Constant::Utf8(text) => encode_utf8(text).len() <= MAX_UTF8_LENGTH,
        Constant::String(text) => encode_utf8(text).len() <= MAX_UTF8_LENGTH,
        Constant::Class(name) => encode_utf8(name).len() <= MAX_UTF8_LENGTH,
        Constant::NameAndType(name, descriptor) => encode_utf8(name).len() <= MAX_UTF8_LENGTH
            && encode_utf8(descriptor).len() <= MAX_UTF8_LENGTH,
        Constant::MethodRef(class, name, descriptor) => encode_utf8(class).len()
            <= MAX_UTF8_LENGTH && encode_utf8(name).len() <= MAX_UTF8_LENGTH && encode_utf8(
            descriptor,
        ).len() <= MAX_UTF8_LENGTH,
        Constant::FieldRef(class, name, descriptor) => encode_utf8(class).len()
            <= MAX_UTF8_LENGTH && encode_utf8(name).len() <= MAX_UTF8_LENGTH && encode_utf8(
            descriptor,
        ).len() <= MAX_UTF8_LENGTH,
        Constant::Integer(_) => true,
    }
}

/// Whether `constant` can be added to `entries`: its texts are short
/// enough, and the table with it is not over-full.
pub open spec fn fits(entries: Seq<Entry>, constant: Constant) -> bool {
    texts_fit(constant) && intern(entries, constant).0.len() <= MAX_ENTRIES
}

/// Whether `later` is `earlier` with entries added at its end, so that every
/// entry of `earlier` has kept its index.
pub open spec fn extends(later: Seq<Entry>, earlier: Seq<Entry>) -> bool {
    &&& earlier.len() <= later.len()
    &&& forall|i: int| 0 <= i < earlier.len() ==> later[i] == earlier[i]
}

/// The bytes of one entry: a tag, then the text with its length before it,
/// or the indices, or the integer.
pub open spec fn entry_bytes(entry: Entry) -> Seq<u8> {
    match entry {
        Entry::Utf8(text) => seq![1u8] + u16_be(encode_utf8(text).len() as u16) + encode_utf8(
            text,
        ),
        Entry::Integer(value) => seq![3u8] + i32_be(value),
        Entry::ClassRef(name) => seq![7u8] + u16_be(name),
        Entry::String(text) => seq![8u8] + u16_be(text),
        Entry::FieldRef { class_ref, name_and_type } => seq![9u8] + u16_be(class_ref) + u16_be(
            name_and_type,
        ),
        Entry::MethodRef { class_ref, name_and_type } => seq![10u8] + u16_be(class_ref) + u16_be(
            name_and_type,
        ),
        Entry::NameAndType { name, descriptor } => seq![12u8] + u16_be(name) + u16_be(descriptor),
    }
}

/// The bytes of a table: those of its entries, in index order.
pub open spec fn table_bytes(entries: Seq<Entry>) -> Seq<u8>
    decreases entries.len(),
{
    if entries.len() == 0 {
        Seq::empty()
    } else {
        table_bytes(entries.drop_last()) + entry_bytes(entries.last())
    }
}

/// An entry as the table stores it.
enum ConstantPoolItem {
    Utf8(String),
    String(u16),
    ClassRef(u16),
    NameAndType { name: u16, descriptor: u16 },
    MethodRef { class_ref: u16, name_and_type: u16 },
    FieldRef { class_ref: u16, name_and_type: u16 },
    Integer(i32),
}

impl View for ConstantPoolItem {
    type V = Entry;

    closed spec fn view(&self) -> Entry {
        match self {
            ConstantPoolItem::Utf8(text) => Entry::Utf8(text@),
            ConstantPoolItem::String(text) => Entry::String(*text),
            ConstantPoolItem::ClassRef(name) => Entry::ClassRef(*name),
            ConstantPoolItem::NameAndType { name, descriptor } => Entry::NameAndType {
                name: *name,
                descriptor: *descriptor,
            },
            ConstantPoolItem::MethodRef { class_ref, name_and_type } => Entry::MethodRef {
                class_ref: *class_ref,
                name_and_type: *name_and_type,
            },
            ConstantPoolItem::FieldRef { class_ref, name_and_type } => Entry::FieldRef {
                class_ref: *class_ref,
                name_and_type: *name_and_type,
            },
            ConstantPoolItem::Integer(value) => Entry::Integer(*value),
        }
    }
}

impl ConstantPoolItem {
    /// Whether two stored entries are the same entry.
    fn same(&self, other: &ConstantPoolItem) -> (same: bool)
        ensures
            same == (self@ == other@),
    {
        match (self, other) {
            (ConstantPoolItem::Utf8(a), ConstantPoolItem::Utf8(b)) => {
                proof {
                    assert((a@ == b@) == (a@ =~= b@));
                }
                *a == *b
            },
            (ConstantPoolItem::String(a), ConstantPoolItem::String(b)) => *a == *b,
            (ConstantPoolItem::ClassRef(a), ConstantPoolItem::ClassRef(b)) => *a == *b,
            (
                ConstantPoolItem::NameAndType { name: a, descriptor: b },
                ConstantPoolItem::NameAndType { name: c, descriptor: d },
            ) => *a == *c && *b == *d,
            (
                ConstantPoolItem::MethodRef { class_ref: a, name_and_type: b },
                ConstantPoolItem::MethodRef { class_ref: c, name_and_type: d },
            ) => *a == *c && *b == *d,
            (
                ConstantPoolItem::FieldRef { class_ref: a, name_and_type: b },
                ConstantPoolItem::FieldRef { class_ref: c, name_and_type: d },
            ) => *a == *c && *b == *d,
            (ConstantPoolItem::Integer(a), ConstantPoolItem::Integer(b)) => *a == *b,
            _ => false,
        }
    }
}

/// The table. Entries are kept in index order: the entry with index `i`
/// is the `i`-th that arrived.
pub struct ConstantPool {
    pool: Vec<ConstantPoolItem>,
}

impl View for ConstantPool {
    type V = Seq<Entry>;

    /// The entries in index order; the first has index 1.
    closed spec fn view(&self) -> Seq<Entry> {
        self.pool@.map_values(|item: ConstantPoolItem| item@)
    }
}

impl ConstantPool {
    /// The invariant that every operation keeps: see `well_formed`.
    pub open spec fn wf(&self) -> bool {
        well_formed(self@)
    }

    /// An empty table.
    pub fn new() -> (pool: Self)
        ensures
            pool.wf(),
            pool@ == Seq::<Entry>::empty(),
    {
        let pool = ConstantPool { pool: Vec::new() };
        assert(pool@ =~= Seq::<Entry>::empty());
        pool
    }

    /// The number of entries.
    pub fn len(&self) -> (count: usize)
        ensures
            count == self@.len(),
    {
        self.pool.len()
    }

    /// The index of `item`, if the table holds it.
    fn find(&self, item: &ConstantPoolItem) -> (found: Option<u16>)
        requires
            self.wf(),
        ensures
            match found {
                Some(index) => 1 <= index <= self@.len() && self@[index - 1] == item@,
                None => !self@.contains(item@),
            },
    {
        let mut i: usize = 0;
        while i < self.pool.len()
            invariant
                self.wf(),
                i <= self.pool.len(),
                forall|k: int| 0 <= k < i ==> self@[k] != item@,
            decreases self.pool.len() - i,
        {
            if self.pool[i].same(item) {
                return Some((i + 1) as u16);
            }
            i += 1;
        }
        None
    }

    /// Returns the index of `item`, appending it first if it is new. Returns
    /// `None`, and changes nothing, if it is new and the table is full.
    fn get_or_insert(&mut self, item: ConstantPoolItem) -> (index: Option<u16>)
        requires
            old(self).wf(),
            entry_fits(item@, old(self)@.len() as int),
        ensures
            final(self).wf(),
            extends(final(self)@, old(self)@),
            match index {
                Some(index) => (final(self)@, index as int) == place(old(self)@, item@),
                None => final(self)@ == old(self)@ && !old(self)@.contains(item@) && old(self)@.len()
                    == MAX_ENTRIES,
            },
    {
        match self.find(&item) {
            Some(index) => {
                proof {
                    lemma_place_found(self@, item@, index as int);
                }
                Some(index)
            },
            None => {
                if self.pool.len() >= MAX_ENTRIES {
                    return None;
                }
                let ghost before = self@;
                let ghost entry = item@;
                self.pool.push(item);
                assert(self@ =~= before.push(entry));
                proof {
                    lemma_place(before, entry);
                }
                Some(self.pool.len() as u16)
            },
        }
    }
}

impl ConstantPool {
    /// Places a text entry. Returns `None`, and changes nothing, if the text
    /// is too long or the table is full.
    fn place_utf8(&mut self, text: String) -> (index: Option<u16>)
        requires
            old(self).wf(),
        ensures
            final(self).wf(),
            extends(final(self)@, old(self)@),
            match index {
                Some(index) => encode_utf8(text@).len() <= MAX_UTF8_LENGTH && (
                final(self)@, index as int) == place(old(self)@, Entry::Utf8(text@)),
                None => final(self)@ == old(self)@ && !(encode_utf8(text@).len()
                    <= MAX_UTF8_LENGTH && place(old(self)@, Entry::Utf8(text@)).0.len()
                    <= MAX_ENTRIES),
            },
    {
        if text.as_str().as_bytes().len() > MAX_UTF8_LENGTH {
            return None;
        }
        self.get_or_insert(ConstantPoolItem::Utf8(text))
    }

    /// Places a class: its name, then the class entry. Stops at the first
    /// entry that cannot be placed.
    fn place_class_parts(&mut self, name: String) -> (index: Option<u16>)
        requires
            old(self).wf(),
        ensures
            final(self).wf(),
            extends(final(self)@, old(self)@),
            match index {
                Some(index) => encode_utf8(name@).len() <= MAX_UTF8_LENGTH && (
                final(self)@, index as int) == place_class(old(self)@, name@),
                None => !(encode_utf8(name@).len() <= MAX_UTF8_LENGTH && place_class(
                    old(self)@,
                    name@,
                ).0.len() <= MAX_ENTRIES),
            },
    {
        let name_index = self.place_utf8(name)?;
        self.get_or_insert(ConstantPoolItem::ClassRef(name_index))
    }

    /// Places a member: its name, its descriptor, then the pair. Stops at the
    /// first entry that cannot be placed.
    fn place_member_parts(&mut self, name: String, descriptor: String) -> (index: Option<u16>)
        requires
            old(self).wf(),
        ensures
            final(self).wf(),
            extends(final(self)@, old(self)@),
            match index {
                Some(index) => encode_utf8(name@).len() <= MAX_UTF8_LENGTH && encode_utf8(
                    descriptor@,
                ).len() <= MAX_UTF8_LENGTH && (final(self)@, index as int) == place_name_and_type(
                    old(self)@,
                    name@,
                    descriptor@,
                ),
                None => !(encode_utf8(name@).len() <= MAX_UTF8_LENGTH && encode_utf8(
                    descriptor@,
                ).len() <= MAX_UTF8_LENGTH && place_name_and_type(
                    old(self)@,
                    name@,
                    descriptor@,
                ).0.len() <= MAX_ENTRIES),
            },
    {
        let name_index = self.place_utf8(name)?;
        let descriptor_index = self.place_utf8(descriptor)?;
        self.get_or_insert(
            ConstantPoolItem::NameAndType { name: name_index, descriptor: descriptor_index },
        )
    }

    /// Places the parts of `item` and then `item`. Stops at the first entry
    /// that cannot be placed, leaving the earlier ones in the table.
    fn place_parts(&mut self, item: PoolItem) -> (index: Option<u16>)
        requires
            old(self).wf(),
        ensures
            final(self).wf(),
            extends(final(self)@, old(self)@),
            match index {
                Some(index) => fits(old(self)@, item@) && (final(self)@, index as int) == intern(
                    old(self)@,
                    item@,
                ),
                None => !fits(old(self)@, item@),
            },
    {
        match item {
            PoolItem::Utf8(text) => self.place_utf8(text.0),
            PoolItem::String(string) => {
                let text_index = self.place_utf8(string.0.0)?;
                self.get_or_insert(ConstantPoolItem::String(text_index))
            },
            PoolItem::Class(class) => self.place_class_parts(class.0.0),
            PoolItem::NameAndType(member) => self.place_member_parts(member.0.0, member.1.0),
            PoolItem::MethodRef(method) => {
                let class_ref = self.place_class_parts(method.0.0.0)?;
                let name_and_type = self.place_member_parts(method.1.0.0, method.1.1.0)?;
                self.get_or_insert(ConstantPoolItem::MethodRef { class_ref, name_and_type })
            },
            PoolItem::FieldRef(field) => {
                let class_ref = self.place_class_parts(field.0.0.0)?;
                let name_and_type = self.place_member_parts(field.1.0.0, field.1.1.0)?;
                self.get_or_insert(ConstantPoolItem::FieldRef { class_ref, name_and_type })
            },
            PoolItem::Integer(value) => self.get_or_insert(ConstantPoolItem::Integer(value)),
        }
    }

    /// Adds `item` if it fits, and returns its index: the one it had, if it
    /// was there. Where it does not fit, the table is left as it was.
    pub fn try_add_item(&mut self, item: PoolItem) -> (index: Option<u16>)
        requires
            old(self).wf(),
        ensures
            final(self).wf(),
            match index {
                Some(index) => fits(old(self)@, item@) && (final(self)@, index as int) == intern(
                    old(self)@,
                    item@,
                ),
                None => !fits(old(self)@, item@) && final(self)@ == old(self)@,
            },
    {
        let count = self.pool.len();
        let index = self.place_parts(item);
        if index.is_none() {
            self.pool.truncate(count);
            assert(self@ =~= old(self)@);
        }
        index
    }

    /// Adds `item` and returns its index: the one it had, if it was there.
    pub fn add_item(&mut self, item: PoolItem) -> (index: u16)
        requires
            old(self).wf(),
            fits(old(self)@, item@),
        ensures
            final(self).wf(),
            (final(self)@, index as int) == intern(old(self)@, item@),
    {
        self.try_add_item(item).unwrap()
    }

    /// Adds a text.
    pub fn add_utf8(&mut self, utf8: String) -> (index: u16)
        requires
            old(self).wf(),
            fits(old(self)@, Constant::Utf8(utf8@)),
        ensures
            final(self).wf(),
            (final(self)@, index as int) == intern(old(self)@, Constant::Utf8(utf8@)),
    {
        self.add_item(PoolItem::Utf8(Utf8(utf8)))
    }

    /// Adds a string constant.
    pub fn add_string(&mut self, string: String) -> (index: u16)
        requires
            old(self).wf(),
            fits(old(self)@, Constant::String(string@)),
        ensures
            final(self).wf(),
            (final(self)@, index as int) == intern(old(self)@, Constant::String(string@)),
    {
        self.add_item(PoolItem::String(JString(Utf8(string))))
    }

    /// Adds a class.
    pub fn add_class(&mut self, class: String) -> (index: u16)
        requires
            old(self).wf(),
            fits(old(self)@, Constant::Class(class@)),
        ensures
            final(self).wf(),
            (final(self)@, index as int) == intern(old(self)@, Constant::Class(class@)),
    {
        self.add_item(PoolItem::Class(Class(Utf8(class))))
    }

    /// Adds a method of a class.
    pub fn add_method(&mut self, class: String, method: String, descriptor: String) -> (index: u16)
        requires
            old(self).wf(),
            fits(old(self)@, Constant::MethodRef(class@, method@, descriptor@)),
        ensures
            final(self).wf(),
            (final(self)@, index as int) == intern(
                old(self)@,
                Constant::MethodRef(class@, method@, descriptor@),
            ),
    {
        self.add_item(
            PoolItem::MethodRef(
                MethodRef(Class(Utf8(class)), NameAndType(Utf8(method), Utf8(descriptor))),
            ),
        )
    }

    /// Adds a field of a class.
    pub fn add_field(&mut self, class: String, field: String, descriptor: String) -> (index: u16)
        requires
            old(self).wf(),
            fits(old(self)@, Constant::FieldRef(class@, field@, descriptor@)),
        ensures
            final(self).wf(),
            (final(self)@, index as int) == intern(
                old(self)@,
                Constant::FieldRef(class@, field@, descriptor@),
            ),
    {
        self.add_item(
            PoolItem::FieldRef(
                FieldRef(Class(Utf8(class)), NameAndType(Utf8(field), Utf8(descriptor))),
            ),
        )
    }

    /// Adds an integer.
    pub fn add_integer(&mut self, value: i32) -> (index: u16)
        requires
            old(self).wf(),
            fits(old(self)@, Constant::Integer(value)),
        ensures
            final(self).wf(),
            (final(self)@, index as int) == intern(old(self)@, Constant::Integer(value)),
    {
        self.add_item(PoolItem::Integer(value))
    }
}

impl ConstantPool {
    /// Appends the entries to `file` in index order: for each its tag, then
    /// its text with the length before it, or its indices, or its integer.
    pub fn write_to_file(&self, file: &mut Vec<u8>)
        requires
            self.wf(),
        ensures
            final(file)@ == old(file)@ + table_bytes(self@),
    {
        let mut i: usize = 0;
        assert(self@.subrange(0, 0) =~= Seq::<Entry>::empty());
        assert(file@ =~= old(file)@ + table_bytes(self@.subrange(0, 0)));
        while i < self.pool.len()
            invariant
                self.wf(),
                i <= self.pool.len(),
                file@ == old(file)@ + table_bytes(self@.subrange(0, i as int)),
            decreases self.pool.len() - i,
        {
            let ghost before = file@;
            let ghost entry = self@[i as int];
            match &self.pool[i] {
                ConstantPoolItem::Utf8(string) => {
                    let bytes = string.as_str().as_bytes();
                    file.push(1);
                    write_u16(file, bytes.len() as u16);
                    append_bytes(file, bytes);
                },
                ConstantPoolItem::Integer(value) => {
                    file.push(3);
                    write_i32(file, *value);
                },
                ConstantPoolItem::ClassRef(index) => {
                    file.push(7);
                    write_u16(file, *index);
                },
                ConstantPoolItem::String(index) => {
                    file.push(8);
                    write_u16(file, *index);
                },
                ConstantPoolItem::FieldRef { class_ref, name_and_type } => {
                    file.push(9);
                    write_u16(file, *class_ref);
                    write_u16(file, *name_and_type);
                },
                ConstantPoolItem::MethodRef { class_ref, name_and_type } => {
                    file.push(10);
                    write_u16(file, *class_ref);
                    write_u16(file, *name_and_type);
                },
                ConstantPoolItem::NameAndType { name, descriptor } => {
                    file.push(12);
                    write_u16(file, *name);
                    write_u16(file, *descriptor);
                },
            }
            assert(file@ =~= before + entry_bytes(entry));
            proof {
                let done = self@.subrange(0, i as int + 1);
                assert(done.drop_last() =~= self@.subrange(0, i as int));
                assert(done.last() == entry);
                assert(file@ =~= old(file)@ + table_bytes(done));
            }
            i += 1;
        }
        assert(self@.subrange(0, i as int) =~= self@);
    }
}

} // verus!
