//! The types and calls that this library takes from other crates. Nothing
//! here is proved: each contract restates what the named function does.
use vstd::prelude::*;
use crate::nodes::{NodeHandle, SchedulerMsg};
use keyboard_types::Modifiers;
use std::collections::HashMap;
use core::hash::BuildHasherDefault;
use fxhash::FxHasher;
use slab::Slab;
use futures_channel::mpsc::UnboundedSender;

verus! {

/// `fxhash::FxHasher`, the hasher of the arena's tables.
#[verifier::external_type_specification]
#[verifier::external_body]
pub struct ExFxHasher(FxHasher);

/// `core::hash::BuildHasherDefault`, which builds a hasher by `Default`.
#[verifier::external_type_specification]
#[verifier::external_body]
#[verifier::reject_recursive_types(H)]
pub struct ExBuildHasherDefault<H>(BuildHasherDefault<H>);

/// `slab::Slab`, a vector of slots whose released keys are handed out again.
#[verifier::external_type_specification]
#[verifier::external_body]
#[verifier::reject_recursive_types(T)]
pub struct ExSlab<T>(Slab<T>);

/// `futures_channel::mpsc::UnboundedSender`, the sending half of an
/// unbounded channel.
#[verifier::external_type_specification]
#[verifier::external_body]
#[verifier::reject_recursive_types(T)]
pub struct ExUnboundedSender<T>(UnboundedSender<T>);

/// `keyboard_types::Modifiers`, a set of modifier keys held in the bits of
/// a `u32`.
#[verifier::external_type_specification]
#[verifier::external_body]
pub struct ExModifiers(Modifiers);

/// A table keyed by `usize` and hashed with `FxHasher`.
pub type FxTable<V> = HashMap<usize, V, BuildHasherDefault<FxHasher>>;

/// `HashMap::insert` on a table hashed with `FxHasher`: the key is bound to
/// the value, and the value it was bound to before comes back.
#[verifier::external_body]
pub(crate) fn table_insert<V>(table: &mut FxTable<V>, key: usize, value: V) -> (prev: Option<V>)
    ensures
        final(table)@ == old(table)@.insert(key, value),
        prev == (if old(table)@.contains_key(key) {
            Some(old(table)@[key])
        } else {
            None
        }),
{
    table.insert(key, value)
}

/// `HashMap::get` on a table hashed with `FxHasher`: the value bound to the
/// key, if any.
#[verifier::external_body]
pub(crate) fn table_get<V>(table: &FxTable<V>, key: usize) -> (found: Option<&V>)
    ensures
        found == (if table@.contains_key(key) {
            Some(&table@[key])
        } else {
            None
        }),
{
    table.get(&key)
}

/// `HashMap::remove` on a table hashed with `FxHasher`: the key is unbound,
/// and the value it was bound to comes back.
#[verifier::external_body]
pub(crate) fn table_remove<V>(table: &mut FxTable<V>, key: usize) -> (prev: Option<V>)
    ensures
        final(table)@ == old(table)@.remove(key),
        prev == (if old(table)@.contains_key(key) {
            Some(old(table)@[key])
        } else {
            None
        }),
{
    table.remove(&key)
}

/// What a slab of node handles holds: each occupied key with its handle.
pub uninterp spec fn slab_entries(slab: Slab<NodeHandle>) -> Map<usize, NodeHandle>;

/// The entries of an empty slab.
pub open spec fn no_entries() -> Map<usize, NodeHandle> {
    Map::empty()
}

/// The key that the slab's next insertion will use (`Slab::vacant_key`).
pub uninterp spec fn slab_vacant_key(slab: Slab<NodeHandle>) -> usize;

/// `Slab::new`: an empty slab, whose first key is 0.
#[verifier::external_body]
pub(crate) fn slab_new() -> (made: Slab<NodeHandle>)
    ensures
        slab_entries(made) == no_entries(),
        slab_vacant_key(made) == 0,
{
    Slab::new()
}

/// `Slab::vacant_entry`, `VacantEntry::key` and `VacantEntry::insert`: the
/// handle is stored under the slab's vacant key, which was not occupied,
/// and that key comes back.
#[verifier::external_body]
pub(crate) fn slab_insert(slab: &mut Slab<NodeHandle>, handle: NodeHandle) -> (key: usize)
    ensures
        key == slab_vacant_key(*old(slab)),
        !slab_entries(*old(slab)).contains_key(key),
        slab_entries(*final(slab)) == slab_entries(*old(slab)).insert(key, handle),
{
    let entry = slab.vacant_entry();
    let key = entry.key();
    entry.insert(handle);
    key
}

/// `Slab::remove`: the key is released and becomes the vacant key; the
/// handle it held comes back. The key has to be occupied.
#[verifier::external_body]
pub(crate) fn slab_remove(slab: &mut Slab<NodeHandle>, key: usize) -> (handle: NodeHandle)
    requires
        slab_entries(*old(slab)).contains_key(key),
    ensures
        handle == slab_entries(*old(slab))[key],
        slab_entries(*final(slab)) == slab_entries(*old(slab)).remove(key),
        slab_vacant_key(*final(slab)) == key,
{
    slab.remove(key)
}

/// `Slab::get`: the handle under the key, if the key is occupied.
#[verifier::external_body]
pub(crate) fn slab_get(slab: &Slab<NodeHandle>, key: usize) -> (found: Option<NodeHandle>)
    ensures
        found == (if slab_entries(*slab).contains_key(key) {
            Some(slab_entries(*slab)[key])
        } else {
            None
        }),
{
    slab.get(key).copied()
}

/// `UnboundedSender::clone`: another handle to the same channel.
#[verifier::external_body]
pub(crate) fn clone_sender(sender: &UnboundedSender<SchedulerMsg>) -> (other: UnboundedSender<
    SchedulerMsg,
>) {
    sender.clone()
}

/// The bits of a set of modifiers (`Modifiers::bits`).
pub uninterp spec fn modifier_bits(modifiers: Modifiers) -> u32;

/// `Modifiers::empty`: the set with no bit.
#[verifier::external_body]
pub(crate) fn modifiers_empty() -> (none: Modifiers)
    ensures
        modifier_bits(none) == 0,
{
    Modifiers::empty()
}

/// The constant `Modifiers::ALT`: the set that holds the alt key alone,
/// whose bit is 0x01.
#[verifier::external_body]
pub(crate) fn alt_modifier() -> (flag: Modifiers)
    ensures
        modifier_bits(flag) == 0x01,
{
    Modifiers::ALT
}

/// The constant `Modifiers::CONTROL`: the set that holds the control key
/// alone, whose bit is 0x08.
#[verifier::external_body]
pub(crate) fn control_modifier() -> (flag: Modifiers)
    ensures
        modifier_bits(flag) == 0x08,
{
    Modifiers::CONTROL
}

/// The constant `Modifiers::META`: the set that holds the meta key alone,
/// whose bit is 0x40.
#[verifier::external_body]
pub(crate) fn meta_modifier() -> (flag: Modifiers)
    ensures
        modifier_bits(flag) == 0x40,
{
    Modifiers::META
}

/// The constant `Modifiers::SHIFT`: the set that holds the shift key
/// alone, whose bit is 0x200.
#[verifier::external_body]
pub(crate) fn shift_modifier() -> (flag: Modifiers)
    ensures
        modifier_bits(flag) == 0x200,
{
    Modifiers::SHIFT
}

/// `Modifiers::contains`: true when every bit of `flag` is in the set.
#[verifier::external_body]
pub(crate) fn modifiers_contains(modifiers: &Modifiers, flag: Modifiers) -> (held: bool)
    ensures
        held == (modifier_bits(*modifiers) & modifier_bits(flag) == modifier_bits(flag)),
{
    modifiers.contains(flag)
}

/// `Modifiers::insert`: the bits of `flag` are added to the set.
#[verifier::external_body]
pub(crate) fn modifiers_insert(modifiers: &mut Modifiers, flag: Modifiers)
    ensures
        modifier_bits(*final(modifiers)) == modifier_bits(*old(modifiers)) | modifier_bits(flag),
{
    modifiers.insert(flag)
}

/// `String::push`: the character is appended.
#[verifier::external_body]
pub(crate) fn push_char(text: &mut String, c: char)
    ensures
        final(text)@ == old(text)@.push(c),
{
    text.push(c)
}

/// What `Debug` prints for a string: the string in double quotes, with the
/// escapes of a Rust string literal.
pub uninterp spec fn debug_form(text: Seq<char>) -> Seq<char>;

/// `format!` with `{:?}` on a string slice, that is `<str as Debug>::fmt`.
#[verifier::external_body]
pub(crate) fn debug_quoted(text: &str) -> (quoted: String)
    ensures
        quoted@ == debug_form(text@),
{
    format!("{:?}", text)
}

} // verus!
