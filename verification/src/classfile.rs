//! A parsed class file, as far as resolution reads it: access flags, the
//! constant pool and the method records.

use vstd::prelude::*;
use crate::error::ResolveError;

verus! {

pub const ACC_PUBLIC: u16 = 0x0001;

pub const ACC_PRIVATE: u16 = 0x0002;

pub const ACC_PROTECTED: u16 = 0x0004;

pub const ACC_STATIC: u16 = 0x0008;

pub const ACC_FINAL: u16 = 0x0010;

pub const ACC_SYNCHRONIZED: u16 = 0x0020;

pub const ACC_NATIVE: u16 = 0x0100;

pub const ACC_INTERFACE: u16 = 0x0200;

pub const ACC_ABSTRACT: u16 = 0x0400;

pub const ACC_STRICT: u16 = 0x0800;

pub const ACC_ENUM: u16 = 0x4000;

/// Whether all bits of `flag` are set in `bits`.
pub open spec fn has_flag(bits: u16, flag: u16) -> bool {
    bits & flag == flag
}

/// The access flags of a class or a member, as a bit set.
#[derive(Debug, Clone, Copy, PartialEq, Eq, Structural)]
pub struct AccessFlags {
    pub bits: u16,
}

impl AccessFlags {
    /// Whether all bits of `flag` are set.
    pub fn contains(&self, flag: u16) -> (set: bool)
        ensures
            set == has_flag(self.bits, flag),
    {
        self.bits & flag == flag
    }
}

/// One entry of the constant pool. Indices refer to other entries.
#[derive(Debug, Clone, PartialEq, Eq)]
pub enum ConstantInfo {
    Utf8(String),
    Integer(i32),
    Class { name_index: u16 },
    String { string_index: u16 },
    FieldRef { class_index: u16, name_index: u16 },
    MethodRef { class_index: u16, name_index: u16 },
    NameAndType { name_index: u16, descriptor_index: u16 },
}

/// The constant pool. Entry `i` of `constants` has index `i + 1`: index 0
/// is not used.
#[derive(Debug, Clone, PartialEq, Eq)]
pub struct ConstantPool {
    pub constants: Vec<ConstantInfo>,
}

/// The entry with the given index, if the pool has one.
pub open spec fn entry_at(constants: Seq<ConstantInfo>, index: u16) -> Option<ConstantInfo> {
    if 1 <= index <= constants.len() {
        Some(constants[index - 1])
    } else {
        None
    }
}

/// The text of the UTF-8 entry with the given index.
pub open spec fn string_at(constants: Seq<ConstantInfo>, index: u16) -> Result<
    Seq<char>,
    ResolveError,
> {
    match entry_at(constants, index) {
        None => Err(ResolveError::DanglingIndex(index)),
        Some(ConstantInfo::Utf8(text)) => Ok(text@),
        Some(_) => Err(ResolveError::NotUtf8(index)),
    }
}

/// The name index and the descriptor index of the name-and-type entry with
/// the given index.
pub open spec fn name_and_type_at(constants: Seq<ConstantInfo>, index: u16) -> Result<
    (u16, u16),
    ResolveError,
> {
    match entry_at(constants, index) {
        None => Err(ResolveError::DanglingIndex(index)),
        Some(ConstantInfo::NameAndType { name_index, descriptor_index }) => Ok(
            (name_index, descriptor_index),
        ),
        Some(_) => Err(ResolveError::NotNameAndType(index)),
    }
}

impl ConstantPool {
    /// The entry with the given index.
    pub fn lookup(&self, index: u16) -> (entry: Option<&ConstantInfo>)
        ensures
            match (entry_at(self.constants@, index), entry) {
                (Some(e), Some(found)) => *found == e,
                (None, None) => true,
                _ => false,
            },
    {
        if index >= 1 && (index as usize) <= self.constants.len() {
            Some(&self.constants[(index - 1) as usize])
        } else {
            None
        }
    }

    /// The text of the UTF-8 entry with the given index.
    pub fn lookup_string(&self, index: u16) -> (text: Result<&String, ResolveError>)
        ensures
            match (string_at(self.constants@, index), text) {
                (Ok(t), Ok(found)) => found@ == t,
                (Err(e), Err(r)) => r == e,
                _ => false,
            },
    {
        match self.lookup(index) {
            None => Err(ResolveError::DanglingIndex(index)),
            Some(ConstantInfo::Utf8(text)) => Ok(text),
            Some(_) => Err(ResolveError::NotUtf8(index)),
        }
    }

    /// The name index and the descriptor index of the name-and-type entry
    /// with the given index.
    pub fn lookup_name_and_type(&self, index: u16) -> (found: Result<(u16, u16), ResolveError>)
        ensures
            found == name_and_type_at(self.constants@, index),
    {
        match self.lookup(index) {
            None => Err(ResolveError::DanglingIndex(index)),
            Some(ConstantInfo::NameAndType { name_index, descriptor_index }) => Ok(
                (*name_index, *descriptor_index),
            ),
            Some(_) => Err(ResolveError::NotNameAndType(index)),
        }
    }
}

/// An attribute of a method: the index of its name, and its raw content.
#[derive(Debug, Clone, PartialEq, Eq)]
pub struct AttributeInfo {
    pub name_index: u16,
    pub info: Vec<u8>,
}

/// A method record.
#[derive(Debug, Clone, PartialEq, Eq)]
pub struct MethodInfo {
    pub access_flags: AccessFlags,
    pub name_index: u16,
    pub descriptor_index: u16,
    pub attributes: Vec<AttributeInfo>,
}

/// A parsed class file.
#[derive(Debug, Clone, PartialEq, Eq)]
pub struct ClassFile {
    pub access_flags: AccessFlags,
    pub constant_pool: ConstantPool,
    pub methods: Vec<MethodInfo>,
}

} // verus!
