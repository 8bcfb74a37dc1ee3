//! Metadata resolution: the flat, index-addressed constant pool of a class
//! file becomes symbol tables of named references, and the method records
//! become declarations.

use vstd::prelude::*;
use vstd::string::*;
use crate::classfile::{
    has_flag, name_and_type_at, string_at, AccessFlags, AttributeInfo, ClassFile, ConstantInfo,
    ConstantPool, MethodInfo, ACC_ABSTRACT, ACC_ENUM, ACC_FINAL, ACC_INTERFACE, ACC_NATIVE,
    ACC_PRIVATE, ACC_PROTECTED, ACC_PUBLIC, ACC_STATIC, ACC_STRICT, ACC_SYNCHRONIZED,
};
use crate::descriptor::{
    descriptor_to_signature, descriptor_to_type, signature_of, type_at,
};
use crate::error::ResolveError;
use crate::types::{
    reversed, ClassRef, ClassRefView, Descriptor, DescriptorView, FieldRef, FieldRefView, Literal,
    LiteralView, MethodRef, MethodRefView, Modifier, NameRef, NameRefView, Signature,
    SignatureView, Type, TypeView, UnitType,
};
use crate::unit::{CompilationUnit, Declaration, Metadata, MetadataView, Method};

verus! {

broadcast use vstd::std_specs::hash::group_hash_axioms;

/// The largest number of entries that 16-bit indices starting at 1 can
/// address.
pub const MAX_POOL_ENTRIES: usize = 65535;

/// The kind of unit that class-level flags declare: an interface if the
/// interface flag is set, else an enum if the enum flag is set, else a
/// class.
pub open spec fn unit_type_of(bits: u16) -> UnitType {
    if has_flag(bits, ACC_INTERFACE) {
        UnitType::Interface
    } else if has_flag(bits, ACC_ENUM) {
        UnitType::Enum
    } else {
        UnitType::Class
    }
}

/// The modifier, if its flag is set.
pub open spec fn when_set(bits: u16, flag: u16, modifier: Modifier) -> Seq<Modifier> {
    if has_flag(bits, flag) {
        seq![modifier]
    } else {
        Seq::empty()
    }
}

/// The modifiers that class-level flags declare, in a fixed order.
pub open spec fn class_modifiers(bits: u16) -> Seq<Modifier> {
    when_set(bits, ACC_PUBLIC, Modifier::Public) + when_set(
        bits,
        ACC_PROTECTED,
        Modifier::Protected,
    ) + when_set(bits, ACC_PRIVATE, Modifier::Private) + when_set(
        bits,
        ACC_STATIC,
        Modifier::Static,
    ) + when_set(bits, ACC_ABSTRACT, Modifier::Abstract) + when_set(
        bits,
        ACC_FINAL,
        Modifier::Final,
    )
}

/// The modifiers that the flags of a method declare: those of a class, then
/// the ones that only methods have.
pub open spec fn method_modifiers(bits: u16) -> Seq<Modifier> {
    class_modifiers(bits) + when_set(bits, ACC_SYNCHRONIZED, Modifier::Synchronized) + when_set(
        bits,
        ACC_NATIVE,
        Modifier::Native,
    ) + when_set(bits, ACC_STRICT, Modifier::Strictfp)
}

fn push_when_set(modifiers: &mut Vec<Modifier>, flags: &AccessFlags, flag: u16, modifier: Modifier)
    ensures
        final(modifiers)@ == old(modifiers)@ + when_set(flags.bits, flag, modifier),
{
    if flags.contains(flag) {
        modifiers.push(modifier);
        assert(modifiers@ =~= old(modifiers)@ + seq![modifier]);
    } else {
        assert(modifiers@ =~= old(modifiers)@ + Seq::<Modifier>::empty());
    }
}

/// The modifiers of a class.
pub fn class_flags_to_modifiers(flags: &AccessFlags) -> (modifiers: Vec<Modifier>)
    ensures
        modifiers@ == class_modifiers(flags.bits),
{
    let mut modifiers: Vec<Modifier> = Vec::new();
    assert(modifiers@ =~= Seq::<Modifier>::empty());
    push_when_set(&mut modifiers, flags, ACC_PUBLIC, Modifier::Public);
    assert(modifiers@ =~= when_set(flags.bits, ACC_PUBLIC, Modifier::Public));
    push_when_set(&mut modifiers, flags, ACC_PROTECTED, Modifier::Protected);
    push_when_set(&mut modifiers, flags, ACC_PRIVATE, Modifier::Private);
    push_when_set(&mut modifiers, flags, ACC_STATIC, Modifier::Static);
    push_when_set(&mut modifiers, flags, ACC_ABSTRACT, Modifier::Abstract);
    push_when_set(&mut modifiers, flags, ACC_FINAL, Modifier::Final);
    modifiers
}

/// The modifiers of a method.
pub fn method_flags_to_modifiers(flags: &AccessFlags) -> (modifiers: Vec<Modifier>)
    ensures
        modifiers@ == method_modifiers(flags.bits),
{
    let mut modifiers = class_flags_to_modifiers(flags);
    push_when_set(&mut modifiers, flags, ACC_SYNCHRONIZED, Modifier::Synchronized);
    push_when_set(&mut modifiers, flags, ACC_NATIVE, Modifier::Native);
    push_when_set(&mut modifiers, flags, ACC_STRICT, Modifier::Strictfp);
    modifiers
}

/// What one pool entry resolves to.
pub enum Entry {
    Text(Seq<char>),
    Literal(LiteralView),
    Class(ClassRefView),
    Field(FieldRefView),
    Method(MethodRefView),
    Name(NameRefView),
}

/// The name and the descriptor text of the member that the name-and-type
/// entry at `index` describes, and the index of the descriptor.
pub open spec fn member_at(pool: Seq<ConstantInfo>, index: u16) -> Result<
    (Seq<char>, Seq<char>, u16),
    ResolveError,
> {
    match name_and_type_at(pool, index) {
        Err(e) => Err(e),
        Ok((name_index, descriptor_index)) => match string_at(pool, name_index) {
            Err(e) => Err(e),
            Ok(name) => match string_at(pool, descriptor_index) {
                Err(e) => Err(e),
                Ok(descriptor) => Ok((name, descriptor, descriptor_index)),
            },
        },
    }
}

/// The type that the descriptor at `index` starts with.
pub open spec fn field_type(descriptor: Seq<char>, index: u16) -> Result<TypeView, ResolveError> {
    match type_at(descriptor, 0) {
        Ok((typ, _)) => Ok(typ),
        Err(e) => Err(ResolveError::MalformedDescriptor(index, e)),
    }
}

/// The signature that the descriptor at `index` spells.
pub open spec fn method_signature(descriptor: Seq<char>, index: u16) -> Result<
    SignatureView,
    ResolveError,
> {
    match signature_of(descriptor) {
        Ok(signature) => Ok(signature),
        Err(e) => Err(ResolveError::MalformedDescriptor(index, e)),
    }
}

/// What a descriptor describes: a signature if it begins with `(`, a type
/// otherwise.
pub open spec fn described(descriptor: Seq<char>, index: u16) -> Result<
    DescriptorView,
    ResolveError,
> {
    if descriptor.len() > 0 && descriptor[0] == '(' {
        match method_signature(descriptor, index) {
            Ok(signature) => Ok(DescriptorView::Signature(signature)),
            Err(e) => Err(e),
        }
    } else {
        match field_type(descriptor, index) {
            Ok(typ) => Ok(DescriptorView::Type(typ)),
            Err(e) => Err(e),
        }
    }
}

/// What an entry of the pool resolves to. Every index that it holds is
/// looked up in the pool itself, so an entry may refer to a later one.
pub open spec fn entry_spec(pool: Seq<ConstantInfo>, constant: ConstantInfo) -> Result<
    Entry,
    ResolveError,
> {
    match constant {
        ConstantInfo::Utf8(text) => Ok(Entry::Text(text@)),
        ConstantInfo::Integer(value) => Ok(Entry::Literal(LiteralView::Integer(value))),
        ConstantInfo::Class { name_index } => match string_at(pool, name_index) {
            Err(e) => Err(e),
            Ok(name) => Ok(Entry::Class(ClassRefView(name))),
        },
        ConstantInfo::String { string_index } => match string_at(pool, string_index) {
            Err(e) => Err(e),
            Ok(text) => Ok(Entry::Literal(LiteralView::String(text))),
        },
        ConstantInfo::FieldRef { class_index, name_index } => match member_at(pool, name_index) {
            Err(e) => Err(e),
            Ok((name, descriptor, index)) => match field_type(descriptor, index) {
                Err(e) => Err(e),
                Ok(typ) => Ok(Entry::Field(FieldRefView { class_ref: class_index, name, typ })),
            },
        },
        ConstantInfo::MethodRef { class_index, name_index } => match member_at(pool, name_index) {
            Err(e) => Err(e),
            Ok((name, descriptor, index)) => match method_signature(descriptor, index) {
                Err(e) => Err(e),
                Ok(signature) => Ok(
                    Entry::Method(MethodRefView { class_ref: class_index, name, signature }),
                ),
            },
        },
        ConstantInfo::NameAndType { name_index, descriptor_index } => match string_at(
            pool,
            name_index,
        ) {
            Err(e) => Err(e),
            Ok(name) => match string_at(pool, descriptor_index) {
                Err(e) => Err(e),
                Ok(descriptor) => match described(descriptor, descriptor_index) {
                    Err(e) => Err(e),
                    Ok(typ) => Ok(Entry::Name(NameRefView { name, typ })),
                },
            },
        },
    }
}

/// The tables with one resolved entry put under its index.
pub open spec fn with_entry(md: MetadataView, index: u16, entry: Entry) -> MetadataView {
    match entry {
        Entry::Text(text) => MetadataView {
            string_constants: md.string_constants.insert(index, text),
            ..md
        },
        Entry::Literal(literal) => MetadataView { literals: md.literals.insert(index, literal), ..md },
        Entry::Class(class) => MetadataView { class_refs: md.class_refs.insert(index, class), ..md },
        Entry::Field(field) => MetadataView { field_refs: md.field_refs.insert(index, field), ..md },
        Entry::Method(method) => MetadataView {
            method_refs: md.method_refs.insert(index, method),
            ..md
        },
        Entry::Name(name) => MetadataView { name_refs: md.name_refs.insert(index, name), ..md },
    }
}

/// How many entries resolve before the first one that does not, among the
/// first `n`.
pub open spec fn resolved_prefix(pool: Seq<ConstantInfo>, n: int) -> int
    decreases n,
{
    if n <= 0 {
        0
    } else {
        let before = resolved_prefix(pool, n - 1);
        if before == n - 1 && entry_spec(pool, pool[n - 1]) is Ok {
            n
        } else {
            before
        }
    }
}

/// The tables after the first `k` entries, each put under its index
/// (position plus one).
pub open spec fn tables_after(pool: Seq<ConstantInfo>, start: MetadataView, k: int) -> MetadataView
    decreases k,
{
    if k <= 0 {
        start
    } else {
        match entry_spec(pool, pool[k - 1]) {
            Ok(entry) => with_entry(tables_after(pool, start, k - 1), k as u16, entry),
            Err(_) => tables_after(pool, start, k - 1),
        }
    }
}

/// Whether the pool resolves, or the error of its first entry that does
/// not.
pub open spec fn pool_result(pool: Seq<ConstantInfo>) -> Result<(), ResolveError> {
    let k = resolved_prefix(pool, pool.len() as int);
    if pool.len() > MAX_POOL_ENTRIES {
        Err(ResolveError::PoolTooLarge)
    } else if k == pool.len() {
        Ok(())
    } else {
        match entry_spec(pool, pool[k]) {
            Err(e) => Err(e),
            Ok(_) => Ok(()),
        }
    }
}

/// The tables that resolution leaves: those after the leading entries that
/// resolve. A pool that is too large leaves the tables as they are.
pub open spec fn pool_tables(pool: Seq<ConstantInfo>, start: MetadataView) -> MetadataView {
    if pool.len() > MAX_POOL_ENTRIES {
        start
    } else {
        tables_after(pool, start, resolved_prefix(pool, pool.len() as int))
    }
}

/// Once an entry fails, the count of resolved entries stays where it is.
proof fn lemma_resolved_prefix_stops(pool: Seq<ConstantInfo>, k: int, n: int)
    requires
        0 <= k < n,
        resolved_prefix(pool, k) == k,
        entry_spec(pool, pool[k]) is Err,
    ensures
        resolved_prefix(pool, n) == k,
    decreases n,
{
    if n > k + 1 {
        lemma_resolved_prefix_stops(pool, k, n - 1);
    }
}

enum Resolved {
    Text(String),
    Literal(Literal),
    Class(ClassRef),
    Field(FieldRef),
    Method(MethodRef),
    Name(NameRef),
}

impl View for Resolved {
    type V = Entry;

    closed spec fn view(&self) -> Entry {
        match self {
            Resolved::Text(text) => Entry::Text(text@),
            Resolved::Literal(literal) => Entry::Literal(literal@),
            Resolved::Class(class) => Entry::Class(class@),
            Resolved::Field(field) => Entry::Field(field@),
            Resolved::Method(method) => Entry::Method(method@),
            Resolved::Name(name) => Entry::Name(name@),
        }
    }
}

fn resolve_member(pool: &ConstantPool, index: u16) -> (res: Result<
    (String, &String, u16),
    ResolveError,
>)
    ensures
        match (member_at(pool.constants@, index), res) {
            (Ok((name, descriptor, at)), Ok(found)) => found.0@ == name && found.1@ == descriptor
                && found.2 == at,
            (Err(e), Err(r)) => r == e,
            _ => false,
        },
{
    let (name_index, descriptor_index) = match pool.lookup_name_and_type(index) {
        Err(e) => {
            return Err(e);
        },
        Ok(found) => found,
    };
    let name = match pool.lookup_string(name_index) {
        Err(e) => {
            return Err(e);
        },
        Ok(text) => text.clone(),
    };
    match pool.lookup_string(descriptor_index) {
        Err(e) => Err(e),
        Ok(descriptor) => Ok((name, descriptor, descriptor_index)),
    }
}

fn resolve_type(descriptor: &String, index: u16) -> (res: Result<Type, ResolveError>)
    ensures
        match (field_type(descriptor@, index), res) {
            (Ok(typ), Ok(found)) => found@ == typ,
            (Err(e), Err(r)) => r == e,
            _ => false,
        },
{
    match descriptor_to_type(descriptor.as_str()) {
        Ok(typ) => Ok(typ),
        Err(e) => Err(ResolveError::MalformedDescriptor(index, e)),
    }
}

fn resolve_signature(descriptor: &String, index: u16) -> (res: Result<Signature, ResolveError>)
    ensures
        match (method_signature(descriptor@, index), res) {
            (Ok(signature), Ok(found)) => found@ == signature,
            (Err(e), Err(r)) => r == e,
            _ => false,
        },
{
    match descriptor_to_signature(descriptor.as_str()) {
        Ok(signature) => Ok(signature),
        Err(e) => Err(ResolveError::MalformedDescriptor(index, e)),
    }
}

fn resolve_entry(pool: &ConstantPool, constant: &ConstantInfo) -> (res: Result<
    Resolved,
    ResolveError,
>)
    ensures
        match (entry_spec(pool.constants@, *constant), res) {
            (Ok(entry), Ok(found)) => found@ == entry,
            (Err(e), Err(r)) => r == e,
            _ => false,
        },
{
    match constant {
        ConstantInfo::Utf8(text) => Ok(Resolved::Text(text.clone())),
        ConstantInfo::Integer(value) => Ok(Resolved::Literal(Literal::Integer(*value))),
        ConstantInfo::Class { name_index } => match pool.lookup_string(*name_index) {
            Err(e) => Err(e),
            Ok(name) => Ok(Resolved::Class(ClassRef(name.clone()))),
        },
        ConstantInfo::String { string_index } => match pool.lookup_string(*string_index) {
            Err(e) => Err(e),
            Ok(text) => Ok(Resolved::Literal(Literal::String(text.clone()))),
        },
        ConstantInfo::FieldRef { class_index, name_index } => match resolve_member(
            pool,
            *name_index,
        ) {
            Err(e) => Err(e),
            Ok((name, descriptor, index)) => match resolve_type(descriptor, index) {
                Err(e) => Err(e),
                Ok(typ) => Ok(Resolved::Field(FieldRef { class_ref: *class_index, name, typ })),
            },
        },
        ConstantInfo::MethodRef { class_index, name_index } => match resolve_member(
            pool,
            *name_index,
        ) {
            Err(e) => Err(e),
            Ok((name, descriptor, index)) => match resolve_signature(descriptor, index) {
                Err(e) => Err(e),
                Ok(signature) => Ok(
                    Resolved::Method(MethodRef { class_ref: *class_index, name, signature }),
                ),
            },
        },
        ConstantInfo::NameAndType { name_index, descriptor_index } => {
            let name = match pool.lookup_string(*name_index) {
                Err(e) => {
                    return Err(e);
                },
                Ok(text) => text.clone(),
            };
            let descriptor = match pool.lookup_string(*descriptor_index) {
                Err(e) => {
                    return Err(e);
                },
                Ok(text) => text,
            };
            let text = descriptor.as_str();
            if text.unicode_len() > 0 && text.get_char(0) == '(' {
                match resolve_signature(descriptor, *descriptor_index) {
                    Err(e) => Err(e),
                    Ok(signature) => Ok(
                        Resolved::Name(NameRef { name, typ: Descriptor::Signature(signature) }),
                    ),
                }
            } else {
                match resolve_type(descriptor, *descriptor_index) {
                    Err(e) => Err(e),
                    Ok(typ) => Ok(Resolved::Name(NameRef { name, typ: Descriptor::Type(typ) })),
                }
            }
        },
    }
}

fn insert_entry(metadata: &mut Metadata, index: u16, entry: Resolved)
    ensures
        final(metadata)@ == with_entry(old(metadata)@, index, entry@),
{
    match entry {
        Resolved::Text(text) => {
            metadata.string_constants.insert(index, text);
            assert(final(metadata)@.string_constants =~= old(metadata)@.string_constants.insert(
                index,
                text@,
            ));
        },
        Resolved::Literal(literal) => {
            metadata.literals.insert(index, literal);
            assert(final(metadata)@.literals =~= old(metadata)@.literals.insert(index, literal@));
        },
        Resolved::Class(class) => {
            metadata.class_refs.insert(index, class);
            assert(final(metadata)@.class_refs =~= old(metadata)@.class_refs.insert(index, class@));
        },
        Resolved::Field(field) => {
            metadata.field_refs.insert(index, field);
            assert(final(metadata)@.field_refs =~= old(metadata)@.field_refs.insert(index, field@));
        },
        Resolved::Method(method) => {
            metadata.method_refs.insert(index, method);
            assert(final(metadata)@.method_refs =~= old(metadata)@.method_refs.insert(
                index,
                method@,
            ));
        },
        Resolved::Name(name) => {
            metadata.name_refs.insert(index, name);
            assert(final(metadata)@.name_refs =~= old(metadata)@.name_refs.insert(index, name@));
        },
    }
}

/// Resolves the entries of a constant pool, in index order, into the
/// symbol tables of a unit. Resolution stops at the first entry that does
/// not resolve; the tables then hold the entries before it.
pub fn process_constant_pool<C>(unit: &mut CompilationUnit<C>, constant_pool: &ConstantPool) -> (res:
    Result<(), ResolveError>)
    ensures
        res == pool_result(constant_pool.constants@),
        final(unit).metadata@ == pool_tables(constant_pool.constants@, old(unit).metadata@),
        final(unit).typ == old(unit).typ,
        final(unit).modifiers == old(unit).modifiers,
        final(unit).declarations == old(unit).declarations,
{
    let len = constant_pool.constants.len();
    if len > MAX_POOL_ENTRIES {
        return Err(ResolveError::PoolTooLarge);
    }
    let ghost pool = constant_pool.constants@;
    let ghost start = unit.metadata@;
    let mut i: usize = 0;
    while i < len
        invariant
            i <= len,
            len == pool.len(),
            len <= MAX_POOL_ENTRIES,
            pool == constant_pool.constants@,
            start == old(unit).metadata@,
            resolved_prefix(pool, i as int) == i,
            unit.metadata@ == tables_after(pool, start, i as int),
            unit.typ == old(unit).typ,
            unit.modifiers == old(unit).modifiers,
            unit.declarations == old(unit).declarations,
        decreases len - i,
    {
        match resolve_entry(constant_pool, &constant_pool.constants[i]) {
            Err(e) => {
                proof {
                    lemma_resolved_prefix_stops(pool, i as int, len as int);
                }
                return Err(e);
            },
            Ok(entry) => {
                insert_entry(&mut unit.metadata, (i + 1) as u16, entry);
            },
        }
        i = i + 1;
    }
    Ok(())
}

/// The name of the attribute that holds the body of a method.
pub open spec fn code_name() -> Seq<char> {
    seq!['C', 'o', 'd', 'e']
}

/// The text under `index` in the string table of a unit.
pub open spec fn unit_string(md: MetadataView, index: u16) -> Result<Seq<char>, ResolveError> {
    if md.string_constants.contains_key(index) {
        Ok(md.string_constants[index])
    } else {
        Err(ResolveError::DanglingIndex(index))
    }
}

/// The position of the first attribute at or after `from` that is named
/// `Code`, if there is one. The names of the attributes before it must be
/// known.
pub open spec fn code_attribute_from(md: MetadataView, attributes: Seq<AttributeInfo>, from: int)
    -> Result<Option<int>, ResolveError>
    decreases attributes.len() - from,
{
    if from < 0 || from >= attributes.len() {
        Ok(None)
    } else {
        match unit_string(md, attributes[from].name_index) {
            Err(e) => Err(e),
            Ok(name) => if name == code_name() {
                Ok(Some(from))
            } else {
                code_attribute_from(md, attributes, from + 1)
            },
        }
    }
}

/// What a method record resolves to, apart from its body.
pub struct MethodHead {
    /// The position of the attribute that holds the body.
    pub code_attribute: Option<int>,
    pub modifiers: Seq<Modifier>,
    pub name: Seq<char>,
    pub signature: SignatureView,
}

/// The head of a method record: its body attribute is searched first, then
/// its name and its descriptor are looked up in the string table of the
/// unit, and the descriptor is read.
pub open spec fn method_head(md: MetadataView, info: MethodInfo) -> Result<
    MethodHead,
    ResolveError,
> {
    match code_attribute_from(md, info.attributes@, 0) {
        Err(e) => Err(e),
        Ok(code_attribute) => match unit_string(md, info.name_index) {
            Err(e) => Err(e),
            Ok(name) => match unit_string(md, info.descriptor_index) {
                Err(e) => Err(e),
                Ok(descriptor) => match method_signature(descriptor, info.descriptor_index) {
                    Err(e) => Err(e),
                    Ok(signature) => Ok(
                        MethodHead {
                            code_attribute,
                            modifiers: method_modifiers(info.access_flags.bits),
                            name,
                            signature,
                        },
                    ),
                },
            },
        },
    }
}

/// Whether `declaration` is the method with the given head: it has the
/// body that was handed in if the record holds a body attribute, and none
/// otherwise; its parameters are not named yet.
pub open spec fn declared<C>(head: MethodHead, body: Option<C>, declaration: Declaration<C>)
    -> bool {
    match declaration {
        Declaration::Method(method) => {
            &&& method.modifiers@ == head.modifiers
            &&& method.name@ == head.name
            &&& method.signature@ == head.signature
            &&& method.parameter_names@.len() == 0
            &&& method.code == if head.code_attribute is Some {
                body
            } else {
                None
            }
        },
        _ => false,
    }
}

fn lookup_unit_string<'a>(metadata: &'a Metadata, index: u16) -> (res: Result<
    &'a String,
    ResolveError,
>)
    ensures
        match (unit_string(metadata@, index), res) {
            (Ok(text), Ok(found)) => found@ == text,
            (Err(e), Err(r)) => r == e,
            _ => false,
        },
{
    match metadata.string_constants.get(&index) {
        Some(text) => Ok(text),
        None => Err(ResolveError::DanglingIndex(index)),
    }
}

/// The position of the attribute that holds the body of a method: the
/// first one named `Code`.
pub fn code_attribute<C>(unit: &CompilationUnit<C>, method: &MethodInfo) -> (res: Result<
    Option<usize>,
    ResolveError,
>)
    ensures
        match (code_attribute_from(unit.metadata@, method.attributes@, 0), res) {
            (Ok(Some(at)), Ok(Some(found))) => found == at && found < method.attributes@.len(),
            (Ok(None), Ok(None)) => true,
            (Err(e), Err(r)) => r == e,
            _ => false,
        },
{
    proof {
        reveal_strlit("Code");
    }
    let wanted = String::from_str("Code");
    assert(wanted@ =~= code_name());
    let mut i: usize = 0;
    while i < method.attributes.len()
        invariant
            i <= method.attributes@.len(),
            wanted@ == code_name(),
            code_attribute_from(unit.metadata@, method.attributes@, 0) == code_attribute_from(
                unit.metadata@,
                method.attributes@,
                i as int,
            ),
        decreases method.attributes@.len() - i,
    {
        match lookup_unit_string(&unit.metadata, method.attributes[i].name_index) {
            Err(e) => {
                return Err(e);
            },
            Ok(name) => {
                if *name == wanted {
                    return Ok(Some(i));
                }
            },
        }
        i = i + 1;
    }
    Ok(None)
}

/// Resolves one method record into a declaration. `body` is the
/// disassembled body of the method; it is attached if the record holds a
/// body attribute.
pub fn transform_method<C>(unit: &CompilationUnit<C>, method: &MethodInfo, body: Option<C>) -> (res:
    Result<Declaration<C>, ResolveError>)
    ensures
        match (method_head(unit.metadata@, *method), res) {
            (Ok(head), Ok(declaration)) => declared(head, body, declaration),
            (Err(e), Err(r)) => r == e,
            _ => false,
        },
{
    let code = match code_attribute(unit, method) {
        Err(e) => {
            return Err(e);
        },
        Ok(Some(_)) => body,
        Ok(None) => None,
    };
    let modifiers = method_flags_to_modifiers(&method.access_flags);
    let name = match lookup_unit_string(&unit.metadata, method.name_index) {
        Err(e) => {
            return Err(e);
        },
        Ok(text) => text.clone(),
    };
    let signature = match lookup_unit_string(&unit.metadata, method.descriptor_index) {
        Err(e) => {
            return Err(e);
        },
        Ok(descriptor) => match resolve_signature(descriptor, method.descriptor_index) {
            Err(e) => {
                return Err(e);
            },
            Ok(signature) => signature,
        },
    };
    Ok(
        Declaration::Method(
            Method { modifiers, name, signature, parameter_names: Vec::new(), code },
        ),
    )
}

/// The body that is handed in for the method at position `i`, if any.
pub open spec fn body_at<C>(bodies: Seq<Option<C>>, i: int) -> Option<C> {
    if 0 <= i < bodies.len() {
        bodies[i]
    } else {
        None
    }
}

/// Whether the heads of the first `n` method records resolve, or the error
/// of the first that does not.
pub open spec fn methods_result(md: MetadataView, methods: Seq<MethodInfo>, n: int) -> Result<
    (),
    ResolveError,
>
    decreases n,
{
    if n <= 0 {
        Ok(())
    } else {
        match methods_result(md, methods, n - 1) {
            Err(e) => Err(e),
            Ok(_) => match method_head(md, methods[n - 1]) {
                Err(e) => Err(e),
                Ok(_) => Ok(()),
            },
        }
    }
}

proof fn lemma_methods_result_stops(md: MetadataView, methods: Seq<MethodInfo>, k: int, n: int)
    requires
        0 <= k <= n,
        methods_result(md, methods, k) is Err,
    ensures
        methods_result(md, methods, n) == methods_result(md, methods, k),
    decreases n,
{
    if n > k {
        lemma_methods_result_stops(md, methods, k, n - 1);
    }
}

/// Whether `declarations` are the first `n` methods, resolved in order,
/// each with the body handed in for it.
pub open spec fn methods_declared<C>(
    md: MetadataView,
    methods: Seq<MethodInfo>,
    bodies: Seq<Option<C>>,
    declarations: Seq<Declaration<C>>,
    n: int,
) -> bool {
    &&& declarations.len() == n
    &&& forall|i: int|
        0 <= i < n ==> match method_head(md, #[trigger] methods[i]) {
            Ok(head) => declared(head, body_at(bodies, i), declarations[i]),
            Err(_) => false,
        }
}

/// Resolves the method records of a class, in order, and appends them to
/// the declarations of the unit. `bodies` holds the disassembled body for
/// each record, by position; a record past its end has none. Resolution
/// stops at the first record that does not resolve; the unit then holds the
/// methods before it, and the error is that of the record.
pub fn process_methods<C>(
    unit: &mut CompilationUnit<C>,
    methods: &Vec<MethodInfo>,
    bodies: Vec<Option<C>>,
) -> (res: Result<(), ResolveError>)
    ensures
        res == methods_result(old(unit).metadata@, methods@, methods@.len() as int),
        final(unit).metadata == old(unit).metadata,
        final(unit).typ == old(unit).typ,
        final(unit).modifiers == old(unit).modifiers,
        final(unit).declarations@.len() >= old(unit).declarations@.len(),
        final(unit).declarations@.subrange(0, old(unit).declarations@.len() as int) == old(
            unit,
        ).declarations@,
        methods_declared(
            old(unit).metadata@,
            methods@,
            bodies@,
            final(unit).declarations@.subrange(
                old(unit).declarations@.len() as int,
                final(unit).declarations@.len() as int,
            ),
            final(unit).declarations@.len() - old(unit).declarations@.len(),
        ),
        match res {
            Ok(_) => final(unit).declarations@.len() == old(unit).declarations@.len()
                + methods@.len(),
            Err(e) => {
                let k = final(unit).declarations@.len() - old(unit).declarations@.len();
                k < methods@.len() && method_head(old(unit).metadata@, methods@[k]) == Err::<
                    MethodHead,
                    ResolveError,
                >(e)
            },
        },
{
    let ghost md = unit.metadata@;
    let ghost before = unit.declarations@;
    let ghost handed = bodies@;
    let mut rest = reversed(bodies);
    let mut i: usize = 0;
    assert(unit.declarations@.subrange(0, before.len() as int) =~= before);
    while i < methods.len()
        invariant
            i <= methods@.len(),
            md == unit.metadata@,
            handed == bodies@,
            before == old(unit).declarations@,
            unit.metadata == old(unit).metadata,
            unit.typ == old(unit).typ,
            unit.modifiers == old(unit).modifiers,
            unit.declarations@.len() == before.len() + i,
            unit.declarations@.subrange(0, before.len() as int) == before,
            methods_result(md, methods@, i as int) is Ok,
            methods_declared(
                md,
                methods@,
                handed,
                unit.declarations@.subrange(before.len() as int, unit.declarations@.len() as int),
                i as int,
            ),
            handed.len() >= i ==> rest@.len() == handed.len() - i,
            handed.len() < i ==> rest@.len() == 0,
            forall|k: int| 0 <= k < rest@.len() ==> rest@[k] == handed[handed.len() - 1 - k],
        decreases methods@.len() - i,
    {
        let body = match rest.pop() {
            Some(body) => body,
            None => None,
        };
        assert(body == body_at(handed, i as int));
        let ghost listed = unit.declarations@;
        match transform_method(unit, &methods[i], body) {
            Err(e) => {
                proof {
                    lemma_methods_result_stops(md, methods@, i + 1, methods@.len() as int);
                }
                return Err(e);
            },
            Ok(declaration) => {
                unit.declarations.push(declaration);
                proof {
                    let after = unit.declarations@;
                    assert(after.subrange(0, before.len() as int) =~= before);
                    let added = after.subrange(before.len() as int, after.len() as int);
                    let earlier = listed.subrange(before.len() as int, listed.len() as int);
                    assert(after == listed.push(declaration));
                    assert(added.len() == i + 1);
                    assert(earlier.len() == i);
                    assert(added[i as int] == declaration);
                    assert forall|j: int| 0 <= j < i + 1 implies match method_head(
                        md,
                        #[trigger] methods@[j],
                    ) {
                        Ok(head) => declared(head, body_at(handed, j), added[j]),
                        Err(_) => false,
                    } by {
                        if j < i {
                            assert(added[j] == earlier[j]);
                        }
                    }
                    assert(methods_declared(md, methods@, handed, added, i + 1));
                }
            },
        }
        i = i + 1;
    }
    Ok(())
}

/// The unit that a class file resolves to before its methods are added:
/// its kind, its modifiers and its symbol tables.
pub fn resolve_unit<C>(access_flags: &AccessFlags, constant_pool: &ConstantPool) -> (res: Result<
    CompilationUnit<C>,
    ResolveError,
>)
    ensures
        match res {
            Ok(unit) => {
                &&& pool_result(constant_pool.constants@) is Ok
                &&& unit.typ == unit_type_of(access_flags.bits)
                &&& unit.modifiers@ == class_modifiers(access_flags.bits)
                &&& unit.declarations@.len() == 0
                &&& unit.metadata@ == pool_tables(constant_pool.constants@, MetadataView::empty())
            },
            Err(e) => pool_result(constant_pool.constants@) == Err::<(), ResolveError>(e),
        },
{
    let typ = if access_flags.contains(ACC_INTERFACE) {
        UnitType::Interface
    } else if access_flags.contains(ACC_ENUM) {
        UnitType::Enum
    } else {
        UnitType::Class
    };
    let mut unit = CompilationUnit {
        typ,
        modifiers: Vec::new(),
        declarations: Vec::new(),
        metadata: Metadata::new(),
    };
    unit.modifiers = class_flags_to_modifiers(access_flags);
    match process_constant_pool(&mut unit, constant_pool) {
        Err(e) => Err(e),
        Ok(_) => Ok(unit),
    }
}

/// What resolving a class file gives: the error of the constant pool, or
/// else that of the method records.
pub open spec fn transform_result(class_file: ClassFile) -> Result<(), ResolveError> {
    match pool_result(class_file.constant_pool.constants@) {
        Err(e) => Err(e),
        Ok(_) => methods_result(
            pool_tables(class_file.constant_pool.constants@, MetadataView::empty()),
            class_file.methods@,
            class_file.methods@.len() as int,
        ),
    }
}

/// Resolves a class file into a compilation unit: its kind and modifiers
/// from the class-level flags, its symbol tables from the constant pool,
/// and one method declaration for each method record, in order. `bodies`
/// holds the disassembled body for each method record, by position.
pub fn transform<C>(class_file: ClassFile, bodies: Vec<Option<C>>) -> (res: Result<
    CompilationUnit<C>,
    ResolveError,
>)
    ensures
        match (transform_result(class_file), res) {
            (Ok(_), Ok(unit)) => {
                &&& unit.typ == unit_type_of(class_file.access_flags.bits)
                &&& unit.modifiers@ == class_modifiers(class_file.access_flags.bits)
                &&& unit.metadata@ == pool_tables(
                    class_file.constant_pool.constants@,
                    MetadataView::empty(),
                )
                &&& methods_declared(
                    unit.metadata@,
                    class_file.methods@,
                    bodies@,
                    unit.declarations@,
                    class_file.methods@.len() as int,
                )
            },
            (Err(e), Err(r)) => r == e,
            _ => false,
        },
{
    let mut unit = match resolve_unit(&class_file.access_flags, &class_file.constant_pool) {
        Err(e) => {
            return Err(e);
        },
        Ok(unit) => unit,
    };
    match process_methods(&mut unit, &class_file.methods, bodies) {
        Err(e) => Err(e),
        Ok(_) => {
            assert(unit.declarations@.subrange(0, unit.declarations@.len() as int)
                =~= unit.declarations@);
            Ok(unit)
        },
    }
}

} // verus!
