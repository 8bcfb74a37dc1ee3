//! Symbolic types and references: what the constant pool of a class file
//! resolves to, and what expressions carry.
//!
//! Every type that owns text has a model (`...View`) in which the text is a
//! sequence of characters; contracts are stated over those models.

use vstd::prelude::*;

verus! {

/// The models of the elements of a sequence, in order.
pub open spec fn views<T: View>(s: Seq<T>) -> Seq<T::V> {
    Seq::new(s.len(), |i: int| s[i]@)
}

/// The items in the opposite order.
pub(crate) fn reversed<T>(items: Vec<T>) -> (res: Vec<T>)
    ensures
        res@.len() == items@.len(),
        forall|i: int| 0 <= i < items@.len() ==> res@[i] == items@[items@.len() - 1 - i],
{
    let mut items = items;
    let ghost given = items@;
    let mut res: Vec<T> = Vec::new();
    while items.len() > 0
        invariant
            items@.len() + res@.len() == given.len(),
            forall|i: int| 0 <= i < items@.len() ==> items@[i] == given[i],
            forall|i: int| 0 <= i < res@.len() ==> res@[i] == given[given.len() - 1 - i],
        decreases items@.len(),
    {
        let item = items.pop().unwrap();
        res.push(item);
    }
    res
}

/// A JVM type as it appears in field and method descriptors.
#[derive(Debug, PartialEq, Eq)]
pub enum Type {
    Byte,
    Char,
    Double,
    Float,
    Int,
    Long,
    Short,
    Boolean,
    Void,
    /// A class type; the text is the internal (slash-separated) class name.
    Reference(String),
    Array(Box<Type>),
}

/// Model of a [`Type`].
pub enum TypeView {
    Byte,
    Char,
    Double,
    Float,
    Int,
    Long,
    Short,
    Boolean,
    Void,
    Reference(Seq<char>),
    Array(Box<TypeView>),
}

/// The model of a type: the same tree, with each class name as its characters.
pub open spec fn type_view(t: Type) -> TypeView
    decreases t,
{
    match t {
        Type::Byte => TypeView::Byte,
        Type::Char => TypeView::Char,
        Type::Double => TypeView::Double,
        Type::Float => TypeView::Float,
        Type::Int => TypeView::Int,
        Type::Long => TypeView::Long,
        Type::Short => TypeView::Short,
        Type::Boolean => TypeView::Boolean,
        Type::Void => TypeView::Void,
        Type::Reference(name) => TypeView::Reference(name@),
        Type::Array(inner) => TypeView::Array(Box::new(type_view(*inner))),
    }
}

impl View for Type {
    type V = TypeView;

    open spec fn view(&self) -> TypeView {
        type_view(*self)
    }
}

impl Clone for Type {
    fn clone(&self) -> (res: Self)
        ensures
            res@ == self@,
        decreases self,
    {
        match self {
            Type::Byte => Type::Byte,
            Type::Char => Type::Char,
            Type::Double => Type::Double,
            Type::Float => Type::Float,
            Type::Int => Type::Int,
            Type::Long => Type::Long,
            Type::Short => Type::Short,
            Type::Boolean => Type::Boolean,
            Type::Void => Type::Void,
            Type::Reference(name) => Type::Reference(name.clone()),
            Type::Array(inner) => Type::Array(Box::new((**inner).clone())),
        }
    }
}

impl Type {
    /// Whether this is the `Void` type.
    pub fn is_void(&self) -> (b: bool)
        ensures
            b == (self@ == TypeView::Void),
    {
        match self {
            Type::Void => true,
            _ => false,
        }
    }
}

/// The shape of a method: parameter types in call-argument order, and the
/// return type.
#[derive(Debug, PartialEq, Eq)]
pub struct Signature {
    pub parameters: Vec<Type>,
    pub return_type: Type,
}

/// Model of a [`Signature`].
pub struct SignatureView {
    pub parameters: Seq<TypeView>,
    pub return_type: TypeView,
}

impl View for Signature {
    type V = SignatureView;

    open spec fn view(&self) -> SignatureView {
        SignatureView { parameters: views(self.parameters@), return_type: self.return_type@ }
    }
}

/// Copies a list of types.
pub fn clone_types(v: &Vec<Type>) -> (res: Vec<Type>)
    ensures
        views(res@) == views(v@),
{
    let mut out: Vec<Type> = Vec::new();
    let mut i: usize = 0;
    while i < v.len()
        invariant
            i <= v@.len(),
            out@.len() == i,
            forall|j: int| 0 <= j < i ==> out@[j]@ == v@[j]@,
        decreases v@.len() - i,
    {
        out.push(v[i].clone());
        i = i + 1;
    }
    assert(views(out@) =~= views(v@));
    out
}

impl Clone for Signature {
    fn clone(&self) -> (res: Self)
        ensures
            res@ == self@,
    {
        Signature {
            parameters: clone_types(&self.parameters),
            return_type: self.return_type.clone(),
        }
    }
}

/// A resolved class reference: the internal name of the class.
#[derive(Debug, PartialEq, Eq)]
pub struct ClassRef(pub String);

/// Model of a [`ClassRef`].
pub struct ClassRefView(pub Seq<char>);

impl View for ClassRef {
    type V = ClassRefView;

    open spec fn view(&self) -> ClassRefView {
        ClassRefView(self.0@)
    }
}

impl Clone for ClassRef {
    fn clone(&self) -> (res: Self)
        ensures
            res@ == self@,
    {
        ClassRef(self.0.clone())
    }
}

/// A resolved field reference. `class_ref` is the constant-pool index of
/// the owning class.
#[derive(Debug, PartialEq, Eq)]
pub struct FieldRef {
    pub class_ref: u16,
    pub name: String,
    pub typ: Type,
}

/// Model of a [`FieldRef`].
pub struct FieldRefView {
    pub class_ref: u16,
    pub name: Seq<char>,
    pub typ: TypeView,
}

impl View for FieldRef {
    type V = FieldRefView;

    open spec fn view(&self) -> FieldRefView {
        FieldRefView { class_ref: self.class_ref, name: self.name@, typ: self.typ@ }
    }
}

impl Clone for FieldRef {
    fn clone(&self) -> (res: Self)
        ensures
            res@ == self@,
    {
        FieldRef { class_ref: self.class_ref, name: self.name.clone(), typ: self.typ.clone() }
    }
}

/// A resolved method reference. `class_ref` is the constant-pool index of
/// the owning class.
#[derive(Debug, PartialEq, Eq)]
pub struct MethodRef {
    pub class_ref: u16,
    pub name: String,
    pub signature: Signature,
}

/// Model of a [`MethodRef`].
pub struct MethodRefView {
    pub class_ref: u16,
    pub name: Seq<char>,
    pub signature: SignatureView,
}

impl View for MethodRef {
    type V = MethodRefView;

    open spec fn view(&self) -> MethodRefView {
        MethodRefView { class_ref: self.class_ref, name: self.name@, signature: self.signature@ }
    }
}

impl Clone for MethodRef {
    fn clone(&self) -> (res: Self)
        ensures
            res@ == self@,
    {
        MethodRef {
            class_ref: self.class_ref,
            name: self.name.clone(),
            signature: self.signature.clone(),
        }
    }
}

/// What a name-and-type entry describes: a field's type or a method's
/// signature.
#[derive(Debug, PartialEq, Eq)]
pub enum Descriptor {
    Type(Type),
    Signature(Signature),
}

/// Model of a [`Descriptor`].
pub enum DescriptorView {
    Type(TypeView),
    Signature(SignatureView),
}

impl View for Descriptor {
    type V = DescriptorView;

    open spec fn view(&self) -> DescriptorView {
        match self {
            Descriptor::Type(t) => DescriptorView::Type(t@),
            Descriptor::Signature(s) => DescriptorView::Signature(s@),
        }
    }
}

/// A resolved name-and-type entry.
#[derive(Debug, PartialEq, Eq)]
pub struct NameRef {
    pub name: String,
    pub typ: Descriptor,
}

/// Model of a [`NameRef`].
pub struct NameRefView {
    pub name: Seq<char>,
    pub typ: DescriptorView,
}

impl View for NameRef {
    type V = NameRefView;

    open spec fn view(&self) -> NameRefView {
        NameRefView { name: self.name@, typ: self.typ@ }
    }
}

/// A literal constant.
#[derive(Debug, PartialEq, Eq)]
pub enum Literal {
    Integer(i32),
    String(String),
}

/// Model of a [`Literal`].
pub enum LiteralView {
    Integer(i32),
    String(Seq<char>),
}

impl View for Literal {
    type V = LiteralView;

    open spec fn view(&self) -> LiteralView {
        match self {
            Literal::Integer(i) => LiteralView::Integer(*i),
            Literal::String(s) => LiteralView::String(s@),
        }
    }
}

impl Clone for Literal {
    fn clone(&self) -> (res: Self)
        ensures
            res@ == self@,
    {
        match self {
            Literal::Integer(i) => Literal::Integer(*i),
            Literal::String(s) => Literal::String(s.clone()),
        }
    }
}

/// A source-level modifier of a class or a member.
#[derive(Debug, Clone, Copy, PartialEq, Eq, Structural)]
pub enum Modifier {
    Public,
    Protected,
    Private,
    Static,
    Abstract,
    Final,
    Synchronized,
    Native,
    Strictfp,
}

/// The kind of a compilation unit.
#[derive(Debug, Clone, Copy, PartialEq, Eq, Structural)]
pub enum UnitType {
    Class,
    Interface,
    Enum,
}

} // verus!
