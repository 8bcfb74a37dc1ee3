//! A compilation unit: one decompiled class with its members and the symbol
//! tables resolved from its constant pool.

use vstd::prelude::*;
use std::collections::HashMap;
use crate::types::{
    views, ClassRef, ClassRefView, FieldRef, FieldRefView, Literal, LiteralView, MethodRef,
    MethodRefView, Modifier, NameRef, NameRefView, Signature, SignatureView, Type, TypeView,
    UnitType,
};

verus! {

/// The models of the values of a table, under the same keys.
pub open spec fn table_view<V: View>(m: Map<u16, V>) -> Map<u16, V::V> {
    Map::new(|k: u16| m.contains_key(k), |k: u16| m[k]@)
}

/// The symbol tables of a unit, each keyed by constant-pool index.
#[derive(Debug, PartialEq, Eq)]
pub struct Metadata {
    pub string_constants: HashMap<u16, String>,
    pub literals: HashMap<u16, Literal>,
    pub class_refs: HashMap<u16, ClassRef>,
    pub field_refs: HashMap<u16, FieldRef>,
    pub method_refs: HashMap<u16, MethodRef>,
    pub name_refs: HashMap<u16, NameRef>,
}

/// Model of [`Metadata`].
pub struct MetadataView {
    pub string_constants: Map<u16, Seq<char>>,
    pub literals: Map<u16, LiteralView>,
    pub class_refs: Map<u16, ClassRefView>,
    pub field_refs: Map<u16, FieldRefView>,
    pub method_refs: Map<u16, MethodRefView>,
    pub name_refs: Map<u16, NameRefView>,
}

impl View for Metadata {
    type V = MetadataView;

    open spec fn view(&self) -> MetadataView {
        MetadataView {
            string_constants: table_view(self.string_constants@),
            literals: table_view(self.literals@),
            class_refs: table_view(self.class_refs@),
            field_refs: table_view(self.field_refs@),
            method_refs: table_view(self.method_refs@),
            name_refs: table_view(self.name_refs@),
        }
    }
}

impl MetadataView {
    /// The tables with nothing in them.
    pub open spec fn empty() -> MetadataView {
        MetadataView {
            string_constants: Map::empty(),
            literals: Map::empty(),
            class_refs: Map::empty(),
            field_refs: Map::empty(),
            method_refs: Map::empty(),
            name_refs: Map::empty(),
        }
    }
}

impl Metadata {
    /// Empty symbol tables.
    pub fn new() -> (metadata: Metadata)
        ensures
            metadata@ == MetadataView::empty(),
    {
        let metadata = Metadata {
            string_constants: HashMap::new(),
            literals: HashMap::new(),
            class_refs: HashMap::new(),
            field_refs: HashMap::new(),
            method_refs: HashMap::new(),
            name_refs: HashMap::new(),
        };
        assert(metadata@.string_constants =~= Map::empty());
        assert(metadata@.literals =~= Map::empty());
        assert(metadata@.class_refs =~= Map::empty());
        assert(metadata@.field_refs =~= Map::empty());
        assert(metadata@.method_refs =~= Map::empty());
        assert(metadata@.name_refs =~= Map::empty());
        metadata
    }
}

/// A method of a class. `C` is the form its body is in.
#[derive(Debug)]
pub struct Method<C> {
    pub modifiers: Vec<Modifier>,
    pub name: String,
    pub signature: Signature,
    /// The names of the parameters, in signature order; empty until
    /// parameters are bound.
    pub parameter_names: Vec<String>,
    pub code: Option<C>,
}

/// A constructor of a class.
#[derive(Debug)]
pub struct Constructor<C> {
    pub modifiers: Vec<Modifier>,
    pub signature: Signature,
    pub code: Option<C>,
}

/// A field of a class.
#[derive(Debug, PartialEq, Eq)]
pub struct Field {
    pub modifiers: Vec<Modifier>,
    pub name: String,
    pub typ: Type,
}

/// One member of a class.
#[derive(Debug)]
pub enum Declaration<C> {
    Method(Method<C>),
    Constructor(Constructor<C>),
    Field(Field),
}

/// One decompiled class, interface or enum.
#[derive(Debug)]
pub struct CompilationUnit<C> {
    pub typ: UnitType,
    pub modifiers: Vec<Modifier>,
    pub declarations: Vec<Declaration<C>>,
    pub metadata: Metadata,
}

/// Model of a [`Method`].
pub struct MethodView<CV> {
    pub modifiers: Seq<Modifier>,
    pub name: Seq<char>,
    pub signature: SignatureView,
    pub parameter_names: Seq<Seq<char>>,
    pub code: Option<CV>,
}

/// Model of a [`Constructor`].
pub struct ConstructorView<CV> {
    pub modifiers: Seq<Modifier>,
    pub signature: SignatureView,
    pub code: Option<CV>,
}

/// Model of a [`Field`].
pub struct FieldView {
    pub modifiers: Seq<Modifier>,
    pub name: Seq<char>,
    pub typ: TypeView,
}

/// Model of a [`Declaration`].
pub enum DeclarationView<CV> {
    Method(MethodView<CV>),
    Constructor(ConstructorView<CV>),
    Field(FieldView),
}

/// Model of a [`CompilationUnit`].
pub struct CompilationUnitView<CV> {
    pub typ: UnitType,
    pub modifiers: Seq<Modifier>,
    pub declarations: Seq<DeclarationView<CV>>,
    pub metadata: MetadataView,
}

/// The model of an optional method body.
pub open spec fn code_view<C: View>(code: Option<C>) -> Option<C::V> {
    match code {
        Some(c) => Some(c@),
        None => None,
    }
}

impl<C: View> View for Method<C> {
    type V = MethodView<C::V>;

    open spec fn view(&self) -> MethodView<C::V> {
        MethodView {
            modifiers: self.modifiers@,
            name: self.name@,
            signature: self.signature@,
            parameter_names: views(self.parameter_names@),
            code: code_view(self.code),
        }
    }
}

impl<C: View> View for Constructor<C> {
    type V = ConstructorView<C::V>;

    open spec fn view(&self) -> ConstructorView<C::V> {
        ConstructorView {
            modifiers: self.modifiers@,
            signature: self.signature@,
            code: code_view(self.code),
        }
    }
}

impl View for Field {
    type V = FieldView;

    open spec fn view(&self) -> FieldView {
        FieldView { modifiers: self.modifiers@, name: self.name@, typ: self.typ@ }
    }
}

impl<C: View> View for Declaration<C> {
    type V = DeclarationView<C::V>;

    open spec fn view(&self) -> DeclarationView<C::V> {
        match self {
            Declaration::Method(m) => DeclarationView::Method(m@),
            Declaration::Constructor(c) => DeclarationView::Constructor(c@),
            Declaration::Field(f) => DeclarationView::Field(f@),
        }
    }
}

impl<C: View> View for CompilationUnit<C> {
    type V = CompilationUnitView<C::V>;

    open spec fn view(&self) -> CompilationUnitView<C::V> {
        CompilationUnitView {
            typ: self.typ,
            modifiers: self.modifiers@,
            declarations: views(self.declarations@),
            metadata: self.metadata@,
        }
    }
}

} // verus!
