//! The grammar of type and method descriptors.
//!
//! A type is one of the letters `B C D F I J S V Z`, or `L`, a class name
//! and `;`, or `[` and a type. A method signature is `(`, parameter types
//! separated by `,`, `)`, and the return type.

use vstd::prelude::*;
use vstd::string::*;
use crate::error::DescriptorError;
use crate::types::{views, Signature, SignatureView, Type, TypeView};

verus! {

/// The position of the first `;` at or after `from`, if there is one.
pub open spec fn find_semicolon(s: Seq<char>, from: int) -> Option<int>
    decreases s.len() - from,
{
    if from < 0 || from >= s.len() {
        None
    } else if s[from] == ';' {
        Some(from)
    } else {
        find_semicolon(s, from + 1)
    }
}

/// The type that starts at `pos`, and the position behind it.
pub open spec fn type_at(s: Seq<char>, pos: int) -> Result<(TypeView, int), DescriptorError>
    decreases s.len() - pos,
{
    if pos < 0 || pos >= s.len() {
        Err(DescriptorError::UnexpectedEnd)
    } else if s[pos] == 'B' {
        Ok((TypeView::Byte, pos + 1))
    } else if s[pos] == 'C' {
        Ok((TypeView::Char, pos + 1))
    } else if s[pos] == 'D' {
        Ok((TypeView::Double, pos + 1))
    } else if s[pos] == 'F' {
        Ok((TypeView::Float, pos + 1))
    } else if s[pos] == 'I' {
        Ok((TypeView::Int, pos + 1))
    } else if s[pos] == 'J' {
        Ok((TypeView::Long, pos + 1))
    } else if s[pos] == 'S' {
        Ok((TypeView::Short, pos + 1))
    } else if s[pos] == 'V' {
        Ok((TypeView::Void, pos + 1))
    } else if s[pos] == 'Z' {
        Ok((TypeView::Boolean, pos + 1))
    } else if s[pos] == 'L' {
        match find_semicolon(s, pos + 1) {
            Some(end) => Ok((TypeView::Reference(s.subrange(pos + 1, end)), end + 1)),
            None => Err(DescriptorError::UnterminatedClassName),
        }
    } else if s[pos] == '[' {
        match type_at(s, pos + 1) {
            Ok((inner, next)) => Ok((TypeView::Array(Box::new(inner)), next)),
            Err(e) => Err(e),
        }
    } else {
        Err(DescriptorError::InvalidTypeStart)
    }
}

/// A `;` that is found lies at or after the start, inside the text, and no
/// `;` stands before it.
pub proof fn lemma_find_semicolon(s: Seq<char>, from: int)
    requires
        0 <= from,
    ensures
        match find_semicolon(s, from) {
            Some(end) => from <= end < s.len() && s[end] == ';' && forall|i: int|
                from <= i < end ==> s[i] != ';',
            None => forall|i: int| from <= i < s.len() ==> s[i] != ';',
        },
    decreases s.len() - from,
{
    if from < s.len() && s[from] != ';' {
        lemma_find_semicolon(s, from + 1);
    }
}

/// A type that is found ends behind its start and inside the text.
pub proof fn lemma_type_advances(s: Seq<char>, pos: int)
    requires
        0 <= pos,
    ensures
        type_at(s, pos) matches Ok((_, next)) ==> pos < next <= s.len(),
    decreases s.len() - pos,
{
    if pos < s.len() {
        if s[pos] == 'L' {
            lemma_find_semicolon(s, pos + 1);
        } else if s[pos] == '[' {
            lemma_type_advances(s, pos + 1);
        }
    }
}

/// The parameter types that start at `pos`, up to the closing `)`, and the
/// position behind it. A `,` may stand directly before the `)`.
pub open spec fn parameters_at(s: Seq<char>, pos: int) -> Result<
    (Seq<TypeView>, int),
    DescriptorError,
>
    decreases s.len() - pos,
{
    if pos < 0 || pos >= s.len() {
        Err(DescriptorError::UnexpectedEnd)
    } else if s[pos] == ')' {
        Ok((Seq::empty(), pos + 1))
    } else {
        match type_at(s, pos) {
            Err(e) => Err(e),
            Ok((parameter, next)) => if next >= s.len() {
                Err(DescriptorError::UnexpectedEnd)
            } else if s[next] == ')' {
                Ok((seq![parameter], next + 1))
            } else if s[next] == ',' {
                proof {
                    lemma_type_advances(s, pos);
                }
                match parameters_at(s, next + 1) {
                    Err(e) => Err(e),
                    Ok((rest, end)) => Ok((seq![parameter] + rest, end)),
                }
            } else {
                Err(DescriptorError::InvalidSeparator)
            },
        }
    }
}

/// The signature that a method descriptor spells. What follows the return
/// type is not looked at.
pub open spec fn signature_of(s: Seq<char>) -> Result<SignatureView, DescriptorError> {
    if s.len() == 0 {
        Err(DescriptorError::UnexpectedEnd)
    } else if s[0] != '(' {
        Err(DescriptorError::MissingOpenParen)
    } else {
        match parameters_at(s, 1) {
            Err(e) => Err(e),
            Ok((parameters, next)) => match type_at(s, next) {
                Err(e) => Err(e),
                Ok((return_type, _)) => Ok(SignatureView { parameters, return_type }),
            },
        }
    }
}

fn type_from(descriptor: &str, len: usize, pos: usize) -> (res: Result<
    (Type, usize),
    DescriptorError,
>)
    requires
        len == descriptor@.len(),
    ensures
        match (type_at(descriptor@, pos as int), res) {
            (Ok((typ, next)), Ok(found)) => found.0@ == typ && found.1 == next && pos < next
                <= len,
            (Err(e), Err(r)) => r == e,
            _ => false,
        },
    decreases len - pos,
{
    if pos >= len {
        return Err(DescriptorError::UnexpectedEnd);
    }
    let c = descriptor.get_char(pos);
    if c == 'B' {
        Ok((Type::Byte, pos + 1))
    } else if c == 'C' {
        Ok((Type::Char, pos + 1))
    } else if c == 'D' {
        Ok((Type::Double, pos + 1))
    } else if c == 'F' {
        Ok((Type::Float, pos + 1))
    } else if c == 'I' {
        Ok((Type::Int, pos + 1))
    } else if c == 'J' {
        Ok((Type::Long, pos + 1))
    } else if c == 'S' {
        Ok((Type::Short, pos + 1))
    } else if c == 'V' {
        Ok((Type::Void, pos + 1))
    } else if c == 'Z' {
        Ok((Type::Boolean, pos + 1))
    } else if c == 'L' {
        let mut end: usize = pos + 1;
        while end < len && descriptor.get_char(end) != ';'
            invariant
                pos < end <= len,
                len == descriptor@.len(),
                find_semicolon(descriptor@, pos + 1) == find_semicolon(descriptor@, end as int),
            decreases len - end,
        {
            end = end + 1;
        }
        if end >= len {
            Err(DescriptorError::UnterminatedClassName)
        } else {
            let name = String::from_str(descriptor.substring_char(pos + 1, end));
            Ok((Type::Reference(name), end + 1))
        }
    } else if c == '[' {
        match type_from(descriptor, len, pos + 1) {
            Ok((inner, next)) => Ok((Type::Array(Box::new(inner)), next)),
            Err(e) => Err(e),
        }
    } else {
        Err(DescriptorError::InvalidTypeStart)
    }
}

/// Reads the type that starts at position `pos` of a descriptor; returns
/// it with the position behind it.
pub fn parse_type_at(descriptor: &str, pos: usize) -> (res: Result<(Type, usize), DescriptorError>)
    ensures
        match (type_at(descriptor@, pos as int), res) {
            (Ok((typ, next)), Ok(found)) => found.0@ == typ && found.1 == next,
            (Err(e), Err(r)) => r == e,
            _ => false,
        },
{
    type_from(descriptor, descriptor.unicode_len(), pos)
}

/// Reads the type that a field descriptor starts with.
pub fn descriptor_to_type(descriptor: &str) -> (res: Result<Type, DescriptorError>)
    ensures
        match (type_at(descriptor@, 0), res) {
            (Ok((typ, _)), Ok(found)) => found@ == typ,
            (Err(e), Err(r)) => r == e,
            _ => false,
        },
{
    match type_from(descriptor, descriptor.unicode_len(), 0) {
        Ok((typ, _)) => Ok(typ),
        Err(e) => Err(e),
    }
}

/// Reads a method descriptor.
pub fn descriptor_to_signature(descriptor: &str) -> (res: Result<Signature, DescriptorError>)
    ensures
        match (signature_of(descriptor@), res) {
            (Ok(signature), Ok(found)) => found@ == signature,
            (Err(e), Err(r)) => r == e,
            _ => false,
        },
{
    let len = descriptor.unicode_len();
    if len == 0 {
        return Err(DescriptorError::UnexpectedEnd);
    }
    if descriptor.get_char(0) != '(' {
        return Err(DescriptorError::MissingOpenParen);
    }
    let mut params: Vec<Type> = Vec::new();
    let mut pos: usize = 1;
    let ghost s = descriptor@;
    loop
        invariant_except_break
            1 <= pos <= len,
            len == s.len(),
            s == descriptor@,
            s[0] == '(',
            match parameters_at(s, pos as int) {
                Ok((rest, end)) => parameters_at(s, 1) == Ok::<(Seq<TypeView>, int), DescriptorError>(
                    (views(params@) + rest, end),
                ),
                Err(e) => parameters_at(s, 1) == Err::<(Seq<TypeView>, int), DescriptorError>(e),
            },
        ensures
            1 <= pos <= len,
            parameters_at(s, 1) == Ok::<(Seq<TypeView>, int), DescriptorError>(
                (views(params@), pos as int),
            ),
        decreases len - pos,
    {
        if pos >= len {
            return Err(DescriptorError::UnexpectedEnd);
        }
        if descriptor.get_char(pos) != ')' {
            let ghost before = views(params@);
            match type_from(descriptor, len, pos) {
                Err(e) => {
                    return Err(e);
                },
                Ok((parameter, next)) => {
                    params.push(parameter);
                    assert(views(params@) =~= before + seq![parameter@]);
                    if next >= len {
                        return Err(DescriptorError::UnexpectedEnd);
                    }
                    let c = descriptor.get_char(next);
                    if c == ')' {
                        pos = next + 1;
                        assert(views(params@) =~= before + seq![parameter@]);
                        break ;
                    } else if c == ',' {
                        proof {
                            match parameters_at(s, next + 1) {
                                Ok((rest, end)) => {
                                    assert(before + (seq![parameter@] + rest) =~= views(params@)
                                        + rest);
                                },
                                Err(e) => {},
                            }
                        }
                        pos = next + 1;
                    } else {
                        return Err(DescriptorError::InvalidSeparator);
                    }
                },
            }
        } else {
            assert(views(params@) + Seq::<TypeView>::empty() =~= views(params@));
            pos = pos + 1;
            break ;
        }
    }
    match type_from(descriptor, len, pos) {
        Err(e) => Err(e),
        Ok((return_type, _)) => Ok(Signature { parameters: params, return_type }),
    }
}

/// The descriptor that spells a type.
pub open spec fn type_descriptor(t: TypeView) -> Seq<char>
    decreases t,
{
    match t {
        TypeView::Byte => seq!['B'],
        TypeView::Char => seq!['C'],
        TypeView::Double => seq!['D'],
        TypeView::Float => seq!['F'],
        TypeView::Int => seq!['I'],
        TypeView::Long => seq!['J'],
        TypeView::Short => seq!['S'],
        TypeView::Void => seq!['V'],
        TypeView::Boolean => seq!['Z'],
        TypeView::Reference(name) => seq!['L'] + name + seq![';'],
        TypeView::Array(inner) => seq!['['] + type_descriptor(*inner),
    }
}

/// Whether no class name in a type holds a `;`, the character that ends a
/// class name in a descriptor.
pub open spec fn well_named(t: TypeView) -> bool
    decreases t,
{
    match t {
        TypeView::Reference(name) => forall|i: int| 0 <= i < name.len() ==> name[i] != ';',
        TypeView::Array(inner) => well_named(*inner),
        _ => true,
    }
}

/// The descriptor of a parameter list with its closing `)`: the types,
/// separated by `,`.
pub open spec fn parameters_descriptor(parameters: Seq<TypeView>) -> Seq<char>
    decreases parameters.len(),
{
    if parameters.len() == 0 {
        seq![')']
    } else if parameters.len() == 1 {
        type_descriptor(parameters[0]) + seq![')']
    } else {
        type_descriptor(parameters[0]) + seq![','] + parameters_descriptor(parameters.drop_first())
    }
}

/// The descriptor that spells a method signature.
pub open spec fn signature_descriptor(signature: SignatureView) -> Seq<char> {
    seq!['('] + parameters_descriptor(signature.parameters) + type_descriptor(
        signature.return_type,
    )
}

/// Whether no class name in a signature holds a `;`.
pub open spec fn signature_well_named(signature: SignatureView) -> bool {
    &&& well_named(signature.return_type)
    &&& forall|i: int| 0 <= i < signature.parameters.len() ==> well_named(signature.parameters[i])
}

proof fn lemma_descriptor_start(t: TypeView)
    ensures
        type_descriptor(t).len() > 0,
        type_descriptor(t)[0] != ')',
    decreases t,
{
}

/// Reading the descriptor of a type gives the type back, whatever stands
/// before and behind the descriptor.
pub proof fn lemma_type_round_trip(t: TypeView, before: Seq<char>, after: Seq<char>)
    requires
        well_named(t),
    ensures
        type_at(before + type_descriptor(t) + after, before.len() as int) == Ok::<
            (TypeView, int),
            DescriptorError,
        >((t, (before.len() + type_descriptor(t).len()) as int)),
    decreases t,
{
    let s = before + type_descriptor(t) + after;
    let pos = before.len() as int;
    lemma_descriptor_start(t);
    assert(s[pos] == type_descriptor(t)[0]);
    match t {
        TypeView::Reference(name) => {
            let end = pos + 1 + name.len();
            assert(s[end] == type_descriptor(t)[end - pos]);
            assert forall|i: int| pos + 1 <= i < end implies s[i] != ';' by {
                assert(s[i] == type_descriptor(t)[i - pos]);
                assert(s[i] == name[i - pos - 1]);
            }
            lemma_find_semicolon(s, pos + 1);
            assert(find_semicolon(s, pos + 1) == Some(end));
            assert(s.subrange(pos + 1, end) =~= name);
        },
        TypeView::Array(inner) => {
            lemma_type_round_trip(*inner, before + seq!['['], after);
            assert(before + seq!['['] + type_descriptor(*inner) + after =~= s);
        },
        _ => {},
    }
}

/// Reading the descriptor of a parameter list gives the parameters back.
pub proof fn lemma_parameters_round_trip(
    parameters: Seq<TypeView>,
    before: Seq<char>,
    after: Seq<char>,
)
    requires
        forall|i: int| 0 <= i < parameters.len() ==> well_named(parameters[i]),
    ensures
        parameters_at(before + parameters_descriptor(parameters) + after, before.len() as int)
            == Ok::<(Seq<TypeView>, int), DescriptorError>(
            (parameters, (before.len() + parameters_descriptor(parameters).len()) as int),
        ),
    decreases parameters.len(),
{
    let s = before + parameters_descriptor(parameters) + after;
    let pos = before.len() as int;
    if parameters.len() == 0 {
        assert(s[pos] == ')');
        assert(parameters =~= Seq::empty());
    } else {
        let first = parameters[0];
        let spelled = type_descriptor(first);
        lemma_descriptor_start(first);
        assert(s[pos] == spelled[0]);
        let next = pos + spelled.len();
        if parameters.len() == 1 {
            lemma_type_round_trip(first, before, seq![')'] + after);
            assert(before + spelled + (seq![')'] + after) =~= s);
            assert(s[next] == ')');
            assert(parameters =~= seq![first]);
        } else {
            let rest = parameters.drop_first();
            let tail = seq![','] + parameters_descriptor(rest) + after;
            lemma_type_round_trip(first, before, tail);
            assert(before + spelled + tail =~= s);
            assert(s[next] == ',');
            lemma_parameters_round_trip(rest, before + spelled + seq![','], after);
            assert(before + spelled + seq![','] + parameters_descriptor(rest) + after =~= s);
            assert(seq![first] + rest =~= parameters);
        }
    }
}

/// Reading the descriptor of a signature gives the signature back.
pub proof fn lemma_signature_round_trip(signature: SignatureView)
    requires
        signature_well_named(signature),
    ensures
        signature_of(signature_descriptor(signature)) == Ok::<SignatureView, DescriptorError>(
            signature,
        ),
{
    let s = signature_descriptor(signature);
    let listed = parameters_descriptor(signature.parameters);
    let returned = type_descriptor(signature.return_type);
    assert(s[0] == '(');
    lemma_parameters_round_trip(signature.parameters, seq!['('], returned);
    assert(seq!['('] + listed + returned =~= s);
    lemma_type_round_trip(signature.return_type, seq!['('] + listed, Seq::empty());
    assert(seq!['('] + listed + returned + Seq::<char>::empty() =~= s);
}

/// Reading the descriptor of a type from its start gives the type back.
pub proof fn lemma_descriptor_round_trip(t: TypeView)
    requires
        well_named(t),
    ensures
        type_at(type_descriptor(t), 0) matches Ok((found, _)) && found == t,
{
    lemma_type_round_trip(t, Seq::empty(), Seq::empty());
    assert(Seq::<char>::empty() + type_descriptor(t) + Seq::<char>::empty() =~= type_descriptor(t));
}

} // verus!
