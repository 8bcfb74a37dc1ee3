use jvm_decompiler::descriptor::{descriptor_to_signature, descriptor_to_type, parse_type_at};
use jvm_decompiler::error::DescriptorError;
use jvm_decompiler::types::{Signature, Type};

fn reference(name: &str) -> Type {
    Type::Reference(name.to_string())
}

fn spell(t: &Type) -> String {
    match t {
        Type::Byte => "B".to_string(),
        Type::Char => "C".to_string(),
        Type::Double => "D".to_string(),
        Type::Float => "F".to_string(),
        Type::Int => "I".to_string(),
        Type::Long => "J".to_string(),
        Type::Short => "S".to_string(),
        Type::Boolean => "Z".to_string(),
        Type::Void => "V".to_string(),
        Type::Reference(name) => format!("L{};", name),
        Type::Array(inner) => format!("[{}", spell(inner)),
    }
}

#[test]
fn primitive_letters() {
    assert_eq!(descriptor_to_type("B"), Ok(Type::Byte));
    assert_eq!(descriptor_to_type("C"), Ok(Type::Char));
    assert_eq!(descriptor_to_type("D"), Ok(Type::Double));
    assert_eq!(descriptor_to_type("F"), Ok(Type::Float));
    assert_eq!(descriptor_to_type("I"), Ok(Type::Int));
    assert_eq!(descriptor_to_type("J"), Ok(Type::Long));
    assert_eq!(descriptor_to_type("S"), Ok(Type::Short));
    assert_eq!(descriptor_to_type("V"), Ok(Type::Void));
    assert_eq!(descriptor_to_type("Z"), Ok(Type::Boolean));
}

#[test]
fn nested_array_of_int() {
    assert_eq!(
        descriptor_to_type("[[I"),
        Ok(Type::Array(Box::new(Type::Array(Box::new(Type::Int)))))
    );
}

#[test]
fn class_name_runs_to_the_semicolon() {
    assert_eq!(descriptor_to_type("Ljava/lang/String;"), Ok(reference("java/lang/String")));
    assert_eq!(descriptor_to_type("L;"), Ok(reference("")));
    assert_eq!(
        descriptor_to_type("[Ljava/util/List;"),
        Ok(Type::Array(Box::new(reference("java/util/List"))))
    );
}

#[test]
fn class_name_may_hold_other_alphabets() {
    assert_eq!(descriptor_to_type("Lé/ü;I"), Ok(reference("é/ü")));
    assert_eq!(parse_type_at("Lé/ü;I", 5), Ok((Type::Int, 6)));
}

#[test]
fn what_follows_a_type_is_not_read() {
    assert_eq!(descriptor_to_type("Ixyz"), Ok(Type::Int));
}

#[test]
fn cursor_moves_behind_the_type() {
    assert_eq!(parse_type_at("I[Lx;J", 0), Ok((Type::Int, 1)));
    assert_eq!(
        parse_type_at("I[Lx;J", 1),
        Ok((Type::Array(Box::new(reference("x"))), 5))
    );
    assert_eq!(parse_type_at("I[Lx;J", 5), Ok((Type::Long, 6)));
    assert_eq!(parse_type_at("I[Lx;J", 6), Err(DescriptorError::UnexpectedEnd));
    assert_eq!(parse_type_at("I[Lx;J", 60), Err(DescriptorError::UnexpectedEnd));
}

#[test]
fn type_errors() {
    assert_eq!(descriptor_to_type(""), Err(DescriptorError::UnexpectedEnd));
    assert_eq!(descriptor_to_type("["), Err(DescriptorError::UnexpectedEnd));
    assert_eq!(descriptor_to_type("X"), Err(DescriptorError::InvalidTypeStart));
    assert_eq!(descriptor_to_type("[?"), Err(DescriptorError::InvalidTypeStart));
    assert_eq!(descriptor_to_type("Ljava/lang/String"), Err(DescriptorError::UnterminatedClassName));
    assert_eq!(descriptor_to_type("L"), Err(DescriptorError::UnterminatedClassName));
}

#[test]
fn signature_with_two_parameters() {
    assert_eq!(
        descriptor_to_signature("(I,Ljava/lang/String;)V"),
        Ok(Signature {
            parameters: vec![Type::Int, reference("java/lang/String")],
            return_type: Type::Void,
        })
    );
}

#[test]
fn signature_without_parameters() {
    assert_eq!(
        descriptor_to_signature("()I"),
        Ok(Signature { parameters: vec![], return_type: Type::Int })
    );
}

#[test]
fn signature_with_one_parameter() {
    assert_eq!(
        descriptor_to_signature("([J)[[Z"),
        Ok(Signature {
            parameters: vec![Type::Array(Box::new(Type::Long))],
            return_type: Type::Array(Box::new(Type::Array(Box::new(Type::Boolean)))),
        })
    );
}

#[test]
fn comma_may_stand_before_the_closing_parenthesis() {
    assert_eq!(
        descriptor_to_signature("(I,)V"),
        Ok(Signature { parameters: vec![Type::Int], return_type: Type::Void })
    );
}

#[test]
fn signature_without_separator_is_rejected() {
    assert_eq!(
        descriptor_to_signature("(ILjava/lang/String;)V"),
        Err(DescriptorError::InvalidSeparator)
    );
}

#[test]
fn signature_errors() {
    assert_eq!(descriptor_to_signature(""), Err(DescriptorError::UnexpectedEnd));
    assert_eq!(descriptor_to_signature("I"), Err(DescriptorError::MissingOpenParen));
    assert_eq!(descriptor_to_signature("("), Err(DescriptorError::UnexpectedEnd));
    assert_eq!(descriptor_to_signature("(I"), Err(DescriptorError::UnexpectedEnd));
    assert_eq!(descriptor_to_signature("(I,"), Err(DescriptorError::UnexpectedEnd));
    assert_eq!(descriptor_to_signature("()"), Err(DescriptorError::UnexpectedEnd));
    assert_eq!(descriptor_to_signature("(,)V"), Err(DescriptorError::InvalidTypeStart));
    assert_eq!(descriptor_to_signature("(Q)V"), Err(DescriptorError::InvalidTypeStart));
    assert_eq!(descriptor_to_signature("(Lx)V"), Err(DescriptorError::UnterminatedClassName));
    assert_eq!(descriptor_to_signature("(I;J)V"), Err(DescriptorError::InvalidSeparator));
    assert_eq!(descriptor_to_signature("()X"), Err(DescriptorError::InvalidTypeStart));
}

#[test]
fn spelled_types_are_read_back() {
    let types = vec![
        Type::Byte,
        Type::Void,
        reference("java/lang/Object"),
        reference("a,b(c)"),
        Type::Array(Box::new(Type::Array(Box::new(reference("p/Q$R"))))),
        Type::Array(Box::new(Type::Double)),
    ];
    for t in types.iter() {
        assert_eq!(descriptor_to_type(&spell(t)), Ok(t.clone()));
    }
}

#[test]
fn spelled_signatures_are_read_back() {
    let parameters = vec![
        Type::Int,
        reference("java/lang/String"),
        Type::Array(Box::new(Type::Char)),
    ];
    let spelled: Vec<String> = parameters.iter().map(spell).collect();
    let descriptor = format!("({}){}", spelled.join(","), spell(&Type::Long));
    assert_eq!(descriptor, "(I,Ljava/lang/String;,[C)J");
    assert_eq!(
        descriptor_to_signature(&descriptor),
        Ok(Signature { parameters, return_type: Type::Long })
    );
}
