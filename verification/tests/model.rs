use fog::analysis::{resolve_numerical_size, start_analysis, AnalyzerError};
use fog::codegen::{allocate_string, fn_arg_to_string, FunctionArgumentIdentifier};
use fog::config::{HostInformation, ProjectConfig};
use fog::dependency::{DependencyInfo, DistributedCompilerWorker};
use fog::dependency_manager::DependencyUpload;
use fog::errors::ParserError;
use fog::report::render_spanned_error;
use fog::span::{combine_span_info, merge_ranges, CharPosition, SpanInfo, Spanned};
use fog::token::{
    CompilerInstruction, CompilerInstructionDiscriminants, ItemVisibility, NotNan, Token, TokenDiscriminants,
    Type, TypeToken, Value,
};
use fog::variable::StructFieldReference;

fn pos(line: usize, column: usize) -> CharPosition {
    CharPosition::new(line, column)
}

fn sp(l1: usize, c1: usize, l2: usize, c2: usize) -> SpanInfo {
    SpanInfo::new(pos(l1, c1), pos(l2, c2))
}

#[test]
fn positions_order_by_line_then_column() {
    assert!(pos(1, 9).is_before(&pos(2, 0)));
    assert!(pos(2, 1).is_before(&pos(2, 3)));
    assert!(!pos(2, 3).is_before(&pos(2, 3)));
    assert!(!pos(3, 0).is_before(&pos(2, 7)));
    assert_eq!(CharPosition::default(), pos(0, 0));
    assert_eq!(SpanInfo::default(), sp(0, 0, 0, 0));
}

#[test]
fn merge_ranges_widens() {
    let mut a = sp(2, 4, 2, 8);
    merge_ranges(&mut a, &sp(1, 3, 2, 5));
    assert_eq!(a, sp(1, 3, 2, 8));
    merge_ranges(&mut a, &sp(3, 0, 4, 1));
    assert_eq!(a, sp(1, 3, 4, 1));
    let before = a;
    merge_ranges(&mut a, &before);
    assert_eq!(a, before);
}

#[test]
fn combine_span_info_cases() {
    let one = [sp(1, 2, 1, 5)];
    assert_eq!(combine_span_info(&one, true), one[0]);
    assert_eq!(combine_span_info(&one, false), one[0]);
    let unordered = [sp(3, 0, 3, 4), sp(1, 2, 1, 5), sp(2, 0, 5, 1)];
    assert_eq!(combine_span_info(&unordered, false), sp(1, 2, 5, 1));
    assert_eq!(combine_span_info(&unordered, true), sp(3, 0, 5, 1));
}

#[test]
fn combine_in_order_equals_merge() {
    let ordered = [sp(1, 0, 1, 3), sp(1, 4, 2, 1), sp(2, 5, 3, 0)];
    assert_eq!(combine_span_info(&ordered, true), combine_span_info(&ordered, false));
    assert_eq!(combine_span_info(&ordered, true), sp(1, 0, 3, 0));
}

#[test]
fn spanned_raises_errors_at_its_span() {
    let s = Spanned::new(Token::Comma, sp(4, 1, 4, 2));
    assert_eq!(s.inner(), &Token::Comma);
    let e = s.raise_error("main.f".to_string(), 7u32);
    assert_eq!(*e.error(), 7);
    assert_eq!(e.file(), "main.f");
    assert_eq!(e.span(), sp(4, 1, 4, 2));
}

#[test]
fn token_discriminants() {
    assert_eq!(Token::Literal(Value::U8(1)).discriminant(), TokenDiscriminants::Literal);
    assert_eq!(Token::Identifier("a".to_string()).discriminant(), TokenDiscriminants::Identifier);
    assert!(Token::ItemVisibility(ItemVisibility::Public).is_kind(&TokenDiscriminants::ItemVisibility));
    assert!(!Token::Comma.is_kind(&TokenDiscriminants::Dot));
    assert_eq!(Token::Comma.clone(), Token::Comma);
}

#[test]
fn type_words_to_types() {
    assert_eq!(TypeToken::I32.try_into_type(), Ok(Type::I32));
    assert_eq!(TypeToken::Pointer.try_into_type(), Ok(Type::Pointer(None)));
    assert!(TypeToken::Struct.try_into_type().is_err());
    assert!(TypeToken::Function.try_into_type().is_err());
}

#[test]
fn type_properties() {
    assert!(Type::F16.is_float());
    assert!(!Type::U8.is_float());
    assert!(Type::U8.is_int());
    assert!(!Type::Boolean.is_int());
    assert_eq!(Type::I64.get_dwarf_encoding(), 5);
    assert_eq!(Type::U16.get_dwarf_encoding(), 7);
    assert_eq!(Type::F32.get_dwarf_encoding(), 4);
    assert_eq!(Type::Boolean.get_dwarf_encoding(), 2);
    assert_eq!(Type::String.get_dwarf_encoding(), 12);
    assert_eq!(Type::Pointer(None).get_dwarf_encoding(), 15);
    assert_eq!(Type::Array((Box::new(Token::Comma), 2)).get_dwarf_encoding(), 1);
}

#[test]
fn default_values_of_types() {
    assert_eq!(Type::I32.into_value_default(), Value::I32(0));
    assert_eq!(Type::String.into_value_default(), Value::String(String::new()));
    assert_eq!(Type::Boolean.into_value_default(), Value::Boolean(false));
    assert_eq!(Type::Void.into_value_default(), Value::Void);
    assert_eq!(Type::Pointer(Some(Box::new(Token::Comma))).into_value_default(), Value::Pointer((0, None)));
    match Type::F64.into_value_default() {
        Value::F64(f) => assert_eq!(f.bits(), 0),
        other => panic!("unexpected {:?}", other),
    }
    assert_eq!(Value::U16(3).discriminant(), Type::U16);
}

#[test]
fn not_nan_refuses_nan() {
    assert_eq!(NotNan::new(f64::NAN.to_bits()), Err(ParserError::FloatIsNAN));
    assert!(NotNan::new(f32::NAN.to_bits()).is_err());
    assert!(NotNan::new(0x7e00u16).is_err());
    assert_eq!(NotNan::new(1.5f64.to_bits()).unwrap().bits(), 1.5f64.to_bits());
    assert!(NotNan::new(f64::INFINITY.to_bits()).is_ok());
    assert!(NotNan::new(0x7c00u16).is_ok());
}

#[test]
fn compiler_instruction_from_kind() {
    assert_eq!(CompilerInstruction::from_discriminant(CompilerInstructionDiscriminants::Cold), CompilerInstruction::Cold);
    assert_eq!(
        CompilerInstruction::from_discriminant(CompilerInstructionDiscriminants::Feature),
        CompilerInstruction::Feature(String::new())
    );
    assert_eq!(ItemVisibility::default(), ItemVisibility::Private);
}

#[test]
fn argument_names() {
    assert_eq!(fn_arg_to_string("foo", &FunctionArgumentIdentifier::Index(3)), "foo_idx_3_arg");
    assert_eq!(fn_arg_to_string("foo", &FunctionArgumentIdentifier::Index(1204)), "foo_idx_1204_arg");
    assert_eq!(fn_arg_to_string("foo", &FunctionArgumentIdentifier::Index(0)), "foo_idx_0_arg");
    assert_eq!(fn_arg_to_string("foo", &FunctionArgumentIdentifier::Identifier("lhs".to_string())), "lhs");
    assert_ne!(
        fn_arg_to_string("f", &FunctionArgumentIdentifier::Index(12)),
        fn_arg_to_string("f", &FunctionArgumentIdentifier::Index(1))
    );
}

#[test]
fn allocated_strings_end_with_nul() {
    assert_eq!(allocate_string("hi".to_string()), vec![b'h', b'i', 0]);
    assert_eq!(allocate_string("hi\0".to_string()), vec![b'h', b'i', 0]);
    assert_eq!(allocate_string(String::new()), Vec::<u8>::new());
    assert_eq!(allocate_string("é".to_string()), vec![0xc3, 0xa9, 0]);
}

#[test]
fn project_config_defaults() {
    let c = ProjectConfig::default();
    assert_eq!(c.name, "project");
    assert_eq!(c.version, "0.0.1");
    assert_eq!(c.build_path, "out");
    assert!(!c.is_library);
    assert!(c.features.is_none());
    assert!(c.dependencies.is_empty());
    let n = ProjectConfig::new("app".to_string(), "/src/app".to_string());
    assert_eq!(n.name, "app");
    assert_eq!(n.root_path, "/src/app");
    assert_eq!(n.version, "0.0.1");
}

#[test]
fn plain_constructors() {
    let h = HostInformation::new(None, Some("cpu".to_string()), None, "x86_64".to_string());
    assert_eq!(h.cpu_name.as_deref(), Some("cpu"));
    assert_eq!(h.target_triple, "x86_64");
    let w = DistributedCompilerWorker::default();
    assert!(w.name.is_empty() && w.address.is_empty());
    let u = DependencyUpload::new("d".to_string(), "1.0".to_string(), "me".to_string(), vec![1, 2]);
    assert_eq!(u.source_files, vec![1, 2]);
    assert_eq!(StructFieldReference::from_single_entry("a".to_string()).field_stack, vec!["a".to_string()]);
    assert!(StructFieldReference::new().field_stack.is_empty());
    assert!(StructFieldReference::default().field_stack.is_empty());
    let stack = vec!["a".to_string(), "b".to_string()];
    assert_eq!(StructFieldReference::from_stack(stack.clone()).field_stack, stack);
    let info = DependencyInfo { version: "1".to_string(), features: vec![], remote: None };
    assert_eq!(info.clone(), info);
}

#[test]
fn analysis_accepts_everything() {
    let mut ctx = vec![1, 2, 3];
    assert!(start_analysis(&mut ctx).is_ok());
    assert_eq!(ctx, vec![1, 2, 3]);
}

#[test]
fn error_report_single_line() {
    let src = "let x = 5;\nfoo";
    let r = render_spanned_error("bad thing", Some(src), sp(1, 4, 1, 6));
    assert_eq!(r, "bad thing\nlet x = 5;\n    ^\n");
}

#[test]
fn error_report_several_lines() {
    let src = "abc\ndefg\nhi";
    let r = render_spanned_error("oops", Some(src), sp(1, 1, 3, 2));
    assert_eq!(r, "oops\nabc\n ^^\ndefg\n^^^^\nhi^\n");
}

#[test]
fn error_report_without_file() {
    assert_eq!(render_spanned_error("oops", None, sp(1, 0, 1, 1)), "oops\nFailed to access file.");
}

#[test]
fn numerical_size_widens_integers() {
    let mut v = Value::U8(200);
    assert_eq!(resolve_numerical_size(Type::I16, &mut v, 0), Ok(()));
    assert_eq!(v, Value::I16(200));
    let mut v = Value::I32(5);
    assert_eq!(resolve_numerical_size(Type::U64, &mut v, 0), Ok(()));
    assert_eq!(v, Value::U64(5));
    let mut v = Value::U64(7);
    assert_eq!(resolve_numerical_size(Type::I64, &mut v, 0), Ok(()));
    assert_eq!(v, Value::I64(7));
    let mut v = Value::U8(3);
    assert_eq!(resolve_numerical_size(Type::U8, &mut v, 0), Ok(()));
    assert_eq!(v, Value::U8(3));
}

#[test]
fn numerical_size_refuses_what_does_not_fit() {
    let mut v = Value::U16(40000);
    assert_eq!(
        resolve_numerical_size(Type::I16, &mut v, 0),
        Err(AnalyzerError::UnsupportedValueByType(Value::U16(40000), Type::I16))
    );
    assert_eq!(v, Value::U16(40000));
    let mut v = Value::I32(-1);
    assert_eq!(
        resolve_numerical_size(Type::U32, &mut v, 0),
        Err(AnalyzerError::UnsupportedValueByType(Value::I32(-1), Type::U32))
    );
    let mut v = Value::U64(u64::MAX);
    assert!(resolve_numerical_size(Type::I64, &mut v, 0).is_err());
    let mut v = Value::U64(5);
    assert_eq!(
        resolve_numerical_size(Type::U32, &mut v, 0),
        Err(AnalyzerError::UnsupportedValueByType(Value::U64(5), Type::U32))
    );
    let mut v = Value::I64(5);
    assert!(resolve_numerical_size(Type::I32, &mut v, 0).is_err());
    let mut v = Value::U8(1);
    assert!(resolve_numerical_size(Type::F32, &mut v, 0).is_err());
}

#[test]
fn numerical_size_widens_floats() {
    let mut v = Value::F32(NotNan::new(1.5f32.to_bits()).unwrap());
    let wide = (1.5f32 as f64).to_bits();
    assert_eq!(resolve_numerical_size(Type::F64, &mut v, wide), Ok(()));
    match v {
        Value::F64(f) => assert_eq!(f64::from_bits(f.bits()), 1.5),
        other => panic!("unexpected {:?}", other),
    }
    let mut v = Value::F64(NotNan::new(2.0f64.to_bits()).unwrap());
    assert!(resolve_numerical_size(Type::F32, &mut v, 0).is_err());
    let mut v = Value::F32(NotNan::new(1.5f32.to_bits()).unwrap());
    assert_eq!(resolve_numerical_size(Type::F64, &mut v, f64::NAN.to_bits()), Err(AnalyzerError::FloatIsNAN));
    assert_eq!(v, Value::F32(NotNan::new(1.5f32.to_bits()).unwrap()));
}

#[test]
fn numerical_size_needs_a_number() {
    let mut v = Value::String("x".to_string());
    assert_eq!(
        resolve_numerical_size(Type::I32, &mut v, 0),
        Err(AnalyzerError::InternalValueNotNumerical(Type::String))
    );
    let mut v = Value::Boolean(true);
    assert_eq!(
        resolve_numerical_size(Type::Boolean, &mut v, 0),
        Err(AnalyzerError::InternalValueNotNumerical(Type::Boolean))
    );
}
