use vstd::prelude::*;
use crate::token::{Token, Type};

verus! {

/// Syntax errors found while parsing.
#[derive(Debug, Clone, Copy, PartialEq, Eq, Hash, Structural)]
pub enum SyntaxError {
    AsRequiresTypeDef,
    CommaNotFound,
    CompilerInstructionRequiredAfterSymbol,
    ConditionalExpressionRequiresBody,
    CustomTypeRequiresName,
    DuplicateFunctions,
    FunctionRequiresReturn,
    FunctionSignatureReturnTypeRequired,
    ImportUnspecifiedReturnType,
    InvalidArrayLenType,
    InvalidEnumBodyDefinition,
    InvalidFunctionBodyStart,
    InvalidFunctionDefinition,
    InvalidFunctionGenericsDefinition,
    InvalidFunctionName,
    InvalidIfConditionDefinition,
    InvalidImportDefinition,
    InvalidLoopBody,
    InvalidStructDefinition,
    InvalidStructFieldDefinition,
    InvalidStructFieldReference,
    InvalidStructName,
    InvalidTypeGenericDefinition,
    InvalidVariableDefinition,
    InvalidVariableExpression,
    LeftOpenBraces,
    LeftOpenParentheses,
    LeftOpenSquareBrackets,
    MissingSemiColon,
    StructFieldNotFound,
    ThisRereferenced,
    VariableRequiresInitialization,
}

/// Errors of the parser.
#[derive(Debug, Clone, PartialEq, Eq)]
pub enum ParserError {
    InternalFunctionReceiverArgMissing,
    FunctionRedefinition(String),
    InvalidImplItem,
    InvalidTraitItem,
    InvalidTraitImplementation(Vec<String>, String),
    CustomItemNotFound(String),
    ExternalFunctionsReturnConcreteTypes,
    TraitNotObject(String),
    InvalidSignatureDefinition,
    InvalidFunctionCallArguments,
    InvalidEllipsisPosition,
    InvalidReceiverPosition,
    InvalidReceiverUsage,
    InvalidFunctionArgumentCount,
    DeterminiateArgumentsFunction,
    TypeMismatch(Type, Type),
    SyntaxError(SyntaxError),
    VariableTypeMismatch(String, Type, Type),
    VariableNotFound(String),
    ArgumentError(String),
    InternalVariableError,
    InternalMathParsingError,
    InternalDesiredTypeMissing,
    DuplicateSignatureImports(String),
    LinkedSourceFileError(String),
    InvalidTypeCast(String, Type),
    InvalidType(Vec<Token>),
    ValueTypeUnknown(String),
    FloatIsNAN,
    TypeMismatchNonIndexable(Type),
    InvalidArrayTypeDefinition(Vec<Token>),
    FunctionRequiresExplicitVisibility,
    InvalidCompilerHint(Token),
    InvalidFunctionFeature(Option<Token>),
    InvalidFeatureRequirement(String, Vec<String>),
    InvalidModulePathDefinition(Token),
    FunctionDependencyNotFound(Vec<String>),
    InvalidUtf8Literal,
    NumberTooLarge,
    EnumVariantNotFound(String),
    TypeWithoutFields(Type),
    EOF,
    MissingVariableValue(String, Type),
    FunctionNameReserved,
    InternalTypetokenNotConvertable,
    LiteralOutOfRange(String),
    LiteralIsNan,
    /// A token that cannot start an expression.
    UnknownExpression,
    /// A generic of a function that is bound by no trait.
    GenericMustHaveAtleastOneTrait,
    /// An imported path that names no file.
    InvalidImportPath,
    /// An import alias that is not a single name at the end of the import.
    InvalidImportAlias,
    /// An import stored under a name that another import already has.
    ImportNameCollision(String),
    /// A malformed argument list in a function's signature.
    InvalidFunctionArgumentDefinition,
    /// An argument named twice in a function's signature.
    DuplicateArguments(String),
    /// `this` in the signature of a function that is not implemented for a type.
    NotImplementingForAny,
    /// A token that names no type where an argument's type is expected.
    InvalidArgumentType,
}

} // verus!
