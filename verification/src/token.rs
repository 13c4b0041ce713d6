use vstd::prelude::*;
use crate::errors::ParserError;

verus! {

/// An arithmetic operator.
#[derive(Debug, Clone, Copy, PartialEq, Eq, Hash, Structural)]
pub enum MathematicalSymbol {
    Addition,
    Subtraction,
    Division,
    Multiplication,
    Modulo,
    Power,
}

/// The relation a comparison asks for.
#[derive(Debug, Clone, Copy, PartialEq, Eq, Hash, Structural)]
pub enum Order {
    Equal,
    NotEqual,
    Bigger,
    EqBigger,
    Smaller,
    EqSmaller,
}

/// Operators between boolean values.
#[derive(Debug, Clone, Copy, PartialEq, Eq, Hash, Structural)]
pub enum LogicalOperator {
    And,
    Or,
    Xor,
}

/// The relation of a comparison expression.
#[derive(Debug, Clone, Copy, PartialEq, Eq, Hash, Structural)]
pub enum Comparison {
    Equal,
    NotEqual,
    Bigger,
    EqBigger,
    Smaller,
    EqSmaller,
}

/// Who may see an item.
#[derive(Debug, Clone, Copy, PartialEq, Eq, Hash, Structural)]
pub enum ItemVisibility {
    /// Not available to any scopes besides the file it was created in (`priv`).
    Private,
    /// Exposed to importers (`pub`).
    Public,
    /// Only accessible from the library it was created in (`publib`).
    PublicLibrary,
    /// Marks a function that is really a branch; only used for debugging.
    Branch,
}

impl Default for ItemVisibility {
    fn default() -> (r: Self)
        ensures
            r == ItemVisibility::Private,
    {
        ItemVisibility::Private
    }
}

/// The kinds of compiler instructions, without their payload.
#[derive(Debug, Clone, Copy, PartialEq, Eq, Hash, Structural)]
pub enum CompilerInstructionDiscriminants {
    Cold,
    NoFree,
    Inline,
    NoUnWind,
    Feature,
}

/// An instruction attached to a function with `@`.
#[derive(Debug, Clone, PartialEq, Eq, Hash)]
pub enum CompilerInstruction {
    /// See the LLVM function attributes.
    Cold,
    NoFree,
    Inline,
    NoUnWind,
    /// Only compile the function when the named feature is enabled.
    Feature(String),
}

impl CompilerInstruction {
    pub open spec fn spec_discriminant(&self) -> CompilerInstructionDiscriminants {
        match self {
            CompilerInstruction::Cold => CompilerInstructionDiscriminants::Cold,
            CompilerInstruction::NoFree => CompilerInstructionDiscriminants::NoFree,
            CompilerInstruction::Inline => CompilerInstructionDiscriminants::Inline,
            CompilerInstruction::NoUnWind => CompilerInstructionDiscriminants::NoUnWind,
            CompilerInstruction::Feature(_) => CompilerInstructionDiscriminants::Feature,
        }
    }

    /// The instruction of the given kind; a feature gets an empty name.
    pub fn from_discriminant(val: CompilerInstructionDiscriminants) -> (r: Self)
        ensures
            r.spec_discriminant() == val,
            r matches CompilerInstruction::Feature(name) ==> name@ == Seq::<char>::empty(),
    {
        match val {
            CompilerInstructionDiscriminants::Cold => CompilerInstruction::Cold,
            CompilerInstructionDiscriminants::NoFree => CompilerInstruction::NoFree,
            CompilerInstructionDiscriminants::Inline => CompilerInstruction::Inline,
            CompilerInstructionDiscriminants::NoUnWind => CompilerInstruction::NoUnWind,
            CompilerInstructionDiscriminants::Feature => CompilerInstruction::Feature(String::new()),
        }
    }
}

/// The words that name a type, as the tokenizer sees them.
#[derive(Debug, Clone, Copy, PartialEq, Eq, Hash, Structural)]
pub enum TypeToken {
    I64,
    F64,
    U64,
    I32,
    F32,
    U32,
    I16,
    F16,
    U16,
    U8,
    String,
    Boolean,
    Void,
    Enum,
    Array,
    Struct,
    Pointer,
    Function,
}

/// A float that is not NaN. The float is held by its IEEE 754 bit pattern
/// (`u16` for half, `u32` for single and `u64` for double precision).
#[derive(Debug, Clone, Copy, PartialEq, Eq, Hash)]
pub struct NotNan<T>(T);

/// The IEEE 754 bit pattern of a float.
pub trait FloatBits: Sized + Copy {
    /// Whether the pattern is a NaN: all exponent bits set and a nonzero mantissa.
    spec fn spec_is_nan(&self) -> bool;

    fn is_nan(&self) -> (r: bool)
        ensures
            r == self.spec_is_nan(),
    ;
}

impl FloatBits for u16 {
    open spec fn spec_is_nan(&self) -> bool {
        *self & 0x7c00u16 == 0x7c00u16 && *self & 0x03ffu16 != 0u16
    }

    fn is_nan(&self) -> (r: bool) {
        *self & 0x7c00u16 == 0x7c00u16 && *self & 0x03ffu16 != 0u16
    }
}

impl FloatBits for u32 {
    open spec fn spec_is_nan(&self) -> bool {
        *self & 0x7f80_0000u32 == 0x7f80_0000u32 && *self & 0x007f_ffffu32 != 0u32
    }

    fn is_nan(&self) -> (r: bool) {
        *self & 0x7f80_0000u32 == 0x7f80_0000u32 && *self & 0x007f_ffffu32 != 0u32
    }
}

impl FloatBits for u64 {
    open spec fn spec_is_nan(&self) -> bool {
        *self & 0x7ff0_0000_0000_0000u64 == 0x7ff0_0000_0000_0000u64 && *self
            & 0x000f_ffff_ffff_ffffu64 != 0u64
    }

    fn is_nan(&self) -> (r: bool) {
        *self & 0x7ff0_0000_0000_0000u64 == 0x7ff0_0000_0000_0000u64 && *self
            & 0x000f_ffff_ffff_ffffu64 != 0u64
    }
}

impl<T: FloatBits> NotNan<T> {
    pub closed spec fn spec_bits(&self) -> T {
        self.0
    }

    /// Wraps the float with the given bit pattern; a NaN is refused.
    pub fn new(inner: T) -> (r: Result<Self, ParserError>)
        ensures
            r is Ok <==> !inner.spec_is_nan(),
            r is Err ==> r == Err::<Self, ParserError>(ParserError::FloatIsNAN),
            r matches Ok(v) ==> v.spec_bits() == inner,
    {
        if inner.is_nan() {
            return Err(ParserError::FloatIsNAN);
        }
        Ok(NotNan(inner))
    }

    /// Wraps the float with the given bit pattern without checking for NaN.
    pub(crate) fn new_unchecked(inner: T) -> (r: Self)
        ensures
            r.spec_bits() == inner,
    {
        NotNan(inner)
    }

    /// The bit pattern of the float.
    pub fn bits(&self) -> (r: T)
        ensures
            r == self.spec_bits(),
    {
        self.0
    }
}


/// A concrete value of the language.
#[derive(Debug, PartialEq, Eq, Hash)]
pub enum Value {
    I64(i64),
    F64(NotNan<u64>),
    U64(u64),
    I32(i32),
    F32(NotNan<u32>),
    U32(u32),
    I16(i16),
    F16(NotNan<u16>),
    U16(u16),
    U8(u8),
    String(String),
    Boolean(bool),
    Void,
    /// The type of the elements and the length.
    Array((Box<Token>, usize)),
    /// The address and the type pointed to, where known.
    Pointer((usize, Option<Box<Token>>)),
}

impl Default for Value {
    fn default() -> (r: Self)
        ensures
            r is Void,
    {
        Value::Void
    }
}

/// A type of the language.
#[derive(Debug, PartialEq, Eq, Hash)]
pub enum Type {
    I64,
    F64,
    U64,
    I32,
    F32,
    U32,
    I16,
    F16,
    U16,
    U8,
    String,
    Boolean,
    Void,
    /// The type of the elements and the length.
    Array((Box<Token>, usize)),
    /// The type pointed to, where known.
    Pointer(Option<Box<Token>>),
    /// A type named by an identifier, to be resolved once the names of the
    /// program are known.
    Unresolved(String),
}

/// The kinds of types, without their payload.
#[derive(Debug, Clone, Copy, PartialEq, Eq, Hash, Structural)]
pub enum TypeDiscriminants {
    I64,
    F64,
    U64,
    I32,
    F32,
    U32,
    I16,
    F16,
    U16,
    U8,
    String,
    Boolean,
    Void,
    Array,
    Pointer,
}

impl Default for Type {
    fn default() -> (r: Self)
        ensures
            r is Void,
    {
        Type::Void
    }
}

/// The type of a value.
pub open spec fn value_type(v: Value) -> Type {
    match v {
        Value::I64(_) => Type::I64,
        Value::F64(_) => Type::F64,
        Value::U64(_) => Type::U64,
        Value::I32(_) => Type::I32,
        Value::F32(_) => Type::F32,
        Value::U32(_) => Type::U32,
        Value::I16(_) => Type::I16,
        Value::F16(_) => Type::F16,
        Value::U16(_) => Type::U16,
        Value::U8(_) => Type::U8,
        Value::String(_) => Type::String,
        Value::Boolean(_) => Type::Boolean,
        Value::Void => Type::Void,
        Value::Array(inner) => Type::Array(inner),
        Value::Pointer((_, inner)) => Type::Pointer(inner),
    }
}

impl Value {
    /// The type of this value.
    pub fn discriminant(&self) -> (r: Type)
        ensures
            r == value_type(*self),
    {
        match self {
            Value::I64(_) => Type::I64,
            Value::F64(_) => Type::F64,
            Value::U64(_) => Type::U64,
            Value::I32(_) => Type::I32,
            Value::F32(_) => Type::F32,
            Value::U32(_) => Type::U32,
            Value::I16(_) => Type::I16,
            Value::F16(_) => Type::F16,
            Value::U16(_) => Type::U16,
            Value::U8(_) => Type::U8,
            Value::String(_) => Type::String,
            Value::Boolean(_) => Type::Boolean,
            Value::Void => Type::Void,
            Value::Array(inner) => Type::Array(clone_array_type(inner)),
            Value::Pointer((_, inner)) => Type::Pointer(clone_pointee(inner)),
        }
    }
}

/// A copy of an array's element type and length.
fn clone_array_type(inner: &(Box<Token>, usize)) -> (r: (Box<Token>, usize))
    ensures
        r == *inner,
{
    (Box::new(clone_token(&inner.0)), inner.1)
}

/// A copy of a pointer's target type.
fn clone_pointee(inner: &Option<Box<Token>>) -> (r: Option<Box<Token>>)
    ensures
        r == *inner,
{
    match inner {
        Some(t) => Some(Box::new(clone_token(t))),
        None => None,
    }
}

impl Type {
    pub open spec fn spec_is_float(&self) -> bool {
        self is F64 || self is F32 || self is F16
    }

    pub open spec fn spec_is_int(&self) -> bool {
        self is I64 || self is I32 || self is I16 || self is U64 || self is U32 || self is U16
            || self is U8
    }

    pub fn is_float(&self) -> (r: bool)
        ensures
            r == self.spec_is_float(),
    {
        matches!(self, Type::F64 | Type::F32 | Type::F16)
    }

    pub fn is_int(&self) -> (r: bool)
        ensures
            r == self.spec_is_int(),
    {
        matches!(
            self,
            Type::I64 | Type::I32 | Type::I16 | Type::U64 | Type::U32 | Type::U16 | Type::U8
        )
    }

    /// The DWARF base type encoding of the type: signed 5, unsigned 7, float 4,
    /// boolean 2, string 12, pointer 15 and array 1. Void has none.
    pub fn get_dwarf_encoding(&self) -> (r: u32)
        requires
            !(self is Void),
            !(self is Unresolved),
        ensures
            self.spec_is_int() && (self is I64 || self is I32 || self is I16) ==> r == 5,
            self is U64 || self is U32 || self is U16 || self is U8 ==> r == 7,
            self.spec_is_float() ==> r == 4,
            self is Boolean ==> r == 2,
            self is String ==> r == 12,
            self is Pointer ==> r == 15,
            self is Array ==> r == 1,
    {
        match self {
            Type::I64 | Type::I32 | Type::I16 => 5,
            Type::U64 | Type::U32 | Type::U16 | Type::U8 => 7,
            Type::F64 | Type::F32 | Type::F16 => 4,
            Type::Boolean => 2,
            Type::String => 12,
            Type::Pointer(_) => 15,
            Type::Array(_) => 1,
            Type::Void | Type::Unresolved(_) => 0,
        }
    }

    /// The zero value of the type: zero numbers, an empty string, `false`,
    /// `Void`, an array of the type's shape and a null pointer of unknown target.
    /// A type not resolved yet has none.
    pub fn into_value_default(&self) -> (r: Value)
        requires
            !(self is Unresolved),
        ensures
            value_type(r) == (match *self {
                Type::Pointer(_) => Type::Pointer(None),
                _ => *self,
            }),
            r matches Value::I64(n) ==> n == 0,
            r matches Value::U64(n) ==> n == 0,
            r matches Value::I32(n) ==> n == 0,
            r matches Value::U32(n) ==> n == 0,
            r matches Value::I16(n) ==> n == 0,
            r matches Value::U16(n) ==> n == 0,
            r matches Value::U8(n) ==> n == 0,
            r matches Value::F64(f) ==> f.spec_bits() == 0,
            r matches Value::F32(f) ==> f.spec_bits() == 0,
            r matches Value::F16(f) ==> f.spec_bits() == 0,
            r matches Value::String(s) ==> s@ == Seq::<char>::empty(),
            r matches Value::Boolean(b) ==> !b,
            r matches Value::Pointer((addr, _)) ==> addr == 0,
    {
        match self {
            Type::I64 => Value::I64(0),
            Type::F64 => Value::F64(NotNan(0u64)),
            Type::U64 => Value::U64(0),
            Type::I32 => Value::I32(0),
            Type::F32 => Value::F32(NotNan(0u32)),
            Type::U32 => Value::U32(0),
            Type::I16 => Value::I16(0),
            Type::F16 => Value::F16(NotNan(0u16)),
            Type::U16 => Value::U16(0),
            Type::U8 => Value::U8(0),
            Type::String => Value::String(String::new()),
            Type::Boolean => Value::Boolean(false),
            Type::Void => Value::Void,
            Type::Array(array) => Value::Array(clone_array_type(array)),
            Type::Pointer(_) => Value::Pointer((0, None)),
            Type::Unresolved(_) => Value::Void,
        }
    }
}

/// The type a type word stands for; enums, arrays, structs and functions
/// need more than the word and are refused.
pub open spec fn type_of_type_token(t: TypeToken) -> Option<Type> {
    match t {
        TypeToken::I64 => Some(Type::I64),
        TypeToken::F64 => Some(Type::F64),
        TypeToken::U64 => Some(Type::U64),
        TypeToken::I32 => Some(Type::I32),
        TypeToken::F32 => Some(Type::F32),
        TypeToken::U32 => Some(Type::U32),
        TypeToken::I16 => Some(Type::I16),
        TypeToken::F16 => Some(Type::F16),
        TypeToken::U16 => Some(Type::U16),
        TypeToken::U8 => Some(Type::U8),
        TypeToken::String => Some(Type::String),
        TypeToken::Boolean => Some(Type::Boolean),
        TypeToken::Void => Some(Type::Void),
        TypeToken::Pointer => Some(Type::Pointer(None)),
        TypeToken::Enum | TypeToken::Array | TypeToken::Struct | TypeToken::Function => None,
    }
}

impl TypeToken {
    /// The type this word stands for; see `type_of_type_token`.
    pub fn try_into_type(self) -> (r: Result<Type, TypeTokenError>)
        ensures
            match type_of_type_token(self) {
                Some(t) => r == Ok::<Type, TypeTokenError>(t),
                None => r is Err,
            },
    {
        match self {
            TypeToken::I64 => Ok(Type::I64),
            TypeToken::F64 => Ok(Type::F64),
            TypeToken::U64 => Ok(Type::U64),
            TypeToken::I32 => Ok(Type::I32),
            TypeToken::F32 => Ok(Type::F32),
            TypeToken::U32 => Ok(Type::U32),
            TypeToken::I16 => Ok(Type::I16),
            TypeToken::F16 => Ok(Type::F16),
            TypeToken::U16 => Ok(Type::U16),
            TypeToken::U8 => Ok(Type::U8),
            TypeToken::String => Ok(Type::String),
            TypeToken::Boolean => Ok(Type::Boolean),
            TypeToken::Void => Ok(Type::Void),
            TypeToken::Pointer => Ok(Type::Pointer(None)),
            TypeToken::Enum | TypeToken::Array | TypeToken::Struct | TypeToken::Function => {
                Err(TypeTokenError)
            },
        }
    }
}

/// The error of converting a type word that needs more than itself.
#[derive(Debug, Clone, Copy, PartialEq, Eq, Hash, Structural)]
pub struct TypeTokenError;

/// The output of the tokenizer.
#[derive(Debug, PartialEq, Eq, Hash)]
pub enum Token {
    /// A concrete value known at tokenization.
    Literal(Value),
    /// A number; its type is decided later.
    UnparsedLiteral(String),
    Identifier(String),
    DocComment(String),
    As,
    /// Marks a variable as non-mutable: `const int marci = 0;`
    Const,
    /// Used when defining statics through FFI.
    Static,
    Variable,
    TypeDefinition(TypeToken),
    /// `...`, for FFI functions only.
    Ellipsis,
    Return,
    /// `<val> <sym> <val>`
    MathSym(MathematicalSymbol),
    /// `<val> <sym>= <val>`
    SetValueMathSym(MathematicalSymbol),
    LogicalOperator(LogicalOperator),
    Not,
    If,
    Else,
    ElseIf,
    Comparison(Order),
    OpenParentheses,
    CloseParentheses,
    OpenBraces,
    CloseBraces,
    OpenSquareBrackets,
    CloseSquareBrackets,
    OpenAngledBrackets,
    CloseAngledBrackets,
    SemiColon,
    Comma,
    DoubleColon,
    Colon,
    Dot,
    /// `=`
    SetValue,
    BitAnd,
    BitOr,
    BitLeft,
    BitRight,
    External,
    Import,
    Loop,
    While,
    For,
    Continue,
    Break,
    Implements,
    Trait,
    This,
    ItemVisibility(ItemVisibility),
    /// `@`
    CompilerHintSymbol,
    CompilerInstruction(CompilerInstructionDiscriminants),
    Export,
    LeftArrow,
    RightArrow,
    Returns,
    Namespace,
    Reference,
    Dereference,
    In,
}

impl Clone for Token {
    fn clone(&self) -> (r: Self)
        ensures
            r == *self,
    {
        clone_token(self)
    }
}

impl Clone for Value {
    fn clone(&self) -> (r: Self)
        ensures
            r == *self,
    {
        clone_value(self)
    }
}

impl Clone for Type {
    fn clone(&self) -> (r: Self)
        ensures
            r == *self,
    {
        match self {
            Type::I64 => Type::I64,
            Type::F64 => Type::F64,
            Type::U64 => Type::U64,
            Type::I32 => Type::I32,
            Type::F32 => Type::F32,
            Type::U32 => Type::U32,
            Type::I16 => Type::I16,
            Type::F16 => Type::F16,
            Type::U16 => Type::U16,
            Type::U8 => Type::U8,
            Type::String => Type::String,
            Type::Boolean => Type::Boolean,
            Type::Void => Type::Void,
            Type::Array(inner) => Type::Array(clone_array_type(inner)),
            Type::Pointer(inner) => Type::Pointer(clone_pointee(inner)),
            Type::Unresolved(name) => Type::Unresolved(name.clone()),
        }
    }
}

/// A copy of a token.
pub fn clone_token(t: &Token) -> (r: Token)
    ensures
        r == *t,
    decreases t,
{
    match t {
        Token::Literal(v) => Token::Literal(clone_value(v)),
        Token::UnparsedLiteral(s) => Token::UnparsedLiteral(s.clone()),
        Token::Identifier(s) => Token::Identifier(s.clone()),
        Token::DocComment(s) => Token::DocComment(s.clone()),
        Token::As => Token::As,
        Token::Const => Token::Const,
        Token::Static => Token::Static,
        Token::Variable => Token::Variable,
        Token::TypeDefinition(t) => Token::TypeDefinition(*t),
        Token::Ellipsis => Token::Ellipsis,
        Token::Return => Token::Return,
        Token::MathSym(s) => Token::MathSym(*s),
        Token::SetValueMathSym(s) => Token::SetValueMathSym(*s),
        Token::LogicalOperator(o) => Token::LogicalOperator(*o),
        Token::Not => Token::Not,
        Token::If => Token::If,
        Token::Else => Token::Else,
        Token::ElseIf => Token::ElseIf,
        Token::Comparison(o) => Token::Comparison(*o),
        Token::OpenParentheses => Token::OpenParentheses,
        Token::CloseParentheses => Token::CloseParentheses,
        Token::OpenBraces => Token::OpenBraces,
        Token::CloseBraces => Token::CloseBraces,
        Token::OpenSquareBrackets => Token::OpenSquareBrackets,
        Token::CloseSquareBrackets => Token::CloseSquareBrackets,
        Token::OpenAngledBrackets => Token::OpenAngledBrackets,
        Token::CloseAngledBrackets => Token::CloseAngledBrackets,
        Token::SemiColon => Token::SemiColon,
        Token::Comma => Token::Comma,
        Token::DoubleColon => Token::DoubleColon,
        Token::Colon => Token::Colon,
        Token::Dot => Token::Dot,
        Token::SetValue => Token::SetValue,
        Token::BitAnd => Token::BitAnd,
        Token::BitOr => Token::BitOr,
        Token::BitLeft => Token::BitLeft,
        Token::BitRight => Token::BitRight,
        Token::External => Token::External,
        Token::Import => Token::Import,
        Token::Loop => Token::Loop,
        Token::While => Token::While,
        Token::For => Token::For,
        Token::Continue => Token::Continue,
        Token::Break => Token::Break,
        Token::Implements => Token::Implements,
        Token::Trait => Token::Trait,
        Token::This => Token::This,
        Token::ItemVisibility(v) => Token::ItemVisibility(*v),
        Token::CompilerHintSymbol => Token::CompilerHintSymbol,
        Token::CompilerInstruction(c) => Token::CompilerInstruction(*c),
        Token::Export => Token::Export,
        Token::LeftArrow => Token::LeftArrow,
        Token::RightArrow => Token::RightArrow,
        Token::Returns => Token::Returns,
        Token::Namespace => Token::Namespace,
        Token::Reference => Token::Reference,
        Token::Dereference => Token::Dereference,
        Token::In => Token::In,
    }
}

/// A copy of a value.
pub fn clone_value(v: &Value) -> (r: Value)
    ensures
        r == *v,
    decreases v,
{
    match v {
        Value::I64(n) => Value::I64(*n),
        Value::F64(f) => Value::F64(*f),
        Value::U64(n) => Value::U64(*n),
        Value::I32(n) => Value::I32(*n),
        Value::F32(f) => Value::F32(*f),
        Value::U32(n) => Value::U32(*n),
        Value::I16(n) => Value::I16(*n),
        Value::F16(f) => Value::F16(*f),
        Value::U16(n) => Value::U16(*n),
        Value::U8(n) => Value::U8(*n),
        Value::String(s) => Value::String(s.clone()),
        Value::Boolean(b) => Value::Boolean(*b),
        Value::Void => Value::Void,
        Value::Array((t, n)) => Value::Array((Box::new(clone_token(t)), *n)),
        Value::Pointer((a, t)) => Value::Pointer(
            (
                *a,
                match t {
                    Some(t) => Some(Box::new(clone_token(t))),
                    None => None,
                },
            ),
        ),
    }
}


/// The kind of a token, without its payload. Arithmetic symbols are
/// flattened: each symbol of `MathSym` and of `SetValueMathSym` has a kind of
/// its own.
#[derive(Debug, Clone, Copy, PartialEq, Eq, Hash, Structural)]
pub enum TokenDiscriminants {
    Literal,
    UnparsedLiteral,
    Identifier,
    DocComment,
    As,
    Const,
    Variable,
    TypeDefinition,
    Ellipsis,
    Return,
    MathSymAddition,
    MathSymSubtraction,
    MathSymDivision,
    MathSymMultiplication,
    MathSymModulo,
    MathSymPower,
    SetValueMathSymAddition,
    SetValueMathSymSubtraction,
    SetValueMathSymDivision,
    SetValueMathSymMultiplication,
    SetValueMathSymModulo,
    SetValueMathSymPower,
    LogicalOperator,
    Not,
    If,
    Else,
    ElseIf,
    Comparison,
    OpenParentheses,
    CloseParentheses,
    OpenBraces,
    CloseBraces,
    OpenSquareBrackets,
    CloseSquareBrackets,
    OpenAngledBrackets,
    CloseAngledBrackets,
    SemiColon,
    Comma,
    DoubleColon,
    Colon,
    Dot,
    SetValue,
    BitAnd,
    BitOr,
    BitLeft,
    BitRight,
    External,
    Import,
    Loop,
    While,
    For,
    Continue,
    Break,
    Implements,
    Trait,
    This,
    ItemVisibility,
    CompilerHintSymbol,
    CompilerInstruction,
    Export,
    LeftArrow,
    RightArrow,
    Returns,
    Namespace,
    Reference,
    Dereference,
    Static,
    In,
}

/// The kind of a token.
pub open spec fn token_kind(t: Token) -> TokenDiscriminants {
    match t {
        Token::Literal(_) => TokenDiscriminants::Literal,
        Token::UnparsedLiteral(_) => TokenDiscriminants::UnparsedLiteral,
        Token::Identifier(_) => TokenDiscriminants::Identifier,
        Token::DocComment(_) => TokenDiscriminants::DocComment,
        Token::TypeDefinition(_) => TokenDiscriminants::TypeDefinition,
        Token::LogicalOperator(_) => TokenDiscriminants::LogicalOperator,
        Token::Comparison(_) => TokenDiscriminants::Comparison,
        Token::ItemVisibility(_) => TokenDiscriminants::ItemVisibility,
        Token::CompilerInstruction(_) => TokenDiscriminants::CompilerInstruction,
        Token::MathSym(sym) => match sym {
            MathematicalSymbol::Addition => TokenDiscriminants::MathSymAddition,
            MathematicalSymbol::Subtraction => TokenDiscriminants::MathSymSubtraction,
            MathematicalSymbol::Division => TokenDiscriminants::MathSymDivision,
            MathematicalSymbol::Multiplication => TokenDiscriminants::MathSymMultiplication,
            MathematicalSymbol::Modulo => TokenDiscriminants::MathSymModulo,
            MathematicalSymbol::Power => TokenDiscriminants::MathSymPower,
        },
        Token::SetValueMathSym(sym) => match sym {
            MathematicalSymbol::Addition => TokenDiscriminants::SetValueMathSymAddition,
            MathematicalSymbol::Subtraction => TokenDiscriminants::SetValueMathSymSubtraction,
            MathematicalSymbol::Division => TokenDiscriminants::SetValueMathSymDivision,
            MathematicalSymbol::Multiplication => TokenDiscriminants::SetValueMathSymMultiplication,
            MathematicalSymbol::Modulo => TokenDiscriminants::SetValueMathSymModulo,
            MathematicalSymbol::Power => TokenDiscriminants::SetValueMathSymPower,
        },
        Token::As => TokenDiscriminants::As,
        Token::Const => TokenDiscriminants::Const,
        Token::Variable => TokenDiscriminants::Variable,
        Token::Ellipsis => TokenDiscriminants::Ellipsis,
        Token::Return => TokenDiscriminants::Return,
        Token::Not => TokenDiscriminants::Not,
        Token::If => TokenDiscriminants::If,
        Token::Else => TokenDiscriminants::Else,
        Token::ElseIf => TokenDiscriminants::ElseIf,
        Token::OpenParentheses => TokenDiscriminants::OpenParentheses,
        Token::CloseParentheses => TokenDiscriminants::CloseParentheses,
        Token::OpenBraces => TokenDiscriminants::OpenBraces,
        Token::CloseBraces => TokenDiscriminants::CloseBraces,
        Token::OpenSquareBrackets => TokenDiscriminants::OpenSquareBrackets,
        Token::CloseSquareBrackets => TokenDiscriminants::CloseSquareBrackets,
        Token::OpenAngledBrackets => TokenDiscriminants::OpenAngledBrackets,
        Token::CloseAngledBrackets => TokenDiscriminants::CloseAngledBrackets,
        Token::SemiColon => TokenDiscriminants::SemiColon,
        Token::Comma => TokenDiscriminants::Comma,
        Token::DoubleColon => TokenDiscriminants::DoubleColon,
        Token::Colon => TokenDiscriminants::Colon,
        Token::Dot => TokenDiscriminants::Dot,
        Token::SetValue => TokenDiscriminants::SetValue,
        Token::BitAnd => TokenDiscriminants::BitAnd,
        Token::BitOr => TokenDiscriminants::BitOr,
        Token::BitLeft => TokenDiscriminants::BitLeft,
        Token::BitRight => TokenDiscriminants::BitRight,
        Token::External => TokenDiscriminants::External,
        Token::Import => TokenDiscriminants::Import,
        Token::Loop => TokenDiscriminants::Loop,
        Token::While => TokenDiscriminants::While,
        Token::For => TokenDiscriminants::For,
        Token::Continue => TokenDiscriminants::Continue,
        Token::Break => TokenDiscriminants::Break,
        Token::Implements => TokenDiscriminants::Implements,
        Token::Trait => TokenDiscriminants::Trait,
        Token::This => TokenDiscriminants::This,
        Token::CompilerHintSymbol => TokenDiscriminants::CompilerHintSymbol,
        Token::Export => TokenDiscriminants::Export,
        Token::LeftArrow => TokenDiscriminants::LeftArrow,
        Token::RightArrow => TokenDiscriminants::RightArrow,
        Token::Returns => TokenDiscriminants::Returns,
        Token::Namespace => TokenDiscriminants::Namespace,
        Token::Reference => TokenDiscriminants::Reference,
        Token::Dereference => TokenDiscriminants::Dereference,
        Token::Static => TokenDiscriminants::Static,
        Token::In => TokenDiscriminants::In,
    }
}

impl Token {
    /// The kind of this token.
    pub fn discriminant(&self) -> (r: TokenDiscriminants)
        ensures
            r == token_kind(*self),
    {
        match self {
            Token::Literal(_) => TokenDiscriminants::Literal,
            Token::UnparsedLiteral(_) => TokenDiscriminants::UnparsedLiteral,
            Token::Identifier(_) => TokenDiscriminants::Identifier,
            Token::DocComment(_) => TokenDiscriminants::DocComment,
            Token::TypeDefinition(_) => TokenDiscriminants::TypeDefinition,
            Token::LogicalOperator(_) => TokenDiscriminants::LogicalOperator,
            Token::Comparison(_) => TokenDiscriminants::Comparison,
            Token::ItemVisibility(_) => TokenDiscriminants::ItemVisibility,
            Token::CompilerInstruction(_) => TokenDiscriminants::CompilerInstruction,
            Token::MathSym(sym) => match sym {
                MathematicalSymbol::Addition => TokenDiscriminants::MathSymAddition,
                MathematicalSymbol::Subtraction => TokenDiscriminants::MathSymSubtraction,
                MathematicalSymbol::Division => TokenDiscriminants::MathSymDivision,
                MathematicalSymbol::Multiplication => TokenDiscriminants::MathSymMultiplication,
                MathematicalSymbol::Modulo => TokenDiscriminants::MathSymModulo,
                MathematicalSymbol::Power => TokenDiscriminants::MathSymPower,
            },
            Token::SetValueMathSym(sym) => match sym {
                MathematicalSymbol::Addition => TokenDiscriminants::SetValueMathSymAddition,
                MathematicalSymbol::Subtraction => TokenDiscriminants::SetValueMathSymSubtraction,
                MathematicalSymbol::Division => TokenDiscriminants::SetValueMathSymDivision,
                MathematicalSymbol::Multiplication => TokenDiscriminants::SetValueMathSymMultiplication,
                MathematicalSymbol::Modulo => TokenDiscriminants::SetValueMathSymModulo,
                MathematicalSymbol::Power => TokenDiscriminants::SetValueMathSymPower,
            },
            Token::As => TokenDiscriminants::As,
            Token::Const => TokenDiscriminants::Const,
            Token::Variable => TokenDiscriminants::Variable,
            Token::Ellipsis => TokenDiscriminants::Ellipsis,
            Token::Return => TokenDiscriminants::Return,
            Token::Not => TokenDiscriminants::Not,
            Token::If => TokenDiscriminants::If,
            Token::Else => TokenDiscriminants::Else,
            Token::ElseIf => TokenDiscriminants::ElseIf,
            Token::OpenParentheses => TokenDiscriminants::OpenParentheses,
            Token::CloseParentheses => TokenDiscriminants::CloseParentheses,
            Token::OpenBraces => TokenDiscriminants::OpenBraces,
            Token::CloseBraces => TokenDiscriminants::CloseBraces,
            Token::OpenSquareBrackets => TokenDiscriminants::OpenSquareBrackets,
            Token::CloseSquareBrackets => TokenDiscriminants::CloseSquareBrackets,
            Token::OpenAngledBrackets => TokenDiscriminants::OpenAngledBrackets,
            Token::CloseAngledBrackets => TokenDiscriminants::CloseAngledBrackets,
            Token::SemiColon => TokenDiscriminants::SemiColon,
            Token::Comma => TokenDiscriminants::Comma,
            Token::DoubleColon => TokenDiscriminants::DoubleColon,
            Token::Colon => TokenDiscriminants::Colon,
            Token::Dot => TokenDiscriminants::Dot,
            Token::SetValue => TokenDiscriminants::SetValue,
            Token::BitAnd => TokenDiscriminants::BitAnd,
            Token::BitOr => TokenDiscriminants::BitOr,
            Token::BitLeft => TokenDiscriminants::BitLeft,
            Token::BitRight => TokenDiscriminants::BitRight,
            Token::External => TokenDiscriminants::External,
            Token::Import => TokenDiscriminants::Import,
            Token::Loop => TokenDiscriminants::Loop,
            Token::While => TokenDiscriminants::While,
            Token::For => TokenDiscriminants::For,
            Token::Continue => TokenDiscriminants::Continue,
            Token::Break => TokenDiscriminants::Break,
            Token::Implements => TokenDiscriminants::Implements,
            Token::Trait => TokenDiscriminants::Trait,
            Token::This => TokenDiscriminants::This,
            Token::CompilerHintSymbol => TokenDiscriminants::CompilerHintSymbol,
            Token::Export => TokenDiscriminants::Export,
            Token::LeftArrow => TokenDiscriminants::LeftArrow,
            Token::RightArrow => TokenDiscriminants::RightArrow,
            Token::Returns => TokenDiscriminants::Returns,
            Token::Namespace => TokenDiscriminants::Namespace,
            Token::Reference => TokenDiscriminants::Reference,
            Token::Dereference => TokenDiscriminants::Dereference,
            Token::Static => TokenDiscriminants::Static,
            Token::In => TokenDiscriminants::In,
        }
    }

    /// Whether this token is of the given kind.
    pub fn is_kind(&self, other: &TokenDiscriminants) -> (r: bool)
        ensures
            r == (token_kind(*self) == *other),
    {
        self.discriminant() == *other
    }
}

} // verus!
