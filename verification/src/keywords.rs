use vstd::prelude::*;
use crate::lexer::keyword;
use crate::token::{
    CompilerInstructionDiscriminants, ItemVisibility, LogicalOperator, MathematicalSymbol, Order, Token, TypeToken, Value,
};

verus! {

/// The number of symbols and keywords of the language.
pub open spec fn keyword_count() -> int {
    85
}

/// The `i`th symbol or keyword of the language, with the token it spells,
/// as the language defines them.
pub open spec fn keyword_entry(i: int) -> (Seq<char>, Token) {
    if i == 0 {
        (seq!['+'], Token::MathSym(MathematicalSymbol::Addition))
    } else if i == 1 {
        (seq!['-'], Token::MathSym(MathematicalSymbol::Subtraction))
    } else if i == 2 {
        (seq!['*'], Token::MathSym(MathematicalSymbol::Multiplication))
    } else if i == 3 {
        (seq!['/'], Token::MathSym(MathematicalSymbol::Division))
    } else if i == 4 {
        (seq!['%'], Token::MathSym(MathematicalSymbol::Modulo))
    } else if i == 5 {
        (seq!['}'], Token::CloseBraces)
    } else if i == 6 {
        (seq!['>'], Token::CloseAngledBrackets)
    } else if i == 7 {
        (seq![')'], Token::CloseParentheses)
    } else if i == 8 {
        (seq![']'], Token::CloseSquareBrackets)
    } else if i == 9 {
        (seq!['{'], Token::OpenBraces)
    } else if i == 10 {
        (seq!['<'], Token::OpenAngledBrackets)
    } else if i == 11 {
        (seq!['('], Token::OpenParentheses)
    } else if i == 12 {
        (seq!['['], Token::OpenSquareBrackets)
    } else if i == 13 {
        (seq![','], Token::Comma)
    } else if i == 14 {
        (seq!['.'], Token::Dot)
    } else if i == 15 {
        (seq!['.', '.', '.'], Token::Ellipsis)
    } else if i == 16 {
        (seq![':'], Token::Colon)
    } else if i == 17 {
        (seq!['i', 'n', 't'], Token::TypeDefinition(TypeToken::I32))
    } else if i == 18 {
        (seq!['u', 'i', 'n', 't'], Token::TypeDefinition(TypeToken::U32))
    } else if i == 19 {
        (seq!['f', 'l', 'o', 'a', 't'], Token::TypeDefinition(TypeToken::F32))
    } else if i == 20 {
        (seq!['i', 'n', 't', 'h', 'a', 'l', 'f'], Token::TypeDefinition(TypeToken::I16))
    } else if i == 21 {
        (seq!['u', 'i', 'n', 't', 'h', 'a', 'l', 'f'], Token::TypeDefinition(TypeToken::U16))
    } else if i == 22 {
        (seq!['f', 'l', 'o', 'a', 't', 'h', 'a', 'l', 'f'], Token::TypeDefinition(TypeToken::F16))
    } else if i == 23 {
        (seq!['i', 'n', 't', 'l', 'o', 'n', 'g'], Token::TypeDefinition(TypeToken::I64))
    } else if i == 24 {
        (seq!['u', 'i', 'n', 't', 'l', 'o', 'n', 'g'], Token::TypeDefinition(TypeToken::U64))
    } else if i == 25 {
        (seq!['f', 'l', 'o', 'a', 't', 'l', 'o', 'n', 'g'], Token::TypeDefinition(TypeToken::F64))
    } else if i == 26 {
        (seq!['u', 'i', 'n', 't', 's', 'm', 'a', 'l', 'l'], Token::TypeDefinition(TypeToken::U8))
    } else if i == 27 {
        (seq!['b', 'o', 'o', 'l'], Token::TypeDefinition(TypeToken::Boolean))
    } else if i == 28 {
        (seq!['v', 'o', 'i', 'd'], Token::TypeDefinition(TypeToken::Void))
    } else if i == 29 {
        (seq!['s', 't', 'r', 'i', 'n', 'g'], Token::TypeDefinition(TypeToken::String))
    } else if i == 30 {
        (seq!['a', 'r', 'r', 'a', 'y'], Token::TypeDefinition(TypeToken::Array))
    } else if i == 31 {
        (seq!['s', 't', 'r', 'u', 'c', 't'], Token::TypeDefinition(TypeToken::Struct))
    } else if i == 32 {
        (seq!['e', 'n', 'u', 'm'], Token::TypeDefinition(TypeToken::Enum))
    } else if i == 33 {
        (seq!['p', 't', 'r'], Token::TypeDefinition(TypeToken::Pointer))
    } else if i == 34 {
        (seq!['r', 'e', 'f'], Token::Reference)
    } else if i == 35 {
        (seq!['d', 'e', 'r', 'e', 'f'], Token::Dereference)
    } else if i == 36 {
        (seq!['=', '='], Token::Comparison(Order::Equal))
    } else if i == 37 {
        (seq!['!', '='], Token::Comparison(Order::NotEqual))
    } else if i == 38 {
        (seq!['>', '='], Token::Comparison(Order::EqBigger))
    } else if i == 39 {
        (seq!['<', '='], Token::Comparison(Order::EqSmaller))
    } else if i == 40 {
        (seq!['&', '&'], Token::LogicalOperator(LogicalOperator::And))
    } else if i == 41 {
        (seq!['|', '|'], Token::LogicalOperator(LogicalOperator::Or))
    } else if i == 42 {
        (seq!['=', '+'], Token::SetValueMathSym(MathematicalSymbol::Addition))
    } else if i == 43 {
        (seq!['=', '-'], Token::SetValueMathSym(MathematicalSymbol::Subtraction))
    } else if i == 44 {
        (seq!['=', '*'], Token::SetValueMathSym(MathematicalSymbol::Multiplication))
    } else if i == 45 {
        (seq!['=', '/'], Token::SetValueMathSym(MathematicalSymbol::Division))
    } else if i == 46 {
        (seq!['%', '='], Token::SetValueMathSym(MathematicalSymbol::Modulo))
    } else if i == 47 {
        (seq!['f', 'a', 'l', 's', 'e'], Token::Literal(Value::Boolean(false)))
    } else if i == 48 {
        (seq!['t', 'r', 'u', 'e'], Token::Literal(Value::Boolean(true)))
    } else if i == 49 {
        (seq!['e', 'x', 't', 'e', 'r', 'n', 'a', 'l'], Token::External)
    } else if i == 50 {
        (seq!['i', 'm', 'p', 'o', 'r', 't'], Token::Import)
    } else if i == 51 {
        (seq!['f', 'u', 'n', 'c', 't', 'i', 'o', 'n'], Token::TypeDefinition(TypeToken::Function))
    } else if i == 52 {
        (seq!['r', 'e', 't', 'u', 'r', 'n'], Token::Return)
    } else if i == 53 {
        (seq!['a', 's'], Token::As)
    } else if i == 54 {
        (seq!['i', 'f'], Token::If)
    } else if i == 55 {
        (seq!['e', 'l', 's', 'e'], Token::Else)
    } else if i == 56 {
        (seq!['e', 'l', 's', 'e', 'i', 'f'], Token::ElseIf)
    } else if i == 57 {
        (seq!['l', 'o', 'o', 'p'], Token::Loop)
    } else if i == 58 {
        (seq!['f', 'o', 'r'], Token::For)
    } else if i == 59 {
        (seq!['w', 'h', 'i', 'l', 'e'], Token::While)
    } else if i == 60 {
        (seq!['b', 'r', 'e', 'a', 'k'], Token::Break)
    } else if i == 61 {
        (seq!['c', 'o', 'n', 't', 'i', 'n', 'u', 'e'], Token::Continue)
    } else if i == 62 {
        (seq!['p', 'r', 'i', 'v'], Token::ItemVisibility(ItemVisibility::Private))
    } else if i == 63 {
        (seq!['p', 'u', 'b'], Token::ItemVisibility(ItemVisibility::Public))
    } else if i == 64 {
        (seq!['p', 'u', 'b', 'l', 'i', 'b'], Token::ItemVisibility(ItemVisibility::PublicLibrary))
    } else if i == 65 {
        (seq!['e', 'x', 'p'], Token::Export)
    } else if i == 66 {
        (seq!['c', 'o', 'l', 'd'], Token::CompilerInstruction(CompilerInstructionDiscriminants::Cold))
    } else if i == 67 {
        (seq!['n', 'o', 'f', 'r', 'e', 'e'], Token::CompilerInstruction(CompilerInstructionDiscriminants::NoFree))
    } else if i == 68 {
        (seq!['n', 'o', 'u', 'n', 'w', 'i', 'n', 'd'], Token::CompilerInstruction(CompilerInstructionDiscriminants::NoUnWind))
    } else if i == 69 {
        (seq!['i', 'n', 'l', 'i', 'n', 'e'], Token::CompilerInstruction(CompilerInstructionDiscriminants::Inline))
    } else if i == 70 {
        (seq!['f', 'e', 'a', 't', 'u', 'r', 'e'], Token::CompilerInstruction(CompilerInstructionDiscriminants::Feature))
    } else if i == 71 {
        (seq![':', ':'], Token::DoubleColon)
    } else if i == 72 {
        (seq!['<', '-'], Token::LeftArrow)
    } else if i == 73 {
        (seq!['-', '>'], Token::RightArrow)
    } else if i == 74 {
        (seq!['='], Token::SetValue)
    } else if i == 75 {
        (seq!['b', '>', '>'], Token::BitRight)
    } else if i == 76 {
        (seq!['b', '<', '<'], Token::BitLeft)
    } else if i == 77 {
        (seq!['|'], Token::BitOr)
    } else if i == 78 {
        (seq!['&'], Token::BitAnd)
    } else if i == 79 {
        (seq!['@'], Token::CompilerHintSymbol)
    } else if i == 80 {
        (seq![';'], Token::SemiColon)
    } else if i == 81 {
        (seq!['c', 'o', 'n', 's', 't'], Token::Const)
    } else if i == 82 {
        (seq!['s', 't', 'a', 't', 'i', 'c'], Token::Static)
    } else if i == 83 {
        (seq!['v', 'a', 'r'], Token::Variable)
    } else {
        (seq!['n', 'a', 'm', 'e', 's', 'p', 'a', 'c', 'e'], Token::Namespace)
    }
}

proof fn lemma_keywords_0_10()
    ensures
        forall|i: int| 0 <= i < 10 ==> keyword(#[trigger] keyword_entry(i).0) == Some(keyword_entry(i).1),
{
    reveal(keyword);
    assert(keyword(keyword_entry(0).0) == Some(keyword_entry(0).1));
    assert(keyword(keyword_entry(1).0) == Some(keyword_entry(1).1));
    assert(keyword(keyword_entry(2).0) == Some(keyword_entry(2).1));
    assert(keyword(keyword_entry(3).0) == Some(keyword_entry(3).1));
    assert(keyword(keyword_entry(4).0) == Some(keyword_entry(4).1));
    assert(keyword(keyword_entry(5).0) == Some(keyword_entry(5).1));
    assert(keyword(keyword_entry(6).0) == Some(keyword_entry(6).1));
    assert(keyword(keyword_entry(7).0) == Some(keyword_entry(7).1));
    assert(keyword(keyword_entry(8).0) == Some(keyword_entry(8).1));
    assert(keyword(keyword_entry(9).0) == Some(keyword_entry(9).1));
    assert forall|i: int| 0 <= i < 10 implies keyword(#[trigger] keyword_entry(i).0) == Some(keyword_entry(i).1) by {
        if i == 0 {} if i == 1 {} if i == 2 {} if i == 3 {} if i == 4 {} if i == 5 {} if i == 6 {} if i == 7 {} if i == 8 {} if i == 9 {}
    }
}

proof fn lemma_keywords_10_20()
    ensures
        forall|i: int| 10 <= i < 20 ==> keyword(#[trigger] keyword_entry(i).0) == Some(keyword_entry(i).1),
{
    reveal(keyword);
    assert(keyword(keyword_entry(10).0) == Some(keyword_entry(10).1));
    assert(keyword(keyword_entry(11).0) == Some(keyword_entry(11).1));
    assert(keyword(keyword_entry(12).0) == Some(keyword_entry(12).1));
    assert(keyword(keyword_entry(13).0) == Some(keyword_entry(13).1));
    assert(keyword(keyword_entry(14).0) == Some(keyword_entry(14).1));
    assert(keyword(keyword_entry(15).0) == Some(keyword_entry(15).1));
    assert(keyword(keyword_entry(16).0) == Some(keyword_entry(16).1));
    assert(keyword(keyword_entry(17).0) == Some(keyword_entry(17).1));
    assert(keyword(keyword_entry(18).0) == Some(keyword_entry(18).1));
    assert(keyword(keyword_entry(19).0) == Some(keyword_entry(19).1));
    assert forall|i: int| 10 <= i < 20 implies keyword(#[trigger] keyword_entry(i).0) == Some(keyword_entry(i).1) by {
        if i == 10 {} if i == 11 {} if i == 12 {} if i == 13 {} if i == 14 {} if i == 15 {} if i == 16 {} if i == 17 {} if i == 18 {} if i == 19 {}
    }
}

proof fn lemma_keywords_20_30()
    ensures
        forall|i: int| 20 <= i < 30 ==> keyword(#[trigger] keyword_entry(i).0) == Some(keyword_entry(i).1),
{
    reveal(keyword);
    assert(keyword(keyword_entry(20).0) == Some(keyword_entry(20).1));
    assert(keyword(keyword_entry(21).0) == Some(keyword_entry(21).1));
    assert(keyword(keyword_entry(22).0) == Some(keyword_entry(22).1));
    assert(keyword(keyword_entry(23).0) == Some(keyword_entry(23).1));
    assert(keyword(keyword_entry(24).0) == Some(keyword_entry(24).1));
    assert(keyword(keyword_entry(25).0) == Some(keyword_entry(25).1));
    assert(keyword(keyword_entry(26).0) == Some(keyword_entry(26).1));
    assert(keyword(keyword_entry(27).0) == Some(keyword_entry(27).1));
    assert(keyword(keyword_entry(28).0) == Some(keyword_entry(28).1));
    assert(keyword(keyword_entry(29).0) == Some(keyword_entry(29).1));
    assert forall|i: int| 20 <= i < 30 implies keyword(#[trigger] keyword_entry(i).0) == Some(keyword_entry(i).1) by {
        if i == 20 {} if i == 21 {} if i == 22 {} if i == 23 {} if i == 24 {} if i == 25 {} if i == 26 {} if i == 27 {} if i == 28 {} if i == 29 {}
    }
}

proof fn lemma_keywords_30_40()
    ensures
        forall|i: int| 30 <= i < 40 ==> keyword(#[trigger] keyword_entry(i).0) == Some(keyword_entry(i).1),
{
    reveal(keyword);
    assert(keyword(keyword_entry(30).0) == Some(keyword_entry(30).1));
    assert(keyword(keyword_entry(31).0) == Some(keyword_entry(31).1));
    assert(keyword(keyword_entry(32).0) == Some(keyword_entry(32).1));
    assert(keyword(keyword_entry(33).0) == Some(keyword_entry(33).1));
    assert(keyword(keyword_entry(34).0) == Some(keyword_entry(34).1));
    assert(keyword(keyword_entry(35).0) == Some(keyword_entry(35).1));
    assert(keyword(keyword_entry(36).0) == Some(keyword_entry(36).1));
    assert(keyword(keyword_entry(37).0) == Some(keyword_entry(37).1));
    assert(keyword(keyword_entry(38).0) == Some(keyword_entry(38).1));
    assert(keyword(keyword_entry(39).0) == Some(keyword_entry(39).1));
    assert forall|i: int| 30 <= i < 40 implies keyword(#[trigger] keyword_entry(i).0) == Some(keyword_entry(i).1) by {
        if i == 30 {} if i == 31 {} if i == 32 {} if i == 33 {} if i == 34 {} if i == 35 {} if i == 36 {} if i == 37 {} if i == 38 {} if i == 39 {}
    }
}

proof fn lemma_keywords_40_50()
    ensures
        forall|i: int| 40 <= i < 50 ==> keyword(#[trigger] keyword_entry(i).0) == Some(keyword_entry(i).1),
{
    reveal(keyword);
    assert(keyword(keyword_entry(40).0) == Some(keyword_entry(40).1));
    assert(keyword(keyword_entry(41).0) == Some(keyword_entry(41).1));
    assert(keyword(keyword_entry(42).0) == Some(keyword_entry(42).1));
    assert(keyword(keyword_entry(43).0) == Some(keyword_entry(43).1));
    assert(keyword(keyword_entry(44).0) == Some(keyword_entry(44).1));
    assert(keyword(keyword_entry(45).0) == Some(keyword_entry(45).1));
    assert(keyword(keyword_entry(46).0) == Some(keyword_entry(46).1));
    assert(keyword(keyword_entry(47).0) == Some(keyword_entry(47).1));
    assert(keyword(keyword_entry(48).0) == Some(keyword_entry(48).1));
    assert(keyword(keyword_entry(49).0) == Some(keyword_entry(49).1));
    assert forall|i: int| 40 <= i < 50 implies keyword(#[trigger] keyword_entry(i).0) == Some(keyword_entry(i).1) by {
        if i == 40 {} if i == 41 {} if i == 42 {} if i == 43 {} if i == 44 {} if i == 45 {} if i == 46 {} if i == 47 {} if i == 48 {} if i == 49 {}
    }
}

proof fn lemma_keywords_50_60()
    ensures
        forall|i: int| 50 <= i < 60 ==> keyword(#[trigger] keyword_entry(i).0) == Some(keyword_entry(i).1),
{
    reveal(keyword);
    assert(keyword(keyword_entry(50).0) == Some(keyword_entry(50).1));
    assert(keyword(keyword_entry(51).0) == Some(keyword_entry(51).1));
    assert(keyword(keyword_entry(52).0) == Some(keyword_entry(52).1));
    assert(keyword(keyword_entry(53).0) == Some(keyword_entry(53).1));
    assert(keyword(keyword_entry(54).0) == Some(keyword_entry(54).1));
    assert(keyword(keyword_entry(55).0) == Some(keyword_entry(55).1));
    assert(keyword(keyword_entry(56).0) == Some(keyword_entry(56).1));
    assert(keyword(keyword_entry(57).0) == Some(keyword_entry(57).1));
    assert(keyword(keyword_entry(58).0) == Some(keyword_entry(58).1));
    assert(keyword(keyword_entry(59).0) == Some(keyword_entry(59).1));
    assert forall|i: int| 50 <= i < 60 implies keyword(#[trigger] keyword_entry(i).0) == Some(keyword_entry(i).1) by {
        if i == 50 {} if i == 51 {} if i == 52 {} if i == 53 {} if i == 54 {} if i == 55 {} if i == 56 {} if i == 57 {} if i == 58 {} if i == 59 {}
    }
}

proof fn lemma_keywords_60_70()
    ensures
        forall|i: int| 60 <= i < 70 ==> keyword(#[trigger] keyword_entry(i).0) == Some(keyword_entry(i).1),
{
    reveal(keyword);
    assert(keyword(keyword_entry(60).0) == Some(keyword_entry(60).1));
    assert(keyword(keyword_entry(61).0) == Some(keyword_entry(61).1));
    assert(keyword(keyword_entry(62).0) == Some(keyword_entry(62).1));
    assert(keyword(keyword_entry(63).0) == Some(keyword_entry(63).1));
    assert(keyword(keyword_entry(64).0) == Some(keyword_entry(64).1));
    assert(keyword(keyword_entry(65).0) == Some(keyword_entry(65).1));
    assert(keyword(keyword_entry(66).0) == Some(keyword_entry(66).1));
    assert(keyword(keyword_entry(67).0) == Some(keyword_entry(67).1));
    assert(keyword(keyword_entry(68).0) == Some(keyword_entry(68).1));
    assert(keyword(keyword_entry(69).0) == Some(keyword_entry(69).1));
    assert forall|i: int| 60 <= i < 70 implies keyword(#[trigger] keyword_entry(i).0) == Some(keyword_entry(i).1) by {
        if i == 60 {} if i == 61 {} if i == 62 {} if i == 63 {} if i == 64 {} if i == 65 {} if i == 66 {} if i == 67 {} if i == 68 {} if i == 69 {}
    }
}

proof fn lemma_keywords_70_80()
    ensures
        forall|i: int| 70 <= i < 80 ==> keyword(#[trigger] keyword_entry(i).0) == Some(keyword_entry(i).1),
{
    reveal(keyword);
    assert(keyword(keyword_entry(70).0) == Some(keyword_entry(70).1));
    assert(keyword(keyword_entry(71).0) == Some(keyword_entry(71).1));
    assert(keyword(keyword_entry(72).0) == Some(keyword_entry(72).1));
    assert(keyword(keyword_entry(73).0) == Some(keyword_entry(73).1));
    assert(keyword(keyword_entry(74).0) == Some(keyword_entry(74).1));
    assert(keyword(keyword_entry(75).0) == Some(keyword_entry(75).1));
    assert(keyword(keyword_entry(76).0) == Some(keyword_entry(76).1));
    assert(keyword(keyword_entry(77).0) == Some(keyword_entry(77).1));
    assert(keyword(keyword_entry(78).0) == Some(keyword_entry(78).1));
    assert(keyword(keyword_entry(79).0) == Some(keyword_entry(79).1));
    assert forall|i: int| 70 <= i < 80 implies keyword(#[trigger] keyword_entry(i).0) == Some(keyword_entry(i).1) by {
        if i == 70 {} if i == 71 {} if i == 72 {} if i == 73 {} if i == 74 {} if i == 75 {} if i == 76 {} if i == 77 {} if i == 78 {} if i == 79 {}
    }
}

proof fn lemma_keywords_80_85()
    ensures
        forall|i: int| 80 <= i < 85 ==> keyword(#[trigger] keyword_entry(i).0) == Some(keyword_entry(i).1),
{
    reveal(keyword);
    assert(keyword(keyword_entry(80).0) == Some(keyword_entry(80).1));
    assert(keyword(keyword_entry(81).0) == Some(keyword_entry(81).1));
    assert(keyword(keyword_entry(82).0) == Some(keyword_entry(82).1));
    assert(keyword(keyword_entry(83).0) == Some(keyword_entry(83).1));
    assert(keyword(keyword_entry(84).0) == Some(keyword_entry(84).1));
    assert forall|i: int| 80 <= i < 85 implies keyword(#[trigger] keyword_entry(i).0) == Some(keyword_entry(i).1) by {
        if i == 80 {} if i == 81 {} if i == 82 {} if i == 83 {} if i == 84 {}
    }
}

/// Every symbol and keyword of the language reads as the token the
/// language gives it: the word alone spells that token and no other.
pub proof fn law_keywords_spell_their_tokens()
    ensures
        forall|i: int| 0 <= i < keyword_count() ==> keyword(#[trigger] keyword_entry(i).0) == Some(keyword_entry(i).1),
{
    lemma_keywords_0_10();
    lemma_keywords_10_20();
    lemma_keywords_20_30();
    lemma_keywords_30_40();
    lemma_keywords_40_50();
    lemma_keywords_50_60();
    lemma_keywords_60_70();
    lemma_keywords_70_80();
    lemma_keywords_80_85();
}

} // verus!
